use vstd::prelude::*;

use vstd::multiset::Multiset;
use vstd::string::StringSliceAdditionalSpecFns;

use crate::error::Error;
use crate::shared::hmac256::{hmac_sha256, spec_hmac_sha256};
use crate::telegram::data_check::{
    append_bytes, byte_order, join_lines, join_with_newlines, lemma_join_ignores_line_order, lines_view,
    sort_lines,
};

verus! {

/// A name and a value of `initData`, as bytes of UTF-8.
pub type Field = (Seq<u8>, Seq<u8>);

/// The name-value pairs that `form_urlencoded::parse` of the `url` crate
/// yields for `input`, in order, percent-decoded and as UTF-8 bytes.
pub uninterp spec fn spec_form_urlencoded_parse(input: Seq<u8>) -> Seq<Field>;

/// The fields that a vector of byte pairs holds.
pub open spec fn fields_view(v: Seq<(Vec<u8>, Vec<u8>)>) -> Seq<Field> {
    v.map_values(|f: (Vec<u8>, Vec<u8>)| (f.0@, f.1@))
}

/// Calls `url::form_urlencoded::parse` and takes each decoded name and
/// value as its UTF-8 bytes. Claimed: the pairs are
/// `spec_form_urlencoded_parse(input)`, a function of the input alone.
#[verifier::external_body]
fn form_urlencoded_parse(input: &[u8]) -> (fields: Vec<(Vec<u8>, Vec<u8>)>)
    ensures
        fields_view(fields@) == spec_form_urlencoded_parse(input@),
{
    url::form_urlencoded::parse(input).map(
        |(name, value)| (name.into_owned().into_bytes(), value.into_owned().into_bytes()),
    ).collect()
}

/// The ASCII byte of a hexadecimal digit, in lower case.
pub open spec fn hex_digit(nibble: int) -> u8 {
    if nibble < 10 {
        (48 + nibble) as u8  // '0'..='9'
    } else {
        (97 + nibble - 10) as u8  // 'a'..='f'
    }
}

/// Lower-case hexadecimal: two digits per byte, the high nibble first.
pub open spec fn spec_hex_lower(data: Seq<u8>) -> Seq<u8>
    decreases data.len(),
{
    if data.len() == 0 {
        Seq::empty()
    } else {
        spec_hex_lower(data.drop_last()) + seq![hex_digit(data.last() as int / 16), hex_digit(data.last() as int % 16)]
    }
}

/// Calls `hex::encode` and takes the string's bytes. Claimed, as the
/// crate's source shows (`HEX_CHARS_LOWER`, high nibble first): the bytes
/// are `spec_hex_lower(data)`.
#[verifier::external_body]
fn hex_encode(data: &[u8]) -> (hex: Vec<u8>)
    ensures
        hex@ == spec_hex_lower(data@),
{
    hex::encode(data).into_bytes()
}

/// The byte `=` between a field's name and its value.
pub const EQUALS: u8 = 61;

/// The name of the field that holds the signature: `hash`.
pub open spec fn hash_field() -> Seq<u8> {
    seq![104u8, 97u8, 115u8, 104u8]  // h a s h
}

/// The name of the field that holds the user: `user`.
pub open spec fn user_field() -> Seq<u8> {
    seq![117u8, 115u8, 101u8, 114u8]  // u s e r
}

/// The key under which the bot token is turned into the signing secret:
/// `WebAppData`.
pub open spec fn web_app_data() -> Seq<u8> {
    // W e b A p p D a t a
    seq![87u8, 101u8, 98u8, 65u8, 112u8, 112u8, 68u8, 97u8, 116u8, 97u8]
}

/// A field as a line of the data-check string: `name=value`.
pub open spec fn pair_line(name: Seq<u8>, value: Seq<u8>) -> Seq<u8> {
    name + seq![EQUALS] + value
}

/// The lines of every field but `hash`, in the order of the fields.
pub open spec fn signed_lines(fields: Seq<Field>) -> Seq<Seq<u8>>
    decreases fields.len(),
{
    if fields.len() == 0 {
        Seq::empty()
    } else {
        let rest = signed_lines(fields.drop_last());
        let f = fields.last();
        if f.0 == hash_field() {
            rest
        } else {
            rest.push(pair_line(f.0, f.1))
        }
    }
}

/// The values of every `user` field, in order.
pub open spec fn user_values(fields: Seq<Field>) -> Seq<Seq<u8>>
    decreases fields.len(),
{
    if fields.len() == 0 {
        Seq::empty()
    } else {
        let rest = user_values(fields.drop_last());
        let f = fields.last();
        if f.0 == user_field() {
            rest.push(f.1)
        } else {
            rest
        }
    }
}

/// The value of the last field named `name`, if there is one.
pub open spec fn last_value(fields: Seq<Field>, name: Seq<u8>) -> Option<Seq<u8>>
    decreases fields.len(),
{
    if fields.len() == 0 {
        None
    } else if fields.last().0 == name {
        Some(fields.last().1)
    } else {
        last_value(fields.drop_last(), name)
    }
}

/// The data-check string: the lines of the signed fields in byte order,
/// joined by `\n`.
pub open spec fn data_check_string(fields: Seq<Field>) -> Seq<u8> {
    join_lines(signed_lines(fields).sort_by(byte_order()))
}

/// The signature that fields signed with a bot's token carry: the
/// HMAC-SHA-256 of the data-check string under the HMAC-SHA-256 of the
/// token under `WebAppData`.
pub open spec fn init_data_digest(fields: Seq<Field>, bot_token: Seq<u8>) -> Seq<u8> {
    spec_hmac_sha256(spec_hmac_sha256(web_app_data(), bot_token), data_check_string(fields))
}

/// The verdict on the fields, given the digest computed for them: the
/// value of the last `user` field when the last `hash` field is the
/// digest in lower-case hexadecimal, or else the reason for refusal.
pub open spec fn init_data_verdict(fields: Seq<Field>, digest: Seq<u8>) -> Result<Seq<u8>, Seq<char>> {
    match last_value(fields, hash_field()) {
        None => Err("Missing hash"@),
        Some(hash) => match last_value(fields, user_field()) {
            None => Err("Missing user"@),
            Some(user) => if spec_hex_lower(digest) == hash {
                Ok(user)
            } else {
                Err("Hash is not valid"@)
            },
        },
    }
}

/// `outcome` agrees with `verdict`: it holds the user's bytes, or an
/// `Unauthorized` error with the reason.
pub open spec fn outcome_is(outcome: Result<Vec<u8>, Error>, verdict: Result<Seq<u8>, Seq<char>>) -> bool {
    match verdict {
        Ok(user) => outcome matches Ok(v) && v@ == user,
        Err(reason) => outcome matches Err(Error::Unauthorized(m)) && m@ == reason,
    }
}

/// The result of checking a mini app's `initData`.
///
/// `user_fields` are the values of every `user` field in order; each one
/// is JSON that the caller decodes, and the first that does not decode is
/// the error of the whole check. When all do, `outcome` is the answer:
/// the last `user` value, or why the data is refused.
#[derive(Debug)]
pub struct InitDataCheck {
    pub user_fields: Vec<Vec<u8>>,
    pub outcome: Result<Vec<u8>, Error>,
}

/// `check` is the check of `fields` whose computed digest is `digest`.
pub open spec fn check_is(check: InitDataCheck, fields: Seq<Field>, digest: Seq<u8>) -> bool {
    &&& lines_view(check.user_fields@) == user_values(fields)
    &&& outcome_is(check.outcome, init_data_verdict(fields, digest))
}

/// The lines a single field adds to the data-check string.
pub open spec fn field_lines(f: Field) -> Multiset<Seq<u8>> {
    if f.0 == hash_field() {
        Multiset::empty()
    } else {
        Multiset::empty().insert(pair_line(f.0, f.1))
    }
}

proof fn lemma_signed_lines_remove(fields: Seq<Field>, k: int)
    requires
        0 <= k < fields.len(),
    ensures
        signed_lines(fields).to_multiset() == signed_lines(fields.remove(k)).to_multiset().add(field_lines(fields[k])),
    decreases fields.len(),
{
    broadcast use vstd::multiset::group_multiset_axioms;
    let last = fields.last();
    let rest = signed_lines(fields.drop_last());
    if last.0 != hash_field() {
        rest.to_multiset_ensures();
    }
    if k == fields.len() - 1 {
        assert(fields.remove(k) =~= fields.drop_last());
        assert(signed_lines(fields).to_multiset() =~= rest.to_multiset().add(field_lines(last)));
    } else {
        lemma_signed_lines_remove(fields.drop_last(), k);
        let shorter = fields.remove(k);
        assert(shorter.drop_last() =~= fields.drop_last().remove(k));
        assert(shorter.last() == last);
        let rest2 = signed_lines(shorter.drop_last());
        if last.0 != hash_field() {
            rest2.to_multiset_ensures();
        }
        assert(signed_lines(fields).to_multiset() =~= signed_lines(shorter).to_multiset().add(field_lines(fields[k])));
    }
}

/// Fields that are the same up to their order sign the same lines.
pub proof fn lemma_signed_lines_ignore_order(fields1: Seq<Field>, fields2: Seq<Field>)
    requires
        fields1.to_multiset() == fields2.to_multiset(),
    ensures
        signed_lines(fields1).to_multiset() == signed_lines(fields2).to_multiset(),
    decreases fields1.len(),
{
    broadcast use vstd::multiset::group_multiset_axioms;
    broadcast use vstd::seq_lib::group_to_multiset_ensures;
    fields1.to_multiset_ensures();
    fields2.to_multiset_ensures();
    if fields1.len() == 0 {
        assert(fields2.len() == 0);
        assert(fields2 =~= Seq::<Field>::empty());
        assert(fields1 =~= Seq::<Field>::empty());
    } else {
        let x = fields1.last();
        assert(fields1.drop_last().push(x) =~= fields1);
        assert(fields1.to_multiset().count(x) > 0);
        assert(fields2.contains(x));
        let k = choose|k: int| 0 <= k < fields2.len() && fields2[k] == x;
        assert(fields1.drop_last().to_multiset() =~= fields2.remove(k).to_multiset());
        lemma_signed_lines_ignore_order(fields1.drop_last(), fields2.remove(k));
        lemma_signed_lines_remove(fields2, k);
        let rest = signed_lines(fields1.drop_last());
        if x.0 != hash_field() {
            rest.to_multiset_ensures();
        }
        assert(signed_lines(fields1).to_multiset() =~= rest.to_multiset().add(field_lines(x)));
    }
}

/// The data-check string does not depend on the order of the fields:
/// `initData` whose fields come in any order signs the same string.
pub proof fn lemma_data_check_ignores_field_order(fields1: Seq<Field>, fields2: Seq<Field>)
    requires
        fields1.to_multiset() == fields2.to_multiset(),
    ensures
        data_check_string(fields1) == data_check_string(fields2),
        init_data_digest_ignores_order(fields1, fields2),
{
    lemma_signed_lines_ignore_order(fields1, fields2);
    lemma_join_ignores_line_order(signed_lines(fields1), signed_lines(fields2));
}

/// Both field arrangements have the same digest under every bot token.
pub open spec fn init_data_digest_ignores_order(fields1: Seq<Field>, fields2: Seq<Field>) -> bool {
    forall|token: Seq<u8>| #[trigger] init_data_digest(fields1, token) == init_data_digest(fields2, token)
}

/// `initData` whose last `hash` field is the lower-case hex of the digest
/// made with the bot's token, and that has a `user` field, is accepted
/// with its last `user` value.
pub proof fn lemma_signed_init_data_is_accepted(fields: Seq<Field>, bot_token: Seq<u8>, user: Seq<u8>)
    requires
        last_value(fields, hash_field()) == Some(spec_hex_lower(init_data_digest(fields, bot_token))),
        last_value(fields, user_field()) == Some(user),
    ensures
        init_data_verdict(fields, init_data_digest(fields, bot_token)) == Ok::<Seq<u8>, Seq<char>>(user),
{
}

/// `initData` whose last `hash` field is anything but the lower-case hex
/// of the digest made with the bot's token is refused.
pub proof fn lemma_unsigned_init_data_is_refused(fields: Seq<Field>, bot_token: Seq<u8>)
    requires
        last_value(fields, hash_field()) != Some(spec_hex_lower(init_data_digest(fields, bot_token))),
    ensures
        init_data_verdict(fields, init_data_digest(fields, bot_token)) is Err,
{
}

/// Reordering the fields of `initData` changes no verdict, as long as the
/// last `hash` and the last `user` value stay the same.
pub proof fn lemma_reordered_init_data_keeps_its_verdict(fields1: Seq<Field>, fields2: Seq<Field>, bot_token: Seq<u8>)
    requires
        fields1.to_multiset() == fields2.to_multiset(),
        last_value(fields1, hash_field()) == last_value(fields2, hash_field()),
        last_value(fields1, user_field()) == last_value(fields2, user_field()),
    ensures
        init_data_verdict(fields1, init_data_digest(fields1, bot_token))
            == init_data_verdict(fields2, init_data_digest(fields2, bot_token)),
{
    lemma_data_check_ignores_field_order(fields1, fields2);
}

/// Fields whose name is anything but `hash`.
pub open spec fn names_other_than_hash() -> spec_fn(Field) -> bool {
    |f: Field| f.0 != seq![104u8, 97u8, 115u8, 104u8]
}

/// Fields named `user`.
pub open spec fn named_user() -> spec_fn(Field) -> bool {
    |f: Field| f.0 == seq![117u8, 115u8, 101u8, 114u8]
}

/// Every field is signed but `hash`: the lines of the data-check string
/// are the `name=value` lines of all fields whose name is not `hash`, in
/// the order of the fields, and nothing else.
pub proof fn lemma_signed_lines_are_all_but_hash(fields: Seq<Field>)
    ensures
        signed_lines(fields) == fields.filter(names_other_than_hash()).map_values(
            |f: Field| f.0 + seq![61u8] + f.1,
        ),
    decreases fields.len(),
{
    reveal(Seq::filter);
    if fields.len() > 0 {
        lemma_signed_lines_are_all_but_hash(fields.drop_last());
        let sub = fields.drop_last().filter(names_other_than_hash());
        let line = |f: Field| f.0 + seq![61u8] + f.1;
        assert(sub.push(fields.last()).map_values(line) =~= sub.map_values(line).push(line(fields.last())));
        assert(hash_field() =~= seq![104u8, 97u8, 115u8, 104u8]);
    } else {
        assert(fields.filter(names_other_than_hash()) =~= Seq::<Field>::empty());
        assert(signed_lines(fields) =~= fields.filter(names_other_than_hash()).map_values(
            |f: Field| f.0 + seq![61u8] + f.1,
        ));
    }
}

/// The user values reported are those of every field named `user`, in
/// order.
pub proof fn lemma_user_values_are_the_user_fields(fields: Seq<Field>)
    ensures
        user_values(fields) == fields.filter(named_user()).map_values(|f: Field| f.1),
    decreases fields.len(),
{
    reveal(Seq::filter);
    if fields.len() > 0 {
        lemma_user_values_are_the_user_fields(fields.drop_last());
        let sub = fields.drop_last().filter(named_user());
        let value = |f: Field| f.1;
        assert(sub.push(fields.last()).map_values(value) =~= sub.map_values(value).push(value(fields.last())));
        assert(user_field() =~= seq![117u8, 115u8, 101u8, 114u8]);
    } else {
        assert(fields.filter(named_user()) =~= Seq::<Field>::empty());
        assert(user_values(fields) =~= fields.filter(named_user()).map_values(|f: Field| f.1));
    }
}

/// `last_value` finds the value of the last field with the name: some
/// field has that name and value and no later field has the name; and it
/// finds nothing exactly when no field has the name.
pub proof fn lemma_last_value_is_the_last_field(fields: Seq<Field>, name: Seq<u8>)
    ensures
        last_value(fields, name) is None <==> (forall|i: int| 0 <= i < fields.len() ==> (#[trigger] fields[i]).0 != name),
        last_value(fields, name) matches Some(v) ==> exists|i: int|
            0 <= i < fields.len() && #[trigger] fields[i] == (name, v)
                && forall|j: int| i < j < fields.len() ==> (#[trigger] fields[j]).0 != name,
    decreases fields.len(),
{
    if fields.len() > 0 {
        let rest = fields.drop_last();
        lemma_last_value_is_the_last_field(rest, name);
        let n = fields.len() - 1;
        if fields.last().0 == name {
            assert(fields[n] == (name, fields.last().1));
        } else {
            assert(forall|i: int| 0 <= i < rest.len() ==> rest[i] == fields[i]);
            if let Some(v) = last_value(rest, name) {
                let i = choose|i: int|
                    0 <= i < rest.len() && #[trigger] rest[i] == (name, v)
                        && forall|j: int| i < j < rest.len() ==> (#[trigger] rest[j]).0 != name;
                assert(fields[i] == (name, v));
                assert forall|j: int| i < j < fields.len() implies (#[trigger] fields[j]).0 != name by {
                    if j < n {
                        assert(rest[j] == fields[j]);
                    }
                }
            } else {
                assert forall|i: int| 0 <= i < fields.len() implies (#[trigger] fields[i]).0 != name by {
                    if i < n {
                        assert(rest[i] == fields[i]);
                    }
                }
            }
        }
    }
}

/// The lower-case hex digits, `0123456789abcdef`.
pub open spec fn hex_digits() -> Seq<u8> {
    seq![48u8, 49u8, 50u8, 51u8, 52u8, 53u8, 54u8, 55u8, 56u8, 57u8, 97u8, 98u8, 99u8, 100u8, 101u8, 102u8]
}

/// The hex form of bytes has two digits per byte: the byte's high nibble,
/// then its low nibble, each written with `0123456789abcdef`.
pub proof fn lemma_hex_is_two_digits_per_byte(data: Seq<u8>)
    ensures
        spec_hex_lower(data).len() == 2 * data.len(),
        forall|i: int| 0 <= i < data.len() ==> {
            &&& #[trigger] spec_hex_lower(data)[2 * i] == hex_digits()[data[i] as int / 16]
            &&& spec_hex_lower(data)[2 * i + 1] == hex_digits()[data[i] as int % 16]
        },
    decreases data.len(),
{
    if data.len() > 0 {
        let rest = data.drop_last();
        lemma_hex_is_two_digits_per_byte(rest);
        let n = data.len() - 1;
        assert forall|i: int| 0 <= i < data.len() implies {
            &&& #[trigger] spec_hex_lower(data)[2 * i] == hex_digits()[data[i] as int / 16]
            &&& spec_hex_lower(data)[2 * i + 1] == hex_digits()[data[i] as int % 16]
        } by {
            if i < n {
                assert(rest[i] == data[i]);
                assert(spec_hex_lower(rest)[2 * i] == hex_digits()[rest[i] as int / 16]);
            } else {
                let b = data[n];
                assert(0 <= b / 16 < 16 && 0 <= b % 16 < 16);
            }
        }
    }
}

/// `initData` without a `hash` field is refused as "Missing hash"; with
/// one but without a `user` field, as "Missing user"; and with both, it
/// is accepted exactly when the last `hash` is the hex of the digest.
pub proof fn lemma_verdict_reasons(fields: Seq<Field>, digest: Seq<u8>)
    ensures
        (forall|i: int| 0 <= i < fields.len() ==> (#[trigger] fields[i]).0 != hash_field())
            ==> init_data_verdict(fields, digest) == Err::<Seq<u8>, Seq<char>>("Missing hash"@),
        (exists|i: int| 0 <= i < fields.len() && (#[trigger] fields[i]).0 == hash_field())
            && (forall|i: int| 0 <= i < fields.len() ==> (#[trigger] fields[i]).0 != user_field())
            ==> init_data_verdict(fields, digest) == Err::<Seq<u8>, Seq<char>>("Missing user"@),
        init_data_verdict(fields, digest) is Ok <==> (
            last_value(fields, hash_field()) == Some(spec_hex_lower(digest))
            && last_value(fields, user_field()) is Some
        ),
{
    lemma_last_value_is_the_last_field(fields, hash_field());
    lemma_last_value_is_the_last_field(fields, user_field());
}

/// The view of an optional byte vector.
pub open spec fn opt_bytes(o: Option<Vec<u8>>) -> Option<Seq<u8>> {
    match o {
        Some(v) => Some(v@),
        None => None,
    }
}

/// Whether two byte strings are equal.
pub fn bytes_equal(a: &[u8], b: &[u8]) -> (eq: bool)
    ensures
        eq == (a@ == b@),
{
    if a.len() != b.len() {
        return false;
    }
    let mut i: usize = 0;
    while i < a.len()
        invariant
            i <= a@.len(),
            a@.len() == b@.len(),
            forall|k: int| 0 <= k < i ==> a@[k] == b@[k],
        decreases a@.len() - i,
    {
        if a[i] != b[i] {
            return false;
        }
        i = i + 1;
    }
    assert(a@ =~= b@);
    true
}

fn copy_bytes(src: &[u8]) -> (copy: Vec<u8>)
    ensures
        copy@ == src@,
{
    let mut copy: Vec<u8> = Vec::new();
    append_bytes(&mut copy, src);
    assert(copy@ =~= src@);
    copy
}

fn is_hash_field(name: &[u8]) -> (is: bool)
    ensures
        is == (name@ == hash_field()),
{
    // h a s h
    let is = name.len() == 4 && name[0] == 104u8 && name[1] == 97u8 && name[2] == 115u8 && name[3] == 104u8;
    proof {
        if is {
            assert(name@ =~= hash_field());
        }
    }
    is
}

fn is_user_field(name: &[u8]) -> (is: bool)
    ensures
        is == (name@ == user_field()),
{
    // u s e r
    let is = name.len() == 4 && name[0] == 117u8 && name[1] == 115u8 && name[2] == 101u8 && name[3] == 114u8;
    proof {
        if is {
            assert(name@ =~= user_field());
        }
    }
    is
}

fn web_app_data_key() -> (key: Vec<u8>)
    ensures
        key@ == web_app_data(),
{
    let mut key: Vec<u8> = Vec::new();
    // W e b A p p D a t a
    key.push(87u8);
    key.push(101u8);
    key.push(98u8);
    key.push(65u8);
    key.push(112u8);
    key.push(112u8);
    key.push(68u8);
    key.push(97u8);
    key.push(116u8);
    key.push(97u8);
    assert(key@ =~= web_app_data());
    key
}

/// The line `name=value` of a field.
pub fn field_line(name: &[u8], value: &[u8]) -> (line: Vec<u8>)
    ensures
        line@ == pair_line(name@, value@),
{
    let mut line = copy_bytes(name);
    line.push(EQUALS);
    append_bytes(&mut line, value);
    assert(line@ =~= pair_line(name@, value@));
    line
}

/// What one pass over the fields collects.
struct FieldScan {
    lines: Vec<Vec<u8>>,
    user_fields: Vec<Vec<u8>>,
    hash: Option<Vec<u8>>,
    user: Option<Vec<u8>>,
}

fn scan_fields(fields: &Vec<(Vec<u8>, Vec<u8>)>) -> (scan: FieldScan)
    ensures
        lines_view(scan.lines@) == signed_lines(fields_view(fields@)),
        lines_view(scan.user_fields@) == user_values(fields_view(fields@)),
        opt_bytes(scan.hash) == last_value(fields_view(fields@), hash_field()),
        opt_bytes(scan.user) == last_value(fields_view(fields@), user_field()),
{
    let ghost all = fields_view(fields@);
    let mut lines: Vec<Vec<u8>> = Vec::new();
    let mut user_fields: Vec<Vec<u8>> = Vec::new();
    let mut hash: Option<Vec<u8>> = None;
    let mut user: Option<Vec<u8>> = None;
    let mut i: usize = 0;
    assert(all.take(0) =~= Seq::<Field>::empty());
    assert(lines_view(lines@) =~= Seq::<Seq<u8>>::empty());
    assert(lines_view(user_fields@) =~= Seq::<Seq<u8>>::empty());
    while i < fields.len()
        invariant
            i <= fields@.len(),
            all == fields_view(fields@),
            lines_view(lines@) == signed_lines(all.take(i as int)),
            lines_view(user_fields@) == user_values(all.take(i as int)),
            opt_bytes(hash) == last_value(all.take(i as int), hash_field()),
            opt_bytes(user) == last_value(all.take(i as int), user_field()),
        decreases fields@.len() - i,
    {
        let name = fields[i].0.as_slice();
        let value = fields[i].1.as_slice();
        assert(all.take(i + 1).drop_last() =~= all.take(i as int));
        assert(all.take(i + 1).last() == (name@, value@));
        if is_hash_field(name) {
            hash = Some(copy_bytes(value));
        } else {
            if is_user_field(name) {
                let ghost before = user_fields@;
                user = Some(copy_bytes(value));
                user_fields.push(copy_bytes(value));
                assert(lines_view(user_fields@) =~= lines_view(before).push(value@));
            }
            let ghost before = lines@;
            lines.push(field_line(name, value));
            assert(lines_view(lines@) =~= lines_view(before).push(pair_line(name@, value@)));
        }
        i = i + 1;
    }
    assert(all.take(fields@.len() as int) =~= all);
    FieldScan { lines, user_fields, hash, user }
}

/// The verdict on collected fields, given the computed digest.
fn settle(hash: &Option<Vec<u8>>, user: &Option<Vec<u8>>, digest: &[u8], fields: Ghost<Seq<Field>>) -> (outcome: Result<Vec<u8>, Error>)
    requires
        opt_bytes(*hash) == last_value(fields@, hash_field()),
        opt_bytes(*user) == last_value(fields@, user_field()),
    ensures
        outcome_is(outcome, init_data_verdict(fields@, digest@)),
{
    match hash {
        None => Err(Error::Unauthorized(String::from_str("Missing hash"))),
        Some(hash) => match user {
            None => Err(Error::Unauthorized(String::from_str("Missing user"))),
            Some(user) => {
                let hex = hex_encode(digest);
                if bytes_equal(hex.as_slice(), hash.as_slice()) {
                    Ok(copy_bytes(user.as_slice()))
                } else {
                    Err(Error::Unauthorized(String::from_str("Hash is not valid")))
                }
            },
        },
    }
}

/// The data-check string of the fields: the `name=value` lines of every
/// field but `hash`, in byte order, joined by `\n`.
pub fn compute_data_check_string(fields: &Vec<(Vec<u8>, Vec<u8>)>) -> (data_check: Vec<u8>)
    ensures
        data_check@ == data_check_string(fields_view(fields@)),
{
    let scan = scan_fields(fields);
    let sorted = sort_lines(scan.lines);
    join_with_newlines(&sorted)
}

/// Judges decoded fields against a digest computed for them.
pub fn judge_init_data(fields: &Vec<(Vec<u8>, Vec<u8>)>, digest: &[u8]) -> (check: InitDataCheck)
    ensures
        check_is(check, fields_view(fields@), digest@),
{
    let scan = scan_fields(fields);
    let outcome = settle(&scan.hash, &scan.user, digest, Ghost(fields_view(fields@)));
    InitDataCheck { user_fields: scan.user_fields, outcome }
}

/// Checks decoded fields against the signature of the bot whose token is
/// `bot_token`.
pub fn check_init_data(fields: &Vec<(Vec<u8>, Vec<u8>)>, bot_token: &[u8]) -> (check: InitDataCheck)
    ensures
        check_is(check, fields_view(fields@), init_data_digest(fields_view(fields@), bot_token@)),
{
    let ghost all = fields_view(fields@);
    let scan = scan_fields(fields);
    if scan.hash.is_none() || scan.user.is_none() {
        let outcome = settle(&scan.hash, &scan.user, &[], Ghost(all));
        return InitDataCheck { user_fields: scan.user_fields, outcome };
    }
    let sorted = sort_lines(scan.lines);
    let data_check = join_with_newlines(&sorted);
    let outcome = match hmac_sha256(web_app_data_key().as_slice(), bot_token) {
        Err(e) => Err(e),
        Ok(secret) => match hmac_sha256(secret.as_slice(), data_check.as_slice()) {
            Err(e) => Err(e),
            Ok(digest) => settle(&scan.hash, &scan.user, digest.as_slice(), Ghost(all)),
        },
    };
    InitDataCheck { user_fields: scan.user_fields, outcome }
}

/// Checks the `initData` a Telegram mini app sends, signed for the bot
/// whose token is `bot_token`.
pub fn verify_init_data(init_data: &str, bot_token: &str) -> (check: InitDataCheck)
    ensures
        check_is(
            check,
            spec_form_urlencoded_parse(init_data.spec_bytes()),
            init_data_digest(spec_form_urlencoded_parse(init_data.spec_bytes()), bot_token.spec_bytes()),
        ),
{
    let fields = form_urlencoded_parse(init_data.as_bytes());
    check_init_data(&fields, bot_token.as_bytes())
}

} // verus!
