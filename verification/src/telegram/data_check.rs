use vstd::prelude::*;
use vstd::multiset::Multiset;
use vstd::relations::{sorted_by, total_ordering};
use vstd::seq_lib::{lemma_multiset_commutative, lemma_sorted_unique};

verus! {

broadcast use vstd::seq_lib::group_to_multiset_ensures;

/// The byte `\n` that separates the lines of a data-check string.
pub const NEWLINE: u8 = 10;

/// Byte-wise lexicographic order, the order of Rust's `str` and `[u8]`:
/// a proper prefix comes first, otherwise the first differing byte decides.
pub open spec fn lex_le(a: Seq<u8>, b: Seq<u8>) -> bool
    decreases a.len(),
{
    if a.len() == 0 {
        true
    } else if b.len() == 0 {
        false
    } else if a[0] != b[0] {
        a[0] < b[0]
    } else {
        lex_le(a.drop_first(), b.drop_first())
    }
}

/// `lex_le` as a relation, for `sort_by` and `sorted_by`.
pub open spec fn byte_order() -> spec_fn(Seq<u8>, Seq<u8>) -> bool {
    |a: Seq<u8>, b: Seq<u8>| lex_le(a, b)
}

/// The byte strings that a vector of byte vectors holds.
pub open spec fn lines_view(v: Seq<Vec<u8>>) -> Seq<Seq<u8>> {
    v.map_values(|l: Vec<u8>| l@)
}

/// Lines joined by `\n`, as `join("\n")` does.
pub open spec fn join_lines(lines: Seq<Seq<u8>>) -> Seq<u8>
    decreases lines.len(),
{
    if lines.len() == 0 {
        Seq::empty()
    } else if lines.len() == 1 {
        lines[0]
    } else {
        join_lines(lines.drop_last()) + seq![NEWLINE] + lines.last()
    }
}

pub proof fn lemma_lex_reflexive(a: Seq<u8>)
    ensures
        lex_le(a, a),
    decreases a.len(),
{
    if a.len() > 0 {
        lemma_lex_reflexive(a.drop_first());
    }
}

pub proof fn lemma_lex_total(a: Seq<u8>, b: Seq<u8>)
    ensures
        lex_le(a, b) || lex_le(b, a),
    decreases a.len(),
{
    if a.len() > 0 && b.len() > 0 && a[0] == b[0] {
        lemma_lex_total(a.drop_first(), b.drop_first());
    }
}

pub proof fn lemma_lex_antisymmetric(a: Seq<u8>, b: Seq<u8>)
    requires
        lex_le(a, b),
        lex_le(b, a),
    ensures
        a == b,
    decreases a.len(),
{
    if a.len() > 0 && b.len() > 0 {
        lemma_lex_antisymmetric(a.drop_first(), b.drop_first());
        assert(a =~= seq![a[0]] + a.drop_first());
        assert(b =~= seq![b[0]] + b.drop_first());
    } else {
        assert(a =~= b);
    }
}

pub proof fn lemma_lex_transitive(a: Seq<u8>, b: Seq<u8>, c: Seq<u8>)
    requires
        lex_le(a, b),
        lex_le(b, c),
    ensures
        lex_le(a, c),
    decreases a.len(),
{
    if a.len() > 0 && b.len() > 0 && c.len() > 0 && a[0] == b[0] && b[0] == c[0] {
        lemma_lex_transitive(a.drop_first(), b.drop_first(), c.drop_first());
    }
}

/// Byte-wise lexicographic order is a total order on byte strings.
pub proof fn lemma_byte_order_is_total()
    ensures
        total_ordering(byte_order()),
{
    let r = byte_order();
    assert forall|x: Seq<u8>| #[trigger] r(x, x) by {
        lemma_lex_reflexive(x);
    }
    assert forall|x: Seq<u8>, y: Seq<u8>| #[trigger] r(x, y) && #[trigger] r(y, x) implies x == y by {
        lemma_lex_antisymmetric(x, y);
    }
    assert forall|x: Seq<u8>, y: Seq<u8>, z: Seq<u8>| #[trigger] r(x, y) && #[trigger] r(y, z) implies r(x, z) by {
        lemma_lex_transitive(x, y, z);
    }
    assert forall|x: Seq<u8>, y: Seq<u8>| #[trigger] r(x, y) || #[trigger] r(y, x) by {
        lemma_lex_total(x, y);
    }
}

/// Lines sorted in byte order are the one ordering of them that `sort_by`
/// gives: the sorted lines hold the same lines, in byte order.
pub proof fn lemma_sorted_lines_are_sort(sorted: Seq<Seq<u8>>, lines: Seq<Seq<u8>>)
    requires
        sorted_by(sorted, byte_order()),
        sorted.to_multiset() == lines.to_multiset(),
    ensures
        sorted == lines.sort_by(byte_order()),
{
    lemma_byte_order_is_total();
    lines.lemma_sort_by_ensures(byte_order());
    lemma_sorted_unique(sorted, lines.sort_by(byte_order()), byte_order());
}

/// The data-check string does not depend on the order in which the lines
/// come: any two arrangements of the same lines sort and join alike.
pub proof fn lemma_join_ignores_line_order(lines1: Seq<Seq<u8>>, lines2: Seq<Seq<u8>>)
    requires
        lines1.to_multiset() == lines2.to_multiset(),
    ensures
        join_lines(lines1.sort_by(byte_order())) == join_lines(lines2.sort_by(byte_order())),
        lines1.sort_by(byte_order()) == lines2.sort_by(byte_order()),
{
    lemma_byte_order_is_total();
    lines1.lemma_sort_by_ensures(byte_order());
    lines2.lemma_sort_by_ensures(byte_order());
    lemma_sorted_unique(lines1.sort_by(byte_order()), lines2.sort_by(byte_order()), byte_order());
}

/// Sorting keeps every line, and puts them in byte order.
pub proof fn lemma_sort_is_ordered_permutation(lines: Seq<Seq<u8>>)
    ensures
        lines.sort_by(byte_order()).to_multiset() == lines.to_multiset(),
        sorted_by(lines.sort_by(byte_order()), byte_order()),
{
    lemma_byte_order_is_total();
    lines.lemma_sort_by_ensures(byte_order());
}

proof fn lemma_insert_keeps_order(s: Seq<Seq<u8>>, j: int, x: Seq<u8>)
    requires
        sorted_by(s, byte_order()),
        0 <= j <= s.len(),
        forall|k: int| 0 <= k < j ==> !lex_le(x, #[trigger] s[k]),
        j < s.len() ==> lex_le(x, s[j]),
    ensures
        sorted_by(s.insert(j, x), byte_order()),
        s.insert(j, x).to_multiset() == s.to_multiset().insert(x),
{
    lemma_byte_order_is_total();
    let t = s.insert(j, x);
    let r = byte_order();
    assert forall|a: int, b: int| 0 <= a < b < t.len() implies #[trigger] r(t[a], t[b]) by {
        if a < j && b < j {
        } else if a < j && b == j {
            lemma_lex_total(x, s[a]);
        } else if a < j {
            assert(r(s[a], s[b - 1]));
        } else if a == j {
            if b - 1 > j {
                assert(r(s[j], s[b - 1]));
                lemma_lex_transitive(x, s[j], s[b - 1]);
            }
        } else {
            assert(r(s[a - 1], s[b - 1]));
        }
    }
    assert(t =~= s.take(j) + (seq![x] + s.skip(j)));
    assert(s =~= s.take(j) + s.skip(j));
    lemma_multiset_commutative(s.take(j), seq![x] + s.skip(j));
    lemma_multiset_commutative(seq![x], s.skip(j));
    lemma_multiset_commutative(s.take(j), s.skip(j));
    assert(seq![x] =~= Seq::<Seq<u8>>::empty().push(x));
    assert(seq![x].to_multiset() =~= Multiset::<Seq<u8>>::empty().insert(x)) by {
        broadcast use vstd::multiset::group_multiset_axioms;
    }
    assert(t.to_multiset() =~= s.to_multiset().insert(x)) by {
        broadcast use vstd::multiset::group_multiset_axioms;
    }
}

/// Byte order compares at the first differing byte: `a` comes no later
/// than `b` exactly when `a` is a prefix of `b`, or at the first position
/// where they differ (within both) the byte of `a` is smaller.
pub proof fn lemma_lex_le_is_first_difference(a: Seq<u8>, b: Seq<u8>)
    ensures
        lex_le(a, b) <==> (
            (a.len() <= b.len() && a == b.take(a.len() as int))
            || exists|i: int| 0 <= i < a.len() && i < b.len() && a.take(i) == b.take(i) && #[trigger] a[i] < b[i]
        ),
    decreases a.len(),
{
    if a.len() == 0 {
        assert(a =~= b.take(0));
    } else if b.len() == 0 {
        assert(!(exists|i: int| 0 <= i < a.len() && i < b.len() && a.take(i) == b.take(i) && #[trigger] a[i] < b[i]));
    } else if a[0] != b[0] {
        if a[0] < b[0] {
            assert(a.take(0) =~= b.take(0));
            assert(a[0] < b[0]);
        } else {
            assert(a.take(a.len() as int)[0] == a[0]);
            assert forall|i: int| 0 <= i < a.len() && i < b.len() && a.take(i) == b.take(i) implies !(#[trigger] a[i] < b[i]) by {
                if i > 0 {
                    assert(a.take(i)[0] == b.take(i)[0]);
                }
            }
            if a.len() <= b.len() && a == b.take(a.len() as int) {
                assert(a[0] == b.take(a.len() as int)[0]);
            }
        }
    } else {
        let a1 = a.drop_first();
        let b1 = b.drop_first();
        lemma_lex_le_is_first_difference(a1, b1);
        if a1.len() <= b1.len() && a1 == b1.take(a1.len() as int) {
            assert forall|k: int| 0 <= k < a.len() implies #[trigger] a[k] == b.take(a.len() as int)[k] by {
                if k > 0 {
                    assert(a[k] == a1[k - 1]);
                    assert(a1[k - 1] == b1.take(a1.len() as int)[k - 1]);
                }
            }
            assert(a =~= b.take(a.len() as int));
        }
        if a.len() <= b.len() && a == b.take(a.len() as int) {
            assert(a1 =~= b1.take(a1.len() as int));
        }
        if exists|i: int| 0 <= i < a1.len() && i < b1.len() && a1.take(i) == b1.take(i) && #[trigger] a1[i] < b1[i] {
            let i = choose|i: int| 0 <= i < a1.len() && i < b1.len() && a1.take(i) == b1.take(i) && #[trigger] a1[i] < b1[i];
            assert forall|k: int| 0 <= k < i + 1 implies #[trigger] a.take(i + 1)[k] == b.take(i + 1)[k] by {
                if k > 0 {
                    assert(a[k] == a1[k - 1]);
                    assert(a1.take(i)[k - 1] == b1.take(i)[k - 1]);
                }
            }
            assert(a.take(i + 1) =~= b.take(i + 1));
            assert(a[i + 1] < b[i + 1]);
        }
        if exists|i: int| 0 <= i < a.len() && i < b.len() && a.take(i) == b.take(i) && #[trigger] a[i] < b[i] {
            let i = choose|i: int| 0 <= i < a.len() && i < b.len() && a.take(i) == b.take(i) && #[trigger] a[i] < b[i];
            assert(i > 0);
            assert(a1.take(i - 1) =~= b1.take(i - 1)) by {
                assert forall|k: int| 0 <= k < i - 1 implies #[trigger] a1.take(i - 1)[k] == b1.take(i - 1)[k] by {
                    assert(a.take(i)[k + 1] == b.take(i)[k + 1]);
                }
            }
            assert(a1[i - 1] < b1[i - 1]);
        }
    }
}

/// Joining puts one `\n` between consecutive lines and nothing around
/// them: no lines give nothing, one line gives itself, and one more line
/// adds `\n` and that line.
pub proof fn lemma_join_puts_newlines_between(lines: Seq<Seq<u8>>, line: Seq<u8>)
    ensures
        join_lines(Seq::empty()) == Seq::<u8>::empty(),
        join_lines(seq![line]) == line,
        lines.len() > 0 ==> join_lines(lines.push(line)) == join_lines(lines) + seq![10u8] + line,
{
    assert(seq![line].len() == 1);
    if lines.len() > 0 {
        assert(lines.push(line).drop_last() =~= lines);
    }
}

/// Whether `a` comes no later than `b` in byte order.
pub fn lex_le_bytes(a: &[u8], b: &[u8]) -> (le: bool)
    ensures
        le == lex_le(a@, b@),
{
    let mut i: usize = 0;
    assert(a@.skip(0) =~= a@ && b@.skip(0) =~= b@);
    loop
        invariant
            i <= a@.len(),
            i <= b@.len(),
            lex_le(a@, b@) == lex_le(a@.skip(i as int), b@.skip(i as int)),
        decreases a@.len() - i,
    {
        if i == a.len() {
            return true;
        }
        if i == b.len() {
            return false;
        }
        if a[i] != b[i] {
            return a[i] < b[i];
        }
        assert(a@.skip(i as int).drop_first() =~= a@.skip(i + 1));
        assert(b@.skip(i as int).drop_first() =~= b@.skip(i + 1));
        i = i + 1;
    }
}

/// Puts `line` into lines already in byte order, before the first line
/// that it does not come after.
fn insert_in_order(sorted: &mut Vec<Vec<u8>>, line: Vec<u8>)
    requires
        sorted_by(lines_view(old(sorted)@), byte_order()),
    ensures
        sorted_by(lines_view(final(sorted)@), byte_order()),
        lines_view(final(sorted)@).to_multiset() == lines_view(old(sorted)@).to_multiset().insert(line@),
{
    let ghost s = lines_view(sorted@);
    let mut j: usize = 0;
    loop
        invariant
            j <= sorted@.len(),
            s == lines_view(sorted@),
            forall|k: int| 0 <= k < j ==> !lex_le(line@, #[trigger] s[k]),
        ensures
            j <= sorted@.len(),
            forall|k: int| 0 <= k < j ==> !lex_le(line@, #[trigger] s[k]),
            j < sorted@.len() ==> lex_le(line@, s[j as int]),
        decreases sorted@.len() - j,
    {
        if j == sorted.len() {
            break;
        }
        if lex_le_bytes(line.as_slice(), sorted[j].as_slice()) {
            break;
        }
        j = j + 1;
    }
    proof {
        lemma_insert_keeps_order(s, j as int, line@);
    }
    let ghost x = line@;
    sorted.insert(j, line);
    assert(lines_view(sorted@) =~= s.insert(j as int, x));
}

/// The lines in byte order, as `sort` puts a vector of strings.
pub fn sort_lines(lines: Vec<Vec<u8>>) -> (sorted: Vec<Vec<u8>>)
    ensures
        lines_view(sorted@) == lines_view(lines@).sort_by(byte_order()),
{
    let ghost all = lines_view(lines@);
    let mut rest = lines;
    let mut sorted: Vec<Vec<u8>> = Vec::new();
    assert(lines_view(sorted@).to_multiset() =~= Multiset::empty()) by {
        broadcast use vstd::multiset::group_multiset_axioms;
        assert(lines_view(sorted@) =~= Seq::<Seq<u8>>::empty());
    }
    while rest.len() > 0
        invariant
            sorted_by(lines_view(sorted@), byte_order()),
            lines_view(sorted@).to_multiset().add(lines_view(rest@).to_multiset()) == all.to_multiset(),
        decreases rest.len(),
    {
        let ghost before = rest@;
        let line = rest.pop().unwrap();
        proof {
            assert(lines_view(before) =~= lines_view(rest@).push(line@));
        }
        insert_in_order(&mut sorted, line);
        assert(lines_view(sorted@).to_multiset().add(lines_view(rest@).to_multiset()) =~= all.to_multiset()) by {
            broadcast use vstd::multiset::group_multiset_axioms;
        }
    }
    assert(lines_view(rest@) =~= Seq::<Seq<u8>>::empty());
    assert(lines_view(sorted@).to_multiset() =~= all.to_multiset()) by {
        broadcast use vstd::multiset::group_multiset_axioms;
    }
    proof {
        lemma_sorted_lines_are_sort(lines_view(sorted@), all);
    }
    sorted
}

/// Appends the bytes of `src` to `dst`.
pub fn append_bytes(dst: &mut Vec<u8>, src: &[u8])
    ensures
        final(dst)@ == old(dst)@ + src@,
{
    let mut i: usize = 0;
    while i < src.len()
        invariant
            i <= src@.len(),
            dst@ == old(dst)@ + src@.take(i as int),
        decreases src@.len() - i,
    {
        dst.push(src[i]);
        i = i + 1;
        assert(src@.take(i as int) =~= src@.take(i - 1) + seq![src@[i - 1]]);
        assert(dst@ =~= old(dst)@ + src@.take(i as int));
    }
    assert(src@.take(src@.len() as int) =~= src@);
}

/// The lines joined by `\n`.
pub fn join_with_newlines(lines: &Vec<Vec<u8>>) -> (joined: Vec<u8>)
    ensures
        joined@ == join_lines(lines_view(lines@)),
{
    let ghost all = lines_view(lines@);
    let mut joined: Vec<u8> = Vec::new();
    let mut i: usize = 0;
    assert(all.take(0) =~= Seq::<Seq<u8>>::empty());
    while i < lines.len()
        invariant
            i <= lines@.len(),
            all == lines_view(lines@),
            joined@ == join_lines(all.take(i as int)),
        decreases lines@.len() - i,
    {
        assert(all.take(i + 1).drop_last() =~= all.take(i as int));
        if i > 0 {
            joined.push(NEWLINE);
        } else {
            assert(joined@ =~= Seq::<u8>::empty());
        }
        append_bytes(&mut joined, lines[i].as_slice());
        i = i + 1;
        assert(joined@ =~= join_lines(all.take(i as int)));
    }
    assert(all.take(lines@.len() as int) =~= all);
    joined
}

} // verus!
