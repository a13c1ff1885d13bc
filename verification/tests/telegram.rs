use racer::error::Error;
use racer::shared::hmac256::hmac_sha256;
use racer::telegram::data_check::{join_with_newlines, lex_le_bytes, sort_lines};
use racer::telegram::validate::{
    check_init_data, compute_data_check_string, field_line, judge_init_data, verify_init_data,
    InitDataCheck,
};

const BOT_TOKEN: &str = "123456:ABC-DEF";
const USER_JSON: &str = r#"{"id":42,"first_name":"Ann","username":"ann"}"#;
const SIGNATURE: &str = "d0862f899a3c06359f38c6b70b458c5f8f9117a257af339a15db7657a06cddb2";
const INIT_DATA: &str = "query_id=AAH&user=%7B%22id%22%3A42%2C%22first_name%22%3A%22Ann%22%2C%22username%22%3A%22ann%22%7D&auth_date=1700000000&hash=d0862f899a3c06359f38c6b70b458c5f8f9117a257af339a15db7657a06cddb2";

fn fields(pairs: &[(&str, &str)]) -> Vec<(Vec<u8>, Vec<u8>)> {
    pairs.iter().map(|(k, v)| (k.as_bytes().to_vec(), v.as_bytes().to_vec())).collect()
}

fn hex(bytes: &[u8]) -> String {
    bytes.iter().map(|b| format!("{:02x}", b)).collect()
}

fn refusal(check: &InitDataCheck) -> String {
    match &check.outcome {
        Err(Error::Unauthorized(m)) => m.clone(),
        other => panic!("expected a refusal, got {:?}", other),
    }
}

#[test]
fn hmac_matches_rfc_4231_case_1() {
    let tag = hmac_sha256(&[0x0b; 20], b"Hi There").unwrap();
    assert_eq!(hex(&tag), "b0344c61d8db38535ca8afceaf0bf12b881dc200c9833da726e9376c2e32cff7");
}

#[test]
fn hmac_takes_keys_of_any_length() {
    assert_eq!(hmac_sha256(&[], b"x").unwrap().len(), 32);
    assert_eq!(hmac_sha256(&[7u8; 200], b"x").unwrap().len(), 32);
}

#[test]
fn web_app_secret_is_hmac_of_token() {
    let secret = hmac_sha256(b"WebAppData", BOT_TOKEN.as_bytes()).unwrap();
    assert_eq!(hex(&secret), "4b1afb47da44d530ff4fe729b83d134bb50577a601c9ead0ac33355546f01f41");
}

#[test]
fn byte_order_puts_prefixes_first() {
    assert!(lex_le_bytes(b"ab", b"abc"));
    assert!(!lex_le_bytes(b"abc", b"ab"));
    assert!(lex_le_bytes(b"abc", b"abd"));
    assert!(!lex_le_bytes(b"b", b"abc"));
    assert!(lex_le_bytes(b"", b""));
    assert!(lex_le_bytes(b"Z", b"a"));
}

#[test]
fn lines_sort_and_join() {
    let lines = vec![b"user=u".to_vec(), b"auth_date=1".to_vec(), b"query_id=q".to_vec(), b"auth=0".to_vec()];
    let sorted = sort_lines(lines);
    assert_eq!(sorted, vec![b"auth=0".to_vec(), b"auth_date=1".to_vec(), b"query_id=q".to_vec(), b"user=u".to_vec()]);
    assert_eq!(join_with_newlines(&sorted), b"auth=0\nauth_date=1\nquery_id=q\nuser=u".to_vec());
    assert_eq!(join_with_newlines(&vec![]), Vec::<u8>::new());
    assert_eq!(field_line(b"a", b"b=c"), b"a=b=c".to_vec());
}

#[test]
fn data_check_string_leaves_out_hash() {
    let f = fields(&[("query_id", "AAH"), ("hash", "ff"), ("user", "{}"), ("auth_date", "1")]);
    assert_eq!(compute_data_check_string(&f), b"auth_date=1\nquery_id=AAH\nuser={}".to_vec());
}

#[test]
fn signed_init_data_is_accepted() {
    let check = verify_init_data(INIT_DATA, BOT_TOKEN);
    assert_eq!(check.user_fields, vec![USER_JSON.as_bytes().to_vec()]);
    match check.outcome {
        Ok(user) => assert_eq!(user, USER_JSON.as_bytes().to_vec()),
        other => panic!("unexpected {:?}", other),
    }
}

#[test]
fn field_order_does_not_matter() {
    let reordered = format!(
        "hash={}&auth_date=1700000000&user=%7B%22id%22%3A42%2C%22first_name%22%3A%22Ann%22%2C%22username%22%3A%22ann%22%7D&query_id=AAH",
        SIGNATURE
    );
    let check = verify_init_data(&reordered, BOT_TOKEN);
    assert!(check.outcome.is_ok());
}

#[test]
fn other_token_is_refused() {
    let check = verify_init_data(INIT_DATA, "654321:XYZ");
    assert_eq!(refusal(&check), "Hash is not valid");
}

#[test]
fn tampered_field_is_refused() {
    let tampered = INIT_DATA.replace("auth_date=1700000000", "auth_date=1700000001");
    let check = verify_init_data(&tampered, BOT_TOKEN);
    assert_eq!(refusal(&check), "Hash is not valid");
}

#[test]
fn missing_hash_is_refused() {
    let check = check_init_data(&fields(&[("user", "{}"), ("auth_date", "1")]), BOT_TOKEN.as_bytes());
    assert_eq!(refusal(&check), "Missing hash");
    let none = verify_init_data("", BOT_TOKEN);
    assert_eq!(refusal(&none), "Missing hash");
    assert!(none.user_fields.is_empty());
}

#[test]
fn missing_user_is_refused() {
    let check = check_init_data(&fields(&[("hash", SIGNATURE), ("auth_date", "1")]), BOT_TOKEN.as_bytes());
    assert_eq!(refusal(&check), "Missing user");
    assert!(check.user_fields.is_empty());
}

#[test]
fn every_user_field_is_reported_and_the_last_decides() {
    let f = fields(&[("user", "first"), ("hash", "00"), ("user", "second")]);
    let check = judge_init_data(&f, &[0u8]);
    assert_eq!(check.user_fields, vec![b"first".to_vec(), b"second".to_vec()]);
    match check.outcome {
        Ok(user) => assert_eq!(user, b"second".to_vec()),
        other => panic!("unexpected {:?}", other),
    }
}

#[test]
fn judged_hash_is_lower_case_hex_of_digest() {
    let f = fields(&[("hash", "0aff"), ("user", "u")]);
    assert!(judge_init_data(&f, &[0x0a, 0xff]).outcome.is_ok());
    let upper = fields(&[("hash", "0AFF"), ("user", "u")]);
    assert_eq!(refusal(&judge_init_data(&upper, &[0x0a, 0xff])), "Hash is not valid");
    let last_hash = fields(&[("hash", "0aff"), ("user", "u"), ("hash", "00")]);
    assert_eq!(refusal(&judge_init_data(&last_hash, &[0x0a, 0xff])), "Hash is not valid");
}

#[test]
fn percent_and_plus_are_decoded() {
    let check = verify_init_data("user=a+b%21&hash=00", BOT_TOKEN);
    assert_eq!(check.user_fields, vec![b"a b!".to_vec()]);
}
