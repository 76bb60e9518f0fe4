use freeways_launcher::kv;
use freeways_launcher::num;

fn pairs_of(text: &[u8]) -> Vec<(Vec<u8>, Vec<u8>)> {
    kv::parse_kv_bytes(text).unwrap()
}

#[test]
fn simple_pairs_parse() {
    let pairs = pairs_of(b"a = b\nc=d");
    assert_eq!(pairs.len(), 2);
    assert_eq!(pairs[0].0, b"a");
    assert_eq!(pairs[0].1, b"b");
    assert_eq!(pairs[1].0, b"c");
    assert_eq!(pairs[1].1, b"d");
}

#[test]
fn first_equals_sign_splits() {
    let pairs = pairs_of(b"key = v = w");
    assert_eq!(pairs.len(), 1);
    assert_eq!(pairs[0].0, b"key");
    assert_eq!(pairs[0].1, b"v = w");
}

#[test]
fn whitespace_is_trimmed() {
    let pairs = pairs_of(b"  spaced key\t =  \t a value  ");
    assert_eq!(pairs[0].0, b"spaced key");
    assert_eq!(pairs[0].1, b"a value");
}

#[test]
fn comments_and_blanks_are_skipped() {
    let pairs = pairs_of(b"# first\n\n; second\na = 1\n");
    assert_eq!(pairs.len(), 1);
    assert_eq!(pairs[0].0, b"a");
}

#[test]
fn line_without_equals_fails() {
    assert!(kv::parse_kv_bytes(b"a = 1\nbroken line\n").is_none());
}

#[test]
fn lookup_returns_first_duplicate() {
    let pairs = pairs_of(b"k = one\nk = two\n");
    let v = kv::lookup_value(&pairs, b"k").unwrap();
    assert_eq!(v, b"one");
}

#[test]
fn lookup_is_exact_after_trim() {
    let pairs = pairs_of(b"name = x\n");
    assert!(kv::lookup_value(&pairs, b"Name").is_none());
    assert!(kv::lookup_value(&pairs, b"name").is_some());
}

#[test]
fn empty_input_has_no_pairs() {
    let pairs = pairs_of(b"");
    assert!(pairs.is_empty());
}

#[test]
fn parse_u8_reads_decimal() {
    assert_eq!(num::parse_u8(b"100"), Some(100));
    assert_eq!(num::parse_u8(b"0"), Some(0));
    assert_eq!(num::parse_u8(b"255"), Some(255));
    assert_eq!(num::parse_u8(b"+42"), Some(42));
    assert_eq!(num::parse_u8(b"0099"), Some(99));
}

#[test]
fn parse_u8_rejects_bad_input() {
    assert_eq!(num::parse_u8(b"256"), None);
    assert_eq!(num::parse_u8(b""), None);
    assert_eq!(num::parse_u8(b"+"), None);
    assert_eq!(num::parse_u8(b"12a"), None);
    assert_eq!(num::parse_u8(b" 5"), None);
    assert_eq!(num::parse_u8(b"-1"), None);
}

#[test]
fn u8_to_dec_writes_digits() {
    assert_eq!(num::u8_to_dec(0), b"0");
    assert_eq!(num::u8_to_dec(7), b"7");
    assert_eq!(num::u8_to_dec(42), b"42");
    assert_eq!(num::u8_to_dec(207), b"207");
    assert_eq!(num::u8_to_dec(255), b"255");
}
