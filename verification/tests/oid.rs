use core::cmp::Ordering;

use gitcore::errors::GitError;
use gitcore::oid::Oid;

fn parse(hex: &[u8]) -> Oid {
    let mut oid = Oid::from_raw(&[0u8; 20]);
    Oid::from_slice(&mut oid, hex).expect("valid hex must parse");
    oid
}

fn format_n(oid: &Oid, n: usize) -> Vec<u8> {
    let mut out = vec![0xffu8; n];
    oid.nfmt(&mut out, n);
    out
}

#[test]
fn parse_then_format_roundtrip() {
    let hex = b"deadbeefdeadbeefdeadbeefdeadbeefdeadbeef";
    let oid = parse(hex);
    let out = format_n(&oid, 40);
    assert_eq!(&out[..], &hex[..]);
}

#[test]
fn parse_uppercase_formats_lowercase() {
    let upper = b"DEADBEEFDEADBEEFDEADBEEFDEADBEEFDEADBEEF";
    let lower = b"deadbeefdeadbeefdeadbeefdeadbeefdeadbeef";
    let oid = parse(upper);
    assert_eq!(oid, parse(lower));
    assert_eq!(&format_n(&oid, 40)[..], &lower[..]);
}

#[test]
fn parse_odd_length_leaves_low_nibble_zero() {
    let oid = parse(b"abc");
    let out = format_n(&oid, 40);
    assert_eq!(&out[..], &b"abc0000000000000000000000000000000000000"[..]);
}

#[test]
fn parse_empty_fails() {
    let mut oid = Oid::from_raw(&[0u8; 20]);
    assert_eq!(
        Oid::from_slice(&mut oid, b""),
        Err(GitError::InvalidFormat)
    );
}

#[test]
fn parse_too_long_fails() {
    let mut oid = Oid::from_raw(&[7u8; 20]);
    let long = [b'a'; 41];
    assert_eq!(
        Oid::from_slice(&mut oid, &long),
        Err(GitError::InvalidFormat)
    );
    // a length error leaves the output untouched
    assert_eq!(oid, Oid::from_raw(&[7u8; 20]));
}

#[test]
fn parse_invalid_character_fails() {
    let mut oid = Oid::from_raw(&[0u8; 20]);
    assert_eq!(
        Oid::from_slice(&mut oid, b"dead!eef"),
        Err(GitError::InvalidFormat)
    );
}

#[test]
fn zero_identifier_is_zero() {
    let oid = parse(b"0000000000000000000000000000000000000000");
    assert!(oid.iszero());
}

#[test]
fn nonzero_identifier_is_not_zero() {
    let mut raw = [0u8; 20];
    raw[19] = 1;
    assert!(!Oid::from_raw(&raw).iszero());
    assert!(Oid::from_raw(&[0u8; 20]).iszero());
}

#[test]
fn from_raw_keeps_bytes() {
    let mut raw = [0u8; 20];
    for (i, b) in raw.iter_mut().enumerate() {
        *b = (i as u8) * 10;
    }
    let out = format_n(&Oid::from_raw(&raw), 40);
    assert_eq!(&out[..], &b"000a141e28323c46505a646e78828c96a0aab4be"[..]);
}

#[test]
fn format_beyond_forty_pads_with_zero_bytes() {
    let oid = parse(b"deadbeefdeadbeefdeadbeefdeadbeefdeadbeef");
    let out = format_n(&oid, 43);
    assert_eq!(&out[..40], &b"deadbeefdeadbeefdeadbeefdeadbeefdeadbeef"[..]);
    assert_eq!(&out[40..], &[0u8, 0, 0]);
}

#[test]
fn format_odd_count_stops_at_high_nibble() {
    let oid = parse(b"deadbeefdeadbeefdeadbeefdeadbeefdeadbeef");
    let mut out = vec![0xffu8; 4];
    oid.nfmt(&mut out, 3);
    assert_eq!(&out[..], &[b'd', b'e', b'a', 0xff]);
}

#[test]
fn compare_prefix_matches_any_tail() {
    let mut raw = [0u8; 20];
    raw[0] = 0xde;
    raw[1] = 0x55;
    assert_eq!(Oid::from_raw(&raw).cmp_slice(b"de"), Ordering::Equal);
    raw[1] = 0xaa;
    assert_eq!(Oid::from_raw(&raw).cmp_slice(b"de"), Ordering::Equal);
}

#[test]
fn compare_orders_by_first_differing_byte() {
    let mut raw = [0u8; 20];
    raw[0] = 0xdd;
    assert_eq!(Oid::from_raw(&raw).cmp_slice(b"de"), Ordering::Less);
    raw[0] = 0xdf;
    assert_eq!(Oid::from_raw(&raw).cmp_slice(b"de"), Ordering::Greater);
}

#[test]
fn compare_full_and_overlong_strings() {
    let oid = parse(b"deadbeefdeadbeefdeadbeefdeadbeefdeadbeef");
    let full = b"deadbeefdeadbeefdeadbeefdeadbeefdeadbeef";
    assert_eq!(oid.cmp_slice(full), Ordering::Equal);
    // characters past the 40th are never examined
    assert_eq!(
        oid.cmp_slice(b"deadbeefdeadbeefdeadbeefdeadbeefdeadbeefzzz"),
        Ordering::Equal
    );
}

#[test]
fn compare_odd_trailing_digit_uses_high_nibble_only() {
    let mut raw = [0u8; 20];
    raw[0] = 0xd0;
    assert_eq!(Oid::from_raw(&raw).cmp_slice(b"d"), Ordering::Equal);
    // the low nibble is never examined under an odd trailing digit
    raw[0] = 0xde;
    assert_eq!(Oid::from_raw(&raw).cmp_slice(b"d"), Ordering::Equal);
    raw[0] = 0xc5;
    assert_eq!(Oid::from_raw(&raw).cmp_slice(b"d"), Ordering::Less);
    raw[0] = 0xe5;
    assert_eq!(Oid::from_raw(&raw).cmp_slice(b"d"), Ordering::Greater);
}

#[test]
fn compare_odd_tail_after_full_pairs() {
    let mut raw = [0u8; 20];
    raw[0] = 0xde;
    raw[1] = 0xaf;
    assert_eq!(Oid::from_raw(&raw).cmp_slice(b"dea"), Ordering::Equal);
    assert_eq!(Oid::from_raw(&raw).cmp_slice(b"deb"), Ordering::Less);
    assert_eq!(Oid::from_raw(&raw).cmp_slice(b"de9"), Ordering::Greater);
}

#[test]
fn compare_malformed_is_always_less() {
    let zero = Oid::from_raw(&[0u8; 20]);
    let high = Oid::from_raw(&[0xffu8; 20]);
    assert_eq!(zero.cmp_slice(b"zz"), Ordering::Less);
    assert_eq!(high.cmp_slice(b"zz"), Ordering::Less);
    assert_eq!(high.cmp_slice(b"fz"), Ordering::Less);
}

#[test]
fn parse_header_advances_past_line() {
    let buffer = b"parent deadbeefdeadbeefdeadbeefdeadbeefdeadbeef\nrest";
    let mut oid = Oid::from_raw(&[0u8; 20]);
    let consumed = Oid::parse_header(&mut oid, buffer, b"parent ").expect("well-formed header");
    assert_eq!(consumed, b"parent ".len() + 41);
    assert_eq!(oid, parse(b"deadbeefdeadbeefdeadbeefdeadbeefdeadbeef"));
}

#[test]
fn parse_header_missing_newline_fails() {
    let buffer = b"parent deadbeefdeadbeefdeadbeefdeadbeefdeadbeefrest";
    let mut oid = Oid::from_raw(&[0u8; 20]);
    assert_eq!(
        Oid::parse_header(&mut oid, buffer, b"parent "),
        Err(GitError::InvalidFormat)
    );
}

#[test]
fn parse_header_mismatched_prefix_fails() {
    let buffer = b"parent deadbeefdeadbeefdeadbeefdeadbeefdeadbeef\n";
    let mut oid = Oid::from_raw(&[0u8; 20]);
    assert_eq!(
        Oid::parse_header(&mut oid, buffer, b"tree "),
        Err(GitError::InvalidFormat)
    );
}

#[test]
fn parse_header_short_buffer_fails() {
    let buffer = b"parent deadbeef\n";
    let mut oid = Oid::from_raw(&[0u8; 20]);
    assert_eq!(
        Oid::parse_header(&mut oid, buffer, b"parent "),
        Err(GitError::InvalidFormat)
    );
}

#[test]
fn eq_and_order_against_hex_slices() {
    let oid = parse(b"deadbeefdeadbeefdeadbeefdeadbeefdeadbeef");
    assert!(oid.eq(b"de".as_slice()));
    assert!(oid.eq(b"deadbeef".as_slice()));
    assert!(!oid.eq(b"dd".as_slice()));
    assert_eq!(oid.partial_cmp(b"df".as_slice()), Some(Ordering::Less));
    assert_eq!(oid.partial_cmp(b"da".as_slice()), Some(Ordering::Greater));
    assert_eq!(oid.partial_cmp(b"dead".as_slice()), Some(Ordering::Equal));
}

#[test]
fn fromhex_values() {
    assert_eq!(gitcore::oid::fromhex(b'0'), 0);
    assert_eq!(gitcore::oid::fromhex(b'9'), 9);
    assert_eq!(gitcore::oid::fromhex(b'a'), 10);
    assert_eq!(gitcore::oid::fromhex(b'F'), 15);
    assert_eq!(gitcore::oid::fromhex(b'g'), -1);
    assert_eq!(gitcore::oid::fromhex(b' '), -1);
}

#[test]
fn tohex_values() {
    assert_eq!(gitcore::oid::tohex(0), b'0');
    assert_eq!(gitcore::oid::tohex(9), b'9');
    assert_eq!(gitcore::oid::tohex(10), b'a');
    assert_eq!(gitcore::oid::tohex(15), b'f');
}
