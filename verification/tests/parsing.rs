use idgen::canonical::format_bytes;
use idgen::canonical::parse_text;

const DNS_NAMESPACE: &str = "6ba7b810-9dad-11d1-80b4-00c04fd430c8";

#[test]
fn parse_yields_the_network_order_bytes() {
    let b = parse_text(DNS_NAMESPACE).unwrap();
    assert_eq!(
        b,
        vec![
            0x6b, 0xa7, 0xb8, 0x10, 0x9d, 0xad, 0x11, 0xd1, 0x80, 0xb4, 0x00, 0xc0, 0x4f, 0xd4,
            0x30, 0xc8
        ]
    );
}

#[test]
fn parse_accepts_either_letter_case() {
    let lower = parse_text(DNS_NAMESPACE).unwrap();
    let upper = parse_text("6BA7B810-9DAD-11D1-80B4-00C04FD430C8").unwrap();
    assert_eq!(lower, upper);
}

#[test]
fn parse_rejects_strings_outside_the_grammar() {
    for bad in [
        "",
        "not-a-uuid",
        "6ba7b810-9dad-11d1-80b4-00c04fd430c",
        "6ba7b810-9dad-11d1-80b4-00c04fd430c8a",
        "6ba7b8109dad-11d1-80b4-00c04fd430c8a",
        "6ba7b810-9dad-11d1-80b4-00c04fd430cg",
        "6ba7b810-9dad-11d1-80b4_00c04fd430c8",
        "{6ba7b810-9dad-11d1-80b4-00c04fd430}",
    ] {
        assert!(parse_text(bad).is_none(), "accepted: {bad}");
    }
}

#[test]
fn format_renders_lowercase_hyphenated_groups() {
    let b = parse_text("6BA7B810-9DAD-11D1-80B4-00C04FD430C8").unwrap();
    assert_eq!(format_bytes(&b), DNS_NAMESPACE);
}

#[test]
fn format_agrees_with_the_reference_implementation() {
    let bytes: Vec<u8> = (0u8..16u8).map(|i| i.wrapping_mul(17).wrapping_add(3)).collect();
    let mut arr = [0u8; 16];
    arr.copy_from_slice(&bytes);
    let reference = uuid::Uuid::from_bytes(arr).to_string();
    assert_eq!(format_bytes(&bytes), reference);
}

#[test]
fn format_preserves_byte_order() {
    let low: Vec<u8> = vec![0, 0, 0, 0, 0, 0, 0x10, 0, 0x80, 0, 0, 0, 0, 0, 0, 1];
    let mid: Vec<u8> = vec![0, 0, 0, 0, 0, 0, 0x10, 0, 0x80, 0, 0, 0, 0, 0, 0, 2];
    let high: Vec<u8> = vec![0, 0, 0, 0, 0, 1, 0x10, 0, 0x80, 0, 0, 0, 0, 0, 0, 0];
    assert!(format_bytes(&low) < format_bytes(&mid));
    assert!(format_bytes(&mid) < format_bytes(&high));
}

#[test]
fn parse_inverts_format() {
    let bytes: Vec<u8> = vec![
        0x00, 0x11, 0x22, 0x33, 0x44, 0x55, 0x66, 0x77, 0x88, 0x99, 0xaa, 0xbb, 0xcc, 0xdd, 0xee,
        0xff,
    ];
    let text = format_bytes(&bytes);
    assert_eq!(parse_text(&text).unwrap(), bytes);
}
