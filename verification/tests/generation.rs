use idgen::ops::generate_v1;
use idgen::ops::generate_v1_with_node;
use idgen::ops::generate_v3;
use idgen::ops::generate_v4;
use idgen::ops::generate_v5;
use idgen::ops::generate_v6;
use idgen::ops::generate_v6_with_node;
use idgen::ops::generate_v7;
use idgen::ops::GenError;

const DNS_NAMESPACE: &str = "6ba7b810-9dad-11d1-80b4-00c04fd430c8";

fn text_args(a: &str, b: &str) -> Vec<Option<String>> {
    vec![Some(a.to_string()), Some(b.to_string())]
}

fn canonical(s: &str) -> bool {
    s.len() == 36
        && s.char_indices().all(|(i, c)| {
            if i == 8 || i == 13 || i == 18 || i == 23 {
                c == '-'
            } else {
                c.is_ascii_hexdigit() && !c.is_ascii_uppercase()
            }
        })
}

#[test]
fn v3_and_v5_are_deterministic() {
    let args = text_args(DNS_NAMESPACE, "example.com");
    assert_eq!(generate_v3(&args).unwrap(), generate_v3(&args).unwrap());
    assert_eq!(generate_v5(&args).unwrap(), generate_v5(&args).unwrap());
}

#[test]
fn all_outputs_match_the_canonical_grammar() {
    let args = text_args(DNS_NAMESPACE, "example.com");
    for s in [
        generate_v1(),
        generate_v3(&args).unwrap(),
        generate_v4(),
        generate_v5(&args).unwrap(),
        generate_v6(),
        generate_v7(),
    ] {
        assert!(canonical(&s), "not canonical: {s}");
    }
}

#[test]
fn version_digit_matches_the_variant_generated() {
    let args = text_args(DNS_NAMESPACE, "example.com");
    let outputs = [
        (generate_v1(), '1'),
        (generate_v3(&args).unwrap(), '3'),
        (generate_v4(), '4'),
        (generate_v5(&args).unwrap(), '5'),
        (generate_v6(), '6'),
        (generate_v7(), '7'),
    ];
    for (s, v) in outputs {
        assert_eq!(s.chars().nth(14).unwrap(), v, "wrong version in {s}");
    }
}

#[test]
fn variant_digit_is_8_9_a_or_b() {
    let args = text_args(DNS_NAMESPACE, "example.com");
    for s in [
        generate_v1(),
        generate_v3(&args).unwrap(),
        generate_v4(),
        generate_v5(&args).unwrap(),
        generate_v6(),
        generate_v7(),
    ] {
        let c = s.chars().nth(19).unwrap();
        assert!(c == '8' || c == '9' || c == 'a' || c == 'b', "wrong variant in {s}");
    }
}

#[test]
fn v6_outputs_sort_in_generation_order() {
    let first = generate_v6();
    // Wait out the current 100-nanosecond tick so the comparison is
    // between two distinct timestamps.
    let mut second = generate_v6();
    while second[0..13] == first[0..13] {
        second = generate_v6();
    }
    assert!(first < second, "{first} not before {second}");
}

#[test]
fn v7_outputs_sort_in_generation_order() {
    let first = generate_v7();
    let second = generate_v7();
    assert!(first < second, "{first} not before {second}");
}

#[test]
fn one_argument_is_an_arity_error() {
    let one = vec![Some(DNS_NAMESPACE.to_string())];
    assert_eq!(generate_v3(&one), Err(GenError::ArityError));
    assert_eq!(generate_v5(&one), Err(GenError::ArityError));
    let none: Vec<Option<String>> = Vec::new();
    assert_eq!(generate_v3(&none), Err(GenError::ArityError));
    assert_eq!(generate_v5(&none), Err(GenError::ArityError));
}

#[test]
fn a_non_text_argument_is_a_type_error() {
    let bad_first = vec![None, Some("example.com".to_string())];
    assert_eq!(generate_v3(&bad_first), Err(GenError::TypeError));
    assert_eq!(generate_v5(&bad_first), Err(GenError::TypeError));
    let bad_second = vec![Some(DNS_NAMESPACE.to_string()), None];
    assert_eq!(generate_v3(&bad_second), Err(GenError::TypeError));
    assert_eq!(generate_v5(&bad_second), Err(GenError::TypeError));
}

#[test]
fn a_bad_namespace_is_a_malformed_namespace_error() {
    let args = text_args("not-a-uuid", "example.com");
    assert_eq!(generate_v3(&args), Err(GenError::MalformedNamespaceError));
    assert_eq!(generate_v5(&args), Err(GenError::MalformedNamespaceError));
}

#[test]
fn v5_of_dns_example_com_is_fixed() {
    let args = text_args(DNS_NAMESPACE, "example.com");
    let s = generate_v5(&args).unwrap();
    assert_eq!(s, "cfbff0d1-9375-5685-968c-48ce8b15ae17");
}

#[test]
fn v3_and_v5_agree_with_the_reference_implementation() {
    let ns = uuid::Uuid::parse_str(DNS_NAMESPACE).unwrap();
    let args = text_args(DNS_NAMESPACE, "example.com");
    assert_eq!(
        generate_v3(&args).unwrap(),
        uuid::Uuid::new_v3(&ns, b"example.com").to_string()
    );
    assert_eq!(
        generate_v5(&args).unwrap(),
        uuid::Uuid::new_v5(&ns, b"example.com").to_string()
    );
}

#[test]
fn two_v4_outputs_differ() {
    assert_ne!(generate_v4(), generate_v4());
}

#[test]
fn two_rapid_v7_outputs_are_distinct_and_ordered() {
    let first = generate_v7();
    let second = generate_v7();
    assert_ne!(first, second);
    assert!(first < second);
}

#[test]
fn v1_and_v6_carry_the_node_id_in_the_tail() {
    assert_eq!(&generate_v1()[24..], "010203040506");
    assert_eq!(&generate_v6()[24..], "010203040506");
    let node: [u8; 6] = [0xde, 0xad, 0xbe, 0xef, 0x00, 0x42];
    assert_eq!(&generate_v1_with_node(&node)[24..], "deadbeef0042");
    assert_eq!(&generate_v6_with_node(&node)[24..], "deadbeef0042");
}

#[test]
fn error_descriptions_name_the_failure() {
    assert_eq!(
        GenError::ArityError.describe(),
        "expected two arguments: a namespace identifier and a name"
    );
    assert_eq!(GenError::TypeError.describe(), "expected text arguments");
    assert_eq!(
        GenError::MalformedNamespaceError.describe(),
        "the namespace is not a well-formed identifier"
    );
}
