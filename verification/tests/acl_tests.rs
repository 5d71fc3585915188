use search_util::acl::{decode_acl, decode_role, encode_acl, encode_acl_with, encode_role};
use search_util::auth::ROLE_ADMIN;

fn strings(items: &[&str]) -> Vec<String> {
    items.iter().map(|s| s.to_string()).collect()
}

#[test]
fn encodes_single_role_as_lowercase_hex() {
    assert_eq!(encode_role("editor"), "656469746f72");
    assert_eq!(encode_role("viewer"), "766965776572");
}

#[test]
fn decodes_single_role() {
    assert_eq!(decode_role("656469746f72"), Some("editor".to_string()));
}

#[test]
fn role_round_trips_through_hex() {
    for role in ["editor", "ROLE_USER", "x", "Ünïcödé-rôle"] {
        let encoded = encode_role(role);
        assert_eq!(decode_role(&encoded), Some(role.to_string()));
    }
}

#[test]
fn decode_rejects_odd_length() {
    assert_eq!(decode_role("abc"), None);
}

#[test]
fn decode_rejects_non_hex_characters() {
    assert_eq!(decode_role("zz"), None);
    assert_eq!(decode_role("6A"), None);
}

#[test]
fn decode_rejects_invalid_utf8() {
    assert_eq!(decode_role("ff"), None);
}

#[test]
fn empty_acl_encodes_to_empty_list() {
    let encoded = encode_acl(&strings(&[]));
    assert_eq!(encoded, Vec::<String>::new());
}

#[test]
fn drops_admin_and_hex_encodes_the_rest_in_order() {
    let roles = strings(&["admin", "editor", "viewer"]);
    let encoded = encode_acl_with(&roles, "admin");
    assert_eq!(encoded, strings(&["656469746f72", "766965776572"]));
}

#[test]
fn admin_only_acl_encodes_to_empty_list() {
    let roles = strings(&[ROLE_ADMIN]);
    assert_eq!(encode_acl(&roles), Vec::<String>::new());
}

#[test]
fn encoded_acl_never_contains_admin_identifier() {
    let roles = strings(&["ROLE_USER", ROLE_ADMIN, "ROLE_ANONYMOUS", ROLE_ADMIN]);
    let encoded = encode_acl(&roles);
    let admin_encoded = encode_role(ROLE_ADMIN);
    assert_eq!(encoded.len(), 2);
    for entry in &encoded {
        assert_ne!(entry, ROLE_ADMIN);
        assert_ne!(entry, &admin_encoded);
    }
}

#[test]
fn acl_round_trips_when_admin_absent() {
    let roles = strings(&["ROLE_USER", "ROLE_ANONYMOUS", "some-Base64+Token="]);
    let encoded = encode_acl(&roles);
    assert_eq!(decode_acl(&encoded), Some(roles));
}

#[test]
fn decode_acl_fails_on_undecodable_element() {
    let encoded = strings(&["656469746f72", "not-hex!"]);
    assert_eq!(decode_acl(&encoded), None);
}

#[test]
fn encoding_is_case_sensitive_before_hex() {
    let roles = strings(&["Role", "role"]);
    let encoded = encode_acl(&roles);
    assert_eq!(encoded.len(), 2);
    assert_ne!(encoded[0], encoded[1]);
}
