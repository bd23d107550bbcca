use gt::auth::mask_token;

#[test]
fn mask_long_token() {
    assert_eq!(mask_token("aafe123456789a263"), "aafe...a263");
}

#[test]
fn auth_mask_short_token() {
    assert_eq!(mask_token("short"), "****");
}

#[test]
fn mask_empty_token() {
    assert_eq!(mask_token(""), "(not set)");
}
