use gt::verbose::{config, mask_header_value, set_config, VerboseConfig, VerboseSlot};

#[test]
fn mask_token_header() {
    assert_eq!(
        mask_header_value("Authorization", "token aafe123456789a263"),
        "token ***a263",
    );
    assert_eq!(
        mask_header_value("authorization", "Bearer xyz12345abcdEF98"),
        "Bearer ***EF98",
    );
}

#[test]
fn verbose_mask_short_token() {
    assert_eq!(mask_header_value("Authorization", "token short"), "token ***");
}

#[test]
fn mask_cookie() {
    assert_eq!(
        mask_header_value("Cookie", "session=verysecretcookievalue"),
        "***alue",
    );
}

#[test]
fn mask_x_token_header() {
    assert_eq!(mask_header_value("X-Csrf-Token", "abcdef1234567890"), "***7890");
}

#[test]
fn mask_skips_non_secret_headers() {
    assert_eq!(mask_header_value("Accept", "application/json"), "application/json");
    assert_eq!(mask_header_value("Content-Type", "application/json"), "application/json");
}

#[test]
fn config_levels() {
    let off = VerboseConfig { level: 0, show_secrets: false };
    assert!(!off.is_on());
    assert!(!off.show_body());

    let v = VerboseConfig { level: 1, show_secrets: false };
    assert!(v.is_on());
    assert!(!v.show_body());

    let vv = VerboseConfig { level: 2, show_secrets: false };
    assert!(vv.is_on());
    assert!(vv.show_body());
}

#[test]
fn mask_trims_before_measuring() {
    // Eight bytes after trimming: fully hidden.
    assert_eq!(mask_header_value("Cookie", "  12345678  "), "***");
    // Nine bytes after trimming: last four kept.
    assert_eq!(mask_header_value("Cookie", " 123456789 "), "***6789");
}

#[test]
fn mask_keeps_multibyte_tail() {
    // "ééééé" is ten bytes; the last four bytes are the last two characters.
    assert_eq!(mask_header_value("Cookie", "ééééé"), "***éé");
}

#[test]
fn set_config_first_call_wins() {
    let mut slot = VerboseSlot::new();
    assert!(config(&slot).is_none());
    set_config(&mut slot, VerboseConfig { level: 1, show_secrets: true });
    set_config(&mut slot, VerboseConfig { level: 2, show_secrets: false });
    let c = config(&slot).unwrap();
    assert_eq!(c.level, 1);
    assert!(c.show_secrets);
}
