use gt::alias_doc::{delete_alias_doc, parse_config_doc, set_alias_doc};

const DOC: &str = "[default]\nurl = \"https://g.example\"\n\n[aliases]\nco = \"pr checkout\"\n";

#[test]
fn set_alias_adds_to_the_aliases_table() {
    let mut doc = parse_config_doc(DOC);
    set_alias_doc(&mut doc, "iv", "issue view");
    let aliases = doc.get("aliases").and_then(|v| v.as_table()).unwrap();
    assert_eq!(aliases.get("iv").and_then(|v| v.as_str()), Some("issue view"));
    assert_eq!(aliases.get("co").and_then(|v| v.as_str()), Some("pr checkout"));
    let default = doc.get("default").and_then(|v| v.as_table()).unwrap();
    assert_eq!(default.get("url").and_then(|v| v.as_str()), Some("https://g.example"));
}

#[test]
fn set_alias_creates_the_table() {
    let mut doc = parse_config_doc("");
    set_alias_doc(&mut doc, "iv", "issue view");
    assert_eq!(doc.to_string(), "[aliases]\niv = \"issue view\"\n");
}

#[test]
fn set_alias_leaves_a_non_table_alone() {
    let mut doc = parse_config_doc("aliases = 3\n");
    set_alias_doc(&mut doc, "iv", "issue view");
    assert_eq!(doc.get("aliases").and_then(|v| v.as_integer()), Some(3));
}

#[test]
fn not_toml_reads_as_empty() {
    let doc = parse_config_doc("this is [ not toml");
    assert!(doc.is_empty());
}

#[test]
fn delete_alias_reports_whether_it_was_there() {
    let mut doc = parse_config_doc(DOC);
    assert!(delete_alias_doc(&mut doc, "co"));
    let aliases = doc.get("aliases").and_then(|v| v.as_table()).unwrap();
    assert!(aliases.get("co").is_none());
    assert!(!delete_alias_doc(&mut doc, "co"));
    assert!(doc.get("default").is_some());
    let mut bare = parse_config_doc("");
    assert!(!delete_alias_doc(&mut bare, "co"));
    assert!(bare.is_empty());
}

#[test]
fn aliases_read_back_after_set() {
    let mut doc = parse_config_doc(DOC);
    set_alias_doc(&mut doc, "iv", "issue view");
    let mut pairs = gt::alias_doc::doc_alias_pairs(doc).unwrap();
    pairs.sort();
    assert_eq!(
        pairs,
        vec![("co".to_string(), "pr checkout".to_string()), ("iv".to_string(), "issue view".to_string())]
    );
    assert_eq!(gt::alias_doc::doc_alias_pairs(parse_config_doc("")), Some(vec![]));
    assert_eq!(gt::alias_doc::doc_alias_pairs(parse_config_doc("[aliases]\nx = 1\n")), None);
    assert_eq!(gt::alias_doc::doc_alias_pairs(parse_config_doc("aliases = \"s\"\n")), None);
}
