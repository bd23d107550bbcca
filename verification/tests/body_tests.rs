use gt::body::{local_link_candidates, rewrite_link};
use std::path::Path;

fn find_local_refs(body: &str, base_dir: &Path) -> Vec<(String, String)> {
    local_link_candidates(body)
        .into_iter()
        .filter_map(|(full, path)| {
            let p = base_dir.join(&path);
            if p.exists() && p.is_file() {
                Some((full, p.to_string_lossy().to_string()))
            } else {
                None
            }
        })
        .collect()
}

#[test]
fn test_find_local_refs_images() {
    let body = "Here is ![screenshot](./img/shot.png) and text";
    let refs = find_local_refs(body, Path::new("/nonexistent"));
    assert!(refs.is_empty());
}

#[test]
fn test_find_local_refs_skips_urls() {
    let body = "![img](https://example.com/img.png) and [link](http://example.com)";
    let refs = find_local_refs(body, Path::new("."));
    assert!(refs.is_empty());
}

#[test]
fn test_find_local_refs_with_existing_file() {
    // A directory holding a Cargo.toml.
    let dir = tempfile::tempdir().unwrap();
    let _file = tempfile::Builder::new()
        .prefix("Cargo")
        .suffix(".toml")
        .rand_bytes(0)
        .tempfile_in(dir.path())
        .unwrap();
    let body = "See [config](Cargo.toml) for details";
    let refs = find_local_refs(body, dir.path());
    assert_eq!(refs.len(), 1);
    assert!(refs[0].1.contains("Cargo.toml"));
}

#[test]
fn candidates_are_found_left_to_right() {
    let body = "a ![x](p.png) b [y](q.md) c [z](https://h/x) d [broken](";
    let c = local_link_candidates(body);
    assert_eq!(
        c,
        vec![
            ("![x](p.png)".to_string(), "p.png".to_string()),
            ("[y](q.md)".to_string(), "q.md".to_string()),
        ]
    );
}

#[test]
fn candidates_need_a_non_empty_path() {
    assert!(local_link_candidates("[a]() and [b] (c)").is_empty());
    assert_eq!(
        local_link_candidates("![[a](b)"),
        vec![("![[a](b)".to_string(), "b".to_string())]
    );
}

#[test]
fn rewrite_points_links_at_the_upload() {
    let body = "See ![shot](a.png) and ![shot](a.png).";
    assert_eq!(
        rewrite_link(body, "![shot](a.png)", "https://h/att/1"),
        "See ![shot](https://h/att/1) and ![shot](https://h/att/1)."
    );
    assert_eq!(rewrite_link("[doc](d.md)", "[doc](d.md)", "U"), "[doc](U)");
}
