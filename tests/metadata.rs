use pkbassist::metadata::splice;
use pkbassist::error::Error;
use pkbassist::metadata::Metadata;

const NOTE1: &str = "---\ntype: test\n---\n# Test note\n\nSome text.\n";

const NOTE2: &str = "---\ntype: software\nname: yaml-rust\nlanguages:\n  - rust\nattributes:\n  crate: https://crates.io/crates/yaml-rust\n  msrv: \"1.31\"\nbanner: \"![[rust-language-banner.jpg]]\"\nbanner_icon: \"🧩\"\n---\n# yaml-rust\n\nThe YAML library.\n";

#[test]
fn metadata_parse1_test() {
    let meta = Metadata::from_str(NOTE1).unwrap();
    assert_eq!(meta.tree()["type"].as_str(), Some("test"));
}

#[test]
fn metadata_parse2_test() {
    let meta = Metadata::from_str(NOTE2).unwrap();

    assert_eq!(meta.tree()["type"].as_str(), Some("software"));
    assert_eq!(meta.tree()["name"].as_str(), Some("yaml-rust"));
    assert_eq!(meta.tree()["languages"][0].as_str(), Some("rust"));
    assert_eq!(
        meta.tree()["attributes"]["crate"].as_str(),
        Some("https://crates.io/crates/yaml-rust")
    );
    assert_eq!(meta.tree()["attributes"]["msrv"].as_str(), Some("1.31"));
    assert_eq!(
        meta.tree()["banner"].as_str(),
        Some("![[rust-language-banner.jpg]]")
    );
    assert_eq!(meta.tree()["banner_icon"].as_str(), Some("🧩"));
}

#[test]
fn metadata_banner_test() {
    let mut meta = Metadata::from_str(NOTE2).unwrap();
    assert_eq!(meta.get_banner().as_deref(), Some("rust-language-banner.jpg"));

    meta.set_banner("rust-lang-banner.png").unwrap();
    assert_eq!(meta.get_banner().as_deref(), Some("rust-lang-banner.png"));
}

#[test]
fn metadata_embed_test() {
    let mut meta = Metadata::from_str(NOTE2).unwrap();
    meta.set_banner("rust-lang-banner.png").unwrap();

    let s3 = meta.embed(NOTE1).unwrap();

    let meta = Metadata::from_str(s3.as_str()).unwrap();
    assert_eq!(meta.get_banner().as_deref(), Some("rust-lang-banner.png"));
}

#[test]
fn metadata_accessors() {
    let meta = Metadata::from_str(NOTE2).unwrap();
    assert_eq!(meta.get_type(), Some("software"));
    assert_eq!(meta.get_string("name"), Some("yaml-rust"));
    assert_eq!(meta.get_string("attributes"), None);
    assert_eq!(meta.get_string("missing"), None);
    assert_eq!(meta.get_string_list("languages"), Some(vec!["rust".to_string()]));
    assert_eq!(meta.get_string_list("name"), None);
    assert_eq!(meta.get_tags(), None);
    assert!(meta.has("attributes"));
    assert!(!meta.has("tags"));
    assert!(!meta.has_created());
}

#[test]
fn metadata_tags_keep_strings_in_order() {
    let note = "---\ntags:\n- news/apod\n- 42\n- science/astronomy\n---\nbody\n";
    let meta = Metadata::from_str(note).unwrap();
    assert_eq!(
        meta.get_tags(),
        Some(vec!["news/apod".to_string(), "science/astronomy".to_string()])
    );
}

#[test]
fn metadata_unclosed_block_is_malformed() {
    let note = "---\ntype: issue\n# Title\n";
    assert!(matches!(Metadata::from_str(note), Err(Error::IllegalNoteMetadata)));
}

#[test]
fn metadata_missing_block_is_not_found() {
    let note = "# Title\n\nNo metadata here.\n";
    assert!(matches!(Metadata::from_str(note), Err(Error::NoteMetadataNotFound)));
    assert!(matches!(Metadata::from_str(""), Err(Error::NoteMetadataNotFound)));
}

#[test]
fn metadata_delimiter_must_be_exact() {
    let note = "----\ntype: a\n---\nbody\n";
    assert!(matches!(Metadata::from_str(note), Err(Error::IllegalNoteMetadata)));
    let crlf = "---\r\ntype: a\r\n---\r\nbody\r\n";
    let meta = Metadata::from_str(crlf).unwrap();
    assert_eq!(meta.get_type(), Some("a"));
}

#[test]
fn metadata_bad_yaml_is_scan_error() {
    let note = "---\nkey: [unclosed\n---\nbody\n";
    assert!(matches!(Metadata::from_str(note), Err(Error::YamlScanError(_))));
}

#[test]
fn metadata_empty_block_is_empty_mapping() {
    let mut meta = Metadata::from_str("---\n---\nbody\n").unwrap();
    assert_eq!(meta.get_type(), None);
    meta.set_string("type", "note").unwrap();
    assert_eq!(meta.get_type(), Some("note"));
}

#[test]
fn metadata_scalar_root_is_not_a_mapping() {
    let mut meta = Metadata::from_str("---\njust text\n---\nbody\n").unwrap();
    assert_eq!(meta.get_type(), None);
    assert!(matches!(meta.set_string("type", "x"), Err(Error::NoteMetadataNotMapping)));
    assert!(matches!(meta.remove("type"), Err(Error::NoteMetadataNotMapping)));
    assert!(!meta.fix_banner());
}

#[test]
fn metadata_embed_keeps_body_exactly() {
    let note = "intro line\n---\ntype: issue\n---\n# Title\r\nSee ![[old.png]]\n\n";
    let mut meta = Metadata::from_str(note).unwrap();
    meta.set_string("status", "done").unwrap();
    let out = meta.embed(note).unwrap();
    assert!(out.starts_with("intro line\n---\n"));
    assert!(out.ends_with("\n---\n# Title\r\nSee ![[old.png]]\n\n"));
    let again = Metadata::from_str(out.as_str()).unwrap();
    assert_eq!(again.get_type(), Some("issue"));
    assert_eq!(again.get_string("status"), Some("done"));
}

#[test]
fn metadata_embed_without_body() {
    let note = "---\ntype: issue\n---";
    let mut meta = Metadata::from_str(note).unwrap();
    meta.set_banner("a.png").unwrap();
    let out = meta.embed(note).unwrap();
    assert!(out.ends_with("\n---"));
    let again = Metadata::from_str(out.as_str()).unwrap();
    assert_eq!(again.get_banner().as_deref(), Some("a.png"));
    assert_eq!(again.get_type(), Some("issue"));
}

#[test]
fn metadata_embed_into_note_without_block() {
    let meta = Metadata::from_str(NOTE1).unwrap();
    let body = "# Plain\n\ntext\n";
    let out = meta.embed(body).unwrap();
    assert_eq!(out, "---\ntype: test\n---\n# Plain\n\ntext\n");
    let again = Metadata::from_str(out.as_str()).unwrap();
    assert_eq!(again.get_type(), Some("test"));
}

#[test]
fn metadata_embed_into_unclosed_note_fails() {
    let meta = Metadata::from_str(NOTE1).unwrap();
    assert!(matches!(meta.embed("---\nopen\n"), Err(Error::IllegalNoteMetadata)));
}

#[test]
fn metadata_special_characters_round_trip() {
    let mut meta = Metadata::from_str(NOTE1).unwrap();
    meta.set_string("title", "a: [b], {c} – ü").unwrap();
    let out = meta.embed(NOTE1).unwrap();
    let again = Metadata::from_str(out.as_str()).unwrap();
    assert_eq!(again.get_string("title"), Some("a: [b], {c} – ü"));
}

#[test]
fn metadata_fix_banner_twice() {
    let mut meta = Metadata::from_str(NOTE2).unwrap();
    assert!(meta.fix_banner());
    assert_eq!(meta.get_string("banner"), Some("Banners/rust-language-banner.jpg"));
    assert!(!meta.has("banner_icon"));
    assert!(!meta.fix_banner());
    assert_eq!(meta.get_string("banner"), Some("Banners/rust-language-banner.jpg"));
}

#[test]
fn metadata_created_set_and_removed() {
    let mut meta = Metadata::from_str(NOTE1).unwrap();
    assert!(!meta.has_created());
    meta.set_created("2024-01-02T03:04:05+00:00").unwrap();
    assert!(meta.has_created());
    assert_eq!(meta.get_string("created"), Some("2024-01-02T03:04:05+00:00"));
    meta.remove_created().unwrap();
    assert!(!meta.has_created());
    meta.remove_created().unwrap();
    assert!(!meta.has_created());
}

#[test]
fn splice_replaces_block_only() {
    let note = "pre\n---\nold: 1\n---\nbody\n";
    assert_eq!(splice("---\nnew: 2", note).unwrap(), "pre\n---\nnew: 2\n---\nbody\n");
    assert_eq!(splice("---\nnew: 2", "body\n").unwrap(), "---\nnew: 2\n---\nbody\n");
    assert!(matches!(splice("---\nnew: 2", "---\nbody\n"), Err(Error::IllegalNoteMetadata)));
}

#[test]
fn round_trip_keeps_entries() {
    let note = "---\ntype: issue\ntags:\n- a\n- b\nbanner: x.png\n---\ntext\n";
    let meta = Metadata::from_str(note).unwrap();
    let out = meta.embed(note).unwrap();
    let again = Metadata::from_str(out.as_str()).unwrap();
    assert_eq!(again.get_type(), meta.get_type());
    assert_eq!(again.get_tags(), meta.get_tags());
    assert_eq!(again.get_banner(), meta.get_banner());
    assert_eq!(again.tree(), meta.tree());
    assert!(out.ends_with("\n---\ntext\n"));
}

#[test]
fn round_trip_with_delimiter_like_values() {
    let mut meta = Metadata::from_str(NOTE1).unwrap();
    meta.set_string("---", "---").unwrap();
    meta.set_string("multi", "line one\n---\nline two").unwrap();
    let out = meta.embed(NOTE1).unwrap();
    let again = Metadata::from_str(out.as_str()).unwrap();
    assert_eq!(again.get_string("---"), Some("---"));
    assert_eq!(again.get_string("multi"), Some("line one\n---\nline two"));
    assert_eq!(again.get_type(), Some("test"));
    assert!(out.ends_with("\n---\n# Test note\n\nSome text.\n"));
}
