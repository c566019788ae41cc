use pkbassist::operations::rewrite_if_changed;
use pkbassist::error::Error;
use pkbassist::operations::{add_note_created, fix_note_banner, remove_note_created, repair_wiki_refs};
use pkbassist::path::is_note_path;
use pkbassist::pipeline::{collect_failures, unused_files};

#[test]
fn batch_all_succeed() {
    let results: Vec<Result<(), Error>> = vec![Ok(()), Ok(()), Ok(())];
    assert!(collect_failures(results).is_ok());
    assert!(collect_failures(Vec::new()).is_ok());
}

#[test]
fn batch_reports_each_failure_in_order() {
    let results = vec![
        Ok(()),
        Err(Error::IoError("locked a.md".to_string())),
        Ok(()),
        Err(Error::IllegalNoteMetadata),
        Ok(()),
    ];
    match collect_failures(results) {
        Err(Error::MultipleExecutorsError(errors)) => {
            assert_eq!(errors.len(), 2);
            assert!(matches!(&errors[0], Error::IoError(m) if m == "locked a.md"));
            assert!(matches!(errors[1], Error::IllegalNoteMetadata));
        }
        other => panic!("unexpected {:?}", other),
    }
}

#[test]
fn unused_files_are_those_no_note_mentions() {
    let names = vec!["a.png".to_string(), "b.jpg".to_string(), "c.pdf".to_string()];
    let notes = vec!["See ![[a.png]]".to_string(), "[doc](c.pdf)".to_string()];
    assert_eq!(unused_files(&names, &notes), vec!["b.jpg".to_string()]);
    assert_eq!(unused_files(&names, &Vec::new()), names);
    assert!(unused_files(&Vec::new(), &notes).is_empty());
}

#[test]
fn note_paths_are_markdown_files() {
    assert!(is_note_path("vault/Daily/2024-01-01.md"));
    assert!(is_note_path("a.md"));
    assert!(!is_note_path("vault/board.canvas"));
    assert!(!is_note_path("vault/.md"));
    assert!(!is_note_path("vault/md"));
    assert!(!is_note_path("vault/dir/"));
}

#[test]
fn wiki_refs_repaired() {
    let note = "See [[Some-Note | A description]] here.";
    assert_eq!(
        repair_wiki_refs(note).as_deref(),
        Some("See [[Some-Note|A description]] here.")
    );
    let fixed = repair_wiki_refs(note).unwrap();
    assert_eq!(repair_wiki_refs(&fixed), None);
    assert_eq!(repair_wiki_refs("[[Note|x]] and [[Other]]"), None);
}

#[test]
fn banner_fixed_once() {
    let note = "---\ntype: issue\nbanner: \"![[old.png]]\"\nbanner_icon: x\n---\n# Title\n";
    let fixed = fix_note_banner(note).unwrap().unwrap();
    assert!(fixed.ends_with("\n---\n# Title\n"));
    assert!(fixed.contains("Banners/old.png"));
    assert!(!fixed.contains("banner_icon"));
    assert_eq!(fix_note_banner(&fixed).unwrap(), None);
}

#[test]
fn banner_fix_skips_malformed_note() {
    assert!(matches!(fix_note_banner("---\ntype: x\n"), Err(Error::IllegalNoteMetadata)));
    assert!(matches!(fix_note_banner("# no metadata\n"), Err(Error::NoteMetadataNotFound)));
}

#[test]
fn created_added_then_removed() {
    let note = "---\ntype: issue\n---\nbody\n";
    let with = add_note_created(note, "2024-05-06T07:08:09+02:00").unwrap().unwrap();
    assert!(with.ends_with("\n---\nbody\n"));
    assert_eq!(add_note_created(&with, "2025-01-01T00:00:00+00:00").unwrap(), None);
    let without = remove_note_created(&with).unwrap().unwrap();
    assert!(!without.contains("created"));
    assert_eq!(remove_note_created(&without).unwrap(), None);
    assert!(matches!(remove_note_created("---\nopen\n"), Err(Error::IllegalNoteMetadata)));
}

#[test]
fn batch_reports_exactly_the_failed_units() {
    let n = 10;
    let failing = [2usize, 5, 9];
    let results: Vec<Result<(), Error>> = (0..n)
        .map(|i| {
            if failing.contains(&i) {
                Err(Error::IoError(format!("file {}", i)))
            } else {
                Ok(())
            }
        })
        .collect();
    match collect_failures(results) {
        Err(Error::MultipleExecutorsError(errors)) => {
            assert_eq!(errors.len(), failing.len());
            for (e, i) in errors.iter().zip(failing.iter()) {
                assert!(matches!(e, Error::IoError(m) if *m == format!("file {}", i)));
            }
        }
        other => panic!("unexpected {:?}", other),
    }
}

#[test]
fn rewrite_only_when_changed() {
    assert_eq!(rewrite_if_changed("a", "a".to_string()), None);
    assert_eq!(rewrite_if_changed("a", "b".to_string()), Some("b".to_string()));
}
