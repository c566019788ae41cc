use pkbassist::metadata::Metadata;
use pkbassist::rename::{FileEntry, Insertion, RenameMap};

const ID: &str = "7f3c9a2e-1b4d-4c8e-9f00-a1b2c3d4e5f6";
const ID2: &str = "0a1b2c3d-4e5f-4a6b-8c7d-9e8f7a6b5c4d";

#[test]
fn file_entry_keeps_extension() {
    let e = FileEntry::new("vault/files/photo.png", ID).unwrap();
    assert_eq!(e.old_path(), "vault/files/photo.png");
    assert_eq!(e.old_name(), "photo.png");
    assert_eq!(e.new_name(), "7f3c9a2e-1b4d-4c8e-9f00-a1b2c3d4e5f6.png");
    assert_eq!(e.new_path(), "vault/files/7f3c9a2e-1b4d-4c8e-9f00-a1b2c3d4e5f6.png");
}

#[test]
fn file_entry_without_extension_or_directory() {
    let e = FileEntry::new("README", ID).unwrap();
    assert_eq!(e.new_name(), ID);
    assert_eq!(e.new_path(), ID);
    let e = FileEntry::new("dir/.hidden", ID).unwrap();
    assert_eq!(e.new_name(), ID);
    assert_eq!(e.new_path(), format!("dir/{}", ID));
    let e = FileEntry::new("dir/archive.tar.gz", ID).unwrap();
    assert_eq!(e.new_name(), format!("{}.gz", ID));
}

#[test]
fn file_entry_needs_a_file_name() {
    assert!(FileEntry::new("dir/", ID).is_none());
    assert!(FileEntry::new("", ID).is_none());
    assert!(FileEntry::new("dir/..", ID).is_none());
}

#[test]
fn rename_map_insert_outcomes() {
    let taken = vec!["photo.png".to_string(), format!("{}.jpg", ID2)];
    let mut map = RenameMap::new();
    assert_eq!(map.insert("files/photo.png", ID, &taken), Insertion::Added);
    assert_eq!(map.len(), 1);
    // the same name again is skipped
    assert_eq!(map.insert("other/photo.png", ID2, &taken), Insertion::Skipped);
    // an already opaque name is skipped
    assert_eq!(map.insert(&format!("files/{}.jpg", ID2), ID, &taken), Insertion::Skipped);
    // an identifier already used by another record collides
    assert_eq!(map.insert("files/cat.png", ID, &taken), Insertion::Collision);
    // an identifier whose new name is taken collides
    assert_eq!(map.insert("files/dog.jpg", ID2, &taken), Insertion::Collision);
    // an identifier that is not opaque is refused
    assert_eq!(map.insert("files/dog.jpg", "a1b2", &taken), Insertion::Collision);
    assert_eq!(map.insert("files/dog.jpg", ID2, &vec![]), Insertion::Added);
    assert_eq!(map.len(), 2);
    assert_eq!(map.get(1).new_name(), format!("{}.jpg", ID2));
}

#[test]
fn rename_map_build_renames_only_plain_names() {
    let paths = vec![
        "files/photo.png".to_string(),
        format!("files/{}.png", ID),
        "files/notes.txt".to_string(),
    ];
    let map = RenameMap::build(&paths);
    assert_eq!(map.len(), 2);
    let mut names: Vec<String> = Vec::new();
    for i in 0..map.len() {
        let e = map.get(i);
        assert_ne!(e.new_name(), e.old_name());
        assert_eq!(e.new_name().len(), e.old_name().len() - e.old_name().find('.').unwrap() + 36);
        names.push(e.old_name().to_string());
    }
    assert_eq!(names, vec!["photo.png".to_string(), "notes.txt".to_string()]);
    assert_ne!(map.get(0).new_name(), map.get(1).new_name());
}

#[test]
fn rename_map_second_run_changes_nothing() {
    let paths = vec!["files/photo.png".to_string(), "files/a.pdf".to_string()];
    let map = RenameMap::build(&paths);
    let renamed: Vec<String> = (0..map.len()).map(|i| map.get(i).new_path().to_string()).collect();
    let again = RenameMap::build(&renamed);
    assert_eq!(again.len(), 0);
}

#[test]
fn apply_to_text_replaces_every_occurrence() {
    let mut map = RenameMap::new();
    assert_eq!(map.insert("files/photo.png", ID, &vec![]), Insertion::Added);
    let (text, changed) = map.apply_to_text("![[photo.png]] and [x](photo.png)");
    assert!(changed);
    assert_eq!(
        text,
        format!("![[{0}.png]] and [x]({0}.png)", ID)
    );
    let (same, changed) = map.apply_to_text("nothing here");
    assert!(!changed);
    assert_eq!(same, "nothing here");
}

#[test]
fn rename_scenario_document() {
    let note = "---\ntype: issue\nbanner: old.png\n---\n# Title\nSee ![[old.png]]\n";
    let mut map = RenameMap::new();
    assert_eq!(map.insert("attachments/old.png", ID, &vec!["old.png".to_string()]), Insertion::Added);
    let (text, changed) = map.apply_to_text(note);
    assert!(changed);
    let new_name = format!("{}.png", ID);
    assert_eq!(
        text,
        format!("---\ntype: issue\nbanner: {0}\n---\n# Title\nSee ![[{0}]]\n", new_name)
    );
    let meta = Metadata::from_str(text.as_str()).unwrap();
    assert_eq!(meta.get_banner(), Some(new_name.clone()));
    assert_eq!(map.get(0).new_path(), format!("attachments/{}", new_name));
}

#[test]
fn apply_to_text_is_one_pass() {
    let id_a = "7f3c9a2e-1b4d-4c8e-9f00-a1b2c3d4e5f1";
    let mut map = RenameMap::new();
    assert_eq!(map.insert("files/a.png", id_a, &vec![]), Insertion::Added);
    assert_eq!(map.insert("files/1.png", ID2, &vec![]), Insertion::Added);
    let (text, changed) = map.apply_to_text("![[a.png]] and ![[1.png]]");
    assert!(changed);
    assert_eq!(text, format!("![[{}.png]] and ![[{}.png]]", id_a, ID2));
}

#[test]
fn build_keeps_new_names_apart_from_existing_ones() {
    let paths = vec!["files/photo.png".to_string(), "files/photo.jpg".to_string()];
    let map = RenameMap::build(&paths);
    assert_eq!(map.len(), 2);
    for i in 0..map.len() {
        assert!(map.get(i).new_name() != "photo.png" && map.get(i).new_name() != "photo.jpg");
    }
    assert!(map.get(0).new_name().ends_with(".png"));
    assert!(map.get(1).new_name().ends_with(".jpg"));
}

#[test]
fn build_with_takes_first_usable_identifier() {
    let paths = vec![
        "files/photo.png".to_string(),
        format!("files/{}.png", ID2),
        "files/notes.png".to_string(),
        "other/photo.png".to_string(),
        "files/cat.jpg".to_string(),
    ];
    let ids = vec![
        // not opaque, then taken by an existing file, then usable
        vec!["a1b2".to_string(), ID2.to_string(), ID.to_string()],
        vec![],
        // the new name of the first record again collides; nothing else is offered
        vec![ID.to_string()],
        vec!["0a1b2c3d-4e5f-4a6b-8c7d-000000000001".to_string()],
        vec!["0a1b2c3d-4e5f-4a6b-8c7d-000000000002".to_string()],
    ];
    let map = RenameMap::build_with(&paths, &ids);
    assert_eq!(map.len(), 2);
    assert_eq!(map.get(0).old_path(), "files/photo.png");
    assert_eq!(map.get(0).new_name(), format!("{}.png", ID));
    // other/photo.png shares its name with a file that already has a record
    assert_eq!(map.get(1).old_path(), "files/cat.jpg");
    assert_eq!(map.get(1).new_name(), "0a1b2c3d-4e5f-4a6b-8c7d-000000000002.jpg");
}

#[test]
fn windows_paths_have_bare_names() {
    let e = FileEntry::new("C:\\vault\\files\\photo.png", ID).unwrap();
    assert_eq!(e.old_name(), "photo.png");
    assert_eq!(e.new_path(), format!("C:\\vault\\files\\{}.png", ID));
}
