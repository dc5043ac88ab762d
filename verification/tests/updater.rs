use codebase_index::config::{FileTypesConfig, IndexTypes, IndexTypesConfig};
use codebase_index::error::IndexError;
use codebase_index::ingestion::{create_folder, DirEntry, EntryAction, EntryKind, Timestamp};
use codebase_index::json::Json;
use codebase_index::replies::Indexed;
use codebase_index::store::{updateFileInput, StoreRequest};
use codebase_index::deleter::Owner;
use codebase_index::ingestion::Level;
use codebase_index::updater::{
    begin_update, check_root, descend, find_indexed, get_root, is_on_disk, is_out_of_date,
    is_too_old, list_files, list_folders, reconcile_entry, seconds_between, unseen_entries,
    update, update_file, update_folder, update_listed, FileUpdate, Listing, Reconciliation,
};

const EXTRACTED: &str = "2024-01-01T00:00:00+00:00";
const EXTRACTED_SECONDS: i64 = 1_704_067_200;

fn at(offset: i64) -> Option<Timestamp> {
    Some(Timestamp { seconds: EXTRACTED_SECONDS + offset, nanos: 0 })
}

fn folder(name: &str, id: &str) -> Indexed {
    Indexed { name: name.to_string(), id: id.to_string(), extracted_at: None }
}

fn file(name: &str, id: &str) -> Indexed {
    Indexed { name: name.to_string(), id: id.to_string(), extracted_at: Some(EXTRACTED.to_string()) }
}

fn directory(name: &str) -> DirEntry {
    DirEntry { name: name.to_string(), kind: EntryKind::Directory, modified: at(0) }
}

fn file_entry(name: &str, offset: i64) -> DirEntry {
    DirEntry { name: name.to_string(), kind: EntryKind::File, modified: at(offset) }
}

fn strings(values: &[&str]) -> Vec<String> {
    values.iter().map(|value| value.to_string()).collect()
}

#[test]
fn the_age_of_an_extraction_is_counted_in_whole_seconds() {
    assert_eq!(is_out_of_date(at(6), Some(EXTRACTED), 5), Ok(true));
    assert_eq!(is_out_of_date(at(5), Some(EXTRACTED), 5), Ok(false));
    assert_eq!(is_out_of_date(at(0), Some(EXTRACTED), 0), Ok(false));
    assert_eq!(is_out_of_date(at(1), Some(EXTRACTED), 0), Ok(true));
    assert_eq!(is_out_of_date(at(-100), Some(EXTRACTED), 0), Ok(false));
    let almost = Some(Timestamp { seconds: EXTRACTED_SECONDS + 5, nanos: 999_999_999 });
    assert_eq!(is_out_of_date(almost, Some(EXTRACTED), 5), Ok(false));
    assert_eq!(is_out_of_date(almost, Some(EXTRACTED), 4), Ok(true));
    assert_eq!(is_out_of_date(at(1_000_000), Some(EXTRACTED), u64::MAX), Ok(false));
}

#[test]
fn the_extraction_time_is_read_with_its_offset_and_its_fraction() {
    assert_eq!(is_out_of_date(at(6), Some("2024-01-01T01:00:00+01:00"), 5), Ok(true));
    assert_eq!(is_out_of_date(at(5), Some("2024-01-01T01:00:00+01:00"), 5), Ok(false));
    assert_eq!(is_out_of_date(at(6), Some("2024-01-01T00:00:00Z"), 5), Ok(true));
    assert_eq!(is_out_of_date(at(6), Some("2024-01-01T00:00:00.500Z"), 5), Ok(false));
    assert_eq!(is_out_of_date(at(7), Some("2024-01-01T00:00:00.500Z"), 5), Ok(true));
    assert_eq!(is_out_of_date(at(3600), Some("2023-12-31T23:00:00-01:00"), 3599), Ok(true));
    assert_eq!(is_out_of_date(at(3600), Some("2023-12-31T23:00:00-02:00"), 0), Ok(false));
}

#[test]
fn a_file_of_unknown_age_is_out_of_date() {
    assert_eq!(is_out_of_date(None, Some(EXTRACTED), u64::MAX), Ok(true));
    assert_eq!(is_out_of_date(None, Some("not a time"), 0), Ok(true));
    assert_eq!(is_out_of_date(None, None, 0), Ok(true));
}

#[test]
fn a_time_that_cannot_be_read_is_a_failure() {
    assert_eq!(is_out_of_date(at(0), Some("yesterday"), 5), Err(IndexError::InvalidTimestamp));
    assert_eq!(is_out_of_date(at(0), Some(""), 5), Err(IndexError::InvalidTimestamp));
    assert_eq!(
        is_out_of_date(at(0), Some("2024-01-01 00:00:00"), 5),
        Err(IndexError::InvalidTimestamp)
    );
    assert_eq!(is_out_of_date(at(0), None, 5), Err(IndexError::FileExtractedAtNotFound));
    let beyond = Some(Timestamp { seconds: i64::MAX, nanos: u32::MAX });
    assert_eq!(is_out_of_date(beyond, Some(EXTRACTED), u64::MAX), Ok(false));
    assert_eq!(is_out_of_date(beyond, Some(EXTRACTED), 5), Ok(true));
    let before = Some(Timestamp { seconds: i64::MIN, nanos: 0 });
    assert_eq!(is_out_of_date(before, Some(EXTRACTED), 0), Ok(false));
}

#[test]
fn a_listing_is_looked_up_by_name_and_its_last_item_counts() {
    let listing = vec![folder("src", "1"), folder("doc", "2"), folder("src", "3")];
    assert_eq!(find_indexed(&listing, "src"), Some(&folder("src", "3")));
    assert_eq!(find_indexed(&listing, "doc"), Some(&folder("doc", "2")));
    assert_eq!(find_indexed(&listing, "lib"), None);
    assert_eq!(find_indexed(&vec![], "src"), None);
}

#[test]
fn what_is_indexed_and_not_on_disk_is_unseen() {
    let listing = vec![folder("src", "1"), folder("old", "2"), folder("old", "3"), folder(".git", "4")];
    let entries = vec![directory("src"), directory(".git"), file_entry("new.py", 0)];
    assert_eq!(unseen_entries(&listing, &entries), vec![folder("old", "3"), folder(".git", "4")]);
    assert_eq!(
        unseen_entries(&listing, &vec![]),
        vec![folder("src", "1"), folder("old", "3"), folder(".git", "4")]
    );
    assert_eq!(unseen_entries(&vec![], &entries), vec![]);
    assert!(is_on_disk(&entries, "src"));
    assert!(is_on_disk(&entries, "new.py"));
    assert!(!is_on_disk(&entries, ".git"));
    assert!(!is_on_disk(&entries, "old"));
}

#[test]
fn each_entry_is_held_against_the_index() {
    let folders = vec![folder("src", "d1")];
    let files = vec![file("a.py", "f1"), file("b.py", "f2")];
    let decide = |entry: &DirEntry| reconcile_entry(entry, "parent", false, &folders, &files, 5);
    assert_eq!(decide(&directory("src")), Ok(EntryAction::UpdateFolder("d1".to_string())));
    assert_eq!(
        decide(&directory("lib")),
        Ok(EntryAction::CreateFolder(create_folder("lib", "parent", false)))
    );
    assert_eq!(decide(&file_entry("a.py", 6)), Ok(EntryAction::UpdateFile("f1".to_string())));
    assert_eq!(decide(&file_entry("b.py", 5)), Ok(EntryAction::Skip));
    assert_eq!(decide(&file_entry("c.py", 0)), Ok(EntryAction::ProcessFile));
    assert_eq!(decide(&directory(".git")), Ok(EntryAction::Skip));
    let other = DirEntry { name: "pipe".to_string(), kind: EntryKind::Other, modified: None };
    assert_eq!(decide(&other), Ok(EntryAction::Skip));
    let unknown = DirEntry { name: "b.py".to_string(), kind: EntryKind::File, modified: None };
    assert_eq!(decide(&unknown), Ok(EntryAction::UpdateFile("f2".to_string())));
    assert_eq!(decide(&file_entry("src", 0)), Ok(EntryAction::ProcessFile));
    assert_eq!(
        decide(&directory("a.py")),
        Ok(EntryAction::CreateFolder(create_folder("a.py", "parent", false)))
    );
}

#[test]
fn a_file_that_has_gone_is_deleted_and_nothing_else() {
    let files = vec![file("a.py", "f1"), file("old.py", "f2")];
    let entries = vec![file_entry("a.py", 0)];
    let plan = update_folder(&entries, "root-1", true, &vec![], &files, 5).expect("a plan");
    assert_eq!(
        plan,
        Reconciliation {
            actions: vec![EntryAction::Skip],
            unseen_folders: vec![],
            unseen_files: vec![file("old.py", "f2")],
        }
    );
}

#[test]
fn a_directory_is_reconciled_entry_by_entry() {
    let folders = vec![folder("src", "d1"), folder("gone", "d2")];
    let files = vec![file("a.py", "f1"), file("b.py", "f2"), file("gone.py", "f3")];
    let entries = vec![
        directory("src"),
        directory("new"),
        file_entry("a.py", 100),
        file_entry("b.py", 1),
        file_entry("c.py", 0),
    ];
    let plan = update_folder(&entries, "d0", false, &folders, &files, 5).expect("a plan");
    assert_eq!(
        plan.actions,
        vec![
            EntryAction::UpdateFolder("d1".to_string()),
            EntryAction::CreateFolder(create_folder("new", "d0", false)),
            EntryAction::UpdateFile("f1".to_string()),
            EntryAction::Skip,
            EntryAction::ProcessFile,
        ]
    );
    assert_eq!(plan.unseen_folders, vec![folder("gone", "d2")]);
    assert_eq!(plan.unseen_files, vec![file("gone.py", "f3")]);
}

#[test]
fn an_unchanged_directory_is_left_alone() {
    let folders = vec![folder("src", "d1")];
    let files = vec![file("a.py", "f1"), file("b.md", "f2")];
    let entries = vec![directory("src"), file_entry("a.py", 0), file_entry("b.md", -50), directory(".git")];
    let plan = update_folder(&entries, "root-1", true, &folders, &files, 3600).expect("a plan");
    assert_eq!(
        plan,
        Reconciliation {
            actions: vec![
                EntryAction::UpdateFolder("d1".to_string()),
                EntryAction::Skip,
                EntryAction::Skip,
                EntryAction::Skip,
            ],
            unseen_folders: vec![],
            unseen_files: vec![],
        }
    );
    let again = update_folder(&entries, "root-1", true, &folders, &files, 3600).expect("a plan");
    assert_eq!(again, plan);
}

#[test]
fn the_first_unreadable_time_fails_the_update() {
    let mut broken = file("a.py", "f1");
    broken.extracted_at = Some("never".to_string());
    let files = vec![broken, folder("b.py", "f2")];
    let entries = vec![file_entry("b.py", 0), file_entry("a.py", 0)];
    assert_eq!(
        update_folder(&entries, "d", false, &vec![], &files, 5),
        Err(IndexError::FileExtractedAtNotFound)
    );
    let entries = vec![file_entry("a.py", 0), file_entry("b.py", 0)];
    assert_eq!(
        update_folder(&entries, "d", false, &vec![], &files, 5),
        Err(IndexError::InvalidTimestamp)
    );
}

#[test]
fn the_root_must_carry_the_name_of_the_directory() {
    let reply = Json::parse(r#"{"root": {"name": "sample", "id": "r"}}"#).expect("valid JSON");
    assert_eq!(check_root("sample", &reply), Ok(()));
    assert_eq!(check_root("other", &reply), Err(IndexError::RootNameMismatch));
    assert_eq!(check_root("Sample", &reply), Err(IndexError::RootNameMismatch));
    let missing = Json::parse(r#"{"root": {"id": "r"}}"#).expect("valid JSON");
    assert_eq!(check_root("sample", &missing), Err(IndexError::RootNotFound));
}

#[test]
fn an_update_checks_the_root_before_it_lists_anything() {
    let reply = Json::parse(r#"{"root": {"name": "sample"}}"#).expect("valid JSON");
    assert_eq!(
        update("sample", "root-1", &reply),
        Ok(Listing {
            level: Level { parent_id: "root-1".to_string(), is_super: true },
            folders: list_folders("root-1", true),
            files: list_files("root-1", true),
        })
    );
    assert_eq!(update("elsewhere", "root-1", &reply), Err(IndexError::RootNameMismatch));
    let missing = Json::parse("{}").expect("valid JSON");
    assert_eq!(update("sample", "root-1", &missing), Err(IndexError::RootNotFound));
}

#[test]
fn an_update_reads_the_configurations_before_it_asks_for_the_root() {
    let index = r#"{"py": ["ALL"]}"#;
    let files = r#"{"supported": ["py"], "unsupported": []}"#;
    let start = begin_update("root-1", Some(index), Some(files)).expect("a start");
    assert_eq!(start.request, get_root("root-1"));
    assert_eq!(start.configurations.file_types.supported, strings(&["py"]));
    assert_eq!(
        begin_update("root-1", None, Some(files)).expect_err("no index types"),
        IndexError::IndexTypesMissing
    );
    assert_eq!(
        begin_update("root-1", Some(index), Some("[]")).expect_err("no file types"),
        IndexError::FileTypesMalformed
    );
}

#[test]
fn what_lies_inside_a_folder_is_listed_as_below_a_folder() {
    assert_eq!(
        descend("d1"),
        Listing {
            level: Level { parent_id: "d1".to_string(), is_super: false },
            folders: list_folders("d1", false),
            files: list_files("d1", false),
        }
    );
}

#[test]
fn a_directory_is_reconciled_with_the_replies_of_its_listing() {
    let entries = vec![directory("src"), file_entry("old.py", 0), file_entry("new.py", 0)];
    let folders = Json::parse(r#"{"folders": [{"id": "d1", "name": "src"}]}"#).expect("valid JSON");
    let files = Json::parse(
        r#"{"files": [{"id": "f1", "name": "old.py", "extracted_at": "2024-01-01T00:00:00+00:00"}]}"#,
    )
    .expect("valid JSON");
    let root = Level { parent_id: "root-1".to_string(), is_super: true };
    let plan = update_listed(&entries, &root, &folders, &files, 5).expect("a plan");
    assert_eq!(
        plan.actions,
        vec![
            EntryAction::UpdateFolder("d1".to_string()),
            EntryAction::Skip,
            EntryAction::ProcessFile,
        ]
    );
    let inside = Level { parent_id: "d1".to_string(), is_super: false };
    assert_eq!(
        update_listed(&entries, &inside, &folders, &files, 5),
        Err(IndexError::FolderIdNotFound)
    );
    let subfolders = Json::parse(r#"{"subfolders": []}"#).expect("valid JSON");
    let nested = update_listed(&entries, &inside, &subfolders, &files, 5).expect("a plan");
    assert_eq!(nested.actions[0], EntryAction::CreateFolder(create_folder("src", "d1", false)));
    let unreadable = Json::parse(r#"{"files": [{"id": "f1"}]}"#).expect("valid JSON");
    assert_eq!(
        update_listed(&entries, &root, &folders, &unreadable, 5),
        Err(IndexError::FileNameNotFound)
    );
    assert_eq!(
        update_listed(&entries, &root, &unreadable, &unreadable, 5),
        Err(IndexError::RootIdNotFound)
    );
}

#[test]
fn a_file_named_like_the_ignored_directory_is_reconciled() {
    let files = vec![file(".git", "f1")];
    let folders = vec![folder(".git", "d1")];
    let as_file = DirEntry { name: ".git".to_string(), kind: EntryKind::File, modified: at(0) };
    assert_eq!(
        reconcile_entry(&as_file, "p", false, &folders, &files, 5),
        Ok(EntryAction::Skip)
    );
    assert_eq!(
        reconcile_entry(&as_file, "p", false, &folders, &vec![], 5),
        Ok(EntryAction::ProcessFile)
    );
    assert!(is_on_disk(&vec![as_file], ".git"));
    assert_eq!(reconcile_entry(&directory(".git"), "p", false, &folders, &files, 5), Ok(EntryAction::Skip));
}

#[test]
fn the_seconds_between_two_times_are_rounded_toward_zero() {
    let time = |seconds, nanos| Timestamp { seconds, nanos };
    assert_eq!(seconds_between(time(10, 0), time(4, 0)), 6);
    assert_eq!(seconds_between(time(10, 999_999_999), time(4, 0)), 6);
    assert_eq!(seconds_between(time(10, 0), time(4, 1)), 5);
    assert_eq!(seconds_between(time(4, 0), time(10, 0)), -6);
    assert_eq!(seconds_between(time(4, 1), time(10, 0)), -5);
    assert_eq!(seconds_between(time(4, 0), time(10, 1)), -6);
    assert_eq!(seconds_between(time(0, 0), time(0, 0)), 0);
    assert_eq!(seconds_between(time(0, 999_999_999), time(0, 0)), 0);
    assert_eq!(seconds_between(time(0, 0), time(0, 999_999_999)), 0);
    assert_eq!(seconds_between(time(-1, 500_000_000), time(0, 0)), 0);
    assert_eq!(seconds_between(time(-2, 500_000_000), time(0, 0)), -1);
    assert_eq!(seconds_between(time(0, 1_500_000_000), time(0, 0)), 1);
    assert_eq!(
        seconds_between(time(i64::MAX, 0), time(i64::MIN, 0)),
        i64::MAX as i128 - i64::MIN as i128
    );
    assert_eq!(
        seconds_between(time(i64::MIN, 0), time(i64::MAX, u32::MAX)),
        i64::MIN as i128 - i64::MAX as i128 - 4
    );
}

#[test]
fn a_changed_python_file_is_ingested_again_in_full() {
    let index = IndexTypesConfig {
        entries: vec![IndexTypes { extension: "py".to_string(), kinds: strings(&["function_definition"]) }],
    };
    let files = FileTypesConfig { supported: strings(&["py"]), unsupported: strings(&["md"]) };
    let source = "def f():\n    return 2\n";
    let now = "2024-06-01T12:00:00+00:00";
    let plan = update_file("py", Some(source), "file-1", now, &index, &files)
        .expect("a tree")
        .expect("a readable file");
    assert_eq!(
        plan.request,
        StoreRequest::UpdateFile(updateFileInput {
            file_id: "file-1".to_string(),
            text: source.to_string(),
            extracted_at: Some(now.to_string()),
        })
    );
    assert_eq!(plan.old_entities, Some(Owner { id: "file-1".to_string(), is_file: true }));
    assert_eq!(plan.entities.len(), 1);
    assert_eq!(plan.entities[0].entity.entity_type, "function_definition");
    assert_eq!(plan.entities[0].entity.order, 1);
    assert_eq!(plan.entities[0].chunks, strings(&["def f():\n    return 2"]));
}

#[test]
fn a_changed_text_file_is_chunked_again() {
    let index = IndexTypesConfig { entries: vec![] };
    let files = FileTypesConfig { supported: strings(&["py"]), unsupported: strings(&["md"]) };
    let plan = update_file("md", Some("# title\n"), "file-2", "now", &index, &files)
        .expect("no parsing")
        .expect("a readable file");
    assert_eq!(
        plan.request,
        StoreRequest::UpdateFile(updateFileInput {
            file_id: "file-2".to_string(),
            text: "# title\n".to_string(),
            extracted_at: Some("now".to_string()),
        })
    );
    assert_eq!(plan.old_entities, Some(Owner::file("file-2")));
    assert_eq!(plan.entities.len(), 1);
    assert_eq!(plan.entities[0].entity.entity_type, "chunk");
    assert_eq!(plan.entities[0].entity.text, "# title\n");
}

#[test]
fn a_changed_file_of_an_unlisted_extension_keeps_its_entities() {
    let index = IndexTypesConfig { entries: vec![] };
    let files = FileTypesConfig { supported: vec![], unsupported: vec![] };
    let rust = update_file("rs", Some("fn main() {}\n"), "file-3", "now", &index, &files)
        .expect("a tree")
        .expect("a readable file");
    assert_eq!(
        rust,
        FileUpdate {
            request: StoreRequest::UpdateFile(updateFileInput {
                file_id: "file-3".to_string(),
                text: "fn main() {}\n".to_string(),
                extracted_at: Some("now".to_string()),
            }),
            old_entities: None,
            entities: vec![],
        }
    );
    let text = update_file("txt", Some("x"), "file-4", "now", &index, &files)
        .expect("no parsing")
        .expect("a readable file");
    assert_eq!(text.old_entities, None);
    assert_eq!(text.entities, vec![]);
    assert_eq!(update_file("py", None, "file-5", "now", &index, &files), Ok(None));
}

#[test]
fn an_extraction_is_too_old_after_more_than_the_interval() {
    let time = |seconds, nanos| Timestamp { seconds, nanos };
    assert!(is_too_old(time(106, 0), time(100, 0), 5));
    assert!(!is_too_old(time(105, 0), time(100, 0), 5));
    assert!(!is_too_old(time(105, 999_999_999), time(100, 0), 5));
    assert!(!is_too_old(time(100, 0), time(100, 0), 0));
    assert!(is_too_old(time(101, 0), time(100, 0), 0));
    assert!(!is_too_old(time(100, 999_999_999), time(100, 0), 0));
    assert!(!is_too_old(time(0, 0), time(100, 0), 0));
    assert!(!is_too_old(time(i64::MAX, 0), time(0, 0), i64::MAX as u64));
    assert!(is_too_old(time(i64::MAX, 0), time(0, 0), i64::MAX as u64 - 1));
    assert!(!is_too_old(time(i64::MAX, 0), time(i64::MIN, 0), u64::MAX));
    assert!(is_too_old(time(i64::MAX, 0), time(i64::MIN, 0), u64::MAX - 1));
}

#[test]
fn an_update_after_an_update_changes_nothing() {
    let folders = vec![folder("src", "d1"), folder("gone", "d2")];
    let files = vec![file("a.py", "f1"), file("gone.py", "f3")];
    let entries = vec![directory("src"), directory("new"), file_entry("a.py", 100), file_entry("c.py", 0)];
    let first = update_folder(&entries, "d0", false, &folders, &files, 5).expect("a plan");
    let fresh = "2024-01-01T00:01:40+00:00";
    let mut folders_after: Vec<Indexed> =
        folders.iter().filter(|f| !first.unseen_folders.contains(f)).cloned().collect();
    let mut files_after: Vec<Indexed> =
        files.iter().filter(|f| !first.unseen_files.contains(f)).cloned().collect();
    for (entry, action) in entries.iter().zip(&first.actions) {
        match action {
            EntryAction::CreateFolder(_) => folders_after.push(folder(&entry.name, "created")),
            EntryAction::ProcessFile => files_after.push(Indexed {
                name: entry.name.clone(),
                id: "created".to_string(),
                extracted_at: Some(fresh.to_string()),
            }),
            EntryAction::UpdateFile(id) => {
                for f in files_after.iter_mut().filter(|f| &f.id == id) {
                    f.extracted_at = Some(fresh.to_string());
                }
            }
            _ => {}
        }
    }
    let mut folder_names: Vec<&str> = folders_after.iter().map(|f| f.name.as_str()).collect();
    folder_names.sort();
    assert_eq!(folder_names, vec!["new", "src"]);
    let mut file_names: Vec<&str> = files_after.iter().map(|f| f.name.as_str()).collect();
    file_names.sort();
    assert_eq!(file_names, vec!["a.py", "c.py"]);
    let second = update_folder(&entries, "d0", false, &folders_after, &files_after, 5).expect("a plan");
    assert_eq!(second.unseen_folders, vec![]);
    assert_eq!(second.unseen_files, vec![]);
    for action in &second.actions {
        assert!(matches!(action, EntryAction::Skip | EntryAction::UpdateFolder(_)));
    }
}
