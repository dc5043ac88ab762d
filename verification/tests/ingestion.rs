use codebase_index::config::{FileTypesConfig, IndexTypes, IndexTypesConfig};
use codebase_index::error::IndexError;
use codebase_index::entities::{
    ingest_entities, process_entity, process_unsupported_file, CodeEntity, PlannedEntity,
};
use codebase_index::ingestion::{
    create_file, create_folder, create_root, file_extension, ingestion, is_ignored, is_left_out,
    plan_file_entities, plan_parsed_entities, populate, populate_created, process_file,
    read_configurations, Configurations, CreatedFile, CreatedFolder, DirEntry, EntryAction,
    EntryKind, FilePlan, Level,
};
use codebase_index::json::Json;
use codebase_index::store::{
    createFileInput, createSubEntityInput, createSubFolderInput, createSuperEntityInput,
    createSuperFileInput, createSuperFolderInput, StoreRequest,
};
use codebase_index::syntax::{OwnedNode, SyntaxNode};

fn strings(values: &[&str]) -> Vec<String> {
    values.iter().map(|value| value.to_string()).collect()
}

fn index_types(entries: &[(&str, &[&str])]) -> IndexTypesConfig {
    IndexTypesConfig {
        entries: entries
            .iter()
            .map(|(extension, kinds)| IndexTypes {
                extension: extension.to_string(),
                kinds: strings(kinds),
            })
            .collect(),
    }
}

fn file_types(supported: &[&str], unsupported: &[&str]) -> FileTypesConfig {
    FileTypesConfig { supported: strings(supported), unsupported: strings(unsupported) }
}

fn node(kind: &str, start_byte: usize, text: &str, children: Vec<OwnedNode>) -> OwnedNode {
    OwnedNode {
        kind: kind.to_string(),
        start_byte,
        end_byte: start_byte + text.len(),
        text: text.to_string(),
        children,
    }
}

fn entry(name: &str, kind: EntryKind) -> DirEntry {
    DirEntry { name: name.to_string(), kind, modified: None }
}

fn types_and_orders(plan: &[PlannedEntity]) -> Vec<(&str, usize)> {
    plan.iter().map(|p| (p.entity.entity_type.as_str(), p.entity.order)).collect()
}

const PYTHON_TYPES: &[(&str, &[&str])] = &[("py", &["function_definition", "class_definition"])];

#[test]
fn a_python_file_yields_its_function_and_its_class() {
    let body = "def f():\n    return 1\n\nclass A:\n    pass\n";
    let source = format!("{}{}", body, "# padding\n".repeat(20));
    let source = &source[..200];
    let plan = process_file(
        "a.py",
        "py",
        Some(source),
        "root-1",
        true,
        &index_types(PYTHON_TYPES),
        &file_types(&["py"], &[]),
    )
    .expect("a tree")
    .expect("a readable file");
    assert_eq!(
        plan.request,
        StoreRequest::CreateSuperFile(createSuperFileInput {
            root_id: "root-1".to_string(),
            name: "a.py".to_string(),
            extension: "py".to_string(),
            text: source.to_string(),
        })
    );
    assert_eq!(source.len(), 200);
    let entities = plan.entities.as_ref().expect("a supported extension");
    assert_eq!(entities.len(), 2);
    let function = &entities[0];
    assert_eq!(
        function.entity,
        CodeEntity {
            entity_type: "function_definition".to_string(),
            start_byte: 0,
            end_byte: 21,
            order: 1,
            text: "def f():\n    return 1".to_string(),
        }
    );
    assert!(function.is_super);
    assert_eq!(function.chunks, strings(&["def f():\n    return 1"]));
    assert_eq!(function.children, vec![]);
    let class = &entities[1];
    assert_eq!(class.entity.entity_type, "class_definition");
    assert_eq!(class.entity.order, 2);
    assert_eq!(class.entity.text, "class A:\n    pass");
    assert_eq!(class.entity.start_byte, 23);
    assert_eq!(class.entity.end_byte, 40);
    assert!(class.is_super);
    assert_eq!(class.chunks, strings(&["class A:\n    pass"]));
    assert_eq!(
        function.request("file-1"),
        StoreRequest::CreateSuperEntity(createSuperEntityInput {
            file_id: "file-1".to_string(),
            entity_type: "function_definition".to_string(),
            start_byte: 0,
            end_byte: 21,
            order: 1,
            text: "def f():\n    return 1".to_string(),
        })
    );
}

#[test]
fn a_python_block_hands_its_children_to_its_parent() {
    let source = "def f():\n    g()\n    return 1\n";
    let types: &[(&str, &[&str])] =
        &[("py", &["function_definition", "return_statement", "expression_statement"])];
    let plan = process_file(
        "a.py",
        "py",
        Some(source),
        "root-1",
        true,
        &index_types(types),
        &file_types(&["py"], &[]),
    )
    .expect("a tree")
    .expect("a readable file");
    let entities = plan.entities.expect("a supported extension");
    assert_eq!(types_and_orders(&entities), vec![("function_definition", 1)]);
    let function = &entities[0];
    assert_eq!(
        types_and_orders(&function.children),
        vec![("expression_statement", 1), ("return_statement", 2)]
    );
    for child in &function.children {
        assert!(!child.is_super);
        assert_eq!(child.chunks, Vec::<String>::new());
    }
    assert_eq!(function.children[0].entity.text, "g()");
    assert_eq!(function.children[1].entity.text, "return 1");
    assert_eq!(
        function.children[1].request("entity-1"),
        StoreRequest::CreateSubEntity(createSubEntityInput {
            entity_id: "entity-1".to_string(),
            entity_type: "return_statement".to_string(),
            start_byte: 21,
            end_byte: 29,
            order: 2,
            text: "return 1".to_string(),
        })
    );
}

#[test]
fn a_block_is_created_where_it_is_indexed_outside_python() {
    let block = node("block", 0, "{ x }", vec![node("x", 2, "x", vec![])]);
    let types: &[(&str, &[&str])] = &[("rs", &["ALL"]), ("py", &["ALL"])];
    let rust = process_entity(&block, false, 4, "rs", &index_types(types));
    assert_eq!(types_and_orders(&rust), vec![("block", 4)]);
    assert_eq!(types_and_orders(&rust[0].children), vec![("x", 1)]);
    let python = process_entity(&block, true, 4, "py", &index_types(types));
    assert_eq!(types_and_orders(&python), vec![("x", 1)]);
    assert!(!python[0].is_super);
    assert_eq!(python[0].chunks, Vec::<String>::new());
}

#[test]
fn a_python_block_without_children_is_a_node_like_any_other() {
    let block = node("block", 0, "pass", vec![]);
    let all: &[(&str, &[&str])] = &[("py", &["ALL"])];
    let plan = process_entity(&block, true, 2, "py", &index_types(all));
    assert_eq!(types_and_orders(&plan), vec![("block", 2)]);
    assert!(plan[0].is_super);
    assert_eq!(plan[0].chunks, strings(&["pass"]));
    let none: &[(&str, &[&str])] = &[("py", &["function_definition"])];
    assert_eq!(process_entity(&block, true, 2, "py", &index_types(none)), vec![]);
}

#[test]
fn a_node_that_is_not_indexed_is_dropped_with_all_below_it() {
    let tree = node(
        "decorated_definition",
        0,
        "@d\ndef f(): pass",
        vec![node("function_definition", 3, "def f(): pass", vec![])],
    );
    let plan = process_entity(&tree, true, 1, "py", &index_types(PYTHON_TYPES));
    assert_eq!(plan, vec![]);
    let missing = process_entity(&tree, true, 1, "rb", &index_types(PYTHON_TYPES));
    assert_eq!(missing, vec![]);
}

#[test]
fn siblings_are_numbered_from_one_in_source_order() {
    let nodes = vec![
        node("a", 0, "a", vec![]),
        node("b", 1, "b", vec![node("c", 1, "b", vec![]), node("d", 1, "b", vec![])]),
        node("e", 2, "e", vec![]),
    ];
    let all: &[(&str, &[&str])] = &[("rs", &["ALL"])];
    let plan = ingest_entities(&nodes, "rs", &index_types(all));
    assert_eq!(types_and_orders(&plan), vec![("a", 1), ("b", 2), ("e", 3)]);
    assert_eq!(types_and_orders(&plan[1].children), vec![("c", 1), ("d", 2)]);
    assert!(plan.iter().all(|p| p.is_super));
    assert!(plan[1].children.iter().all(|p| !p.is_super));
}

#[test]
fn a_sibling_that_is_dropped_keeps_its_number() {
    let nodes = vec![
        node("comment", 0, "#", vec![]),
        node("function_definition", 2, "def f(): pass", vec![]),
        node("comment", 16, "#", vec![]),
        node("class_definition", 18, "class A: pass", vec![]),
    ];
    let plan = ingest_entities(&nodes, "py", &index_types(PYTHON_TYPES));
    assert_eq!(
        types_and_orders(&plan),
        vec![("function_definition", 2), ("class_definition", 4)]
    );
}

#[test]
fn the_chunks_of_a_super_entity_spell_its_text() {
    let text = "x = 1\n".repeat(1000);
    let nodes = vec![node("module", 0, &text, vec![])];
    let all: &[(&str, &[&str])] = &[("py", &["ALL"])];
    let plan = ingest_entities(&nodes, "py", &index_types(all));
    assert_eq!(plan.len(), 1);
    assert!(plan[0].chunks.len() > 1);
    assert_eq!(plan[0].chunks.concat(), text);
    assert_eq!(plan[0].chunks, codebase_index::chunker::chunk_entity(&text));
}

#[test]
fn an_unsupported_file_yields_one_entity_for_each_chunk() {
    let content = format!("{}\n\n{}\n\n{}", "a".repeat(2000), "b".repeat(2000), "c".repeat(100));
    let plan = process_file(
        "README.md",
        "md",
        Some(&content),
        "folder-1",
        false,
        &index_types(PYTHON_TYPES),
        &file_types(&["py"], &["md"]),
    )
    .expect("no parsing")
    .expect("a readable file");
    assert_eq!(
        plan.request,
        StoreRequest::CreateFile(createFileInput {
            folder_id: "folder-1".to_string(),
            name: "README.md".to_string(),
            extension: "md".to_string(),
            text: content.clone(),
        })
    );
    let chunks = codebase_index::chunker::chunk_entity(&content);
    assert_eq!(chunks.len(), 3);
    let entities = plan.entities.expect("an extension that is chunked");
    assert_eq!(entities.len(), chunks.len());
    for (i, planned) in entities.iter().enumerate() {
        assert_eq!(
            planned.entity,
            CodeEntity {
                entity_type: "chunk".to_string(),
                start_byte: 0,
                end_byte: chunks[i].len(),
                order: i + 1,
                text: chunks[i].clone(),
            }
        );
        assert!(planned.is_super);
        assert_eq!(planned.chunks, vec![chunks[i].clone()]);
        assert_eq!(planned.children, vec![]);
    }
}

#[test]
fn chunk_entities_span_their_chunk_in_bytes() {
    let plan = process_unsupported_file(&strings(&["héllo", "", "x"]));
    assert_eq!(
        plan.iter().map(|p| (p.entity.start_byte, p.entity.end_byte, p.entity.order)).collect::<Vec<_>>(),
        vec![(0, 6, 1), (0, 0, 2), (0, 1, 3)]
    );
    assert_eq!(process_unsupported_file(&vec![]), vec![]);
}

#[test]
fn an_empty_file_is_created_without_entities() {
    let types = index_types(&[("py", &["ALL"])]);
    let files = file_types(&["py"], &["md"]);
    let python = process_file("empty.py", "py", Some(""), "r", true, &types, &files)
        .expect("a tree")
        .expect("a readable file");
    assert_eq!(python.request, create_file("empty.py", "py", "", "r", true));
    assert_eq!(python.entities, Some(vec![]));
    let markdown = process_file("empty.md", "md", Some(""), "r", true, &types, &files)
        .expect("no parsing")
        .expect("a readable file");
    assert_eq!(markdown.request, create_file("empty.md", "md", "", "r", true));
    assert_eq!(markdown.entities, Some(vec![]));
}

#[test]
fn an_unreadable_file_is_skipped() {
    let types = index_types(&[("py", &["ALL"])]);
    let files = file_types(&["ALL"], &["ALL"]);
    assert_eq!(process_file("a.py", "py", None, "r", true, &types, &files), Ok(None));
    assert_eq!(process_file("a.bin", "bin", None, "d", false, &types, &files), Ok(None));
}

#[test]
fn a_file_of_an_unlisted_extension_is_created_and_nothing_else() {
    let types = index_types(&[("py", &["ALL"]), ("rs", &["ALL"])]);
    let files = file_types(&["py"], &["md"]);
    let rust = process_file("a.rs", "rs", Some("fn main() {}\n"), "r", true, &types, &files)
        .expect("a tree")
        .expect("a readable file");
    assert_eq!(
        rust,
        FilePlan { request: create_file("a.rs", "rs", "fn main() {}\n", "r", true), entities: None }
    );
    let text = process_file("a.txt", "txt", Some("some text"), "d", false, &types, &files)
        .expect("no parsing")
        .expect("a readable file");
    assert_eq!(
        text,
        FilePlan { request: create_file("a.txt", "txt", "some text", "d", false), entities: None }
    );
}

#[test]
fn a_file_without_extension_is_filed_under_txt() {
    assert_eq!(file_extension(None), "txt");
    assert_eq!(file_extension(Some("py")), "py");
    assert_eq!(file_extension(Some("")), "");
}

#[test]
fn a_directory_becomes_a_folder_and_a_file_is_processed() {
    let entries = vec![
        entry("src", EntryKind::Directory),
        entry("a.py", EntryKind::File),
        entry("socket", EntryKind::Other),
    ];
    let top = populate(&entries, "root-1", true);
    assert_eq!(
        top,
        vec![
            EntryAction::CreateFolder(StoreRequest::CreateSuperFolder(createSuperFolderInput {
                root_id: "root-1".to_string(),
                name: "src".to_string(),
            })),
            EntryAction::ProcessFile,
            EntryAction::Skip,
        ]
    );
    let nested = populate(&entries, "folder-1", false);
    assert_eq!(
        nested[0],
        EntryAction::CreateFolder(StoreRequest::CreateSubFolder(createSubFolderInput {
            folder_id: "folder-1".to_string(),
            name: "src".to_string(),
        }))
    );
    assert_eq!(nested[0], EntryAction::CreateFolder(create_folder("src", "folder-1", false)));
    assert_eq!(populate(&vec![], "root-1", true), vec![]);
}

#[test]
fn a_directory_that_holds_only_git_yields_nothing() {
    let entries = vec![entry(".git", EntryKind::Directory)];
    assert_eq!(populate(&entries, "folder-1", false), vec![EntryAction::Skip]);
    assert_eq!(populate(&entries, "root-1", true), vec![EntryAction::Skip]);
    assert!(is_ignored(".git"));
    assert!(!is_ignored(".github"));
    assert!(!is_ignored("git"));
    assert!(!is_ignored(".gitignore"));
    assert!(is_left_out(&entry(".git", EntryKind::Directory)));
    assert!(!is_left_out(&entry(".github", EntryKind::Directory)));
}

#[test]
fn a_file_named_like_the_ignored_directory_is_a_file_like_any_other() {
    assert_eq!(
        populate(&vec![entry(".git", EntryKind::File)], "r", true),
        vec![EntryAction::ProcessFile]
    );
    assert!(!is_left_out(&entry(".git", EntryKind::File)));
    assert!(!is_left_out(&entry(".git", EntryKind::Other)));
    assert_eq!(populate(&vec![entry(".git", EntryKind::Other)], "r", true), vec![EntryAction::Skip]);
}

#[test]
fn the_configurations_are_read_before_anything_is_asked_of_the_store() {
    let index = r#"{"py": ["function_definition"]}"#;
    let files = r#"{"supported": ["py"], "unsupported": []}"#;
    let start = ingestion("sample", Some(index), Some(files)).expect("a start");
    assert_eq!(start.request, create_root("sample"));
    assert_eq!(
        start.configurations,
        Configurations {
            index_types: index_types(&[("py", &["function_definition"])]),
            file_types: file_types(&["py"], &[]),
        }
    );
    assert_eq!(read_configurations(Some(index), Some(files)), Ok(start.configurations));
}

#[test]
fn a_configuration_that_is_missing_or_malformed_ends_the_ingestion() {
    let index = r#"{"py": ["ALL"]}"#;
    let files = r#"{"supported": [], "unsupported": []}"#;
    let fails = |index: Option<&str>, files: Option<&str>| {
        let direct = read_configurations(index, files).expect_err("a failure");
        assert_eq!(ingestion("sample", index, files).expect_err("a failure"), direct);
        direct
    };
    assert_eq!(fails(None, None), IndexError::IndexTypesMissing);
    assert_eq!(fails(None, Some(files)), IndexError::IndexTypesMissing);
    assert_eq!(fails(Some("[]"), None), IndexError::IndexTypesMalformed);
    assert_eq!(fails(Some(""), Some(files)), IndexError::IndexTypesMalformed);
    assert_eq!(fails(Some(index), None), IndexError::FileTypesMissing);
    assert_eq!(fails(Some(index), Some("{}")), IndexError::FileTypesMalformed);
    assert_eq!(fails(Some(index), Some("oops")), IndexError::FileTypesMalformed);
    assert!(ingestion("sample", Some(index), Some(files)).is_ok());
}

#[test]
fn the_tree_is_created_below_the_root_that_the_store_names() {
    let index = r#"{"py": ["ALL"]}"#;
    let files = r#"{"supported": [], "unsupported": []}"#;
    let named = Json::parse(r#"{"root": {"id": "root-1"}}"#).expect("valid JSON");
    let started = ingestion("sample", Some(index), Some(files))
        .expect("a start")
        .rooted(&named)
        .expect("a named root");
    assert_eq!(started.root, Level { parent_id: "root-1".to_string(), is_super: true });
    assert_eq!(started.configurations.index_types, index_types(&[("py", &["ALL"])]));
    let unnamed = Json::parse(r#"{"root": {}}"#).expect("valid JSON");
    let failed = ingestion("sample", Some(index), Some(files)).expect("a start").rooted(&unnamed);
    assert_eq!(failed, Err(IndexError::RootIdNotFound));
}

#[test]
fn what_lies_inside_a_created_folder_is_never_under_the_root() {
    let entries = vec![entry("deep", EntryKind::Directory), entry("a.py", EntryKind::File)];
    let top = Json::parse(r#"{"folder": {"id": "d1"}}"#).expect("valid JSON");
    let nested = Json::parse(r#"{"subfolder": {"id": "d2"}}"#).expect("valid JSON");
    assert_eq!(
        populate_created(&top, true, &entries),
        Ok(CreatedFolder {
            inside: Level { parent_id: "d1".to_string(), is_super: false },
            actions: vec![
                EntryAction::CreateFolder(create_folder("deep", "d1", false)),
                EntryAction::ProcessFile,
            ],
        })
    );
    assert_eq!(
        populate_created(&nested, false, &vec![]),
        Ok(CreatedFolder {
            inside: Level { parent_id: "d2".to_string(), is_super: false },
            actions: vec![],
        })
    );
    assert_eq!(populate_created(&nested, true, &entries), Err(IndexError::FolderIdNotFound));
    assert_eq!(populate_created(&top, false, &entries), Err(IndexError::FolderIdNotFound));
}

#[test]
fn a_file_with_entities_needs_the_identifier_of_the_file() {
    let named = Json::parse(r#"{"file": {"id": "f1"}}"#).expect("valid JSON");
    let unnamed = Json::parse(r#"{"file": {}}"#).expect("valid JSON");
    let plan = |entities| FilePlan { request: create_file("a.py", "py", "", "r", true), entities };
    assert_eq!(plan(None).created(&named), Ok(None));
    assert_eq!(plan(None).created(&unnamed), Ok(None));
    assert_eq!(
        plan(Some(vec![])).created(&named),
        Ok(Some(CreatedFile { file_id: "f1".to_string(), entities: vec![] }))
    );
    assert_eq!(plan(Some(vec![])).created(&unnamed), Err(IndexError::FileIdNotFound));
    let types = index_types(&[("py", &["ALL"])]);
    let files = file_types(&["py"], &[]);
    let python = process_file("a.py", "py", Some("x = 1\n"), "r", true, &types, &files)
        .expect("a tree")
        .expect("a readable file");
    let created = python.created(&named).expect("a named file").expect("entities");
    assert_eq!(created.file_id, "f1");
    assert_eq!(types_and_orders(&created.entities), vec![("expression_statement", 1)]);
}

#[test]
fn a_source_without_a_tree_fails() {
    let types = index_types(&[("py", &["ALL"])]);
    let files = file_types(&["py"], &[]);
    assert_eq!(
        plan_parsed_entities(None, "py", "x = 1\n", &types, &files),
        Err(IndexError::ParseFailed)
    );
    let unlisted = file_types(&[], &[]);
    assert_eq!(
        plan_parsed_entities(None, "py", "x = 1\n", &types, &unlisted),
        Err(IndexError::ParseFailed)
    );
}

#[test]
fn a_tree_that_does_not_fit_its_source_fails() {
    let types = index_types(&[("py", &["ALL"])]);
    let files = file_types(&["py"], &[]);
    let beyond = vec![SyntaxNode {
        kind: "module".to_string(),
        start_byte: 0,
        end_byte: 100,
        children: vec![],
    }];
    assert_eq!(
        plan_parsed_entities(Some(beyond), "py", "x = 1\n", &types, &files),
        Err(IndexError::ParseFailed)
    );
    let split = vec![SyntaxNode {
        kind: "string".to_string(),
        start_byte: 0,
        end_byte: 1,
        children: vec![],
    }];
    assert_eq!(
        plan_parsed_entities(Some(split), "py", "é", &types, &files),
        Err(IndexError::ParseFailed)
    );
}

#[test]
fn the_nodes_of_a_tree_are_planned_where_the_extension_is_supported() {
    let types = index_types(&[("py", &["assignment"])]);
    let nodes = || {
        vec![
            SyntaxNode { kind: "assignment".to_string(), start_byte: 0, end_byte: 5, children: vec![] },
            SyntaxNode { kind: "comment".to_string(), start_byte: 6, end_byte: 9, children: vec![] },
        ]
    };
    let supported = plan_parsed_entities(Some(nodes()), "py", "x = 1 # c", &types, &file_types(&["py"], &[]))
        .expect("a tree that fits")
        .expect("a supported extension");
    assert_eq!(types_and_orders(&supported), vec![("assignment", 1)]);
    assert_eq!(supported[0].entity.text, "x = 1");
    assert_eq!(
        plan_parsed_entities(Some(nodes()), "py", "x = 1 # c", &types, &file_types(&["rs"], &["py"])),
        Ok(None)
    );
    let beyond = vec![SyntaxNode { kind: "x".to_string(), start_byte: 0, end_byte: 100, children: vec![] }];
    assert_eq!(
        plan_parsed_entities(Some(beyond), "py", "x = 1 # c", &types, &file_types(&[], &[])),
        Ok(None)
    );
}

#[test]
fn the_entities_of_a_file_follow_from_its_extension() {
    let types = index_types(&[("py", &["ALL"])]);
    let files = file_types(&["py"], &["md"]);
    let python = plan_file_entities("py", "x = 1\n", &types, &files).expect("a tree").expect("entities");
    assert_eq!(types_and_orders(&python), vec![("expression_statement", 1)]);
    let markdown = plan_file_entities("md", "# t", &types, &files).expect("no parsing").expect("chunks");
    assert_eq!(types_and_orders(&markdown), vec![("chunk", 1)]);
    assert_eq!(plan_file_entities("rs", "fn f() {}", &types, &files), Ok(None));
    assert_eq!(plan_file_entities("txt", "text", &types, &files), Ok(None));
}
