use codebase_index::store::{
    createRootInput, createSubEntityInput, createSuperEntityInput, deleteFileInput,
    deleteFolderInput, deleteSubEntityInput, deleteSuperEntityInput, getFileEntitiesInput,
    getRootByIdInput, getRootInput, store_url, updateFileInput, OnFailure, StoreRequest,
};
use codebase_index::ingestion::{create_file, create_folder, create_root};
use codebase_index::updater::{get_root, list_files, list_folders};
use codebase_index::deleter::list_entities;

fn entity_input() -> createSuperEntityInput {
    createSuperEntityInput {
        file_id: "f".to_string(),
        entity_type: "function_definition".to_string(),
        start_byte: 0,
        end_byte: 10,
        order: 1,
        text: "def f(): 1".to_string(),
    }
}

#[test]
fn the_address_of_an_endpoint_names_host_port_and_endpoint() {
    assert_eq!(store_url(6969, "createRoot"), "http://localhost:6969/createRoot");
    assert_eq!(store_url(0, "getRoot"), "http://localhost:0/getRoot");
    assert_eq!(store_url(7, "x"), "http://localhost:7/x");
    assert_eq!(store_url(80, ""), "http://localhost:80/");
    assert_eq!(store_url(1000, "a"), "http://localhost:1000/a");
    assert_eq!(store_url(65535, "deleteFile"), "http://localhost:65535/deleteFile");
    assert_eq!(store_url(10203, "e"), "http://localhost:10203/e");
}

#[test]
fn every_port_is_written_in_decimal() {
    for port in [0u16, 1, 9, 10, 11, 99, 100, 101, 999, 1000, 4096, 9999, 10000, 54321, 65535] {
        assert_eq!(store_url(port, "e"), format!("http://localhost:{}/{}", port, "e"));
    }
}

#[test]
fn a_request_goes_to_the_endpoint_of_its_name() {
    let cases: Vec<(StoreRequest, &str)> = vec![
        (create_root("sample"), "createRoot"),
        (StoreRequest::GetRoot(getRootInput {}), "getRoot"),
        (get_root("r"), "getRootById"),
        (create_folder("src", "r", true), "createSuperFolder"),
        (create_folder("src", "d", false), "createSubFolder"),
        (create_file("a.py", "py", "", "r", true), "createSuperFile"),
        (create_file("a.py", "py", "", "d", false), "createFile"),
        (StoreRequest::CreateSuperEntity(entity_input()), "createSuperEntity"),
        (list_folders("r", true), "getRootFolders"),
        (list_folders("d", false), "getSubFolders"),
        (list_files("r", true), "getRootFiles"),
        (list_files("d", false), "getFolderFiles"),
        (list_entities("f", true), "getFileEntities"),
        (list_entities("e", false), "getSubEntities"),
        (
            StoreRequest::DeleteFolder(deleteFolderInput { folder_id: "d".to_string() }),
            "deleteFolder",
        ),
        (StoreRequest::DeleteFile(deleteFileInput { file_id: "f".to_string() }), "deleteFile"),
        (
            StoreRequest::DeleteSuperEntity(deleteSuperEntityInput { entity_id: "e".to_string() }),
            "deleteSuperEntity",
        ),
        (
            StoreRequest::DeleteSubEntity(deleteSubEntityInput { entity_id: "e".to_string() }),
            "deleteSubEntity",
        ),
        (
            StoreRequest::UpdateFile(updateFileInput {
                file_id: "f".to_string(),
                text: String::new(),
                extracted_at: None,
            }),
            "updateFile",
        ),
    ];
    for (request, endpoint) in cases {
        assert_eq!(request.endpoint(), endpoint);
        assert_eq!(request.url(6969), format!("http://localhost:6969/{}", endpoint));
    }
    let sub = StoreRequest::CreateSubEntity(createSubEntityInput {
        entity_id: "e".to_string(),
        entity_type: "block".to_string(),
        start_byte: 1,
        end_byte: 2,
        order: 3,
        text: "x".to_string(),
    });
    assert_eq!(sub.endpoint(), "createSubEntity");
}

#[test]
fn requests_are_built_with_the_fields_of_their_endpoint() {
    assert_eq!(
        create_root("sample"),
        StoreRequest::CreateRoot(createRootInput { name: "sample".to_string() })
    );
    assert_eq!(
        get_root("r-1"),
        StoreRequest::GetRootById(getRootByIdInput { root_id: "r-1".to_string() })
    );
    assert_eq!(
        list_entities("f-1", true),
        StoreRequest::GetFileEntities(getFileEntitiesInput { file_id: "f-1".to_string() })
    );
}

#[test]
fn the_failure_of_a_creation_of_entities_or_of_a_deletion_is_logged() {
    let skipped = vec![
        StoreRequest::CreateSuperEntity(entity_input()),
        StoreRequest::DeleteFolder(deleteFolderInput { folder_id: "d".to_string() }),
        StoreRequest::DeleteFile(deleteFileInput { file_id: "f".to_string() }),
        StoreRequest::DeleteSuperEntity(deleteSuperEntityInput { entity_id: "e".to_string() }),
        StoreRequest::DeleteSubEntity(deleteSubEntityInput { entity_id: "e".to_string() }),
    ];
    for request in skipped {
        assert_eq!(request.on_failure(), OnFailure::LogAndSkip);
    }
}

#[test]
fn every_other_failure_is_handed_up() {
    let propagated = vec![
        create_root("sample"),
        create_folder("src", "r", true),
        create_folder("src", "d", false),
        create_file("a.py", "py", "", "r", true),
        create_file("a.py", "py", "", "d", false),
        get_root("r"),
        list_folders("r", true),
        list_files("d", false),
        list_entities("f", true),
        StoreRequest::GetRoot(getRootInput {}),
    ];
    for request in propagated {
        assert_eq!(request.on_failure(), OnFailure::Propagate);
    }
}
