//! The requests that the pipeline sends to the graph store: one type for
//! each endpoint, named after the query of the store that takes it, the
//! address of an endpoint, and what the failure of a request means for the
//! run.
//!
//! A request is a plain value: the driver serialises it as the JSON object
//! with the same field names and posts it to the endpoint of the same name.
use vstd::prelude::*;
use vstd::string::StringExecFns;

verus! {

/// Creates the root of an indexed tree.
#[derive(Debug, PartialEq, Eq)]
pub struct createRootInput {
    pub name: String,
}

/// Lists the roots that the store holds.
#[derive(Debug, PartialEq, Eq)]
pub struct getRootInput {}

/// Fetches one root, with its name.
#[derive(Debug, PartialEq, Eq)]
pub struct getRootByIdInput {
    pub root_id: String,
}

/// Creates a folder directly under the root.
#[derive(Debug, PartialEq, Eq)]
pub struct createSuperFolderInput {
    pub root_id: String,
    pub name: String,
}

/// Creates a folder inside another folder.
#[derive(Debug, PartialEq, Eq)]
pub struct createSubFolderInput {
    pub folder_id: String,
    pub name: String,
}

/// Creates a file directly under the root.
#[derive(Debug, PartialEq, Eq)]
pub struct createSuperFileInput {
    pub root_id: String,
    pub name: String,
    pub extension: String,
    pub text: String,
}

/// Creates a file inside a folder.
#[derive(Debug, PartialEq, Eq)]
pub struct createFileInput {
    pub folder_id: String,
    pub name: String,
    pub extension: String,
    pub text: String,
}

/// Creates an entity as a direct child of a file.
#[derive(Debug, PartialEq, Eq)]
pub struct createSuperEntityInput {
    pub file_id: String,
    pub entity_type: String,
    pub start_byte: u64,
    pub end_byte: u64,
    pub order: u64,
    pub text: String,
}

/// Creates an entity nested in another entity.
#[derive(Debug, PartialEq, Eq)]
pub struct createSubEntityInput {
    pub entity_id: String,
    pub entity_type: String,
    pub start_byte: u64,
    pub end_byte: u64,
    pub order: u64,
    pub text: String,
}

/// Replaces the text of a file, and its extraction time where one is given.
#[derive(Debug, PartialEq, Eq)]
pub struct updateFileInput {
    pub file_id: String,
    pub text: String,
    pub extracted_at: Option<String>,
}

/// Lists the folders directly under the root.
#[derive(Debug, PartialEq, Eq)]
pub struct getRootFoldersInput {
    pub root_id: String,
}

/// Lists the folders inside a folder.
#[derive(Debug, PartialEq, Eq)]
pub struct getSubFoldersInput {
    pub folder_id: String,
}

/// Lists the files directly under the root.
#[derive(Debug, PartialEq, Eq)]
pub struct getRootFilesInput {
    pub root_id: String,
}

/// Lists the files inside a folder.
#[derive(Debug, PartialEq, Eq)]
pub struct getFolderFilesInput {
    pub folder_id: String,
}

/// Lists the entities that are direct children of a file.
#[derive(Debug, PartialEq, Eq)]
pub struct getFileEntitiesInput {
    pub file_id: String,
}

/// Lists the entities nested directly in an entity.
#[derive(Debug, PartialEq, Eq)]
pub struct getSubEntitiesInput {
    pub entity_id: String,
}

/// Deletes a folder.
#[derive(Debug, PartialEq, Eq)]
pub struct deleteFolderInput {
    pub folder_id: String,
}

/// Deletes a file.
#[derive(Debug, PartialEq, Eq)]
pub struct deleteFileInput {
    pub file_id: String,
}

/// Deletes an entity that is a direct child of a file.
#[derive(Debug, PartialEq, Eq)]
pub struct deleteSuperEntityInput {
    pub entity_id: String,
}

/// Deletes an entity nested in another entity.
#[derive(Debug, PartialEq, Eq)]
pub struct deleteSubEntityInput {
    pub entity_id: String,
}

/// A request to the store.
#[derive(Debug, PartialEq, Eq)]
pub enum StoreRequest {
    CreateRoot(createRootInput),
    GetRoot(getRootInput),
    GetRootById(getRootByIdInput),
    CreateSuperFolder(createSuperFolderInput),
    CreateSubFolder(createSubFolderInput),
    CreateSuperFile(createSuperFileInput),
    CreateFile(createFileInput),
    CreateSuperEntity(createSuperEntityInput),
    CreateSubEntity(createSubEntityInput),
    UpdateFile(updateFileInput),
    GetRootFolders(getRootFoldersInput),
    GetSubFolders(getSubFoldersInput),
    GetRootFiles(getRootFilesInput),
    GetFolderFiles(getFolderFilesInput),
    GetFileEntities(getFileEntitiesInput),
    GetSubEntities(getSubEntitiesInput),
    DeleteFolder(deleteFolderInput),
    DeleteFile(deleteFileInput),
    DeleteSuperEntity(deleteSuperEntityInput),
    DeleteSubEntity(deleteSubEntityInput),
}

/// What a request says: its endpoint and the values of its fields.
pub enum RequestView {
    CreateRoot { name: Seq<char> },
    GetRoot,
    GetRootById { root_id: Seq<char> },
    CreateSuperFolder { root_id: Seq<char>, name: Seq<char> },
    CreateSubFolder { folder_id: Seq<char>, name: Seq<char> },
    CreateSuperFile { root_id: Seq<char>, name: Seq<char>, extension: Seq<char>, text: Seq<char> },
    CreateFile { folder_id: Seq<char>, name: Seq<char>, extension: Seq<char>, text: Seq<char> },
    CreateSuperEntity {
        file_id: Seq<char>,
        entity_type: Seq<char>,
        start_byte: nat,
        end_byte: nat,
        order: nat,
        text: Seq<char>,
    },
    CreateSubEntity {
        entity_id: Seq<char>,
        entity_type: Seq<char>,
        start_byte: nat,
        end_byte: nat,
        order: nat,
        text: Seq<char>,
    },
    UpdateFile { file_id: Seq<char>, text: Seq<char>, extracted_at: Option<Seq<char>> },
    GetRootFolders { root_id: Seq<char> },
    GetSubFolders { folder_id: Seq<char> },
    GetRootFiles { root_id: Seq<char> },
    GetFolderFiles { folder_id: Seq<char> },
    GetFileEntities { file_id: Seq<char> },
    GetSubEntities { entity_id: Seq<char> },
    DeleteFolder { folder_id: Seq<char> },
    DeleteFile { file_id: Seq<char> },
    DeleteSuperEntity { entity_id: Seq<char> },
    DeleteSubEntity { entity_id: Seq<char> },
}

/// The characters of an optional string.
pub open spec fn optional_text(text: Option<String>) -> Option<Seq<char>> {
    match text {
        Some(t) => Some(t@),
        None => None,
    }
}

impl View for StoreRequest {
    type V = RequestView;

    open spec fn view(&self) -> RequestView {
        match self {
            StoreRequest::CreateRoot(r) => RequestView::CreateRoot {
                name: r.name@,
            },
            StoreRequest::GetRoot(_) => RequestView::GetRoot,
            StoreRequest::GetRootById(r) => RequestView::GetRootById {
                root_id: r.root_id@,
            },
            StoreRequest::CreateSuperFolder(r) => RequestView::CreateSuperFolder {
                root_id: r.root_id@,
                name: r.name@,
            },
            StoreRequest::CreateSubFolder(r) => RequestView::CreateSubFolder {
                folder_id: r.folder_id@,
                name: r.name@,
            },
            StoreRequest::CreateSuperFile(r) => RequestView::CreateSuperFile {
                root_id: r.root_id@,
                name: r.name@,
                extension: r.extension@,
                text: r.text@,
            },
            StoreRequest::CreateFile(r) => RequestView::CreateFile {
                folder_id: r.folder_id@,
                name: r.name@,
                extension: r.extension@,
                text: r.text@,
            },
            StoreRequest::CreateSuperEntity(r) => RequestView::CreateSuperEntity {
                file_id: r.file_id@,
                entity_type: r.entity_type@,
                start_byte: r.start_byte as nat,
                end_byte: r.end_byte as nat,
                order: r.order as nat,
                text: r.text@,
            },
            StoreRequest::CreateSubEntity(r) => RequestView::CreateSubEntity {
                entity_id: r.entity_id@,
                entity_type: r.entity_type@,
                start_byte: r.start_byte as nat,
                end_byte: r.end_byte as nat,
                order: r.order as nat,
                text: r.text@,
            },
            StoreRequest::UpdateFile(r) => RequestView::UpdateFile {
                file_id: r.file_id@,
                text: r.text@,
                extracted_at: optional_text(r.extracted_at),
            },
            StoreRequest::GetRootFolders(r) => RequestView::GetRootFolders {
                root_id: r.root_id@,
            },
            StoreRequest::GetSubFolders(r) => RequestView::GetSubFolders {
                folder_id: r.folder_id@,
            },
            StoreRequest::GetRootFiles(r) => RequestView::GetRootFiles {
                root_id: r.root_id@,
            },
            StoreRequest::GetFolderFiles(r) => RequestView::GetFolderFiles {
                folder_id: r.folder_id@,
            },
            StoreRequest::GetFileEntities(r) => RequestView::GetFileEntities {
                file_id: r.file_id@,
            },
            StoreRequest::GetSubEntities(r) => RequestView::GetSubEntities {
                entity_id: r.entity_id@,
            },
            StoreRequest::DeleteFolder(r) => RequestView::DeleteFolder {
                folder_id: r.folder_id@,
            },
            StoreRequest::DeleteFile(r) => RequestView::DeleteFile {
                file_id: r.file_id@,
            },
            StoreRequest::DeleteSuperEntity(r) => RequestView::DeleteSuperEntity {
                entity_id: r.entity_id@,
            },
            StoreRequest::DeleteSubEntity(r) => RequestView::DeleteSubEntity {
                entity_id: r.entity_id@,
            },
        }
    }
}

impl RequestView {
    /// The name of the endpoint that takes this request.
    pub open spec fn endpoint(self) -> Seq<char> {
        match self {
            RequestView::CreateRoot { .. } => "createRoot"@,
            RequestView::GetRoot => "getRoot"@,
            RequestView::GetRootById { .. } => "getRootById"@,
            RequestView::CreateSuperFolder { .. } => "createSuperFolder"@,
            RequestView::CreateSubFolder { .. } => "createSubFolder"@,
            RequestView::CreateSuperFile { .. } => "createSuperFile"@,
            RequestView::CreateFile { .. } => "createFile"@,
            RequestView::CreateSuperEntity { .. } => "createSuperEntity"@,
            RequestView::CreateSubEntity { .. } => "createSubEntity"@,
            RequestView::UpdateFile { .. } => "updateFile"@,
            RequestView::GetRootFolders { .. } => "getRootFolders"@,
            RequestView::GetSubFolders { .. } => "getSubFolders"@,
            RequestView::GetRootFiles { .. } => "getRootFiles"@,
            RequestView::GetFolderFiles { .. } => "getFolderFiles"@,
            RequestView::GetFileEntities { .. } => "getFileEntities"@,
            RequestView::GetSubEntities { .. } => "getSubEntities"@,
            RequestView::DeleteFolder { .. } => "deleteFolder"@,
            RequestView::DeleteFile { .. } => "deleteFile"@,
            RequestView::DeleteSuperEntity { .. } => "deleteSuperEntity"@,
            RequestView::DeleteSubEntity { .. } => "deleteSubEntity"@,
        }
    }
}

impl StoreRequest {
    /// The name of the endpoint that takes this request: the last segment of
    /// the URL it is posted to.
    pub fn endpoint(&self) -> (name: &'static str)
        ensures
            name@ == self@.endpoint(),
    {
        match self {
            StoreRequest::CreateRoot(_) => "createRoot",
            StoreRequest::GetRoot(_) => "getRoot",
            StoreRequest::GetRootById(_) => "getRootById",
            StoreRequest::CreateSuperFolder(_) => "createSuperFolder",
            StoreRequest::CreateSubFolder(_) => "createSubFolder",
            StoreRequest::CreateSuperFile(_) => "createSuperFile",
            StoreRequest::CreateFile(_) => "createFile",
            StoreRequest::CreateSuperEntity(_) => "createSuperEntity",
            StoreRequest::CreateSubEntity(_) => "createSubEntity",
            StoreRequest::UpdateFile(_) => "updateFile",
            StoreRequest::GetRootFolders(_) => "getRootFolders",
            StoreRequest::GetSubFolders(_) => "getSubFolders",
            StoreRequest::GetRootFiles(_) => "getRootFiles",
            StoreRequest::GetFolderFiles(_) => "getFolderFiles",
            StoreRequest::GetFileEntities(_) => "getFileEntities",
            StoreRequest::GetSubEntities(_) => "getSubEntities",
            StoreRequest::DeleteFolder(_) => "deleteFolder",
            StoreRequest::DeleteFile(_) => "deleteFile",
            StoreRequest::DeleteSuperEntity(_) => "deleteSuperEntity",
            StoreRequest::DeleteSubEntity(_) => "deleteSubEntity",
        }
    }
}

/// The decimal digit of a number below ten.
pub open spec fn digit(d: nat) -> char {
    if d == 0 {
        '0'
    } else if d == 1 {
        '1'
    } else if d == 2 {
        '2'
    } else if d == 3 {
        '3'
    } else if d == 4 {
        '4'
    } else if d == 5 {
        '5'
    } else if d == 6 {
        '6'
    } else if d == 7 {
        '7'
    } else if d == 8 {
        '8'
    } else {
        '9'
    }
}

/// A number written in decimal, without leading zeros.
pub open spec fn decimal(n: nat) -> Seq<char>
    decreases n,
{
    if n < 10 {
        seq![digit(n)]
    } else {
        decimal(n / 10).push(digit(n % 10))
    }
}

/// The address of an endpoint of the store that listens on `port` of this
/// machine.
pub open spec fn url_of(port: u16, endpoint: Seq<char>) -> Seq<char> {
    "http://localhost:"@ + decimal(port as nat) + "/"@ + endpoint
}

/// The text of one decimal digit.
fn digit_text(d: u16) -> (text: &'static str)
    requires
        d < 10,
    ensures
        text@ == seq![digit(d as nat)],
{
    proof {
        reveal_strlit("0");
        reveal_strlit("1");
        reveal_strlit("2");
        reveal_strlit("3");
        reveal_strlit("4");
        reveal_strlit("5");
        reveal_strlit("6");
        reveal_strlit("7");
        reveal_strlit("8");
        reveal_strlit("9");
    }
    let text = if d == 0 {
        "0"
    } else if d == 1 {
        "1"
    } else if d == 2 {
        "2"
    } else if d == 3 {
        "3"
    } else if d == 4 {
        "4"
    } else if d == 5 {
        "5"
    } else if d == 6 {
        "6"
    } else if d == 7 {
        "7"
    } else if d == 8 {
        "8"
    } else {
        "9"
    };
    assert(text@ =~= seq![digit(d as nat)]);
    text
}

/// Writes a port number in decimal.
fn decimal_text(n: u16) -> (text: String)
    ensures
        text@ == decimal(n as nat),
    decreases n,
{
    if n < 10 {
        digit_text(n).to_owned()
    } else {
        let mut text = decimal_text(n / 10);
        text.append(digit_text(n % 10));
        assert(text@ =~= decimal(n as nat));
        text
    }
}

/// Composes the address of an endpoint of the store:
/// `http://localhost:{port}/{endpoint}`.
pub fn store_url(port: u16, endpoint: &str) -> (url: String)
    ensures
        url@ == url_of(port, endpoint@),
{
    let mut url = "http://localhost:".to_owned();
    let number = decimal_text(port);
    url.append(number.as_str());
    url.append("/");
    url.append(endpoint);
    url
}

/// What the failure of a request means for the run.
#[derive(Clone, Copy, Debug, PartialEq, Eq, Structural)]
pub enum OnFailure {
    /// The failure is handed up: the branch of the run that sent the
    /// request ends with it.
    Propagate,
    /// The failure is logged, and the run goes on without what the request
    /// was to bring about.
    LogAndSkip,
}

impl RequestView {
    /// The failure of this request is handed up. That is so for the
    /// creation of a root, a folder or a file, for the update of a file and
    /// for every request that reads from the store; the creation of an
    /// entity and every deletion are given up with a line in the log.
    pub open spec fn propagates(self) -> bool {
        match self {
            RequestView::CreateSuperEntity { .. } => false,
            RequestView::CreateSubEntity { .. } => false,
            RequestView::DeleteFolder { .. } => false,
            RequestView::DeleteFile { .. } => false,
            RequestView::DeleteSuperEntity { .. } => false,
            RequestView::DeleteSubEntity { .. } => false,
            _ => true,
        }
    }
}

impl StoreRequest {
    /// The address that this request is posted to, for a store that listens
    /// on `port`.
    pub fn url(&self, port: u16) -> (url: String)
        ensures
            url@ == url_of(port, self@.endpoint()),
    {
        store_url(port, self.endpoint())
    }

    /// Decides what the failure of this request means for the run.
    pub fn on_failure(&self) -> (policy: OnFailure)
        ensures
            policy == if self@.propagates() {
                OnFailure::Propagate
            } else {
                OnFailure::LogAndSkip
            },
    {
        match self {
            StoreRequest::CreateSuperEntity(_) => OnFailure::LogAndSkip,
            StoreRequest::CreateSubEntity(_) => OnFailure::LogAndSkip,
            StoreRequest::DeleteFolder(_) => OnFailure::LogAndSkip,
            StoreRequest::DeleteFile(_) => OnFailure::LogAndSkip,
            StoreRequest::DeleteSuperEntity(_) => OnFailure::LogAndSkip,
            StoreRequest::DeleteSubEntity(_) => OnFailure::LogAndSkip,
            _ => OnFailure::Propagate,
        }
    }
}

} // verus!
