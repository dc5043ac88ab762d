//! The ingestion engine: what is created in the store for a directory and
//! for a file.
//!
//! Every function here is a decision. It takes what the driver has read (the
//! entries of a directory, the text of a file, a reply of the store) and
//! returns what the driver has to send next.
use vstd::prelude::*;
use crate::chunker::{chunk_entity, chunks_of};
use crate::config::{FileTypesConfig, FileTypesView, IndexTypesConfig, IndexTypesView};
use crate::entities::{
    chunk_plans, ingest_entities, plan_views, planned_siblings, process_unsupported_file,
    PlanView, PlannedEntity,
};
use crate::error::IndexError;
use crate::json::{parsed_document, Json, JsonView};
use crate::language::{get_language, grammar_for};
use crate::replies::{file_id, folder_id, folder_key, root_id, text_or};
use crate::store::{
    createFileInput, createRootInput, createSubFolderInput, createSuperFileInput,
    createSuperFolderInput, RequestView, StoreRequest,
};
use crate::syntax::{
    all_fit, build_owned_nodes, owned_all, parse_source, parsed_syntax, syntax_views, SyntaxNode,
    SyntaxView,
};
use crate::text::same_text;

verus! {

/// The request that creates a folder named `name` below `parent_id`: below
/// the root for a super folder, below another folder otherwise.
pub open spec fn folder_request(name: Seq<char>, parent_id: Seq<char>, is_super: bool) -> RequestView {
    if is_super {
        RequestView::CreateSuperFolder { root_id: parent_id, name }
    } else {
        RequestView::CreateSubFolder { folder_id: parent_id, name }
    }
}

/// The request that creates a file below `parent_id`: below the root for a
/// super file, below a folder otherwise.
pub open spec fn file_request(
    name: Seq<char>,
    extension: Seq<char>,
    text: Seq<char>,
    parent_id: Seq<char>,
    is_super: bool,
) -> RequestView {
    if is_super {
        RequestView::CreateSuperFile { root_id: parent_id, name, extension, text }
    } else {
        RequestView::CreateFile { folder_id: parent_id, name, extension, text }
    }
}

/// Makes the request that creates a folder.
pub fn create_folder(name: &str, parent_id: &str, is_super: bool) -> (request: StoreRequest)
    ensures
        request@ == folder_request(name@, parent_id@, is_super),
{
    if is_super {
        StoreRequest::CreateSuperFolder(
            createSuperFolderInput { root_id: parent_id.to_owned(), name: name.to_owned() },
        )
    } else {
        StoreRequest::CreateSubFolder(
            createSubFolderInput { folder_id: parent_id.to_owned(), name: name.to_owned() },
        )
    }
}

/// Makes the request that creates a file.
pub fn create_file(name: &str, extension: &str, text: &str, parent_id: &str, is_super: bool) -> (request:
    StoreRequest)
    ensures
        request@ == file_request(name@, extension@, text@, parent_id@, is_super),
{
    if is_super {
        StoreRequest::CreateSuperFile(
            createSuperFileInput {
                root_id: parent_id.to_owned(),
                name: name.to_owned(),
                extension: extension.to_owned(),
                text: text.to_owned(),
            },
        )
    } else {
        StoreRequest::CreateFile(
            createFileInput {
                folder_id: parent_id.to_owned(),
                name: name.to_owned(),
                extension: extension.to_owned(),
                text: text.to_owned(),
            },
        )
    }
}

/// Makes the request that creates the root of an indexed tree, named after
/// the directory that is indexed.
pub fn create_root(name: &str) -> (request: StoreRequest)
    ensures
        request@ == (RequestView::CreateRoot { name: name@ }),
{
    StoreRequest::CreateRoot(createRootInput { name: name.to_owned() })
}

/// The extension that a file without one is filed under.
pub open spec fn extension_or_default(extension: Option<Seq<char>>) -> Seq<char> {
    match extension {
        Some(e) => e,
        None => "txt"@,
    }
}

/// The extension under which a file is created and its file types are
/// looked up: its own, or `txt` where its name has none.
pub fn file_extension(extension: Option<&str>) -> (effective: String)
    ensures
        effective@ == extension_or_default(
            match extension {
                Some(e) => Some(e@),
                None => None,
            },
        ),
{
    match extension {
        Some(e) => e.to_owned(),
        None => "txt".to_owned(),
    }
}

/// What is to be done for one file: the request that creates it and the
/// entities that are to be created below it.
#[derive(Debug, PartialEq, Eq)]
pub struct FilePlan {
    pub request: StoreRequest,
    /// `None` where the file is kept without entities: then nothing of the
    /// reply to `request` is needed.
    pub entities: Option<Vec<PlannedEntity>>,
}

/// What a `FilePlan` holds.
pub struct FilePlanView {
    pub request: RequestView,
    pub entities: Option<Seq<PlanView>>,
}

/// What planned entities hold, where there are any.
pub open spec fn optional_plans(entities: Option<Vec<PlannedEntity>>) -> Option<Seq<PlanView>> {
    match entities {
        Some(e) => Some(plan_views(e@)),
        None => None,
    }
}

impl View for FilePlan {
    type V = FilePlanView;

    open spec fn view(&self) -> FilePlanView {
        FilePlanView { request: self.request@, entities: optional_plans(self.entities) }
    }
}

/// A node of the store below which folders and files are created: the root
/// of the tree (`is_super`) or a folder.
#[derive(Clone, Debug, PartialEq, Eq)]
pub struct Level {
    pub parent_id: String,
    pub is_super: bool,
}

/// A file that the store has created, with the entities that are now to be
/// created below it, each as a super entity under `file_id`.
#[derive(Debug, PartialEq, Eq)]
pub struct CreatedFile {
    pub file_id: String,
    pub entities: Vec<PlannedEntity>,
}

impl FilePlan {
    /// Takes the reply to the request that creates the file. A file that is
    /// kept without entities needs nothing of the reply, and nothing
    /// follows. For any other file, also one whose plan holds no entity, the
    /// reply has to name the file: the ingestion of the file fails where it
    /// does not.
    pub fn created(self, reply: &Json) -> (next: Result<Option<CreatedFile>, IndexError>)
        ensures
            match next {
                Ok(None) => self@.entities is None,
                Ok(Some(c)) => {
                    &&& self@.entities == Some(plan_views(c.entities@))
                    &&& reply@.text_at("file"@, "id"@) == Some(c.file_id@)
                },
                Err(e) => {
                    &&& self@.entities is Some
                    &&& reply@.text_at("file"@, "id"@) is None
                    &&& e == IndexError::FileIdNotFound
                },
            },
    {
        let entities = match self.entities {
            Some(entities) => entities,
            None => { return Ok(None); },
        };
        match file_id(reply) {
            Ok(id) => Ok(Some(CreatedFile { file_id: id, entities })),
            Err(e) => Err(e),
        }
    }
}

/// The entities that are to be created below a file, `None` where the
/// file is kept without any, or the failure of its parsing.
///
/// Where a grammar parses files of this extension, the source is parsed; a
/// source without a tree fails. Where the extension is then supported, the
/// children of the root of the tree are planned as entities; a tree that
/// does not fit the source fails. Where no grammar parses it and the
/// extension is listed as unsupported, each chunk of the text is planned as
/// an entity.
pub open spec fn file_entities(
    extension: Seq<char>,
    source: Seq<char>,
    index_types: IndexTypesView,
    file_types: FileTypesView,
) -> Result<Option<Seq<PlanView>>, IndexError> {
    match grammar_for(extension) {
        Some(grammar) => parsed_entities(
            parsed_syntax(source, grammar),
            extension,
            source,
            index_types,
            file_types,
        ),
        None => if file_types.chunks(extension) {
            Ok(Some(chunk_plans(chunks_of(source))))
        } else {
            Ok(None)
        },
    }
}

/// The entities that are to be created below a file that a grammar parses,
/// from what its parsing gave: a source without a tree fails; where the
/// extension is supported, the children of the root of the tree are planned
/// as entities, and a tree that does not fit the source fails.
pub open spec fn parsed_entities(
    parsed: Option<Seq<SyntaxView>>,
    extension: Seq<char>,
    source: Seq<char>,
    index_types: IndexTypesView,
    file_types: FileTypesView,
) -> Result<Option<Seq<PlanView>>, IndexError> {
    match parsed {
        None => Err(IndexError::ParseFailed),
        Some(nodes) => if !file_types.supports(extension) {
            Ok(None)
        } else if all_fit(nodes, vstd::utf8::encode_utf8(source)) {
            Ok(Some(planned_siblings(owned_all(nodes, source), true, extension, index_types)))
        } else {
            Err(IndexError::ParseFailed)
        },
    }
}

/// What the nodes of a parse hold, where there was a tree.
pub open spec fn parsed_views(parsed: Option<Vec<SyntaxNode>>) -> Option<Seq<SyntaxView>> {
    match parsed {
        Some(nodes) => Some(syntax_views(nodes@)),
        None => None,
    }
}

/// What planned entities hold, or why there are none.
pub open spec fn entities_result(found: Result<Option<Vec<PlannedEntity>>, IndexError>) -> Result<
    Option<Seq<PlanView>>,
    IndexError,
> {
    match found {
        Ok(Some(e)) => Ok(Some(plan_views(e@))),
        Ok(None) => Ok(None),
        Err(e) => Err(e),
    }
}

/// Plans the entities of a file that a grammar parses from what its parsing
/// gave: `parsed` holds the children of the root of its syntax tree, or
/// `None` where the parser gave no tree.
pub fn plan_parsed_entities(
    parsed: Option<Vec<SyntaxNode>>,
    extension: &str,
    source: &str,
    index_types: &IndexTypesConfig,
    file_types: &FileTypesConfig,
) -> (found: Result<Option<Vec<PlannedEntity>>, IndexError>)
    ensures
        entities_result(found) == parsed_entities(
            parsed_views(parsed),
            extension@,
            source@,
            index_types@,
            file_types@,
        ),
{
    let nodes = match parsed {
        Some(nodes) => nodes,
        None => { return Err(IndexError::ParseFailed); },
    };
    if !file_types.is_supported(extension) {
        Ok(None)
    } else {
        match build_owned_nodes(&nodes, source) {
            Some(owned_nodes) => Ok(Some(ingest_entities(&owned_nodes, extension, index_types))),
            None => Err(IndexError::ParseFailed),
        }
    }
}

/// Plans the entities of a file from its text: the syntax nodes of a file
/// that a grammar parses, the chunks of one that none parses.
pub fn plan_file_entities(
    extension: &str,
    source: &str,
    index_types: &IndexTypesConfig,
    file_types: &FileTypesConfig,
) -> (found: Result<Option<Vec<PlannedEntity>>, IndexError>)
    ensures
        entities_result(found) == file_entities(extension@, source@, index_types@, file_types@),
{
    match get_language(extension) {
        Some(grammar) => {
            let parsed = parse_source(source, grammar);
            plan_parsed_entities(parsed, extension, source, index_types, file_types)
        },
        None => {
            if file_types.is_unsupported(extension) {
                let chunks = chunk_entity(source);
                Ok(Some(process_unsupported_file(&chunks)))
            } else {
                Ok(None)
            }
        },
    }
}

/// The entities of a plan, where none are wanted as where some are.
pub open spec fn entities_or_none(found: Option<Seq<PlanView>>) -> Seq<PlanView> {
    match found {
        Some(entities) => entities,
        None => Seq::empty(),
    }
}

/// What is to be done for a file whose text was read: the file is created
/// below `parent_id` with its whole text, and its entities follow. Where
/// the parsing fails, nothing is created.
pub open spec fn file_plan(
    name: Seq<char>,
    extension: Seq<char>,
    source: Seq<char>,
    parent_id: Seq<char>,
    is_super: bool,
    index_types: IndexTypesView,
    file_types: FileTypesView,
) -> Result<FilePlanView, IndexError> {
    match file_entities(extension, source, index_types, file_types) {
        Err(e) => Err(e),
        Ok(found) => Ok(
            FilePlanView {
                request: file_request(name, extension, source, parent_id, is_super),
                entities: found,
            },
        ),
    }
}

/// What a planned file holds, or why there is no plan.
pub open spec fn file_plan_result(plan: Result<Option<FilePlan>, IndexError>) -> Result<
    Option<FilePlanView>,
    IndexError,
> {
    match plan {
        Ok(Some(p)) => Ok(Some(p@)),
        Ok(None) => Ok(None),
        Err(e) => Err(e),
    }
}

/// Plans the ingestion of one file below `parent_id`. `source` is the text
/// of the file, or `None` where it could not be read as text: such a file is
/// skipped, which is no failure, and the plan is `None`.
pub fn process_file(
    name: &str,
    extension: &str,
    source: Option<&str>,
    parent_id: &str,
    is_super: bool,
    index_types: &IndexTypesConfig,
    file_types: &FileTypesConfig,
) -> (plan: Result<Option<FilePlan>, IndexError>)
    ensures
        file_plan_result(plan) == match source {
            None => Ok::<Option<FilePlanView>, IndexError>(None),
            Some(text) => match file_plan(
                name@,
                extension@,
                text@,
                parent_id@,
                is_super,
                index_types@,
                file_types@,
            ) {
                Ok(p) => Ok(Some(p)),
                Err(e) => Err(e),
            },
        },
{
    let text = match source {
        Some(text) => text,
        None => { return Ok(None); },
    };
    let entities = match plan_file_entities(extension, text, index_types, file_types) {
        Ok(entities) => entities,
        Err(e) => { return Err(e); },
    };
    let request = create_file(name, extension, text, parent_id, is_super);
    Ok(Some(FilePlan { request, entities }))
}

/// What a directory entry is.
#[derive(Clone, Copy, Debug, PartialEq, Eq, Structural)]
pub enum EntryKind {
    Directory,
    File,
    /// Neither a directory nor a regular file.
    Other,
}

/// A point in time, counted from the Unix epoch.
#[derive(Clone, Copy, Debug, PartialEq, Eq, Structural)]
pub struct Timestamp {
    pub seconds: i64,
    pub nanos: u32,
}

/// An entry of a directory on disk, as the walker found it.
#[derive(Clone, Debug, PartialEq, Eq)]
pub struct DirEntry {
    pub name: String,
    pub kind: EntryKind,
    /// When the entry was last modified, where the file system says so.
    pub modified: Option<Timestamp>,
}

/// What a `DirEntry` holds.
pub struct EntryView {
    pub name: Seq<char>,
    pub kind: EntryKind,
    pub modified: Option<Timestamp>,
}

impl View for DirEntry {
    type V = EntryView;

    open spec fn view(&self) -> EntryView {
        EntryView { name: self.name@, kind: self.kind, modified: self.modified }
    }
}

/// What a vector of entries holds, entry by entry.
pub open spec fn entry_views(entries: Seq<DirEntry>) -> Seq<EntryView> {
    Seq::new(entries.len(), |i: int| entries[i]@)
}

/// What is to be done for one entry of a directory.
#[derive(Debug, PartialEq, Eq)]
pub enum EntryAction {
    /// Nothing: the entry is ignored, or it is up to date.
    Skip,
    /// Create the folder with this request, then populate it with the
    /// entries of the directory.
    CreateFolder(StoreRequest),
    /// Read the file and ingest it with `process_file`.
    ProcessFile,
    /// The folder is indexed under this identifier: reconcile what lies
    /// inside it.
    UpdateFolder(String),
    /// The file is indexed under this identifier and has changed since:
    /// ingest it again with `update_file`.
    UpdateFile(String),
}

/// What an `EntryAction` holds.
pub enum ActionView {
    Skip,
    CreateFolder(RequestView),
    ProcessFile,
    UpdateFolder(Seq<char>),
    UpdateFile(Seq<char>),
}

impl View for EntryAction {
    type V = ActionView;

    open spec fn view(&self) -> ActionView {
        match self {
            EntryAction::Skip => ActionView::Skip,
            EntryAction::CreateFolder(r) => ActionView::CreateFolder(r@),
            EntryAction::ProcessFile => ActionView::ProcessFile,
            EntryAction::UpdateFolder(id) => ActionView::UpdateFolder(id@),
            EntryAction::UpdateFile(id) => ActionView::UpdateFile(id@),
        }
    }
}

/// The name of the directory that the version control keeps for itself.
pub open spec fn ignored(name: Seq<char>) -> bool {
    name == ".git"@
}

/// The walk leaves this entry out: it is a directory of an ignored name. A
/// file of that name is a file like any other.
pub open spec fn left_out(entry: EntryView) -> bool {
    entry.kind == EntryKind::Directory && ignored(entry.name)
}

/// Decides whether a name is that of an ignored directory.
pub fn is_ignored(name: &str) -> (found: bool)
    ensures
        found == ignored(name@),
{
    same_text(name, ".git")
}

/// Decides whether the walk leaves an entry out.
pub fn is_left_out(entry: &DirEntry) -> (out: bool)
    ensures
        out == left_out(entry@),
{
    match entry.kind {
        EntryKind::Directory => is_ignored(entry.name.as_str()),
        _ => false,
    }
}

/// What the ingestion does for one entry of a directory whose node has the
/// identifier `parent_id`: a directory becomes a folder unless the walk
/// leaves it out, a file is processed, and anything else is left alone.
pub open spec fn populate_action(entry: EntryView, parent_id: Seq<char>, is_super: bool) -> ActionView {
    match entry.kind {
        EntryKind::Directory => if ignored(entry.name) {
            ActionView::Skip
        } else {
            ActionView::CreateFolder(folder_request(entry.name, parent_id, is_super))
        },
        EntryKind::File => ActionView::ProcessFile,
        EntryKind::Other => ActionView::Skip,
    }
}

/// Plans the ingestion of the entries of one directory, whose node in the
/// store has the identifier `parent_id`. The plan has one action for each
/// entry, at the same position.
pub fn populate(entries: &Vec<DirEntry>, parent_id: &str, is_super: bool) -> (actions: Vec<EntryAction>)
    ensures
        actions@.len() == entries@.len(),
        forall|i: int|
            0 <= i < entries@.len() ==> (#[trigger] actions@[i])@ == populate_action(
                entries@[i]@,
                parent_id@,
                is_super,
            ),
{
    let mut actions: Vec<EntryAction> = Vec::new();
    let mut i: usize = 0;
    while i < entries.len()
        invariant
            i <= entries.len(),
            actions@.len() == i,
            forall|j: int|
                0 <= j < i ==> (#[trigger] actions@[j])@ == populate_action(
                    entries@[j]@,
                    parent_id@,
                    is_super,
                ),
        decreases entries.len() - i,
    {
        let entry = &entries[i];
        let action = match entry.kind {
            EntryKind::Directory => if is_ignored(entry.name.as_str()) {
                EntryAction::Skip
            } else {
                EntryAction::CreateFolder(create_folder(entry.name.as_str(), parent_id, is_super))
            },
            EntryKind::File => EntryAction::ProcessFile,
            EntryKind::Other => EntryAction::Skip,
        };
        actions.push(action);
        i += 1;
    }
    actions
}

/// A folder that the store has created: the level inside it, and what is
/// to be done for the entries of its directory.
#[derive(Debug, PartialEq, Eq)]
pub struct CreatedFolder {
    pub inside: Level,
    pub actions: Vec<EntryAction>,
}

/// Takes the reply to the creation of a folder and plans what lies inside
/// it. `is_super` says whether the folder was created directly under the
/// root; `entries` are the entries of its directory. What lies inside a
/// folder is never directly under the root. A reply that does not name the
/// folder fails the ingestion of the folder.
pub fn populate_created(reply: &Json, is_super: bool, entries: &Vec<DirEntry>) -> (next: Result<
    CreatedFolder,
    IndexError,
>)
    ensures
        match next {
            Ok(c) => {
                &&& reply@.text_at(folder_key(is_super), "id"@) == Some(c.inside.parent_id@)
                &&& !c.inside.is_super
                &&& c.actions@.len() == entries@.len()
                &&& forall|i: int|
                    0 <= i < entries@.len() ==> (#[trigger] c.actions@[i])@ == populate_action(
                        entries@[i]@,
                        c.inside.parent_id@,
                        false,
                    )
            },
            Err(e) => e == IndexError::FolderIdNotFound && reply@.text_at(
                folder_key(is_super),
                "id"@,
            ) is None,
        },
{
    let id = match folder_id(reply, is_super) {
        Ok(id) => id,
        Err(e) => { return Err(e); },
    };
    let actions = populate(entries, id.as_str(), false);
    Ok(CreatedFolder { inside: Level { parent_id: id, is_super: false }, actions })
}

/// The two configurations of a run.
#[derive(Debug, PartialEq, Eq)]
pub struct Configurations {
    pub index_types: IndexTypesConfig,
    pub file_types: FileTypesConfig,
}

/// Why the configurations of a run cannot be read, if they cannot: a text
/// is missing or malformed. The index types are looked at first.
pub open spec fn configurations_failure(
    index_types: Option<Seq<char>>,
    file_types: Option<Seq<char>>,
) -> Option<IndexError> {
    match index_types {
        None => Some(IndexError::IndexTypesMissing),
        Some(index) => if !(parsed_document(index) matches Some(d) && d is Object) {
            Some(IndexError::IndexTypesMalformed)
        } else {
            match file_types {
                None => Some(IndexError::FileTypesMissing),
                Some(files) => if !(parsed_document(files) matches Some(d) && d.items_of(
                    "supported"@,
                ) is Some && d.items_of("unsupported"@) is Some) {
                    Some(IndexError::FileTypesMalformed)
                } else {
                    None
                },
            }
        },
    }
}

/// The characters of an optional text.
pub open spec fn optional_chars(text: Option<&str>) -> Option<Seq<char>> {
    match text {
        Some(t) => Some(t@),
        None => None,
    }
}

/// Reads the two configurations of a run from the texts of their files; a
/// text is `None` where its file could not be read. Every failure is fatal,
/// and it is found before anything is asked of the store.
pub fn read_configurations(index_types: Option<&str>, file_types: Option<&str>) -> (read: Result<
    Configurations,
    IndexError,
>)
    ensures
        match read {
            Ok(c) => {
                &&& configurations_failure(
                    optional_chars(index_types),
                    optional_chars(file_types),
                ) is None
                &&& c.index_types@.reads(parsed_document(index_types.unwrap()@).unwrap())
                &&& c.file_types@.reads(parsed_document(file_types.unwrap()@).unwrap())
            },
            Err(e) => configurations_failure(
                optional_chars(index_types),
                optional_chars(file_types),
            ) == Some(e),
        },
{
    let index_types = match index_types {
        Some(text) => match IndexTypesConfig::parse(text) {
            Ok(c) => c,
            Err(e) => { return Err(e); },
        },
        None => { return Err(IndexError::IndexTypesMissing); },
    };
    let file_types = match file_types {
        Some(text) => match FileTypesConfig::parse(text) {
            Ok(c) => c,
            Err(e) => { return Err(e); },
        },
        None => { return Err(IndexError::FileTypesMissing); },
    };
    Ok(Configurations { index_types, file_types })
}

/// What an ingestion begins with: the configurations of the run, and the
/// request that creates the root.
#[derive(Debug, PartialEq, Eq)]
pub struct IngestionStart {
    pub configurations: Configurations,
    pub request: StoreRequest,
}

/// An ingestion under way: the root below which the tree is created, and
/// the configurations of the run.
#[derive(Debug, PartialEq, Eq)]
pub struct Ingestion {
    pub root: Level,
    pub configurations: Configurations,
}

/// Begins the ingestion of the directory `root_name` from the texts of the
/// two configuration files. A configuration that is missing or malformed
/// ends the ingestion before it begins: no request is made, not even the
/// one that creates the root.
pub fn ingestion(root_name: &str, index_types: Option<&str>, file_types: Option<&str>) -> (start:
    Result<IngestionStart, IndexError>)
    ensures
        match start {
            Ok(s) => {
                &&& configurations_failure(
                    optional_chars(index_types),
                    optional_chars(file_types),
                ) is None
                &&& s.request@ == (RequestView::CreateRoot { name: root_name@ })
                &&& s.configurations.index_types@.reads(
                    parsed_document(index_types.unwrap()@).unwrap(),
                )
                &&& s.configurations.file_types@.reads(
                    parsed_document(file_types.unwrap()@).unwrap(),
                )
            },
            Err(e) => configurations_failure(
                optional_chars(index_types),
                optional_chars(file_types),
            ) == Some(e),
        },
{
    match read_configurations(index_types, file_types) {
        Ok(configurations) => Ok(IngestionStart { configurations, request: create_root(root_name) }),
        Err(e) => Err(e),
    }
}

impl IngestionStart {
    /// Takes the reply to the creation of the root. The tree is created
    /// below the root that the reply names; a reply that names none fails
    /// the ingestion.
    pub fn rooted(self, reply: &Json) -> (next: Result<Ingestion, IndexError>)
        ensures
            match next {
                Ok(i) => {
                    &&& reply@.text_at("root"@, "id"@) == Some(i.root.parent_id@)
                    &&& i.root.is_super
                    &&& i.configurations == self.configurations
                },
                Err(e) => e == IndexError::RootIdNotFound && reply@.text_at("root"@, "id"@)
                    is None,
            },
    {
        match root_id(reply) {
            Ok(id) => Ok(
                Ingestion {
                    root: Level { parent_id: id, is_super: true },
                    configurations: self.configurations,
                },
            ),
            Err(e) => Err(e),
        }
    }
}

} // verus!
