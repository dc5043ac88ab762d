//! The decoding of the store's replies: the identifier of what was created,
//! and the listings of what is indexed under a root, a folder, a file or an
//! entity.
use vstd::prelude::*;
use crate::error::IndexError;
use crate::json::{json_views, json_views_positions, parsed_document, Json, JsonView};

verus! {

/// Why the answer of a service is no reply.
#[derive(Debug, PartialEq, Eq)]
pub enum ReplyError {
    /// The service answered with a status outside `200..300`; the body of
    /// its answer is kept for the log.
    Status { status: u16, body: String },
    /// The body of the answer is not JSON.
    NotJson,
}

/// A status that reports success.
pub open spec fn succeeded(status: u16) -> bool {
    200 <= status < 300
}

/// Reads the reply of a service from the status and the body of its
/// answer. An answer that reports no success is a failure with its status
/// and its body, whatever the body holds; after that the body has to be
/// JSON.
pub fn read_reply(status: u16, body: &str) -> (reply: Result<Json, ReplyError>)
    ensures
        match reply {
            Ok(document) => succeeded(status) && parsed_document(body@) == Some(document@),
            Err(ReplyError::Status { status: s, body: b }) => !succeeded(status) && s == status
                && b@ == body@,
            Err(ReplyError::NotJson) => succeeded(status) && parsed_document(body@) is None,
        },
{
    if status < 200 || status >= 300 {
        return Err(ReplyError::Status { status, body: body.to_owned() });
    }
    match Json::parse(body) {
        Some(document) => Ok(document),
        None => Err(ReplyError::NotJson),
    }
}

/// A folder or a file as a listing of the store names it. A file carries
/// the time at which its text was extracted; a folder carries none.
#[derive(Clone, Debug, PartialEq, Eq)]
pub struct Indexed {
    pub name: String,
    pub id: String,
    pub extracted_at: Option<String>,
}

/// What an `Indexed` holds.
pub struct IndexedView {
    pub name: Seq<char>,
    pub id: Seq<char>,
    pub extracted_at: Option<Seq<char>>,
}

impl View for Indexed {
    type V = IndexedView;

    open spec fn view(&self) -> IndexedView {
        IndexedView {
            name: self.name@,
            id: self.id@,
            extracted_at: match self.extracted_at {
                Some(t) => Some(t@),
                None => None,
            },
        }
    }
}

/// What one element of a listing says, or why it cannot be read: a folder
/// needs an `id` and a `name`, a file an `extracted_at` as well.
pub open spec fn listed_entry(item: JsonView, files: bool) -> Result<IndexedView, IndexError> {
    match item.text_of("id"@) {
        None => Err(if files { IndexError::FileIdNotFound } else { IndexError::FolderIdNotFound }),
        Some(id) => match item.text_of("name"@) {
            None => Err(
                if files {
                    IndexError::FileNameNotFound
                } else {
                    IndexError::FolderNameNotFound
                },
            ),
            Some(name) => if files {
                match item.text_of("extracted_at"@) {
                    None => Err(IndexError::FileExtractedAtNotFound),
                    Some(at) => Ok(IndexedView { name, id, extracted_at: Some(at) }),
                }
            } else {
                Ok(IndexedView { name, id, extracted_at: None })
            },
        },
    }
}

/// What a listing says, element by element, or the failure of the first
/// element that cannot be read.
pub open spec fn listed_entries(items: Seq<JsonView>, files: bool) -> Result<
    Seq<IndexedView>,
    IndexError,
>
    decreases items.len(),
{
    if items.len() == 0 {
        Ok(Seq::empty())
    } else {
        match listed_entries(items.drop_last(), files) {
            Err(e) => Err(e),
            Ok(before) => match listed_entry(items.last(), files) {
                Err(e) => Err(e),
                Ok(entry) => Ok(before.push(entry)),
            },
        }
    }
}

/// The listing found under `key` in a reply, or `missing` where the reply
/// has no array of that name.
pub open spec fn listing_of(reply: JsonView, key: Seq<char>, files: bool, missing: IndexError) -> Result<
    Seq<IndexedView>,
    IndexError,
> {
    match reply.items_of(key) {
        None => Err(missing),
        Some(items) => listed_entries(items, files),
    }
}

/// The identifiers that the elements of a listing carry, or `missing` where
/// one carries none.
pub open spec fn listed_ids(items: Seq<JsonView>, missing: IndexError) -> Result<
    Seq<Seq<char>>,
    IndexError,
>
    decreases items.len(),
{
    if items.len() == 0 {
        Ok(Seq::empty())
    } else {
        match listed_ids(items.drop_last(), missing) {
            Err(e) => Err(e),
            Ok(before) => match items.last().text_of("id"@) {
                None => Err(missing),
                Some(id) => Ok(before.push(id)),
            },
        }
    }
}

/// The name under which the store lists the entities below a file
/// (`entity`) or below an entity (`entities`).
pub open spec fn entities_key(is_super: bool) -> Seq<char> {
    if is_super {
        "entity"@
    } else {
        "entities"@
    }
}

/// The identifiers of the entities that a reply lists, or why it lists
/// none.
pub open spec fn entity_ids_of(reply: JsonView, is_super: bool) -> Result<Seq<Seq<char>>, IndexError> {
    match reply.items_of(entities_key(is_super)) {
        None => Err(IndexError::EntitiesNotFound),
        Some(items) => listed_ids(items, IndexError::EntityIdNotFound),
    }
}

/// The identifiers of the roots that a reply lists, or why it lists none.
pub open spec fn root_ids_of(reply: JsonView) -> Result<Seq<Seq<char>>, IndexError> {
    match reply.items_of("root"@) {
        None => Err(IndexError::RootIdNotFound),
        Some(items) => listed_ids(items, IndexError::RootIdNotFound),
    }
}

/// The views of a vector of listed items.
pub open spec fn indexed_views(entries: Seq<Indexed>) -> Seq<IndexedView> {
    Seq::new(entries.len(), |i: int| entries[i]@)
}

/// The string at `reply[key][field]`, or `missing` where there is none.
pub open spec fn text_or(reply: JsonView, key: Seq<char>, field: Seq<char>, missing: IndexError) -> Result<
    Seq<char>,
    IndexError,
> {
    match reply.text_at(key, field) {
        Some(t) => Ok(t),
        None => Err(missing),
    }
}

/// The characters of a decoded string, or its failure.
pub open spec fn text_result(result: Result<String, IndexError>) -> Result<Seq<char>, IndexError> {
    match result {
        Ok(t) => Ok(t@),
        Err(e) => Err(e),
    }
}

/// The items of a decoded listing, or its failure.
pub open spec fn listing_result(result: Result<Vec<Indexed>, IndexError>) -> Result<
    Seq<IndexedView>,
    IndexError,
> {
    match result {
        Ok(v) => Ok(indexed_views(v@)),
        Err(e) => Err(e),
    }
}

/// The strings of a decoded list, or its failure.
pub open spec fn texts_result(result: Result<Vec<String>, IndexError>) -> Result<
    Seq<Seq<char>>,
    IndexError,
> {
    match result {
        Ok(v) => Ok(v.deep_view()),
        Err(e) => Err(e),
    }
}

/// Reads the string at `reply[key][field]`.
fn read_text(reply: &Json, key: &str, field: &str, missing: IndexError) -> (text: Result<
    String,
    IndexError,
>)
    ensures
        text_result(text) == text_or(reply@, key@, field@, missing),
{
    match reply.get_text_at(key, field) {
        Some(t) => Ok(t.to_owned()),
        None => Err(missing),
    }
}

/// The identifier of the root that `createRoot` answered with; a reply
/// without one fails the ingestion.
pub fn root_id(reply: &Json) -> (id: Result<String, IndexError>)
    ensures
        text_result(id) == text_or(reply@, "root"@, "id"@, IndexError::RootIdNotFound),
{
    read_text(reply, "root", "id", IndexError::RootIdNotFound)
}

/// The name of the root that `getRootById` answered with.
pub fn root_name(reply: &Json) -> (name: Result<String, IndexError>)
    ensures
        text_result(name) == text_or(reply@, "root"@, "name"@, IndexError::RootNotFound),
{
    read_text(reply, "root", "name", IndexError::RootNotFound)
}

/// The name under which the store answers the creation of a folder:
/// `folder` under the root, `subfolder` inside a folder.
pub open spec fn folder_key(is_super: bool) -> Seq<char> {
    if is_super {
        "folder"@
    } else {
        "subfolder"@
    }
}

/// The identifier of the folder that a creation answered with.
pub fn folder_id(reply: &Json, is_super: bool) -> (id: Result<String, IndexError>)
    ensures
        text_result(id) == text_or(
            reply@,
            folder_key(is_super),
            "id"@,
            IndexError::FolderIdNotFound,
        ),
{
    if is_super {
        read_text(reply, "folder", "id", IndexError::FolderIdNotFound)
    } else {
        read_text(reply, "subfolder", "id", IndexError::FolderIdNotFound)
    }
}

/// The identifier of the file that a creation answered with; a reply
/// without one fails the ingestion of that file.
pub fn file_id(reply: &Json) -> (id: Result<String, IndexError>)
    ensures
        text_result(id) == text_or(reply@, "file"@, "id"@, IndexError::FileIdNotFound),
{
    read_text(reply, "file", "id", IndexError::FileIdNotFound)
}

/// The identifier of the entity that a creation answered with; a reply
/// without one fails the ingestion of that entity and of what lies below it.
pub fn entity_id(reply: &Json) -> (id: Result<String, IndexError>)
    ensures
        text_result(id) == text_or(reply@, "entity"@, "id"@, IndexError::EntityIdNotFound),
{
    read_text(reply, "entity", "id", IndexError::EntityIdNotFound)
}

/// Reads one element of a listing.
fn read_entry(item: &Json, files: bool) -> (entry: Result<Indexed, IndexError>)
    ensures
        match entry {
            Ok(e) => listed_entry(item@, files) == Ok::<IndexedView, IndexError>(e@),
            Err(e) => listed_entry(item@, files) == Err::<IndexedView, IndexError>(e),
        },
{
    let id = match item.get_text("id") {
        Some(t) => t.to_owned(),
        None => {
            return Err(
                if files {
                    IndexError::FileIdNotFound
                } else {
                    IndexError::FolderIdNotFound
                },
            );
        },
    };
    let name = match item.get_text("name") {
        Some(t) => t.to_owned(),
        None => {
            return Err(
                if files {
                    IndexError::FileNameNotFound
                } else {
                    IndexError::FolderNameNotFound
                },
            );
        },
    };
    if files {
        match item.get_text("extracted_at") {
            Some(t) => Ok(Indexed { name, id, extracted_at: Some(t.to_owned()) }),
            None => Err(IndexError::FileExtractedAtNotFound),
        }
    } else {
        Ok(Indexed { name, id, extracted_at: None })
    }
}

/// Reads the listing under `key`.
fn read_listing(reply: &Json, key: &str, files: bool, missing: IndexError) -> (listing: Result<
    Vec<Indexed>,
    IndexError,
>)
    ensures
        listing_result(listing) == listing_of(reply@, key@, files, missing),
{
    let items = match reply.get_list(key) {
        Some(items) => items,
        None => { return Err(missing); },
    };
    let ghost views = json_views(items@);
    proof {
        json_views_positions(items@);
    }
    let mut entries: Vec<Indexed> = Vec::new();
    let mut i: usize = 0;
    assert(views.take(0) =~= Seq::empty());
    assert(indexed_views(entries@) =~= Seq::empty());
    while i < items.len()
        invariant
            i <= items.len(),
            views.len() == items.len(),
            forall|j: int| 0 <= j < items.len() ==> views[j] == #[trigger] items@[j]@,
            listed_entries(views.take(i as int), files) == Ok::<Seq<IndexedView>, IndexError>(
                indexed_views(entries@),
            ),
            reply@.items_of(key@) == Some(views),
        decreases items.len() - i,
    {
        assert(views.take(i + 1).drop_last() =~= views.take(i as int));
        assert(views.take(i + 1).last() == items@[i as int]@);
        match read_entry(&items[i], files) {
            Ok(entry) => {
                let ghost before = indexed_views(entries@);
                entries.push(entry);
                assert(indexed_views(entries@) =~= before.push(entry@));
            },
            Err(e) => {
                proof {
                    listed_entries_fail(views, files, i as int);
                }
                return Err(e);
            },
        }
        i += 1;
    }
    assert(views.take(items.len() as int) =~= views);
    Ok(entries)
}

/// A listing fails as its first unreadable element does.
proof fn listed_entries_fail(items: Seq<JsonView>, files: bool, at: int)
    requires
        0 <= at < items.len(),
        listed_entries(items.take(at), files) is Ok,
        listed_entry(items[at], files) is Err,
    ensures
        listed_entries(items, files) == Err::<Seq<IndexedView>, IndexError>(
            listed_entry(items[at], files)->Err_0,
        ),
    decreases items.len(),
{
    if at == items.len() - 1 {
        assert(items.take(at) =~= items.drop_last());
    } else {
        assert(items.drop_last().take(at) =~= items.take(at));
        assert(items.drop_last()[at] == items[at]);
        listed_entries_fail(items.drop_last(), files, at);
    }
}

/// A list of identifiers fails at its first element without one.
proof fn listed_ids_fail(items: Seq<JsonView>, missing: IndexError, at: int)
    requires
        0 <= at < items.len(),
        listed_ids(items.take(at), missing) is Ok,
        items[at].text_of("id"@) is None,
    ensures
        listed_ids(items, missing) == Err::<Seq<Seq<char>>, IndexError>(missing),
    decreases items.len(),
{
    if at == items.len() - 1 {
        assert(items.take(at) =~= items.drop_last());
    } else {
        assert(items.drop_last().take(at) =~= items.take(at));
        assert(items.drop_last()[at] == items[at]);
        listed_ids_fail(items.drop_last(), missing, at);
    }
}

/// Reads the identifiers of the elements of a list.
fn read_ids(items: &Vec<Json>, missing: IndexError) -> (ids: Result<Vec<String>, IndexError>)
    ensures
        texts_result(ids) == listed_ids(json_views(items@), missing),
{
    let ghost views = json_views(items@);
    proof {
        json_views_positions(items@);
    }
    let mut ids: Vec<String> = Vec::new();
    let mut i: usize = 0;
    assert(views.take(0) =~= Seq::empty());
    assert(ids.deep_view() =~= Seq::empty());
    while i < items.len()
        invariant
            i <= items.len(),
            views == json_views(items@),
            views.len() == items.len(),
            forall|j: int| 0 <= j < items.len() ==> views[j] == #[trigger] items@[j]@,
            listed_ids(views.take(i as int), missing) == Ok::<Seq<Seq<char>>, IndexError>(
                ids.deep_view(),
            ),
        decreases items.len() - i,
    {
        assert(views.take(i + 1).drop_last() =~= views.take(i as int));
        assert(views.take(i + 1).last() == items@[i as int]@);
        match items[i].get_text("id") {
            Some(id) => {
                let ghost before = ids.deep_view();
                ids.push(id.to_owned());
                assert(ids.deep_view() =~= before.push(id@));
            },
            None => {
                proof {
                    listed_ids_fail(views, missing, i as int);
                }
                return Err(missing);
            },
        }
        i += 1;
    }
    assert(views.take(items.len() as int) =~= views);
    Ok(ids)
}

/// The folders directly under the root, as `getRootFolders` lists them.
pub fn get_root_folders(reply: &Json) -> (folders: Result<Vec<Indexed>, IndexError>)
    ensures
        listing_result(folders) == listing_of(
            reply@,
            "folders"@,
            false,
            IndexError::RootIdNotFound,
        ),
{
    read_listing(reply, "folders", false, IndexError::RootIdNotFound)
}

/// The files directly under the root, as `getRootFiles` lists them.
pub fn get_root_files(reply: &Json) -> (files: Result<Vec<Indexed>, IndexError>)
    ensures
        listing_result(files) == listing_of(reply@, "files"@, true, IndexError::RootIdNotFound),
{
    read_listing(reply, "files", true, IndexError::RootIdNotFound)
}

/// The folders inside a folder, as `getSubFolders` lists them.
pub fn get_sub_folders(reply: &Json) -> (folders: Result<Vec<Indexed>, IndexError>)
    ensures
        listing_result(folders) == listing_of(
            reply@,
            "subfolders"@,
            false,
            IndexError::FolderIdNotFound,
        ),
{
    read_listing(reply, "subfolders", false, IndexError::FolderIdNotFound)
}

/// The files inside a folder, as `getFolderFiles` lists them.
pub fn get_folder_files(reply: &Json) -> (files: Result<Vec<Indexed>, IndexError>)
    ensures
        listing_result(files) == listing_of(reply@, "files"@, true, IndexError::FolderIdNotFound),
{
    read_listing(reply, "files", true, IndexError::FolderIdNotFound)
}

/// The folders that a reply lists below a node: under `folders` below the
/// root (`is_super`), under `subfolders` below a folder.
pub open spec fn folders_in(reply: JsonView, is_super: bool) -> Result<Seq<IndexedView>, IndexError> {
    if is_super {
        listing_of(reply, "folders"@, false, IndexError::RootIdNotFound)
    } else {
        listing_of(reply, "subfolders"@, false, IndexError::FolderIdNotFound)
    }
}

/// The files that a reply lists below a node, the root (`is_super`) or a
/// folder.
pub open spec fn files_in(reply: JsonView, is_super: bool) -> Result<Seq<IndexedView>, IndexError> {
    if is_super {
        listing_of(reply, "files"@, true, IndexError::RootIdNotFound)
    } else {
        listing_of(reply, "files"@, true, IndexError::FolderIdNotFound)
    }
}

/// The folders directly below a node, as the store lists them.
pub fn get_folders(reply: &Json, is_super: bool) -> (folders: Result<Vec<Indexed>, IndexError>)
    ensures
        listing_result(folders) == folders_in(reply@, is_super),
{
    if is_super {
        get_root_folders(reply)
    } else {
        get_sub_folders(reply)
    }
}

/// The files directly below a node, as the store lists them.
pub fn get_files(reply: &Json, is_super: bool) -> (files: Result<Vec<Indexed>, IndexError>)
    ensures
        listing_result(files) == files_in(reply@, is_super),
{
    if is_super {
        get_root_files(reply)
    } else {
        get_folder_files(reply)
    }
}

/// The identifiers of the roots that `getRoot` lists.
pub fn get_root_ids(reply: &Json) -> (ids: Result<Vec<String>, IndexError>)
    ensures
        texts_result(ids) == root_ids_of(reply@),
{
    match reply.get_list("root") {
        Some(items) => read_ids(items, IndexError::RootIdNotFound),
        None => Err(IndexError::RootIdNotFound),
    }
}

/// The identifiers of the entities directly below a file (`is_super`) or
/// below an entity, as `getFileEntities` or `getSubEntities` lists them.
pub fn get_entity_ids(reply: &Json, is_super: bool) -> (ids: Result<Vec<String>, IndexError>)
    ensures
        texts_result(ids) == entity_ids_of(reply@, is_super),
{
    let found = if is_super {
        reply.get_list("entity")
    } else {
        reply.get_list("entities")
    };
    match found {
        Some(items) => read_ids(items, IndexError::EntityIdNotFound),
        None => Err(IndexError::EntitiesNotFound),
    }
}

} // verus!
