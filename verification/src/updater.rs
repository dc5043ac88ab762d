//! The update engine: the tree on disk is held against what the store has
//! indexed, level by level. What is new is ingested, what has changed is
//! ingested again, and what has gone is deleted.
use vstd::prelude::*;
use crate::config::{FileTypesConfig, FileTypesView, IndexTypesConfig, IndexTypesView};
use crate::deleter::Owner;
use crate::error::IndexError;
use crate::entities::{plan_views, PlanView, PlannedEntity};
use crate::ingestion::{
    create_folder, entities_or_none, entry_views, file_entities, folder_request, ignored,
    is_ignored, is_left_out, left_out, plan_file_entities, read_configurations, ActionView,
    Configurations, DirEntry, EntryAction, EntryKind, EntryView, Level, Timestamp,
};
use crate::json::{Json, JsonView};
use crate::replies::{
    files_in, folders_in, get_files, get_folders, indexed_views, root_name, Indexed, IndexedView,
};
use crate::store::{
    getFolderFilesInput, getRootByIdInput, getRootFilesInput, getRootFoldersInput,
    getSubFoldersInput, updateFileInput, RequestView, StoreRequest,
};
use crate::text::same_text;

verus! {

/// The time that an RFC 3339 text names, counted from the Unix epoch;
/// `None` where the text names none.
pub uninterp spec fn rfc3339_time(text: Seq<char>) -> Option<Timestamp>;

/// Reads a time with `chrono::DateTime::parse_from_rfc3339` and hands it
/// on by `DateTime::timestamp` and `DateTime::timestamp_subsec_nanos`. The
/// reading depends on the text alone, so the time is the one that
/// `rfc3339_time` names.
#[verifier::external_body]
fn read_rfc3339(text: &str) -> (time: Option<Timestamp>)
    ensures
        time == rfc3339_time(text@),
{
    chrono::DateTime::parse_from_rfc3339(text).ok().map(
        |time| Timestamp { seconds: time.timestamp(), nanos: time.timestamp_subsec_nanos() },
    )
}

/// A time in nanoseconds from the Unix epoch.
pub open spec fn nanoseconds(time: Timestamp) -> int {
    time.seconds * 1_000_000_000 + time.nanos
}

/// The whole seconds in a span of nanoseconds, rounded toward zero.
pub open spec fn whole_seconds(nanos: int) -> int {
    if nanos >= 0 {
        nanos / 1_000_000_000
    } else {
        -((-nanos) / 1_000_000_000)
    }
}

/// The whole seconds from the extraction of a file to its last
/// modification; negative where the file was extracted after it was
/// modified.
pub open spec fn elapsed(modified: Timestamp, extracted: Timestamp) -> int {
    whole_seconds(nanoseconds(modified) - nanoseconds(extracted))
}

/// Counts the whole seconds from the extraction of a file to its last
/// modification.
pub fn seconds_between(modified: Timestamp, extracted: Timestamp) -> (seconds: i128)
    ensures
        seconds == elapsed(modified, extracted),
{
    let later: i128 = modified.seconds as i128 * 1_000_000_000 + modified.nanos as i128;
    let earlier: i128 = extracted.seconds as i128 * 1_000_000_000 + extracted.nanos as i128;
    let span: i128 = later - earlier;
    if span >= 0 {
        ((span as u128) / 1_000_000_000) as i128
    } else {
        -((((-span) as u128) / 1_000_000_000) as i128)
    }
}

/// Whether a file that was extracted at `extracted` and last modified at
/// `modified` is too old: it is, where more than `interval` whole seconds
/// lie between the two.
pub open spec fn too_old(modified: Timestamp, extracted: Timestamp, interval: u64) -> bool {
    elapsed(modified, extracted) > interval
}

/// Decides whether the extraction of a file is too old.
pub fn is_too_old(modified: Timestamp, extracted: Timestamp, interval: u64) -> (stale: bool)
    ensures
        stale == too_old(modified, extracted, interval),
{
    seconds_between(modified, extracted) > interval as i128
}

/// Whether a file has to be ingested again: it has, where the time of its
/// modification is not known, and where more than `interval` seconds lie
/// between its extraction and its modification. A file without a readable
/// extraction time is a failure.
pub open spec fn out_of_date(
    modified: Option<Timestamp>,
    extracted_at: Option<Seq<char>>,
    interval: u64,
) -> Result<bool, IndexError> {
    match modified {
        None => Ok(true),
        Some(m) => match extracted_at {
            None => Err(IndexError::FileExtractedAtNotFound),
            Some(at) => match rfc3339_time(at) {
                None => Err(IndexError::InvalidTimestamp),
                Some(extracted) => Ok(too_old(m, extracted, interval)),
            },
        },
    }
}

/// Decides whether a file has to be ingested again.
pub fn is_out_of_date(modified: Option<Timestamp>, extracted_at: Option<&str>, interval: u64) -> (stale:
    Result<bool, IndexError>)
    ensures
        stale == out_of_date(
            modified,
            match extracted_at {
                Some(t) => Some(t@),
                None => None,
            },
            interval,
        ),
{
    let modified = match modified {
        Some(m) => m,
        None => { return Ok(true); },
    };
    let extracted_at = match extracted_at {
        Some(t) => t,
        None => { return Err(IndexError::FileExtractedAtNotFound); },
    };
    match read_rfc3339(extracted_at) {
        Some(extracted) => Ok(is_too_old(modified, extracted, interval)),
        None => Err(IndexError::InvalidTimestamp),
    }
}

/// The item that a listing holds under `name`: the last of that name, as
/// in a map that was filled in the order of the listing.
pub open spec fn last_named(listing: Seq<IndexedView>, name: Seq<char>) -> Option<IndexedView>
    decreases listing.len(),
{
    if listing.len() == 0 {
        None
    } else if listing.last().name == name {
        Some(listing.last())
    } else {
        last_named(listing.drop_last(), name)
    }
}

/// Looks an item of a listing up by its name.
pub fn find_indexed<'a>(listing: &'a Vec<Indexed>, name: &str) -> (found: Option<&'a Indexed>)
    ensures
        match found {
            Some(item) => last_named(indexed_views(listing@), name@) == Some(item@),
            None => last_named(indexed_views(listing@), name@) is None,
        },
{
    let ghost views = indexed_views(listing@);
    let mut i: usize = listing.len();
    assert(views.take(i as int) =~= views);
    while i > 0
        invariant
            i <= listing.len(),
            views == indexed_views(listing@),
            last_named(views, name@) == last_named(views.take(i as int), name@),
        decreases i,
    {
        assert(views.take(i as int).last() == listing@[i - 1]@);
        assert(views.take(i as int).drop_last() =~= views.take(i - 1));
        i -= 1;
        if same_text(listing[i].name.as_str(), name) {
            return Some(&listing[i]);
        }
    }
    assert(views.take(0).len() == 0);
    None
}

/// The directory holds an entry of this name that the walk does not leave
/// out.
pub open spec fn on_disk(entries: Seq<EntryView>, name: Seq<char>) -> bool {
    exists|i: int|
        0 <= i < entries.len() && !left_out(#[trigger] entries[i]) && entries[i].name == name
}

/// Decides whether the directory holds an entry of this name.
pub fn is_on_disk(entries: &Vec<DirEntry>, name: &str) -> (found: bool)
    ensures
        found == on_disk(entry_views(entries@), name@),
{
    let ghost views = entry_views(entries@);
    let mut i: usize = 0;
    while i < entries.len()
        invariant
            i <= entries.len(),
            views == entry_views(entries@),
            forall|j: int|
                0 <= j < i ==> !(!left_out(#[trigger] views[j]) && views[j].name == name@),
        decreases entries.len() - i,
    {
        let entry = &entries[i];
        assert(views[i as int] == entry@);
        if !is_left_out(entry) && same_text(entry.name.as_str(), name) {
            return true;
        }
        i += 1;
    }
    false
}

/// A later item of the listing has the same name as the item at `at`, and
/// stands in its place.
pub open spec fn superseded(listing: Seq<IndexedView>, at: int) -> bool {
    exists|j: int| at < j < listing.len() && (#[trigger] listing[j]).name == listing[at].name
}

/// The item at `at` is indexed and has gone from the disk.
pub open spec fn gone(listing: Seq<IndexedView>, at: int, entries: Seq<EntryView>) -> bool {
    !superseded(listing, at) && !on_disk(entries, listing[at].name)
}

/// Among the first `n` items of a listing, those that have gone from the
/// disk, in the order of the listing.
pub open spec fn unseen_upto(listing: Seq<IndexedView>, entries: Seq<EntryView>, n: int) -> Seq<
    IndexedView,
>
    decreases n,
{
    if n <= 0 {
        Seq::empty()
    } else {
        let before = unseen_upto(listing, entries, n - 1);
        if gone(listing, n - 1, entries) {
            before.push(listing[n - 1])
        } else {
            before
        }
    }
}

/// The items of a listing whose name is not on disk any more, each name
/// once.
pub open spec fn unseen(listing: Seq<IndexedView>, entries: Seq<EntryView>) -> Seq<IndexedView> {
    unseen_upto(listing, entries, listing.len() as int)
}

/// Decides whether a later item of the listing has the name of the item at
/// `at`.
fn is_superseded(listing: &Vec<Indexed>, at: usize) -> (found: bool)
    requires
        at < listing.len(),
    ensures
        found == superseded(indexed_views(listing@), at as int),
{
    let ghost views = indexed_views(listing@);
    let mut j: usize = at + 1;
    while j < listing.len()
        invariant
            at < j <= listing.len(),
            views == indexed_views(listing@),
            forall|k: int| at < k < j ==> (#[trigger] views[k]).name != views[at as int].name,
        decreases listing.len() - j,
    {
        if same_text(listing[j].name.as_str(), listing[at].name.as_str()) {
            assert(views[j as int].name == views[at as int].name);
            return true;
        }
        j += 1;
    }
    false
}

/// Copies an item of a listing.
fn copy_indexed(item: &Indexed) -> (copy: Indexed)
    ensures
        copy@ == item@,
{
    Indexed {
        name: item.name.clone(),
        id: item.id.clone(),
        extracted_at: match &item.extracted_at {
            Some(t) => Some(t.clone()),
            None => None,
        },
    }
}

/// Finds the items of a listing that have gone from the disk: the folders
/// or files that are to be deleted from the store.
pub fn unseen_entries(listing: &Vec<Indexed>, entries: &Vec<DirEntry>) -> (found: Vec<Indexed>)
    ensures
        indexed_views(found@) == unseen(indexed_views(listing@), entry_views(entries@)),
{
    let ghost views = indexed_views(listing@);
    let mut found: Vec<Indexed> = Vec::new();
    let mut i: usize = 0;
    assert(indexed_views(found@) =~= Seq::<IndexedView>::empty());
    while i < listing.len()
        invariant
            i <= listing.len(),
            views == indexed_views(listing@),
            indexed_views(found@) == unseen_upto(views, entry_views(entries@), i as int),
        decreases listing.len() - i,
    {
        let item = &listing[i];
        assert(views[i as int] == item@);
        if !is_superseded(listing, i) && !is_on_disk(entries, item.name.as_str()) {
            let ghost before = indexed_views(found@);
            let copy = copy_indexed(item);
            found.push(copy);
            assert(indexed_views(found@) =~= before.push(copy@));
        }
        i += 1;
    }
    found
}

/// What the update does for one entry of a directory whose node has the
/// identifier `parent_id`.
///
/// A directory that is indexed is reconciled in turn; one that is not is
/// created and populated; one that the walk leaves out is left alone. A
/// file that is indexed is ingested again where it is out of date and left
/// alone otherwise; one that is not indexed is ingested. Anything else is
/// left alone.
pub open spec fn update_action(
    entry: EntryView,
    parent_id: Seq<char>,
    is_super: bool,
    folders: Seq<IndexedView>,
    files: Seq<IndexedView>,
    interval: u64,
) -> Result<ActionView, IndexError> {
    match entry.kind {
        EntryKind::Directory => if ignored(entry.name) {
            Ok(ActionView::Skip)
        } else {
            match last_named(folders, entry.name) {
                Some(folder) => Ok(ActionView::UpdateFolder(folder.id)),
                None => Ok(
                    ActionView::CreateFolder(folder_request(entry.name, parent_id, is_super)),
                ),
            }
        },
        EntryKind::File => match last_named(files, entry.name) {
            Some(file) => match out_of_date(entry.modified, file.extracted_at, interval) {
                Err(e) => Err(e),
                Ok(true) => Ok(ActionView::UpdateFile(file.id)),
                Ok(false) => Ok(ActionView::Skip),
            },
            None => Ok(ActionView::ProcessFile),
        },
        EntryKind::Other => Ok(ActionView::Skip),
    }
}

/// What an action holds, or why there is none.
pub open spec fn action_result(action: Result<EntryAction, IndexError>) -> Result<
    ActionView,
    IndexError,
> {
    match action {
        Ok(a) => Ok(a@),
        Err(e) => Err(e),
    }
}

/// Decides what the update does for one entry of a directory.
pub fn reconcile_entry(
    entry: &DirEntry,
    parent_id: &str,
    is_super: bool,
    folders: &Vec<Indexed>,
    files: &Vec<Indexed>,
    interval: u64,
) -> (action: Result<EntryAction, IndexError>)
    ensures
        action_result(action) == update_action(
            entry@,
            parent_id@,
            is_super,
            indexed_views(folders@),
            indexed_views(files@),
            interval,
        ),
{
    let name = entry.name.as_str();
    match entry.kind {
        EntryKind::Directory => if is_ignored(name) {
            Ok(EntryAction::Skip)
        } else {
            match find_indexed(folders, name) {
                Some(folder) => Ok(EntryAction::UpdateFolder(folder.id.clone())),
                None => Ok(EntryAction::CreateFolder(create_folder(name, parent_id, is_super))),
            }
        },
        EntryKind::File => match find_indexed(files, name) {
            Some(file) => {
                let extracted_at = match &file.extracted_at {
                    Some(t) => Some(t.as_str()),
                    None => None,
                };
                match is_out_of_date(entry.modified, extracted_at, interval) {
                    Err(e) => Err(e),
                    Ok(true) => Ok(EntryAction::UpdateFile(file.id.clone())),
                    Ok(false) => Ok(EntryAction::Skip),
                }
            },
            None => Ok(EntryAction::ProcessFile),
        },
        EntryKind::Other => Ok(EntryAction::Skip),
    }
}

/// What the update does for the entries of a directory, entry by entry, or
/// the failure of the first entry that has one.
pub open spec fn update_actions(
    entries: Seq<EntryView>,
    parent_id: Seq<char>,
    is_super: bool,
    folders: Seq<IndexedView>,
    files: Seq<IndexedView>,
    interval: u64,
) -> Result<Seq<ActionView>, IndexError>
    decreases entries.len(),
{
    if entries.len() == 0 {
        Ok(Seq::empty())
    } else {
        match update_actions(entries.drop_last(), parent_id, is_super, folders, files, interval) {
            Err(e) => Err(e),
            Ok(before) => match update_action(
                entries.last(),
                parent_id,
                is_super,
                folders,
                files,
                interval,
            ) {
                Err(e) => Err(e),
                Ok(action) => Ok(before.push(action)),
            },
        }
    }
}

/// The actions fail as the first entry that fails.
proof fn update_actions_fail(
    entries: Seq<EntryView>,
    parent_id: Seq<char>,
    is_super: bool,
    folders: Seq<IndexedView>,
    files: Seq<IndexedView>,
    interval: u64,
    at: int,
)
    requires
        0 <= at < entries.len(),
        update_actions(entries.take(at), parent_id, is_super, folders, files, interval) is Ok,
        update_action(entries[at], parent_id, is_super, folders, files, interval) is Err,
    ensures
        update_actions(entries, parent_id, is_super, folders, files, interval) == Err::<
            Seq<ActionView>,
            IndexError,
        >(update_action(entries[at], parent_id, is_super, folders, files, interval)->Err_0),
    decreases entries.len(),
{
    if at == entries.len() - 1 {
        assert(entries.take(at) =~= entries.drop_last());
    } else {
        assert(entries.drop_last().take(at) =~= entries.take(at));
        assert(entries.drop_last()[at] == entries[at]);
        update_actions_fail(entries.drop_last(), parent_id, is_super, folders, files, interval, at);
    }
}

/// What the update of one directory comes to: an action for each entry, at
/// the same position, and the folders and files that are to be deleted
/// with all that lies below them.
#[derive(Debug, PartialEq, Eq)]
pub struct Reconciliation {
    pub actions: Vec<EntryAction>,
    pub unseen_folders: Vec<Indexed>,
    pub unseen_files: Vec<Indexed>,
}

/// What a `Reconciliation` holds.
pub struct ReconciliationView {
    pub actions: Seq<ActionView>,
    pub unseen_folders: Seq<IndexedView>,
    pub unseen_files: Seq<IndexedView>,
}

/// What a vector of actions holds, action by action.
pub open spec fn action_views(actions: Seq<EntryAction>) -> Seq<ActionView> {
    Seq::new(actions.len(), |i: int| actions[i]@)
}

impl View for Reconciliation {
    type V = ReconciliationView;

    open spec fn view(&self) -> ReconciliationView {
        ReconciliationView {
            actions: action_views(self.actions@),
            unseen_folders: indexed_views(self.unseen_folders@),
            unseen_files: indexed_views(self.unseen_files@),
        }
    }
}

/// The update of one directory against the folders and files that are
/// indexed below its node.
pub open spec fn reconciled(
    entries: Seq<EntryView>,
    parent_id: Seq<char>,
    is_super: bool,
    folders: Seq<IndexedView>,
    files: Seq<IndexedView>,
    interval: u64,
) -> Result<ReconciliationView, IndexError> {
    match update_actions(entries, parent_id, is_super, folders, files, interval) {
        Err(e) => Err(e),
        Ok(actions) => Ok(
            ReconciliationView {
                actions,
                unseen_folders: unseen(folders, entries),
                unseen_files: unseen(files, entries),
            },
        ),
    }
}

/// What a reconciliation holds, or why there is none.
pub open spec fn reconciliation_result(found: Result<Reconciliation, IndexError>) -> Result<
    ReconciliationView,
    IndexError,
> {
    match found {
        Ok(r) => Ok(r@),
        Err(e) => Err(e),
    }
}

/// Reconciles one directory with what the store has indexed below its
/// node `parent_id`: `folders` and `files` are the listings of that node,
/// `entries` what the walk found in the directory, and `interval` the
/// number of seconds by which a file may be newer than its extraction
/// without being ingested again.
pub fn update_folder(
    entries: &Vec<DirEntry>,
    parent_id: &str,
    is_super: bool,
    folders: &Vec<Indexed>,
    files: &Vec<Indexed>,
    interval: u64,
) -> (found: Result<Reconciliation, IndexError>)
    ensures
        reconciliation_result(found) == reconciled(
            entry_views(entries@),
            parent_id@,
            is_super,
            indexed_views(folders@),
            indexed_views(files@),
            interval,
        ),
{
    let ghost folder_views = indexed_views(folders@);
    let ghost file_views = indexed_views(files@);
    let ghost views = entry_views(entries@);
    let mut actions: Vec<EntryAction> = Vec::new();
    let mut i: usize = 0;
    assert(views.take(0) =~= Seq::empty());
    assert(action_views(actions@) =~= Seq::<ActionView>::empty());
    while i < entries.len()
        invariant
            i <= entries.len(),
            folder_views == indexed_views(folders@),
            file_views == indexed_views(files@),
            views == entry_views(entries@),
            update_actions(
                views.take(i as int),
                parent_id@,
                is_super,
                folder_views,
                file_views,
                interval,
            ) == Ok::<Seq<ActionView>, IndexError>(action_views(actions@)),
        decreases entries.len() - i,
    {
        assert(views.take(i + 1).drop_last() =~= views.take(i as int));
        assert(views.take(i + 1).last() == entries@[i as int]@);
        match reconcile_entry(&entries[i], parent_id, is_super, folders, files, interval) {
            Ok(action) => {
                let ghost before = action_views(actions@);
                actions.push(action);
                assert(action_views(actions@) =~= before.push(action@));
            },
            Err(e) => {
                proof {
                    update_actions_fail(
                        views,
                        parent_id@,
                        is_super,
                        folder_views,
                        file_views,
                        interval,
                        i as int,
                    );
                }
                return Err(e);
            },
        }
        i += 1;
    }
    assert(views.take(entries.len() as int) =~= views);
    let unseen_folders = unseen_entries(folders, entries);
    let unseen_files = unseen_entries(files, entries);
    Ok(Reconciliation { actions, unseen_folders, unseen_files })
}

/// Whether the root that the store holds is the directory that is to be
/// updated: it is, where it carries the name of the directory.
pub open spec fn root_check(reply: JsonView, name: Seq<char>) -> Result<(), IndexError> {
    match reply.text_at("root"@, "name"@) {
        None => Err(IndexError::RootNotFound),
        Some(stored) => if stored == name {
            Ok(())
        } else {
            Err(IndexError::RootNameMismatch)
        },
    }
}

/// Checks the reply to `getRootById` against the name of the directory
/// that is to be updated. A mismatch is fatal.
pub fn check_root(root_name_on_disk: &str, reply: &Json) -> (checked: Result<(), IndexError>)
    ensures
        checked == root_check(reply@, root_name_on_disk@),
{
    match root_name(reply) {
        Err(e) => Err(e),
        Ok(stored) => if same_text(stored.as_str(), root_name_on_disk) {
            Ok(())
        } else {
            Err(IndexError::RootNameMismatch)
        },
    }
}

/// A node of the store whose content is to be listed: the level, and the
/// two requests that list the folders and the files below it.
#[derive(Debug, PartialEq, Eq)]
pub struct Listing {
    pub level: Level,
    pub folders: StoreRequest,
    pub files: StoreRequest,
}

/// The request that lists the folders below a node.
pub open spec fn folders_request(parent_id: Seq<char>, is_super: bool) -> RequestView {
    if is_super {
        RequestView::GetRootFolders { root_id: parent_id }
    } else {
        RequestView::GetSubFolders { folder_id: parent_id }
    }
}

/// The request that lists the files below a node.
pub open spec fn files_request(parent_id: Seq<char>, is_super: bool) -> RequestView {
    if is_super {
        RequestView::GetRootFiles { root_id: parent_id }
    } else {
        RequestView::GetFolderFiles { folder_id: parent_id }
    }
}

/// The listing of the node `parent_id`.
pub open spec fn lists(listing: Listing, parent_id: Seq<char>, is_super: bool) -> bool {
    &&& listing.level.parent_id@ == parent_id
    &&& listing.level.is_super == is_super
    &&& listing.folders@ == folders_request(parent_id, is_super)
    &&& listing.files@ == files_request(parent_id, is_super)
}

/// Makes the two requests that list what is indexed below a node.
fn listing_of_level(parent_id: &str, is_super: bool) -> (listing: Listing)
    ensures
        lists(listing, parent_id@, is_super),
{
    Listing {
        level: Level { parent_id: parent_id.to_owned(), is_super },
        folders: list_folders(parent_id, is_super),
        files: list_files(parent_id, is_super),
    }
}

/// What an update begins with: the configurations of the run, and the
/// request for the root that is to be updated.
#[derive(Debug, PartialEq, Eq)]
pub struct UpdateStart {
    pub configurations: Configurations,
    pub request: StoreRequest,
}

/// Begins the update of the tree indexed under `root_id` from the texts of
/// the two configuration files. A configuration that is missing or
/// malformed ends the update before anything is asked of the store.
pub fn begin_update(root_id: &str, index_types: Option<&str>, file_types: Option<&str>) -> (start:
    Result<UpdateStart, IndexError>)
    ensures
        match start {
            Ok(s) => {
                &&& crate::ingestion::configurations_failure(
                    crate::ingestion::optional_chars(index_types),
                    crate::ingestion::optional_chars(file_types),
                ) is None
                &&& s.request@ == (RequestView::GetRootById { root_id: root_id@ })
                &&& s.configurations.index_types@.reads(
                    crate::json::parsed_document(index_types.unwrap()@).unwrap(),
                )
                &&& s.configurations.file_types@.reads(
                    crate::json::parsed_document(file_types.unwrap()@).unwrap(),
                )
            },
            Err(e) => crate::ingestion::configurations_failure(
                crate::ingestion::optional_chars(index_types),
                crate::ingestion::optional_chars(file_types),
            ) == Some(e),
        },
{
    match read_configurations(index_types, file_types) {
        Ok(configurations) => Ok(UpdateStart { configurations, request: get_root(root_id) }),
        Err(e) => Err(e),
    }
}

/// Updates the top of an indexed tree: checks the reply to `getRootById`
/// against the name of the directory that is to be updated, and then asks
/// for what is indexed directly under the root. A root of another name is
/// fatal, and nothing is listed for it.
pub fn update(root_name_on_disk: &str, root_id: &str, root_reply: &Json) -> (next: Result<
    Listing,
    IndexError,
>)
    ensures
        match next {
            Ok(listing) => root_check(root_reply@, root_name_on_disk@) is Ok && lists(
                listing,
                root_id@,
                true,
            ),
            Err(e) => root_check(root_reply@, root_name_on_disk@) == Err::<(), IndexError>(e),
        },
{
    match check_root(root_name_on_disk, root_reply) {
        Err(e) => Err(e),
        Ok(_) => Ok(listing_of_level(root_id, true)),
    }
}

/// Asks for what is indexed inside the folder `folder_id`: the step that
/// follows wherever a folder is reconciled or deleted. What lies inside a
/// folder is never directly under the root.
pub fn descend(folder_id: &str) -> (listing: Listing)
    ensures
        lists(listing, folder_id@, false),
{
    listing_of_level(folder_id, false)
}

/// The reconciliation of a directory with the two replies that list what
/// is indexed below its node: a reply that cannot be read fails it, the
/// listing of the folders first.
pub open spec fn reconciled_with(
    entries: Seq<EntryView>,
    parent_id: Seq<char>,
    is_super: bool,
    folders_reply: JsonView,
    files_reply: JsonView,
    interval: u64,
) -> Result<ReconciliationView, IndexError> {
    match folders_in(folders_reply, is_super) {
        Err(e) => Err(e),
        Ok(folders) => match files_in(files_reply, is_super) {
            Err(e) => Err(e),
            Ok(files) => reconciled(entries, parent_id, is_super, folders, files, interval),
        },
    }
}

/// Reconciles one directory with the replies to the two requests of the
/// listing of its node.
pub fn update_listed(
    entries: &Vec<DirEntry>,
    level: &Level,
    folders_reply: &Json,
    files_reply: &Json,
    interval: u64,
) -> (found: Result<Reconciliation, IndexError>)
    ensures
        reconciliation_result(found) == reconciled_with(
            entry_views(entries@),
            level.parent_id@,
            level.is_super,
            folders_reply@,
            files_reply@,
            interval,
        ),
{
    let folders = match get_folders(folders_reply, level.is_super) {
        Ok(folders) => folders,
        Err(e) => { return Err(e); },
    };
    let files = match get_files(files_reply, level.is_super) {
        Ok(files) => files,
        Err(e) => { return Err(e); },
    };
    update_folder(entries, level.parent_id.as_str(), level.is_super, &folders, &files, interval)
}

/// The request for the root of the identifier `root_id`.
pub fn get_root(root_id: &str) -> (request: StoreRequest)
    ensures
        request@ == (RequestView::GetRootById { root_id: root_id@ }),
{
    StoreRequest::GetRootById(getRootByIdInput { root_id: root_id.to_owned() })
}

/// The request that lists the folders below a node: below the root for
/// `is_super`, below a folder otherwise.
pub fn list_folders(parent_id: &str, is_super: bool) -> (request: StoreRequest)
    ensures
        request@ == if is_super {
            RequestView::GetRootFolders { root_id: parent_id@ }
        } else {
            RequestView::GetSubFolders { folder_id: parent_id@ }
        },
{
    if is_super {
        StoreRequest::GetRootFolders(getRootFoldersInput { root_id: parent_id.to_owned() })
    } else {
        StoreRequest::GetSubFolders(getSubFoldersInput { folder_id: parent_id.to_owned() })
    }
}

/// The request that lists the files below a node: below the root for
/// `is_super`, below a folder otherwise.
pub fn list_files(parent_id: &str, is_super: bool) -> (request: StoreRequest)
    ensures
        request@ == if is_super {
            RequestView::GetRootFiles { root_id: parent_id@ }
        } else {
            RequestView::GetFolderFiles { folder_id: parent_id@ }
        },
{
    if is_super {
        StoreRequest::GetRootFiles(getRootFilesInput { root_id: parent_id.to_owned() })
    } else {
        StoreRequest::GetFolderFiles(getFolderFilesInput { folder_id: parent_id.to_owned() })
    }
}

/// What is to be done for a file that has changed: the request that
/// replaces its text, and, where its entities are replaced, the entities
/// that are created once the old ones are deleted.
#[derive(Debug, PartialEq, Eq)]
pub struct FileUpdate {
    pub request: StoreRequest,
    /// The file as the owner of the entities that are deleted before
    /// `entities` are created in their place; `None` where the file keeps
    /// what it has.
    pub old_entities: Option<Owner>,
    pub entities: Vec<PlannedEntity>,
}

/// What a `FileUpdate` holds.
pub struct FileUpdateView {
    pub request: RequestView,
    /// The entities below the file are deleted and `entities` created in
    /// their place.
    pub replace_entities: bool,
    pub entities: Seq<PlanView>,
}

/// The owner of the old entities of a file is the file itself.
pub open spec fn owns_old_entities(update: FileUpdate, file_id: Seq<char>) -> bool {
    update.old_entities matches Some(owner) ==> owner.id@ == file_id && owner.is_file
}

impl View for FileUpdate {
    type V = FileUpdateView;

    open spec fn view(&self) -> FileUpdateView {
        FileUpdateView {
            request: self.request@,
            replace_entities: self.old_entities is Some,
            entities: plan_views(self.entities@),
        }
    }
}

/// What is to be done for a changed file whose text was read again. The
/// text of the file is replaced and its extraction time set to `now`. Where
/// the file has entities of its own, all of them are replaced: nothing is
/// compared inside a file.
pub open spec fn file_update(
    extension: Seq<char>,
    source: Seq<char>,
    file_id: Seq<char>,
    now: Seq<char>,
    index_types: IndexTypesView,
    file_types: FileTypesView,
) -> Result<FileUpdateView, IndexError> {
    match file_entities(extension, source, index_types, file_types) {
        Err(e) => Err(e),
        Ok(found) => Ok(
            FileUpdateView {
                request: RequestView::UpdateFile { file_id, text: source, extracted_at: Some(now) },
                replace_entities: found is Some,
                entities: entities_or_none(found),
            },
        ),
    }
}

/// What a planned update holds, or why there is no plan.
pub open spec fn file_update_result(plan: Result<Option<FileUpdate>, IndexError>) -> Result<
    Option<FileUpdateView>,
    IndexError,
> {
    match plan {
        Ok(Some(p)) => Ok(Some(p@)),
        Ok(None) => Ok(None),
        Err(e) => Err(e),
    }
}

/// Plans the update of the file indexed as `file_id`. `source` is the text
/// of the file, or `None` where it could not be read as text: such a file is
/// skipped, which is no failure. `now` is the time of this extraction as an
/// RFC 3339 time.
pub fn update_file(
    extension: &str,
    source: Option<&str>,
    file_id: &str,
    now: &str,
    index_types: &IndexTypesConfig,
    file_types: &FileTypesConfig,
) -> (plan: Result<Option<FileUpdate>, IndexError>)
    ensures
        file_update_result(plan) == match source {
            None => Ok::<Option<FileUpdateView>, IndexError>(None),
            Some(text) => match file_update(
                extension@,
                text@,
                file_id@,
                now@,
                index_types@,
                file_types@,
            ) {
                Ok(p) => Ok(Some(p)),
                Err(e) => Err(e),
            },
        },
        plan matches Ok(Some(p)) ==> owns_old_entities(p, file_id@),
{
    let text = match source {
        Some(text) => text,
        None => { return Ok(None); },
    };
    let (old_entities, entities) = match plan_file_entities(
        extension,
        text,
        index_types,
        file_types,
    ) {
        Ok(Some(entities)) => (Some(Owner::file(file_id)), entities),
        Ok(None) => {
            let none: Vec<PlannedEntity> = Vec::new();
            assert(plan_views(none@) =~= Seq::<PlanView>::empty());
            (None, none)
        },
        Err(e) => { return Err(e); },
    };
    let request = StoreRequest::UpdateFile(
        updateFileInput {
            file_id: file_id.to_owned(),
            text: text.to_owned(),
            extracted_at: Some(now.to_owned()),
        },
    );
    Ok(Some(FileUpdate { request, old_entities, entities }))
}

} // verus!
