//! The cascading deleter: what has gone from the disk is deleted from the
//! store together with all that lies below it.
//!
//! A deletion goes depth first. The store is asked what lies below a node,
//! and the plan made from its reply names each child with the request that
//! deletes it; the driver follows the plan and asks again for each child.
use vstd::prelude::*;
use crate::error::IndexError;
use crate::ingestion::{DirEntry, EntryView};
use crate::json::{Json, JsonView};
use crate::replies::{
    entity_ids_of, files_in, folders_in, get_entity_ids, get_files, get_folders, indexed_views,
    Indexed, IndexedView,
};
use crate::store::{
    deleteFileInput, deleteFolderInput, deleteSubEntityInput, deleteSuperEntityInput,
    getFileEntitiesInput, getSubEntitiesInput, RequestView, StoreRequest,
};
use crate::updater::{unseen, unseen_entries};

verus! {

/// One node that is to be deleted: its identifier, under which the driver
/// deletes what lies below it, and the request that deletes the node
/// itself.
#[derive(Debug, PartialEq, Eq)]
pub struct Deletion {
    pub id: String,
    pub request: StoreRequest,
}

/// What a `Deletion` holds.
pub struct DeletionView {
    pub id: Seq<char>,
    pub request: RequestView,
}

impl View for Deletion {
    type V = DeletionView;

    open spec fn view(&self) -> DeletionView {
        DeletionView { id: self.id@, request: self.request@ }
    }
}

/// What a vector of deletions holds, one by one.
pub open spec fn deletion_views(deletions: Seq<Deletion>) -> Seq<DeletionView> {
    Seq::new(deletions.len(), |i: int| deletions[i]@)
}

/// The deletion of the entity `id`: of a super entity below a file, of a
/// sub entity below another entity.
pub open spec fn entity_deletion(id: Seq<char>, is_super: bool) -> DeletionView {
    DeletionView {
        id,
        request: if is_super {
            RequestView::DeleteSuperEntity { entity_id: id }
        } else {
            RequestView::DeleteSubEntity { entity_id: id }
        },
    }
}

/// The deletions of the entities `ids`, in their order.
pub open spec fn entity_deletions(ids: Seq<Seq<char>>, is_super: bool) -> Seq<DeletionView> {
    Seq::new(ids.len(), |i: int| entity_deletion(ids[i], is_super))
}

/// The deletion of the file that a listing names.
pub open spec fn file_deletion(file: IndexedView) -> DeletionView {
    DeletionView { id: file.id, request: RequestView::DeleteFile { file_id: file.id } }
}

/// The deletions of the files that a listing names, in its order.
pub open spec fn file_deletions(files: Seq<IndexedView>) -> Seq<DeletionView> {
    Seq::new(files.len(), |i: int| file_deletion(files[i]))
}

/// What deletions hold, or why there are none.
pub open spec fn deletions_result(found: Result<Vec<Deletion>, IndexError>) -> Result<
    Seq<DeletionView>,
    IndexError,
> {
    match found {
        Ok(d) => Ok(deletion_views(d@)),
        Err(e) => Err(e),
    }
}

/// The request that lists the entities directly below a file (`is_super`)
/// or below an entity.
pub fn list_entities(parent_id: &str, is_super: bool) -> (request: StoreRequest)
    ensures
        request@ == if is_super {
            RequestView::GetFileEntities { file_id: parent_id@ }
        } else {
            RequestView::GetSubEntities { entity_id: parent_id@ }
        },
{
    if is_super {
        StoreRequest::GetFileEntities(getFileEntitiesInput { file_id: parent_id.to_owned() })
    } else {
        StoreRequest::GetSubEntities(getSubEntitiesInput { entity_id: parent_id.to_owned() })
    }
}

/// Plans the deletion of the entities that a reply lists below a file
/// (`is_super`) or below an entity. For each entity the driver first
/// deletes what lies below it, as sub entities, then sends its request. A
/// reply that cannot be read fails, and nothing is deleted.
pub fn delete_entities(reply: &Json, is_super: bool) -> (found: Result<Vec<Deletion>, IndexError>)
    ensures
        deletions_result(found) == match entity_ids_of(reply@, is_super) {
            Ok(ids) => Ok(entity_deletions(ids, is_super)),
            Err(e) => Err(e),
        },
{
    let ids = match get_entity_ids(reply, is_super) {
        Ok(ids) => ids,
        Err(e) => { return Err(e); },
    };
    let mut deletions: Vec<Deletion> = Vec::new();
    let mut i: usize = 0;
    while i < ids.len()
        invariant
            i <= ids.len(),
            deletions@.len() == i,
            forall|j: int|
                0 <= j < i ==> (#[trigger] deletions@[j])@ == entity_deletion(
                    ids.deep_view()[j],
                    is_super,
                ),
        decreases ids.len() - i,
    {
        let id = &ids[i];
        let request = if is_super {
            StoreRequest::DeleteSuperEntity(deleteSuperEntityInput { entity_id: id.clone() })
        } else {
            StoreRequest::DeleteSubEntity(deleteSubEntityInput { entity_id: id.clone() })
        };
        deletions.push(Deletion { id: id.clone(), request });
        i += 1;
    }
    assert(deletion_views(deletions@) =~= entity_deletions(ids.deep_view(), is_super));
    Ok(deletions)
}

/// Plans the deletion of files: for each the driver sends its request and
/// then deletes the entities below it, as super entities.
pub fn delete_files(files: &Vec<Indexed>) -> (deletions: Vec<Deletion>)
    ensures
        deletion_views(deletions@) == file_deletions(indexed_views(files@)),
{
    let mut deletions: Vec<Deletion> = Vec::new();
    let mut i: usize = 0;
    while i < files.len()
        invariant
            i <= files.len(),
            deletions@.len() == i,
            forall|j: int|
                0 <= j < i ==> (#[trigger] deletions@[j])@ == file_deletion(files@[j]@),
        decreases files.len() - i,
    {
        let id = &files[i].id;
        let request = StoreRequest::DeleteFile(deleteFileInput { file_id: id.clone() });
        deletions.push(Deletion { id: id.clone(), request });
        i += 1;
    }
    assert(deletion_views(deletions@) =~= file_deletions(indexed_views(files@)));
    deletions
}

/// A node of the store whose entities are to be deleted: a file, whose
/// entities are super entities, or an entity, in which sub entities are
/// nested.
#[derive(Clone, Debug, PartialEq, Eq)]
pub struct Owner {
    pub id: String,
    pub is_file: bool,
}

/// The entities directly below the node of a deletion are direct children
/// of a file: that is so below a file, and below nothing else.
pub open spec fn below_a_file(request: RequestView) -> bool {
    request is DeleteFile
}

impl Deletion {
    /// The node of this deletion as the owner of what lies directly below
    /// it: the step that follows wherever a file or an entity is deleted. The
    /// entities below a file are super entities; those below an entity are
    /// not.
    pub fn owner(&self) -> (owner: Owner)
        ensures
            owner.id@ == self.id@,
            owner.is_file == below_a_file(self.request@),
    {
        match &self.request {
            StoreRequest::DeleteFile(_) => Owner { id: self.id.clone(), is_file: true },
            _ => Owner { id: self.id.clone(), is_file: false },
        }
    }
}

impl Owner {
    /// The owner that is the file `file_id`.
    pub fn file(file_id: &str) -> (owner: Owner)
        ensures
            owner.id@ == file_id@,
            owner.is_file,
    {
        Owner { id: file_id.to_owned(), is_file: true }
    }

    /// The request that lists the entities directly below this node.
    pub fn list(&self) -> (request: StoreRequest)
        ensures
            request@ == if self.is_file {
                RequestView::GetFileEntities { file_id: self.id@ }
            } else {
                RequestView::GetSubEntities { entity_id: self.id@ }
            },
    {
        list_entities(self.id.as_str(), self.is_file)
    }

    /// Plans the deletion of the entities directly below this node from
    /// the reply to `list`.
    pub fn delete_entities(&self, reply: &Json) -> (found: Result<Vec<Deletion>, IndexError>)
        ensures
            deletions_result(found) == match entity_ids_of(reply@, self.is_file) {
                Ok(ids) => Ok(entity_deletions(ids, self.is_file)),
                Err(e) => Err(e),
            },
    {
        delete_entities(reply, self.is_file)
    }
}

/// Plans the deletion of a folder from the replies to the two requests that
/// list what lies inside it. A reply that cannot be read fails the deletion
/// of the folder, the listing of the folders first.
pub fn delete_listed_folder(folder_id: &str, folders_reply: &Json, files_reply: &Json) -> (plan:
    Result<FolderDeletion, IndexError>)
    ensures
        match plan {
            Ok(p) => {
                &&& folders_in(folders_reply@, false) is Ok
                &&& files_in(files_reply@, false) is Ok
                &&& p@ == (FolderDeletionView {
                    subfolders: unseen(
                        folders_in(folders_reply@, false)->Ok_0,
                        Seq::<EntryView>::empty(),
                    ),
                    files: file_deletions(
                        unseen(files_in(files_reply@, false)->Ok_0, Seq::<EntryView>::empty()),
                    ),
                    request: RequestView::DeleteFolder { folder_id: folder_id@ },
                })
            },
            Err(e) => match folders_in(folders_reply@, false) {
                Err(first) => e == first,
                Ok(_) => files_in(files_reply@, false) == Err::<Seq<IndexedView>, IndexError>(e),
            },
        },
{
    let subfolders = match get_folders(folders_reply, false) {
        Ok(folders) => folders,
        Err(e) => { return Err(e); },
    };
    let files = match get_files(files_reply, false) {
        Ok(files) => files,
        Err(e) => { return Err(e); },
    };
    Ok(delete_folder(folder_id, &subfolders, &files))
}

/// What the deletion of a folder comes to: the folders inside it, each of
/// which is deleted in the same way first; the files inside it; and the
/// request that deletes the folder itself at the end.
#[derive(Debug, PartialEq, Eq)]
pub struct FolderDeletion {
    pub subfolders: Vec<Indexed>,
    pub files: Vec<Deletion>,
    pub request: StoreRequest,
}

/// What a `FolderDeletion` holds.
pub struct FolderDeletionView {
    pub subfolders: Seq<IndexedView>,
    pub files: Seq<DeletionView>,
    pub request: RequestView,
}

impl View for FolderDeletion {
    type V = FolderDeletionView;

    open spec fn view(&self) -> FolderDeletionView {
        FolderDeletionView {
            subfolders: indexed_views(self.subfolders@),
            files: deletion_views(self.files@),
            request: self.request@,
        }
    }
}

/// Plans the deletion of the folder `folder_id` from the listings of the
/// folders and files inside it: everything that is listed goes, each name
/// once.
pub fn delete_folder(folder_id: &str, subfolders: &Vec<Indexed>, files: &Vec<Indexed>) -> (plan:
    FolderDeletion)
    ensures
        plan@ == (FolderDeletionView {
            subfolders: unseen(indexed_views(subfolders@), Seq::<EntryView>::empty()),
            files: file_deletions(unseen(indexed_views(files@), Seq::<EntryView>::empty())),
            request: RequestView::DeleteFolder { folder_id: folder_id@ },
        }),
{
    let nothing: Vec<DirEntry> = Vec::new();
    assert(crate::ingestion::entry_views(nothing@) =~= Seq::<EntryView>::empty());
    let listed_folders = unseen_entries(subfolders, &nothing);
    let listed_files = unseen_entries(files, &nothing);
    let file_plan = delete_files(&listed_files);
    FolderDeletion {
        subfolders: listed_folders,
        files: file_plan,
        request: StoreRequest::DeleteFolder(deleteFolderInput { folder_id: folder_id.to_owned() }),
    }
}

/// An entity as the store holds it, with the entities nested in it.
pub struct StoredEntity {
    pub id: Seq<char>,
    pub children: Seq<StoredEntity>,
}

/// The identifiers that the store lists for a group of entities.
pub open spec fn ids_of(entities: Seq<StoredEntity>) -> Seq<Seq<char>> {
    Seq::new(entities.len(), |i: int| entities[i].id)
}

/// The requests that the cascade sends for the entities below one node,
/// when the store lists for each node the entities directly below it: for
/// each entity first the requests for what is nested in it, then the request
/// that deletes the entity itself.
pub open spec fn cascade(entities: Seq<StoredEntity>, is_super: bool) -> Seq<RequestView>
    decreases entities,
{
    if entities.len() == 0 {
        Seq::empty()
    } else {
        cascade(entities.drop_last(), is_super) + cascade(entities.last().children, false).push(
            entity_deletions(ids_of(entities), is_super)[entities.len() - 1].request,
        )
    }
}

/// The entity `id` is one of `entities` or is nested in one of them, at
/// whatever depth.
pub open spec fn holds_entity(entities: Seq<StoredEntity>, id: Seq<char>) -> bool
    decreases entities,
{
    entities.len() > 0 && (holds_entity(entities.drop_last(), id) || entities.last().id == id
        || holds_entity(entities.last().children, id))
}

/// The request that deletes the entity `id`, of whichever kind.
pub open spec fn deletes_entity(request: RequestView, id: Seq<char>) -> bool {
    request == (RequestView::DeleteSuperEntity { entity_id: id }) || request == (
    RequestView::DeleteSubEntity { entity_id: id })
}

/// After the deletion of a file no entity below it is left: the cascade
/// sends a request that deletes it for every entity below the file, at
/// whatever depth it is nested.
pub proof fn cascade_deletes_every_entity(entities: Seq<StoredEntity>, is_super: bool, id: Seq<char>)
    requires
        holds_entity(entities, id),
    ensures
        exists|k: int|
            0 <= k < cascade(entities, is_super).len() && deletes_entity(
                #[trigger] cascade(entities, is_super)[k],
                id,
            ),
    decreases entities,
{
    let before = cascade(entities.drop_last(), is_super);
    let nested = cascade(entities.last().children, false);
    let all = cascade(entities, is_super);
    let own = entity_deletions(ids_of(entities), is_super)[entities.len() - 1].request;
    assert(all == before + nested.push(own));
    if holds_entity(entities.drop_last(), id) {
        cascade_deletes_every_entity(entities.drop_last(), is_super, id);
        let k = choose|k: int| 0 <= k < before.len() && deletes_entity(#[trigger] before[k], id);
        assert(all[k] == before[k]);
    } else if entities.last().id == id {
        let k = (before.len() + nested.len()) as int;
        assert(all[k] == own);
        assert(deletes_entity(all[k], id));
    } else {
        cascade_deletes_every_entity(entities.last().children, false, id);
        let j = choose|j: int| 0 <= j < nested.len() && deletes_entity(#[trigger] nested[j], id);
        let k = (before.len() + j) as int;
        assert(all[k] == nested[j]);
    }
}

/// The entities directly below a deleted file are asked for as super
/// entities, and those nested deeper as sub entities: each listed entity has
/// a deletion of its own, at its position in the listing.
pub proof fn every_listed_entity_is_deleted(reply: JsonView, is_super: bool, position: int)
    requires
        entity_ids_of(reply, is_super) is Ok,
        0 <= position < entity_ids_of(reply, is_super)->Ok_0.len(),
    ensures
        ({
            let ids = entity_ids_of(reply, is_super)->Ok_0;
            let plan = entity_deletions(ids, is_super);
            &&& plan.len() == ids.len()
            &&& plan[position] == entity_deletion(ids[position], is_super)
            &&& deletes_entity(plan[position].request, ids[position])
        }),
{
}

} // verus!
