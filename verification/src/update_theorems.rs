//! What holds of every reconciliation that the update makes.
use vstd::prelude::*;
use crate::ingestion::{left_out, ActionView, EntryKind, EntryView};
use crate::replies::IndexedView;
use crate::updater::{
    gone, last_named, on_disk, out_of_date, reconciled, superseded, unseen, unseen_upto,
    update_action, update_actions, ReconciliationView,
};

verus! {

/// The names that a listing holds.
pub open spec fn names_of(listing: Seq<IndexedView>) -> Set<Seq<char>> {
    Set::new(|name: Seq<char>| exists|k: int| 0 <= k < listing.len() && (#[trigger] listing[k]).name == name)
}

/// The names of the entries of kind `kind` that the walk does not leave
/// out.
pub open spec fn names_on_disk(entries: Seq<EntryView>, kind: EntryKind) -> Set<Seq<char>> {
    Set::new(
        |name: Seq<char>|
            exists|i: int|
                0 <= i < entries.len() && (#[trigger] entries[i]).kind == kind && !left_out(
                    entries[i],
                ) && entries[i].name == name,
    )
}

/// The names of the folders indexed below a node once a reconciliation has
/// been carried out: those that were indexed and are not deleted, and those
/// that are created.
pub open spec fn folders_after(
    folders: Seq<IndexedView>,
    entries: Seq<EntryView>,
    plan: ReconciliationView,
) -> Set<Seq<char>> {
    Set::new(
        |name: Seq<char>|
            (names_of(folders).contains(name) && !names_of(plan.unseen_folders).contains(name))
                || (exists|i: int|
                0 <= i < entries.len() && i < plan.actions.len() && (#[trigger] plan.actions[i])
                    is CreateFolder && entries[i].name == name),
    )
}

/// The names of the files indexed below a node once a reconciliation has
/// been carried out: those that were indexed and are not deleted, and those
/// that are ingested.
pub open spec fn files_after(
    files: Seq<IndexedView>,
    entries: Seq<EntryView>,
    plan: ReconciliationView,
) -> Set<Seq<char>> {
    Set::new(
        |name: Seq<char>|
            (names_of(files).contains(name) && !names_of(plan.unseen_files).contains(name))
                || (exists|i: int|
                0 <= i < entries.len() && i < plan.actions.len() && (#[trigger] plan.actions[i])
                    is ProcessFile && entries[i].name == name),
    )
}

/// No name of the listing belongs to an entry of another kind than `kind`.
pub open spec fn kinds_agree(listing: Seq<IndexedView>, entries: Seq<EntryView>, kind: EntryKind) -> bool {
    forall|k: int, i: int|
        0 <= k < listing.len() && 0 <= i < entries.len() && !left_out(#[trigger] entries[i]) && (
        #[trigger] listing[k]).name == entries[i].name ==> entries[i].kind == kind
}

/// Where the actions of an update are made, there is one for each entry,
/// and it is the action for that entry.
pub proof fn update_actions_positions(
    entries: Seq<EntryView>,
    parent_id: Seq<char>,
    is_super: bool,
    folders: Seq<IndexedView>,
    files: Seq<IndexedView>,
    interval: u64,
)
    requires
        update_actions(entries, parent_id, is_super, folders, files, interval) is Ok,
    ensures
        ({
            let actions = update_actions(
                entries,
                parent_id,
                is_super,
                folders,
                files,
                interval,
            )->Ok_0;
            &&& actions.len() == entries.len()
            &&& forall|i: int|
                0 <= i < entries.len() ==> update_action(
                    #[trigger] entries[i],
                    parent_id,
                    is_super,
                    folders,
                    files,
                    interval,
                ) == Ok::<ActionView, crate::error::IndexError>(actions[i])
        }),
    decreases entries.len(),
{
    if entries.len() > 0 {
        let before = entries.drop_last();
        update_actions_positions(before, parent_id, is_super, folders, files, interval);
        let actions = update_actions(entries, parent_id, is_super, folders, files, interval)->Ok_0;
        assert forall|i: int| 0 <= i < entries.len() implies update_action(
            #[trigger] entries[i],
            parent_id,
            is_super,
            folders,
            files,
            interval,
        ) == Ok::<ActionView, crate::error::IndexError>(actions[i]) by {
            if i < entries.len() - 1 {
                assert(before[i] == entries[i]);
            } else {
                assert(entries[i] == entries.last());
            }
        }
    }
}

/// What a listing holds under a name is its last item of that name, and it
/// holds nothing under a name that none of its items has.
pub proof fn last_named_is_last(listing: Seq<IndexedView>, name: Seq<char>)
    ensures
        match last_named(listing, name) {
            None => forall|k: int| 0 <= k < listing.len() ==> (#[trigger] listing[k]).name != name,
            Some(item) => exists|k: int|
                0 <= k < listing.len() && #[trigger] listing[k] == item && item.name == name
                    && !superseded(listing, k),
        },
    decreases listing.len(),
{
    if listing.len() > 0 {
        let before = listing.drop_last();
        if listing.last().name == name {
            let k = listing.len() - 1;
            assert(listing[k] == listing.last());
            assert(!superseded(listing, k));
        } else {
            last_named_is_last(before, name);
            match last_named(before, name) {
                None => {
                    assert forall|k: int| 0 <= k < listing.len() implies (#[trigger] listing[k]).name
                        != name by {
                        if k < listing.len() - 1 {
                            assert(before[k] == listing[k]);
                        }
                    }
                },
                Some(item) => {
                    let k = choose|k: int|
                        0 <= k < before.len() && #[trigger] before[k] == item && item.name == name
                            && !superseded(before, k);
                    assert(listing[k] == item);
                    assert(!superseded(listing, k)) by {
                        if superseded(listing, k) {
                            let j = choose|j: int|
                                k < j < listing.len() && (#[trigger] listing[j]).name
                                    == listing[k].name;
                            if j < listing.len() - 1 {
                                assert(before[j] == listing[j]);
                                assert(superseded(before, k));
                            }
                        }
                    }
                },
            }
        }
    }
}

/// `item` is one of the first `n` items of the listing, and it has gone.
pub open spec fn is_gone_item(
    listing: Seq<IndexedView>,
    entries: Seq<EntryView>,
    n: int,
    item: IndexedView,
) -> bool {
    exists|k: int| 0 <= k < n && gone(listing, k, entries) && #[trigger] listing[k] == item
}

/// The unseen items of a listing are its items that have gone, and no
/// others.
pub proof fn unseen_are_the_gone(listing: Seq<IndexedView>, entries: Seq<EntryView>, n: int)
    requires
        0 <= n <= listing.len(),
    ensures
        forall|k: int|
            0 <= k < n && gone(listing, k, entries) ==> unseen_upto(listing, entries, n).contains(
                #[trigger] listing[k],
            ),
        forall|j: int|
            0 <= j < unseen_upto(listing, entries, n).len() ==> is_gone_item(
                listing,
                entries,
                n,
                #[trigger] unseen_upto(listing, entries, n)[j],
            ),
    decreases n,
{
    if n > 0 {
        unseen_are_the_gone(listing, entries, n - 1);
        let before = unseen_upto(listing, entries, n - 1);
        let now = unseen_upto(listing, entries, n);
        assert forall|k: int| 0 <= k < n && gone(listing, k, entries) implies now.contains(
            #[trigger] listing[k],
        ) by {
            if k < n - 1 {
                let j = choose|j: int| 0 <= j < before.len() && before[j] == listing[k];
                assert(now[j] == listing[k]);
            } else {
                assert(now[now.len() - 1] == listing[k]);
            }
        }
        assert forall|j: int| 0 <= j < now.len() implies is_gone_item(
            listing,
            entries,
            n,
            #[trigger] now[j],
        ) by {
            if j < before.len() {
                assert(is_gone_item(listing, entries, n - 1, before[j]));
                let k = choose|k: int|
                    0 <= k < n - 1 && gone(listing, k, entries) && #[trigger] listing[k]
                        == before[j];
                assert(listing[k] == now[j]);
            } else {
                assert(listing[n - 1] == now[j]);
            }
        }
    }
}

/// A name that the listing holds and that is not on disk is the name of an
/// unseen item; a name that is on disk is the name of none.
proof fn unseen_names(listing: Seq<IndexedView>, entries: Seq<EntryView>, name: Seq<char>)
    ensures
        names_of(unseen(listing, entries)).contains(name) <==> (names_of(listing).contains(name)
            && !on_disk(entries, name)),
{
    let found = unseen(listing, entries);
    unseen_are_the_gone(listing, entries, listing.len() as int);
    last_named_is_last(listing, name);
    if names_of(found).contains(name) {
        let j = choose|j: int| 0 <= j < found.len() && (#[trigger] found[j]).name == name;
        assert(is_gone_item(listing, entries, listing.len() as int, found[j]));
        let k = choose|k: int|
            0 <= k < listing.len() && gone(listing, k, entries) && #[trigger] listing[k]
                == found[j];
        assert(listing[k].name == name);
    }
    if names_of(listing).contains(name) && !on_disk(entries, name) {
        let w = choose|k: int| 0 <= k < listing.len() && (#[trigger] listing[k]).name == name;
        assert(last_named(listing, name) is Some);
        let item = last_named(listing, name)->Some_0;
        let k = choose|k: int|
            0 <= k < listing.len() && #[trigger] listing[k] == item && item.name == name
                && !superseded(listing, k);
        assert(gone(listing, k, entries));
        assert(found.contains(listing[k]));
        let j = choose|j: int| 0 <= j < found.len() && found[j] == listing[k];
        assert(found[j].name == name);
    }
}

/// After a successful update, the folders indexed directly below a node
/// are the directories on disk, name for name. This is stated for a
/// directory in which no indexed folder shares its name with an entry that
/// is no directory.
pub proof fn indexed_folders_match_the_disk(
    entries: Seq<EntryView>,
    parent_id: Seq<char>,
    is_super: bool,
    folders: Seq<IndexedView>,
    files: Seq<IndexedView>,
    interval: u64,
)
    requires
        reconciled(entries, parent_id, is_super, folders, files, interval) is Ok,
        kinds_agree(folders, entries, EntryKind::Directory),
    ensures
        folders_after(
            folders,
            entries,
            reconciled(entries, parent_id, is_super, folders, files, interval)->Ok_0,
        ) =~= names_on_disk(entries, EntryKind::Directory),
{
    let plan = reconciled(entries, parent_id, is_super, folders, files, interval)->Ok_0;
    update_actions_positions(entries, parent_id, is_super, folders, files, interval);
    let after = folders_after(folders, entries, plan);
    let disk = names_on_disk(entries, EntryKind::Directory);
    assert forall|name: Seq<char>| after.contains(name) <==> disk.contains(name) by {
        unseen_names(folders, entries, name);
        last_named_is_last(folders, name);
        if after.contains(name) {
            if names_of(folders).contains(name) && !names_of(plan.unseen_folders).contains(name) {
                let k = choose|k: int| 0 <= k < folders.len() && (#[trigger] folders[k]).name == name;
                let i = choose|i: int|
                    0 <= i < entries.len() && !left_out(#[trigger] entries[i])
                        && entries[i].name == name;
                assert(entries[i].kind == EntryKind::Directory);
            } else {
                let i = choose|i: int|
                    0 <= i < entries.len() && i < plan.actions.len() && (#[trigger] plan.actions[i])
                        is CreateFolder && entries[i].name == name;
                assert(update_action(entries[i], parent_id, is_super, folders, files, interval)
                    == Ok::<ActionView, crate::error::IndexError>(plan.actions[i]));
                assert(entries[i].kind == EntryKind::Directory && !left_out(entries[i]));
            }
        }
        if disk.contains(name) {
            let i = choose|i: int|
                0 <= i < entries.len() && (#[trigger] entries[i]).kind == EntryKind::Directory
                    && !left_out(entries[i]) && entries[i].name == name;
            assert(update_action(entries[i], parent_id, is_super, folders, files, interval)
                == Ok::<ActionView, crate::error::IndexError>(plan.actions[i]));
            assert(on_disk(entries, name));
            match last_named(folders, name) {
                Some(folder) => {
                    let k = choose|k: int|
                        0 <= k < folders.len() && #[trigger] folders[k] == folder && folder.name
                            == name && !superseded(folders, k);
                    assert(names_of(folders).contains(name));
                },
                None => {
                    assert(plan.actions[i] is CreateFolder);
                },
            }
        }
    }
}

/// After a successful update, the files indexed directly below a node are
/// the files on disk, name for name. This is stated for a directory in
/// which no indexed file shares its name with an entry that is no file.
pub proof fn indexed_files_match_the_disk(
    entries: Seq<EntryView>,
    parent_id: Seq<char>,
    is_super: bool,
    folders: Seq<IndexedView>,
    files: Seq<IndexedView>,
    interval: u64,
)
    requires
        reconciled(entries, parent_id, is_super, folders, files, interval) is Ok,
        kinds_agree(files, entries, EntryKind::File),
    ensures
        files_after(
            files,
            entries,
            reconciled(entries, parent_id, is_super, folders, files, interval)->Ok_0,
        ) =~= names_on_disk(entries, EntryKind::File),
{
    let plan = reconciled(entries, parent_id, is_super, folders, files, interval)->Ok_0;
    update_actions_positions(entries, parent_id, is_super, folders, files, interval);
    let after = files_after(files, entries, plan);
    let disk = names_on_disk(entries, EntryKind::File);
    assert forall|name: Seq<char>| after.contains(name) <==> disk.contains(name) by {
        unseen_names(files, entries, name);
        last_named_is_last(files, name);
        if after.contains(name) {
            if names_of(files).contains(name) && !names_of(plan.unseen_files).contains(name) {
                let k = choose|k: int| 0 <= k < files.len() && (#[trigger] files[k]).name == name;
                let i = choose|i: int|
                    0 <= i < entries.len() && !left_out(#[trigger] entries[i])
                        && entries[i].name == name;
                assert(entries[i].kind == EntryKind::File);
            } else {
                let i = choose|i: int|
                    0 <= i < entries.len() && i < plan.actions.len() && (#[trigger] plan.actions[i])
                        is ProcessFile && entries[i].name == name;
                assert(update_action(entries[i], parent_id, is_super, folders, files, interval)
                    == Ok::<ActionView, crate::error::IndexError>(plan.actions[i]));
                assert(entries[i].kind == EntryKind::File && !left_out(entries[i]));
            }
        }
        if disk.contains(name) {
            let i = choose|i: int|
                0 <= i < entries.len() && (#[trigger] entries[i]).kind == EntryKind::File
                    && !left_out(entries[i]) && entries[i].name == name;
            assert(update_action(entries[i], parent_id, is_super, folders, files, interval)
                == Ok::<ActionView, crate::error::IndexError>(plan.actions[i]));
            assert(on_disk(entries, name));
            match last_named(files, name) {
                Some(file) => {
                    let k = choose|k: int|
                        0 <= k < files.len() && #[trigger] files[k] == file && file.name == name
                            && !superseded(files, k);
                    assert(names_of(files).contains(name));
                },
                None => {
                    assert(plan.actions[i] is ProcessFile);
                },
            }
        }
    }
}

/// Every entry of the directory is indexed and up to date: each directory
/// is an indexed folder, and each file is an indexed file that was
/// extracted no more than `interval` seconds before it was last modified.
pub open spec fn up_to_date(
    entries: Seq<EntryView>,
    folders: Seq<IndexedView>,
    files: Seq<IndexedView>,
    interval: u64,
) -> bool {
    forall|i: int|
        0 <= i < entries.len() && !left_out(#[trigger] entries[i]) ==> match entries[i].kind {
            EntryKind::Directory => last_named(folders, entries[i].name) is Some,
            EntryKind::File => last_named(files, entries[i].name) matches Some(file)
                && out_of_date(entries[i].modified, file.extracted_at, interval) == Ok::<
                bool,
                crate::error::IndexError,
            >(false),
            EntryKind::Other => true,
        }
}

/// The update of a directory whose entries are all indexed and up to date
/// succeeds.
proof fn up_to_date_update_succeeds(
    entries: Seq<EntryView>,
    parent_id: Seq<char>,
    is_super: bool,
    folders: Seq<IndexedView>,
    files: Seq<IndexedView>,
    interval: u64,
)
    requires
        up_to_date(entries, folders, files, interval),
    ensures
        update_actions(entries, parent_id, is_super, folders, files, interval) is Ok,
    decreases entries.len(),
{
    if entries.len() > 0 {
        let before = entries.drop_last();
        assert forall|i: int|
            0 <= i < before.len() && !left_out(#[trigger] before[i]) implies match before[i].kind {
            EntryKind::Directory => last_named(folders, before[i].name) is Some,
            EntryKind::File => last_named(files, before[i].name) matches Some(file)
                && out_of_date(before[i].modified, file.extracted_at, interval) == Ok::<
                bool,
                crate::error::IndexError,
            >(false),
            EntryKind::Other => true,
        } by {
            assert(before[i] == entries[i]);
        }
        up_to_date_update_succeeds(before, parent_id, is_super, folders, files, interval);
        let last = entries[entries.len() - 1];
        assert(last == entries.last());
        assert(update_action(last, parent_id, is_super, folders, files, interval) is Ok);
    }
}

/// Updating a tree that has not changed creates nothing: where every
/// entry of a directory is indexed and up to date, the update succeeds and
/// each of its actions either leaves the entry alone or descends into a
/// folder that is indexed. No folder is created and no file is ingested, so
/// no entity is created either.
pub proof fn unchanged_directory_creates_nothing(
    entries: Seq<EntryView>,
    parent_id: Seq<char>,
    is_super: bool,
    folders: Seq<IndexedView>,
    files: Seq<IndexedView>,
    interval: u64,
)
    requires
        up_to_date(entries, folders, files, interval),
    ensures
        reconciled(entries, parent_id, is_super, folders, files, interval) is Ok,
        ({
            let plan = reconciled(entries, parent_id, is_super, folders, files, interval)->Ok_0;
            &&& plan.actions.len() == entries.len()
            &&& forall|i: int|
                0 <= i < entries.len() ==> (#[trigger] plan.actions[i]) is Skip
                    || plan.actions[i] is UpdateFolder
        }),
{
    up_to_date_update_succeeds(entries, parent_id, is_super, folders, files, interval);
    update_actions_positions(entries, parent_id, is_super, folders, files, interval);
    let plan = reconciled(entries, parent_id, is_super, folders, files, interval)->Ok_0;
    assert forall|i: int| 0 <= i < entries.len() implies (#[trigger] plan.actions[i]) is Skip
        || plan.actions[i] is UpdateFolder by {
        assert(update_action(entries[i], parent_id, is_super, folders, files, interval) == Ok::<
            ActionView,
            crate::error::IndexError,
        >(plan.actions[i]));
    }
}

/// An update that follows an update changes nothing. Once the index
/// agrees with the disk, so that every entry is indexed and up to date and
/// every indexed name is on disk, the next update creates nothing, ingests
/// nothing again and deletes nothing.
pub proof fn update_of_a_reconciled_directory_changes_nothing(
    entries: Seq<EntryView>,
    parent_id: Seq<char>,
    is_super: bool,
    folders: Seq<IndexedView>,
    files: Seq<IndexedView>,
    interval: u64,
)
    requires
        up_to_date(entries, folders, files, interval),
        forall|k: int| 0 <= k < folders.len() ==> on_disk(entries, (#[trigger] folders[k]).name),
        forall|k: int| 0 <= k < files.len() ==> on_disk(entries, (#[trigger] files[k]).name),
    ensures
        reconciled(entries, parent_id, is_super, folders, files, interval) is Ok,
        ({
            let plan = reconciled(entries, parent_id, is_super, folders, files, interval)->Ok_0;
            &&& plan.unseen_folders.len() == 0
            &&& plan.unseen_files.len() == 0
            &&& forall|i: int|
                0 <= i < entries.len() ==> (#[trigger] plan.actions[i]) is Skip
                    || plan.actions[i] is UpdateFolder
        }),
{
    unchanged_directory_creates_nothing(entries, parent_id, is_super, folders, files, interval);
    unseen_are_the_gone(folders, entries, folders.len() as int);
    unseen_are_the_gone(files, entries, files.len() as int);
    let plan = reconciled(entries, parent_id, is_super, folders, files, interval)->Ok_0;
    if plan.unseen_folders.len() > 0 {
        assert(is_gone_item(folders, entries, folders.len() as int, plan.unseen_folders[0]));
        let k = choose|k: int|
            0 <= k < folders.len() && gone(folders, k, entries) && #[trigger] folders[k]
                == plan.unseen_folders[0];
        assert(on_disk(entries, folders[k].name));
    }
    if plan.unseen_files.len() > 0 {
        assert(is_gone_item(files, entries, files.len() as int, plan.unseen_files[0]));
        let k = choose|k: int|
            0 <= k < files.len() && gone(files, k, entries) && #[trigger] files[k]
                == plan.unseen_files[0];
        assert(on_disk(entries, files[k].name));
    }
}

/// No two entries of the directory have the same name.
pub open spec fn distinct_names(entries: Seq<EntryView>) -> bool {
    forall|i: int, j: int|
        0 <= i < entries.len() && 0 <= j < entries.len() && i != j ==> (#[trigger] entries[i]).name
            != (#[trigger] entries[j]).name
}

/// What the store holds below a node once it has carried out a
/// reconciliation at the time `now`: the folders and the files of the
/// listings `folders_then` and `files_then`.
///
/// The names are those that `folders_after` and `files_after` give. A file
/// that the reconciliation left alone is listed as before, and every other
/// file, ingested or ingested again, was extracted at `now`.
pub open spec fn carried_out(
    entries: Seq<EntryView>,
    folders: Seq<IndexedView>,
    files: Seq<IndexedView>,
    plan: ReconciliationView,
    now: Seq<char>,
    folders_then: Seq<IndexedView>,
    files_then: Seq<IndexedView>,
) -> bool {
    &&& names_of(folders_then) =~= folders_after(folders, entries, plan)
    &&& names_of(files_then) =~= files_after(files, entries, plan)
    &&& forall|k: int|
        0 <= k < files_then.len() && !superseded(files_then, k) ==> (
        #[trigger] files_then[k]).extracted_at == Some(now) || left_alone(
            entries,
            files,
            plan,
            files_then[k],
        )
}

/// The file `file` stands in the listing `files` under its name, and the
/// reconciliation skips the entry of that name.
pub open spec fn left_alone(
    entries: Seq<EntryView>,
    files: Seq<IndexedView>,
    plan: ReconciliationView,
    file: IndexedView,
) -> bool {
    last_named(files, file.name) == Some(file) && exists|i: int|
        0 <= i < entries.len() && i < plan.actions.len() && (#[trigger] entries[i]).name
            == file.name && entries[i].kind == EntryKind::File && plan.actions[i] is Skip
}

/// Running the update twice changes no more than running it once. Once
/// the store has carried out a first reconciliation at the time `now`, a
/// second one of the same directory creates nothing, ingests nothing again
/// and deletes nothing. This is stated for a directory whose entries have
/// names of their own and none of whose files was modified more than
/// `interval` seconds after `now`.
pub proof fn second_update_changes_nothing(
    entries: Seq<EntryView>,
    parent_id: Seq<char>,
    is_super: bool,
    folders: Seq<IndexedView>,
    files: Seq<IndexedView>,
    interval: u64,
    now: Seq<char>,
    folders_then: Seq<IndexedView>,
    files_then: Seq<IndexedView>,
)
    requires
        distinct_names(entries),
        forall|i: int|
            0 <= i < entries.len() && (#[trigger] entries[i]).kind == EntryKind::File
                ==> out_of_date(entries[i].modified, Some(now), interval) == Ok::<
                bool,
                crate::error::IndexError,
            >(false),
        reconciled(entries, parent_id, is_super, folders, files, interval) is Ok,
        carried_out(
            entries,
            folders,
            files,
            reconciled(entries, parent_id, is_super, folders, files, interval)->Ok_0,
            now,
            folders_then,
            files_then,
        ),
    ensures
        reconciled(entries, parent_id, is_super, folders_then, files_then, interval) is Ok,
        ({
            let again = reconciled(
                entries,
                parent_id,
                is_super,
                folders_then,
                files_then,
                interval,
            )->Ok_0;
            &&& again.unseen_folders.len() == 0
            &&& again.unseen_files.len() == 0
            &&& forall|i: int|
                0 <= i < entries.len() ==> (#[trigger] again.actions[i]) is Skip
                    || again.actions[i] is UpdateFolder
        }),
{
    let plan = reconciled(entries, parent_id, is_super, folders, files, interval)->Ok_0;
    update_actions_positions(entries, parent_id, is_super, folders, files, interval);
    assert forall|i: int|
        0 <= i < entries.len() && !left_out(#[trigger] entries[i]) implies match entries[i].kind {
        EntryKind::Directory => last_named(folders_then, entries[i].name) is Some,
        EntryKind::File => last_named(files_then, entries[i].name) matches Some(file)
            && out_of_date(entries[i].modified, file.extracted_at, interval) == Ok::<
            bool,
            crate::error::IndexError,
        >(false),
        EntryKind::Other => true,
    } by {
        let name = entries[i].name;
        assert(update_action(entries[i], parent_id, is_super, folders, files, interval) == Ok::<
            ActionView,
            crate::error::IndexError,
        >(plan.actions[i]));
        assert(on_disk(entries, name));
        match entries[i].kind {
            EntryKind::Directory => {
                unseen_names(folders, entries, name);
                last_named_is_last(folders, name);
                if last_named(folders, name) is Some {
                    let folder = last_named(folders, name)->Some_0;
                    let k = choose|k: int|
                        0 <= k < folders.len() && #[trigger] folders[k] == folder && folder.name
                            == name && !superseded(folders, k);
                    assert(names_of(folders).contains(name));
                } else {
                    assert(plan.actions[i] is CreateFolder);
                }
                assert(folders_after(folders, entries, plan).contains(name));
                assert(names_of(folders_then).contains(name));
                last_named_is_last(folders_then, name);
            },
            EntryKind::File => {
                unseen_names(files, entries, name);
                last_named_is_last(files, name);
                if last_named(files, name) is Some {
                    let file = last_named(files, name)->Some_0;
                    let k = choose|k: int|
                        0 <= k < files.len() && #[trigger] files[k] == file && file.name == name
                            && !superseded(files, k);
                    assert(names_of(files).contains(name));
                } else {
                    assert(plan.actions[i] is ProcessFile);
                }
                assert(files_after(files, entries, plan).contains(name));
                assert(names_of(files_then).contains(name));
                last_named_is_last(files_then, name);
                let file = last_named(files_then, name)->Some_0;
                let k = choose|k: int|
                    0 <= k < files_then.len() && #[trigger] files_then[k] == file && file.name
                        == name && !superseded(files_then, k);
                if file.extracted_at != Some(now) {
                    assert(left_alone(entries, files, plan, files_then[k]));
                    let j = choose|j: int|
                        0 <= j < entries.len() && j < plan.actions.len() && (
                        #[trigger] entries[j]).name == file.name && entries[j].kind
                            == EntryKind::File && plan.actions[j] is Skip;
                    assert(j == i);
                }
            },
            EntryKind::Other => {},
        }
    }
    assert forall|k: int| 0 <= k < folders_then.len() implies on_disk(
        entries,
        (#[trigger] folders_then[k]).name,
    ) by {
        let name = folders_then[k].name;
        assert(names_of(folders_then).contains(name));
        assert(folders_after(folders, entries, plan).contains(name));
        unseen_names(folders, entries, name);
        if !(names_of(folders).contains(name) && !names_of(plan.unseen_folders).contains(name)) {
            let i = choose|i: int|
                0 <= i < entries.len() && i < plan.actions.len() && (#[trigger] plan.actions[i])
                    is CreateFolder && entries[i].name == name;
            assert(update_action(entries[i], parent_id, is_super, folders, files, interval)
                == Ok::<ActionView, crate::error::IndexError>(plan.actions[i]));
            assert(!left_out(entries[i]));
        }
    }
    assert forall|k: int| 0 <= k < files_then.len() implies on_disk(
        entries,
        (#[trigger] files_then[k]).name,
    ) by {
        let name = files_then[k].name;
        assert(names_of(files_then).contains(name));
        assert(files_after(files, entries, plan).contains(name));
        unseen_names(files, entries, name);
        if !(names_of(files).contains(name) && !names_of(plan.unseen_files).contains(name)) {
            let i = choose|i: int|
                0 <= i < entries.len() && i < plan.actions.len() && (#[trigger] plan.actions[i])
                    is ProcessFile && entries[i].name == name;
            assert(update_action(entries[i], parent_id, is_super, folders, files, interval)
                == Ok::<ActionView, crate::error::IndexError>(plan.actions[i]));
            assert(!left_out(entries[i]));
        }
    }
    update_of_a_reconciled_directory_changes_nothing(
        entries,
        parent_id,
        is_super,
        folders_then,
        files_then,
        interval,
    );
}

} // verus!
