//! The listing of a directory: which of its children are shown, and in what
//! order.

use vstd::prelude::*;
use crate::entry::{shown_entry, Child, EntryView, FileEntry};
use crate::error::{kind_of, BridgeError, ErrorKind, ErrorView};
use crate::order::{
    key_before, key_tie, lemma_key_tie_is_equality, lex_before, lowercase, sort_key, KeyView,
    SortKey,
};
use crate::sorting::{
    is_stable_order, key_views, lemma_stable_order_unique, positions, stable_order,
};

verus! {

/// What came of reading a directory.
#[derive(Clone, Debug, PartialEq, Eq)]
pub enum DirectoryRead {
    /// No entry of the file system has the path.
    Missing,
    /// The path exists, but its children could not be enumerated; the text
    /// is the operating system's reason.
    Failed(String),
    /// The steps of the enumeration in the order in which they were made:
    /// each holds the child that it reached, or nothing where it failed.
    Listed(Vec<Option<Child>>),
}

/// The entries of a vector as mathematical values.
pub open spec fn entry_views(entries: Seq<FileEntry>) -> Seq<EntryView> {
    Seq::new(entries.len(), |i: int| entries[i]@)
}

/// The entries that an enumeration contributes, in the order of its steps:
/// one for each child whose metadata could be had, none for the others.
pub open spec fn visible_entries(steps: Seq<Option<Child>>) -> Seq<EntryView> {
    steps.filter_map(|step: Option<Child>| shown_entry(step))
}

/// What an entry is ordered by: whether it is a directory, and its name in
/// lower case.
pub open spec fn key_of(entry: EntryView) -> KeyView {
    KeyView { is_dir: entry.is_dir, folded: lowercase(entry.name) }
}

/// The keys of entries, place by place.
pub open spec fn keys_of(entries: Seq<EntryView>) -> Seq<KeyView> {
    Seq::new(entries.len(), |i: int| key_of(entries[i]))
}

/// The entries in the places that `order` names.
pub open spec fn arranged(entries: Seq<EntryView>, order: Seq<int>) -> Seq<EntryView> {
    Seq::new(order.len(), |a: int| entries[order[a]])
}

/// `shown` is the listing of the entries `found`: the same entries, each
/// once, in the stable sorted order of their keys.
pub open spec fn is_listing_of(shown: Seq<EntryView>, found: Seq<EntryView>) -> bool {
    exists|order: Seq<int>| #[trigger]
        is_stable_order(keys_of(found), order) && shown == arranged(found, order)
}

/// Entries have one listing and no other.
pub proof fn lemma_listing_unique(found: Seq<EntryView>, a: Seq<EntryView>, b: Seq<EntryView>)
    requires
        is_listing_of(a, found),
        is_listing_of(b, found),
    ensures
        a == b,
{
    let p = choose|order: Seq<int>| #[trigger]
        is_stable_order(keys_of(found), order) && a == arranged(found, order);
    let q = choose|order: Seq<int>| #[trigger]
        is_stable_order(keys_of(found), order) && b == arranged(found, order);
    lemma_stable_order_unique(keys_of(found), p, q);
}

/// In a listing every directory stands before every file; among
/// directories, and among files, names ascend when upper and lower case are
/// taken as the same; and each entry that was found is shown.
pub proof fn lemma_listing_is_ordered(found: Seq<EntryView>, shown: Seq<EntryView>)
    requires
        is_listing_of(shown, found),
    ensures
        shown.len() == found.len(),
        forall|i: int, j: int|
            #![trigger shown[i], shown[j]]
            0 <= i < j < shown.len() ==> (shown[j].is_dir ==> shown[i].is_dir),
        forall|i: int, j: int|
            #![trigger shown[i], shown[j]]
            0 <= i < j < shown.len() && shown[i].is_dir == shown[j].is_dir ==> !lex_before(
                lowercase(shown[j].name),
                lowercase(shown[i].name),
            ),
        forall|x: int| 0 <= x < found.len() ==> shown.contains(#[trigger] found[x]),
        forall|a: int| 0 <= a < shown.len() ==> found.contains(#[trigger] shown[a]),
{
    let order = choose|order: Seq<int>| #[trigger]
        is_stable_order(keys_of(found), order) && shown == arranged(found, order);
    let keys = keys_of(found);
    assert forall|i: int, j: int| 0 <= i < j < shown.len() implies !key_before(
        key_of(#[trigger] shown[j]),
        key_of(#[trigger] shown[i]),
    ) by {
        assert(!key_before(keys[order[j]], keys[order[i]]));
    }
    assert forall|x: int| 0 <= x < found.len() implies shown.contains(#[trigger] found[x]) by {
        assert(order.contains(x));
        let a = choose|a: int| 0 <= a < order.len() && order[a] == x;
        assert(shown[a] == found[x]);
    }
    assert forall|a: int| 0 <= a < shown.len() implies found.contains(#[trigger] shown[a]) by {
        assert(found[order[a]] == shown[a]);
    }
}

/// Entries that tie keep the order in which they were found: of two entries
/// that are both directories or both files and whose names differ at most in
/// case, the one found first is shown first.
pub proof fn lemma_listing_is_stable(found: Seq<EntryView>, shown: Seq<EntryView>, x: int, y: int)
    requires
        is_listing_of(shown, found),
        0 <= x < y < found.len(),
        found[x].is_dir == found[y].is_dir,
        lowercase(found[x].name) == lowercase(found[y].name),
    ensures
        exists|a: int, b: int|
            0 <= a < b < shown.len() && #[trigger] shown[a] == found[x] && #[trigger] shown[b]
                == found[y],
{
    let order = choose|order: Seq<int>| #[trigger]
        is_stable_order(keys_of(found), order) && shown == arranged(found, order);
    let keys = keys_of(found);
    assert(order.contains(x));
    assert(order.contains(y));
    let a = choose|a: int| 0 <= a < order.len() && order[a] == x;
    let b = choose|b: int| 0 <= b < order.len() && order[b] == y;
    lemma_key_tie_is_equality(keys[x], keys[y]);
    if b < a {
        assert(key_tie(keys[order[b]], keys[order[a]]));
        assert(order[b] < order[a]);
    }
    assert(shown[a] == found[x] && shown[b] == found[y]);
}

/// A step that contributes no entry leaves no trace: the entries are those
/// of the enumeration without that step.
pub proof fn lemma_silent_step_is_omitted(steps: Seq<Option<Child>>, k: int)
    requires
        0 <= k < steps.len(),
        shown_entry(steps[k]) is None,
    ensures
        visible_entries(steps.remove(k)) == visible_entries(steps),
    decreases steps.len(),
{
    if k == steps.len() - 1 {
        assert(steps.remove(k) =~= steps.drop_last());
    } else {
        lemma_silent_step_is_omitted(steps.drop_last(), k);
        assert(steps.remove(k).drop_last() =~= steps.drop_last().remove(k));
        assert(steps.remove(k).last() == steps.last());
    }
}

/// Every entry that is shown is that of a step whose child has metadata.
pub proof fn lemma_visible_entries_have_metadata(steps: Seq<Option<Child>>, i: int)
    requires
        0 <= i < visible_entries(steps).len(),
    ensures
        exists|k: int|
            0 <= k < steps.len() && #[trigger] shown_entry(steps[k]) == Some(
                visible_entries(steps)[i],
            ),
{
    let f = |step: Option<Child>| shown_entry(step);
    let entry = visible_entries(steps)[i];
    assert(steps.filter_map(f).contains(entry));
    steps.lemma_filter_map_contains(f, entry);
    let t = choose|t: Option<Child>| #[trigger] steps.contains(t) && f(t) == Some(entry);
    let k = choose|k: int| 0 <= k < steps.len() && steps[k] == t;
    assert(shown_entry(steps[k]) == Some(entry));
}

/// Every entry of a listing is that of a child whose metadata could be had.
pub proof fn lemma_listing_shows_children_with_metadata(
    steps: Seq<Option<Child>>,
    shown: Seq<EntryView>,
    a: int,
)
    requires
        is_listing_of(shown, visible_entries(steps)),
        0 <= a < shown.len(),
    ensures
        exists|k: int| 0 <= k < steps.len() && #[trigger] shown_entry(steps[k]) == Some(shown[a]),
{
    let found = visible_entries(steps);
    lemma_listing_is_ordered(found, shown);
    assert(found.contains(shown[a]));
    let i = choose|i: int| 0 <= i < found.len() && found[i] == shown[a];
    lemma_visible_entries_have_metadata(steps, i);
}

/// A child whose metadata could not be had, and a step that reached no
/// child, leave no trace in a listing: it is the listing of the enumeration
/// without that step.
pub proof fn lemma_listing_omits_silent_steps(
    steps: Seq<Option<Child>>,
    shown: Seq<EntryView>,
    k: int,
)
    requires
        is_listing_of(shown, visible_entries(steps)),
        0 <= k < steps.len(),
        shown_entry(steps[k]) is None,
    ensures
        is_listing_of(shown, visible_entries(steps.remove(k))),
{
    lemma_silent_step_is_omitted(steps, k);
}

/// The entries that an enumeration contributes.
fn collect_entries(steps: &Vec<Option<Child>>) -> (found: Vec<FileEntry>)
    ensures
        entry_views(found@) == visible_entries(steps@),
{
    let mut found: Vec<FileEntry> = Vec::new();
    let mut i: usize = 0;
    assert(entry_views(found@) =~= visible_entries(steps@.take(0)));
    while i < steps.len()
        invariant
            i <= steps.len(),
            entry_views(found@) == visible_entries(steps@.take(i as int)),
        decreases steps.len() - i,
    {
        let ghost before = found@;
        let ghost upto = steps@.take(i as int + 1);
        proof {
            assert(upto.drop_last() =~= steps@.take(i as int));
        }
        match &steps[i] {
            Some(child) => {
                match FileEntry::of_child(child) {
                    Some(entry) => {
                        found.push(entry);
                        assert(entry_views(found@) =~= entry_views(before) + seq![entry@]);
                    },
                    None => {},
                }
            },
            None => {},
        }
        i += 1;
    }
    assert(steps@.take(steps.len() as int) =~= steps@);
    found
}

/// The listing of the given entries: the same entries, directories first,
/// then by name without regard to case, entries that tie in the order given.
pub fn sort_entries(found: &Vec<FileEntry>) -> (shown: Vec<FileEntry>)
    ensures
        is_listing_of(entry_views(shown@), entry_views(found@)),
{
    let mut keys: Vec<SortKey> = Vec::new();
    let mut i: usize = 0;
    while i < found.len()
        invariant
            i <= found.len(),
            keys.len() == i,
            forall|k: int| 0 <= k < i ==> (#[trigger] keys[k])@ == key_of(found[k]@),
        decreases found.len() - i,
    {
        keys.push(sort_key(found[i].name.as_str(), found[i].is_dir));
        i += 1;
    }
    assert(key_views(keys@) =~= keys_of(entry_views(found@)));
    let order = stable_order(&keys);
    let mut shown: Vec<FileEntry> = Vec::new();
    let mut a: usize = 0;
    while a < order.len()
        invariant
            a <= order.len(),
            shown.len() == a,
            is_stable_order(keys_of(entry_views(found@)), positions(order@)),
            forall|k: int| 0 <= k < a ==> #[trigger] shown[k] == found[order[k] as int],
        decreases order.len() - a,
    {
        let at = order[a];
        assert(positions(order@)[a as int] == at);
        shown.push(found[at].clone());
        a += 1;
    }
    assert(entry_views(shown@) =~= arranged(entry_views(found@), positions(order@)));
    shown
}

/// The listing that an enumeration gives: the entries of the children whose
/// metadata could be had, in listing order.
pub fn list_entries(steps: &Vec<Option<Child>>) -> (shown: Vec<FileEntry>)
    ensures
        is_listing_of(entry_views(shown@), visible_entries(steps@)),
{
    let found = collect_entries(steps);
    sort_entries(&found)
}

/// The answer to a request for the listing of the directory at `path`, given
/// what came of reading it. A missing path gives a not-found error that
/// names the path, and no entries; a failed enumeration gives a read error
/// that carries the system's reason; otherwise the answer is the listing of
/// the children whose metadata could be had.
pub fn read_directory(path: String, read: DirectoryRead) -> (r: Result<Vec<FileEntry>, BridgeError>)
    ensures
        match read {
            DirectoryRead::Missing => r is Err && r->Err_0@ == (ErrorView::PathNotFound {
                path: path@,
            }),
            DirectoryRead::Failed(cause) => r is Err && r->Err_0@ == (
            ErrorView::DirectoryUnreadable { cause: cause@ }),
            DirectoryRead::Listed(steps) => r is Ok && is_listing_of(
                entry_views(r->Ok_0@),
                visible_entries(steps@),
            ),
        },
        read is Missing ==> r is Err && kind_of(r->Err_0@) == ErrorKind::NotFound,
        read is Failed ==> r is Err && kind_of(r->Err_0@) == ErrorKind::ReadError,
{
    match read {
        DirectoryRead::Missing => Err(BridgeError::PathNotFound { path }),
        DirectoryRead::Failed(cause) => Err(BridgeError::DirectoryUnreadable { cause }),
        DirectoryRead::Listed(steps) => Ok(list_entries(&steps)),
    }
}

} // verus!
