//! A directory's listing, with the position of the cursor in it.

use super::entry::{entry_of, Entry, EntryView, Node, NodeView};
use super::metadata::{Metadata, Timestamp};
use super::path::{DirPath, PathModel};
use crate::option::DisplayOptions;
use std::io::Error;
use vstd::prelude::*;

verus! {

/// What one read of a directory yields: its children in the order of the
/// enumeration, and the directory's own metadata. A child whose directory
/// entry or whose metadata could not be read stands as the error that the
/// read gave.
#[derive(Debug)]
pub struct Listing {
    pub children: Vec<Result<Node, Error>>,
    pub metadata: Metadata,
}

/// The mathematical content of a `Listing`.
pub struct ListingView {
    pub children: Seq<Result<NodeView, Error>>,
    pub metadata: Metadata,
}

/// The content of a child, or the error in its place.
pub open spec fn child_view(child: Result<Node, Error>) -> Result<NodeView, Error> {
    match child {
        Ok(node) => Ok(node@),
        Err(e) => Err(e),
    }
}

/// The contents of a run of children.
pub open spec fn child_views(children: Seq<Result<Node, Error>>) -> Seq<Result<NodeView, Error>> {
    children.map_values(|c: Result<Node, Error>| child_view(c))
}

/// The contents of a run of entries.
pub open spec fn entry_views(entries: Seq<Entry>) -> Seq<EntryView> {
    entries.map_values(|e: Entry| e@)
}

impl View for Listing {
    type V = ListingView;

    open spec fn view(&self) -> ListingView {
        ListingView { children: child_views(self.children@), metadata: self.metadata }
    }
}

/// The mathematical content of a `Directory`.
#[verifier::ext_equal]
pub struct DirectoryView {
    pub path: PathModel,
    pub entries: Seq<EntryView>,
    pub selected: Option<int>,
    pub metadata: Metadata,
}

impl DirectoryView {
    /// The cursor stands on an entry, and on none only where there is none.
    pub open spec fn wf(self) -> bool {
        match self.selected {
            Some(i) => 0 <= i < self.entries.len(),
            None => self.entries.len() == 0,
        }
    }

    /// The name under the cursor.
    pub open spec fn selected_name(self) -> Option<Seq<char>> {
        match self.selected {
            Some(i) => Some(self.entries[i].name),
            None => None,
        }
    }
}

/// A name is hidden when it begins with a dot.
pub open spec fn hidden(name: Seq<char>) -> bool {
    name.len() > 0 && name[0] == '.'
}

/// Index of the first child at or behind `start` that could not be read.
pub open spec fn failed_from(children: Seq<Result<NodeView, Error>>, start: int) -> Option<int>
    decreases children.len() - start,
{
    if start < 0 || start >= children.len() {
        None
    } else if children[start] is Err {
        Some(start)
    } else {
        failed_from(children, start + 1)
    }
}

/// Index of the first child that could not be read. Whether a name is
/// hidden plays no part: a failure is never filtered out.
pub open spec fn first_failed(children: Seq<Result<NodeView, Error>>) -> Option<int> {
    failed_from(children, 0)
}

/// `failed_from` yields the first failed child at or behind `start`, and
/// yields one whenever a child in its range failed.
pub proof fn lemma_failed_from(children: Seq<Result<NodeView, Error>>, start: int)
    requires
        0 <= start,
    ensures
        match failed_from(children, start) {
            Some(i) => start <= i < children.len() && children[i] is Err && forall|j: int|
                start <= j < i ==> children[j] is Ok,
            None => forall|j: int| start <= j < children.len() ==> children[j] is Ok,
        },
    decreases children.len() - start,
{
    if start < children.len() && children[start] is Ok {
        lemma_failed_from(children, start + 1);
    }
}

/// The error of the first failed child is the error that was handed in for
/// it.
proof fn lemma_failed_child(children: Seq<Result<Node, Error>>)
    ensures
        first_failed(child_views(children)) matches Some(i) ==> 0 <= i < children.len()
            && child_views(children)[i]->Err_0 == children[i]->Err_0,
{
    lemma_failed_from(child_views(children), 0);
}

/// The error that makes a read unusable: the error of the read itself, or
/// else that of the first child that could not be read. A read without such
/// an error is good.
pub open spec fn read_failure(read: Result<Listing, Error>) -> Option<Error> {
    match read {
        Err(e) => Some(e),
        Ok(listing) => match first_failed(listing@.children) {
            Some(i) => Some(listing@.children[i]->Err_0),
            None => None,
        },
    }
}

/// Whether a child that was read gets an entry: it is not hidden, or hidden
/// entries are asked for.
pub open spec fn shown(child: Result<NodeView, Error>, options: DisplayOptions) -> bool {
    child matches Ok(node) && (options.show_hidden || !hidden(node.name))
}

/// The entries of a directory at `parent` whose enumeration yielded
/// `children`, all of them read: one for each child that is shown, in the
/// order of the enumeration.
pub open spec fn listed(
    parent: PathModel,
    children: Seq<Result<NodeView, Error>>,
    options: DisplayOptions,
) -> Seq<EntryView>
    decreases children.len(),
{
    if children.len() == 0 {
        Seq::empty()
    } else {
        let front = listed(parent, children.drop_last(), options);
        if shown(children.last(), options) {
            front.push(entry_of(children.last()->Ok_0, parent, options.show_icons))
        } else {
            front
        }
    }
}

/// Index of the first entry at or behind `start` that is called `name`.
pub open spec fn position_from(entries: Seq<EntryView>, name: Seq<char>, start: int) -> Option<int>
    decreases entries.len() - start,
{
    if start < 0 || start >= entries.len() {
        None
    } else if entries[start].name == name {
        Some(start)
    } else {
        position_from(entries, name, start + 1)
    }
}

/// Index of the first entry that is called `name`.
pub open spec fn position_of(entries: Seq<EntryView>, name: Seq<char>) -> Option<int> {
    position_from(entries, name, 0)
}

/// `position_from` yields the first match at or behind `start`, and yields
/// one whenever there is a match.
pub proof fn lemma_position_from(entries: Seq<EntryView>, name: Seq<char>, start: int)
    requires
        0 <= start,
    ensures
        match position_from(entries, name, start) {
            Some(j) => start <= j < entries.len() && entries[j].name == name && forall|k: int|
                start <= k < j ==> entries[k].name != name,
            None => forall|k: int| start <= k < entries.len() ==> entries[k].name != name,
        },
    decreases entries.len() - start,
{
    if start < entries.len() && entries[start].name != name {
        lemma_position_from(entries, name, start + 1);
    }
}

/// Where the cursor stands after a reload that found the entries `fresh`.
/// In this order: nowhere if nothing is listed; on the last entry if the
/// cursor was beyond the new end; on the first entry that has the name the
/// cursor stood on; else where it stood; and on the first entry if it stood
/// nowhere.
pub open spec fn reselect(before: DirectoryView, fresh: Seq<EntryView>) -> Option<int> {
    if fresh.len() == 0 {
        None
    } else {
        match before.selected {
            None => Some(0),
            Some(i) => if i >= fresh.len() {
                Some(fresh.len() - 1)
            } else {
                match position_of(fresh, before.entries[i].name) {
                    Some(j) => Some(j),
                    None => Some(i),
                }
            },
        }
    }
}

/// The directory that the first read of `path` gives.
pub open spec fn opened(path: PathModel, listing: ListingView, options: DisplayOptions)
    -> DirectoryView {
    let entries = listed(path, listing.children, options);
    DirectoryView {
        path,
        entries,
        selected: if entries.len() == 0 {
            None
        } else {
            Some(0)
        },
        metadata: listing.metadata,
    }
}

/// The directory that `before` becomes when it is read again.
pub open spec fn reloaded(before: DirectoryView, listing: ListingView, options: DisplayOptions)
    -> DirectoryView {
    let entries = listed(before.path, listing.children, options);
    DirectoryView {
        path: before.path,
        entries,
        selected: reselect(before, entries),
        metadata: listing.metadata,
    }
}

/// The directory with the cursor moved onto the first entry called `name`;
/// unchanged where no entry has that name.
pub open spec fn pointed_at(dir: DirectoryView, name: Seq<char>) -> DirectoryView {
    match position_of(dir.entries, name) {
        Some(j) => DirectoryView { selected: Some(j), ..dir },
        None => dir,
    }
}

/// A reload leaves the cursor on an entry, or nowhere if nothing is listed.
pub proof fn lemma_reloaded_wf(before: DirectoryView, listing: ListingView, options: DisplayOptions)
    requires
        before.wf(),
    ensures
        reloaded(before, listing, options).wf(),
{
    let fresh = listed(before.path, listing.children, options);
    if before.selected is Some {
        lemma_position_from(fresh, before.entries[before.selected->0].name, 0);
    }
}

/// The cursor follows the name. If the entry under the cursor is listed
/// again under the same name, and the cursor's old position is still inside
/// the listing, then after the reload the cursor stands on the first entry
/// of that name, wherever the new order has put it.
pub proof fn lemma_selection_follows_name(
    before: DirectoryView,
    listing: ListingView,
    options: DisplayOptions,
)
    requires
        before.wf(),
        before.selected matches Some(i) && i < reloaded(before, listing, options).entries.len(),
        position_of(
            reloaded(before, listing, options).entries,
            before.selected_name()->0,
        ) is Some,
    ensures
        reloaded(before, listing, options).selected == position_of(
            reloaded(before, listing, options).entries,
            before.selected_name()->0,
        ),
        reloaded(before, listing, options).selected_name() == before.selected_name(),
{
    let after = reloaded(before, listing, options);
    lemma_position_from(after.entries, before.selected_name()->0, 0);
}

/// The cursor is clamped. If the listing has shrunk so that the cursor's
/// old position lies at or beyond its end, and something is still listed,
/// then after the reload the cursor stands on the last entry.
pub proof fn lemma_selection_clamps(
    before: DirectoryView,
    listing: ListingView,
    options: DisplayOptions,
)
    requires
        before.wf(),
        before.selected matches Some(i) && i >= reloaded(before, listing, options).entries.len(),
        reloaded(before, listing, options).entries.len() > 0,
    ensures
        reloaded(before, listing, options).selected == Some(
            reloaded(before, listing, options).entries.len() - 1,
        ),
{
}

/// Where the name under the cursor is gone but the cursor's old position is
/// still inside the listing, the cursor keeps its position.
pub proof fn lemma_selection_stays(
    before: DirectoryView,
    listing: ListingView,
    options: DisplayOptions,
)
    requires
        before.wf(),
        before.selected matches Some(i) && i < reloaded(before, listing, options).entries.len(),
        position_of(
            reloaded(before, listing, options).entries,
            before.selected_name()->0,
        ) is None,
    ensures
        reloaded(before, listing, options).selected == before.selected,
{
}

/// Every listed entry stems from a child that is shown, and no child that is
/// hidden gets an entry unless hidden entries are asked for.
pub proof fn lemma_listed_names(
    parent: PathModel,
    children: Seq<Result<NodeView, Error>>,
    options: DisplayOptions,
)
    ensures
        listed(parent, children, options).len() <= children.len(),
        forall|i: int|
            0 <= i < listed(parent, children, options).len() ==> {
                let entry = #[trigger] listed(parent, children, options)[i];
                &&& !entry.flagged
                &&& entry.path == parent.join(entry.name)
                &&& (options.show_hidden || !hidden(entry.name))
            },
    decreases children.len(),
{
    if children.len() > 0 {
        lemma_listed_names(parent, children.drop_last(), options);
    }
}

/// The text of a listing: for each entry a line break and its label.
pub open spec fn listing_text(entries: Seq<EntryView>) -> Seq<char>
    decreases entries.len(),
{
    if entries.len() == 0 {
        Seq::empty()
    } else {
        listing_text(entries.drop_last()) + seq!['\n'] + entries.last().label
    }
}

fn is_hidden(name: &String) -> (h: bool)
    ensures
        h == hidden(name@),
{
    let name = name.as_str();
    !name.is_empty() && name.get_char(0) == '.'
}

/// Index of the first of `entries` that is called `name`.
pub fn find_index_in(entries: &Vec<Entry>, name: &String) -> (found: Option<usize>)
    ensures
        match found {
            Some(j) => position_of(entry_views(entries@), name@) == Some(j as int),
            None => position_of(entry_views(entries@), name@) is None,
        },
{
    let n = entries.len();
    let mut i: usize = 0;
    while i < n
        invariant
            i <= n,
            n == entries@.len(),
            position_of(entry_views(entries@), name@) == position_from(
                entry_views(entries@),
                name@,
                i as int,
            ),
        decreases n - i,
    {
        if entries[i].name == *name {
            return Some(i);
        }
        i += 1;
    }
    None
}

/// Whether a read is good: it did not fail, and no child in it failed.
pub fn is_good(read: &Result<Listing, Error>) -> (good: bool)
    ensures
        good == read_failure(*read) is None,
{
    match read {
        Err(_) => false,
        Ok(listing) => {
            let n = listing.children.len();
            let mut i: usize = 0;
            while i < n
                invariant
                    i <= n,
                    n == listing.children@.len(),
                    *read == Ok::<Listing, Error>(*listing),
                    forall|j: int| 0 <= j < i ==> listing.children@[j] is Ok,
                decreases n - i,
            {
                if listing.children[i].is_err() {
                    proof {
                        lemma_failed_from(listing@.children, 0);
                        assert(listing@.children[i as int] is Err);
                    }
                    return false;
                }
                i += 1;
            }
            proof {
                lemma_failed_from(listing@.children, 0);
                assert(forall|j: int| 0 <= j < n ==> listing@.children[j] is Ok);
            }
            true
        },
    }
}

/// Turns the children that an enumeration yielded into entries. Hidden
/// children are left out unless `options` asks for them. A child that could
/// not be read makes the listing fail with that child's error, whatever
/// `options` says of hidden names; of several such children the first
/// decides.
pub fn read_dir_list(
    path: &DirPath,
    children: Vec<Result<Node, Error>>,
    options: &DisplayOptions,
) -> (entries: Result<Vec<Entry>, Error>)
    ensures
        match first_failed(child_views(children@)) {
            Some(i) => entries == Err::<Vec<Entry>, Error>(children@[i]->Err_0),
            None => entries matches Ok(list) && entry_views(list@) == listed(
                path@,
                child_views(children@),
                *options,
            ),
        },
{
    let mut entries: Vec<Entry> = Vec::new();
    let ghost all = children@;
    for child in it: children
        invariant
            it.seq() == all,
            all == children@,
            forall|j: int| 0 <= j < it.index() ==> all[j] is Ok,
            entry_views(entries@) == listed(
                path@,
                child_views(all).take(it.index() as int),
                *options,
            ),
    {
        let ghost i = it.index() as int;
        let ghost before = entry_views(entries@);
        assert(child_views(all).take(i + 1).drop_last() =~= child_views(all).take(i));
        assert(child_views(all).take(i + 1).last() == child_view(all[i]));
        match child {
            Ok(node) => {
                if options.show_hidden || !is_hidden(&node.name) {
                    let entry = Entry::from(node, path, options.show_icons);
                    entries.push(entry);
                    assert(entry_views(entries@) =~= before.push(entry@));
                }
            },
            Err(e) => {
                proof {
                    lemma_failed_from(child_views(all), 0);
                    assert(child_views(all)[i] is Err);
                    assert(forall|j: int| 0 <= j < i ==> child_views(all)[j] is Ok);
                }
                return Err(e);
            },
        }
    }
    proof {
        lemma_failed_from(child_views(all), 0);
        assert(forall|j: int| 0 <= j < all.len() ==> child_views(all)[j] is Ok);
        assert(child_views(all).take(all.len() as int) =~= child_views(all));
    }
    Ok(entries)
}

/// An ordered listing of a directory, the cursor's position in it, and the
/// directory's own metadata.
#[derive(Debug, Clone, PartialEq, Eq)]
pub struct Directory {
    path: DirPath,
    inner: Vec<Entry>,
    index: Option<usize>,
    metadata: Metadata,
}

impl View for Directory {
    type V = DirectoryView;

    closed spec fn view(&self) -> DirectoryView {
        DirectoryView {
            path: self.path@,
            entries: entry_views(self.inner@),
            selected: match self.index {
                Some(i) => Some(i as int),
                None => None,
            },
            metadata: self.metadata,
        }
    }
}

impl Directory {
    /// The cursor stands on an entry, and on none only where there is none.
    pub open spec fn wf(&self) -> bool {
        self@.wf()
    }

    /// Lists `path` for the first time. The cursor starts on the first
    /// entry. A read that failed, or in which a child could not be read,
    /// makes no directory: its error is handed back as it is.
    pub fn new(path: DirPath, read: Result<Listing, Error>, options: &DisplayOptions) -> (made:
        Result<Self, Error>)
        ensures
            match read_failure(read) {
                Some(e) => made == Err::<Self, Error>(e),
                None => made matches Ok(dir) && dir.wf() && dir@ == opened(
                    path@,
                    read->Ok_0@,
                    *options,
                ),
            },
    {
        match read {
            Err(e) => Err(e),
            Ok(listing) => {
                let Listing { children, metadata } = listing;
                proof {
                    lemma_failed_child(children@);
                }
                match read_dir_list(&path, children, options) {
                    Err(e) => Err(e),
                    Ok(inner) => {
                        let index = if inner.is_empty() {
                            None
                        } else {
                            Some(0)
                        };
                        Ok(Self { path, inner, index, metadata })
                    },
                }
            },
        }
    }

    /// Lists the directory again and carries the cursor over. A read that
    /// failed, or in which a child could not be read, leaves the directory
    /// as it was: its error is handed back as it is.
    pub fn reload(&mut self, read: Result<Listing, Error>, options: &DisplayOptions) -> (done:
        Result<(), Error>)
        requires
            old(self).wf(),
        ensures
            final(self).wf(),
            match read_failure(read) {
                Some(e) => done == Err::<(), Error>(e) && *final(self) == *old(self),
                None => done is Ok && final(self)@ == reloaded(
                    old(self)@,
                    read->Ok_0@,
                    *options,
                ),
            },
    {
        match read {
            Err(e) => Err(e),
            Ok(listing) => {
                let Listing { children, metadata } = listing;
                proof {
                    lemma_failed_child(children@);
                }
                let inner = match read_dir_list(&self.path, children, options) {
                    Ok(inner) => inner,
                    Err(e) => {
                        return Err(e);
                    },
                };
                let inner_len = inner.len();
                let index: Option<usize> = if inner_len == 0 {
                    None
                } else {
                    match self.index {
                        Some(i) => if i >= inner_len {
                            Some(inner_len - 1)
                        } else {
                            match find_index_in(&inner, &self.inner[i].name) {
                                Some(j) => Some(j),
                                None => Some(i),
                            }
                        },
                        None => Some(0),
                    }
                };
                proof {
                    if inner_len > 0 && self.index is Some && self.index->0 < inner_len {
                        lemma_position_from(
                            entry_views(inner@),
                            self.inner@[self.index->0 as int].name@,
                            0,
                        );
                    }
                }
                self.metadata = metadata;
                self.inner = inner;
                self.index = index;
                Ok(())
            },
        }
    }

    /// Lists the directory above this one, as if for the first time. The
    /// root has no parent: `read` is then not looked at.
    pub fn parent(&self, read: Result<Listing, Error>, options: &DisplayOptions) -> (made: Result<
        Option<Self>,
        Error,
    >)
        ensures
            match (self@.path.parent(), read_failure(read)) {
                (None, _) => made == Ok::<Option<Self>, Error>(None),
                (Some(up), None) => made matches Ok(Some(dir)) && dir.wf() && dir@ == opened(
                    up,
                    read->Ok_0@,
                    *options,
                ),
                (Some(_), Some(e)) => made == Err::<Option<Self>, Error>(e),
            },
    {
        match self.path.parent() {
            None => Ok(None),
            Some(up) => match Directory::new(up, read, options) {
                Ok(dir) => Ok(Some(dir)),
                Err(e) => Err(e),
            },
        }
    }

    /// Moves the cursor onto the first entry called `name`, if there is one,
    /// and says whether there is.
    pub fn select_named(&mut self, name: &String) -> (found: bool)
        requires
            old(self).wf(),
        ensures
            final(self).wf(),
            final(self)@ == pointed_at(old(self)@, name@),
            found == position_of(old(self)@.entries, name@) is Some,
    {
        proof {
            lemma_position_from(self@.entries, name@, 0);
        }
        match find_index_in(&self.inner, name) {
            Some(i) => {
                self.index = Some(i);
                true
            },
            None => false,
        }
    }

    /// Moves the cursor onto the entry at `index`.
    pub fn select(&mut self, index: usize)
        requires
            old(self).wf(),
            index < old(self)@.entries.len(),
        ensures
            final(self).wf(),
            final(self)@ == (DirectoryView { selected: Some(index as int), ..old(self)@ }),
    {
        self.index = Some(index);
    }

    pub fn path(&self) -> (path: &DirPath)
        ensures
            path@ == self@.path,
    {
        &self.path
    }

    /// The entries, in the order of the enumeration that produced them.
    pub fn entries(&self) -> (entries: &Vec<Entry>)
        ensures
            entry_views(entries@) == self@.entries,
    {
        &self.inner
    }

    /// The cursor's position.
    pub fn selected(&self) -> (index: Option<usize>)
        ensures
            match index {
                Some(i) => self@.selected == Some(i as int),
                None => self@.selected is None,
            },
    {
        self.index
    }

    pub fn metadata(&self) -> (metadata: &Metadata)
        ensures
            *metadata == self@.metadata,
    {
        &self.metadata
    }

    pub fn len(&self) -> (n: usize)
        ensures
            n == self@.entries.len(),
    {
        self.inner.len()
    }

    pub fn is_empty(&self) -> (empty: bool)
        ensures
            empty == (self@.entries.len() == 0),
    {
        self.inner.is_empty()
    }

    /// Whether the directory has changed on disk since it was listed, given
    /// the modification time that a fresh look at it reports, or `None`
    /// where that look failed. The answer is advice: nothing is reloaded.
    pub fn modified(&self, fresh: Option<Timestamp>) -> (changed: bool)
        ensures
            changed == (fresh matches Some(t) && t.after(self@.metadata.modified)),
    {
        match fresh {
            Some(t) => self.metadata.older_than(&t),
            None => false,
        }
    }

    /// The listing as text: for each entry a line break and its label.
    pub fn to_text(&self) -> (text: String)
        ensures
            text@ == listing_text(self@.entries),
    {
        let mut text = String::new();
        let n = self.inner.len();
        let mut i: usize = 0;
        assert(entry_views(self.inner@).take(0) =~= Seq::<EntryView>::empty());
        while i < n
            invariant
                i <= n,
                n == self.inner@.len(),
                text@ == listing_text(entry_views(self.inner@).take(i as int)),
            decreases n - i,
        {
            proof {
                reveal_strlit("\n");
                let all = entry_views(self.inner@);
                assert(all.take(i + 1).drop_last() =~= all.take(i as int));
                assert(all.take(i + 1).last() == self.inner@[i as int]@);
                assert("\n"@ =~= seq!['\n']);
            }
            text.append("\n");
            text.append(self.inner[i].label.as_str());
            i += 1;
        }
        assert(entry_views(self.inner@).take(n as int) =~= entry_views(self.inner@));
        text
    }
}

} // verus!
