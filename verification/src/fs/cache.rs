//! The store of listed directories, and the walk that fills it from a path
//! up to the root.

use super::directory::{
    lemma_position_from, listing_text, opened, pointed_at, position_of, read_failure, reloaded,
    Directory, DirectoryView, Listing,
};
use super::path::{DirPath, PathModel};
use crate::option::DisplayOptions;
use std::io::Error;
use vstd::prelude::*;

verus! {

/// The mathematical content of a cache.
pub type CacheView = Map<PathModel, DirectoryView>;

/// The cache after one path was visited with a good read: a directory that
/// is cached is reloaded, one that is not is opened; then, where the walk came
/// from a child called `below`, the cursor is put on the entry of that name,
/// if there is one.
pub open spec fn visited(
    cache: CacheView,
    curr: PathModel,
    below: Option<Seq<char>>,
    listing: Listing,
    options: DisplayOptions,
) -> CacheView {
    let fresh = if cache.contains_key(curr) {
        reloaded(cache[curr], listing@, options)
    } else {
        opened(curr, listing@, options)
    };
    cache.insert(
        curr,
        match below {
            Some(name) => pointed_at(fresh, name),
            None => fresh,
        },
    )
}

/// The name of the child that the walk from `path` came from when it is
/// `k` steps up: none at the start, else the last component of the path one
/// step further down.
pub open spec fn below(path: PathModel, k: nat) -> Option<Seq<char>> {
    if k == 0 {
        None
    } else {
        path.ancestor((k - 1) as nat).file_name()
    }
}

/// The cache after the first `k` steps of the walk from `path` to the root,
/// each with a good read: `path` itself first, then its parent, and so on.
pub open spec fn populated(
    cache: CacheView,
    path: PathModel,
    reads: Seq<Result<Listing, Error>>,
    options: DisplayOptions,
    k: nat,
) -> CacheView
    decreases k,
{
    if k == 0 {
        cache
    } else {
        let step = (k - 1) as nat;
        visited(
            populated(cache, path, reads, options, step),
            path.ancestor(step),
            below(path, step),
            reads[step as int]->Ok_0,
            options,
        )
    }
}

/// Index of the first read at or behind `start` and before `limit` that is
/// not good: it failed, or a child in it could not be read.
pub open spec fn failure_from(reads: Seq<Result<Listing, Error>>, start: int, limit: int) -> Option<
    int,
>
    decreases limit - start,
{
    if start < 0 || start >= limit || start >= reads.len() {
        None
    } else if read_failure(reads[start]) is Some {
        Some(start)
    } else {
        failure_from(reads, start + 1, limit)
    }
}

/// Index of the first read that is not good among those that the walk from
/// `path` uses: one for each ancestor, the path itself included.
pub open spec fn first_failure(path: PathModel, reads: Seq<Result<Listing, Error>>) -> Option<int> {
    failure_from(reads, 0, path.depth() as int + 1)
}

/// Why the walk to the root ended early.
#[derive(Debug)]
pub enum WalkError {
    /// A read failed, or a child in it could not be read.
    Io(Error),
    /// No read was handed in for the ancestor this many steps up.
    MissingRead(usize),
}

/// `failure_from` yields the first failure at or behind `start`, and yields
/// one whenever a read in its range failed.
pub proof fn lemma_failure_from(reads: Seq<Result<Listing, Error>>, start: int, limit: int)
    requires
        0 <= start,
    ensures
        match failure_from(reads, start, limit) {
            Some(i) => start <= i < limit && i < reads.len() && read_failure(reads[i]) is Some
                && forall|j: int| start <= j < i ==> read_failure(#[trigger] reads[j]) is None,
            None => forall|j: int|
                start <= j < limit && j < reads.len() ==> read_failure(#[trigger] reads[j])
                    is None,
        },
    decreases limit - start,
{
    if start < limit && start < reads.len() && read_failure(reads[start]) is None {
        lemma_failure_from(reads, start + 1, limit);
    }
}

/// The text of a cache whose paths are taken in the given order: for each
/// path the text of its directory and a line break.
pub open spec fn cache_text(cache: CacheView, order: Seq<PathModel>) -> Seq<char>
    decreases order.len(),
{
    if order.len() == 0 {
        Seq::empty()
    } else {
        cache_text(cache, order.drop_last()) + listing_text(cache[order.last()].entries)
            + seq!['\n']
    }
}

/// The text of a name that may be absent.
pub open spec fn text_of(name: Option<&String>) -> Option<Seq<char>> {
    match name {
        Some(n) => Some(n@),
        None => None,
    }
}

/// The cursor in `parent` stands on an entry that is called like the last
/// component of `child`, provided that `parent` lists an entry of that name.
pub open spec fn trail_holds(parent: DirectoryView, child: PathModel) -> bool {
    child.file_name() matches Some(name) ==> (position_of(parent.entries, name) is Some
        ==> parent.selected_name() == Some(name))
}

/// After `m` steps of the walk from `path`, each of the first `m` ancestors
/// of `path` is cached, and so is whatever was cached before.
pub proof fn lemma_populated_holds_ancestors(
    cache: CacheView,
    path: PathModel,
    reads: Seq<Result<Listing, Error>>,
    options: DisplayOptions,
    m: nat,
)
    ensures
        forall|k: nat| k < m ==> populated(cache, path, reads, options, m).contains_key(
            #[trigger] path.ancestor(k),
        ),
        forall|key: PathModel| #[trigger]
            cache.contains_key(key) ==> populated(cache, path, reads, options, m).contains_key(
                key,
            ),
    decreases m,
{
    if m > 0 {
        lemma_populated_holds_ancestors(cache, path, reads, options, (m - 1) as nat);
    }
}

/// Two ancestors of one path that lie a different number of steps up are
/// different paths.
pub proof fn lemma_ancestors_differ(path: PathModel, j: nat, k: nat)
    requires
        j <= path.depth(),
        k <= path.depth(),
        j != k,
    ensures
        path.ancestor(j) != path.ancestor(k),
{
    assert(path.ancestor(j).parts.len() == path.depth() - j);
    assert(path.ancestor(k).parts.len() == path.depth() - k);
}

/// A step of the walk changes nothing but the directory it visits: what is
/// cached for an ancestor `k` steps up is, after any `m > k` steps, what the
/// step that visited it left there.
pub proof fn lemma_populated_keeps(
    cache: CacheView,
    path: PathModel,
    reads: Seq<Result<Listing, Error>>,
    options: DisplayOptions,
    k: nat,
    m: nat,
)
    requires
        k < m <= path.depth() + 1,
    ensures
        populated(cache, path, reads, options, m)[path.ancestor(k)] == populated(
            cache,
            path,
            reads,
            options,
            k + 1,
        )[path.ancestor(k)],
    decreases m,
{
    if m > k + 1 {
        lemma_populated_keeps(cache, path, reads, options, k, (m - 1) as nat);
        lemma_ancestors_differ(path, k, (m - 1) as nat);
    }
}

/// The trail of cursors: after the whole walk from `path`, the cursor of
/// each directory above `path` stands on the child that leads back down to
/// `path`, wherever that directory lists such a child.
pub proof fn lemma_populated_trail(
    cache: CacheView,
    path: PathModel,
    reads: Seq<Result<Listing, Error>>,
    options: DisplayOptions,
)
    ensures
        forall|k: nat|
            1 <= k <= path.depth() ==> trail_holds(
                populated(cache, path, reads, options, path.depth() + 1)[#[trigger] path.ancestor(
                    k,
                )],
                path.ancestor((k - 1) as nat),
            ),
{
    assert forall|k: nat| 1 <= k <= path.depth() implies trail_holds(
        populated(cache, path, reads, options, path.depth() + 1)[#[trigger] path.ancestor(k)],
        path.ancestor((k - 1) as nat),
    ) by {
        lemma_populated_keeps(cache, path, reads, options, k, path.depth() + 1);
        let name = path.ancestor((k - 1) as nat).file_name()->0;
        let before = populated(cache, path, reads, options, k);
        let listing = reads[k as int]->Ok_0;
        let fresh = if before.contains_key(path.ancestor(k)) {
            reloaded(before[path.ancestor(k)], listing@, options)
        } else {
            opened(path.ancestor(k), listing@, options)
        };
        lemma_position_from(fresh.entries, name, 0);
        assert(populated(cache, path, reads, options, k + 1)[path.ancestor(k)] == pointed_at(
            fresh,
            name,
        ));
    }
}

#[derive(Debug, Clone)]
struct Slot {
    key: DirPath,
    dir: Directory,
}

/// A store of directories by path. A path occurs at most once.
#[derive(Debug, Clone)]
pub struct Cache {
    slots: Vec<Slot>,
}

spec fn holds(slots: Seq<Slot>, key: PathModel, i: int) -> bool {
    0 <= i < slots.len() && slots[i].key@ == key
}

spec fn distinct(slots: Seq<Slot>) -> bool {
    forall|i: int, j: int|
        0 <= i < slots.len() && 0 <= j < slots.len() && i != j ==> slots[i].key@ != slots[j].key@
}

spec fn map_of(slots: Seq<Slot>) -> CacheView {
    Map::new(
        |key: PathModel| exists|i: int| holds(slots, key, i),
        |key: PathModel| slots[choose|i: int| holds(slots, key, i)].dir@,
    )
}

proof fn lemma_map_of_slot(slots: Seq<Slot>, i: int)
    requires
        distinct(slots),
        0 <= i < slots.len(),
    ensures
        map_of(slots).contains_key(slots[i].key@),
        map_of(slots)[slots[i].key@] == slots[i].dir@,
{
    assert(holds(slots, slots[i].key@, i));
}

proof fn lemma_map_of_update(slots: Seq<Slot>, i: int, slot: Slot)
    requires
        distinct(slots),
        0 <= i < slots.len(),
        slot.key@ == slots[i].key@,
    ensures
        distinct(slots.update(i, slot)),
        map_of(slots.update(i, slot)) == map_of(slots).insert(slot.key@, slot.dir@),
{
    let after = slots.update(i, slot);
    assert(distinct(after));
    assert forall|key: PathModel| #[trigger]
        map_of(after).contains_key(key) == map_of(slots).insert(
            slot.key@,
            slot.dir@,
        ).contains_key(key) by {
        if map_of(after).contains_key(key) {
            let j = choose|j: int| holds(after, key, j);
            assert(holds(slots, key, j));
        }
        if map_of(slots).contains_key(key) {
            let j = choose|j: int| holds(slots, key, j);
            assert(holds(after, key, j));
        }
        if key == slot.key@ {
            assert(holds(after, key, i));
        }
    }
    assert forall|key: PathModel| #[trigger] map_of(after).contains_key(key) implies map_of(
        after,
    )[key] == map_of(slots).insert(slot.key@, slot.dir@)[key] by {
        let j = choose|j: int| holds(after, key, j);
        lemma_map_of_slot(after, j);
        if j != i {
            assert(holds(slots, key, j));
            lemma_map_of_slot(slots, j);
        }
    }
    assert(map_of(after) =~= map_of(slots).insert(slot.key@, slot.dir@));
}

proof fn lemma_map_of_push(slots: Seq<Slot>, slot: Slot)
    requires
        distinct(slots),
        !map_of(slots).contains_key(slot.key@),
    ensures
        distinct(slots.push(slot)),
        map_of(slots.push(slot)) == map_of(slots).insert(slot.key@, slot.dir@),
{
    let after = slots.push(slot);
    let last = slots.len() as int;
    assert forall|i: int, j: int|
        0 <= i < after.len() && 0 <= j < after.len() && i != j implies after[i].key@
        != after[j].key@ by {
        if i < last && j == last {
            assert(holds(slots, slots[i].key@, i));
        }
        if j < last && i == last {
            assert(holds(slots, slots[j].key@, j));
        }
    }
    assert forall|key: PathModel| #[trigger]
        map_of(after).contains_key(key) == map_of(slots).insert(
            slot.key@,
            slot.dir@,
        ).contains_key(key) by {
        if map_of(after).contains_key(key) {
            let j = choose|j: int| holds(after, key, j);
            if j < last {
                assert(holds(slots, key, j));
            }
        }
        if map_of(slots).contains_key(key) {
            let j = choose|j: int| holds(slots, key, j);
            assert(holds(after, key, j));
        }
        if key == slot.key@ {
            assert(holds(after, key, last));
        }
    }
    assert forall|key: PathModel| #[trigger] map_of(after).contains_key(key) implies map_of(
        after,
    )[key] == map_of(slots).insert(slot.key@, slot.dir@)[key] by {
        let j = choose|j: int| holds(after, key, j);
        lemma_map_of_slot(after, j);
        if j < last {
            assert(holds(slots, key, j));
            lemma_map_of_slot(slots, j);
        }
    }
    assert(map_of(after) =~= map_of(slots).insert(slot.key@, slot.dir@));
}

impl View for Cache {
    type V = CacheView;

    closed spec fn view(&self) -> CacheView {
        map_of(self.slots@)
    }
}

impl Cache {
    /// No path occurs twice, and every directory is well formed.
    pub closed spec fn wf(&self) -> bool {
        &&& distinct(self.slots@)
        &&& forall|i: int| 0 <= i < self.slots@.len() ==> (#[trigger] self.slots@[i]).dir.wf()
    }

    /// What is cached is well formed.
    pub proof fn lemma_wf_views(&self)
        requires
            self.wf(),
        ensures
            forall|key: PathModel| #[trigger] self@.contains_key(key) ==> self@[key].wf(),
    {
        assert forall|key: PathModel| #[trigger] self@.contains_key(key) implies self@[key].wf() by {
            let j = choose|j: int| holds(self.slots@, key, j);
            lemma_map_of_slot(self.slots@, j);
            assert(self.slots@[j].dir.wf());
        }
    }

    pub fn new() -> (cache: Self)
        ensures
            cache.wf(),
            cache@ == Map::<PathModel, DirectoryView>::empty(),
    {
        let cache = Self { slots: Vec::new() };
        assert(cache@ =~= Map::<PathModel, DirectoryView>::empty());
        cache
    }

    fn find(&self, key: &DirPath) -> (found: Option<usize>)
        ensures
            match found {
                Some(i) => holds(self.slots@, key@, i as int),
                None => !self@.contains_key(key@),
            },
    {
        let n = self.slots.len();
        let mut i: usize = 0;
        while i < n
            invariant
                i <= n,
                n == self.slots@.len(),
                forall|j: int| 0 <= j < i ==> self.slots@[j].key@ != key@,
            decreases n - i,
        {
            if self.slots[i].key.same(key) {
                return Some(i);
            }
            i += 1;
        }
        assert forall|j: int| !holds(self.slots@, key@, j) by {}
        None
    }

    /// The directory cached for `key`.
    pub fn get(&self, key: &DirPath) -> (found: Option<&Directory>)
        requires
            self.wf(),
        ensures
            match found {
                Some(dir) => self@.contains_key(key@) && self@[key@] == dir@ && dir.wf(),
                None => !self@.contains_key(key@),
            },
    {
        match self.find(key) {
            Some(i) => {
                proof {
                    lemma_map_of_slot(self.slots@, i as int);
                }
                Some(&self.slots[i].dir)
            },
            None => None,
        }
    }

    /// Caches `value` for `key` and hands back what was cached for it before.
    pub fn set(&mut self, key: DirPath, value: Directory) -> (before: Option<Directory>)
        requires
            old(self).wf(),
            value.wf(),
        ensures
            final(self).wf(),
            final(self)@ == old(self)@.insert(key@, value@),
            match before {
                Some(dir) => old(self)@.contains_key(key@) && old(self)@[key@] == dir@ && dir.wf(),
                None => !old(self)@.contains_key(key@),
            },
    {
        match self.find(&key) {
            Some(i) => {
                let mut slot = Slot { key, dir: value };
                proof {
                    lemma_map_of_slot(self.slots@, i as int);
                    lemma_map_of_update(self.slots@, i as int, slot);
                }
                std::mem::swap(&mut self.slots[i], &mut slot);
                Some(slot.dir)
            },
            None => {
                let slot = Slot { key, dir: value };
                proof {
                    lemma_map_of_push(self.slots@, slot);
                }
                self.slots.push(slot);
                None
            },
        }
    }

    /// One step of the walk: reloads the directory at `curr` if it is cached
    /// and opens it if not, then puts the cursor on the entry called `below`,
    /// the child that the walk came from. A read that failed, or in which a
    /// child could not be read, leaves the cache as it was: its error is
    /// handed back.
    pub fn visit(
        &mut self,
        curr: DirPath,
        below: Option<&String>,
        read: Result<Listing, Error>,
        options: &DisplayOptions,
    ) -> (done: Result<(), Error>)
        requires
            old(self).wf(),
        ensures
            final(self).wf(),
            match read_failure(read) {
                Some(e) => done == Err::<(), Error>(e) && final(self)@ == old(self)@,
                None => done is Ok && final(self)@ == visited(
                    old(self)@,
                    curr@,
                    text_of(below),
                    read->Ok_0,
                    *options,
                ),
            },
    {
        let ghost before = self.slots@;
        match self.find(&curr) {
            Some(i) => {
                proof {
                    lemma_map_of_slot(before, i as int);
                }
                match self.slots[i].dir.reload(read, options) {
                    Err(e) => {
                        assert(self.slots@ =~= before);
                        return Err(e);
                    },
                    Ok(()) => {},
                }
                match below {
                    Some(name) => {
                        self.slots[i].dir.select_named(name);
                    },
                    None => {},
                }
                proof {
                    assert(self.slots@ =~= before.update(i as int, self.slots@[i as int]));
                    lemma_map_of_update(before, i as int, self.slots@[i as int]);
                }
                Ok(())
            },
            None => match Directory::new(curr.clone(), read, options) {
                Err(e) => Err(e),
                Ok(dir) => {
                    let mut dir = dir;
                    match below {
                        Some(name) => {
                            dir.select_named(name);
                        },
                        None => {},
                    }
                    let slot = Slot { key: curr, dir };
                    proof {
                        lemma_map_of_push(before, slot);
                    }
                    self.slots.push(slot);
                    Ok(())
                },
            },
        }
    }

    /// Walks from `path` up to the root and brings the cache up to date on
    /// the way: `path` itself first, then its parent, and so on. `reads`
    /// holds what reading each of these directories gave, in the same order.
    /// Each directory is reloaded if it is cached and opened if not; from the
    /// second on, the cursor is put on the child that the walk came from.
    ///
    /// The first read that failed, or in which a child could not be read,
    /// ends the walk, and its error is handed back; what was visited before
    /// it stays in the cache. So does the walk end where the reads run out
    /// before the root is reached. Reads beyond the one for the root are not
    /// looked at.
    pub fn populate_to_root(
        &mut self,
        path: &DirPath,
        reads: Vec<Result<Listing, Error>>,
        options: &DisplayOptions,
    ) -> (done: Result<(), WalkError>)
        requires
            old(self).wf(),
        ensures
            final(self).wf(),
            match first_failure(path@, reads@) {
                Some(i) => done == Err::<(), WalkError>(
                    WalkError::Io(read_failure(reads@[i])->0),
                ) && final(self)@ == populated(old(self)@, path@, reads@, *options, i as nat),
                None => if reads@.len() > path@.depth() {
                    done is Ok && final(self)@ == populated(
                        old(self)@,
                        path@,
                        reads@,
                        *options,
                        path@.depth() + 1,
                    )
                } else {
                    done == Err::<(), WalkError>(WalkError::MissingRead(reads.len()))
                        && final(self)@ == populated(
                        old(self)@,
                        path@,
                        reads@,
                        *options,
                        reads@.len(),
                    )
                },
            },
            done is Ok ==> forall|k: nat|
                k <= path@.depth() ==> final(self)@.contains_key(#[trigger] path@.ancestor(k)),
            done is Ok ==> final(self)@.contains_key(path@) && final(self)@.contains_key(
                path@.root(),
            ),
            done is Ok ==> forall|k: nat|
                1 <= k <= path@.depth() ==> trail_holds(
                    final(self)@[#[trigger] path@.ancestor(k)],
                    path@.ancestor((k - 1) as nat),
                ),
    {
        let depth = path.depth();
        let count = reads.len();
        let ghost all = reads@;
        let ghost start = self@;
        let mut k: usize = 0;
        for read in it: reads
            invariant
                it.seq() == all,
                all == reads@,
                all.len() == count,
                start == old(self)@,
                k == it.index(),
                depth == path@.depth(),
                self.wf(),
                forall|j: int| 0 <= j < k && j <= depth ==> read_failure(#[trigger] all[j]) is None,
                self@ == populated(
                    start,
                    path@,
                    all,
                    *options,
                    if k <= depth {
                        k as nat
                    } else {
                        (depth + 1) as nat
                    },
                ),
        {
            assert(read == all[k as int]);
            if k <= depth {
                proof {
                    lemma_failure_from(all, 0, depth as int + 1);
                }
                let curr = path.ancestor(k);
                let below = if k == 0 {
                    None
                } else {
                    assert(path@.ancestor((k - 1) as nat).parts.last() == path@.parts[depth - k]);
                    Some(&path.components[depth - k])
                };
                match self.visit(curr, below, read, options) {
                    Err(e) => {
                        return Err(WalkError::Io(e));
                    },
                    Ok(()) => {},
                }
            }
            k += 1;
        }
        proof {
            lemma_failure_from(all, 0, depth as int + 1);
        }
        if count <= depth {
            return Err(WalkError::MissingRead(count));
        }
        proof {
            lemma_populated_holds_ancestors(start, path@, all, *options, (depth + 1) as nat);
            lemma_populated_trail(start, path@, all, *options);
            assert(path@.ancestor(depth as nat) == path@.root());
            assert(path@.ancestor(0) == path@);
        }
        Ok(())
    }

    /// Moves the cursor of the directory cached for `key` onto the entry at
    /// `index`, and says whether it did: nothing moves where no directory is
    /// cached for `key` or it has no entry at `index`.
    pub fn select(&mut self, key: &DirPath, index: usize) -> (moved: bool)
        requires
            old(self).wf(),
        ensures
            final(self).wf(),
            moved == (old(self)@.contains_key(key@) && index < old(self)@[key@].entries.len()),
            moved ==> final(self)@ == old(self)@.insert(
                key@,
                (DirectoryView { selected: Some(index as int), ..old(self)@[key@] }),
            ),
            !moved ==> final(self)@ == old(self)@,
    {
        let ghost before = self.slots@;
        match self.find(key) {
            Some(i) => {
                proof {
                    lemma_map_of_slot(before, i as int);
                }
                if index < self.slots[i].dir.len() {
                    self.slots[i].dir.select(index);
                    proof {
                        assert(self.slots@ =~= before.update(i as int, self.slots@[i as int]));
                        lemma_map_of_update(before, i as int, self.slots@[i as int]);
                    }
                    true
                } else {
                    false
                }
            },
            None => false,
        }
    }

    /// The cached paths, each once, in the order in which the cache holds
    /// them. The order is the cache's own business: it says nothing about
    /// the paths.
    pub closed spec fn order(&self) -> Seq<PathModel> {
        self.slots@.map_values(|slot: Slot| slot.key@)
    }

    /// `order` lists exactly the cached paths, and none twice.
    pub proof fn lemma_order(&self)
        requires
            self.wf(),
        ensures
            forall|key: PathModel| self@.contains_key(key) <==> self.order().contains(key),
            forall|i: int, j: int|
                0 <= i < self.order().len() && 0 <= j < self.order().len() && i != j
                    ==> self.order()[i] != self.order()[j],
    {
        assert forall|key: PathModel| self@.contains_key(key) implies self.order().contains(
            key,
        ) by {
            let j = choose|j: int| holds(self.slots@, key, j);
            assert(self.order()[j] == key);
        }
        assert forall|key: PathModel| self.order().contains(key) implies self@.contains_key(
            key,
        ) by {
            let j = choose|j: int| 0 <= j < self.order().len() && self.order()[j] == key;
            assert(holds(self.slots@, key, j));
        }
    }

    /// The paths for which a directory is cached.
    pub fn paths(&self) -> (paths: Vec<DirPath>)
        ensures
            paths@.len() == self.order().len(),
            forall|i: int| 0 <= i < paths@.len() ==> (#[trigger] paths@[i])@ == self.order()[i],
    {
        let n = self.slots.len();
        let mut paths: Vec<DirPath> = Vec::new();
        let mut i: usize = 0;
        while i < n
            invariant
                i <= n,
                n == self.slots@.len(),
                paths@.len() == i,
                forall|j: int| 0 <= j < i ==> (#[trigger] paths@[j])@ == self.slots@[j].key@,
            decreases n - i,
        {
            paths.push(self.slots[i].key.clone());
            i += 1;
        }
        paths
    }

    /// The cache as text: the text of each directory and a line break, in
    /// the order of `paths`.
    pub fn to_text(&self) -> (text: String)
        requires
            self.wf(),
        ensures
            text@ == cache_text(self@, self.order()),
    {
        let mut text = String::new();
        let n = self.slots.len();
        let mut i: usize = 0;
        assert(self.order().take(0) =~= Seq::<PathModel>::empty());
        while i < n
            invariant
                i <= n,
                n == self.slots@.len(),
                self.wf(),
                text@ == cache_text(self@, self.order().take(i as int)),
            decreases n - i,
        {
            proof {
                reveal_strlit("\n");
                lemma_map_of_slot(self.slots@, i as int);
                assert(self.order().take(i + 1).drop_last() =~= self.order().take(i as int));
                assert(self.order().take(i + 1).last() == self.slots@[i as int].key@);
                assert("\n"@ =~= seq!['\n']);
            }
            let listing = self.slots[i].dir.to_text();
            text.append(listing.as_str());
            text.append("\n");
            i += 1;
        }
        assert(self.order().take(n as int) =~= self.order());
        text
    }

    /// Forgets every directory.
    pub fn clear(&mut self)
        ensures
            final(self).wf(),
            final(self)@ == Map::<PathModel, DirectoryView>::empty(),
            forall|key: PathModel| !final(self)@.contains_key(key),
    {
        self.slots.clear();
        assert(self@ =~= Map::<PathModel, DirectoryView>::empty());
    }
}

} // verus!
