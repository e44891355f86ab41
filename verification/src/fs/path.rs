//! Paths as the cache sees them: an anchor and a list of components.
//!
//! The ancestors of a path are its prefixes, down to the path with no
//! components at all, which is the root.

use vstd::prelude::*;

verus! {

/// The mathematical content of a path.
#[verifier::ext_equal]
pub struct PathModel {
    /// Whether the path starts at the filesystem root.
    pub absolute: bool,
    /// The components below the anchor, outermost first.
    pub parts: Seq<Seq<char>>,
}

impl PathModel {
    /// Number of components.
    pub open spec fn depth(self) -> nat {
        self.parts.len()
    }

    /// The path that is left when the last `k` components are dropped. With
    /// `k == 0` this is the path itself, with `k == depth()` the root.
    pub open spec fn ancestor(self, k: nat) -> PathModel {
        PathModel {
            absolute: self.absolute,
            parts: if k <= self.parts.len() {
                self.parts.take(self.parts.len() - k)
            } else {
                Seq::empty()
            },
        }
    }

    /// The root that the path hangs from.
    pub open spec fn root(self) -> PathModel {
        PathModel { absolute: self.absolute, parts: Seq::empty() }
    }

    /// The last component, if there is one.
    pub open spec fn file_name(self) -> Option<Seq<char>> {
        if self.parts.len() > 0 {
            Some(self.parts.last())
        } else {
            None
        }
    }

    /// The path without its last component; the root has no parent.
    pub open spec fn parent(self) -> Option<PathModel> {
        if self.parts.len() > 0 {
            Some(self.ancestor(1))
        } else {
            None
        }
    }

    /// The path one component further down.
    pub open spec fn join(self, name: Seq<char>) -> PathModel {
        PathModel { absolute: self.absolute, parts: self.parts.push(name) }
    }
}

/// The texts of a run of strings.
pub open spec fn texts(parts: Seq<String>) -> Seq<Seq<char>> {
    parts.map_values(|s: String| s@)
}

/// A path: an anchor and its components, outermost first. A component is
/// a name like any other, `.` and `..` included: nothing is resolved.
#[derive(Debug, PartialEq, Eq, Hash)]
pub struct DirPath {
    pub absolute: bool,
    pub components: Vec<String>,
}

impl View for DirPath {
    type V = PathModel;

    open spec fn view(&self) -> PathModel {
        PathModel { absolute: self.absolute, parts: texts(self.components@) }
    }
}

impl Clone for DirPath {
    fn clone(&self) -> (copy: Self)
        ensures
            copy@ == self@,
    {
        let copy = self.ancestor(0);
        assert(copy@.parts =~= self@.parts);
        copy
    }
}

impl DirPath {
    pub fn new(absolute: bool, components: Vec<String>) -> (path: Self)
        ensures
            path@.absolute == absolute,
            path@.parts == texts(components@),
    {
        Self { absolute, components }
    }

    /// Number of components.
    pub fn depth(&self) -> (n: usize)
        ensures
            n == self@.depth(),
    {
        self.components.len()
    }

    /// The last component, if there is one.
    pub fn file_name(&self) -> (name: Option<&String>)
        ensures
            match name {
                Some(n) => self@.file_name() == Some(n@),
                None => self@.file_name() is None,
            },
    {
        let n = self.components.len();
        if n > 0 {
            Some(&self.components[n - 1])
        } else {
            None
        }
    }

    /// The path that is left when the last `k` components are dropped; the
    /// root where `k` exceeds the depth.
    pub fn ancestor(&self, k: usize) -> (up: Self)
        ensures
            up@ == self@.ancestor(k as nat),
    {
        let n = self.components.len();
        let keep = if k <= n {
            n - k
        } else {
            0
        };
        let mut components: Vec<String> = Vec::new();
        let mut i: usize = 0;
        while i < keep
            invariant
                i <= keep <= n,
                n == self.components@.len(),
                components@.len() == i,
                forall|j: int| 0 <= j < i ==> components@[j]@ == self.components@[j]@,
            decreases keep - i,
        {
            components.push(self.components[i].clone());
            i += 1;
        }
        let up = Self { absolute: self.absolute, components };
        assert(up@.parts =~= self@.ancestor(k as nat).parts);
        up
    }

    /// The path without its last component; the root has no parent.
    pub fn parent(&self) -> (up: Option<Self>)
        ensures
            match up {
                Some(p) => self@.parent() == Some(p@),
                None => self@.parent() is None,
            },
    {
        if self.components.len() > 0 {
            Some(self.ancestor(1))
        } else {
            None
        }
    }

    /// The path one component further down.
    pub fn join(&self, name: &str) -> (down: Self)
        ensures
            down@ == self@.join(name@),
    {
        let mut down = self.ancestor(0);
        assert(down@.parts =~= self@.parts);
        down.components.push(String::from_str(name));
        assert(down@.parts =~= self@.parts.push(name@));
        down
    }

    /// Whether two paths have the same anchor and the same components.
    pub fn same(&self, other: &DirPath) -> (same: bool)
        ensures
            same == (self@ == other@),
    {
        if self.absolute != other.absolute || self.components.len() != other.components.len() {
            assert(self@.parts.len() == self.components@.len());
            assert(other@.parts.len() == other.components@.len());
            return false;
        }
        let n = self.components.len();
        let mut i: usize = 0;
        while i < n
            invariant
                i <= n,
                n == self.components@.len(),
                n == other.components@.len(),
                forall|j: int| 0 <= j < i ==> self.components@[j]@ == other.components@[j]@,
            decreases n - i,
        {
            if self.components[i] != other.components[i] {
                assert(self@.parts[i as int] != other@.parts[i as int]);
                return false;
            }
            i += 1;
        }
        assert(self@.parts =~= other@.parts);
        true
    }
}

} // verus!
