//! What is known of one filesystem node at the moment it was read.

use vstd::prelude::*;

verus! {

/// A point in time, as whole seconds and nanoseconds relative to the Unix epoch.
#[derive(Debug, Clone, Copy, PartialEq, Eq, Structural)]
pub struct Timestamp {
    pub secs: i64,
    pub nanos: u32,
}

/// Nanoseconds in a second.
pub const NANOS_PER_SEC: u32 = 1_000_000_000;

impl Timestamp {
    /// Order of two timestamps: seconds first, nanoseconds second.
    pub open spec fn after(self, other: Timestamp) -> bool {
        self.secs > other.secs || (self.secs == other.secs && self.nanos > other.nanos)
    }

    /// The nanoseconds stay below one second.
    pub open spec fn normal(self) -> bool {
        self.nanos < NANOS_PER_SEC
    }

    /// The instant in nanoseconds relative to the epoch.
    pub open spec fn instant(self) -> int {
        self.secs * NANOS_PER_SEC + self.nanos
    }

    /// On normal timestamps `after` is the order of the instants.
    pub proof fn lemma_after_is_later(a: Timestamp, b: Timestamp)
        requires
            a.normal(),
            b.normal(),
        ensures
            a.after(b) <==> a.instant() > b.instant(),
    {
        assert(a.secs > b.secs ==> a.secs * NANOS_PER_SEC >= (b.secs + 1) * NANOS_PER_SEC)
            by (nonlinear_arith);
        assert(a.secs < b.secs ==> (a.secs + 1) * NANOS_PER_SEC <= b.secs * NANOS_PER_SEC)
            by (nonlinear_arith);
        assert((b.secs + 1) * NANOS_PER_SEC == b.secs * NANOS_PER_SEC + NANOS_PER_SEC)
            by (nonlinear_arith);
        assert((a.secs + 1) * NANOS_PER_SEC == a.secs * NANOS_PER_SEC + NANOS_PER_SEC)
            by (nonlinear_arith);
    }

    /// The instant that lies `secs` seconds and `nanos` nanoseconds behind
    /// the epoch. Seconds beyond the largest that fit are cut to it.
    pub fn since_epoch(secs: u64, nanos: u32) -> (t: Self)
        ensures
            t.nanos == nanos,
            secs <= i64::MAX ==> t.secs == secs,
            secs > i64::MAX ==> t.secs == i64::MAX,
            secs <= i64::MAX ==> t.instant() == secs * NANOS_PER_SEC + nanos,
    {
        if secs > 0x7fff_ffff_ffff_ffff {
            Self { secs: i64::MAX, nanos }
        } else {
            Self { secs: secs as i64, nanos }
        }
    }

    /// The instant that lies `secs` seconds and `nanos` nanoseconds before
    /// the epoch, with the nanoseconds counted forward from a whole second,
    /// as the order of timestamps needs them. An instant before the earliest
    /// that fits is cut to it.
    pub fn before_epoch(secs: u64, nanos: u32) -> (t: Self)
        requires
            nanos < NANOS_PER_SEC,
        ensures
            t.normal(),
            secs <= i64::MAX ==> t.instant() == -(secs * NANOS_PER_SEC + nanos),
            secs > i64::MAX ==> t == (Timestamp { secs: i64::MIN, nanos: 0 }),
    {
        if secs > 0x7fff_ffff_ffff_ffff {
            Self { secs: i64::MIN, nanos: 0 }
        } else {
            let whole: i64 = -(secs as i64);
            if nanos == 0 {
                assert(whole * NANOS_PER_SEC == -(secs * NANOS_PER_SEC)) by (nonlinear_arith)
                    requires
                        whole == -secs,
                ;
                Self { secs: whole, nanos: 0 }
            } else {
                assert((whole - 1) * NANOS_PER_SEC + (NANOS_PER_SEC - nanos) == -(secs
                    * NANOS_PER_SEC + nanos)) by (nonlinear_arith)
                    requires
                        whole == -secs,
                ;
                Self { secs: whole - 1, nanos: NANOS_PER_SEC - nanos }
            }
        }
    }

    pub fn new(secs: i64, nanos: u32) -> (t: Self)
        ensures
            t.secs == secs,
            t.nanos == nanos,
    {
        Self { secs, nanos }
    }

    /// Whether `self` is strictly later than `other`.
    pub fn later_than(&self, other: &Timestamp) -> (later: bool)
        ensures
            later == self.after(*other),
    {
        self.secs > other.secs || (self.secs == other.secs && self.nanos > other.nanos)
    }
}

/// Access rights of a node, as far as every platform reports them.
#[derive(Debug, Clone, Copy, PartialEq, Eq, Structural)]
pub struct Permissions {
    pub readonly: bool,
}

/// A plain file, or a directory with the number of its children.
#[derive(Debug, Clone, Copy, PartialEq, Eq, Structural)]
pub enum FileType {
    File,
    Directory(usize),
}

/// Whether the node is a symbolic link, and if so where it points.
#[derive(Debug, Clone, PartialEq, Eq)]
pub enum LinkType {
    Normal,
    Symlink(String),
}

/// Owner and mode bits of a node.
#[derive(Debug, Clone, Copy, PartialEq, Eq, Structural)]
pub struct UnixData {
    pub uid: u32,
    pub gid: u32,
    pub mode: u32,
}

/// The raw answers of the filesystem about one node, before they are
/// interpreted.
#[derive(Debug, Clone, PartialEq, Eq)]
pub struct Stat {
    /// Size in bytes of what the path resolves to.
    pub len: u64,
    pub modified: Timestamp,
    pub permissions: Permissions,
    /// Whether the path resolves to a directory.
    pub is_dir: bool,
    /// Number of children; meaningful only where `is_dir` holds.
    pub children: usize,
    /// Whether the node itself is a symbolic link.
    pub is_symlink: bool,
    /// The link's target, where it could be read and is valid text.
    pub target: Option<String>,
    pub unix_data: UnixData,
}

/// Snapshot of a node's metadata. It is never updated in place: a reload
/// replaces it as a whole.
#[derive(Debug, Clone, PartialEq, Eq)]
pub struct Metadata {
    pub len: u64,
    pub modified: Timestamp,
    pub permissions: Permissions,
    pub file_type: FileType,
    pub link_type: LinkType,
    pub unix_data: UnixData,
}

/// The file type that a `Stat` describes.
pub open spec fn file_type_of(stat: Stat) -> FileType {
    if stat.is_dir {
        FileType::Directory(stat.children)
    } else {
        FileType::File
    }
}

/// The text of the link target that a `Stat` describes: empty where the
/// target is unknown.
pub open spec fn target_of(stat: Stat) -> Seq<char> {
    match stat.target {
        Some(t) => t@,
        None => Seq::empty(),
    }
}

impl Metadata {
    /// Interprets the raw answers: a directory carries its child count, a
    /// symbolic link carries its target, or the empty text where the target
    /// could not be read.
    pub fn from(stat: Stat) -> (metadata: Self)
        ensures
            metadata.len == stat.len,
            metadata.modified == stat.modified,
            metadata.permissions == stat.permissions,
            metadata.unix_data == stat.unix_data,
            metadata.file_type == file_type_of(stat),
            stat.is_symlink ==> (metadata.link_type matches LinkType::Symlink(t) && t@ == target_of(
                stat,
            )),
            !stat.is_symlink ==> metadata.link_type is Normal,
    {
        let file_type = if stat.is_dir {
            FileType::Directory(stat.children)
        } else {
            FileType::File
        };
        let link_type = if stat.is_symlink {
            match stat.target {
                Some(target) => LinkType::Symlink(target),
                None => LinkType::Symlink(String::new()),
            }
        } else {
            LinkType::Normal
        };
        Self {
            len: stat.len,
            modified: stat.modified,
            permissions: stat.permissions,
            file_type,
            link_type,
            unix_data: stat.unix_data,
        }
    }

    /// Whether the node, read again at `fresh`, has changed since this snapshot.
    pub fn older_than(&self, fresh: &Timestamp) -> (older: bool)
        ensures
            older == fresh.after(self.modified),
    {
        fresh.later_than(&self.modified)
    }
}

} // verus!
