//! Directory listings and the cache that holds them.

pub mod cache;
pub mod directory;
pub mod entry;
pub mod metadata;
pub mod path;

pub use cache::{Cache, CacheView, WalkError};
pub use directory::{
    find_index_in, is_good, read_dir_list, Directory, DirectoryView, Listing, ListingView,
};
pub use entry::{extension_in, Entry, EntryView, Node, NodeView, PreviewError};
pub use metadata::{FileType, LinkType, Metadata, Permissions, Stat, Timestamp, UnixData};
pub use path::{DirPath, PathModel};
