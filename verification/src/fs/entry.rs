//! One child of a listed directory.

use super::metadata::{FileType, Metadata};
use super::path::{DirPath, PathModel};
use crate::boundary::text_from_utf8;
use crate::text::{decimal, decimal_text, first_lines, head_lines};
use std::io::Error;
use vstd::prelude::*;
use vstd::utf8::{decode_utf8, valid_utf8};

verus! {

/// A child as the filesystem enumeration yields it: its name, the icon that
/// the lookup tables assign to it, and its metadata.
#[derive(Debug, Clone, PartialEq, Eq)]
pub struct Node {
    pub name: String,
    pub icon: String,
    pub metadata: Metadata,
}

/// The mathematical content of a `Node`.
pub struct NodeView {
    pub name: Seq<char>,
    pub icon: Seq<char>,
    pub metadata: Metadata,
}

impl View for Node {
    type V = NodeView;

    open spec fn view(&self) -> NodeView {
        NodeView { name: self.name@, icon: self.icon@, metadata: self.metadata }
    }
}

/// Snapshot of one child of a directory.
#[derive(Debug, Clone, PartialEq, Eq)]
pub struct Entry {
    pub name: String,
    /// What is shown for the entry: the name, behind its icon where icons
    /// are switched on.
    pub label: String,
    pub path: DirPath,
    pub flagged: bool,
    pub metadata: Metadata,
}

/// The mathematical content of an `Entry`.
#[verifier::ext_equal]
pub struct EntryView {
    pub name: Seq<char>,
    pub label: Seq<char>,
    pub path: PathModel,
    pub flagged: bool,
    pub metadata: Metadata,
}

impl View for Entry {
    type V = EntryView;

    open spec fn view(&self) -> EntryView {
        EntryView {
            name: self.name@,
            label: self.label@,
            path: self.path@,
            flagged: self.flagged,
            metadata: self.metadata,
        }
    }
}

/// The label of a child: its bare name, or icon, blank and name.
pub open spec fn label_of(node: NodeView, show_icons: bool) -> Seq<char> {
    if show_icons {
        node.icon + seq![' '] + node.name
    } else {
        node.name
    }
}

/// The entry that a child of `parent` becomes. No entry is flagged when it
/// is made.
pub open spec fn entry_of(node: NodeView, parent: PathModel, show_icons: bool) -> EntryView {
    EntryView {
        name: node.name,
        label: label_of(node, show_icons),
        path: parent.join(node.name),
        flagged: false,
        metadata: node.metadata,
    }
}

/// Index of the last dot in `name`.
pub open spec fn last_dot(name: Seq<char>) -> Option<int>
    decreases name.len(),
{
    if name.len() == 0 {
        None
    } else if name.last() == '.' {
        Some(name.len() - 1)
    } else {
        last_dot(name.drop_last())
    }
}

/// The part of `name` from its last dot on, dot included; empty where the
/// name holds no dot.
pub open spec fn extension_of(name: Seq<char>) -> Seq<char> {
    match last_dot(name) {
        Some(i) => name.subrange(i, name.len() as int),
        None => Seq::empty(),
    }
}

/// `last_dot` finds a dot behind which no dot follows, and finds one
/// whenever the name holds a dot.
pub proof fn lemma_last_dot(name: Seq<char>)
    ensures
        match last_dot(name) {
            Some(i) => 0 <= i < name.len() && name[i] == '.' && forall|j: int|
                i < j < name.len() ==> name[j] != '.',
            None => forall|j: int| 0 <= j < name.len() ==> name[j] != '.',
        },
    decreases name.len(),
{
    if name.len() > 0 && name.last() != '.' {
        let front = name.drop_last();
        lemma_last_dot(front);
        assert(forall|j: int| 0 <= j < front.len() ==> front[j] == name[j]);
    }
}

/// The extension of a name: everything from the last dot on, or nothing
/// where the name holds no dot.
pub fn extension_in(name: &str) -> (extension: &str)
    ensures
        extension@ == extension_of(name@),
{
    let n = name.unicode_len();
    let mut i: usize = n;
    while i > 0
        invariant
            i <= n,
            n == name@.len(),
            forall|j: int| i <= j < n ==> name@[j] != '.',
        decreases i,
    {
        if name.get_char(i - 1) == '.' {
            proof {
                lemma_last_dot(name@);
                let dot = i - 1;
                assert(name@[dot] == '.');
                assert(last_dot(name@) == Some(dot));
            }
            return name.substring_char(i - 1, n);
        }
        i -= 1;
    }
    proof {
        reveal_strlit("");
        lemma_last_dot(name@);
    }
    assert(""@ =~= Seq::<char>::empty());
    ""
}

/// Why a preview could not be produced.
#[derive(Debug)]
pub enum PreviewError {
    /// The content could not be read.
    Io(Error),
    /// The content is not valid UTF-8.
    InvalidText,
}

impl Entry {
    /// Builds the entry for a child of `parent`.
    pub fn from(node: Node, parent: &DirPath, show_icons: bool) -> (entry: Self)
        ensures
            entry@ == entry_of(node@, parent@, show_icons),
    {
        let Node { name, icon, metadata } = node;
        let path = parent.join(name.as_str());
        let label = if show_icons {
            let mut label = icon;
            proof {
                reveal_strlit(" ");
            }
            label.append(" ");
            label.append(name.as_str());
            assert(" "@ =~= seq![' ']);
            label
        } else {
            name.clone()
        };
        Self { name, label, path, flagged: false, metadata }
    }

    /// The extension of the entry's name: everything from the last dot on,
    /// or nothing where the name holds no dot.
    pub fn get_extension(&self) -> (extension: &str)
        ensures
            extension@ == extension_of(self.name@),
    {
        extension_in(self.name.as_str())
    }

    /// A short text about the entry. For a directory it reports the number
    /// of children and `content` is not looked at. For a plain file it is
    /// the first `lines` lines of `content`, the bytes read from the file:
    /// a failed read is handed back, and lines that are not valid UTF-8 are
    /// refused as invalid text. What follows those lines is not looked at.
    pub fn preview(&self, lines: usize, content: Result<Vec<u8>, Error>) -> (preview: Result<
        String,
        PreviewError,
    >)
        ensures
            match self.metadata.file_type {
                FileType::Directory(size) => preview matches Ok(text) && text@ == "dir size: "@
                    + decimal_text(size as nat),
                FileType::File => match content {
                    Err(e) => preview == Err::<String, PreviewError>(PreviewError::Io(e)),
                    Ok(bytes) => if valid_utf8(head_lines(bytes@, lines as nat)) {
                        preview matches Ok(text) && text@ == decode_utf8(
                            head_lines(bytes@, lines as nat),
                        )
                    } else {
                        preview == Err::<String, PreviewError>(PreviewError::InvalidText)
                    },
                },
            },
    {
        match self.metadata.file_type {
            FileType::Directory(size) => {
                let mut text = String::from_str("dir size: ");
                let number = decimal(size);
                text.append(number.as_str());
                Ok(text)
            },
            FileType::File => match content {
                Err(e) => Err(PreviewError::Io(e)),
                Ok(bytes) => match text_from_utf8(first_lines(&bytes, lines)) {
                    Some(text) => Ok(text),
                    None => Err(PreviewError::InvalidText),
                },
            },
        }
    }
}

} // verus!
