//! The records of a directory listing: what an enumeration yields for each
//! child, and the entry that is shown for it.

use vstd::prelude::*;
use vstd::string::*;

verus! {

/// One child of a listed directory, as it is shown.
#[derive(Debug, PartialEq, Eq)]
pub struct FileEntry {
    /// The last segment of the child's path.
    pub name: String,
    /// The child's full path.
    pub path: String,
    /// Whether the child is a directory.
    pub is_dir: bool,
    /// The length of a file in bytes; zero for a directory.
    pub size: u64,
    /// When the child was last changed, in whole seconds since the Unix
    /// epoch; zero where that is unknown or lies before the epoch.
    pub modified: u64,
}

/// An entry as a mathematical value.
pub struct EntryView {
    pub name: Seq<char>,
    pub path: Seq<char>,
    pub is_dir: bool,
    pub size: u64,
    pub modified: u64,
}

impl View for FileEntry {
    type V = EntryView;

    open spec fn view(&self) -> EntryView {
        EntryView {
            name: self.name@,
            path: self.path@,
            is_dir: self.is_dir,
            size: self.size,
            modified: self.modified,
        }
    }
}

impl Clone for FileEntry {
    fn clone(&self) -> (copy: Self)
        ensures
            copy == *self,
    {
        FileEntry {
            name: self.name.clone(),
            path: self.path.clone(),
            is_dir: self.is_dir,
            size: self.size,
            modified: self.modified,
        }
    }
}

/// When a child was last changed, as the file system tells it.
#[derive(Clone, Copy, Debug, PartialEq, Eq, Structural)]
pub enum ModifiedTime {
    /// The file system gives no time of change.
    Unavailable,
    /// The time of change lies before the Unix epoch.
    BeforeEpoch,
    /// The whole seconds from the Unix epoch to the time of change.
    SinceEpoch(u64),
}

/// What the file system tells of a child.
#[derive(Clone, Copy, Debug, PartialEq, Eq, Structural)]
pub struct Metadata {
    /// Whether the child is a directory.
    pub is_dir: bool,
    /// The length that the file system reports, in bytes.
    pub size: u64,
    /// When the child was last changed.
    pub modified: ModifiedTime,
}

/// A child that the enumeration of a directory reached.
#[derive(Clone, Debug, PartialEq, Eq)]
pub struct Child {
    /// The last segment of the child's path.
    pub name: String,
    /// The child's full path.
    pub path: String,
    /// The child's metadata, or nothing where it could not be had.
    pub metadata: Option<Metadata>,
}

/// The time of change that is shown: the seconds since the epoch where they
/// are known, and zero otherwise.
pub open spec fn modified_seconds_of(modified: ModifiedTime) -> u64 {
    match modified {
        ModifiedTime::SinceEpoch(seconds) => seconds,
        ModifiedTime::BeforeEpoch => 0,
        ModifiedTime::Unavailable => 0,
    }
}

/// The size that is shown: the reported length of a file, and zero for a
/// directory.
pub open spec fn shown_size(metadata: Metadata) -> u64 {
    if metadata.is_dir {
        0
    } else {
        metadata.size
    }
}

/// The entry shown for a child with the given name, path and metadata.
pub open spec fn entry_of(name: Seq<char>, path: Seq<char>, metadata: Metadata) -> EntryView {
    EntryView {
        name,
        path,
        is_dir: metadata.is_dir,
        size: shown_size(metadata),
        modified: modified_seconds_of(metadata.modified),
    }
}

/// The entry that one step of an enumeration contributes: that of the child
/// it reached, where it reached one and the child's metadata could be had.
pub open spec fn shown_entry(step: Option<Child>) -> Option<EntryView> {
    match step {
        Some(child) => match child.metadata {
            Some(metadata) => Some(entry_of(child.name@, child.path@, metadata)),
            None => None,
        },
        None => None,
    }
}

/// The time of change that is shown for a child.
pub fn modified_seconds(modified: ModifiedTime) -> (seconds: u64)
    ensures
        seconds == modified_seconds_of(modified),
{
    match modified {
        ModifiedTime::SinceEpoch(seconds) => seconds,
        ModifiedTime::BeforeEpoch => 0,
        ModifiedTime::Unavailable => 0,
    }
}

impl FileEntry {
    /// The entry shown for `child`, or nothing where its metadata could not
    /// be had.
    pub fn of_child(child: &Child) -> (entry: Option<FileEntry>)
        ensures
            match entry {
                Some(e) => shown_entry(Some(*child)) == Some(e@),
                None => shown_entry(Some(*child)) is None,
            },
    {
        match child.metadata {
            Some(metadata) => Some(
                FileEntry {
                    name: child.name.clone(),
                    path: child.path.clone(),
                    is_dir: metadata.is_dir,
                    size: if metadata.is_dir {
                        0
                    } else {
                        metadata.size
                    },
                    modified: modified_seconds(metadata.modified),
                },
            ),
            None => None,
        }
    }
}

} // verus!
