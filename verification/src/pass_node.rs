//! The entries of a password store: directories, passwords and other files.

use vstd::prelude::*;

verus! {

/// What kind of entry a store entry is.
#[derive(Debug, Clone, Copy, PartialEq, Eq, Structural)]
pub enum EntryKind {
    Password,
    Directory,
    NormalFile,
}

/// An entry of the store with its name and its path.
#[derive(Debug, Clone)]
pub enum PassNode {
    Directory { name: String, path: String },
    Password { name: String, path: String },
    NormalFile { name: String, path: String },
}

impl PassNode {
    /// The kind of the entry.
    pub open spec fn kind_of(&self) -> EntryKind {
        match self {
            PassNode::Password { .. } => EntryKind::Password,
            PassNode::Directory { .. } => EntryKind::Directory,
            PassNode::NormalFile { .. } => EntryKind::NormalFile,
        }
    }

    /// The name of the entry.
    pub open spec fn name_of(&self) -> Seq<char> {
        match self {
            PassNode::Directory { name, .. } => name@,
            PassNode::Password { name, .. } => name@,
            PassNode::NormalFile { name, .. } => name@,
        }
    }

    /// The path of the entry.
    pub open spec fn path_of(&self) -> Seq<char> {
        match self {
            PassNode::Directory { path, .. } => path@,
            PassNode::Password { path, .. } => path@,
            PassNode::NormalFile { path, .. } => path@,
        }
    }

    pub fn kind(&self) -> (res: EntryKind)
        ensures
            res == self.kind_of(),
    {
        match self {
            PassNode::Password { .. } => EntryKind::Password,
            PassNode::Directory { .. } => EntryKind::Directory,
            PassNode::NormalFile { .. } => EntryKind::NormalFile,
        }
    }

    pub fn name(&self) -> (res: &str)
        ensures
            res@ == self.name_of(),
    {
        match self {
            PassNode::Directory { name, .. } => name.as_str(),
            PassNode::Password { name, .. } => name.as_str(),
            PassNode::NormalFile { name, .. } => name.as_str(),
        }
    }

    pub fn path(&self) -> (res: &str)
        ensures
            res@ == self.path_of(),
    {
        match self {
            PassNode::Directory { path, .. } => path.as_str(),
            PassNode::Password { path, .. } => path.as_str(),
            PassNode::NormalFile { path, .. } => path.as_str(),
        }
    }

    /// Whether the entry is a directory.
    pub fn is_dir(&self) -> (res: bool)
        ensures
            res == (self.kind_of() == EntryKind::Directory),
    {
        match self {
            PassNode::Directory { .. } => true,
            _ => false,
        }
    }

    /// Whether the entry is a password.
    pub fn is_password(&self) -> (res: bool)
        ensures
            res == (self.kind_of() == EntryKind::Password),
    {
        match self {
            PassNode::Password { .. } => true,
            _ => false,
        }
    }
}

} // verus!
