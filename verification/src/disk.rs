//! The file operations that the storage asks for, and what they do to a
//! disk.
//!
//! The library never touches a disk. It hands out [`FsAction`] values for
//! its caller to carry out, and reasons about their effect on [`Disk`], a
//! ghost picture of the directory tree.

use crate::path::StoragePath;
use vstd::prelude::*;

verus! {

/// One file operation for the caller to carry out.
#[derive(Debug, PartialEq, Eq)]
pub enum FsAction {
    /// Make `path` a directory, together with every directory above it
    /// that is missing. A directory that is already there is left alone.
    CreateDirAll { path: StoragePath },
    /// Make `path` a file that holds exactly `contents` and may be run,
    /// in place of whatever was at `path`.
    WriteExecutable { path: StoragePath, contents: Vec<u8> },
    /// Make `link` a symbolic link to `target`, in place of whatever was
    /// at `link`.
    WriteLink { link: StoragePath, target: StoragePath },
}

/// What an [`FsAction`] holds.
pub enum FsActionView {
    CreateDirAll { path: Seq<Seq<char>> },
    WriteExecutable { path: Seq<Seq<char>>, contents: Seq<u8> },
    WriteLink { link: Seq<Seq<char>>, target: Seq<Seq<char>> },
}

impl View for FsAction {
    type V = FsActionView;

    open spec fn view(&self) -> FsActionView {
        match self {
            FsAction::CreateDirAll { path } => FsActionView::CreateDirAll { path: path@ },
            FsAction::WriteExecutable { path, contents } => FsActionView::WriteExecutable {
                path: path@,
                contents: contents@,
            },
            FsAction::WriteLink { link, target } => FsActionView::WriteLink {
                link: link@,
                target: target@,
            },
        }
    }
}

impl FsActionView {
    /// The path that the operation creates or replaces.
    pub open spec fn target(self) -> Seq<Seq<char>> {
        match self {
            FsActionView::CreateDirAll { path } => path,
            FsActionView::WriteExecutable { path, .. } => path,
            FsActionView::WriteLink { link, .. } => link,
        }
    }

    /// What stands at the target once the operation has created or
    /// replaced it.
    pub open spec fn node(self) -> Node {
        match self {
            FsActionView::CreateDirAll { .. } => Node::Dir,
            FsActionView::WriteExecutable { contents, .. } => Node::File {
                contents,
                executable: true,
            },
            FsActionView::WriteLink { target, .. } => Node::Link { target },
        }
    }

    /// Whether the operation replaces what is at its target: every
    /// operation but `CreateDirAll` does.
    pub open spec fn is_write(self) -> bool {
        !(self is CreateDirAll)
    }
}

/// The views of `actions`, in order.
pub open spec fn action_views(actions: Seq<FsAction>) -> Seq<FsActionView> {
    Seq::new(actions.len(), |i: int| actions[i]@)
}

/// What stands at one path of a [`Disk`].
pub enum Node {
    Dir,
    File { contents: Seq<u8>, executable: bool },
    Link { target: Seq<Seq<char>> },
}

/// A directory tree: what stands at each path that exists.
pub struct Disk {
    pub nodes: Map<Seq<Seq<char>>, Node>,
}

impl Disk {
    /// Whether `path` is `below` itself or one of the directories above
    /// it.
    pub open spec fn reaches(path: Seq<Seq<char>>, below: Seq<Seq<char>>) -> bool {
        0 < path.len() <= below.len() && path == below.take(path.len() as int)
    }

    /// What stands at `path`, if anything does.
    pub open spec fn at(self, path: Seq<Seq<char>>) -> Option<Node> {
        if self.nodes.contains_key(path) {
            Some(self.nodes[path])
        } else {
            None
        }
    }

    /// The disk once `action` has been carried out with success.
    pub open spec fn after(self, action: FsActionView) -> Disk {
        match action {
            FsActionView::CreateDirAll { path } => Disk {
                nodes: Map::new(
                    |p: Seq<Seq<char>>| self.nodes.contains_key(p) || Self::reaches(p, path),
                    |p: Seq<Seq<char>>|
                        if self.nodes.contains_key(p) {
                            self.nodes[p]
                        } else {
                            Node::Dir
                        },
                ),
            },
            FsActionView::WriteExecutable { path, contents } => Disk {
                nodes: self.nodes.insert(path, Node::File { contents, executable: true }),
            },
            FsActionView::WriteLink { link, target } => Disk {
                nodes: self.nodes.insert(link, Node::Link { target }),
            },
        }
    }

    /// The disk once `actions` have been carried out with success, first
    /// to last.
    pub open spec fn after_all(self, actions: Seq<FsActionView>) -> Disk
        decreases actions.len(),
    {
        if actions.len() == 0 {
            self
        } else {
            self.after_all(actions.drop_last()).after(actions.last())
        }
    }

    /// What a reader finds at `path`: the bytes of the file that stands
    /// there, or of the file that the link standing there points to.
    pub open spec fn read(self, path: Seq<Seq<char>>) -> Option<Seq<u8>> {
        match self.at(path) {
            Some(Node::File { contents, .. }) => Some(contents),
            Some(Node::Link { target }) => match self.at(target) {
                Some(Node::File { contents, .. }) => Some(contents),
                _ => None,
            },
            _ => None,
        }
    }

    /// The names of what stands directly in `dir`.
    pub open spec fn names_in(self, dir: Seq<Seq<char>>) -> Set<Seq<char>> {
        Set::new(|name: Seq<char>| self.nodes.contains_key(dir.push(name)))
    }
}

/// After a run of operations that all replace what is at their target,
/// a path that none of them names is as it was, and a path that some of
/// them name holds what one of those wrote.
pub proof fn lemma_after_writes(disk: Disk, actions: Seq<FsActionView>, path: Seq<Seq<char>>)
    requires
        forall|i: int| 0 <= i < actions.len() ==> (#[trigger] actions[i]).is_write(),
    ensures
        (forall|i: int| 0 <= i < actions.len() ==> (#[trigger] actions[i]).target() != path)
            ==> disk.after_all(actions).at(path) == disk.at(path),
        (exists|i: int| 0 <= i < actions.len() && (#[trigger] actions[i]).target() == path)
            ==> exists|i: int|
            0 <= i < actions.len() && (#[trigger] actions[i]).target() == path
                && disk.after_all(actions).at(path) == Some(actions[i].node()),
    decreases actions.len(),
{
    if actions.len() > 0 {
        let before = actions.drop_last();
        let last = actions.last();
        assert(forall|i: int| 0 <= i < before.len() ==> before[i] == actions[i]);
        lemma_after_writes(disk, before, path);
        assert(last == actions[actions.len() - 1]);
        assert(last.is_write());
        if last.target() == path {
        } else if exists|i: int| 0 <= i < actions.len() && (#[trigger] actions[i]).target() == path {
            let i = choose|i: int|
                0 <= i < actions.len() && (#[trigger] actions[i]).target() == path;
            assert(before[i].target() == path);
            let k = choose|k: int|
                0 <= k < before.len() && (#[trigger] before[k]).target() == path
                    && disk.after_all(before).at(path) == Some(before[k].node());
            assert(actions[k].target() == path);
        }
    }
}

} // verus!
