//! Where tool binaries and aliases are stored, and how the alias directory
//! is brought in line with the manager binary.

use crate::disk::{action_views, FsAction, FsActionView};
use crate::path::StoragePath;
use crate::tool::{ToolAlias, ToolSpec, ToolSpecView};
use vstd::prelude::*;

verus! {

/// The texts of `strings`, in order.
pub open spec fn texts(strings: Seq<String>) -> Seq<Seq<char>> {
    strings.map_values(|s: String| s@)
}

/// The bytes that were found, or none where nothing was found.
pub open spec fn found_bytes(found: Option<Vec<u8>>) -> Seq<u8> {
    match found {
        Some(bytes) => bytes@,
        None => Seq::empty(),
    }
}

/// What an operation answers that needs the bytes of the manager
/// executable.
#[derive(Debug, PartialEq, Eq)]
pub enum Step<T> {
    /// The bytes are not known yet. The caller reads the file at `path`,
    /// hands what it read to [`ToolStorage::cache_contents`] and asks
    /// again.
    ReadExe { path: StoragePath },
    /// The answer.
    Ready(T),
}

/// How to bring the alias directory in line with the manager binary.
///
/// `manager` is carried out first. The operations in `links` follow once it
/// is done, in any order or side by side: no two of them depend on each
/// other. The first operation that fails ends the run with its error;
/// what was written before stays.
#[derive(Debug, PartialEq, Eq)]
pub struct Reconciliation {
    /// Whether the manager's own entry was among the entries found.
    pub found: bool,
    /// Whether the bytes found at the manager's own entry differ from the
    /// bytes that `manager` writes.
    pub changed: bool,
    /// Writes the manager's own entry.
    pub manager: FsAction,
    /// One operation for every other entry found.
    pub links: Vec<FsAction>,
}

/// What a [`Reconciliation`] holds.
pub struct ReconciliationView {
    pub found: bool,
    pub changed: bool,
    pub manager: FsActionView,
    pub links: Seq<FsActionView>,
}

impl ReconciliationView {
    /// The operations in one order in which they may be carried out: the
    /// manager's own entry first, then the others as listed.
    pub open spec fn actions(self) -> Seq<FsActionView> {
        seq![self.manager] + self.links
    }
}

impl View for Reconciliation {
    type V = ReconciliationView;

    open spec fn view(&self) -> ReconciliationView {
        ReconciliationView {
            found: self.found,
            changed: self.changed,
            manager: self.manager@,
            links: action_views(self.links@),
        }
    }
}

/// Storage for tool binaries and aliases.
///
/// `tools_dir` holds one binary per tool version, `aliases_dir` one entry
/// per alias and one for the manager itself. `current_exe_contents` holds
/// the bytes of the running manager executable once they are known; they
/// stay as they are until [`ToolStorage::replace_aftman_contents`] is given
/// new ones.
#[derive(Debug)]
pub struct ToolStorage {
    tools_dir: StoragePath,
    aliases_dir: StoragePath,
    current_exe_path: StoragePath,
    current_exe_contents: Option<Vec<u8>>,
    exe_suffix: String,
    symlinks: bool,
}

/// What a [`ToolStorage`] holds.
pub struct ToolStorageView {
    pub tools_dir: Seq<Seq<char>>,
    pub aliases_dir: Seq<Seq<char>>,
    pub current_exe_path: Seq<Seq<char>>,
    pub current_exe_contents: Option<Seq<u8>>,
    pub exe_suffix: Seq<char>,
    pub symlinks: bool,
}

impl View for ToolStorage {
    type V = ToolStorageView;

    closed spec fn view(&self) -> ToolStorageView {
        ToolStorageView {
            tools_dir: self.tools_dir@,
            aliases_dir: self.aliases_dir@,
            current_exe_path: self.current_exe_path@,
            current_exe_contents: match self.current_exe_contents {
                Some(bytes) => Some(bytes@),
                None => None,
            },
            exe_suffix: self.exe_suffix@,
            symlinks: self.symlinks,
        }
    }
}

impl ToolStorageView {
    /// The directory of one tool version:
    /// `tools_dir/author/name/version`.
    pub open spec fn tool_dir(self, spec: ToolSpecView) -> Seq<Seq<char>> {
        self.tools_dir.push(spec.author).push(spec.name).push(spec.version)
    }

    /// The binary of one tool version:
    /// `tools_dir/author/name/version/name` with the executable suffix.
    pub open spec fn tool_path(self, spec: ToolSpecView) -> Seq<Seq<char>> {
        self.tool_dir(spec).push(spec.name + self.exe_suffix)
    }

    /// The file name of the manager's own entry in `aliases_dir`.
    pub open spec fn aftman_name(self) -> Seq<char> {
        "aftman"@ + self.exe_suffix
    }

    /// The manager's own entry: `aliases_dir/aftman` with the executable
    /// suffix.
    pub open spec fn aftman_path(self) -> Seq<Seq<char>> {
        self.aliases_dir.push(self.aftman_name())
    }

    /// The entry of `alias`: `aliases_dir/alias` with the executable
    /// suffix.
    pub open spec fn alias_path(self, alias: Seq<char>) -> Seq<Seq<char>> {
        self.aliases_dir.push(alias + self.exe_suffix)
    }

    /// The operations that create the two directories of the storage.
    pub open spec fn directories(self) -> Seq<FsActionView> {
        seq![
            FsActionView::CreateDirAll { path: self.tools_dir },
            FsActionView::CreateDirAll { path: self.aliases_dir },
        ]
    }

    /// The operations that store `contents` as the binary of a tool
    /// version: its directory is created, then its binary is written.
    pub open spec fn stored(self, spec: ToolSpecView, contents: Seq<u8>) -> Seq<FsActionView> {
        seq![
            FsActionView::CreateDirAll { path: self.tool_dir(spec) },
            FsActionView::WriteExecutable { path: self.tool_path(spec), contents },
        ]
    }

    /// This storage with `contents` as the known bytes of the manager
    /// executable.
    pub open spec fn with_contents(self, contents: Seq<u8>) -> ToolStorageView {
        ToolStorageView { current_exe_contents: Some(contents), ..self }
    }

    /// Writes `contents` to the manager's own entry.
    pub open spec fn write_aftman(self, contents: Seq<u8>) -> FsActionView {
        FsActionView::WriteExecutable { path: self.aftman_path(), contents }
    }

    /// What is done for the entry called `name`, other than the manager's
    /// own: with symbolic links it becomes a link to the manager's entry,
    /// without them a file with the manager's bytes.
    pub open spec fn link_action(self, name: Seq<char>, contents: Seq<u8>) -> FsActionView {
        if self.symlinks {
            FsActionView::WriteLink { link: self.aliases_dir.push(name), target: self.aftman_path() }
        } else {
            FsActionView::WriteExecutable { path: self.aliases_dir.push(name), contents }
        }
    }

    /// The entries other than the manager's own, in the order found.
    pub open spec fn other_entries(self, entries: Seq<Seq<char>>) -> Seq<Seq<char>> {
        entries.filter(|name: Seq<char>| name != self.aftman_name())
    }

    /// One operation for each of `entries` other than the manager's own, in
    /// the order found.
    pub open spec fn link_actions(
        self,
        entries: Seq<Seq<char>>,
        contents: Seq<u8>,
    ) -> Seq<FsActionView> {
        self.other_entries(entries).map_values(|name: Seq<char>| self.link_action(name, contents))
    }

    /// The reconciliation for a manager executable that holds `contents`,
    /// where the alias directory was found to hold `entries` and the
    /// manager's own entry to hold `existing`.
    pub open spec fn reconciled(
        self,
        contents: Seq<u8>,
        entries: Seq<Seq<char>>,
        existing: Seq<u8>,
    ) -> ReconciliationView {
        ReconciliationView {
            found: entries.contains(self.aftman_name()),
            changed: existing != contents,
            manager: self.write_aftman(contents),
            links: self.link_actions(entries, contents),
        }
    }
}

/// Whether `left` and `right` hold the same bytes.
fn same_bytes(left: &Vec<u8>, right: &Vec<u8>) -> (same: bool)
    ensures
        same == (left@ == right@),
{
    if left.len() != right.len() {
        return false;
    }
    let mut i: usize = 0;
    while i < left.len()
        invariant
            left.len() == right.len(),
            i <= left.len(),
            left@.take(i as int) == right@.take(i as int),
        decreases left.len() - i,
    {
        if left[i] != right[i] {
            return false;
        }
        assert(left@.take(i as int + 1) =~= left@.take(i as int).push(left@[i as int]));
        assert(right@.take(i as int + 1) =~= right@.take(i as int).push(right@[i as int]));
        i += 1;
    }
    assert(left@ =~= left@.take(i as int));
    assert(right@ =~= right@.take(i as int));
    true
}

/// A second vector with the bytes of `bytes`.
fn copy_bytes(bytes: &Vec<u8>) -> (copy: Vec<u8>)
    ensures
        copy@ == bytes@,
{
    let mut copy: Vec<u8> = Vec::with_capacity(bytes.len());
    copy.extend_from_slice(bytes.as_slice());
    assert(copy@ =~= bytes@);
    copy
}

impl ToolStorage {
    /// The storage below `home`, for a manager that runs from
    /// `current_exe`, together with the operations that create its two
    /// directories.
    ///
    /// `exe_suffix` is what the platform puts at the end of an executable's
    /// file name, and `symlinks` says whether it has symbolic links.
    pub fn load(home: &str, current_exe: &str, exe_suffix: &str, symlinks: bool) -> (loaded: (
        ToolStorage,
        Vec<FsAction>,
    ))
        ensures
            loaded.0@ == (ToolStorageView {
                tools_dir: seq![home@, "tool-storage"@],
                aliases_dir: seq![home@, "bin"@],
                current_exe_path: seq![current_exe@],
                current_exe_contents: None,
                exe_suffix: exe_suffix@,
                symlinks,
            }),
            action_views(loaded.1@) == loaded.0@.directories(),
    {
        let home_path = StoragePath::new(home);
        let tools_dir = home_path.join("tool-storage");
        let aliases_dir = home_path.join("bin");
        let mut create: Vec<FsAction> = Vec::new();
        create.push(FsAction::CreateDirAll { path: tools_dir.clone() });
        create.push(FsAction::CreateDirAll { path: aliases_dir.clone() });
        let storage = ToolStorage {
            tools_dir,
            aliases_dir,
            current_exe_path: StoragePath::new(current_exe),
            current_exe_contents: None,
            exe_suffix: exe_suffix.to_owned(),
            symlinks,
        };
        assert(storage@.tools_dir =~= seq![home@, "tool-storage"@]);
        assert(storage@.aliases_dir =~= seq![home@, "bin"@]);
        assert(action_views(create@) =~= storage@.directories());
        (storage, create)
    }

    /// The directory below which the tool binaries are stored.
    pub fn tools_dir(&self) -> (path: &StoragePath)
        ensures
            path@ == self@.tools_dir,
    {
        &self.tools_dir
    }

    /// The directory that holds the aliases and the manager's own entry.
    pub fn aliases_dir(&self) -> (path: &StoragePath)
        ensures
            path@ == self@.aliases_dir,
    {
        &self.aliases_dir
    }

    /// The path of the manager executable that is running.
    pub fn current_exe_path(&self) -> (path: &StoragePath)
        ensures
            path@ == self@.current_exe_path,
    {
        &self.current_exe_path
    }

    /// What the platform puts at the end of an executable's file name.
    pub fn exe_suffix(&self) -> (suffix: &str)
        ensures
            suffix@ == self@.exe_suffix,
    {
        self.exe_suffix.as_str()
    }

    /// Whether the platform has symbolic links.
    pub fn symlinks(&self) -> (symlinks: bool)
        ensures
            symlinks == self@.symlinks,
    {
        self.symlinks
    }

    /// The directory and the binary of the given tool.
    pub fn tool_paths(&self, spec: &ToolSpec) -> (paths: (StoragePath, StoragePath))
        ensures
            paths.0@ == self@.tool_dir(spec@),
            paths.1@ == self@.tool_path(spec@),
    {
        let tool_dir = self.tools_dir.join(spec.author()).join(spec.name()).join(spec.version());
        let mut file_name = spec.name().to_owned();
        file_name.append(self.exe_suffix.as_str());
        let tool_file = tool_dir.join(file_name.as_str());
        (tool_dir, tool_file)
    }

    /// The path to the binary of the given tool. Whether a binary is there
    /// is not looked at.
    pub fn tool_path(&self, spec: &ToolSpec) -> (path: StoragePath)
        ensures
            path@ == self@.tool_path(spec@),
    {
        self.tool_paths(spec).1
    }

    /// The file name of the manager's own entry in the alias directory.
    pub fn aftman_name(&self) -> (name: String)
        ensures
            name@ == self@.aftman_name(),
    {
        let mut name = "aftman".to_owned();
        name.append(self.exe_suffix.as_str());
        name
    }

    /// The path to the manager's own entry in the alias directory.
    pub fn aftman_path(&self) -> (path: StoragePath)
        ensures
            path@ == self@.aftman_path(),
    {
        let name = self.aftman_name();
        self.aliases_dir.join(name.as_str())
    }

    /// The path to the entry of `alias` in the alias directory.
    pub fn alias_path(&self, alias: &ToolAlias) -> (path: StoragePath)
        ensures
            path@ == self@.alias_path(alias@),
    {
        let mut name = alias.name().to_owned();
        name.append(self.exe_suffix.as_str());
        self.aliases_dir.join(name.as_str())
    }

    /// The bytes of the manager executable if they are known, else the
    /// demand to read them.
    pub fn aftman_contents(&self) -> (step: Step<Vec<u8>>)
        ensures
            match self@.current_exe_contents {
                Some(contents) => step matches Step::Ready(bytes) && bytes@ == contents,
                None => step matches Step::ReadExe { path } && path@ == self@.current_exe_path,
            },
    {
        match &self.current_exe_contents {
            Some(contents) => Step::Ready(copy_bytes(contents)),
            None => Step::ReadExe { path: self.current_exe_path.clone() },
        }
    }

    /// Takes `read`, the bytes read from the manager executable, and
    /// returns the bytes that count from now on: those already known where
    /// there were any, else `read`, which is then kept.
    pub fn cache_contents(&mut self, read: Vec<u8>) -> (contents: Vec<u8>)
        ensures
            contents@ == match old(self)@.current_exe_contents {
                Some(known) => known,
                None => read@,
            },
            final(self)@ == old(self)@.with_contents(contents@),
    {
        match &self.current_exe_contents {
            Some(known) => copy_bytes(known),
            None => {
                let contents = copy_bytes(&read);
                self.current_exe_contents = Some(read);
                contents
            },
        }
    }

    /// The operations that store `contents` as the binary of the given
    /// tool: create the directory of that tool version, then write the
    /// binary, in place of any binary that was there.
    pub fn replace_tool_contents(&self, spec: &ToolSpec, contents: &Vec<u8>) -> (actions: Vec<
        FsAction,
    >)
        ensures
            action_views(actions@) == self@.stored(spec@, contents@),
    {
        let (dir_path, file_path) = self.tool_paths(spec);
        let mut actions: Vec<FsAction> = Vec::new();
        actions.push(FsAction::CreateDirAll { path: dir_path });
        actions.push(FsAction::WriteExecutable { path: file_path, contents: copy_bytes(contents) });
        assert(action_views(actions@) =~= self@.stored(spec@, contents@));
        actions
    }

    /// The operation that writes the manager's own entry.
    ///
    /// Given `contents`, those bytes are written, and they are the known
    /// bytes of the manager executable from now on. Given none, the known
    /// bytes are written; where none are known the answer is the demand to
    /// read them, and nothing changes.
    pub fn replace_aftman_contents(&mut self, contents: Option<Vec<u8>>) -> (step: Step<FsAction>)
        ensures
            match (contents, old(self)@.current_exe_contents) {
                (Some(given), _) => {
                    &&& final(self)@ == old(self)@.with_contents(given@)
                    &&& step matches Step::Ready(action)
                    &&& action@ == old(self)@.write_aftman(given@)
                },
                (None, Some(known)) => {
                    &&& final(self)@ == old(self)@
                    &&& step matches Step::Ready(action)
                    &&& action@ == old(self)@.write_aftman(known)
                },
                (None, None) => {
                    &&& final(self)@ == old(self)@
                    &&& step matches Step::ReadExe { path }
                    &&& path@ == old(self)@.current_exe_path
                },
            },
    {
        let contents = match contents {
            Some(given) => {
                self.current_exe_contents = Some(copy_bytes(&given));
                given
            },
            None => match self.aftman_contents() {
                Step::Ready(known) => known,
                Step::ReadExe { path } => {
                    return Step::ReadExe { path };
                },
            },
        };
        Step::Ready(FsAction::WriteExecutable { path: self.aftman_path(), contents })
    }

    /// The operation that creates the entry of `alias`, in place of any
    /// entry that was there: with symbolic links a link to the manager's
    /// own entry, without them a file with the known bytes of the manager
    /// executable. Where none are known the answer is the demand to read
    /// them.
    pub fn create_tool_link(&self, alias: &ToolAlias) -> (step: Step<FsAction>)
        ensures
            match self@.current_exe_contents {
                Some(known) => {
                    &&& step matches Step::Ready(action)
                    &&& action@ == self@.link_action(alias@ + self@.exe_suffix, known)
                    &&& action@.target() == self@.alias_path(alias@)
                },
                None => step matches Step::ReadExe { path } && path@ == self@.current_exe_path,
            },
    {
        let contents = match self.aftman_contents() {
            Step::Ready(contents) => contents,
            Step::ReadExe { path } => {
                return Step::ReadExe { path };
            },
        };
        let mut name = alias.name().to_owned();
        name.append(self.exe_suffix.as_str());
        let aftman_path = self.aftman_path();
        Step::Ready(self.link_action(name.as_str(), &aftman_path, &contents))
    }

    /// The operation for the entry called `name`, other than the manager's
    /// own, where the manager's entry holds `contents`.
    fn link_action(&self, name: &str, aftman_path: &StoragePath, contents: &Vec<u8>) -> (action:
        FsAction)
        requires
            aftman_path@ == self@.aftman_path(),
        ensures
            action@ == self@.link_action(name@, contents@),
    {
        let link_path = self.aliases_dir.join(name);
        if self.symlinks {
            FsAction::WriteLink { link: link_path, target: aftman_path.clone() }
        } else {
            FsAction::WriteExecutable { path: link_path, contents: copy_bytes(contents) }
        }
    }

    /// How to recreate the links of all aliases in the alias directory, the
    /// manager's own entry included.
    ///
    /// `entries` are the file names found in the alias directory, and
    /// `existing` the bytes found at the manager's own entry, or nothing
    /// where it could not be read, which counts as no bytes. Where the
    /// bytes of the manager executable are not known, the answer is the
    /// demand to read them.
    pub fn recreate_all_links(&self, entries: &Vec<String>, existing: Option<Vec<u8>>) -> (step:
        Step<Reconciliation>)
        ensures
            match self@.current_exe_contents {
                Some(known) => {
                    &&& step matches Step::Ready(plan)
                    &&& plan@ == self@.reconciled(known, texts(entries@), found_bytes(existing))
                },
                None => step matches Step::ReadExe { path } && path@ == self@.current_exe_path,
            },
    {
        let contents = match self.aftman_contents() {
            Step::Ready(contents) => contents,
            Step::ReadExe { path } => {
                return Step::ReadExe { path };
            },
        };
        let aftman_name = self.aftman_name();
        let aftman_path = self.aftman_path();
        let mut aftman_found = false;
        let mut links: Vec<FsAction> = Vec::new();

        let ghost names = texts(entries@);
        let ghost other = |name: Seq<char>| name != self@.aftman_name();
        let ghost link = |name: Seq<char>| self@.link_action(name, contents@);
        let mut i: usize = 0;
        assert(names.take(0).filter(other) =~= Seq::empty()) by {
            reveal(Seq::filter);
        }
        while i < entries.len()
            invariant
                i <= entries.len(),
                names == texts(entries@),
                other == |name: Seq<char>| name != self@.aftman_name(),
                link == |name: Seq<char>| self@.link_action(name, contents@),
                aftman_name@ == self@.aftman_name(),
                aftman_path@ == self@.aftman_path(),
                aftman_found == names.take(i as int).contains(self@.aftman_name()),
                action_views(links@) == names.take(i as int).filter(other).map_values(link),
            decreases entries.len() - i,
        {
            let name = &entries[i];
            proof {
                let before = names.take(i as int);
                assert(names.take(i as int + 1) =~= before.push(name@));
                before.lemma_filter_push(name@, other);
                assert(before.push(name@).contains(self@.aftman_name()) <==> (before.contains(
                    self@.aftman_name(),
                ) || name@ == self@.aftman_name())) by {
                    if before.contains(self@.aftman_name()) {
                        let k = choose|k: int|
                            0 <= k < before.len() && before[k] == self@.aftman_name();
                        assert(before.push(name@)[k] == self@.aftman_name());
                    }
                    if name@ == self@.aftman_name() {
                        assert(before.push(name@)[before.len() as int] == self@.aftman_name());
                    }
                }
            }
            if *name == aftman_name {
                aftman_found = true;
            } else {
                let ghost done = action_views(links@);
                let action = self.link_action(name.as_str(), &aftman_path, &contents);
                links.push(action);
                assert(action_views(links@) =~= done.push(self@.link_action(name@, contents@)));
                assert(names.take(i as int).filter(other).push(name@).map_values(link)
                    =~= names.take(i as int).filter(other).map_values(link).push(link(name@)));
            }
            i += 1;
        }
        assert(names.take(i as int) =~= names);

        let previous = match existing {
            Some(bytes) => bytes,
            None => Vec::new(),
        };
        let changed = !same_bytes(&previous, &contents);
        let manager = FsAction::WriteExecutable { path: aftman_path, contents };
        Step::Ready(Reconciliation { found: aftman_found, changed, manager, links })
    }

    /// Whether the storage holds anything that is still to be written out:
    /// it never does, every operation is handed out at once.
    pub fn needs_saving(&self) -> (needed: bool)
        ensures
            !needed,
    {
        false
    }
}

} // verus!
