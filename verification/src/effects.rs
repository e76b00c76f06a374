//! What holds of the paths that the storage derives and of a disk on which
//! its operations were carried out.

use crate::disk::{lemma_after_writes, Disk, FsActionView, Node};
use crate::path::rendered;
use crate::storage::ToolStorageView;
use crate::tool::ToolSpecView;
use vstd::prelude::*;

verus! {

/// Two different tools never share the path of their binary.
pub proof fn tool_paths_differ(storage: ToolStorageView, a: ToolSpecView, b: ToolSpecView)
    requires
        a != b,
    ensures
        storage.tool_path(a) != storage.tool_path(b),
{
    let n = storage.tools_dir.len() as int;
    let pa = storage.tool_path(a);
    let pb = storage.tool_path(b);
    if pa == pb {
        assert(pa[n] == a.author && pb[n] == b.author);
        assert(pa[n + 1] == a.name && pb[n + 1] == b.name);
        assert(pa[n + 2] == a.version && pb[n + 2] == b.version);
        assert(a == b);
    }
}

/// Whether `text` holds no `separator`.
pub open spec fn free_of(text: Seq<char>, separator: char) -> bool {
    forall|i: int| 0 <= i < text.len() ==> text[i] != separator
}

/// What the text of a path begins with when one more name is appended to
/// the path.
pub open spec fn rendered_above(path: Seq<Seq<char>>, separator: char) -> Seq<char> {
    if path.len() == 0 {
        Seq::empty()
    } else {
        rendered(path, separator) + seq![separator]
    }
}

proof fn lemma_rendered_push(path: Seq<Seq<char>>, name: Seq<char>, separator: char)
    ensures
        rendered(path.push(name), separator) == rendered_above(path, separator) + name,
{
    assert(path.push(name).drop_last() =~= path);
    assert(Seq::<char>::empty() + name =~= name);
}

proof fn lemma_split_at_separator(
    x1: Seq<char>,
    r1: Seq<char>,
    x2: Seq<char>,
    r2: Seq<char>,
    separator: char,
)
    requires
        free_of(x1, separator),
        free_of(x2, separator),
        x1 + seq![separator] + r1 == x2 + seq![separator] + r2,
    ensures
        x1 == x2,
        r1 == r2,
{
    let left = x1 + seq![separator] + r1;
    let right = x2 + seq![separator] + r2;
    if x1.len() < x2.len() {
        assert(left[x1.len() as int] == separator);
        assert(right[x1.len() as int] == x2[x1.len() as int]);
    }
    if x2.len() < x1.len() {
        assert(right[x2.len() as int] == separator);
        assert(left[x2.len() as int] == x1[x2.len() as int]);
    }
    assert(left.len() == right.len());
    assert forall|i: int| 0 <= i < x1.len() implies x1[i] == x2[i] by {
        assert(left[i] == x1[i]);
        assert(right[i] == x2[i]);
    }
    assert(x1 =~= x2);
    assert forall|i: int| 0 <= i < r1.len() implies r1[i] == r2[i] by {
        assert(left[x1.len() + 1 + i] == r1[i]);
        assert(right[x1.len() + 1 + i] == r2[i]);
    }
    assert(r1 =~= r2);
}

/// The text of a tool's path: what stands above the tool's own names, then
/// author, name, version and file name with separators between them.
proof fn lemma_rendered_tool_path(storage: ToolStorageView, spec: ToolSpecView, separator: char)
    ensures
        rendered(storage.tool_path(spec), separator) == rendered_above(
            storage.tools_dir,
            separator,
        ) + (spec.author + seq![separator] + (spec.name + seq![separator] + (spec.version
            + seq![separator] + (spec.name + storage.exe_suffix)))),
{
    let d0 = storage.tools_dir;
    let d1 = d0.push(spec.author);
    let d2 = d1.push(spec.name);
    let d3 = d2.push(spec.version);
    let file = spec.name + storage.exe_suffix;
    lemma_rendered_push(d0, spec.author, separator);
    lemma_rendered_push(d1, spec.name, separator);
    lemma_rendered_push(d2, spec.version, separator);
    lemma_rendered_push(d3, file, separator);
    assert(rendered(d3.push(file), separator) =~= rendered_above(d0, separator) + (spec.author
        + seq![separator] + (spec.name + seq![separator] + (spec.version + seq![separator]
        + file))));
}

/// Two different tools whose names hold no separator never share the text
/// of the path of their binary.
pub proof fn rendered_tool_paths_differ(
    storage: ToolStorageView,
    a: ToolSpecView,
    b: ToolSpecView,
    separator: char,
)
    requires
        a.well_formed(),
        b.well_formed(),
        separator == '/' || separator == '\\',
        a != b,
    ensures
        rendered(storage.tool_path(a), separator) != rendered(storage.tool_path(b), separator),
{
    let above = rendered_above(storage.tools_dir, separator);
    let ta = a.author + seq![separator] + (a.name + seq![separator] + (a.version
        + seq![separator] + (a.name + storage.exe_suffix)));
    let tb = b.author + seq![separator] + (b.name + seq![separator] + (b.version
        + seq![separator] + (b.name + storage.exe_suffix)));
    lemma_rendered_tool_path(storage, a, separator);
    lemma_rendered_tool_path(storage, b, separator);
    if above + ta == above + tb {
        assert(ta =~= tb) by {
            assert((above + ta).len() == (above + tb).len());
            assert forall|i: int| 0 <= i < ta.len() implies ta[i] == tb[i] by {
                assert((above + ta)[above.len() + i] == ta[i]);
                assert((above + tb)[above.len() + i] == tb[i]);
            }
        }
        lemma_split_at_separator(
            a.author,
            a.name + seq![separator] + (a.version + seq![separator] + (a.name
                + storage.exe_suffix)),
            b.author,
            b.name + seq![separator] + (b.version + seq![separator] + (b.name
                + storage.exe_suffix)),
            separator,
        );
        lemma_split_at_separator(
            a.name,
            a.version + seq![separator] + (a.name + storage.exe_suffix),
            b.name,
            b.version + seq![separator] + (b.name + storage.exe_suffix),
            separator,
        );
        lemma_split_at_separator(
            a.version,
            a.name + storage.exe_suffix,
            b.version,
            b.name + storage.exe_suffix,
            separator,
        );
        assert(a == b);
    }
}

/// Once the operations of [`ToolStorageView::stored`] have been carried
/// out, the path of the tool's binary holds a file that may be run, with
/// exactly the bytes that were stored, and a reader finds those bytes
/// there.
pub proof fn stored_tool_is_read_back(
    storage: ToolStorageView,
    spec: ToolSpecView,
    contents: Seq<u8>,
    disk: Disk,
)
    ensures
        ({
            let after = disk.after_all(storage.stored(spec, contents));
            let path = storage.tool_path(spec);
            &&& after.at(path) == Some(Node::File { contents, executable: true })
            &&& after.read(path) == Some(contents)
        }),
{
    let actions = storage.stored(spec, contents);
    assert(actions.drop_last() =~= seq![actions[0]]);
    assert(actions.drop_last().drop_last() =~= Seq::empty());
    assert(disk.after_all(actions) == disk.after(actions[0]).after(actions[1])) by {
        reveal_with_fuel(Disk::after_all, 3);
    }
}

/// Once the operations of [`ToolStorageView::directories`] have been
/// carried out, something stands at both directories of the storage: a
/// directory, unless something else stood there before. Carrying them out
/// once more changes nothing.
pub proof fn directories_exist_once_created(storage: ToolStorageView, disk: Disk)
    requires
        storage.tools_dir.len() > 0,
        storage.aliases_dir.len() > 0,
    ensures
        ({
            let after = disk.after_all(storage.directories());
            &&& after.at(storage.tools_dir) == match disk.at(storage.tools_dir) {
                Some(node) => Some(node),
                None => Some(Node::Dir),
            }
            &&& after.at(storage.aliases_dir) == match disk.at(storage.aliases_dir) {
                Some(node) => Some(node),
                None => Some(Node::Dir),
            }
            &&& after.after_all(storage.directories()) == after
        }),
{
    let actions = storage.directories();
    assert(actions.drop_last() =~= seq![actions[0]]);
    assert(actions.drop_last().drop_last() =~= Seq::empty());
    reveal_with_fuel(Disk::after_all, 3);
    let after = disk.after(actions[0]).after(actions[1]);
    assert(disk.after_all(actions) == after);
    assert(storage.tools_dir.take(storage.tools_dir.len() as int) =~= storage.tools_dir);
    assert(storage.aliases_dir.take(storage.aliases_dir.len() as int) =~= storage.aliases_dir);
    assert(Disk::reaches(storage.tools_dir, storage.tools_dir));
    assert(Disk::reaches(storage.aliases_dir, storage.aliases_dir));
    let again = after.after(actions[0]).after(actions[1]);
    assert(after.after_all(actions) == again);
    assert(again.nodes =~= after.nodes);
}

/// What one request for the bytes of the manager executable comes to.
pub struct Served {
    /// The storage after the request.
    pub storage: ToolStorageView,
    /// The bytes that the request was answered with.
    pub contents: Seq<u8>,
    /// How often the manager executable was read for it.
    pub reads: nat,
}

/// What a run of requests for the bytes of the manager executable comes
/// to.
pub struct ServedInTurn {
    /// The storage after the last request.
    pub storage: ToolStorageView,
    /// The bytes that each request was answered with, first to last.
    pub contents: Seq<Seq<u8>>,
    /// How often the manager executable was read in all.
    pub reads: nat,
}

impl ToolStorageView {
    /// One request for the bytes of the manager executable, where the
    /// executable holds `on_disk`: known bytes are the answer, and nothing
    /// is read; where none are known, the executable is read once, and what
    /// was read is the answer and is known from then on.
    pub open spec fn served(self, on_disk: Seq<u8>) -> Served {
        match self.current_exe_contents {
            Some(known) => Served { storage: self, contents: known, reads: 0 },
            None => Served { storage: self.with_contents(on_disk), contents: on_disk, reads: 1 },
        }
    }

    /// `requests` requests in turn, each served as [`Self::served`] says.
    pub open spec fn served_in_turn(self, on_disk: Seq<u8>, requests: nat) -> ServedInTurn
        decreases requests,
    {
        if requests == 0 {
            ServedInTurn { storage: self, contents: Seq::empty(), reads: 0 }
        } else {
            let before = self.served_in_turn(on_disk, (requests - 1) as nat);
            let last = before.storage.served(on_disk);
            ServedInTurn {
                storage: last.storage,
                contents: before.contents.push(last.contents),
                reads: before.reads + last.reads,
            }
        }
    }
}

/// However many requests for the bytes of the manager executable are
/// served in turn, the executable is read once at most: not at all where
/// its bytes were known, else for the first request alone. Every request
/// gets the same bytes.
pub proof fn contents_are_read_once(storage: ToolStorageView, on_disk: Seq<u8>, requests: nat)
    requires
        requests >= 1,
    ensures
        ({
            let run = storage.served_in_turn(on_disk, requests);
            let bytes = match storage.current_exe_contents {
                Some(known) => known,
                None => on_disk,
            };
            &&& run.reads == if storage.current_exe_contents is None { 1nat } else { 0nat }
            &&& run.contents.len() == requests
            &&& forall|i: int| 0 <= i < requests ==> run.contents[i] == bytes
            &&& run.storage == storage.with_contents(bytes)
        }),
    decreases requests,
{
    if requests > 1 {
        contents_are_read_once(storage, on_disk, (requests - 1) as nat);
    } else {
        assert(storage.served_in_turn(on_disk, 0).contents.len() == 0);
    }
    let bytes = match storage.current_exe_contents {
        Some(known) => known,
        None => on_disk,
    };
    if storage.current_exe_contents is Some {
        assert(storage.with_contents(bytes) == storage);
    }
    assert(storage.with_contents(bytes).with_contents(bytes) == storage.with_contents(bytes));
}

impl ToolStorageView {
    /// Whether `entries` names what stands in the alias directory of
    /// `disk`, in any order.
    pub open spec fn lists(self, disk: Disk, entries: Seq<Seq<char>>) -> bool {
        forall|name: Seq<char>|
            entries.contains(name) <==> #[trigger] disk.names_in(self.aliases_dir).contains(name)
    }

    /// The bytes that a reader finds at the manager's own entry on `disk`:
    /// none where it finds nothing to read.
    pub open spec fn existing(self, disk: Disk) -> Seq<u8> {
        match disk.read(self.aftman_path()) {
            Some(bytes) => bytes,
            None => Seq::empty(),
        }
    }

    /// Whether `path` stands directly in the alias directory.
    pub open spec fn in_aliases_dir(self, path: Seq<Seq<char>>) -> bool {
        path.len() == self.aliases_dir.len() + 1 && path.drop_last() == self.aliases_dir
    }
}

/// Where the manager's own entry is a file with the manager's bytes, a
/// reader finds those bytes at the entry of an alias once the operation of
/// [`ToolStorageView::link_action`] for it has been carried out, be it a
/// link or a copy.
pub proof fn tool_link_reads_as_manager(
    storage: ToolStorageView,
    alias: Seq<char>,
    contents: Seq<u8>,
    disk: Disk,
)
    requires
        disk.at(storage.aftman_path()) == Some(Node::File { contents, executable: true }),
        alias + storage.exe_suffix != storage.aftman_name(),
    ensures
        ({
            let action = storage.link_action(alias + storage.exe_suffix, contents);
            &&& action.target() == storage.alias_path(alias)
            &&& disk.after(action).read(storage.alias_path(alias)) == Some(contents)
            &&& disk.after(action).at(storage.aftman_path()) == disk.at(storage.aftman_path())
        }),
{
    assert(storage.alias_path(alias).last() == alias + storage.exe_suffix);
    assert(storage.aftman_path().last() == storage.aftman_name());
}

/// Whether `links` holds the operations of `wanted` and no others, in any
/// order and any number of times.
pub open spec fn same_operations(links: Seq<FsActionView>, wanted: Seq<FsActionView>) -> bool {
    forall|action: FsActionView| #[trigger] links.contains(action) <==> wanted.contains(action)
}

/// What stands at `path` once the manager's own entry has been written and
/// then the operations for the other entries have been carried out in some
/// order: at the manager's own entry a file with the manager's bytes, at
/// every other entry that was found what [`ToolStorageView::link_action`]
/// puts there, and elsewhere what stood there before.
proof fn lemma_reconciled_node(
    storage: ToolStorageView,
    contents: Seq<u8>,
    entries: Seq<Seq<char>>,
    links: Seq<FsActionView>,
    disk: Disk,
    path: Seq<Seq<char>>,
)
    requires
        same_operations(links, storage.link_actions(entries, contents)),
    ensures
        disk.after_all(seq![storage.write_aftman(contents)] + links).at(path) == if path
            == storage.aftman_path() {
            Some(Node::File { contents, executable: true })
        } else if storage.in_aliases_dir(path) && entries.contains(path.last()) {
            Some(storage.link_action(path.last(), contents).node())
        } else {
            disk.at(path)
        },
{
    let actions = seq![storage.write_aftman(contents)] + links;
    let other = |name: Seq<char>| name != storage.aftman_name();
    let others = entries.filter(other);
    let wanted = storage.link_actions(entries, contents);
    assert(others == storage.other_entries(entries));
    assert(actions[0] == storage.write_aftman(contents));
    assert(storage.aftman_path().last() == storage.aftman_name());
    assert(storage.aftman_path().drop_last() =~= storage.aliases_dir);
    assert forall|i: int| 1 <= i < actions.len() implies exists|m: int|
        {
            &&& 0 <= m < others.len()
            &&& #[trigger] actions[i] == storage.link_action(#[trigger] others[m], contents)
            &&& others[m] != storage.aftman_name()
            &&& entries.contains(others[m])
            &&& actions[i].target() == storage.aliases_dir.push(others[m])
        } by {
        assert(actions[i] == links[i - 1]);
        assert(links.contains(links[i - 1]));
        assert(wanted.contains(actions[i]));
        let m = choose|m: int| 0 <= m < wanted.len() && wanted[m] == actions[i];
        let name = others[m];
        entries.lemma_filter_pred(other, m);
        assert(others.contains(name));
        entries.lemma_filter_contains_rev(other, name);
    }
    assert forall|i: int| 0 <= i < actions.len() implies (#[trigger] actions[i]).is_write()
        && (i >= 1 ==> actions[i].target() != storage.aftman_path()) by {
        if i >= 1 {
            let m = choose|m: int|
                {
                    &&& 0 <= m < others.len()
                    &&& #[trigger] actions[i] == storage.link_action(#[trigger] others[m], contents)
                    &&& others[m] != storage.aftman_name()
                    &&& entries.contains(others[m])
                    &&& actions[i].target() == storage.aliases_dir.push(others[m])
                };
            assert(storage.aliases_dir.push(others[m]).last() == others[m]);
        }
    }
    lemma_after_writes(disk, actions, path);
    if path == storage.aftman_path() {
        assert(actions[0].target() == path);
        let k = choose|k: int|
            0 <= k < actions.len() && (#[trigger] actions[k]).target() == path
                && disk.after_all(actions).at(path) == Some(actions[k].node());
        assert(k == 0);
    } else if storage.in_aliases_dir(path) && entries.contains(path.last()) {
        let name = path.last();
        assert(path =~= storage.aliases_dir.push(name));
        assert(name != storage.aftman_name());
        let j = choose|j: int| 0 <= j < entries.len() && entries[j] == name;
        entries.lemma_filter_contains(other, j);
        let m = choose|m: int| 0 <= m < others.len() && others[m] == name;
        assert(wanted[m] == storage.link_action(name, contents));
        assert(wanted.contains(storage.link_action(name, contents)));
        assert(links.contains(storage.link_action(name, contents)));
        let l = choose|l: int|
            0 <= l < links.len() && links[l] == storage.link_action(name, contents);
        assert(actions[l + 1] == links[l]);
        assert(actions[l + 1].target() == path);
        let k = choose|k: int|
            0 <= k < actions.len() && (#[trigger] actions[k]).target() == path
                && disk.after_all(actions).at(path) == Some(actions[k].node());
        assert(k >= 1);
        let m2 = choose|m2: int|
            {
                &&& 0 <= m2 < others.len()
                &&& #[trigger] actions[k] == storage.link_action(#[trigger] others[m2], contents)
                &&& others[m2] != storage.aftman_name()
                &&& entries.contains(others[m2])
                &&& actions[k].target() == storage.aliases_dir.push(others[m2])
            };
        assert(storage.aliases_dir.push(others[m2]).last() == others[m2]);
    } else {
        assert forall|i: int| 0 <= i < actions.len() implies (#[trigger] actions[i]).target()
            != path by {
            if i >= 1 {
                let m = choose|m: int|
                    {
                        &&& 0 <= m < others.len()
                        &&& #[trigger] actions[i] == storage.link_action(
                            #[trigger] others[m],
                            contents,
                        )
                        &&& others[m] != storage.aftman_name()
                        &&& entries.contains(others[m])
                        &&& actions[i].target() == storage.aliases_dir.push(others[m])
                    };
                let name = others[m];
                assert(storage.aliases_dir.push(name).drop_last() =~= storage.aliases_dir);
                assert(storage.aliases_dir.push(name).last() == name);
            }
        }
    }
}

/// Once a reconciliation has been carried out on the disk from which its
/// entries were listed:
/// the alias directory holds what it held and the manager's own entry;
/// the manager's entry is a file that may be run and holds the manager's
/// bytes; every other entry is a link to it where there are symbolic
/// links, else a file with the manager's bytes; a reader finds the
/// manager's bytes at every entry; nothing outside the alias directory has
/// changed.
pub proof fn reconciliation_takes_hold(
    storage: ToolStorageView,
    contents: Seq<u8>,
    entries: Seq<Seq<char>>,
    disk: Disk,
)
    requires
        storage.lists(disk, entries),
    ensures
        ({
            let plan = storage.reconciled(contents, entries, storage.existing(disk));
            let after = disk.after_all(plan.actions());
            let dir = storage.aliases_dir;
            &&& forall|name: Seq<char>|
                #![trigger after.names_in(dir).contains(name)]
                after.names_in(dir).contains(name) <==> name == storage.aftman_name()
                    || disk.names_in(dir).contains(name)
            &&& after.at(storage.aftman_path()) == Some(
                Node::File { contents, executable: true },
            )
            &&& forall|name: Seq<char>|
                #![trigger after.at(dir.push(name))]
                after.names_in(dir).contains(name) && name != storage.aftman_name() ==> after.at(
                    dir.push(name),
                ) == Some(storage.link_action(name, contents).node())
            &&& forall|name: Seq<char>|
                #![trigger after.read(dir.push(name))]
                after.names_in(dir).contains(name) ==> after.read(dir.push(name)) == Some(
                    contents,
                )
            &&& forall|path: Seq<Seq<char>>|
                #![trigger after.at(path)]
                !storage.in_aliases_dir(path) ==> after.at(path) == disk.at(path)
        }),
{
    let links = storage.link_actions(entries, contents);
    let after = disk.after_all(seq![storage.write_aftman(contents)] + links);
    let dir = storage.aliases_dir;
    lemma_reconciled_node(storage, contents, entries, links, disk, storage.aftman_path());
    assert(storage.aftman_path().last() == storage.aftman_name());
    assert forall|name: Seq<char>|
        (after.names_in(dir).contains(name) <==> name == storage.aftman_name()
            || disk.names_in(dir).contains(name)) && (after.names_in(dir).contains(name)
            && name != storage.aftman_name() ==> after.at(dir.push(name)) == Some(
            storage.link_action(name, contents).node(),
        )) && (after.names_in(dir).contains(name) ==> #[trigger] after.read(dir.push(name))
            == Some(contents)) by {
        let path = dir.push(name);
        assert(path.last() == name);
        assert(path.drop_last() =~= dir);
        lemma_reconciled_node(storage, contents, entries, links, disk, path);
        assert(entries.contains(name) <==> disk.names_in(dir).contains(name));
    }
    assert forall|name: Seq<char>|
        #![trigger after.names_in(dir).contains(name)]
        after.names_in(dir).contains(name) <==> name == storage.aftman_name()
            || disk.names_in(dir).contains(name) by {
        assert(after.read(dir.push(name)) == after.read(dir.push(name)));
    }
    assert forall|name: Seq<char>|
        #![trigger after.at(dir.push(name))]
        after.names_in(dir).contains(name) && name != storage.aftman_name() implies after.at(
        dir.push(name),
    ) == Some(storage.link_action(name, contents).node()) by {
        assert(after.read(dir.push(name)) == after.read(dir.push(name)));
    }
    assert forall|path: Seq<Seq<char>>| !storage.in_aliases_dir(path) implies #[trigger] after.at(
        path,
    ) == disk.at(path) by {
        assert(storage.aftman_path().drop_last() =~= dir);
        lemma_reconciled_node(storage, contents, entries, links, disk, path);
    }
}

/// The operations for the entries other than the manager's own may be
/// carried out in any order: whatever the order, and however often one of
/// them is repeated, the disk ends up the same.
pub proof fn link_order_is_free(
    storage: ToolStorageView,
    contents: Seq<u8>,
    entries: Seq<Seq<char>>,
    existing: Seq<u8>,
    links: Seq<FsActionView>,
    disk: Disk,
)
    requires
        same_operations(links, storage.reconciled(contents, entries, existing).links),
    ensures
        ({
            let plan = storage.reconciled(contents, entries, existing);
            disk.after_all(seq![plan.manager] + links) == disk.after_all(plan.actions())
        }),
{
    let plan = storage.reconciled(contents, entries, existing);
    let one = disk.after_all(seq![plan.manager] + links);
    let other = disk.after_all(plan.actions());
    assert forall|path: Seq<Seq<char>>| one.at(path) == other.at(path) by {
        lemma_reconciled_node(storage, contents, entries, links, disk, path);
        lemma_reconciled_node(storage, contents, entries, plan.links, disk, path);
    }
    lemma_same_disk(one, other);
}

/// Two disks that hold the same at every path are the same disk.
proof fn lemma_same_disk(one: Disk, other: Disk)
    requires
        forall|path: Seq<Seq<char>>| one.at(path) == other.at(path),
    ensures
        one == other,
{
    assert forall|path: Seq<Seq<char>>|
        #![trigger one.nodes.dom().contains(path)]
        #![trigger other.nodes.dom().contains(path)]
        one.nodes.dom().contains(path) == other.nodes.dom().contains(path) && (
        one.nodes.dom().contains(path) ==> one.nodes[path] == other.nodes[path]) by {
        assert(one.at(path) == other.at(path));
    }
    assert(one.nodes =~= other.nodes);
}

/// A second reconciliation, right after the first and with the same bytes,
/// finds the manager's entry, finds it unchanged, and leaves the disk as
/// it is.
pub proof fn second_reconciliation_changes_nothing(
    storage: ToolStorageView,
    contents: Seq<u8>,
    entries: Seq<Seq<char>>,
    entries_after: Seq<Seq<char>>,
    disk: Disk,
)
    requires
        storage.lists(disk, entries),
        storage.lists(
            disk.after_all(
                storage.reconciled(contents, entries, storage.existing(disk)).actions(),
            ),
            entries_after,
        ),
    ensures
        ({
            let first = storage.reconciled(contents, entries, storage.existing(disk));
            let after = disk.after_all(first.actions());
            let second = storage.reconciled(contents, entries_after, storage.existing(after));
            &&& second.found
            &&& !second.changed
            &&& after.after_all(second.actions()) == after
        }),
{
    let first = storage.reconciled(contents, entries, storage.existing(disk));
    let after = disk.after_all(first.actions());
    let second = storage.reconciled(contents, entries_after, storage.existing(after));
    let dir = storage.aliases_dir;
    reconciliation_takes_hold(storage, contents, entries, disk);
    assert(after.names_in(dir).contains(storage.aftman_name()));
    assert(after.read(storage.aftman_path()) == Some(contents));
    let again = after.after_all(second.actions());
    assert forall|path: Seq<Seq<char>>| again.at(path) == after.at(path) by {
        lemma_reconciled_node(storage, contents, entries_after, second.links, after, path);
        if path != storage.aftman_path() && storage.in_aliases_dir(path)
            && entries_after.contains(path.last()) {
            let name = path.last();
            assert(path =~= dir.push(name));
            assert(after.names_in(dir).contains(name));
            assert(storage.aftman_path().last() == storage.aftman_name());
            assert(after.at(dir.push(name)) == Some(storage.link_action(name, contents).node()));
        }
    }
    lemma_same_disk(again, after);
}

/// A reconciliation of a disk whose alias directory holds no entry for the
/// manager reports that none was found, and reports a change exactly if the
/// manager's bytes are not empty: an entry that is missing counts as one
/// without bytes.
pub proof fn missing_manager_entry_counts_as_empty(
    storage: ToolStorageView,
    contents: Seq<u8>,
    entries: Seq<Seq<char>>,
    disk: Disk,
)
    requires
        storage.lists(disk, entries),
        !disk.names_in(storage.aliases_dir).contains(storage.aftman_name()),
    ensures
        ({
            let plan = storage.reconciled(contents, entries, storage.existing(disk));
            &&& !plan.found
            &&& plan.changed <==> contents.len() > 0
        }),
{
    assert(storage.existing(disk) =~= Seq::<u8>::empty());
    if contents.len() == 0 {
        assert(contents =~= Seq::<u8>::empty());
    }
}

/// The first reconciliation of an empty alias directory writes the
/// manager's own entry and nothing else, after which that entry is all the
/// directory holds. It reports that no entry was found, and a change
/// exactly if the manager's bytes are not empty.
pub proof fn first_reconciliation(storage: ToolStorageView, contents: Seq<u8>, disk: Disk)
    requires
        forall|name: Seq<char>| !disk.names_in(storage.aliases_dir).contains(name),
    ensures
        ({
            let plan = storage.reconciled(contents, Seq::empty(), storage.existing(disk));
            let after = disk.after_all(plan.actions());
            &&& !plan.found
            &&& plan.changed <==> contents.len() > 0
            &&& plan.actions() == seq![storage.write_aftman(contents)]
            &&& after.names_in(storage.aliases_dir) == set![storage.aftman_name()]
            &&& after.read(storage.aftman_path()) == Some(contents)
        }),
{
    let entries = Seq::<Seq<char>>::empty();
    let plan = storage.reconciled(contents, entries, storage.existing(disk));
    let after = disk.after_all(plan.actions());
    missing_manager_entry_counts_as_empty(storage, contents, entries, disk);
    reconciliation_takes_hold(storage, contents, entries, disk);
    assert(plan.links =~= Seq::empty()) by {
        reveal(Seq::filter);
    }
    assert(plan.actions() =~= seq![storage.write_aftman(contents)]);
    assert(after.names_in(storage.aliases_dir) =~= set![storage.aftman_name()]);
    assert(after.names_in(storage.aliases_dir).contains(storage.aftman_name()));
}

} // verus!
