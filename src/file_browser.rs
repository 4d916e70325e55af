//! A file browser: a path text field over a tree of filesystem paths that is
//! filled in on demand.
use vstd::prelude::*;
use crate::handle::{Handle, NONE_INDEX};
use crate::message::{
    FileBrowserMessage, TextBoxMessage, TextMessage, TreeMessage, TreeRootMessage, UiMessage,
    UiMessageData,
};
use crate::tree::{TreeBuilder, TreeRootBuilder};
use crate::ui::{DirEntry, DirectoryRequest, Node, NodeHandleMapping, NodeKind, UserInterface};

verus! {

/// Decides whether a directory entry becomes a tree item; it may keep state
/// between calls.
pub trait PathFilter {
    fn accept(&mut self, path: &str) -> bool;
}

pub struct FileBrowser {
    pub tree_root: Handle,
    pub path: String,
    pub path_text: Handle,
    pub selection: String,
    pub filter: Option<Box<dyn PathFilter>>,
}

/// `p` is a prefix of `s`.
pub open spec fn has_prefix(s: Seq<char>, p: Seq<char>) -> bool {
    p.len() <= s.len() && s.subrange(0, p.len() as int) == p
}

/// `s` with every occurrence of `pat` taken out, matched left to right
/// without overlap; an empty pattern takes nothing out.
pub open spec fn without_occurrences(s: Seq<char>, pat: Seq<char>) -> Seq<char>
    decreases s.len(),
{
    if pat.len() == 0 || s.len() < pat.len() {
        s
    } else if s.subrange(0, pat.len() as int) == pat {
        without_occurrences(s.subrange(pat.len() as int, s.len() as int), pat)
    } else {
        seq![s[0]] + without_occurrences(s.subrange(1, s.len() as int), pat)
    }
}

/// Relies on str::starts_with: whether `prefix` is a prefix of `s`. On valid
/// UTF-8 a byte prefix that is itself valid UTF-8 is a prefix of characters.
#[verifier::external_body]
fn str_starts_with(s: &str, prefix: &str) -> (r: bool)
    ensures
        r == has_prefix(s@, prefix@),
{
    s.starts_with(prefix)
}

/// Relies on str::replace with an empty replacement: every non-overlapping
/// occurrence of `pat`, found left to right, is taken out.
#[verifier::external_body]
fn str_remove_occurrences(s: &str, pat: &str) -> (r: String)
    ensures
        r@ == without_occurrences(s@, pat@),
{
    s.replace(pat, "")
}

/// Whether a tree's path answers a lookup for `path`: equal to it, or, for
/// a prefix lookup, starting with it.
pub open spec fn path_matches(tree_path: Option<String>, path: Seq<char>, exact: bool) -> bool {
    match tree_path {
        Some(p) => if exact {
            p@ == path
        } else {
            has_prefix(p@, path)
        },
        None => false,
    }
}

/// The tree that a depth-first lookup from `node` settles on: a match found
/// among the items, the first item that yields one winning, replaces the
/// node's own match.
pub open spec fn found_in(ui: UserInterface, node: Handle, path: Seq<char>, exact: bool, fuel: nat) -> Handle
    decreases fuel, 0nat,
{
    if fuel == 0 || !ui.valid(node) {
        Handle::spec_none()
    } else if ui.is_tree(node) {
        let sub = found_in_items(ui, ui.tree(node).items@, path, exact, (fuel - 1) as nat);
        if sub.spec_is_some() {
            sub
        } else if path_matches(ui.node(node).user_path, path, exact) {
            node
        } else {
            Handle::spec_none()
        }
    } else if ui.is_tree_root(node) {
        found_in_items(ui, ui.tree_root(node).items@, path, exact, (fuel - 1) as nat)
    } else {
        Handle::spec_none()
    }
}

pub open spec fn found_in_items(ui: UserInterface, items: Seq<Handle>, path: Seq<char>, exact: bool, fuel: nat) -> Handle
    decreases fuel, items.len(),
{
    if items.len() == 0 {
        Handle::spec_none()
    } else {
        let f = found_in(ui, items[0], path, exact, fuel);
        if f.spec_is_some() {
            f
        } else {
            found_in_items(ui, items.drop_first(), path, exact, fuel)
        }
    }
}

/// The tree that a lookup for `path` from `node` gives: one whose path
/// equals it if there is any, else one whose path starts with it.
pub open spec fn lookup(ui: UserInterface, node: Handle, path: Seq<char>) -> Handle {
    let e = found_in(ui, node, path, true, ui.nodes@.len());
    if e.spec_is_some() {
        e
    } else {
        found_in(ui, node, path, false, ui.nodes@.len())
    }
}

fn path_matches_exec(tree_path: &Option<String>, path: &str, exact: bool) -> (r: bool)
    ensures
        r == path_matches(*tree_path, path@, exact),
{
    match tree_path {
        Some(p) => {
            let forward = str_starts_with(p.as_str(), path);
            if exact {
                assert(p@.subrange(0, p@.len() as int) =~= p@);
                assert(path@.subrange(0, path@.len() as int) =~= path@);
                let back = str_starts_with(path, p.as_str());
                if forward && back {
                    assert(p@ =~= path@);
                }
                forward && back
            } else {
                forward
            }
        },
        None => false,
    }
}

fn find_in(ui: &UserInterface, node: Handle, path: &str, exact: bool, fuel: usize) -> (r: Handle)
    ensures
        r == found_in(*ui, node, path@, exact, fuel as nat),
    decreases fuel, 0nat,
{
    if fuel == 0 || !ui.is_valid(node) {
        return Handle::none();
    }
    let n = ui.nodes[node.index].as_ref().unwrap();
    let items: &Vec<Handle> = match &n.kind {
        NodeKind::Tree(t) => &t.items,
        NodeKind::TreeRoot(t) => &t.items,
        _ => {
            return Handle::none();
        },
    };
    let ghost own_items = if ui.is_tree(node) {
        ui.tree(node).items@
    } else {
        ui.tree_root(node).items@
    };
    assert(items@ == own_items);
    let mut k: usize = 0;
    assert(items@.subrange(0, items@.len() as int) =~= items@);
    while k < items.len()
        invariant
            fuel > 0,
            ui.valid(node),
            ui.is_tree(node) || ui.is_tree_root(node),
            own_items == (if ui.is_tree(node) {
                ui.tree(node).items@
            } else {
                ui.tree_root(node).items@
            }),
            items@ == own_items,
            k <= items@.len(),
            found_in_items(*ui, items@, path@, exact, (fuel - 1) as nat) == found_in_items(
                *ui,
                items@.subrange(k as int, items@.len() as int),
                path@,
                exact,
                (fuel - 1) as nat,
            ),
        decreases items@.len() - k,
    {
        assert(items@.subrange(k as int, items@.len() as int).drop_first() =~= items@.subrange(k + 1, items@.len() as int));
        let f = find_in(ui, items[k], path, exact, fuel - 1);
        if f.is_some() {
            assert(items@.subrange(k as int, items@.len() as int)[0] == items@[k as int]);
            assert(found_in_items(*ui, items@, path@, exact, (fuel - 1) as nat) == f);
            return f;
        }
        k = k + 1;
    }
    match &n.kind {
        NodeKind::Tree(_) => {
            if path_matches_exec(&n.user_path, path, exact) {
                node
            } else {
                Handle::none()
            }
        },
        _ => Handle::none(),
    }
}

/// The tree for `path` under `node`: a tree whose path is `path`, if there
/// is one, else the tree whose path starts with `path` that a depth-first
/// search settles on. The none handle where no tree answers.
pub fn find_tree(ui: &UserInterface, node: Handle, path: &str) -> (r: Handle)
    requires
        ui.is_tree(node) || ui.is_tree_root(node),
    ensures
        r == lookup(*ui, node, path@),
{
    lookup_from(ui, node, path)
}

/// `find_tree` from any node; a node that is neither a tree nor a root gives
/// the none handle.
fn lookup_from(ui: &UserInterface, node: Handle, path: &str) -> (r: Handle)
    ensures
        r == lookup(*ui, node, path@),
{
    let e = find_in(ui, node, path, true, ui.nodes.len());
    if e.is_some() {
        e
    } else {
        find_in(ui, node, path, false, ui.nodes.len())
    }
}

} // verus!

verus! {

/// The path of a tree item built for `path`, shown without `parent_path`.
pub open spec fn item_label(path: Seq<char>, parent_path: Seq<char>) -> Seq<char> {
    without_occurrences(path, parent_path)
}

/// Builds a collapsed tree item for `path`, with `path` attached and a text
/// label that drops `parent_path` from it. Its expander shows from the start
/// when the entry has entries of its own.
pub fn build_tree_item(ui: &mut UserInterface, path: &str, parent_path: &str, has_entries: bool) -> (h: Handle)
    requires
        old(ui).has_room(8),
    ensures
        h.index >= old(ui).nodes@.len(),
        final(ui).nodes@.len() == old(ui).nodes@.len() + 7,
        forall|i: int| 0 <= i < old(ui).nodes@.len() ==> #[trigger] final(ui).nodes@[i] == old(ui).nodes@[i],
        final(ui).is_tree(h),
        final(ui).node(h).user_path is Some,
        final(ui).node(h).user_path->Some_0@ == path@,
        final(ui).tree(h).items@.len() == 0,
        !final(ui).tree(h).is_expanded,
        !final(ui).tree(h).is_selected,
        final(ui).tree(h).always_show_expander == has_entries,
        final(ui).valid(final(ui).tree(h).content),
        final(ui).node(final(ui).tree(h).content).kind is Text,
        final(ui).node(final(ui).tree(h).content).kind->Text_0@ == item_label(path@, parent_path@),
        crate::tree::tree_mirrors(*final(ui), h),
        final(ui).messages == old(ui).messages,
        final(ui).requests == old(ui).requests,
{
    let label_text = str_remove_occurrences(path, parent_path);
    let label = ui.add_node(Node::new(NodeKind::Text(label_text)));
    let ghost with_label = *ui;
    let h = TreeBuilder::new()
        .with_user_path(path.to_owned())
        .with_expanded(false)
        .with_always_show_expander(has_entries)
        .with_content(label)
        .build(ui);
    proof {
        assert(crate::handle::appended_each(Seq::empty(), Seq::<Handle>::empty()) =~= Seq::<Handle>::empty());
        assert(Seq::<Handle>::empty().no_duplicates());
    }
    h
}

/// Builds a tree item for `path` and asks `parent` to take it as an item:
/// a root when `is_parent_root`, else a tree.
pub fn build_tree(ui: &mut UserInterface, parent: Handle, is_parent_root: bool, path: &str, parent_path: &str, has_entries: bool) -> (h: Handle)
    requires
        old(ui).has_room(8),
    ensures
        h.index >= old(ui).nodes@.len(),
        final(ui).is_tree(h),
        final(ui).node(h).user_path is Some,
        final(ui).node(h).user_path->Some_0@ == path@,
        final(ui).messages@ == old(ui).messages@.push(
            if is_parent_root {
                UiMessage { destination: parent, data: UiMessageData::TreeRoot(TreeRootMessage::AddItem(h)), handled: false }
            } else {
                UiMessage { destination: parent, data: UiMessageData::Tree(TreeMessage::AddItem(h)), handled: false }
            },
        ),
        final(ui).requests == old(ui).requests,
        forall|i: int| 0 <= i < old(ui).nodes@.len() ==> #[trigger] final(ui).nodes@[i] == old(ui).nodes@[i],
{
    let h = build_tree_item(ui, path, parent_path, has_entries);
    if is_parent_root {
        ui.send_message(UiMessage::new(parent, UiMessageData::TreeRoot(TreeRootMessage::AddItem(h))));
    } else {
        ui.send_message(UiMessage::new(parent, UiMessageData::Tree(TreeMessage::AddItem(h))));
    }
    h
}

/// The paths of the entries that were accepted, in order.
pub open spec fn accepted_paths(entries: Seq<DirEntry>, accepted: Seq<bool>) -> Seq<Seq<char>>
    decreases entries.len(),
{
    if entries.len() == 0 || accepted.len() == 0 {
        Seq::empty()
    } else {
        let init = accepted_paths(entries.drop_last(), accepted.drop_last());
        if accepted.last() {
            init.push(entries.last().path@)
        } else {
            init
        }
    }
}

/// The paths of all entries, in order.
pub open spec fn entry_paths(entries: Seq<DirEntry>) -> Seq<Seq<char>> {
    entries.map_values(|e: DirEntry| e.path@)
}

/// Builds a tree item, under `parent_path`, for each entry that `accepted`
/// marks, in the order of the entries, and returns their handles.
pub fn build_items(ui: &mut UserInterface, entries: &Vec<DirEntry>, accepted: &Vec<bool>, parent_path: &str) -> (hs: Vec<Handle>)
    requires
        accepted@.len() == entries@.len(),
        old(ui).has_room((8 * entries@.len()) as nat),
    ensures
        hs@.len() == accepted_paths(entries@, accepted@).len(),
        forall|k: int| 0 <= k < hs@.len() ==> {
            &&& final(ui).is_tree(#[trigger] hs@[k])
            &&& hs@[k].index >= old(ui).nodes@.len()
            &&& final(ui).node(hs@[k]).user_path is Some
            &&& final(ui).node(hs@[k]).user_path->Some_0@ == accepted_paths(entries@, accepted@)[k]
            &&& final(ui).tree(hs@[k]).items@.len() == 0
        },
        hs@.no_duplicates(),
        old(ui).nodes@.len() <= final(ui).nodes@.len() <= old(ui).nodes@.len() + 7 * entries@.len(),
        forall|i: int| 0 <= i < old(ui).nodes@.len() ==> #[trigger] final(ui).nodes@[i] == old(ui).nodes@[i],
        final(ui).messages == old(ui).messages,
        final(ui).requests == old(ui).requests,
{
    let mut hs: Vec<Handle> = Vec::new();
    let mut k: usize = 0;
    while k < entries.len()
        invariant
            k <= entries@.len(),
            accepted@.len() == entries@.len(),
            old(ui).has_room((8 * entries@.len()) as nat),
            old(ui).nodes@.len() <= ui.nodes@.len() <= old(ui).nodes@.len() + 7 * k,
            hs@.len() == accepted_paths(entries@.subrange(0, k as int), accepted@.subrange(0, k as int)).len(),
            forall|j: int| 0 <= j < hs@.len() ==> {
                &&& ui.is_tree(#[trigger] hs@[j])
                &&& old(ui).nodes@.len() <= hs@[j].index < ui.nodes@.len()
                &&& ui.node(hs@[j]).user_path is Some
                &&& ui.node(hs@[j]).user_path->Some_0@ == accepted_paths(entries@.subrange(0, k as int), accepted@.subrange(0, k as int))[j]
                &&& ui.tree(hs@[j]).items@.len() == 0
            },
            forall|a: int, b: int| 0 <= a < b < hs@.len() ==> hs@[a].index < hs@[b].index,
            forall|i: int| 0 <= i < old(ui).nodes@.len() ==> #[trigger] ui.nodes@[i] == old(ui).nodes@[i],
            ui.messages == old(ui).messages,
            ui.requests == old(ui).requests,
        decreases entries@.len() - k,
    {
        proof {
            assert(entries@.subrange(0, k + 1).drop_last() =~= entries@.subrange(0, k as int));
            assert(accepted@.subrange(0, k + 1).drop_last() =~= accepted@.subrange(0, k as int));
        }
        if accepted[k] {
            let ghost before = *ui;
            let entry = &entries[k];
            let h = build_tree_item(ui, entry.path.as_str(), parent_path, entry.has_entries);
            hs.push(h);
            proof {
                assert forall|j: int| 0 <= j < hs@.len() - 1 implies #[trigger] ui.nodes@[hs@[j].index as int] == before.nodes@[hs@[j].index as int] by {}
            }
        }
        k = k + 1;
    }
    proof {
        assert(entries@.subrange(0, entries@.len() as int) =~= entries@);
        assert(accepted@.subrange(0, accepted@.len() as int) =~= accepted@);
        assert forall|a: int, b: int| 0 <= a < hs@.len() && 0 <= b < hs@.len() && a != b implies hs@[a] != hs@[b] by {
            if a < b {
                assert(hs@[a].index < hs@[b].index);
            } else {
                assert(hs@[b].index < hs@[a].index);
            }
        }
    }
    hs
}

} // verus!

verus! {

/// A message that sets the text of `dest` to `s`.
pub open spec fn is_text_msg(m: UiMessage, dest: Handle, s: Seq<char>) -> bool {
    &&& m.destination == dest
    &&& !m.handled
    &&& m.data is Text
    &&& m.data->Text_0->Text_0@ == s
}

/// A message that tells the browser `dest` that `s` is the path to select.
pub open spec fn is_selection_changed_msg(m: UiMessage, dest: Handle, s: Seq<char>) -> bool {
    &&& m.destination == dest
    &&& !m.handled
    &&& m.data is FileBrowser
    &&& m.data->FileBrowser_0 is SelectionChanged
    &&& m.data->FileBrowser_0->SelectionChanged_0@ == s
}

/// A message that replaces the items of the tree `dest` with `items`.
pub open spec fn is_set_items_msg(m: UiMessage, dest: Handle, items: Seq<Handle>) -> bool {
    &&& m.destination == dest
    &&& !m.handled
    &&& m.data is Tree
    &&& m.data->Tree_0 is SetItems
    &&& m.data->Tree_0->SetItems_0@ == items
}

/// Collapsing a tree under a browser empties it: the browser answers the
/// collapse with a request to replace the tree's items by none, and a tree
/// that takes such a request is left with no items, whatever it held.
pub proof fn lemma_collapse_evicts(a: UserInterface, b: UserInterface, m: UiMessage, tree: Handle)
    requires
        is_set_items_msg(m, tree, Seq::empty()),
        crate::tree::items_replaced(a, b, tree, m.data->Tree_0->SetItems_0@),
    ensures
        b.is_tree(tree),
        b.tree(tree).items@.len() == 0,
{
}

/// Equal in every field but `selection` and `filter`.
pub open spec fn same_but_selection(a: FileBrowser, b: FileBrowser) -> bool {
    &&& a.tree_root == b.tree_root
    &&& a.path == b.path
    &&& a.path_text == b.path_text
}

/// Committing `path` as the selection of the browser at `this`.
pub open spec fn change_selection_effect(a: UserInterface, b: UserInterface, this: Handle, path: Seq<char>) -> bool {
    let fb = a.file_browser(this);
    let t = lookup(a, fb.tree_root, path);
    &&& fb.selection@ != path && t.spec_is_some() ==> {
        &&& b.nodes@.len() == a.nodes@.len()
        &&& b.is_file_browser(this)
        &&& b.file_browser(this).selection@ == path
        &&& same_but_selection(b.file_browser(this), fb)
        &&& b.file_browser(this).filter == fb.filter
        &&& b.node(this).parent == a.node(this).parent
        &&& b.node(this).children == a.node(this).children
        &&& forall|i: int| 0 <= i < a.nodes@.len() && i != this.index ==> #[trigger] b.nodes@[i] == a.nodes@[i]
        &&& b.messages@.len() == a.messages@.len() + 2
        &&& b.messages@.subrange(0, a.messages@.len() as int) == a.messages@
        &&& is_text_msg(b.messages@[a.messages@.len() as int], fb.path_text, path)
        &&& b.messages@.last() == crate::tree::select_msg(fb.tree_root, t)
        &&& b.requests == a.requests
    }
    &&& !(fb.selection@ != path && t.spec_is_some()) ==> b == a
}

/// An edit of the path field of the browser at `this` to `text`.
pub open spec fn text_changed_effect(a: UserInterface, b: UserInterface, this: Handle, text: Seq<char>) -> bool {
    let fb = a.file_browser(this);
    let t = lookup(a, fb.tree_root, text);
    &&& b.nodes == a.nodes
    &&& b.requests == a.requests
    &&& t.spec_is_some() ==> b.messages@ == a.messages@.push(crate::tree::select_msg(fb.tree_root, t))
    &&& !t.spec_is_some() ==> b.messages == a.messages
}

/// The root of the browser at `this` reporting that it selected `sel`.
pub open spec fn root_selected_effect(a: UserInterface, b: UserInterface, this: Handle, sel: Handle) -> bool {
    let fb = a.file_browser(this);
    let has = a.valid(sel) && a.node(sel).user_path is Some;
    let p = a.node(sel).user_path->Some_0@;
    &&& b.nodes == a.nodes
    &&& b.requests == a.requests
    &&& has && p != fb.selection@ ==> b.messages@.len() == a.messages@.len() + 1
        && b.messages@.subrange(0, a.messages@.len() as int) == a.messages@
        && is_selection_changed_msg(b.messages@.last(), this, p)
    &&& !(has && p != fb.selection@) ==> b.messages == a.messages
}

/// The tree at `tree`, below the browser at `this`, was expanded or collapsed.
pub open spec fn tree_expanded_effect(a: UserInterface, b: UserInterface, this: Handle, tree: Handle, expand: bool) -> bool {
    &&& b.nodes == a.nodes
    &&& expand && a.valid(tree) && a.node(tree).user_path is Some ==> {
        let r = b.requests@.last();
        &&& b.requests@.len() == a.requests@.len() + 1
        &&& b.requests@.subrange(0, a.requests@.len() as int) == a.requests@
        &&& r.browser == this
        &&& r.tree == tree
        &&& r.path@ == a.node(tree).user_path->Some_0@
        &&& b.messages == a.messages
    }
    &&& expand && !(a.valid(tree) && a.node(tree).user_path is Some) ==> b == a
    &&& !expand ==> b.requests == a.requests
        && b.messages@.len() == a.messages@.len() + 1
        && b.messages@.subrange(0, a.messages@.len() as int) == a.messages@
        && is_set_items_msg(b.messages@.last(), tree, Seq::empty())
}

/// Pointing the browser at `this` at the root directory `path`.
pub open spec fn rebuild_effect(a: UserInterface, b: UserInterface, this: Handle, path: Seq<char>) -> bool {
    &&& !a.has_room(8) ==> b == a
    &&& a.has_room(8) ==> {
        let fb = a.file_browser(this);
        let root = fb.tree_root;
        let m = b.messages@;
        let k = a.messages@.len() as int;
        &&& b.is_file_browser(this)
        &&& b.file_browser(this).path@ == path
        &&& b.file_browser(this).selection == fb.selection
        &&& b.file_browser(this).tree_root == root
        &&& b.file_browser(this).path_text == fb.path_text
        &&& b.file_browser(this).filter == fb.filter
        &&& m.len() == k + 2
        &&& m.subrange(0, k) == a.messages@
        &&& m[k].destination == root
        &&& m[k].data is TreeRoot
        &&& m[k].data->TreeRoot_0 is Items
        &&& m[k].data->TreeRoot_0->Items_0@.len() == 0
        &&& m[k + 1].destination == root
        &&& m[k + 1].data is TreeRoot
        &&& m[k + 1].data->TreeRoot_0 is AddItem
        &&& m[k + 1].data->TreeRoot_0->AddItem_0.index >= a.nodes@.len()
        &&& b.is_tree(m[k + 1].data->TreeRoot_0->AddItem_0)
        &&& b.node(m[k + 1].data->TreeRoot_0->AddItem_0).user_path->Some_0@ == path
        &&& forall|i: int| 0 <= i < a.nodes@.len() && i != this.index ==> #[trigger] b.nodes@[i] == a.nodes@[i]
        &&& b.requests == a.requests
    }
}

fn take_browser(ui: &mut UserInterface, h: Handle) -> (r: (Node, FileBrowser))
    requires
        old(ui).is_file_browser(h),
    ensures
        r.1 == old(ui).file_browser(h),
        r.0 == (Node { kind: NodeKind::Widget, ..old(ui).node(h) }),
        final(ui).nodes@ == old(ui).nodes@.update(h.index as int, None),
        final(ui).messages == old(ui).messages,
        final(ui).requests == old(ui).requests,
{
    let mut n = ui.take_node(h);
    let mut kind = NodeKind::Widget;
    std::mem::swap(&mut n.kind, &mut kind);
    match kind {
        NodeKind::FileBrowser(b) => (n, b),
        _ => {
            assert(false);
            (n, FileBrowser {
                tree_root: Handle::none(),
                path: String::new(),
                path_text: Handle::none(),
                selection: String::new(),
                filter: None,
            })
        },
    }
}

fn put_browser(ui: &mut UserInterface, h: Handle, n: Node, b: FileBrowser)
    requires
        h.index < old(ui).nodes@.len(),
    ensures
        final(ui).nodes@ == old(ui).nodes@.update(h.index as int, Some(Node { kind: NodeKind::FileBrowser(b), ..n })),
        final(ui).messages == old(ui).messages,
        final(ui).requests == old(ui).requests,
{
    let mut n = n;
    n.kind = NodeKind::FileBrowser(b);
    ui.put_node(h, n);
}

fn browser_ref(ui: &UserInterface, h: Handle) -> (b: &FileBrowser)
    requires
        ui.is_file_browser(h),
    ensures
        *b == ui.file_browser(h),
{
    ui.nodes[h.index].as_ref().unwrap().kind.as_file_browser().unwrap()
}

/// The path attached to the node at `h`, if it is live and has one.
fn attached_path(ui: &UserInterface, h: Handle) -> (r: Option<String>)
    ensures
        r is Some <==> ui.valid(h) && ui.node(h).user_path is Some,
        r is Some ==> r->Some_0@ == ui.node(h).user_path->Some_0@,
{
    if !ui.is_valid(h) {
        return None;
    }
    match &ui.nodes[h.index].as_ref().unwrap().user_path {
        Some(p) => Some(p.clone()),
        None => None,
    }
}

/// The entries of a listing; a failed one has none.
pub open spec fn listing_entries(listing: Option<Vec<DirEntry>>) -> Seq<DirEntry> {
    match listing {
        Some(v) => v@,
        None => Seq::empty(),
    }
}

pub proof fn lemma_accepted_len(entries: Seq<DirEntry>, accepted: Seq<bool>)
    ensures
        accepted_paths(entries, accepted).len() <= entries.len(),
    decreases entries.len(),
{
    if entries.len() > 0 && accepted.len() > 0 {
        lemma_accepted_len(entries.drop_last(), accepted.drop_last());
    }
}

/// Accepting every entry keeps every path.
pub proof fn lemma_accept_all(entries: Seq<DirEntry>, accepted: Seq<bool>)
    requires
        accepted.len() == entries.len(),
        forall|k: int| 0 <= k < accepted.len() ==> accepted[k],
    ensures
        accepted_paths(entries, accepted) == entry_paths(entries),
    decreases entries.len(),
{
    if entries.len() > 0 {
        lemma_accept_all(entries.drop_last(), accepted.drop_last());
        assert(entry_paths(entries.drop_last()).push(entries.last().path@) =~= entry_paths(entries));
    } else {
        assert(entry_paths(entries) =~= Seq::<Seq<char>>::empty());
    }
}

impl FileBrowser {
    /// Rewrites the tree root and the path field through `map` after the
    /// browser was copied into another arena.
    pub fn resolve(&mut self, map: &NodeHandleMapping)
        requires
            map.spec_get(old(self).tree_root) is Some,
            map.spec_get(old(self).path_text) is Some,
        ensures
            final(self).tree_root == map.spec_get(old(self).tree_root)->Some_0,
            final(self).path_text == map.spec_get(old(self).path_text)->Some_0,
            final(self).path == old(self).path,
            final(self).selection == old(self).selection,
            final(self).filter == old(self).filter,
    {
        self.tree_root = map.get(self.tree_root).unwrap();
        self.path_text = map.get(self.path_text).unwrap();
    }

    /// Forgets `h` wherever the browser holds it, after the node of `h` was removed.
    pub fn remove_ref(&mut self, h: Handle)
        ensures
            final(self).tree_root == (if old(self).tree_root == h { Handle::spec_none() } else { old(self).tree_root }),
            final(self).path_text == (if old(self).path_text == h { Handle::spec_none() } else { old(self).path_text }),
            final(self).path == old(self).path,
            final(self).selection == old(self).selection,
            final(self).filter == old(self).filter,
    {
        if self.tree_root == h {
            self.tree_root = Handle::none();
        }
        if self.path_text == h {
            self.path_text = Handle::none();
        }
    }

    /// Asks the filter, if there is one, about the path of each entry, once
    /// and in order, and returns its answers; without a filter every entry is
    /// accepted. The filter's answers are its own: only their number is known.
    pub fn accept_entries(&mut self, entries: &Vec<DirEntry>) -> (r: Vec<bool>)
        ensures
            r@.len() == entries@.len(),
            old(self).filter is None ==> forall|k: int| 0 <= k < r@.len() ==> r@[k],
            final(self).filter is None <==> old(self).filter is None,
            same_but_selection(*final(self), *old(self)),
            final(self).selection == old(self).selection,
    {
        let mut r: Vec<bool> = Vec::new();
        let mut k: usize = 0;
        while k < entries.len()
            invariant
                k <= entries@.len(),
                r@.len() == k,
                old(self).filter is None ==> forall|j: int| 0 <= j < r@.len() ==> r@[j],
                self.filter is None <==> old(self).filter is None,
                same_but_selection(*self, *old(self)),
                self.selection == old(self).selection,
            decreases entries@.len() - k,
        {
            let accept = match &mut self.filter {
                Some(f) => f.accept(entries[k].path.as_str()),
                None => true,
            };
            r.push(accept);
            k = k + 1;
        }
        r
    }

    /// Commits `path` as the selection when it differs from the current one
    /// and some tree answers a lookup for it: the path field shows it and the
    /// root is asked to select that tree. Otherwise nothing changes.
    pub fn change_selection(ui: &mut UserInterface, this: Handle, path: &str)
        requires
            old(ui).is_file_browser(this),
        ensures
            change_selection_effect(*old(ui), *final(ui), this, path@),
    {
        let b = browser_ref(ui, this);
        let owned = path.to_owned();
        if b.selection == owned {
            return;
        }
        let tree_root = b.tree_root;
        let path_text = b.path_text;
        let tree = lookup_from(ui, tree_root, path);
        if tree.is_some() {
            let (n, mut b) = take_browser(ui, this);
            b.selection = owned;
            put_browser(ui, this, n, b);
            ui.send_message(UiMessage::new(path_text, UiMessageData::Text(TextMessage::Text(path.to_owned()))));
            ui.send_message(UiMessage::new(tree_root, UiMessageData::TreeRoot(TreeRootMessage::Selected(tree))));
            assert(ui.messages@.subrange(0, old(ui).messages@.len() as int) =~= old(ui).messages@);
        }
    }

    /// After an edit of the path field: where some tree answers a lookup for
    /// the new text, the root is asked to select it.
    pub fn text_changed(ui: &mut UserInterface, this: Handle, text: &str)
        requires
            old(ui).is_file_browser(this),
        ensures
            text_changed_effect(*old(ui), *final(ui), this, text@),
    {
        let tree_root = browser_ref(ui, this).tree_root;
        let tree = lookup_from(ui, tree_root, text);
        if tree.is_some() {
            ui.send_message(UiMessage::new(tree_root, UiMessageData::TreeRoot(TreeRootMessage::Selected(tree))));
        }
    }

    /// After the root selected `sel`: where its path differs from the
    /// selection, the browser is told to select that path.
    pub fn root_selected(ui: &mut UserInterface, this: Handle, sel: Handle)
        requires
            old(ui).is_file_browser(this),
        ensures
            root_selected_effect(*old(ui), *final(ui), this, sel),
    {
        if let Some(p) = attached_path(ui, sel) {
            if browser_ref(ui, this).selection != p {
                ui.send_message(UiMessage::new(this, UiMessageData::FileBrowser(FileBrowserMessage::SelectionChanged(p))));
                assert(ui.messages@.subrange(0, old(ui).messages@.len() as int) =~= old(ui).messages@);
            }
        }
    }

    /// After the tree at `tree` was expanded or collapsed. Expanding a tree
    /// with a path asks the host for a listing of that directory. Collapsing
    /// asks the tree to drop all of its items, which are made again from the
    /// directory on the next expansion.
    pub fn tree_expanded(ui: &mut UserInterface, this: Handle, tree: Handle, expand: bool)
        ensures
            tree_expanded_effect(*old(ui), *final(ui), this, tree, expand),
    {
        if expand {
            if let Some(path) = attached_path(ui, tree) {
                ui.requests.push(DirectoryRequest { browser: this, tree, path });
                assert(ui.requests@.subrange(0, old(ui).requests@.len() as int) =~= old(ui).requests@);
            }
        } else {
            let empty: Vec<Handle> = Vec::new();
            ui.send_message(UiMessage::new(tree, UiMessageData::Tree(TreeMessage::SetItems(empty))));
            assert(ui.messages@.subrange(0, old(ui).messages@.len() as int) =~= old(ui).messages@);
        }
    }

    /// Rebuilds the tree for a new root directory: the root is asked to drop
    /// its items and then to take one item for `path`. Nothing happens where
    /// the arena has no room for that item.
    pub fn rebuild(ui: &mut UserInterface, this: Handle, path: &str, has_entries: bool)
        requires
            old(ui).is_file_browser(this),
        ensures
            rebuild_effect(*old(ui), *final(ui), this, path@),
    {
        if !ui.has_room_for(8) {
            return;
        }
        let (n, mut b) = take_browser(ui, this);
        let tree_root = b.tree_root;
        b.path = path.to_owned();
        put_browser(ui, this, n, b);
        let empty: Vec<Handle> = Vec::new();
        ui.send_message(UiMessage::new(tree_root, UiMessageData::TreeRoot(TreeRootMessage::Items(empty))));
        let ghost mid = ui.messages@;
        build_tree(ui, tree_root, true, path, "", has_entries);
        assert(ui.messages@.subrange(0, old(ui).messages@.len() as int) =~= old(ui).messages@);
        assert(ui.messages@[old(ui).messages@.len() as int] == mid[old(ui).messages@.len() as int]);
    }

    /// Reacts to a message routed to the browser at `this` or bubbling up
    /// through it, by the rules of `rebuild`, `change_selection`,
    /// `text_changed`, `tree_expanded` and `root_selected`. A message
    /// for a node that is gone is ignored.
    pub fn handle_routed_message(ui: &mut UserInterface, this: Handle, msg: &UiMessage)
        requires
            old(ui).is_file_browser(this),
        ensures
            ({
                let a = *old(ui);
                let b = *final(ui);
                let m = *msg;
                let fb = a.file_browser(this);
                &&& m.data is FileBrowser && m.destination == this ==> match m.data->FileBrowser_0 {
                    FileBrowserMessage::Path(p, _) => rebuild_effect(a, b, this, p@),
                    FileBrowserMessage::SelectionChanged(p) => change_selection_effect(a, b, this, p@),
                }
                &&& m.data is FileBrowser && m.destination != this ==> b == a
                &&& m.data is TextBox && m.destination == fb.path_text ==> text_changed_effect(
                    a,
                    b,
                    this,
                    m.data->TextBox_0->Text_0@,
                )
                &&& m.data is TextBox && m.destination != fb.path_text ==> b == a
                &&& m.data is Tree && m.data->Tree_0 is Expand ==> tree_expanded_effect(
                    a,
                    b,
                    this,
                    m.destination,
                    m.data->Tree_0->Expand_0,
                )
                &&& m.data is Tree && !(m.data->Tree_0 is Expand) ==> b == a
                &&& m.data is TreeRoot && m.data->TreeRoot_0 is Selected && m.destination == fb.tree_root
                    ==> root_selected_effect(a, b, this, m.data->TreeRoot_0->Selected_0)
                &&& m.data is TreeRoot && !(m.data->TreeRoot_0 is Selected && m.destination == fb.tree_root) ==> b == a
                &&& m.data is Widget || m.data is Button || m.data is Text ==> b == a
            }),
    {
        let destination = msg.destination;
        match &msg.data {
            UiMessageData::FileBrowser(FileBrowserMessage::Path(path, has_entries)) => {
                if destination == this {
                    FileBrowser::rebuild(ui, this, path.as_str(), *has_entries);
                }
            },
            UiMessageData::FileBrowser(FileBrowserMessage::SelectionChanged(path)) => {
                if destination == this {
                    FileBrowser::change_selection(ui, this, path.as_str());
                }
            },
            UiMessageData::TextBox(TextBoxMessage::Text(text)) => {
                if destination == browser_ref(ui, this).path_text {
                    FileBrowser::text_changed(ui, this, text.as_str());
                }
            },
            UiMessageData::Tree(TreeMessage::Expand(expand)) => {
                FileBrowser::tree_expanded(ui, this, destination, *expand);
            },
            UiMessageData::TreeRoot(TreeRootMessage::Selected(sel)) => {
                if destination == browser_ref(ui, this).tree_root {
                    FileBrowser::root_selected(ui, this, *sel);
                }
            },
            _ => {},
        }
    }

    /// Fills the tree at `tree` from a directory listing the host read for
    /// the browser at `browser`; a failed listing counts as an empty one.
    /// Each entry that the filter accepts becomes a collapsed tree item, in
    /// the order of the listing, and the tree is asked to take these items
    /// in place of the ones it has. Returns the new items; nothing happens,
    /// and no item is returned, where the browser or the tree is gone, the
    /// tree has no path, or the arena has no room for the items.
    pub fn populate(ui: &mut UserInterface, browser: Handle, tree: Handle, listing: Option<Vec<DirEntry>>) -> (hs: Vec<Handle>)
        ensures
            ({
                let n = listing_entries(listing).len();
                let ok = old(ui).is_file_browser(browser) && old(ui).is_tree(tree) && old(ui).node(tree).user_path is Some
                    && old(ui).has_room((8 * n) as nat);
                &&& !ok ==> hs@.len() == 0 && *final(ui) == *old(ui)
                &&& ok ==> {
                    &&& hs@.len() <= n
                    &&& final(ui).messages@.len() == old(ui).messages@.len() + 1
                    &&& final(ui).messages@.subrange(0, old(ui).messages@.len() as int) == old(ui).messages@
                    &&& is_set_items_msg(final(ui).messages@.last(), tree, hs@)
                    &&& final(ui).requests == old(ui).requests
                    &&& hs@.no_duplicates()
                    &&& forall|k: int| 0 <= k < hs@.len() ==> {
                        &&& final(ui).is_tree(#[trigger] hs@[k])
                        &&& hs@[k].index >= old(ui).nodes@.len()
                        &&& final(ui).node(hs@[k]).user_path is Some
                        &&& final(ui).tree(hs@[k]).items@.len() == 0
                    }
                    &&& exists|acc: Seq<bool>| #[trigger] accepted_paths(listing_entries(listing), acc).len() == hs@.len()
                        && acc.len() == n
                        && forall|k: int| 0 <= k < hs@.len() ==> final(ui).node(#[trigger] hs@[k]).user_path->Some_0@
                            == accepted_paths(listing_entries(listing), acc)[k]
                    &&& old(ui).file_browser(browser).filter is None ==> {
                        let paths = entry_paths(listing_entries(listing));
                        &&& hs@.len() == paths.len()
                        &&& forall|k: int| 0 <= k < hs@.len() ==> final(ui).node(#[trigger] hs@[k]).user_path->Some_0@ == paths[k]
                    }
                }
            }),
    {
        let entries = match listing {
            Some(v) => v,
            None => Vec::new(),
        };
        if !ui.is_valid(browser) || ui.nodes[browser.index].as_ref().unwrap().kind.as_file_browser().is_none() {
            return Vec::new();
        }
        if !ui.is_valid(tree) || ui.nodes[tree.index].as_ref().unwrap().kind.as_tree().is_none() {
            return Vec::new();
        }
        let parent_path = match attached_path(ui, tree) {
            Some(p) => p,
            None => {
                return Vec::new();
            },
        };
        if entries.len() > (NONE_INDEX - ui.nodes.len()) / 8 || !ui.has_room_for(8 * entries.len()) {
            return Vec::new();
        }
        let ghost start = *ui;
        let (n, mut b) = take_browser(ui, browser);
        let accepted = b.accept_entries(&entries);
        put_browser(ui, browser, n, b);
        let hs = build_items(ui, &entries, &accepted, parent_path.as_str());
        proof {
            lemma_accepted_len(entries@, accepted@);
            assert(entries@ == listing_entries(listing));
            assert(accepted_paths(listing_entries(listing), accepted@).len() == hs@.len());
            if start.file_browser(browser).filter is None {
                lemma_accept_all(entries@, accepted@);
            }
        }
        let items = crate::tree::copy_handles(&hs);
        ui.send_message(UiMessage::new(tree, UiMessageData::Tree(TreeMessage::SetItems(items))));
        hs
    }
}

} // verus!

verus! {

pub struct FileBrowserBuilder {
    pub path: String,
    pub root_has_entries: bool,
    pub filter: Option<Box<dyn PathFilter>>,
}

impl FileBrowserBuilder {
    /// A browser of the empty path, without a filter.
    pub fn new() -> (b: FileBrowserBuilder)
        ensures
            b.path@.len() == 0,
            !b.root_has_entries,
            b.filter is None,
    {
        FileBrowserBuilder { path: String::new(), root_has_entries: false, filter: None }
    }

    pub fn with_filter(self, filter: Box<dyn PathFilter>) -> (b: FileBrowserBuilder)
        ensures
            b.filter == Some(filter),
            b.path == self.path,
            b.root_has_entries == self.root_has_entries,
    {
        let f = Some(filter);
        FileBrowserBuilder { path: self.path, root_has_entries: self.root_has_entries, filter: f }
    }

    /// The root directory to browse, and whether it has any entry.
    pub fn with_path(self, path: &str, has_entries: bool) -> (b: FileBrowserBuilder)
        ensures
            b.path@ == path@,
            b.root_has_entries == has_entries,
            b.filter == self.filter,
    {
        FileBrowserBuilder { path: path.to_owned(), root_has_entries: has_entries, ..self }
    }

    /// Builds the browser into `ui`: a path field and a root holding one
    /// collapsed tree item for the root directory. Nothing is selected yet.
    pub fn build(self, ui: &mut UserInterface) -> (h: Handle)
        requires
            old(ui).has_room(16),
        ensures
            final(ui).is_file_browser(h),
            final(ui).file_browser(h).path@ == self.path@,
            final(ui).file_browser(h).selection@.len() == 0,
            final(ui).file_browser(h).filter == self.filter,
            final(ui).tree_root(final(ui).file_browser(h).tree_root).selected == Handle::spec_none(),
            !final(ui).tree(final(ui).tree_root(final(ui).file_browser(h).tree_root).items@[0]).is_expanded,
            final(ui).tree(final(ui).tree_root(final(ui).file_browser(h).tree_root).items@[0]).items@.len() == 0,
            forall|i: int|
                0 <= i < old(ui).nodes@.len() ==> crate::ui::slot_kept(old(ui).nodes@[i], #[trigger] final(ui).nodes@[i]),
            final(ui).valid(final(ui).file_browser(h).path_text),
            final(ui).node(final(ui).file_browser(h).path_text).kind is TextBox,
            final(ui).is_tree_root(final(ui).file_browser(h).tree_root),
            final(ui).tree_root(final(ui).file_browser(h).tree_root).items@.len() == 1,
            final(ui).is_tree(final(ui).tree_root(final(ui).file_browser(h).tree_root).items@[0]),
            final(ui).node(final(ui).tree_root(final(ui).file_browser(h).tree_root).items@[0]).user_path->Some_0@
                == self.path@,
            final(ui).messages == old(ui).messages,
            final(ui).requests == old(ui).requests,
    {
        let item = build_tree_item(ui, self.path.as_str(), "", self.root_has_entries);
        let ghost s0 = *ui;
        let tree_root = TreeRootBuilder::new().with_items(vec![item]).build(ui);
        let ghost s1 = *ui;
        let scroll_viewer = ui.add_node(Node::new(NodeKind::Widget));
        let path_text = ui.add_node(Node::new(NodeKind::TextBox(String::new())));
        let grid = ui.add_node(Node::new(NodeKind::Widget));
        let browser = ui.add_node(Node::new(NodeKind::FileBrowser(FileBrowser {
            tree_root,
            path: self.path,
            path_text,
            selection: String::new(),
            filter: self.filter,
        })));
        let ghost built = *ui;
        ui.link_nodes(tree_root, scroll_viewer);
        let ghost l1 = *ui;
        ui.link_nodes(path_text, grid);
        let ghost l2 = *ui;
        ui.link_nodes(scroll_viewer, grid);
        let ghost l3 = *ui;
        ui.link_nodes(grid, browser);
        proof {
            crate::ui::lemma_shape_kept_trans(built, l1, l2);
            crate::ui::lemma_shape_kept_trans(built, l2, l3);
            crate::ui::lemma_shape_kept_trans(built, l3, *ui);
            assert(crate::ui::slot_kept(built.nodes@[browser.index as int], ui.nodes@[browser.index as int]));
            assert(crate::ui::slot_kept(built.nodes@[path_text.index as int], ui.nodes@[path_text.index as int]));
            assert(crate::ui::slot_kept(built.nodes@[tree_root.index as int], ui.nodes@[tree_root.index as int]));
            assert(crate::ui::slot_kept(built.nodes@[item.index as int], ui.nodes@[item.index as int]));
            assert(crate::ui::slot_kept(s0.nodes@[item.index as int], s1.nodes@[item.index as int]));
            assert forall|i: int| 0 <= i < old(ui).nodes@.len() implies crate::ui::slot_kept(old(ui).nodes@[i], #[trigger] ui.nodes@[i]) by {
                assert(crate::ui::slot_kept(s0.nodes@[i], s1.nodes@[i]));
                assert(crate::ui::slot_kept(built.nodes@[i], ui.nodes@[i]));
            }
        }
        browser
    }
}

} // verus!
