//! The widget arena: nodes addressed by handles, parent/child links, and the
//! queue of routed messages.
use vstd::prelude::*;
use crate::handle::{
    Brush, Color, Handle, NONE_INDEX, appended_each, remove_all, remove_all_exec, remove_each,
};
use crate::message::{TextBoxMessage, TextMessage, UiMessageData, WidgetMessage};
use crate::message::UiMessage;
use crate::tree::{Tree, TreeRoot, expand_step, root_message_effect, selection_step, tree_message_effect};
use crate::file_browser::FileBrowser;

verus! {

/// What a node is, beside what every widget has.
pub enum NodeKind {
    /// A plain container: grid, border, stack panel or scroll viewer.
    Widget,
    /// A button and the handle of its text content.
    Button(Handle),
    Text(String),
    TextBox(String),
    Tree(Tree),
    TreeRoot(TreeRoot),
    FileBrowser(FileBrowser),
}

impl NodeKind {
    pub fn as_tree(&self) -> (r: Option<&Tree>)
        ensures
            (self is Tree) == (r is Some),
            self is Tree ==> *r->Some_0 == self->Tree_0,
    {
        match self {
            NodeKind::Tree(t) => Some(t),
            _ => None,
        }
    }

    pub fn as_tree_root(&self) -> (r: Option<&TreeRoot>)
        ensures
            (self is TreeRoot) == (r is Some),
            self is TreeRoot ==> *r->Some_0 == self->TreeRoot_0,
    {
        match self {
            NodeKind::TreeRoot(t) => Some(t),
            _ => None,
        }
    }

    pub fn as_file_browser(&self) -> (r: Option<&FileBrowser>)
        ensures
            (self is FileBrowser) == (r is Some),
            self is FileBrowser ==> *r->Some_0 == self->FileBrowser_0,
    {
        match self {
            NodeKind::FileBrowser(t) => Some(t),
            _ => None,
        }
    }
}

pub struct Node {
    pub parent: Handle,
    pub children: Vec<Handle>,
    pub visibility: bool,
    pub background: Brush,
    /// The filesystem path attached at construction, if any.
    pub user_path: Option<String>,
    pub kind: NodeKind,
}

impl Node {
    /// A visible node with no parent, no children and a transparent background.
    pub fn new(kind: NodeKind) -> (n: Node)
        ensures
            n.parent == Handle::spec_none(),
            n.children@.len() == 0,
            n.visibility,
            n.background == Brush::Solid(Color { r: 0, g: 0, b: 0, a: 0 }),
            n.user_path is None,
            n.kind == kind,
    {
        Node {
            parent: Handle::none(),
            children: Vec::new(),
            visibility: true,
            background: Brush::Solid(Color::transparent()),
            user_path: None,
            kind,
        }
    }
}

/// Equal in every field but `children`.
pub open spec fn same_but_children(a: Node, b: Node) -> bool {
    &&& a.parent == b.parent
    &&& a.visibility == b.visibility
    &&& a.background == b.background
    &&& a.user_path == b.user_path
    &&& a.kind == b.kind
}

/// Equal in every field but `parent`.
pub open spec fn same_but_parent(a: Node, b: Node) -> bool {
    &&& a.children == b.children
    &&& a.visibility == b.visibility
    &&& a.background == b.background
    &&& a.user_path == b.user_path
    &&& a.kind == b.kind
}

/// Equal in what the node shows and is, links aside.
pub open spec fn same_content(a: Node, b: Node) -> bool {
    &&& a.visibility == b.visibility
    &&& a.background == b.background
    &&& a.user_path == b.user_path
    &&& a.kind == b.kind
}

pub open spec fn slot_kept(x: Option<Node>, y: Option<Node>) -> bool {
    &&& (x is Some <==> y is Some)
    &&& x is Some ==> same_content(x->Some_0, y->Some_0)
}

/// `b` has the slots of `a`, with the same nodes in them up to links.
pub open spec fn shape_kept(a: UserInterface, b: UserInterface) -> bool {
    &&& b.nodes@.len() == a.nodes@.len()
    &&& forall|i: int| 0 <= i < a.nodes@.len() ==> slot_kept(a.nodes@[i], #[trigger] b.nodes@[i])
}

pub proof fn lemma_shape_kept_trans(a: UserInterface, b: UserInterface, c: UserInterface)
    requires
        shape_kept(a, b),
        shape_kept(b, c),
    ensures
        shape_kept(a, c),
{
    assert forall|i: int| 0 <= i < a.nodes@.len() implies slot_kept(a.nodes@[i], #[trigger] c.nodes@[i]) by {
        assert(slot_kept(a.nodes@[i], b.nodes@[i]));
        assert(slot_kept(b.nodes@[i], c.nodes@[i]));
    }
}

/// Handlers above the destination leave the arena alone for this message:
/// tree and root messages other than an expansion or a selection report.
pub open spec fn quiet_above(m: UiMessage) -> bool {
    (m.data is Tree && !(m.data->Tree_0 is Expand)) || (m.data is TreeRoot && !(m.data->TreeRoot_0 is Selected))
}

/// The message that asks for the removal of `h`.
pub open spec fn removal(h: Handle) -> UiMessage {
    UiMessage { destination: h, data: UiMessageData::Widget(WidgetMessage::Remove), handled: false }
}

/// `a` and `b` have the same slots filled, with the same parents and children.
pub open spec fn links_kept(a: UserInterface, b: UserInterface) -> bool {
    &&& b.nodes@.len() == a.nodes@.len()
    &&& forall|i: int|
        0 <= i < a.nodes@.len() ==> (a.nodes@[i] is Some <==> #[trigger] b.nodes@[i] is Some)
    &&& forall|i: int|
        0 <= i < a.nodes@.len() && a.nodes@[i] is Some ==> (#[trigger] b.nodes@[i])->Some_0.parent
            == a.nodes@[i]->Some_0.parent && b.nodes@[i]->Some_0.children == a.nodes@[i]->Some_0.children
}

pub proof fn lemma_reaches_links(a: UserInterface, b: UserInterface, h: Handle, root: Handle, fuel: nat)
    requires
        links_kept(a, b),
    ensures
        a.reaches(h, root, fuel) == b.reaches(h, root, fuel),
    decreases fuel,
{
    if fuel > 0 {
        if a.valid(h) {
            assert(b.nodes@[h.index as int] is Some);
            lemma_reaches_links(a, b, a.node(h).parent, root, (fuel - 1) as nat);
        } else if h.index < a.nodes@.len() {
            assert(!(b.nodes@[h.index as int] is Some));
        }
    }
}

/// Pairs each handle of a copied node graph with its handle in the new arena.
pub struct NodeHandleMapping {
    pub pairs: Vec<(Handle, Handle)>,
}

/// The new handle that the first pair for `h` gives, if any.
pub open spec fn mapping_lookup(pairs: Seq<(Handle, Handle)>, h: Handle) -> Option<Handle>
    decreases pairs.len(),
{
    if pairs.len() == 0 {
        None
    } else if pairs[0].0 == h {
        Some(pairs[0].1)
    } else {
        mapping_lookup(pairs.drop_first(), h)
    }
}

impl NodeHandleMapping {
    pub open spec fn spec_get(&self, h: Handle) -> Option<Handle> {
        mapping_lookup(self.pairs@, h)
    }

    pub fn new() -> (m: NodeHandleMapping)
        ensures
            m.pairs@.len() == 0,
    {
        NodeHandleMapping { pairs: Vec::new() }
    }

    pub fn insert(&mut self, from: Handle, to: Handle)
        ensures
            final(self).pairs@ == old(self).pairs@.push((from, to)),
    {
        self.pairs.push((from, to));
    }

    pub fn get(&self, h: Handle) -> (r: Option<Handle>)
        ensures
            r == self.spec_get(h),
    {
        let mut i: usize = 0;
        assert(self.pairs@.subrange(0, self.pairs@.len() as int) =~= self.pairs@);
        while i < self.pairs.len()
            invariant
                i <= self.pairs@.len(),
                mapping_lookup(self.pairs@, h) == mapping_lookup(self.pairs@.subrange(i as int, self.pairs@.len() as int), h),
            decreases self.pairs@.len() - i,
        {
            let (from, to) = self.pairs[i];
            assert(self.pairs@.subrange(i as int, self.pairs@.len() as int).drop_first() =~= self.pairs@.subrange(i + 1, self.pairs@.len() as int));
            if from == h {
                return Some(to);
            }
            i = i + 1;
        }
        None
    }
}

/// A request to the host to list the immediate entries of a directory for an
/// expanding tree item of a file browser.
pub struct DirectoryRequest {
    pub browser: Handle,
    pub tree: Handle,
    pub path: String,
}

/// One entry of a directory listing, as the host read it.
pub struct DirEntry {
    pub path: String,
    /// Whether the entry is a directory with at least one entry of its own.
    pub has_entries: bool,
}

pub struct UserInterface {
    pub nodes: Vec<Option<Node>>,
    pub messages: Vec<UiMessage>,
    pub requests: Vec<DirectoryRequest>,
}

impl UserInterface {
    pub open spec fn valid(&self, h: Handle) -> bool {
        h.index < self.nodes@.len() && self.nodes@[h.index as int] is Some
    }

    pub open spec fn node(&self, h: Handle) -> Node {
        self.nodes@[h.index as int]->Some_0
    }

    pub open spec fn is_tree(&self, h: Handle) -> bool {
        self.valid(h) && self.node(h).kind is Tree
    }

    pub open spec fn tree(&self, h: Handle) -> Tree {
        self.node(h).kind->Tree_0
    }

    pub open spec fn is_tree_root(&self, h: Handle) -> bool {
        self.valid(h) && self.node(h).kind is TreeRoot
    }

    pub open spec fn tree_root(&self, h: Handle) -> TreeRoot {
        self.node(h).kind->TreeRoot_0
    }

    pub open spec fn is_file_browser(&self, h: Handle) -> bool {
        self.valid(h) && self.node(h).kind is FileBrowser
    }

    pub open spec fn file_browser(&self, h: Handle) -> FileBrowser {
        self.node(h).kind->FileBrowser_0
    }

    /// Room for `k` more nodes without reaching the index of the none handle.
    pub open spec fn has_room(&self, k: nat) -> bool {
        self.nodes@.len() + k < NONE_INDEX
    }

    /// `h` reaches `root` by following parents at most `fuel` times.
    pub open spec fn reaches(&self, h: Handle, root: Handle, fuel: nat) -> bool
        decreases fuel,
    {
        fuel > 0 && self.valid(h) && (self.node(h).parent == root || self.reaches(
            self.node(h).parent,
            root,
            (fuel - 1) as nat,
        ))
    }

    /// The nearest tree root among `h` and its ancestors, following parents
    /// at most `fuel` times, or the none handle.
    pub open spec fn root_above(&self, h: Handle, fuel: nat) -> Handle
        decreases fuel,
    {
        if fuel == 0 || !self.valid(h) {
            Handle::spec_none()
        } else if self.is_tree_root(h) {
            h
        } else {
            self.root_above(self.node(h).parent, (fuel - 1) as nat)
        }
    }

    /// `h` is a node below `root`.
    pub open spec fn descends(&self, h: Handle, root: Handle) -> bool {
        self.reaches(h, root, self.nodes@.len())
    }

    pub fn new() -> (ui: UserInterface)
        ensures
            ui.nodes@.len() == 0,
            ui.messages@.len() == 0,
            ui.requests@.len() == 0,
    {
        UserInterface { nodes: Vec::new(), messages: Vec::new(), requests: Vec::new() }
    }

    pub fn is_valid(&self, h: Handle) -> (r: bool)
        ensures
            r == self.valid(h),
    {
        h.index < self.nodes.len() && self.nodes[h.index].is_some()
    }

    /// Puts a node into a fresh slot; it keeps its own parent and children fields.
    pub fn add_node(&mut self, node: Node) -> (h: Handle)
        requires
            old(self).has_room(1),
        ensures
            h.index == old(self).nodes@.len(),
            h.spec_is_some(),
            final(self).nodes@ == old(self).nodes@.push(Some(node)),
            final(self).messages == old(self).messages,
            final(self).requests == old(self).requests,
    {
        let h = Handle { index: self.nodes.len() };
        self.nodes.push(Some(node));
        h
    }

    /// Takes the node out of its slot, leaving the slot empty.
    pub fn take_node(&mut self, h: Handle) -> (n: Node)
        requires
            old(self).valid(h),
        ensures
            n == old(self).node(h),
            final(self).nodes@ == old(self).nodes@.update(h.index as int, None),
            final(self).messages == old(self).messages,
            final(self).requests == old(self).requests,
    {
        let slot = self.nodes[h.index].take();
        match slot {
            Some(n) => n,
            None => {
                assert(false);
                Node::new(NodeKind::Widget)
            },
        }
    }

    /// Puts a node back into the slot of `h`.
    pub fn put_node(&mut self, h: Handle, n: Node)
        requires
            h.index < old(self).nodes@.len(),
        ensures
            final(self).nodes@ == old(self).nodes@.update(h.index as int, Some(n)),
            final(self).messages == old(self).messages,
            final(self).requests == old(self).requests,
    {
        self.nodes.set(h.index, Some(n));
    }

    pub fn send_message(&mut self, msg: UiMessage)
        ensures
            final(self).nodes == old(self).nodes,
            final(self).messages@ == old(self).messages@.push(msg),
            final(self).requests == old(self).requests,
    {
        self.messages.push(msg);
    }

    /// Takes the oldest queued message, if any.
    pub fn poll_message(&mut self) -> (r: Option<UiMessage>)
        ensures
            final(self).nodes == old(self).nodes,
            final(self).requests == old(self).requests,
            old(self).messages@.len() == 0 ==> r is None && final(self).messages@ == old(
                self,
            ).messages@,
            old(self).messages@.len() > 0 ==> r == Some(old(self).messages@[0])
                && final(self).messages@ == old(self).messages@.drop_first(),
    {
        if self.messages.len() == 0 {
            None
        } else {
            Some(self.messages.remove(0))
        }
    }

    /// Takes every pending directory request, oldest first.
    pub fn take_requests(&mut self) -> (r: Vec<DirectoryRequest>)
        ensures
            r@ == old(self).requests@,
            final(self).requests@.len() == 0,
            final(self).nodes == old(self).nodes,
            final(self).messages == old(self).messages,
    {
        let mut r: Vec<DirectoryRequest> = Vec::new();
        std::mem::swap(&mut r, &mut self.requests);
        r
    }

    /// The parent of a valid node.
    pub fn parent(&self, h: Handle) -> (p: Handle)
        requires
            self.valid(h),
        ensures
            p == self.node(h).parent,
    {
        match &self.nodes[h.index] {
            Some(n) => n.parent,
            None => Handle::none(),
        }
    }

    /// Detaches `child` from its parent: the parent no longer lists it, and
    /// it has no parent.
    pub fn unlink_node(&mut self, child: Handle)
        requires
            old(self).valid(child),
        ensures
            final(self).nodes@.len() == old(self).nodes@.len(),
            final(self).messages == old(self).messages,
            final(self).requests == old(self).requests,
            shape_kept(*old(self), *final(self)),
            final(self).valid(child),
            final(self).node(child).parent == Handle::spec_none(),
            same_but_parent(final(self).node(child), old(self).node(child)),
            ({
                let op = old(self).node(child).parent;
                op != child && old(self).valid(op) ==> {
                    &&& final(self).valid(op)
                    &&& final(self).node(op).children@ == remove_all(
                        old(self).node(op).children@,
                        child,
                    )
                    &&& same_but_children(final(self).node(op), old(self).node(op))
                }
            }),
            forall|i: int|
                0 <= i < old(self).nodes@.len() && i != child.index && i != old(
                    self,
                ).node(child).parent.index ==> final(self).nodes@[i] == old(self).nodes@[i],
    {
        let op = self.parent(child);
        if op != child && self.is_valid(op) {
            let mut pn = self.take_node(op);
            pn.children = remove_all_exec(&pn.children, child);
            self.put_node(op, pn);
        }
        let mut cn = self.take_node(child);
        cn.parent = Handle::none();
        self.put_node(child, cn);
    }

    /// Takes `child` out of the children of `parent`; where it named `parent`
    /// as its parent, it is left without one.
    pub fn remove_child(&mut self, parent: Handle, child: Handle)
        requires
            old(self).valid(parent),
        ensures
            shape_kept(*old(self), *final(self)),
            final(self).messages == old(self).messages,
            final(self).requests == old(self).requests,
            final(self).node(parent).children@ == remove_all(
                old(self).node(parent).children@,
                child,
            ),
            same_but_children(final(self).node(parent), old(self).node(parent)),
            forall|i: int|
                0 <= i < old(self).nodes@.len() && i != child.index && i != parent.index
                    ==> final(self).nodes@[i] == old(self).nodes@[i],
    {
        let mut pn = self.take_node(parent);
        pn.children = remove_all_exec(&pn.children, child);
        self.put_node(parent, pn);
        let ghost mid = *self;
        if child != parent && self.is_valid(child) && self.parent(child) == parent {
            let mut cn = self.take_node(child);
            cn.parent = Handle::none();
            self.put_node(child, cn);
            proof {
                lemma_shape_kept_trans(*old(self), mid, *self);
            }
        }
    }

    /// Moves `child` under `parent`, at the end of its children.
    pub fn link_nodes(&mut self, child: Handle, parent: Handle)
        requires
            old(self).valid(child),
            old(self).valid(parent),
            child != parent,
        ensures
            final(self).nodes@.len() == old(self).nodes@.len(),
            final(self).messages == old(self).messages,
            final(self).requests == old(self).requests,
            shape_kept(*old(self), *final(self)),
            final(self).valid(child),
            final(self).valid(parent),
            final(self).node(child).parent == parent,
            same_but_parent(final(self).node(child), old(self).node(child)),
            final(self).node(parent).children@ == remove_all(
                old(self).node(parent).children@,
                child,
            ).push(child),
            same_but_children(final(self).node(parent), old(self).node(parent)),
            ({
                let op = old(self).node(child).parent;
                op != child && op != parent && old(self).valid(op) ==> {
                    &&& final(self).valid(op)
                    &&& final(self).node(op).children@ == remove_all(
                        old(self).node(op).children@,
                        child,
                    )
                    &&& same_but_children(final(self).node(op), old(self).node(op))
                }
            }),
            forall|i: int|
                0 <= i < old(self).nodes@.len() && i != child.index && i != parent.index && i
                    != old(self).node(child).parent.index ==> final(self).nodes@[i] == old(
                    self,
                ).nodes@[i],
    {
        let ghost op = old(self).node(child).parent;
        self.unlink_node(child);
        let ghost mid = *self;
        proof {
            crate::handle::lemma_remove_all_not_contains(old(self).node(parent).children@, child);
            crate::handle::lemma_remove_all_absent(
                remove_all(old(self).node(parent).children@, child),
                child,
            );
        }
        let mut pn = self.take_node(parent);
        pn.children = remove_all_exec(&pn.children, child);
        pn.children.push(child);
        self.put_node(parent, pn);
        let mut cn = self.take_node(child);
        cn.parent = parent;
        self.put_node(child, cn);
        proof {
            lemma_shape_kept_trans(*old(self), mid, *self);
        }
    }

    /// Moves each of `items`, in order, to the end of the children of `panel`.
    pub fn link_all(&mut self, items: &Vec<Handle>, panel: Handle)
        requires
            old(self).valid(panel),
            forall|k: int| 0 <= k < items@.len() ==> old(self).valid(#[trigger] items@[k]) && items@[k] != panel,
        ensures
            shape_kept(*old(self), *final(self)),
            final(self).messages == old(self).messages,
            final(self).requests == old(self).requests,
            final(self).node(panel).children@ == appended_each(old(self).node(panel).children@, items@),
            items@.len() == 0 ==> *final(self) == *old(self),
            final(self).node(panel).parent == old(self).node(panel).parent,
    {
        let mut i: usize = 0;
        while i < items.len()
            invariant
                i <= items@.len(),
                shape_kept(*old(self), *self),
                self.messages == old(self).messages,
                self.requests == old(self).requests,
                old(self).valid(panel),
                forall|k: int| 0 <= k < items@.len() ==> old(self).valid(#[trigger] items@[k]) && items@[k] != panel,
                self.node(panel).children@ == appended_each(old(self).node(panel).children@, items@.subrange(0, i as int)),
                items@.len() == 0 ==> *self == *old(self),
                self.node(panel).parent == old(self).node(panel).parent,
            decreases items@.len() - i,
        {
            let item = items[i];
            assert(slot_kept(old(self).nodes@[item.index as int], self.nodes@[item.index as int]));
            assert(slot_kept(old(self).nodes@[panel.index as int], self.nodes@[panel.index as int]));
            let ghost before = *self;
            self.link_nodes(item, panel);
            proof {
                lemma_shape_kept_trans(*old(self), before, *self);
                assert(items@.subrange(0, i + 1).drop_last() =~= items@.subrange(0, i as int));
            }
            i = i + 1;
        }
        assert(items@.subrange(0, items@.len() as int) =~= items@);
    }

    /// Takes each of `items` out of the children of `panel` and asks for its removal.
    pub fn unlink_all(&mut self, items: &Vec<Handle>, panel: Handle)
        requires
            old(self).valid(panel),
        ensures
            shape_kept(*old(self), *final(self)),
            final(self).requests == old(self).requests,
            final(self).node(panel).children@ == remove_each(old(self).node(panel).children@, items@),
            final(self).messages@ == old(self).messages@ + items@.map_values(|h: Handle| removal(h)),
    {
        let mut i: usize = 0;
        while i < items.len()
            invariant
                i <= items@.len(),
                shape_kept(*old(self), *self),
                self.requests == old(self).requests,
                old(self).valid(panel),
                self.node(panel).children@ == remove_each(old(self).node(panel).children@, items@.subrange(0, i as int)),
                self.messages@ == old(self).messages@ + items@.subrange(0, i as int).map_values(|h: Handle| removal(h)),
            decreases items@.len() - i,
        {
            let item = items[i];
            assert(slot_kept(old(self).nodes@[panel.index as int], self.nodes@[panel.index as int]));
            let ghost before = *self;
            self.remove_child(panel, item);
            self.send_message(UiMessage::new(item, UiMessageData::Widget(WidgetMessage::Remove)));
            proof {
                lemma_shape_kept_trans(*old(self), before, *self);
                assert(items@.subrange(0, i + 1).drop_last() =~= items@.subrange(0, i as int));
                assert(items@.subrange(0, i + 1).map_values(|h: Handle| removal(h)) =~= items@.subrange(0, i as int).map_values(|h: Handle| removal(h)).push(removal(item)));
            }
            i = i + 1;
        }
        assert(items@.subrange(0, items@.len() as int) =~= items@);
    }

    /// Whether `h` is a node below `root`.
    pub fn is_descendant(&self, h: Handle, root: Handle) -> (r: bool)
        ensures
            r == self.descends(h, root),
    {
        let mut cur = h;
        let mut fuel: usize = self.nodes.len();
        loop
            invariant
                self.descends(h, root) == self.reaches(cur, root, fuel as nat),
            decreases fuel,
        {
            if fuel == 0 || !self.is_valid(cur) {
                return false;
            }
            let p = self.parent(cur);
            if p == root {
                return true;
            }
            cur = p;
            fuel = fuel - 1;
        }
    }

    /// The nearest tree root among `start` and its ancestors, or the none handle.
    pub fn find_tree_root_up(&self, start: Handle) -> (r: Handle)
        ensures
            r == self.root_above(start, self.nodes@.len()),
            r.spec_is_some() ==> self.is_tree_root(r),
    {
        let mut cur = start;
        let mut fuel: usize = self.nodes.len();
        while fuel > 0 && self.is_valid(cur)
            invariant
                self.root_above(start, self.nodes@.len()) == self.root_above(cur, fuel as nat),
            decreases fuel,
        {
            if self.nodes[cur.index].as_ref().unwrap().kind.as_tree_root().is_some() {
                return cur;
            }
            cur = self.parent(cur);
            fuel = fuel - 1;
        }
        Handle::none()
    }

    /// Whether `k` more nodes fit without reaching the index of the none handle.
    pub fn has_room_for(&self, k: usize) -> (r: bool)
        ensures
            r == self.has_room(k as nat),
    {
        k < NONE_INDEX - self.nodes.len()
    }

    /// Sets the text of a text or text-box node; other nodes are left alone.
    fn set_text(&mut self, h: Handle, text: String, text_box_only: bool)
        requires
            old(self).valid(h),
        ensures
            shape_kept(*old(self), *final(self)) || ({
                &&& final(self).nodes@.len() == old(self).nodes@.len()
                &&& final(self).valid(h)
                &&& forall|i: int| 0 <= i < old(self).nodes@.len() && i != h.index ==> #[trigger] final(self).nodes@[i] == old(self).nodes@[i]
            }),
            final(self).messages == old(self).messages,
            final(self).requests == old(self).requests,
    {
        let mut n = self.take_node(h);
        match &mut n.kind {
            NodeKind::Text(t) => {
                if !text_box_only {
                    *t = text;
                }
            },
            NodeKind::TextBox(t) => {
                *t = text;
            },
            _ => {},
        }
        self.put_node(h, n);
    }

    /// Removes the node at `h`: it leaves its parent, the removal of each of
    /// its children is asked for, its slot empties, and every other node
    /// forgets the handle.
    pub fn remove_node(&mut self, h: Handle)
        requires
            old(self).valid(h),
        ensures
            final(self).nodes@.len() == old(self).nodes@.len(),
            !final(self).valid(h),
            forall|i: int|
                0 <= i < old(self).nodes@.len() && i != h.index ==> (#[trigger] final(self).nodes@[i] is Some
                    <==> old(self).nodes@[i] is Some),
            forall|i: int|
                0 <= i < final(self).nodes@.len() && (#[trigger] final(self).nodes@[i]) is Some
                    ==> !final(self).nodes@[i]->Some_0.children@.contains(h),
            final(self).requests == old(self).requests,
    {
        self.unlink_node(h);
        let n = self.take_node(h);
        let mut k: usize = 0;
        while k < n.children.len()
            invariant
                self.nodes@.len() == old(self).nodes@.len(),
                self.requests == old(self).requests,
                h.index < old(self).nodes@.len(),
                self.nodes@[h.index as int] is None,
                forall|i: int|
                    0 <= i < old(self).nodes@.len() && i != h.index ==> (#[trigger] self.nodes@[i] is Some
                        <==> old(self).nodes@[i] is Some),
            decreases n.children@.len() - k,
        {
            self.send_message(UiMessage::new(n.children[k], UiMessageData::Widget(WidgetMessage::Remove)));
            k = k + 1;
        }
        let mut i: usize = 0;
        let len = self.nodes.len();
        while i < len
            invariant
                len == self.nodes@.len(),
                self.nodes@.len() == old(self).nodes@.len(),
                self.requests == old(self).requests,
                h.index < old(self).nodes@.len(),
                self.nodes@[h.index as int] is None,
                forall|j: int|
                    0 <= j < old(self).nodes@.len() && j != h.index ==> (#[trigger] self.nodes@[j] is Some
                        <==> old(self).nodes@[j] is Some),
                forall|j: int|
                    0 <= j < i && (#[trigger] self.nodes@[j]) is Some ==> !self.nodes@[j]->Some_0.children@.contains(h),
            decreases len - i,
        {
            let idx = Handle { index: i };
            if self.is_valid(idx) {
                let mut m = self.take_node(idx);
                let ghost prior = m.children@;
                m.children = remove_all_exec(&m.children, h);
                proof {
                    crate::handle::lemma_remove_all_not_contains(prior, h);
                }
                match &mut m.kind {
                    NodeKind::Tree(t) => t.remove_ref(h),
                    NodeKind::TreeRoot(t) => t.remove_ref(h),
                    NodeKind::FileBrowser(b) => b.remove_ref(h),
                    _ => {},
                }
                if m.parent == h {
                    m.parent = Handle::none();
                }
                self.put_node(idx, m);
            }
            i = i + 1;
        }
    }

    /// Delivers `msg`: first the generic widget behaviour at its destination
    /// (visibility, background, text, removal), then the handler of the
    /// destination and of each of its ancestors in turn, nearest first. A
    /// message for a node that is gone is dropped.
    pub fn handle_message(&mut self, msg: &mut UiMessage)
        ensures
            final(msg).destination == old(msg).destination,
            final(msg).data == old(msg).data,
            old(msg).handled ==> final(msg).handled,
            !old(self).valid(old(msg).destination) ==> *final(self) == *old(self),
            old(self).valid(old(msg).destination) && old(msg).data is Widget && old(msg).data->Widget_0 is Remove
                ==> !final(self).valid(old(msg).destination) && final(self).nodes@.len() == old(self).nodes@.len(),
            ({
                let a = *old(self);
                let b = *final(self);
                let d = old(msg).destination;
                let data = old(msg).data;
                &&& a.is_tree(d) && data is Tree && !(data->Tree_0 is Expand) ==> tree_message_effect(a, b, d, data->Tree_0)
                &&& a.is_tree(d) && data is Tree && data->Tree_0 is Expand ==> expand_step(a, b, d, data->Tree_0->Expand_0)
                &&& a.is_tree_root(d) && data is TreeRoot && !(data->TreeRoot_0 is Selected) ==> root_message_effect(a, b, d, data->TreeRoot_0)
                &&& a.is_tree_root(d) && data is TreeRoot && data->TreeRoot_0 is Selected ==> {
                    let sel = data->TreeRoot_0->Selected_0;
                    &&& a.tree_root(d).selected == sel ==> b.nodes == a.nodes
                    &&& a.tree_root(d).selected != sel ==> selection_step(a, b, d, sel)
                }
            }),
    {
        let dest = msg.destination;
        if !self.is_valid(dest) {
            return;
        }
        match &msg.data {
            UiMessageData::Widget(WidgetMessage::Remove) => {
                self.remove_node(dest);
                return;
            },
            UiMessageData::Widget(WidgetMessage::Visibility(v)) => {
                let mut n = self.take_node(dest);
                n.visibility = *v;
                self.put_node(dest, n);
            },
            UiMessageData::Widget(WidgetMessage::Background(b)) => {
                let mut n = self.take_node(dest);
                n.background = *b;
                self.put_node(dest, n);
            },
            UiMessageData::Text(TextMessage::Text(t)) => {
                self.set_text(dest, t.clone(), false);
            },
            UiMessageData::TextBox(TextBoxMessage::Text(t)) => {
                self.set_text(dest, t.clone(), true);
            },
            _ => {},
        }
        self.deliver_to(dest, msg);
        let ghost mid = *self;
        if !self.is_valid(dest) {
            return;
        }
        let mut cur = self.parent(dest);
        let mut fuel: usize = self.nodes.len();
        while fuel > 0 && self.is_valid(cur) && cur != dest
            invariant
                msg.destination == old(msg).destination,
                msg.data == old(msg).data,
                old(msg).handled ==> msg.handled,
                old(self).valid(old(msg).destination),
                !(old(msg).data is Widget && old(msg).data->Widget_0 is Remove),
                dest == old(msg).destination,
                quiet_above(*old(msg)) ==> *self == mid,
                old(msg).data is Tree || old(msg).data is TreeRoot ==> self.nodes == mid.nodes,
            decreases fuel,
        {
            self.deliver_to(cur, msg);
            if !self.is_valid(cur) {
                return;
            }
            cur = self.parent(cur);
            fuel = fuel - 1;
        }
    }

    /// Hands `msg` to the handler of the node at `h`, by its kind.
    fn deliver_to(&mut self, h: Handle, msg: &mut UiMessage)
        requires
            old(self).valid(h),
        ensures
            final(msg).destination == old(msg).destination,
            final(msg).data == old(msg).data,
            old(msg).handled ==> final(msg).handled,
            old(self).is_tree(h) && old(msg).destination == h && old(msg).data is Tree ==> tree_message_effect(
                *old(self),
                *final(self),
                h,
                old(msg).data->Tree_0,
            ),
            old(self).is_tree_root(h) && old(msg).destination == h && old(msg).data is TreeRoot
                ==> root_message_effect(*old(self), *final(self), h, old(msg).data->TreeRoot_0),
            old(msg).destination != h && quiet_above(*old(msg)) ==> *final(self) == *old(self),
            old(msg).destination != h && (old(msg).data is Tree || old(msg).data is TreeRoot)
                ==> final(self).nodes == old(self).nodes,
    {
        let kind = &self.nodes[h.index].as_ref().unwrap().kind;
        if kind.as_tree().is_some() {
            Tree::handle_routed_message(self, h, msg);
        } else if kind.as_tree_root().is_some() {
            TreeRoot::handle_routed_message(self, h, msg);
        } else if kind.as_file_browser().is_some() {
            FileBrowser::handle_routed_message(self, h, msg);
        }
    }

    /// Delivers queued messages, oldest first, including those that
    /// delivery queues, until the queue is empty or `limit` were delivered.
    /// Returns how many were delivered.
    pub fn process_messages(&mut self, limit: usize) -> (count: usize)
        ensures
            count <= limit,
            count < limit ==> final(self).messages@.len() == 0,
    {
        let mut count: usize = 0;
        while count < limit
            invariant
                count <= limit,
            decreases limit - count,
        {
            match self.poll_message() {
                Some(mut m) => {
                    self.handle_message(&mut m);
                    count = count + 1;
                },
                None => {
                    return count;
                },
            }
        }
        count
    }
}

} // verus!
