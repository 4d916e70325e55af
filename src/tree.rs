//! Expandable tree items and the root that owns the selection beneath it.
use vstd::prelude::*;
use crate::handle::{
    Brush, Color, Handle, appended_each, contains_handle, lemma_appended_each_distinct,
    lemma_remove_each_self, remove_all, remove_all_exec, remove_each,
};
use crate::message::{
    ButtonMessage, TextMessage, TreeMessage, TreeRootMessage, UiMessage, UiMessageData,
    WidgetMessage,
};
use crate::ui::{
    Node, NodeHandleMapping, NodeKind, UserInterface, lemma_reaches_links, lemma_shape_kept_trans, links_kept,
    removal, slot_kept,
};

verus! {

pub struct Tree {
    pub expander: Handle,
    pub content: Handle,
    pub panel: Handle,
    pub background: Handle,
    pub is_expanded: bool,
    pub items: Vec<Handle>,
    pub is_selected: bool,
    pub selected_brush: Brush,
    pub hovered_brush: Brush,
    pub normal_brush: Brush,
    pub always_show_expander: bool,
}

pub struct TreeRoot {
    pub panel: Handle,
    pub items: Vec<Handle>,
    pub selected: Handle,
}

/// Equal in every field but `items`.
pub open spec fn same_but_items(a: Tree, b: Tree) -> bool {
    &&& a.expander == b.expander
    &&& a.content == b.content
    &&& a.panel == b.panel
    &&& a.background == b.background
    &&& a.is_expanded == b.is_expanded
    &&& a.is_selected == b.is_selected
    &&& a.selected_brush == b.selected_brush
    &&& a.hovered_brush == b.hovered_brush
    &&& a.normal_brush == b.normal_brush
    &&& a.always_show_expander == b.always_show_expander
}

/// Equal in every field but `is_expanded`.
pub open spec fn same_but_expansion(a: Tree, b: Tree) -> bool {
    &&& a.expander == b.expander
    &&& a.content == b.content
    &&& a.panel == b.panel
    &&& a.background == b.background
    &&& a.items == b.items
    &&& a.is_selected == b.is_selected
    &&& a.selected_brush == b.selected_brush
    &&& a.hovered_brush == b.hovered_brush
    &&& a.normal_brush == b.normal_brush
    &&& a.always_show_expander == b.always_show_expander
}

/// Equal in every field but `is_selected`.
pub open spec fn same_but_selection(a: Tree, b: Tree) -> bool {
    &&& a.expander == b.expander
    &&& a.content == b.content
    &&& a.panel == b.panel
    &&& a.background == b.background
    &&& a.items == b.items
    &&& a.is_expanded == b.is_expanded
    &&& a.selected_brush == b.selected_brush
    &&& a.hovered_brush == b.hovered_brush
    &&& a.normal_brush == b.normal_brush
    &&& a.always_show_expander == b.always_show_expander
}

/// The items of the tree at `h` are exactly the children of its panel, in order.
pub open spec fn tree_mirrors(ui: UserInterface, h: Handle) -> bool {
    &&& ui.is_tree(h)
    &&& ui.valid(ui.tree(h).panel)
    &&& ui.node(ui.tree(h).panel).children@ == ui.tree(h).items@
}

/// The node of `h` is the same in `a` and `b` but for the tree state it
/// holds, and every other slot is unchanged.
pub open spec fn tree_node_changed(a: UserInterface, b: UserInterface, h: Handle) -> bool {
    &&& b.nodes@.len() == a.nodes@.len()
    &&& a.is_tree(h)
    &&& b.is_tree(h)
    &&& b.node(h).parent == a.node(h).parent
    &&& b.node(h).children == a.node(h).children
    &&& b.node(h).visibility == a.node(h).visibility
    &&& b.node(h).background == a.node(h).background
    &&& b.node(h).user_path == a.node(h).user_path
    &&& forall|i: int| 0 <= i < a.nodes@.len() && i != h.index ==> b.nodes@[i] == a.nodes@[i]
}

/// What expanding (or collapsing) the tree at `h` does to its node: only the
/// expansion state changes.
pub open spec fn expand_step(a: UserInterface, b: UserInterface, h: Handle, expand: bool) -> bool {
    &&& tree_node_changed(a, b, h)
    &&& b.tree(h).is_expanded == expand
    &&& same_but_expansion(b.tree(h), a.tree(h))
}

/// Expanding a tree twice in a row leaves the arena as the first expansion
/// left it, with the items the tree had before: no item is added or lost.
pub proof fn lemma_expand_idempotent(a: UserInterface, b: UserInterface, c: UserInterface, h: Handle)
    requires
        expand_step(a, b, h, true),
        expand_step(b, c, h, true),
    ensures
        c.nodes@ == b.nodes@,
        c.tree(h).items == a.tree(h).items,
{
    assert(c.tree(h) == b.tree(h));
    assert(c.node(h) == b.node(h));
    assert(c.nodes@ =~= b.nodes@);
}

/// The tree at `h` holds `items` in place of what it held, all else kept.
pub open spec fn items_replaced(a: UserInterface, b: UserInterface, h: Handle, items: Seq<Handle>) -> bool {
    &&& a.is_tree(h)
    &&& b.is_tree(h)
    &&& b.tree(h).items@ == items
    &&& same_but_items(b.tree(h), a.tree(h))
}

/// The message that sets the visibility of `h`.
pub open spec fn visibility_msg(h: Handle, v: bool) -> UiMessage {
    UiMessage { destination: h, data: UiMessageData::Widget(WidgetMessage::Visibility(v)), handled: false }
}

/// The message that sets the background of `h`.
pub open spec fn background_msg(h: Handle, b: Brush) -> UiMessage {
    UiMessage { destination: h, data: UiMessageData::Widget(WidgetMessage::Background(b)), handled: false }
}

/// The message that asks the root at `root` to select `h`.
pub open spec fn select_msg(root: Handle, h: Handle) -> UiMessage {
    UiMessage { destination: root, data: UiMessageData::TreeRoot(TreeRootMessage::Selected(h)), handled: false }
}

/// The items of the root at `h` are exactly the children of its panel, in order.
pub open spec fn root_mirrors(ui: UserInterface, h: Handle) -> bool {
    &&& ui.is_tree_root(h)
    &&& ui.valid(ui.tree_root(h).panel)
    &&& ui.node(ui.tree_root(h).panel).children@ == ui.tree_root(h).items@
}

/// Every tree below `root` that is highlighted is the root's selection.
pub open spec fn single_selection(ui: UserInterface, root: Handle) -> bool {
    &&& ui.is_tree_root(root)
    &&& forall|h: Handle|
        #![trigger ui.nodes@[h.index as int]]
        ui.is_tree(h) && ui.descends(h, root) && ui.tree(h).is_selected ==> h == ui.tree_root(
            root,
        ).selected
}

/// What asking the root at `root` to select `sel` does, when `sel` is not
/// already its selection: each tree below the root is highlighted exactly when
/// it is `sel`, and the root takes `sel` as its selection when `sel` is such a tree.
pub open spec fn selection_step(a: UserInterface, b: UserInterface, root: Handle, sel: Handle) -> bool {
    &&& links_kept(a, b)
    &&& b.is_tree_root(root)
    &&& b.tree_root(root).panel == a.tree_root(root).panel
    &&& b.tree_root(root).items == a.tree_root(root).items
    &&& b.tree_root(root).selected == (if a.is_tree(sel) && a.descends(sel, root) {
        sel
    } else {
        a.tree_root(root).selected
    })
    &&& forall|h: Handle|
        #![trigger b.nodes@[h.index as int]]
        a.is_tree(h) ==> {
            &&& b.is_tree(h)
            &&& same_but_selection(b.tree(h), a.tree(h))
            &&& b.tree(h).is_selected == (if a.descends(h, root) {
                h == sel
            } else {
                a.tree(h).is_selected
            })
        }
    &&& forall|h: Handle|
        #![trigger b.nodes@[h.index as int]]
        a.valid(h) && !a.is_tree(h) && h != root ==> b.node(h) == a.node(h)
}

/// Whatever the state before, after a root is asked to select another node,
/// at most one tree below it is highlighted, and that one is its selection.
pub proof fn lemma_single_selection(a: UserInterface, b: UserInterface, root: Handle, sel: Handle)
    requires
        a.is_tree_root(root),
        a.tree_root(root).selected != sel,
        selection_step(a, b, root, sel),
    ensures
        single_selection(b, root),
{
    assert forall|h: Handle|
        #![trigger b.nodes@[h.index as int]]
        b.is_tree(h) && b.descends(h, root) && b.tree(h).is_selected implies h == b.tree_root(
            root,
        ).selected by {
        lemma_reaches_links(a, b, h, root, a.nodes@.len());
        if !a.is_tree(h) {
            if h.index < a.nodes@.len() && a.nodes@[h.index as int] is Some {
                assert(b.node(h) == a.node(h));
            }
        }
    }
}

/// The text node that the expander `e` shows, if `e` is a live button.
pub open spec fn label_of(ui: UserInterface, e: Handle) -> Handle {
    if ui.valid(e) && ui.node(e).kind is Button {
        ui.node(e).kind->Button_0
    } else {
        Handle::spec_none()
    }
}

/// The label an expander shows for an expansion state.
pub open spec fn expander_label(expand: bool) -> Seq<char> {
    if expand {
        "-"@
    } else {
        "+"@
    }
}

/// Expanding (or collapsing) the tree at `h`: the state changes, the panel is
/// shown or hidden, and the expander's label, where there is one, is set.
pub open spec fn expand_effect(a: UserInterface, b: UserInterface, h: Handle, expand: bool) -> bool {
    let c = label_of(a, a.tree(h).expander);
    let k = a.messages@.len() as int;
    &&& expand_step(a, b, h, expand)
    &&& b.requests == a.requests
    &&& b.messages@.subrange(0, k + 1) == a.messages@.push(visibility_msg(a.tree(h).panel, expand))
    &&& c.spec_is_some() ==> b.messages@.len() == k + 2 && crate::file_browser::is_text_msg(
        b.messages@.last(),
        c,
        expander_label(expand),
    )
    &&& !c.spec_is_some() ==> b.messages@.len() == k + 1
}

/// Appending `item` to the tree at `h`.
pub open spec fn add_effect(a: UserInterface, b: UserInterface, h: Handle, item: Handle) -> bool {
    let panel = a.tree(h).panel;
    &&& b.is_tree(h)
    &&& b.tree(h).items@ == a.tree(h).items@.push(item)
    &&& same_but_items(b.tree(h), a.tree(h))
    &&& b.node(panel).children@ == remove_all(a.node(panel).children@, item).push(item)
    &&& b.messages == a.messages
    &&& b.requests == a.requests
    &&& tree_mirrors(a, h) && !a.tree(h).items@.contains(item) ==> tree_mirrors(b, h)
}

/// Dropping `item` from the tree at `h`.
pub open spec fn remove_effect(a: UserInterface, b: UserInterface, h: Handle, item: Handle) -> bool {
    let panel = a.tree(h).panel;
    &&& !a.tree(h).items@.contains(item) ==> b == a
    &&& a.tree(h).items@.contains(item) ==> {
        &&& b.is_tree(h)
        &&& b.tree(h).items@ == remove_all(a.tree(h).items@, item)
        &&& same_but_items(b.tree(h), a.tree(h))
        &&& b.node(panel).children@ == remove_all(a.node(panel).children@, item)
        &&& b.messages@ == a.messages@.push(removal(item))
        &&& b.requests == a.requests
    }
    &&& tree_mirrors(a, h) ==> tree_mirrors(b, h)
}

/// Replacing the items of the tree at `h` with `items`.
pub open spec fn set_effect(a: UserInterface, b: UserInterface, h: Handle, items: Seq<Handle>) -> bool {
    let panel = a.tree(h).panel;
    &&& items_replaced(a, b, h, items)
    &&& b.node(panel).children@ == appended_each(remove_each(a.node(panel).children@, a.tree(h).items@), items)
    &&& b.messages@ == a.messages@ + a.tree(h).items@.map_values(|x: Handle| removal(x))
    &&& b.requests == a.requests
    &&& tree_mirrors(a, h) && items.no_duplicates() ==> tree_mirrors(b, h)
}

/// Each of `items` is a live node other than `panel`.
pub open spec fn linkable(ui: UserInterface, items: Seq<Handle>, panel: Handle) -> bool {
    forall|k: int| 0 <= k < items.len() ==> ui.valid(#[trigger] items[k]) && items[k] != panel
}

/// What a tree message addressed to the tree at `h` does; a request that
/// names a stale node changes nothing.
pub open spec fn tree_message_effect(a: UserInterface, b: UserInterface, h: Handle, m: TreeMessage) -> bool {
    let panel = a.tree(h).panel;
    match m {
        TreeMessage::Expand(e) => expand_effect(a, b, h, e),
        TreeMessage::AddItem(item) => if a.valid(item) && a.valid(panel) && item != panel {
            add_effect(a, b, h, item)
        } else {
            b == a
        },
        TreeMessage::RemoveItem(item) => if a.valid(panel) {
            remove_effect(a, b, h, item)
        } else {
            b == a
        },
        TreeMessage::SetItems(items) => if a.valid(panel) && linkable(a, items@, panel) {
            set_effect(a, b, h, items@)
        } else {
            b == a
        },
    }
}

/// A hover event reaching a tree: unclaimed, it is claimed, and a tree that
/// is not selected is asked to take `brush` as its background.
pub open spec fn hover_effect(a: UserInterface, b: UserInterface, was: bool, now: bool, t: Tree, brush: Brush) -> bool {
    &&& was ==> b == a && now
    &&& !was ==> {
        &&& now
        &&& b.nodes == a.nodes
        &&& b.requests == a.requests
        &&& !t.is_selected ==> b.messages@ == a.messages@.push(background_msg(t.background, brush))
        &&& t.is_selected ==> b.messages == a.messages
    }
}

/// The message that asks the tree at `h` to take expansion state `e`.
pub open spec fn expand_msg(h: Handle, e: bool) -> UiMessage {
    UiMessage { destination: h, data: UiMessageData::Tree(TreeMessage::Expand(e)), handled: false }
}

/// The background messages that a selection of `sel` under `root` sends for
/// the slots below index `n`, in index order: one per tree below the root,
/// with its selected brush for `sel` and its normal brush otherwise.
pub open spec fn highlight_msgs(a: UserInterface, root: Handle, sel: Handle, n: nat) -> Seq<UiMessage>
    decreases n,
{
    if n == 0 {
        Seq::empty()
    } else {
        let h = Handle { index: (n - 1) as usize };
        let init = highlight_msgs(a, root, sel, (n - 1) as nat);
        if a.is_tree(h) && a.descends(h, root) {
            let t = a.tree(h);
            init.push(background_msg(t.background, if h == sel { t.selected_brush } else { t.normal_brush }))
        } else {
            init
        }
    }
}

/// Asking the root at `root` to select `sel`.
pub open spec fn select_effect(a: UserInterface, b: UserInterface, root: Handle, sel: Handle) -> bool {
    &&& a.tree_root(root).selected == sel ==> b == a
    &&& a.tree_root(root).selected != sel ==> {
        &&& selection_step(a, b, root, sel)
        &&& b.messages@ == a.messages@ + highlight_msgs(a, root, sel, a.nodes@.len())
        &&& b.requests == a.requests
    }
}

/// Appending `item` to the root at `h`.
pub open spec fn root_add_effect(a: UserInterface, b: UserInterface, h: Handle, item: Handle) -> bool {
    let panel = a.tree_root(h).panel;
    &&& b.is_tree_root(h)
    &&& b.tree_root(h).items@ == a.tree_root(h).items@.push(item)
    &&& b.tree_root(h).panel == panel
    &&& b.tree_root(h).selected == a.tree_root(h).selected
    &&& b.node(panel).children@ == remove_all(a.node(panel).children@, item).push(item)
    &&& b.messages == a.messages
    &&& b.requests == a.requests
    &&& root_mirrors(a, h) && !a.tree_root(h).items@.contains(item) ==> root_mirrors(b, h)
}

/// Dropping `item` from the root at `h`.
pub open spec fn root_remove_effect(a: UserInterface, b: UserInterface, h: Handle, item: Handle) -> bool {
    let panel = a.tree_root(h).panel;
    &&& !a.tree_root(h).items@.contains(item) ==> b == a
    &&& a.tree_root(h).items@.contains(item) ==> {
        &&& b.is_tree_root(h)
        &&& b.tree_root(h).items@ == remove_all(a.tree_root(h).items@, item)
        &&& b.tree_root(h).panel == panel
        &&& b.tree_root(h).selected == a.tree_root(h).selected
        &&& b.node(panel).children@ == remove_all(a.node(panel).children@, item)
        &&& b.messages@ == a.messages@.push(removal(item))
        &&& b.requests == a.requests
    }
    &&& root_mirrors(a, h) ==> root_mirrors(b, h)
}

/// Replacing the items of the root at `h` with `items`.
pub open spec fn root_set_effect(a: UserInterface, b: UserInterface, h: Handle, items: Seq<Handle>) -> bool {
    let panel = a.tree_root(h).panel;
    &&& b.is_tree_root(h)
    &&& b.tree_root(h).items@ == items
    &&& b.tree_root(h).panel == panel
    &&& b.tree_root(h).selected == a.tree_root(h).selected
    &&& b.node(panel).children@ == appended_each(remove_each(a.node(panel).children@, a.tree_root(h).items@), items)
    &&& b.messages@ == a.messages@ + a.tree_root(h).items@.map_values(|x: Handle| removal(x))
    &&& b.requests == a.requests
    &&& root_mirrors(a, h) && items.no_duplicates() ==> root_mirrors(b, h)
}

/// What a root message addressed to the root at `h` does; a request that
/// names a stale node changes nothing.
pub open spec fn root_message_effect(a: UserInterface, b: UserInterface, h: Handle, m: TreeRootMessage) -> bool {
    let panel = a.tree_root(h).panel;
    match m {
        TreeRootMessage::AddItem(item) => if a.valid(item) && a.valid(panel) && item != panel {
            root_add_effect(a, b, h, item)
        } else {
            b == a
        },
        TreeRootMessage::RemoveItem(item) => if a.valid(panel) {
            root_remove_effect(a, b, h, item)
        } else {
            b == a
        },
        TreeRootMessage::Items(items) => if a.valid(panel) && linkable(a, items@, panel) {
            root_set_effect(a, b, h, items@)
        } else {
            b == a
        },
        TreeRootMessage::Selected(sel) => select_effect(a, b, h, sel),
    }
}

/// Takes the tree state out of the node at `h`, leaving the slot empty; the
/// node comes back with a plain kind.
fn take_tree(ui: &mut UserInterface, h: Handle) -> (r: (Node, Tree))
    requires
        old(ui).is_tree(h),
    ensures
        r.1 == old(ui).tree(h),
        r.0 == (Node { kind: NodeKind::Widget, ..old(ui).node(h) }),
        final(ui).nodes@ == old(ui).nodes@.update(h.index as int, None),
        final(ui).messages == old(ui).messages,
        final(ui).requests == old(ui).requests,
{
    let mut n = ui.take_node(h);
    let mut kind = NodeKind::Widget;
    std::mem::swap(&mut n.kind, &mut kind);
    match kind {
        NodeKind::Tree(t) => (n, t),
        _ => {
            assert(false);
            (n, Tree::detached())
        },
    }
}

/// Puts node `n` back at `h`, holding tree state `t`.
fn put_tree(ui: &mut UserInterface, h: Handle, n: Node, t: Tree)
    requires
        h.index < old(ui).nodes@.len(),
    ensures
        final(ui).nodes@ == old(ui).nodes@.update(h.index as int, Some(Node { kind: NodeKind::Tree(t), ..n })),
        final(ui).messages == old(ui).messages,
        final(ui).requests == old(ui).requests,
{
    let mut n = n;
    n.kind = NodeKind::Tree(t);
    ui.put_node(h, n);
}

/// The tree state held at `h`.
fn tree_ref(ui: &UserInterface, h: Handle) -> (t: &Tree)
    requires
        ui.is_tree(h),
    ensures
        *t == ui.tree(h),
{
    ui.nodes[h.index].as_ref().unwrap().kind.as_tree().unwrap()
}

/// Whether each of `items` is a live node other than `panel`.
pub fn all_linkable(ui: &UserInterface, items: &Vec<Handle>, panel: Handle) -> (r: bool)
    ensures
        r == forall|k: int| 0 <= k < items@.len() ==> ui.valid(#[trigger] items@[k]) && items@[k] != panel,
{
    let mut i: usize = 0;
    while i < items.len()
        invariant
            i <= items@.len(),
            forall|k: int| 0 <= k < i ==> ui.valid(#[trigger] items@[k]) && items@[k] != panel,
        decreases items@.len() - i,
    {
        if !ui.is_valid(items[i]) || items[i] == panel {
            return false;
        }
        i = i + 1;
    }
    true
}

/// A copy of a list of handles.
pub fn copy_handles(v: &Vec<Handle>) -> (r: Vec<Handle>)
    ensures
        r@ == v@,
{
    let mut r: Vec<Handle> = Vec::new();
    let mut i: usize = 0;
    while i < v.len()
        invariant
            i <= v.len(),
            r@ == v@.subrange(0, i as int),
        decreases v.len() - i,
    {
        r.push(v[i]);
        i = i + 1;
    }
    assert(v@.subrange(0, v.len() as int) =~= v@);
    r
}

impl Tree {
    /// A collapsed tree state with no structural handles and no items.
    fn detached() -> Tree {
        let normal = Brush::Solid(Color::transparent());
        Tree {
            expander: Handle::none(),
            content: Handle::none(),
            panel: Handle::none(),
            background: Handle::none(),
            is_expanded: false,
            items: Vec::new(),
            is_selected: false,
            selected_brush: normal,
            hovered_brush: normal,
            normal_brush: normal,
            always_show_expander: false,
        }
    }

    /// A field-for-field copy; its handles still point where those of `self` do.
    pub fn raw_copy(&self) -> (r: Tree)
        ensures
            r.items@ == self.items@,
            same_but_items(r, *self),
    {
        let items = copy_handles(&self.items);
        Tree {
            expander: self.expander,
            content: self.content,
            panel: self.panel,
            background: self.background,
            is_expanded: self.is_expanded,
            items,
            is_selected: self.is_selected,
            selected_brush: self.selected_brush,
            hovered_brush: self.hovered_brush,
            normal_brush: self.normal_brush,
            always_show_expander: self.always_show_expander,
        }
    }

    pub fn content(&self) -> (r: Handle)
        ensures
            r == self.content,
    {
        self.content
    }

    pub fn items(&self) -> (r: &[Handle])
        ensures
            r@ == self.items@,
    {
        self.items.as_slice()
    }

    /// The expander policy of a layout pass: unless the expander is always
    /// shown, it is shown exactly when the tree has items.
    pub fn arrange(ui: &mut UserInterface, this: Handle)
        requires
            old(ui).is_tree(this),
        ensures
            final(ui).nodes == old(ui).nodes,
            final(ui).requests == old(ui).requests,
            old(ui).tree(this).always_show_expander ==> final(ui).messages == old(ui).messages,
            !old(ui).tree(this).always_show_expander ==> final(ui).messages@ == old(ui).messages@.push(
                visibility_msg(old(ui).tree(this).expander, old(ui).tree(this).items@.len() > 0),
            ),
    {
        let t = tree_ref(ui, this);
        if !t.always_show_expander {
            let expander = t.expander;
            let visible = t.items.len() > 0;
            ui.send_message(UiMessage::new(expander, UiMessageData::Widget(WidgetMessage::Visibility(visible))));
        }
    }

    /// Forgets `h` wherever the tree holds it, after the node of `h` was removed.
    pub fn remove_ref(&mut self, h: Handle)
        ensures
            final(self).expander == (if old(self).expander == h { Handle::spec_none() } else { old(self).expander }),
            final(self).content == (if old(self).content == h { Handle::spec_none() } else { old(self).content }),
            final(self).panel == (if old(self).panel == h { Handle::spec_none() } else { old(self).panel }),
            final(self).background == (if old(self).background == h { Handle::spec_none() } else { old(self).background }),
            final(self).items@ == remove_all(old(self).items@, h),
            final(self).is_expanded == old(self).is_expanded,
            final(self).is_selected == old(self).is_selected,
            final(self).selected_brush == old(self).selected_brush,
            final(self).hovered_brush == old(self).hovered_brush,
            final(self).normal_brush == old(self).normal_brush,
            final(self).always_show_expander == old(self).always_show_expander,
    {
        if self.expander == h {
            self.expander = Handle::none();
        }
        if self.content == h {
            self.content = Handle::none();
        }
        if self.panel == h {
            self.panel = Handle::none();
        }
        if self.background == h {
            self.background = Handle::none();
        }
        self.items = remove_all_exec(&self.items, h);
    }

    /// Rewrites the structural handles through `map` after the tree was
    /// copied into another arena. The content is optional and kept where the
    /// map has no entry for it.
    pub fn resolve(&mut self, map: &NodeHandleMapping)
        requires
            map.spec_get(old(self).expander) is Some,
            map.spec_get(old(self).panel) is Some,
            map.spec_get(old(self).background) is Some,
        ensures
            final(self).expander == map.spec_get(old(self).expander)->Some_0,
            final(self).panel == map.spec_get(old(self).panel)->Some_0,
            final(self).background == map.spec_get(old(self).background)->Some_0,
            final(self).content == (match map.spec_get(old(self).content) {
                Some(c) => c,
                None => old(self).content,
            }),
            final(self).items == old(self).items,
            final(self).is_expanded == old(self).is_expanded,
            final(self).is_selected == old(self).is_selected,
            final(self).selected_brush == old(self).selected_brush,
            final(self).hovered_brush == old(self).hovered_brush,
            final(self).normal_brush == old(self).normal_brush,
            final(self).always_show_expander == old(self).always_show_expander,
    {
        if let Some(c) = map.get(self.content) {
            self.content = c;
        }
        self.expander = map.get(self.expander).unwrap();
        self.panel = map.get(self.panel).unwrap();
        self.background = map.get(self.background).unwrap();
    }

    /// Reacts to a message routed to the tree at `this`, or bubbling up
    /// through it from a node below. A click on the expander asks for the
    /// opposite expansion; a mouse press not yet claimed asks the nearest root
    /// above to select this tree; hovering changes the background unless the
    /// tree is selected; tree messages for this tree change its state.
    /// Requests that name stale nodes are ignored.
    pub fn handle_routed_message(ui: &mut UserInterface, this: Handle, msg: &mut UiMessage)
        requires
            old(ui).is_tree(this),
        ensures
            final(msg).destination == old(msg).destination,
            final(msg).data == old(msg).data,
            ({
                let a = *old(ui);
                let b = *final(ui);
                let m = *old(msg);
                let t = a.tree(this);
                &&& m.data is Tree && m.destination == this ==> tree_message_effect(a, b, this, m.data->Tree_0)
                    && final(msg).handled == m.handled
                &&& m.data is Tree && m.destination != this ==> b == a && final(msg).handled == m.handled
                &&& m.data is Button && m.destination == t.expander ==> {
                    &&& b.nodes == a.nodes
                    &&& b.requests == a.requests
                    &&& b.messages@ == a.messages@.push(expand_msg(this, !t.is_expanded))
                    &&& final(msg).handled == m.handled
                }
                &&& m.data is Button && m.destination != t.expander ==> b == a && final(msg).handled == m.handled
                &&& m.data is Widget && m.data->Widget_0 is MouseEnter ==> hover_effect(a, b, m.handled, final(msg).handled, t, t.hovered_brush)
                &&& m.data is Widget && m.data->Widget_0 is MouseLeave ==> hover_effect(a, b, m.handled, final(msg).handled, t, t.normal_brush)
                &&& m.data is Widget && m.data->Widget_0 is MouseDown ==> {
                    let r = a.root_above(a.node(this).parent, a.nodes@.len());
                    &&& !m.handled && r.spec_is_some() ==> {
                        &&& final(msg).handled
                        &&& a.is_tree_root(r)
                        &&& b.nodes == a.nodes
                        &&& b.requests == a.requests
                        &&& b.messages@ == a.messages@.push(select_msg(r, this))
                    }
                    &&& !(!m.handled && r.spec_is_some()) ==> b == a && final(msg).handled == m.handled
                }
                &&& !(m.data is Tree || m.data is Button || (m.data is Widget && (m.data->Widget_0 is MouseEnter
                    || m.data->Widget_0 is MouseLeave || m.data->Widget_0 is MouseDown))) ==> b == a
                    && final(msg).handled == m.handled
            }),
    {
        let t = tree_ref(ui, this);
        let expander = t.expander;
        let panel = t.panel;
        let background = t.background;
        let is_expanded = t.is_expanded;
        let is_selected = t.is_selected;
        let hovered = t.hovered_brush;
        let normal = t.normal_brush;
        let destination = msg.destination;
        match &msg.data {
            UiMessageData::Button(ButtonMessage::Click) => {
                if destination == expander {
                    ui.send_message(UiMessage::new(this, UiMessageData::Tree(TreeMessage::Expand(!is_expanded))));
                }
            },
            UiMessageData::Widget(WidgetMessage::MouseDown) => {
                if !msg.handled {
                    let start = ui.parent(this);
                    let root = ui.find_tree_root_up(start);
                    if root.is_some() {
                        ui.send_message(UiMessage::new(root, UiMessageData::TreeRoot(TreeRootMessage::Selected(this))));
                        msg.handled = true;
                    }
                }
            },
            UiMessageData::Widget(WidgetMessage::MouseEnter) => {
                if !msg.handled {
                    if !is_selected {
                        ui.send_message(UiMessage::new(background, UiMessageData::Widget(WidgetMessage::Background(hovered))));
                    }
                    msg.handled = true;
                }
            },
            UiMessageData::Widget(WidgetMessage::MouseLeave) => {
                if !msg.handled {
                    if !is_selected {
                        ui.send_message(UiMessage::new(background, UiMessageData::Widget(WidgetMessage::Background(normal))));
                    }
                    msg.handled = true;
                }
            },
            UiMessageData::Tree(tm) => {
                if destination == this {
                    match tm {
                        TreeMessage::Expand(expand) => {
                            Tree::expand(ui, this, *expand);
                        },
                        TreeMessage::AddItem(item) => {
                            if ui.is_valid(*item) && ui.is_valid(panel) && *item != panel {
                                Tree::add_item(ui, this, *item);
                            }
                        },
                        TreeMessage::RemoveItem(item) => {
                            if ui.is_valid(panel) {
                                Tree::remove_item(ui, this, *item);
                            }
                        },
                        TreeMessage::SetItems(items) => {
                            if ui.is_valid(panel) && all_linkable(ui, items, panel) {
                                let items = copy_handles(items);
                                Tree::set_items(ui, this, items);
                            }
                        },
                    }
                }
            },
            _ => {},
        }
    }

    /// Sets the expansion state of the tree at `this`: its panel is shown
    /// or hidden, and the expander reads "-" or "+".
    pub fn expand(ui: &mut UserInterface, this: Handle, expand: bool)
        requires
            old(ui).is_tree(this),
        ensures
            expand_effect(*old(ui), *final(ui), this, expand),
    {
        let (n, mut t) = take_tree(ui, this);
        t.is_expanded = expand;
        let panel = t.panel;
        let expander = t.expander;
        put_tree(ui, this, n, t);
        ui.send_message(UiMessage::new(panel, UiMessageData::Widget(WidgetMessage::Visibility(expand))));
        let ghost mid = ui.messages@;
        if ui.is_valid(expander) {
            let label_target = match &ui.nodes[expander.index] {
                Some(n) => match &n.kind {
                    NodeKind::Button(content) => *content,
                    _ => Handle::none(),
                },
                None => Handle::none(),
            };
            if label_target.is_some() {
                let text = if expand { "-" } else { "+" };
                ui.send_message(UiMessage::new(label_target, UiMessageData::Text(TextMessage::Text(text.to_owned()))));
                assert(ui.messages@.subrange(0, old(ui).messages@.len() + 1 as int) =~= mid);
            }
        }
        assert(mid.subrange(0, old(ui).messages@.len() + 1 as int) =~= mid);
    }

    /// Appends `item` to the items of the tree at `this` and links it under its panel.
    pub fn add_item(ui: &mut UserInterface, this: Handle, item: Handle)
        requires
            old(ui).is_tree(this),
            old(ui).valid(item),
            old(ui).valid(old(ui).tree(this).panel),
            item != old(ui).tree(this).panel,
        ensures
            add_effect(*old(ui), *final(ui), this, item),
    {
        let panel = tree_ref(ui, this).panel;
        ui.link_nodes(item, panel);
        assert(slot_kept(old(ui).nodes@[this.index as int], ui.nodes@[this.index as int]));
        let (n, mut t) = take_tree(ui, this);
        t.items.push(item);
        put_tree(ui, this, n, t);
        proof {
            if tree_mirrors(*old(ui), this) && !old(ui).tree(this).items@.contains(item) {
                crate::handle::lemma_remove_all_absent(old(ui).tree(this).items@, item);
            }
        }
    }

    /// Drops `item` from the items of the tree at `this`, if it is there: it
    /// leaves the panel and its removal is asked for. Otherwise nothing changes.
    pub fn remove_item(ui: &mut UserInterface, this: Handle, item: Handle)
        requires
            old(ui).is_tree(this),
            old(ui).valid(old(ui).tree(this).panel),
        ensures
            remove_effect(*old(ui), *final(ui), this, item),
    {
        if contains_handle(&tree_ref(ui, this).items, item) {
            let panel = tree_ref(ui, this).panel;
            ui.remove_child(panel, item);
            ui.send_message(UiMessage::new(item, UiMessageData::Widget(WidgetMessage::Remove)));
            assert(slot_kept(old(ui).nodes@[this.index as int], ui.nodes@[this.index as int]));
            let (n, mut t) = take_tree(ui, this);
            t.items = remove_all_exec(&t.items, item);
            put_tree(ui, this, n, t);
        }
    }

    /// Replaces the items of the tree at `this`: the removal of each current
    /// item is asked for, and each new one is linked under the panel.
    pub fn set_items(ui: &mut UserInterface, this: Handle, items: Vec<Handle>)
        requires
            old(ui).is_tree(this),
            old(ui).valid(old(ui).tree(this).panel),
            forall|k: int|
                0 <= k < items@.len() ==> old(ui).valid(#[trigger] items@[k]) && items@[k] != old(
                    ui,
                ).tree(this).panel,
        ensures
            set_effect(*old(ui), *final(ui), this, items@),
    {
        let panel = tree_ref(ui, this).panel;
        let current = copy_handles(&tree_ref(ui, this).items);
        ui.unlink_all(&current, panel);
        let ghost mid = *ui;
        ui.link_all(&items, panel);
        proof {
            lemma_shape_kept_trans(*old(ui), mid, *ui);
        }
        assert(slot_kept(old(ui).nodes@[this.index as int], ui.nodes@[this.index as int]));
        let ghost new_items = items@;
        let (n, mut t) = take_tree(ui, this);
        t.items = items;
        put_tree(ui, this, n, t);
        proof {
            if tree_mirrors(*old(ui), this) && new_items.no_duplicates() {
                lemma_remove_each_self(old(ui).tree(this).items@);
                assert(remove_each(old(ui).tree(this).items@, old(ui).tree(this).items@) =~= Seq::<Handle>::empty());
                lemma_appended_each_distinct(new_items);
            }
        }
    }
}

fn take_root(ui: &mut UserInterface, h: Handle) -> (r: (Node, TreeRoot))
    requires
        old(ui).is_tree_root(h),
    ensures
        r.1 == old(ui).tree_root(h),
        r.0 == (Node { kind: NodeKind::Widget, ..old(ui).node(h) }),
        final(ui).nodes@ == old(ui).nodes@.update(h.index as int, None),
        final(ui).messages == old(ui).messages,
        final(ui).requests == old(ui).requests,
{
    let mut n = ui.take_node(h);
    let mut kind = NodeKind::Widget;
    std::mem::swap(&mut n.kind, &mut kind);
    match kind {
        NodeKind::TreeRoot(t) => (n, t),
        _ => {
            assert(false);
            (n, TreeRoot { panel: Handle::none(), items: Vec::new(), selected: Handle::none() })
        },
    }
}

fn put_root(ui: &mut UserInterface, h: Handle, n: Node, t: TreeRoot)
    requires
        h.index < old(ui).nodes@.len(),
    ensures
        final(ui).nodes@ == old(ui).nodes@.update(h.index as int, Some(Node { kind: NodeKind::TreeRoot(t), ..n })),
        final(ui).messages == old(ui).messages,
        final(ui).requests == old(ui).requests,
{
    let mut n = n;
    n.kind = NodeKind::TreeRoot(t);
    ui.put_node(h, n);
}

fn root_ref(ui: &UserInterface, h: Handle) -> (t: &TreeRoot)
    requires
        ui.is_tree_root(h),
    ensures
        *t == ui.tree_root(h),
{
    ui.nodes[h.index].as_ref().unwrap().kind.as_tree_root().unwrap()
}

impl TreeRoot {
    pub fn items(&self) -> (r: &[Handle])
        ensures
            r@ == self.items@,
    {
        self.items.as_slice()
    }

    /// A field-for-field copy; its handles still point where those of `self` do.
    pub fn raw_copy(&self) -> (r: TreeRoot)
        ensures
            r.panel == self.panel,
            r.items@ == self.items@,
            r.selected == self.selected,
    {
        TreeRoot { panel: self.panel, items: copy_handles(&self.items), selected: self.selected }
    }

    /// Forgets `h` wherever the root holds it, after the node of `h` was removed.
    pub fn remove_ref(&mut self, h: Handle)
        ensures
            final(self).panel == (if old(self).panel == h { Handle::spec_none() } else { old(self).panel }),
            final(self).selected == (if old(self).selected == h { Handle::spec_none() } else { old(self).selected }),
            final(self).items@ == remove_all(old(self).items@, h),
    {
        if self.panel == h {
            self.panel = Handle::none();
        }
        if self.selected == h {
            self.selected = Handle::none();
        }
        self.items = remove_all_exec(&self.items, h);
    }

    /// Rewrites the panel through `map` after the root was copied into
    /// another arena; the selection is rewritten where the map has it.
    pub fn resolve(&mut self, map: &NodeHandleMapping)
        requires
            map.spec_get(old(self).panel) is Some,
        ensures
            final(self).panel == map.spec_get(old(self).panel)->Some_0,
            final(self).selected == (match map.spec_get(old(self).selected) {
                Some(s) => s,
                None => old(self).selected,
            }),
            final(self).items == old(self).items,
    {
        self.panel = map.get(self.panel).unwrap();
        if let Some(s) = map.get(self.selected) {
            self.selected = s;
        }
    }

    /// Reacts to a root message addressed to the root at `this`: item
    /// changes mirror those of a tree, and a selection request goes to
    /// `select`. Requests that name stale nodes are ignored.
    pub fn handle_routed_message(ui: &mut UserInterface, this: Handle, msg: &UiMessage)
        requires
            old(ui).is_tree_root(this),
        ensures
            msg.destination == this && msg.data is TreeRoot ==> root_message_effect(
                *old(ui),
                *final(ui),
                this,
                msg.data->TreeRoot_0,
            ),
            !(msg.destination == this && msg.data is TreeRoot) ==> *final(ui) == *old(ui),
    {
        if msg.destination != this {
            return;
        }
        let panel = root_ref(ui, this).panel;
        match &msg.data {
            UiMessageData::TreeRoot(rm) => {
                match rm {
                    TreeRootMessage::AddItem(item) => {
                        if ui.is_valid(*item) && ui.is_valid(panel) && *item != panel {
                            TreeRoot::add_item(ui, this, *item);
                        }
                    },
                    TreeRootMessage::RemoveItem(item) => {
                        if ui.is_valid(panel) {
                            TreeRoot::remove_item(ui, this, *item);
                        }
                    },
                    TreeRootMessage::Items(items) => {
                        if ui.is_valid(panel) && all_linkable(ui, items, panel) {
                            let items = copy_handles(items);
                            TreeRoot::set_items(ui, this, items);
                        }
                    },
                    TreeRootMessage::Selected(sel) => {
                        TreeRoot::select(ui, this, *sel);
                    },
                }
            },
            _ => {},
        }
    }

    /// Appends `item` to the top-level items of the root at `this` and links it under its panel.
    pub fn add_item(ui: &mut UserInterface, this: Handle, item: Handle)
        requires
            old(ui).is_tree_root(this),
            old(ui).valid(item),
            old(ui).valid(old(ui).tree_root(this).panel),
            item != old(ui).tree_root(this).panel,
        ensures
            root_add_effect(*old(ui), *final(ui), this, item),
    {
        let panel = root_ref(ui, this).panel;
        ui.link_nodes(item, panel);
        assert(slot_kept(old(ui).nodes@[this.index as int], ui.nodes@[this.index as int]));
        let (n, mut t) = take_root(ui, this);
        t.items.push(item);
        put_root(ui, this, n, t);
        proof {
            if root_mirrors(*old(ui), this) && !old(ui).tree_root(this).items@.contains(item) {
                crate::handle::lemma_remove_all_absent(old(ui).tree_root(this).items@, item);
            }
        }
    }

    /// Drops `item` from the top-level items of the root at `this`, if it is
    /// there: it leaves the panel and its removal is asked for. Otherwise
    /// nothing changes.
    pub fn remove_item(ui: &mut UserInterface, this: Handle, item: Handle)
        requires
            old(ui).is_tree_root(this),
            old(ui).valid(old(ui).tree_root(this).panel),
        ensures
            root_remove_effect(*old(ui), *final(ui), this, item),
    {
        if contains_handle(&root_ref(ui, this).items, item) {
            let panel = root_ref(ui, this).panel;
            ui.remove_child(panel, item);
            ui.send_message(UiMessage::new(item, UiMessageData::Widget(WidgetMessage::Remove)));
            assert(slot_kept(old(ui).nodes@[this.index as int], ui.nodes@[this.index as int]));
            let (n, mut t) = take_root(ui, this);
            t.items = remove_all_exec(&t.items, item);
            put_root(ui, this, n, t);
        }
    }

    /// Replaces the top-level items of the root at `this`: the removal of
    /// each current item is asked for, and each new one is linked under the panel.
    pub fn set_items(ui: &mut UserInterface, this: Handle, items: Vec<Handle>)
        requires
            old(ui).is_tree_root(this),
            old(ui).valid(old(ui).tree_root(this).panel),
            forall|k: int|
                0 <= k < items@.len() ==> old(ui).valid(#[trigger] items@[k]) && items@[k]
                    != old(ui).tree_root(this).panel,
        ensures
            root_set_effect(*old(ui), *final(ui), this, items@),
    {
        let panel = root_ref(ui, this).panel;
        let current = copy_handles(&root_ref(ui, this).items);
        ui.unlink_all(&current, panel);
        let ghost mid = *ui;
        ui.link_all(&items, panel);
        proof {
            lemma_shape_kept_trans(*old(ui), mid, *ui);
        }
        assert(slot_kept(old(ui).nodes@[this.index as int], ui.nodes@[this.index as int]));
        let ghost new_items = items@;
        let (n, mut t) = take_root(ui, this);
        t.items = items;
        put_root(ui, this, n, t);
        proof {
            if root_mirrors(*old(ui), this) && new_items.no_duplicates() {
                lemma_remove_each_self(old(ui).tree_root(this).items@);
                assert(remove_each(old(ui).tree_root(this).items@, old(ui).tree_root(this).items@) =~= Seq::<Handle>::empty());
                lemma_appended_each_distinct(new_items);
            }
        }
    }

    /// Makes `sel` the one highlighted tree below the root at `this`. Asking
    /// for the current selection changes nothing; asking for a node that is
    /// not a tree below the root clears every highlight and keeps the selection.
    pub fn select(ui: &mut UserInterface, this: Handle, sel: Handle)
        requires
            old(ui).is_tree_root(this),
        ensures
            select_effect(*old(ui), *final(ui), this, sel),
    {
        if root_ref(ui, this).selected == sel {
            return;
        }
        let mut found = false;
        let mut i: usize = 0;
        let len = ui.nodes.len();
        while i < len
            invariant
                i <= len,
                len == old(ui).nodes@.len(),
                old(ui).is_tree_root(this),
                old(ui).tree_root(this).selected != sel,
                links_kept(*old(ui), *ui),
                ui.requests == old(ui).requests,
                ui.messages@ == old(ui).messages@ + highlight_msgs(*old(ui), this, sel, i as nat),
                found == (old(ui).is_tree(sel) && old(ui).descends(sel, this) && sel.index < i),
                forall|j: int| i <= j < len ==> #[trigger] ui.nodes@[j] == old(ui).nodes@[j],
                forall|h: Handle|
                    #![trigger ui.nodes@[h.index as int]]
                    h.index < i && old(ui).is_tree(h) ==> {
                        &&& ui.is_tree(h)
                        &&& same_but_selection(ui.tree(h), old(ui).tree(h))
                        &&& ui.tree(h).is_selected == (if old(ui).descends(h, this) {
                            h == sel
                        } else {
                            old(ui).tree(h).is_selected
                        })
                    },
                forall|h: Handle|
                    #![trigger ui.nodes@[h.index as int]]
                    old(ui).valid(h) && !old(ui).is_tree(h) ==> ui.node(h) == old(ui).node(h),
            decreases len - i,
        {
            let h = Handle { index: i };
            proof {
                lemma_reaches_links(*old(ui), *ui, h, this, len as nat);
            }
            if ui.is_valid(h) && ui.nodes[i].as_ref().unwrap().kind.as_tree().is_some()
                && ui.is_descendant(h, this) {
                assert(ui.nodes@[h.index as int] == old(ui).nodes@[h.index as int]);
                let ghost before = *ui;
                let (n, mut t) = take_tree(ui, h);
                let chosen = h == sel;
                t.is_selected = chosen;
                let brush = if chosen { t.selected_brush } else { t.normal_brush };
                let background = t.background;
                put_tree(ui, h, n, t);
                ui.send_message(UiMessage::new(background, UiMessageData::Widget(WidgetMessage::Background(brush))));
                if chosen {
                    found = true;
                }
                assert forall|j: int| 0 <= j < len implies (#[trigger] ui.nodes@[j] is Some) == (old(ui).nodes@[j] is Some) by {
                    assert(before.nodes@[j] is Some == old(ui).nodes@[j] is Some);
                }
            }
            i = i + 1;
        }
        if found {
            let (n, mut t) = take_root(ui, this);
            t.selected = sel;
            put_root(ui, this, n, t);
        }
        proof {
            assert forall|h: Handle|
                #![trigger ui.nodes@[h.index as int]]
                old(ui).valid(h) && !old(ui).is_tree(h) && h != this implies ui.node(h) == old(ui).node(h) by {}
        }
    }
}

pub struct TreeBuilder {
    pub items: Vec<Handle>,
    pub content: Handle,
    pub is_expanded: bool,
    pub selected_brush: Brush,
    pub hovered_brush: Brush,
    pub normal_brush: Brush,
    pub always_show_expander: bool,
    pub user_path: Option<String>,
}

impl TreeBuilder {
    /// An expanded tree with no items, no content, no attached path, the
    /// expander shown only when there are items, and the default brushes:
    /// mid-gray when selected, darker gray when hovered, transparent otherwise.
    pub fn new() -> (b: TreeBuilder)
        ensures
            b.items@.len() == 0,
            b.content == Handle::spec_none(),
            b.is_expanded,
            b.selected_brush == Brush::Solid(Color { r: 140, g: 140, b: 140, a: 255 }),
            b.hovered_brush == Brush::Solid(Color { r: 100, g: 100, b: 100, a: 255 }),
            b.normal_brush == Brush::Solid(Color { r: 0, g: 0, b: 0, a: 0 }),
            !b.always_show_expander,
            b.user_path is None,
    {
        TreeBuilder {
            items: Vec::new(),
            content: Handle::none(),
            is_expanded: true,
            selected_brush: Brush::Solid(Color::opaque(140, 140, 140)),
            hovered_brush: Brush::Solid(Color::opaque(100, 100, 100)),
            normal_brush: Brush::Solid(Color::transparent()),
            always_show_expander: false,
            user_path: None,
        }
    }

    pub fn with_items(self, items: Vec<Handle>) -> (b: TreeBuilder)
        ensures
            b == (TreeBuilder { items, ..self }),
    {
        TreeBuilder { items, ..self }
    }

    pub fn with_content(self, content: Handle) -> (b: TreeBuilder)
        ensures
            b == (TreeBuilder { content, ..self }),
    {
        TreeBuilder { content, ..self }
    }

    pub fn with_expanded(self, expanded: bool) -> (b: TreeBuilder)
        ensures
            b == (TreeBuilder { is_expanded: expanded, ..self }),
    {
        TreeBuilder { is_expanded: expanded, ..self }
    }

    pub fn with_always_show_expander(self, state: bool) -> (b: TreeBuilder)
        ensures
            b == (TreeBuilder { always_show_expander: state, ..self }),
    {
        TreeBuilder { always_show_expander: state, ..self }
    }

    /// Attaches a filesystem path to the tree, fixed for its life.
    pub fn with_user_path(self, path: String) -> (b: TreeBuilder)
        ensures
            b == (TreeBuilder { user_path: Some(path), ..self }),
    {
        TreeBuilder { user_path: Some(path), ..self }
    }

    /// Builds the tree and the widgets it manages (expander, background,
    /// panel) into `ui`, links the items under the panel, and returns the
    /// tree's handle.
    pub fn build(self, ui: &mut UserInterface) -> (h: Handle)
        requires
            old(ui).has_room(7),
            forall|k: int| 0 <= k < self.items@.len() ==> old(ui).valid(#[trigger] self.items@[k]),
            self.content.spec_is_some() ==> old(ui).valid(self.content),
        ensures
            h.index >= old(ui).nodes@.len(),
            final(ui).nodes@.len() == old(ui).nodes@.len() + 6,
            final(ui).is_tree(h),
            final(ui).tree(h).items@ == self.items@,
            final(ui).tree(h).content == self.content,
            final(ui).tree(h).is_expanded == self.is_expanded,
            !final(ui).tree(h).is_selected,
            final(ui).tree(h).selected_brush == self.selected_brush,
            final(ui).tree(h).hovered_brush == self.hovered_brush,
            final(ui).tree(h).normal_brush == self.normal_brush,
            final(ui).tree(h).always_show_expander == self.always_show_expander,
            final(ui).node(h).user_path == self.user_path,
            final(ui).valid(final(ui).tree(h).expander),
            final(ui).valid(final(ui).tree(h).background),
            final(ui).valid(final(ui).tree(h).panel),
            final(ui).tree(h).panel != h,
            final(ui).tree(h).expander.index >= old(ui).nodes@.len(),
            final(ui).tree(h).background.index >= old(ui).nodes@.len(),
            final(ui).tree(h).panel.index >= old(ui).nodes@.len(),
            final(ui).tree(h).expander != final(ui).tree(h).background,
            final(ui).tree(h).expander != final(ui).tree(h).panel,
            final(ui).tree(h).background != final(ui).tree(h).panel,
            final(ui).tree(h).expander != h && final(ui).tree(h).background != h,
            final(ui).node(final(ui).tree(h).expander).visibility == (self.always_show_expander
                || self.items@.len() > 0),
            final(ui).node(final(ui).tree(h).panel).visibility == self.is_expanded,
            final(ui).node(final(ui).tree(h).background).background == self.normal_brush,
            final(ui).node(final(ui).tree(h).panel).children@ == appended_each(Seq::empty(), self.items@),
            self.items@.no_duplicates() ==> tree_mirrors(*final(ui), h),
            forall|i: int|
                0 <= i < old(ui).nodes@.len() ==> slot_kept(old(ui).nodes@[i], #[trigger] final(ui).nodes@[i]),
            self.items@.len() == 0 && (self.content.spec_is_some() ==> old(ui).node(self.content).parent
                == Handle::spec_none()) ==> forall|i: int|
                0 <= i < old(ui).nodes@.len() && i != self.content.index ==> #[trigger] final(ui).nodes@[i]
                    == old(ui).nodes@[i],
            final(ui).messages == old(ui).messages,
            final(ui).requests == old(ui).requests,
    {
        let label_text = if self.is_expanded { "-" } else { "+" };
        let label = ui.add_node(Node::new(NodeKind::Text(label_text.to_string())));
        let mut expander_node = Node::new(NodeKind::Button(label));
        expander_node.visibility = self.always_show_expander || self.items.len() > 0;
        let expander = ui.add_node(expander_node);
        let mut background_node = Node::new(NodeKind::Widget);
        background_node.background = self.normal_brush;
        let background = ui.add_node(background_node);
        let mut panel_node = Node::new(NodeKind::Widget);
        panel_node.visibility = self.is_expanded;
        let panel = ui.add_node(panel_node);
        let grid = ui.add_node(Node::new(NodeKind::Widget));
        let items = copy_handles(&self.items);
        let mut tree_node = Node::new(NodeKind::Tree(Tree {
            expander,
            content: self.content,
            panel,
            background,
            is_expanded: self.is_expanded,
            items: self.items,
            is_selected: false,
            selected_brush: self.selected_brush,
            hovered_brush: self.hovered_brush,
            normal_brush: self.normal_brush,
            always_show_expander: self.always_show_expander,
        }));
        tree_node.user_path = self.user_path;
        let tree = ui.add_node(tree_node);
        let ghost built = *ui;
        assert(ui.node(panel).children@.len() == 0);
        ui.link_nodes(label, expander);
        let ghost s1 = *ui;
        assert(ui.node(panel).children@.len() == 0);
        ui.link_nodes(expander, background);
        let ghost s2 = *ui;
        assert(ui.node(panel).children@.len() == 0);
        if self.content.is_some() {
            ui.link_nodes(self.content, background);
            assert(ui.node(panel).children@.len() == 0);
        }
        let ghost s3 = *ui;
        ui.link_nodes(background, grid);
        let ghost s4 = *ui;
        assert(ui.node(panel).children@.len() == 0);
        ui.link_nodes(panel, grid);
        let ghost s5 = *ui;
        assert(ui.node(panel).children@.len() == 0);
        ui.link_nodes(grid, tree);
        let ghost s6 = *ui;
        assert(ui.node(panel).children@.len() == 0);
        assert(ui.node(panel).children@ =~= Seq::<Handle>::empty());
        ui.link_all(&items, panel);
        proof {
            lemma_shape_kept_trans(built, s1, s2);
            if self.content.spec_is_some() {
                lemma_shape_kept_trans(built, s2, s3);
            }
            lemma_shape_kept_trans(built, s3, s4);
            lemma_shape_kept_trans(built, s4, s5);
            lemma_shape_kept_trans(built, s5, s6);
            lemma_shape_kept_trans(built, s6, *ui);
            assert(slot_kept(built.nodes@[tree.index as int], ui.nodes@[tree.index as int]));
            assert(slot_kept(built.nodes@[panel.index as int], ui.nodes@[panel.index as int]));
            assert(slot_kept(built.nodes@[expander.index as int], ui.nodes@[expander.index as int]));
            assert(slot_kept(built.nodes@[background.index as int], ui.nodes@[background.index as int]));
            assert forall|i: int| 0 <= i < old(ui).nodes@.len() implies slot_kept(old(ui).nodes@[i], #[trigger] ui.nodes@[i]) by {
                assert(slot_kept(built.nodes@[i], ui.nodes@[i]));
            }
            if items@.no_duplicates() {
                lemma_appended_each_distinct(items@);
            }
        }
        tree
    }
}

pub struct TreeRootBuilder {
    pub items: Vec<Handle>,
}

impl TreeRootBuilder {
    pub fn new() -> (b: TreeRootBuilder)
        ensures
            b.items@.len() == 0,
    {
        TreeRootBuilder { items: Vec::new() }
    }

    pub fn with_items(self, items: Vec<Handle>) -> (b: TreeRootBuilder)
        ensures
            b.items == items,
    {
        TreeRootBuilder { items }
    }

    /// Builds the root and its panel into `ui`, links the items under the
    /// panel, and returns the root's handle; nothing is selected.
    pub fn build(self, ui: &mut UserInterface) -> (h: Handle)
        requires
            old(ui).has_room(2),
            forall|k: int| 0 <= k < self.items@.len() ==> old(ui).valid(#[trigger] self.items@[k]),
        ensures
            h.index >= old(ui).nodes@.len(),
            final(ui).nodes@.len() == old(ui).nodes@.len() + 2,
            final(ui).is_tree_root(h),
            final(ui).node(h).parent == Handle::spec_none(),
            final(ui).tree_root(h).items@ == self.items@,
            final(ui).tree_root(h).selected == Handle::spec_none(),
            final(ui).valid(final(ui).tree_root(h).panel),
            final(ui).tree_root(h).panel != h,
            final(ui).node(final(ui).tree_root(h).panel).children@ == appended_each(Seq::empty(), self.items@),
            self.items@.no_duplicates() ==> root_mirrors(*final(ui), h),
            forall|i: int|
                0 <= i < old(ui).nodes@.len() ==> slot_kept(old(ui).nodes@[i], #[trigger] final(ui).nodes@[i]),
            final(ui).messages == old(ui).messages,
            final(ui).requests == old(ui).requests,
    {
        let panel = ui.add_node(Node::new(NodeKind::Widget));
        let items = copy_handles(&self.items);
        let ghost s0 = *ui;
        assert(ui.node(panel).children@ =~= Seq::<Handle>::empty());
        ui.link_all(&items, panel);
        let ghost s1 = *ui;
        let root = ui.add_node(Node::new(NodeKind::TreeRoot(TreeRoot {
            panel,
            items: self.items,
            selected: Handle::none(),
        })));
        ui.link_nodes(panel, root);
        proof {
            assert(slot_kept(s0.nodes@[panel.index as int], s1.nodes@[panel.index as int]));
            assert forall|i: int| 0 <= i < old(ui).nodes@.len() implies slot_kept(old(ui).nodes@[i], #[trigger] ui.nodes@[i]) by {
                assert(slot_kept(s0.nodes@[i], s1.nodes@[i]));
            }
            if items@.no_duplicates() {
                lemma_appended_each_distinct(items@);
            }
        }
        root
    }
}

} // verus!
