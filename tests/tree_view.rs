use tree_view::file_browser::{build_tree_item, find_tree, FileBrowser, FileBrowserBuilder, PathFilter};
use tree_view::handle::{Brush, Color, Handle};
use tree_view::message::{
    ButtonMessage, FileBrowserMessage, TextBoxMessage, TreeMessage, TreeRootMessage, UiMessage,
    UiMessageData, WidgetMessage,
};
use tree_view::tree::{Tree, TreeBuilder, TreeRoot, TreeRootBuilder};
use tree_view::ui::{DirEntry, Node, NodeHandleMapping, NodeKind, UserInterface};

fn node(ui: &UserInterface, h: Handle) -> &Node {
    ui.nodes[h.index].as_ref().expect("live node")
}

fn tree(ui: &UserInterface, h: Handle) -> &Tree {
    match &node(ui, h).kind {
        NodeKind::Tree(t) => t,
        _ => panic!("not a tree"),
    }
}

fn root(ui: &UserInterface, h: Handle) -> &TreeRoot {
    match &node(ui, h).kind {
        NodeKind::TreeRoot(r) => r,
        _ => panic!("not a tree root"),
    }
}

fn browser(ui: &UserInterface, h: Handle) -> &FileBrowser {
    match &node(ui, h).kind {
        NodeKind::FileBrowser(b) => b,
        _ => panic!("not a file browser"),
    }
}

fn text_of(ui: &UserInterface, h: Handle) -> String {
    match &node(ui, h).kind {
        NodeKind::Text(t) | NodeKind::TextBox(t) => t.clone(),
        _ => panic!("not a text"),
    }
}

fn run(ui: &mut UserInterface) {
    let n = ui.process_messages(10_000);
    assert!(n < 10_000, "message loop did not settle");
}

fn send(ui: &mut UserInterface, dest: Handle, data: UiMessageData) {
    ui.send_message(UiMessage::new(dest, data));
    run(ui);
}

fn leaf(ui: &mut UserInterface, path: &str) -> Handle {
    TreeBuilder::new().with_user_path(path.to_string()).build(ui)
}

fn entry(path: &str, has_entries: bool) -> DirEntry {
    DirEntry { path: path.to_string(), has_entries }
}

/// Serves every pending directory request from a fixed listing.
fn serve(ui: &mut UserInterface, listing: &dyn Fn(&str) -> Option<Vec<DirEntry>>) {
    for req in ui.take_requests() {
        FileBrowser::populate(ui, req.browser, req.tree, listing(&req.path));
    }
    run(ui);
}

struct HideDotted {
    calls: usize,
}

impl PathFilter for HideDotted {
    fn accept(&mut self, path: &str) -> bool {
        self.calls += 1;
        let name = path.rsplit('/').next().unwrap_or(path);
        !name.starts_with('.')
    }
}

#[test]
fn tree_builder_defaults() {
    let mut ui = UserInterface::new();
    let h = TreeBuilder::new().build(&mut ui);
    let t = tree(&ui, h);
    assert!(t.is_expanded);
    assert!(!t.is_selected);
    assert!(!t.always_show_expander);
    assert!(t.items().is_empty());
    assert!(t.content().is_none());
    assert_eq!(t.selected_brush, Brush::Solid(Color { r: 140, g: 140, b: 140, a: 255 }));
    assert_eq!(t.hovered_brush, Brush::Solid(Color { r: 100, g: 100, b: 100, a: 255 }));
    assert_eq!(t.normal_brush, Brush::Solid(Color { r: 0, g: 0, b: 0, a: 0 }));
    assert!(!node(&ui, t.expander).visibility);
    assert!(node(&ui, t.panel).visibility);
}

#[test]
fn tree_builder_links_items_under_panel() {
    let mut ui = UserInterface::new();
    let a = leaf(&mut ui, "a");
    let b = leaf(&mut ui, "b");
    let h = TreeBuilder::new().with_items(vec![a, b]).with_expanded(false).build(&mut ui);
    let t = tree(&ui, h);
    assert_eq!(t.items(), &[a, b]);
    assert_eq!(node(&ui, t.panel).children, vec![a, b]);
    assert_eq!(node(&ui, a).parent, t.panel);
    assert!(!node(&ui, t.panel).visibility);
    assert!(node(&ui, t.expander).visibility);
}

#[test]
fn item_messages_keep_panel_in_step() {
    let mut ui = UserInterface::new();
    let h = TreeBuilder::new().build(&mut ui);
    let a = leaf(&mut ui, "a");
    let b = leaf(&mut ui, "b");
    let c = leaf(&mut ui, "c");
    let panel = tree(&ui, h).panel;
    send(&mut ui, h, UiMessageData::Tree(TreeMessage::AddItem(a)));
    send(&mut ui, h, UiMessageData::Tree(TreeMessage::AddItem(b)));
    assert_eq!(tree(&ui, h).items(), &[a, b]);
    assert_eq!(node(&ui, panel).children, vec![a, b]);
    send(&mut ui, h, UiMessageData::Tree(TreeMessage::RemoveItem(a)));
    assert_eq!(tree(&ui, h).items(), &[b]);
    assert_eq!(node(&ui, panel).children, vec![b]);
    assert!(!ui.is_valid(a));
    send(&mut ui, h, UiMessageData::Tree(TreeMessage::RemoveItem(a)));
    assert_eq!(tree(&ui, h).items(), &[b]);
    send(&mut ui, h, UiMessageData::Tree(TreeMessage::SetItems(vec![c])));
    assert_eq!(tree(&ui, h).items(), &[c]);
    assert_eq!(node(&ui, panel).children, vec![c]);
    assert!(!ui.is_valid(b));
    assert!(ui.is_valid(c));
}

#[test]
fn root_item_messages_keep_panel_in_step() {
    let mut ui = UserInterface::new();
    let r = TreeRootBuilder::new().build(&mut ui);
    let a = leaf(&mut ui, "a");
    let b = leaf(&mut ui, "b");
    let panel = root(&ui, r).panel;
    send(&mut ui, r, UiMessageData::TreeRoot(TreeRootMessage::AddItem(a)));
    send(&mut ui, r, UiMessageData::TreeRoot(TreeRootMessage::AddItem(b)));
    assert_eq!(root(&ui, r).items(), &[a, b]);
    assert_eq!(node(&ui, panel).children, vec![a, b]);
    send(&mut ui, r, UiMessageData::TreeRoot(TreeRootMessage::RemoveItem(b)));
    assert_eq!(root(&ui, r).items(), &[a]);
    assert_eq!(node(&ui, panel).children, vec![a]);
    send(&mut ui, r, UiMessageData::TreeRoot(TreeRootMessage::Items(vec![])));
    assert!(root(&ui, r).items().is_empty());
    assert!(node(&ui, panel).children.is_empty());
}

fn nested(ui: &mut UserInterface) -> (Handle, Handle, Handle, Handle) {
    let deep = leaf(ui, "deep");
    let mid = TreeBuilder::new().with_items(vec![deep]).build(ui);
    let other = leaf(ui, "other");
    let r = TreeRootBuilder::new().with_items(vec![mid, other]).build(ui);
    (r, mid, deep, other)
}

#[test]
fn selection_is_single_across_depths() {
    let mut ui = UserInterface::new();
    let (r, mid, deep, other) = nested(&mut ui);
    send(&mut ui, r, UiMessageData::TreeRoot(TreeRootMessage::Selected(deep)));
    assert_eq!(root(&ui, r).selected, deep);
    assert!(tree(&ui, deep).is_selected);
    assert!(!tree(&ui, mid).is_selected);
    assert!(!tree(&ui, other).is_selected);
    let bg = tree(&ui, deep).background;
    assert_eq!(node(&ui, bg).background, tree(&ui, deep).selected_brush);
    send(&mut ui, r, UiMessageData::TreeRoot(TreeRootMessage::Selected(other)));
    assert_eq!(root(&ui, r).selected, other);
    assert!(!tree(&ui, deep).is_selected);
    assert!(tree(&ui, other).is_selected);
    assert_eq!(node(&ui, bg).background, tree(&ui, deep).normal_brush);
}

#[test]
fn selecting_a_stranger_clears_highlight_and_keeps_selection() {
    let mut ui = UserInterface::new();
    let (r, _mid, deep, _other) = nested(&mut ui);
    let outsider = leaf(&mut ui, "outsider");
    send(&mut ui, r, UiMessageData::TreeRoot(TreeRootMessage::Selected(deep)));
    send(&mut ui, r, UiMessageData::TreeRoot(TreeRootMessage::Selected(outsider)));
    assert_eq!(root(&ui, r).selected, deep);
    assert!(!tree(&ui, deep).is_selected);
    assert!(!tree(&ui, outsider).is_selected);
}

#[test]
fn mouse_down_selects_through_the_root() {
    let mut ui = UserInterface::new();
    let (r, _mid, deep, _other) = nested(&mut ui);
    let mut m = UiMessage::new(deep, UiMessageData::Widget(WidgetMessage::MouseDown));
    ui.handle_message(&mut m);
    assert!(m.handled);
    run(&mut ui);
    assert_eq!(root(&ui, r).selected, deep);
    assert!(tree(&ui, deep).is_selected);
}

#[test]
fn hover_changes_background_unless_selected() {
    let mut ui = UserInterface::new();
    let (r, mid, deep, _other) = nested(&mut ui);
    let bg = tree(&ui, mid).background;
    let mut enter = UiMessage::new(mid, UiMessageData::Widget(WidgetMessage::MouseEnter));
    ui.handle_message(&mut enter);
    assert!(enter.handled);
    run(&mut ui);
    assert_eq!(node(&ui, bg).background, tree(&ui, mid).hovered_brush);
    send(&mut ui, mid, UiMessageData::Widget(WidgetMessage::MouseLeave));
    assert_eq!(node(&ui, bg).background, tree(&ui, mid).normal_brush);
    send(&mut ui, r, UiMessageData::TreeRoot(TreeRootMessage::Selected(deep)));
    let deep_bg = tree(&ui, deep).background;
    send(&mut ui, deep, UiMessageData::Widget(WidgetMessage::MouseEnter));
    assert_eq!(node(&ui, deep_bg).background, tree(&ui, deep).selected_brush);
}

#[test]
fn expander_click_toggles_expansion() {
    let mut ui = UserInterface::new();
    let a = leaf(&mut ui, "a");
    let h = TreeBuilder::new().with_items(vec![a]).build(&mut ui);
    let expander = tree(&ui, h).expander;
    let label = match node(&ui, expander).kind {
        NodeKind::Button(c) => c,
        _ => panic!("expander is a button"),
    };
    send(&mut ui, expander, UiMessageData::Button(ButtonMessage::Click));
    assert!(!tree(&ui, h).is_expanded);
    assert!(!node(&ui, tree(&ui, h).panel).visibility);
    assert_eq!(text_of(&ui, label), "+");
    send(&mut ui, expander, UiMessageData::Button(ButtonMessage::Click));
    assert!(tree(&ui, h).is_expanded);
    assert_eq!(text_of(&ui, label), "-");
}

#[test]
fn expand_twice_changes_nothing_more() {
    let mut ui = UserInterface::new();
    let a = leaf(&mut ui, "a");
    let h = TreeBuilder::new().with_items(vec![a]).with_expanded(false).build(&mut ui);
    send(&mut ui, h, UiMessageData::Tree(TreeMessage::Expand(true)));
    let items = tree(&ui, h).items().to_vec();
    let visible = node(&ui, tree(&ui, h).panel).visibility;
    send(&mut ui, h, UiMessageData::Tree(TreeMessage::Expand(true)));
    assert_eq!(tree(&ui, h).items(), items.as_slice());
    assert_eq!(node(&ui, tree(&ui, h).panel).visibility, visible);
    assert!(tree(&ui, h).is_expanded);
}

#[test]
fn arrange_hides_expander_of_empty_tree() {
    let mut ui = UserInterface::new();
    let h = TreeBuilder::new().build(&mut ui);
    let expander = tree(&ui, h).expander;
    Tree::arrange(&mut ui, h);
    run(&mut ui);
    assert!(!node(&ui, expander).visibility);
    let shown = TreeBuilder::new().with_always_show_expander(true).build(&mut ui);
    let shown_expander = tree(&ui, shown).expander;
    assert!(node(&ui, shown_expander).visibility);
    Tree::arrange(&mut ui, shown);
    run(&mut ui);
    assert!(node(&ui, shown_expander).visibility);
}

#[test]
fn removal_forgets_handles() {
    let mut ui = UserInterface::new();
    let (r, mid, deep, _other) = nested(&mut ui);
    send(&mut ui, r, UiMessageData::TreeRoot(TreeRootMessage::Selected(deep)));
    send(&mut ui, deep, UiMessageData::Widget(WidgetMessage::Remove));
    assert!(!ui.is_valid(deep));
    assert!(root(&ui, r).selected.is_none());
    assert!(tree(&ui, mid).items().is_empty());
    assert!(!node(&ui, tree(&ui, mid).panel).children.contains(&deep));
}

#[test]
fn resolve_rewrites_structural_handles() {
    let mut ui = UserInterface::new();
    let h = TreeBuilder::new().build(&mut ui);
    let mut t = tree(&ui, h).raw_copy();
    let mut map = NodeHandleMapping::new();
    map.insert(t.expander, Handle { index: 100 });
    map.insert(t.panel, Handle { index: 101 });
    map.insert(t.background, Handle { index: 102 });
    t.resolve(&map);
    assert_eq!(t.expander, Handle { index: 100 });
    assert_eq!(t.panel, Handle { index: 101 });
    assert_eq!(t.background, Handle { index: 102 });
    assert!(t.content.is_none());
    let mut r = TreeRoot { panel: Handle { index: 1 }, items: vec![], selected: Handle::none() };
    let mut map = NodeHandleMapping::new();
    map.insert(Handle { index: 1 }, Handle { index: 7 });
    r.resolve(&map);
    assert_eq!(r.panel, Handle { index: 7 });
    assert!(r.selected.is_none());
}

#[test]
fn item_label_drops_parent_path() {
    let mut ui = UserInterface::new();
    let h = build_tree_item(&mut ui, "/a/b", "/a", true);
    let t = tree(&ui, h);
    assert_eq!(text_of(&ui, t.content), "/b");
    assert!(!t.is_expanded);
    assert!(t.always_show_expander);
    assert_eq!(node(&ui, h).user_path.as_deref(), Some("/a/b"));
}

fn browser_at_a(filter: Option<Box<dyn PathFilter>>) -> (UserInterface, Handle, Handle) {
    let mut ui = UserInterface::new();
    let mut b = FileBrowserBuilder::new().with_path("/a", true);
    if let Some(f) = filter {
        b = b.with_filter(f);
    }
    let fb = b.build(&mut ui);
    let tr = browser(&ui, fb).tree_root;
    let top = root(&ui, tr).items()[0];
    (ui, fb, top)
}

#[test]
fn round_trip_selection_sync() {
    let (mut ui, fb, top) = browser_at_a(None);
    send(&mut ui, top, UiMessageData::Tree(TreeMessage::Expand(true)));
    serve(&mut ui, &|p: &str| if p == "/a" { Some(vec![entry("/a/b", false)]) } else { None });
    let child = tree(&ui, top).items()[0];
    assert_eq!(node(&ui, child).user_path.as_deref(), Some("/a/b"));
    send(&mut ui, fb, UiMessageData::FileBrowser(FileBrowserMessage::SelectionChanged("/a/b".to_string())));
    assert_eq!(browser(&ui, fb).selection, "/a/b");
    assert_eq!(text_of(&ui, browser(&ui, fb).path_text), "/a/b");
    assert!(tree(&ui, child).is_selected);
    assert_eq!(root(&ui, browser(&ui, fb).tree_root).selected, child);
}

#[test]
fn selection_of_unknown_path_is_dropped() {
    let (mut ui, fb, _top) = browser_at_a(None);
    send(&mut ui, fb, UiMessageData::FileBrowser(FileBrowserMessage::SelectionChanged("/zzz".to_string())));
    assert_eq!(browser(&ui, fb).selection, "");
}

#[test]
fn clicking_a_tree_updates_the_path_field() {
    let (mut ui, fb, top) = browser_at_a(None);
    send(&mut ui, top, UiMessageData::Widget(WidgetMessage::MouseDown));
    assert_eq!(browser(&ui, fb).selection, "/a");
    assert_eq!(text_of(&ui, browser(&ui, fb).path_text), "/a");
    assert!(tree(&ui, top).is_selected);
}

#[test]
fn editing_the_path_field_selects_the_tree() {
    let (mut ui, fb, top) = browser_at_a(None);
    send(&mut ui, top, UiMessageData::Tree(TreeMessage::Expand(true)));
    serve(&mut ui, &|_p: &str| Some(vec![entry("/a/b", false), entry("/a/c", false)]));
    let c = tree(&ui, top).items()[1];
    let field = browser(&ui, fb).path_text;
    send(&mut ui, field, UiMessageData::TextBox(TextBoxMessage::Text("/a/c".to_string())));
    assert!(tree(&ui, c).is_selected);
    assert_eq!(browser(&ui, fb).selection, "/a/c");
}

#[test]
fn lookup_prefers_exact_path_over_longer_one() {
    for order in [["/a/b", "/a/bb"], ["/a/bb", "/a/b"]] {
        let mut ui = UserInterface::new();
        let first = leaf(&mut ui, order[0]);
        let second = leaf(&mut ui, order[1]);
        let top = TreeBuilder::new().with_user_path("/a".to_string()).with_items(vec![first, second]).build(&mut ui);
        let r = TreeRootBuilder::new().with_items(vec![top]).build(&mut ui);
        let found = find_tree(&ui, r, "/a/b");
        assert_eq!(node(&ui, found).user_path.as_deref(), Some("/a/b"));
    }
}

#[test]
fn lookup_falls_back_to_prefix_match() {
    let mut ui = UserInterface::new();
    let long = leaf(&mut ui, "/a/bc");
    let top = TreeBuilder::new().with_user_path("/a".to_string()).with_items(vec![long]).build(&mut ui);
    let r = TreeRootBuilder::new().with_items(vec![top]).build(&mut ui);
    assert_eq!(find_tree(&ui, r, "/a/b"), long);
    assert!(find_tree(&ui, r, "/x").is_none());
}

#[test]
fn filter_excludes_dotted_entries() {
    let (mut ui, _fb, top) = browser_at_a(Some(Box::new(HideDotted { calls: 0 })));
    send(&mut ui, top, UiMessageData::Tree(TreeMessage::Expand(true)));
    serve(&mut ui, &|_p: &str| Some(vec![entry("/a/.git", true), entry("/a/src", true)]));
    let items = tree(&ui, top).items().to_vec();
    assert_eq!(items.len(), 1);
    assert_eq!(node(&ui, items[0]).user_path.as_deref(), Some("/a/src"));
    assert!(tree(&ui, items[0]).always_show_expander);
}

#[test]
fn failed_listing_gives_no_children() {
    let (mut ui, _fb, top) = browser_at_a(None);
    send(&mut ui, top, UiMessageData::Tree(TreeMessage::Expand(true)));
    serve(&mut ui, &|_p: &str| None);
    assert!(tree(&ui, top).items().is_empty());
    assert!(tree(&ui, top).is_expanded);
}

#[test]
fn collapse_evicts_children() {
    let (mut ui, _fb, top) = browser_at_a(None);
    send(&mut ui, top, UiMessageData::Tree(TreeMessage::Expand(true)));
    serve(&mut ui, &|p: &str| if p == "/a" { Some(vec![entry("/a/b", true)]) } else { Some(vec![entry("/a/b/c", false)]) });
    let b = tree(&ui, top).items()[0];
    send(&mut ui, b, UiMessageData::Tree(TreeMessage::Expand(true)));
    serve(&mut ui, &|_p: &str| Some(vec![entry("/a/b/c", false)]));
    assert_eq!(tree(&ui, b).items().len(), 1);
    send(&mut ui, top, UiMessageData::Tree(TreeMessage::Expand(false)));
    assert!(tree(&ui, top).items().is_empty());
    assert!(!ui.is_valid(b));
}

#[test]
fn expanding_twice_does_not_duplicate_children() {
    let (mut ui, _fb, top) = browser_at_a(None);
    send(&mut ui, top, UiMessageData::Tree(TreeMessage::Expand(true)));
    send(&mut ui, top, UiMessageData::Tree(TreeMessage::Expand(true)));
    serve(&mut ui, &|_p: &str| Some(vec![entry("/a/b", false), entry("/a/c", false)]));
    assert_eq!(tree(&ui, top).items().len(), 2);
    send(&mut ui, top, UiMessageData::Tree(TreeMessage::Expand(true)));
    serve(&mut ui, &|_p: &str| Some(vec![entry("/a/b", false), entry("/a/c", false)]));
    assert_eq!(tree(&ui, top).items().len(), 2);
}

#[test]
fn new_root_path_rebuilds_the_tree() {
    let (mut ui, fb, top) = browser_at_a(None);
    send(&mut ui, fb, UiMessageData::FileBrowser(FileBrowserMessage::Path("/x".to_string(), false)));
    let tr = browser(&ui, fb).tree_root;
    let items = root(&ui, tr).items().to_vec();
    assert_eq!(items.len(), 1);
    assert!(!ui.is_valid(top));
    assert_eq!(node(&ui, items[0]).user_path.as_deref(), Some("/x"));
    assert_eq!(node(&ui, root(&ui, tr).panel).children, items);
}

#[test]
fn filter_is_asked_once_per_entry() {
    let mut f = HideDotted { calls: 0 };
    assert!(f.accept("/a/src"));
    assert!(!f.accept("/a/.hidden"));
    assert_eq!(f.calls, 2);
}

#[test]
fn new_root_path_is_recorded() {
    let (mut ui, fb, _top) = browser_at_a(None);
    assert_eq!(browser(&ui, fb).path, "/a");
    send(&mut ui, fb, UiMessageData::FileBrowser(FileBrowserMessage::Path("/y".to_string(), true)));
    assert_eq!(browser(&ui, fb).path, "/y");
    let tr = browser(&ui, fb).tree_root;
    let top = root(&ui, tr).items()[0];
    assert!(tree(&ui, top).always_show_expander);
}

#[test]
fn root_resolve_keeps_unmapped_selection() {
    let mut r = TreeRoot { panel: Handle { index: 1 }, items: vec![], selected: Handle { index: 4 } };
    let mut map = NodeHandleMapping::new();
    map.insert(Handle { index: 1 }, Handle { index: 7 });
    r.resolve(&map);
    assert_eq!(r.panel, Handle { index: 7 });
    assert_eq!(r.selected, Handle { index: 4 });
    let mut r = TreeRoot { panel: Handle { index: 1 }, items: vec![], selected: Handle { index: 4 } };
    map.insert(Handle { index: 4 }, Handle { index: 9 });
    r.resolve(&map);
    assert_eq!(r.panel, Handle { index: 7 });
    assert_eq!(r.selected, Handle { index: 9 });
}

#[test]
fn selection_repaints_every_tree_below_the_root() {
    let mut ui = UserInterface::new();
    let (r, mid, deep, other) = nested(&mut ui);
    for h in [mid, deep, other] {
        let bg = tree(&ui, h).background;
        let mut n = ui.take_node(bg);
        n.background = Brush::Solid(Color { r: 1, g: 2, b: 3, a: 4 });
        ui.put_node(bg, n);
    }
    send(&mut ui, r, UiMessageData::TreeRoot(TreeRootMessage::Selected(mid)));
    assert_eq!(node(&ui, tree(&ui, mid).background).background, tree(&ui, mid).selected_brush);
    assert_eq!(node(&ui, tree(&ui, deep).background).background, tree(&ui, deep).normal_brush);
    assert_eq!(node(&ui, tree(&ui, other).background).background, tree(&ui, other).normal_brush);
}
