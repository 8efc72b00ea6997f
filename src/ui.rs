//! The arena that holds every control of a user interface, with the tree
//! operations, hit-testing, painting order and hot-control tracking.

use vstd::prelude::*;

use crate::control::{ChildrenVec, ControlId, SubControlData, SubControlView, Visibility};
use crate::event::{Event, MouseDraggedEvent, MouseMovedEvent};
use crate::event_vec::{EventHandlerVec, Handler, HandlerId};
use crate::bitfield::bit_of;
use crate::geometry::{contains_pt, rect_contains, Point, Size};
use crate::window::{Window, WindowBorderStyle, WindowData};

verus! {

/// Which variant of control a node is.
pub enum ControlKind {
    Plain,
    Button,
    Window(WindowData),
}

/// One control of the arena: its variant and its storage.
pub struct ControlNode {
    kind: ControlKind,
    data: SubControlData,
}

/// A node as plain values.
pub struct NodeView {
    pub kind: ControlKind,
    pub data: SubControlView,
}

/// One step of painting a subtree. The windowing layer carries the steps out
/// on its painter, delivering a `PaintingEvent` to the control of each
/// `Deliver`.
#[derive(Clone, Copy, Debug, PartialEq, Eq, Structural)]
pub enum PaintStep {
    Deliver(ControlId),
    Save,
    Translate(Point),
    Restore,
}

/// The arena as plain values.
pub struct UiView {
    pub nodes: Seq<NodeView>,
    /// The control under the pointer, if any.
    pub hot: Option<ControlId>,
    /// The repaint requests not yet taken by the windowing layer, oldest first.
    pub repaints: Seq<ControlId>,
}

impl UiView {
    pub open spec fn valid(self, id: ControlId) -> bool {
        id.0 < self.nodes.len()
    }

    pub open spec fn all_valid(self, s: Seq<ControlId>) -> bool {
        forall|k: int| 0 <= k < s.len() ==> self.valid(#[trigger] s[k])
    }

    pub open spec fn node_ok(self, n: NodeView) -> bool {
        &&& self.all_valid(n.data.children)
        &&& n.data.parent matches Some(p) ==> self.valid(p)
    }

    /// Every control named anywhere in the arena exists.
    pub open spec fn well_formed(self) -> bool {
        &&& forall|i: int| 0 <= i < self.nodes.len() ==> self.node_ok(#[trigger] self.nodes[i])
        &&& self.hot matches Some(h) ==> self.valid(h)
        &&& self.all_valid(self.repaints)
    }

    pub open spec fn is_window(self, id: ControlId) -> bool {
        self.nodes[id.0 as int].kind is Window
    }

    pub open spec fn is_button(self, id: ControlId) -> bool {
        self.nodes[id.0 as int].kind is Button
    }

    /// The control that receives a pointer event at `(x, y)` in window `w`:
    /// the deepest control under the point below the window's first child,
    /// or that child itself; none for a window without a child.
    pub open spec fn pointer_target(self, w: ControlId, x: int, y: int) -> Option<ControlId> {
        let c = self.data(w).children;
        if c.len() == 0 {
            None
        } else {
            match self.descendant_at(c[0], x, y, self.nodes.len()) {
                Some(d) => Some(d),
                None => Some(c[0]),
            }
        }
    }

    /// The window state of node `id`, which is a window.
    pub open spec fn window(self, id: ControlId) -> WindowData {
        match self.nodes[id.0 as int].kind {
            ControlKind::Window(w) => w,
            _ => arbitrary(),
        }
    }

    /// Only the window state of window `id` differs from `old`.
    pub open spec fn window_only_changed(self, old: UiView, id: ControlId) -> bool {
        &&& self.nodes.len() == old.nodes.len()
        &&& self.is_window(id)
        &&& self.data(id) == old.data(id)
        &&& forall|i: int| 0 <= i < self.nodes.len() && i != id.0 ==> self.nodes[i] == old.nodes[i]
        &&& self.hot == old.hot
        &&& self.repaints == old.repaints
    }

    /// The arena after a control of kind `kind` with storage `data` was stored
    /// under the next free name and registered.
    pub open spec fn with_new_control(self, kind: ControlKind, data: SubControlView) -> UiView {
        let id = ControlId(self.nodes.len() as usize);
        UiView {
            nodes: self.nodes.push(
                NodeView {
                    kind,
                    data: SubControlView {
                        owner: Some(id),
                        handlers: data.handlers.push(
                            Handler::Own,
                        ),
                        ..data
                    },
                },
            ),
            ..self
        }
    }

    /// The arena after `child` was pushed onto the children of `parent`: the
    /// child's parent link is set first, then the child is appended.
    pub open spec fn after_push(self, parent: ControlId, child: ControlId) -> UiView {
        let linked = self.with_data(child, SubControlView { parent: Some(parent), ..self.data(child) });
        linked.with_data(
            parent,
            SubControlView {
                children: linked.data(parent).children.push(child),
                ..linked.data(parent)
            },
        )
    }

    /// Whether the box of control `id` contains `(x, y)`, given in the
    /// coordinates of its parent.
    pub open spec fn hits(self, id: ControlId, x: int, y: int) -> bool {
        rect_contains(self.data(id).location, self.data(id).size, x, y)
    }

    /// The first control of `s` from position `start` on whose box contains
    /// `(x, y)`.
    pub open spec fn first_hit(self, s: Seq<ControlId>, x: int, y: int, start: int) -> Option<
        ControlId,
    >
        decreases s.len() - start,
    {
        if start < 0 || start >= s.len() {
            None
        } else if self.hits(s[start], x, y) {
            Some(s[start])
        } else {
            self.first_hit(s, x, y, start + 1)
        }
    }

    /// The first child of `id`, in insertion order, whose box contains `(x, y)`,
    /// given in the coordinates of `id`.
    pub open spec fn child_at(self, id: ControlId, x: int, y: int) -> Option<ControlId> {
        self.first_hit(self.data(id).children, x, y, 0)
    }

    /// The deepest control below `id` that contains `(x, y)`, looking at most
    /// `fuel` levels down: the hit child, or what lies below it at the point
    /// taken into the child's coordinates.
    pub open spec fn descendant_at(self, id: ControlId, x: int, y: int, fuel: nat) -> Option<
        ControlId,
    >
        decreases fuel,
    {
        if fuel == 0 {
            None
        } else {
            match self.child_at(id, x, y) {
                None => None,
                Some(c) => match self.descendant_at(
                    c,
                    x - self.data(c).location.x,
                    y - self.data(c).location.y,
                    (fuel - 1) as nat,
                ) {
                    Some(d) => Some(d),
                    None => Some(c),
                },
            }
        }
    }

    /// The painting steps for control `id` and, at most `fuel` levels down, its
    /// descendants: deliver to the control, then for each child in order save
    /// the painter, move its origin to the child, paint the child's subtree and
    /// restore the painter.
    pub open spec fn paint_seq(self, id: ControlId, fuel: nat) -> Seq<PaintStep>
        decreases fuel, 0nat, 0nat,
    {
        seq![PaintStep::Deliver(id)] + if fuel == 0 {
            Seq::empty()
        } else {
            let c = self.data(id).children;
            self.children_paint(c, c.len(), (fuel - 1) as nat)
        }
    }

    /// The painting steps for the first `n` controls of `s`, each within a saved
    /// and translated painter.
    pub open spec fn children_paint(self, s: Seq<ControlId>, n: nat, fuel: nat) -> Seq<PaintStep>
        decreases fuel, 1nat, n,
    {
        if n == 0 || n > s.len() {
            Seq::empty()
        } else {
            let c = s[n - 1];
            self.children_paint(s, (n - 1) as nat, fuel) + seq![
                PaintStep::Save,
                PaintStep::Translate(self.data(c).location),
            ] + self.paint_seq(c, fuel) + seq![PaintStep::Restore]
        }
    }

    /// The window reached from `id` by following parent links, looking at
    /// most `fuel` controls up; `id` itself if it is a window.
    pub open spec fn window_of(self, id: ControlId, fuel: nat) -> Option<ControlId>
        decreases fuel,
    {
        if fuel == 0 {
            None
        } else if self.is_window(id) {
            Some(id)
        } else {
            match self.data(id).parent {
                None => None,
                Some(p) => self.window_of(p, (fuel - 1) as nat),
            }
        }
    }

    /// Whether `a` is `c` or is reached from `c` by following at most `fuel`
    /// parent links.
    pub open spec fn above(self, a: ControlId, c: ControlId, fuel: nat) -> bool
        decreases fuel,
    {
        a == c || (fuel > 0 && match self.data(c).parent {
            Some(p) => self.above(a, p, (fuel - 1) as nat),
            None => false,
        })
    }

    pub open spec fn data(self, id: ControlId) -> SubControlView {
        self.nodes[id.0 as int].data
    }

    pub open spec fn with_data(self, id: ControlId, d: SubControlView) -> UiView {
        UiView {
            nodes: self.nodes.update(id.0 as int, NodeView { data: d, ..self.nodes[id.0 as int] }),
            ..self
        }
    }
}

/// All controls of a user interface, each named by its place. Parent links
/// are names, so they never keep a control alive, and every name stored in
/// the arena (children, parents, the hot control, repaint requests) refers to
/// a control that exists. The arena also records which control is under
/// the pointer and which controls asked to be repainted.
pub struct Ui {
    nodes: Vec<ControlNode>,
    hot: Option<ControlId>,
    repaints: Vec<ControlId>,
}

spec fn node_view(n: ControlNode) -> NodeView {
    NodeView { kind: n.kind, data: n.data@ }
}

spec fn view_nodes(s: Seq<ControlNode>) -> Seq<NodeView> {
    s.map_values(|n: ControlNode| node_view(n))
}

impl View for Ui {
    type V = UiView;

    closed spec fn view(&self) -> UiView {
        UiView {
            nodes: view_nodes(self.nodes@),
            hot: self.hot,
            repaints: self.repaints@,
        }
    }
}

/// The event that a pointer move sends to the control under the pointer.
pub open spec fn move_event(dragging: bool) -> Event {
    if dragging {
        Event::MouseDragged(MouseDraggedEvent {  })
    } else {
        Event::MouseMoved(MouseMovedEvent {  })
    }
}

/// The controls told of a move of the pointer from `old` to `new`: the one
/// that loses it and the one that gains it, none when they are the same.
pub open spec fn hot_transition_spec(old: Option<ControlId>, new: Option<ControlId>) -> (
    Option<ControlId>,
    Option<ControlId>,
) {
    if old == new {
        (None, None)
    } else {
        (old, new)
    }
}

/// Which controls a move of the pointer notifies: the control that loses the
/// pointer and the one that gains it. A move onto the control that already
/// had it notifies none.
pub fn hot_transition(old: Option<ControlId>, new: Option<ControlId>) -> (r: (
    Option<ControlId>,
    Option<ControlId>,
))
    ensures
        r == hot_transition_spec(old, new),
{
    if old == new {
        (None, None)
    } else {
        (old, new)
    }
}

/// The position of the last occurrence of `id` among the first `n` items of
/// `s`, or -1.
pub open spec fn last_pos(s: Seq<ControlId>, id: ControlId, n: int) -> int
    decreases n,
{
    if n <= 0 {
        -1
    } else if s[n - 1] == id {
        n - 1
    } else {
        last_pos(s, id, n - 1)
    }
}

/// `v` is `old` after the first `n` controls of `s` got the tab indices
/// `start`, `start + 1`, ...: a control listed more than once keeps the index
/// of its last place.
pub open spec fn tab_ordered(v: UiView, old: UiView, start: u16, s: Seq<ControlId>, n: int) -> bool {
    &&& v.nodes.len() == old.nodes.len()
    &&& v.hot == old.hot
    &&& v.repaints == old.repaints
    &&& forall|i: int|
        0 <= i < v.nodes.len() ==> #[trigger] v.nodes[i] == if last_pos(
            s,
            ControlId(i as usize),
            n,
        ) >= 0 {
            NodeView {
                data: SubControlView {
                    tab_index: (start + last_pos(s, ControlId(i as usize), n)) as u16,
                    ..old.nodes[i].data
                },
                ..old.nodes[i]
            }
        } else {
            old.nodes[i]
        }
}

/// Gives the listed controls the tab indices `start_index`,
/// `start_index + 1`, ... in list order.
pub fn set_tab_order(ui: &mut Ui, start_index: u16, controls: &[ControlId])
    requires
        forall|k: int|
            0 <= k < controls@.len() ==> old(ui)@.valid(#[trigger] controls@[k]) && !old(
                ui,
            )@.is_window(controls@[k]),
        start_index + controls@.len() <= 0x10000,
    ensures
        tab_ordered(final(ui)@, old(ui)@, start_index, controls@, controls@.len() as int),
{
    let ghost v0 = ui@;
    let count = ui.len();
    let mut k: usize = 0;
    while k < controls.len()
        invariant
            v0.nodes.len() == count,
            k <= controls@.len(),
            start_index + controls@.len() <= 0x10000,
            forall|j: int|
                0 <= j < controls@.len() ==> v0.valid(#[trigger] controls@[j]) && !v0.is_window(
                    controls@[j],
                ),
            tab_ordered(ui@, v0, start_index, controls@, k as int),
        decreases controls@.len() - k,
    {
        let c = controls[k];
        let ghost before = ui@;
        assert(!v0.is_window(controls@[k as int]));
        assert(before.nodes[c.0 as int].kind == v0.nodes[c.0 as int].kind);
        ui.set_tab_index(c, start_index + k as u16);
        proof {
            let after = ui@;
            assert forall|i: int| 0 <= i < after.nodes.len() implies #[trigger] after.nodes[i]
                == if last_pos(controls@, ControlId(i as usize), k + 1) >= 0 {
                NodeView {
                    data: SubControlView {
                        tab_index: (start_index + last_pos(
                            controls@,
                            ControlId(i as usize),
                            k + 1,
                        )) as u16,
                        ..v0.nodes[i].data
                    },
                    ..v0.nodes[i]
                }
            } else {
                v0.nodes[i]
            } by {
                assert(before.nodes[i] == if last_pos(controls@, ControlId(i as usize), k as int)
                    >= 0 {
                    NodeView {
                        data: SubControlView {
                            tab_index: (start_index + last_pos(
                                controls@,
                                ControlId(i as usize),
                                k as int,
                            )) as u16,
                            ..v0.nodes[i].data
                        },
                        ..v0.nodes[i]
                    }
                } else {
                    v0.nodes[i]
                });
                if i == c.0 as int {
                    assert(ControlId(i as usize) == c);
                    assert(last_pos(controls@, c, k + 1) == k);
                    assert(after.nodes[i].data == (SubControlView {
                        tab_index: (start_index + k) as u16,
                        ..v0.nodes[i].data
                    }));
                } else {
                    assert(ControlId(i as usize) != c);
                    assert(last_pos(controls@, ControlId(i as usize), k + 1) == last_pos(
                        controls@,
                        ControlId(i as usize),
                        k as int,
                    ));
                    assert(after.nodes[i] == before.nodes[i]);
                }
            }
        }
        k = k + 1;
    }
}

/// Hit-testing only ever yields controls that exist.
proof fn lemma_descendant_valid(v: UiView, id: ControlId, x: int, y: int, fuel: nat)
    requires
        v.well_formed(),
        v.valid(id),
    ensures
        v.descendant_at(id, x, y, fuel) matches Some(d) ==> v.valid(d),
    decreases fuel,
{
    if fuel > 0 {
        let c = v.data(id).children;
        assert(v.node_ok(v.nodes[id.0 as int]));
        lemma_first_hit_valid(v, c, x, y, 0);
        match v.child_at(id, x, y) {
            Some(h) => {
                lemma_descendant_valid(
                    v,
                    h,
                    x - v.data(h).location.x,
                    y - v.data(h).location.y,
                    (fuel - 1) as nat,
                );
            },
            None => {},
        }
    }
}

proof fn lemma_first_hit_valid(v: UiView, s: Seq<ControlId>, x: int, y: int, start: int)
    requires
        v.all_valid(s),
    ensures
        v.first_hit(s, x, y, start) matches Some(h) ==> v.valid(h),
    decreases s.len() - start,
{
    if 0 <= start < s.len() {
        assert(v.valid(s[start]));
        lemma_first_hit_valid(v, s, x, y, start + 1);
    }
}

/// Whether one control lies above another depends on parent links alone.
proof fn lemma_above_ignores_children(v: UiView, w: UiView, a: ControlId, c: ControlId, fuel: nat)
    requires
        v.nodes.len() == w.nodes.len(),
        forall|i: int| 0 <= i < v.nodes.len() ==> (#[trigger] w.nodes[i]).data.parent == v.nodes[i].data.parent,
        v.valid(c),
        v.well_formed(),
    ensures
        w.above(a, c, fuel) == v.above(a, c, fuel),
    decreases fuel,
{
    assert(v.node_ok(v.nodes[c.0 as int]));
    assert(w.nodes[c.0 as int].data.parent == v.nodes[c.0 as int].data.parent);
    if fuel > 0 {
        match v.data(c).parent {
            Some(p) => lemma_above_ignores_children(v, w, a, p, (fuel - 1) as nat),
            None => {},
        }
    }
}

/// Replacing one node by another whose references all exist keeps the arena
/// well formed.
proof fn lemma_replace_node(v: UiView, id: ControlId, n: NodeView)
    requires
        v.well_formed(),
        v.valid(id),
        v.node_ok(n),
    ensures
        (UiView { nodes: v.nodes.update(id.0 as int, n), ..v }).well_formed(),
{
    let w = UiView { nodes: v.nodes.update(id.0 as int, n), ..v };
    assert forall|i: int| 0 <= i < w.nodes.len() implies w.node_ok(#[trigger] w.nodes[i]) by {
        assert(v.node_ok(v.nodes[i]));
        assert(w.all_valid(w.nodes[i].data.children) == v.all_valid(w.nodes[i].data.children));
    }
    assert(w.all_valid(w.repaints) == v.all_valid(v.repaints));
}

/// Storing a node whose references all exist in place of node `id` keeps the
/// arena well formed and changes its view at `id` alone.
proof fn lemma_store_node(v: UiView, old_nodes: Seq<ControlNode>, id: ControlId, n: ControlNode)
    requires
        v.well_formed(),
        v.valid(id),
        view_nodes(old_nodes) == v.nodes,
        v.node_ok(node_view(n)),
    ensures
        view_nodes(old_nodes.update(id.0 as int, n)) == v.nodes.update(id.0 as int, node_view(n)),
        (UiView { nodes: v.nodes.update(id.0 as int, node_view(n)), ..v }).well_formed(),
{
    assert(view_nodes(old_nodes.update(id.0 as int, n)) =~= v.nodes.update(
        id.0 as int,
        node_view(n),
    ));
    lemma_replace_node(v, id, node_view(n));
}

/// Appending a name that exists to the repaint requests keeps the arena well
/// formed.
proof fn lemma_push_repaint(v: UiView, id: ControlId)
    requires
        v.well_formed(),
        v.valid(id),
    ensures
        (UiView { repaints: v.repaints.push(id), ..v }).well_formed(),
{
    let w = UiView { repaints: v.repaints.push(id), ..v };
    assert forall|k: int| 0 <= k < w.repaints.len() implies w.valid(#[trigger] w.repaints[k]) by {
        if k < v.repaints.len() {
            assert(v.valid(v.repaints[k]));
        }
    }
    assert forall|i: int| 0 <= i < w.nodes.len() implies w.node_ok(#[trigger] w.nodes[i]) by {
        assert(v.node_ok(v.nodes[i]));
    }
}

impl Ui {
    #[verifier::type_invariant]
    spec fn inv(self) -> bool {
        self@.well_formed()
    }

    pub fn new() -> (r: Ui)
        ensures
            r@.nodes.len() == 0,
            r@.hot == None::<ControlId>,
            r@.repaints.len() == 0,
    {
        let r = Ui { nodes: Vec::new(), hot: None, repaints: Vec::new() };
        assert(r@.nodes =~= Seq::empty());
        r
    }

    /// Moves the contents out, leaving an empty arena behind.
    fn take(&mut self) -> (r: Ui)
        ensures
            r == *old(self),
            final(self)@.nodes.len() == 0,
    {
        let mut taken = Ui::new();
        std::mem::swap(self, &mut taken);
        taken
    }

    /// Stores a new control, not yet registered, and returns its name.
    pub(crate) fn add_control(&mut self, kind: ControlKind, data: SubControlData) -> (id: ControlId)
        requires
            data@.children.len() == 0,
            data@.parent is None,
        ensures
            id.0 == old(self)@.nodes.len(),
            final(self)@ == (UiView {
                nodes: old(self)@.nodes.push(NodeView { kind, data: data@ }),
                ..old(self)@
            }),
    {
        let taken = self.take();
        proof {
            use_type_invariant(&taken);
        }
        let Ui { mut nodes, hot, repaints } = taken;
        let ghost v = taken@;
        let id = ControlId(nodes.len());
        nodes.push(ControlNode { kind, data });
        proof {
            let w = UiView {
                nodes: view_nodes(nodes@),
                hot,
                repaints: repaints@,
            };
            assert(w.nodes =~= v.nodes.push(NodeView { kind, data: data@ }));
            assert forall|i: int| 0 <= i < w.nodes.len() implies w.node_ok(
                #[trigger] w.nodes[i],
            ) by {
                if i < v.nodes.len() {
                    assert(v.node_ok(v.nodes[i]));
                }
            }
        }
        self.put_back(nodes, hot, repaints);
        id
    }

    /// Rebuilds the arena from parts in which node `id` now holds `data`.
    fn put_back(&mut self, nodes: Vec<ControlNode>, hot: Option<ControlId>, repaints: Vec<ControlId>)
        requires
            (UiView {
                nodes: view_nodes(nodes@),
                hot,
                repaints: repaints@,
            }).well_formed(),
        ensures
            final(self)@ == (UiView {
                nodes: view_nodes(nodes@),
                hot,
                repaints: repaints@,
            }),
    {
        *self = Ui { nodes, hot, repaints };
    }

    pub fn len(&self) -> (r: usize)
        ensures
            r == self@.nodes.len(),
    {
        self.nodes.len()
    }

    pub fn contains(&self, id: ControlId) -> (r: bool)
        ensures
            r == self@.valid(id),
    {
        id.0 < self.nodes.len()
    }

    /// Binds the children list of `id` to `id` and installs its own handler,
    /// after which children can be pushed onto it.
    pub fn register_handle(&mut self, id: ControlId) -> (r: ControlId)
        requires
            old(self)@.valid(id),
        ensures
            r == id,
            final(self)@ == old(self)@.with_data(
                id,
                SubControlView {
                    owner: Some(id),
                    handlers: old(self)@.data(id).handlers.push(
                        Handler::Own,
                    ),
                    ..old(self)@.data(id)
                },
            ),
    {
        let taken = self.take();
        proof {
            use_type_invariant(&taken);
        }
        let ghost v = taken@;
        let Ui { mut nodes, hot, repaints } = taken;
        nodes[id.0].data.register(id);
        proof {
            let n = NodeView { kind: nodes@[id.0 as int].kind, data: nodes@[id.0 as int].data@ };
            assert(view_nodes(nodes@)
                =~= v.nodes.update(id.0 as int, n));
            assert(v.node_ok(v.nodes[id.0 as int]));
            lemma_replace_node(v, id, n);
        }
        self.put_back(nodes, hot, repaints);
        id
    }

    /// Binds the children list of `id` to `id` without installing a handler.
    pub(crate) fn bind(&mut self, id: ControlId)
        requires
            old(self)@.valid(id),
        ensures
            final(self)@ == old(self)@.with_data(
                id,
                SubControlView { owner: Some(id), ..old(self)@.data(id) },
            ),
    {
        let taken = self.take();
        proof {
            use_type_invariant(&taken);
        }
        let ghost v = taken@;
        let Ui { mut nodes, hot, repaints } = taken;
        nodes[id.0].data.bind(id);
        proof {
            let n = NodeView { kind: nodes@[id.0 as int].kind, data: nodes@[id.0 as int].data@ };
            assert(view_nodes(nodes@)
                =~= v.nodes.update(id.0 as int, n));
            assert(v.node_ok(v.nodes[id.0 as int]));
            lemma_replace_node(v, id, n);
        }
        self.put_back(nodes, hot, repaints);
    }

    pub fn size(&self, id: ControlId) -> (r: Size)
        requires
            self@.valid(id),
        ensures
            r == self@.data(id).size,
    {
        self.nodes[id.0].data.size()
    }

    pub fn visibility(&self, id: ControlId) -> (r: Visibility)
        requires
            self@.valid(id),
        ensures
            r == self@.data(id).visibility(),
    {
        self.nodes[id.0].data.visibility()
    }

    /// The tab position of a control; a window has none.
    pub fn tab_index(&self, id: ControlId) -> (r: u16)
        requires
            self@.valid(id),
            !self@.is_window(id),
        ensures
            r == self@.data(id).tab_index,
    {
        self.nodes[id.0].data.tab_index()
    }

    pub fn focusable(&self, id: ControlId) -> (r: bool)
        requires
            self@.valid(id),
        ensures
            r == self@.data(id).focusable(),
    {
        self.nodes[id.0].data.focusable()
    }

    pub fn children(&self, id: ControlId) -> (r: &ChildrenVec)
        requires
            self@.valid(id),
        ensures
            r@ == self@.data(id).children,
            r.owner() == self@.data(id).owner,
    {
        self.nodes[id.0].data.children()
    }

    /// The control whose children list this control was last pushed onto.
    pub fn parent(&self, id: ControlId) -> (r: Option<ControlId>)
        requires
            self@.valid(id),
        ensures
            r == self@.data(id).parent,
    {
        self.nodes[id.0].data.parent()
    }

    pub fn event_handlers(&self, id: ControlId) -> (r: &EventHandlerVec)
        requires
            self@.valid(id),
        ensures
            r@ == self@.data(id).handlers,
    {
        self.nodes[id.0].data.event_handlers()
    }

    pub fn is_window(&self, id: ControlId) -> (r: bool)
        requires
            self@.valid(id),
        ensures
            r == self@.is_window(id),
    {
        match &self.nodes[id.0].kind {
            ControlKind::Window(_) => true,
            _ => false,
        }
    }

    pub fn is_button(&self, id: ControlId) -> (r: bool)
        requires
            self@.valid(id),
        ensures
            r == self@.is_button(id),
    {
        match &self.nodes[id.0].kind {
            ControlKind::Button => true,
            _ => false,
        }
    }

    pub fn location(&self, id: ControlId) -> (r: Point)
        requires
            self@.valid(id),
        ensures
            r == self@.data(id).location,
    {
        self.nodes[id.0].data.location()
    }

    /// Moves a control and asks for it to be repainted.
    pub fn set_location(&mut self, id: ControlId, location: Point)
        requires
            old(self)@.valid(id),
        ensures
            final(self)@ == (UiView {
                repaints: old(self)@.repaints.push(id),
                ..old(self)@.with_data(id, SubControlView { location, ..old(self)@.data(id) })
            }),
    {
        let taken = self.take();
        proof {
            use_type_invariant(&taken);
        }
        let ghost v = taken@;
        let Ui { mut nodes, hot, mut repaints } = taken;
        nodes[id.0].data.set_location(location);
        repaints.push(id);
        proof {
            let n = NodeView { kind: nodes@[id.0 as int].kind, data: nodes@[id.0 as int].data@ };
            assert(view_nodes(nodes@)
                =~= v.nodes.update(id.0 as int, n));
            assert(v.node_ok(v.nodes[id.0 as int]));
            lemma_replace_node(v, id, n);
        }
        self.put_back(nodes, hot, repaints);
    }
    /// Resizes a control and asks for it to be repainted.
    pub fn set_size(&mut self, id: ControlId, size: Size)
        requires
            old(self)@.valid(id),
        ensures
            final(self)@ == (UiView {
                repaints: old(self)@.repaints.push(id),
                ..old(self)@.with_data(id, SubControlView { size, ..old(self)@.data(id) })
            }),
    {
        let taken = self.take();
        proof {
            use_type_invariant(&taken);
        }
        let ghost v = taken@;
        let Ui { mut nodes, hot, mut repaints } = taken;
        let ghost old_nodes = nodes@;
        nodes[id.0].data.set_size(size);
        repaints.push(id);
        proof {
            assert(v.node_ok(v.nodes[id.0 as int]));
            lemma_store_node(v, old_nodes, id, nodes@[id.0 as int]);
            lemma_push_repaint(UiView { nodes: view_nodes(nodes@), ..v }, id);
        }
        self.put_back(nodes, hot, repaints);
    }

    /// Changes the visibility bits of a control and asks for it to be repainted.
    pub fn set_visibility(&mut self, id: ControlId, visibility: Visibility)
        requires
            old(self)@.valid(id),
        ensures
            final(self)@ == (UiView {
                repaints: old(self)@.repaints.push(id),
                ..old(self)@.with_data(id, SubControlView { bits: final(self)@.data(id).bits, ..old(self)@.data(id) })
            }),
            final(self)@.data(id).visibility() == visibility,
            forall|i: u64|
                i < 8 && (i < 3 || 5 <= i) ==> #[trigger] bit_of(final(self)@.data(id).bits as u64, i)
                    == bit_of(old(self)@.data(id).bits as u64, i),
            final(self)@.data(id).focusable() == old(self)@.data(id).focusable(),
            final(self)@.data(id).focused() == old(self)@.data(id).focused(),
            final(self)@.data(id).enabled() == old(self)@.data(id).enabled(),
    {
        let taken = self.take();
        proof {
            use_type_invariant(&taken);
        }
        let ghost v = taken@;
        let Ui { mut nodes, hot, mut repaints } = taken;
        let ghost old_nodes = nodes@;
        nodes[id.0].data.set_visibility(visibility);
        repaints.push(id);
        proof {
            assert(v.node_ok(v.nodes[id.0 as int]));
            lemma_store_node(v, old_nodes, id, nodes@[id.0 as int]);
            lemma_push_repaint(UiView { nodes: view_nodes(nodes@), ..v }, id);
        }
        self.put_back(nodes, hot, repaints);
    }

    /// Sets the tab position of a control other than a window.
    pub fn set_tab_index(&mut self, id: ControlId, tab_index: u16)
        requires
            old(self)@.valid(id),
            !old(self)@.is_window(id),
        ensures
            final(self)@ == old(self)@.with_data(id, SubControlView { tab_index, ..old(self)@.data(id) }),
    {
        let taken = self.take();
        proof {
            use_type_invariant(&taken);
        }
        let ghost v = taken@;
        let Ui { mut nodes, hot, repaints } = taken;
        let ghost old_nodes = nodes@;
        nodes[id.0].data.set_tab_index(tab_index);
        proof {
            assert(v.node_ok(v.nodes[id.0 as int]));
            lemma_store_node(v, old_nodes, id, nodes@[id.0 as int]);
        }
        self.put_back(nodes, hot, repaints);
    }

    /// Sets whether the control can take the focus.
    pub fn set_focusable(&mut self, id: ControlId, focusable: bool)
        requires
            old(self)@.valid(id),
        ensures
            final(self)@ == old(self)@.with_data(id, SubControlView { bits: final(self)@.data(id).bits, ..old(self)@.data(id) }),
            final(self)@.data(id).focusable() == focusable,
            forall|i: u64|
                0 < i < 8 ==> #[trigger] bit_of(final(self)@.data(id).bits as u64, i) == bit_of(
                    old(self)@.data(id).bits as u64,
                    i,
                ),
            final(self)@.data(id).focused() == old(self)@.data(id).focused(),
            final(self)@.data(id).enabled() == old(self)@.data(id).enabled(),
            final(self)@.data(id).visibility() == old(self)@.data(id).visibility(),
    {
        let taken = self.take();
        proof {
            use_type_invariant(&taken);
        }
        let ghost v = taken@;
        let Ui { mut nodes, hot, repaints } = taken;
        let ghost old_nodes = nodes@;
        nodes[id.0].data.set_focusable(focusable);
        proof {
            assert(v.node_ok(v.nodes[id.0 as int]));
            lemma_store_node(v, old_nodes, id, nodes@[id.0 as int]);
        }
        self.put_back(nodes, hot, repaints);
    }

    /// Appends an application handler to the control's list. It is the first to
    /// run in the dispatches to this control that start after this call.
    pub fn add_handler(&mut self, id: ControlId, handler: HandlerId)
        requires
            old(self)@.valid(id),
        ensures
            final(self)@ == old(self)@.with_data(id, SubControlView {
                    handlers: old(self)@.data(id).handlers.push(
                        Handler::Custom(handler),
                    ),
                    ..old(self)@.data(id)
                }),
    {
        let taken = self.take();
        proof {
            use_type_invariant(&taken);
        }
        let ghost v = taken@;
        let Ui { mut nodes, hot, repaints } = taken;
        let ghost old_nodes = nodes@;
        nodes[id.0].data.add_handler(Handler::Custom(handler));
        proof {
            assert(v.node_ok(v.nodes[id.0 as int]));
            lemma_store_node(v, old_nodes, id, nodes@[id.0 as int]);
        }
        self.put_back(nodes, hot, repaints);
    }

    /// Appends an application handler that runs for `ClickEvent`s alone.
    pub fn on_click_event(&mut self, id: ControlId, handler: HandlerId)
        requires
            old(self)@.valid(id),
        ensures
            final(self)@ == old(self)@.with_data(id, SubControlView {
                    handlers: old(self)@.data(id).handlers.push(
                        Handler::OnClick(handler),
                    ),
                    ..old(self)@.data(id)
                }),
    {
        let taken = self.take();
        proof {
            use_type_invariant(&taken);
        }
        let ghost v = taken@;
        let Ui { mut nodes, hot, repaints } = taken;
        let ghost old_nodes = nodes@;
        nodes[id.0].data.add_handler(Handler::OnClick(handler));
        proof {
            assert(v.node_ok(v.nodes[id.0 as int]));
            lemma_store_node(v, old_nodes, id, nodes@[id.0 as int]);
        }
        self.put_back(nodes, hot, repaints);
    }

    /// Empties the children list of a control. The former children keep their
    /// parent link.
    pub fn clear_children(&mut self, id: ControlId)
        requires
            old(self)@.valid(id),
        ensures
            final(self)@ == old(self)@.with_data(id, SubControlView { children: Seq::empty(), ..old(self)@.data(id) }),
    {
        let taken = self.take();
        proof {
            use_type_invariant(&taken);
        }
        let ghost v = taken@;
        let Ui { mut nodes, hot, repaints } = taken;
        let ghost old_nodes = nodes@;
        nodes[id.0].data.clear_children();
        proof {
            assert(v.node_ok(v.nodes[id.0 as int]));
            lemma_store_node(v, old_nodes, id, nodes@[id.0 as int]);
        }
        self.put_back(nodes, hot, repaints);
    }

    /// Appends `child` to the children of `parent` and makes `parent` the
    /// child's parent. The parent must be registered; a window cannot be a
    /// child; and `child` must not be `parent` or lie above it, which would
    /// close a cycle.
    pub fn push_child(&mut self, parent: ControlId, child: ControlId)
        requires
            old(self)@.valid(parent),
            old(self)@.valid(child),
            old(self)@.data(parent).owner is Some,
            !old(self)@.is_window(child),
            !old(self)@.above(child, parent, old(self)@.nodes.len()),
        ensures
            final(self)@ == old(self)@.after_push(parent, child),
    {
        let taken = self.take();
        proof {
            use_type_invariant(&taken);
        }
        let ghost v = taken@;
        let Ui { mut nodes, hot, repaints } = taken;
        let ghost old_nodes = nodes@;
        nodes[child.0].data.set_parent(Some(parent));
        let ghost mid_nodes = nodes@;
        proof {
            assert(v.node_ok(v.nodes[child.0 as int]));
            lemma_store_node(v, old_nodes, child, nodes@[child.0 as int]);
        }
        let ghost w = UiView { nodes: view_nodes(nodes@), ..v };
        nodes[parent.0].data.push_child(child);
        proof {
            let n = w.nodes[parent.0 as int];
            assert(w.node_ok(n));
            assert(w.node_ok(node_view(nodes@[parent.0 as int]))) by {
                let c = nodes@[parent.0 as int].data@.children;
                assert forall|k: int| 0 <= k < c.len() implies w.valid(#[trigger] c[k]) by {
                    if k < n.data.children.len() {
                        assert(w.valid(n.data.children[k]));
                    }
                }
            }
            lemma_store_node(w, mid_nodes, parent, nodes@[parent.0 as int]);
        }
        self.put_back(nodes, hot, repaints);
    }

    /// Makes `child` the one child of the window `window`, replacing any other.
    /// The window must not lie below `child`.
    pub fn set_child(&mut self, window: ControlId, child: ControlId)
        requires
            old(self)@.valid(window),
            old(self)@.valid(child),
            old(self)@.is_window(window),
            old(self)@.data(window).owner is Some,
            !old(self)@.is_window(child),
            !old(self)@.above(child, window, old(self)@.nodes.len()),
        ensures
            final(self)@ == old(self)@.with_data(
                window,
                SubControlView { children: Seq::empty(), ..old(self)@.data(window) },
            ).after_push(window, child),
            final(self)@.data(window).children == seq![child],
    {
        proof {
            use_type_invariant(&*self);
        }
        let ghost v0 = self@;
        self.clear_children(window);
        proof {
            assert forall|i: int| 0 <= i < v0.nodes.len() implies (#[trigger] self@.nodes[i]).data.parent
                == v0.nodes[i].data.parent by {}
            lemma_above_ignores_children(v0, self@, child, window, v0.nodes.len());
        }
        self.push_child(window, child);
        assert(self@.data(window).children =~= seq![child]);
    }

    /// Asks for a control to be repainted: appends it to the requests that the
    /// windowing layer takes.
    pub fn repaint_later(&mut self, id: ControlId)
        requires
            old(self)@.valid(id),
        ensures
            final(self)@ == (UiView { repaints: old(self)@.repaints.push(id), ..old(self)@ }),
    {
        let taken = self.take();
        proof {
            use_type_invariant(&taken);
        }
        let ghost v = taken@;
        let Ui { nodes, hot, mut repaints } = taken;
        repaints.push(id);
        proof {
            lemma_push_repaint(v, id);
        }
        self.put_back(nodes, hot, repaints);
    }

    /// Hands out the repaint requests made since the last call, oldest first.
    pub fn take_repaints(&mut self) -> (r: Vec<ControlId>)
        ensures
            r@ == old(self)@.repaints,
            final(self)@ == (UiView { repaints: Seq::empty(), ..old(self)@ }),
    {
        let taken = self.take();
        proof {
            use_type_invariant(&taken);
        }
        let ghost v = taken@;
        let Ui { nodes, hot, repaints } = taken;
        proof {
            let w = UiView { repaints: Seq::empty(), ..v };
            assert forall|i: int| 0 <= i < w.nodes.len() implies w.node_ok(#[trigger] w.nodes[i]) by {
                assert(v.node_ok(v.nodes[i]));
            }
        }
        self.put_back(nodes, hot, Vec::new());
        proof {
            assert(self@.repaints =~= Seq::<ControlId>::empty());
        }
        repaints
    }

    /// The control under the pointer, if any.
    pub fn hot_control(&self) -> (r: Option<ControlId>)
        ensures
            r == self@.hot,
    {
        self.hot
    }

    /// Records `hot` as the control under the pointer.
    pub fn set_hot(&mut self, hot: Option<ControlId>)
        requires
            hot matches Some(h) ==> old(self)@.valid(h),
        ensures
            final(self)@ == (UiView { hot, ..old(self)@ }),
    {
        let taken = self.take();
        proof {
            use_type_invariant(&taken);
        }
        let ghost v = taken@;
        let Ui { nodes, hot: _, repaints } = taken;
        proof {
            let w = UiView { hot, ..v };
            assert forall|i: int| 0 <= i < w.nodes.len() implies w.node_ok(#[trigger] w.nodes[i]) by {
                assert(v.node_ok(v.nodes[i]));
            }
        }
        self.put_back(nodes, hot, repaints);
    }

    /// What a window holds beyond the common storage; `None` for other controls.
    pub fn window_data(&self, id: ControlId) -> (r: Option<&WindowData>)
        requires
            self@.valid(id),
        ensures
            r is Some <==> self@.is_window(id),
            r matches Some(w) ==> self@.nodes[id.0 as int].kind == ControlKind::Window(*w),
    {
        match &self.nodes[id.0].kind {
            ControlKind::Window(w) => Some(w),
            _ => None,
        }
    }

    /// Sets the title of a window.
    pub fn set_text(&mut self, id: ControlId, text: &str)
        requires
            old(self)@.valid(id),
            old(self)@.is_window(id),
        ensures
            final(self)@.window_only_changed(old(self)@, id),
            final(self)@.window(id).text@ == text@,
            final(self)@.window(id).resizable == old(self)@.window(id).resizable,
            final(self)@.window(id).border_style == old(self)@.window(id).border_style,
    {
        let taken = self.take();
        proof {
            use_type_invariant(&taken);
        }
        let ghost v = taken@;
        let Ui { mut nodes, hot, repaints } = taken;
        let ghost old_nodes = nodes@;
        match &mut nodes[id.0].kind {
            ControlKind::Window(w) => {
                w.text = text.to_owned();
            },
            _ => {},
        }
        proof {
            assert(v.node_ok(v.nodes[id.0 as int]));
            lemma_store_node(v, old_nodes, id, nodes@[id.0 as int]);
        }
        self.put_back(nodes, hot, repaints);
    }

    /// Sets whether the user can resize a window.
    pub fn set_resizable(&mut self, id: ControlId, resizable: bool)
        requires
            old(self)@.valid(id),
            old(self)@.is_window(id),
        ensures
            final(self)@.window_only_changed(old(self)@, id),
            final(self)@.window(id).text == old(self)@.window(id).text,
            final(self)@.window(id).resizable == resizable,
            final(self)@.window(id).border_style == old(self)@.window(id).border_style,
    {
        let taken = self.take();
        proof {
            use_type_invariant(&taken);
        }
        let ghost v = taken@;
        let Ui { mut nodes, hot, repaints } = taken;
        let ghost old_nodes = nodes@;
        match &mut nodes[id.0].kind {
            ControlKind::Window(w) => {
                w.resizable = resizable;
            },
            _ => {},
        }
        proof {
            assert(v.node_ok(v.nodes[id.0 as int]));
            lemma_store_node(v, old_nodes, id, nodes@[id.0 as int]);
        }
        self.put_back(nodes, hot, repaints);
    }

    /// Sets the border style of a window.
    pub fn set_border_style(&mut self, id: ControlId, border_style: WindowBorderStyle)
        requires
            old(self)@.valid(id),
            old(self)@.is_window(id),
        ensures
            final(self)@.window_only_changed(old(self)@, id),
            final(self)@.window(id).text == old(self)@.window(id).text,
            final(self)@.window(id).resizable == old(self)@.window(id).resizable,
            final(self)@.window(id).border_style == border_style,
    {
        let taken = self.take();
        proof {
            use_type_invariant(&taken);
        }
        let ghost v = taken@;
        let Ui { mut nodes, hot, repaints } = taken;
        let ghost old_nodes = nodes@;
        match &mut nodes[id.0].kind {
            ControlKind::Window(w) => {
                w.border_style = border_style;
            },
            _ => {},
        }
        proof {
            assert(v.node_ok(v.nodes[id.0 as int]));
            lemma_store_node(v, old_nodes, id, nodes@[id.0 as int]);
        }
        self.put_back(nodes, hot, repaints);
    }

    /// The first child of `id`, in insertion order, whose box contains
    /// `(x, y)`, given in the coordinates of `id`. Insertion order decides
    /// between overlapping children, not painting order.
    pub fn child_at_point(&self, id: ControlId, x: i32, y: i32) -> (r: Option<ControlId>)
        requires
            self@.valid(id),
        ensures
            r == self@.child_at(id, x as int, y as int),
            r matches Some(c) ==> self@.valid(c) && self@.hits(c, x as int, y as int),
    {
        proof {
            use_type_invariant(self);
            assert(self@.node_ok(self@.nodes[id.0 as int]));
        }
        let children = self.nodes[id.0].data.children();
        let mut k: usize = 0;
        while k < children.len()
            invariant
                k <= children@.len(),
                children@ == self@.data(id).children,
                self@.all_valid(children@),
                self@.first_hit(children@, x as int, y as int, 0) == self@.first_hit(
                    children@,
                    x as int,
                    y as int,
                    k as int,
                ),
            decreases children@.len() - k,
        {
            let c = children.get(k);
            assert(self@.valid(children@[k as int]));
            let d = &self.nodes[c.0].data;
            if contains_pt(d.location(), d.size(), x, y) {
                return Some(c);
            }
            k = k + 1;
        }
        None
    }

    fn descendant_within(&self, id: ControlId, x: i32, y: i32, fuel: usize) -> (r: Option<ControlId>)
        requires
            self@.valid(id),
        ensures
            r == self@.descendant_at(id, x as int, y as int, fuel as nat),
        decreases fuel,
    {
        if fuel == 0 {
            return None;
        }
        match self.child_at_point(id, x, y) {
            None => None,
            Some(c) => {
                let loc = self.nodes[c.0].data.location();
                let size = self.nodes[c.0].data.size();
                // The child's box holds the point, so both differences lie in
                // 0..size and fit.
                let cx = x - loc.x;
                let cy = y - loc.y;
                match self.descendant_within(c, cx, cy, fuel - 1) {
                    Some(d) => Some(d),
                    None => Some(c),
                }
            },
        }
    }

    /// The deepest control below `id` that contains `(x, y)`, given in the
    /// coordinates of `id`: the point is moved into each hit child's
    /// coordinates on the way down. A tree holds no path longer than the
    /// number of controls, so that bounds the search.
    pub fn descendant_at_point(&self, id: ControlId, x: i32, y: i32) -> (r: Option<ControlId>)
        requires
            self@.valid(id),
        ensures
            r == self@.descendant_at(id, x as int, y as int, self@.nodes.len()),
    {
        self.descendant_within(id, x, y, self.nodes.len())
    }

    fn paint_into(&self, id: ControlId, fuel: usize, out: &mut Vec<PaintStep>)
        requires
            self@.valid(id),
        ensures
            final(out)@ == old(out)@ + self@.paint_seq(id, fuel as nat),
        decreases fuel,
    {
        proof {
            use_type_invariant(self);
            assert(self@.node_ok(self@.nodes[id.0 as int]));
        }
        out.push(PaintStep::Deliver(id));
        if fuel == 0 {
            proof {
                assert(out@ =~= old(out)@ + self@.paint_seq(id, fuel as nat));
            }
            return;
        }
        let children = self.nodes[id.0].data.children();
        let ghost f = (fuel - 1) as nat;
        let ghost start = out@;
        let mut k: usize = 0;
        while k < children.len()
            invariant
                0 < fuel,
                f == fuel - 1,
                k <= children@.len(),
                children@ == self@.data(id).children,
                self@.all_valid(children@),
                start == old(out)@.push(PaintStep::Deliver(id)),
                out@ == start + self@.children_paint(children@, k as nat, f),
            decreases children@.len() - k,
        {
            let c = children.get(k);
            assert(self@.valid(children@[k as int]));
            let ghost before = out@;
            out.push(PaintStep::Save);
            out.push(PaintStep::Translate(self.nodes[c.0].data.location()));
            self.paint_into(c, fuel - 1, out);
            out.push(PaintStep::Restore);
            proof {
                assert(self@.children_paint(children@, (k + 1) as nat, f) == self@.children_paint(
                    children@,
                    k as nat,
                    f,
                ) + seq![PaintStep::Save, PaintStep::Translate(self@.data(c).location)]
                    + self@.paint_seq(c, f) + seq![PaintStep::Restore]);
                assert(out@ =~= start + self@.children_paint(children@, (k + 1) as nat, f));
            }
            k = k + 1;
        }
        proof {
            assert(out@ =~= old(out)@ + self@.paint_seq(id, fuel as nat));
        }
    }

    /// The painting steps for the subtree of `id`, depth first and parents
    /// before children, each child painted within its own translated painter
    /// state. The steps are fixed when this is called: changes that handlers
    /// make to the tree while the steps are carried out show in the next
    /// painting.
    pub fn paint_steps(&self, id: ControlId) -> (r: Vec<PaintStep>)
        requires
            self@.valid(id),
        ensures
            r@ == self@.paint_seq(id, self@.nodes.len()),
    {
        let mut out: Vec<PaintStep> = Vec::new();
        self.paint_into(id, self.nodes.len(), &mut out);
        proof {
            assert(out@ =~= self@.paint_seq(id, self@.nodes.len()));
        }
        out
    }

    /// Whether `a` is `c` or lies above it through parent links.
    pub fn is_above(&self, a: ControlId, c: ControlId) -> (r: bool)
        requires
            self@.valid(c),
        ensures
            r == self@.above(a, c, self@.nodes.len()),
    {
        proof {
            use_type_invariant(self);
        }
        let mut cur = c;
        let mut fuel = self.nodes.len();
        while a.0 != cur.0 && fuel > 0
            invariant
                self@.well_formed(),
                self@.valid(cur),
                self@.above(a, c, self@.nodes.len()) == self@.above(a, cur, fuel as nat),
            decreases fuel,
        {
            proof {
                assert(self@.node_ok(self@.nodes[cur.0 as int]));
            }
            match self.nodes[cur.0].data.parent() {
                None => {
                    return false;
                },
                Some(p) => {
                    cur = p;
                    fuel = fuel - 1;
                },
            }
        }
        a.0 == cur.0
    }

    /// The window that contains `id`, found by following parent links; `None`
    /// for a control that is not attached under a window.
    pub fn window(&self, id: ControlId) -> (r: Option<Window>)
        requires
            self@.valid(id),
        ensures
            r matches Some(w) ==> self@.window_of(id, self@.nodes.len()) == Some(w.id),
            r is None ==> self@.window_of(id, self@.nodes.len()) is None,
    {
        proof {
            use_type_invariant(self);
        }
        let mut cur = id;
        let mut fuel = self.nodes.len();
        while fuel > 0
            invariant
                self@.well_formed(),
                self@.valid(cur),
                self@.window_of(id, self@.nodes.len()) == self@.window_of(cur, fuel as nat),
            decreases fuel,
        {
            if self.is_window(cur) {
                return Some(Window { id: cur });
            }
            proof {
                assert(self@.node_ok(self@.nodes[cur.0 as int]));
            }
            match self.nodes[cur.0].data.parent() {
                None => {
                    return None;
                },
                Some(p) => {
                    cur = p;
                    fuel = fuel - 1;
                },
            }
        }
        None
    }

    /// The control that receives a pointer event at `(x, y)` in `window`.
    pub fn pointer_target(&self, window: ControlId, x: i32, y: i32) -> (r: Option<ControlId>)
        requires
            self@.valid(window),
        ensures
            r == self@.pointer_target(window, x as int, y as int),
            r matches Some(t) ==> self@.valid(t),
    {
        proof {
            use_type_invariant(self);
            assert(self@.node_ok(self@.nodes[window.0 as int]));
        }
        let children = self.nodes[window.0].data.children();
        if children.len() == 0 {
            return None;
        }
        let first = children.get(0);
        assert(self@.valid(children@[0]));
        match self.descendant_at_point(first, x, y) {
            Some(d) => {
                proof {
                    lemma_descendant_valid(self@, first, x as int, y as int, self@.nodes.len());
                }
                Some(d)
            },
            None => Some(first),
        }
    }

}

/// Moving or resizing a control and then reading its location or size back
/// gives exactly the value that was set.
pub proof fn lemma_geometry_round_trip(v: UiView, id: ControlId, location: Point, size: Size)
    requires
        v.valid(id),
    ensures
        (UiView {
            repaints: v.repaints.push(id),
            ..v.with_data(id, SubControlView { location, ..v.data(id) })
        }).data(id).location == location,
        (UiView {
            repaints: v.repaints.push(id),
            ..v.with_data(id, SubControlView { size, ..v.data(id) })
        }).data(id).size == size,
{
}

/// Each change of a control's location, size or visibility adds exactly one
/// repaint request, for that control, and leaves the earlier ones alone.
pub proof fn lemma_one_repaint_per_change(v: UiView, id: ControlId, d: SubControlView)
    requires
        v.valid(id),
    ensures
        ({
            let after = UiView { repaints: v.repaints.push(id), ..v.with_data(id, d) };
            &&& after.repaints.len() == v.repaints.len() + 1
            &&& after.repaints.last() == id
            &&& after.repaints.take(v.repaints.len() as int) == v.repaints
        }),
{
    let after = UiView { repaints: v.repaints.push(id), ..v.with_data(id, d) };
    assert(after.repaints.take(v.repaints.len() as int) =~= v.repaints);
}

/// In a list without repeats, the last place of the item at place `i` is `i`.
pub proof fn lemma_last_pos_distinct(s: Seq<ControlId>, i: int, n: int)
    requires
        s.no_duplicates(),
        0 <= i < n <= s.len(),
    ensures
        last_pos(s, s[i], n) == i,
    decreases n,
{
    if n - 1 != i {
        assert(s[n - 1] != s[i]);
        lemma_last_pos_distinct(s, i, n - 1);
    }
}

/// Giving distinct controls `c0, c1, ...` tab indices from `start` on leaves
/// control `ci` with tab index `start + i`.
pub proof fn lemma_tab_order_consecutive(v: UiView, old: UiView, start: u16, s: Seq<ControlId>)
    requires
        s.no_duplicates(),
        forall|k: int| 0 <= k < s.len() ==> old.valid(#[trigger] s[k]),
        old.nodes.len() <= usize::MAX,
        tab_ordered(v, old, start, s, s.len() as int),
        start + s.len() <= 0x10000,
    ensures
        forall|i: int| 0 <= i < s.len() ==> #[trigger] v.data(s[i]).tab_index == start + i,
{
    assert forall|i: int| 0 <= i < s.len() implies #[trigger] v.data(s[i]).tab_index == start + i by {
        assert(old.valid(s[i]));
        lemma_last_pos_distinct(s, i, s.len() as int);
        let j = s[i].0 as int;
        assert(ControlId(j as usize) == s[i]);
    }
}

} // verus!
