//! The data that every control holds: geometry, packed flags, tab position,
//! the ordered list of children, the back-reference to the parent and the
//! handler list.

use vstd::prelude::*;

use crate::bitfield::{bit_of, field_of, lemma_bit_round_trip, lemma_field_round_trip, with_bit, with_field, BitField};
use crate::event_vec::{EventHandlerVec, Handler};
use crate::ui::{ControlKind, Ui};
use crate::geometry::{Point, Size};

verus! {

/// Whether a control is visible or affects layout.
#[derive(Clone, Copy, Debug, PartialEq, Eq, Structural)]
pub enum Visibility {
    /// The control is painted and can be interacted with, as long as its parent
    /// is visible as well.
    Visible,
    /// The control is not painted and cannot receive focus or be interacted
    /// with, but it still takes up space in the layout.
    Invisible,
    /// The control is invisible and takes up no space in the layout.
    Gone,
}

/// The two-bit code that stores a visibility.
pub open spec fn visibility_code(v: Visibility) -> u64 {
    match v {
        Visibility::Visible => 0,
        Visibility::Invisible => 1,
        Visibility::Gone => 2,
    }
}

/// The visibility that a code below 3 stands for.
pub open spec fn visibility_of_code(c: u64) -> Visibility {
    if c == 0 {
        Visibility::Visible
    } else if c == 1 {
        Visibility::Invisible
    } else {
        Visibility::Gone
    }
}

pub fn visibility_to_u8(v: Visibility) -> (r: u8)
    ensures
        r as u64 == visibility_code(v),
{
    match v {
        Visibility::Visible => 0,
        Visibility::Invisible => 1,
        Visibility::Gone => 2,
    }
}

pub fn u8_to_visibility(v: u8) -> (r: Visibility)
    requires
        v < 3,
    ensures
        visibility_code(r) == v as u64,
        r == visibility_of_code(v as u64),
{
    if v == 0 {
        Visibility::Visible
    } else if v == 1 {
        Visibility::Invisible
    } else {
        Visibility::Gone
    }
}

/// A handle on a plain control of a `Ui`.
#[derive(Clone, Copy, Debug, PartialEq, Eq, Structural)]
pub struct SubControl {
    pub id: ControlId,
}

impl SubControl {
    /// Stores a new plain control in `ui` and registers it.
    pub fn new(ui: &mut Ui) -> (r: SubControl)
        ensures
            r.id.0 == old(ui)@.nodes.len(),
            final(ui)@ == old(ui)@.with_new_control(ControlKind::Plain, new_control_view()),
    {
        let ghost v = ui@;
        let id = ui.add_control(ControlKind::Plain, SubControlData::new());
        ui.register_handle(id);
        assert(ui@.nodes =~= v.with_new_control(ControlKind::Plain, new_control_view()).nodes);
        SubControl { id }
    }

    /// Binds the children list of a control stored in `ui` to that control and
    /// installs its own handler; after this, children can be pushed onto it.
    pub fn register_handle(ui: &mut Ui, handle: ControlId) -> (r: ControlId)
        requires
            old(ui)@.valid(handle),
        ensures
            r == handle,
            final(ui)@ == old(ui)@.with_data(
                handle,
                SubControlView {
                    owner: Some(handle),
                    handlers: old(ui)@.data(handle).handlers.push(
                        Handler::Own,
                    ),
                    ..old(ui)@.data(handle)
                },
            ),
    {
        ui.register_handle(handle)
    }

    pub fn id(&self) -> (r: ControlId)
        ensures
            r == self.id,
    {
        self.id
    }
}

/// Names a control of a `Ui`: its place in the arena.
#[derive(Clone, Copy, Debug, PartialEq, Eq, Structural)]
pub struct ControlId(pub usize);

/// A control's children in insertion order, which is painting order and the
/// order in which hit-testing tries them, with the control that owns the list.
/// The owner is bound once, when the control is registered; until then no
/// child can be pushed.
pub struct ChildrenVec {
    control: Option<ControlId>,
    vec: Vec<ControlId>,
}

impl View for ChildrenVec {
    type V = Seq<ControlId>;

    closed spec fn view(&self) -> Seq<ControlId> {
        self.vec@
    }
}

impl ChildrenVec {
    /// The control that owns the list, once bound.
    pub closed spec fn owner(&self) -> Option<ControlId> {
        self.control
    }

    pub fn new() -> (r: ChildrenVec)
        ensures
            r@ == Seq::<ControlId>::empty(),
            r.owner() == None::<ControlId>,
    {
        ChildrenVec { control: None, vec: Vec::new() }
    }

    pub fn clear(&mut self)
        ensures
            final(self)@ == Seq::<ControlId>::empty(),
            final(self).owner() == old(self).owner(),
    {
        self.vec.clear();
    }

    /// Appends a child to the list. The public way to add a child is
    /// `Ui::push_child`, which also sets the child's parent link.
    pub(crate) fn push(&mut self, child: ControlId)
        requires
            old(self).owner() is Some,
        ensures
            final(self)@ == old(self)@.push(child),
            final(self).owner() == old(self).owner(),
    {
        self.vec.push(child);
    }

    pub(crate) fn bind(&mut self, control: ControlId)
        ensures
            final(self)@ == old(self)@,
            final(self).owner() == Some(control),
    {
        self.control = Some(control);
    }

    pub fn len(&self) -> (r: usize)
        ensures
            r == self@.len(),
    {
        self.vec.len()
    }

    pub fn get(&self, i: usize) -> (r: ControlId)
        requires
            i < self@.len(),
        ensures
            r == self@[i as int],
    {
        self.vec[i]
    }

    pub fn owner_of(&self) -> (r: Option<ControlId>)
        ensures
            r == self.owner(),
    {
        self.control
    }

    pub fn as_slice(&self) -> (r: &[ControlId])
        ensures
            r@ == self@,
    {
        self.vec.as_slice()
    }
}

const FOCUSABLE_POS: u8 = 0;

const ENABLED_POS: u8 = 2;

const VISIBILITY_POS: u8 = 3;

const ELASTIC_X_POS: u8 = 5;

/// The packed flag word of a control: focusable is bit 0, focused bit 1,
/// enabled bit 2, the visibility code bits 3 and 4, elastic in x bit 5 and
/// elastic in y bit 6. The visibility bits always hold a valid code.
struct Flags {
    bits: u8,
}

impl Flags {
    #[verifier::type_invariant]
    spec fn inv(self) -> bool {
        field_of(self.bits as u64, 3, 2) < 3
    }

    closed spec fn spec_bits(self) -> u8 {
        self.bits
    }

    /// Visible and enabled, every other flag clear.
    fn initial() -> (r: Flags)
        ensures
            r.spec_bits() == 4,
            visibility_of_code(field_of(r.spec_bits() as u64, 3, 2)) == Visibility::Visible,
            bit_of(r.spec_bits() as u64, 2),
            !bit_of(r.spec_bits() as u64, 0),
            !bit_of(r.spec_bits() as u64, 1),
    {
        let code = visibility_to_u8(Visibility::Visible);
        proof {
            assert((code as u64) >> 2u64 == 0) by (bit_vector)
                requires
                    code == 0u8,
            ;
        }
        let bits: u8 = 0u8.set_bits(VISIBILITY_POS..ELASTIC_X_POS, code);
        let bits = bits.set_bit(ENABLED_POS, true);
        proof {
            assert(bits == 4u8 && field_of(4u64, 3, 2) == 0 && bit_of(4u64, 0) == false
                && bit_of(4u64, 1) == false && bit_of(4u64, 2) == true) by (bit_vector)
                requires
                    (bits as u64) == with_bit(with_field(0u64, 3, 2, 0), 2, true),
            ;
        }
        Flags { bits }
    }

    fn visibility(&self) -> (r: Visibility)
        ensures
            r == visibility_of_code(field_of(self.spec_bits() as u64, 3, 2)),
    {
        proof {
            use_type_invariant(self);
        }
        let code = self.bits.get_bits(VISIBILITY_POS..ELASTIC_X_POS);
        u8_to_visibility(code)
    }

    /// Rewrites the two visibility bits and no other.
    fn with_visibility(&self, visibility: Visibility) -> (r: Flags)
        ensures
            visibility_of_code(field_of(r.spec_bits() as u64, 3, 2)) == visibility,
            forall|i: u64|
                i < 64 && (i < 3 || 5 <= i) ==> #[trigger] bit_of(r.spec_bits() as u64, i) == bit_of(
                    self.spec_bits() as u64,
                    i,
                ),
    {
        let code = visibility_to_u8(visibility);
        proof {
            assert((code as u64) >> 2u64 == 0) by (bit_vector)
                requires
                    code < 3u8,
            ;
        }
        let bits = self.bits.set_bits(VISIBILITY_POS..ELASTIC_X_POS, code);
        proof {
            let old_bits = self.bits as u64;
            lemma_field_round_trip(old_bits, 3, 2, code as u64, 0);
            assert forall|i: u64| i < 64 && (i < 3 || 5 <= i) implies bit_of(bits as u64, i)
                == bit_of(old_bits, i) by {
                lemma_field_round_trip(old_bits, 3, 2, code as u64, i);
            }
        }
        Flags { bits }
    }

    fn get(&self, pos: u8) -> (r: bool)
        requires
            pos < 8,
        ensures
            r == bit_of(self.spec_bits() as u64, pos as u64),
    {
        self.bits.get_bit(pos)
    }

    /// Rewrites one flag bit outside the visibility code and no other bit.
    fn with(&self, pos: u8, value: bool) -> (r: Flags)
        requires
            pos < 3 || 5 <= pos < 8,
        ensures
            bit_of(r.spec_bits() as u64, pos as u64) == value,
            forall|i: u64|
                i < 64 && i != pos ==> #[trigger] bit_of(r.spec_bits() as u64, i) == bit_of(
                    self.spec_bits() as u64,
                    i,
                ),
            field_of(r.spec_bits() as u64, 3, 2) == field_of(self.spec_bits() as u64, 3, 2),
    {
        proof {
            use_type_invariant(self);
        }
        let bits = self.bits.set_bit(pos, value);
        proof {
            let old_bits = self.bits as u64;
            lemma_bit_round_trip(old_bits, pos as u64, value, 0);
            assert forall|i: u64| i < 64 && i != pos implies bit_of(bits as u64, i) == bit_of(
                old_bits,
                i,
            ) by {
                lemma_bit_round_trip(old_bits, pos as u64, value, i);
            }
            let p = pos as u64;
            assert(field_of(bits as u64, 3, 2) == field_of(old_bits, 3, 2)) by (bit_vector)
                requires
                    bits as u64 == with_bit(old_bits, p, value),
                    p < 3 || 5 <= p < 8,
            ;
        }
        Flags { bits }
    }
}

/// What a control's storage holds, as plain values.
pub struct SubControlView {
    pub location: Point,
    pub size: Size,
    pub children: Seq<ControlId>,
    /// The control that the children list is bound to, once registered.
    pub owner: Option<ControlId>,
    pub parent: Option<ControlId>,
    pub handlers: Seq<Handler>,
    pub tab_index: u16,
    pub bits: u8,
}

impl SubControlView {
    pub open spec fn visibility(self) -> Visibility {
        visibility_of_code(field_of(self.bits as u64, 3, 2))
    }

    pub open spec fn focusable(self) -> bool {
        bit_of(self.bits as u64, 0)
    }

    pub open spec fn focused(self) -> bool {
        bit_of(self.bits as u64, 1)
    }

    pub open spec fn enabled(self) -> bool {
        bit_of(self.bits as u64, 2)
    }
}

/// The storage of a new control: at the origin, 50 by 50, visible and
/// enabled, with tab index 0, no parent, no children and no handler, and its
/// children list not bound yet.
pub open spec fn new_control_view() -> SubControlView {
    SubControlView {
        location: Point { x: 0, y: 0 },
        size: Size { width: 50, height: 50 },
        children: Seq::empty(),
        owner: None,
        parent: None,
        handlers: Seq::empty(),
        tab_index: 0,
        bits: 4,
    }
}

/// The storage that every control has.
pub struct SubControlData {
    location: Point,
    size: Size,
    children: ChildrenVec,
    parent: Option<ControlId>,
    event_handlers: EventHandlerVec,
    tab_index: u16,
    bit_fields: Flags,
}

impl View for SubControlData {
    type V = SubControlView;

    closed spec fn view(&self) -> SubControlView {
        SubControlView {
            location: self.location,
            size: self.size,
            children: self.children@,
            owner: self.children.owner(),
            parent: self.parent,
            handlers: self.event_handlers@,
            tab_index: self.tab_index,
            bits: self.bit_fields.spec_bits(),
        }
    }
}

impl SubControlData {
    /// A control at the origin, 50 by 50, visible, enabled, not focusable, with
    /// tab index 0, no parent, no children and no handler. Its children list
    /// is not bound yet.
    pub fn new() -> (r: SubControlData)
        ensures
            r@ == new_control_view(),
            r@.visibility() == Visibility::Visible,
            r@.enabled(),
            !r@.focusable(),
            !r@.focused(),
    {
        let bits = Flags::initial();
        SubControlData {
            location: Point { x: 0, y: 0 },
            size: Size { width: 50, height: 50 },
            children: ChildrenVec::new(),
            parent: None,
            event_handlers: EventHandlerVec::new(),
            tab_index: 0,
            bit_fields: bits,
        }
    }

    pub fn location(&self) -> (r: Point)
        ensures
            r == self@.location,
    {
        self.location
    }

    /// Moves the control. This asks for no repaint: `Ui::set_location` does.
    pub(crate) fn set_location(&mut self, location: Point)
        ensures
            final(self)@ == (SubControlView { location, ..old(self)@ }),
    {
        self.location = location;
    }

    pub fn size(&self) -> (r: Size)
        ensures
            r == self@.size,
    {
        self.size
    }

    /// Resizes the control. This asks for no repaint: `Ui::set_size` does.
    pub(crate) fn set_size(&mut self, size: Size)
        ensures
            final(self)@ == (SubControlView { size, ..old(self)@ }),
    {
        self.size = size;
    }

    pub fn visibility(&self) -> (r: Visibility)
        ensures
            r == self@.visibility(),
    {
        self.bit_fields.visibility()
    }

    /// Rewrites the two visibility bits and no other. This asks for no
    /// repaint: `Ui::set_visibility` does.
    pub(crate) fn set_visibility(&mut self, visibility: Visibility)
        ensures
            final(self)@.visibility() == visibility,
            forall|i: u64|
                i < 8 && (i < 3 || 5 <= i) ==> #[trigger] bit_of(final(self)@.bits as u64, i)
                    == bit_of(old(self)@.bits as u64, i),
            final(self)@.focusable() == old(self)@.focusable(),
            final(self)@.focused() == old(self)@.focused(),
            final(self)@.enabled() == old(self)@.enabled(),
            final(self)@ == (SubControlView { bits: final(self)@.bits, ..old(self)@ }),
    {
        self.bit_fields = self.bit_fields.with_visibility(visibility);
    }

    pub fn tab_index(&self) -> (r: u16)
        ensures
            r == self@.tab_index,
    {
        self.tab_index
    }

    pub(crate) fn set_tab_index(&mut self, tab_index: u16)
        ensures
            final(self)@ == (SubControlView { tab_index, ..old(self)@ }),
    {
        self.tab_index = tab_index;
    }

    pub fn focusable(&self) -> (r: bool)
        ensures
            r == self@.focusable(),
    {
        self.bit_fields.get(FOCUSABLE_POS)
    }

    /// Rewrites the focusable bit and no other.
    pub fn set_focusable(&mut self, focusable: bool)
        ensures
            final(self)@.focusable() == focusable,
            forall|i: u64|
                0 < i < 8 ==> #[trigger] bit_of(final(self)@.bits as u64, i) == bit_of(
                    old(self)@.bits as u64,
                    i,
                ),
            final(self)@.focused() == old(self)@.focused(),
            final(self)@.enabled() == old(self)@.enabled(),
            final(self)@.visibility() == old(self)@.visibility(),
            final(self)@ == (SubControlView { bits: final(self)@.bits, ..old(self)@ }),
    {
        self.bit_fields = self.bit_fields.with(FOCUSABLE_POS, focusable);
    }

    pub fn event_handlers(&self) -> (r: &EventHandlerVec)
        ensures
            r@ == self@.handlers,
    {
        &self.event_handlers
    }

    pub fn children(&self) -> (r: &ChildrenVec)
        ensures
            r@ == self@.children,
            r.owner() == self@.owner,
    {
        &self.children
    }

    pub fn parent(&self) -> (r: Option<ControlId>)
        ensures
            r == self@.parent,
    {
        self.parent
    }

    pub(crate) fn set_parent(&mut self, parent: Option<ControlId>)
        ensures
            final(self)@ == (SubControlView { parent, ..old(self)@ }),
    {
        self.parent = parent;
    }

    /// Binds the children list to `control`, so that children can be pushed.
    pub(crate) fn bind(&mut self, control: ControlId)
        ensures
            final(self)@ == (SubControlView { owner: Some(control), ..old(self)@ }),
    {
        self.children.bind(control);
    }

    /// Binds the children list to `control` and installs the control's own
    /// handler, which is thus the oldest of its list.
    pub(crate) fn register(&mut self, control: ControlId)
        ensures
            final(self)@ == (SubControlView {
                owner: Some(control),
                handlers: old(self)@.handlers.push(
                    Handler::Own,
                ),
                ..old(self)@
            }),
    {
        self.children.bind(control);
        self.event_handlers.add_own();
    }

    pub(crate) fn push_child(&mut self, child: ControlId)
        requires
            old(self)@.owner is Some,
        ensures
            final(self)@ == (SubControlView { children: old(self)@.children.push(child), ..old(self)@ }),
    {
        self.children.push(child);
    }

    pub(crate) fn clear_children(&mut self)
        ensures
            final(self)@ == (SubControlView { children: Seq::empty(), ..old(self)@ }),
    {
        self.children.clear();
    }

    pub(crate) fn add_handler(&mut self, handler: Handler)
        ensures
            final(self)@ == (SubControlView {
                handlers: old(self)@.handlers.push(handler),
                ..old(self)@
            }),
    {
        self.event_handlers.add_entry(handler);
    }
}

impl Default for SubControlData {
    fn default() -> (r: SubControlData)
        ensures
            r@ == new_control_view(),
    {
        SubControlData::new()
    }
}

} // verus!
