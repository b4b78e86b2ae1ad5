//! The element tree: a closed set of element kinds, each owning its box and
//! its children, with clamped movement that carries the children along.
use crate::bounding_box::BoundingBox;
use vstd::prelude::*;
use vstd::std_specs::vec::axiom_vec_index_decreases;

verus! {

/// Display width in pixels.
pub const RES_X: i32 = 480;

/// Display height in pixels.
pub const RES_Y: i32 = 272;

/// Something that reacts to a tap.
pub trait Clickable {
    /// The action registered for a tap, if any.
    spec fn action(&self) -> Option<u32>;

    /// Taps the element; returns the registered action for the caller to run.
    fn click(&mut self) -> (r: Option<u32>)
        ensures
            r == old(self).action(),
            final(self).action() == old(self).action(),
    ;
}

/// A framed area with at most one child and an optional tap action.
pub struct Button {
    pub bounding_box: BoundingBox,
    pub child: Option<Box<Form>>,
    pub on_click: Option<u32>,
    pub border_width: u32,
    pub movable: bool,
}

/// A container that stacks its elements top to bottom in equal slices.
pub struct VerticalLayout {
    pub bounding_box: BoundingBox,
    /// The area this layout must stay within when dragged.
    pub outer_bounding_box: BoundingBox,
    pub elements: Vec<Form>,
    pub border_width: u32,
    pub movable: bool,
}

/// A node of the element tree.
pub enum Form {
    Button(Button),
    VerticalLayout(VerticalLayout),
}

impl Form {
    pub open spec fn bbox(self) -> BoundingBox {
        match self {
            Form::Button(b) => b.bounding_box,
            Form::VerticalLayout(l) => l.bounding_box,
        }
    }

    pub open spec fn movable(self) -> bool {
        match self {
            Form::Button(b) => b.movable,
            Form::VerticalLayout(l) => l.movable,
        }
    }

    pub open spec fn border(self) -> u32 {
        match self {
            Form::Button(b) => b.border_width,
            Form::VerticalLayout(l) => l.border_width,
        }
    }

    pub open spec fn click_action(self) -> Option<u32> {
        match self {
            Form::Button(b) => b.on_click,
            Form::VerticalLayout(l) => None,
        }
    }

    /// The box this node is clamped to when it is the drag origin.
    pub open spec fn outer_for(self, top: bool) -> Option<BoundingBox> {
        match self {
            Form::VerticalLayout(l) => if top {
                Some(l.outer_bounding_box)
            } else {
                None
            },
            Form::Button(b) => None,
        }
    }

    /// This node's own box after a move.
    pub open spec fn moved_box(self, dx: int, dy: int, top: bool) -> BoundingBox {
        self.bbox().moved(dx, dy, self.outer_for(top))
    }

    /// The node with its own box replaced and everything else kept.
    pub open spec fn with_bbox(self, bb: BoundingBox) -> Form {
        match self {
            Form::Button(b) => Form::Button(Button { bounding_box: bb, ..b }),
            Form::VerticalLayout(l) => Form::VerticalLayout(VerticalLayout { bounding_box: bb, ..l }),
        }
    }

    /// Every box in the subtree can make the move: this node by `(dx, dy)`
    /// (clamped when `top`), its descendants by the net displacement it realizes.
    pub open spec fn can_move_tree(self, dx: int, dy: int, top: bool) -> bool
        decreases self,
    {
        let m = self.moved_box(dx, dy, top);
        let nx = m.x - self.bbox().x;
        let ny = m.y - self.bbox().y;
        &&& self.bbox().wf()
        &&& self.bbox().can_move(dx, dy, self.outer_for(top))
        &&& match self {
            Form::Button(b) => match b.child {
                Some(c) => c.can_move_tree(nx, ny, false),
                None => true,
            },
            Form::VerticalLayout(l) => forall|i: int|
                0 <= i < l.elements.len() ==> (#[trigger] l.elements[i]).can_move_tree(
                    nx,
                    ny,
                    false,
                ),
        }
    }

    /// `after` is this node moved by `(dx, dy)` (clamped when `top`), with every
    /// descendant moved rigidly by the net displacement this node realized.
    pub open spec fn moved_tree(self, after: Form, dx: int, dy: int, top: bool) -> bool
        decreases self,
    {
        let m = self.moved_box(dx, dy, top);
        let nx = m.x - self.bbox().x;
        let ny = m.y - self.bbox().y;
        match self {
            Form::Button(b) => match after {
                Form::Button(a) => {
                    &&& a.bounding_box == m
                    &&& a.on_click == b.on_click
                    &&& a.border_width == b.border_width
                    &&& a.movable == b.movable
                    &&& match b.child {
                        Some(c) => match a.child {
                            Some(d) => c.moved_tree(*d, nx, ny, false),
                            None => false,
                        },
                        None => a.child is None,
                    }
                },
                _ => false,
            },
            Form::VerticalLayout(l) => match after {
                Form::VerticalLayout(a) => {
                    &&& a.bounding_box == m
                    &&& a.outer_bounding_box == l.outer_bounding_box
                    &&& a.border_width == l.border_width
                    &&& a.movable == l.movable
                    &&& a.elements.len() == l.elements.len()
                    &&& forall|i: int|
                        0 <= i < l.elements.len() ==> (#[trigger] l.elements[i]).moved_tree(
                            a.elements[i],
                            nx,
                            ny,
                            false,
                        )
                },
                _ => false,
            },
        }
    }

    pub fn get_bounding_box(&self) -> (r: &BoundingBox)
        ensures
            *r == self.bbox(),
    {
        match self {
            Form::Button(b) => &b.bounding_box,
            Form::VerticalLayout(l) => &l.bounding_box,
        }
    }

    pub fn set_bounding_box(&mut self, bounding_box: BoundingBox)
        ensures
            *final(self) == old(self).with_bbox(bounding_box),
    {
        match self {
            Form::Button(b) => {
                b.bounding_box = bounding_box;
            },
            Form::VerticalLayout(l) => {
                l.bounding_box = bounding_box;
            },
        }
    }

    pub fn is_movable(&self) -> (r: bool)
        ensures
            r == self.movable(),
    {
        match self {
            Form::Button(b) => b.movable,
            Form::VerticalLayout(l) => l.movable,
        }
    }

    /// Whether `move_form(dir_x, dir_y, top)` is representable for the whole subtree.
    pub fn can_move_form(&self, dir_x: i32, dir_y: i32, top: bool) -> (r: bool)
        ensures
            r == self.can_move_tree(dir_x as int, dir_y as int, top),
        decreases self,
    {
        match self {
            Form::Button(b) => {
                if !b.bounding_box.fits_move(dir_x, dir_y, None) {
                    return false;
                }
                let mut probe = b.bounding_box;
                let (mx, my) = probe.move_in_direction(dir_x, dir_y, None);
                match &b.child {
                    Some(c) => c.can_move_form(mx, my, false),
                    None => true,
                }
            },
            Form::VerticalLayout(l) => {
                let ob = l.outer_bounding_box;
                let outer = if top {
                    Some(&ob)
                } else {
                    None
                };
                if !l.bounding_box.fits_move(dir_x, dir_y, outer) {
                    return false;
                }
                let mut probe = l.bounding_box;
                let (mx, my) = probe.move_in_direction(dir_x, dir_y, outer);
                let n = l.elements.len();
                for i in 0..n
                    invariant
                        *self == Form::VerticalLayout(*l),
                        n == l.elements.len(),
                        mx == self.moved_box(dir_x as int, dir_y as int, top).x - self.bbox().x,
                        my == self.moved_box(dir_x as int, dir_y as int, top).y - self.bbox().y,
                        forall|k: int|
                            0 <= k < i ==> (#[trigger] l.elements[k]).can_move_tree(
                                mx as int,
                                my as int,
                                false,
                            ),
                {
                    proof {
                        axiom_vec_index_decreases(l.elements, i as int);
                    }
                    if !l.elements[i].can_move_form(mx, my, false) {
                        assert(!l.elements[i as int].can_move_tree(mx as int, my as int, false));
                        return false;
                    }
                }
                true
            },
        }
    }

    /// Moves this node and carries its descendants along rigidly. As the
    /// drag origin (`top`), a layout is clamped to its outer box.
    pub fn move_form(&mut self, dir_x: i32, dir_y: i32, top: bool)
        requires
            old(self).can_move_tree(dir_x as int, dir_y as int, top),
        ensures
            old(self).moved_tree(*final(self), dir_x as int, dir_y as int, top),
        decreases *old(self),
    {
        match self {
            Form::Button(b) => {
                let (mx, my) = b.bounding_box.move_in_direction(dir_x, dir_y, None);
                if let Some(mut c) = b.child.take() {
                    (&mut *c).move_form(mx, my, false);
                    b.child = Some(c);
                }
            },
            Form::VerticalLayout(l) => {
                let ob = l.outer_bounding_box;
                let outer = if top {
                    Some(&ob)
                } else {
                    None
                };
                let (mx, my) = l.bounding_box.move_in_direction(dir_x, dir_y, outer);
                let ghost before = l.elements@;
                let ghost before_vec = l.elements;
                assert(forall|k: int|
                    0 <= k < before.len() ==> (#[trigger] before[k]).can_move_tree(
                        mx as int,
                        my as int,
                        false,
                    )) by {
                    assert(forall|k: int|
                        0 <= k < before.len() ==> #[trigger] before[k] == before_vec[k]);
                }
                let mut remaining: Vec<Form> = Vec::new();
                std::mem::swap(&mut remaining, &mut l.elements);
                let ghost l0 = *l;
                while remaining.len() > 0
                    invariant
                        before == before_vec@,
                        match *old(self) {
                            Form::VerticalLayout(ol) => ol.elements == before_vec,
                            _ => false,
                        },
                        l.bounding_box == l0.bounding_box,
                        l.outer_bounding_box == l0.outer_bounding_box,
                        l.border_width == l0.border_width,
                        l.movable == l0.movable,
                        before.len() == l.elements@.len() + remaining@.len(),
                        forall|k: int|
                            0 <= k < remaining@.len() ==> #[trigger] remaining@[k] == before[l.elements@.len()
                                + k],
                        forall|k: int|
                            0 <= k < l.elements@.len() ==> before[k].moved_tree(
                                #[trigger] l.elements@[k],
                                mx as int,
                                my as int,
                                false,
                            ),
                        forall|k: int|
                            0 <= k < before.len() ==> (#[trigger] before[k]).can_move_tree(
                                mx as int,
                                my as int,
                                false,
                            ),
                    decreases remaining@.len(),
                {
                    let ghost done = l.elements@.len() as int;
                    let mut c = remaining.remove(0);
                    assert(c == before_vec[done]);
                    proof {
                        axiom_vec_index_decreases(before_vec, done);
                    }
                    c.move_form(mx, my, false);
                    l.elements.push(c);
                }
                assert(l.elements@.len() == before.len());
            },
        }
    }
}

impl Form {
    /// The model of the direct children.
    pub open spec fn kids(self) -> Seq<Form> {
        match self {
            Form::Button(b) => match b.child {
                Some(c) => seq![*c],
                None => seq![],
            },
            Form::VerticalLayout(l) => l.elements@,
        }
    }

    /// The direct children, in insertion order.
    pub fn get_children(&self) -> (r: Vec<&Form>)
        ensures
            r@.len() == self.kids().len(),
            forall|i: int| 0 <= i < r@.len() ==> *(#[trigger] r@[i]) == self.kids()[i],
    {
        let mut r: Vec<&Form> = Vec::new();
        match self {
            Form::Button(b) => {
                if let Some(c) = &b.child {
                    r.push(&**c);
                }
            },
            Form::VerticalLayout(l) => {
                let n = l.elements.len();
                for i in 0..n
                    invariant
                        n == l.elements@.len(),
                        r@.len() == i,
                        forall|k: int| 0 <= k < i ==> *(#[trigger] r@[k]) == l.elements@[k],
                {
                    r.push(&l.elements[i]);
                }
            },
        }
        r
    }

    pub fn get_border_width(&self) -> (r: u32)
        ensures
            r == self.border(),
    {
        match self {
            Form::Button(b) => b.border_width,
            Form::VerticalLayout(l) => l.border_width,
        }
    }

    pub fn set_border_width(&mut self, width: u32)
        ensures
            final(self).border() == width,
            final(self).bbox() == old(self).bbox(),
            final(self).movable() == old(self).movable(),
            final(self).click_action() == old(self).click_action(),
    {
        match self {
            Form::Button(b) => {
                b.border_width = width;
            },
            Form::VerticalLayout(l) => {
                l.border_width = width;
            },
        }
    }

    /// The tap action of this node, present iff one is registered.
    pub fn is_clickable(&self) -> (r: Option<u32>)
        ensures
            r == self.click_action(),
    {
        match self {
            Form::Button(b) => b.on_click,
            Form::VerticalLayout(l) => None,
        }
    }

    pub fn set_movable(&mut self, value: bool)
        ensures
            final(self).movable() == value,
            final(self).bbox() == old(self).bbox(),
            final(self).border() == old(self).border(),
            final(self).click_action() == old(self).click_action(),
    {
        match self {
            Form::Button(b) => {
                b.movable = value;
            },
            Form::VerticalLayout(l) => {
                l.movable = value;
            },
        }
    }
}

impl Button {
    /// A button with no child, no tap action, not movable.
    pub fn new(bounding_box: BoundingBox, border_width: u32) -> (r: Button)
        ensures
            r.bounding_box == bounding_box,
            r.child is None,
            r.on_click is None,
            r.border_width == border_width,
            !r.movable,
    {
        Button { bounding_box, child: None, on_click: None, border_width, movable: false }
    }

    pub fn set_action_on_click(&mut self, action: u32)
        ensures
            *final(self) == (Button { on_click: Some(action), ..*old(self) }),
    {
        self.on_click = Some(action);
    }

    pub fn set_child(&mut self, child: Box<Form>)
        ensures
            *final(self) == (Button { child: Some(child), ..*old(self) }),
    {
        self.child = Some(child);
    }
}

impl Clickable for Button {
    open spec fn action(&self) -> Option<u32> {
        self.on_click
    }

    fn click(&mut self) -> (r: Option<u32>) {
        self.on_click
    }
}

/// The slot of element `i` of `n` stacked in `area`: full width, an equal
/// share of the height (truncated), top to bottom.
pub open spec fn slot(area: BoundingBox, i: int, n: int) -> BoundingBox {
    BoundingBox {
        x: area.x,
        y: (area.y + i * (area.height as int / n)) as i32,
        width: area.width,
        height: (area.height as int / n) as i32,
    }
}

impl VerticalLayout {
    /// An empty layout confined to the display, not movable.
    pub fn new(bounding_box: BoundingBox) -> (r: VerticalLayout)
        ensures
            r.bounding_box == bounding_box,
            r.outer_bounding_box == (BoundingBox { x: 0, y: 0, width: RES_X, height: RES_Y }),
            r.elements@.len() == 0,
            r.border_width == 0,
            !r.movable,
    {
        VerticalLayout {
            bounding_box,
            outer_bounding_box: BoundingBox { x: 0, y: 0, width: RES_X, height: RES_Y },
            elements: Vec::new(),
            border_width: 0,
            movable: false,
        }
    }

    pub fn set_outer_bounding_box(&mut self, bounding_box: BoundingBox)
        ensures
            *final(self) == (VerticalLayout { outer_bounding_box: bounding_box, ..*old(self) }),
    {
        self.outer_bounding_box = bounding_box;
    }

    /// Appends `f` and lays out all elements again in equal horizontal slices.
    pub fn add_form(&mut self, f: Form) -> (r: bool)
        requires
            old(self).bounding_box.wf(),
            old(self).elements@.len() < i32::MAX,
        ensures
            r,
            final(self).bounding_box == old(self).bounding_box,
            final(self).outer_bounding_box == old(self).outer_bounding_box,
            final(self).border_width == old(self).border_width,
            final(self).movable == old(self).movable,
            final(self).elements@.len() == old(self).elements@.len() + 1,
            forall|i: int|
                0 <= i < final(self).elements@.len() ==> #[trigger] final(self).elements@[i] == old(
                    self,
                ).elements@.push(f)[i].with_bbox(
                    slot(old(self).bounding_box, i, final(self).elements@.len() as int),
                ),
    {
        self.elements.push(f);
        let ghost all = self.elements@;
        let len = self.elements.len() as i32;
        let el_height = self.bounding_box.height / len;
        let area = self.bounding_box;
        proof {
            vstd::arithmetic::div_mod::lemma_fundamental_div_mod(area.height as int, len as int);
        }
        let mut remaining: Vec<Form> = Vec::new();
        std::mem::swap(&mut remaining, &mut self.elements);
        let mut n: i32 = 0;
        while remaining.len() > 0
            invariant
                self.bounding_box == area,
                self.outer_bounding_box == old(self).outer_bounding_box,
                self.border_width == old(self).border_width,
                self.movable == old(self).movable,
                area.wf(),
                len == all.len(),
                all == old(self).elements@.push(f),
                el_height == area.height / len,
                el_height * len <= area.height,
                el_height >= 0,
                n == self.elements@.len(),
                all.len() == self.elements@.len() + remaining@.len(),
                forall|k: int| 0 <= k < remaining@.len() ==> #[trigger] remaining@[k] == all[n + k],
                forall|k: int|
                    0 <= k < self.elements@.len() ==> #[trigger] self.elements@[k] == all[k].with_bbox(
                        slot(area, k, len as int),
                    ),
            decreases remaining@.len(),
        {
            let mut c = remaining.remove(0);
            assert(n * el_height <= area.height) by (nonlinear_arith)
                requires
                    0 <= n < len,
                    el_height >= 0,
                    el_height * len <= area.height,
            ;
            let bb = BoundingBox {
                x: area.x,
                y: area.y + n * el_height,
                width: area.width,
                height: el_height,
            };
            c.set_bounding_box(bb);
            self.elements.push(c);
            n = n + 1;
        }
        true
    }
}

} // verus!
