use vstd::prelude::*;
use crate::axial::{lemma_rotation_is_linear, lemma_rotation_wraps, Axial};
use crate::hex_coord::{turn, wrap_index, HexCoord};
use crate::hex_transform::{
    lemma_after_applies_in_turn, lemma_inverse_undoes, HexTransform, Rigid,
};

verus! {

/// An ordered collection of hexes. A hex may occur in it more than once.
pub struct HexShape {
    hexes: Vec<HexCoord>,
}

impl View for HexShape {
    type V = Seq<HexCoord>;

    closed spec fn view(&self) -> Seq<HexCoord> {
        self.hexes@
    }
}

impl HexShape {
    /// Creates a shape without hexes.
    pub fn new() -> (shape: HexShape)
        ensures
            shape@ == Seq::<HexCoord>::empty(),
    {
        Self::new_from_vec(Vec::new())
    }

    /// Creates a shape of the given hexes, in their order.
    pub fn new_from_vec(hexes: Vec<HexCoord>) -> (shape: HexShape)
        ensures
            shape@ == hexes@,
    {
        HexShape { hexes }
    }

    /// Appends a hex to the shape, whether or not the shape holds it already.
    pub fn push(&mut self, coord: HexCoord)
        ensures
            final(self)@ == old(self)@.push(coord),
    {
        self.hexes.push(coord);
    }

    /// Tells whether `coord` is one of the hexes of the shape.
    pub fn contains(&self, coord: HexCoord) -> (found: bool)
        ensures
            found == self@.contains(coord),
    {
        let mut i: usize = 0;
        while i < self.hexes.len()
            invariant
                i <= self.hexes.len(),
                forall|j: int| 0 <= j < i ==> self.hexes@[j] != coord,
            decreases self.hexes.len() - i,
        {
            if self.hexes[i] == coord {
                return true;
            }
            i = i + 1;
        }
        false
    }

    /// Returns the number of hexes in the shape, reduced to 32 bits.
    pub fn len(&self) -> (n: u32)
        ensures
            n == self@.len() % 0x1_0000_0000,
    {
        let length: u64 = self.hexes.len() as u64;
        assert((length as u32) == length % 0x1_0000_0000) by (bit_vector);
        length as u32
    }

    /// Returns a view of the shape under `transform`.
    pub fn transformed<'a>(&'a self, transform: HexTransform) -> (view: HexShapeView<'a>)
        ensures
            view.shape() == self@,
            view.transform() == transform,
    {
        HexShapeView::new(self, transform)
    }

    /// Returns a view of the shape moved by `translation`.
    pub fn translated(&self, translation: HexCoord) -> (view: HexShapeView<'_>)
        ensures
            view.shape() == self@,
            view.transform().translation == translation,
            view.transform().rotation == 0,
    {
        HexShapeView::new(self, HexTransform::from_translation(translation))
    }

    /// Returns a view of the shape turned by `rotation` sixth-turns about the
    /// origin.
    pub fn rotated(&self, rotation: i32) -> (view: HexShapeView<'_>)
        ensures
            view.shape() == self@,
            view.transform().translation@ == Axial::zero(),
            view.transform().rotation == rotation,
    {
        HexShapeView::new(self, HexTransform::from_rotation(rotation))
    }

    /// Returns the hex at `index`, or `None` if the shape has no such hex.
    pub fn get(&self, index: u32) -> (hex: Option<HexCoord>)
        ensures
            hex == (if index < self@.len() {
                Some(self@[index as int])
            } else {
                None
            }),
    {
        if (index as usize) < self.hexes.len() {
            Some(self.hexes[index as usize])
        } else {
            None
        }
    }
}

impl<'a> IntoIterator for &'a HexShape {
    type Item = &'a HexCoord;

    type IntoIter = std::slice::Iter<'a, HexCoord>;

    /// Returns a walk over the hexes of the shape, in their order.
    fn into_iter(self) -> (iter: Self::IntoIter)
        ensures
            vstd::std_specs::slice::into_iter_elts(iter) == self@,
    {
        self.hexes.iter()
    }
}

/// Where the motion `t` takes each of the `cells`, in their order.
pub open spec fn moved_cells(cells: Seq<HexCoord>, t: Rigid) -> Seq<Axial> {
    cells.map_values(|c: HexCoord| t.apply(c@))
}

/// A shape seen through a transform. The view holds no hexes of its own:
/// every read applies the transform to a hex of the shape.
pub struct HexShapeView<'a> {
    shape: &'a HexShape,
    transform: HexTransform,
}

impl<'a> View for HexShapeView<'a> {
    type V = Seq<Axial>;

    /// The hexes of the shape, each where the transform takes it.
    open spec fn view(&self) -> Seq<Axial> {
        moved_cells(self.shape(), self.transform()@)
    }
}

impl<'a> HexShapeView<'a> {
    /// The hexes of the shape that the view looks at.
    pub closed spec fn shape(&self) -> Seq<HexCoord> {
        self.shape@
    }

    /// The transform through which the view looks.
    pub closed spec fn transform(&self) -> HexTransform {
        self.transform
    }

    /// Creates a view of `shape` under `transform`.
    pub fn new(shape: &'a HexShape, transform: HexTransform) -> (view: HexShapeView<'a>)
        ensures
            view.shape() == shape@,
            view.transform() == transform,
    {
        HexShapeView { shape, transform }
    }

    /// Tells whether the transform takes one of the hexes of the shape to
    /// `coord`.
    pub fn contains(&self, coord: HexCoord) -> (found: bool)
        ensures
            found == self@.contains(coord@),
    {
        // Bring `coord` back through the transform, in arithmetic that cannot
        // overflow; a hex of the shape can only be found at coordinates that
        // an `i32` holds.
        let forth: i32 = wrap_index(self.transform.rotation);
        let back: i32 = if forth == 0 {
            0
        } else {
            6 - forth
        };
        let source: (i64, i64) = turn(
            coord.q as i64 - self.transform.translation.q as i64,
            coord.r as i64 - self.transform.translation.r as i64,
            back,
        );
        let ghost t = self.transform@;
        let ghost origin = Axial { q: source.0 as int, r: source.1 as int };
        proof {
            lemma_brought_back(t, coord@, back as int);
            assert forall|c: HexCoord| t.apply(c@) == coord@ <==> c@ == origin by {
                lemma_inverse_undoes(t, c@);
                lemma_inverse_undoes(t, coord@);
            }
        }
        if source.0 < i32::MIN as i64 || source.0 > i32::MAX as i64 || source.1 < i32::MIN as i64
            || source.1 > i32::MAX as i64 {
            assert(!self@.contains(coord@)) by {
                if self@.contains(coord@) {
                    let i = choose|i: int| 0 <= i < self@.len() && self@[i] == coord@;
                    assert(t.apply(self.shape@[i]@) == coord@);
                }
            }
            false
        } else {
            let found = self.shape.contains(HexCoord::new(source.0 as i32, source.1 as i32));
            proof {
                let wanted = HexCoord { q: source.0 as i32, r: source.1 as i32 };
                if found {
                    let i = choose|i: int| 0 <= i < self.shape@.len() && self.shape@[i] == wanted;
                    assert(self@[i] == coord@);
                }
                if self@.contains(coord@) {
                    let i = choose|i: int| 0 <= i < self@.len() && self@[i] == coord@;
                    assert(t.apply(self.shape@[i]@) == coord@);
                    assert(self.shape@[i] == wanted);
                }
            }
            found
        }
    }

    /// Returns the number of hexes in the shape, reduced to 32 bits.
    pub fn len(&self) -> (n: u32)
        ensures
            n == self@.len() % 0x1_0000_0000,
    {
        self.shape.len()
    }

    /// Returns the hex at `index` where the transform takes it, or `None` if
    /// the shape has no such hex.
    pub fn get(&self, index: u32) -> (hex: Option<HexCoord>)
        requires
            index < self@.len() ==> self@[index as int].fits(),
        ensures
            match hex {
                Some(c) => index < self@.len() && c@ == self@[index as int],
                None => index >= self@.len(),
            },
    {
        match self.shape.get(index) {
            Some(coord) => Some(self.transform * coord),
            None => None,
        }
    }

    /// Returns a view of the same shape that applies `transform` on top of the
    /// transform of this view.
    pub fn transformed(&self, transform: HexTransform) -> (view: HexShapeView<'a>)
        requires
            transform@.after(self.transform()@).fits(),
        ensures
            view.shape() == self.shape(),
            view.transform()@ == transform@.after(self.transform()@),
    {
        HexShapeView::new(self.shape, transform * self.transform)
    }

    /// Returns a view of the same shape that moves by `translation` on top of
    /// the transform of this view.
    pub fn translated(&self, translation: HexCoord) -> (view: HexShapeView<'a>)
        requires
            translation@.plus(self.transform()@.translation).fits(),
        ensures
            view.shape() == self.shape(),
            view.transform()@ == (Rigid { translation: translation@, rotation: 0 }).after(
                self.transform()@,
            ),
    {
        HexShapeView::new(self.shape, self.transform.translated(translation))
    }

    /// Returns a view of the same shape that turns by `rotation` sixth-turns
    /// about the origin on top of the transform of this view.
    pub fn rotated(&self, rotation: i32) -> (view: HexShapeView<'a>)
        requires
            self.transform()@.translation.rotated(rotation as int).fits(),
        ensures
            view.shape() == self.shape(),
            view.transform()@ == (Rigid { translation: Axial::zero(), rotation: rotation as int })
                .after(self.transform()@),
    {
        HexShapeView::new(self.shape, self.transform.rotated(rotation))
    }
}

/// Turning the difference between a point and the translation of a motion
/// back by the rotation of the motion is applying the inverse motion.
proof fn lemma_brought_back(t: Rigid, c: Axial, back: int)
    requires
        back == (-t.rotation) % 6,
    ensures
        c.minus(t.translation).rotated(back) == t.inverse().apply(c),
{
    lemma_rotation_wraps(c.minus(t.translation), Axial::zero(), back, -t.rotation);
    lemma_rotation_wraps(c, Axial::zero(), back, -t.rotation);
    lemma_rotation_is_linear(c, t.translation, -t.rotation);
    lemma_rotation_is_linear(t.translation, t.translation, -t.rotation);
}

/// Reading a view gives the hexes of the shape, each where the transform
/// takes it.
pub proof fn lemma_view_is_transparent(cells: Seq<HexCoord>, t: Rigid, i: int)
    requires
        0 <= i < cells.len(),
    ensures
        moved_cells(cells, t).len() == cells.len(),
        moved_cells(cells, t)[i] == t.apply(cells[i]@),
{
}

/// A view of a view reads as the second transform applied to what the first
/// view reads.
pub proof fn lemma_views_chain(cells: Seq<HexCoord>, first: Rigid, second: Rigid, i: int)
    requires
        0 <= i < cells.len(),
    ensures
        moved_cells(cells, second.after(first))[i] == second.apply(moved_cells(cells, first)[i]),
{
    lemma_after_applies_in_turn(second, first, cells[i]@);
}

} // verus!
