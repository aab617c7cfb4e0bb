use vstd::prelude::*;
use crate::axial::{
    lemma_rotation_composes, lemma_rotation_is_linear, lemma_rotation_preserves_distance,
    lemma_rotation_wraps, Axial,
};
use crate::hex_coord::{turn, wrap_index, HexCoord};

verus! {

/// A rigid motion of the lattice: a rotation about the origin followed by a
/// translation. It is the model of a [`HexTransform`].
pub struct Rigid {
    pub translation: Axial,
    pub rotation: int,
}

impl Rigid {
    /// The motion that leaves every point where it is.
    pub open spec fn identity() -> Rigid {
        Rigid { translation: Axial::zero(), rotation: 0 }
    }

    /// Whether the translation can be held in `i32` coordinates.
    pub open spec fn fits(self) -> bool {
        self.translation.fits()
    }

    /// Where the motion takes the point `c`.
    pub open spec fn apply(self, c: Axial) -> Axial {
        self.translation.plus(c.rotated(self.rotation))
    }

    /// The motion that performs `first` and then `self`. Its rotation is
    /// reduced to the range `0..6`.
    pub open spec fn after(self, first: Rigid) -> Rigid {
        Rigid {
            translation: self.translation.plus(first.translation.rotated(self.rotation)),
            rotation: (self.rotation + first.rotation) % 6,
        }
    }

    /// The motion that undoes `self`. Its rotation is reduced to the range
    /// `0..6`.
    pub open spec fn inverse(self) -> Rigid {
        Rigid {
            translation: self.translation.negated().rotated(-self.rotation),
            rotation: (-self.rotation) % 6,
        }
    }

    /// Whether the two act alike on every point: their translations are equal
    /// and their rotations differ by whole turns.
    pub open spec fn same_motion(self, other: Rigid) -> bool {
        self.translation == other.translation && self.rotation % 6 == other.rotation % 6
    }
}

/// A translation combined with a rotation by sixth-turns about the origin,
/// acting on hex coordinates.
#[derive(Copy, Clone, PartialEq, Eq, Structural, Hash, Debug)]
pub struct HexTransform {
    pub translation: HexCoord,
    pub rotation: i32,
}

impl View for HexTransform {
    type V = Rigid;

    open spec fn view(&self) -> Rigid {
        Rigid { translation: self.translation@, rotation: self.rotation as int }
    }
}

impl HexTransform {
    /// Returns the translation part.
    pub fn translation(&self) -> (t: HexCoord)
        ensures
            t == self.translation,
    {
        self.translation
    }

    /// Returns the number of sixth-turns, as it was given.
    pub fn rotation(&self) -> (k: i32)
        ensures
            k == self.rotation,
    {
        self.rotation
    }

    /// Creates the transform that turns by `rotation` sixth-turns about the
    /// origin and then moves by `translation`.
    pub fn new(translation: HexCoord, rotation: i32) -> (t: HexTransform)
        ensures
            t.translation == translation,
            t.rotation == rotation,
    {
        HexTransform { translation, rotation }
    }

    /// Creates the transform that only moves by `translation`.
    pub fn from_translation(translation: HexCoord) -> (t: HexTransform)
        ensures
            t.translation == translation,
            t.rotation == 0,
    {
        HexTransform { translation, rotation: 0 }
    }

    /// Creates the transform that only turns by `rotation` sixth-turns about
    /// the origin.
    pub fn from_rotation(rotation: i32) -> (t: HexTransform)
        ensures
            t.translation@ == Axial::zero(),
            t.rotation == rotation,
    {
        HexTransform { translation: HexCoord::zero(), rotation }
    }

    /// The transform that leaves every coordinate where it is.
    pub fn identity() -> (t: HexTransform)
        ensures
            t@ == Rigid::identity(),
    {
        HexTransform { translation: HexCoord::zero(), rotation: 0 }
    }

    /// Returns where the transform takes the coordinate `a`.
    pub fn apply_to(&self, a: HexCoord) -> (out: HexCoord)
        requires
            self@.apply(a@).fits(),
        ensures
            out@ == self@.apply(a@),
    {
        let turned: (i64, i64) = turn(a.q as i64, a.r as i64, self.rotation);
        HexCoord {
            q: (self.translation.q as i64 + turned.0) as i32,
            r: (self.translation.r as i64 + turned.1) as i32,
        }
    }

    /// Returns the transform that undoes this one.
    pub fn inverse(&self) -> (t: HexTransform)
        requires
            self@.inverse().fits(),
        ensures
            t@ == self@.inverse(),
    {
        let forth: i32 = wrap_index(self.rotation);
        let back: i32 = if forth == 0 {
            0
        } else {
            6 - forth
        };
        let turned: (i64, i64) = turn(
            -(self.translation.q as i64),
            -(self.translation.r as i64),
            back,
        );
        proof {
            lemma_rotation_wraps(
                self.translation@.negated(),
                Axial::zero(),
                -self.rotation,
                back as int,
            );
        }
        HexTransform {
            translation: HexCoord { q: turned.0 as i32, r: turned.1 as i32 },
            rotation: back,
        }
    }

    /// Returns the transform that performs this one and then `transform`.
    pub fn transformed(&self, transform: HexTransform) -> (t: HexTransform)
        requires
            transform@.after(self@).fits(),
        ensures
            t@ == transform@.after(self@),
    {
        transform * *self
    }

    /// Returns the transform that performs this one and then moves by
    /// `translation`.
    pub fn translated(&self, translation: HexCoord) -> (t: HexTransform)
        requires
            translation@.plus(self@.translation).fits(),
        ensures
            t@ == (Rigid { translation: translation@, rotation: 0 }).after(self@),
    {
        proof {
            reveal(Axial::rotated);
        }
        HexTransform::from_translation(translation) * *self
    }

    /// Returns the transform that performs this one and then turns by
    /// `rotation` sixth-turns about the origin.
    pub fn rotated(&self, rotation: i32) -> (t: HexTransform)
        requires
            self@.translation.rotated(rotation as int).fits(),
        ensures
            t@ == (Rigid { translation: Axial::zero(), rotation: rotation as int }).after(self@),
    {
        HexTransform::from_rotation(rotation) * *self
    }
}

impl core::ops::Mul for HexTransform {
    type Output = HexTransform;

    /// Composes two transforms: the product performs `other` first and then
    /// `self`.
    fn mul(self, other: HexTransform) -> (out: HexTransform)
        ensures
            out@ == self@.after(other@),
    {
        let turned: (i64, i64) = turn(
            other.translation.q as i64,
            other.translation.r as i64,
            self.rotation,
        );
        let total: i64 = self.rotation as i64 + other.rotation as i64;
        let wrapped: i64 = total % 6;
        HexTransform {
            translation: HexCoord {
                q: (self.translation.q as i64 + turned.0) as i32,
                r: (self.translation.r as i64 + turned.1) as i32,
            },
            rotation: (if wrapped < 0 {
                wrapped + 6
            } else {
                wrapped
            }) as i32,
        }
    }
}

impl vstd::std_specs::ops::MulSpecImpl for HexTransform {
    open spec fn obeys_mul_spec() -> bool {
        true
    }

    open spec fn mul_req(self, other: HexTransform) -> bool {
        self@.after(other@).fits()
    }

    open spec fn mul_spec(self, other: HexTransform) -> HexTransform {
        HexTransform {
            translation: HexCoord {
                q: self@.after(other@).translation.q as i32,
                r: self@.after(other@).translation.r as i32,
            },
            rotation: self@.after(other@).rotation as i32,
        }
    }
}

impl core::ops::MulAssign for HexTransform {
    /// Replaces `self` by the transform that performs `self` and then
    /// `other`.
    fn mul_assign(&mut self, other: HexTransform)
        requires
            other@.after(old(self)@).fits(),
        ensures
            final(self)@ == other@.after(old(self)@),
    {
        *self = other * *self;
    }
}

impl core::ops::Mul<HexCoord> for HexTransform {
    type Output = HexCoord;

    /// Applies the transform to a coordinate.
    fn mul(self, other: HexCoord) -> (out: HexCoord)
        ensures
            out@ == self@.apply(other@),
    {
        self.apply_to(other)
    }
}

impl vstd::std_specs::ops::MulSpecImpl<HexCoord> for HexTransform {
    open spec fn obeys_mul_spec() -> bool {
        true
    }

    open spec fn mul_req(self, other: HexCoord) -> bool {
        self@.apply(other@).fits()
    }

    open spec fn mul_spec(self, other: HexCoord) -> HexCoord {
        HexCoord { q: self@.apply(other@).q as i32, r: self@.apply(other@).r as i32 }
    }
}

impl core::ops::MulAssign<HexTransform> for HexCoord {
    /// Replaces the coordinate by where `other` takes it.
    fn mul_assign(&mut self, other: HexTransform)
        requires
            other@.apply(old(self)@).fits(),
        ensures
            final(self)@ == other@.apply(old(self)@),
    {
        *self = other * *self;
    }
}

/// Applying a composed motion is applying its two parts in turn.
pub proof fn lemma_after_applies_in_turn(second: Rigid, first: Rigid, c: Axial)
    ensures
        second.after(first).apply(c) == second.apply(first.apply(c)),
{
    let sum = second.rotation + first.rotation;
    lemma_rotation_wraps(c, Axial::zero(), sum % 6, sum);
    lemma_rotation_composes(c, first.rotation, second.rotation);
    lemma_rotation_is_linear(first.translation, c.rotated(first.rotation), second.rotation);
}

/// Composition is associative.
pub proof fn lemma_after_is_associative(third: Rigid, second: Rigid, first: Rigid)
    ensures
        third.after(second).after(first) == third.after(second.after(first)),
{
    let sum = third.rotation + second.rotation;
    lemma_rotation_wraps(first.translation, Axial::zero(), sum % 6, sum);
    lemma_rotation_composes(first.translation, second.rotation, third.rotation);
    lemma_rotation_is_linear(
        second.translation,
        first.translation.rotated(second.rotation),
        third.rotation,
    );
}

/// The identity moves nothing, and composing with it changes no motion.
pub proof fn lemma_identity_is_neutral(t: Rigid, c: Axial)
    ensures
        Rigid::identity().apply(c) == c,
        Rigid::identity().after(t).same_motion(t),
        t.after(Rigid::identity()).same_motion(t),
{
    reveal(Axial::rotated);
}

/// The inverse undoes the motion, on either side.
pub proof fn lemma_inverse_undoes(t: Rigid, c: Axial)
    ensures
        t.inverse().apply(t.apply(c)) == c,
        t.apply(t.inverse().apply(c)) == c,
        t.inverse().after(t) == Rigid::identity(),
        t.after(t.inverse()) == Rigid::identity(),
        t.inverse().inverse().same_motion(t),
{
    let k = t.rotation;
    let back = t.translation.negated().rotated(-k);
    assert(c.rotated(0) == c && t.translation.rotated(0) == t.translation
        && t.translation.negated().rotated(0) == t.translation.negated()) by {
        reveal(Axial::rotated);
    }
    // Turning by the reduced counts is turning by the counts themselves.
    lemma_rotation_wraps(t.apply(c), Axial::zero(), (-k) % 6, -k);
    lemma_rotation_wraps(c, Axial::zero(), (-k) % 6, -k);
    lemma_rotation_wraps(t.translation, Axial::zero(), (-k) % 6, -k);
    lemma_rotation_wraps(back.negated(), Axial::zero(), -((-k) % 6), k);
    // Turning forth and back again leaves a point where it is.
    lemma_rotation_composes(c, k, -k);
    lemma_rotation_composes(c, -k, k);
    lemma_rotation_composes(t.translation, k, -k);
    lemma_rotation_composes(t.translation.negated(), -k, k);
    // A turn acts on each part of a sum.
    lemma_rotation_is_linear(t.translation, c.rotated(k), -k);
    lemma_rotation_is_linear(t.translation, t.translation, -k);
    lemma_rotation_is_linear(back, c.rotated(-k), k);
    lemma_rotation_is_linear(back, back, k);
    assert(t.translation.negated().rotated(-k) == t.translation.rotated(-k).negated());
    assert(back.rotated(k) == t.translation.negated());
    assert(back.negated().rotated(k) == t.translation);
}

/// Motions that are the same act alike on every point, and motions that act
/// alike on the origin and on one of its neighbors are the same.
pub proof fn lemma_same_motion_acts_alike(a: Rigid, b: Rigid, c: Axial)
    ensures
        a.same_motion(b) ==> a.apply(c) == b.apply(c),
        a.apply(Axial::zero()) == b.apply(Axial::zero()) && a.apply(Axial::unit(3)) == b.apply(
            Axial::unit(3),
        ) ==> a.same_motion(b),
{
    reveal(Axial::rotated);
}

/// A rigid motion keeps the distance between any two points.
pub proof fn lemma_motion_preserves_distance(t: Rigid, a: Axial, b: Axial)
    ensures
        t.apply(a).distance(t.apply(b)) == a.distance(b),
{
    lemma_rotation_preserves_distance(a, b, t.rotation);
}

} // verus!
