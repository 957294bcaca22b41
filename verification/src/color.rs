use vstd::prelude::*;

verus! {

/// A pixel color as the scanner sees it: an opaque identity plus a
/// brightness key.
///
/// The transform never inspects channel structure; it only asks whether two
/// colors are equal and how their brightnesses compare. Callers therefore
/// hand in each color as a `value` (any packing of the real color, compared
/// for equality) paired with the `brightness` they assign to that value.
/// A caller that derives `brightness` from `value` by a fixed rule gets the
/// same equality on `Color` as on the underlying colors.
#[derive(Clone, Copy, PartialEq, Eq, Structural, Debug)]
pub struct Color {
    pub value: u32,
    pub brightness: u32,
}

} // verus!
