use vstd::prelude::*;

verus! {

/// Area of a rectangle given as `(x, y, width, height)`.
pub fn calculate_area(rect: (u32, u32, u32, u32)) -> (area: u32)
    requires
        rect.2 * rect.3 <= u32::MAX,
    ensures
        area == rect.2 * rect.3,
{
    rect.2 * rect.3
}

} // verus!
