use vstd::prelude::*;
use crate::board::Move;

verus! {

/// The cell under a pointer at pixel `(px, py)` of a square window
/// `window_width` pixels wide that shows a `size × size` board: each
/// coordinate divided by the cell width `window_width / size`. `None` when
/// there is no board or a cell would be narrower than one pixel.
pub fn cell_of_click(px: usize, py: usize, window_width: usize, size: usize) -> (r: Option<Move>)
    ensures
        (size == 0 || window_width / size == 0) ==> r is None,
        (size > 0 && window_width / size > 0) ==> r == Some(
            Move { x: px / (window_width / size), y: py / (window_width / size) },
        ),
{
    if size == 0 {
        return None;
    }
    let separator_width = window_width / size;
    if separator_width == 0 {
        return None;
    }
    Some(Move { x: px / separator_width, y: py / separator_width })
}

} // verus!
