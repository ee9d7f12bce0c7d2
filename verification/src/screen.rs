//! Colours for a display that shows a processor as a grid of cells: two
//! gradients over the cell's column and row.

use vstd::prelude::*;

verus! {

/// A colour of twenty-four bits.
#[derive(Debug, Clone, Copy, PartialEq, Eq, Structural)]
pub struct Rgb {
    pub r: u8,
    pub g: u8,
    pub b: u8,
}

/// Whether `(x, y)` is a cell of a grid of `x_max` columns and `y_max`
/// rows that is small enough for the gradients: a column and two rows
/// together stay within a byte.
pub open spec fn cell_in_grid(x: u8, y: u8, x_max: u8, y_max: u8) -> bool {
    x < x_max && y < y_max && x_max + 2 * y_max <= 255
}

/// `count` steps of a gradient that goes through `range` in `limit`
/// steps, each step rounded down to a whole number.
pub open spec fn shade(count: int, limit: int, range: int) -> int {
    count * (range / limit)
}

/// `count` steps of `range / limit` stay within `range`, where `count` is
/// at most `limit`; and below it, where `count` is less and a step is not
/// zero.
proof fn lemma_steps(count: int, limit: int, range: int)
    requires
        0 <= count <= limit,
        0 < limit,
        0 <= range,
    ensures
        0 <= count * (range / limit) <= range,
        count < limit && range >= limit ==> count * (range / limit) < range,
{
    let step = range / limit;
    assert(0 <= step && step * limit <= range && range < (step + 1) * limit)
        by (nonlinear_arith)
        requires
            step == range / limit,
            0 < limit,
            0 <= range,
    ;
    assert(0 <= count * step <= limit * step) by (nonlinear_arith)
        requires
            0 <= count <= limit,
            0 <= step,
    ;
    if count < limit && range >= limit {
        assert(1 <= step) by (nonlinear_arith)
            requires
                range < (step + 1) * limit,
                range >= limit,
                0 < limit,
        ;
        assert(count * step <= limit * step - step) by (nonlinear_arith)
            requires
                0 <= count <= limit - 1,
                0 <= step,
        ;
    }
}

/// The colour of the sign in cell `(x, y)`: red grows with the column,
/// green with the row, blue with both.
pub fn front_color(x: u8, y: u8, x_max: u8, y_max: u8) -> (color: Rgb)
    requires
        cell_in_grid(x, y, x_max, y_max),
    ensures
        color.r == shade(x as int, x_max as int, 255),
        color.g == shade(y as int, y_max as int, 255),
        color.b == shade(x + 2 * y, x_max + 2 * y_max, 255),
{
    proof {
        lemma_steps(x as int, x_max as int, 255);
        lemma_steps(y as int, y_max as int, 255);
        lemma_steps(x + 2 * y, x_max + 2 * y_max, 255);
    }
    Rgb {
        r: x * (255 / x_max),
        g: y * (255 / y_max),
        b: (x + 2 * y) * (255 / (x_max + 2 * y_max)),
    }
}

/// The colour behind the sign in cell `(x, y)`: a gradient that runs
/// across that of the sign.
pub fn back_color(x: u8, y: u8, x_max: u8, y_max: u8) -> (color: Rgb)
    requires
        cell_in_grid(x, y, x_max, y_max),
    ensures
        color.r == 128 + shade(2 * y_max + x - 2 * y, x_max + 2 * y_max, 128),
        color.g == 255 - shade(y as int, y_max as int, 255),
        color.b == 255 - shade(x as int, x_max as int, 255),
{
    proof {
        lemma_steps(x as int, x_max as int, 255);
        lemma_steps(y as int, y_max as int, 255);
        lemma_steps(2 * y_max + x - 2 * y, x_max + 2 * y_max, 128);
        if x_max + 2 * y_max > 128 {
            assert(128int / (x_max + 2 * y_max) == 0) by (nonlinear_arith)
                requires
                    128 < x_max + 2 * y_max,
            ;
        }
    }
    Rgb {
        r: 128 + (2 * y_max + x - 2 * y) * (128 / (x_max + 2 * y_max)),
        g: 255 - y * (255 / y_max),
        b: 255 - x * (255 / x_max),
    }
}

} // verus!
