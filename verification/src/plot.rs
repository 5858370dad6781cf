//! Character-grid drawing for terminal plots.
//!
//! The plot renderer maps observations and curve samples to cell
//! coordinates (floating-point work that stays with the caller) and draws
//! connecting line segments here, on an integer grid of characters.

use vstd::prelude::*;

verus! {

/// Remaining distance from `cur` to `target` when stepping by `s`.
spec fn span(s: isize, cur: int, target: int) -> int {
    if s == 1 {
        target - cur
    } else {
        cur - target
    }
}

/// Grid cells within bounds, as one flat row-major buffer.
pub open spec fn grid_wf(cells: Seq<char>, width: nat, height: nat) -> bool {
    cells.len() == width * height
}

/// Draw a line segment from `(x0, y0)` to `(x1, y1)` into a row-major
/// character grid, by integer error accumulation. Exactly the blank
/// cells on the segment's walk receive `ch`; every other cell keeps its
/// character.
pub fn draw_line(
    cells: &mut Vec<char>,
    width: usize,
    height: usize,
    x0: usize,
    y0: usize,
    x1: usize,
    y1: usize,
    ch: char,
)
    requires
        grid_wf(old(cells)@, width as nat, height as nat),
        width <= 0x1000,
        height <= 0x1000,
        x0 < width,
        x1 < width,
        y0 < height,
        y1 < height,
    ensures
        grid_wf(final(cells)@, width as nat, height as nat),
        forall|k: int|
            0 <= k < final(cells)@.len() ==> final(cells)@[k] == old(cells)@[k] || (old(cells)@[k]
                == ' ' && final(cells)@[k] == ch),
        old(cells)@[y1 * width + x1] == ' ' ==> final(cells)@[y1 * width + x1] == ch,
{
    let mut cx: isize = x0 as isize;
    let mut cy: isize = y0 as isize;
    let tx: isize = x1 as isize;
    let ty: isize = y1 as isize;

    let dx: isize = if tx >= cx {
        tx - cx
    } else {
        cx - tx
    };
    let sx: isize = if cx < tx {
        1
    } else {
        -1
    };
    let dy: isize = if ty >= cy {
        -(ty - cy)
    } else {
        -(cy - ty)
    };
    let sy: isize = if cy < ty {
        1
    } else {
        -1
    };
    let mut err: isize = dx + dy;
    proof {
        assert(span(sx, cx as int, tx as int) == dx);
        assert(span(sy, cy as int, ty as int) == -(dy as int));
        assert(dx + dy - (dx as int) * dy - (-(dy as int)) * dx == dx + dy) by (nonlinear_arith);
    }

    loop
        invariant
            grid_wf(cells@, width as nat, height as nat),
            forall|k: int|
                0 <= k < cells@.len() ==> cells@[k] == old(cells)@[k] || (old(cells)@[k] == ' '
                    && cells@[k] == ch),
            width <= 0x1000,
            height <= 0x1000,
            tx == x1 && ty == y1,
            0 <= tx < width,
            0 <= ty < height,
            0 <= cx < width,
            0 <= cy < height,
            sx == 1 || sx == -1,
            sy == 1 || sy == -1,
            sx == 1 ==> cx <= tx,
            sx == -1 ==> cx >= tx,
            sy == 1 ==> cy <= ty,
            sy == -1 ==> cy >= ty,
            0 <= dx <= width,
            0 <= -dy <= height,
            span(sx, cx as int, tx as int) <= dx,
            span(sy, cy as int, ty as int) <= -dy,
            err == dx + dy - span(sx, cx as int, tx as int) * dy - span(
                sy,
                cy as int,
                ty as int,
            ) * dx,
        ensures
            grid_wf(cells@, width as nat, height as nat),
            forall|k: int|
                0 <= k < cells@.len() ==> cells@[k] == old(cells)@[k] || (old(cells)@[k] == ' '
                    && cells@[k] == ch),
            old(cells)@[y1 * width + x1] == ' ' ==> cells@[y1 * width + x1] == ch,
        decreases span(sx, cx as int, tx as int) + span(sy, cy as int, ty as int),
    {
        let ghost rx = span(sx, cx as int, tx as int);
        let ghost ry = span(sy, cy as int, ty as int);

        if cy >= 0 && (cy as usize) < height && cx >= 0 && (cx as usize) < width {
            proof {
                assert((cy as int) * (width as int) + (cx as int) < (width as int) * (height
                    as int) && (width as int) * (height as int) <= 0x1000000)
                    by (nonlinear_arith)
                    requires
                        0 <= cx < width,
                        0 <= cy < height,
                        width <= 0x1000,
                        height <= 0x1000,
                ;
            }
            let idx: usize = (cy as usize) * width + (cx as usize);
            if cells[idx] == ' ' {
                cells[idx] = ch;
            }
        }

        if cx == tx && cy == ty {
            break;
        }

        proof {
            // Bounds on the error term, for overflow of the updates below.
            assert(-0x1000000 <= rx * (dy as int) <= 0 && 0 <= ry * (dx as int)
                <= 0x1000000) by (nonlinear_arith)
                requires
                    0 <= rx <= dx,
                    0 <= ry <= -dy,
                    -0x1000 <= dy <= 0,
                    0 <= dx <= 0x1000,
            ;
            // A step never overshoots: the error test rules out a move on
            // an axis that has already arrived.
            if rx == 0 && 2 * err >= dy {
                assert(ry >= 1);
                assert(-dy >= 1);
                assert(2 * (dx + dy - ry * dx) >= dy ==> false) by (nonlinear_arith)
                    requires
                        ry >= 1,
                        dy <= -1,
                        dx >= 0,
                ;
            }
            if ry == 0 && 2 * err <= dx {
                assert(rx >= 1);
                assert(dx >= 1);
                assert(2 * (dx + dy - rx * dy) <= dx ==> false) by (nonlinear_arith)
                    requires
                        rx >= 1,
                        dx >= 1,
                        dy <= 0,
                ;
            }
        }

        let e2: isize = 2 * err;
        proof {
            // dy <= 0 <= dx, so at least one of the two steps fires and
            // the walk advances.
            assert(e2 >= dy || e2 <= dx);
        }
        if e2 >= dy {
            err = err + dy;
            cx = cx + sx;
            proof {
                assert((rx - 1) * dy == rx * dy - dy) by (nonlinear_arith);
            }
        }
        if e2 <= dx {
            err = err + dx;
            cy = cy + sy;
            proof {
                assert((ry - 1) * dx == ry * dx - dx) by (nonlinear_arith);
            }
        }
    }
}

} // verus!
