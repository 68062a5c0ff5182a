//! The grid of clock faces that fills the window.
use crate::geometry::{text_color, Color, Rect};
use crate::snow::{all_wf, flake_size, start_row, SnowParticles};
use vstd::prelude::*;

verus! {

/// `r` is the integer square root of `n`: the largest number whose square is
/// at most `n`.
pub open spec fn is_floor_sqrt(n: int, r: int) -> bool {
    0 <= r && r * r <= n && n < (r + 1) * (r + 1)
}

/// The integer square root of a number that is not negative.
pub open spec fn floor_sqrt(n: int) -> int {
    choose|r: int| is_floor_sqrt(n, r)
}

proof fn lemma_floor_sqrt_unique(n: int, a: int, b: int)
    requires
        is_floor_sqrt(n, a),
        is_floor_sqrt(n, b),
    ensures
        a == b,
{
    if a < b {
        assert((a + 1) * (a + 1) <= b * b) by (nonlinear_arith)
            requires
                0 <= a + 1 <= b,
        ;
    } else if b < a {
        assert((b + 1) * (b + 1) <= a * a) by (nonlinear_arith)
            requires
                0 <= b + 1 <= a,
        ;
    }
}

proof fn lemma_floor_sqrt_exists(n: int)
    requires
        0 <= n,
    ensures
        is_floor_sqrt(n, floor_sqrt(n)),
    decreases n,
{
    if n == 0 {
        assert(is_floor_sqrt(0, 0));
    } else {
        lemma_floor_sqrt_exists(n - 1);
        let r = floor_sqrt(n - 1);
        if (r + 1) * (r + 1) <= n {
            assert((r + 2) * (r + 2) > n) by (nonlinear_arith)
                requires
                    0 <= r,
                    n - 1 < (r + 1) * (r + 1),
            ;
            assert(is_floor_sqrt(n, r + 1));
        } else {
            assert(is_floor_sqrt(n, r));
        }
    }
}

/// The rows of the grid for `n` faces: as many as the integer square root
/// of `n`.
pub open spec fn grid_rows(n: int) -> int {
    floor_sqrt(n)
}

/// The columns of the grid: enough for `n` faces in `grid_rows(n)` rows.
pub open spec fn grid_cols(n: int) -> int {
    (n + grid_rows(n) - 1) / grid_rows(n)
}

/// The largest number whose square is at most `n`.
pub fn floor_sqrt_of(n: i32) -> (r: i32)
    requires
        0 <= n,
    ensures
        is_floor_sqrt(n as int, r as int),
        r == floor_sqrt(n as int),
{
    let mut r: i64 = 0;
    loop
        invariant_except_break
            0 <= r <= 46340,
            r * r <= n,
            n <= i32::MAX,
        ensures
            0 <= r <= 46340,
            r * r <= n,
            n < (r + 1) * (r + 1),
        decreases n - r,
    {
        let next = r + 1;
        assert(next * next <= 46341 * 46341) by (nonlinear_arith)
            requires
                0 < next <= 46341,
        ;
        let square = next * next;
        if square > n as i64 {
            break;
        }
        assert(next <= next * next) by (nonlinear_arith)
            requires
                0 <= next,
        ;
        assert(next <= 46340) by (nonlinear_arith)
            requires
                0 <= next,
                next * next <= 2147483647,
        ;
        r = next;
    }
    proof {
        assert(r <= r * r) by (nonlinear_arith)
            requires
                0 <= r,
        ;
        assert(is_floor_sqrt(n as int, r as int));
        lemma_floor_sqrt_unique(n as int, r as int, floor_sqrt(n as int));
    }
    r as i32
}

/// One face of the grid: where it goes on the window, the color it starts
/// with, and its snow.
pub struct SurfaceCell {
    pub rect: Rect,
    pub fill: Color,
    pub snow: SnowParticles,
}

/// The faces can be laid out without overflow: the grid's arithmetic stays
/// within `i32`, and each face is small enough for its snow.
pub open spec fn layout_fits(corners: int, size: (u32, u32)) -> bool {
    let rows = grid_rows(corners);
    let cols = grid_cols(corners);
    let sw = (size.0 as int) / cols;
    let sh = (size.1 as int) / rows;
    &&& corners + rows <= i32::MAX
    &&& sw * (cols - 1) <= i32::MAX
    &&& sh * (rows - 1) <= i32::MAX
    &&& sw + 10 <= i32::MAX
}

/// Whether `corners` faces can be laid out on a window of the given size
/// (`layout_fits`).
pub fn can_lay_out(corners: i32, size: (u32, u32)) -> (r: bool)
    requires
        corners >= 1,
    ensures
        r == layout_fits(corners as int, size),
{
    let rows = floor_sqrt_of(corners);
    proof {
        lemma_grid_shape(corners as int, rows as int, (corners + rows - 1) / (rows as int));
    }
    let sum = corners as i64 + rows as i64;
    if sum > 2147483647 {
        return false;
    }
    let cols = (sum - 1) / rows as i64;
    let sw = size.0 as u64 / cols as u64;
    let sh = size.1 as u64 / rows as u64;
    proof {
        assert(sw * (cols - 1) <= sw * cols) by (nonlinear_arith)
            requires
                cols >= 1,
        ;
        assert(sw * cols <= size.0) by (nonlinear_arith)
            requires
                cols >= 1,
                sw == (size.0 as int) / (cols as int),
        ;
        assert(sh * (rows - 1) <= sh * rows) by (nonlinear_arith)
            requires
                rows >= 1,
        ;
        assert(sh * rows <= size.1) by (nonlinear_arith)
            requires
                rows >= 1,
                sh == (size.1 as int) / (rows as int),
        ;
    }
    sw * ((cols - 1) as u64) <= 2147483647 && sh * ((rows - 1) as u64) <= 2147483647 && sw + 10 <= 2147483647
}

/// The rectangle of face `k` in a grid of `corners` faces on a window of
/// the given size: faces are placed row by row.
pub open spec fn cell_rect(corners: int, size: (u32, u32), k: int) -> Rect {
    let cols = grid_cols(corners);
    let sw = (size.0 as int) / cols;
    let sh = (size.1 as int) / grid_rows(corners);
    Rect { x: (sw * (k % cols)) as i32, y: (sh * (k / cols)) as i32, w: sw as u32, h: sh as u32 }
}

proof fn lemma_grid_shape(n: int, rows: int, cols: int)
    requires
        n >= 1,
        is_floor_sqrt(n, rows),
        cols == (n + rows - 1) / rows,
    ensures
        rows >= 1,
        cols >= 1,
        rows * cols <= n + rows - 1,
        (rows - 1) * cols < n,
        cols <= n,
{
    assert(rows >= 1) by (nonlinear_arith)
        requires
            n >= 1,
            n < (rows + 1) * (rows + 1),
            rows >= 0,
    ;
    assert(rows * cols <= n + rows - 1) by (nonlinear_arith)
        requires
            rows >= 1,
            cols == (n + rows - 1) / rows,
    ;
    assert(cols >= 1) by (nonlinear_arith)
        requires
            rows >= 1,
            n >= 1,
            cols == (n + rows - 1) / rows,
    ;
    assert(cols <= n) by (nonlinear_arith)
        requires
            rows >= 1,
            n >= 1,
            cols == (n + rows - 1) / rows,
    ;
    assert(rows * rows <= n);
    assert((rows - 1) * cols < n) by (nonlinear_arith)
        requires
            rows >= 1,
            rows * rows <= n,
            rows * cols <= n + rows - 1,
    ;
}

/// Plans the faces of a window of the given size showing `corners` clocks:
/// as many rows as the integer square root of `corners`, as many columns as
/// it takes, every face the same size, filled with black (white when the
/// colors are reverted) and given a hundred flakes of snow.
pub fn create_surfaces(corners: i32, size: (u32, u32), revert: bool) -> (cells: Vec<SurfaceCell>)
    requires
        corners >= 1,
        layout_fits(corners as int, size),
    ensures
        cells@.len() == corners,
        forall|k: int| 0 <= k < corners ==> {
            &&& (#[trigger] cells@[k]).rect == cell_rect(corners as int, size, k)
            &&& cells@[k].fill == text_color(revert)
            &&& cells@[k].snow@.len() == 100
            &&& all_wf(cells@[k].snow@)
            &&& forall|i: int| 0 <= i < 100 ==> {
                &&& (#[trigger] cells@[k].snow@[i]).y == start_row()
                &&& cells@[k].snow@[i].window_width == cell_rect(corners as int, size, k).w + 10
                &&& cells@[k].snow@[i].window_height == cell_rect(corners as int, size, k).h as i32
                &&& cells@[k].snow@[i].size == flake_size()
            }
        },
{
    let (w, h) = size;
    let bg_color = if revert { Color { r: 0, g: 0, b: 0 } } else { Color { r: 255, g: 255, b: 255 } };
    let mut x: Vec<SurfaceCell> = Vec::new();
    let num_rows = floor_sqrt_of(corners);
    let ghost n = corners as int;
    proof {
        lemma_grid_shape(n, num_rows as int, (n + num_rows - 1) / (num_rows as int));
    }
    let num_cols = (corners + num_rows - 1) / num_rows;
    let surface_width = w / (num_cols as u32);
    let surface_height = h / (num_rows as u32);
    let mut i: i32 = 0;
    while i < num_rows
        invariant
            n == corners,
            num_rows == grid_rows(n),
            num_cols == grid_cols(n),
            num_rows >= 1,
            num_cols >= 1,
            num_rows * num_cols <= n + num_rows - 1,
            (num_rows - 1) * num_cols < n,
            layout_fits(n, size),
            w == size.0,
            h == size.1,
            surface_width == (w as int) / (num_cols as int),
            surface_height == (h as int) / (num_rows as int),
            bg_color == text_color(revert),
            0 <= i <= num_rows,
            x@.len() == if i * num_cols <= n { i * num_cols } else { n },
            forall|k: int| 0 <= k < x@.len() ==> {
                &&& (#[trigger] x@[k]).rect == cell_rect(n, size, k)
                &&& x@[k].fill == text_color(revert)
                &&& x@[k].snow@.len() == 100
                &&& all_wf(x@[k].snow@)
                &&& forall|q: int| 0 <= q < 100 ==> {
                    &&& (#[trigger] x@[k].snow@[q]).y == start_row()
                    &&& x@[k].snow@[q].window_width == cell_rect(n, size, k).w + 10
                    &&& x@[k].snow@[q].window_height == cell_rect(n, size, k).h as i32
                    &&& x@[k].snow@[q].size == flake_size()
                }
            },
        decreases num_rows - i,
    {
        proof {
            assert(i * num_cols <= (num_rows - 1) * num_cols) by (nonlinear_arith)
                requires
                    0 <= i < num_rows,
                    num_cols >= 1,
            ;
        }
        let mut j: i32 = 0;
        while j < num_cols
            invariant
                n == corners,
                num_rows == grid_rows(n),
                num_cols == grid_cols(n),
                num_rows >= 1,
                num_cols >= 1,
                num_rows * num_cols <= n + num_rows - 1,
                (num_rows - 1) * num_cols < n,
                layout_fits(n, size),
                w == size.0,
                h == size.1,
                surface_width == (w as int) / (num_cols as int),
                surface_height == (h as int) / (num_rows as int),
                bg_color == text_color(revert),
                0 <= i < num_rows,
                0 <= j <= num_cols,
                x@.len() == if i * num_cols + j <= n { i * num_cols + j } else { n },
                forall|k: int| 0 <= k < x@.len() ==> {
                    &&& (#[trigger] x@[k]).rect == cell_rect(n, size, k)
                    &&& x@[k].fill == text_color(revert)
                    &&& x@[k].snow@.len() == 100
                    &&& all_wf(x@[k].snow@)
                    &&& forall|q: int| 0 <= q < 100 ==> {
                        &&& (#[trigger] x@[k].snow@[q]).y == start_row()
                        &&& x@[k].snow@[q].window_width == cell_rect(n, size, k).w + 10
                        &&& x@[k].snow@[q].window_height == cell_rect(n, size, k).h as i32
                        &&& x@[k].snow@[q].size == flake_size()
                    }
                },
            decreases num_cols - j,
        {
            proof {
                assert(i * num_cols + j <= num_rows * num_cols) by (nonlinear_arith)
                    requires
                        0 <= i < num_rows,
                        0 <= j < num_cols,
                ;
            }
            let index = i * num_cols + j;
            if index < corners {
                proof {
                    assert((index as int) / (num_cols as int) == i && (index as int) % (num_cols as int) == j) by (nonlinear_arith)
                        requires
                            index == i * num_cols + j,
                            0 <= j < num_cols,
                            0 <= i,
                    ;
                    assert(surface_width * j <= surface_width * (num_cols - 1)) by (nonlinear_arith)
                        requires
                            0 <= j < num_cols,
                            0 <= surface_width,
                    ;
                    assert(surface_height * i <= surface_height * (num_rows - 1)) by (nonlinear_arith)
                        requires
                            0 <= i < num_rows,
                            0 <= surface_height,
                    ;
                    assert(i >= 1 ==> surface_height <= surface_height * i) by (nonlinear_arith)
                        requires
                            0 <= surface_height,
                    ;
                }
                let surface_rect = Rect {
                    x: (surface_width as i32) * j,
                    y: if i == 0 { 0 } else { (surface_height as i32) * i },
                    w: surface_width,
                    h: surface_height,
                };
                let s = SnowParticles::new(100, (surface_width, surface_height));
                x.push(SurfaceCell { rect: surface_rect, fill: bg_color, snow: s });
                assert(x@[index as int].rect == cell_rect(n, size, index as int));
            }
            j = j + 1;
        }
        proof {
            assert((i + 1) * num_cols == i * num_cols + num_cols) by (nonlinear_arith);
        }
        i = i + 1;
    }
    proof {
        assert(num_rows * num_cols >= n) by (nonlinear_arith)
            requires
                num_rows >= 1,
                num_cols == (n + num_rows - 1) / (num_rows as int),
        ;
    }
    x
}

/// The two rectangles share no pixel.
pub open spec fn rects_apart(a: Rect, b: Rect) -> bool {
    ||| a.x + a.w <= b.x
    ||| b.x + b.w <= a.x
    ||| a.y + a.h <= b.y
    ||| b.y + b.h <= a.y
}

/// The rectangle lies inside a window of the given size.
pub open spec fn rect_within(a: Rect, size: (u32, u32)) -> bool {
    &&& 0 <= a.x
    &&& 0 <= a.y
    &&& a.x + a.w <= size.0
    &&& a.y + a.h <= size.1
}

/// The faces tile the window: each face lies inside it, and no two faces
/// overlap.
pub proof fn lemma_faces_tile_window(corners: int, size: (u32, u32), k1: int, k2: int)
    requires
        corners >= 1,
        layout_fits(corners, size),
        0 <= k1 < corners,
        0 <= k2 < corners,
        k1 != k2,
    ensures
        rect_within(cell_rect(corners, size, k1), size),
        rects_apart(cell_rect(corners, size, k1), cell_rect(corners, size, k2)),
{
    lemma_floor_sqrt_exists(corners);
    let rows = grid_rows(corners);
    let cols = grid_cols(corners);
    lemma_grid_shape(corners, rows, cols);
    assert(rows * cols >= corners) by (nonlinear_arith)
        requires
            rows >= 1,
            cols == (corners + rows - 1) / rows,
    ;
    let sw = (size.0 as int) / cols;
    let sh = (size.1 as int) / rows;
    assert(0 <= sw && sw * cols <= size.0 && 0 <= sh && sh * rows <= size.1) by (nonlinear_arith)
        requires
            cols >= 1,
            rows >= 1,
            sw == (size.0 as int) / cols,
            sh == (size.1 as int) / rows,
            size.0 >= 0,
            size.1 >= 0,
    ;
    let i1 = k1 / cols;
    let j1 = k1 % cols;
    let i2 = k2 / cols;
    let j2 = k2 % cols;
    assert(0 <= i1 < rows && 0 <= j1 < cols && k1 == i1 * cols + j1) by (nonlinear_arith)
        requires
            0 <= k1 < rows * cols,
            cols >= 1,
            i1 == k1 / cols,
            j1 == k1 % cols,
    ;
    assert(0 <= i2 < rows && 0 <= j2 < cols && k2 == i2 * cols + j2) by (nonlinear_arith)
        requires
            0 <= k2 < rows * cols,
            cols >= 1,
            i2 == k2 / cols,
            j2 == k2 % cols,
    ;
    assert(0 <= sw * j1 && sw * j1 + sw <= sw * cols && 0 <= sh * i1 && sh * i1 + sh <= sh * rows) by (nonlinear_arith)
        requires
            0 <= sw,
            0 <= sh,
            0 <= j1 < cols,
            0 <= i1 < rows,
    ;
    assert(sw * j1 <= sw * (cols - 1) && sh * i1 <= sh * (rows - 1)) by (nonlinear_arith)
        requires
            0 <= sw,
            0 <= sh,
            0 <= j1 < cols,
            0 <= i1 < rows,
    ;
    assert(sw * j2 <= sw * (cols - 1) && sh * i2 <= sh * (rows - 1) && 0 <= sw * j2 && 0 <= sh * i2) by (nonlinear_arith)
        requires
            0 <= sw,
            0 <= sh,
            0 <= j2 < cols,
            0 <= i2 < rows,
    ;
    if i1 != i2 {
        assert(sh * i1 + sh <= sh * i2 || sh * i2 + sh <= sh * i1) by (nonlinear_arith)
            requires
                0 <= sh,
                i1 != i2,
        ;
    } else {
        assert(j1 != j2);
        assert(sw * j1 + sw <= sw * j2 || sw * j2 + sw <= sw * j1) by (nonlinear_arith)
            requires
                0 <= sw,
                j1 != j2,
        ;
    }
}

} // verus!
