//! Screen arithmetic: rectangles, colors, frame pacing and text placement.
use vstd::prelude::*;

verus! {

/// An RGB color.
#[derive(Clone, Copy, PartialEq, Eq, Structural, Debug)]
pub struct Color {
    pub r: u8,
    pub g: u8,
    pub b: u8,
}

/// A rectangle on a surface or on the window: its top left corner and its
/// size, in pixels.
#[derive(Clone, Copy, PartialEq, Eq, Structural, Debug)]
pub struct Rect {
    pub x: i32,
    pub y: i32,
    pub w: u32,
    pub h: u32,
}

/// A rectangle to fill with one color.
#[derive(Clone, Copy, PartialEq, Eq, Structural, Debug)]
pub struct FillRect {
    pub x: i32,
    pub y: i32,
    pub w: u32,
    pub h: u32,
    pub color: Color,
}

#[verifier::allow_in_spec]
pub fn white() -> Color
    returns
        (Color { r: 255, g: 255, b: 255 }),
{
    Color { r: 255, g: 255, b: 255 }
}

#[verifier::allow_in_spec]
pub fn black() -> Color
    returns
        (Color { r: 0, g: 0, b: 0 }),
{
    Color { r: 0, g: 0, b: 0 }
}

/// The color that the window and every face are cleared with: black, or
/// white when the colors are reverted.
#[verifier::allow_in_spec]
pub fn background_color(revert: bool) -> Color
    returns
        (if revert { white() } else { black() }),
{
    if revert {
        white()
    } else {
        black()
    }
}

/// The color of text and of snow: white, or black when the colors are
/// reverted.
#[verifier::allow_in_spec]
pub fn text_color(revert: bool) -> Color
    returns
        (if revert { black() } else { white() }),
{
    if revert {
        black()
    } else {
        white()
    }
}

/// Text and snow always stand out from the background they are drawn on,
/// and reverting the colors swaps the two.
pub proof fn lemma_text_stands_out(revert: bool)
    ensures
        text_color(revert) != background_color(revert),
        text_color(!revert) == background_color(revert),
        background_color(!revert) == text_color(revert),
{
}

/// Milliseconds to wait between two frames so that at most `fps` frames are
/// drawn per second; a limit that is zero or negative means no waiting.
pub fn delay_fps(fps: i32) -> (ms: u32)
    ensures
        fps <= 0 ==> ms == 0,
        fps > 0 ==> ms == 1000int / (fps as int),
{
    if fps <= 0 {
        0
    } else {
        1000 / fps as u32
    }
}

/// Where a rendered text of size `surface` is copied on a window of size
/// `window`: centered horizontally, and vertically either centered or, when
/// `y` is given, at half of `y` less the text's height.
pub fn get_middle_surface(surface: (u32, u32), window: (u32, u32), y: Option<u32>) -> (r: Rect)
    requires
        surface.0 <= window.0,
        match y {
            Some(pos) => surface.1 <= pos,
            None => surface.1 <= window.1,
        },
    ensures
        r.x == (window.0 - surface.0) / 2,
        r.y == match y {
            Some(pos) => (pos - surface.1) / 2,
            None => (window.1 - surface.1) / 2,
        },
        r.w == surface.0,
        r.h == surface.1,
{
    let (w, h) = window;
    let x = ((w - surface.0) / 2) as i32;
    match y {
        Some(pos) => Rect { x, y: ((pos - surface.1) / 2) as i32, w: surface.0, h: surface.1 },
        None => Rect { x, y: ((h - surface.1) / 2) as i32, w: surface.0, h: surface.1 },
    }
}

/// Where a rendered text is copied on the window: at `dest` with the text's
/// own size, or into `rect`.  Exactly one of the two is given.
pub fn window_target(text_size: (u32, u32), dest: Option<(i32, i32)>, rect: Option<Rect>) -> (r: Rect)
    requires
        dest is Some != rect is Some,
    ensures
        dest matches Some(d) ==> r == (Rect { x: d.0, y: d.1, w: text_size.0, h: text_size.1 }),
        rect matches Some(q) ==> r == q,
{
    match (dest, rect) {
        (Some(d), None) => Rect { x: d.0, y: d.1, w: text_size.0, h: text_size.1 },
        (_, Some(q)) => q,
        (None, None) => Rect { x: 0, y: 0, w: 0, h: 0 },
    }
}

/// Where a rendered line is blitted on a clock face: at the top left corner
/// with its own size when only a position is asked for (the position itself
/// is not used), or into `rect`.  Exactly one of the two is given.
pub fn surface_target(text_size: (u32, u32), dest: Option<(i32, i32)>, rect: Option<Rect>) -> (r: Rect)
    requires
        dest is Some != rect is Some,
    ensures
        dest is Some ==> r == (Rect { x: 0, y: 0, w: text_size.0, h: text_size.1 }),
        rect matches Some(q) ==> r == q,
{
    match (dest, rect) {
        (Some(_), None) => Rect { x: 0, y: 0, w: text_size.0, h: text_size.1 },
        (_, Some(q)) => q,
        (None, None) => Rect { x: 0, y: 0, w: 0, h: 0 },
    }
}

/// How many of the first `k` lines could be rendered.
pub open spec fn rendered_before(lines: Seq<Option<(u32, u32)>>, k: int) -> int
    decreases k,
{
    if k <= 0 {
        0
    } else {
        rendered_before(lines, k - 1) + if lines[k - 1] is Some { 1int } else { 0int }
    }
}

/// The top of a block of `count` lines of `font_height` pixels centered on
/// `y` (on 0 when no `y` is given).
pub open spec fn block_top(y: Option<i32>, count: int, font_height: int) -> int {
    let y0 = match y {
        Some(v) => v as int,
        None => 0,
    };
    y0 - (count * font_height) / 2
}

/// The rectangles of the lines of a wrapped text centered around `y` on a
/// face `surface_width` pixels wide.  `rendered[k]` is the size of line `k`
/// once rendered, or `None` when it could not be rendered: such a line gets
/// no rectangle and takes no room, though it counts in the height of the
/// block.
pub fn center_lines(y: Option<i32>, surface_width: u32, font_height: i32, rendered: &Vec<Option<(u32, u32)>>) -> (rects: Vec<Option<Rect>>)
    requires
        font_height >= 0,
        rendered@.len() <= i32::MAX,
        rendered@.len() * font_height <= i32::MAX,
        block_top(y, rendered@.len() as int, font_height as int) >= i32::MIN,
        block_top(y, rendered@.len() as int, font_height as int) + font_height * rendered_before(rendered@, rendered@.len() as int) <= i32::MAX,
        forall|k: int| 0 <= k < rendered@.len() ==> (#[trigger] rendered@[k] matches Some(s) ==> s.0 <= surface_width),
    ensures
        rects@.len() == rendered@.len(),
        forall|k: int| 0 <= k < rendered@.len() ==> (#[trigger] rects@[k]) == match rendered@[k] {
            None => None,
            Some(s) => Some(Rect {
                x: ((surface_width - s.0) / 2) as i32,
                y: (block_top(y, rendered@.len() as int, font_height as int) + font_height * rendered_before(rendered@, k)) as i32,
                w: s.0,
                h: s.1,
            }),
        },
{
    let y = match y {
        Some(s) => s,
        None => 0,
    };
    let n = rendered.len();
    let ghost top = block_top(Some(y), n as int, font_height as int);
    let h = (n as i32) * font_height;
    let mut y_centered = y - h / 2;
    let mut rects: Vec<Option<Rect>> = Vec::new();
    let mut k: usize = 0;
    while k < n
        invariant
            n == rendered@.len(),
            0 <= k <= n,
            font_height >= 0,
            top == block_top(Some(y), n as int, font_height as int),
            top + font_height * rendered_before(rendered@, n as int) <= i32::MAX,
            y_centered == top + font_height * rendered_before(rendered@, k as int),
            forall|q: int| 0 <= q < n ==> (#[trigger] rendered@[q] matches Some(s) ==> s.0 <= surface_width),
            rects@.len() == k,
            forall|q: int| 0 <= q < k ==> (#[trigger] rects@[q]) == match rendered@[q] {
                None => None,
                Some(s) => Some(Rect {
                    x: ((surface_width - s.0) / 2) as i32,
                    y: (top + font_height * rendered_before(rendered@, q)) as i32,
                    w: s.0,
                    h: s.1,
                }),
            },
        decreases n - k,
    {
        proof {
            lemma_rendered_before_monotone(rendered@, k as int + 1, n as int);
            assert(font_height * rendered_before(rendered@, k as int + 1) <= font_height * rendered_before(rendered@, n as int)) by (nonlinear_arith)
                requires
                    font_height >= 0,
                    rendered_before(rendered@, k as int + 1) <= rendered_before(rendered@, n as int),
            ;
            assert(font_height * rendered_before(rendered@, k as int + 1) == font_height * rendered_before(rendered@, k as int) + if rendered@[k as int] is Some { font_height as int } else { 0 }) by (nonlinear_arith)
                requires
                    rendered_before(rendered@, k as int + 1) == rendered_before(rendered@, k as int) + if rendered@[k as int] is Some { 1int } else { 0int },
            ;
            lemma_rendered_before_monotone(rendered@, 0, k as int);
            assert(0 <= font_height * rendered_before(rendered@, k as int)) by (nonlinear_arith)
                requires
                    font_height >= 0,
                    rendered_before(rendered@, k as int) >= 0,
            ;
        }
        match rendered[k] {
            Some(size) => {
                rects.push(Some(Rect { x: ((surface_width - size.0) / 2) as i32, y: y_centered, w: size.0, h: size.1 }));
                y_centered = y_centered + font_height;
            },
            None => {
                rects.push(None);
            },
        }
        k = k + 1;
    }
    rects
}

/// Whether `center_lines` can place these lines: every rendered line fits in
/// the face's width, and the rows stay within `i32`.
pub fn lines_fit(y: Option<i32>, surface_width: u32, font_height: i32, rendered: &Vec<Option<(u32, u32)>>) -> (r: bool)
    ensures
        r == {
            &&& font_height >= 0
            &&& rendered@.len() <= i32::MAX
            &&& rendered@.len() * font_height <= i32::MAX
            &&& block_top(y, rendered@.len() as int, font_height as int) >= i32::MIN
            &&& block_top(y, rendered@.len() as int, font_height as int) + font_height * rendered_before(rendered@, rendered@.len() as int) <= i32::MAX
            &&& forall|k: int| 0 <= k < rendered@.len() ==> (#[trigger] rendered@[k] matches Some(s) ==> s.0 <= surface_width)
        },
{
    let n = rendered.len();
    if font_height < 0 || n > 2147483647 {
        return false;
    }
    let mut count: i64 = 0;
    let mut all_fit = true;
    let mut k: usize = 0;
    while k < n
        invariant
            n == rendered@.len(),
            n <= i32::MAX,
            0 <= k <= n,
            count == rendered_before(rendered@, k as int),
            0 <= count <= k,
            all_fit == forall|q: int| 0 <= q < k ==> (#[trigger] rendered@[q] matches Some(s) ==> s.0 <= surface_width),
        decreases n - k,
    {
        match rendered[k] {
            Some(size) => {
                count = count + 1;
                if size.0 > surface_width {
                    all_fit = false;
                }
            },
            None => {},
        }
        k = k + 1;
    }
    let y0: i64 = match y {
        Some(v) => v as i64,
        None => 0,
    };
    proof {
        assert(n * font_height <= 2147483647 * 2147483647) by (nonlinear_arith)
            requires
                0 <= n <= 2147483647,
                0 <= font_height <= 2147483647,
        ;
        assert(font_height * count <= 2147483647 * 2147483647) by (nonlinear_arith)
            requires
                0 <= count <= 2147483647,
                0 <= font_height <= 2147483647,
        ;
        assert(0 <= font_height * count) by (nonlinear_arith)
            requires
                0 <= count,
                0 <= font_height,
        ;
        assert(0 <= n * font_height) by (nonlinear_arith)
            requires
                0 <= n,
                0 <= font_height,
        ;
    }
    let h = (n as i64) * (font_height as i64);
    let top = y0 - h / 2;
    let last = top + (font_height as i64) * count;
    all_fit && h <= 2147483647 && top >= -2147483648 && last <= 2147483647
}

proof fn lemma_rendered_before_monotone(lines: Seq<Option<(u32, u32)>>, a: int, b: int)
    requires
        0 <= a <= b,
    ensures
        0 <= rendered_before(lines, a) <= rendered_before(lines, b),
    decreases b,
{
    if b > a {
        lemma_rendered_before_monotone(lines, a, b - 1);
    } else if a > 0 {
        lemma_rendered_before_monotone(lines, a - 1, a - 1);
    }
}

} // verus!
