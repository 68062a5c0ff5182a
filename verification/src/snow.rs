//! The snow that falls over each clock face.
use crate::geometry::{text_color, FillRect};
use crate::random::{gen_range, thread_rng};
use vstd::prelude::*;

verus! {

/// What a snowflake is, as plain numbers.
pub struct SnowflakeView {
    pub x: i32,
    pub y: i32,
    pub size: i32,
    pub window_width: i32,
    pub window_height: i32,
    pub speed: i32,
}

/// One snowflake: a square of `size` pixels at `(x, y)` that falls `speed`
/// pixels per frame and starts again above the top once it has left the
/// bottom of a window `window_height` pixels high.
#[derive(Clone, Copy)]
pub struct Snowflake {
    x: i32,
    y: i32,
    size: i32,
    window_width: i32,
    window_height: i32,
    speed: i32,
}

/// The row just above the top of the window where a snowflake (re)appears.
pub open spec fn start_row() -> int {
    -2
}

/// The lowest and the highest speed a snowflake can be given.
pub open spec fn min_speed() -> int {
    1
}

pub open spec fn max_speed() -> int {
    3
}

impl View for Snowflake {
    type V = SnowflakeView;

    closed spec fn view(&self) -> SnowflakeView {
        SnowflakeView {
            x: self.x,
            y: self.y,
            size: self.size,
            window_width: self.window_width,
            window_height: self.window_height,
            speed: self.speed,
        }
    }
}

impl Snowflake {
    /// Every snowflake is well formed (`SnowflakeView::wf`).
    #[verifier::type_invariant]
    spec fn inv(self) -> bool {
        self@.wf()
    }
}

impl SnowflakeView {
    /// The snowflake is somewhere in its column range, at or above the bottom
    /// of the window (or at the start row), with a speed it can have been
    /// given.
    pub open spec fn wf(self) -> bool {
        &&& 1 <= self.window_width
        &&& 0 <= self.x < self.window_width
        &&& min_speed() <= self.speed <= max_speed()
        &&& start_row() <= self.y
        &&& (self.y <= self.window_height || self.y == start_row())
    }

    /// The flake can fall one more frame without its row overflowing an
    /// `i32`: always so in a window at least `max_speed()` rows below
    /// `i32::MAX`.
    pub open spec fn can_fall(self) -> bool {
        self.y + self.speed <= i32::MAX
    }

    /// One frame of falling: the flake moves down by its speed; once it is
    /// below the bottom of the window it goes back to the start row, in a
    /// column and with a speed drawn anew (of which only the range is known).
    pub open spec fn falls_to(self, next: SnowflakeView) -> bool {
        let y = self.y + self.speed;
        &&& next.size == self.size
        &&& next.window_width == self.window_width
        &&& next.window_height == self.window_height
        &&& if y > self.window_height {
            &&& next.y == start_row()
            &&& 0 <= next.x < self.window_width
            &&& min_speed() <= next.speed <= max_speed()
        } else {
            &&& next.y == y
            &&& next.x == self.x
            &&& next.speed == self.speed
        }
    }

    /// The square that draws the flake, in the color of text.
    pub open spec fn fill(self, revert: bool) -> FillRect {
        FillRect { x: self.x, y: self.y, w: self.size as u32, h: self.size as u32, color: text_color(revert) }
    }
}

impl Snowflake {
    /// A snowflake at the start row of a window `w` pixels wide (plus ten
    /// pixels of margin) and `h` pixels high, in a random column and with a
    /// random speed.
    pub fn new(w: i32, h: i32, size: i32) -> (s: Snowflake)
        requires
            0 < w + 10 <= i32::MAX,
        ensures
            s@.wf(),
            s@.y == start_row(),
            s@.window_width == w + 10,
            s@.window_height == h,
            s@.size == size,
    {
        let mut rng = thread_rng();
        let x = gen_range(&mut rng, 0, w + 10);
        let speed = gen_range(&mut rng, 1, 4);
        Snowflake { x, y: -2, speed, window_height: h, window_width: w + 10, size }
    }

    /// Moves the flake one frame down, sending it back to the top once it has
    /// left the window.
    pub fn update(&mut self)
        requires
            old(self)@.can_fall(),
        ensures
            final(self)@.wf(),
            old(self)@.falls_to(final(self)@),
    {
        proof {
            use_type_invariant(&*self);
        }
        let y = self.y + self.speed;
        if y > self.window_height {
            let mut rng = thread_rng();
            let x = gen_range(&mut rng, 0, self.window_width);
            let speed = gen_range(&mut rng, 1, 4);
            *self = Snowflake { x, y: -2, speed, window_height: self.window_height, window_width: self.window_width, size: self.size };
        } else {
            *self = Snowflake { x: self.x, y, speed: self.speed, window_height: self.window_height, window_width: self.window_width, size: self.size };
        }
        proof {
            use_type_invariant(&*self);
        }
    }

    /// The square to fill for this flake: white on the normal face, black on
    /// the reverted one.
    pub fn render(&self, revert: bool) -> (f: FillRect)
        ensures
            f == self@.fill(revert),
    {
        FillRect { x: self.x, y: self.y, w: self.size as u32, h: self.size as u32, color: text_color(revert) }
    }

    /// Whether the flake can fall one more frame (`can_fall`).
    pub fn can_fall(&self) -> (r: bool)
        ensures
            r == self@.can_fall(),
    {
        proof {
            use_type_invariant(self);
        }
        self.y <= i32::MAX - self.speed
    }

    pub fn x(&self) -> (r: i32)
        ensures r == self@.x,
    {
        self.x
    }

    pub fn y(&self) -> (r: i32)
        ensures r == self@.y,
    {
        self.y
    }

    pub fn size(&self) -> (r: i32)
        ensures r == self@.size,
    {
        self.size
    }

    pub fn speed(&self) -> (r: i32)
        ensures r == self@.speed,
    {
        self.speed
    }

    pub fn window_width(&self) -> (r: i32)
        ensures r == self@.window_width,
    {
        self.window_width
    }

    pub fn window_height(&self) -> (r: i32)
        ensures r == self@.window_height,
    {
        self.window_height
    }
}

/// The snow of one clock face.
#[derive(Clone)]
pub struct SnowParticles {
    snowflakes: Vec<Snowflake>,
}

impl View for SnowParticles {
    type V = Seq<SnowflakeView>;

    closed spec fn view(&self) -> Seq<SnowflakeView> {
        self.snowflakes@.map_values(|s: Snowflake| s@)
    }
}

/// Every flake of the snow is well formed.
pub open spec fn all_wf(flakes: Seq<SnowflakeView>) -> bool {
    forall|i: int| 0 <= i < flakes.len() ==> #[trigger] flakes[i].wf()
}

/// Every flake of the snow can fall one more frame.
pub open spec fn all_can_fall(flakes: Seq<SnowflakeView>) -> bool {
    forall|i: int| 0 <= i < flakes.len() ==> #[trigger] flakes[i].can_fall()
}

/// The size of the flakes of a face.
pub open spec fn flake_size() -> int {
    5
}

impl SnowParticles {
    /// `limit` flakes (none if `limit` is not positive) of five pixels, all at
    /// the start row of a surface of the given size.
    pub fn new(limit: i32, surface: (u32, u32)) -> (p: SnowParticles)
        requires
            0 < (surface.0 as i32) + 10 <= i32::MAX,
        ensures
            p@.len() == if limit <= 0 { 0 } else { limit as int },
            all_wf(p@),
            forall|i: int| 0 <= i < p@.len() ==> {
                &&& (#[trigger] p@[i]).y == start_row()
                &&& p@[i].window_width == (surface.0 as i32) + 10
                &&& p@[i].window_height == surface.1 as i32
                &&& p@[i].size == flake_size()
            },
    {
        let mut snowflakes: Vec<Snowflake> = Vec::new();
        let w = surface.0 as i32;
        let h = surface.1 as i32;
        let mut k: i32 = 0;
        while k < limit
            invariant
                0 <= k,
                limit <= 0 ==> k == 0,
                limit > 0 ==> k <= limit,
                w == surface.0 as i32,
                h == surface.1 as i32,
                0 < w + 10 <= i32::MAX,
                snowflakes@.len() == k,
                forall|i: int| 0 <= i < k ==> {
                    &&& (#[trigger] snowflakes@[i])@.wf()
                    &&& snowflakes@[i]@.y == start_row()
                    &&& snowflakes@[i]@.window_width == w + 10
                    &&& snowflakes@[i]@.window_height == h
                    &&& snowflakes@[i]@.size == flake_size()
                },
            decreases limit - k,
        {
            snowflakes.push(Snowflake::new(w, h, 5));
            k = k + 1;
        }
        SnowParticles { snowflakes }
    }

    /// Lets every flake fall one frame and gives, in order, the squares that
    /// draw them at their new places.
    pub fn render(&mut self, revert: bool) -> (fills: Vec<FillRect>)
        requires
            all_can_fall(old(self)@),
        ensures
            final(self)@.len() == old(self)@.len(),
            all_wf(final(self)@),
            forall|i: int| 0 <= i < old(self)@.len() ==> old(self)@[i].falls_to(#[trigger] final(self)@[i]),
            fills@.len() == final(self)@.len(),
            forall|i: int| 0 <= i < fills@.len() ==> #[trigger] fills@[i] == final(self)@[i].fill(revert),
    {
        let mut fills: Vec<FillRect> = Vec::new();
        let n = self.snowflakes.len();
        let ghost before = self.snowflakes@;
        proof {
            assert forall|j: int| 0 <= j < n implies (#[trigger] before[j])@.can_fall() by {
                assert(old(self)@[j] == before[j]@);
            }
        }
        let mut i: usize = 0;
        while i < n
            invariant
                n == self.snowflakes@.len(),
                before.len() == n,
                0 <= i <= n,
                fills@.len() == i,
                forall|j: int| i <= j < n ==> #[trigger] self.snowflakes@[j] == before[j],
                forall|j: int| 0 <= j < n ==> (#[trigger] before[j])@.can_fall(),
                forall|j: int| 0 <= j < i ==> (#[trigger] self.snowflakes@[j])@.wf(),
                forall|j: int| 0 <= j < i ==> before[j]@.falls_to(#[trigger] self.snowflakes@[j]@),
                forall|j: int| 0 <= j < i ==> #[trigger] fills@[j] == self.snowflakes@[j]@.fill(revert),
            decreases n - i,
        {
            let mut flake = self.snowflakes[i];
            flake.update();
            fills.push(flake.render(revert));
            self.snowflakes.set(i, flake);
            i = i + 1;
        }
        proof {
            assert forall|j: int| 0 <= j < n implies (#[trigger] self@[j]).wf() by {
                assert(self@[j] == self.snowflakes@[j]@);
            }
            assert forall|j: int| 0 <= j < n implies old(self)@[j].falls_to(#[trigger] self@[j]) by {
                assert(self@[j] == self.snowflakes@[j]@);
                assert(old(self)@[j] == before[j]@);
            }
            assert forall|j: int| 0 <= j < n implies #[trigger] fills@[j] == self@[j].fill(revert) by {
                assert(self@[j] == self.snowflakes@[j]@);
            }
        }
        fills
    }

    /// Whether every flake can fall one more frame (`all_can_fall`).
    pub fn can_fall(&self) -> (r: bool)
        ensures
            r == all_can_fall(self@),
    {
        let n = self.snowflakes.len();
        let mut i: usize = 0;
        while i < n
            invariant
                n == self.snowflakes@.len(),
                0 <= i <= n,
                forall|j: int| 0 <= j < i ==> (#[trigger] self.snowflakes@[j])@.can_fall(),
            decreases n - i,
        {
            if !self.snowflakes[i].can_fall() {
                assert(self@[i as int] == self.snowflakes@[i as int]@);
                return false;
            }
            i = i + 1;
        }
        assert forall|j: int| 0 <= j < n implies (#[trigger] self@[j]).can_fall() by {
            assert(self@[j] == self.snowflakes@[j]@);
        }
        true
    }

    /// The flakes, in order.
    pub fn snowflakes(&self) -> (r: Vec<Snowflake>)
        ensures
            r@.map_values(|s: Snowflake| s@) == self@,
    {
        self.snowflakes.clone()
    }
}

} // verus!
