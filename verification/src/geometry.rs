//! The crop rectangle, and the one door through which every edit of it passes.
//!
//! A rectangle is anchored at its centre. Its height is not stored: it follows
//! from the width and a fixed height-to-width ratio. Inside a picture of
//! `max_w` by `max_h` pixels a rectangle *fits* when it has a positive width
//! and none of its four sides touches or crosses the picture's border.

use vstd::prelude::*;

verus! {

/// Height-to-width ratio of a crop, as a pair of positive units.
#[derive(Clone, Copy, Debug, PartialEq, Eq, Structural)]
pub struct AspectRatio {
    height_units: i32,
    width_units: i32,
}

impl AspectRatio {
    /// Both units are positive.
    #[verifier::type_invariant]
    pub closed spec fn wf(self) -> bool {
        self.height_units > 0 && self.width_units > 0
    }

    /// Units of height.
    pub closed spec fn spec_height_units(self) -> int {
        self.height_units as int
    }

    /// Units of width.
    pub closed spec fn spec_width_units(self) -> int {
        self.width_units as int
    }

    /// A well-formed ratio has positive units that fit in 31 bits.
    pub proof fn lemma_units_positive(self)
        requires
            self.wf(),
        ensures
            0 < self.spec_height_units() <= i32::MAX,
            0 < self.spec_width_units() <= i32::MAX,
    {
    }

    /// The ratio `height_units : width_units`, or nothing if a unit is not positive.
    pub fn new(height_units: i32, width_units: i32) -> (ratio: Option<AspectRatio>)
        ensures
            ratio is Some <==> height_units > 0 && width_units > 0,
            ratio matches Some(r) ==> r.wf() && r.spec_height_units() == height_units
                && r.spec_width_units() == width_units,
    {
        if height_units > 0 && width_units > 0 {
            Some(AspectRatio { height_units, width_units })
        } else {
            None
        }
    }

    /// Five units high for four units wide.
    pub fn portrait() -> (ratio: AspectRatio)
        ensures
            ratio.wf(),
            ratio.spec_height_units() == 5,
            ratio.spec_width_units() == 4,
    {
        AspectRatio { height_units: 5, width_units: 4 }
    }

    /// Units of height.
    pub fn height_units(&self) -> (units: i32)
        ensures
            self.wf(),
            units == self.spec_height_units(),
            units > 0,
    {
        proof {
            use_type_invariant(self);
        }
        self.height_units
    }

    /// Units of width.
    pub fn width_units(&self) -> (units: i32)
        ensures
            self.wf(),
            units == self.spec_width_units(),
            units > 0,
    {
        proof {
            use_type_invariant(self);
        }
        self.width_units
    }
}

/// Quotient of `a` by a positive `b`, rounded towards zero.
pub open spec fn truncating_quotient(a: int, b: int) -> int {
    if a >= 0 {
        a / b
    } else {
        -((-a) / b)
    }
}

/// Height of a crop of the given width: `width * height_units / width_units`,
/// rounded towards zero.
pub open spec fn height_for(width: int, ratio: AspectRatio) -> int {
    truncating_quotient(width * ratio.spec_height_units(), ratio.spec_width_units())
}

/// The bounds invariant: a crop centred at `(x, y)` with width `w` lies
/// strictly inside a picture of `max_w` by `max_h` pixels.
pub open spec fn fits(x: int, y: int, w: int, ratio: AspectRatio, max_w: int, max_h: int) -> bool {
    let h = height_for(w, ratio);
    &&& w > 0
    &&& x - w / 2 > 0
    &&& y - h / 2 > 0
    &&& x + w / 2 < max_w
    &&& y + h / 2 < max_h
}

/// A crop of positive width is never of negative height.
pub proof fn lemma_height_nonnegative(w: int, ratio: AspectRatio)
    requires
        ratio.wf(),
        w >= 0,
    ensures
        height_for(w, ratio) >= 0,
        height_for(w, ratio) <= w * ratio.spec_height_units(),
{
    ratio.lemma_units_positive();
    let hh = ratio.spec_height_units();
    let ww = ratio.spec_width_units();
    assert(w * hh >= 0) by (nonlinear_arith)
        requires
            w >= 0,
            hh > 0,
    ;
    assert((w * hh) / ww >= 0 && (w * hh) / ww <= w * hh) by (nonlinear_arith)
        requires
            w * hh >= 0,
            ww > 0,
    ;
}

/// A crop that fits a picture whose sides fit in 31 bits has a centre and a
/// width that fit in 31 bits too.
pub proof fn lemma_fits_is_small(x: int, y: int, w: int, ratio: AspectRatio, max_w: int, max_h: int)
    requires
        ratio.wf(),
        fits(x, y, w, ratio, max_w, max_h),
        max_w <= i32::MAX,
        max_h <= i32::MAX,
    ensures
        0 < x < max_w,
        0 < y < max_h,
        0 < w < max_w,
        0 <= height_for(w, ratio),
{
    lemma_height_nonnegative(w, ratio);
}

/// The six ways an operator can push a crop.
#[derive(Clone, Copy, Debug, PartialEq, Eq, Structural)]
pub enum Direction {
    /// Centre moves to a larger `y`.
    Up,
    /// Centre moves to a smaller `y`.
    Down,
    /// Centre moves to a smaller `x`.
    Left,
    /// Centre moves to a larger `x`.
    Right,
    /// Width shrinks.
    ZoomIn,
    /// Width grows.
    ZoomOut,
}

/// A crop region: centre, width and the ratio that gives its height.
#[derive(Clone, Copy, Debug, PartialEq, Eq, Structural)]
pub struct CropRectangle {
    pub center_x: i32,
    pub center_y: i32,
    pub width: i32,
    pub ratio: AspectRatio,
}

impl CropRectangle {
    /// Height that follows from the width and the ratio.
    pub open spec fn spec_height(self) -> int {
        height_for(self.width as int, self.ratio)
    }

    /// The rectangle satisfies the bounds invariant for a picture of `max_w` by `max_h`.
    pub open spec fn within_bounds(self, max_w: int, max_h: int) -> bool {
        fits(self.center_x as int, self.center_y as int, self.width as int, self.ratio, max_w, max_h)
    }

    /// The rectangle after a proposal: the proposed one if it fits, else `self`.
    pub open spec fn applied(self, x: int, y: int, w: int, max_w: int, max_h: int) -> CropRectangle {
        if fits(x, y, w, self.ratio, max_w, max_h) {
            CropRectangle { center_x: x as i32, center_y: y as i32, width: w as i32, ratio: self.ratio }
        } else {
            self
        }
    }

    /// The rectangle after a push of `n` pixels in `direction`.
    pub open spec fn pushed(self, direction: Direction, n: int, max_w: int, max_h: int) -> CropRectangle {
        let x = self.center_x as int;
        let y = self.center_y as int;
        let w = self.width as int;
        match direction {
            Direction::Up => self.applied(x, y + n, w, max_w, max_h),
            Direction::Down => self.applied(x, y - n, w, max_w, max_h),
            Direction::Left => self.applied(x - n, y, w, max_w, max_h),
            Direction::Right => self.applied(x + n, y, w, max_w, max_h),
            Direction::ZoomIn => self.applied(x, y, w - n, max_w, max_h),
            Direction::ZoomOut => self.applied(x, y, w + n, max_w, max_h),
        }
    }

    /// The rectangle after a whole series of pushes, first to last.
    pub open spec fn pushed_all(self, pushes: Seq<(Direction, int)>, max_w: int, max_h: int) -> CropRectangle
        decreases pushes.len(),
    {
        if pushes.len() == 0 {
            self
        } else {
            self.pushed(pushes[0].0, pushes[0].1, max_w, max_h).pushed_all(
                pushes.drop_first(),
                max_w,
                max_h,
            )
        }
    }

    /// Whatever is proposed, the outcome is the proposal or the rectangle as it
    /// was, and a rectangle that fits stays one that fits.
    pub proof fn lemma_applied(self, x: int, y: int, w: int, max_w: int, max_h: int)
        requires
            self.ratio.wf(),
            max_w <= i32::MAX,
            max_h <= i32::MAX,
        ensures
            !fits(x, y, w, self.ratio, max_w, max_h) ==> self.applied(x, y, w, max_w, max_h) == self,
            fits(x, y, w, self.ratio, max_w, max_h) ==> {
                let r = self.applied(x, y, w, max_w, max_h);
                r.center_x == x && r.center_y == y && r.width == w && r.ratio == self.ratio
            },
            self.applied(x, y, w, max_w, max_h).ratio == self.ratio,
            self.within_bounds(max_w, max_h) ==> self.applied(x, y, w, max_w, max_h).within_bounds(
                max_w,
                max_h,
            ),
    {
        if fits(x, y, w, self.ratio, max_w, max_h) {
            lemma_fits_is_small(x, y, w, self.ratio, max_w, max_h);
        }
    }

    /// A push keeps the bounds invariant, and a push that is turned down
    /// changes no field.
    pub proof fn lemma_pushed(self, direction: Direction, n: int, max_w: int, max_h: int)
        requires
            self.ratio.wf(),
            max_w <= i32::MAX,
            max_h <= i32::MAX,
        ensures
            self.pushed(direction, n, max_w, max_h).ratio == self.ratio,
            self.within_bounds(max_w, max_h) ==> self.pushed(direction, n, max_w, max_h).within_bounds(
                max_w,
                max_h,
            ),
            self.pushed(direction, n, max_w, max_h) == self || self.pushed(
                direction,
                n,
                max_w,
                max_h,
            ).within_bounds(max_w, max_h),
            n == 0 ==> self.pushed(direction, n, max_w, max_h) == self,
    {
        let x = self.center_x as int;
        let y = self.center_y as int;
        let w = self.width as int;
        self.lemma_applied(x, y + n, w, max_w, max_h);
        self.lemma_applied(x, y - n, w, max_w, max_h);
        self.lemma_applied(x - n, y, w, max_w, max_h);
        self.lemma_applied(x + n, y, w, max_w, max_h);
        self.lemma_applied(x, y, w - n, max_w, max_h);
        self.lemma_applied(x, y, w + n, max_w, max_h);
    }

    /// Invariant preservation: a rectangle that fits its picture still fits it
    /// after any series of pushes, whatever their directions and step sizes.
    pub proof fn lemma_pushes_preserve_bounds(
        self,
        pushes: Seq<(Direction, int)>,
        max_w: int,
        max_h: int,
    )
        requires
            self.ratio.wf(),
            max_w <= i32::MAX,
            max_h <= i32::MAX,
            self.within_bounds(max_w, max_h),
        ensures
            self.pushed_all(pushes, max_w, max_h).within_bounds(max_w, max_h),
            self.pushed_all(pushes, max_w, max_h).ratio == self.ratio,
        decreases pushes.len(),
    {
        if pushes.len() > 0 {
            self.lemma_pushed(pushes[0].0, pushes[0].1, max_w, max_h);
            self.pushed(pushes[0].0, pushes[0].1, max_w, max_h).lemma_pushes_preserve_bounds(
                pushes.drop_first(),
                max_w,
                max_h,
            );
        }
    }

    /// A rectangle with these numbers, whether it fits anywhere or not.
    pub fn new(center_x: i32, center_y: i32, width: i32, ratio: AspectRatio) -> (rect: CropRectangle)
        ensures
            rect == (CropRectangle { center_x, center_y, width, ratio }),
    {
        CropRectangle { center_x, center_y, width, ratio }
    }

    /// Height that follows from the width and the ratio.
    pub fn height(&self) -> (h: i64)
        ensures
            h == self.spec_height(),
    {
        let hh: i64 = self.ratio.height_units() as i64;
        let ww: i64 = self.ratio.width_units() as i64;
        let w: i64 = self.width as i64;
        assert(-0x4000_0000_0000_0000 <= w * hh <= 0x4000_0000_0000_0000) by (nonlinear_arith)
            requires
                -0x8000_0000 <= w <= 0x7fff_ffff,
                0 < hh <= 0x7fff_ffff,
        ;
        (w * hh) / ww
    }

    /// Whether a crop at `(x, y)` of width `w`, with this rectangle's ratio,
    /// fits a picture of `max_w` by `max_h`. The height tested is that of the
    /// proposed width.
    pub fn is_within_bounds(&self, x: i32, y: i32, w: i32, max_w: i32, max_h: i32) -> (ok: bool)
        ensures
            ok == fits(x as int, y as int, w as int, self.ratio, max_w as int, max_h as int),
    {
        fits_wide(x as i64, y as i64, w as i64, &self.ratio, max_w, max_h)
    }

    /// Takes the proposed centre and width if they fit; else leaves the
    /// rectangle as it was.
    pub fn apply_if_valid(&mut self, x: i32, y: i32, w: i32, max_w: i32, max_h: i32)
        ensures
            *final(self) == old(self).applied(x as int, y as int, w as int, max_w as int, max_h as int),
            final(self).ratio == old(self).ratio,
            old(self).within_bounds(max_w as int, max_h as int) ==> final(self).within_bounds(
                max_w as int,
                max_h as int,
            ),
            !fits(x as int, y as int, w as int, old(self).ratio, max_w as int, max_h as int)
                ==> *final(self) == *old(self),
    {
        self.propose(x as i64, y as i64, w as i64, max_w, max_h);
    }

    /// Pushes the rectangle `n` pixels in `direction`, if the outcome fits.
    pub fn push(&mut self, direction: Direction, n: i32, max_w: i32, max_h: i32)
        ensures
            *final(self) == old(self).pushed(direction, n as int, max_w as int, max_h as int),
            final(self).ratio == old(self).ratio,
            old(self).within_bounds(max_w as int, max_h as int) ==> final(self).within_bounds(
                max_w as int,
                max_h as int,
            ),
            *final(self) == *old(self) || final(self).within_bounds(max_w as int, max_h as int),
    {
        proof {
            use_type_invariant(&self.ratio);
            self.lemma_pushed(direction, n as int, max_w as int, max_h as int);
        }
        let x: i64 = self.center_x as i64;
        let y: i64 = self.center_y as i64;
        let w: i64 = self.width as i64;
        let n: i64 = n as i64;
        match direction {
            Direction::Up => self.propose(x, y + n, w, max_w, max_h),
            Direction::Down => self.propose(x, y - n, w, max_w, max_h),
            Direction::Left => self.propose(x - n, y, w, max_w, max_h),
            Direction::Right => self.propose(x + n, y, w, max_w, max_h),
            Direction::ZoomIn => self.propose(x, y, w - n, max_w, max_h),
            Direction::ZoomOut => self.propose(x, y, w + n, max_w, max_h),
        }
    }

    /// Moves the centre `n` pixels towards larger `y`, if the outcome fits.
    pub fn shift_up(&mut self, n: i32, max_w: i32, max_h: i32)
        ensures
            *final(self) == old(self).pushed(Direction::Up, n as int, max_w as int, max_h as int),
    {
        self.push(Direction::Up, n, max_w, max_h);
    }

    /// Moves the centre `n` pixels towards smaller `y`, if the outcome fits.
    pub fn shift_down(&mut self, n: i32, max_w: i32, max_h: i32)
        ensures
            *final(self) == old(self).pushed(Direction::Down, n as int, max_w as int, max_h as int),
    {
        self.push(Direction::Down, n, max_w, max_h);
    }

    /// Moves the centre `n` pixels towards smaller `x`, if the outcome fits.
    pub fn shift_left(&mut self, n: i32, max_w: i32, max_h: i32)
        ensures
            *final(self) == old(self).pushed(Direction::Left, n as int, max_w as int, max_h as int),
    {
        self.push(Direction::Left, n, max_w, max_h);
    }

    /// Moves the centre `n` pixels towards larger `x`, if the outcome fits.
    pub fn shift_right(&mut self, n: i32, max_w: i32, max_h: i32)
        ensures
            *final(self) == old(self).pushed(Direction::Right, n as int, max_w as int, max_h as int),
    {
        self.push(Direction::Right, n, max_w, max_h);
    }

    /// Makes the rectangle `n` pixels narrower, if the outcome fits.
    pub fn zoom_in(&mut self, n: i32, max_w: i32, max_h: i32)
        ensures
            *final(self) == old(self).pushed(Direction::ZoomIn, n as int, max_w as int, max_h as int),
    {
        self.push(Direction::ZoomIn, n, max_w, max_h);
    }

    /// Makes the rectangle `n` pixels wider, if the outcome fits.
    pub fn zoom_out(&mut self, n: i32, max_w: i32, max_h: i32)
        ensures
            *final(self) == old(self).pushed(Direction::ZoomOut, n as int, max_w as int, max_h as int),
    {
        self.push(Direction::ZoomOut, n, max_w, max_h);
    }

    /// Takes a proposal or leaves it, on coordinates wide enough to hold any sum of two
    /// 32-bit numbers.
    fn propose(&mut self, x: i64, y: i64, w: i64, max_w: i32, max_h: i32)
        requires
            -0x1_0000_0000 <= x <= 0x1_0000_0000,
            -0x1_0000_0000 <= y <= 0x1_0000_0000,
            -0x1_0000_0000 <= w <= 0x1_0000_0000,
        ensures
            *final(self) == old(self).applied(x as int, y as int, w as int, max_w as int, max_h as int),
            final(self).ratio == old(self).ratio,
            old(self).within_bounds(max_w as int, max_h as int) ==> final(self).within_bounds(
                max_w as int,
                max_h as int,
            ),
            !fits(x as int, y as int, w as int, old(self).ratio, max_w as int, max_h as int)
                ==> *final(self) == *old(self),
    {
        proof {
            use_type_invariant(&self.ratio);
            self.lemma_applied(x as int, y as int, w as int, max_w as int, max_h as int);
        }
        if fits_wide(x, y, w, &self.ratio, max_w, max_h) {
            proof {
                lemma_fits_is_small(x as int, y as int, w as int, self.ratio, max_w as int, max_h as int);
            }
            self.center_x = x as i32;
            self.center_y = y as i32;
            self.width = w as i32;
        }
    }
}

/// The bounds invariant, decided on wide coordinates.
fn fits_wide(x: i64, y: i64, w: i64, ratio: &AspectRatio, max_w: i32, max_h: i32) -> (ok: bool)
    requires
        -0x1_0000_0000 <= x <= 0x1_0000_0000,
        -0x1_0000_0000 <= y <= 0x1_0000_0000,
        -0x1_0000_0000 <= w <= 0x1_0000_0000,
    ensures
        ok == fits(x as int, y as int, w as int, *ratio, max_w as int, max_h as int),
{
    let hh: i64 = ratio.height_units() as i64;
    let ww: i64 = ratio.width_units() as i64;
    if w <= 0 {
        return false;
    }
    if w > 0x7fff_ffff {
        proof {
            if fits(x as int, y as int, w as int, *ratio, max_w as int, max_h as int) {
                lemma_fits_is_small(x as int, y as int, w as int, *ratio, max_w as int, max_h as int);
            }
        }
        return false;
    }
    assert(0 <= w * hh <= 0x4000_0000_0000_0000) by (nonlinear_arith)
        requires
            0 < w <= 0x7fff_ffff,
            0 < hh <= 0x7fff_ffff,
    ;
    let h: i64 = (w * hh) / ww;
    proof {
        lemma_height_nonnegative(w as int, *ratio);
    }
    x - w / 2 > 0 && y - h / 2 > 0 && x + w / 2 < max_w as i64 && y + h / 2 < max_h as i64
}

} // verus!
