//! The on-screen rectangle for the rendered timer text.
//!
//! Two variants, fixed at startup: the static variant pins the text to a
//! fixed fraction of the viewport; the bounce variant integrates a constant
//! -magnitude velocity and reflects it off the viewport edges, with the
//! vertical tests corrected for the font's internal padding above the ascent
//! and below the baseline.

use vstd::prelude::*;

verus! {

/// Magnitude of the bounce velocity, in pixels per frame; only its sign ever
/// changes.
pub const VELOCITY_SPEED: i32 = 3;

/// Upper bound on viewport dimensions (2^30 pixels), so that all position
/// arithmetic stays inside `i32`.
pub const COORD_BOUND: i32 = 1_073_741_824;

/// Viewport dimensions in pixels.
#[derive(Clone, Copy)]
pub struct Viewport {
    pub width: i32,
    pub height: i32,
}

/// Font geometry used to correct the vertical bounce tests.
#[derive(Clone, Copy)]
pub struct FontMetrics {
    pub height: i32,
    pub ascent: i32,
    pub descent: i32,
}

/// Per-frame velocity of the bouncing text box.
#[derive(Clone, Copy)]
pub struct Velocity {
    pub x: i32,
    pub y: i32,
}

/// The rectangle the text is drawn into.
#[derive(Clone, Copy)]
pub struct DisplayRect {
    pub x: i32,
    pub y: i32,
    pub width: u32,
    pub height: u32,
}

/// Layout state: current box, and the velocity in the bounce variant
/// (`None` selects the static variant).
pub struct BounceLayout {
    pub x: i32,
    pub y: i32,
    pub width: u32,
    pub height: u32,
    pub velocity: Option<Velocity>,
}

impl Viewport {
    /// Sane dimensions: non-negative and small enough for pixel arithmetic.
    pub open spec fn wf(self) -> bool {
        &&& 0 <= self.width <= COORD_BOUND
        &&& 0 <= self.height <= COORD_BOUND
    }
}

impl FontMetrics {
    /// Sane font geometry: the ascent lies within the height and the descent
    /// reaches at most as far below the baseline as the height.
    pub open spec fn wf(self) -> bool {
        &&& 0 < self.height
        &&& 0 <= self.ascent <= self.height
        &&& -self.height <= self.descent <= 0
    }
}

/// Box width of the bounce variant: a quarter of the viewport width.
pub open spec fn spec_box_w(vp: Viewport) -> int {
    vp.width / 4
}

/// Box height of the bounce variant: a quarter of the viewport height.
pub open spec fn spec_box_h(vp: Viewport) -> int {
    vp.height / 4
}

/// The part of the box height taken by the font's padding above the ascent.
pub open spec fn spec_top_pad(h: int, fm: FontMetrics) -> int {
    h * (fm.height - fm.ascent) / (fm.height as int)
}

/// Distance from the box top to the true bottom of the glyphs (the baseline
/// plus the descent, scaled to the box height).
pub open spec fn spec_true_bottom(h: int, fm: FontMetrics) -> int {
    h * (fm.height + fm.descent) / (fm.height as int)
}

/// Horizontal velocity after the edge tests, applied to the already-updated
/// position `x1`: the right wall pushes left, else the left wall pushes
/// right, else the velocity is kept.
pub open spec fn spec_next_vx(x1: int, w: int, width: int, vx: int) -> int {
    if x1 + w >= width {
        -VELOCITY_SPEED as int
    } else if x1 <= 0 {
        VELOCITY_SPEED as int
    } else {
        vx
    }
}

/// Vertical velocity after the edge tests on the updated position `y1`,
/// using the padded top and true bottom of the glyphs.
pub open spec fn spec_next_vy(y1: int, pad: int, tb: int, height: int, vy: int) -> int {
    if y1 + tb >= height {
        -VELOCITY_SPEED as int
    } else if y1 + pad <= 0 {
        VELOCITY_SPEED as int
    } else {
        vy
    }
}

impl BounceLayout {
    /// Well-formedness: in the bounce variant the velocity components carry
    /// the fixed magnitude, and the position is bounded in the direction of
    /// travel (a rightward box sits left of every possible right wall, and so
    /// on), which keeps all position arithmetic inside `i32`.
    pub open spec fn wf(self) -> bool {
        match self.velocity {
            Some(v) => {
                &&& (v.x == VELOCITY_SPEED || v.x == -VELOCITY_SPEED)
                &&& (v.y == VELOCITY_SPEED || v.y == -VELOCITY_SPEED)
                &&& (v.x == VELOCITY_SPEED ==> -VELOCITY_SPEED <= self.x <= COORD_BOUND)
                &&& (v.x == -VELOCITY_SPEED ==> 0 <= self.x <= COORD_BOUND + VELOCITY_SPEED)
                &&& (v.y == VELOCITY_SPEED ==> -(COORD_BOUND + VELOCITY_SPEED) <= self.y
                    <= COORD_BOUND)
                &&& (v.y == -VELOCITY_SPEED ==> -COORD_BOUND <= self.y <= COORD_BOUND
                    + VELOCITY_SPEED)
            },
            None => true,
        }
    }

    /// The layout after one frame, as a pure function of the old state, the
    /// current viewport and the font metrics.
    pub open spec fn spec_updated(self, vp: Viewport, fm: FontMetrics) -> BounceLayout {
        match self.velocity {
            None => BounceLayout {
                x: (vp.width / 10) as i32,
                y: (vp.height / 10) as i32,
                width: (vp.width * 8 / 10) as u32,
                height: (vp.height * 8 / 10) as u32,
                velocity: None,
            },
            Some(v) => {
                let x1 = self.x + v.x;
                let y1 = self.y + v.y;
                let w = spec_box_w(vp);
                let h = spec_box_h(vp);
                let pad = spec_top_pad(h, fm);
                let tb = spec_true_bottom(h, fm);
                BounceLayout {
                    x: x1 as i32,
                    y: y1 as i32,
                    width: w as u32,
                    height: h as u32,
                    velocity: Some(
                        Velocity {
                            x: spec_next_vx(x1, w, vp.width as int, v.x as int) as i32,
                            y: spec_next_vy(y1, pad, tb, vp.height as int, v.y as int) as i32,
                        },
                    ),
                }
            },
        }
    }

    /// The static variant: a box at a fixed fraction of the viewport.
    pub fn new_static() -> (s: BounceLayout)
        ensures
            s == (BounceLayout { x: 0, y: 0, width: 0, height: 0, velocity: None }),
            s.wf(),
    {
        BounceLayout { x: 0, y: 0, width: 0, height: 0, velocity: None }
    }

    /// The bounce variant, starting at the origin and moving down-right.
    pub fn new_bounce() -> (s: BounceLayout)
        ensures
            s.x == 0 && s.y == 0 && s.width == 0 && s.height == 0,
            s.velocity == Some(Velocity { x: VELOCITY_SPEED, y: VELOCITY_SPEED }),
            s.wf(),
    {
        BounceLayout {
            x: 0,
            y: 0,
            width: 0,
            height: 0,
            velocity: Some(Velocity { x: VELOCITY_SPEED, y: VELOCITY_SPEED }),
        }
    }

    /// Advance the layout one frame against the current viewport.
    ///
    /// The static variant recomputes the fixed-fraction box from the
    /// viewport.  The bounce variant first integrates the velocity, then
    /// corrects the velocity signs with edge tests on the new position, so a
    /// wall contact shows one frame of overshoot before the motion reverses.
    pub fn update(&mut self, vp: &Viewport, fm: &FontMetrics)
        requires
            vp.wf(),
            fm.wf(),
            old(self).wf(),
        ensures
            *final(self) == old(self).spec_updated(*vp, *fm),
            final(self).wf(),
            final(self).velocity is Some <==> old(self).velocity is Some,
            old(self).velocity is None ==> final(self).x == vp.width / 10 && final(self).y
                == vp.height / 10 && final(self).width == vp.width * 8 / 10 && final(self).height
                == vp.height * 8 / 10,
            old(self).velocity matches Some(v) ==> {
                &&& final(self).x == old(self).x + v.x
                &&& final(self).y == old(self).y + v.y
                &&& final(self).width == spec_box_w(*vp)
                &&& final(self).height == spec_box_h(*vp)
                &&& final(self).velocity matches Some(u) && u.x == spec_next_vx(
                    old(self).x + v.x,
                    spec_box_w(*vp),
                    vp.width as int,
                    v.x as int,
                ) && u.y == spec_next_vy(
                    old(self).y + v.y,
                    spec_top_pad(spec_box_h(*vp), *fm),
                    spec_true_bottom(spec_box_h(*vp), *fm),
                    vp.height as int,
                    v.y as int,
                )
            },
    {
        match self.velocity {
            None => {
                self.x = vp.width / 10;
                self.y = vp.height / 10;
                self.width = ((vp.width as i64) * 8 / 10) as u32;
                self.height = ((vp.height as i64) * 8 / 10) as u32;
            },
            Some(v) => {
                let x1 = self.x + v.x;
                let y1 = self.y + v.y;
                let w = vp.width / 4;
                let h = vp.height / 4;
                self.x = x1;
                self.y = y1;
                self.width = w as u32;
                self.height = h as u32;

                let mut vx = v.x;
                let mut vy = v.y;
                if x1 <= 0 {
                    vx = VELOCITY_SPEED;
                }
                if x1 + w >= vp.width {
                    vx = -VELOCITY_SPEED;
                }

                let pad = scaled_metric(h, fm.height - fm.ascent, fm.height);
                if y1 + pad <= 0 {
                    vy = VELOCITY_SPEED;
                }
                let tb = scaled_metric(h, fm.height + fm.descent, fm.height);
                if y1 + tb >= vp.height {
                    vy = -VELOCITY_SPEED;
                }
                self.velocity = Some(Velocity { x: vx, y: vy });
            },
        }
    }

    /// The rectangle the current frame draws into.
    pub fn rect(&self) -> (r: DisplayRect)
        ensures
            r.x == self.x,
            r.y == self.y,
            r.width == self.width,
            r.height == self.height,
    {
        DisplayRect { x: self.x, y: self.y, width: self.width, height: self.height }
    }
}

/// `h * num / den` for non-negative `h` and `0 <= num <= den`, so the result
/// lies between `0` and `h`.
fn scaled_metric(h: i32, num: i32, den: i32) -> (r: i32)
    requires
        0 <= h <= COORD_BOUND,
        0 <= num <= den,
        0 < den,
    ensures
        r == h * (num as int) / (den as int),
        0 <= r <= h,
{
    let hu = h as u64;
    let nu = num as u64;
    let du = den as u64;
    proof {
        vstd::arithmetic::mul::lemma_mul_upper_bound(
            hu as int,
            0x4000_0000,
            nu as int,
            0x7FFF_FFFF,
        );
    }
    let q = hu * nu / du;
    proof {
        vstd::arithmetic::mul::lemma_mul_inequality(nu as int, du as int, hu as int);
        vstd::arithmetic::div_mod::lemma_div_is_ordered(
            hu as int * nu as int,
            hu as int * du as int,
            du as int,
        );
        vstd::arithmetic::div_mod::lemma_div_multiples_vanish(hu as int, du as int);
        assert(hu as int * du as int == du as int * hu as int) by (nonlinear_arith);
        assert(hu as int * nu as int >= 0) by (nonlinear_arith)
            requires
                hu as int >= 0 && nu as int >= 0,
        ;
        vstd::arithmetic::div_mod::lemma_div_is_ordered(0, hu as int * nu as int, du as int);
    }
    q as i32
}

/// Overshoot law: a box lying inside the horizontal span of the viewport
/// moves past a wall by at most one velocity step in a single frame.
pub proof fn lemma_overshoot_bounded(s: BounceLayout, v: Velocity, vp: Viewport)
    requires
        s.wf(),
        vp.wf(),
        s.velocity == Some(v),
        0 <= s.x,
        s.x + spec_box_w(vp) <= vp.width,
    ensures
        -VELOCITY_SPEED <= s.x + v.x,
        s.x + v.x + spec_box_w(vp) <= vp.width + VELOCITY_SPEED,
{
}

/// The vertical counterpart of `lemma_overshoot_bounded`: a box whose glyphs
/// lie inside the padded vertical span moves past a wall by at most one
/// velocity step in a single frame.
pub proof fn lemma_overshoot_bounded_vertical(
    s: BounceLayout,
    v: Velocity,
    vp: Viewport,
    fm: FontMetrics,
)
    requires
        s.wf(),
        vp.wf(),
        fm.wf(),
        s.velocity == Some(v),
        0 <= s.y + spec_top_pad(spec_box_h(vp), fm),
        s.y + spec_true_bottom(spec_box_h(vp), fm) <= vp.height,
    ensures
        -VELOCITY_SPEED <= s.y + v.y + spec_top_pad(spec_box_h(vp), fm),
        s.y + v.y + spec_true_bottom(spec_box_h(vp), fm) <= vp.height + VELOCITY_SPEED,
{
}

/// A sign reverses only at a boundary crossing: a rightward velocity is
/// reversed only by the right wall, a leftward one only by the left wall
/// while clear of the right wall.  In particular the wall that has just
/// reversed the velocity can never reverse it again on a later frame, so no
/// crossing flips the sign twice.
pub proof fn lemma_flip_only_at_walls(x1: int, w: int, width: int, vx: int)
    requires
        vx == VELOCITY_SPEED || vx == -VELOCITY_SPEED,
    ensures
        spec_next_vx(x1, w, width, vx) != vx ==> (vx == VELOCITY_SPEED && x1 + w >= width) || (vx
            == -VELOCITY_SPEED && x1 <= 0 && x1 + w < width),
        vx == VELOCITY_SPEED && x1 + w < width ==> spec_next_vx(x1, w, width, vx)
            == VELOCITY_SPEED,
        vx == -VELOCITY_SPEED && x1 > 0 ==> spec_next_vx(x1, w, width, vx) == -VELOCITY_SPEED,
{
}

/// The vertical counterpart of `lemma_flip_only_at_walls`, over the padded
/// top and true bottom of the glyphs.
pub proof fn lemma_flip_only_at_walls_vertical(y1: int, pad: int, tb: int, height: int, vy: int)
    requires
        vy == VELOCITY_SPEED || vy == -VELOCITY_SPEED,
    ensures
        spec_next_vy(y1, pad, tb, height, vy) != vy ==> (vy == VELOCITY_SPEED && y1 + tb >= height)
            || (vy == -VELOCITY_SPEED && y1 + pad <= 0 && y1 + tb < height),
        vy == VELOCITY_SPEED && y1 + tb < height ==> spec_next_vy(y1, pad, tb, height, vy)
            == VELOCITY_SPEED,
        vy == -VELOCITY_SPEED && y1 + pad > 0 ==> spec_next_vy(y1, pad, tb, height, vy)
            == -VELOCITY_SPEED,
{
}

/// A live resize takes effect on the very next frame: the box dimensions
/// after an update are a fixed fraction of the viewport passed to that
/// update, whatever layout state the run had accumulated before.
pub proof fn lemma_resize_rescales(a: BounceLayout, b: BounceLayout, vp: Viewport, fm: FontMetrics)
    requires
        a.velocity is Some <==> b.velocity is Some,
    ensures
        a.spec_updated(vp, fm).width == b.spec_updated(vp, fm).width,
        a.spec_updated(vp, fm).height == b.spec_updated(vp, fm).height,
        a.velocity is None ==> a.spec_updated(vp, fm).x == b.spec_updated(vp, fm).x
            && a.spec_updated(vp, fm).y == b.spec_updated(vp, fm).y,
{
}

} // verus!
