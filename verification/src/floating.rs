//! The floating usage ball: its size and the circle that its window is clipped to.
//!
//! Lengths are in millionths of a logical pixel. Everything is measured against the window as it
//! really is: the ball is capped by it, and the clip circle is derived from the ball, so that it
//! encloses the ball, and then kept inside the window.

use vstd::prelude::*;
use crate::sqrt::{
    floor_sqrt, isqrt, lemma_floor_sqrt, lemma_floor_sqrt_monotone, lemma_floor_sqrt_unique,
    lemma_floor_sqrt_zero,
};
use crate::text::{format_int_grouped, grouped};

verus! {

/// One pixel.
pub const PX: u64 = 1_000_000;

/// The edge of the window that is asked for.
pub const WINDOW_SIZE: u64 = 360_000_000;

/// The diameter of the ball without any usage.
pub const MIN_SPHERE: u64 = 144_000_000;

/// The diameter of the ball at the reference usage and above.
pub const MAX_SPHERE: u64 = 232_000_000;

/// The usage, in tokens, at which the ball stops growing.
pub const REF_TOKENS: u64 = 200_000_000;

/// The square of the growth of the ball for each token: from the smallest to the largest
/// diameter over the reference usage.
pub const GROWTH_SQUARED: u64 = 38_720_000;

/// The largest ball, in hundredths of the smaller side of the window.
pub const MAX_BALL_PERCENT: u64 = 70;

/// How large the ball is under the mouse, in hundredths.
pub const HOVER_PERCENT: u64 = 106;

/// What the clip circle keeps free to the edge of the window.
pub const CLIP_MARGIN: u64 = 4_000_000;

/// What the clip circle keeps free around the ball.
pub const CLIP_PAD: u64 = 12_000_000;

/// The outermost ring of the glow, in hundredths of the ball.
pub const GLOW_PERCENT: u64 = 120;

/// The clip circle around the glow, in hundredths of the ball: the outermost ring and five
/// hundredths of it.
pub const CLIP_PERCENT: u64 = 126;

/// The clip circle of the first frame, in hundredths of the window.
pub const SEED_CLIP_PERCENT: u64 = 98;

/// A window with a smaller side than this has not been laid out yet.
pub const MIN_SANE_WINDOW: u64 = 32_000_000;

/// A ring of the glow, in hundredths of the ball, with its opacity in hundredths.
#[derive(Debug, Clone, Copy, PartialEq, Eq, Structural)]
pub struct HaloLayer {
    pub size_percent: u64,
    pub opacity_percent: u64,
}

/// The rings of the glow, from the outermost to the innermost.
pub open spec fn halo() -> Seq<HaloLayer> {
    seq![
        HaloLayer { size_percent: GLOW_PERCENT, opacity_percent: 6 },
        HaloLayer { size_percent: 114, opacity_percent: 9 },
        HaloLayer { size_percent: 108, opacity_percent: 13 },
        HaloLayer { size_percent: 103, opacity_percent: 20 },
    ]
}

/// The rings of the glow, from the outermost to the innermost.
pub fn halo_layers() -> (r: Vec<HaloLayer>)
    ensures
        r@ == halo(),
{
    let mut r: Vec<HaloLayer> = Vec::new();
    r.push(HaloLayer { size_percent: GLOW_PERCENT, opacity_percent: 6 });
    r.push(HaloLayer { size_percent: 114, opacity_percent: 9 });
    r.push(HaloLayer { size_percent: 108, opacity_percent: 13 });
    r.push(HaloLayer { size_percent: 103, opacity_percent: 20 });
    assert(r@ =~= halo());
    r
}

/// The usage up to which the ball grows.
pub open spec fn counted_tokens(tokens: u64) -> nat {
    if tokens < REF_TOKENS {
        tokens as nat
    } else {
        REF_TOKENS as nat
    }
}

/// The ball at rest: its growth beyond the smallest ball is the square root of the usage, so that
/// its area grows with the usage.
pub open spec fn resting_diameter(tokens: u64) -> nat {
    MIN_SPHERE as nat + floor_sqrt(GROWTH_SQUARED as nat * counted_tokens(tokens))
}

/// The ball, at rest or under the mouse.
pub open spec fn sphere_diameter(tokens: u64, hovered: bool) -> nat {
    if hovered {
        resting_diameter(tokens) * HOVER_PERCENT as nat / 100
    } else {
        resting_diameter(tokens)
    }
}

/// The smaller of two lengths.
pub open spec fn shorter(a: nat, b: nat) -> nat {
    if a <= b {
        a
    } else {
        b
    }
}

/// The larger of two lengths.
pub open spec fn longer(a: nat, b: nat) -> nat {
    if a >= b {
        a
    } else {
        b
    }
}

/// The largest clip circle in a window.
pub open spec fn inside(window: nat) -> nat {
    if window < CLIP_MARGIN {
        0
    } else {
        (window - CLIP_MARGIN) as nat
    }
}

/// The clip circle around a ball in a window: it covers the glow and the pad around the ball,
/// stays inside the window, and never cuts the ball.
pub open spec fn clip_diameter(sphere: nat, window: nat) -> nat {
    longer(
        shorter(
            longer(sphere * CLIP_PERCENT as nat / 100, sphere + CLIP_PAD as nat),
            inside(window),
        ),
        sphere,
    )
}

/// The largest ball in a window.
pub open spec fn ball_cap(window: nat) -> nat {
    window * MAX_BALL_PERCENT as nat / 100
}

/// The ball in a window.
pub open spec fn ball_diameter(tokens: u64, hovered: bool, window: nat) -> nat {
    shorter(sphere_diameter(tokens, hovered), ball_cap(window))
}

/// The size of a ball at rest, and that of the largest.
proof fn lemma_resting_diameter(tokens: u64)
    ensures
        MIN_SPHERE <= resting_diameter(tokens) <= MAX_SPHERE,
        tokens >= REF_TOKENS ==> resting_diameter(tokens) == MAX_SPHERE,
        tokens == 0 ==> resting_diameter(tokens) == MIN_SPHERE,
{
    let largest = GROWTH_SQUARED as nat * REF_TOKENS as nat;
    assert(88_000_000nat * 88_000_000nat <= 7_744_000_000_000_000nat < 88_000_001nat
        * 88_000_001nat) by (nonlinear_arith);
    assert(largest == 7_744_000_000_000_000) by (nonlinear_arith)
        requires
            largest == GROWTH_SQUARED as nat * REF_TOKENS as nat,
    ;
    lemma_floor_sqrt_unique(largest, 88_000_000);
    lemma_floor_sqrt_zero();
    lemma_floor_sqrt_unique(0, 0);
    assert(GROWTH_SQUARED as nat * counted_tokens(tokens) <= largest) by (nonlinear_arith)
        requires
            counted_tokens(tokens) <= REF_TOKENS,
            largest == GROWTH_SQUARED as nat * REF_TOKENS as nat,
    ;
    lemma_floor_sqrt_monotone(GROWTH_SQUARED as nat * counted_tokens(tokens), largest);
}

/// A length in hundredths.
fn percent(length: u64, hundredths: u64) -> (r: u128)
    ensures
        r == length as nat * hundredths as nat / 100,
{
    assert(length as nat * hundredths as nat <= u64::MAX as nat * u64::MAX as nat) by (
        nonlinear_arith)
        requires
            length <= u64::MAX,
            hundredths <= u64::MAX,
    ;
    length as u128 * hundredths as u128 / 100
}

/// The ball for a usage, at rest or under the mouse.
pub fn sphere_diameter_for(total_tokens: u64, hovered: bool) -> (r: u64)
    ensures
        r == sphere_diameter(total_tokens, hovered),
        MIN_SPHERE <= r <= 245_920_000,
{
    let counted: u64 = if total_tokens < REF_TOKENS {
        total_tokens
    } else {
        REF_TOKENS
    };
    proof {
        lemma_resting_diameter(total_tokens);
    }
    assert(GROWTH_SQUARED * counted <= 7_744_000_000_000_000) by (nonlinear_arith)
        requires
            counted <= REF_TOKENS,
    ;
    let growth: u64 = isqrt(GROWTH_SQUARED * counted);
    let base: u64 = MIN_SPHERE + growth;
    if hovered {
        base * HOVER_PERCENT / 100
    } else {
        base
    }
}

/// The clip circle around a ball in a window.
pub fn clip_diameter_for(sphere: u64, window: u64) -> (r: u64)
    ensures
        r == clip_diameter(sphere as nat, window as nat),
{
    let glow: u128 = percent(sphere, CLIP_PERCENT);
    let padded: u128 = sphere as u128 + CLIP_PAD as u128;
    let wanted: u128 = if glow >= padded {
        glow
    } else {
        padded
    };
    let room: u64 = if window < CLIP_MARGIN {
        0
    } else {
        window - CLIP_MARGIN
    };
    let fitting: u64 = if wanted <= room as u128 {
        wanted as u64
    } else {
        room
    };
    if fitting >= sphere {
        fitting
    } else {
        sphere
    }
}

/// The ball for a usage in a window.
pub fn ball_diameter_for(total_tokens: u64, hovered: bool, window: u64) -> (r: u64)
    ensures
        r == ball_diameter(total_tokens, hovered, window as nat),
{
    let sphere: u64 = sphere_diameter_for(total_tokens, hovered);
    let cap: u128 = percent(window, MAX_BALL_PERCENT);
    if sphere as u128 <= cap {
        sphere
    } else {
        cap as u64
    }
}

/// What a window is to be clipped to: a circle of `diameter` in the middle of a window of
/// `window_size`.
#[derive(Debug, Clone, Copy, PartialEq, Eq, Structural)]
pub struct RegionRequest {
    pub hwnd: isize,
    pub diameter: u64,
    pub window_size: u64,
}

/// The clip of the first frame, before the window is laid out: a generous circle.
pub fn seed_window_region(hwnd: isize) -> (r: RegionRequest)
    ensures
        r == (RegionRequest { hwnd, diameter: 352_800_000, window_size: WINDOW_SIZE }),
        r.diameter * 100 == WINDOW_SIZE * SEED_CLIP_PERCENT,
{
    RegionRequest {
        hwnd,
        diameter: WINDOW_SIZE * SEED_CLIP_PERCENT / 100,
        window_size: WINDOW_SIZE,
    }
}

/// What the ball shows.
#[derive(Debug)]
pub struct FloatingView {
    pub hwnd: isize,
    pub total_tokens: u64,
    pub cost_micros: u64,
    pub hovered: bool,
}

/// A circle in the window, by the square around it.
#[derive(Debug, Clone, Copy, PartialEq, Eq, Structural)]
pub struct PlacedCircle {
    pub left: u64,
    pub top: u64,
    pub diameter: u64,
}

/// A ring of the glow in the window.
#[derive(Debug, Clone, Copy, PartialEq, Eq, Structural)]
pub struct PlacedRing {
    pub circle: PlacedCircle,
    pub opacity_percent: u64,
}

/// A frame of the ball.
#[derive(Debug)]
pub struct BallFrame {
    pub region: RegionRequest,
    pub ball: PlacedCircle,
    pub rings: Vec<PlacedRing>,
    /// The number of tokens, in full.
    pub tokens: String,
    pub tokens_font: u64,
    pub cost_font: u64,
}

/// The sides of the window that a frame is drawn for: as measured, or as asked for where it has
/// not been laid out yet.
pub open spec fn frame_sides(width: u64, height: u64) -> (nat, nat) {
    if width >= MIN_SANE_WINDOW && height >= MIN_SANE_WINDOW {
        (width as nat, height as nat)
    } else {
        (WINDOW_SIZE as nat, WINDOW_SIZE as nat)
    }
}

/// A circle in the middle of a window.
pub open spec fn centered(width: nat, height: nat, diameter: nat) -> PlacedCircle {
    PlacedCircle {
        left: ((width - diameter) / 2) as u64,
        top: ((height - diameter) / 2) as u64,
        diameter: diameter as u64,
    }
}

/// A ring of the glow: in proportion to the ball, but not beyond the clip circle.
pub open spec fn ring(
    width: nat,
    height: nat,
    sphere: nat,
    clip: nat,
    layer: HaloLayer,
) -> PlacedRing {
    PlacedRing {
        circle: centered(
            width,
            height,
            shorter(sphere * layer.size_percent as nat / 100, clip),
        ),
        opacity_percent: layer.opacity_percent,
    }
}

/// A font size in proportion to the ball, in thousandths, but within bounds.
pub open spec fn font(sphere: nat, permille: nat, least: nat, most: nat) -> nat {
    longer(least, shorter(sphere * permille / 1000, most))
}

/// A font size in proportion to the ball.
fn font_for(sphere: u64, permille: u64, least: u64, most: u64) -> (r: u64)
    requires
        permille <= 1000,
        least <= most,
    ensures
        r == font(sphere as nat, permille as nat, least as nat, most as nat),
{
    assert(sphere as nat * permille as nat <= u64::MAX as nat * 1000) by (nonlinear_arith)
        requires
            permille <= 1000,
            sphere <= u64::MAX,
    ;
    let size: u128 = sphere as u128 * permille as u128 / 1000;
    if size > most as u128 {
        most
    } else if (size as u64) < least {
        least
    } else {
        size as u64
    }
}

/// A circle in the middle of a window.
fn centered_circle(width: u64, height: u64, diameter: u64) -> (r: PlacedCircle)
    requires
        diameter <= width,
        diameter <= height,
    ensures
        r == centered(width as nat, height as nat, diameter as nat),
{
    PlacedCircle { left: (width - diameter) / 2, top: (height - diameter) / 2, diameter }
}

/// The clip circle around a ball in a window that caps the ball stays inside the window.
proof fn lemma_clip_inside(tokens: u64, hovered: bool, window: nat)
    requires
        window >= MIN_SANE_WINDOW,
    ensures
        clip_diameter(ball_diameter(tokens, hovered, window), window) <= window - CLIP_MARGIN,
        ball_diameter(tokens, hovered, window) <= window,
{
    assert(window * 70 / 100 + CLIP_MARGIN <= window);
}

impl FloatingView {
    /// A ball in the window `hwnd` that has no totals yet.
    pub fn new(hwnd: isize) -> (r: FloatingView)
        ensures
            r == (FloatingView { hwnd, total_tokens: 0, cost_micros: 0, hovered: false }),
    {
        FloatingView { hwnd, total_tokens: 0, cost_micros: 0, hovered: false }
    }

    /// Takes over the latest totals.
    pub fn set_totals(&mut self, total_tokens: u64, cost_micros: u64)
        ensures
            *final(self) == (FloatingView { total_tokens, cost_micros, ..*old(self) }),
    {
        self.total_tokens = total_tokens;
        self.cost_micros = cost_micros;
    }

    /// Takes note of the mouse entering or leaving the ball.
    pub fn set_hovered(&mut self, hovered: bool)
        ensures
            *final(self) == (FloatingView { hovered, ..*old(self) }),
    {
        self.hovered = hovered;
    }

    /// The ball, before the window caps it.
    pub fn sphere_diameter(&self) -> (r: u64)
        ensures
            r == sphere_diameter(self.total_tokens, self.hovered),
    {
        sphere_diameter_for(self.total_tokens, self.hovered)
    }

    /// Lays out a frame for a window with these sides.
    pub fn frame(&self, width: u64, height: u64) -> (r: BallFrame)
        ensures
            ({
                let (w, h) = frame_sides(width, height);
                let window = shorter(w, h);
                let sphere = ball_diameter(self.total_tokens, self.hovered, window);
                let clip = clip_diameter(sphere, window);
                &&& r.region == (RegionRequest {
                    hwnd: self.hwnd,
                    diameter: clip as u64,
                    window_size: window as u64,
                })
                &&& r.ball == centered(w, h, sphere)
                &&& r.rings@ == halo().map_values(
                    |layer: HaloLayer| ring(w, h, sphere, clip, layer),
                )
                &&& r.tokens@ == grouped(self.total_tokens as nat)
                &&& r.tokens_font == font(sphere, 160, 12 * PX as nat, 34 * PX as nat)
                &&& r.cost_font == font(sphere, 85, 9 * PX as nat, 18 * PX as nat)
            }),
            12_000_000 <= r.tokens_font <= 34_000_000,
            9_000_000 <= r.cost_font <= 18_000_000,
            r.region.hwnd == self.hwnd,
            r.rings@.len() == 4,
            r.ball.diameter <= r.region.diameter <= r.region.window_size,
    {
        let laid_out: bool = width >= MIN_SANE_WINDOW && height >= MIN_SANE_WINDOW;
        let w: u64 = if laid_out {
            width
        } else {
            WINDOW_SIZE
        };
        let h: u64 = if laid_out {
            height
        } else {
            WINDOW_SIZE
        };
        let window: u64 = if w <= h {
            w
        } else {
            h
        };
        let sphere: u64 = ball_diameter_for(self.total_tokens, self.hovered, window);
        let clip: u64 = clip_diameter_for(sphere, window);
        proof {
            lemma_clip_inside(self.total_tokens, self.hovered, window as nat);
        }
        let layers = halo_layers();
        let ghost ring_of = |layer: HaloLayer| ring(
            w as nat,
            h as nat,
            sphere as nat,
            clip as nat,
            layer,
        );
        let mut rings: Vec<PlacedRing> = Vec::new();
        let mut i: usize = 0;
        while i < layers.len()
            invariant
                i <= layers@.len(),
                layers@ == halo(),
                clip <= w,
                clip <= h,
                ring_of == (|layer: HaloLayer| ring(
                    w as nat,
                    h as nat,
                    sphere as nat,
                    clip as nat,
                    layer,
                )),
                rings@ == layers@.take(i as int).map_values(ring_of),
            decreases layers@.len() - i,
        {
            let layer = layers[i];
            let scaled: u128 = percent(sphere, layer.size_percent);
            let diameter: u64 = if scaled <= clip as u128 {
                scaled as u64
            } else {
                clip
            };
            rings.push(
                PlacedRing {
                    circle: centered_circle(w, h, diameter),
                    opacity_percent: layer.opacity_percent,
                },
            );
            assert(rings@ =~= layers@.take(i + 1).map_values(ring_of));
            i += 1;
        }
        assert(layers@.take(layers@.len() as int) =~= layers@);
        BallFrame {
            region: RegionRequest { hwnd: self.hwnd, diameter: clip, window_size: window },
            ball: centered_circle(w, h, sphere),
            rings,
            tokens: format_int_grouped(self.total_tokens),
            tokens_font: font_for(sphere, 160, 12 * PX, 34 * PX),
            cost_font: font_for(sphere, 85, 9 * PX, 18 * PX),
        }
    }
}

/// Without any usage the ball has its smallest diameter; from the reference usage on it has its
/// largest.
pub proof fn ball_has_its_bounds(tokens: u64, hovered: bool)
    ensures
        sphere_diameter(0, false) == MIN_SPHERE,
        tokens >= REF_TOKENS ==> sphere_diameter(tokens, false) == MAX_SPHERE,
        MIN_SPHERE <= sphere_diameter(tokens, hovered),
        sphere_diameter(tokens, hovered) * 100 <= MAX_SPHERE * HOVER_PERCENT,
{
    lemma_resting_diameter(0);
    lemma_resting_diameter(tokens);
}

/// More usage never makes the ball smaller.
pub proof fn ball_grows_with_usage(fewer: u64, more: u64, hovered: bool)
    requires
        fewer <= more,
    ensures
        sphere_diameter(fewer, hovered) <= sphere_diameter(more, hovered),
{
    let a = GROWTH_SQUARED as nat * counted_tokens(fewer);
    let b = GROWTH_SQUARED as nat * counted_tokens(more);
    assert(a <= b) by (nonlinear_arith)
        requires
            counted_tokens(fewer) <= counted_tokens(more),
            a == GROWTH_SQUARED as nat * counted_tokens(fewer),
            b == GROWTH_SQUARED as nat * counted_tokens(more),
    ;
    lemma_floor_sqrt_monotone(a, b);
}

/// Up to the reference usage, the growth of the ball is the square root of the usage: its square
/// is in proportion to the tokens, to within one unit of length.
pub proof fn growth_squares_to_usage(tokens: u64)
    requires
        tokens <= REF_TOKENS,
    ensures
        ({
            let growth = (sphere_diameter(tokens, false) - MIN_SPHERE) as nat;
            growth * growth <= GROWTH_SQUARED * tokens < (growth + 1) * (growth + 1)
        }),
{
    lemma_floor_sqrt(GROWTH_SQUARED as nat * counted_tokens(tokens));
}

/// The mouse over the ball makes it grow.
pub proof fn hover_grows_the_ball(tokens: u64)
    ensures
        sphere_diameter(tokens, true) > sphere_diameter(tokens, false),
{
    lemma_resting_diameter(tokens);
}

/// The window only ever shrinks the ball, to no more than its share of the window; in the window
/// that is asked for no ball is shrunk.
pub proof fn window_caps_the_ball(tokens: u64, hovered: bool, window: nat)
    ensures
        ball_diameter(tokens, hovered, window) <= sphere_diameter(tokens, hovered),
        ball_diameter(tokens, hovered, window) * 100 <= window * MAX_BALL_PERCENT,
        ball_diameter(tokens, hovered, window) <= window,
        ball_diameter(tokens, hovered, WINDOW_SIZE as nat) == sphere_diameter(tokens, hovered),
{
    ball_has_its_bounds(tokens, hovered);
}

/// The clip circle never cuts the ball, whatever the window.
pub proof fn clip_never_cuts_the_ball(sphere: nat, window: nat)
    ensures
        clip_diameter(sphere, window) >= sphere,
{
}

/// In any window that is large enough for it, the clip circle covers the glow of the ball, keeps
/// its pad around the ball, and keeps its margin to the edge of the window, at every usage. A
/// window is large enough where the share that the ball leaves free holds the pad and the margin.
pub proof fn clip_encloses_the_ball_with_margin(tokens: u64, hovered: bool, window: nat)
    requires
        window * (100 - MAX_BALL_PERCENT) >= 100 * (CLIP_PAD + CLIP_MARGIN),
    ensures
        ({
            let sphere = ball_diameter(tokens, hovered, window);
            let clip = clip_diameter(sphere, window);
            &&& clip >= sphere + CLIP_PAD
            &&& clip * 100 >= sphere * GLOW_PERCENT
            &&& clip <= window - CLIP_MARGIN
        }),
{
    ball_has_its_bounds(tokens, hovered);
    let sphere = ball_diameter(tokens, hovered, window);
    assert(window * (100 - MAX_BALL_PERCENT) == window * 30) by (nonlinear_arith);
    assert(17 <= sphere <= window * 70 / 100);
    assert(sphere * 126 / 100 * 100 >= sphere * 120);
}

/// A ball that leaves the margin free has its clip circle inside the window, margin and all.
pub proof fn clip_stays_inside_the_window(sphere: nat, window: nat)
    requires
        sphere + CLIP_MARGIN <= window,
    ensures
        clip_diameter(sphere, window) <= window - CLIP_MARGIN,
{
}

/// The largest ball and its glow fit into the window that is asked for.
pub proof fn ball_and_glow_fit_the_window(tokens: u64, hovered: bool)
    ensures
        sphere_diameter(tokens, hovered) * GLOW_PERCENT <= 100 * (WINDOW_SIZE - CLIP_MARGIN),
{
    ball_has_its_bounds(tokens, hovered);
}

/// The circle of the first frame encloses the ball that is drawn in it, whatever the window.
pub proof fn seeded_clip_is_generous(tokens: u64, hovered: bool, window: nat)
    requires
        window > 0,
    ensures
        window * SEED_CLIP_PERCENT > 100 * ball_diameter(tokens, hovered, window),
{
}

/// The ball and the rings around it share their middle, to within one unit of length, and so do
/// they with the window.
pub proof fn circles_share_their_middle(width: nat, height: nat, diameter: nat)
    requires
        diameter <= width <= u64::MAX,
        diameter <= height <= u64::MAX,
    ensures
        ({
            let c = centered(width, height, diameter);
            &&& 0 <= width - (2 * c.left + c.diameter) <= 1
            &&& 0 <= height - (2 * c.top + c.diameter) <= 1
        }),
{
}

/// The ball measures 144 pixels without usage and 232 at two hundred million tokens and above; in
/// between its growth is the root of the usage.
pub proof fn ball_measures_its_usage(tokens: u64)
    ensures
        sphere_diameter(0, false) == 144_000_000,
        tokens >= 200_000_000 ==> sphere_diameter(tokens, false) == 232_000_000,
        tokens <= 200_000_000 ==> ({
            let growth = sphere_diameter(tokens, false) - 144_000_000;
            &&& growth >= 0
            &&& growth * growth <= 38_720_000 * tokens
            &&& 38_720_000 * tokens < (growth + 1) * (growth + 1)
        }),
{
    ball_has_its_bounds(tokens, false);
    if tokens <= 200_000_000 {
        growth_squares_to_usage(tokens);
        lemma_floor_sqrt(GROWTH_SQUARED as nat * counted_tokens(tokens));
        assert(GROWTH_SQUARED as nat * counted_tokens(tokens) == 38_720_000 * tokens);
    }
}

/// Under the mouse the ball is six hundredths larger, cut off to a unit of length.
pub proof fn ball_under_the_mouse_is_six_percent_larger(tokens: u64)
    ensures
        100 * sphere_diameter(tokens, true) <= 106 * sphere_diameter(tokens, false) < 100 * (
        sphere_diameter(tokens, true) + 1),
{
}

/// A ball is drawn as large as its usage makes it, or as seven tenths of the window where that is
/// less.
pub proof fn ball_is_capped_at_seven_tenths(tokens: u64, hovered: bool, window: nat)
    ensures
        10 * sphere_diameter(tokens, hovered) <= 7 * window ==> ball_diameter(
            tokens,
            hovered,
            window,
        ) == sphere_diameter(tokens, hovered),
        10 * sphere_diameter(tokens, hovered) > 7 * window ==> 10 * ball_diameter(
            tokens,
            hovered,
            window,
        ) <= 7 * window < 10 * (ball_diameter(tokens, hovered, window) + 1),
{
}

/// The clip circle is 1.26 times the ball, or twelve pixels larger where that is more; it gives way
/// to the window less four pixels, but never below the ball.
pub proof fn clip_circle_is_as_large_as_it_can_be(sphere: nat, window: nat)
    ensures
        ({
            let glow = sphere * 126 / 100;
            let pad = sphere + 12_000_000;
            let wanted = if glow > pad {
                glow
            } else {
                pad
            };
            &&& wanted + 4_000_000 <= window ==> clip_diameter(sphere, window) == wanted
            &&& wanted + 4_000_000 > window && sphere + 4_000_000 <= window ==> clip_diameter(
                sphere,
                window,
            ) == window - 4_000_000
            &&& sphere + 4_000_000 > window ==> clip_diameter(sphere, window) == sphere
        }),
{
}

/// A frame is drawn for the window as measured, from 32 pixels on either side; else for the window
/// of 360 pixels that is asked for.
pub proof fn frames_are_drawn_for_the_measured_window(width: u64, height: u64)
    ensures
        width >= 32_000_000 && height >= 32_000_000 ==> frame_sides(width, height) == (
            width as nat,
            height as nat,
        ),
        width < 32_000_000 || height < 32_000_000 ==> frame_sides(width, height) == (
            360_000_000nat,
            360_000_000nat,
        ),
{
}

/// The glow has four rings, which are smaller and stronger from the outside in.
pub proof fn glow_has_four_rings()
    ensures
        halo().len() == 4,
        halo()[0] == (HaloLayer { size_percent: 120, opacity_percent: 6 }),
        halo()[1] == (HaloLayer { size_percent: 114, opacity_percent: 9 }),
        halo()[2] == (HaloLayer { size_percent: 108, opacity_percent: 13 }),
        halo()[3] == (HaloLayer { size_percent: 103, opacity_percent: 20 }),
{
}

/// A ring has its part of the ball as its diameter, or that of the clip circle where it is less,
/// stands in the middle of the window, and keeps its strength.
pub proof fn rings_are_parts_of_the_ball(
    width: nat,
    height: nat,
    sphere: nat,
    clip: nat,
    layer: HaloLayer,
)
    requires
        clip <= width <= u64::MAX,
        clip <= height <= u64::MAX,
    ensures
        ({
            let r = ring(width, height, sphere, clip, layer);
            let part = sphere * layer.size_percent as nat / 100;
            &&& r.opacity_percent == layer.opacity_percent
            &&& part <= clip ==> r.circle.diameter == part
            &&& part > clip ==> r.circle.diameter == clip
            &&& 0 <= width - (2 * r.circle.left + r.circle.diameter) <= 1
            &&& 0 <= height - (2 * r.circle.top + r.circle.diameter) <= 1
        }),
{
}

/// A circle in the middle of a window has the diameter that is asked for.
pub proof fn centered_circles_keep_their_diameter(width: nat, height: nat, diameter: nat)
    requires
        diameter <= width <= u64::MAX,
        diameter <= height <= u64::MAX,
    ensures
        centered(width, height, diameter).diameter == diameter,
        2 * centered(width, height, diameter).left <= width - diameter,
        width - diameter <= 2 * centered(width, height, diameter).left + 1,
        2 * centered(width, height, diameter).top <= height - diameter,
        height - diameter <= 2 * centered(width, height, diameter).top + 1,
{
}

/// A font grows with the ball, in thousandths of it, between its least and its largest size.
pub proof fn fonts_grow_between_their_bounds(sphere: nat, permille: nat, least: nat, most: nat)
    requires
        least <= most,
    ensures
        ({
            let size = sphere * permille / 1000;
            &&& size < least ==> font(sphere, permille, least, most) == least
            &&& size > most ==> font(sphere, permille, least, most) == most
            &&& least <= size <= most ==> font(sphere, permille, least, most) == size
        }),
{
}

/// The smaller of the sides of a window is the one that the ball and its circle are measured by.
pub proof fn shorter_side_measures(a: nat, b: nat)
    ensures
        shorter(a, b) <= a,
        shorter(a, b) <= b,
        shorter(a, b) == a || shorter(a, b) == b,
        longer(a, b) >= a,
        longer(a, b) >= b,
        longer(a, b) == a || longer(a, b) == b,
{
}

/// A ball that has no totals yet shows none, in its window.
pub proof fn fresh_ball_shows_no_totals(hwnd: isize, r: FloatingView)
    requires
        call_ensures(FloatingView::new, (hwnd,), r),
    ensures
        r.hwnd == hwnd,
        r.total_tokens == 0,
        r.cost_micros == 0,
        !r.hovered,
{
}

/// Totals that are taken over are shown, and change nothing else.
pub proof fn totals_are_taken_over(view: &mut FloatingView, tokens: u64, cost: u64, r: ())
    requires
        call_ensures(FloatingView::set_totals, (view, tokens, cost), r),
    ensures
        final(view).total_tokens == tokens,
        final(view).cost_micros == cost,
        final(view).hwnd == old(view).hwnd,
        final(view).hovered == old(view).hovered,
{
}

/// The mouse that enters or leaves the ball is noted, and changes nothing else.
pub proof fn mouse_is_noted(view: &mut FloatingView, hovered: bool, r: ())
    requires
        call_ensures(FloatingView::set_hovered, (view, hovered), r),
    ensures
        final(view).hovered == hovered,
        final(view).total_tokens == old(view).total_tokens,
        final(view).cost_micros == old(view).cost_micros,
        final(view).hwnd == old(view).hwnd,
{
}

/// The first frame is clipped to a circle of 98 hundredths of the window of 360 pixels.
pub proof fn first_clip_is_nearly_the_window(hwnd: isize, r: RegionRequest)
    requires
        call_ensures(seed_window_region, (hwnd,), r),
    ensures
        r.hwnd == hwnd,
        r.window_size == 360_000_000,
        100 * r.diameter == 98 * r.window_size,
{
}

/// A frame has the ball of its usage in the middle of the window, is clipped to the circle around
/// it, and shows the tokens in full. The fonts are 160 and 85 thousandths of the ball, from 12 to
/// 34 and from 9 to 18 pixels.
pub proof fn frame_shows_the_usage(view: FloatingView, width: u64, height: u64, r: BallFrame)
    requires
        call_ensures(FloatingView::frame, (&view, width, height), r),
        width >= 32_000_000,
        height >= 32_000_000,
    ensures
        r.region.hwnd == view.hwnd,
        r.region.window_size == if width <= height {
            width
        } else {
            height
        },
        r.ball.diameter == ball_diameter(
            view.total_tokens,
            view.hovered,
            r.region.window_size as nat,
        ),
        r.region.diameter == clip_diameter(r.ball.diameter as nat, r.region.window_size as nat),
        0 <= width - (2 * r.ball.left + r.ball.diameter) <= 1,
        0 <= height - (2 * r.ball.top + r.ball.diameter) <= 1,
        r.rings@.len() == 4,
        r.tokens@ == grouped(view.total_tokens as nat),
        12_000_000 <= r.tokens_font <= 34_000_000,
        12_000_000 < r.tokens_font < 34_000_000 ==> r.tokens_font == r.ball.diameter as nat * 160
            / 1000,
        9_000_000 <= r.cost_font <= 18_000_000,
        9_000_000 < r.cost_font < 18_000_000 ==> r.cost_font == r.ball.diameter as nat * 85 / 1000,
{
    let window = shorter(width as nat, height as nat);
    lemma_clip_inside(view.total_tokens, view.hovered, window);
}

} // verus!
