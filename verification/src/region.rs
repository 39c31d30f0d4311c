//! The circle that a window is clipped to, in its own pixels.

use vstd::prelude::*;
use crate::floating::RegionRequest;

verus! {

/// A rectangle, in pixels of the screen.
#[derive(Debug, Clone, Copy, PartialEq, Eq, Structural)]
pub struct Rect {
    pub left: i32,
    pub top: i32,
    pub right: i32,
    pub bottom: i32,
}

impl Rect {
    /// How wide the rectangle is.
    pub open spec fn spec_width(self) -> int {
        self.right - self.left
    }

    /// How high the rectangle is.
    pub open spec fn spec_height(self) -> int {
        self.bottom - self.top
    }

    /// How wide the rectangle is.
    pub fn width(&self) -> (r: i64)
        ensures
            r == self.spec_width(),
    {
        self.right as i64 - self.left as i64
    }

    /// How high the rectangle is.
    pub fn height(&self) -> (r: i64)
        ensures
            r == self.spec_height(),
    {
        self.bottom as i64 - self.top as i64
    }
}

/// The resolution of a window. Where it is not known it is the one at which a logical pixel is
/// one pixel of the screen.
pub open spec fn dpi_or_base(dpi: u32) -> nat {
    if dpi == 0 {
        96
    } else {
        dpi as nat
    }
}

/// A number of pixels in millionths.
pub open spec fn millionths(pixels: nat) -> nat {
    pixels * 1_000_000
}

/// The sides of a window, in millionths of a pixel of the screen: those of its client area, or,
/// where that is not laid out yet, those that its logical size comes to at its resolution.
pub open spec fn device_sides(client: Rect, dpi: u32, window_size: u64) -> (nat, nat) {
    if client.spec_width() > 0 && client.spec_height() > 0 {
        (millionths(client.spec_width() as nat), millionths(client.spec_height() as nat))
    } else {
        let side = window_size as nat * dpi_or_base(dpi) / 96;
        (side, side)
    }
}

/// The smaller side.
pub open spec fn smaller_side(sides: (nat, nat)) -> nat {
    if sides.0 <= sides.1 {
        sides.0
    } else {
        sides.1
    }
}

/// A length in millionths, rounded to whole pixels, a half upwards.
pub open spec fn rounded(length: nat) -> nat {
    (2 * length + 1_000_000) / 2_000_000
}

/// The share `diameter / window_size` of `side`, rounded to whole pixels, a half upwards. A
/// diameter beyond the window counts as the window.
pub open spec fn share_in_pixels(side: nat, diameter: nat, window_size: nat) -> nat {
    let part = if diameter <= window_size {
        diameter
    } else {
        window_size
    };
    (2 * (side * part) + millionths(window_size)) / (2 * millionths(window_size))
}

/// The diameter of the circle: its share of the smaller side, but at least one pixel and no more
/// than the side.
pub open spec fn circle_diameter(side: nat, diameter: nat, window_size: nat) -> nat {
    let share = share_in_pixels(side, diameter, window_size);
    if share < 1 {
        1
    } else if share > rounded(side) {
        rounded(side)
    } else {
        share
    }
}

/// Where a circle of `diameter` pixels starts on a side, so that it stands in the middle.
pub open spec fn middle(side: nat, diameter: nat) -> nat {
    if side < millionths(diameter) {
        0
    } else {
        ((side - millionths(diameter) + 1_000_000) as nat) / 2_000_000
    }
}

/// The circle that a window is clipped to, by the square around it.
pub open spec fn circle_region(request: RegionRequest, client: Rect, dpi: u32) -> Rect {
    let sides = device_sides(client, dpi, request.window_size);
    let d = circle_diameter(
        smaller_side(sides),
        request.diameter as nat,
        request.window_size as nat,
    );
    let left = middle(sides.0, d);
    let top = middle(sides.1, d);
    Rect {
        left: left as i32,
        top: top as i32,
        right: (left + d) as i32,
        bottom: (top + d) as i32,
    }
}

/// Whether a request asks for a circle at all.
pub open spec fn asks_for_circle(request: RegionRequest) -> bool {
    request.hwnd != 0 && request.window_size > 0 && request.diameter > 0
}

/// Whether the sides of a window come to whole pixels that can be counted.
pub open spec fn countable(sides: (nat, nat)) -> bool {
    &&& 2 * smaller_side(sides) >= 1_000_000
    &&& sides.0 < millionths(i32::MAX as nat)
    &&& sides.1 < millionths(i32::MAX as nat)
}

/// The sides of a window, in millionths of a pixel of the screen, where they can be counted.
fn sides_of(client: Rect, dpi: u32, window_size: u64) -> (r: Option<(u64, u64)>)
    ensures
        match r {
            Some(sides) => device_sides(client, dpi, window_size) == (
                sides.0 as nat,
                sides.1 as nat,
            ) && countable(device_sides(client, dpi, window_size)),
            None => !countable(device_sides(client, dpi, window_size)),
        },
{
    let (w, h): (u128, u128) = if client.width() > 0 && client.height() > 0 {
        (client.width() as u128 * 1_000_000, client.height() as u128 * 1_000_000)
    } else {
        let dpi: u32 = if dpi == 0 {
            96
        } else {
            dpi
        };
        assert(window_size as nat * dpi as nat <= 0xffff_ffff_ffff_ffff * 0xffff_ffff)
            by (nonlinear_arith)
            requires
                window_size <= 0xffff_ffff_ffff_ffff,
                dpi <= 0xffff_ffff,
        ;
        let side: u128 = window_size as u128 * dpi as u128 / 96;
        (side, side)
    };
    let limit: u128 = 2_147_483_647_000_000;
    if 2 * w < 1_000_000 || 2 * h < 1_000_000 || w >= limit || h >= limit {
        None
    } else {
        Some((w as u64, h as u64))
    }
}

/// Whether a window can be clipped as asked: nothing is asked of it, or its sides come to whole
/// pixels that can be counted.
pub fn can_be_clipped(request: RegionRequest, client: Rect, dpi: u32) -> (r: bool)
    ensures
        r == (asks_for_circle(request) ==> countable(
            device_sides(client, dpi, request.window_size),
        )),
{
    if request.hwnd == 0 || request.window_size == 0 || request.diameter == 0 {
        return true;
    }
    sides_of(client, dpi, request.window_size).is_some()
}

/// The share of a side, in whole pixels.
fn share_of_side(side: u64, diameter: u64, window_size: u64) -> (r: u64)
    requires
        window_size > 0,
        side < millionths(i32::MAX as nat),
    ensures
        r == share_in_pixels(side as nat, diameter as nat, window_size as nat),
        r <= rounded(side as nat),
{
    let part: u64 = if diameter <= window_size {
        diameter
    } else {
        window_size
    };
    let ghost s = side as nat;
    let ghost p = part as nat;
    let ghost w = window_size as nat;
    assert(s * p <= 2_147_483_647_000_000 * 0xffff_ffff_ffff_ffff) by (nonlinear_arith)
        requires
            s <= 2_147_483_647_000_000,
            p <= 0xffff_ffff_ffff_ffff,
    ;
    assert(s * p <= s * w) by (nonlinear_arith)
        requires
            p <= w,
    ;
    let whole: u128 = side as u128 * part as u128;
    let scale: u128 = window_size as u128 * 1_000_000;
    let r: u128 = (2 * whole + scale) / (2 * scale);
    proof {
        lemma_share_bound(s, p, w);
    }
    r as u64
}

/// A share of a side is no more than the side.
proof fn lemma_share_bound(side: nat, part: nat, window: nat)
    requires
        part <= window,
        window > 0,
    ensures
        (2 * (side * part) + millionths(window)) / (2 * millionths(window)) <= rounded(side),
{
    let a = 2 * (side * part) + millionths(window);
    let b = 2 * millionths(window);
    let c = window * (2 * side + 1_000_000);
    assert(a <= c) by (nonlinear_arith)
        requires
            part <= window,
            a == 2 * (side * part) + window * 1_000_000,
            c == window * (2 * side + 1_000_000),
    ;
    assert(b == window * 2_000_000);
    vstd::arithmetic::div_mod::lemma_div_is_ordered(a as int, c as int, b as int);
    vstd::arithmetic::div_mod::lemma_div_multiples_vanish_quotient(
        window as int,
        (2 * side + 1_000_000) as int,
        2_000_000,
    );
}

/// Where a circle starts on a side.
fn middle_of(side: u64, diameter: u64) -> (r: u64)
    requires
        side < millionths(i32::MAX as nat),
        diameter <= rounded(side as nat),
    ensures
        r == middle(side as nat, diameter as nat),
        r + diameter <= i32::MAX,
{
    let whole: u64 = diameter * 1_000_000;
    if side < whole {
        0
    } else {
        (side - whole + 1_000_000) / 2_000_000
    }
}

/// The circle that a window is to be clipped to, in its own pixels, or nothing where there is no
/// window or no circle. `client` is the client area of the window and `dpi` its resolution.
pub fn set_window_circle_region(request: RegionRequest, client: Rect, dpi: u32) -> (r: Option<Rect>)
    requires
        asks_for_circle(request) ==> countable(device_sides(client, dpi, request.window_size)),
    ensures
        r == (if asks_for_circle(request) {
            Some(circle_region(request, client, dpi))
        } else {
            None
        }),
{
    if request.hwnd == 0 || request.window_size == 0 || request.diameter == 0 {
        return None;
    }
    let (w, h): (u64, u64) = sides_of(client, dpi, request.window_size).unwrap();
    let side: u64 = if w <= h {
        w
    } else {
        h
    };
    let share: u64 = share_of_side(side, request.diameter, request.window_size);
    let d: u64 = if share < 1 {
        1
    } else {
        share
    };
    let left: u64 = middle_of(w, d);
    let top: u64 = middle_of(h, d);
    Some(
        Rect {
            left: left as i32,
            top: top as i32,
            right: (left + d) as i32,
            bottom: (top + d) as i32,
        },
    )
}

/// The size of a client area in logical pixels, in millionths.
pub open spec fn logical_size(hwnd: isize, client: Rect, dpi: u32) -> Option<(nat, nat)> {
    if hwnd == 0 || client.spec_width() <= 0 || client.spec_height() <= 0 {
        None
    } else {
        Some(
            (
                millionths(client.spec_width() as nat) * 96 / dpi_or_base(dpi),
                millionths(client.spec_height() as nat) * 96 / dpi_or_base(dpi),
            ),
        )
    }
}

/// The size of the client area of a window in logical pixels, in millionths; nothing where it is
/// not laid out yet.
pub fn client_size_logical(hwnd: isize, client: Rect, dpi: u32) -> (r: Option<(u64, u64)>)
    ensures
        match r {
            Some(size) => logical_size(hwnd, client, dpi) == Some((size.0 as nat, size.1 as nat)),
            None => logical_size(hwnd, client, dpi) is None,
        },
{
    if hwnd == 0 || client.width() <= 0 || client.height() <= 0 {
        return None;
    }
    let dpi: u64 = if dpi == 0 {
        96
    } else {
        dpi as u64
    };
    let w: u64 = client.width() as u64 * 1_000_000 * 96;
    let h: u64 = client.height() as u64 * 1_000_000 * 96;
    Some((w / dpi, h / dpi))
}

/// A larger circle never comes out smaller: one that encloses the ball in logical pixels encloses
/// it in the pixels of the window.
pub proof fn larger_circle_stays_larger(side: nat, smaller: nat, larger: nat, window_size: nat)
    requires
        smaller <= larger,
        window_size > 0,
    ensures
        circle_diameter(side, smaller, window_size) <= circle_diameter(side, larger, window_size),
{
    let a = if smaller <= window_size {
        smaller
    } else {
        window_size
    };
    let b = if larger <= window_size {
        larger
    } else {
        window_size
    };
    assert(side * a <= side * b) by (nonlinear_arith)
        requires
            a <= b,
    ;
    lemma_share_bound(side, a, window_size);
    lemma_share_bound(side, b, window_size);
    vstd::arithmetic::div_mod::lemma_div_is_ordered(
        (2 * (side * a) + millionths(window_size)) as int,
        (2 * (side * b) + millionths(window_size)) as int,
        (2 * millionths(window_size)) as int,
    );
}

/// The unit of the logical pixels does not matter: a circle and a window that are both measured
/// in another come out as the same circle.
pub proof fn unit_of_length_cancels(side: nat, diameter: nat, window_size: nat, factor: nat)
    requires
        window_size > 0,
        factor > 0,
    ensures
        circle_diameter(side, factor * diameter, factor * window_size) == circle_diameter(
            side,
            diameter,
            window_size,
        ),
{
    let part = if diameter <= window_size {
        diameter
    } else {
        window_size
    };
    assert(diameter <= window_size <==> factor * diameter <= factor * window_size)
        by (nonlinear_arith)
        requires
            factor > 0,
    ;
    let a = 2 * (side * part) + millionths(window_size);
    let d = 2 * millionths(window_size);
    assert(2 * (side * (factor * part)) + millionths(factor * window_size) == factor * a)
        by (nonlinear_arith)
        requires
            a == 2 * (side * part) + window_size * 1_000_000,
            millionths(factor * window_size) == factor * window_size * 1_000_000,
    ;
    assert(2 * millionths(factor * window_size) == factor * d) by (nonlinear_arith)
        requires
            d == 2 * (window_size * 1_000_000),
            millionths(factor * window_size) == factor * window_size * 1_000_000,
    ;
    assert(factor * window_size > 0) by (nonlinear_arith)
        requires
            factor > 0,
            window_size > 0,
    ;
    vstd::arithmetic::div_mod::lemma_div_multiples_vanish_quotient(
        factor as int,
        a as int,
        d as int,
    );
}

/// A laid-out window holds its circle: the circle is not empty, it is as wide as it is high, it
/// stays inside the client area, and it stands in its middle to within a pixel.
pub proof fn circle_stays_in_the_window(request: RegionRequest, client: Rect, dpi: u32)
    requires
        asks_for_circle(request),
        client.spec_width() > 0,
        client.spec_height() > 0,
        countable(device_sides(client, dpi, request.window_size)),
    ensures
        ({
            let c = circle_region(request, client, dpi);
            &&& c.spec_width() == c.spec_height()
            &&& c.spec_width() >= 1
            &&& c.left >= 0
            &&& c.top >= 0
            &&& c.right <= client.spec_width()
            &&& c.bottom <= client.spec_height()
            &&& -1 <= c.left - (client.spec_width() - c.right) <= 1
            &&& -1 <= c.top - (client.spec_height() - c.bottom) <= 1
        }),
{
    let sides = device_sides(client, dpi, request.window_size);
    let side = smaller_side(sides);
    let d = circle_diameter(side, request.diameter as nat, request.window_size as nat);
    assert(d <= rounded(side));
    let w = client.spec_width() as nat;
    let h = client.spec_height() as nat;
    assert(rounded(millionths(w)) == w);
    assert(rounded(millionths(h)) == h);
    assert(middle(millionths(w), d) == (w - d + 1) / 2);
    assert(middle(millionths(h), d) == (h - d + 1) / 2);
}

/// A rectangle is as wide as its right edge is from its left, and as high as its bottom is from its
/// top.
pub proof fn edges_give_the_extent(r: Rect)
    ensures
        r.spec_width() == r.right - r.left,
        r.spec_height() == r.bottom - r.top,
{
}

/// A circle is asked for where there is a window, and neither it nor the circle is empty.
pub proof fn empty_requests_ask_for_nothing(request: RegionRequest)
    ensures
        asks_for_circle(request) <==> request.hwnd != 0 && request.window_size != 0
            && request.diameter != 0,
{
}

/// The sides of a window are those of its client area, in millionths of a pixel; where that is not
/// laid out, they are its logical size at its resolution, of which 96 dots are one to one and an
/// unknown one is taken for that.
pub proof fn sides_are_those_of_the_client_area(client: Rect, dpi: u32, window_size: u64)
    ensures
        client.left < client.right && client.top < client.bottom ==> device_sides(
            client,
            dpi,
            window_size,
        ) == (
            ((client.right - client.left) * 1_000_000) as nat,
            ((client.bottom - client.top) * 1_000_000) as nat,
        ),
        !(client.left < client.right && client.top < client.bottom) ==> ({
            let sides = device_sides(client, dpi, window_size);
            let dots = if dpi == 0 {
                96nat
            } else {
                dpi as nat
            };
            &&& sides.0 == sides.1
            &&& 96 * sides.0 <= window_size * dots < 96 * (sides.0 + 1)
        }),
{
    let dots = dpi_or_base(dpi);
    let whole = window_size as nat * dots;
    assert(96 * (whole / 96) <= whole < 96 * (whole / 96 + 1));
}

/// The smaller side is one of the two, and no larger than either.
pub proof fn smaller_side_is_the_smaller(a: nat, b: nat)
    ensures
        smaller_side((a, b)) <= a,
        smaller_side((a, b)) <= b,
        smaller_side((a, b)) == a || smaller_side((a, b)) == b,
{
}

/// A length is rounded to the nearest pixel, a half upwards.
pub proof fn lengths_are_rounded_to_the_nearest_pixel(length: nat)
    ensures
        2_000_000 * rounded(length) <= 2 * length + 1_000_000 < 2_000_000 * (rounded(length) + 1),
{
}

/// The share of a side is to the side as the diameter is to the window, to the nearest pixel, a
/// half upwards; a diameter beyond the window counts as the window.
pub proof fn share_is_in_proportion(side: nat, diameter: nat, window_size: nat)
    requires
        window_size > 0,
    ensures
        ({
            let part = if diameter > window_size {
                window_size
            } else {
                diameter
            };
            let pixels = share_in_pixels(side, diameter, window_size);
            let scale = window_size * 1_000_000;
            &&& 2 * scale * pixels <= 2 * (side * part) + scale
            &&& 2 * (side * part) + scale < 2 * scale * (pixels + 1)
        }),
{
    let part = if diameter > window_size {
        window_size
    } else {
        diameter
    };
    let scale = window_size * 1_000_000;
    let a = 2 * (side * part) + scale;
    let d = 2 * scale;
    let q = a / d;
    assert(millionths(window_size) == scale);
    assert(d * q <= a && a < d * (q + 1)) by (nonlinear_arith)
        requires
            d > 0,
            q == a / d,
    ;
}

/// The circle has its share of the smaller side as its diameter, but at least one pixel.
pub proof fn circle_has_its_share(side: nat, diameter: nat, window_size: nat)
    requires
        window_size > 0,
        2 * side >= 1_000_000,
    ensures
        ({
            let share = share_in_pixels(side, diameter, window_size);
            &&& share == 0 ==> circle_diameter(side, diameter, window_size) == 1
            &&& share > 0 ==> circle_diameter(side, diameter, window_size) == share
        }),
{
    let part = if diameter <= window_size {
        diameter
    } else {
        window_size
    };
    lemma_share_bound(side, part, window_size);
}

/// A circle starts on a side so that what is left of it is the same on both ends, to the nearest
/// pixel; one that is larger than the side starts at its edge.
pub proof fn circle_starts_in_the_middle(side: nat, diameter: nat)
    ensures
        diameter * 1_000_000 > side ==> middle(side, diameter) == 0,
        diameter * 1_000_000 <= side ==> ({
            let left = side - diameter * 1_000_000;
            &&& 2_000_000 * middle(side, diameter) <= left + 1_000_000
            &&& left + 1_000_000 < 2_000_000 * (middle(side, diameter) + 1)
        }),
{
}

/// The circle of a window is a square of its diameter, which starts in the middle of either side.
pub proof fn circle_is_a_square_in_the_middle(request: RegionRequest, client: Rect, dpi: u32)
    requires
        asks_for_circle(request),
        countable(device_sides(client, dpi, request.window_size)),
    ensures
        ({
            let sides = device_sides(client, dpi, request.window_size);
            let d = circle_diameter(
                smaller_side(sides),
                request.diameter as nat,
                request.window_size as nat,
            );
            let c = circle_region(request, client, dpi);
            &&& c.left == middle(sides.0, d)
            &&& c.top == middle(sides.1, d)
            &&& c.right - c.left == d
            &&& c.bottom - c.top == d
        }),
{
    let sides = device_sides(client, dpi, request.window_size);
    let side = smaller_side(sides);
    let d = circle_diameter(side, request.diameter as nat, request.window_size as nat);
    assert(d <= rounded(side));
}

/// The logical size of a client area is its size in pixels at 96 dots, in millionths; a window that
/// is not there or not laid out has none.
pub proof fn logical_size_is_at_96_dots(hwnd: isize, client: Rect, dpi: u32)
    ensures
        hwnd == 0 || client.right <= client.left || client.bottom <= client.top ==> logical_size(
            hwnd,
            client,
            dpi,
        ) is None,
        hwnd != 0 && client.right > client.left && client.bottom > client.top ==> (logical_size(
            hwnd,
            client,
            dpi,
        ) matches Some(size) && ({
            let dots = if dpi == 0 {
                96nat
            } else {
                dpi as nat
            };
            let w = (client.right - client.left) * 96_000_000;
            let h = (client.bottom - client.top) * 96_000_000;
            &&& dots * size.0 <= w < dots * (size.0 + 1)
            &&& dots * size.1 <= h < dots * (size.1 + 1)
        })),
{
    if hwnd != 0 && client.right > client.left && client.bottom > client.top {
        let dots = dpi_or_base(dpi);
        let w = ((client.right - client.left) * 96_000_000) as nat;
        let h = ((client.bottom - client.top) * 96_000_000) as nat;
        assert(dots * (w / dots) <= w < dots * (w / dots + 1)) by (nonlinear_arith)
            requires
                dots > 0,
        ;
        assert(dots * (h / dots) <= h < dots * (h / dots + 1)) by (nonlinear_arith)
            requires
                dots > 0,
        ;
    }
}

/// The sides of a window can be counted where the smaller comes to half a pixel and neither to more
/// pixels than a coordinate can hold.
pub proof fn countable_sides_are_whole_pixels(a: nat, b: nat)
    ensures
        countable((a, b)) <==> a >= 500_000 && b >= 500_000 && a < 2_147_483_647_000_000 && b
            < 2_147_483_647_000_000,
{
}

/// A window is clipped to its circle, or not at all where none is asked for.
pub proof fn window_is_clipped_as_asked(
    request: RegionRequest,
    client: Rect,
    dpi: u32,
    r: Option<Rect>,
)
    requires
        call_ensures(set_window_circle_region, (request, client, dpi), r),
        client.left < client.right,
        client.top < client.bottom,
        client.right - client.left < 0x7fff_ffff,
        client.bottom - client.top < 0x7fff_ffff,
    ensures
        request.hwnd == 0 || request.window_size == 0 || request.diameter == 0 ==> r is None,
        request.hwnd != 0 && request.window_size != 0 && request.diameter != 0 ==> (r matches Some(c)
            && c.right - c.left == c.bottom - c.top && c.right - c.left >= 1 && 0 <= c.left && 0
            <= c.top && c.right <= client.right - client.left && c.bottom <= client.bottom
            - client.top),
{
    if asks_for_circle(request) {
        circle_stays_in_the_window(request, client, dpi);
    }
}

/// A window can be clipped where no circle is asked for, or its sides can be counted.
pub proof fn clipping_is_refused_without_pixels(
    request: RegionRequest,
    client: Rect,
    dpi: u32,
    r: bool,
)
    requires
        call_ensures(can_be_clipped, (request, client, dpi), r),
    ensures
        request.hwnd == 0 || request.window_size == 0 || request.diameter == 0 ==> r,
        client.left < client.right && client.top < client.bottom && client.right - client.left
            < 0x7fff_ffff && client.bottom - client.top < 0x7fff_ffff ==> r,
{
}

} // verus!
