//! The floating ball under the mouse: dragging, double clicks and the refresh icon.
//!
//! The window of the ball sees the messages of the system before anyone else. What the system
//! says along with a message comes in as plain values; what is to be done goes out as an action.

use vstd::prelude::*;
use crate::region::{client_size_logical, logical_size, Rect};

verus! {

/// The mouse moved over the frame of the window.
pub const WM_NCMOUSEMOVE: u32 = 0x00A0;

/// A point of the window is asked about.
pub const WM_NCHITTEST: u32 = 0x0084;

/// The left button went down on the frame of the window.
pub const WM_NCLBUTTONDOWN: u32 = 0x00A1;

/// The left button went up on the frame of the window.
pub const WM_NCLBUTTONUP: u32 = 0x00A2;

/// The left button was double-clicked on the frame of the window.
pub const WM_NCLBUTTONDBLCLK: u32 = 0x00A3;

/// The mouse moved.
pub const WM_MOUSEMOVE: u32 = 0x0200;

/// The left button went down.
pub const WM_LBUTTONDOWN: u32 = 0x0201;

/// The left button went up.
pub const WM_LBUTTONUP: u32 = 0x0202;

/// The left button was double-clicked.
pub const WM_LBUTTONDBLCLK: u32 = 0x0203;

/// The answer that a point belongs to the caption.
pub const HTCAPTION: isize = 2;

/// The flags with which a drag moves the window: it keeps its size, its place in the stack of
/// windows, and the focus where it is.
pub const MOVE_FLAGS: u32 = 0x0015;

/// A point of the screen.
#[derive(Debug, Clone, Copy, PartialEq, Eq, Structural)]
pub struct Point {
    pub x: i32,
    pub y: i32,
}

/// A rectangle in the window of the ball, in millionths of a logical pixel.
#[derive(Debug, Clone, Copy, PartialEq, Eq, Structural)]
pub struct HitRect {
    pub left: i64,
    pub top: i64,
    pub right: i64,
    pub bottom: i64,
}

/// A press of the left button.
#[derive(Debug, Clone, Copy, PartialEq, Eq, Structural)]
pub struct Click {
    /// The time of the message, in milliseconds.
    pub time: i32,
    pub at: Point,
}

/// Where the ball was grabbed: the cursor, and the corner of the window.
#[derive(Debug, Clone, Copy, PartialEq, Eq, Structural)]
pub struct Grab {
    pub cursor: Point,
    pub origin: Point,
}

/// The ball under the mouse.
#[derive(Debug)]
pub struct BallDrag {
    pub grab: Grab,
    pub dragging: bool,
    pub last_click: Option<Click>,
    /// The refresh icon, once it was drawn.
    pub refresh_hit: Option<HitRect>,
}

/// What the system says along with a message.
#[derive(Debug, Clone, Copy)]
pub struct BallInput {
    pub hwnd: isize,
    /// The time of the message, in milliseconds.
    pub time: i32,
    /// Where the cursor is, where that can be read.
    pub cursor: Option<Point>,
    /// Where the window is, where that can be read.
    pub window: Option<Rect>,
    pub client: Rect,
    pub dpi: u32,
    /// How far apart two presses of a double click may be, in pixels.
    pub double_click_width: i32,
    /// How long after the first the second press of a double click may come, in milliseconds.
    pub double_click_time: u32,
}

/// What is to be done.
#[derive(Debug, Clone, Copy, PartialEq, Eq, Structural)]
pub enum BallAction {
    Nothing,
    /// Refresh the totals.
    Refresh,
    /// Let go of the mouse, and open the main window.
    OpenMain,
    /// Take hold of the mouse.
    Capture,
    /// Let go of the mouse.
    Release,
    /// Move the window.
    MoveTo { x: i64, y: i64 },
}

/// What is to be done, and the answer to the message. A message without an answer is passed on.
#[derive(Debug, Clone, Copy, PartialEq, Eq, Structural)]
pub struct BallReply {
    pub action: BallAction,
    pub answer: Option<isize>,
}

/// An action behind which the message is swallowed.
pub open spec fn swallow(action: BallAction) -> BallReply {
    BallReply { action, answer: Some(0) }
}

/// An action behind which the message is passed on.
pub open spec fn pass(action: BallAction) -> BallReply {
    BallReply { action, answer: None }
}

/// Whether a place `offset` pixels into a window of `extent` pixels, taken in proportion to the
/// `logical` size of the window, is from `low` to `high`.
pub open spec fn within(offset: int, extent: int, logical: nat, low: i64, high: i64) -> bool {
    low * extent <= offset * logical <= high * extent
}

/// Whether the cursor is on the refresh icon.
pub open spec fn on_icon(ball: BallDrag, input: BallInput) -> bool {
    match (ball.refresh_hit, input.cursor, input.window) {
        (Some(hit), Some(cursor), Some(window)) => match logical_size(
            input.hwnd,
            input.client,
            input.dpi,
        ) {
            Some(size) => {
                &&& window.spec_width() > 0
                &&& window.spec_height() > 0
                &&& within(
                    cursor.x - window.left,
                    window.spec_width(),
                    size.0,
                    hit.left,
                    hit.right,
                )
                &&& within(
                    cursor.y - window.top,
                    window.spec_height(),
                    size.1,
                    hit.top,
                    hit.bottom,
                )
            },
            None => false,
        },
        _ => false,
    }
}

/// The distance of two numbers.
pub open spec fn apart(a: int, b: int) -> int {
    if a >= b {
        a - b
    } else {
        b - a
    }
}

/// How far apart two presses of a double click may be: at least one pixel.
pub open spec fn tolerance(width: i32) -> int {
    if width >= 1 {
        width as int
    } else {
        1
    }
}

/// Whether a press is the second of a double click.
pub open spec fn is_double(ball: BallDrag, input: BallInput) -> bool {
    match (ball.last_click, input.cursor) {
        (Some(last), Some(cursor)) => {
            &&& apart(input.time as int, last.time as int) <= input.double_click_time
            &&& apart(cursor.x as int, last.at.x as int) <= tolerance(input.double_click_width)
            &&& apart(cursor.y as int, last.at.y as int) <= tolerance(input.double_click_width)
        },
        _ => false,
    }
}

/// The press that is remembered for the next.
pub open spec fn noted(ball: BallDrag, input: BallInput) -> BallDrag {
    BallDrag {
        last_click: match input.cursor {
            Some(cursor) => Some(Click { time: input.time, at: cursor }),
            None => ball.last_click,
        },
        ..ball
    }
}

/// The left button went down: on the icon it refreshes, the second of a double click opens the
/// main window, any other starts to drag the ball.
pub open spec fn pressed(ball: BallDrag, input: BallInput) -> (BallDrag, BallReply) {
    if on_icon(ball, input) {
        (ball, swallow(BallAction::Refresh))
    } else if is_double(ball, input) {
        (
            BallDrag { dragging: false, ..noted(ball, input) },
            swallow(BallAction::OpenMain),
        )
    } else {
        match (input.cursor, input.window) {
            (Some(cursor), Some(window)) => (
                BallDrag {
                    grab: Grab { cursor, origin: Point { x: window.left, y: window.top } },
                    dragging: true,
                    ..noted(ball, input)
                },
                swallow(BallAction::Capture),
            ),
            _ => (noted(ball, input), swallow(BallAction::Nothing)),
        }
    }
}

/// Where a drag takes the window: the cursor stays on the point where it grabbed the ball.
pub open spec fn dragged(grab: Grab, cursor: Point) -> BallAction {
    BallAction::MoveTo {
        x: (cursor.x - (grab.cursor.x - grab.origin.x)) as i64,
        y: (cursor.y - (grab.cursor.y - grab.origin.y)) as i64,
    }
}

/// The mouse moved.
pub open spec fn moved(ball: BallDrag, input: BallInput) -> BallReply {
    match input.cursor {
        Some(cursor) => if ball.dragging {
            pass(dragged(ball.grab, cursor))
        } else {
            pass(BallAction::Nothing)
        },
        None => pass(BallAction::Nothing),
    }
}

/// The left button went up: that ends a drag.
pub open spec fn released(ball: BallDrag) -> (BallDrag, BallReply) {
    if ball.dragging {
        (BallDrag { dragging: false, ..ball }, swallow(BallAction::Release))
    } else {
        (ball, pass(BallAction::Nothing))
    }
}

/// How the ball answers to a message.
pub open spec fn answered(ball: BallDrag, msg: u32, input: BallInput) -> (BallDrag, BallReply) {
    if msg == WM_NCHITTEST {
        (ball, BallReply { action: BallAction::Nothing, answer: Some(HTCAPTION) })
    } else if msg == WM_NCLBUTTONDOWN || msg == WM_LBUTTONDOWN {
        pressed(ball, input)
    } else if msg == WM_MOUSEMOVE || msg == WM_NCMOUSEMOVE {
        (ball, moved(ball, input))
    } else if msg == WM_LBUTTONUP || msg == WM_NCLBUTTONUP {
        released(ball)
    } else if msg == WM_LBUTTONDBLCLK || msg == WM_NCLBUTTONDBLCLK {
        (BallDrag { dragging: false, ..ball }, swallow(BallAction::OpenMain))
    } else {
        (ball, pass(BallAction::Nothing))
    }
}

/// Whether a place in a window is, in proportion, from `low` to `high`.
fn is_within(offset: i64, extent: i64, logical: u64, low: i64, high: i64) -> (r: bool)
    requires
        -0x1_0000_0000 < offset < 0x1_0000_0000,
        0 < extent < 0x1_0000_0000,
    ensures
        r == within(offset as int, extent as int, logical as nat, low, high),
{
    assert(-0x1_0000_0000 * 0x1_0000_0000_0000_0000 <= offset * logical <= 0x1_0000_0000
        * 0x1_0000_0000_0000_0000) by (nonlinear_arith)
        requires
            -0x1_0000_0000 < offset < 0x1_0000_0000,
            0 <= logical < 0x1_0000_0000_0000_0000,
    ;
    assert(-0x8000_0000_0000_0000 * 0x1_0000_0000 <= low * extent <= 0x8000_0000_0000_0000
        * 0x1_0000_0000) by (nonlinear_arith)
        requires
            0 < extent < 0x1_0000_0000,
            -0x8000_0000_0000_0000 <= low < 0x8000_0000_0000_0000,
    ;
    assert(-0x8000_0000_0000_0000 * 0x1_0000_0000 <= high * extent <= 0x8000_0000_0000_0000
        * 0x1_0000_0000) by (nonlinear_arith)
        requires
            0 < extent < 0x1_0000_0000,
            -0x8000_0000_0000_0000 <= high < 0x8000_0000_0000_0000,
    ;
    let place: i128 = offset as i128 * logical as i128;
    low as i128 * extent as i128 <= place && place <= high as i128 * extent as i128
}

/// The distance of two numbers.
fn distance(a: i32, b: i32) -> (r: i64)
    ensures
        r == apart(a as int, b as int),
{
    if a >= b {
        a as i64 - b as i64
    } else {
        b as i64 - a as i64
    }
}

/// An action behind which the message is swallowed.
fn swallowing(action: BallAction) -> (r: BallReply)
    ensures
        r == swallow(action),
{
    BallReply { action, answer: Some(0) }
}

/// An action behind which the message is passed on.
fn passing(action: BallAction) -> (r: BallReply)
    ensures
        r == pass(action),
{
    BallReply { action, answer: None }
}

impl BallDrag {
    /// A ball that was not touched yet: nothing is grabbed, at an offset of zero, nothing was
    /// clicked, and the refresh icon was not drawn.
    pub fn new() -> (r: BallDrag)
        ensures
            r == (BallDrag {
                grab: Grab { cursor: Point { x: 0, y: 0 }, origin: Point { x: 0, y: 0 } },
                dragging: false,
                last_click: None,
                refresh_hit: None,
            }),
    {
        let zero = Point { x: 0, y: 0 };
        BallDrag {
            grab: Grab { cursor: zero, origin: zero },
            dragging: false,
            last_click: None,
            refresh_hit: None,
        }
    }

    /// Takes note of where the refresh icon is drawn.
    pub fn set_floating_refresh_hit(&mut self, rect: Option<HitRect>)
        ensures
            *final(self) == (BallDrag { refresh_hit: rect, ..*old(self) }),
    {
        self.refresh_hit = rect;
    }

    /// Whether the cursor is on the refresh icon.
    fn hits_icon(&self, input: &BallInput) -> (r: bool)
        ensures
            r == on_icon(*self, *input),
    {
        let hit: HitRect = match self.refresh_hit {
            Some(hit) => hit,
            None => return false,
        };
        let cursor: Point = match input.cursor {
            Some(cursor) => cursor,
            None => return false,
        };
        let window: Rect = match input.window {
            Some(window) => window,
            None => return false,
        };
        let (width, height): (u64, u64) = match client_size_logical(
            input.hwnd,
            input.client,
            input.dpi,
        ) {
            Some(size) => size,
            None => return false,
        };
        if window.width() <= 0 || window.height() <= 0 {
            return false;
        }
        is_within(
            cursor.x as i64 - window.left as i64,
            window.width(),
            width,
            hit.left,
            hit.right,
        ) && is_within(
            cursor.y as i64 - window.top as i64,
            window.height(),
            height,
            hit.top,
            hit.bottom,
        )
    }

    /// Whether a press is the second of a double click.
    fn doubles(&self, input: &BallInput) -> (r: bool)
        ensures
            r == is_double(*self, *input),
    {
        let last: Click = match self.last_click {
            Some(last) => last,
            None => return false,
        };
        let cursor: Point = match input.cursor {
            Some(cursor) => cursor,
            None => return false,
        };
        let near: i64 = if input.double_click_width >= 1 {
            input.double_click_width as i64
        } else {
            1
        };
        distance(input.time, last.time) <= input.double_click_time as i64 && distance(
            cursor.x,
            last.at.x,
        ) <= near && distance(cursor.y, last.at.y) <= near
    }

    /// The left button went down.
    fn press(&mut self, input: &BallInput) -> (r: BallReply)
        ensures
            (*final(self), r) == pressed(*old(self), *input),
    {
        if self.hits_icon(input) {
            return swallowing(BallAction::Refresh);
        }
        let double: bool = self.doubles(input);
        if let Some(cursor) = input.cursor {
            self.last_click = Some(Click { time: input.time, at: cursor });
        }
        if double {
            self.dragging = false;
            return swallowing(BallAction::OpenMain);
        }
        if let Some(cursor) = input.cursor {
            if let Some(window) = input.window {
                self.grab = Grab { cursor, origin: Point { x: window.left, y: window.top } };
                self.dragging = true;
                return swallowing(BallAction::Capture);
            }
        }
        swallowing(BallAction::Nothing)
    }

    /// The mouse moved.
    fn follow(&self, input: &BallInput) -> (r: BallReply)
        ensures
            r == moved(*self, *input),
    {
        if self.dragging {
            if let Some(cursor) = input.cursor {
                let x: i64 = cursor.x as i64 - (self.grab.cursor.x as i64
                    - self.grab.origin.x as i64);
                let y: i64 = cursor.y as i64 - (self.grab.cursor.y as i64
                    - self.grab.origin.y as i64);
                return passing(BallAction::MoveTo { x, y });
            }
        }
        passing(BallAction::Nothing)
    }

    /// Answers to a message.
    pub fn ball_drag_subclass(&mut self, msg: u32, input: &BallInput) -> (r: BallReply)
        ensures
            (*final(self), r) == answered(*old(self), msg, *input),
    {
        if msg == WM_NCHITTEST {
            BallReply { action: BallAction::Nothing, answer: Some(HTCAPTION) }
        } else if msg == WM_NCLBUTTONDOWN || msg == WM_LBUTTONDOWN {
            self.press(input)
        } else if msg == WM_MOUSEMOVE || msg == WM_NCMOUSEMOVE {
            self.follow(input)
        } else if msg == WM_LBUTTONUP || msg == WM_NCLBUTTONUP {
            if self.dragging {
                self.dragging = false;
                swallowing(BallAction::Release)
            } else {
                passing(BallAction::Nothing)
            }
        } else if msg == WM_LBUTTONDBLCLK || msg == WM_NCLBUTTONDBLCLK {
            self.dragging = false;
            swallowing(BallAction::OpenMain)
        } else {
            passing(BallAction::Nothing)
        }
    }
}

/// What the floating window needs when it is asked for.
#[derive(Debug, Clone, Copy, PartialEq, Eq, Structural)]
pub enum FloatingToggle {
    /// Show or hide the window that is there.
    SetVisible(bool),
    /// Open a window.
    Create,
}

/// Shows, hides or opens the floating window: one that is there, and not gone behind the back of
/// the program, is shown or hidden in turn.
pub fn ensure_floating_window(hwnd: isize, alive: bool, visible: bool) -> (r: FloatingToggle)
    ensures
        r == (if hwnd != 0 && alive {
            FloatingToggle::SetVisible(!visible)
        } else {
            FloatingToggle::Create
        }),
{
    if hwnd != 0 && alive {
        FloatingToggle::SetVisible(!visible)
    } else {
        FloatingToggle::Create
    }
}

/// The ball follows the cursor: a drag that starts with the window somewhere takes it as far as
/// the cursor has gone since.
pub proof fn ball_follows_the_cursor(
    ball: BallDrag,
    press: BallInput,
    from: Point,
    window: Rect,
    to: BallInput,
    at: Point,
)
    requires
        !on_icon(ball, press),
        !is_double(ball, press),
        press.cursor == Some(from),
        press.window == Some(window),
        to.cursor == Some(at),
    ensures
        moved(pressed(ball, press).0, to) == pass(
            BallAction::MoveTo {
                x: (window.left + (at.x - from.x)) as i64,
                y: (window.top + (at.y - from.y)) as i64,
            },
        ),
{
}

/// A press on the refresh icon refreshes, and neither moves the ball nor opens a window, whether
/// or not it comes right after another press.
pub proof fn icon_press_only_refreshes(ball: BallDrag, input: BallInput)
    requires
        on_icon(ball, input),
    ensures
        pressed(ball, input) == (ball, swallow(BallAction::Refresh)),
{
}

/// Two presses at one place, the second soon after the first, open the main window and leave the
/// ball where it is.
pub proof fn double_press_opens_the_main_window(
    ball: BallDrag,
    first: BallInput,
    second: BallInput,
    later: BallInput,
)
    requires
        first.cursor is Some,
        second.cursor == first.cursor,
        apart(second.time as int, first.time as int) <= second.double_click_time,
        !on_icon(ball, first),
        !on_icon(pressed(ball, first).0, second),
    ensures
        ({
            let (after, reply) = pressed(pressed(ball, first).0, second);
            &&& reply == swallow(BallAction::OpenMain)
            &&& !after.dragging
            &&& moved(after, later) == pass(BallAction::Nothing)
        }),
{
}

/// A release ends the drag: the ball no longer follows the cursor.
pub proof fn release_ends_the_drag(ball: BallDrag, later: BallInput)
    ensures
        moved(released(ball).0, later) == pass(BallAction::Nothing),
        released(ball).0 == (BallDrag { dragging: false, ..ball }),
{
}

/// No press reaches the system, which would start a drag of its own.
pub proof fn presses_are_swallowed(ball: BallDrag, input: BallInput)
    ensures
        pressed(ball, input).1.answer == Some(0isize),
{
}

/// Each message of the system is answered as what it is: the question about a point as the caption,
/// a press, a move and a release of the button by what they do, on the frame of the window as on
/// the ball, a double click by opening the main window. Any other message is passed on and changes
/// nothing.
pub proof fn messages_are_answered_by_their_numbers(ball: BallDrag, msg: u32, input: BallInput)
    ensures
        msg == 0x84 ==> answered(ball, msg, input) == (
            ball,
            BallReply { action: BallAction::Nothing, answer: Some(2isize) },
        ),
        msg == 0xa1 || msg == 0x201 ==> answered(ball, msg, input) == pressed(ball, input),
        msg == 0x200 || msg == 0xa0 ==> answered(ball, msg, input) == (ball, moved(ball, input)),
        msg == 0x202 || msg == 0xa2 ==> answered(ball, msg, input) == released(ball),
        msg == 0x203 || msg == 0xa3 ==> ({
            let (after, reply) = answered(ball, msg, input);
            &&& !after.dragging
            &&& after.grab == ball.grab
            &&& after.last_click == ball.last_click
            &&& after.refresh_hit == ball.refresh_hit
            &&& reply == (BallReply { action: BallAction::OpenMain, answer: Some(0isize) })
        }),
        !seq![
            0x84u32,
            0xa1u32,
            0x201u32,
            0x200u32,
            0xa0u32,
            0x202u32,
            0xa2u32,
            0x203u32,
            0xa3u32,
        ].contains(msg) ==> answered(ball, msg, input) == (
            ball,
            BallReply { action: BallAction::Nothing, answer: None },
        ),
{
    let known = seq![
        0x84u32,
        0xa1u32,
        0x201u32,
        0x200u32,
        0xa0u32,
        0x202u32,
        0xa2u32,
        0x203u32,
        0xa3u32,
    ];
    assert(known[0] == 0x84 && known[1] == 0xa1 && known[2] == 0x201 && known[3] == 0x200
        && known[4] == 0xa0 && known[5] == 0x202 && known[6] == 0xa2 && known[7] == 0x203
        && known[8] == 0xa3);
}

/// A press does one of three things: on the icon it refreshes and leaves the ball as it is, as the
/// second of a double click it opens the main window, and else it grabs the ball where the cursor
/// and the window are. But for the icon it is remembered for the next. It is never passed on.
pub proof fn presses_refresh_open_or_grab(ball: BallDrag, input: BallInput)
    ensures
        ({
            let (after, reply) = pressed(ball, input);
            &&& reply.answer == Some(0isize)
            &&& after.refresh_hit == ball.refresh_hit
            &&& on_icon(ball, input) ==> after == ball && reply.action == BallAction::Refresh
            &&& !on_icon(ball, input) ==> (match input.cursor {
                Some(cursor) => after.last_click == Some(Click { time: input.time, at: cursor }),
                None => after.last_click == ball.last_click,
            })
            &&& !on_icon(ball, input) && is_double(ball, input) ==> {
                &&& reply.action == BallAction::OpenMain
                &&& !after.dragging
                &&& after.grab == ball.grab
            }
            &&& !on_icon(ball, input) && !is_double(ball, input) ==> (match (
                input.cursor,
                input.window,
            ) {
                (Some(cursor), Some(window)) => {
                    &&& reply.action == BallAction::Capture
                    &&& after.dragging
                    &&& after.grab.cursor == cursor
                    &&& after.grab.origin.x == window.left
                    &&& after.grab.origin.y == window.top
                },
                _ => {
                    &&& reply.action == BallAction::Nothing
                    &&& after.dragging == ball.dragging
                    &&& after.grab == ball.grab
                },
            })
        }),
{
}

/// A move drags a ball that is held: the window goes from where it was grabbed as far as the cursor
/// has gone. It moves no other, and is always passed on.
pub proof fn moves_drag_a_held_ball(ball: BallDrag, input: BallInput)
    ensures
        moved(ball, input).answer is None,
        ball.dragging && input.cursor is Some ==> (moved(ball, input).action matches
            BallAction::MoveTo { x, y } && x - ball.grab.origin.x == input.cursor->0.x
            - ball.grab.cursor.x && y - ball.grab.origin.y == input.cursor->0.y
            - ball.grab.cursor.y),
        !ball.dragging || input.cursor is None ==> moved(ball, input).action == BallAction::Nothing,
{
}

/// A release lets go of a ball that is held, and is kept from the system; of any other it is passed
/// on. Nothing else changes.
pub proof fn releases_let_go_of_a_held_ball(ball: BallDrag)
    ensures
        !released(ball).0.dragging,
        released(ball).0.grab == ball.grab,
        released(ball).0.last_click == ball.last_click,
        released(ball).0.refresh_hit == ball.refresh_hit,
        ball.dragging ==> released(ball).1 == (BallReply {
            action: BallAction::Release,
            answer: Some(0isize),
        }),
        !ball.dragging ==> released(ball).1 == (BallReply {
            action: BallAction::Nothing,
            answer: None,
        }),
{
}

/// A press is the second of a double click where it follows the last one in time, at no more than
/// the distance of the system, or one pixel where that is none, in either direction.
pub proof fn double_clicks_are_close_in_time_and_place(
    ball: BallDrag,
    input: BallInput,
    last: Click,
    cursor: Point,
)
    requires
        ball.last_click == Some(last),
        input.cursor == Some(cursor),
    ensures
        ({
            let near = if input.double_click_width < 1 {
                1
            } else {
                input.double_click_width as int
            };
            is_double(ball, input) <==> {
                &&& -(input.double_click_time as int) <= input.time - last.time
                    <= input.double_click_time
                &&& -near <= cursor.x - last.at.x <= near
                &&& -near <= cursor.y - last.at.y <= near
            }
        }),
{
}

/// Without a press before it, or without a cursor, no press is the second of a double click.
pub proof fn first_press_is_not_double(ball: BallDrag, input: BallInput)
    requires
        ball.last_click is None || input.cursor is None,
    ensures
        !is_double(ball, input),
{
}

/// The cursor is on the icon where its place in the window, in proportion to the logical size of
/// the client area, is in the rectangle of the icon, the edges included.
pub proof fn icon_is_hit_in_its_rectangle(
    ball: BallDrag,
    input: BallInput,
    hit: HitRect,
    cursor: Point,
    window: Rect,
    size: (nat, nat),
)
    requires
        ball.refresh_hit == Some(hit),
        input.cursor == Some(cursor),
        input.window == Some(window),
        window.left < window.right,
        window.top < window.bottom,
        logical_size(input.hwnd, input.client, input.dpi) == Some(size),
    ensures
        on_icon(ball, input) <==> {
            &&& hit.left * (window.right - window.left) <= (cursor.x - window.left) * size.0
            &&& (cursor.x - window.left) * size.0 <= hit.right * (window.right - window.left)
            &&& hit.top * (window.bottom - window.top) <= (cursor.y - window.top) * size.1
            &&& (cursor.y - window.top) * size.1 <= hit.bottom * (window.bottom - window.top)
        },
{
}

/// An icon that was not drawn is not hit, nor is one in a window that is not laid out, nor without
/// a cursor.
pub proof fn unseen_icon_is_not_hit(ball: BallDrag, input: BallInput)
    requires
        ball.refresh_hit is None || input.cursor is None || input.window is None || logical_size(
            input.hwnd,
            input.client,
            input.dpi,
        ) is None || (input.window matches Some(w) && (w.right <= w.left || w.bottom <= w.top)),
    ensures
        !on_icon(ball, input),
{
}

/// A drag leaves the size of the window, its place in the stack and the focus alone: it has the
/// flags of the system for these, and no others.
pub proof fn drags_only_move_the_window()
    ensures
        MOVE_FLAGS == 0x0001 + 0x0004 + 0x0010,
{
}

/// A window that is there is shown where it was hidden, and hidden where it was shown; one that is
/// not there, or is gone, is opened.
pub proof fn floating_window_is_shown_hidden_or_opened(
    hwnd: isize,
    alive: bool,
    visible: bool,
    r: FloatingToggle,
)
    requires
        call_ensures(ensure_floating_window, (hwnd, alive, visible), r),
    ensures
        hwnd != 0 && alive && visible ==> r == FloatingToggle::SetVisible(false),
        hwnd != 0 && alive && !visible ==> r == FloatingToggle::SetVisible(true),
        hwnd == 0 || !alive ==> r == FloatingToggle::Create,
{
}

/// A ball that was not touched yet is not held, remembers no press and has no icon.
pub proof fn fresh_ball_is_untouched(r: BallDrag)
    requires
        call_ensures(BallDrag::new, (), r),
    ensures
        !r.dragging,
        r.last_click is None,
        r.refresh_hit is None,
        r.grab.cursor.x == r.grab.origin.x,
        r.grab.cursor.y == r.grab.origin.y,
{
}

/// Where the icon is drawn is remembered, and changes nothing else.
pub proof fn drawn_icon_is_remembered(ball: &mut BallDrag, rect: Option<HitRect>, r: ())
    requires
        call_ensures(BallDrag::set_floating_refresh_hit, (ball, rect), r),
    ensures
        final(ball).refresh_hit == rect,
        final(ball).grab == old(ball).grab,
        final(ball).dragging == old(ball).dragging,
        final(ball).last_click == old(ball).last_click,
{
}

/// The ball answers to a message and changes with it: what it does is told by the message and the
/// ball as it was.
pub proof fn ball_answers_to_messages(
    ball: &mut BallDrag,
    msg: u32,
    input: BallInput,
    r: BallReply,
)
    requires
        call_ensures(BallDrag::ball_drag_subclass, (ball, msg, &input), r),
    ensures
        msg == 0x201 || msg == 0xa1 ==> r.answer == Some(0isize) && final(ball).refresh_hit
            == old(ball).refresh_hit,
        (msg == 0x201 || msg == 0xa1) && old(ball).refresh_hit is None && old(ball).last_click is None
            && input.cursor is Some && input.window is Some ==> final(ball).dragging && r.action
            == BallAction::Capture,
        (msg == 0x200 || msg == 0xa0) && old(ball).dragging && input.cursor is Some ==> (r.action
            matches BallAction::MoveTo { x, y } && x == old(ball).grab.origin.x + (
        input.cursor->0.x - old(ball).grab.cursor.x) && y == old(ball).grab.origin.y + (
        input.cursor->0.y - old(ball).grab.cursor.y)),
        msg == 0x202 || msg == 0xa2 || msg == 0x203 || msg == 0xa3 ==> !final(ball).dragging,
        msg == 0x203 || msg == 0xa3 ==> r.action == BallAction::OpenMain,
        msg == 0x84 ==> r.answer == Some(2isize) && *final(ball) == *old(ball),
{
}

} // verus!
