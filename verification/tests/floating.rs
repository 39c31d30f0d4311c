use token_monitor::ball::{
    ensure_floating_window, BallAction, BallDrag, BallInput, FloatingToggle, HitRect, Point,
    HTCAPTION, MOVE_FLAGS, WM_LBUTTONDBLCLK, WM_LBUTTONDOWN, WM_LBUTTONUP, WM_MOUSEMOVE,
    WM_NCHITTEST, WM_NCLBUTTONDBLCLK, WM_NCLBUTTONDOWN, WM_NCLBUTTONUP, WM_NCMOUSEMOVE,
};
use token_monitor::floating::{
    ball_diameter_for, clip_diameter_for, halo_layers, seed_window_region, sphere_diameter_for,
    FloatingView, RegionRequest, CLIP_MARGIN, CLIP_PAD, GLOW_PERCENT, HOVER_PERCENT,
    MAX_BALL_PERCENT, MAX_SPHERE, MIN_SPHERE, PX, SEED_CLIP_PERCENT, WINDOW_SIZE,
};
use token_monitor::region::{client_size_logical, set_window_circle_region, Rect};
use token_monitor::sqrt::isqrt;

#[test]
fn zero_usage_ball_is_the_minimum_diameter() {
    assert_eq!(sphere_diameter_for(0, false), MIN_SPHERE);
    assert!(MIN_SPHERE > 0);
}

#[test]
fn ball_is_large_at_every_usage() {
    assert!(
        MIN_SPHERE >= 128 * PX,
        "the resting ball must stay comfortably large (got {MIN_SPHERE})"
    );
    assert!(MAX_SPHERE > MIN_SPHERE);
}

#[test]
fn hover_grows_the_ball() {
    for tokens in [0u64, 1_000_000, 100_000_000, 5_000_000_000] {
        let rest = sphere_diameter_for(tokens, false);
        let popped = sphere_diameter_for(tokens, true);
        assert!(popped > rest, "hover must grow the ball at {tokens} tokens");
    }
}

#[test]
fn clip_always_encloses_the_ball_with_margin() {
    let usages = [
        0u64,
        1,
        10_000,
        1_000_000,
        100_000_000,
        200_000_000,
        u64::MAX / 2,
    ];
    for win in [150 * PX, 240 * PX, 300 * PX, WINDOW_SIZE, 480 * PX] {
        for tokens in usages {
            for hovered in [false, true] {
                let sphere = sphere_diameter_for(tokens, hovered).min(win * MAX_BALL_PERCENT / 100);
                assert_eq!(sphere, ball_diameter_for(tokens, hovered, win));
                let clip = clip_diameter_for(sphere, win);
                assert!(
                    clip >= sphere + CLIP_PAD,
                    "clip {clip} must leave {CLIP_PAD} around ball {sphere} \
                     (win={win}, tokens={tokens}, hovered={hovered})"
                );
                assert!(
                    clip * 100 >= sphere * GLOW_PERCENT,
                    "clip {clip} must cover the glow of ball {sphere} (win={win})"
                );
                assert!(
                    clip >= sphere,
                    "clip {clip} must never be smaller than ball {sphere} (win={win})"
                );
                if sphere + CLIP_MARGIN <= win {
                    assert!(
                        clip <= win - CLIP_MARGIN,
                        "clip {clip} must stay inside window {win} \
                         (tokens={tokens}, hovered={hovered})"
                    );
                }
                assert!(
                    clip <= win,
                    "clip {clip} must never exceed window {win} (win={win})"
                );
                assert!(
                    sphere * 100 <= MAX_SPHERE * HOVER_PERCENT,
                    "ball {sphere} exceeds the maximum (tokens={tokens})"
                );
            }
        }
    }
}

#[test]
fn ball_plus_glow_fits_the_window() {
    let sphere = sphere_diameter_for(u64::MAX / 2, true);
    let glow = sphere * GLOW_PERCENT / 100;
    assert!(
        glow <= WINDOW_SIZE - CLIP_MARGIN,
        "glow {glow} must fit the {WINDOW_SIZE} window"
    );
}

#[test]
fn ball_is_capped_by_the_real_window() {
    let huge = sphere_diameter_for(u64::MAX / 2, true);
    for win in [150 * PX, 240 * PX, 300 * PX, WINDOW_SIZE] {
        let capped = huge.min(win * MAX_BALL_PERCENT / 100);
        assert!(capped <= huge);
        assert!(capped <= win);
    }
    assert_eq!(huge.min(WINDOW_SIZE * MAX_BALL_PERCENT / 100), huge);
}

#[test]
fn seeded_clip_is_generous_enough_for_any_window() {
    assert!(SEED_CLIP_PERCENT > 0 && SEED_CLIP_PERCENT <= 100);
    for win in [150 * PX, 240 * PX, 300 * PX, WINDOW_SIZE, 480 * PX] {
        let seeded = win * SEED_CLIP_PERCENT / 100;
        let sphere = sphere_diameter_for(0, false).min(win * MAX_BALL_PERCENT / 100);
        assert!(
            seeded > sphere,
            "seeded clip {seeded} must enclose the first-frame ball {sphere} (win={win})"
        );
    }
}

#[test]
fn ball_follows_the_square_root_of_the_usage() {
    for tokens in [1u64, 10_000, 1_000_000, 50_000_000, 123_456_789, 200_000_000] {
        let frac = ((tokens as f64) / 200_000_000.0).sqrt();
        let px = 144.0 + (232.0 - 144.0) * frac;
        let got = sphere_diameter_for(tokens, false) as f64 / PX as f64;
        assert!((got - px).abs() < 0.00001, "{tokens}: {got} {px}");
    }
    assert_eq!(sphere_diameter_for(50_000_000, false), 188 * PX);
    assert_eq!(sphere_diameter_for(200_000_000, false), MAX_SPHERE);
    assert_eq!(sphere_diameter_for(u64::MAX, false), MAX_SPHERE);
    assert_eq!(sphere_diameter_for(0, true), 152_640_000);
}

#[test]
fn clip_in_small_and_large_windows() {
    assert_eq!(clip_diameter_for(144 * PX, 360 * PX), 181_440_000);
    assert_eq!(clip_diameter_for(40 * PX, 360 * PX), 52 * PX);
    assert_eq!(clip_diameter_for(100 * PX, 110 * PX), 106 * PX);
    assert_eq!(clip_diameter_for(100 * PX, 50 * PX), 100 * PX);
    assert_eq!(clip_diameter_for(1, 0), 1);
}

#[test]
fn square_roots_are_rounded_down() {
    assert_eq!(isqrt(0), 0);
    assert_eq!(isqrt(1), 1);
    assert_eq!(isqrt(15), 3);
    assert_eq!(isqrt(16), 4);
    assert_eq!(isqrt(u64::MAX), 4_294_967_295);
}

#[test]
fn view_takes_totals_and_hover() {
    let mut view = FloatingView::new(7);
    assert_eq!((view.hwnd, view.total_tokens, view.cost_micros, view.hovered), (7, 0, 0, false));
    view.set_totals(123_456_789, 42);
    view.set_hovered(true);
    assert_eq!((view.hwnd, view.total_tokens, view.cost_micros, view.hovered), (7, 123_456_789, 42, true));
    assert_eq!(view.sphere_diameter(), sphere_diameter_for(123_456_789, true));
}

#[test]
fn frame_is_laid_out_in_the_real_window() {
    let mut view = FloatingView::new(7);
    view.set_totals(200_000_000, 0);
    let frame = view.frame(400 * PX, 360 * PX);
    assert_eq!(
        frame.region,
        RegionRequest { hwnd: 7, diameter: 292_320_000, window_size: 360 * PX }
    );
    assert_eq!(frame.ball.diameter, 232 * PX);
    assert_eq!(frame.ball.left, 84 * PX);
    assert_eq!(frame.ball.top, 64 * PX);
    assert_eq!(frame.tokens, "200,000,000");
    assert_eq!(frame.tokens_font, 34 * PX);
    assert_eq!(frame.cost_font, 18 * PX);
    assert_eq!(frame.rings.len(), halo_layers().len());
    assert_eq!(frame.rings[0].circle.diameter, 278_400_000);
    assert_eq!(frame.rings[0].opacity_percent, 6);
    assert_eq!(frame.rings[3].circle.diameter, 238_960_000);
}

#[test]
fn small_window_caps_rings_and_fonts() {
    let mut view = FloatingView::new(7);
    view.set_totals(200_000_000, 0);
    let frame = view.frame(32 * PX, 100 * PX);
    assert_eq!(frame.ball.diameter, 22_400_000);
    assert_eq!(frame.region.diameter, 28 * PX);
    assert_eq!(frame.rings[0].circle.diameter, 26_880_000);
    assert_eq!(frame.tokens_font, 12 * PX);
    assert_eq!(frame.cost_font, 9 * PX);
    let frame = view.frame(31 * PX, 100 * PX);
    assert_eq!(frame.region.window_size, WINDOW_SIZE);
    assert_eq!(frame.ball.left, 64 * PX);
}

#[test]
fn seeded_region_is_a_share_of_the_window() {
    assert_eq!(
        seed_window_region(9),
        RegionRequest { hwnd: 9, diameter: 352_800_000, window_size: 360 * PX }
    );
}

fn client(w: i32, h: i32) -> Rect {
    Rect { left: 0, top: 0, right: w, bottom: h }
}

#[test]
fn region_is_a_share_of_the_client_area() {
    let request = RegionRequest { hwnd: 1, diameter: 180 * PX, window_size: 360 * PX };
    assert_eq!(
        set_window_circle_region(request, client(450, 450), 120),
        Some(Rect { left: 113, top: 113, right: 338, bottom: 338 })
    );
    assert_eq!(
        set_window_circle_region(request, client(500, 450), 120),
        Some(Rect { left: 138, top: 113, right: 363, bottom: 338 })
    );
    let beyond = RegionRequest { diameter: 400 * PX, ..request };
    assert_eq!(
        set_window_circle_region(beyond, client(300, 300), 96),
        Some(Rect { left: 0, top: 0, right: 300, bottom: 300 })
    );
    let tiny = RegionRequest { diameter: 1, ..request };
    assert_eq!(
        set_window_circle_region(tiny, client(11, 11), 96),
        Some(Rect { left: 5, top: 5, right: 6, bottom: 6 })
    );
}

#[test]
fn region_falls_back_to_the_resolution() {
    let seed = seed_window_region(1);
    assert_eq!(
        set_window_circle_region(seed, client(0, 0), 144),
        Some(Rect { left: 6, top: 6, right: 535, bottom: 535 })
    );
    assert_eq!(
        set_window_circle_region(seed, client(0, 0), 0),
        Some(Rect { left: 4, top: 4, right: 357, bottom: 357 })
    );
}

#[test]
fn no_region_without_a_window() {
    let request = RegionRequest { hwnd: 0, diameter: PX, window_size: PX };
    assert_eq!(set_window_circle_region(request, client(1, 1), 96), None);
    let request = RegionRequest { hwnd: 1, diameter: 0, window_size: PX };
    assert_eq!(set_window_circle_region(request, client(1, 1), 96), None);
    let request = RegionRequest { hwnd: 1, diameter: PX, window_size: 0 };
    assert_eq!(set_window_circle_region(request, client(1, 1), 96), None);
}

#[test]
fn client_size_follows_the_resolution() {
    assert_eq!(client_size_logical(1, client(450, 300), 120), Some((360 * PX, 240 * PX)));
    assert_eq!(client_size_logical(1, client(450, 300), 0), Some((450 * PX, 300 * PX)));
    assert_eq!(client_size_logical(0, client(450, 300), 96), None);
    assert_eq!(client_size_logical(1, client(0, 300), 96), None);
}

fn input(time: i32, x: i32, y: i32) -> BallInput {
    BallInput {
        hwnd: 1,
        time,
        cursor: Some(Point { x, y }),
        window: Some(Rect { left: 1000, top: 500, right: 1450, bottom: 950 }),
        client: client(450, 450),
        dpi: 120,
        double_click_width: 4,
        double_click_time: 500,
    }
}

#[test]
fn hit_test_answers_caption() {
    let mut ball = BallDrag::new();
    let reply = ball.ball_drag_subclass(WM_NCHITTEST, &input(0, 0, 0));
    assert_eq!(reply.answer, Some(HTCAPTION));
    assert_eq!(reply.answer, Some(2));
    assert_eq!(reply.action, BallAction::Nothing);
    assert_eq!(MOVE_FLAGS, 0x0001 | 0x0004 | 0x0010);
}

#[test]
fn ball_follows_the_cursor_until_release() {
    for (down, mv, up) in [
        (WM_NCLBUTTONDOWN, WM_NCMOUSEMOVE, WM_NCLBUTTONUP),
        (WM_LBUTTONDOWN, WM_MOUSEMOVE, WM_LBUTTONUP),
    ] {
        let mut ball = BallDrag::new();
        assert_eq!(ball.ball_drag_subclass(mv, &input(0, 5, 5)).action, BallAction::Nothing);
        let reply = ball.ball_drag_subclass(down, &input(0, 1200, 700));
        assert_eq!(reply.action, BallAction::Capture);
        assert_eq!(reply.answer, Some(0));
        let reply = ball.ball_drag_subclass(mv, &input(10, 1250, 690));
        assert_eq!(reply.action, BallAction::MoveTo { x: 1050, y: 490 });
        assert_eq!(reply.answer, None);
        let reply = ball.ball_drag_subclass(up, &input(20, 1250, 690));
        assert_eq!(reply.action, BallAction::Release);
        assert_eq!(reply.answer, Some(0));
        assert_eq!(ball.ball_drag_subclass(mv, &input(30, 0, 0)).action, BallAction::Nothing);
        let reply = ball.ball_drag_subclass(up, &input(40, 0, 0));
        assert_eq!(reply.action, BallAction::Nothing);
        assert_eq!(reply.answer, None);
    }
}

#[test]
fn two_quick_presses_open_the_main_window() {
    let mut ball = BallDrag::new();
    ball.ball_drag_subclass(WM_NCLBUTTONDOWN, &input(1000, 1200, 700));
    let reply = ball.ball_drag_subclass(WM_NCLBUTTONDOWN, &input(1500, 1204, 696));
    assert_eq!(reply.action, BallAction::OpenMain);
    assert_eq!(reply.answer, Some(0));
    assert!(!ball.dragging);
}

#[test]
fn slow_or_distant_presses_do_not_open() {
    let mut ball = BallDrag::new();
    ball.ball_drag_subclass(WM_NCLBUTTONDOWN, &input(1000, 1200, 700));
    let reply = ball.ball_drag_subclass(WM_NCLBUTTONDOWN, &input(1501, 1200, 700));
    assert_eq!(reply.action, BallAction::Capture);
    let reply = ball.ball_drag_subclass(WM_NCLBUTTONDOWN, &input(1502, 1205, 700));
    assert_eq!(reply.action, BallAction::Capture);
    let mut sloppy = input(1503, 1206, 700);
    sloppy.double_click_width = 0;
    assert_eq!(
        ball.ball_drag_subclass(WM_NCLBUTTONDOWN, &sloppy).action,
        BallAction::OpenMain
    );
}

#[test]
fn system_double_click_opens_the_main_window() {
    for msg in [WM_LBUTTONDBLCLK, WM_NCLBUTTONDBLCLK] {
        let mut ball = BallDrag::new();
        ball.ball_drag_subclass(WM_NCLBUTTONDOWN, &input(0, 1200, 700));
        let reply = ball.ball_drag_subclass(msg, &input(1, 1200, 700));
        assert_eq!(reply.action, BallAction::OpenMain);
        assert_eq!(reply.answer, Some(0));
        assert!(!ball.dragging);
    }
}

#[test]
fn press_on_the_icon_only_refreshes() {
    let mut ball = BallDrag::new();
    ball.set_floating_refresh_hit(Some(HitRect {
        left: 160 * PX as i64,
        top: 40 * PX as i64,
        right: 200 * PX as i64,
        bottom: 60 * PX as i64,
    }));
    for time in [0, 1] {
        let reply = ball.ball_drag_subclass(WM_NCLBUTTONDOWN, &input(time, 1225, 560));
        assert_eq!(reply.action, BallAction::Refresh);
        assert_eq!(reply.answer, Some(0));
        assert!(!ball.dragging);
        assert!(ball.last_click.is_none());
    }
    assert_eq!(
        ball.ball_drag_subclass(WM_NCLBUTTONDOWN, &input(0, 1200, 550)).action,
        BallAction::Refresh
    );
    assert_eq!(
        ball.ball_drag_subclass(WM_NCLBUTTONDOWN, &input(0, 1199, 550)).action,
        BallAction::Capture
    );
}

#[test]
fn unreadable_cursor_starts_no_drag() {
    let mut ball = BallDrag::new();
    let mut blind = input(0, 0, 0);
    blind.cursor = None;
    let reply = ball.ball_drag_subclass(WM_NCLBUTTONDOWN, &blind);
    assert_eq!(reply.action, BallAction::Nothing);
    assert_eq!(reply.answer, Some(0));
    assert!(!ball.dragging);
}

#[test]
fn other_messages_are_passed_on() {
    let mut ball = BallDrag::new();
    let reply = ball.ball_drag_subclass(0x000F, &input(0, 0, 0));
    assert_eq!(reply.action, BallAction::Nothing);
    assert_eq!(reply.answer, None);
}

#[test]
fn floating_window_is_toggled_or_opened() {
    assert_eq!(ensure_floating_window(5, true, true), FloatingToggle::SetVisible(false));
    assert_eq!(ensure_floating_window(5, true, false), FloatingToggle::SetVisible(true));
    assert_eq!(ensure_floating_window(5, false, true), FloatingToggle::Create);
    assert_eq!(ensure_floating_window(0, true, true), FloatingToggle::Create);
}
