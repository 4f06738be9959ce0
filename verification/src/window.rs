//! Main-window geometry: which saved geometry is usable, and where a saved
//! window goes when the screens have changed since it was saved.

use vstd::prelude::*;

verus! {

/// Smallest window the client restores.
pub const MIN_WINDOW_W: u32 = 800;
pub const MIN_WINDOW_H: u32 = 600;
/// How much of a window must stay on a screen, in each direction.
pub const MIN_VISIBLE: u32 = 64;

/// Outer position and inner size of the main window.
#[derive(Clone, Copy, Debug, PartialEq, Eq, Structural)]
pub struct WindowState {
    pub x: i32,
    pub y: i32,
    pub w: u32,
    pub h: u32,
}

/// A monitor's position and size.
#[derive(Clone, Copy, Debug, PartialEq, Eq, Structural)]
pub struct ScreenRect {
    pub x: i32,
    pub y: i32,
    pub w: u32,
    pub h: u32,
}

pub open spec fn imax(a: int, b: int) -> int {
    if a >= b {
        a
    } else {
        b
    }
}

pub open spec fn imin(a: int, b: int) -> int {
    if a <= b {
        a
    } else {
        b
    }
}

/// `Ord::clamp`.
pub open spec fn clamp(v: int, lo: int, hi: int) -> int {
    if v < lo {
        lo
    } else if v > hi {
        hi
    } else {
        v
    }
}

/// Integer division by two, rounding toward zero.
pub open spec fn half_toward_zero(a: int) -> int {
    if a >= 0 {
        a / 2
    } else {
        -((-a) / 2)
    }
}

/// Width and height of the part of a window that lies on a screen.
pub open spec fn overlap(window: WindowState, screen: ScreenRect) -> (int, int) {
    let left = imax(window.x as int, screen.x as int);
    let top = imax(window.y as int, screen.y as int);
    let right = imin(window.x + window.w, screen.x + screen.w);
    let bottom = imin(window.y + window.h, screen.y + screen.h);
    (imax(right - left, 0), imax(bottom - top, 0))
}

/// The visible area of a window on a screen, when at least 64 pixels show
/// in each direction.
pub open spec fn visible_area(window: WindowState, screen: ScreenRect) -> Option<int> {
    let (w, h) = overlap(window, screen);
    if w >= MIN_VISIBLE && h >= MIN_VISIBLE {
        Some(w * h)
    } else {
        None
    }
}

/// The screen showing most of the window (the last one on a tie), among
/// those where it is visible.
pub open spec fn best_screen(window: WindowState, screens: Seq<ScreenRect>) -> Option<ScreenRect>
    decreases screens.len(),
{
    if screens.len() == 0 {
        None
    } else {
        let prev = best_screen(window, screens.drop_last());
        let s = screens.last();
        match visible_area(window, s) {
            Some(a) => match prev {
                Some(p) => if visible_area(window, p)->0 > a {
                    Some(p)
                } else {
                    Some(s)
                },
                None => Some(s),
            },
            None => prev,
        }
    }
}

/// Where a saved window is placed: on the screen showing most of it, kept
/// in place but pulled back so that 64 pixels stay visible; otherwise
/// centred on the primary screen (or the first one). Sizes are kept within
/// the minimum and the screen.
pub open spec fn restored_rect(
    saved: WindowState,
    screens: Seq<ScreenRect>,
    primary: Option<ScreenRect>,
) -> WindowState {
    if screens.len() == 0 {
        saved
    } else {
        let vis = best_screen(saved, screens);
        let screen = match vis {
            Some(s) => s,
            None => match primary {
                Some(p) => p,
                None => screens[0],
            },
        };
        let width = clamp(saved.w as int, MIN_WINDOW_W as int, imax(screen.w as int, MIN_WINDOW_W as int));
        let height = clamp(saved.h as int, MIN_WINDOW_H as int, imax(screen.h as int, MIN_WINDOW_H as int));
        let (x, y) = if vis is Some {
            (
                clamp(saved.x as int, screen.x - width + MIN_VISIBLE, screen.x + screen.w - MIN_VISIBLE),
                clamp(saved.y as int, screen.y - height + MIN_VISIBLE, screen.y + screen.h - MIN_VISIBLE),
            )
        } else {
            (
                screen.x + half_toward_zero(screen.w - width),
                screen.y + half_toward_zero(screen.h - height),
            )
        };
        WindowState { x: x as i32, y: y as i32, w: width as u32, h: height as u32 }
    }
}

fn max_i64(a: i64, b: i64) -> (r: i64)
    ensures
        r == imax(a as int, b as int),
{
    if a >= b {
        a
    } else {
        b
    }
}

fn min_i64(a: i64, b: i64) -> (r: i64)
    ensures
        r == imin(a as int, b as int),
{
    if a <= b {
        a
    } else {
        b
    }
}

fn clamp_i64(v: i64, lo: i64, hi: i64) -> (r: i64)
    requires
        lo <= hi,
    ensures
        r == clamp(v as int, lo as int, hi as int),
{
    if v < lo {
        lo
    } else if v > hi {
        hi
    } else {
        v
    }
}

/// Width and height of the part of `window` that lies on `screen`.
pub fn intersection_size(window: WindowState, screen: ScreenRect) -> (r: (u32, u32))
    ensures
        r.0 == overlap(window, screen).0,
        r.1 == overlap(window, screen).1,
{
    let left = max_i64(window.x as i64, screen.x as i64);
    let top = max_i64(window.y as i64, screen.y as i64);
    let right = min_i64(window.x as i64 + window.w as i64, screen.x as i64 + screen.w as i64);
    let bottom = min_i64(window.y as i64 + window.h as i64, screen.y as i64 + screen.h as i64);
    let w = max_i64(right - left, 0);
    let h = max_i64(bottom - top, 0);
    (w as u32, h as u32)
}

/// The saved window in a usable place on the current screens.
pub fn restore_window_rect(saved: WindowState, screens: &[ScreenRect], primary: Option<ScreenRect>) -> (r:
    WindowState)
    ensures
        r == restored_rect(saved, screens@, primary),
{
    if screens.len() == 0 {
        return saved;
    }
    let mut best: Option<(u64, ScreenRect)> = None;
    let mut i: usize = 0;
    while i < screens.len()
        invariant
            i <= screens@.len(),
            match best {
                Some((a, s)) => best_screen(saved, screens@.take(i as int)) == Some(s)
                    && visible_area(saved, s) == Some(a as int),
                None => best_screen(saved, screens@.take(i as int)) is None,
            },
        decreases screens@.len() - i,
    {
        let s = screens[i];
        let (vw, vh) = intersection_size(saved, s);
        assert(screens@.take(i + 1).drop_last() =~= screens@.take(i as int));
        if vw >= MIN_VISIBLE && vh >= MIN_VISIBLE {
            assert((vw as int) * (vh as int) <= 0xffff_ffff_ffff_ffff) by (nonlinear_arith)
                requires
                    vw <= 0xffff_ffffu32,
                    vh <= 0xffff_ffffu32,
            ;
            let area = vw as u64 * vh as u64;
            match best {
                Some((a, _)) => {
                    if !(a > area) {
                        best = Some((area, s));
                    }
                },
                None => {
                    best = Some((area, s));
                },
            }
        }
        i += 1;
    }
    assert(screens@.take(i as int) =~= screens@);
    let screen = match best {
        Some((_, s)) => s,
        None => match primary {
            Some(p) => p,
            None => screens[0],
        },
    };
    let width: u32 = if saved.w < MIN_WINDOW_W {
        MIN_WINDOW_W
    } else if saved.w > screen.w && saved.w > MIN_WINDOW_W {
        if screen.w > MIN_WINDOW_W {
            screen.w
        } else {
            MIN_WINDOW_W
        }
    } else {
        saved.w
    };
    let height: u32 = if saved.h < MIN_WINDOW_H {
        MIN_WINDOW_H
    } else if saved.h > screen.h && saved.h > MIN_WINDOW_H {
        if screen.h > MIN_WINDOW_H {
            screen.h
        } else {
            MIN_WINDOW_H
        }
    } else {
        saved.h
    };
    let sx = screen.x as i64;
    let sy = screen.y as i64;
    let sw = screen.w as i64;
    let sh = screen.h as i64;
    let x: i64;
    let y: i64;
    if best.is_some() {
        x = clamp_i64(saved.x as i64, sx - width as i64 + MIN_VISIBLE as i64, sx + sw - MIN_VISIBLE as i64);
        y = clamp_i64(saved.y as i64, sy - height as i64 + MIN_VISIBLE as i64, sy + sh - MIN_VISIBLE as i64);
    } else {
        x = sx + (sw - width as i64) / 2;
        y = sy + (sh - height as i64) / 2;
    }
    WindowState { x: #[verifier::truncate] (x as i32), y: #[verifier::truncate] (y as i32), w: width, h: height }
}

/// A cached geometry is used only when it has at least the minimum size.
pub fn cached_window_state(cached: Option<WindowState>) -> (r: Option<WindowState>)
    ensures
        r == match cached {
            Some(s) => if s.w >= MIN_WINDOW_W && s.h >= MIN_WINDOW_H {
                Some(s)
            } else {
                None
            },
            None => None,
        },
{
    match cached {
        Some(s) => if s.w >= MIN_WINDOW_W && s.h >= MIN_WINDOW_H {
            Some(s)
        } else {
            None
        },
        None => None,
    }
}

/// The geometry stored in the startup state: all four fields present, the
/// position within `i32`, the size within `u32` and at least the minimum.
pub fn parse_saved_window_state(x: Option<i64>, y: Option<i64>, w: Option<u64>, h: Option<u64>) -> (r:
    Option<WindowState>)
    ensures
        r == match (x, y, w, h) {
            (Some(x), Some(y), Some(w), Some(h)) => if i32::MIN <= x <= i32::MAX && i32::MIN <= y
                <= i32::MAX && w <= u32::MAX && h <= u32::MAX && w >= MIN_WINDOW_W && h
                >= MIN_WINDOW_H {
                Some(WindowState { x: x as i32, y: y as i32, w: w as u32, h: h as u32 })
            } else {
                None
            },
            _ => None,
        },
{
    let (x, y, w, h) = match (x, y, w, h) {
        (Some(x), Some(y), Some(w), Some(h)) => (x, y, w, h),
        _ => return None,
    };
    if x < i32::MIN as i64 || x > i32::MAX as i64 || y < i32::MIN as i64 || y > i32::MAX as i64 {
        return None;
    }
    if w > u32::MAX as u64 || h > u32::MAX as u64 {
        return None;
    }
    if w < MIN_WINDOW_W as u64 || h < MIN_WINDOW_H as u64 {
        return None;
    }
    Some(WindowState { x: x as i32, y: y as i32, w: w as u32, h: h as u32 })
}

proof fn lemma_best_screen_visible(window: WindowState, screens: Seq<ScreenRect>)
    ensures
        match best_screen(window, screens) {
            Some(s) => visible_area(window, s) is Some,
            None => true,
        },
    decreases screens.len(),
{
    if screens.len() > 0 {
        lemma_best_screen_visible(window, screens.drop_last());
    }
}

/// A window that shows on some screen, and whose size lies between the
/// minimum and the size of the screen that shows most of it, is restored
/// exactly where it was.
pub proof fn law_visible_window_kept(
    saved: WindowState,
    screens: Seq<ScreenRect>,
    primary: Option<ScreenRect>,
    s: ScreenRect,
)
    requires
        best_screen(saved, screens) == Some(s),
        MIN_WINDOW_W <= saved.w <= imax(s.w as int, MIN_WINDOW_W as int),
        MIN_WINDOW_H <= saved.h <= imax(s.h as int, MIN_WINDOW_H as int),
    ensures
        restored_rect(saved, screens, primary) == saved,
{
    lemma_best_screen_visible(saved, screens);
    assert(screens.len() > 0);
}

/// A restored window is never smaller than the minimum size.
pub proof fn law_restored_at_least_minimum(
    saved: WindowState,
    screens: Seq<ScreenRect>,
    primary: Option<ScreenRect>,
)
    requires
        screens.len() > 0,
    ensures
        restored_rect(saved, screens, primary).w >= MIN_WINDOW_W,
        restored_rect(saved, screens, primary).h >= MIN_WINDOW_H,
{
}

} // verus!
