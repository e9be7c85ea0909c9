//! Monitor-aware window geometry restoration: clamp a persisted rectangle to
//! the configured minimum size, pick the monitor holding its top-left corner
//! (or fall back to the first), and clamp the rectangle into that monitor's
//! bounds, far edges first.
use vstd::prelude::*;

verus! {

/// A window rectangle in physical pixels.
#[derive(Debug, Clone, Copy, PartialEq, Eq, Structural)]
pub struct WindowRect {
    pub x: i32,
    pub y: i32,
    pub width: u32,
    pub height: u32,
}

/// An attached monitor's bounds in physical pixels.
#[derive(Debug, Clone, Copy, PartialEq, Eq, Structural)]
pub struct MonitorRect {
    pub x: i32,
    pub y: i32,
    pub width: u32,
    pub height: u32,
}

/// The monitor's far edges stay within the coordinate space.
pub open spec fn monitor_wf(m: MonitorRect) -> bool {
    &&& m.x + m.width <= i32::MAX
    &&& m.y + m.height <= i32::MAX
}

pub open spec fn monitors_wf(ms: Seq<MonitorRect>) -> bool {
    forall|i: int| 0 <= i < ms.len() ==> monitor_wf(#[trigger] ms[i])
}

/// Whether the point lies within the monitor's bounds.
pub open spec fn contains_point(m: MonitorRect, x: int, y: int) -> bool {
    &&& m.x <= x < m.x + m.width
    &&& m.y <= y < m.y + m.height
}

/// Index of the first monitor containing the point, or -1 when none does.
pub open spec fn first_containing(ms: Seq<MonitorRect>, x: int, y: int) -> int
    decreases ms.len(),
{
    if ms.len() == 0 {
        -1
    } else if contains_point(ms[0], x, y) {
        0
    } else {
        let rest = first_containing(ms.subrange(1, ms.len() as int), x, y);
        if rest == -1 {
            -1
        } else {
            rest + 1
        }
    }
}

/// Width and height raised to the configured minimums; position untouched.
pub open spec fn spec_min_clamp(saved: WindowRect, min_width: u32, min_height: u32) -> WindowRect {
    WindowRect {
        x: saved.x,
        y: saved.y,
        width: if saved.width < min_width {
            min_width
        } else {
            saved.width
        },
        height: if saved.height < min_height {
            min_height
        } else {
            saved.height
        },
    }
}

/// The rectangle clamped into one monitor: size cut to the monitor's, then
/// the near edges pulled in, then the far edges, which take priority.
pub open spec fn spec_fit_to_monitor(w: WindowRect, m: MonitorRect) -> WindowRect {
    let fw = if w.width > m.width {
        m.width
    } else {
        w.width
    };
    let fh = if w.height > m.height {
        m.height
    } else {
        w.height
    };
    let x1 = if w.x < m.x {
        m.x as int
    } else {
        w.x as int
    };
    let x2 = if x1 + fw > m.x + m.width {
        m.x + m.width - fw
    } else {
        x1
    };
    let y1 = if w.y < m.y {
        m.y as int
    } else {
        w.y as int
    };
    let y2 = if y1 + fh > m.y + m.height {
        m.y + m.height - fh
    } else {
        y1
    };
    WindowRect { x: x2 as i32, y: y2 as i32, width: fw, height: fh }
}

/// The whole restore policy: minimum-size clamp; with no monitor enumerated
/// the rectangle is otherwise untouched, else it is fitted into the monitor
/// holding its top-left corner, or into the first monitor when none does.
pub open spec fn spec_restore(
    saved: WindowRect,
    ms: Seq<MonitorRect>,
    min_width: u32,
    min_height: u32,
) -> WindowRect {
    let base = spec_min_clamp(saved, min_width, min_height);
    if ms.len() == 0 {
        base
    } else {
        let ci = first_containing(ms, saved.x as int, saved.y as int);
        let m = if ci == -1 {
            ms[0]
        } else {
            ms[ci]
        };
        spec_fit_to_monitor(base, m)
    }
}

proof fn lemma_first_containing_none(ms: Seq<MonitorRect>, x: int, y: int)
    requires
        forall|i: int| 0 <= i < ms.len() ==> !contains_point(#[trigger] ms[i], x, y),
    ensures
        first_containing(ms, x, y) == -1,
    decreases ms.len(),
{
    if ms.len() > 0 {
        let rest = ms.subrange(1, ms.len() as int);
        assert forall|i: int| 0 <= i < rest.len() implies !contains_point(
            #[trigger] rest[i],
            x,
            y,
        ) by {
            assert(rest[i] == ms[i + 1]);
        }
        lemma_first_containing_none(rest, x, y);
    }
}

proof fn lemma_first_containing_at(ms: Seq<MonitorRect>, x: int, y: int, c: int)
    requires
        0 <= c < ms.len(),
        contains_point(ms[c], x, y),
        forall|i: int| 0 <= i < c ==> !contains_point(#[trigger] ms[i], x, y),
    ensures
        first_containing(ms, x, y) == c,
    decreases ms.len(),
{
    if c > 0 {
        let rest = ms.subrange(1, ms.len() as int);
        assert(rest[c - 1] == ms[c]);
        assert forall|i: int| 0 <= i < c - 1 implies !contains_point(#[trigger] rest[i], x, y) by {
            assert(rest[i] == ms[i + 1]);
        }
        lemma_first_containing_at(rest, x, y, c - 1);
    }
}

/// Restores a persisted window rectangle against the attached monitors.
pub fn restore_geometry(
    saved: &WindowRect,
    monitors: &Vec<MonitorRect>,
    min_width: u32,
    min_height: u32,
) -> (r: WindowRect)
    requires
        monitors_wf(monitors@),
    ensures
        r == spec_restore(*saved, monitors@, min_width, min_height),
{
    let width = if saved.width < min_width {
        min_width
    } else {
        saved.width
    };
    let height = if saved.height < min_height {
        min_height
    } else {
        saved.height
    };
    if monitors.len() == 0 {
        return WindowRect { x: saved.x, y: saved.y, width, height };
    }
    let mut choice: usize = 0;
    let mut found = false;
    let mut i: usize = 0;
    while !found && i < monitors.len()
        invariant
            i <= monitors@.len(),
            !found ==> forall|j: int|
                0 <= j < i ==> !contains_point(
                    #[trigger] monitors@[j],
                    saved.x as int,
                    saved.y as int,
                ),
            found ==> choice < monitors@.len() && contains_point(
                monitors@[choice as int],
                saved.x as int,
                saved.y as int,
            ) && (forall|j: int|
                0 <= j < choice ==> !contains_point(
                    #[trigger] monitors@[j],
                    saved.x as int,
                    saved.y as int,
                )),
        decreases monitors@.len() - i, (if found { 0int } else { 1int }),
    {
        let m = &monitors[i];
        let inside = m.x as i64 <= saved.x as i64 && (saved.x as i64) < m.x as i64
            + m.width as i64 && m.y as i64 <= saved.y as i64 && (saved.y as i64) < m.y as i64
            + m.height as i64;
        if inside {
            choice = i;
            found = true;
        } else {
            i = i + 1;
        }
    }
    proof {
        if found {
            lemma_first_containing_at(
                monitors@,
                saved.x as int,
                saved.y as int,
                choice as int,
            );
        } else {
            lemma_first_containing_none(monitors@, saved.x as int, saved.y as int);
        }
    }
    let pick = if found {
        choice
    } else {
        0
    };
    let m = &monitors[pick];
    assert(monitor_wf(monitors@[pick as int]));
    let fw = if width > m.width {
        m.width
    } else {
        width
    };
    let fh = if height > m.height {
        m.height
    } else {
        height
    };
    let mut x = saved.x as i64;
    let mut y = saved.y as i64;
    if x < m.x as i64 {
        x = m.x as i64;
    }
    let right = m.x as i64 + m.width as i64;
    if x + fw as i64 > right {
        x = right - fw as i64;
    }
    if y < m.y as i64 {
        y = m.y as i64;
    }
    let bottom = m.y as i64 + m.height as i64;
    if y + fh as i64 > bottom {
        y = bottom - fh as i64;
    }
    assert(i32::MIN <= x <= i32::MAX);
    assert(i32::MIN <= y <= i32::MAX);
    WindowRect { x: x as i32, y: y as i32, width: fw, height: fh }
}

/// Law: when the persisted top-left corner lies on no monitor, the restored
/// rectangle lies fully within the first enumerated monitor's bounds and,
/// provided that monitor is at least the configured minimum size, keeps the
/// minimum width and height.
pub proof fn lemma_restore_off_screen(
    saved: WindowRect,
    ms: Seq<MonitorRect>,
    min_width: u32,
    min_height: u32,
)
    requires
        ms.len() >= 1,
        monitors_wf(ms),
        forall|i: int|
            0 <= i < ms.len() ==> !contains_point(#[trigger] ms[i], saved.x as int, saved.y as int),
        min_width <= ms[0].width,
        min_height <= ms[0].height,
    ensures
        ({
            let r = spec_restore(saved, ms, min_width, min_height);
            let m = ms[0];
            &&& m.x <= r.x
            &&& r.x + r.width <= m.x + m.width
            &&& m.y <= r.y
            &&& r.y + r.height <= m.y + m.height
            &&& r.width >= min_width
            &&& r.height >= min_height
        }),
{
    lemma_first_containing_none(ms, saved.x as int, saved.y as int);
    assert(monitor_wf(ms[0]));
}

} // verus!
