//! Presses on and drags of a scrollbar.

use vstd::prelude::*;

use crate::frontend::ScrollBar;
use crate::geometry::Rect;
use crate::ui;

verus! {

/// What a press on a scrollbar's track does.
#[derive(Debug, Clone, Copy, PartialEq, Eq, Structural)]
pub enum TrackPress {
    /// On the thumb: a drag begins where the viewport is.
    Hold,
    /// Beside it: the viewport jumps to `num` of `den` parts of the way
    /// first.
    Jump { num: u16, den: u16 },
}

/// The row of the track for a press in row `y`.
pub open spec fn track_row(track: Rect, y: u16) -> int {
    let row = ui::minus(y as int, track.y as int);
    let last = ui::minus(track.height as int, 1);
    if row < last {
        row
    } else {
        last
    }
}

/// What a press does when the thumb is `thumb.1` cells from row `thumb.0` on.
pub open spec fn pressed(track: Rect, y: u16, thumb: (u16, u16)) -> TrackPress {
    let row = track_row(track, y);
    if thumb.0 <= row < thumb.0 + thumb.1 {
        TrackPress::Hold
    } else {
        TrackPress::Jump {
            num: row as u16,
            den: if track.height <= 1 {
                1
            } else {
                (track.height - 1) as u16
            },
        }
    }
}

pub fn press_track(track: Rect, y: u16, thumb: (u16, u16)) -> (press: TrackPress)
    ensures
        press == pressed(track, y, thumb),
{
    let row: u16 = y.saturating_sub(track.y);
    let last: u16 = track.height.saturating_sub(1);
    let row: u16 = if row < last {
        row
    } else {
        last
    };
    if thumb.0 <= row && row - thumb.0 < thumb.1 {
        TrackPress::Hold
    } else {
        TrackPress::Jump { num: row, den: if last == 0 { 1 } else { last } }
    }
}

/// The quotient, cut off towards zero.
pub open spec fn cut_quotient(n: int, d: int) -> int {
    if n >= 0 {
        n / d
    } else {
        -((-n) / d)
    }
}

/// The offset for a thumb that was held in row `anchor_y` at an offset and
/// is now in row `y`: the whole way of the thumb is the whole range of
/// offsets.
pub open spec fn drag_offset(
    bar: ScrollBar,
    track: Rect,
    anchor_y: u16,
    anchor_offset: u64,
    y: u16,
) -> int {
    let range = ui::minus(bar.total as int, bar.len as int);
    let way = ui::minus(track.height as int, bar.thumb_len as int);
    let way = if way < 1 {
        1
    } else {
        way
    };
    let target = anchor_offset + cut_quotient((y - anchor_y) * range, way);
    if target < 0 {
        0
    } else if target > range {
        range
    } else {
        target
    }
}

/// How many rows a drag of the thumb scrolls; negative is up.
pub fn drag_scroll(bar: &ScrollBar, track: Rect, anchor_y: u16, anchor_offset: u64, y: u16) -> (delta:
    i64)
    requires
        bar.total <= i64::MAX,
        bar.offset <= i64::MAX,
    ensures
        delta == drag_offset(*bar, track, anchor_y, anchor_offset, y) - bar.offset,
{
    let range: u64 = bar.total.saturating_sub(bar.len);
    let way: u16 = track.height.saturating_sub(bar.thumb_len);
    let way: u16 = if way < 1 {
        1
    } else {
        way
    };
    let rows: u16 = if y < anchor_y {
        anchor_y - y
    } else {
        y - anchor_y
    };
    assert(0 <= rows * range <= 0xffff * 0xffff_ffff_ffff_ffff) by (nonlinear_arith)
        requires
            0 <= rows <= 0xffff,
            0 <= range <= 0xffff_ffff_ffff_ffff,
    ;
    let moved: u128 = (rows as u128 * range as u128) / way as u128;
    assert(moved <= rows * range) by (nonlinear_arith)
        requires
            moved == (rows * range) / way as int,
            way >= 1,
            0 <= rows * range,
    ;
    proof {
        if y < anchor_y {
            assert((y - anchor_y) * range == -(rows * range)) by (nonlinear_arith)
                requires
                    rows == anchor_y - y,
            ;
            if rows * range == 0 {
                assert(0int / way as int == 0) by (nonlinear_arith)
                    requires
                        way >= 1,
                ;
            }
        }
    }
    let target: u128 = if y < anchor_y {
        if moved > anchor_offset as u128 {
            0
        } else {
            anchor_offset as u128 - moved
        }
    } else {
        anchor_offset as u128 + moved
    };
    let target: u128 = if target > range as u128 {
        range as u128
    } else {
        target
    };
    target as i64 - bar.offset as i64
}

/// A thumb that is dragged back to where it was held is where it was.
pub proof fn law_drag_back(bar: ScrollBar, track: Rect, anchor_y: u16, anchor_offset: u64)
    requires
        anchor_offset <= ui::minus(bar.total as int, bar.len as int),
    ensures
        drag_offset(bar, track, anchor_y, anchor_offset, anchor_y) == anchor_offset,
{
    let range = ui::minus(bar.total as int, bar.len as int);
    let way = ui::minus(track.height as int, bar.thumb_len as int);
    let way = if way < 1 {
        1
    } else {
        way
    };
    assert((anchor_y - anchor_y) * range == 0) by (nonlinear_arith);
    assert(0int / way == 0) by (nonlinear_arith)
        requires
            way >= 1,
    ;
}

/// A thumb that is held at the top of the text reaches its end when it is
/// dragged by the whole way that is free for it.
pub proof fn law_drag_through(bar: ScrollBar, track: Rect, y: u16)
    requires
        bar.thumb_len < track.height,
        y + track.height - bar.thumb_len <= u16::MAX,
    ensures
        drag_offset(bar, track, y, 0, (y + track.height - bar.thumb_len) as u16) == ui::minus(
            bar.total as int,
            bar.len as int,
        ),
{
    let range = ui::minus(bar.total as int, bar.len as int);
    let way = track.height - bar.thumb_len;
    assert((way * range) / way == range) by (nonlinear_arith)
        requires
            way >= 1,
    ;
    assert(way * range >= 0) by (nonlinear_arith)
        requires
            way >= 1,
            range >= 0,
    ;
}

/// A press on the thumb holds it. A press beside it jumps: at the first row of
/// the track to the start, at the last to the end, and further down the
/// further down it is.
pub proof fn law_press(track: Rect, y: u16, thumb: (u16, u16))
    requires
        track.fits(),
        track.height > 1,
        track.y <= y < track.y + track.height,
    ensures
        (pressed(track, y, thumb) is Hold) == (track.y + thumb.0 <= y < track.y + thumb.0
            + thumb.1),
        pressed(track, y, thumb) matches TrackPress::Jump { num, den } ==> {
            &&& num <= den
            &&& den == track.height - 1
            &&& num == y - track.y
        },
{
}

/// Dragging the thumb down never scrolls up, and the offset stays in range.
pub proof fn law_drag_monotone(
    bar: ScrollBar,
    track: Rect,
    anchor_y: u16,
    anchor_offset: u64,
    y: u16,
    lower: u16,
)
    requires
        y <= lower,
    ensures
        0 <= drag_offset(bar, track, anchor_y, anchor_offset, y) <= drag_offset(
            bar,
            track,
            anchor_y,
            anchor_offset,
            lower,
        ) <= ui::minus(bar.total as int, bar.len as int),
{
    let range = ui::minus(bar.total as int, bar.len as int);
    let way = ui::minus(track.height as int, bar.thumb_len as int);
    let way = if way < 1 {
        1
    } else {
        way
    };
    let a = (y - anchor_y) * range;
    let b = (lower - anchor_y) * range;
    assert(a <= b) by (nonlinear_arith)
        requires
            a == (y - anchor_y) * range,
            b == (lower - anchor_y) * range,
            y <= lower,
            range >= 0,
    ;
    lemma_cut(a, b, way);
}

proof fn lemma_cut(a: int, b: int, d: int)
    requires
        a <= b,
        d >= 1,
    ensures
        cut_quotient(a, d) <= cut_quotient(b, d),
{
    if a >= 0 {
        vstd::arithmetic::div_mod::lemma_div_is_ordered(a, b, d);
    } else if b < 0 {
        vstd::arithmetic::div_mod::lemma_div_is_ordered(-b, -a, d);
    } else {
        vstd::arithmetic::div_mod::lemma_div_pos_is_pos(-a, d);
        vstd::arithmetic::div_mod::lemma_div_pos_is_pos(b, d);
    }
}

} // verus!
