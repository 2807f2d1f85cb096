//! Backend-agnostic layout: the coordinate window of a timeline, the lane of
//! each track, and the partition of the window into fixed-width page windows
//! for the paginated backend.

use vstd::prelude::*;
use vstd::arithmetic::div_mod::{lemma_fundamental_div_mod, lemma_fundamental_div_mod_converse_div};

use crate::date::{spec_coordinate, COORD_BOUND};
use crate::models::{Event, EventV, Track, TrackV};
use crate::textfmt::str_eq;

verus! {

/// The default window, in seconds, when no event yields a coordinate:
/// one hundred days starting at the epoch.
pub const DEFAULT_WINDOW_END: i64 = 8_640_000;

/// The symmetric padding, in seconds, around a degenerate (under one day
/// wide) window: fifty days on each side.
pub const DEGENERATE_PAD: i64 = 4_320_000;

/// The coordinate span of one page of the paginated backend: the usable page
/// width (239.4 mm) at the fixed document scale (0.15 mm per day), that is
/// 1596 days, in seconds.
pub const PAGE_SPAN: i64 = 137_894_400;

// ---------------------------------------------------------------------------
// Signed floor and ceiling division
// ---------------------------------------------------------------------------

/// The ceiling of `a / b`, stated through the mathematical floor division.
pub open spec fn spec_ceil_div(a: int, b: int) -> int {
    -((-a) / b)
}

/// Floor division of a signed value by a positive divisor.
pub fn floor_div_i64(a: i64, b: i64) -> (r: i64)
    requires
        0 < b <= 1_000_000_000,
        -4_000_000_000_000_000 <= a <= 4_000_000_000_000_000,
    ensures
        r == (a as int) / (b as int),
        -5_000_000_000_000_000 <= r <= 4_000_000_000_000_000,
{
    if a >= 0 {
        let q = (a as u64) / (b as u64);
        proof {
            vstd::arithmetic::div_mod::lemma_div_pos_is_pos(a as int, b as int);
            vstd::arithmetic::div_mod::lemma_div_nonincreasing(a as int, b as int);
        }
        q as i64
    } else {
        let n = (-a) as u64;
        let q = (n + (b as u64) - 1) / (b as u64);
        proof {
            lemma_neg_div(-a as int, b as int);
            vstd::arithmetic::div_mod::lemma_div_pos_is_pos(n + b - 1, b as int);
            vstd::arithmetic::div_mod::lemma_div_nonincreasing(n + b - 1, b as int);
        }
        -(q as i64)
    }
}

/// For positive `n` and `b`: the floor of `-n / b` is the negated ceiling.
proof fn lemma_neg_div(n: int, b: int)
    requires
        n >= 0,
        b > 0,
    ensures
        (-n) / b == -((n + b - 1) / b),
{
    lemma_fundamental_div_mod(n, b);
    let q = n / b;
    let r = n % b;
    if r == 0 {
        assert(n + b - 1 == q * b + (b - 1)) by (nonlinear_arith)
            requires n == b * q + r, r == 0;
        lemma_fundamental_div_mod_converse_div(n + b - 1, b, q, b - 1);
        assert(-n == (-q) * b + 0) by (nonlinear_arith)
            requires n == b * q + r, r == 0;
        lemma_fundamental_div_mod_converse_div(-n, b, -q, 0);
    } else {
        assert(n + b - 1 == (q + 1) * b + (r - 1)) by (nonlinear_arith)
            requires n == b * q + r;
        lemma_fundamental_div_mod_converse_div(n + b - 1, b, q + 1, r - 1);
        assert(-n == (-q - 1) * b + (b - r)) by (nonlinear_arith)
            requires n == b * q + r;
        lemma_fundamental_div_mod_converse_div(-n, b, -q - 1, b - r);
    }
}

/// Ceiling division of a signed value by a positive divisor.
pub fn ceil_div_i64(a: i64, b: i64) -> (r: i64)
    requires
        0 < b <= 1_000_000_000,
        -4_000_000_000_000_000 <= a <= 4_000_000_000_000_000,
    ensures
        r == spec_ceil_div(a as int, b as int),
{
    -floor_div_i64(-a, b)
}

// ---------------------------------------------------------------------------
// Lane assignment
// ---------------------------------------------------------------------------

/// The position of the first track carrying the given id, if any.
pub open spec fn spec_find_track(tracks: Seq<TrackV>, tid: Seq<char>) -> Option<int>
    decreases tracks.len(),
{
    if tracks.len() == 0 {
        None
    } else if tracks[0].id == tid {
        Some(0)
    } else {
        match spec_find_track(tracks.drop_first(), tid) {
            Some(i) => Some(i + 1),
            None => None,
        }
    }
}

/// The lane of a track id: its position in the caller-supplied track order,
/// with unknown references resolving to lane zero.
pub open spec fn spec_lane(tracks: Seq<TrackV>, tid: Seq<char>) -> int {
    match spec_find_track(tracks, tid) {
        Some(i) => i,
        None => 0,
    }
}

/// The first-match characterization of `spec_find_track`.
pub proof fn lemma_find_track_first(tracks: Seq<TrackV>, tid: Seq<char>)
    ensures
        match spec_find_track(tracks, tid) {
            Some(i) => 0 <= i < tracks.len() && tracks[i].id == tid && forall|j: int|
                0 <= j < i ==> #[trigger] tracks[j].id != tid,
            None => forall|j: int| 0 <= j < tracks.len() ==> #[trigger] tracks[j].id != tid,
        },
    decreases tracks.len(),
{
    if tracks.len() > 0 && tracks[0].id != tid {
        lemma_find_track_first(tracks.drop_first(), tid);
        assert(forall|j: int|
            1 <= j < tracks.len() ==> #[trigger] tracks[j] == tracks.drop_first()[j - 1]);
    }
}

/// The lane index of a track id, built from the caller-supplied order.
pub fn lane_index(tracks: &Vec<Track>, track_id: &str) -> (r: usize)
    ensures
        r == spec_lane(tracks.deep_view(), track_id@),
        r <= tracks.len(),
        tracks.len() > 0 ==> r < tracks.len(),
{
    proof {
        lemma_find_track_first(tracks.deep_view(), track_id@);
    }
    let ghost tv = tracks.deep_view();
    let n = tracks.len();
    let mut i: usize = 0;
    while i < n
        invariant
            n == tracks.len(),
            tv == tracks.deep_view(),
            tv.len() == n,
            0 <= i <= n,
            forall|j: int| 0 <= j < i ==> #[trigger] tv[j].id != track_id@,
            match spec_find_track(tv, track_id@) {
                Some(k) => 0 <= k < n && tv[k].id == track_id@ && forall|j: int|
                    0 <= j < k ==> #[trigger] tv[j].id != track_id@,
                None => forall|j: int| 0 <= j < n ==> #[trigger] tv[j].id != track_id@,
            },
        decreases n - i,
    {
        if str_eq(tracks[i].id.as_str(), track_id) {
            proof {
                assert(tv[i as int].id == track_id@);
                assert(spec_find_track(tv, track_id@) == Some(i as int));
            }
            return i;
        }
        i += 1;
    }
    proof {
        assert(spec_find_track(tv, track_id@) is None);
    }
    0
}

// ---------------------------------------------------------------------------
// The coordinate window
// ---------------------------------------------------------------------------

pub open spec fn opt_min(a: Option<int>, b: Option<int>) -> Option<int> {
    match (a, b) {
        (Some(x), Some(y)) => Some(if x <= y { x } else { y }),
        (Some(x), None) => Some(x),
        (None, Some(y)) => Some(y),
        (None, None) => None,
    }
}

pub open spec fn opt_max(a: Option<int>, b: Option<int>) -> Option<int> {
    match (a, b) {
        (Some(x), Some(y)) => Some(if x >= y { x } else { y }),
        (Some(x), None) => Some(x),
        (None, Some(y)) => Some(y),
        (None, None) => None,
    }
}

/// The coordinate an event's end date yields, if it has one that parses.
pub open spec fn spec_end_coord(ev: EventV) -> Option<int> {
    match ev.end_date {
        Some(d) => spec_coordinate(d),
        None => None,
    }
}

/// The smallest coordinate among the events' parseable start dates.
pub open spec fn spec_min_start(evs: Seq<EventV>) -> Option<int>
    decreases evs.len(),
{
    if evs.len() == 0 {
        None
    } else {
        opt_min(spec_min_start(evs.drop_last()), spec_coordinate(evs.last().start_date))
    }
}

/// The largest coordinate among the events' parseable start and end dates.
pub open spec fn spec_max_reach(evs: Seq<EventV>) -> Option<int>
    decreases evs.len(),
{
    if evs.len() == 0 {
        None
    } else {
        opt_max(
            spec_max_reach(evs.drop_last()),
            opt_max(spec_coordinate(evs.last().start_date), spec_end_coord(evs.last())),
        )
    }
}

/// The window the artifact renders.  With no coordinated event at all the
/// fixed default window appears; a window under one day wide is padded by
/// fifty days on each side; otherwise the natural extent stands.
pub open spec fn spec_window(evs: Seq<EventV>) -> (int, int) {
    let mn = spec_min_start(evs);
    let mx = spec_max_reach(evs);
    if mn is None || mx is None {
        (0, DEFAULT_WINDOW_END as int)
    } else if mx->0 - mn->0 < 86400 {
        (mn->0 - DEGENERATE_PAD, mx->0 + DEGENERATE_PAD)
    } else {
        (mn->0, mx->0)
    }
}

/// Every coordinate that feeds the window lies inside the parser's bound,
/// and the window's minimum is below every parseable start.
pub proof fn lemma_window_bounds(evs: Seq<EventV>)
    ensures
        spec_min_start(evs) matches Some(v) ==> -COORD_BOUND < v < COORD_BOUND,
        spec_max_reach(evs) matches Some(v) ==> -COORD_BOUND < v < COORD_BOUND,
        spec_min_start(evs) is Some ==> spec_max_reach(evs) is Some && spec_min_start(evs)->0
            <= spec_max_reach(evs)->0,
        forall|k: int|
            0 <= k < evs.len() && #[trigger] spec_coordinate(evs[k].start_date) is Some ==> {
                &&& spec_min_start(evs) is Some
                &&& spec_min_start(evs)->0 <= spec_coordinate(evs[k].start_date)->0
                &&& spec_max_reach(evs) is Some
                &&& spec_coordinate(evs[k].start_date)->0 <= spec_max_reach(evs)->0
            },
    decreases evs.len(),
{
    if evs.len() > 0 {
        lemma_window_bounds(evs.drop_last());
        if spec_coordinate(evs.last().start_date) is Some {
            crate::date::lemma_coordinate_in_bound(evs.last().start_date);
        }
        if spec_end_coord(evs.last()) is Some {
            crate::date::lemma_coordinate_in_bound(evs.last().end_date->0);
        }
        assert(forall|k: int| 0 <= k < evs.len() - 1 ==> #[trigger] evs[k] == evs.drop_last()[k]);
        assert(evs.last() == evs[evs.len() - 1]);
    }
}

/// Derived bounds of the window itself.
pub proof fn lemma_window_in_range(evs: Seq<EventV>)
    ensures
        ({
            let (w0, w1) = spec_window(evs);
            &&& -COORD_BOUND - DEGENERATE_PAD <= w0
            &&& w0 + 86400 <= w1
            &&& w1 <= COORD_BOUND + DEGENERATE_PAD
        }),
{
    lemma_window_bounds(evs);
}

/// Computes the coordinate window of a list of events.
pub fn compute_window(events: &Vec<Event>) -> (w: (i64, i64))
    ensures
        (w.0 as int, w.1 as int) == spec_window(events.deep_view()),
        w.0 + 86400 <= w.1,
        -COORD_BOUND - DEGENERATE_PAD <= w.0,
        w.1 <= COORD_BOUND + DEGENERATE_PAD,
{
    proof {
        lemma_window_bounds(events.deep_view());
        lemma_window_in_range(events.deep_view());
    }
    let ghost evs = events.deep_view();
    let n = events.len();
    let mut mn: Option<i64> = None;
    let mut mx: Option<i64> = None;
    let mut i: usize = 0;
    while i < n
        invariant
            n == events.len(),
            evs == events.deep_view(),
            evs.len() == n,
            0 <= i <= n,
            match mn {
                Some(v) => spec_min_start(evs.subrange(0, i as int)) == Some(v as int)
                    && -COORD_BOUND < v < COORD_BOUND,
                None => spec_min_start(evs.subrange(0, i as int)) is None,
            },
            match mx {
                Some(v) => spec_max_reach(evs.subrange(0, i as int)) == Some(v as int)
                    && -COORD_BOUND < v < COORD_BOUND,
                None => spec_max_reach(evs.subrange(0, i as int)) is None,
            },
        decreases n - i,
    {
        let ghost pre = evs.subrange(0, i as int);
        let sc = crate::date::coordinate(events[i].start_date.as_str());
        let ec = match &events[i].end_date {
            Some(d) => crate::date::coordinate(d.as_str()),
            None => None,
        };
        proof {
            assert(evs.subrange(0, i + 1).drop_last() =~= pre);
            assert(evs.subrange(0, i + 1).last() == evs[i as int]);
        }
        match sc {
            Some(c) => {
                mn = match mn {
                    Some(v) => if v <= c { Some(v) } else { Some(c) },
                    None => Some(c),
                };
                mx = match mx {
                    Some(v) => if v >= c { Some(v) } else { Some(c) },
                    None => Some(c),
                };
            },
            None => {},
        }
        match ec {
            Some(c) => {
                mx = match mx {
                    Some(v) => if v >= c { Some(v) } else { Some(c) },
                    None => Some(c),
                };
            },
            None => {},
        }
        i += 1;
    }
    proof {
        assert(evs.subrange(0, n as int) =~= evs);
    }
    match (mn, mx) {
        (Some(a), Some(b)) => {
            if b - a < 86400 {
                (a - DEGENERATE_PAD, b + DEGENERATE_PAD)
            } else {
                (a, b)
            }
        },
        _ => (0, DEFAULT_WINDOW_END),
    }
}

// ---------------------------------------------------------------------------
// Page windows (paginated backend)
// ---------------------------------------------------------------------------

/// How many pages the window needs: the total span divided by one page's
/// span, rounded up, and never below one.
pub open spec fn spec_num_pages(w0: int, w1: int) -> int {
    let pages = spec_ceil_div(w1 - w0, PAGE_SPAN as int);
    if pages < 1 {
        1
    } else {
        pages
    }
}

pub fn num_pages(w0: i64, w1: i64) -> (r: usize)
    requires
        w0 <= w1,
        -COORD_BOUND - DEGENERATE_PAD <= w0,
        w1 <= COORD_BOUND + DEGENERATE_PAD,
    ensures
        r == spec_num_pages(w0 as int, w1 as int),
        1 <= r <= 10000,
{
    let pages = ceil_div_i64(w1 - w0, PAGE_SPAN);
    proof {
        lemma_neg_div(w1 - w0, PAGE_SPAN as int);
        assert((w1 - w0 + PAGE_SPAN - 1) / (PAGE_SPAN as int) <= 10000) by {
            vstd::arithmetic::div_mod::lemma_div_is_ordered(
                w1 - w0 + PAGE_SPAN - 1,
                2 * COORD_BOUND + 2 * DEGENERATE_PAD + PAGE_SPAN,
                PAGE_SPAN as int,
            );
        }
        assert((w1 - w0 + PAGE_SPAN - 1) / (PAGE_SPAN as int) >= 0) by {
            vstd::arithmetic::div_mod::lemma_div_pos_is_pos(w1 - w0 + PAGE_SPAN - 1, PAGE_SPAN as int);
        }
    }
    if pages < 1 {
        1
    } else {
        pages as usize
    }
}

/// Where page `i` begins on the axis.
pub open spec fn spec_page_start(w0: int, i: int) -> int {
    w0 + i * (PAGE_SPAN as int)
}

pub fn page_start(w0: i64, i: usize) -> (r: i64)
    requires
        i <= 10000,
        -COORD_BOUND - DEGENERATE_PAD <= w0 <= COORD_BOUND + DEGENERATE_PAD,
    ensures
        r == spec_page_start(w0 as int, i as int),
{
    w0 + (i as i64) * PAGE_SPAN
}

/// Whether an event's span overlaps a page window (half-open interval
/// overlap on both sides).
pub open spec fn spec_on_page(start_c: int, end_c: int, ps: int, pe: int) -> bool {
    end_c >= ps && start_c <= pe
}

/// One axis tick every 365 days, in seconds.
pub const TICK_SPAN: i64 = 31_536_000;

/// The most tracks one render accepts; keeps lane geometry inside `i64`.
pub const MAX_TRACKS: usize = 100_000;

/// The first tick at or after the window's start: the grid steps over
/// multiples of 365 days.
pub open spec fn spec_first_tick(minc: int) -> int {
    spec_ceil_div(minc, TICK_SPAN as int) * (TICK_SPAN as int)
}

/// Range and era events draw as duration bars; everything else draws as a
/// point marker.
pub open spec fn spec_is_bar(t: Seq<char>) -> bool {
    t == "range"@ || t == "era"@
}

/// The end coordinate of an event: its end date where that parses, its start
/// coordinate otherwise.
pub open spec fn spec_end_or_start(ev: EventV) -> int {
    match spec_end_coord(ev) {
        Some(e) => e,
        None => spec_coordinate(ev.start_date)->0,
    }
}

/// The message of the fatal lookup failure.
pub open spec fn spec_not_found_msg(id: Seq<char>) -> Seq<char> {
    "Timeline "@ + id + " not found"@
}

/// The ceiling rounds up by less than one divisor's worth.
pub proof fn lemma_ceil_mul_bound(a: int, b: int)
    requires
        b > 0,
    ensures
        a <= spec_ceil_div(a, b) * b < a + b,
{
    lemma_fundamental_div_mod(-a, b);
    vstd::arithmetic::div_mod::lemma_mod_division_less_than_divisor(-a, b);
    let q = (-a) / b;
    let r = (-a) % b;
    assert((-q) * b == -(b * q)) by (nonlinear_arith);
}

/// The year written under an axis tick: the nearest integer to
/// `1970 + tickDay / 365.25`, over a tick coordinate in seconds.
pub open spec fn spec_year_of(t: int) -> int {
    (2 * (1970 * 1461 + 4 * (t / 86400)) + 1461) / 2922
}

/// Computes an axis tick's year label.
pub fn year_of(t: i64) -> (r: i64)
    requires
        -400_000_000_000 <= t <= 400_000_000_000,
    ensures
        r == spec_year_of(t as int),
        -100_000_000 <= r <= 100_000_000,
{
    let days = floor_div_i64(t, 86400);
    proof {
        vstd::arithmetic::div_mod::lemma_fundamental_div_mod(t as int, 86400);
        vstd::arithmetic::div_mod::lemma_mod_division_less_than_divisor(t as int, 86400);
    }
    floor_div_i64(2 * (1970 * 1461 + 4 * days) + 1461, 2922)
}

} // verus!
