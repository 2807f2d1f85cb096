//! The paginated-document backend: computes a complete drawing plan — one
//! cover sheet plus a run of content pages — that a thin translator turns
//! into the binary page-description format.
//!
//! Geometry is carried in hundredths of a millimeter on a fixed landscape
//! letter page (279.4 by 215.9 mm), at 0.15 mm per day.

use vstd::prelude::*;
use vstd::string::StrSliceExecFns;
use vstd::string::StringExecFns;

use crate::color::{hex_to_rgb, lane_tint, spec_hex_to_rgb, spec_lane_tint, Rgb};
use crate::date::{coordinate, spec_coordinate, COORD_BOUND};
use crate::error::AppError;
use crate::layout::{
    ceil_div_i64, compute_window, floor_div_i64, lane_index, lemma_ceil_mul_bound, num_pages,
    spec_ceil_div, spec_end_or_start, spec_first_tick, spec_is_bar, spec_lane, spec_not_found_msg,
    spec_num_pages, spec_on_page, spec_page_start, spec_window, spec_year_of, year_of,
    DEGENERATE_PAD, MAX_TRACKS, PAGE_SPAN, TICK_SPAN,
};
use crate::models::{Event, EventV, Timeline, Track, TrackV};
use crate::textfmt::{
    spec_dec, spec_truncate, str_eq, truncate_with_ellipsis, u64_to_string,
};

verus! {

/// Page size in hundredths of a millimeter: landscape letter.
pub const PDF_PAGE_W: i64 = 27_940;

pub const PDF_PAGE_H: i64 = 21_590;

/// Margin (20 mm), lane height (18 mm), header space (15 mm), usable width.
pub const PDF_MARGIN: i64 = 2_000;

pub const PDF_LANE_H: i64 = 1_800;

pub const PDF_HEADER: i64 = 1_500;

pub const PDF_USABLE_W: i64 = 23_940;

// ---------------------------------------------------------------------------
// The plan's data
// ---------------------------------------------------------------------------

/// One lane band of a content page.
pub struct PdfLane {
    pub y_top: i64,
    pub y_bottom: i64,
    pub tint: Rgb,
    pub name: String,
}

pub struct PdfLaneV {
    pub y_top: int,
    pub y_bottom: int,
    pub tint: Rgb,
    pub name: Seq<char>,
}

impl DeepView for PdfLane {
    type V = PdfLaneV;

    open spec fn deep_view(&self) -> PdfLaneV {
        PdfLaneV {
            y_top: self.y_top as int,
            y_bottom: self.y_bottom as int,
            tint: self.tint,
            name: self.name@,
        }
    }
}

/// One duration bar, with its label and the label's anchor.
pub struct PdfBar {
    pub x: i64,
    pub y: i64,
    pub w: i64,
    pub h: i64,
    pub color: Rgb,
    pub label: String,
    pub label_x: i64,
    pub label_y: i64,
}

pub struct PdfBarV {
    pub x: int,
    pub y: int,
    pub w: int,
    pub h: int,
    pub color: Rgb,
    pub label: Seq<char>,
    pub label_x: int,
    pub label_y: int,
}

impl DeepView for PdfBar {
    type V = PdfBarV;

    open spec fn deep_view(&self) -> PdfBarV {
        PdfBarV {
            x: self.x as int,
            y: self.y as int,
            w: self.w as int,
            h: self.h as int,
            color: self.color,
            label: self.label@,
            label_x: self.label_x as int,
            label_y: self.label_y as int,
        }
    }
}

/// One point marker, with its label and the label's anchor.
pub struct PdfMarker {
    pub cx: i64,
    pub cy: i64,
    pub radius: i64,
    pub color: Rgb,
    pub label: String,
    pub label_x: i64,
    pub label_y: i64,
}

pub struct PdfMarkerV {
    pub cx: int,
    pub cy: int,
    pub radius: int,
    pub color: Rgb,
    pub label: Seq<char>,
    pub label_x: int,
    pub label_y: int,
}

impl DeepView for PdfMarker {
    type V = PdfMarkerV;

    open spec fn deep_view(&self) -> PdfMarkerV {
        PdfMarkerV {
            cx: self.cx as int,
            cy: self.cy as int,
            radius: self.radius as int,
            color: self.color,
            label: self.label@,
            label_x: self.label_x as int,
            label_y: self.label_y as int,
        }
    }
}

/// One axis tick of a content page.
pub struct PdfTick {
    pub x: i64,
    pub year: i64,
}

pub struct PdfTickV {
    pub x: int,
    pub year: int,
}

impl DeepView for PdfTick {
    type V = PdfTickV;

    open spec fn deep_view(&self) -> PdfTickV {
        PdfTickV { x: self.x as int, year: self.year as int }
    }
}

/// One content page: header label, lane bands, glyphs, and the time axis.
pub struct PdfPage {
    pub label: String,
    pub lanes: Vec<PdfLane>,
    pub bars: Vec<PdfBar>,
    pub markers: Vec<PdfMarker>,
    pub axis_y: i64,
    pub ticks: Vec<PdfTick>,
}

pub struct PdfPageV {
    pub label: Seq<char>,
    pub lanes: Seq<PdfLaneV>,
    pub bars: Seq<PdfBarV>,
    pub markers: Seq<PdfMarkerV>,
    pub axis_y: int,
    pub ticks: Seq<PdfTickV>,
}

impl DeepView for PdfPage {
    type V = PdfPageV;

    open spec fn deep_view(&self) -> PdfPageV {
        PdfPageV {
            label: self.label@,
            lanes: self.lanes.deep_view(),
            bars: self.bars.deep_view(),
            markers: self.markers.deep_view(),
            axis_y: self.axis_y as int,
            ticks: self.ticks.deep_view(),
        }
    }
}

/// The whole document plan: the cover sheet's text plus the content pages.
pub struct PdfPlan {
    pub title: String,
    pub date_range: String,
    pub count_text: String,
    pub description: Option<String>,
    pub pages: Vec<PdfPage>,
}

// ---------------------------------------------------------------------------
// The plan, mathematically
// ---------------------------------------------------------------------------

/// Hundredths of a millimeter spanned by a number of seconds at the document
/// scale, clamped to the usable page width.
pub open spec fn spec_cmm_clamped(delta: int) -> int {
    let v = (delta * 15) / 86400;
    if v < 0 {
        0
    } else if v > PDF_USABLE_W as int {
        PDF_USABLE_W as int
    } else {
        v
    }
}

/// The horizontal position of a coordinate on a page starting at `ps`.
pub open spec fn spec_pdf_x(c: int, ps: int) -> int {
    PDF_MARGIN as int + spec_cmm_clamped(c - ps)
}

pub open spec fn spec_pdf_lane_top(i: int) -> int {
    PDF_PAGE_H as int - PDF_HEADER as int - i * (PDF_LANE_H as int)
}

pub open spec fn spec_pdf_lane_center(i: int) -> int {
    spec_pdf_lane_top(i) - (PDF_LANE_H as int) / 2
}

pub open spec fn spec_pdf_axis_y(ntracks: int) -> int {
    let n = if ntracks >= 1 { ntracks } else { 1 };
    PDF_PAGE_H as int - PDF_HEADER as int - n * (PDF_LANE_H as int) - 500
}

/// The cover sheet's date-range line: the first event's start date to the
/// last event's end (or start) date.
pub open spec fn spec_date_range_text(evs: Seq<EventV>) -> Seq<char> {
    let min_str = if evs.len() == 0 {
        "N/A"@
    } else {
        evs[0].start_date
    };
    let max_str = if evs.len() == 0 {
        "N/A"@
    } else {
        match evs.last().end_date {
            Some(d) => d,
            None => evs.last().start_date,
        }
    };
    min_str + " to "@ + max_str
}

pub open spec fn spec_count_text(nevents: int, ntracks: int) -> Seq<char> {
    spec_dec(nevents) + " events across "@ + spec_dec(ntracks) + " tracks"@
}

pub open spec fn spec_page_label(p: int, n: int) -> Seq<char> {
    "Page "@ + spec_dec(p + 1) + " of "@ + spec_dec(n)
}

/// An over-long event title is cut to 27 characters plus an ellipsis.
pub open spec fn spec_event_label(title: Seq<char>) -> Seq<char> {
    spec_truncate(title, 30, 27)
}

pub open spec fn spec_pdf_lanes(tracks: Seq<TrackV>) -> Seq<PdfLaneV> {
    Seq::new(
        tracks.len(),
        |i: int|
            PdfLaneV {
                y_top: spec_pdf_lane_top(i),
                y_bottom: spec_pdf_lane_top(i) - PDF_LANE_H as int,
                tint: spec_lane_tint(spec_hex_to_rgb(tracks[i].color)),
                name: tracks[i].name,
            },
    )
}

/// The bar one event contributes to a page, if any: the event must carry a
/// parseable start date, be of a bar kind, overlap the page window, and some
/// track must exist to give it a lane.
pub open spec fn spec_event_bar(ev: EventV, tracks: Seq<TrackV>, ps: int) -> Seq<PdfBarV> {
    match spec_coordinate(ev.start_date) {
        None => Seq::empty(),
        Some(sc) => {
            let ec = spec_end_or_start(ev);
            if tracks.len() > 0 && spec_is_bar(ev.event_type) && spec_on_page(
                sc,
                ec,
                ps,
                ps + PAGE_SPAN as int,
            ) {
                let lane = spec_lane(tracks, ev.track_id);
                let x = spec_pdf_x(sc, ps);
                let xe = spec_pdf_x(ec, ps);
                let w = if xe - x >= 100 {
                    xe - x
                } else {
                    100int
                };
                let y = spec_pdf_lane_center(lane) - 250;
                seq![
                    PdfBarV {
                        x: x,
                        y: y,
                        w: w,
                        h: 500,
                        color: spec_hex_to_rgb(tracks[lane].color),
                        label: spec_event_label(ev.title),
                        label_x: x,
                        label_y: y + 600,
                    },
                ]
            } else {
                Seq::empty()
            }
        },
    }
}

/// The marker one event contributes to a page, if any.
pub open spec fn spec_event_marker(ev: EventV, tracks: Seq<TrackV>, ps: int) -> Seq<PdfMarkerV> {
    match spec_coordinate(ev.start_date) {
        None => Seq::empty(),
        Some(sc) => {
            let ec = spec_end_or_start(ev);
            if tracks.len() > 0 && !spec_is_bar(ev.event_type) && spec_on_page(
                sc,
                ec,
                ps,
                ps + PAGE_SPAN as int,
            ) {
                let lane = spec_lane(tracks, ev.track_id);
                let cx = spec_pdf_x(sc, ps);
                let cy = spec_pdf_lane_center(lane);
                seq![
                    PdfMarkerV {
                        cx: cx,
                        cy: cy,
                        radius: 150,
                        color: spec_hex_to_rgb(tracks[lane].color),
                        label: spec_event_label(ev.title),
                        label_x: cx - 200,
                        label_y: cy + 300,
                    },
                ]
            } else {
                Seq::empty()
            }
        },
    }
}

pub open spec fn spec_page_bars(evs: Seq<EventV>, tracks: Seq<TrackV>, ps: int) -> Seq<PdfBarV>
    decreases evs.len(),
{
    if evs.len() == 0 {
        Seq::empty()
    } else {
        spec_page_bars(evs.drop_last(), tracks, ps) + spec_event_bar(evs.last(), tracks, ps)
    }
}

pub open spec fn spec_page_markers(evs: Seq<EventV>, tracks: Seq<TrackV>, ps: int) -> Seq<
    PdfMarkerV,
>
    decreases evs.len(),
{
    if evs.len() == 0 {
        Seq::empty()
    } else {
        spec_page_markers(evs.drop_last(), tracks, ps) + spec_event_marker(
            evs.last(),
            tracks,
            ps,
        )
    }
}

/// The tick one grid point contributes to a page, if it falls inside the
/// margins.
pub open spec fn spec_tick_at(t: int, ps: int) -> Seq<PdfTickV> {
    let tx = PDF_MARGIN as int + ((t - ps) * 15) / 86400;
    if PDF_MARGIN as int <= tx && tx <= PDF_PAGE_W as int - PDF_MARGIN as int {
        seq![PdfTickV { x: tx, year: spec_year_of(t) }]
    } else {
        Seq::empty()
    }
}

pub open spec fn spec_page_ticks(t: int, pe: int, ps: int) -> Seq<PdfTickV>
    decreases (if t <= pe {
        pe - t + TICK_SPAN as int
    } else {
        0
    }),
{
    if t > pe {
        Seq::empty()
    } else {
        spec_tick_at(t, ps) + spec_page_ticks(t + TICK_SPAN as int, pe, ps)
    }
}

// ---------------------------------------------------------------------------
// Executable plan building
// ---------------------------------------------------------------------------

/// The horizontal page position of a coordinate, clamped to the usable area.
fn pdf_x(c: i64, ps: i64) -> (r: i64)
    requires
        -COORD_BOUND <= c <= COORD_BOUND,
        -COORD_BOUND - DEGENERATE_PAD <= ps <= COORD_BOUND + DEGENERATE_PAD + PAGE_SPAN,
    ensures
        r == spec_pdf_x(c as int, ps as int),
        PDF_MARGIN <= r <= PDF_MARGIN + PDF_USABLE_W,
{
    let v = floor_div_i64((c - ps) * 15, 86400);
    let clamped = if v < 0 {
        0
    } else if v > PDF_USABLE_W {
        PDF_USABLE_W
    } else {
        v
    };
    PDF_MARGIN + clamped
}

/// One whole content page.
pub open spec fn spec_page(
    tracks: Seq<TrackV>,
    evs: Seq<EventV>,
    p: int,
    n: int,
    w0: int,
) -> PdfPageV {
    let ps = spec_page_start(w0, p);
    let pe = ps + PAGE_SPAN as int;
    PdfPageV {
        label: spec_page_label(p, n),
        lanes: spec_pdf_lanes(tracks),
        bars: spec_page_bars(evs, tracks, ps),
        markers: spec_page_markers(evs, tracks, ps),
        axis_y: spec_pdf_axis_y(tracks.len() as int),
        ticks: spec_page_ticks(spec_first_tick(ps), pe, ps),
    }
}

/// Builds one content page of the plan.
#[verifier::rlimit(100)]
#[verifier::spinoff_prover]
fn build_page(tracks: &Vec<Track>, events: &Vec<Event>, p: usize, n: usize, w0: i64) -> (pg:
    PdfPage)
    requires
        tracks@.len() <= MAX_TRACKS,
        (p as int) < n as int <= 10000,
        -COORD_BOUND - DEGENERATE_PAD <= w0,
        w0 + (n as int - 1) * (PAGE_SPAN as int) <= COORD_BOUND + DEGENERATE_PAD + PAGE_SPAN,
    ensures
        pg.deep_view() == spec_page(
            tracks.deep_view(),
            events.deep_view(),
            p as int,
            n as int,
            w0 as int,
        ),
{
    let ghost tks = tracks.deep_view();
    let ghost evs = events.deep_view();
    let ps: i64 = w0 + (p as i64) * PAGE_SPAN;
    let pe: i64 = ps + PAGE_SPAN;
    proof {
        assert(ps == spec_page_start(w0 as int, p as int));
    }

    // "Page i of N" header
    let mut label = String::new();
    label.append("Page ");
    let pnum = u64_to_string((p as u64) + 1);
    label.append(pnum.as_str());
    label.append(" of ");
    let nnum = u64_to_string(n as u64);
    label.append(nnum.as_str());
    proof {
        assert(label@ =~= spec_page_label(p as int, n as int));
    }

    // lane bands
    let mut lanes: Vec<PdfLane> = Vec::new();
    let mut i: usize = 0;
    while i < tracks.len()
        invariant
            tks == tracks.deep_view(),
            tks.len() == tracks.len() <= MAX_TRACKS,
            0 <= i <= tracks.len(),
            lanes.deep_view().len() == i,
            forall|k: int| 0 <= k < i ==> lanes.deep_view()[k] == spec_pdf_lanes(tks)[k],
        decreases tracks.len() - i,
    {
        let y_top: i64 = PDF_PAGE_H - PDF_HEADER - (i as i64) * PDF_LANE_H;
        let tint = lane_tint(hex_to_rgb(tracks[i].color.as_str()));
        lanes.push(
            PdfLane { y_top, y_bottom: y_top - PDF_LANE_H, tint, name: tracks[i].name.clone() },
        );
        i += 1;
    }
    proof {
        assert(lanes.deep_view() =~= spec_pdf_lanes(tks));
    }

    // glyphs, clipped to this page's window
    let mut bars: Vec<PdfBar> = Vec::new();
    let mut markers: Vec<PdfMarker> = Vec::new();
    let mut j: usize = 0;
    while j < events.len()
        invariant
            tks == tracks.deep_view(),
            evs == events.deep_view(),
            tks.len() == tracks.len() <= MAX_TRACKS,
            evs.len() == events.len(),
            0 <= j <= events.len(),
            -COORD_BOUND - DEGENERATE_PAD <= ps <= COORD_BOUND + DEGENERATE_PAD + PAGE_SPAN,
            pe == ps + PAGE_SPAN,
            bars.deep_view() == spec_page_bars(evs.subrange(0, j as int), tks, ps as int),
            markers.deep_view() == spec_page_markers(evs.subrange(0, j as int), tks, ps as int),
        decreases events.len() - j,
    {
        let ghost prebars = bars.deep_view();
        let ghost premarkers = markers.deep_view();
        let ev = &events[j];
        proof {
            assert(evs.subrange(0, j + 1).drop_last() =~= evs.subrange(0, j as int));
            assert(evs.subrange(0, j + 1).last() == evs[j as int]);
        }
        match coordinate(ev.start_date.as_str()) {
            None => {},
            Some(sc) => {
                let ec: i64 = match &ev.end_date {
                    Some(d) => match coordinate(d.as_str()) {
                        Some(e) => e,
                        None => sc,
                    },
                    None => sc,
                };
                proof {
                    assert(ec == spec_end_or_start(ev@));
                }
                let is_bar = str_eq(ev.event_type.as_str(), "range") || str_eq(
                    ev.event_type.as_str(),
                    "era",
                );
                if tracks.len() > 0 && ec >= ps && sc <= pe {
                    let lane = lane_index(tracks, ev.track_id.as_str());
                    let color = hex_to_rgb(tracks[lane].color.as_str());
                    let lane_center: i64 = PDF_PAGE_H - PDF_HEADER - (lane as i64) * PDF_LANE_H
                        - PDF_LANE_H / 2;
                    proof {
                        assert(lane_center == spec_pdf_lane_center(lane as int));
                    }
                    let x = pdf_x(sc, ps);
                    let lbl = truncate_with_ellipsis(ev.title.as_str(), 30, 27);
                    if is_bar {
                        let xe = pdf_x(ec, ps);
                        let w: i64 = if xe - x >= 100 {
                            xe - x
                        } else {
                            100
                        };
                        let y = lane_center - 250;
                        bars.push(
                            PdfBar {
                                x,
                                y,
                                w,
                                h: 500,
                                color,
                                label: lbl,
                                label_x: x,
                                label_y: y + 600,
                            },
                        );
                    } else {
                        markers.push(
                            PdfMarker {
                                cx: x,
                                cy: lane_center,
                                radius: 150,
                                color,
                                label: lbl,
                                label_x: x - 200,
                                label_y: lane_center + 300,
                            },
                        );
                    }
                }
            },
        }
        proof {
            assert(bars.deep_view() =~= spec_page_bars(evs.subrange(0, j + 1), tks, ps as int));
            assert(markers.deep_view() =~= spec_page_markers(
                evs.subrange(0, j + 1),
                tks,
                ps as int,
            ));
        }
        j += 1;
    }
    proof {
        assert(evs.subrange(0, events.len() as int) =~= evs);
    }

    // the time axis
    let nlanes: i64 = if tracks.len() == 0 {
        1
    } else {
        tracks.len() as i64
    };
    let axis_y: i64 = PDF_PAGE_H - PDF_HEADER - nlanes * PDF_LANE_H - 500;
    proof {
        assert(axis_y == spec_pdf_axis_y(tks.len() as int));
    }
    let q = ceil_div_i64(ps, TICK_SPAN);
    proof {
        vstd::arithmetic::div_mod::lemma_fundamental_div_mod(-ps as int, TICK_SPAN as int);
        vstd::arithmetic::div_mod::lemma_mod_division_less_than_divisor(
            -ps as int,
            TICK_SPAN as int,
        );
    }
    let mut t = q * TICK_SPAN;
    proof {
        assert(t == spec_first_tick(ps as int));
        assert(ps <= t) by {
            assert((TICK_SPAN as int) * ((-ps as int) / (TICK_SPAN as int)) <= -ps as int);
        }
        assert(t <= ps + TICK_SPAN);
    }
    let ghost first = t as int;
    let mut ticks: Vec<PdfTick> = Vec::new();
    while t <= pe
        invariant
            -COORD_BOUND - DEGENERATE_PAD <= ps <= COORD_BOUND + DEGENERATE_PAD + PAGE_SPAN,
            pe == ps + PAGE_SPAN,
            ps <= t,
            t <= pe + TICK_SPAN,
            ticks.deep_view() + spec_page_ticks(t as int, pe as int, ps as int) == spec_page_ticks(
                first,
                pe as int,
                ps as int,
            ),
        decreases pe + TICK_SPAN - t,
    {
        let ghost pret = ticks.deep_view();
        let tx = PDF_MARGIN + floor_div_i64((t - ps) * 15, 86400);
        proof {
            vstd::arithmetic::div_mod::lemma_div_pos_is_pos(
                (t - ps) as int * 15,
                86400,
            );
        }
        if PDF_MARGIN <= tx && tx <= PDF_PAGE_W - PDF_MARGIN {
            let yr = year_of(t);
            ticks.push(PdfTick { x: tx, year: yr });
        }
        proof {
            assert(ticks.deep_view() =~= pret + spec_tick_at(t as int, ps as int));
            assert(spec_page_ticks(t as int, pe as int, ps as int) == spec_tick_at(
                t as int,
                ps as int,
            ) + spec_page_ticks(t + TICK_SPAN, pe as int, ps as int));
            assert(ticks.deep_view() + spec_page_ticks(t + TICK_SPAN, pe as int, ps as int)
                =~= spec_page_ticks(first, pe as int, ps as int));
        }
        t = t + TICK_SPAN;
    }
    proof {
        assert(ticks.deep_view() =~= spec_page_ticks(first, pe as int, ps as int));
    }

    let pg = PdfPage { label, lanes, bars, markers, axis_y, ticks };
    proof {
        assert(pg.deep_view() == spec_page(tks, evs, p as int, n as int, w0 as int));
    }
    pg
}

/// Law: a page holds only events whose interval overlaps that page's
/// coordinate window.  Every bar of a page plan comes from an event of a bar
/// kind with a parseable start whose resolved span meets the window, and
/// every marker likewise from a marker-kind event.
pub proof fn lemma_page_clips_to_window(evs: Seq<EventV>, tracks: Seq<TrackV>, ps: int)
    ensures
        forall|i: int|
            0 <= i < spec_page_bars(evs, tracks, ps).len() ==> exists|k: int|
                {
                    &&& 0 <= k < evs.len()
                    &&& spec_coordinate(#[trigger] evs[k].start_date) is Some
                    &&& spec_is_bar(evs[k].event_type)
                    &&& spec_on_page(
                        spec_coordinate(evs[k].start_date)->0,
                        spec_end_or_start(evs[k]),
                        ps,
                        ps + PAGE_SPAN as int,
                    )
                    &&& #[trigger] spec_page_bars(evs, tracks, ps)[i] == spec_event_bar(
                        evs[k],
                        tracks,
                        ps,
                    )[0]
                },
        forall|i: int|
            0 <= i < spec_page_markers(evs, tracks, ps).len() ==> exists|k: int|
                {
                    &&& 0 <= k < evs.len()
                    &&& spec_coordinate(#[trigger] evs[k].start_date) is Some
                    &&& !spec_is_bar(evs[k].event_type)
                    &&& spec_on_page(
                        spec_coordinate(evs[k].start_date)->0,
                        spec_end_or_start(evs[k]),
                        ps,
                        ps + PAGE_SPAN as int,
                    )
                    &&& #[trigger] spec_page_markers(evs, tracks, ps)[i] == spec_event_marker(
                        evs[k],
                        tracks,
                        ps,
                    )[0]
                },
    decreases evs.len(),
{
    if evs.len() > 0 {
        let pre = evs.drop_last();
        lemma_page_clips_to_window(pre, tracks, ps);
        assert(forall|k: int| 0 <= k < pre.len() ==> #[trigger] pre[k] == evs[k]);
        assert(evs.last() == evs[evs.len() - 1]);
        assert forall|i: int| 0 <= i < spec_page_bars(evs, tracks, ps).len() implies exists|k: int|
            {
                &&& 0 <= k < evs.len()
                &&& spec_coordinate(#[trigger] evs[k].start_date) is Some
                &&& spec_is_bar(evs[k].event_type)
                &&& spec_on_page(
                    spec_coordinate(evs[k].start_date)->0,
                    spec_end_or_start(evs[k]),
                    ps,
                    ps + PAGE_SPAN as int,
                )
                &&& #[trigger] spec_page_bars(evs, tracks, ps)[i] == spec_event_bar(
                    evs[k],
                    tracks,
                    ps,
                )[0]
            } by {
            if i < spec_page_bars(pre, tracks, ps).len() {
                assert(spec_page_bars(evs, tracks, ps)[i] == spec_page_bars(pre, tracks, ps)[i]);
                let k0 = choose|k: int|
                    {
                        &&& 0 <= k < pre.len()
                        &&& spec_coordinate(#[trigger] pre[k].start_date) is Some
                        &&& spec_is_bar(pre[k].event_type)
                        &&& spec_on_page(
                            spec_coordinate(pre[k].start_date)->0,
                            spec_end_or_start(pre[k]),
                            ps,
                            ps + PAGE_SPAN as int,
                        )
                        &&& #[trigger] spec_page_bars(pre, tracks, ps)[i] == spec_event_bar(
                            pre[k],
                            tracks,
                            ps,
                        )[0]
                    };
                assert(evs[k0] == pre[k0]);
                assert(spec_coordinate(evs[k0].start_date) is Some);
                assert(spec_page_bars(evs, tracks, ps)[i] == spec_event_bar(
                    evs[k0],
                    tracks,
                    ps,
                )[0]);
            } else {
                let k0 = evs.len() - 1;
                assert(spec_page_bars(evs, tracks, ps)[i] == spec_event_bar(
                    evs[k0],
                    tracks,
                    ps,
                )[0]);
                assert(spec_coordinate(evs[k0].start_date) is Some);
            }
        }
        assert forall|i: int|
            0 <= i < spec_page_markers(evs, tracks, ps).len() implies exists|k: int|
            {
                &&& 0 <= k < evs.len()
                &&& spec_coordinate(#[trigger] evs[k].start_date) is Some
                &&& !spec_is_bar(evs[k].event_type)
                &&& spec_on_page(
                    spec_coordinate(evs[k].start_date)->0,
                    spec_end_or_start(evs[k]),
                    ps,
                    ps + PAGE_SPAN as int,
                )
                &&& #[trigger] spec_page_markers(evs, tracks, ps)[i] == spec_event_marker(
                    evs[k],
                    tracks,
                    ps,
                )[0]
            } by {
            if i < spec_page_markers(pre, tracks, ps).len() {
                assert(spec_page_markers(evs, tracks, ps)[i] == spec_page_markers(
                    pre,
                    tracks,
                    ps,
                )[i]);
                let k0 = choose|k: int|
                    {
                        &&& 0 <= k < pre.len()
                        &&& spec_coordinate(#[trigger] pre[k].start_date) is Some
                        &&& !spec_is_bar(pre[k].event_type)
                        &&& spec_on_page(
                            spec_coordinate(pre[k].start_date)->0,
                            spec_end_or_start(pre[k]),
                            ps,
                            ps + PAGE_SPAN as int,
                        )
                        &&& #[trigger] spec_page_markers(pre, tracks, ps)[i] == spec_event_marker(
                            pre[k],
                            tracks,
                            ps,
                        )[0]
                    };
                assert(evs[k0] == pre[k0]);
                assert(spec_coordinate(evs[k0].start_date) is Some);
                assert(spec_page_markers(evs, tracks, ps)[i] == spec_event_marker(
                    evs[k0],
                    tracks,
                    ps,
                )[0]);
            } else {
                let k0 = evs.len() - 1;
                assert(spec_page_markers(evs, tracks, ps)[i] == spec_event_marker(
                    evs[k0],
                    tracks,
                    ps,
                )[0]);
                assert(spec_coordinate(evs[k0].start_date) is Some);
            }
        }
    }
}

/// Builds the full run of content pages.
#[verifier::rlimit(100)]
#[verifier::spinoff_prover]
fn build_pages(tracks: &Vec<Track>, events: &Vec<Event>, w0: i64, w1: i64, n: usize) -> (pages:
    Vec<PdfPage>)
    requires
        tracks@.len() <= MAX_TRACKS,
        n == spec_num_pages(w0 as int, w1 as int),
        1 <= n <= 10000,
        w0 + 86400 <= w1,
        -COORD_BOUND - DEGENERATE_PAD <= w0,
        w1 <= COORD_BOUND + DEGENERATE_PAD,
    ensures
        pages.deep_view().len() == n,
        forall|k: int|
            0 <= k < n ==> (#[trigger] pages.deep_view()[k]) == spec_page(
                tracks.deep_view(),
                events.deep_view(),
                k,
                n as int,
                w0 as int,
            ),
{
    let ghost tks = tracks.deep_view();
    let ghost evs = events.deep_view();
    proof {
        lemma_ceil_mul_bound(w1 as int - w0 as int, PAGE_SPAN as int);
        assert(spec_ceil_div(w1 as int - w0 as int, PAGE_SPAN as int) >= 1);
        assert(w0 + (n as int - 1) * (PAGE_SPAN as int) <= COORD_BOUND + DEGENERATE_PAD
            + PAGE_SPAN);
    }
    let mut pages: Vec<PdfPage> = Vec::new();
    let mut p: usize = 0;
    while p < n
        invariant
            tks == tracks.deep_view(),
            evs == events.deep_view(),
            tks.len() == tracks.len() <= MAX_TRACKS,
            0 <= p <= n,
            1 <= n <= 10000,
            -COORD_BOUND - DEGENERATE_PAD <= w0,
            w0 + (n as int - 1) * (PAGE_SPAN as int) <= COORD_BOUND + DEGENERATE_PAD + PAGE_SPAN,
            pages.deep_view().len() == p,
            forall|k: int|
                0 <= k < p ==> (#[trigger] pages.deep_view()[k]) == spec_page(
                    tks,
                    evs,
                    k,
                    n as int,
                    w0 as int,
                ),
        decreases n - p,
    {
        let pg = build_page(tracks, events, p, n, w0);
        let ghost predeep = pages.deep_view();
        let ghost pgv = pg.deep_view();
        pages.push(pg);
        proof {
            assert(pages.deep_view().len() == p + 1);
            assert forall|k: int|
                0 <= k < p + 1 implies (#[trigger] pages.deep_view()[k]) == spec_page(
                tks,
                evs,
                k,
                n as int,
                w0 as int,
            ) by {
                if k < p {
                    assert(pages.deep_view()[k] == predeep[k]);
                } else {
                    assert(pages.deep_view()[k] == pgv);
                }
            }
        }
        p += 1;
    }
    pages
}

/// Computes the whole document plan, or reports that the timeline's metadata
/// did not resolve; no other failure exists, whatever the entity lists hold.
#[verifier::rlimit(100)]
#[verifier::spinoff_prover]
pub fn generate_pdf_plan(
    timeline_id: &str,
    timeline: Option<&Timeline>,
    tracks: &Vec<Track>,
    events: &Vec<Event>,
) -> (r: Result<PdfPlan, AppError>)
    requires
        tracks@.len() <= MAX_TRACKS,
    ensures
        match timeline {
            Some(tl) => r matches Ok(plan) && {
                let tks = tracks.deep_view();
                let evs = events.deep_view();
                let w0 = spec_window(evs).0;
                let n = spec_num_pages(w0, spec_window(evs).1);
                &&& plan.title@ == tl@.title
                &&& plan.date_range@ == spec_date_range_text(evs)
                &&& plan.count_text@ == spec_count_text(evs.len() as int, tks.len() as int)
                &&& (tl@.description.len() == 0 <==> plan.description is None)
                &&& (plan.description matches Some(d) ==> d@ == spec_truncate(
                    tl@.description,
                    200,
                    200,
                ))
                &&& plan.pages@.len() == n
                &&& forall|p: int|
                    0 <= p < n ==> (#[trigger] plan.pages@[p]).deep_view() == spec_page(
                        tks,
                        evs,
                        p,
                        n,
                        w0,
                    )
            },
            None => r matches Err(e) && e is NotFound && e.spec_message() == spec_not_found_msg(
                timeline_id@,
            ),
        },
{
    let tl = match timeline {
        Some(t) => t,
        None => {
            let mut msg = String::from_str("Timeline ");
            msg.append(timeline_id);
            msg.append(" not found");
            proof {
                assert(msg@ =~= spec_not_found_msg(timeline_id@));
            }
            return Err(AppError::NotFound(msg));
        },
    };
    let ghost tks = tracks.deep_view();
    let ghost evs = events.deep_view();

    // cover texts
    let title = tl.title.clone();
    let mut date_range = String::new();
    if events.len() == 0 {
        date_range.append("N/A");
    } else {
        date_range.append(events[0].start_date.as_str());
    }
    date_range.append(" to ");
    if events.len() == 0 {
        date_range.append("N/A");
    } else {
        let last = &events[events.len() - 1];
        proof {
            assert(evs.last() == evs[evs.len() - 1]);
        }
        match &last.end_date {
            Some(d) => date_range.append(d.as_str()),
            None => date_range.append(last.start_date.as_str()),
        }
    }
    proof {
        assert(date_range@ =~= spec_date_range_text(evs));
    }

    let mut count_text = u64_to_string(events.len() as u64);
    count_text.append(" events across ");
    let tnum = u64_to_string(tracks.len() as u64);
    count_text.append(tnum.as_str());
    count_text.append(" tracks");
    proof {
        assert(count_text@ =~= spec_count_text(evs.len() as int, tks.len() as int));
    }

    let description: Option<String> = if tl.description.as_str().unicode_len() == 0 {
        None
    } else {
        Some(truncate_with_ellipsis(tl.description.as_str(), 200, 200))
    };

    // content pages
    let window = compute_window(events);
    let w0 = window.0;
    let w1 = window.1;
    let n = num_pages(w0, w1);
    let pages = build_pages(tracks, events, w0, w1, n);

    let plan = PdfPlan { title, date_range, count_text, description, pages };
    proof {
        assert(plan.pages@.len() == n);
        assert(forall|p: int|
            0 <= p < n ==> (#[trigger] plan.pages@[p]).deep_view() == pages.deep_view()[p]);
    }
    Ok(plan)
}

} // verus!
