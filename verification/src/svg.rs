//! The vector-markup backend: a single linear pass that draws background,
//! title, lane bands, event glyphs, connection curves and a yearly-tick time
//! axis into one self-contained textual document.
//!
//! Pixel geometry is carried in integer thousandths of a pixel and written
//! with three digits after the point; the scale is half a pixel per day.

use vstd::prelude::*;
use vstd::string::StrSliceExecFns;
use vstd::string::StringExecFns;

use crate::color::{color_attr, spec_color_attr};
use crate::date::{coordinate, spec_coordinate, COORD_BOUND};
use crate::error::AppError;
use crate::escape::{escape_xml, spec_escape};
use crate::layout::{
    ceil_div_i64, compute_window, floor_div_i64, lane_index, spec_end_or_start, spec_first_tick,
    spec_is_bar, spec_lane, spec_not_found_msg, spec_window, spec_year_of, year_of,
    DEGENERATE_PAD, MAX_TRACKS, TICK_SPAN,
};
use crate::models::{Connection, ConnectionV, Event, EventV, Timeline, TimelineV, Track, TrackV};
use crate::textfmt::{format_fixed3, i64_to_string, spec_dec_signed, spec_fixed3, str_eq};

verus! {

/// Horizontal padding, in milli-pixels (20 px).
pub const SVG_PADDING: i64 = 20_000;

/// Height of the title header (40 px), of one lane (60 px), and of the axis
/// strip (40 px), in milli-pixels.
pub const SVG_HEADER_H: i64 = 40_000;

pub const SVG_TRACK_H: i64 = 60_000;

pub const SVG_AXIS_H: i64 = 40_000;

/// The canvas floor: 600 by 200 pixels, in milli-pixels.
pub const SVG_MIN_W: i64 = 600_000;

pub const SVG_MIN_H: i64 = 200_000;

// ---------------------------------------------------------------------------
// Pixel geometry
// ---------------------------------------------------------------------------

/// Milli-pixels per span of seconds at half a pixel per day.
pub open spec fn spec_mpx(delta: int) -> int {
    (delta * 5) / 864
}

/// The horizontal position of a coordinate inside the window.
pub open spec fn spec_x(c: int, minc: int) -> int {
    spec_mpx(c - minc) + SVG_PADDING as int
}

pub open spec fn spec_svg_width(minc: int, maxc: int) -> int {
    let content = spec_mpx(maxc - minc) + 2 * SVG_PADDING as int;
    if content >= SVG_MIN_W as int {
        content
    } else {
        SVG_MIN_W as int
    }
}

pub open spec fn spec_lane_count(ntracks: int) -> int {
    if ntracks >= 1 {
        ntracks
    } else {
        1
    }
}

pub open spec fn spec_svg_height(ntracks: int) -> int {
    let content = SVG_HEADER_H as int + spec_lane_count(ntracks) * (SVG_TRACK_H as int)
        + SVG_AXIS_H as int + 2 * SVG_PADDING as int;
    if content >= SVG_MIN_H as int {
        content
    } else {
        SVG_MIN_H as int
    }
}

/// The vertical center of an event on its lane.
pub open spec fn spec_event_y(lane: int) -> int {
    SVG_HEADER_H as int + lane * (SVG_TRACK_H as int) + (SVG_TRACK_H as int) / 2
}

pub open spec fn spec_axis_y(ntracks: int) -> int {
    SVG_HEADER_H as int + spec_lane_count(ntracks) * (SVG_TRACK_H as int) + 10_000
}

// ---------------------------------------------------------------------------
// The document text, piece by piece
// ---------------------------------------------------------------------------

pub open spec fn spec_svg_header(w: int, h: int) -> Seq<char> {
    "<svg xmlns=\"http://www.w3.org/2000/svg\" viewBox=\"0 0 "@ + spec_fixed3(w) + " "@
        + spec_fixed3(h) + "\" width=\""@ + spec_fixed3(w) + "\" height=\""@ + spec_fixed3(h)
        + "\">"@
}

pub open spec fn spec_svg_bg(w: int, h: int) -> Seq<char> {
    "<rect width=\""@ + spec_fixed3(w) + "\" height=\""@ + spec_fixed3(h)
        + "\" fill=\"#ffffff\"/>"@
}

pub open spec fn spec_svg_title(title: Seq<char>, w: int) -> Seq<char> {
    "<text x=\""@ + spec_fixed3(w / 2)
        + "\" y=\"26.000\" font-family=\"sans-serif\" font-size=\"18\" font-weight=\"bold\" text-anchor=\"middle\" fill=\"#1f2937\">"@
        + spec_escape(title) + "</text>"@
}

pub open spec fn spec_lane_piece(t: TrackV, i: int, w: int) -> Seq<char> {
    "<rect x=\"0\" y=\""@ + spec_fixed3(SVG_HEADER_H as int + i * (SVG_TRACK_H as int))
        + "\" width=\""@ + spec_fixed3(w) + "\" height=\"60.000\" fill=\""@ + spec_color_attr(
        t.color,
    ) + "\" opacity=\"0.1\"/>"@ + "<text x=\"5\" y=\""@ + spec_fixed3(
        SVG_HEADER_H as int + i * (SVG_TRACK_H as int) + 14_000,
    ) + "\" font-family=\"sans-serif\" font-size=\"11\" fill=\"#6b7280\">"@ + spec_escape(t.name)
        + "</text>"@
}

pub open spec fn spec_lanes(tracks: Seq<TrackV>, w: int) -> Seq<char>
    decreases tracks.len(),
{
    if tracks.len() == 0 {
        Seq::empty()
    } else {
        spec_lanes(tracks.drop_last(), w) + spec_lane_piece(
            tracks.last(),
            tracks.len() - 1,
            w,
        )
    }
}

/// The fill of an event's glyph: its lane's track color, or the neutral
/// fallback when no track exists at all.
pub open spec fn spec_event_color(tracks: Seq<TrackV>, lane: int) -> Seq<char> {
    if lane < tracks.len() {
        spec_color_attr(tracks[lane].color)
    } else {
        "#6b7280"@
    }
}

pub open spec fn spec_bar_width(sc: int, ec: int, minc: int) -> int {
    let bw = spec_mpx(ec - minc) - spec_mpx(sc - minc);
    if bw >= 4000 {
        bw
    } else {
        4000
    }
}

pub open spec fn spec_bar_piece(x: int, bar_y: int, bw: int, color: Seq<char>) -> Seq<char> {
    "<rect x=\""@ + spec_fixed3(x) + "\" y=\""@ + spec_fixed3(bar_y) + "\" width=\""@
        + spec_fixed3(bw) + "\" height=\"20.000\" rx=\"4\" ry=\"4\" fill=\""@ + color
        + "\" opacity=\"0.7\"/>"@
}

pub open spec fn spec_glyph_label(lx: int, ly: int, title: Seq<char>) -> Seq<char> {
    "<text x=\""@ + spec_fixed3(lx) + "\" y=\""@ + spec_fixed3(ly)
        + "\" font-family=\"sans-serif\" font-size=\"10\" text-anchor=\"middle\" fill=\"#1f2937\">"@
        + spec_escape(title) + "</text>"@
}

pub open spec fn spec_marker_piece(x: int, y: int, color: Seq<char>) -> Seq<char> {
    "<circle cx=\""@ + spec_fixed3(x) + "\" cy=\""@ + spec_fixed3(y) + "\" r=\"6\" fill=\""@
        + color + "\"/>"@
}

pub open spec fn spec_event_piece(ev: EventV, tracks: Seq<TrackV>, minc: int) -> Seq<char> {
    match spec_coordinate(ev.start_date) {
        None => Seq::empty(),
        Some(sc) => {
            let lane = spec_lane(tracks, ev.track_id);
            let x = spec_x(sc, minc);
            let y = spec_event_y(lane);
            let color = spec_event_color(tracks, lane);
            if spec_is_bar(ev.event_type) {
                let bw = spec_bar_width(sc, spec_end_or_start(ev), minc);
                let bar_y = y - 10_000;
                spec_bar_piece(x, bar_y, bw, color) + spec_glyph_label(
                    x + bw / 2,
                    bar_y - 4000,
                    ev.title,
                )
            } else {
                spec_marker_piece(x, y, color) + spec_glyph_label(x, y - 10_000, ev.title)
            }
        },
    }
}

pub open spec fn spec_events_markup(events: Seq<EventV>, tracks: Seq<TrackV>, minc: int) -> Seq<
    char,
>
    decreases events.len(),
{
    if events.len() == 0 {
        Seq::empty()
    } else {
        spec_events_markup(events.drop_last(), tracks, minc) + spec_event_piece(
            events.last(),
            tracks,
            minc,
        )
    }
}

/// The placed position of every event whose start date parses, in input
/// order: id, x, and lane-center y.
pub open spec fn spec_positions(events: Seq<EventV>, tracks: Seq<TrackV>, minc: int) -> Seq<
    (Seq<char>, int, int),
>
    decreases events.len(),
{
    if events.len() == 0 {
        Seq::empty()
    } else {
        let rest = spec_positions(events.drop_last(), tracks, minc);
        match spec_coordinate(events.last().start_date) {
            Some(sc) => rest.push(
                (
                    events.last().id,
                    spec_x(sc, minc),
                    spec_event_y(spec_lane(tracks, events.last().track_id)),
                ),
            ),
            None => rest,
        }
    }
}

/// The first placed position carrying the given event id.
pub open spec fn spec_find_pos(ps: Seq<(Seq<char>, int, int)>, id: Seq<char>) -> Option<
    (int, int),
>
    decreases ps.len(),
{
    if ps.len() == 0 {
        None
    } else if ps[0].0 == id {
        Some((ps[0].1, ps[0].2))
    } else {
        spec_find_pos(ps.drop_first(), id)
    }
}

pub open spec fn spec_svg_defs() -> Seq<char> {
    "<defs><marker id=\"arrowhead\" markerWidth=\"8\" markerHeight=\"6\" refX=\"8\" refY=\"3\" orient=\"auto\"><path d=\"M0,0 L8,3 L0,6 Z\" fill=\"#9ca3af\"/></marker></defs>"@
}

pub open spec fn spec_conn_path(x1: int, y1: int, x2: int, y2: int, mx: int, cy: int) -> Seq<
    char,
> {
    "<path d=\"M"@ + spec_fixed3(x1) + ","@ + spec_fixed3(y1) + " Q"@ + spec_fixed3(mx) + ","@
        + spec_fixed3(cy) + " "@ + spec_fixed3(x2) + ","@ + spec_fixed3(y2)
        + "\" fill=\"none\" stroke=\"#9ca3af\" stroke-width=\"1.5\" marker-end=\"url(#arrowhead)\"/>"@
}

pub open spec fn spec_conn_label(mx: int, cy: int, l: Seq<char>) -> Seq<char> {
    "<text x=\""@ + spec_fixed3(mx) + "\" y=\""@ + spec_fixed3(cy - 4000)
        + "\" font-family=\"sans-serif\" font-size=\"9\" text-anchor=\"middle\" fill=\"#9ca3af\">"@
        + spec_escape(l) + "</text>"@
}

pub open spec fn spec_conn_piece(c: ConnectionV, ps: Seq<(Seq<char>, int, int)>) -> Seq<char> {
    match (spec_find_pos(ps, c.source_event_id), spec_find_pos(ps, c.target_event_id)) {
        (Some(p1), Some(p2)) => {
            let mx = (p1.0 + p2.0) / 2;
            let cy = (if p1.1 <= p2.1 {
                p1.1
            } else {
                p2.1
            }) - 30_000;
            spec_conn_path(p1.0, p1.1, p2.0, p2.1, mx, cy) + match c.label {
                Some(l) => spec_conn_label(mx, cy, l),
                None => Seq::empty(),
            }
        },
        _ => Seq::empty(),
    }
}

pub open spec fn spec_connections_markup(
    conns: Seq<ConnectionV>,
    ps: Seq<(Seq<char>, int, int)>,
) -> Seq<char>
    decreases conns.len(),
{
    if conns.len() == 0 {
        Seq::empty()
    } else {
        spec_connections_markup(conns.drop_last(), ps) + spec_conn_piece(conns.last(), ps)
    }
}

pub open spec fn spec_svg_axis(w: int, ay: int) -> Seq<char> {
    "<line x1=\"20.000\" y1=\""@ + spec_fixed3(ay) + "\" x2=\""@ + spec_fixed3(
        w - SVG_PADDING as int,
    ) + "\" y2=\""@ + spec_fixed3(ay) + "\" stroke=\"#d1d5db\" stroke-width=\"1\"/>"@
}

pub open spec fn spec_tick_piece(t: int, minc: int, w: int, ay: int) -> Seq<char> {
    let tx = spec_x(t, minc);
    if SVG_PADDING as int <= tx && tx <= w - SVG_PADDING as int {
        "<line x1=\""@ + spec_fixed3(tx) + "\" y1=\""@ + spec_fixed3(ay - 4000) + "\" x2=\""@
            + spec_fixed3(tx) + "\" y2=\""@ + spec_fixed3(ay + 4000)
            + "\" stroke=\"#d1d5db\" stroke-width=\"1\"/>"@ + "<text x=\""@ + spec_fixed3(tx)
            + "\" y=\""@ + spec_fixed3(ay + 18_000)
            + "\" font-family=\"sans-serif\" font-size=\"10\" text-anchor=\"middle\" fill=\"#6b7280\">"@
            + spec_dec_signed(spec_year_of(t)) + "</text>"@
    } else {
        Seq::empty()
    }
}

pub open spec fn spec_ticks(t: int, maxc: int, minc: int, w: int, ay: int) -> Seq<char>
    decreases (if t <= maxc {
        maxc - t + TICK_SPAN as int
    } else {
        0
    }),
{
    if t > maxc {
        Seq::empty()
    } else {
        spec_tick_piece(t, minc, w, ay) + spec_ticks(t + TICK_SPAN as int, maxc, minc, w, ay)
    }
}

/// The whole document.
pub open spec fn spec_svg(
    tl: TimelineV,
    tracks: Seq<TrackV>,
    events: Seq<EventV>,
    conns: Seq<ConnectionV>,
) -> Seq<char> {
    let (minc, maxc) = spec_window(events);
    let w = spec_svg_width(minc, maxc);
    let h = spec_svg_height(tracks.len() as int);
    let ay = spec_axis_y(tracks.len() as int);
    spec_svg_header(w, h) + spec_svg_bg(w, h) + spec_svg_title(tl.title, w) + spec_lanes(tracks, w)
        + spec_events_markup(events, tracks, minc) + spec_svg_defs() + spec_connections_markup(
        conns,
        spec_positions(events, tracks, minc),
    ) + spec_svg_axis(w, ay) + spec_ticks(spec_first_tick(minc), maxc, minc, w, ay) + "</svg>"@
}

// ---------------------------------------------------------------------------
// Laws of the connection router
// ---------------------------------------------------------------------------

/// Looking an id up in a grown position list: the earlier entries win, and a
/// fresh entry is found only under its own id.
proof fn lemma_find_pos_push(ps: Seq<(Seq<char>, int, int)>, p: (Seq<char>, int, int), id: Seq<char>)
    ensures
        spec_find_pos(ps.push(p), id) == (match spec_find_pos(ps, id) {
            Some(v) => Some(v),
            None => if p.0 == id {
                Some((p.1, p.2))
            } else {
                None
            },
        }),
    decreases ps.len(),
{
    if ps.len() == 0 {
        assert(ps.push(p)[0] == p);
        assert(ps.push(p).drop_first() =~= Seq::<(Seq<char>, int, int)>::empty());
    } else {
        assert(ps.push(p)[0] == ps[0]);
        assert(ps.push(p).drop_first() =~= ps.drop_first().push(p));
        lemma_find_pos_push(ps.drop_first(), p, id);
    }
}

/// An id carried only by events that failed to place never appears in the
/// position list.
proof fn lemma_unplaced_id_not_found(
    events: Seq<EventV>,
    tracks: Seq<TrackV>,
    minc: int,
    id: Seq<char>,
)
    requires
        forall|k: int|
            0 <= k < events.len() && (#[trigger] events[k].id) == id ==> spec_coordinate(
                events[k].start_date,
            ) is None,
    ensures
        spec_find_pos(spec_positions(events, tracks, minc), id) is None,
    decreases events.len(),
{
    if events.len() > 0 {
        assert(forall|k: int|
            0 <= k < events.len() - 1 ==> (#[trigger] events.drop_last()[k]) == events[k]);
        lemma_unplaced_id_not_found(events.drop_last(), tracks, minc, id);
        let rest = spec_positions(events.drop_last(), tracks, minc);
        match spec_coordinate(events.last().start_date) {
            Some(sc) => {
                assert(events.last() == events[events.len() - 1]);
                assert(events.last().id != id);
                lemma_find_pos_push(
                    rest,
                    (
                        events.last().id,
                        spec_x(sc, minc),
                        spec_event_y(spec_lane(tracks, events.last().track_id)),
                    ),
                    id,
                );
            },
            None => {},
        }
    }
}

/// Law: a connection referencing a nonexistent or excluded event id — one
/// carried by no event, or only by events whose start date does not parse —
/// contributes nothing to the artifact.  It is dropped silently: the render
/// still completes, since `generate_svg` can fail on nothing but the missing
/// timeline.
pub proof fn lemma_dangling_connection_dropped(
    c: ConnectionV,
    events: Seq<EventV>,
    tracks: Seq<TrackV>,
    minc: int,
)
    requires
        (forall|k: int|
            0 <= k < events.len() && (#[trigger] events[k].id) == c.source_event_id
                ==> spec_coordinate(events[k].start_date) is None) || (forall|k: int|
            0 <= k < events.len() && (#[trigger] events[k].id) == c.target_event_id
                ==> spec_coordinate(events[k].start_date) is None),
    ensures
        spec_conn_piece(c, spec_positions(events, tracks, minc)) == Seq::<char>::empty(),
{
    if forall|k: int|
        0 <= k < events.len() && (#[trigger] events[k].id) == c.source_event_id
            ==> spec_coordinate(events[k].start_date) is None {
        lemma_unplaced_id_not_found(events, tracks, minc, c.source_event_id);
    } else {
        lemma_unplaced_id_not_found(events, tracks, minc, c.target_event_id);
    }
}

// ---------------------------------------------------------------------------
// Executable emission
// ---------------------------------------------------------------------------

fn push_fixed3(out: &mut String, v: i64)
    requires
        0 <= v,
    ensures
        final(out)@ == old(out)@ + spec_fixed3(v as int),
{
    let s = format_fixed3(v);
    out.append(s.as_str());
}

fn push_escaped(out: &mut String, s: &str)
    ensures
        final(out)@ == old(out)@ + spec_escape(s@),
{
    let e = escape_xml(s);
    out.append(e.as_str());
}

/// Milli-pixels spanned by a signed number of seconds.
fn mpx_of(delta: i64) -> (r: i64)
    requires
        -700_000_000_000 <= delta <= 700_000_000_000,
    ensures
        r == spec_mpx(delta as int),
        -4_100_000_000 <= r <= 4_100_000_000,
        delta >= 0 ==> r >= 0,
{
    let d5 = delta * 5;
    let r = floor_div_i64(d5, 864);
    proof {
        vstd::arithmetic::div_mod::lemma_fundamental_div_mod(d5 as int, 864);
        vstd::arithmetic::div_mod::lemma_mod_division_less_than_divisor(d5 as int, 864);
        if delta >= 0 {
            vstd::arithmetic::div_mod::lemma_div_pos_is_pos(d5 as int, 864);
        }
    }
    r
}

/// The horizontal pixel position of a coordinate at or after the window
/// start.
fn x_of(c: i64, minc: i64) -> (r: i64)
    requires
        minc <= c,
        -COORD_BOUND - DEGENERATE_PAD <= minc,
        c <= COORD_BOUND + DEGENERATE_PAD,
    ensures
        r == spec_x(c as int, minc as int),
        20_000 <= r <= 4_100_020_000,
{
    mpx_of(c - minc) + SVG_PADDING
}

fn push_header(out: &mut String, w: i64, h: i64)
    requires
        0 <= w,
        0 <= h,
    ensures
        final(out)@ == old(out)@ + spec_svg_header(w as int, h as int),
{
    out.append("<svg xmlns=\"http://www.w3.org/2000/svg\" viewBox=\"0 0 ");
    push_fixed3(out, w);
    out.append(" ");
    push_fixed3(out, h);
    out.append("\" width=\"");
    push_fixed3(out, w);
    out.append("\" height=\"");
    push_fixed3(out, h);
    out.append("\">");
    proof {
        assert(out@ =~= old(out)@ + spec_svg_header(w as int, h as int));
    }
}

fn push_bg(out: &mut String, w: i64, h: i64)
    requires
        0 <= w,
        0 <= h,
    ensures
        final(out)@ == old(out)@ + spec_svg_bg(w as int, h as int),
{
    out.append("<rect width=\"");
    push_fixed3(out, w);
    out.append("\" height=\"");
    push_fixed3(out, h);
    out.append("\" fill=\"#ffffff\"/>");
    proof {
        assert(out@ =~= old(out)@ + spec_svg_bg(w as int, h as int));
    }
}

fn push_title(out: &mut String, title: &str, w: i64)
    requires
        0 <= w,
    ensures
        final(out)@ == old(out)@ + spec_svg_title(title@, w as int),
{
    out.append("<text x=\"");
    let half = (w as u64) / 2;
    push_fixed3(out, half as i64);
    out.append(
        "\" y=\"26.000\" font-family=\"sans-serif\" font-size=\"18\" font-weight=\"bold\" text-anchor=\"middle\" fill=\"#1f2937\">",
    );
    push_escaped(out, title);
    out.append("</text>");
    proof {
        assert(out@ =~= old(out)@ + spec_svg_title(title@, w as int));
    }
}

fn push_lane(out: &mut String, t: &Track, i: usize, w: i64)
    requires
        i < MAX_TRACKS,
        0 <= w,
    ensures
        final(out)@ == old(out)@ + spec_lane_piece(t@, i as int, w as int),
{
    let y: i64 = SVG_HEADER_H + (i as i64) * SVG_TRACK_H;
    out.append("<rect x=\"0\" y=\"");
    push_fixed3(out, y);
    out.append("\" width=\"");
    push_fixed3(out, w);
    out.append("\" height=\"60.000\" fill=\"");
    let ca = color_attr(t.color.as_str());
    out.append(ca.as_str());
    out.append("\" opacity=\"0.1\"/>");
    out.append("<text x=\"5\" y=\"");
    push_fixed3(out, y + 14_000);
    out.append("\" font-family=\"sans-serif\" font-size=\"11\" fill=\"#6b7280\">");
    push_escaped(out, t.name.as_str());
    out.append("</text>");
    proof {
        assert(out@ =~= old(out)@ + spec_lane_piece(t@, i as int, w as int));
    }
}

fn push_bar(out: &mut String, x: i64, bar_y: i64, bw: i64, color: &str)
    requires
        0 <= x,
        0 <= bar_y,
        0 <= bw,
    ensures
        final(out)@ == old(out)@ + spec_bar_piece(x as int, bar_y as int, bw as int, color@),
{
    out.append("<rect x=\"");
    push_fixed3(out, x);
    out.append("\" y=\"");
    push_fixed3(out, bar_y);
    out.append("\" width=\"");
    push_fixed3(out, bw);
    out.append("\" height=\"20.000\" rx=\"4\" ry=\"4\" fill=\"");
    out.append(color);
    out.append("\" opacity=\"0.7\"/>");
    proof {
        assert(out@ =~= old(out)@ + spec_bar_piece(x as int, bar_y as int, bw as int, color@));
    }
}

fn push_glyph_label(out: &mut String, lx: i64, ly: i64, title: &str)
    requires
        0 <= lx,
        0 <= ly,
    ensures
        final(out)@ == old(out)@ + spec_glyph_label(lx as int, ly as int, title@),
{
    out.append("<text x=\"");
    push_fixed3(out, lx);
    out.append("\" y=\"");
    push_fixed3(out, ly);
    out.append(
        "\" font-family=\"sans-serif\" font-size=\"10\" text-anchor=\"middle\" fill=\"#1f2937\">",
    );
    push_escaped(out, title);
    out.append("</text>");
    proof {
        assert(out@ =~= old(out)@ + spec_glyph_label(lx as int, ly as int, title@));
    }
}

fn push_marker(out: &mut String, x: i64, y: i64, color: &str)
    requires
        0 <= x,
        0 <= y,
    ensures
        final(out)@ == old(out)@ + spec_marker_piece(x as int, y as int, color@),
{
    out.append("<circle cx=\"");
    push_fixed3(out, x);
    out.append("\" cy=\"");
    push_fixed3(out, y);
    out.append("\" r=\"6\" fill=\"");
    out.append(color);
    out.append("\"/>");
    proof {
        assert(out@ =~= old(out)@ + spec_marker_piece(x as int, y as int, color@));
    }
}

/// Draws one event's glyph and label, and reports its placed position.
#[verifier::rlimit(100)]
#[verifier::spinoff_prover]
fn push_event(out: &mut String, ev: &Event, tracks: &Vec<Track>, minc: i64) -> (pos: Option<
    (i64, i64),
>)
    requires
        tracks@.len() <= MAX_TRACKS,
        -COORD_BOUND - DEGENERATE_PAD <= minc <= COORD_BOUND + DEGENERATE_PAD,
        spec_coordinate(ev@.start_date) matches Some(c) ==> minc <= c,
    ensures
        final(out)@ == old(out)@ + spec_event_piece(ev@, tracks.deep_view(), minc as int),
        match pos {
            Some(p) => {
                &&& spec_coordinate(ev@.start_date) is Some
                &&& p.0 == spec_x(spec_coordinate(ev@.start_date)->0, minc as int)
                &&& p.1 == spec_event_y(spec_lane(tracks.deep_view(), ev@.track_id))
                &&& 20_000 <= p.0 <= 4_100_020_000
                &&& 70_000 <= p.1 <= 6_100_000_000
            },
            None => spec_coordinate(ev@.start_date) is None,
        },
{
    let sc = match coordinate(ev.start_date.as_str()) {
        Some(c) => c,
        None => {
            proof {
                assert(out@ =~= old(out)@ + spec_event_piece(ev@, tracks.deep_view(), minc as int));
            }
            return None;
        },
    };
    let lane = lane_index(tracks, ev.track_id.as_str());
    let x = x_of(sc, minc);
    let y: i64 = SVG_HEADER_H + (lane as i64) * SVG_TRACK_H + 30_000;
    proof {
        assert(y == spec_event_y(lane as int));
    }
    let color: String = if lane < tracks.len() {
        color_attr(tracks[lane].color.as_str())
    } else {
        String::from_str("#6b7280")
    };
    proof {
        assert(color@ == spec_event_color(tracks.deep_view(), lane as int));
    }
    let is_bar = str_eq(ev.event_type.as_str(), "range") || str_eq(ev.event_type.as_str(), "era");
    if is_bar {
        let ec: i64 = match &ev.end_date {
            Some(d) => match coordinate(d.as_str()) {
                Some(e) => e,
                None => sc,
            },
            None => sc,
        };
        proof {
            assert(ec == spec_end_or_start(ev@));
        }
        let xm = mpx_of(sc - minc);
        let x2m = mpx_of(ec - minc);
        let mut bw = x2m - xm;
        if bw < 4000 {
            bw = 4000;
        }
        proof {
            assert(bw == spec_bar_width(sc as int, ec as int, minc as int));
        }
        let bar_y = y - 10_000;
        push_bar(out, x, bar_y, bw, color.as_str());
        let lx = x + ((bw as u64) / 2) as i64;
        push_glyph_label(out, lx, bar_y - 4000, ev.title.as_str());
        proof {
            assert(out@ =~= old(out)@ + spec_event_piece(ev@, tracks.deep_view(), minc as int));
        }
    } else {
        push_marker(out, x, y, color.as_str());
        push_glyph_label(out, x, y - 10_000, ev.title.as_str());
        proof {
            assert(out@ =~= old(out)@ + spec_event_piece(ev@, tracks.deep_view(), minc as int));
        }
    }
    Some((x, y))
}

/// The mathematical reading of the placed-position list.
pub open spec fn pos_view(ps: Seq<(String, i64, i64)>) -> Seq<(Seq<char>, int, int)> {
    ps.map(|i: int, p: (String, i64, i64)| (p.0@, p.1 as int, p.2 as int))
}

proof fn lemma_find_pos_first(ps: Seq<(Seq<char>, int, int)>, id: Seq<char>)
    ensures
        match spec_find_pos(ps, id) {
            Some(p) => exists|i: int|
                0 <= i < ps.len() && #[trigger] ps[i].0 == id && ps[i].1 == p.0 && ps[i].2 == p.1
                    && forall|j: int| 0 <= j < i ==> #[trigger] ps[j].0 != id,
            None => forall|j: int| 0 <= j < ps.len() ==> #[trigger] ps[j].0 != id,
        },
    decreases ps.len(),
{
    if ps.len() > 0 && ps[0].0 != id {
        lemma_find_pos_first(ps.drop_first(), id);
        assert(forall|j: int| 1 <= j < ps.len() ==> #[trigger] ps[j] == ps.drop_first()[j - 1]);
        if spec_find_pos(ps.drop_first(), id) is Some {
            let p = spec_find_pos(ps.drop_first(), id)->0;
            let i = choose|i: int|
                0 <= i < ps.drop_first().len() && #[trigger] ps.drop_first()[i].0 == id
                    && ps.drop_first()[i].1 == p.0 && ps.drop_first()[i].2 == p.1 && forall|j: int|
                    0 <= j < i ==> #[trigger] ps.drop_first()[j].0 != id;
            assert(ps[i + 1].0 == id && ps[i + 1].1 == p.0 && ps[i + 1].2 == p.1);
            assert(forall|j: int| 0 <= j < i + 1 ==> #[trigger] ps[j].0 != id);
        }
    }
}

/// Looks an event id up in the placed-position list (first match).
fn find_pos(ps: &Vec<(String, i64, i64)>, id: &str) -> (r: Option<(i64, i64)>)
    ensures
        match r {
            Some(p) => spec_find_pos(pos_view(ps@), id@) == Some((p.0 as int, p.1 as int))
                && exists|k: int|
                0 <= k < ps@.len() && #[trigger] ps@[k].1 == p.0 && ps@[k].2 == p.1,
            None => spec_find_pos(pos_view(ps@), id@) is None,
        },
{
    proof {
        lemma_find_pos_first(pos_view(ps@), id@);
    }
    let ghost pv = pos_view(ps@);
    let n = ps.len();
    let mut i: usize = 0;
    while i < n
        invariant
            n == ps@.len(),
            pv == pos_view(ps@),
            pv.len() == n,
            0 <= i <= n,
            forall|j: int| 0 <= j < i ==> #[trigger] pv[j].0 != id@,
            match spec_find_pos(pv, id@) {
                Some(p) => exists|k: int|
                    0 <= k < pv.len() && #[trigger] pv[k].0 == id@ && pv[k].1 == p.0 && pv[k].2
                        == p.1 && forall|j: int| 0 <= j < k ==> #[trigger] pv[j].0 != id@,
                None => forall|j: int| 0 <= j < pv.len() ==> #[trigger] pv[j].0 != id@,
            },
        decreases n - i,
    {
        if str_eq(ps[i].0.as_str(), id) {
            let p = (ps[i].1, ps[i].2);
            proof {
                assert(pv[i as int].0 == id@);
                let found = spec_find_pos(pv, id@)->0;
                let k = choose|k: int|
                    0 <= k < pv.len() && #[trigger] pv[k].0 == id@ && pv[k].1 == found.0
                        && pv[k].2 == found.1 && forall|j: int|
                        0 <= j < k ==> #[trigger] pv[j].0 != id@;
                assert(k == i as int);
                assert(ps@[i as int].1 == p.0 && ps@[i as int].2 == p.1);
            }
            return Some(p);
        }
        i += 1;
    }
    None
}

#[verifier::rlimit(100)]
#[verifier::spinoff_prover]
fn push_conn_path(out: &mut String, x1: i64, y1: i64, x2: i64, y2: i64, mx: i64, cy: i64)
    requires
        0 <= x1,
        0 <= y1,
        0 <= x2,
        0 <= y2,
        0 <= mx,
        0 <= cy,
    ensures
        final(out)@ == old(out)@ + spec_conn_path(
            x1 as int,
            y1 as int,
            x2 as int,
            y2 as int,
            mx as int,
            cy as int,
        ),
{
    out.append("<path d=\"M");
    push_fixed3(out, x1);
    out.append(",");
    push_fixed3(out, y1);
    out.append(" Q");
    push_fixed3(out, mx);
    out.append(",");
    push_fixed3(out, cy);
    out.append(" ");
    push_fixed3(out, x2);
    out.append(",");
    push_fixed3(out, y2);
    out.append(
        "\" fill=\"none\" stroke=\"#9ca3af\" stroke-width=\"1.5\" marker-end=\"url(#arrowhead)\"/>",
    );
    proof {
        assert(out@ =~= old(out)@ + spec_conn_path(
            x1 as int,
            y1 as int,
            x2 as int,
            y2 as int,
            mx as int,
            cy as int,
        ));
    }
}

fn push_conn_label(out: &mut String, mx: i64, cy: i64, l: &str)
    requires
        0 <= mx,
        4000 <= cy,
    ensures
        final(out)@ == old(out)@ + spec_conn_label(mx as int, cy as int, l@),
{
    out.append("<text x=\"");
    push_fixed3(out, mx);
    out.append("\" y=\"");
    push_fixed3(out, cy - 4000);
    out.append(
        "\" font-family=\"sans-serif\" font-size=\"9\" text-anchor=\"middle\" fill=\"#9ca3af\">",
    );
    push_escaped(out, l);
    out.append("</text>");
    proof {
        assert(out@ =~= old(out)@ + spec_conn_label(mx as int, cy as int, l@));
    }
}

/// Draws one connection's curve and label, or nothing when either endpoint
/// is unresolved.
#[verifier::rlimit(100)]
#[verifier::spinoff_prover]
fn push_conn(out: &mut String, c: &Connection, ps: &Vec<(String, i64, i64)>)
    requires
        forall|k: int|
            0 <= k < ps@.len() ==> 20_000 <= #[trigger] ps@[k].1 <= 4_100_020_000 && 70_000
                <= ps@[k].2 <= 6_100_000_000,
    ensures
        final(out)@ == old(out)@ + spec_conn_piece(c@, pos_view(ps@)),
{
    let p1 = match find_pos(ps, c.source_event_id.as_str()) {
        Some(p) => p,
        None => {
            proof {
                assert(out@ =~= old(out)@ + spec_conn_piece(c@, pos_view(ps@)));
            }
            return ;
        },
    };
    let p2 = match find_pos(ps, c.target_event_id.as_str()) {
        Some(p) => p,
        None => {
            proof {
                assert(out@ =~= old(out)@ + spec_conn_piece(c@, pos_view(ps@)));
            }
            return ;
        },
    };
    let mx = (((p1.0 + p2.0) as u64) / 2) as i64;
    let cy = (if p1.1 <= p2.1 {
        p1.1
    } else {
        p2.1
    }) - 30_000;
    push_conn_path(out, p1.0, p1.1, p2.0, p2.1, mx, cy);
    match &c.label {
        Some(l) => {
            push_conn_label(out, mx, cy, l.as_str());
        },
        None => {},
    }
    proof {
        assert(out@ =~= old(out)@ + spec_conn_piece(c@, pos_view(ps@)));
    }
}

fn push_axis(out: &mut String, w: i64, ay: i64)
    requires
        SVG_PADDING <= w,
        0 <= ay,
    ensures
        final(out)@ == old(out)@ + spec_svg_axis(w as int, ay as int),
{
    out.append("<line x1=\"20.000\" y1=\"");
    push_fixed3(out, ay);
    out.append("\" x2=\"");
    push_fixed3(out, w - SVG_PADDING);
    out.append("\" y2=\"");
    push_fixed3(out, ay);
    out.append("\" stroke=\"#d1d5db\" stroke-width=\"1\"/>");
    proof {
        assert(out@ =~= old(out)@ + spec_svg_axis(w as int, ay as int));
    }
}

fn push_ticks(out: &mut String, minc: i64, maxc: i64, w: i64, ay: i64)
    requires
        -COORD_BOUND - DEGENERATE_PAD <= minc <= maxc,
        maxc <= COORD_BOUND + DEGENERATE_PAD,
        SVG_PADDING <= w <= 5_000_000_000,
        10_000 <= ay <= 6_100_000_000,
    ensures
        final(out)@ == old(out)@ + spec_ticks(
            spec_first_tick(minc as int),
            maxc as int,
            minc as int,
            w as int,
            ay as int,
        ),
{
    let q = ceil_div_i64(minc, TICK_SPAN);
    proof {
        vstd::arithmetic::div_mod::lemma_fundamental_div_mod(-minc as int, TICK_SPAN as int);
        vstd::arithmetic::div_mod::lemma_mod_division_less_than_divisor(
            -minc as int,
            TICK_SPAN as int,
        );
    }
    let mut t = q * TICK_SPAN;
    proof {
        assert(t == spec_first_tick(minc as int));
        assert(minc <= t) by {
            assert((TICK_SPAN as int) * ((-minc as int) / (TICK_SPAN as int)) <= -minc as int);
        }
        assert(t <= minc + TICK_SPAN);
    }
    let ghost base = out@;
    let ghost first = t as int;
    while t <= maxc
        invariant
            -COORD_BOUND - DEGENERATE_PAD <= minc <= maxc,
            maxc <= COORD_BOUND + DEGENERATE_PAD,
            SVG_PADDING <= w <= 5_000_000_000,
            10_000 <= ay <= 6_100_000_000,
            minc <= t,
            t <= maxc + TICK_SPAN,
            out@ + spec_ticks(t as int, maxc as int, minc as int, w as int, ay as int) == base
                + spec_ticks(first, maxc as int, minc as int, w as int, ay as int),
        decreases maxc + TICK_SPAN - t,
    {
        let ghost pre = out@;
        let tx = x_of(t, minc);
        if SVG_PADDING <= tx && tx <= w - SVG_PADDING {
            out.append("<line x1=\"");
            push_fixed3(out, tx);
            out.append("\" y1=\"");
            push_fixed3(out, ay - 4000);
            out.append("\" x2=\"");
            push_fixed3(out, tx);
            out.append("\" y2=\"");
            push_fixed3(out, ay + 4000);
            out.append("\" stroke=\"#d1d5db\" stroke-width=\"1\"/>");
            out.append("<text x=\"");
            push_fixed3(out, tx);
            out.append("\" y=\"");
            push_fixed3(out, ay + 18_000);
            out.append(
                "\" font-family=\"sans-serif\" font-size=\"10\" text-anchor=\"middle\" fill=\"#6b7280\">",
            );
            let yr = year_of(t);
            let ys = i64_to_string(yr);
            out.append(ys.as_str());
            out.append("</text>");
        }
        proof {
            assert(out@ =~= pre + spec_tick_piece(t as int, minc as int, w as int, ay as int));
            assert(spec_ticks(t as int, maxc as int, minc as int, w as int, ay as int)
                == spec_tick_piece(t as int, minc as int, w as int, ay as int) + spec_ticks(
                t + TICK_SPAN,
                maxc as int,
                minc as int,
                w as int,
                ay as int,
            ));
            assert(out@ + spec_ticks(t + TICK_SPAN, maxc as int, minc as int, w as int, ay as int)
                =~= base + spec_ticks(first, maxc as int, minc as int, w as int, ay as int));
        }
        t = t + TICK_SPAN;
    }
    proof {
        assert(out@ =~= base + spec_ticks(first, maxc as int, minc as int, w as int, ay as int));
    }
}

/// Renders the whole vector artifact, or reports that the timeline's
/// metadata did not resolve; no other failure exists, whatever the entity
/// lists hold.
#[verifier::rlimit(100)]
#[verifier::spinoff_prover]
pub fn generate_svg(
    timeline_id: &str,
    timeline: Option<&Timeline>,
    tracks: &Vec<Track>,
    events: &Vec<Event>,
    connections: &Vec<Connection>,
) -> (r: Result<String, AppError>)
    requires
        tracks@.len() <= MAX_TRACKS,
    ensures
        match timeline {
            Some(tl) => r matches Ok(s) && s@ == spec_svg(
                tl@,
                tracks.deep_view(),
                events.deep_view(),
                connections.deep_view(),
            ),
            None => r matches Err(e) && e is NotFound && e.spec_message() == spec_not_found_msg(
                timeline_id@,
            ),
        },
{
    let tl = match timeline {
        Some(t) => t,
        None => {
            let mut msg = String::from_str("Timeline ");
            msg.append(timeline_id);
            msg.append(" not found");
            proof {
                assert(msg@ =~= spec_not_found_msg(timeline_id@));
            }
            return Err(AppError::NotFound(msg));
        },
    };
    let ghost tks = tracks.deep_view();
    let ghost evs = events.deep_view();
    let ghost cns = connections.deep_view();
    let window = compute_window(events);
    let minc = window.0;
    let maxc = window.1;
    proof {
        crate::layout::lemma_window_bounds(evs);
    }
    let nlanes: i64 = if tracks.len() == 0 {
        1
    } else {
        tracks.len() as i64
    };
    let content_w = mpx_of(maxc - minc) + 2 * SVG_PADDING;
    let w = if content_w >= SVG_MIN_W {
        content_w
    } else {
        SVG_MIN_W
    };
    let content_h = SVG_HEADER_H + nlanes * SVG_TRACK_H + SVG_AXIS_H + 2 * SVG_PADDING;
    let h = if content_h >= SVG_MIN_H {
        content_h
    } else {
        SVG_MIN_H
    };
    let ay = SVG_HEADER_H + nlanes * SVG_TRACK_H + 10_000;
    proof {
        assert(w == spec_svg_width(minc as int, maxc as int));
        assert(h == spec_svg_height(tks.len() as int));
        assert(ay == spec_axis_y(tks.len() as int));
    }
    let mut out = String::new();
    push_header(&mut out, w, h);
    push_bg(&mut out, w, h);
    push_title(&mut out, tl.title.as_str(), w);
    let ghost head = out@;

    // lane bands and labels
    let mut i: usize = 0;
    while i < tracks.len()
        invariant
            tks == tracks.deep_view(),
            tks.len() == tracks.len() <= MAX_TRACKS,
            0 <= i <= tracks.len(),
            0 <= w,
            out@ == head + spec_lanes(tks.subrange(0, i as int), w as int),
        decreases tracks.len() - i,
    {
        push_lane(&mut out, &tracks[i], i, w);
        proof {
            assert(tks.subrange(0, i + 1).drop_last() =~= tks.subrange(0, i as int));
            assert(tks.subrange(0, i + 1).last() == tks[i as int]);
            assert(out@ =~= head + spec_lanes(tks.subrange(0, i + 1), w as int));
        }
        i += 1;
    }
    proof {
        assert(tks.subrange(0, tracks.len() as int) =~= tks);
    }
    let ghost after_lanes = out@;

    // event glyphs, recording placed positions for the connections
    let mut positions: Vec<(String, i64, i64)> = Vec::new();
    let mut j: usize = 0;
    while j < events.len()
        invariant
            tks == tracks.deep_view(),
            evs == events.deep_view(),
            tks.len() == tracks.len() <= MAX_TRACKS,
            evs.len() == events.len(),
            0 <= j <= events.len(),
            -COORD_BOUND - DEGENERATE_PAD <= minc <= COORD_BOUND + DEGENERATE_PAD,
            forall|k: int|
                0 <= k < evs.len() && #[trigger] spec_coordinate(evs[k].start_date) is Some
                    ==> minc <= spec_coordinate(evs[k].start_date)->0,
            out@ == after_lanes + spec_events_markup(evs.subrange(0, j as int), tks, minc as int),
            pos_view(positions@) == spec_positions(evs.subrange(0, j as int), tks, minc as int),
            forall|k: int|
                0 <= k < positions@.len() ==> 20_000 <= #[trigger] positions@[k].1
                    <= 4_100_020_000 && 70_000 <= positions@[k].2 <= 6_100_000_000,
        decreases events.len() - j,
    {
        let ghost prepos = pos_view(positions@);
        let ev = &events[j];
        proof {
            assert(ev@ == evs[j as int]);
            assert(spec_coordinate(evs[j as int].start_date) is Some ==> minc
                <= spec_coordinate(evs[j as int].start_date)->0);
        }
        let placed = push_event(&mut out, ev, tracks, minc);
        proof {
            assert(evs.subrange(0, j + 1).drop_last() =~= evs.subrange(0, j as int));
            assert(evs.subrange(0, j + 1).last() == evs[j as int]);
            assert(out@ =~= after_lanes + spec_events_markup(
                evs.subrange(0, j + 1),
                tks,
                minc as int,
            ));
        }
        match placed {
            Some(p) => {
                positions.push((ev.id.clone(), p.0, p.1));
                proof {
                    assert(pos_view(positions@) =~= prepos.push(
                        (ev.id@, p.0 as int, p.1 as int),
                    ));
                    assert(pos_view(positions@) =~= spec_positions(
                        evs.subrange(0, j + 1),
                        tks,
                        minc as int,
                    ));
                }
            },
            None => {
                proof {
                    assert(pos_view(positions@) =~= spec_positions(
                        evs.subrange(0, j + 1),
                        tks,
                        minc as int,
                    ));
                }
            },
        }
        j += 1;
    }
    proof {
        assert(evs.subrange(0, events.len() as int) =~= evs);
    }

    // arrowhead marker, then the connection curves
    out.append(
        "<defs><marker id=\"arrowhead\" markerWidth=\"8\" markerHeight=\"6\" refX=\"8\" refY=\"3\" orient=\"auto\"><path d=\"M0,0 L8,3 L0,6 Z\" fill=\"#9ca3af\"/></marker></defs>",
    );
    let ghost after_defs = out@;
    let mut k: usize = 0;
    while k < connections.len()
        invariant
            cns == connections.deep_view(),
            cns.len() == connections.len(),
            0 <= k <= connections.len(),
            pos_view(positions@) == spec_positions(evs, tks, minc as int),
            forall|m: int|
                0 <= m < positions@.len() ==> 20_000 <= #[trigger] positions@[m].1
                    <= 4_100_020_000 && 70_000 <= positions@[m].2 <= 6_100_000_000,
            out@ == after_defs + spec_connections_markup(
                cns.subrange(0, k as int),
                pos_view(positions@),
            ),
        decreases connections.len() - k,
    {
        push_conn(&mut out, &connections[k], &positions);
        proof {
            assert(cns.subrange(0, k + 1).drop_last() =~= cns.subrange(0, k as int));
            assert(cns.subrange(0, k + 1).last() == cns[k as int]);
            assert(out@ =~= after_defs + spec_connections_markup(
                cns.subrange(0, k + 1),
                pos_view(positions@),
            ));
        }
        k += 1;
    }
    proof {
        assert(cns.subrange(0, connections.len() as int) =~= cns);
    }

    // the time axis with yearly ticks
    push_axis(&mut out, w, ay);
    push_ticks(&mut out, minc, maxc, w, ay);
    out.append("</svg>");
    proof {
        assert(out@ =~= spec_svg(tl@, tks, evs, cns));
    }
    Ok(out)
}

} // verus!
