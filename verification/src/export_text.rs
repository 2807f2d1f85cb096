//! The interchange builders: the tabular text, the outline text, and the
//! structured export value of one timeline.  The host serializes or stores
//! what these produce; everything they compute — field quoting, formula
//! guarding, name resolution, year grouping — is decided here.

use vstd::prelude::*;
use vstd::string::StrSliceExecFns;
use vstd::string::StringExecFns;

use crate::layout::{lemma_find_track_first, spec_find_track};
use crate::models::{
    Connection, ConnectionV, Event, EventV, ExportedConnection, ExportedConnectionV,
    ExportedEvent, ExportedEventV, ExportedTimeline, ExportedTrack, ExportedTrackV, Timeline,
    Track, TrackV,
};
use crate::textfmt::{i64_to_string, spec_dec_signed, str_eq};

verus! {

// ---------------------------------------------------------------------------
// Name resolution
// ---------------------------------------------------------------------------

/// The display name of a track id: the first matching track's name, or the
/// empty text for an unknown reference.
pub open spec fn spec_track_name(tracks: Seq<TrackV>, tid: Seq<char>) -> Seq<char> {
    match spec_find_track(tracks, tid) {
        Some(i) => tracks[i].name,
        None => Seq::empty(),
    }
}

fn track_name_of(tracks: &Vec<Track>, track_id: &str) -> (r: String)
    ensures
        r@ == spec_track_name(tracks.deep_view(), track_id@),
{
    proof {
        lemma_find_track_first(tracks.deep_view(), track_id@);
    }
    let ghost tv = tracks.deep_view();
    let n = tracks.len();
    let mut i: usize = 0;
    while i < n
        invariant
            n == tracks.len(),
            tv == tracks.deep_view(),
            tv.len() == n,
            0 <= i <= n,
            forall|j: int| 0 <= j < i ==> #[trigger] tv[j].id != track_id@,
            match spec_find_track(tv, track_id@) {
                Some(k) => 0 <= k < n && tv[k].id == track_id@ && forall|j: int|
                    0 <= j < k ==> #[trigger] tv[j].id != track_id@,
                None => forall|j: int| 0 <= j < n ==> #[trigger] tv[j].id != track_id@,
            },
        decreases n - i,
    {
        if str_eq(tracks[i].id.as_str(), track_id) {
            proof {
                assert(tv[i as int].id == track_id@);
                assert(spec_find_track(tv, track_id@) == Some(i as int));
            }
            return tracks[i].name.clone();
        }
        i += 1;
    }
    String::new()
}

/// The title of the first event carrying the given id, if any.
pub open spec fn spec_find_event_title(evs: Seq<EventV>, id: Seq<char>) -> Option<Seq<char>>
    decreases evs.len(),
{
    if evs.len() == 0 {
        None
    } else if evs[0].id == id {
        Some(evs[0].title)
    } else {
        spec_find_event_title(evs.drop_first(), id)
    }
}

proof fn lemma_find_event_title_first(evs: Seq<EventV>, id: Seq<char>)
    ensures
        match spec_find_event_title(evs, id) {
            Some(t) => exists|i: int|
                0 <= i < evs.len() && #[trigger] evs[i].id == id && evs[i].title == t && forall|
                    j: int,
                |
                    0 <= j < i ==> #[trigger] evs[j].id != id,
            None => forall|j: int| 0 <= j < evs.len() ==> #[trigger] evs[j].id != id,
        },
    decreases evs.len(),
{
    if evs.len() > 0 && evs[0].id != id {
        lemma_find_event_title_first(evs.drop_first(), id);
        assert(forall|j: int| 1 <= j < evs.len() ==> #[trigger] evs[j] == evs.drop_first()[j - 1]);
        if spec_find_event_title(evs.drop_first(), id) is Some {
            let t = spec_find_event_title(evs.drop_first(), id)->0;
            let i = choose|i: int|
                0 <= i < evs.drop_first().len() && #[trigger] evs.drop_first()[i].id == id
                    && evs.drop_first()[i].title == t && forall|j: int|
                    0 <= j < i ==> #[trigger] evs.drop_first()[j].id != id;
            assert(evs[i + 1].id == id && evs[i + 1].title == t);
            assert(forall|j: int| 0 <= j < i + 1 ==> #[trigger] evs[j].id != id);
        }
    }
}

fn find_event_title(events: &Vec<Event>, id: &str) -> (r: Option<String>)
    ensures
        match r {
            Some(t) => spec_find_event_title(events.deep_view(), id@) == Some(t@),
            None => spec_find_event_title(events.deep_view(), id@) is None,
        },
{
    proof {
        lemma_find_event_title_first(events.deep_view(), id@);
    }
    let ghost ev = events.deep_view();
    let n = events.len();
    let mut i: usize = 0;
    while i < n
        invariant
            n == events.len(),
            ev == events.deep_view(),
            ev.len() == n,
            0 <= i <= n,
            forall|j: int| 0 <= j < i ==> #[trigger] ev[j].id != id@,
            match spec_find_event_title(ev, id@) {
                Some(t) => exists|k: int|
                    0 <= k < n && #[trigger] ev[k].id == id@ && ev[k].title == t && forall|j: int|
                        0 <= j < k ==> #[trigger] ev[j].id != id@,
                None => forall|j: int| 0 <= j < n ==> #[trigger] ev[j].id != id@,
            },
        decreases n - i,
    {
        if str_eq(events[i].id.as_str(), id) {
            proof {
                assert(ev[i as int].id == id@);
                let t0 = spec_find_event_title(ev, id@)->0;
                let k = choose|k: int|
                    0 <= k < n && #[trigger] ev[k].id == id@ && ev[k].title == t0 && forall|j: int|
                        0 <= j < k ==> #[trigger] ev[j].id != id@;
                assert(k == i as int);
            }
            return Some(events[i].title.clone());
        }
        i += 1;
    }
    None
}

// ---------------------------------------------------------------------------
// The tabular text
// ---------------------------------------------------------------------------

/// A field starting like a spreadsheet formula gets a guarding apostrophe.
pub open spec fn spec_formula_guarded(s: Seq<char>) -> Seq<char> {
    if s.len() > 0 && (s[0] == '=' || s[0] == '+' || s[0] == '-' || s[0] == '@') {
        seq!['\''] + s
    } else {
        s
    }
}

pub open spec fn is_csv_special(c: char) -> bool {
    c == ',' || c == '"' || c == '\n'
}

pub open spec fn spec_csv_needs_quoting(s: Seq<char>) -> bool {
    exists|i: int| 0 <= i < s.len() && is_csv_special(#[trigger] s[i])
}

pub open spec fn double_quote_char(c: char) -> Seq<char> {
    if c == '"' {
        seq!['"', '"']
    } else {
        seq![c]
    }
}

pub open spec fn spec_double_quotes(s: Seq<char>) -> Seq<char>
    decreases s.len(),
{
    if s.len() == 0 {
        Seq::empty()
    } else {
        double_quote_char(s[0]) + spec_double_quotes(s.drop_first())
    }
}

/// One field of the tabular text: formula-guarded, and — where it holds a
/// separator, a quote or a line break — wrapped in quotes with inner quotes
/// doubled.
pub open spec fn spec_csv_field(s: Seq<char>) -> Seq<char> {
    let g = spec_formula_guarded(s);
    if spec_csv_needs_quoting(g) {
        seq!['"'] + spec_double_quotes(g) + seq!['"']
    } else {
        g
    }
}

proof fn lemma_double_quotes_snoc(s: Seq<char>, c: char)
    ensures
        spec_double_quotes(s.push(c)) == spec_double_quotes(s) + double_quote_char(c),
    decreases s.len(),
{
    let sc = s.push(c);
    assert(sc.len() == s.len() + 1);
    if s.len() == 0 {
        assert(sc[0] == c);
        assert(sc.drop_first() =~= Seq::<char>::empty());
        assert(spec_double_quotes(sc) == double_quote_char(c) + spec_double_quotes(
            Seq::<char>::empty(),
        ));
        assert(spec_double_quotes(sc) =~= spec_double_quotes(s) + double_quote_char(c));
    } else {
        assert(sc[0] == s[0]);
        assert(sc.drop_first() =~= s.drop_first().push(c));
        lemma_double_quotes_snoc(s.drop_first(), c);
        assert(spec_double_quotes(sc) == double_quote_char(s[0]) + spec_double_quotes(
            s.drop_first().push(c),
        ));
        assert(spec_double_quotes(sc) =~= spec_double_quotes(s) + double_quote_char(c));
    }
}

fn csv_needs_quoting(s: &str) -> (r: bool)
    ensures
        r == spec_csv_needs_quoting(s@),
{
    let n = s.unicode_len();
    let mut i: usize = 0;
    while i < n
        invariant
            n == s@.len(),
            0 <= i <= n,
            forall|j: int| 0 <= j < i ==> !is_csv_special(#[trigger] s@[j]),
        decreases n - i,
    {
        let c = s.get_char(i);
        if c == ',' || c == '"' || c == '\n' {
            return true;
        }
        i += 1;
    }
    false
}

fn push_doubled(out: &mut String, s: &str)
    ensures
        final(out)@ == old(out)@ + spec_double_quotes(s@),
{
    let n = s.unicode_len();
    let mut i: usize = 0;
    while i < n
        invariant
            n == s@.len(),
            0 <= i <= n,
            out@ == old(out)@ + spec_double_quotes(s@.subrange(0, i as int)),
        decreases n - i,
    {
        let c = s.get_char(i);
        if c == '"' {
            out.push('"');
            out.push('"');
        } else {
            out.push(c);
        }
        proof {
            lemma_double_quotes_snoc(s@.subrange(0, i as int), c);
            assert(s@.subrange(0, i + 1) =~= s@.subrange(0, i as int).push(s@[i as int]));
            assert(out@ =~= old(out)@ + spec_double_quotes(s@.subrange(0, i + 1)));
        }
        i += 1;
    }
    proof {
        assert(s@.subrange(0, n as int) =~= s@);
    }
}

/// Renders one field of the tabular text.
pub fn csv_field(s: &str) -> (r: String)
    ensures
        r@ == spec_csv_field(s@),
{
    let mut guarded = String::new();
    let n = s.unicode_len();
    if n > 0 {
        let c0 = s.get_char(0);
        if c0 == '=' || c0 == '+' || c0 == '-' || c0 == '@' {
            guarded.push('\'');
        }
    }
    guarded.append(s);
    proof {
        assert(guarded@ =~= spec_formula_guarded(s@));
    }
    if csv_needs_quoting(guarded.as_str()) {
        let mut out = String::new();
        out.push('"');
        push_doubled(&mut out, guarded.as_str());
        out.push('"');
        proof {
            assert(out@ =~= spec_csv_field(s@));
        }
        out
    } else {
        guarded
    }
}

/// The first half of one event's row: title, start, end and kind.
pub open spec fn spec_csv_line_head(ev: EventV) -> Seq<char> {
    spec_csv_field(ev.title) + seq![','] + spec_csv_field(ev.start_date) + seq![',']
        + spec_csv_field(
        match ev.end_date {
            Some(d) => d,
            None => Seq::empty(),
        },
    ) + seq![','] + spec_csv_field(ev.event_type) + seq![',']
}

/// The second half: importance, resolved track name, description and tags.
pub open spec fn spec_csv_line_tail(ev: EventV, tracks: Seq<TrackV>) -> Seq<char> {
    spec_dec_signed(ev.importance) + seq![','] + spec_csv_field(spec_track_name(tracks, ev.track_id))
        + seq![','] + spec_csv_field(ev.description) + seq![','] + spec_csv_field(ev.tags) + seq![
        '\n',
    ]
}

pub open spec fn spec_csv_line(ev: EventV, tracks: Seq<TrackV>) -> Seq<char> {
    spec_csv_line_head(ev) + spec_csv_line_tail(ev, tracks)
}

pub open spec fn spec_csv_rows(evs: Seq<EventV>, tracks: Seq<TrackV>) -> Seq<char>
    decreases evs.len(),
{
    if evs.len() == 0 {
        Seq::empty()
    } else {
        spec_csv_rows(evs.drop_last(), tracks) + spec_csv_line(evs.last(), tracks)
    }
}

/// The whole tabular text: the fixed header line, then one row per event.
pub open spec fn spec_csv_text(evs: Seq<EventV>, tracks: Seq<TrackV>) -> Seq<char> {
    "title,start_date,end_date,event_type,importance,track,description,tags\n"@ + spec_csv_rows(
        evs,
        tracks,
    )
}

#[verifier::rlimit(100)]
#[verifier::spinoff_prover]
fn push_csv_line_head(out: &mut String, ev: &Event)
    ensures
        final(out)@ == old(out)@ + spec_csv_line_head(ev@),
{
    let f = csv_field(ev.title.as_str());
    out.append(f.as_str());
    out.push(',');
    let f = csv_field(ev.start_date.as_str());
    out.append(f.as_str());
    out.push(',');
    let f = match &ev.end_date {
        Some(d) => csv_field(d.as_str()),
        None => csv_field(""),
    };
    out.append(f.as_str());
    out.push(',');
    let f = csv_field(ev.event_type.as_str());
    out.append(f.as_str());
    out.push(',');
    proof {
        reveal_strlit("");
        assert(out@ =~= old(out)@ + spec_csv_line_head(ev@));
    }
}

#[verifier::rlimit(100)]
#[verifier::spinoff_prover]
fn push_csv_line_tail(out: &mut String, ev: &Event, tracks: &Vec<Track>)
    ensures
        final(out)@ == old(out)@ + spec_csv_line_tail(ev@, tracks.deep_view()),
{
    let imp = i64_to_string(ev.importance as i64);
    out.append(imp.as_str());
    out.push(',');
    let name = track_name_of(tracks, ev.track_id.as_str());
    let f = csv_field(name.as_str());
    out.append(f.as_str());
    out.push(',');
    let f = csv_field(ev.description.as_str());
    out.append(f.as_str());
    out.push(',');
    let f = csv_field(ev.tags.as_str());
    out.append(f.as_str());
    out.push('\n');
    proof {
        assert(out@ =~= old(out)@ + spec_csv_line_tail(ev@, tracks.deep_view()));
    }
}

/// Renders the whole tabular export of a timeline's events.
pub fn export_csv_text(tracks: &Vec<Track>, events: &Vec<Event>) -> (r: String)
    ensures
        r@ == spec_csv_text(events.deep_view(), tracks.deep_view()),
{
    let ghost evs = events.deep_view();
    let ghost tks = tracks.deep_view();
    let mut out = String::from_str(
        "title,start_date,end_date,event_type,importance,track,description,tags\n",
    );
    let ghost head = out@;
    let mut i: usize = 0;
    while i < events.len()
        invariant
            evs == events.deep_view(),
            tks == tracks.deep_view(),
            evs.len() == events.len(),
            0 <= i <= events.len(),
            out@ == head + spec_csv_rows(evs.subrange(0, i as int), tks),
        decreases events.len() - i,
    {
        push_csv_line_head(&mut out, &events[i]);
        push_csv_line_tail(&mut out, &events[i], tracks);
        proof {
            assert(evs.subrange(0, i + 1).drop_last() =~= evs.subrange(0, i as int));
            assert(evs.subrange(0, i + 1).last() == evs[i as int]);
            assert(out@ =~= head + spec_csv_rows(evs.subrange(0, i + 1), tks));
        }
        i += 1;
    }
    proof {
        assert(evs.subrange(0, events.len() as int) =~= evs);
        assert(out@ =~= spec_csv_text(evs, tks));
    }
    out
}

// ---------------------------------------------------------------------------
// The outline text
// ---------------------------------------------------------------------------

/// The year under which an event is grouped: the first four characters of
/// its start date, or nothing when the date is shorter.
pub open spec fn spec_year_prefix(s: Seq<char>) -> Seq<char> {
    if s.len() >= 4 {
        s.subrange(0, 4)
    } else {
        Seq::empty()
    }
}

/// One event's outline entry: its own heading, its date line, and its
/// description when it has one.
pub open spec fn spec_md_piece(ev: EventV) -> Seq<char> {
    "### "@ + ev.title + "\n\n**Date:** "@ + ev.start_date + (match ev.end_date {
        Some(e) => " \u{2014} "@ + e,
        None => Seq::empty(),
    }) + "\n\n"@ + (if ev.description.len() > 0 {
        ev.description + "\n\n"@
    } else {
        Seq::empty()
    })
}

/// The outline's event run: a fresh year heading opens whenever an event's
/// year differs from the one before it.
pub open spec fn spec_md_events(evs: Seq<EventV>, cur: Seq<char>) -> Seq<char>
    decreases evs.len(),
{
    if evs.len() == 0 {
        Seq::empty()
    } else {
        let year = spec_year_prefix(evs[0].start_date);
        (if year != cur {
            "\n## "@ + year + "\n\n"@
        } else {
            Seq::empty()
        }) + spec_md_piece(evs[0]) + spec_md_events(evs.drop_first(), year)
    }
}

/// The whole outline text of a timeline.
pub open spec fn spec_md_text(title: Seq<char>, evs: Seq<EventV>) -> Seq<char> {
    "# "@ + title + "\n\n"@ + spec_md_events(evs, Seq::empty())
}

#[verifier::rlimit(100)]
#[verifier::spinoff_prover]
fn push_md_piece(out: &mut String, ev: &Event)
    ensures
        final(out)@ == old(out)@ + spec_md_piece(ev@),
{
    out.append("### ");
    out.append(ev.title.as_str());
    out.append("\n\n**Date:** ");
    out.append(ev.start_date.as_str());
    match &ev.end_date {
        Some(e) => {
            out.append(" \u{2014} ");
            out.append(e.as_str());
        },
        None => {},
    }
    out.append("\n\n");
    if ev.description.as_str().unicode_len() > 0 {
        out.append(ev.description.as_str());
        out.append("\n\n");
    }
    proof {
        assert(out@ =~= old(out)@ + spec_md_piece(ev@));
    }
}

/// Renders the whole outline export of a timeline, grouped by year.
#[verifier::rlimit(100)]
#[verifier::spinoff_prover]
pub fn export_markdown_text(title: &str, events: &Vec<Event>) -> (r: String)
    ensures
        r@ == spec_md_text(title@, events.deep_view()),
{
    let ghost evs = events.deep_view();
    let mut out = String::from_str("# ");
    out.append(title);
    out.append("\n\n");
    let ghost head = out@;
    let mut cur = String::new();
    let n = events.len();
    proof {
        assert(evs.subrange(0, n as int) =~= evs);
        assert(cur@ =~= Seq::<char>::empty());
    }
    let mut i: usize = 0;
    while i < n
        invariant
            evs == events.deep_view(),
            evs.len() == n == events.len(),
            0 <= i <= n,
            out@ + spec_md_events(evs.subrange(i as int, n as int), cur@) == head
                + spec_md_events(evs, Seq::empty()),
        decreases n - i,
    {
        let ghost rest = evs.subrange(i as int, n as int);
        let ghost pre = out@;
        let ev = &events[i];
        let year: String = if ev.start_date.as_str().unicode_len() >= 4 {
            String::from_str(ev.start_date.as_str().substring_char(0, 4))
        } else {
            String::new()
        };
        proof {
            assert(rest[0] == evs[i as int]);
            assert(year@ == spec_year_prefix(evs[i as int].start_date));
        }
        if !crate::textfmt::str_eq(year.as_str(), cur.as_str()) {
            out.append("\n## ");
            out.append(year.as_str());
            out.append("\n\n");
        }
        push_md_piece(&mut out, ev);
        proof {
            assert(rest.drop_first() =~= evs.subrange(i + 1, n as int));
            assert(spec_md_events(rest, cur@) == (if year@ != cur@ {
                "\n## "@ + year@ + "\n\n"@
            } else {
                Seq::<char>::empty()
            }) + spec_md_piece(evs[i as int]) + spec_md_events(rest.drop_first(), year@));
            assert(out@ =~= pre + (if year@ != cur@ {
                "\n## "@ + year@ + "\n\n"@
            } else {
                Seq::<char>::empty()
            }) + spec_md_piece(evs[i as int]));
            assert(out@ + spec_md_events(evs.subrange(i + 1, n as int), year@) =~= head
                + spec_md_events(evs, Seq::empty()));
        }
        cur = year;
        i += 1;
    }
    proof {
        assert(evs.subrange(n as int, n as int) =~= Seq::<EventV>::empty());
        assert(out@ =~= head + spec_md_events(evs, Seq::empty()));
    }
    out
}

// ---------------------------------------------------------------------------
// The structured export value
// ---------------------------------------------------------------------------

pub open spec fn spec_exported_tracks(tracks: Seq<TrackV>) -> Seq<ExportedTrackV> {
    Seq::new(
        tracks.len(),
        |i: int| ExportedTrackV { name: tracks[i].name, color: tracks[i].color },
    )
}

pub open spec fn spec_exported_event(ev: EventV, tracks: Seq<TrackV>) -> ExportedEventV {
    ExportedEventV {
        title: ev.title,
        description: ev.description,
        start_date: ev.start_date,
        end_date: ev.end_date,
        event_type: ev.event_type,
        importance: ev.importance,
        track_name: spec_track_name(tracks, ev.track_id),
        color: ev.color,
        tags: ev.tags,
        source: ev.source,
    }
}

pub open spec fn spec_exported_events(evs: Seq<EventV>, tracks: Seq<TrackV>) -> Seq<
    ExportedEventV,
> {
    Seq::new(evs.len(), |i: int| spec_exported_event(evs[i], tracks))
}

/// The connection one link contributes: kept only when both endpoint titles
/// resolve among the events.
pub open spec fn spec_exported_connection(c: ConnectionV, evs: Seq<EventV>) -> Seq<
    ExportedConnectionV,
> {
    match (
        spec_find_event_title(evs, c.source_event_id),
        spec_find_event_title(evs, c.target_event_id),
    ) {
        (Some(st), Some(tt)) => seq![
            ExportedConnectionV {
                source_title: st,
                target_title: tt,
                connection_type: c.connection_type,
                label: c.label,
            },
        ],
        _ => Seq::empty(),
    }
}

pub open spec fn spec_exported_connections(cns: Seq<ConnectionV>, evs: Seq<EventV>) -> Seq<
    ExportedConnectionV,
>
    decreases cns.len(),
{
    if cns.len() == 0 {
        Seq::empty()
    } else {
        spec_exported_connections(cns.drop_last(), evs) + spec_exported_connection(
            cns.last(),
            evs,
        )
    }
}

/// Assembles the structured export value of one timeline: display names in
/// place of identifiers, and only connections whose two endpoints resolve.
#[verifier::rlimit(100)]
#[verifier::spinoff_prover]
pub fn build_export(
    timeline: &Timeline,
    tracks: &Vec<Track>,
    events: &Vec<Event>,
    connections: &Vec<Connection>,
) -> (r: ExportedTimeline)
    ensures
        r.version == 1,
        r.title@ == timeline@.title,
        r.description@ == timeline@.description,
        r.tracks.deep_view() == spec_exported_tracks(tracks.deep_view()),
        r.events.deep_view() == spec_exported_events(events.deep_view(), tracks.deep_view()),
        r.connections.deep_view() == spec_exported_connections(
            connections.deep_view(),
            events.deep_view(),
        ),
{
    let ghost tks = tracks.deep_view();
    let ghost evs = events.deep_view();
    let ghost cns = connections.deep_view();

    let mut out_tracks: Vec<ExportedTrack> = Vec::new();
    let mut i: usize = 0;
    while i < tracks.len()
        invariant
            tks == tracks.deep_view(),
            tks.len() == tracks.len(),
            0 <= i <= tracks.len(),
            out_tracks.deep_view().len() == i,
            forall|k: int|
                0 <= k < i ==> (#[trigger] out_tracks.deep_view()[k]) == spec_exported_tracks(
                    tks,
                )[k],
        decreases tracks.len() - i,
    {
        let exported = ExportedTrack { name: tracks[i].name.clone(), color: tracks[i].color.clone() };
        let ghost exv = exported.deep_view();
        let ghost predeep = out_tracks.deep_view();
        out_tracks.push(exported);
        proof {
            assert(out_tracks.deep_view().len() == i + 1);
            assert forall|k: int|
                0 <= k < i + 1 implies (#[trigger] out_tracks.deep_view()[k])
                == spec_exported_tracks(tks)[k] by {
                if k < i {
                    assert(out_tracks.deep_view()[k] == predeep[k]);
                } else {
                    assert(out_tracks.deep_view()[k] == exv);
                }
            }
        }
        i += 1;
    }
    proof {
        assert(out_tracks.deep_view() =~= spec_exported_tracks(tks));
    }

    let mut out_events: Vec<ExportedEvent> = Vec::new();
    let mut j: usize = 0;
    while j < events.len()
        invariant
            tks == tracks.deep_view(),
            evs == events.deep_view(),
            evs.len() == events.len(),
            0 <= j <= events.len(),
            out_events.deep_view().len() == j,
            forall|k: int|
                0 <= k < j ==> (#[trigger] out_events.deep_view()[k]) == spec_exported_events(
                    evs,
                    tks,
                )[k],
        decreases events.len() - j,
    {
        let ev = &events[j];
        let track_name = track_name_of(tracks, ev.track_id.as_str());
        let exported = ExportedEvent {
            title: ev.title.clone(),
            description: ev.description.clone(),
            start_date: ev.start_date.clone(),
            end_date: match &ev.end_date {
                Some(d) => Some(d.clone()),
                None => None,
            },
            event_type: ev.event_type.clone(),
            importance: ev.importance,
            track_name,
            color: match &ev.color {
                Some(c) => Some(c.clone()),
                None => None,
            },
            tags: ev.tags.clone(),
            source: match &ev.source {
                Some(v) => Some(v.clone()),
                None => None,
            },
        };
        let ghost exv = exported.deep_view();
        let ghost predeep = out_events.deep_view();
        proof {
            assert(exv == spec_exported_event(evs[j as int], tks));
        }
        out_events.push(exported);
        proof {
            assert(out_events.deep_view().len() == j + 1);
            assert forall|k: int|
                0 <= k < j + 1 implies (#[trigger] out_events.deep_view()[k])
                == spec_exported_events(evs, tks)[k] by {
                if k < j {
                    assert(out_events.deep_view()[k] == predeep[k]);
                } else {
                    assert(out_events.deep_view()[k] == exv);
                }
            }
        }
        j += 1;
    }
    proof {
        assert(out_events.deep_view() =~= spec_exported_events(evs, tks));
    }

    let mut out_conns: Vec<ExportedConnection> = Vec::new();
    let mut k: usize = 0;
    while k < connections.len()
        invariant
            evs == events.deep_view(),
            cns == connections.deep_view(),
            cns.len() == connections.len(),
            0 <= k <= connections.len(),
            out_conns.deep_view() == spec_exported_connections(cns.subrange(0, k as int), evs),
        decreases connections.len() - k,
    {
        let ghost prev = out_conns.deep_view();
        let c = &connections[k];
        proof {
            assert(cns.subrange(0, k + 1).drop_last() =~= cns.subrange(0, k as int));
            assert(cns.subrange(0, k + 1).last() == cns[k as int]);
        }
        let st = find_event_title(events, c.source_event_id.as_str());
        let tt = find_event_title(events, c.target_event_id.as_str());
        match (st, tt) {
            (Some(source_title), Some(target_title)) => {
                out_conns.push(
                    ExportedConnection {
                        source_title,
                        target_title,
                        connection_type: c.connection_type.clone(),
                        label: c.label.clone(),
                    },
                );
            },
            _ => {},
        }
        proof {
            assert(out_conns.deep_view() =~= spec_exported_connections(
                cns.subrange(0, k + 1),
                evs,
            ));
        }
        k += 1;
    }
    proof {
        assert(cns.subrange(0, connections.len() as int) =~= cns);
    }

    ExportedTimeline {
        version: 1,
        title: timeline.title.clone(),
        description: timeline.description.clone(),
        tracks: out_tracks,
        events: out_events,
        connections: out_conns,
    }
}

} // verus!
