use chronomap::models::{Connection, Event, Timeline, Track};
use chronomap::svg::generate_svg;

fn tl(id: &str, title: &str, description: &str) -> Timeline {
    Timeline {
        id: String::from(id),
        title: String::from(title),
        description: String::from(description),
        created_at: String::new(),
        updated_at: String::new(),
    }
}

fn track(id: &str, name: &str, color: &str, sort_order: i32) -> Track {
    Track {
        id: String::from(id),
        timeline_id: String::from("tl"),
        name: String::from(name),
        color: String::from(color),
        sort_order,
        visible: true,
        created_at: String::new(),
    }
}

fn ev(id: &str, track_id: &str, title: &str, start: &str, end: Option<&str>, kind: &str) -> Event {
    Event {
        id: String::from(id),
        timeline_id: String::from("tl"),
        track_id: String::from(track_id),
        title: String::from(title),
        description: String::new(),
        start_date: String::from(start),
        end_date: end.map(String::from),
        event_type: String::from(kind),
        importance: 5,
        color: None,
        icon: None,
        image_path: None,
        external_link: None,
        tags: String::new(),
        source: None,
        ai_generated: false,
        created_at: String::new(),
        updated_at: String::new(),
    }
}

fn conn(source: &str, target: &str, label: Option<&str>) -> Connection {
    Connection {
        id: String::from("c1"),
        timeline_id: String::from("tl"),
        source_event_id: String::from(source),
        target_event_id: String::from(target),
        connection_type: String::from("influenced"),
        label: label.map(String::from),
        color: None,
        created_at: String::new(),
    }
}

fn sample_entities() -> (Timeline, Vec<Track>, Vec<Event>, Vec<Connection>) {
    let timeline = tl("tl", "SVG Test Timeline", "For SVG export testing");
    let tracks = vec![
        track("tr1", "Politics", "#ef4444", 0),
        track("tr2", "Science", "#3b82f6", 1),
    ];
    let events = vec![
        ev("ev1", "tr1", "Revolution", "1789-07-14", None, "point"),
        ev("ev2", "tr2", "Relativity", "1905-06-30", Some("1905-09-26"), "range"),
    ];
    let connections = vec![conn("ev1", "ev2", Some("inspired"))];
    (timeline, tracks, events, connections)
}

#[test]
fn test_generate_svg_basic() {
    let (timeline, tracks, events, connections) = sample_entities();
    let svg = generate_svg("tl", Some(&timeline), &tracks, &events, &connections)
        .expect("generate svg");

    assert!(svg.starts_with("<svg"));
    assert!(svg.ends_with("</svg>"));
    assert!(svg.contains("xmlns"));
    assert!(svg.contains("SVG Test Timeline"));
    assert!(svg.contains("Revolution"));
    assert!(svg.contains("Relativity"));
    assert!(svg.contains("Politics"));
    assert!(svg.contains("Science"));
    // Check for arrowhead marker
    assert!(svg.contains("arrowhead"));
    // Check for connection path
    assert!(svg.contains("<path"));
    // Check for connection label
    assert!(svg.contains("inspired"));
}

#[test]
fn test_generate_svg_not_found() {
    let result = generate_svg("nonexistent-id", None, &Vec::new(), &Vec::new(), &Vec::new());
    assert!(result.is_err());
    let e = result.err().expect("error");
    assert!(e.is_not_found());
    assert_eq!(e.message().as_str(), "Timeline nonexistent-id not found");
}

#[test]
fn test_generate_svg_empty_timeline() {
    let timeline = tl("tl", "Empty", "No events");
    let svg = generate_svg("tl", Some(&timeline), &Vec::new(), &Vec::new(), &Vec::new())
        .expect("generate svg");
    assert!(svg.starts_with("<svg"));
    assert!(svg.contains("Empty"));
    // the default window starts at the epoch, so the first yearly tick
    // carries the label 1970
    assert!(svg.contains(">1970</text>"));
    // with no content the canvas sits at its fixed floor of 600 by 200
    assert!(svg.starts_with(
        "<svg xmlns=\"http://www.w3.org/2000/svg\" viewBox=\"0 0 600.000 200.000\" width=\"600.000\" height=\"200.000\">"
    ));
}

#[test]
fn test_generate_svg_xml_escaping() {
    let timeline = tl("tl", "War & Peace <1800>", "Test");
    let tracks = vec![track("tr", "Track \"A\"", "#000000", 0)];
    let events = vec![ev("ev", "tr", "Event & <Test>", "1800-01-01", None, "point")];
    let svg = generate_svg("tl", Some(&timeline), &tracks, &events, &Vec::new())
        .expect("generate svg");
    assert!(svg.contains("War &amp; Peace &lt;1800&gt;"));
    assert!(svg.contains("Event &amp; &lt;Test&gt;"));
    assert!(svg.contains("Track &quot;A&quot;"));
}

#[test]
fn test_dangling_connection_is_dropped() {
    let (timeline, tracks, events, _) = sample_entities();
    // one endpoint does not exist, the other belongs to an excluded event
    let mut events = events;
    events.push(ev("bad", "tr1", "Unplaced", "not-a-date", None, "point"));
    let connections = vec![
        conn("ev1", "missing-id", Some("dangling")),
        conn("bad", "ev2", None),
    ];
    let svg = generate_svg("tl", Some(&timeline), &tracks, &events, &connections)
        .expect("render must still complete");
    // no curve is drawn: the only path element left is the arrowhead marker
    assert_eq!(svg.matches("<path").count(), 1);
    assert!(!svg.contains("dangling"));
}

#[test]
fn test_malformed_track_color_substituted() {
    let timeline = tl("tl", "Colors", "");
    let tracks = vec![track("tr", "Lane", "not-a-color", 0)];
    let events = vec![ev("ev", "tr", "Dot", "1980-01-01", None, "point")];
    let svg = generate_svg("tl", Some(&timeline), &tracks, &events, &Vec::new())
        .expect("generate svg");
    assert!(svg.contains("#666666"));
    assert!(!svg.contains("not-a-color"));
}

#[test]
fn test_unknown_track_id_lands_on_lane_zero() {
    let timeline = tl("tl", "Lanes", "");
    let tracks = vec![track("tr1", "First", "#112233", 0)];
    let events = vec![ev("ev", "no-such-track", "Stray", "1980-01-01", None, "point")];
    let svg = generate_svg("tl", Some(&timeline), &tracks, &events, &Vec::new())
        .expect("generate svg");
    // the marker sits at the first lane's center (y = 40 + 30 px) and takes
    // the first track's color
    assert!(svg.contains("cy=\"70.000\""));
    assert!(svg.contains("fill=\"#112233\""));
}
