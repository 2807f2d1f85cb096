use chronomap::export_text::{build_export, csv_field, export_csv_text, export_markdown_text};
use chronomap::models::{Connection, Event, Timeline, Track};

fn tl(title: &str, description: &str) -> Timeline {
    Timeline {
        id: String::from("tl"),
        title: String::from(title),
        description: String::from(description),
        created_at: String::new(),
        updated_at: String::new(),
    }
}

fn track(id: &str, name: &str, color: &str, sort_order: i32) -> Track {
    Track {
        id: String::from(id),
        timeline_id: String::from("tl"),
        name: String::from(name),
        color: String::from(color),
        sort_order,
        visible: true,
        created_at: String::new(),
    }
}

fn ev(
    id: &str,
    track_id: &str,
    title: &str,
    description: &str,
    start: &str,
    end: Option<&str>,
    kind: &str,
    importance: i32,
    tags: &str,
) -> Event {
    Event {
        id: String::from(id),
        timeline_id: String::from("tl"),
        track_id: String::from(track_id),
        title: String::from(title),
        description: String::from(description),
        start_date: String::from(start),
        end_date: end.map(String::from),
        event_type: String::from(kind),
        importance,
        color: None,
        icon: None,
        image_path: None,
        external_link: None,
        tags: String::from(tags),
        source: None,
        ai_generated: false,
        created_at: String::new(),
        updated_at: String::new(),
    }
}

fn sample() -> (Timeline, Vec<Track>, Vec<Event>, Vec<Connection>) {
    let timeline = tl("Export Test", "A timeline for export");
    let tracks = vec![
        track("tr1", "Politics", "#ef4444", 0),
        track("tr2", "Science", "#3b82f6", 1),
    ];
    // ordered by start date, as the storage layer supplies them
    let events = vec![
        ev(
            "ev1",
            "tr1",
            "Revolution",
            "The great revolution",
            "1789-07-14",
            None,
            "point",
            5,
            "war,history",
        ),
        ev(
            "ev2",
            "tr2",
            "Relativity",
            "Theory of relativity",
            "1905-06-30",
            Some("1905-09-26"),
            "range",
            3,
            "science",
        ),
    ];
    let connections = vec![Connection {
        id: String::from("c1"),
        timeline_id: String::from("tl"),
        source_event_id: String::from("ev1"),
        target_event_id: String::from("ev2"),
        connection_type: String::from("influenced"),
        label: Some(String::from("inspired")),
        color: None,
        created_at: String::new(),
    }];
    (timeline, tracks, events, connections)
}

#[test]
fn test_export_json_structure() {
    let (timeline, tracks, events, connections) = sample();
    let exported = build_export(&timeline, &tracks, &events, &connections);
    assert_eq!(exported.version, 1);
    assert_eq!(exported.title.as_str(), "Export Test");
    assert_eq!(exported.description.as_str(), "A timeline for export");

    // Verify tracks
    assert_eq!(exported.tracks.len(), 2);
    assert_eq!(exported.tracks[0].name.as_str(), "Politics");
    assert_eq!(exported.tracks[1].name.as_str(), "Science");

    // Verify events
    assert_eq!(exported.events.len(), 2);

    // Verify connections
    assert_eq!(exported.connections.len(), 1);
    assert_eq!(exported.connections[0].label.as_deref(), Some("inspired"));
}

#[test]
fn test_export_json_event_track_resolution() {
    let (timeline, tracks, events, connections) = sample();
    let exported = build_export(&timeline, &tracks, &events, &connections);

    assert_eq!(exported.events[0].title.as_str(), "Revolution");
    assert_eq!(exported.events[0].track_name.as_str(), "Politics");

    assert_eq!(exported.events[1].title.as_str(), "Relativity");
    assert_eq!(exported.events[1].track_name.as_str(), "Science");
}

#[test]
fn test_export_csv_format() {
    let (_, tracks, events, _) = sample();
    let csv_out = export_csv_text(&tracks, &events);

    // Verify CSV header
    assert!(csv_out
        .starts_with("title,start_date,end_date,event_type,importance,track,description,tags"));
    // Verify data rows
    assert!(csv_out.contains("Revolution"));
    assert!(csv_out.contains("Relativity"));
    assert!(csv_out.contains("1789-07-14"));
    assert!(csv_out.contains("1905-06-30"));
    assert!(csv_out.contains("Politics"));
    assert!(csv_out.contains("Science"));
}

#[test]
fn test_export_markdown_structure() {
    let (timeline, _, events, _) = sample();
    let md = export_markdown_text(timeline.title.as_str(), &events);

    assert!(md.starts_with("# Export Test"));
    assert!(md.contains("## 1789"));
    assert!(md.contains("## 1905"));
    assert!(md.contains("### Revolution"));
    assert!(md.contains("### Relativity"));
    assert!(md.contains("**Date:** 1789-07-14"));
    assert!(md.contains("**Date:** 1905-06-30 \u{2014} 1905-09-26"));
    assert!(md.contains("The great revolution"));
    assert!(md.contains("Theory of relativity"));
}

#[test]
fn test_csv_field_quoting() {
    // fields holding a separator, a quote or a newline get wrapped, with
    // inner quotes doubled
    assert_eq!(csv_field("plain"), "plain");
    assert_eq!(csv_field("a,b"), "\"a,b\"");
    assert_eq!(csv_field("say \"hi\""), "\"say \"\"hi\"\"\"");
    assert_eq!(csv_field("two\nlines"), "\"two\nlines\"");
    // a leading formula character is guarded with an apostrophe
    assert_eq!(csv_field("=SUM(A1)"), "'=SUM(A1)");
    assert_eq!(csv_field("+1"), "'+1");
    assert_eq!(csv_field("-1"), "'-1");
    assert_eq!(csv_field("@cell"), "'@cell");
    assert_eq!(csv_field("=a,b"), "\"'=a,b\"");
}

#[test]
fn test_export_dangling_connection_dropped() {
    let (timeline, tracks, events, _) = sample();
    let connections = vec![Connection {
        id: String::from("c2"),
        timeline_id: String::from("tl"),
        source_event_id: String::from("no-such-event"),
        target_event_id: String::from("ev2"),
        connection_type: String::from("related"),
        label: None,
        color: None,
        created_at: String::new(),
    }];
    let exported = build_export(&timeline, &tracks, &events, &connections);
    assert_eq!(exported.connections.len(), 0);
}

#[test]
fn test_export_unknown_track_name_empty() {
    let (timeline, tracks, mut events, _) = sample();
    events.push(ev("ev3", "gone", "Stray", "", "1999-01-01", None, "point", 1, ""));
    let exported = build_export(&timeline, &tracks, &events, &Vec::new());
    assert_eq!(exported.events[2].track_name.as_str(), "");
}
