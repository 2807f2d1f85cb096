use chronomap::date::coordinate;
use chronomap::layout::compute_window;
use chronomap::models::Event;

fn ev(title: &str, start: &str, end: Option<&str>, kind: &str) -> Event {
    Event {
        id: String::from(title),
        timeline_id: String::from("tl"),
        track_id: String::from("tr"),
        title: String::from(title),
        description: String::new(),
        start_date: String::from(start),
        end_date: end.map(String::from),
        event_type: String::from(kind),
        importance: 3,
        color: None,
        icon: None,
        image_path: None,
        external_link: None,
        tags: String::new(),
        source: None,
        ai_generated: false,
        created_at: String::new(),
        updated_at: String::new(),
    }
}

#[test]
fn test_empty_timeline_default_window() {
    // no events: the fixed default window, zero through one hundred days
    let events: Vec<Event> = Vec::new();
    assert_eq!(compute_window(&events), (0, 100 * 86400));
    // events whose dates all fail to parse count as none
    let events = vec![ev("a", "garbage", None, "point")];
    assert_eq!(compute_window(&events), (0, 100 * 86400));
}

#[test]
fn test_degenerate_window_is_padded() {
    // one event: a window of exactly one hundred days centered on it
    let c = coordinate("2000-06-15").expect("valid");
    let events = vec![ev("solo", "2000-06-15", None, "point")];
    let (lo, hi) = compute_window(&events);
    assert_eq!(lo, c - 50 * 86400);
    assert_eq!(hi, c + 50 * 86400);
    assert_eq!(hi - lo, 100 * 86400);

    // start == end gives the same padding
    let events = vec![ev("solo", "2000-06-15", Some("2000-06-15"), "range")];
    assert_eq!(compute_window(&events), (c - 50 * 86400, c + 50 * 86400));
}

#[test]
fn test_natural_window() {
    let a = coordinate("1990-01-01").expect("a");
    let b = coordinate("1994-05-20").expect("b");
    let events = vec![
        ev("one", "1990-01-01", None, "point"),
        ev("two", "1991-01-01", Some("1994-05-20"), "range"),
    ];
    assert_eq!(compute_window(&events), (a, b));
}

#[test]
fn test_end_dates_extend_the_window() {
    let a = coordinate("1990-01-01").expect("a");
    let b = coordinate("1999-12-31").expect("b");
    let events = vec![ev("span", "1990-01-01", Some("1999-12-31"), "era")];
    assert_eq!(compute_window(&events), (a, b));
}
