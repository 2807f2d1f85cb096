use chronomap::color::Rgb;
use chronomap::models::{Event, Timeline, Track};
use chronomap::pdf::generate_pdf_plan;

fn tl(title: &str, description: &str) -> Timeline {
    Timeline {
        id: String::from("tl"),
        title: String::from(title),
        description: String::from(description),
        created_at: String::new(),
        updated_at: String::new(),
    }
}

fn track(id: &str, name: &str, color: &str, sort_order: i32) -> Track {
    Track {
        id: String::from(id),
        timeline_id: String::from("tl"),
        name: String::from(name),
        color: String::from(color),
        sort_order,
        visible: true,
        created_at: String::new(),
    }
}

fn ev(id: &str, track_id: &str, title: &str, start: &str, end: Option<&str>, kind: &str) -> Event {
    Event {
        id: String::from(id),
        timeline_id: String::from("tl"),
        track_id: String::from(track_id),
        title: String::from(title),
        description: String::new(),
        start_date: String::from(start),
        end_date: end.map(String::from),
        event_type: String::from(kind),
        importance: 3,
        color: None,
        icon: None,
        image_path: None,
        external_link: None,
        tags: String::new(),
        source: None,
        ai_generated: false,
        created_at: String::new(),
        updated_at: String::new(),
    }
}

#[test]
fn test_generate_pdf_not_found() {
    let result = generate_pdf_plan("nonexistent-id", None, &Vec::new(), &Vec::new());
    assert!(result.is_err());
    let e = result.err().expect("error");
    assert!(e.is_not_found());
    assert_eq!(e.message().as_str(), "Timeline nonexistent-id not found");
}

#[test]
fn test_cover_texts() {
    let timeline = tl("PDF Test Timeline", "For PDF export testing");
    let tracks = vec![track("tr1", "Events", "#ef4444", 0)];
    // the caller supplies the events ordered by start date
    let events = vec![
        ev("e2", "tr1", "Industrial Rev", "1760-01-01", Some("1840-12-31"), "range"),
        ev("e1", "tr1", "Battle", "1815-06-18", None, "point"),
    ];
    let plan = generate_pdf_plan("tl", Some(&timeline), &tracks, &events).expect("plan");
    assert_eq!(plan.title.as_str(), "PDF Test Timeline");
    assert_eq!(plan.date_range.as_str(), "1760-01-01 to 1815-06-18");
    assert_eq!(plan.count_text.as_str(), "2 events across 1 tracks");
    assert_eq!(
        plan.description.as_ref().map(|d| d.as_str()),
        Some("For PDF export testing")
    );
}

#[test]
fn test_cover_without_events_or_description() {
    let timeline = tl("Bare", "");
    let plan = generate_pdf_plan("tl", Some(&timeline), &Vec::new(), &Vec::new()).expect("plan");
    assert_eq!(plan.date_range.as_str(), "N/A to N/A");
    assert_eq!(plan.count_text.as_str(), "0 events across 0 tracks");
    assert!(plan.description.is_none());
    // the default window spans one hundred days: a single content page
    assert_eq!(plan.pages.len(), 1);
    assert_eq!(plan.pages[0].label.as_str(), "Page 1 of 1");
}

#[test]
fn test_long_description_truncated() {
    let long: String = std::iter::repeat('d').take(230).collect();
    let timeline = tl("T", long.as_str());
    let plan = generate_pdf_plan("tl", Some(&timeline), &Vec::new(), &Vec::new()).expect("plan");
    let d = plan.description.expect("kept");
    assert_eq!(d.len(), 203);
    assert!(d.ends_with("..."));
}

#[test]
fn test_long_event_title_truncated() {
    let timeline = tl("T", "");
    let tracks = vec![track("tr", "Lane", "#336699", 0)];
    let long_title = "An exceedingly long event title indeed";
    let events = vec![ev("e", "tr", long_title, "1980-01-01", None, "point")];
    let plan = generate_pdf_plan("tl", Some(&timeline), &tracks, &events).expect("plan");
    let label = &plan.pages[0].markers[0].label;
    assert_eq!(label.as_str(), "An exceedingly long event t...");
    assert_eq!(label.chars().count(), 30);
}

#[test]
fn test_pagination_two_pages() {
    // content exactly twice the usable page width: 3192 days = 2 pages
    let timeline = tl("Wide", "");
    let tracks = vec![track("tr", "Lane", "#336699", 0)];
    let events = vec![
        ev("span", "tr", "Span", "1970-01-01", Some("1978-09-28"), "range"),
        ev("late", "tr", "Late", "1977-01-01", None, "point"),
    ];
    let plan = generate_pdf_plan("tl", Some(&timeline), &tracks, &events).expect("plan");
    assert_eq!(plan.pages.len(), 2);
    assert_eq!(plan.pages[0].label.as_str(), "Page 1 of 2");
    assert_eq!(plan.pages[1].label.as_str(), "Page 2 of 2");
    // the bar overlaps both page windows; the point marker only the second
    assert_eq!(plan.pages[0].bars.len(), 1);
    assert_eq!(plan.pages[1].bars.len(), 1);
    assert_eq!(plan.pages[0].markers.len(), 0);
    assert_eq!(plan.pages[1].markers.len(), 1);
}

#[test]
fn test_lane_band_geometry_and_tint() {
    let timeline = tl("T", "");
    let tracks = vec![
        track("a", "Top", "#000000", 0),
        track("b", "Second", "#ffffff", 1),
    ];
    let plan = generate_pdf_plan("tl", Some(&timeline), &tracks, &Vec::new()).expect("plan");
    let lanes = &plan.pages[0].lanes;
    assert_eq!(lanes.len(), 2);
    // hundredths of a millimeter: page 215.9 mm, header 15 mm, lane 18 mm
    assert_eq!(lanes[0].y_top, 20090);
    assert_eq!(lanes[0].y_bottom, 18290);
    assert_eq!(lanes[1].y_top, 18290);
    assert_eq!(lanes[0].name.as_str(), "Top");
    // black blends 85% of the way toward white; white stays white
    assert_eq!(lanes[0].tint, Rgb { r: 217, g: 217, b: 217 });
    assert_eq!(lanes[1].tint, Rgb { r: 255, g: 255, b: 255 });
}

#[test]
fn test_events_with_bad_dates_are_excluded() {
    let timeline = tl("T", "");
    let tracks = vec![track("tr", "Lane", "#336699", 0)];
    let events = vec![
        ev("good", "tr", "Good", "1980-01-01", None, "point"),
        ev("bad", "tr", "Bad", "someday soon", None, "point"),
    ];
    let plan = generate_pdf_plan("tl", Some(&timeline), &tracks, &events).expect("plan");
    assert_eq!(plan.pages[0].markers.len(), 1);
    assert_eq!(plan.pages[0].markers[0].label.as_str(), "Good");
}
