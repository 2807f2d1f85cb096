use chronomap::escape::escape_xml;

#[test]
fn test_escape_xml() {
    assert_eq!(escape_xml("a & b"), "a &amp; b");
    assert_eq!(escape_xml("<tag>"), "&lt;tag&gt;");
    assert_eq!(escape_xml(r#"say "hi""#), "say &quot;hi&quot;");
    assert_eq!(escape_xml("plain"), "plain");
}

#[test]
fn test_escape_xml_round_trip_markers() {
    // each reserved character shows up as its entity in the raw output
    assert!(escape_xml("fish & chips").contains("&amp;"));
    assert!(escape_xml("a < b").contains("&lt;"));
    assert!(escape_xml("a > b").contains("&gt;"));
    assert!(escape_xml("a \" b").contains("&quot;"));
    // and plain text passes through unchanged
    assert_eq!(escape_xml("unchanged text 123"), "unchanged text 123");
    assert_eq!(escape_xml(""), "");
}
