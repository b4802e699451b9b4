use liberado_caldav_mcp::caldav::address_book_home_url;
use liberado_caldav_mcp::ical::{build_vcard, parse_ical_component};
use liberado_caldav_mcp::models::AppState;
use liberado_caldav_mcp::props::Props;
use liberado_caldav_mcp::xml::parse_multistatus;

fn make_state(base_url: &str, username: &str) -> AppState {
    AppState {
        caldav_base_url: base_url.to_string(),
        username: username.to_string(),
        password: "secret".to_string(),
    }
}

// --- build_vcard tests ---

#[test]
fn test_build_vcard_all_fields() {
    let mut props = Props::new();
    props.insert("UID".to_string(), "test-uid-123".to_string());
    props.insert("FN".to_string(), "Jane Doe".to_string());
    props.insert("EMAIL".to_string(), "jane@example.com".to_string());
    props.insert("TEL".to_string(), "+1-555-0100".to_string());
    props.insert("ORG".to_string(), "Acme Corp".to_string());
    props.insert("NOTE".to_string(), "Some notes".to_string());
    props.insert("REV".to_string(), "20260101T000000Z".to_string());

    let vcard = build_vcard(&props);
    assert!(vcard.contains("BEGIN:VCARD"), "missing BEGIN:VCARD");
    assert!(vcard.contains("VERSION:3.0"), "missing VERSION:3.0");
    assert!(vcard.contains("FN:Jane Doe"), "missing FN");
    assert!(vcard.contains("EMAIL:jane@example.com"), "missing EMAIL");
    assert!(vcard.contains("TEL:+1-555-0100"), "missing TEL");
    assert!(vcard.contains("ORG:Acme Corp"), "missing ORG");
    assert!(vcard.contains("NOTE:Some notes"), "missing NOTE");
    assert!(vcard.contains("END:VCARD"), "missing END:VCARD");
}

#[test]
fn test_build_vcard_empty_optional_fields_omitted() {
    let mut props = Props::new();
    props.insert("UID".to_string(), "uid-only".to_string());
    props.insert("FN".to_string(), "John Smith".to_string());
    // EMAIL, TEL, ORG, NOTE intentionally absent
    let vcard = build_vcard(&props);
    assert!(!vcard.contains("EMAIL:"), "empty EMAIL should be omitted");
    assert!(!vcard.contains("TEL:"), "empty TEL should be omitted");
    assert!(!vcard.contains("ORG:"), "empty ORG should be omitted");
    assert!(!vcard.contains("NOTE:"), "empty NOTE should be omitted");
    assert!(vcard.contains("FN:John Smith"));
}

#[test]
fn test_build_vcard_empty_string_fields_omitted() {
    let mut props = Props::new();
    props.insert("UID".to_string(), "uid-empty".to_string());
    props.insert("FN".to_string(), "Alice".to_string());
    props.insert("EMAIL".to_string(), "".to_string());
    props.insert("TEL".to_string(), "".to_string());
    let vcard = build_vcard(&props);
    assert!(
        !vcard.contains("EMAIL:"),
        "empty string EMAIL should be omitted"
    );
    assert!(
        !vcard.contains("TEL:"),
        "empty string TEL should be omitted"
    );
}

#[test]
fn test_build_vcard_crlf_line_endings() {
    let mut props = Props::new();
    props.insert("FN".to_string(), "Test".to_string());
    let vcard = build_vcard(&props);
    assert!(vcard.contains("\r\n"), "lines should be joined with CRLF");
    // Verify begin and end are separated by CRLF
    assert!(vcard.starts_with("BEGIN:VCARD\r\n"));
    assert!(vcard.ends_with("\r\nEND:VCARD"));
}

// --- address_book_home_url tests ---

#[test]
fn test_address_book_home_url_basic() {
    let state = make_state("http://baikal/dav.php", "admin");
    let url = address_book_home_url(&state);
    assert_eq!(url, "http://baikal/dav.php/addressbooks/admin/");
}

#[test]
fn test_address_book_home_url_trailing_slash_trimmed() {
    let state = make_state("http://baikal/dav.php/", "admin");
    let url = address_book_home_url(&state);
    assert_eq!(url, "http://baikal/dav.php/addressbooks/admin/");
}

#[test]
fn test_address_book_home_url_custom_user() {
    let state = make_state("https://dav.example.com", "shiloh");
    let url = address_book_home_url(&state);
    assert_eq!(url, "https://dav.example.com/addressbooks/shiloh/");
}

// --- parse_ical_component with VCARD tests ---

#[test]
fn test_parse_vcard_basic_fields() {
    let vcard = "BEGIN:VCARD\r\nVERSION:3.0\r\nUID:uid-abc\r\nFN:Bob Builder\r\nEMAIL:bob@example.com\r\nTEL:555-1234\r\nORG:BuildCo\r\nNOTE:A note\r\nEND:VCARD\r\n";
    let props = parse_ical_component(vcard, "VCARD");
    assert_eq!(props.get("FN").map(|s| s.as_str()), Some("Bob Builder"));
    assert_eq!(
        props.get("EMAIL").map(|s| s.as_str()),
        Some("bob@example.com")
    );
    assert_eq!(props.get("TEL").map(|s| s.as_str()), Some("555-1234"));
    assert_eq!(props.get("ORG").map(|s| s.as_str()), Some("BuildCo"));
    assert_eq!(props.get("NOTE").map(|s| s.as_str()), Some("A note"));
    assert_eq!(props.get("UID").map(|s| s.as_str()), Some("uid-abc"));
}

#[test]
fn test_parse_vcard_email_with_params() {
    // EMAIL;TYPE=INTERNET:foo@bar.com — base key should be EMAIL
    let vcard = "BEGIN:VCARD\r\nVERSION:3.0\r\nEMAIL;TYPE=INTERNET:foo@bar.com\r\nFN:Test\r\nEND:VCARD\r\n";
    let props = parse_ical_component(vcard, "VCARD");
    assert_eq!(
        props.get("EMAIL").map(|s| s.as_str()),
        Some("foo@bar.com"),
        "EMAIL with params should strip the param part from the key"
    );
}

#[test]
fn test_parse_vcard_no_begin_returns_empty() {
    let not_vcard = "FN:Someone\r\nEMAIL:x@y.com\r\n";
    let props = parse_ical_component(not_vcard, "VCARD");
    assert!(
        props.is_empty(),
        "should return empty map when BEGIN:VCARD not found"
    );
}

// --- parse_multistatus addressbook detection tests ---

#[test]
fn test_parse_multistatus_addressbook_flag() {
    let xml = r#"<?xml version="1.0" encoding="utf-8"?>
<d:multistatus xmlns:d="DAV:" xmlns:c="urn:ietf:params:xml:ns:carddav">
  <d:response>
    <d:href>/addressbooks/admin/default/</d:href>
    <d:propstat>
      <d:prop>
        <d:displayname>Default</d:displayname>
        <d:resourcetype><d:collection/><c:addressbook/></d:resourcetype>
      </d:prop>
      <d:status>HTTP/1.1 200 OK</d:status>
    </d:propstat>
  </d:response>
</d:multistatus>"#;
    let responses = parse_multistatus(xml);
    assert_eq!(responses.len(), 1);
    let (_, props) = &responses[0];
    assert!(
        props.contains_key("__is_addressbook__"),
        "should detect addressbook resource type"
    );
    assert!(
        !props.contains_key("__is_calendar__"),
        "should not flag as calendar"
    );
}

#[test]
fn test_parse_multistatus_calendar_flag_still_works() {
    let xml = r#"<?xml version="1.0" encoding="utf-8"?>
<d:multistatus xmlns:d="DAV:" xmlns:c="urn:ietf:params:xml:ns:caldav">
  <d:response>
    <d:href>/calendars/admin/default/</d:href>
    <d:propstat>
      <d:prop>
        <d:displayname>My Cal</d:displayname>
        <d:resourcetype><d:collection/><c:calendar/></d:resourcetype>
      </d:prop>
      <d:status>HTTP/1.1 200 OK</d:status>
    </d:propstat>
  </d:response>
</d:multistatus>"#;
    let responses = parse_multistatus(xml);
    assert_eq!(responses.len(), 1);
    let (_, props) = &responses[0];
    assert!(
        props.contains_key("__is_calendar__"),
        "should still detect calendar resource type"
    );
    assert!(
        !props.contains_key("__is_addressbook__"),
        "should not flag as addressbook"
    );
}

#[test]
fn test_parse_multistatus_mixed_calendar_and_addressbook() {
    let xml = r#"<?xml version="1.0" encoding="utf-8"?>
<d:multistatus xmlns:d="DAV:" xmlns:ca="urn:ietf:params:xml:ns:caldav" xmlns:cd="urn:ietf:params:xml:ns:carddav">
  <d:response>
    <d:href>/calendars/admin/cal/</d:href>
    <d:propstat>
      <d:prop>
        <d:resourcetype><d:collection/><ca:calendar/></d:resourcetype>
      </d:prop>
      <d:status>HTTP/1.1 200 OK</d:status>
    </d:propstat>
  </d:response>
  <d:response>
    <d:href>/addressbooks/admin/book/</d:href>
    <d:propstat>
      <d:prop>
        <d:resourcetype><d:collection/><cd:addressbook/></d:resourcetype>
      </d:prop>
      <d:status>HTTP/1.1 200 OK</d:status>
    </d:propstat>
  </d:response>
</d:multistatus>"#;
    let responses = parse_multistatus(xml);
    assert_eq!(responses.len(), 2);
    let cal = responses
        .iter()
        .find(|(href, _)| href.contains("cal"))
        .unwrap();
    let book = responses
        .iter()
        .find(|(href, _)| href.contains("book"))
        .unwrap();
    assert!(cal.1.contains_key("__is_calendar__"));
    assert!(!cal.1.contains_key("__is_addressbook__"));
    assert!(book.1.contains_key("__is_addressbook__"));
    assert!(!book.1.contains_key("__is_calendar__"));
}
