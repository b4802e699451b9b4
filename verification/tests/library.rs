use liberado_caldav_mcp::caldav::{
    calendar_home_url, calendars_from_multistatus, contacts_from_multistatus,
    address_books_from_multistatus, events_from_multistatus, events_report_body,
    member_url_exec, plan_list_events, tasks_from_multistatus, CALENDARS_PROPFIND,
};
use liberado_caldav_mcp::datetime::{
    default_event_window, ical_dt_to_iso, ical_dt_to_iso_checked, iso_to_ical_dt, now_ical,
};
use liberado_caldav_mcp::error::CaldavError;
use liberado_caldav_mcp::ical::{build_event_ical, build_task_ical, build_vcard, parse_ical_component};
use liberado_caldav_mcp::models::{
    AppState, CreateContactArgs, CreateEventArgs, CreateTaskArgs, ListEventsArgs,
    UpdateContactArgs, UpdateEventArgs, UpdateTaskArgs,
};
use liberado_caldav_mcp::props::Props;
use liberado_caldav_mcp::text::{decimal_string, parse_u32, trim_str};
use liberado_caldav_mcp::writes::{
    plan_create_contact, plan_create_event, plan_create_task, plan_update_contact,
    plan_update_event, plan_update_task, prepare_create_contact, prepare_create_event,
};
use liberado_caldav_mcp::xml::{multistatus_from_tokens, parse_multistatus, XmlToken};

fn props(entries: &[(&str, &str)]) -> Props {
    let mut p = Props::new();
    for (k, v) in entries {
        p.insert(k.to_string(), v.to_string());
    }
    p
}

fn get(p: &Props, k: &str) -> Option<String> {
    p.get(k).cloned()
}

fn invalid_arg(e: CaldavError) -> String {
    match e {
        CaldavError::InvalidArg(s) => s,
        _ => panic!("not an invalid argument"),
    }
}

// --- date and time ---

#[test]
fn ical_date_time_to_iso() {
    assert_eq!(ical_dt_to_iso("20260301T100000Z"), "2026-03-01T10:00:00Z");
    assert_eq!(ical_dt_to_iso("20260301T100000"), "2026-03-01T10:00:00Z");
    assert_eq!(ical_dt_to_iso("20260301T100000ZZZ"), "2026-03-01T10:00:00Z");
}

#[test]
fn ical_date_to_iso() {
    assert_eq!(ical_dt_to_iso("20260301"), "2026-03-01");
}

#[test]
fn other_ical_texts_unchanged() {
    assert_eq!(ical_dt_to_iso(""), "");
    assert_eq!(ical_dt_to_iso("today"), "today");
    // eight bytes without a 'T' are read as a date
    assert_eq!(ical_dt_to_iso("tomorrow"), "tomo-rr-ow");
    assert_eq!(ical_dt_to_iso("2026030Z"), "2026030Z");
}

#[test]
fn ical_date_time_on_a_non_boundary_is_refused() {
    // byte 4 falls inside the two-byte 'é'
    assert_eq!(ical_dt_to_iso_checked("202é0301T100000"), None);
    // every slice boundary falls between characters here
    assert_eq!(
        ical_dt_to_iso_checked("2026é301T1000000").as_deref(),
        Some("2026-é-30TT1:00:00Z")
    );
    assert_eq!(ical_dt_to_iso_checked("é").as_deref(), Some("é"));
}

#[test]
fn iso_date_time_to_ical() {
    let (t, all_day) = iso_to_ical_dt("2026-03-01T10:00:00Z").ok().unwrap();
    assert_eq!(t, "20260301T100000Z");
    assert!(!all_day);
    let (t, all_day) = iso_to_ical_dt("2026-03-01T10:00:00+02:00").ok().unwrap();
    assert_eq!(t, "20260301T080000Z");
    assert!(!all_day);
}

#[test]
fn iso_date_to_ical() {
    let (t, all_day) = iso_to_ical_dt("2026-03-01").ok().unwrap();
    assert_eq!(t, "20260301");
    assert!(all_day);
}

#[test]
fn iso_invalid_is_an_error() {
    let e = iso_to_ical_dt("next tuesday").err().unwrap();
    assert_eq!(invalid_arg(e), "invalid datetime: next tuesday");
}

// --- reading components ---

#[test]
fn parse_unfolds_and_uppercases() {
    let ical = "BEGIN:VCALENDAR\r\nBEGIN:VEVENT\r\nsummary;LANG=en:Team\r\n  sync\r\nDESCRIPTION:a\r\n\tb\nLOCATION:x\n y\r\nEND:VEVENT\r\nEND:VCALENDAR\r\n";
    let p = parse_ical_component(ical, "VEVENT");
    assert_eq!(get(&p, "SUMMARY").as_deref(), Some("Team sync"));
    assert_eq!(get(&p, "DESCRIPTION").as_deref(), Some("ab"));
    assert_eq!(get(&p, "LOCATION").as_deref(), Some("xy"));
    assert_eq!(get(&p, "summary"), None);
    assert_eq!(p.len(), 3);
}

#[test]
fn parse_later_value_wins_and_order_kept() {
    let ical = "BEGIN:VTODO\nUID:1\nSTATUS:NEEDS-ACTION\nSTATUS:COMPLETED\nEND:VTODO";
    let p = parse_ical_component(ical, "VTODO");
    assert_eq!(get(&p, "STATUS").as_deref(), Some("COMPLETED"));
    assert_eq!(p.len(), 2);
    let (k, _) = p.entry(0);
    assert_eq!(k, "UID");
}

#[test]
fn parse_missing_end_is_empty() {
    let p = parse_ical_component("BEGIN:VEVENT\r\nUID:1\r\n", "VEVENT");
    assert!(p.is_empty());
}

#[test]
fn parse_skips_lines_without_colon_and_trims() {
    let p = parse_ical_component("BEGIN:VCARD\r\n\r\nNOCOLON\r\nFN:  Ann  \r\nEND:VCARD", "VCARD");
    assert_eq!(get(&p, "FN").as_deref(), Some("  Ann"));
    assert_eq!(p.len(), 1);
    // a line that starts with a space continues the one before it
    let q = parse_ical_component("BEGIN:VCARD\r\nnote\r\n fn:x\r\nEND:VCARD", "VCARD");
    assert_eq!(get(&q, "NOTEFN").as_deref(), Some("x"));
    assert_eq!(q.len(), 1);
}

#[test]
fn parse_value_keeps_later_colons() {
    let p = parse_ical_component("BEGIN:VEVENT\r\nURL:http://x:80/a\r\nEND:VEVENT", "VEVENT");
    assert_eq!(get(&p, "URL").as_deref(), Some("http://x:80/a"));
}

// --- writing components ---

#[test]
fn build_event_exact_text() {
    let p = props(&[
        ("SUMMARY", "Lunch"),
        ("UID", "u1"),
        ("DTSTART", "20260301T120000Z"),
        ("LOCATION", ""),
    ]);
    assert_eq!(
        build_event_ical(&p),
        "BEGIN:VCALENDAR\r\nVERSION:2.0\r\nPRODID:-//caldav-mcp-rs//EN\r\nBEGIN:VEVENT\r\nUID:u1\r\nDTSTART:20260301T120000Z\r\nSUMMARY:Lunch\r\nEND:VEVENT\r\nEND:VCALENDAR"
    );
}

#[test]
fn build_event_writes_listed_properties_only() {
    let p = props(&[
        ("UID", "u1"),
        ("RRULE", "FREQ=WEEKLY"),
        ("BEGIN", "VALARM"),
        ("X-FOO", "bar"),
    ]);
    assert_eq!(
        build_event_ical(&p),
        "BEGIN:VCALENDAR\r\nVERSION:2.0\r\nPRODID:-//caldav-mcp-rs//EN\r\nBEGIN:VEVENT\r\nUID:u1\r\nEND:VEVENT\r\nEND:VCALENDAR"
    );
}

#[test]
fn build_task_exact_text() {
    let p = props(&[("PRIORITY", "5"), ("UID", "t1"), ("STATUS", "COMPLETED")]);
    assert_eq!(
        build_task_ical(&p),
        "BEGIN:VCALENDAR\r\nVERSION:2.0\r\nPRODID:-//caldav-mcp-rs//EN\r\nBEGIN:VTODO\r\nUID:t1\r\nSTATUS:COMPLETED\r\nPRIORITY:5\r\nEND:VTODO\r\nEND:VCALENDAR"
    );
}

#[test]
fn build_vcard_does_not_repeat_version() {
    let p = props(&[("VERSION", "4.0"), ("FN", "Ann"), ("N", "Doe;Ann")]);
    assert_eq!(
        build_vcard(&p),
        "BEGIN:VCARD\r\nVERSION:3.0\r\nFN:Ann\r\nEND:VCARD"
    );
}

#[test]
fn written_event_reads_back() {
    let p = props(&[
        ("UID", "u1"),
        ("SUMMARY", "Lunch"),
        ("RRULE", "FREQ=WEEKLY"),
        ("SEQUENCE", "3"),
    ]);
    let back = parse_ical_component(&build_event_ical(&p), "VEVENT");
    assert_eq!(back.len(), 3);
    for k in ["UID", "SUMMARY", "SEQUENCE"] {
        assert_eq!(get(&back, k), get(&p, k));
    }
    assert_eq!(get(&back, "RRULE"), None);
}

#[test]
fn written_vcard_reads_back_with_version() {
    let p = props(&[("FN", "Ann"), ("EMAIL", "a@b.c")]);
    let back = parse_ical_component(&build_vcard(&p), "VCARD");
    assert_eq!(get(&back, "FN").as_deref(), Some("Ann"));
    assert_eq!(get(&back, "EMAIL").as_deref(), Some("a@b.c"));
    assert_eq!(get(&back, "VERSION").as_deref(), Some("3.0"));
}

// --- multistatus ---

#[test]
fn multistatus_props_and_trimmed_text() {
    let xml = "<?xml version=\"1.0\"?><d:multistatus xmlns:d=\"DAV:\"><d:response><d:href> /a/ </d:href><d:propstat><d:prop><d:displayname>  Work &amp; play </d:displayname><x:data xmlns:x=\"X\"><![CDATA[<b>raw</b>]]></x:data><d:empty></d:empty></d:prop></d:propstat></d:response></d:multistatus>";
    let r = parse_multistatus(xml);
    assert_eq!(r.len(), 1);
    assert_eq!(r[0].0, "/a/");
    assert_eq!(get(&r[0].1, "href").as_deref(), Some("/a/"));
    assert_eq!(get(&r[0].1, "displayname").as_deref(), Some("Work & play"));
    assert_eq!(get(&r[0].1, "data").as_deref(), Some("<b>raw</b>"));
    assert_eq!(get(&r[0].1, "empty"), None);
}

#[test]
fn multistatus_ignores_outside_responses_and_stops_at_errors() {
    let xml = "<m><calendar/><response><href>/x</href></response><response><href>/y</href></wrong></response></m>";
    let r = parse_multistatus(xml);
    assert_eq!(r.len(), 1);
    assert_eq!(r[0].0, "/x");
    assert!(!r[0].1.contains_key("__is_calendar__"));
}

#[test]
fn calendars_and_address_books_listed() {
    let xml = "<d:multistatus xmlns:d=\"DAV:\" xmlns:c=\"C\"><d:response><d:href>/cal/home/</d:href><d:resourcetype><d:collection/></d:resourcetype></d:response><d:response><d:href>/cal/work/</d:href><d:displayname>Work</d:displayname><c:calendar-description>Job</c:calendar-description><d:resourcetype><c:calendar/></d:resourcetype></d:response><d:response><d:href>/ab/</d:href><d:displayname>Friends</d:displayname><d:resourcetype><c:addressbook/></d:resourcetype></d:response></d:multistatus>";
    let cals = calendars_from_multistatus(xml);
    assert_eq!(cals.len(), 1);
    assert_eq!(cals[0].url, "/cal/work/");
    assert_eq!(cals[0].name, "Work");
    assert_eq!(cals[0].description, "Job");
    let books = address_books_from_multistatus(xml);
    assert_eq!(books.len(), 1);
    assert_eq!(books[0].url, "/ab/");
    assert_eq!(books[0].name, "Friends");
    assert_eq!(books[0].description, "");
}

fn report(data_tag: &str, items: &[(&str, &str)]) -> String {
    let mut xml = String::from("<d:multistatus xmlns:d=\"DAV:\" xmlns:c=\"C\">");
    for (href, data) in items {
        xml.push_str(&format!(
            "<d:response><d:href>{href}</d:href><d:propstat><d:prop><c:{data_tag}>{data}</c:{data_tag}></d:prop></d:propstat></d:response>"
        ));
    }
    xml.push_str("</d:multistatus>");
    xml
}

#[test]
fn events_listed_with_iso_dates() {
    let xml = report(
        "calendar-data",
        &[
            ("/e1.ics", "BEGIN:VCALENDAR\r\nBEGIN:VEVENT\r\nUID:e1\r\nSUMMARY:Talk\r\nDTSTART:20260301T100000Z\r\nDTEND:20260301T110000Z\r\nEND:VEVENT\r\nEND:VCALENDAR"),
            ("/e2.ics", "BEGIN:VCALENDAR\r\nBEGIN:VEVENT\r\nUID:e2\r\nDTSTART;VALUE=DATE:20260302\r\nEND:VEVENT\r\nEND:VCALENDAR"),
            ("/t.ics", "BEGIN:VCALENDAR\r\nBEGIN:VTODO\r\nUID:t\r\nEND:VTODO\r\nEND:VCALENDAR"),
        ],
    );
    let events = events_from_multistatus(&xml).unwrap();
    assert_eq!(events.len(), 2);
    assert_eq!(events[0].uid, "e1");
    assert_eq!(events[0].url, "/e1.ics");
    assert_eq!(events[0].summary, "Talk");
    assert_eq!(events[0].start, "2026-03-01T10:00:00Z");
    assert_eq!(events[0].end, "2026-03-01T11:00:00Z");
    assert!(!events[0].all_day);
    assert_eq!(events[1].start, "2026-03-02");
    assert_eq!(events[1].end, "");
    assert!(events[1].all_day);
}

#[test]
fn events_with_unsliceable_dates_are_refused() {
    let xml = report(
        "calendar-data",
        &[("/e.ics", "BEGIN:VEVENT\nDTSTART:202é0301T100000\nEND:VEVENT")],
    );
    assert!(events_from_multistatus(&xml).is_none());
}

#[test]
fn tasks_listed_completed_hidden() {
    let xml = report(
        "calendar-data",
        &[
            ("/a.ics", "BEGIN:VTODO\nUID:a\nSUMMARY:Buy milk\nPRIORITY:3\nDUE:20260305\nEND:VTODO"),
            ("/b.ics", "BEGIN:VTODO\nUID:b\nSTATUS:COMPLETED\nEND:VTODO"),
            ("/c.ics", "BEGIN:VTODO\nUID:c\nPRIORITY:300\nEND:VTODO"),
        ],
    );
    let open = tasks_from_multistatus(&xml, false).unwrap();
    assert_eq!(open.len(), 2);
    assert_eq!(open[0].uid, "a");
    assert_eq!(open[0].priority, 3);
    assert_eq!(open[0].due, "2026-03-05");
    assert_eq!(open[0].status, "NEEDS-ACTION");
    assert_eq!(open[1].uid, "c");
    assert_eq!(open[1].priority, 0);
    assert_eq!(open[1].due, "");
    let all = tasks_from_multistatus(&xml, true).unwrap();
    assert_eq!(all.len(), 3);
    assert_eq!(all[1].status, "COMPLETED");
    let kept: Vec<String> = all
        .iter()
        .filter(|t| t.status != "COMPLETED")
        .map(|t| t.uid.clone())
        .collect();
    let open_uids: Vec<String> = open.iter().map(|t| t.uid.clone()).collect();
    assert_eq!(open_uids, kept);
}

#[test]
fn iso_dates_round_trip_through_icalendar() {
    for x in ["2026-03-01T10:00:00Z", "0999-12-31T23:59:59Z"] {
        let (t, all_day) = iso_to_ical_dt(x).ok().unwrap();
        assert!(!all_day);
        assert_eq!(ical_dt_to_iso(&t), x);
    }
    for x in ["2026-03-01", "0042-01-09"] {
        let (t, all_day) = iso_to_ical_dt(x).ok().unwrap();
        assert!(all_day);
        assert_eq!(ical_dt_to_iso(&t), x);
    }
}

#[test]
fn written_task_reads_back_its_listed_values() {
    let p = props(&[("UID", "t"), ("SUMMARY", "Call Bob"), ("DUE", "20260305"), ("X-A", "b")]);
    let back = parse_ical_component(&build_task_ical(&p), "VTODO");
    assert_eq!(back.len(), 3);
    for k in ["UID", "SUMMARY", "DUE"] {
        assert_eq!(get(&back, k), get(&p, k));
    }
}

#[test]
fn contacts_listed() {
    let xml = report(
        "address-data",
        &[
            ("/c1.vcf", "BEGIN:VCARD\r\nVERSION:3.0\r\nUID:c1\r\nFN:Ann\r\nTEL;TYPE=cell:123\r\nEND:VCARD"),
            ("/x", "not a card"),
        ],
    );
    let cs = contacts_from_multistatus(&xml);
    assert_eq!(cs.len(), 1);
    assert_eq!(cs[0].uid, "c1");
    assert_eq!(cs[0].full_name, "Ann");
    assert_eq!(cs[0].phone, "123");
    assert_eq!(cs[0].email, "");
}

// --- requests ---

#[test]
fn calendar_home_url_trims_slashes() {
    let state = AppState {
        caldav_base_url: "http://h/dav//".to_string(),
        username: "bob".to_string(),
        password: String::new(),
    };
    assert_eq!(calendar_home_url(&state), "http://h/dav/calendars/bob/");
}

#[test]
fn member_urls() {
    assert_eq!(member_url_exec("/cal/", "u", ".ics"), "/cal/u.ics");
    assert_eq!(member_url_exec("/cal", "u", ".vcf"), "/cal/u.vcf");
}

#[test]
fn event_query_body() {
    let body = events_report_body("20260101T000000Z", "20260131T000000Z");
    assert!(body.contains("<c:time-range start=\"20260101T000000Z\" end=\"20260131T000000Z\"/>"));
    assert!(body.starts_with("<?xml version=\"1.0\" encoding=\"utf-8\"?>\n<c:calendar-query"));
    assert!(CALENDARS_PROPFIND.contains("<c:calendar-description/>"));
}

#[test]
fn event_query_range() {
    let args = ListEventsArgs {
        calendar_url: "/cal/".to_string(),
        start: Some("2026-01-01".to_string()),
        end: None,
    };
    let body = plan_list_events(&args, "NOW", "LATER").ok().unwrap();
    assert!(body.contains("start=\"20260101\" end=\"LATER\""));
    let bad = ListEventsArgs { calendar_url: "/cal/".to_string(), start: None, end: Some("x".to_string()) };
    assert_eq!(invalid_arg(plan_list_events(&bad, "NOW", "LATER").err().unwrap()), "invalid datetime: x");
}

// --- creating and updating ---

#[test]
fn create_event_plan() {
    let args = CreateEventArgs {
        calendar_url: "/cal/work/".to_string(),
        summary: "Talk".to_string(),
        start: "2026-03-01T10:00:00Z".to_string(),
        end: "2026-03-01".to_string(),
        description: None,
        location: Some("Room 1".to_string()),
    };
    let (put, info) = plan_create_event(&args, "u-1", "20260101T000000Z").ok().unwrap();
    assert_eq!(put.url, "/cal/work/u-1.ics");
    assert_eq!(
        put.body,
        "BEGIN:VCALENDAR\r\nVERSION:2.0\r\nPRODID:-//caldav-mcp-rs//EN\r\nBEGIN:VEVENT\r\nUID:u-1\r\nDTSTART:20260301T100000Z\r\nDTEND:20260301\r\nSUMMARY:Talk\r\nLOCATION:Room 1\r\nDTSTAMP:20260101T000000Z\r\nLAST-MODIFIED:20260101T000000Z\r\nSEQUENCE:0\r\nEND:VEVENT\r\nEND:VCALENDAR"
    );
    assert_eq!(info.uid, "u-1");
    assert_eq!(info.start, "2026-03-01T10:00:00Z");
    assert_eq!(info.description, "");
    assert!(!info.all_day);
    let bad = CreateEventArgs { end: "soon".to_string(), ..args };
    assert_eq!(invalid_arg(plan_create_event(&bad, "u", "n").err().unwrap()), "invalid datetime: soon");
}

#[test]
fn create_event_with_fresh_uid() {
    let args = CreateEventArgs {
        calendar_url: "/c".to_string(),
        summary: "S".to_string(),
        start: "2026-03-01".to_string(),
        end: "2026-03-02".to_string(),
        description: None,
        location: None,
    };
    let (put, info) = prepare_create_event(&args).ok().unwrap();
    assert_eq!(info.uid.len(), 36);
    assert_eq!(put.url, format!("/c/{}.ics", info.uid));
    assert!(info.all_day);
}

#[test]
fn create_task_plan() {
    let args = CreateTaskArgs {
        calendar_url: "/cal".to_string(),
        summary: "Pay".to_string(),
        description: Some("rent".to_string()),
        due: Some("2026-04-01".to_string()),
        priority: None,
    };
    let (put, info) = plan_create_task(&args, "t", "N").ok().unwrap();
    assert_eq!(put.url, "/cal/t.ics");
    assert_eq!(
        put.body,
        "BEGIN:VCALENDAR\r\nVERSION:2.0\r\nPRODID:-//caldav-mcp-rs//EN\r\nBEGIN:VTODO\r\nUID:t\r\nSUMMARY:Pay\r\nDESCRIPTION:rent\r\nDUE:20260401\r\nSTATUS:NEEDS-ACTION\r\nPRIORITY:0\r\nDTSTAMP:N\r\nLAST-MODIFIED:N\r\nSEQUENCE:0\r\nEND:VTODO\r\nEND:VCALENDAR"
    );
    assert_eq!(info.due, "2026-04-01");
    assert_eq!(info.status, "NEEDS-ACTION");
    assert_eq!(info.priority, 0);
}

#[test]
fn create_contact_plan() {
    let args = CreateContactArgs {
        address_book_url: "/ab/".to_string(),
        full_name: "Ann".to_string(),
        email: Some("a@b.c".to_string()),
        phone: None,
        organization: None,
        notes: None,
    };
    let (put, info) = plan_create_contact(&args, "c", "R");
    assert_eq!(put.url, "/ab/c.vcf");
    assert_eq!(put.body, "BEGIN:VCARD\r\nVERSION:3.0\r\nUID:c\r\nFN:Ann\r\nEMAIL:a@b.c\r\nREV:R\r\nEND:VCARD");
    assert_eq!(info.email, "a@b.c");
    assert_eq!(info.phone, "");
}

const STORED_EVENT: &str = "BEGIN:VCALENDAR\r\nBEGIN:VEVENT\r\nUID:e\r\nSUMMARY:Old\r\nRRULE:FREQ=WEEKLY\r\nSEQUENCE:4\r\nDTSTART:20260301T100000Z\r\nEND:VEVENT\r\nEND:VCALENDAR";

#[test]
fn update_event_plan_keeps_untouched() {
    let args = UpdateEventArgs {
        event_url: "/e".to_string(),
        summary: Some("New".to_string()),
        start: None,
        end: Some("2026-03-01T12:00:00Z".to_string()),
        description: None,
        location: None,
    };
    let text = plan_update_event(STORED_EVENT, &args, "NOW").unwrap().ok().unwrap();
    let back = parse_ical_component(&text, "VEVENT");
    assert_eq!(get(&back, "SUMMARY").as_deref(), Some("New"));
    assert_eq!(get(&back, "RRULE").as_deref(), Some("FREQ=WEEKLY"));
    assert_eq!(get(&back, "DTSTART").as_deref(), Some("20260301T100000Z"));
    assert_eq!(get(&back, "DTEND").as_deref(), Some("20260301T120000Z"));
    assert_eq!(get(&back, "SEQUENCE").as_deref(), Some("5"));
    assert_eq!(get(&back, "DTSTAMP").as_deref(), Some("NOW"));
    assert_eq!(get(&back, "LAST-MODIFIED").as_deref(), Some("NOW"));
}

#[test]
fn update_event_plan_errors() {
    let args = UpdateEventArgs {
        event_url: "/e".to_string(),
        summary: None,
        start: Some("bad".to_string()),
        end: Some("worse".to_string()),
        description: None,
        location: None,
    };
    let e = plan_update_event(STORED_EVENT, &args, "NOW").unwrap().err().unwrap();
    assert_eq!(invalid_arg(e), "invalid datetime: bad");
    let at_max = "BEGIN:VEVENT\r\nSEQUENCE:4294967295\r\nEND:VEVENT";
    let quiet = UpdateEventArgs { start: None, end: None, ..args };
    assert!(plan_update_event(at_max, &quiet, "NOW").is_none());
    let garbage = "BEGIN:VEVENT\r\nSEQUENCE:x\r\nEND:VEVENT";
    let text = plan_update_event(garbage, &quiet, "NOW").unwrap().ok().unwrap();
    assert!(text.contains("\r\nSEQUENCE:1\r\n"));
}

#[test]
fn update_task_plan() {
    let stored = "BEGIN:VTODO\r\nUID:t\r\nSTATUS:NEEDS-ACTION\r\nX-A:b\r\nEND:VTODO";
    let args = UpdateTaskArgs {
        task_url: "/t".to_string(),
        summary: None,
        description: None,
        due: None,
        status: Some("completed".to_string()),
        priority: Some(9),
    };
    let text = plan_update_task(stored, &args, "N").unwrap().ok().unwrap();
    let back = parse_ical_component(&text, "VTODO");
    assert_eq!(get(&back, "STATUS").as_deref(), Some("COMPLETED"));
    assert_eq!(get(&back, "PRIORITY").as_deref(), Some("9"));
    assert_eq!(get(&back, "X-A").as_deref(), Some("b"));
    assert_eq!(get(&back, "SEQUENCE").as_deref(), Some("1"));
    let bad = UpdateTaskArgs { status: Some("done".to_string()), ..args };
    let e = plan_update_task(stored, &bad, "N").unwrap().err().unwrap();
    assert_eq!(invalid_arg(e), "invalid status: done");
}

#[test]
fn update_contact_plan() {
    let stored = "BEGIN:VCARD\r\nVERSION:3.0\r\nUID:c\r\nFN:Ann\r\nNICKNAME:A\r\nEND:VCARD";
    let args = UpdateContactArgs {
        contact_url: "/c".to_string(),
        full_name: None,
        email: Some("a@b.c".to_string()),
        phone: None,
        organization: None,
        notes: None,
    };
    assert_eq!(
        plan_update_contact(stored, &args, "R"),
        "BEGIN:VCARD\r\nVERSION:3.0\r\nNICKNAME:A\r\nUID:c\r\nFN:Ann\r\nEMAIL:a@b.c\r\nREV:R\r\nEND:VCARD"
    );
}

#[test]
fn update_contact_keeps_parameters_of_other_properties() {
    let stored = "BEGIN:VCARD\r\nVERSION:3.0\r\nUID:c\r\nFN:Jane Doe\r\nN:Doe;Jane;;;\r\nADR;TYPE=HOME:;;1 Main St;;;;\r\nEMAIL;TYPE=WORK:old@x.y\r\nEND:VCARD\r\n";
    let args = UpdateContactArgs {
        contact_url: "/c".to_string(),
        full_name: None,
        email: None,
        phone: Some("555".to_string()),
        organization: None,
        notes: None,
    };
    assert_eq!(
        plan_update_contact(stored, &args, "R"),
        "BEGIN:VCARD\r\nVERSION:3.0\r\nN:Doe;Jane;;;\r\nADR;TYPE=HOME:;;1 Main St;;;;\r\nUID:c\r\nFN:Jane Doe\r\nEMAIL:old@x.y\r\nTEL:555\r\nREV:R\r\nEND:VCARD"
    );
}

#[test]
fn update_event_keeps_nested_components_whole() {
    let stored = "BEGIN:VCALENDAR\r\nBEGIN:VEVENT\r\nUID:e\r\nSUMMARY:Old\r\nDTSTART;TZID=Europe/Berlin:20260301T100000\r\nRRULE:FREQ=WEEKLY\r\nBEGIN:VALARM\r\nACTION:DISPLAY\r\nTRIGGER:-PT15M\r\nEND:VALARM\r\nSEQUENCE:1\r\nEND:VEVENT\r\nEND:VCALENDAR\r\n";
    let args = UpdateEventArgs {
        event_url: "/e".to_string(),
        summary: Some("New".to_string()),
        start: None,
        end: None,
        description: None,
        location: None,
    };
    let text = plan_update_event(stored, &args, "NOW").unwrap().ok().unwrap();
    assert_eq!(
        text,
        "BEGIN:VCALENDAR\r\nVERSION:2.0\r\nPRODID:-//caldav-mcp-rs//EN\r\nBEGIN:VEVENT\r\nRRULE:FREQ=WEEKLY\r\nBEGIN:VALARM\r\nACTION:DISPLAY\r\nTRIGGER:-PT15M\r\nEND:VALARM\r\nUID:e\r\nDTSTART:20260301T100000\r\nSUMMARY:New\r\nDTSTAMP:NOW\r\nLAST-MODIFIED:NOW\r\nSEQUENCE:2\r\nEND:VEVENT\r\nEND:VCALENDAR"
    );
}

#[test]
fn update_event_value_wins_over_a_nested_one() {
    let stored = "BEGIN:VEVENT\r\nUID:e\r\nDESCRIPTION:old\r\nBEGIN:VALARM\r\nACTION:DISPLAY\r\nDESCRIPTION:Reminder\r\nEND:VALARM\r\nEND:VEVENT";
    let args = UpdateEventArgs {
        event_url: "/e".to_string(),
        summary: None,
        start: None,
        end: None,
        description: Some("new".to_string()),
        location: None,
    };
    let text = plan_update_event(stored, &args, "NOW").unwrap().ok().unwrap();
    let back = parse_ical_component(&text, "VEVENT");
    assert_eq!(get(&back, "DESCRIPTION").as_deref(), Some("new"));
    assert_eq!(get(&back, "ACTION").as_deref(), Some("DISPLAY"));
    assert!(text.contains("\r\nBEGIN:VALARM\r\nACTION:DISPLAY\r\nDESCRIPTION:Reminder\r\nEND:VALARM\r\n"));
}

fn looks_like_uuid_v4(s: &str) -> bool {
    let b = s.as_bytes();
    b.len() == 36
        && b.iter().enumerate().all(|(i, c)| {
            if i == 8 || i == 13 || i == 18 || i == 23 {
                *c == b'-'
            } else {
                c.is_ascii_digit() || (b'a'..=b'f').contains(c)
            }
        })
        && b[14] == b'4'
        && b"89ab".contains(&b[19])
}

#[test]
fn created_resources_get_a_version_4_uuid() {
    let args = CreateContactArgs {
        address_book_url: "/book/".to_string(),
        full_name: "Ann".to_string(),
        email: None,
        phone: None,
        organization: None,
        notes: None,
    };
    let (put, info) = prepare_create_contact(&args);
    assert!(looks_like_uuid_v4(&info.uid));
    assert_eq!(put.url, format!("/book/{}.vcf", info.uid));
    let back = contacts_from_multistatus(&report("address-data", &[("/x", put.body.as_str())]));
    assert_eq!(back.len(), 1);
    assert_eq!(back[0].uid, info.uid);
    assert_eq!(back[0].full_name, "Ann");
}

// --- text ---

#[test]
fn decimal_numbers() {
    assert_eq!(decimal_string(0), "0");
    assert_eq!(decimal_string(4294967295), "4294967295");
    assert_eq!(parse_u32("+17"), Some(17));
    assert_eq!(parse_u32("007"), Some(7));
    assert_eq!(parse_u32("-1"), None);
    assert_eq!(parse_u32(""), None);
    assert_eq!(parse_u32("+"), None);
    assert_eq!(parse_u32("4294967296"), None);
    assert_eq!(parse_u32(" 1"), None);
}

#[test]
fn trimming_unicode_white_space() {
    assert_eq!(trim_str("\u{3000}\t a b \u{a0}\r\n"), "a b");
    assert_eq!(trim_str("   "), "");
}

fn looks_like_utc_stamp(s: &str) -> bool {
    let b = s.as_bytes();
    b.len() == 16
        && b[15] == b'Z'
        && b[8] == b'T'
        && b.iter().enumerate().all(|(i, c)| i == 8 || i == 15 || c.is_ascii_digit())
}

#[test]
fn clock_stamps_have_the_icalendar_form() {
    assert!(looks_like_utc_stamp(&now_ical()));
    let (start, end) = default_event_window();
    assert!(looks_like_utc_stamp(&start));
    assert!(looks_like_utc_stamp(&end));
    let f = "%Y%m%dT%H%M%SZ";
    let a = chrono::NaiveDateTime::parse_from_str(&start, f).unwrap();
    let b = chrono::NaiveDateTime::parse_from_str(&end, f).unwrap();
    assert_eq!((b - a).num_seconds(), 30 * 86400);
}

#[test]
fn multistatus_read_from_tokens() {
    let t = |s: &str| s.to_string();
    let tokens = vec![
        XmlToken::Start(t("multistatus")),
        XmlToken::Text(Some(t("ignored"))),
        XmlToken::Start(t("response")),
        XmlToken::Start(t("href")),
        XmlToken::Text(Some(t(" /a/ "))),
        XmlToken::End(t("href")),
        XmlToken::Empty(t("calendar")),
        XmlToken::Start(t("displayname")),
        XmlToken::CData(t("Cal")),
        XmlToken::Text(None),
        XmlToken::End(t("displayname")),
        XmlToken::Other,
        XmlToken::End(t("response")),
        XmlToken::End(t("multistatus")),
    ];
    let r = multistatus_from_tokens(&tokens);
    assert_eq!(r.len(), 1);
    assert_eq!(r[0].0, "/a/");
    assert_eq!(r[0].1.len(), 3);
    assert_eq!(get(&r[0].1, "href").as_deref(), Some("/a/"));
    assert_eq!(get(&r[0].1, "__is_calendar__").as_deref(), Some("1"));
    assert_eq!(get(&r[0].1, "displayname").as_deref(), Some("Cal"));
}
