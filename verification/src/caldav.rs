//! What the CalDAV and CardDAV tools compute: the URLs and bodies of the
//! requests they send, and what they make of the responses.
use vstd::prelude::*;
use vstd::string::*;

use crate::datetime::{
    default_event_window, ical_dt_to_iso_checked, ical_of_iso, is_utc_stamp, iso_of_ical, iso_to_ical_dt,
    stamp_seconds,
};
use crate::error::CaldavError;
use crate::ical::{component_props, parse_ical_component};
use crate::models::{
    AddressBookInfo, AppState, CalendarInfo, CollectionModel, ContactInfo, ContactModel, EventInfo,
    EventModel, ListEventsArgs, TaskInfo, TaskModel,
};
use crate::props::{lookup, Props, PropsModel};
use crate::text::{
    chars_of, concat2, concat3, find, find_from_exec, has_char, lit, parse_unsigned, same_text,
    trim_end_char, trim_end_char_str,
};
use crate::xml::{addressbook_flag, calendar_flag, multistatus_of, parse_multistatus, responses_view, xml_items};

verus! {

broadcast use vstd::string::group_string_axioms;

// ---------------------------------------------------------------------------
// URLs
// ---------------------------------------------------------------------------

/// `<base URL without trailing '/'>/<collection>/<username>/`.
pub open spec fn home_url(state: AppState, collection: Seq<char>) -> Seq<char> {
    trim_end_char(state.caldav_base_url@, '/') + "/"@ + collection + "/"@ + state.username@ + "/"@
}

/// The URL of the user's calendar home collection.
pub fn calendar_home_url(state: &AppState) -> (r: String)
    ensures
        r@ == home_url(*state, "calendars"@),
{
    let mut r = trim_end_char_str(state.caldav_base_url.as_str(), '/');
    r.append("/");
    r.append("calendars");
    r.append("/");
    r.append(state.username.as_str());
    r.append("/");
    r
}

/// The URL of the user's address book home collection.
pub fn address_book_home_url(state: &AppState) -> (r: String)
    ensures
        r@ == home_url(*state, "addressbooks"@),
{
    let mut r = trim_end_char_str(state.caldav_base_url.as_str(), '/');
    r.append("/");
    r.append("addressbooks");
    r.append("/");
    r.append(state.username.as_str());
    r.append("/");
    r
}

/// The URL of a new resource `<uid><extension>` in a collection.
pub open spec fn member_url(collection: Seq<char>, uid: Seq<char>, extension: Seq<char>) -> Seq<
    char,
> {
    trim_end_char(collection, '/') + "/"@ + uid + extension
}

/// The URL of a new resource `<uid><extension>` in a collection (see
/// `member_url`).
pub fn member_url_exec(collection: &str, uid: &str, extension: &str) -> (r: String)
    ensures
        r@ == member_url(collection@, uid@, extension@),
{
    let mut r = trim_end_char_str(collection, '/');
    r.append("/");
    r.append(uid);
    r.append(extension);
    r
}

// ---------------------------------------------------------------------------
// Request bodies
// ---------------------------------------------------------------------------

/// The PROPFIND body that lists calendars.
pub const CALENDARS_PROPFIND: &'static str = "<?xml version=\"1.0\" encoding=\"utf-8\"?>
<d:propfind xmlns:d=\"DAV:\" xmlns:c=\"urn:ietf:params:xml:ns:caldav\">
  <d:prop>
    <d:displayname/>
    <d:resourcetype/>
    <c:calendar-description/>
  </d:prop>
</d:propfind>";

/// The REPORT body that lists tasks.
pub const TASKS_REPORT: &'static str = "<?xml version=\"1.0\" encoding=\"utf-8\"?>
<c:calendar-query xmlns:d=\"DAV:\" xmlns:c=\"urn:ietf:params:xml:ns:caldav\">
  <d:prop><d:getetag/><c:calendar-data/></d:prop>
  <c:filter>
    <c:comp-filter name=\"VCALENDAR\">
      <c:comp-filter name=\"VTODO\"/>
    </c:comp-filter>
  </c:filter>
</c:calendar-query>";

/// The PROPFIND body that lists address books.
pub const ADDRESS_BOOKS_PROPFIND: &'static str = "<?xml version=\"1.0\" encoding=\"utf-8\"?>
<d:propfind xmlns:d=\"DAV:\" xmlns:c=\"urn:ietf:params:xml:ns:carddav\">
  <d:prop><d:displayname/><d:resourcetype/><c:addressbook-description/></d:prop>
</d:propfind>";

/// The REPORT body that lists contacts.
pub const CONTACTS_REPORT: &'static str = "<?xml version=\"1.0\" encoding=\"utf-8\"?>
<c:addressbook-query xmlns:d=\"DAV:\" xmlns:c=\"urn:ietf:params:xml:ns:carddav\">
  <d:prop><d:getetag/><c:address-data/></d:prop>
</c:addressbook-query>";

/// The REPORT body that lists the events between `start` and `end`.
pub open spec fn events_report(start: Seq<char>, end: Seq<char>) -> Seq<char> {
    "<?xml version=\"1.0\" encoding=\"utf-8\"?>
<c:calendar-query xmlns:d=\"DAV:\" xmlns:c=\"urn:ietf:params:xml:ns:caldav\">
  <d:prop><d:getetag/><c:calendar-data/></d:prop>
  <c:filter>
    <c:comp-filter name=\"VCALENDAR\">
      <c:comp-filter name=\"VEVENT\">
        <c:time-range start=\""@ + start + "\" end=\""@ + end + "\"/>
      </c:comp-filter>
    </c:comp-filter>
  </c:filter>
</c:calendar-query>"@
}

/// The REPORT body that asks for the events between `start` and `end`.
pub fn events_report_body(start: &str, end: &str) -> (r: String)
    ensures
        r@ == events_report(start@, end@),
{
    let mut r = lit(
        "<?xml version=\"1.0\" encoding=\"utf-8\"?>
<c:calendar-query xmlns:d=\"DAV:\" xmlns:c=\"urn:ietf:params:xml:ns:caldav\">
  <d:prop><d:getetag/><c:calendar-data/></d:prop>
  <c:filter>
    <c:comp-filter name=\"VCALENDAR\">
      <c:comp-filter name=\"VEVENT\">
        <c:time-range start=\"",
    );
    r.append(start);
    r.append("\" end=\"");
    r.append(end);
    r.append(
        "\"/>
      </c:comp-filter>
    </c:comp-filter>
  </c:filter>
</c:calendar-query>",
    );
    r
}

// ---------------------------------------------------------------------------
// Listing collections
// ---------------------------------------------------------------------------

/// The value stored under `k`, or the empty text.
pub open spec fn text_or_empty(m: PropsModel, k: Seq<char>) -> Seq<char> {
    match lookup(m, k) {
        Some(v) => v,
        None => Seq::empty(),
    }
}

/// The responses flagged with `flag`, as collections whose name and
/// description are the properties `displayname` and `description`.
pub open spec fn collections_of(
    rs: Seq<(Seq<char>, PropsModel)>,
    flag: Seq<char>,
    description: Seq<char>,
) -> Seq<CollectionModel>
    decreases rs.len(),
{
    if rs.len() == 0 {
        Seq::empty()
    } else {
        let rest = collections_of(rs.drop_last(), flag, description);
        let (href, m) = rs.last();
        if lookup(m, flag) is Some {
            rest.push(
                CollectionModel {
                    url: href,
                    name: text_or_empty(m, "displayname"@),
                    description: text_or_empty(m, description),
                },
            )
        } else {
            rest
        }
    }
}

/// The models of a list of calendars.
pub open spec fn calendar_views(v: Seq<CalendarInfo>) -> Seq<CollectionModel> {
    v.map_values(|c: CalendarInfo| c@)
}

/// The models of a list of address books.
pub open spec fn address_book_views(v: Seq<AddressBookInfo>) -> Seq<CollectionModel> {
    v.map_values(|c: AddressBookInfo| c@)
}

/// The value stored under `key`, or an empty string.
fn get_or_empty(p: &Props, key: &str) -> (r: String)
    ensures
        r@ == text_or_empty(p@, key@),
{
    match p.get(key) {
        Some(v) => v.clone(),
        None => String::new(),
    }
}

/// The calendars among the responses to a PROPFIND of the calendar home:
/// those flagged as calendars, named by `displayname` and described by
/// `calendar-description`.
pub fn calendars_from_responses(responses: &Vec<(String, Props)>) -> (r: Vec<CalendarInfo>)
    ensures
        calendar_views(r@) == collections_of(
            responses_view(responses@),
            calendar_flag(),
            "calendar-description"@,
        ),
{
    let ghost rs = responses_view(responses@);
    let mut r: Vec<CalendarInfo> = Vec::new();
    let mut i: usize = 0;
    while i < responses.len()
        invariant
            i <= responses@.len(),
            rs == responses_view(responses@),
            calendar_views(r@) == collections_of(
                rs.take(i as int),
                calendar_flag(),
                "calendar-description"@,
            ),
        decreases responses@.len() - i,
    {
        assert(rs.take(i + 1).drop_last() =~= rs.take(i as int));
        let href = &responses[i].0;
        let props = &responses[i].1;
        if props.contains_key("__is_calendar__") {
            let ghost before = r@;
            let c = CalendarInfo {
                url: href.clone(),
                name: get_or_empty(props, "displayname"),
                description: get_or_empty(props, "calendar-description"),
            };
            r.push(c);
            assert(calendar_views(r@) =~= calendar_views(before).push(c@));
        }
        i = i + 1;
    }
    assert(rs.take(responses@.len() as int) =~= rs);
    r
}

/// The calendars listed in a multistatus response (see
/// `calendars_from_responses`).
pub fn calendars_from_multistatus(xml: &str) -> (r: Vec<CalendarInfo>)
    ensures
        calendar_views(r@) == collections_of(
            multistatus_of(xml_items(xml@)),
            calendar_flag(),
            "calendar-description"@,
        ),
{
    calendars_from_responses(&parse_multistatus(xml))
}

/// The address books among the responses to a PROPFIND of the address book
/// home: those flagged as address books, named by `displayname` and
/// described by `addressbook-description`.
pub fn address_books_from_responses(responses: &Vec<(String, Props)>) -> (r: Vec<AddressBookInfo>)
    ensures
        address_book_views(r@) == collections_of(
            responses_view(responses@),
            addressbook_flag(),
            "addressbook-description"@,
        ),
{
    let ghost rs = responses_view(responses@);
    let mut r: Vec<AddressBookInfo> = Vec::new();
    let mut i: usize = 0;
    while i < responses.len()
        invariant
            i <= responses@.len(),
            rs == responses_view(responses@),
            address_book_views(r@) == collections_of(
                rs.take(i as int),
                addressbook_flag(),
                "addressbook-description"@,
            ),
        decreases responses@.len() - i,
    {
        assert(rs.take(i + 1).drop_last() =~= rs.take(i as int));
        let href = &responses[i].0;
        let props = &responses[i].1;
        if props.contains_key("__is_addressbook__") {
            let ghost before = r@;
            let c = AddressBookInfo {
                url: href.clone(),
                name: get_or_empty(props, "displayname"),
                description: get_or_empty(props, "addressbook-description"),
            };
            r.push(c);
            assert(address_book_views(r@) =~= address_book_views(before).push(c@));
        }
        i = i + 1;
    }
    assert(rs.take(responses@.len() as int) =~= rs);
    r
}

/// The address books listed in a multistatus response (see
/// `address_books_from_responses`).
pub fn address_books_from_multistatus(xml: &str) -> (r: Vec<AddressBookInfo>)
    ensures
        address_book_views(r@) == collections_of(
            multistatus_of(xml_items(xml@)),
            addressbook_flag(),
            "addressbook-description"@,
        ),
{
    address_books_from_responses(&parse_multistatus(xml))
}

// ---------------------------------------------------------------------------
// Listing events, tasks and contacts
// ---------------------------------------------------------------------------

/// Whether a calendar or address data text holds a `component`.
pub open spec fn holds_component(data: Seq<char>, component: Seq<char>) -> bool {
    find(data, "BEGIN:"@ + component) is Some
}

/// Whether `data` holds the text `pat`.
fn contains_text(data: &str, pat: &str) -> (b: bool)
    ensures
        b == (find(data@, pat@) is Some),
{
    let v = chars_of(data);
    let p = chars_of(pat);
    find_from_exec(&v, &p, 0).is_some()
}

/// The event that a response with calendar data `data` describes: its
/// properties `UID`, `SUMMARY`, `DESCRIPTION`, `LOCATION`, its `DTSTART` and
/// `DTEND` in ISO 8601, and whether it is all-day (its `DTSTART` holds no
/// `T`).
pub open spec fn event_of(href: Seq<char>, data: Seq<char>) -> EventModel {
    let p = component_props(data, "VEVENT"@);
    let dtstart = text_or_empty(p, "DTSTART"@);
    EventModel {
        uid: text_or_empty(p, "UID"@),
        url: href,
        summary: text_or_empty(p, "SUMMARY"@),
        description: text_or_empty(p, "DESCRIPTION"@),
        start: iso_of_ical(dtstart)->0,
        end: iso_of_ical(text_or_empty(p, "DTEND"@))->0,
        location: text_or_empty(p, "LOCATION"@),
        all_day: !has_char(dtstart, 'T'),
    }
}

/// Whether the start and end of the event in `data` can be converted to ISO
/// 8601 (where they cannot, listing events panics).
pub open spec fn event_convertible(data: Seq<char>) -> bool {
    let p = component_props(data, "VEVENT"@);
    iso_of_ical(text_or_empty(p, "DTSTART"@)) is Some && iso_of_ical(text_or_empty(p, "DTEND"@)) is Some
}

/// The events that the responses of a calendar query describe, in order:
/// one for each response whose `calendar-data` holds a `VEVENT`.  Nothing,
/// where the date of one of them cannot be converted.
pub open spec fn events_of(rs: Seq<(Seq<char>, PropsModel)>) -> Option<Seq<EventModel>>
    decreases rs.len(),
{
    if rs.len() == 0 {
        Some(Seq::empty())
    } else {
        match events_of(rs.drop_last()) {
            None => None,
            Some(rest) => {
                let (href, m) = rs.last();
                match lookup(m, "calendar-data"@) {
                    Some(data) => if holds_component(data, "VEVENT"@) {
                        if event_convertible(data) {
                            Some(rest.push(event_of(href, data)))
                        } else {
                            None
                        }
                    } else {
                        Some(rest)
                    },
                    None => Some(rest),
                }
            },
        }
    }
}

/// Where the events of a prefix of the responses cannot all be converted,
/// neither can those of all of them.
pub proof fn lemma_events_none_extends(rs: Seq<(Seq<char>, PropsModel)>, j: int)
    requires
        0 <= j <= rs.len(),
        events_of(rs.take(j)) is None,
    ensures
        events_of(rs) is None,
    decreases rs.len() - j,
{
    if j < rs.len() {
        assert(rs.take(j + 1).drop_last() =~= rs.take(j));
        lemma_events_none_extends(rs, j + 1);
    } else {
        assert(rs.take(j) =~= rs);
    }
}

/// The models of a list of events.
pub open spec fn event_views(v: Seq<EventInfo>) -> Seq<EventModel> {
    v.map_values(|e: EventInfo| e@)
}

/// The event in calendar data, or nothing where its dates cannot be
/// converted.
fn event_from_data(href: &String, data: &String) -> (r: Option<EventInfo>)
    ensures
        match r {
            Some(e) => event_convertible(data@) && e@ == event_of(href@, data@),
            None => !event_convertible(data@),
        },
{
    let p = parse_ical_component(data.as_str(), "VEVENT");
    let dtstart = get_or_empty(&p, "DTSTART");
    let dtend = get_or_empty(&p, "DTEND");
    let start = match ical_dt_to_iso_checked(dtstart.as_str()) {
        Some(s) => s,
        None => {
            return None;
        },
    };
    let end = match ical_dt_to_iso_checked(dtend.as_str()) {
        Some(s) => s,
        None => {
            return None;
        },
    };
    let all_day = !has_char_in(dtstart.as_str(), 'T');
    Some(
        EventInfo {
            uid: get_or_empty(&p, "UID"),
            url: href.clone(),
            summary: get_or_empty(&p, "SUMMARY"),
            description: get_or_empty(&p, "DESCRIPTION"),
            start,
            end,
            location: get_or_empty(&p, "LOCATION"),
            all_day,
        },
    )
}

/// Whether the character `c` occurs in `s` (`str::contains`).
pub fn has_char_in(s: &str, c: char) -> (b: bool)
    ensures
        b == has_char(s@, c),
{
    let v = chars_of(s);
    let mut i: usize = 0;
    while i < v.len()
        invariant
            i <= v@.len(),
            v@ == s@,
            forall|j: int| 0 <= j < i ==> v@[j] != c,
        decreases v@.len() - i,
    {
        if v[i] == c {
            return true;
        }
        i = i + 1;
    }
    false
}

/// The events described by the responses of a calendar query (see
/// `events_of`), or nothing where the start or end of one of them cannot be
/// converted to ISO 8601.
pub fn events_from_responses(responses: &Vec<(String, Props)>) -> (r: Option<Vec<EventInfo>>)
    ensures
        match r {
            Some(v) => events_of(responses_view(responses@)) == Some(event_views(v@)),
            None => events_of(responses_view(responses@)) is None,
        },
{
    let ghost rs = responses_view(responses@);
    let mut r: Vec<EventInfo> = Vec::new();
    let mut i: usize = 0;
    proof {
        reveal_strlit("BEGIN:VEVENT");
        reveal_strlit("BEGIN:");
        reveal_strlit("VEVENT");
    }
    assert("BEGIN:"@ + "VEVENT"@ =~= "BEGIN:VEVENT"@);
    while i < responses.len()
        invariant
            i <= responses@.len(),
            rs == responses_view(responses@),
            "BEGIN:"@ + "VEVENT"@ == "BEGIN:VEVENT"@,
            events_of(rs.take(i as int)) == Some(event_views(r@)),
        decreases responses@.len() - i,
    {
        assert(rs.take(i + 1).drop_last() =~= rs.take(i as int));
        let href = &responses[i].0;
        let props = &responses[i].1;
        match props.get("calendar-data") {
            Some(data) => {
                if contains_text(data.as_str(), "BEGIN:VEVENT") {
                    match event_from_data(href, data) {
                        Some(e) => {
                            let ghost before = r@;
                            r.push(e);
                            assert(event_views(r@) =~= event_views(before).push(e@));
                        },
                        None => {
                            proof {
                                lemma_events_none_extends(rs, i + 1);
                            }
                            return None;
                        },
                    }
                }
            },
            None => {},
        }
        i = i + 1;
    }
    assert(rs.take(responses@.len() as int) =~= rs);
    Some(r)
}

/// The events listed in a multistatus response (see
/// `events_from_responses`).
pub fn events_from_multistatus(xml: &str) -> (r: Option<Vec<EventInfo>>)
    ensures
        match r {
            Some(v) => events_of(multistatus_of(xml_items(xml@))) == Some(event_views(v@)),
            None => events_of(multistatus_of(xml_items(xml@))) is None,
        },
{
    events_from_responses(&parse_multistatus(xml))
}

/// The status of a task: its `STATUS`, or `NEEDS-ACTION` where it has none.
pub open spec fn task_status(p: PropsModel) -> Seq<char> {
    match lookup(p, "STATUS"@) {
        Some(s) => s,
        None => "NEEDS-ACTION"@,
    }
}

/// The priority of a task: its `PRIORITY` read as a `u8`, or 0 where it has
/// none or it is not a number from 0 to 255.
pub open spec fn task_priority(p: PropsModel) -> u8 {
    match lookup(p, "PRIORITY"@) {
        Some(s) => match parse_unsigned(s, 255) {
            Some(n) => n as u8,
            None => 0,
        },
        None => 0,
    }
}

/// The task that calendar data `data` describes.
pub open spec fn task_of(href: Seq<char>, data: Seq<char>) -> TaskModel {
    let p = component_props(data, "VTODO"@);
    TaskModel {
        uid: text_or_empty(p, "UID"@),
        url: href,
        summary: text_or_empty(p, "SUMMARY"@),
        description: text_or_empty(p, "DESCRIPTION"@),
        due: match lookup(p, "DUE"@) {
            Some(d) => iso_of_ical(d)->0,
            None => Seq::empty(),
        },
        status: task_status(p),
        priority: task_priority(p),
    }
}

/// Whether a task is left out of the list: it is completed and completed
/// tasks are not asked for.
pub open spec fn task_hidden(data: Seq<char>, include_completed: bool) -> bool {
    !include_completed && task_status(component_props(data, "VTODO"@)) == "COMPLETED"@
}

/// Whether the due date of the task in `data`, where it has one, can be
/// converted to ISO 8601 (where it cannot, listing tasks panics).
pub open spec fn task_convertible(data: Seq<char>) -> bool {
    match lookup(component_props(data, "VTODO"@), "DUE"@) {
        Some(d) => iso_of_ical(d) is Some,
        None => true,
    }
}

/// The tasks that the responses of a calendar query describe, in order:
/// one for each response whose `calendar-data` holds a `VTODO`, completed
/// ones left out unless `include_completed`.  Nothing, where the due date of
/// a listed task cannot be converted.
pub open spec fn tasks_of(rs: Seq<(Seq<char>, PropsModel)>, include_completed: bool) -> Option<
    Seq<TaskModel>,
>
    decreases rs.len(),
{
    if rs.len() == 0 {
        Some(Seq::empty())
    } else {
        match tasks_of(rs.drop_last(), include_completed) {
            None => None,
            Some(rest) => {
                let (href, m) = rs.last();
                match lookup(m, "calendar-data"@) {
                    Some(data) => if holds_component(data, "VTODO"@) && !task_hidden(
                        data,
                        include_completed,
                    ) {
                        if task_convertible(data) {
                            Some(rest.push(task_of(href, data)))
                        } else {
                            None
                        }
                    } else {
                        Some(rest)
                    },
                    None => Some(rest),
                }
            },
        }
    }
}

/// Where the tasks of a prefix of the responses cannot all be converted,
/// neither can those of all of them.
pub proof fn lemma_tasks_none_extends(rs: Seq<(Seq<char>, PropsModel)>, inc: bool, j: int)
    requires
        0 <= j <= rs.len(),
        tasks_of(rs.take(j), inc) is None,
    ensures
        tasks_of(rs, inc) is None,
    decreases rs.len() - j,
{
    if j < rs.len() {
        assert(rs.take(j + 1).drop_last() =~= rs.take(j));
        lemma_tasks_none_extends(rs, inc, j + 1);
    } else {
        assert(rs.take(j) =~= rs);
    }
}

/// The models of a list of tasks.
pub open spec fn task_views(v: Seq<TaskInfo>) -> Seq<TaskModel> {
    v.map_values(|e: TaskInfo| e@)
}

/// `str::parse::<u8>`, returning `None` where it returns an error.
pub fn parse_u8(s: &str) -> (r: Option<u8>)
    ensures
        r matches Some(n) ==> parse_unsigned(s@, 255) == Some(n as nat),
        r is None ==> parse_unsigned(s@, 255) is None,
{
    match crate::text::parse_u32(s) {
        Some(n) => {
            if n <= 255 {
                Some(n as u8)
            } else {
                None
            }
        },
        None => None,
    }
}

/// The task in calendar data, or nothing where it is hidden; `Err(())`
/// where its due date cannot be converted.
fn task_from_data(href: &String, data: &String, include_completed: bool) -> (r: Result<
    Option<TaskInfo>,
    (),
>)
    ensures
        match r {
            Ok(Some(t)) => !task_hidden(data@, include_completed) && task_convertible(data@)
                && t@ == task_of(href@, data@),
            Ok(None) => task_hidden(data@, include_completed),
            Err(()) => !task_hidden(data@, include_completed) && !task_convertible(data@),
        },
{
    let p = parse_ical_component(data.as_str(), "VTODO");
    let status = match p.get("STATUS") {
        Some(s) => s.clone(),
        None => lit("NEEDS-ACTION"),
    };
    if !include_completed && same_text(status.as_str(), "COMPLETED") {
        return Ok(None);
    }
    let priority = match p.get("PRIORITY") {
        Some(s) => match parse_u8(s.as_str()) {
            Some(n) => n,
            None => 0,
        },
        None => 0,
    };
    let due = match p.get("DUE") {
        Some(d) => match ical_dt_to_iso_checked(d.as_str()) {
            Some(x) => x,
            None => {
                return Err(());
            },
        },
        None => String::new(),
    };
    Ok(
        Some(
            TaskInfo {
                uid: get_or_empty(&p, "UID"),
                url: href.clone(),
                summary: get_or_empty(&p, "SUMMARY"),
                description: get_or_empty(&p, "DESCRIPTION"),
                due,
                status,
                priority,
            },
        ),
    )
}

/// The tasks described by the responses of a calendar query (see
/// `tasks_of`), or nothing where the due date of a listed task cannot be
/// converted to ISO 8601.
pub fn tasks_from_responses(responses: &Vec<(String, Props)>, include_completed: bool) -> (r:
    Option<Vec<TaskInfo>>)
    ensures
        match r {
            Some(v) => tasks_of(responses_view(responses@), include_completed) == Some(
                task_views(v@),
            ),
            None => tasks_of(responses_view(responses@), include_completed) is None,
        },
{
    let ghost rs = responses_view(responses@);
    let mut r: Vec<TaskInfo> = Vec::new();
    let mut i: usize = 0;
    proof {
        reveal_strlit("BEGIN:VTODO");
        reveal_strlit("BEGIN:");
        reveal_strlit("VTODO");
    }
    assert("BEGIN:"@ + "VTODO"@ =~= "BEGIN:VTODO"@);
    while i < responses.len()
        invariant
            i <= responses@.len(),
            rs == responses_view(responses@),
            "BEGIN:"@ + "VTODO"@ == "BEGIN:VTODO"@,
            tasks_of(rs.take(i as int), include_completed) == Some(task_views(r@)),
        decreases responses@.len() - i,
    {
        assert(rs.take(i + 1).drop_last() =~= rs.take(i as int));
        let href = &responses[i].0;
        let props = &responses[i].1;
        match props.get("calendar-data") {
            Some(data) => {
                if contains_text(data.as_str(), "BEGIN:VTODO") {
                    match task_from_data(href, data, include_completed) {
                        Ok(Some(t)) => {
                            let ghost before = r@;
                            r.push(t);
                            assert(task_views(r@) =~= task_views(before).push(t@));
                        },
                        Ok(None) => {},
                        Err(()) => {
                            proof {
                                lemma_tasks_none_extends(rs, include_completed, i + 1);
                            }
                            return None;
                        },
                    }
                }
            },
            None => {},
        }
        i = i + 1;
    }
    assert(rs.take(responses@.len() as int) =~= rs);
    Some(r)
}

/// The tasks listed in a multistatus response (see `tasks_from_responses`).
pub fn tasks_from_multistatus(xml: &str, include_completed: bool) -> (r: Option<Vec<TaskInfo>>)
    ensures
        match r {
            Some(v) => tasks_of(multistatus_of(xml_items(xml@)), include_completed) == Some(
                task_views(v@),
            ),
            None => tasks_of(multistatus_of(xml_items(xml@)), include_completed) is None,
        },
{
    tasks_from_responses(&parse_multistatus(xml), include_completed)
}

/// The contact that address data `data` describes: its `UID`, `FN`,
/// `EMAIL`, `TEL`, `ORG` and `NOTE`.
pub open spec fn contact_of(href: Seq<char>, data: Seq<char>) -> ContactModel {
    let p = component_props(data, "VCARD"@);
    ContactModel {
        uid: text_or_empty(p, "UID"@),
        url: href,
        full_name: text_or_empty(p, "FN"@),
        email: text_or_empty(p, "EMAIL"@),
        phone: text_or_empty(p, "TEL"@),
        organization: text_or_empty(p, "ORG"@),
        notes: text_or_empty(p, "NOTE"@),
    }
}

/// The contacts that the responses of an address book query describe, in
/// order: one for each response whose `address-data` holds a `VCARD`.
pub open spec fn contacts_of(rs: Seq<(Seq<char>, PropsModel)>) -> Seq<ContactModel>
    decreases rs.len(),
{
    if rs.len() == 0 {
        Seq::empty()
    } else {
        let rest = contacts_of(rs.drop_last());
        let (href, m) = rs.last();
        match lookup(m, "address-data"@) {
            Some(data) => if holds_component(data, "VCARD"@) {
                rest.push(contact_of(href, data))
            } else {
                rest
            },
            None => rest,
        }
    }
}

/// The models of a list of contacts.
pub open spec fn contact_views(v: Seq<ContactInfo>) -> Seq<ContactModel> {
    v.map_values(|e: ContactInfo| e@)
}

/// The contacts described by the responses of an address book query (see
/// `contacts_of`).
pub fn contacts_from_responses(responses: &Vec<(String, Props)>) -> (r: Vec<ContactInfo>)
    ensures
        contact_views(r@) == contacts_of(responses_view(responses@)),
{
    let ghost rs = responses_view(responses@);
    let mut r: Vec<ContactInfo> = Vec::new();
    let mut i: usize = 0;
    proof {
        reveal_strlit("BEGIN:VCARD");
        reveal_strlit("BEGIN:");
        reveal_strlit("VCARD");
    }
    assert("BEGIN:"@ + "VCARD"@ =~= "BEGIN:VCARD"@);
    while i < responses.len()
        invariant
            i <= responses@.len(),
            rs == responses_view(responses@),
            "BEGIN:"@ + "VCARD"@ == "BEGIN:VCARD"@,
            contact_views(r@) == contacts_of(rs.take(i as int)),
        decreases responses@.len() - i,
    {
        assert(rs.take(i + 1).drop_last() =~= rs.take(i as int));
        let href = &responses[i].0;
        let props = &responses[i].1;
        match props.get("address-data") {
            Some(data) => {
                if contains_text(data.as_str(), "BEGIN:VCARD") {
                    let p = parse_ical_component(data.as_str(), "VCARD");
                    let c = ContactInfo {
                        uid: get_or_empty(&p, "UID"),
                        url: href.clone(),
                        full_name: get_or_empty(&p, "FN"),
                        email: get_or_empty(&p, "EMAIL"),
                        phone: get_or_empty(&p, "TEL"),
                        organization: get_or_empty(&p, "ORG"),
                        notes: get_or_empty(&p, "NOTE"),
                    };
                    let ghost before = r@;
                    r.push(c);
                    assert(contact_views(r@) =~= contact_views(before).push(c@));
                }
            },
            None => {},
        }
        i = i + 1;
    }
    assert(rs.take(responses@.len() as int) =~= rs);
    r
}

/// The contacts listed in a multistatus response (see
/// `contacts_from_responses`).
pub fn contacts_from_multistatus(xml: &str) -> (r: Vec<ContactInfo>)
    ensures
        contact_views(r@) == contacts_of(multistatus_of(xml_items(xml@))),
{
    contacts_from_responses(&parse_multistatus(xml))
}

// ---------------------------------------------------------------------------
// The event query
// ---------------------------------------------------------------------------

/// The time range of an event query: the given start and end in iCalendar
/// form, `default_start` and `default_end` where they are not given; the
/// error text of the start, or else of the end, where it cannot be
/// converted.
pub open spec fn event_range(
    args: ListEventsArgs,
    default_start: Seq<char>,
    default_end: Seq<char>,
) -> Result<(Seq<char>, Seq<char>), Seq<char>> {
    let start: Result<Seq<char>, Seq<char>> = match args.start {
        None => Ok(default_start),
        Some(s) => match ical_of_iso(s@) {
            Ok((t, _)) => Ok(t),
            Err(e) => Err(e),
        },
    };
    match start {
        Err(e) => Err(e),
        Ok(start) => match args.end {
            None => Ok((start, default_end)),
            Some(s) => match ical_of_iso(s@) {
                Ok((t, _)) => Ok((start, t)),
                Err(e) => Err(e),
            },
        },
    }
}

/// What listing events gives with the range defaults given: the REPORT body
/// for the range, or the error of a date that cannot be converted.
pub open spec fn list_events_outcome(
    args: ListEventsArgs,
    default_start: Seq<char>,
    default_end: Seq<char>,
    r: Result<String, CaldavError>,
) -> bool {
    match (r, event_range(args, default_start, default_end)) {
        (Ok(body), Ok((start, end))) => body@ == events_report(start, end),
        (Err(e), Err(msg)) => e.invalid_arg_text() == Some(msg),
        _ => false,
    }
}

/// The iCalendar form of an optional date, or `default`.
fn time_or(o: &Option<String>, default: &str) -> (r: Result<String, CaldavError>)
    ensures
        match (r, o) {
            (Ok(t), None) => t@ == default@,
            (Ok(t), Some(s)) => ical_of_iso(s@) matches Ok((u, _)) && t@ == u,
            (Err(e), Some(s)) => ical_of_iso(s@) matches Err(msg) && e.invalid_arg_text() == Some(msg),
            (Err(_), None) => false,
        },
{
    match o {
        None => Ok(lit(default)),
        Some(s) => match iso_to_ical_dt(s.as_str()) {
            Ok((t, _)) => Ok(t),
            Err(e) => Err(e),
        },
    }
}

/// The REPORT body that lists the events of `args`, with the range defaults
/// given (see `event_range`).
pub fn plan_list_events(args: &ListEventsArgs, default_start: &str, default_end: &str) -> (r: Result<
    String,
    CaldavError,
>)
    ensures
        list_events_outcome(*args, default_start@, default_end@, r),
{
    let start = match time_or(&args.start, default_start) {
        Ok(t) => t,
        Err(e) => {
            return Err(e);
        },
    };
    let end = match time_or(&args.end, default_end) {
        Ok(t) => t,
        Err(e) => {
            return Err(e);
        },
    };
    Ok(events_report_body(start.as_str(), end.as_str()))
}

/// The REPORT body that lists the events of `args`, by default from now to
/// thirty days later.
pub fn prepare_list_events(args: &ListEventsArgs) -> (r: Result<String, CaldavError>)
    ensures
        exists|default_start: Seq<char>, default_end: Seq<char>|
            is_utc_stamp(default_start) && is_utc_stamp(default_end) && stamp_seconds(default_end)
                == stamp_seconds(default_start) + 30 * 86400 && list_events_outcome(
                *args,
                default_start,
                default_end,
                r,
            ),
{
    let (default_start, default_end) = default_event_window();
    let r = plan_list_events(args, default_start.as_str(), default_end.as_str());
    assert(list_events_outcome(*args, default_start@, default_end@, r));
    r
}

} // verus!
