//! What the tools that create or update a resource write: for a new event,
//! task or contact, its URL, its text and what is reported back; for an
//! update, the new text made from the stored one.  The unique identifier
//! and the time are taken as arguments; `prepare_*` functions draw them.
use vstd::prelude::*;
use vstd::string::*;

use crate::caldav::{member_url, member_url_exec};
use crate::datetime::{ical_of_iso, is_utc_stamp, iso_to_ical_dt, now_ical};
use crate::error::CaldavError;
use crate::ical::{
    build_event_ical, build_event_ical_keeping, build_task_ical, build_task_ical_keeping, build_vcard,
    build_vcard_keeping, component_props, event_kept_lines, event_keys, event_text, kept_lines,
    parse_ical_component, task_kept_lines, task_keys, task_text, vcard_kept_lines, vcard_text,
    vcard_written,
};
use crate::models::{
    opt_text, ContactInfo, ContactModel, CreateContactArgs, CreateEventArgs, CreateTaskArgs,
    EventInfo, EventModel, TaskInfo, TaskModel, UpdateContactArgs, UpdateEventArgs, UpdateTaskArgs,
};
use crate::props::{insert, lookup, Props, PropsModel};
use crate::text::{concat2, decimal, decimal_string, lit, parse_u32, parse_unsigned, to_uppercase, upper_of};

verus! {

broadcast use vstd::string::group_string_axioms;

/// A resource to store with an HTTP PUT.
pub struct ResourcePut {
    pub url: String,
    pub body: String,
}

/// A lowercase hexadecimal digit.
pub open spec fn is_lower_hex(c: char) -> bool {
    ('0' <= c && c <= '9') || ('a' <= c && c <= 'f')
}

/// Whether `s` is a version 4 UUID as `uuid` writes it: 36 characters,
/// hyphens at 8, 13, 18 and 23, lowercase hexadecimal digits elsewhere, the
/// version `4` at 14 and one of `8`, `9`, `a`, `b` (the RFC 4122 variant) at
/// 19.
pub open spec fn is_uuid_v4(s: Seq<char>) -> bool {
    &&& s.len() == 36
    &&& forall|j: int|
        0 <= j < 36 ==> if j == 8 || j == 13 || j == 18 || j == 23 {
            #[trigger] s[j] == '-'
        } else {
            is_lower_hex(s[j])
        }
    &&& s[14] == '4'
    &&& (s[19] == '8' || s[19] == '9' || s[19] == 'a' || s[19] == 'b')
}

/// A new unique identifier (`uuid::Uuid::new_v4`, written by `to_string`).
/// The identifier is random; claimed is its form: `new_v4` sets the version
/// and variant bits and `Display` writes the hyphenated lowercase form.
#[verifier::external_body]
fn new_uid() -> (r: String)
    ensures
        is_uuid_v4(r@),
{
    uuid::Uuid::new_v4().to_string()
}

/// The text of an optional string, or an empty string.
fn text_of(o: &Option<String>) -> (r: String)
    ensures
        r@ == opt_text(*o),
{
    match o {
        Some(s) => s.clone(),
        None => String::new(),
    }
}

/// `m` with `o` stored under `k` where `o` is given.
pub open spec fn put_opt(m: PropsModel, k: Seq<char>, o: Option<String>) -> PropsModel {
    match o {
        Some(s) => insert(m, k, s@),
        None => m,
    }
}

fn put_opt_exec(p: &mut Props, k: &str, o: &Option<String>)
    ensures
        final(p)@ == put_opt(old(p)@, k@, *o),
{
    match o {
        Some(s) => p.insert(lit(k), s.clone()),
        None => {},
    }
}

/// `m` with the iCalendar form of `o` stored under `k` where `o` is given;
/// the error text where it cannot be converted.
pub open spec fn put_time(m: PropsModel, k: Seq<char>, o: Option<String>) -> Result<
    PropsModel,
    Seq<char>,
> {
    match o {
        None => Ok(m),
        Some(s) => match ical_of_iso(s@) {
            Ok((d, _)) => Ok(insert(m, k, d)),
            Err(e) => Err(e),
        },
    }
}

fn put_time_exec(p: &mut Props, k: &str, o: &Option<String>) -> (r: Result<(), CaldavError>)
    ensures
        match (r, put_time(old(p)@, k@, *o)) {
            (Ok(()), Ok(m)) => final(p)@ == m,
            (Err(e), Err(msg)) => e.invalid_arg_text() == Some(msg),
            _ => false,
        },
{
    match o {
        None => Ok(()),
        Some(s) => match iso_to_ical_dt(s.as_str()) {
            Ok((d, _)) => {
                p.insert(lit(k), d);
                Ok(())
            },
            Err(e) => Err(e),
        },
    }
}

/// The sequence number stored in `m`: its `SEQUENCE` read as a `u32`, or 0.
pub open spec fn sequence_of(m: PropsModel) -> nat {
    match lookup(m, "SEQUENCE"@) {
        Some(s) => match parse_unsigned(s, u32::MAX as nat) {
            Some(n) => n,
            None => 0,
        },
        None => 0,
    }
}

/// `m` marked as modified at `now` (`LAST-MODIFIED` and `DTSTAMP`), with its
/// sequence number one higher; nothing where the sequence number is already
/// the largest `u32` (adding one overflows there).
pub open spec fn stamped(m: PropsModel, now: Seq<char>) -> Option<PropsModel> {
    let m1 = insert(insert(m, "LAST-MODIFIED"@, now), "DTSTAMP"@, now);
    if sequence_of(m1) < u32::MAX {
        Some(insert(m1, "SEQUENCE"@, decimal(sequence_of(m1) + 1)))
    } else {
        None
    }
}

fn stamp_exec(p: &mut Props, now: &str) -> (ok: bool)
    ensures
        match stamped(old(p)@, now@) {
            Some(m) => ok && final(p)@ == m,
            None => !ok,
        },
{
    p.insert(lit("LAST-MODIFIED"), lit(now));
    p.insert(lit("DTSTAMP"), lit(now));
    let seq: u32 = match p.get("SEQUENCE") {
        Some(s) => match parse_u32(s.as_str()) {
            Some(n) => n,
            None => 0,
        },
        None => 0,
    };
    if seq == u32::MAX {
        return false;
    }
    p.insert(lit("SEQUENCE"), decimal_string(seq + 1));
    true
}

// ---------------------------------------------------------------------------
// Events
// ---------------------------------------------------------------------------

/// The properties of a new event, inserted in this order.
pub open spec fn new_event_props(
    args: CreateEventArgs,
    uid: Seq<char>,
    dtstart: Seq<char>,
    dtend: Seq<char>,
    now: Seq<char>,
) -> PropsModel {
    let m = insert(Seq::empty(), "UID"@, uid);
    let m = insert(m, "DTSTART"@, dtstart);
    let m = insert(m, "DTEND"@, dtend);
    let m = insert(m, "SUMMARY"@, args.summary@);
    let m = insert(m, "DESCRIPTION"@, opt_text(args.description));
    let m = insert(m, "LOCATION"@, opt_text(args.location));
    let m = insert(m, "DTSTAMP"@, now);
    let m = insert(m, "LAST-MODIFIED"@, now);
    insert(m, "SEQUENCE"@, "0"@)
}

/// What creating an event with identifier `uid` at time `now` gives: the
/// error of its start or else of its end where it cannot be converted; else
/// the event stored as `<calendar>/<uid>.ics` and reported with the
/// arguments as given.
pub open spec fn create_event_outcome(
    args: CreateEventArgs,
    uid: Seq<char>,
    now: Seq<char>,
    r: Result<(ResourcePut, EventInfo), CaldavError>,
) -> bool {
    match ical_of_iso(args.start@) {
        Err(msg) => r matches Err(e) && e.invalid_arg_text() == Some(msg),
        Ok((dtstart, all_day)) => match ical_of_iso(args.end@) {
            Err(msg) => r matches Err(e) && e.invalid_arg_text() == Some(msg),
            Ok((dtend, _)) => r matches Ok((put, info)) && put.url@ == member_url(
                args.calendar_url@,
                uid,
                ".ics"@,
            ) && put.body@ == event_text(new_event_props(args, uid, dtstart, dtend, now), Seq::empty()) && info@
                == (EventModel {
                uid,
                url: put.url@,
                summary: args.summary@,
                description: opt_text(args.description),
                start: args.start@,
                end: args.end@,
                location: opt_text(args.location),
                all_day,
            }),
        },
    }
}

/// The request and the report of creating an event with identifier `uid`
/// at time `now` (see `create_event_outcome`).
pub fn plan_create_event(args: &CreateEventArgs, uid: &str, now: &str) -> (r: Result<
    (ResourcePut, EventInfo),
    CaldavError,
>)
    ensures
        create_event_outcome(*args, uid@, now@, r),
{
    let (dtstart, all_day) = match iso_to_ical_dt(args.start.as_str()) {
        Ok(x) => x,
        Err(e) => {
            return Err(e);
        },
    };
    let (dtend, _) = match iso_to_ical_dt(args.end.as_str()) {
        Ok(x) => x,
        Err(e) => {
            return Err(e);
        },
    };
    let mut p = Props::new();
    p.insert(lit("UID"), lit(uid));
    p.insert(lit("DTSTART"), dtstart);
    p.insert(lit("DTEND"), dtend);
    p.insert(lit("SUMMARY"), args.summary.clone());
    p.insert(lit("DESCRIPTION"), text_of(&args.description));
    p.insert(lit("LOCATION"), text_of(&args.location));
    p.insert(lit("DTSTAMP"), lit(now));
    p.insert(lit("LAST-MODIFIED"), lit(now));
    p.insert(lit("SEQUENCE"), lit("0"));
    let body = build_event_ical(&p);
    let url = member_url_exec(args.calendar_url.as_str(), uid, ".ics");
    let info = EventInfo {
        uid: lit(uid),
        url: url.clone(),
        summary: args.summary.clone(),
        description: text_of(&args.description),
        start: args.start.clone(),
        end: args.end.clone(),
        location: text_of(&args.location),
        all_day,
    };
    Ok((ResourcePut { url, body }, info))
}

/// Creating an event with a new identifier at the current time.
pub fn prepare_create_event(args: &CreateEventArgs) -> (r: Result<
    (ResourcePut, EventInfo),
    CaldavError,
>)
    ensures
        exists|uid: Seq<char>, now: Seq<char>|
            is_uuid_v4(uid) && is_utc_stamp(now) && create_event_outcome(*args, uid, now, r),
{
    let uid = new_uid();
    let now = now_ical();
    let r = plan_create_event(args, uid.as_str(), now.as_str());
    assert(create_event_outcome(*args, uid@, now@, r));
    r
}

/// The stored event properties after an update at `now`: the given summary,
/// start, end, description and location replace the stored ones, then it is
/// stamped (see `stamped`).  `Some(Err(..))` with the error text where a
/// given date cannot be converted (the start is tried first); nothing where
/// the sequence number overflows.
pub open spec fn updated_event(m: PropsModel, args: UpdateEventArgs, now: Seq<char>) -> Option<
    Result<PropsModel, Seq<char>>,
> {
    let m1 = put_opt(m, "SUMMARY"@, args.summary);
    match put_time(m1, "DTSTART"@, args.start) {
        Err(e) => Some(Err(e)),
        Ok(m2) => match put_time(m2, "DTEND"@, args.end) {
            Err(e) => Some(Err(e)),
            Ok(m3) => {
                let m4 = put_opt(put_opt(m3, "DESCRIPTION"@, args.description), "LOCATION"@, args.location);
                match stamped(m4, now) {
                    Some(m5) => Some(Ok(m5)),
                    None => None,
                }
            },
        },
    }
}

/// The outcome of writing a component back after an update: the error for an
/// error text, the component's text for the new properties.
pub open spec fn written(
    u: Option<Result<PropsModel, Seq<char>>>,
    r: Option<Result<String, CaldavError>>,
    text: spec_fn(PropsModel) -> Seq<char>,
) -> bool {
    match (u, r) {
        (None, None) => true,
        (Some(Err(msg)), Some(Err(e))) => e.invalid_arg_text() == Some(msg),
        (Some(Ok(m)), Some(Ok(s))) => s@ == text(m),
        _ => false,
    }
}

/// The new text of a stored event after an update at `now` (see
/// `updated_event`); nothing where its sequence number would overflow.
pub fn plan_update_event(existing: &str, args: &UpdateEventArgs, now: &str) -> (r: Option<
    Result<String, CaldavError>,
>)
    ensures
        written(
            updated_event(component_props(existing@, "VEVENT"@), *args, now@),
            r,
            |m: PropsModel| event_text(m, kept_lines(existing@, "VEVENT"@, event_keys())),
        ),
{
    let mut p = parse_ical_component(existing, "VEVENT");
    put_opt_exec(&mut p, "SUMMARY", &args.summary);
    match put_time_exec(&mut p, "DTSTART", &args.start) {
        Ok(()) => {},
        Err(e) => {
            return Some(Err(e));
        },
    }
    match put_time_exec(&mut p, "DTEND", &args.end) {
        Ok(()) => {},
        Err(e) => {
            return Some(Err(e));
        },
    }
    put_opt_exec(&mut p, "DESCRIPTION", &args.description);
    put_opt_exec(&mut p, "LOCATION", &args.location);
    if !stamp_exec(&mut p, now) {
        return None;
    }
    let kept = event_kept_lines(existing);
    Some(Ok(build_event_ical_keeping(&p, &kept)))
}

/// Updating a stored event at the current time (see `plan_update_event`).
pub fn prepare_update_event(existing: &str, args: &UpdateEventArgs) -> (r: Option<
    Result<String, CaldavError>,
>)
    ensures
        exists|now: Seq<char>|
            is_utc_stamp(now) && written(
                updated_event(component_props(existing@, "VEVENT"@), *args, now),
                r,
                |m: PropsModel| event_text(m, kept_lines(existing@, "VEVENT"@, event_keys())),
            ),
{
    let now = now_ical();
    let r = plan_update_event(existing, args, now.as_str());
    assert(is_utc_stamp(now@) && written(
        updated_event(component_props(existing@, "VEVENT"@), *args, now@),
        r,
        |m: PropsModel| event_text(m, kept_lines(existing@, "VEVENT"@, event_keys())),
    ));
    r
}

// ---------------------------------------------------------------------------
// Tasks
// ---------------------------------------------------------------------------

/// The properties of a new task, inserted in this order (`DUE` only where a
/// due date is given, converted to `due`).
pub open spec fn new_task_props(
    args: CreateTaskArgs,
    uid: Seq<char>,
    due: Option<Seq<char>>,
    now: Seq<char>,
) -> PropsModel {
    let m = insert(Seq::empty(), "UID"@, uid);
    let m = insert(m, "SUMMARY"@, args.summary@);
    let m = insert(m, "DESCRIPTION"@, opt_text(args.description));
    let m = match due {
        Some(d) => insert(m, "DUE"@, d),
        None => m,
    };
    let m = insert(m, "STATUS"@, "NEEDS-ACTION"@);
    let m = insert(m, "PRIORITY"@, decimal(priority_or_zero(args.priority) as nat));
    let m = insert(m, "DTSTAMP"@, now);
    let m = insert(m, "LAST-MODIFIED"@, now);
    insert(m, "SEQUENCE"@, "0"@)
}

/// A priority, or 0 where none is given.
pub open spec fn priority_or_zero(p: Option<u8>) -> u8 {
    match p {
        Some(n) => n,
        None => 0,
    }
}

/// What creating a task with identifier `uid` at time `now` gives: the
/// error of its due date where it cannot be converted; else the task stored
/// as `<calendar>/<uid>.ics`, reported as `NEEDS-ACTION` with the arguments
/// as given.
pub open spec fn create_task_outcome(
    args: CreateTaskArgs,
    uid: Seq<char>,
    now: Seq<char>,
    r: Result<(ResourcePut, TaskInfo), CaldavError>,
) -> bool {
    let due: Result<Option<Seq<char>>, Seq<char>> = match args.due {
        None => Ok(None),
        Some(d) => match ical_of_iso(d@) {
            Ok((t, _)) => Ok(Some(t)),
            Err(msg) => Err(msg),
        },
    };
    match due {
        Err(msg) => r matches Err(e) && e.invalid_arg_text() == Some(msg),
        Ok(due) => r matches Ok((put, info)) && put.url@ == member_url(
            args.calendar_url@,
            uid,
            ".ics"@,
        ) && put.body@ == task_text(new_task_props(args, uid, due, now), Seq::empty()) && info@ == (TaskModel {
            uid,
            url: put.url@,
            summary: args.summary@,
            description: opt_text(args.description),
            due: opt_text(args.due),
            status: "NEEDS-ACTION"@,
            priority: priority_or_zero(args.priority),
        }),
    }
}

/// The request and the report of creating a task with identifier `uid` at
/// time `now` (see `create_task_outcome`).
pub fn plan_create_task(args: &CreateTaskArgs, uid: &str, now: &str) -> (r: Result<
    (ResourcePut, TaskInfo),
    CaldavError,
>)
    ensures
        create_task_outcome(*args, uid@, now@, r),
{
    let mut p = Props::new();
    p.insert(lit("UID"), lit(uid));
    p.insert(lit("SUMMARY"), args.summary.clone());
    p.insert(lit("DESCRIPTION"), text_of(&args.description));
    match &args.due {
        Some(d) => match iso_to_ical_dt(d.as_str()) {
            Ok((t, _)) => p.insert(lit("DUE"), t),
            Err(e) => {
                return Err(e);
            },
        },
        None => {},
    }
    let priority: u8 = match args.priority {
        Some(n) => n,
        None => 0,
    };
    p.insert(lit("STATUS"), lit("NEEDS-ACTION"));
    p.insert(lit("PRIORITY"), decimal_string(priority as u32));
    p.insert(lit("DTSTAMP"), lit(now));
    p.insert(lit("LAST-MODIFIED"), lit(now));
    p.insert(lit("SEQUENCE"), lit("0"));
    let body = build_task_ical(&p);
    let url = member_url_exec(args.calendar_url.as_str(), uid, ".ics");
    let info = TaskInfo {
        uid: lit(uid),
        url: url.clone(),
        summary: args.summary.clone(),
        description: text_of(&args.description),
        due: text_of(&args.due),
        status: lit("NEEDS-ACTION"),
        priority,
    };
    Ok((ResourcePut { url, body }, info))
}

/// Creating a task with a new identifier at the current time.
pub fn prepare_create_task(args: &CreateTaskArgs) -> (r: Result<(ResourcePut, TaskInfo), CaldavError>)
    ensures
        exists|uid: Seq<char>, now: Seq<char>|
            is_uuid_v4(uid) && is_utc_stamp(now) && create_task_outcome(*args, uid, now, r),
{
    let uid = new_uid();
    let now = now_ical();
    let r = plan_create_task(args, uid.as_str(), now.as_str());
    assert(create_task_outcome(*args, uid@, now@, r));
    r
}

/// The statuses a task may be given.
pub open spec fn valid_task_status(s: Seq<char>) -> bool {
    s == "NEEDS-ACTION"@ || s == "IN-PROCESS"@ || s == "COMPLETED"@ || s == "CANCELLED"@
}

/// The stored task properties after an update at `now`: the given summary,
/// description, due date (converted), status (in upper case, one of the
/// valid ones) and priority replace the stored ones, then it is stamped.
/// `Some(Err(..))` with the error text where the due date cannot be
/// converted or, after that, the status is not valid; nothing where the
/// sequence number overflows.
pub open spec fn updated_task(m: PropsModel, args: UpdateTaskArgs, now: Seq<char>) -> Option<
    Result<PropsModel, Seq<char>>,
> {
    let m1 = put_opt(put_opt(m, "SUMMARY"@, args.summary), "DESCRIPTION"@, args.description);
    match put_time(m1, "DUE"@, args.due) {
        Err(e) => Some(Err(e)),
        Ok(m2) => {
            let m3: Result<PropsModel, Seq<char>> = match args.status {
                None => Ok(m2),
                Some(s) => if valid_task_status(upper_of(s@)) {
                    Ok(insert(m2, "STATUS"@, upper_of(s@)))
                } else {
                    Err("invalid status: "@ + s@)
                },
            };
            match m3 {
                Err(e) => Some(Err(e)),
                Ok(m3) => {
                    let m4 = match args.priority {
                        Some(n) => insert(m3, "PRIORITY"@, decimal(n as nat)),
                        None => m3,
                    };
                    match stamped(m4, now) {
                        Some(m5) => Some(Ok(m5)),
                        None => None,
                    }
                },
            }
        },
    }
}

/// Whether an upper-cased status is a valid one.
fn is_valid_status(s: &str) -> (b: bool)
    ensures
        b == valid_task_status(s@),
{
    crate::text::same_text(s, "NEEDS-ACTION") || crate::text::same_text(s, "IN-PROCESS")
        || crate::text::same_text(s, "COMPLETED") || crate::text::same_text(s, "CANCELLED")
}

/// The new text of a stored task after an update at `now` (see
/// `updated_task`); nothing where its sequence number would overflow.
pub fn plan_update_task(existing: &str, args: &UpdateTaskArgs, now: &str) -> (r: Option<
    Result<String, CaldavError>,
>)
    ensures
        written(
            updated_task(component_props(existing@, "VTODO"@), *args, now@),
            r,
            |m: PropsModel| task_text(m, kept_lines(existing@, "VTODO"@, task_keys())),
        ),
{
    let mut p = parse_ical_component(existing, "VTODO");
    put_opt_exec(&mut p, "SUMMARY", &args.summary);
    put_opt_exec(&mut p, "DESCRIPTION", &args.description);
    match put_time_exec(&mut p, "DUE", &args.due) {
        Ok(()) => {},
        Err(e) => {
            return Some(Err(e));
        },
    }
    match &args.status {
        Some(s) => {
            let status = to_uppercase(s.as_str());
            if !is_valid_status(status.as_str()) {
                return Some(Err(CaldavError::InvalidArg(concat2("invalid status: ", s.as_str()))));
            }
            p.insert(lit("STATUS"), status);
        },
        None => {},
    }
    match args.priority {
        Some(n) => p.insert(lit("PRIORITY"), decimal_string(n as u32)),
        None => {},
    }
    if !stamp_exec(&mut p, now) {
        return None;
    }
    let kept = task_kept_lines(existing);
    Some(Ok(build_task_ical_keeping(&p, &kept)))
}

/// Updating a stored task at the current time (see `plan_update_task`).
pub fn prepare_update_task(existing: &str, args: &UpdateTaskArgs) -> (r: Option<
    Result<String, CaldavError>,
>)
    ensures
        exists|now: Seq<char>|
            is_utc_stamp(now) && written(
                updated_task(component_props(existing@, "VTODO"@), *args, now),
                r,
                |m: PropsModel| task_text(m, kept_lines(existing@, "VTODO"@, task_keys())),
            ),
{
    let now = now_ical();
    plan_update_task(existing, args, now.as_str())
}

// ---------------------------------------------------------------------------
// Contacts
// ---------------------------------------------------------------------------

/// The properties of a new contact, inserted in this order.
pub open spec fn new_contact_props(args: CreateContactArgs, uid: Seq<char>, now: Seq<char>) -> PropsModel {
    let m = insert(Seq::empty(), "UID"@, uid);
    let m = insert(m, "FN"@, args.full_name@);
    let m = insert(m, "EMAIL"@, opt_text(args.email));
    let m = insert(m, "TEL"@, opt_text(args.phone));
    let m = insert(m, "ORG"@, opt_text(args.organization));
    let m = insert(m, "NOTE"@, opt_text(args.notes));
    insert(m, "REV"@, now)
}

/// What creating a contact with identifier `uid` at time `now` gives: the
/// contact stored as `<address book>/<uid>.vcf` and reported with the
/// arguments as given.
pub open spec fn create_contact_outcome(
    args: CreateContactArgs,
    uid: Seq<char>,
    now: Seq<char>,
    put: ResourcePut,
    info: ContactInfo,
) -> bool {
    &&& put.url@ == member_url(args.address_book_url@, uid, ".vcf"@)
    &&& put.body@ == vcard_text(new_contact_props(args, uid, now), Seq::empty())
    &&& info@ == (ContactModel {
        uid,
        url: put.url@,
        full_name: args.full_name@,
        email: opt_text(args.email),
        phone: opt_text(args.phone),
        organization: opt_text(args.organization),
        notes: opt_text(args.notes),
    })
}

/// The request and the report of creating a contact with identifier `uid`
/// at time `now` (see `create_contact_outcome`).
pub fn plan_create_contact(args: &CreateContactArgs, uid: &str, now: &str) -> (r: (
    ResourcePut,
    ContactInfo,
))
    ensures
        create_contact_outcome(*args, uid@, now@, r.0, r.1),
{
    let mut p = Props::new();
    p.insert(lit("UID"), lit(uid));
    p.insert(lit("FN"), args.full_name.clone());
    p.insert(lit("EMAIL"), text_of(&args.email));
    p.insert(lit("TEL"), text_of(&args.phone));
    p.insert(lit("ORG"), text_of(&args.organization));
    p.insert(lit("NOTE"), text_of(&args.notes));
    p.insert(lit("REV"), lit(now));
    let body = build_vcard(&p);
    let url = member_url_exec(args.address_book_url.as_str(), uid, ".vcf");
    let info = ContactInfo {
        uid: lit(uid),
        url: url.clone(),
        full_name: args.full_name.clone(),
        email: text_of(&args.email),
        phone: text_of(&args.phone),
        organization: text_of(&args.organization),
        notes: text_of(&args.notes),
    };
    (ResourcePut { url, body }, info)
}

/// Creating a contact with a new identifier at the current time.
pub fn prepare_create_contact(args: &CreateContactArgs) -> (r: (ResourcePut, ContactInfo))
    ensures
        exists|uid: Seq<char>, now: Seq<char>|
            is_uuid_v4(uid) && is_utc_stamp(now) && create_contact_outcome(*args, uid, now, r.0, r.1),
{
    let uid = new_uid();
    let now = now_ical();
    let r = plan_create_contact(args, uid.as_str(), now.as_str());
    assert(create_contact_outcome(*args, uid@, now@, r.0, r.1));
    r
}

/// The stored contact properties after an update at `now`: the given name,
/// email, phone, organization and notes replace the stored ones and `REV`
/// becomes `now`.
pub open spec fn updated_contact(m: PropsModel, args: UpdateContactArgs, now: Seq<char>) -> PropsModel {
    let m = put_opt(m, "FN"@, args.full_name);
    let m = put_opt(m, "EMAIL"@, args.email);
    let m = put_opt(m, "TEL"@, args.phone);
    let m = put_opt(m, "ORG"@, args.organization);
    let m = put_opt(m, "NOTE"@, args.notes);
    insert(m, "REV"@, now)
}

/// The new text of a stored contact after an update at `now`.
pub fn plan_update_contact(existing: &str, args: &UpdateContactArgs, now: &str) -> (r: String)
    ensures
        r@ == vcard_text(
            updated_contact(component_props(existing@, "VCARD"@), *args, now@),
            kept_lines(existing@, "VCARD"@, vcard_written()),
        ),
{
    let mut p = parse_ical_component(existing, "VCARD");
    put_opt_exec(&mut p, "FN", &args.full_name);
    put_opt_exec(&mut p, "EMAIL", &args.email);
    put_opt_exec(&mut p, "TEL", &args.phone);
    put_opt_exec(&mut p, "ORG", &args.organization);
    put_opt_exec(&mut p, "NOTE", &args.notes);
    p.insert(lit("REV"), lit(now));
    let kept = vcard_kept_lines(existing);
    build_vcard_keeping(&p, &kept)
}

/// Updating a stored contact at the current time.
pub fn prepare_update_contact(existing: &str, args: &UpdateContactArgs) -> (r: String)
    ensures
        exists|now: Seq<char>|
            is_utc_stamp(now) && r@ == vcard_text(
                updated_contact(component_props(existing@, "VCARD"@), *args, now),
                kept_lines(existing@, "VCARD"@, vcard_written()),
            ),
{
    let now = now_ical();
    plan_update_contact(existing, args, now.as_str())
}

} // verus!
