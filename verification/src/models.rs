//! The data that the tools take and give back.
use vstd::prelude::*;

verus! {

/// Where the CalDAV/CardDAV server is and whom to sign in as.
#[derive(Clone, Debug)]
pub struct AppState {
    pub caldav_base_url: String,
    pub username: String,
    pub password: String,
}

// CalDAV data types

#[derive(Clone, Debug)]
pub struct CalendarInfo {
    pub url: String,
    pub name: String,
    pub description: String,
}

#[derive(Clone, Debug)]
pub struct EventInfo {
    pub uid: String,
    pub url: String,
    pub summary: String,
    pub description: String,
    pub start: String,
    pub end: String,
    pub location: String,
    pub all_day: bool,
}

#[derive(Clone, Debug)]
pub struct TaskInfo {
    pub uid: String,
    pub url: String,
    pub summary: String,
    pub description: String,
    pub due: String,
    pub status: String,
    pub priority: u8,
}

// Tool argument types

#[derive(Clone, Debug)]
pub struct ListEventsArgs {
    pub calendar_url: String,
    pub start: Option<String>,
    pub end: Option<String>,
}

#[derive(Clone, Debug)]
pub struct CreateEventArgs {
    pub calendar_url: String,
    pub summary: String,
    pub start: String,
    pub end: String,
    pub description: Option<String>,
    pub location: Option<String>,
}

#[derive(Clone, Debug)]
pub struct UpdateEventArgs {
    pub event_url: String,
    pub summary: Option<String>,
    pub start: Option<String>,
    pub end: Option<String>,
    pub description: Option<String>,
    pub location: Option<String>,
}

#[derive(Clone, Debug)]
pub struct DeleteEventArgs {
    pub event_url: String,
}

#[derive(Clone, Debug)]
pub struct ListTasksArgs {
    pub calendar_url: String,
    pub include_completed: Option<bool>,
}

#[derive(Clone, Debug)]
pub struct CreateTaskArgs {
    pub calendar_url: String,
    pub summary: String,
    pub description: Option<String>,
    pub due: Option<String>,
    pub priority: Option<u8>,
}

#[derive(Clone, Debug)]
pub struct UpdateTaskArgs {
    pub task_url: String,
    pub summary: Option<String>,
    pub description: Option<String>,
    pub due: Option<String>,
    pub status: Option<String>,
    pub priority: Option<u8>,
}

#[derive(Clone, Debug)]
pub struct DeleteTaskArgs {
    pub task_url: String,
}

// CardDAV data types

#[derive(Clone, Debug)]
pub struct AddressBookInfo {
    pub url: String,
    pub name: String,
    pub description: String,
}

#[derive(Clone, Debug)]
pub struct ContactInfo {
    pub uid: String,
    pub url: String,
    pub full_name: String,
    pub email: String,
    pub phone: String,
    pub organization: String,
    pub notes: String,
}

#[derive(Clone, Debug)]
pub struct ListContactsArgs {
    pub address_book_url: String,
}

#[derive(Clone, Debug)]
pub struct CreateContactArgs {
    pub address_book_url: String,
    pub full_name: String,
    pub email: Option<String>,
    pub phone: Option<String>,
    pub organization: Option<String>,
    pub notes: Option<String>,
}

#[derive(Clone, Debug)]
pub struct UpdateContactArgs {
    pub contact_url: String,
    pub full_name: Option<String>,
    pub email: Option<String>,
    pub phone: Option<String>,
    pub organization: Option<String>,
    pub notes: Option<String>,
}

#[derive(Clone, Debug)]
pub struct DeleteContactArgs {
    pub contact_url: String,
}

// Models

/// The text of an optional string, empty where there is none.
pub open spec fn opt_text(o: Option<String>) -> Seq<char> {
    match o {
        Some(s) => s@,
        None => Seq::empty(),
    }
}

pub struct CollectionModel {
    pub url: Seq<char>,
    pub name: Seq<char>,
    pub description: Seq<char>,
}

pub struct EventModel {
    pub uid: Seq<char>,
    pub url: Seq<char>,
    pub summary: Seq<char>,
    pub description: Seq<char>,
    pub start: Seq<char>,
    pub end: Seq<char>,
    pub location: Seq<char>,
    pub all_day: bool,
}

pub struct TaskModel {
    pub uid: Seq<char>,
    pub url: Seq<char>,
    pub summary: Seq<char>,
    pub description: Seq<char>,
    pub due: Seq<char>,
    pub status: Seq<char>,
    pub priority: u8,
}

pub struct ContactModel {
    pub uid: Seq<char>,
    pub url: Seq<char>,
    pub full_name: Seq<char>,
    pub email: Seq<char>,
    pub phone: Seq<char>,
    pub organization: Seq<char>,
    pub notes: Seq<char>,
}

impl View for CalendarInfo {
    type V = CollectionModel;

    open spec fn view(&self) -> CollectionModel {
        CollectionModel { url: self.url@, name: self.name@, description: self.description@ }
    }
}

impl View for AddressBookInfo {
    type V = CollectionModel;

    open spec fn view(&self) -> CollectionModel {
        CollectionModel { url: self.url@, name: self.name@, description: self.description@ }
    }
}

impl View for EventInfo {
    type V = EventModel;

    open spec fn view(&self) -> EventModel {
        EventModel {
            uid: self.uid@,
            url: self.url@,
            summary: self.summary@,
            description: self.description@,
            start: self.start@,
            end: self.end@,
            location: self.location@,
            all_day: self.all_day,
        }
    }
}

impl View for TaskInfo {
    type V = TaskModel;

    open spec fn view(&self) -> TaskModel {
        TaskModel {
            uid: self.uid@,
            url: self.url@,
            summary: self.summary@,
            description: self.description@,
            due: self.due@,
            status: self.status@,
            priority: self.priority,
        }
    }
}

impl View for ContactInfo {
    type V = ContactModel;

    open spec fn view(&self) -> ContactModel {
        ContactModel {
            uid: self.uid@,
            url: self.url@,
            full_name: self.full_name@,
            email: self.email@,
            phone: self.phone@,
            organization: self.organization@,
            notes: self.notes@,
        }
    }
}

} // verus!
