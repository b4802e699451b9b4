pub mod text;
pub mod props;
pub mod ical;
pub mod error;
pub mod datetime;
pub mod xml;
pub mod models;
pub mod caldav;
pub mod writes;
pub mod roundtrip;
pub mod laws;
