//! Core logic of a local-first desktop mail client: sender-name cleanup,
//! search-query parsing, calendar (iCalendar / CalDAV) encoding and decoding,
//! contact import/export, subscription scanning and the small time- and
//! state-based decisions that the command layer makes between database and
//! network calls.
//!
//! Everything in this crate is verified with Verus. The command layer that
//! talks to SQLite, HTTP services and the desktop shell lives outside it.

pub mod text;
pub mod sender;
pub mod query;
pub mod threads;
pub mod csv;
pub mod vcard;
pub mod contact_csv;
pub mod json;
pub mod contacts;
pub mod contact_export;
pub mod calendar;
pub mod ical;
pub mod caldav;
pub mod numbers;
pub mod subscriptions;
pub mod accounts;
pub mod search;
pub mod thread_queries;
pub mod timing;
pub mod misc;
pub mod records;
pub mod summary;
pub mod contact_search;
pub mod contact_store;
