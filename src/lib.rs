//! Reading and writing the `auth_token` cookie of a small login demo, and
//! turning what was read into the status that the page shows.
//!
//! The browser's cookie store, the clock and the page itself live outside this
//! library: the caller hands it the document's cookie string and the formatted
//! expiry date, and takes back plain values.
pub mod cookie;
pub mod laws;
pub mod status;
