//! An RFC 5545 iCalendar serializer, the decisions of the Proxmox major-upgrade checks, and the
//! syslog API filter types, with their contracts and properties proved.
use vstd::prelude::*;

pub mod text;
pub mod ics_text;
pub mod civil;
pub mod ics;
pub mod ics_laws;
pub mod ics_unfold;
pub mod kernel;
pub mod upgrade;
pub mod checks;
pub mod syslog;
pub mod report;
pub mod regex_calls;
pub mod report_lines;

verus! {
}
