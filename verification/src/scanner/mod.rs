pub mod coordinator;
pub mod json;
pub mod outcome;
pub mod rfc3339;
pub mod simple_scan;

pub use self::coordinator::{ScanCoordinator, TargetState};
pub use self::json::{JsonMember, JsonValue};
pub use self::outcome::{ProbeOutcome, TransportErrorKind};
pub use self::simple_scan::SimpleScanner;
