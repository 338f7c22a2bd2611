//! Load-time failures. A malformed weekday name, time of day, or due date
//! is fatal for the whole rendering pass; the error names the offending
//! value so the user can correct the input file.

use vstd::prelude::*;
use vstd::string::*;

verus! {

/// A semantic error in a loaded field. Each variant carries the text that
/// failed to parse.
#[derive(Debug)]
pub enum LoadError {
    /// The text is not a weekday name (full or three-letter, any case).
    InvalidWeekday(String),
    /// The text is not a time of day in "HH:MM" form.
    InvalidTime(String),
    /// The text does not match the configured due-date format.
    InvalidDueDate(String),
}

impl LoadError {
    /// The offending input text.
    pub open spec fn value(&self) -> Seq<char> {
        match self {
            LoadError::InvalidWeekday(v) => v@,
            LoadError::InvalidTime(v) => v@,
            LoadError::InvalidDueDate(v) => v@,
        }
    }

    /// A diagnostic line naming the invalid value.
    pub fn message(&self) -> (r: String)
        ensures
            ({
                match self {
                    LoadError::InvalidWeekday(v) => r@ == "invalid day of the week: "@ + v@,
                    LoadError::InvalidTime(v) => r@ == "invalid time of day (expected HH:MM): "@
                        + v@,
                    LoadError::InvalidDueDate(v) => r@
                        == "invalid due date for the configured format: "@ + v@,
                }
            }),
    {
        let mut out = String::new();
        match self {
            LoadError::InvalidWeekday(v) => {
                out.append("invalid day of the week: ");
                out.append(v.as_str());
                proof {
                    assert(out@ == "invalid day of the week: "@ + self.value());
                }
            },
            LoadError::InvalidTime(v) => {
                out.append("invalid time of day (expected HH:MM): ");
                out.append(v.as_str());
                proof {
                    assert(out@ == "invalid time of day (expected HH:MM): "@ + self.value());
                }
            },
            LoadError::InvalidDueDate(v) => {
                out.append("invalid due date for the configured format: ");
                out.append(v.as_str());
                proof {
                    assert(out@ == "invalid due date for the configured format: "@ + self.value());
                }
            },
        }
        out
    }
}

} // verus!
