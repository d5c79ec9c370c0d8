//! The failures that commands report, each with its message.

use vstd::prelude::*;
use vstd::string::*;

verus! {

/// A failure reported by a command. Every variant stands for one message.
#[derive(Debug)]
pub enum CommandError {
    /// A duration that does not end in `d`.
    DurationFormat,
    /// A duration whose number is missing, malformed or out of range.
    DurationValue,
    /// A duration of zero or fewer days.
    DurationNotPositive,
    /// A duration that reaches back beyond the first representable date.
    DurationOutOfRange,
    /// A deletion that names neither everything nor a duration.
    DeleteTargetMissing,
    /// A deletion that names both everything and a duration.
    DeleteTargetConflict,
    /// No process with this title on the machine.
    ProcessNotFound { name: String },
    /// The pattern is not in the list.
    PatternNotFound { pattern: String, whitelist: bool },
    /// The list was never filled.
    ListEmpty { whitelist: bool },
    /// The pattern does not compile as a regular expression.
    InvalidRegex { detail: String },
    /// The filter mode has no such name.
    UnknownMode { mode: String },
    /// An autostart option other than `yes` or `no`.
    InvalidAutostartOption,
    /// A report asked for today only and for a date at once.
    WindowConflict,
}

/// The name under which a list is reported.
pub open spec fn list_name_spec(whitelist: bool) -> Seq<char> {
    if whitelist {
        "whitelist"@
    } else {
        "blacklist"@
    }
}

/// The name under which a list is reported.
pub fn list_name(whitelist: bool) -> (r: &'static str)
    ensures
        r@ == list_name_spec(whitelist),
{
    if whitelist {
        "whitelist"
    } else {
        "blacklist"
    }
}

impl CommandError {
    /// The message of this failure.
    pub open spec fn message(&self) -> Seq<char> {
        match self {
            CommandError::DurationFormat => "error: duration must be in format like '7d', '30d', etc."@,
            CommandError::DurationValue => "error: invalid duration value"@,
            CommandError::DurationNotPositive => "error: duration must be a positive number"@,
            CommandError::DurationOutOfRange => "error: duration reaches beyond the calendar"@,
            CommandError::DeleteTargetMissing => "error: must specify either --all or --duration"@,
            CommandError::DeleteTargetConflict => "error: cannot specify both --all and --duration"@,
            CommandError::ProcessNotFound { name } => "error: process '"@ + name@ + "' not found"@,
            CommandError::PatternNotFound { pattern, whitelist } => "error: '"@ + pattern@
                + "' not found in "@ + list_name_spec(*whitelist),
            CommandError::ListEmpty { whitelist } => "error: "@ + list_name_spec(*whitelist)
                + " is empty"@,
            CommandError::InvalidRegex { detail } => "error: invalid regex pattern: "@ + detail@,
            CommandError::UnknownMode { mode } => "error: no match found for mode: '"@ + mode@
                + "'"@,
            CommandError::InvalidAutostartOption => "error: invalid option for autostart. Use 'yes' or 'no'."@,
            CommandError::WindowConflict => "error: cannot specify both --today and --date"@,
        }
    }

    /// The message of this failure, as shown to the user.
    pub fn to_string(&self) -> (r: String)
        ensures
            r@ == self.message(),
    {
        match self {
            CommandError::DurationFormat => String::from_str(
                "error: duration must be in format like '7d', '30d', etc.",
            ),
            CommandError::DurationValue => String::from_str("error: invalid duration value"),
            CommandError::DurationNotPositive => String::from_str(
                "error: duration must be a positive number",
            ),
            CommandError::DurationOutOfRange => String::from_str(
                "error: duration reaches beyond the calendar",
            ),
            CommandError::DeleteTargetMissing => String::from_str(
                "error: must specify either --all or --duration",
            ),
            CommandError::DeleteTargetConflict => String::from_str(
                "error: cannot specify both --all and --duration",
            ),
            CommandError::ProcessNotFound { name } => {
                let mut s = String::from_str("error: process '");
                s.append(name.as_str());
                s.append("' not found");
                s
            },
            CommandError::PatternNotFound { pattern, whitelist } => {
                let mut s = String::from_str("error: '");
                s.append(pattern.as_str());
                s.append("' not found in ");
                s.append(list_name(*whitelist));
                s
            },
            CommandError::ListEmpty { whitelist } => {
                let mut s = String::from_str("error: ");
                s.append(list_name(*whitelist));
                s.append(" is empty");
                s
            },
            CommandError::InvalidRegex { detail } => {
                let mut s = String::from_str("error: invalid regex pattern: ");
                s.append(detail.as_str());
                s
            },
            CommandError::UnknownMode { mode } => {
                let mut s = String::from_str("error: no match found for mode: '");
                s.append(mode.as_str());
                s.append("'");
                s
            },
            CommandError::InvalidAutostartOption => String::from_str(
                "error: invalid option for autostart. Use 'yes' or 'no'.",
            ),
            CommandError::WindowConflict => String::from_str(
                "error: cannot specify both --today and --date",
            ),
        }
    }
}

} // verus!
