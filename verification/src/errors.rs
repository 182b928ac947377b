//! Failure reasons reported by the log watcher and the inspection parser.

use vstd::prelude::*;
use vstd::string::StringExecFns;

verus! {

/// Why waiting for a message in a log stream failed.
#[derive(Debug, Clone, PartialEq, Eq)]
pub enum WaitError {
    /// The stream closed before the message was seen.
    EndOfStream,
    /// A read took longer than what was left of the deadline.
    WaitDurationExpired,
    /// The transport failed; the text is the cause as the transport gave it.
    Io(String),
}

/// Mathematical model of a [`WaitError`].
pub enum WaitFault {
    EndOfStream,
    WaitDurationExpired,
    Io(Seq<char>),
}

impl View for WaitError {
    type V = WaitFault;

    open spec fn view(&self) -> WaitFault {
        match self {
            WaitError::EndOfStream => WaitFault::EndOfStream,
            WaitError::WaitDurationExpired => WaitFault::WaitDurationExpired,
            WaitError::Io(cause) => WaitFault::Io(cause@),
        }
    }
}

/// The text shown for a fault.
pub open spec fn fault_text(fault: WaitFault) -> Seq<char> {
    match fault {
        WaitFault::EndOfStream => "dockerust > end of stream error"@,
        WaitFault::WaitDurationExpired => "dockerust > wait duration expired"@,
        WaitFault::Io(cause) => "dockerust > tokio-io error: "@ + cause,
    }
}

impl WaitError {
    /// The text shown for this error.
    pub fn message(&self) -> (text: String)
        ensures
            text@ == fault_text(self@),
    {
        match self {
            WaitError::EndOfStream => String::from_str("dockerust > end of stream error"),
            WaitError::WaitDurationExpired => String::from_str("dockerust > wait duration expired"),
            WaitError::Io(cause) => {
                let mut text = String::from_str("dockerust > tokio-io error: ");
                text.append(cause.as_str());
                text
            },
        }
    }
}

/// Why an inspection response could not be turned into a port table.
#[derive(Debug, Clone, PartialEq, Eq)]
pub enum ParseError {
    /// The response did not describe exactly one container; `found` is how
    /// many it described.
    NotOneContainer { found: usize },
    /// A port was not a decimal number that fits sixteen bits.
    InvalidPort { text: String },
}

/// Mathematical model of a [`ParseError`].
pub enum ParseFault {
    NotOneContainer { found: nat },
    InvalidPort { text: Seq<char> },
}

impl View for ParseError {
    type V = ParseFault;

    open spec fn view(&self) -> ParseFault {
        match self {
            ParseError::NotOneContainer { found } => ParseFault::NotOneContainer {
                found: *found as nat,
            },
            ParseError::InvalidPort { text } => ParseFault::InvalidPort { text: text@ },
        }
    }
}

} // verus!
