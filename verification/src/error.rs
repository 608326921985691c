//! What can go wrong, and how it is reported.

use vstd::prelude::*;
use vstd::string::StringExecFns;
use crate::broadcast::BroadcastPayload;

verus! {

/// Why a subscription did not yield an event.
#[derive(Debug, Clone, Copy, PartialEq, Eq, Structural)]
pub enum RecvFault {
    /// The hub is gone: nothing will be published any more.
    Closed,
    /// The subscriber fell behind, and the hub dropped this many of the
    /// events that it had not read yet. The subscription goes on with the
    /// oldest event that the hub still keeps.
    Lagged(u64),
}

/// The failures of the relay.
#[derive(Debug)]
pub enum ChatError {
    /// The request names nothing that the relay serves.
    NotFound,
    /// The hub was unable to take an event; this is the event.
    SendError(BroadcastPayload),
    /// A subscription failed.
    RecvError(RecvFault),
}

pub type ChatResult<T> = Result<T, ChatError>;

/// What is sent to the client when a request fails.
#[derive(Debug, PartialEq, Eq)]
pub struct ErrorBody {
    pub message: String,
    pub code: u32,
    pub status_code: u16,
}

/// The code that every error body carries.
pub const ERROR_CODE: u32 = 42;

/// The decimal digit for `d`.
pub open spec fn digit(d: nat) -> char {
    if d == 0 {
        '0'
    } else if d == 1 {
        '1'
    } else if d == 2 {
        '2'
    } else if d == 3 {
        '3'
    } else if d == 4 {
        '4'
    } else if d == 5 {
        '5'
    } else if d == 6 {
        '6'
    } else if d == 7 {
        '7'
    } else if d == 8 {
        '8'
    } else {
        '9'
    }
}

/// `n` in decimal, without leading zeros.
pub open spec fn decimal(n: nat) -> Seq<char>
    decreases n,
{
    if n < 10 {
        seq![digit(n)]
    } else {
        decimal(n / 10).push(digit(n % 10))
    }
}

/// The digit `d` as a string.
fn digit_str(d: u64) -> (text: &'static str)
    requires
        d < 10,
    ensures
        text@ == seq![digit(d as nat)],
{
    let text = if d == 0 {
        "0"
    } else if d == 1 {
        "1"
    } else if d == 2 {
        "2"
    } else if d == 3 {
        "3"
    } else if d == 4 {
        "4"
    } else if d == 5 {
        "5"
    } else if d == 6 {
        "6"
    } else if d == 7 {
        "7"
    } else if d == 8 {
        "8"
    } else {
        "9"
    };
    proof {
        reveal_strlit("0");
        reveal_strlit("1");
        reveal_strlit("2");
        reveal_strlit("3");
        reveal_strlit("4");
        reveal_strlit("5");
        reveal_strlit("6");
        reveal_strlit("7");
        reveal_strlit("8");
        reveal_strlit("9");
        assert(text@ =~= seq![digit(d as nat)]);
    }
    text
}

/// `n` written in decimal.
pub fn decimal_string(n: u64) -> (text: String)
    ensures
        text@ == decimal(n as nat),
    decreases n,
{
    if n < 10 {
        String::from_str(digit_str(n))
    } else {
        let mut text = decimal_string(n / 10);
        text.append(digit_str(n % 10));
        assert(text@ =~= decimal(n as nat));
        text
    }
}

impl RecvFault {
    /// How the fault is described.
    pub open spec fn text(self) -> Seq<char> {
        match self {
            RecvFault::Closed => "channel closed"@,
            RecvFault::Lagged(missed) => "channel lagged by "@ + decimal(missed as nat),
        }
    }

    /// The description of the fault.
    pub fn describe(&self) -> (text: String)
        ensures
            text@ == self.text(),
    {
        match self {
            RecvFault::Closed => String::from_str("channel closed"),
            RecvFault::Lagged(missed) => {
                let mut text = String::from_str("channel lagged by ");
                let number = decimal_string(*missed);
                text.append(number.as_str());
                text
            },
        }
    }
}

impl ChatError {
    /// The HTTP status that reports the error: 404 for what was not found,
    /// 500 for everything else.
    pub open spec fn status(self) -> u16 {
        match self {
            ChatError::NotFound => 404,
            _ => 500,
        }
    }

    /// The text that reports the error.
    pub open spec fn text(self) -> Seq<char> {
        match self {
            ChatError::NotFound => "not found"@,
            ChatError::SendError(_) => "broadcast send error: "@ + "channel closed"@,
            ChatError::RecvError(fault) => "broadcast recv error: "@ + fault.text(),
        }
    }

    /// The HTTP status that reports the error.
    pub fn status_code(&self) -> (status: u16)
        ensures
            status == self.status(),
    {
        match self {
            ChatError::NotFound => 404,
            _ => 500,
        }
    }

    /// The text that reports the error.
    pub fn message(&self) -> (text: String)
        ensures
            text@ == self.text(),
    {
        match self {
            ChatError::NotFound => String::from_str("not found"),
            ChatError::SendError(_) => {
                let mut text = String::from_str("broadcast send error: ");
                text.append("channel closed");
                text
            },
            ChatError::RecvError(fault) => {
                let mut text = String::from_str("broadcast recv error: ");
                let tail = fault.describe();
                text.append(tail.as_str());
                text
            },
        }
    }

    /// What is sent to the client: the text, the fixed code, and the status.
    pub fn body(&self) -> (body: ErrorBody)
        ensures
            body.message@ == self.text(),
            body.code == ERROR_CODE,
            body.status_code == self.status(),
    {
        ErrorBody { message: self.message(), code: ERROR_CODE, status_code: self.status_code() }
    }
}

} // verus!
