//! Event types and the library's error type.

use vstd::prelude::*;
use vstd::string::StringExecFns;

verus! {

/// A text message received from a WebSocket client; the data is valid UTF-8.
pub struct TextMessageEvent {
    /// The UTF-8 text content of the message.
    pub data: String,
}

impl TextMessageEvent {
    /// Wraps text content in an event.
    pub fn new(data: String) -> (r: Self)
        ensures
            r.data@ == data@,
    {
        TextMessageEvent { data }
    }
}

/// A binary message received from a WebSocket client.
pub struct BinaryMessageEvent {
    /// The binary data as a vector of bytes.
    pub data: Vec<u8>,
}

impl BinaryMessageEvent {
    /// Wraps binary content in an event.
    pub fn new(data: Vec<u8>) -> (r: Self)
        ensures
            r.data@ == data@,
    {
        BinaryMessageEvent { data }
    }
}

/// The character for a single decimal digit.
pub open spec fn digit_char(d: nat) -> char {
    if d == 0 {
        '0'
    } else if d == 1 {
        '1'
    } else if d == 2 {
        '2'
    } else if d == 3 {
        '3'
    } else if d == 4 {
        '4'
    } else if d == 5 {
        '5'
    } else if d == 6 {
        '6'
    } else if d == 7 {
        '7'
    } else if d == 8 {
        '8'
    } else {
        '9'
    }
}

/// The decimal rendering of a natural number, most significant digit first,
/// with no leading zeros (except for the number zero itself).
pub open spec fn dec_str(n: nat) -> Seq<char>
    decreases n,
{
    if n < 10 {
        seq![digit_char(n)]
    } else {
        dec_str(n / 10).push(digit_char(n % 10))
    }
}

/// Appends the character for one decimal digit to a string.
fn push_digit(s: &mut String, d: u16)
    requires
        d < 10,
    ensures
        final(s)@ == old(s)@.push(digit_char(d as nat)),
{
    proof {
        reveal_strlit("0");
        reveal_strlit("1");
        reveal_strlit("2");
        reveal_strlit("3");
        reveal_strlit("4");
        reveal_strlit("5");
        reveal_strlit("6");
        reveal_strlit("7");
        reveal_strlit("8");
        reveal_strlit("9");
    }
    match d {
        0 => s.append("0"),
        1 => s.append("1"),
        2 => s.append("2"),
        3 => s.append("3"),
        4 => s.append("4"),
        5 => s.append("5"),
        6 => s.append("6"),
        7 => s.append("7"),
        8 => s.append("8"),
        _ => s.append("9"),
    }
    proof {
        assert(final(s)@ =~= old(s)@.push(digit_char(d as nat)));
    }
}

/// Renders an unsigned 16-bit number in decimal.
pub fn u16_to_string(n: u16) -> (r: String)
    ensures
        r@ == dec_str(n as nat),
    decreases n,
{
    if n < 10 {
        let mut s = String::new();
        push_digit(&mut s, n);
        proof {
            assert(s@ =~= dec_str(n as nat));
        }
        s
    } else {
        let mut s = u16_to_string(n / 10);
        push_digit(&mut s, n % 10);
        s
    }
}

/// The descriptive rendering of a close event.
pub open spec fn close_event_text(code: nat, reason: Seq<char>) -> Seq<char> {
    "CloseEvent { code: "@ + dec_str(code) + ", reason: "@ + reason + " }"@
}

/// A WebSocket connection close event: the close code and a human-readable
/// reason, either taken verbatim from the peer's close frame or the
/// substitutes (1005, "No status received") when the frame had no body.
pub struct CloseEvent {
    /// The WebSocket close code indicating the reason for closure.
    pub code: u16,
    /// A human-readable description of the closure reason.
    pub reason: String,
}

impl CloseEvent {
    /// Creates a new close event.
    pub fn new(code: u16, reason: String) -> (r: Self)
        ensures
            r.code == code,
            r.reason@ == reason@,
    {
        CloseEvent { code, reason }
    }

    /// A descriptive one-line rendering of the event.
    pub fn message(&self) -> (r: String)
        ensures
            r@ == close_event_text(self.code as nat, self.reason@),
    {
        let mut s = String::from_str("CloseEvent { code: ");
        let num = u16_to_string(self.code);
        s.append(num.as_str());
        s.append(", reason: ");
        s.append(self.reason.as_str());
        s.append(" }");
        proof {
            assert(s@ =~= close_event_text(self.code as nat, self.reason@));
        }
        s
    }
}

/// A server-level error: connection acceptance failures, handshake errors,
/// and other conditions reported through the server's error handler.
#[derive(Debug)]
pub struct WyndError {
    /// The error message.
    pub inner: String,
}

impl WyndError {
    /// Creates a new error carrying the given message.
    pub fn new(err: String) -> (r: Self)
        ensures
            r.inner@ == err@,
    {
        WyndError { inner: err }
    }

    /// The error message as a borrowed string slice.
    pub fn as_str(&self) -> (r: &str)
        ensures
            r@ == self.inner@,
    {
        self.inner.as_str()
    }
}

} // verus!
