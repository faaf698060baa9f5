//! Errors of a subgraph call. Anything returned to the client is turned into
//! a GraphQL error first (see [`crate::merge`]).

use vstd::prelude::*;
use crate::text::{decimal, decimal_chars, decimal_string, digit_char, string_of};

verus! {

/// Why a subgraph call produced no response. Durations are in milliseconds.
#[derive(Debug)]
pub enum SubgraphError {
    /// No response within the call's timeout.
    Timeout(u64),
    /// A response with a non-2xx status.
    BadStatus { status: u16, body: String },
    Transport(String),
    Decode(String),
    /// The subgraph's circuit breaker refused the call.
    CircuitOpen { retry_after_ms: u64 },
}

impl SubgraphError {
    /// The error's text.
    pub open spec fn spec_message(e: SubgraphError) -> Seq<char> {
        match e {
            SubgraphError::Timeout(ms) => "subgraph timed out after "@ + duration_debug(ms),
            SubgraphError::BadStatus { status, body } => "subgraph returned HTTP "@ + decimal(status as nat)
                + ": "@ + body@,
            SubgraphError::Transport(m) => "transport error: "@ + m@,
            SubgraphError::Decode(m) => "could not deserialize subgraph response: "@ + m@,
            SubgraphError::CircuitOpen { retry_after_ms } => "circuit breaker open for this subgraph (retry after "@
                + duration_debug(retry_after_ms) + ")"@,
        }
    }

    /// The error's text, as logged.
    pub fn message(&self) -> (r: String)
        ensures
            r@ == Self::spec_message(*self),
    {
        match self {
            SubgraphError::Timeout(ms) => {
                let mut m = "subgraph timed out after ".to_owned();
                m.append(duration_debug_text(*ms).as_str());
                m
            },
            SubgraphError::BadStatus { status, body } => {
                let mut m = "subgraph returned HTTP ".to_owned();
                m.append(decimal_string(*status as u64).as_str());
                m.append(": ");
                m.append(body.as_str());
                m
            },
            SubgraphError::Transport(t) => {
                let mut m = "transport error: ".to_owned();
                m.append(t.as_str());
                m
            },
            SubgraphError::Decode(t) => {
                let mut m = "could not deserialize subgraph response: ".to_owned();
                m.append(t.as_str());
                m
            },
            SubgraphError::CircuitOpen { retry_after_ms } => {
                let mut m = "circuit breaker open for this subgraph (retry after ".to_owned();
                m.append(duration_debug_text(*retry_after_ms).as_str());
                m.append(")");
                m
            },
        }
    }
}

/// The digits of the fraction `r / 1000` (`0 < r < 1000`), without trailing
/// zeros.
pub open spec fn millis_fraction(r: nat) -> Seq<char> {
    let (a, b, c) = (r / 100, (r / 10) % 10, r % 10);
    if c != 0 {
        seq![digit_char(a), digit_char(b), digit_char(c)]
    } else if b != 0 {
        seq![digit_char(a), digit_char(b)]
    } else {
        seq![digit_char(a)]
    }
}

/// The text that `std::time::Duration`'s `Debug` gives for `ms` whole
/// milliseconds: `0ns` for none, `Nms` below a second, else the seconds with
/// the fraction's digits (trailing zeros dropped) and `s`: `250ms`, `1s`,
/// `1.5s`, `2.005s`.
pub open spec fn duration_debug(ms: u64) -> Seq<char> {
    if ms == 0 {
        seq!['0', 'n', 's']
    } else if ms < 1000 {
        decimal(ms as nat) + seq!['m', 's']
    } else if ms % 1000 == 0 {
        decimal((ms / 1000) as nat) + seq!['s']
    } else {
        decimal((ms / 1000) as nat) + seq!['.'] + millis_fraction((ms % 1000) as nat) + seq!['s']
    }
}

fn digit(d: u64) -> (c: char)
    requires
        d < 10,
    ensures
        c == digit_char(d as nat),
{
    ((d as u8) + 48) as char
}

/// `format!("{:?}", Duration::from_millis(ms))`.
pub fn duration_debug_text(ms: u64) -> (r: String)
    ensures
        r@ == duration_debug(ms),
{
    let mut v: Vec<char> = Vec::new();
    if ms == 0 {
        v.push('0');
        v.push('n');
        v.push('s');
        assert(v@ =~= seq!['0', 'n', 's']);
    } else if ms < 1000 {
        v = decimal_chars(ms);
        let ghost d = v@;
        v.push('m');
        v.push('s');
        assert(v@ =~= d + seq!['m', 's']);
    } else {
        v = decimal_chars(ms / 1000);
        let ghost d = v@;
        let r = ms % 1000;
        if r == 0 {
            v.push('s');
            assert(v@ =~= d + seq!['s']);
        } else {
            v.push('.');
            v.push(digit(r / 100));
            let (b, c) = ((r / 10) % 10, r % 10);
            if c != 0 {
                v.push(digit(b));
                v.push(digit(c));
            } else if b != 0 {
                v.push(digit(b));
            }
            v.push('s');
            assert(v@ =~= d + seq!['.'] + millis_fraction(r as nat) + seq!['s']);
        }
    }
    string_of(v.as_slice())
}

} // verus!
