//! HTTP status codes as the server's responses carry them.

use crate::text::{decimal_text, u64_to_decimal};
use vstd::prelude::*;
use vstd::string::*;

verus! {

/// The family that a status code belongs to, by its first digit.
#[derive(Clone, Copy, Debug, PartialEq, Eq, Structural)]
pub enum StatusClass {
    /// 100 to 199.
    Informational,
    /// 200 to 299.
    Success,
    /// 300 to 399.
    Redirection,
    /// 400 to 499.
    ClientError,
    /// 500 to 599.
    ServerError,
    /// 600 to 999: a valid code of no known family.
    NoClass,
}

/// A three-digit HTTP status code, from 100 to 999.
#[derive(Clone, Copy, Debug, PartialEq, Eq)]
pub struct StatusCode {
    code: u16,
}

/// The reason phrase that `hyper::StatusCode::canonical_reason` gives for the
/// status code `code`, where it knows one.
pub uninterp spec fn canonical_reason_of(code: u16) -> Option<Seq<char>>;

/// The family of the status code `code`.
pub open spec fn class_of(code: u16) -> StatusClass {
    if code < 200 {
        StatusClass::Informational
    } else if code < 300 {
        StatusClass::Success
    } else if code < 400 {
        StatusClass::Redirection
    } else if code < 500 {
        StatusClass::ClientError
    } else if code < 600 {
        StatusClass::ServerError
    } else {
        StatusClass::NoClass
    }
}

/// The phrase that is shown after the number of the status code `code`.
pub open spec fn reason_or_unknown(code: u16) -> Seq<char> {
    match canonical_reason_of(code) {
        Some(reason) => reason,
        None => "<unknown status code>"@,
    }
}

/// The text of the status code `code`: its number, a space, and its reason
/// phrase.
pub open spec fn status_text(code: u16) -> Seq<char> {
    decimal_text(code as nat) + " "@ + reason_or_unknown(code)
}

/// Asks `hyper` for the reason phrase of a status code: the call is
/// `hyper::StatusCode::from_u16(code)`, which accepts 100 to 999, followed by
/// `canonical_reason()`, a fixed table from numbers to phrases. The contract
/// names what the table holds and claims nothing else.
#[verifier::external_body]
fn hyper_canonical_reason(code: u16) -> (r: Option<&'static str>)
    requires
        100 <= code <= 999,
    ensures
        match r {
            Some(reason) => canonical_reason_of(code) == Some(reason@),
            None => canonical_reason_of(code) is None,
        },
{
    hyper::StatusCode::from_u16(code).ok().and_then(|status| status.canonical_reason())
}

impl View for StatusCode {
    type V = u16;

    closed spec fn view(&self) -> u16 {
        self.code
    }
}

impl StatusCode {
    #[verifier::type_invariant]
    spec fn in_range(self) -> bool {
        100 <= self.code <= 999
    }

    /// Makes a status code from its number; `None` unless the number is
    /// from 100 to 999.
    pub fn from_u16(code: u16) -> (r: Option<StatusCode>)
        ensures
            match r {
                Some(status) => status@ == code && 100 <= code <= 999,
                None => code < 100 || code > 999,
            },
    {
        if 100 <= code && code <= 999 {
            Some(StatusCode { code })
        } else {
            None
        }
    }

    /// The number of the status code.
    pub fn as_u16(&self) -> (r: u16)
        ensures
            r == self@,
            100 <= r <= 999,
    {
        proof {
            use_type_invariant(self);
        }
        self.code
    }

    /// The family of the status code.
    pub fn class(&self) -> (r: StatusClass)
        ensures
            r == class_of(self@),
    {
        let code = self.code;
        if code < 200 {
            StatusClass::Informational
        } else if code < 300 {
            StatusClass::Success
        } else if code < 400 {
            StatusClass::Redirection
        } else if code < 500 {
            StatusClass::ClientError
        } else if code < 600 {
            StatusClass::ServerError
        } else {
            StatusClass::NoClass
        }
    }

    /// The reason phrase of the status code, where one is on record.
    pub fn canonical_reason(&self) -> (r: Option<&'static str>)
        ensures
            match r {
                Some(reason) => canonical_reason_of(self@) == Some(reason@),
                None => canonical_reason_of(self@) is None,
            },
    {
        proof {
            use_type_invariant(self);
        }
        hyper_canonical_reason(self.code)
    }

    /// The status code as text: its number, a space, and its reason phrase,
    /// or `<unknown status code>` where none is on record.
    pub fn to_string(&self) -> (r: String)
        ensures
            r@ == status_text(self@),
    {
        let mut text = u64_to_decimal(self.code as u64);
        text.append(" ");
        match self.canonical_reason() {
            Some(reason) => text.append(reason),
            None => text.append("<unknown status code>"),
        }
        text
    }
}

} // verus!
