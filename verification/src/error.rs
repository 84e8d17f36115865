//! The error type shared by the detection pipeline and the downstream
//! retrieval capability.

use vstd::prelude::*;
use vstd::string::StringExecFns;

verus! {

/// Which layer an [`Error`] came from.
#[derive(Clone, Copy, Debug, PartialEq, Eq, Structural)]
pub enum ErrorKind {
    /// A malformed or ambiguous source string, a failed disambiguation
    /// lookup, or a filesystem resolution failure in the detection pipeline.
    Detector,
    /// A failure in the downstream retrieval capability.
    Getter,
}

/// The error that may occur while processing a source string.
#[derive(Debug)]
pub struct Error {
    /// The layer the error came from.
    pub kind: ErrorKind,
    /// The underlying failure, rendered as text, when there is one.
    pub source: Option<String>,
    /// The URL the failure concerns, when one is known.
    pub url: Option<String>,
}

/// Holds when `e` is a detector error carrying exactly the message `msg`
/// and naming no URL.
pub open spec fn is_detector_error(e: Error, msg: Seq<char>) -> bool {
    &&& e.kind == ErrorKind::Detector
    &&& e.source matches Some(s) && s@ == msg
    &&& e.url is None
}

/// The rendering of an error as one line of text: the kind, then the URL it
/// concerns when one is known, then the underlying failure when there is one.
pub open spec fn spec_display(e: Error) -> Seq<char> {
    (match e.kind {
        ErrorKind::Detector => "detector error"@,
        ErrorKind::Getter => "getter error"@,
    }) + (match e.url {
        Some(u) => " for url ("@ + u@ + ")"@,
        None => Seq::<char>::empty(),
    }) + (match e.source {
        Some(s) => ": "@ + s@,
        None => Seq::<char>::empty(),
    })
}

impl Error {
    /// Build an error of the given kind around an optional underlying
    /// failure text. No URL is attached.
    pub fn new(kind: ErrorKind, source: Option<String>) -> (e: Error)
        ensures
            e.kind == kind,
            e.source == source,
            e.url is None,
    {
        Error { kind, source, url: None }
    }

    /// The URL this error concerns, when one is known.
    pub fn url(&self) -> (r: &Option<String>)
        ensures
            r == &self.url,
    {
        &self.url
    }

    /// Render the error as one line of text.
    pub fn display_string(&self) -> (r: String)
        ensures
            r@ == spec_display(*self),
    {
        let mut r = match self.kind {
            ErrorKind::Detector => String::from_str("detector error"),
            ErrorKind::Getter => String::from_str("getter error"),
        };
        match &self.url {
            Some(u) => {
                r.append(" for url (");
                r.append(u.as_str());
                r.append(")");
            },
            None => {},
        }
        match &self.source {
            Some(s) => {
                r.append(": ");
                r.append(s.as_str());
            },
            None => {},
        }
        proof {
            assert(r@ =~= spec_display(*self));
        }
        r
    }
}

/// Build a detector error around the given failure text.
pub fn detector_error(msg: String) -> (e: Error)
    ensures
        is_detector_error(e, msg@),
{
    Error::new(ErrorKind::Detector, Some(msg))
}

} // verus!
