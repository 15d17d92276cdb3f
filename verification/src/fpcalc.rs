//! What the fingerprint extractor reports.
//!
//! The extractor prints one JSON object. Its member `fingerprint`, a string,
//! is read here. Output that is no JSON text, or in which there is no such
//! string, is refused: no fingerprint is made up.

use vstd::prelude::*;

verus! {

/// What `serde_json` makes of a document and a key: nothing where the
/// document is no JSON text; else the document's member `key` where that is
/// a string, and nothing in its place where the document is no object, has
/// no such member, or has one that is no string.
pub uninterp spec fn json_member_string(document: Seq<char>, key: Seq<char>) -> Option<
    Option<Seq<char>>,
>;

/// Parses `document` with `serde_json::from_str` into a `serde_json::Value`,
/// takes the member `key` with the value's index operator, which gives `null`
/// where the value is no object or has no such member, and asks it for its
/// string with `Value::as_str`, which gives one only for a JSON string. Where
/// the parser fails there is no result. All of this depends on the two texts
/// alone.
#[verifier::external_body]
fn member_string(document: &str, key: &str) -> (result: Option<Option<String>>)
    ensures
        match result {
            Some(Some(text)) => json_member_string(document@, key@) == Some(Some(text@)),
            Some(None) => json_member_string(document@, key@) == Some(None::<Seq<char>>),
            None => json_member_string(document@, key@) is None,
        },
{
    match serde_json::from_str::<serde_json::Value>(document) {
        Ok(value) => Some(value[key].as_str().map(str::to_owned)),
        Err(_) => None,
    }
}

/// Why the extractor's output could not be used.
#[derive(Clone, Copy, Debug, PartialEq, Eq, Structural)]
pub enum FpcalcError {
    /// The output is no JSON text.
    InvalidJson,
    /// The output holds no string named `fingerprint`.
    NoFingerprint,
}

/// A fingerprint and the length of the audio it was taken from, in whole
/// seconds.
#[derive(Debug)]
pub struct Fpcalc {
    pub duration: u64,
    pub fingerprint: String,
}

pub ghost struct FpcalcView {
    pub duration: u64,
    pub fingerprint: Seq<char>,
}

impl View for Fpcalc {
    type V = FpcalcView;

    open spec fn view(&self) -> FpcalcView {
        FpcalcView { duration: self.duration, fingerprint: self.fingerprint@ }
    }
}

/// The report that is made of what was found under `fingerprint` in the
/// extractor's output, and of a duration.
pub open spec fn report_of(member: Option<Option<Seq<char>>>, duration: u64) -> Result<
    FpcalcView,
    FpcalcError,
> {
    match member {
        Some(Some(fingerprint)) => Ok(FpcalcView { duration, fingerprint }),
        Some(None) => Err(FpcalcError::NoFingerprint),
        None => Err(FpcalcError::InvalidJson),
    }
}

impl Fpcalc {
    /// Makes the report of what was found under `fingerprint`: nothing at
    /// all where the output was no JSON text, nothing in its place where
    /// there was no such string. Only a string gives a report, and it is the
    /// report's fingerprint as it is.
    pub fn from_member(member: Option<Option<String>>, duration: u64) -> (result: Result<
        Fpcalc,
        FpcalcError,
    >)
        ensures
            match result {
                Ok(report) => report_of(member.deep_view(), duration) == Ok::<
                    FpcalcView,
                    FpcalcError,
                >(report@),
                Err(error) => report_of(member.deep_view(), duration) == Err::<
                    FpcalcView,
                    FpcalcError,
                >(error),
            },
    {
        match member {
            Some(Some(fingerprint)) => Ok(Fpcalc { duration, fingerprint }),
            Some(None) => Err(FpcalcError::NoFingerprint),
            None => Err(FpcalcError::InvalidJson),
        }
    }

    /// Reads the fingerprint out of the extractor's output. The duration is
    /// the caller's. Fails where the output is no JSON text, and where it
    /// holds no string named `fingerprint`.
    pub fn from_output(output: &str, duration: u64) -> (result: Result<Fpcalc, FpcalcError>)
        ensures
            match result {
                Ok(report) => report_of(json_member_string(output@, "fingerprint"@), duration)
                    == Ok::<FpcalcView, FpcalcError>(report@),
                Err(error) => report_of(json_member_string(output@, "fingerprint"@), duration)
                    == Err::<FpcalcView, FpcalcError>(error),
            },
    {
        Fpcalc::from_member(member_string(output, "fingerprint"), duration)
    }
}

} // verus!
