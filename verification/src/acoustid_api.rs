//! Requests to the AcoustID lookup service.
//!
//! A request is the URL of one lookup. Sending it is left to the caller.

use crate::text::{decimal, push_decimal};
use vstd::prelude::*;
use vstd::string::StringExecFns;

verus! {

/// The URL that looks up a fingerprint: the service's endpoint, the request
/// for recordings and release groups, then the client's key, the duration in
/// whole seconds and the fingerprint, each written as it is.
pub open spec fn lookup_url(client: Seq<char>, duration: nat, fingerprint: Seq<char>) -> Seq<
    char,
> {
    "https://api.acoustid.org/v2/lookup"@ + "?meta=recordings+releasegroups&client="@ + client
        + "&duration="@ + decimal(duration) + "&fingerprint="@ + fingerprint
}

/// A client of the lookup service, known to it by its key.
#[derive(Debug)]
pub struct AcoustIdApi {
    client_api_key: String,
}

impl View for AcoustIdApi {
    type V = Seq<char>;

    /// The client's key.
    closed spec fn view(&self) -> Seq<char> {
        self.client_api_key@
    }
}

/// One lookup, ready to be sent.
#[derive(Debug)]
pub struct Request {
    url: String,
}

impl View for Request {
    type V = Seq<char>;

    /// The request's URL.
    closed spec fn view(&self) -> Seq<char> {
        self.url@
    }
}

impl AcoustIdApi {
    pub fn new(client_api_key: String) -> (api: Self)
        ensures
            api@ == client_api_key@,
    {
        AcoustIdApi { client_api_key }
    }

    /// The lookup of a fingerprint that was taken of `duration_in_secs`
    /// seconds of audio.
    pub fn request(&self, duration_in_secs: u64, fingerprint: String) -> (request: Request)
        ensures
            request@ == lookup_url(self@, duration_in_secs as nat, fingerprint@),
    {
        let mut url = String::from_str("https://api.acoustid.org/v2/lookup");
        url.append("?meta=recordings+releasegroups&client=");
        url.append(self.client_api_key.as_str());
        url.append("&duration=");
        push_decimal(&mut url, duration_in_secs);
        url.append("&fingerprint=");
        url.append(fingerprint.as_str());
        Request { url }
    }
}

impl Request {
    /// The URL to fetch.
    pub fn url(&self) -> (url: &str)
        ensures
            url@ == self@,
    {
        self.url.as_str()
    }
}

} // verus!
