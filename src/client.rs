use vstd::prelude::*;

use crate::pager::{PaginatedTokensStream, StreamModel, StreamState};

verus! {

/// A version of the service's API.
#[derive(Clone, Copy, Debug, PartialEq, Eq, Structural)]
pub enum Version {
    V1,
}

pub open spec fn version_text(v: Version) -> Seq<char> {
    match v {
        Version::V1 => "v1"@,
    }
}

impl Version {
    /// The version as it stands in request paths.
    pub fn to_string(&self) -> (r: String)
        ensures
            r@ == version_text(*self),
    {
        match self {
            Version::V1 => String::from_str("v1"),
        }
    }
}

/// Settings read from the environment.
#[derive(Clone, Debug)]
pub struct Config {
    pub api_key: String,
}

/// Access to the service: its address, the caller's key and the API version.
#[derive(Clone, Debug)]
pub struct Enso {
    pub api_address: String,
    pub api_key: String,
    pub version: String,
}

/// The base of every request path.
pub open spec fn api_url_spec(e: Enso) -> Seq<char> {
    e.api_address@ + "/api/"@ + e.version@
}

fn concat(a: &str, b: &str) -> (r: String)
    ensures
        r@ == a@ + b@,
{
    let mut r = String::from_str(a);
    r.append(b);
    r
}

impl Enso {
    /// Access to the public service with the given key.
    pub fn new(api_key: String, version: Version) -> (r: Enso)
        ensures
            r.api_address@ == "https://api.enso.finance"@,
            r.api_key == api_key,
            r.version@ == version_text(version),
    {
        Enso {
            api_address: String::from_str("https://api.enso.finance"),
            api_key,
            version: version.to_string(),
        }
    }

    /// `<address>/api/<version>`.
    pub fn get_api_url(&self) -> (r: String)
        ensures
            r@ == api_url_spec(*self),
    {
        let base = concat(self.api_address.as_str(), "/api/");
        concat(base.as_str(), self.version.as_str())
    }

    /// The address of a resource: `<address>/api/<version>/<resource>`.
    pub fn endpoint(&self, resource: &str) -> (r: String)
        ensures
            r@ == api_url_spec(*self) + "/"@ + resource@,
    {
        let base = concat(self.get_api_url().as_str(), "/");
        concat(base.as_str(), resource)
    }

    /// The authorization header value: `Bearer <key>`.
    pub fn bearer(&self) -> (r: String)
        ensures
            r@ == "Bearer "@ + self.api_key@,
    {
        concat("Bearer ", self.api_key.as_str())
    }

    /// A fresh paginated sequence over the token listing, filtered by the
    /// given query pairs.
    pub fn tokens_stream(&self, params: &[(&str, &str)]) -> (r: PaginatedTokensStream)
        ensures
            r.wf(),
            r@ == (StreamModel { page: 0, total_pages: None, state: StreamState::Checking }),
            r.url@ == api_url_spec(*self) + "/"@ + "tokens"@,
            r.auth@ == "Bearer "@ + self.api_key@,
            r.params@.len() == params@.len(),
            forall|i: int|
                0 <= i < params@.len() ==> (#[trigger] r.params@[i]).0@ == params@[i].0@
                    && r.params@[i].1@ == params@[i].1@,
    {
        let mut owned: Vec<(String, String)> = Vec::new();
        let mut i: usize = 0;
        while i < params.len()
            invariant
                i <= params@.len(),
                owned@.len() == i,
                forall|j: int|
                    0 <= j < i ==> (#[trigger] owned@[j]).0@ == params@[j].0@ && owned@[j].1@
                        == params@[j].1@,
            decreases params@.len() - i,
        {
            let (f, v) = params[i];
            owned.push((String::from_str(f), String::from_str(v)));
            i += 1;
        }
        PaginatedTokensStream::new(self.endpoint("tokens"), self.bearer(), owned)
    }
}

} // verus!
