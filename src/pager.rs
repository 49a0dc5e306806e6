use vstd::prelude::*;

verus! {

/// Pagination data that the server sends with each page.
#[derive(Clone, Copy, Debug)]
pub struct Meta {
    pub total: u32,
    pub last_page: u32,
    pub current_page: u32,
    pub per_page: u32,
    pub prev: Option<u32>,
    pub next: Option<u32>,
}

/// One token entry of a page.
#[derive(Clone, Debug)]
pub struct Token {
    pub chain_id: u32,
    pub address: String,
    pub kind: String,
    pub protocol_slug: String,
    pub underlying_tokens: Vec<String>,
    pub primary_address: String,
}

/// One decoded page.
#[derive(Debug)]
pub struct Tokens {
    pub meta: Meta,
    pub data: Vec<Token>,
}

/// The addresses of a page's entries, in order.
pub fn addresses(tokens: &Tokens) -> (r: Vec<String>)
    ensures
        r@.len() == tokens.data@.len(),
        forall|i: int| 0 <= i < r@.len() ==> (#[trigger] r@[i])@ == tokens.data@[i].address@,
{
    let mut r: Vec<String> = Vec::new();
    let mut i: usize = 0;
    while i < tokens.data.len()
        invariant
            i <= tokens.data@.len(),
            r@.len() == i,
            forall|j: int| 0 <= j < i ==> (#[trigger] r@[j])@ == tokens.data@[j].address@,
        decreases tokens.data@.len() - i,
    {
        r.push(tokens.data[i].address.clone());
        i += 1;
    }
    r
}

/// Why a pull produced an error item.
#[derive(Clone, Copy, Debug, PartialEq, Eq, Structural)]
pub enum TokensError {
    /// The request did not get a response.
    Server,
    /// The response did not decode as a page.
    Parsing,
}

impl TokensError {
    pub fn to_string(&self) -> (r: String)
        ensures
            *self == TokensError::Server ==> r@ == "Couldn't get tokens"@,
            *self == TokensError::Parsing ==> r@ == "Couldn't parse result"@,
    {
        match self {
            TokensError::Server => String::from_str("Couldn't get tokens"),
            TokensError::Parsing => String::from_str("Couldn't parse result"),
        }
    }
}

/// What the engine waits for.
#[derive(Clone, Copy, Debug, PartialEq, Eq, Structural)]
pub enum StreamState {
    /// Nothing is outstanding; the next pull decides whether to fetch.
    Checking,
    /// A page was requested and its response is awaited.
    PollingServer,
    /// A response arrived and its decoding is awaited.
    PollingParsing,
}

/// The engine's state: pages decoded so far, the page count that the last
/// decoded page reported, and what is awaited.
pub struct StreamModel {
    pub page: nat,
    pub total_pages: Option<nat>,
    pub state: StreamState,
}

/// A pull-driven sequence over the pages of a paginated listing. It holds
/// the request's address, authorization and query; the caller performs each
/// request and decode it is asked for and reports the outcome. `page` counts
/// the pages decoded so far; `total_pages` is what the last decoded page
/// reported.
pub struct PaginatedTokensStream {
    pub url: String,
    pub auth: String,
    pub params: Vec<(String, String)>,
    pub page: u32,
    pub total_pages: Option<u32>,
    pub state: StreamState,
}

pub open spec fn opt_nat(o: Option<u32>) -> Option<nat> {
    match o {
        Some(t) => Some(t as nat),
        None => None,
    }
}

/// The page that the next pull asks for, or `None` when the sequence ends.
pub open spec fn pull_spec(m: StreamModel) -> Option<nat> {
    match m.total_pages {
        Some(t) => if m.page >= t {
            None
        } else {
            Some(m.page + 1)
        },
        None => Some(m.page + 1),
    }
}

/// The state after a pull.
pub open spec fn after_pull(m: StreamModel) -> StreamModel {
    match pull_spec(m) {
        Some(_) => StreamModel { state: StreamState::PollingServer, ..m },
        None => m,
    }
}

/// The state after the server answered (`ok`) or the request failed.
pub open spec fn after_response(m: StreamModel, ok: bool) -> StreamModel {
    if ok {
        StreamModel { state: StreamState::PollingParsing, ..m }
    } else {
        StreamModel { state: StreamState::Checking, ..m }
    }
}

/// The state after decoding: `last_page` is the page count that the page
/// reported, `None` when decoding failed.
pub open spec fn after_parse(m: StreamModel, last_page: Option<nat>) -> StreamModel {
    match last_page {
        Some(t) => StreamModel { page: m.page + 1, total_pages: Some(t), state: StreamState::Checking },
        None => StreamModel { state: StreamState::Checking, ..m },
    }
}

impl View for PaginatedTokensStream {
    type V = StreamModel;

    open spec fn view(&self) -> StreamModel {
        StreamModel {
            page: self.page as nat,
            total_pages: opt_nat(self.total_pages),
            state: self.state,
        }
    }
}

/// The states that the engine can be in: a page number is only asked for
/// when it fits, and the page count is unknown only before the first page.
pub open spec fn model_wf(m: StreamModel) -> bool {
    &&& m.page <= u32::MAX
    &&& m.state != StreamState::Checking ==> m.page < u32::MAX
    &&& m.total_pages is None ==> m.page == 0
    &&& m.total_pages matches Some(t) ==> t <= u32::MAX
}

impl PaginatedTokensStream {
    pub open spec fn wf(&self) -> bool {
        model_wf(self@)
    }

    /// A fresh engine: no page fetched, page count unknown.
    pub fn new(url: String, auth: String, params: Vec<(String, String)>) -> (r: Self)
        ensures
            r.wf(),
            r@ == (StreamModel { page: 0, total_pages: None, state: StreamState::Checking }),
            r.url == url,
            r.auth == auth,
            r.params == params,
    {
        PaginatedTokensStream { url, auth, params, page: 0, total_pages: None, state: StreamState::Checking }
    }

    /// Starts a pull. Returns the page to request, or `None` once the page
    /// count is known and reached, which ends the sequence.
    pub fn poll_request(&mut self) -> (r: Option<u32>)
        requires
            old(self).wf(),
            old(self)@.state == StreamState::Checking,
        ensures
            final(self).wf(),
            final(self).url == old(self).url,
            final(self).auth == old(self).auth,
            final(self).params == old(self).params,
            pull_spec(old(self)@) == (match r {
                Some(p) => Some(p as nat),
                None => None::<nat>,
            }),
            final(self)@ == after_pull(old(self)@),
    {
        if let Some(total_pages) = self.total_pages {
            if self.page >= total_pages {
                return None;
            }
        }
        self.state = StreamState::PollingServer;
        Some(self.page + 1)
    }

    /// Reports the outcome of the request. A failed request yields an error
    /// item and lets the next pull try the same page again.
    pub fn on_server_response(&mut self, ok: bool) -> (r: Option<TokensError>)
        requires
            old(self).wf(),
            old(self)@.state == StreamState::PollingServer,
        ensures
            final(self).wf(),
            final(self).url == old(self).url,
            final(self).auth == old(self).auth,
            final(self).params == old(self).params,
            final(self)@ == after_response(old(self)@, ok),
            ok ==> r is None,
            !ok ==> r == Some(TokensError::Server),
    {
        if ok {
            self.state = StreamState::PollingParsing;
            None
        } else {
            self.state = StreamState::Checking;
            Some(TokensError::Server)
        }
    }

    /// Reports the decoded page, `None` when decoding failed. A decoded page
    /// advances the cursor, takes the page count it reports, and yields its
    /// addresses; a failure yields an error item and leaves the cursor.
    pub fn on_parsed(&mut self, parsed: Option<Tokens>) -> (r: Result<Vec<String>, TokensError>)
        requires
            old(self).wf(),
            old(self)@.state == StreamState::PollingParsing,
        ensures
            final(self).wf(),
            final(self).url == old(self).url,
            final(self).auth == old(self).auth,
            final(self).params == old(self).params,
            final(self)@ == after_parse(
                old(self)@,
                match parsed {
                    Some(t) => Some(t.meta.last_page as nat),
                    None => None,
                },
            ),
            parsed is None ==> r == Err::<Vec<String>, TokensError>(TokensError::Parsing),
            parsed matches Some(t) ==> r matches Ok(a) && a@.len() == t.data@.len()
                && forall|i: int| 0 <= i < a@.len() ==> (#[trigger] a@[i])@ == t.data@[i].address@,
    {
        self.state = StreamState::Checking;
        match parsed {
            Some(tokens) => {
                self.page = self.page + 1;
                self.total_pages = Some(tokens.meta.last_page);
                Ok(addresses(&tokens))
            },
            None => Err(TokensError::Parsing),
        }
    }
}

/// One successful round (a pull that asks for page `p`, a response, a page
/// that reports `t` pages) leaves `p` pages decoded; the next pull asks for
/// page `p + 1` while `p < t` and ends the sequence otherwise.
pub proof fn lemma_round_advances(m: StreamModel, t: nat)
    requires
        model_wf(m),
        m.state == StreamState::Checking,
        pull_spec(m) is Some,
    ensures
        ({
            let p = pull_spec(m)->Some_0;
            let m2 = after_parse(after_response(after_pull(m), true), Some(t));
            &&& p == m.page + 1
            &&& m2.page == p
            &&& m2.state == StreamState::Checking
            &&& pull_spec(m2) == (if p < t {
                Some(p + 1)
            } else {
                None::<nat>
            })
        }),
{
}

/// A listing whose pages each report two pages is read as page 1, then
/// page 2, and the third pull ends the sequence.
pub proof fn lemma_two_pages_then_end()
    ensures
        ({
            let m0 = StreamModel { page: 0, total_pages: None, state: StreamState::Checking };
            let m1 = after_parse(after_response(after_pull(m0), true), Some(2));
            let m2 = after_parse(after_response(after_pull(m1), true), Some(2));
            &&& pull_spec(m0) == Some(1nat)
            &&& pull_spec(m1) == Some(2nat)
            &&& pull_spec(m2) is None
            &&& after_pull(m2) == m2
        }),
{
    let m0 = StreamModel { page: 0, total_pages: None, state: StreamState::Checking };
    lemma_round_advances(m0, 2);
    let m1 = after_parse(after_response(after_pull(m0), true), Some(2));
    lemma_round_advances(m1, 2);
}

/// A failed request or a failed decode does not end the sequence nor move
/// the cursor: the next pull asks for the same page again.
pub proof fn lemma_failure_retries_page(m: StreamModel)
    requires
        model_wf(m),
        m.state == StreamState::Checking,
        pull_spec(m) is Some,
    ensures
        ({
            let decode_failed = after_parse(after_response(after_pull(m), true), None);
            let request_failed = after_response(after_pull(m), false);
            &&& decode_failed == m
            &&& request_failed == m
            &&& pull_spec(decode_failed) == pull_spec(m)
            &&& pull_spec(request_failed) == pull_spec(m)
        }),
{
}

} // verus!
