use vstd::prelude::*;

use crate::aggregate::{aggregate, is_frequency_table, Item, LangCount};
use crate::error::ErrorKind;
use crate::pagination::{join_pages, joined_pages, total_pages, total_pages_of, FirstPage};

verus! {

/// How long a credential stays bound to its correlation token, in seconds.
pub const CREDENTIAL_TTL_SECONDS: u64 = 3600;

/// The view of an optional string.
pub open spec fn opt_view(s: Option<String>) -> Option<Seq<char>> {
    match s {
        Some(t) => Some(t@),
        None => None,
    }
}

/// Where the authorization callback stands.
#[derive(Clone, Copy, Debug, PartialEq, Eq, Structural)]
pub enum CallbackPhase {
    Exchanging,
    Storing,
    Finished,
}

/// What the caller of the authorization callback does next.
#[derive(Debug)]
pub enum CallbackAction {
    /// Exchange the authorization code for a credential at the remote.
    Exchange { code: String },
    /// Store the credential under the correlation token for `ttl_seconds`.
    Store { token: String, credential: String, ttl_seconds: u64 },
    /// Answer with a temporary redirect to `target`.
    Redirect { target: String },
    /// Answer with the error envelope of `error`.
    Fail { error: ErrorKind },
}

/// The authorization callback: exchanges a code for a credential and binds
/// the credential to a correlation token. Each outside step is tried once.
pub struct CallbackHandler {
    pub token: String,
    pub phase: CallbackPhase,
}

impl CallbackHandler {
    /// Begins the callback for authorization code `code` and correlation
    /// token `token`: the code goes to the exchange first.
    pub fn start(code: String, token: String) -> (r: (CallbackHandler, CallbackAction))
        ensures
            r.0.token == token,
            r.0.phase == CallbackPhase::Exchanging,
            r.1 == (CallbackAction::Exchange { code }),
    {
        (CallbackHandler { token, phase: CallbackPhase::Exchanging }, CallbackAction::Exchange { code })
    }

    /// Takes the outcome of the exchange: the credential, or `None` when the
    /// remote could not be reached or its answer could not be read.
    pub fn on_exchange(&mut self, credential: Option<String>) -> (r: CallbackAction)
        requires
            old(self).phase == CallbackPhase::Exchanging,
        ensures
            final(self).token == old(self).token,
            match credential {
                Some(c) => final(self).phase == CallbackPhase::Storing && r == (CallbackAction::Store {
                    token: old(self).token,
                    credential: c,
                    ttl_seconds: CREDENTIAL_TTL_SECONDS,
                }),
                None => final(self).phase == CallbackPhase::Finished && r == (CallbackAction::Fail {
                    error: ErrorKind::ExchangeFailed,
                }),
            },
    {
        match credential {
            Some(c) => {
                self.phase = CallbackPhase::Storing;
                CallbackAction::Store {
                    token: self.token.clone(),
                    credential: c,
                    ttl_seconds: CREDENTIAL_TTL_SECONDS,
                }
            },
            None => {
                self.phase = CallbackPhase::Finished;
                CallbackAction::Fail { error: ErrorKind::ExchangeFailed }
            },
        }
    }

    /// Takes the outcome of the store write: whether the cache took it.
    pub fn on_store(&mut self, stored: bool) -> (r: CallbackAction)
        requires
            old(self).phase == CallbackPhase::Storing,
        ensures
            final(self).token == old(self).token,
            final(self).phase == CallbackPhase::Finished,
            stored ==> r is Redirect && r->Redirect_target@ == "/"@,
            !stored ==> r == (CallbackAction::Fail { error: ErrorKind::StoreUnavailable }),
    {
        self.phase = CallbackPhase::Finished;
        if stored {
            CallbackAction::Redirect { target: String::from_str("/") }
        } else {
            CallbackAction::Fail { error: ErrorKind::StoreUnavailable }
        }
    }
}

/// What a credential lookup in the cache gave.
#[derive(Debug)]
pub enum Lookup {
    Found(String),
    Missing,
    Unreachable,
}

/// Where an analysis stands.
#[derive(Clone, Copy, Debug, PartialEq, Eq, Structural)]
pub enum AnalyzePhase {
    Resolving,
    FetchingFirst,
    FetchingRest,
    Finished,
}

/// What the caller of an analysis does next.
#[derive(Debug)]
pub enum AnalyzeAction {
    /// Look the correlation token up in the credential cache.
    LookUp { token: String },
    /// Fetch the first listing page with `credential`.
    FetchFirst { credential: String },
    /// Fetch pages `first..=last` with `credential`, concurrently, and hand
    /// back their outcomes in page order.
    FetchPages { credential: String, first: u32, last: u32 },
    /// Answer with `result`.
    Reply { result: Result<Vec<LangCount>, ErrorKind> },
}

/// The action that answers with the error `e`.
pub open spec fn reply_error(e: ErrorKind) -> AnalyzeAction {
    AnalyzeAction::Reply { result: Err(e) }
}

/// Whether `a` answers with the frequency table of the languages of `items`.
pub open spec fn replies_table(a: AnalyzeAction, items: Seq<Item>) -> bool {
    match a {
        AnalyzeAction::Reply { result: Ok(t) } => is_frequency_table(t@, items),
        _ => false,
    }
}

/// An analysis: resolves a correlation token to a credential, fetches every
/// listing page with it and counts the items by language. All or nothing:
/// any failure ends it with that failure.
pub struct AnalyzeOrchestrator {
    pub phase: AnalyzePhase,
    pub credential: String,
    pub first_items: Vec<Item>,
    pub total: u32,
}

impl AnalyzeOrchestrator {
    /// Begins an analysis for correlation token `token`: the cache is asked
    /// first.
    pub fn start(token: String) -> (r: (AnalyzeOrchestrator, AnalyzeAction))
        ensures
            r.0.phase == AnalyzePhase::Resolving,
            r.1 == (AnalyzeAction::LookUp { token }),
    {
        (
            AnalyzeOrchestrator {
                phase: AnalyzePhase::Resolving,
                credential: String::new(),
                first_items: Vec::new(),
                total: 0,
            },
            AnalyzeAction::LookUp { token },
        )
    }

    /// Takes what the cache gave for the token. An unknown or expired token
    /// ends the analysis as unauthorized, before any fetch.
    pub fn on_lookup(&mut self, lookup: Lookup) -> (r: AnalyzeAction)
        requires
            old(self).phase == AnalyzePhase::Resolving,
        ensures
            match lookup {
                Lookup::Found(c) => final(self).phase == AnalyzePhase::FetchingFirst
                    && final(self).credential == c && r == (AnalyzeAction::FetchFirst {
                    credential: c,
                }),
                Lookup::Missing => final(self).phase == AnalyzePhase::Finished && r == reply_error(
                    ErrorKind::Unauthorized,
                ),
                Lookup::Unreachable => final(self).phase == AnalyzePhase::Finished && r
                    == reply_error(ErrorKind::StoreUnavailable),
            },
    {
        match lookup {
            Lookup::Found(c) => {
                self.phase = AnalyzePhase::FetchingFirst;
                self.credential = c.clone();
                AnalyzeAction::FetchFirst { credential: c }
            },
            Lookup::Missing => {
                self.phase = AnalyzePhase::Finished;
                AnalyzeAction::Reply { result: Err(ErrorKind::Unauthorized) }
            },
            Lookup::Unreachable => {
                self.phase = AnalyzePhase::Finished;
                AnalyzeAction::Reply { result: Err(ErrorKind::StoreUnavailable) }
            },
        }
    }

    /// Takes the first listing page, `None` when the remote could not be
    /// reached. The pagination header is read first, then the items; a
    /// single page is counted at once, more pages are fetched.
    pub fn on_first_page(&mut self, page: Option<FirstPage>) -> (r: AnalyzeAction)
        requires
            old(self).phase == AnalyzePhase::FetchingFirst,
        ensures
            final(self).credential == old(self).credential,
            match page {
                None => final(self).phase == AnalyzePhase::Finished && r == reply_error(
                    ErrorKind::UpstreamUnavailable,
                ),
                Some(p) => match total_pages_of(opt_view(p.link)) {
                    Err(e) => final(self).phase == AnalyzePhase::Finished && r == reply_error(e),
                    Ok(t) => match p.items {
                        None => final(self).phase == AnalyzePhase::Finished && r == reply_error(
                            ErrorKind::MalformedResponse,
                        ),
                        Some(items) => if t <= 1 {
                            final(self).phase == AnalyzePhase::Finished && replies_table(r, items@)
                        } else {
                            &&& final(self).phase == AnalyzePhase::FetchingRest
                            &&& final(self).first_items@ == items@
                            &&& final(self).total == t
                            &&& r == (AnalyzeAction::FetchPages {
                                credential: old(self).credential,
                                first: 2,
                                last: t,
                            })
                        },
                    },
                },
            },
    {
        match page {
            None => {
                self.phase = AnalyzePhase::Finished;
                AnalyzeAction::Reply { result: Err(ErrorKind::UpstreamUnavailable) }
            },
            Some(p) => {
                let FirstPage { link, items } = p;
                match total_pages(&link) {
                    Err(e) => {
                        self.phase = AnalyzePhase::Finished;
                        AnalyzeAction::Reply { result: Err(e) }
                    },
                    Ok(t) => match items {
                        None => {
                            self.phase = AnalyzePhase::Finished;
                            AnalyzeAction::Reply { result: Err(ErrorKind::MalformedResponse) }
                        },
                        Some(v) => {
                            if t <= 1 {
                                self.phase = AnalyzePhase::Finished;
                                AnalyzeAction::Reply { result: Ok(aggregate(&v)) }
                            } else {
                                self.phase = AnalyzePhase::FetchingRest;
                                self.first_items = v;
                                self.total = t;
                                AnalyzeAction::FetchPages {
                                    credential: self.credential.clone(),
                                    first: 2,
                                    last: t,
                                }
                            }
                        },
                    },
                }
            },
        }
    }

    /// Takes the outcomes of pages `2..=total`, in page order. If any page
    /// failed, the first failure is the answer and no item is counted;
    /// otherwise the items of all pages are counted by language.
    pub fn on_pages(&mut self, pages: Vec<Result<Vec<Item>, ErrorKind>>) -> (r: AnalyzeAction)
        requires
            old(self).phase == AnalyzePhase::FetchingRest,
            pages@.len() + 1 == old(self).total,
        ensures
            final(self).phase == AnalyzePhase::Finished,
            match joined_pages(old(self).first_items@, pages@) {
                Err(e) => r == reply_error(e),
                Ok(all) => replies_table(r, all),
            },
    {
        self.phase = AnalyzePhase::Finished;
        let mut first: Vec<Item> = Vec::new();
        core::mem::swap(&mut first, &mut self.first_items);
        match join_pages(first, &pages) {
            Err(e) => AnalyzeAction::Reply { result: Err(e) },
            Ok(all) => AnalyzeAction::Reply { result: Ok(aggregate(&all)) },
        }
    }
}

} // verus!
