//! The result correlator: an aggregated result is kept under a fresh
//! identifier for a fixed time, so that a later step can find it again.
//!
//! Time is what the caller says it is, in seconds; the correlator never reads
//! a clock. An entry is found until its time is up and never after, whether
//! or not it has been removed yet.

use vstd::prelude::*;
use uuid::Uuid;
use crate::keyed_store::KeyedStore;
use crate::quote::{buildable, CanonicalQuote};
use crate::quote_router::{RankedQuote, RouteOutcome};
use crate::text::{append_str, owned};

verus! {

/// Seconds an aggregated result is kept. Reading it does not prolong it.
pub const RETENTION_SECS: u64 = 600;

/// The aggregated result of one request.
pub struct AggregatedQuoteEnvelope {
    pub request_id: String,
    pub success: bool,
    pub data: Vec<RankedQuote>,
}

/// An envelope with the time at which it stops being found.
pub struct StoredEnvelope {
    pub envelope: AggregatedQuoteEnvelope,
    pub expires_at: u64,
}

/// What became of an aggregated result.
pub enum ProcessedQuote {
    /// It is kept under `request_id` and may be removed from `evict_at` on.
    Stored { request_id: String, evict_at: u64 },
    /// Nothing is kept; the reason in words.
    Rejected { message: String },
}

/// A new identifier.
///
/// Trusted: `Uuid::new_v4` and the `to_string` of a `Uuid`, of the crate
/// `uuid`. The identifier is random; all that is claimed is its length, that
/// of the hyphenated form.
#[verifier::external_body]
fn fresh_request_id() -> (id: String)
    ensures
        id@.len() == 36,
{
    Uuid::new_v4().to_string()
}

/// The time at which an entry stored at `now` stops being found.
pub open spec fn expiry(now: u64) -> u64 {
    if now <= u64::MAX - RETENTION_SECS {
        (now + RETENTION_SECS) as u64
    } else {
        u64::MAX
    }
}

/// The entries after an envelope is stored at `now`: it is added under its
/// identifier unless that is taken.
pub open spec fn stored(
    entries: Map<Seq<char>, StoredEnvelope>,
    envelope: AggregatedQuoteEnvelope,
    now: u64,
) -> Map<Seq<char>, StoredEnvelope> {
    if entries.contains_key(envelope.request_id@) {
        entries
    } else {
        entries.insert(envelope.request_id@, StoredEnvelope { envelope, expires_at: expiry(now) })
    }
}

/// The envelope found under an identifier at `now`: the one stored there, as
/// long as its time is not up.
pub open spec fn found(entries: Map<Seq<char>, StoredEnvelope>, request_id: Seq<char>, now: u64) -> Option<
    AggregatedQuoteEnvelope,
> {
    if entries.contains_key(request_id) && now < entries[request_id].expires_at {
        Some(entries[request_id].envelope)
    } else {
        None
    }
}

/// The entries after an eviction at `now`: the entry under the identifier is
/// removed if its time is up.
pub open spec fn evicted(entries: Map<Seq<char>, StoredEnvelope>, request_id: Seq<char>, now: u64) -> Map<
    Seq<char>,
    StoredEnvelope,
> {
    if entries.contains_key(request_id) && now >= entries[request_id].expires_at {
        entries.remove(request_id)
    } else {
        entries
    }
}

/// The aggregated results that are kept for later retrieval.
pub struct QuoteCache {
    entries: KeyedStore<StoredEnvelope>,
}

impl QuoteCache {
    /// The store underneath is in order.
    pub closed spec fn wf(&self) -> bool {
        self.entries.wf()
    }

    /// The stored envelopes by identifier.
    pub closed spec fn view(&self) -> Map<Seq<char>, StoredEnvelope> {
        self.entries@
    }

    /// A cache without entries.
    pub fn new() -> (cache: Self)
        ensures
            cache.wf(),
            cache@ == Map::<Seq<char>, StoredEnvelope>::empty(),
    {
        QuoteCache { entries: KeyedStore::new() }
    }

    /// Keeps an envelope under its identifier from `now` on, unless the
    /// identifier is taken. Says whether the envelope was kept.
    pub fn store(&mut self, envelope: AggregatedQuoteEnvelope, now: u64) -> (kept: bool)
        requires
            old(self).wf(),
        ensures
            final(self).wf(),
            final(self)@ == stored(old(self)@, envelope, now),
            kept == !old(self)@.contains_key(envelope.request_id@),
    {
        if self.entries.contains_key(envelope.request_id.as_str()) {
            return false;
        }
        let expires_at = if now <= u64::MAX - RETENTION_SECS {
            now + RETENTION_SECS
        } else {
            u64::MAX
        };
        let key = owned(envelope.request_id.as_str());
        let _ = self.entries.insert(key.as_str(), StoredEnvelope { envelope, expires_at });
        true
    }

    /// The envelope kept under an identifier, as long as its time is not up.
    pub fn lookup(&self, request_id: &str, now: u64) -> (envelope: Option<&AggregatedQuoteEnvelope>)
        requires
            self.wf(),
        ensures
            match envelope {
                Some(e) => found(self@, request_id@, now) == Some(*e),
                None => found(self@, request_id@, now) is None,
            },
    {
        match self.entries.get(request_id) {
            Some(entry) => {
                if now < entry.expires_at {
                    Some(&entry.envelope)
                } else {
                    None
                }
            },
            None => None,
        }
    }

    /// Removes the entry under an identifier if its time is up. Says whether
    /// an entry was removed.
    pub fn evict(&mut self, request_id: &str, now: u64) -> (removed: bool)
        requires
            old(self).wf(),
        ensures
            final(self).wf(),
            final(self)@ == evicted(old(self)@, request_id@, now),
            removed == (old(self)@.contains_key(request_id@) && now >= old(
                self,
            )@[request_id@].expires_at),
    {
        let due = match self.entries.get(request_id) {
            Some(entry) => now >= entry.expires_at,
            None => false,
        };
        if due {
            let _ = self.entries.remove(request_id);
        }
        due
    }
}

/// What filing an aggregated result under `request_id` at `now` comes to.
///
/// A result without quotes is not kept and gets no identifier. A result with
/// quotes is kept under the identifier for the retention time, unless the
/// identifier is taken; then nothing changes and the request is rejected.
pub open spec fn filed(
    before: Map<Seq<char>, StoredEnvelope>,
    outcome: RouteOutcome,
    request_id: String,
    now: u64,
    after: Map<Seq<char>, StoredEnvelope>,
    result: ProcessedQuote,
) -> bool {
    match outcome {
        RouteOutcome::NoQuotes(message) => after == before && result == (ProcessedQuote::Rejected {
            message,
        }),
        RouteOutcome::Quotes(data) => if before.contains_key(request_id@) {
            after == before && rejected_with(result, "Quote service failed: identifier in use"@)
        } else {
            &&& after == before.insert(
                request_id@,
                StoredEnvelope {
                    envelope: AggregatedQuoteEnvelope { request_id, success: true, data },
                    expires_at: expiry(now),
                },
            )
            &&& kept_under(result, request_id@, expiry(now))
        },
    }
}

/// Whether a result is a rejection with the given reason.
pub open spec fn rejected_with(result: ProcessedQuote, reason: Seq<char>) -> bool {
    match result {
        ProcessedQuote::Rejected { message } => message@ == reason,
        _ => false,
    }
}

/// Whether a result says that the envelope is kept under the identifier
/// until the given time.
pub open spec fn kept_under(result: ProcessedQuote, request_id: Seq<char>, until: u64) -> bool {
    match result {
        ProcessedQuote::Stored { request_id: id, evict_at } => id@ == request_id && evict_at == until,
        _ => false,
    }
}

/// Files an aggregated result under a given identifier.
pub fn file_quote(outcome: RouteOutcome, request_id: String, cache: &mut QuoteCache, now: u64) -> (result:
    ProcessedQuote)
    requires
        old(cache).wf(),
    ensures
        final(cache).wf(),
        filed(old(cache)@, outcome, request_id, now, final(cache)@, result),
{
    match outcome {
        RouteOutcome::NoQuotes(message) => ProcessedQuote::Rejected { message },
        RouteOutcome::Quotes(data) => {
            let id = owned(request_id.as_str());
            let evict_at = if now <= u64::MAX - RETENTION_SECS {
                now + RETENTION_SECS
            } else {
                u64::MAX
            };
            let envelope = AggregatedQuoteEnvelope { request_id, success: true, data };
            if cache.store(envelope, now) {
                ProcessedQuote::Stored { request_id: id, evict_at }
            } else {
                ProcessedQuote::Rejected {
                    message: owned("Quote service failed: identifier in use"),
                }
            }
        },
    }
}

/// Files an aggregated result under a fresh identifier.
///
/// The identifier is random, so the contract says what holds for whichever
/// one was drawn: the result is filed under some identifier of 36 characters.
pub fn process_quote(outcome: RouteOutcome, cache: &mut QuoteCache, now: u64) -> (result: ProcessedQuote)
    requires
        old(cache).wf(),
    ensures
        final(cache).wf(),
        exists|request_id: String|
            request_id@.len() == 36 && #[trigger] filed(
                old(cache)@,
                outcome,
                request_id,
                now,
                final(cache)@,
                result,
            ),
{
    let request_id = fresh_request_id();
    let ghost drawn = request_id;
    let result = file_quote(outcome, request_id, cache, now);
    proof {
        assert(filed(old(cache)@, outcome, drawn, now, cache@, result));
    }
    result
}

/// The message for an aggregation that failed as a whole.
pub fn service_failure(error: &str) -> (message: String)
    ensures
        message@ == "Quote service failed: "@ + error@,
{
    append_str("Quote service failed: ", error)
}

/// Whether a quote holds all that building a transaction from it needs.
pub fn is_valid_quote(quote: &CanonicalQuote) -> (ok: bool)
    ensures
        ok == buildable(*quote),
{
    quote.tool.is_some() && quote.from_chain_id.is_some() && quote.to_chain_id.is_some()
        && quote.from_amount.is_some() && quote.from_address.is_some() && quote.to_amount.is_some()
        && quote.from_token.is_some() && quote.to_token.is_some() && quote.options.is_some()
        && quote.to_address.is_some()
}

/// Admits a quote to the building of its transaction, or says why not.
pub fn process_transaction_from_quote(quote: &CanonicalQuote) -> (r: Result<(), String>)
    ensures
        r is Ok <==> buildable(*quote),
        r matches Err(m) ==> m@ == "Quote validation failed due to missing required fields"@,
{
    if is_valid_quote(quote) {
        Ok(())
    } else {
        Err(owned("Quote validation failed due to missing required fields"))
    }
}

/// An envelope stored under a free identifier is found at every time before
/// its expiry and at no time from its expiry on; the expiry is the time of
/// storing plus the retention time.
pub proof fn law_retention(
    entries: Map<Seq<char>, StoredEnvelope>,
    envelope: AggregatedQuoteEnvelope,
    stored_at: u64,
    asked_at: u64,
)
    requires
        !entries.contains_key(envelope.request_id@),
    ensures
        stored_at + RETENTION_SECS <= u64::MAX ==> expiry(stored_at) == stored_at + RETENTION_SECS,
        asked_at < expiry(stored_at) ==> found(
            stored(entries, envelope, stored_at),
            envelope.request_id@,
            asked_at,
        ) == Some(envelope),
        asked_at >= expiry(stored_at) ==> found(
            stored(entries, envelope, stored_at),
            envelope.request_id@,
            asked_at,
        ) is None,
{
}

/// An eviction changes nothing that is found at its time or later, under
/// any identifier: it removes only what is no longer found.
pub proof fn law_eviction_is_unseen(
    entries: Map<Seq<char>, StoredEnvelope>,
    victim: Seq<char>,
    evicted_at: u64,
    request_id: Seq<char>,
    asked_at: u64,
)
    requires
        evicted_at <= asked_at,
    ensures
        found(evicted(entries, victim, evicted_at), request_id, asked_at) == found(
            entries,
            request_id,
            asked_at,
        ),
{
}

/// Storing an envelope changes nothing that is found under another
/// identifier.
pub proof fn law_store_leaves_others(
    entries: Map<Seq<char>, StoredEnvelope>,
    envelope: AggregatedQuoteEnvelope,
    stored_at: u64,
    request_id: Seq<char>,
    asked_at: u64,
)
    requires
        request_id != envelope.request_id@,
    ensures
        found(stored(entries, envelope, stored_at), request_id, asked_at) == found(
            entries,
            request_id,
            asked_at,
        ),
{
}

} // verus!
