//! The answers that `find_impact` hands back besides references: a busy
//! notice when the budget ran out, a typed failure, and the list of
//! candidates when a query is ambiguous.
use vstd::prelude::*;
use crate::text::{decimal, push_decimal, copy_string, string_push};
use crate::references::{SymbolReference, references_view, first_occurrences, dedupe_references};

verus! {

/// Why a lookup failed: the lookup itself, or an index that is missing or
/// cannot be read.
#[derive(Debug, Clone, Copy, PartialEq, Eq, Structural)]
pub enum SymbolLookupFailureClass {
    Failed,
    Stale,
}

/// A typed lookup failure: its class, the error, and what the caller should
/// do next.
#[derive(Debug, PartialEq, Eq)]
pub struct SymbolLookupFailure {
    pub class: SymbolLookupFailureClass,
    pub error: String,
    pub hint_for_agent: String,
}

/// The hint of a failed lookup: fall back to a text search for usages.
pub const FAILED_HINT: &'static str =
    "the symbol lookup failed; fall back to a text search for usages of the name";

/// The hint of a stale index: build the symbol index again.
pub const STALE_HINT: &'static str =
    "the symbol index is missing or unreadable; rebuild the symbol index, then retry";

/// What `index_age` reports when the index cannot be opened or read.
pub const UNKNOWN_INDEX_AGE: u64 = 18446744073709551615u64;

impl SymbolLookupFailure {
    /// A failure of the lookup itself.
    pub fn failed(error: &str) -> (f: Self)
        ensures
            f.class == SymbolLookupFailureClass::Failed,
            f.error@ == error@,
            f.hint_for_agent@ == FAILED_HINT@,
    {
        SymbolLookupFailure {
            class: SymbolLookupFailureClass::Failed,
            error: String::from_str(error),
            hint_for_agent: String::from_str(FAILED_HINT),
        }
    }

    /// A failure because the index is missing or unreadable.
    pub fn stale(error: &str) -> (f: Self)
        ensures
            f.class == SymbolLookupFailureClass::Stale,
            f.error@ == error@,
            f.hint_for_agent@ == STALE_HINT@,
    {
        SymbolLookupFailure {
            class: SymbolLookupFailureClass::Stale,
            error: String::from_str(error),
            hint_for_agent: String::from_str(STALE_HINT),
        }
    }

    /// Classifies a lookup error by the age of the index: an age that could
    /// not be read means the index is stale, any known age means the lookup
    /// itself failed.
    pub fn classify(error_chain: &str, index_age_seconds: u64) -> (f: Self)
        ensures
            f.class == (if index_age_seconds == UNKNOWN_INDEX_AGE {
                SymbolLookupFailureClass::Stale
            } else {
                SymbolLookupFailureClass::Failed
            }),
            f.error@ == error_chain@,
            f.hint_for_agent@ == (if index_age_seconds == UNKNOWN_INDEX_AGE {
                STALE_HINT@
            } else {
                FAILED_HINT@
            }),
    {
        if index_age_seconds == UNKNOWN_INDEX_AGE {
            Self::stale(error_chain)
        } else {
            Self::failed(error_chain)
        }
    }
}

/// The notice that a lookup overran its budget: it is still running in the
/// background, and the caller should retry.
#[derive(Debug, PartialEq, Eq)]
pub struct SymbolLookupBusy {
    pub busy: bool,
    pub state: String,
    pub waited_ms: u64,
    pub advice: String,
    pub retry_after_seconds: u64,
}

/// The advice of a busy notice: `retry the same call in ~Ns`.
pub open spec fn retry_advice(seconds: u64) -> Seq<char> {
    "retry the same call in ~"@ + decimal(seconds as nat) + seq!['s']
}

impl SymbolLookupBusy {
    /// The busy notice for a lookup that was still `state` after waiting
    /// `waited_ms`, to be retried after `retry_after_seconds`.
    pub fn new(state: String, waited_ms: u64, retry_after_seconds: u64) -> (b: Self)
        ensures
            b.busy,
            b.state@ == state@,
            b.waited_ms == waited_ms,
            b.retry_after_seconds == retry_after_seconds,
            b.advice@ == retry_advice(retry_after_seconds),
    {
        let mut advice = String::from_str("retry the same call in ~");
        push_decimal(&mut advice, retry_after_seconds);
        string_push(&mut advice, 's');
        SymbolLookupBusy { busy: true, state, waited_ms, advice, retry_after_seconds }
    }
}

/// The answer to an ambiguous query: the candidates to choose from.
#[derive(Debug, PartialEq, Eq)]
pub struct SymbolAmbiguity {
    pub ambiguous: bool,
    pub query: String,
    pub candidates: Vec<String>,
    pub hint_for_agent: String,
}

/// The hint of an ambiguity: call again with one candidate as the key.
pub const AMBIGUITY_HINT: &'static str =
    "the query matches several symbols; re-call with symbol_key set to one of the candidates";

impl SymbolAmbiguity {
    /// The ambiguity answer for `query`, which is quoted, with its candidates.
    pub fn new(query: &String, candidates: Vec<String>) -> (a: Self)
        ensures
            a.ambiguous,
            a.query@ == seq!['\''] + query@ + seq!['\''],
            a.candidates@ == candidates@,
            a.hint_for_agent@ == AMBIGUITY_HINT@,
    {
        let mut quoted = String::new();
        string_push(&mut quoted, '\'');
        quoted.append(query.as_str());
        string_push(&mut quoted, '\'');
        SymbolAmbiguity {
            ambiguous: true,
            query: quoted,
            candidates,
            hint_for_agent: String::from_str(AMBIGUITY_HINT),
        }
    }
}

/// The answer with references: what was asked, the canonical key it
/// resolved to (if any), the references, and the state of the index.
#[derive(Debug, PartialEq, Eq)]
pub struct FindImpactResult {
    pub symbol: String,
    pub resolved_symbol: Option<String>,
    pub references: Vec<SymbolReference>,
    pub index_age_seconds: u64,
    pub language: String,
    pub scope: String,
    pub index_head_sha: Option<String>,
    pub current_head_sha: Option<String>,
}

impl FindImpactResult {
    /// The answer for a fuzzy query that matched nothing: no references and
    /// no identity, with the query echoed as the symbol.
    pub fn not_found(symbol: &String, language: &String, scope: &String, index_age_seconds: u64) -> (r: Self)
        ensures
            r.symbol@ == symbol@,
            r.resolved_symbol is None,
            r.references@.len() == 0,
            r.index_age_seconds == index_age_seconds,
            r.language@ == language@,
            r.scope@ == scope@,
            r.index_head_sha is None,
            r.current_head_sha is None,
    {
        FindImpactResult {
            symbol: copy_string(symbol),
            resolved_symbol: None,
            references: Vec::new(),
            index_age_seconds,
            language: copy_string(language),
            scope: copy_string(scope),
            index_head_sha: None,
            current_head_sha: None,
        }
    }

    /// The answer for a resolved query: the canonical key, the references
    /// with repeated entries collapsed, and the commits that the index was
    /// built at and that the checkout is at, where they are known.
    pub fn resolved(
        symbol: &String,
        key: &String,
        references: Vec<SymbolReference>,
        index_age_seconds: u64,
        language: &String,
        scope: &String,
        index_head_sha: Option<String>,
        current_head_sha: Option<String>,
    ) -> (r: Self)
        ensures
            r.symbol@ == symbol@,
            r.resolved_symbol matches Some(k) && k@ == key@,
            references_view(r.references@) == first_occurrences(references_view(references@)),
            r.index_age_seconds == index_age_seconds,
            r.language@ == language@,
            r.scope@ == scope@,
            r.index_head_sha == index_head_sha,
            r.current_head_sha == current_head_sha,
    {
        FindImpactResult {
            symbol: copy_string(symbol),
            resolved_symbol: Some(copy_string(key)),
            references: dedupe_references(references),
            index_age_seconds,
            language: copy_string(language),
            scope: copy_string(scope),
            index_head_sha,
            current_head_sha,
        }
    }
}

} // verus!
