//! The decisions of the `find_impact` tool: which query a request asks,
//! against which language's index, and what a resolution is answered with.
//!
//! Validation comes before every lookup. An ambiguous query is answered with
//! its candidates; an explicit key that misses is a loud failure, never the
//! empty answer; a fuzzy query that matches nothing keeps the historical
//! empty-references answer.
use vstd::prelude::*;
use crate::text::copy_string;
use crate::resolve::{ImpactQuery, KeyMatch, IndexError, position_key, make_position_key};
use crate::envelopes::{SymbolAmbiguity, SymbolLookupFailure, SymbolLookupBusy, FindImpactResult, FAILED_HINT, STALE_HINT, AMBIGUITY_HINT, UNKNOWN_INDEX_AGE, SymbolLookupFailureClass, retry_advice};
use crate::budget::ImpactLookupOutcome;
use crate::references::{references_view, first_occurrences};
use crate::codec::strings_view;

verus! {

/// The arguments of a `find_impact` call.
#[derive(Debug, PartialEq, Eq)]
pub struct FindImpactRequest {
    pub symbol_name: Option<String>,
    pub file: Option<String>,
    pub line: Option<u32>,
    pub symbol_key: Option<String>,
    pub language: Option<String>,
    pub project: Option<String>,
    pub group: Option<String>,
}

/// The answer to a request that names a key together with a name or position.
pub const MUTUALLY_EXCLUSIVE_MSG: &'static str =
    "`symbol_key` and `symbol_name`/`file`+`line` are mutually exclusive: pass the key alone, or a name or position without it";

/// The answer to a request that names no symbol.
pub const MISSING_QUERY_MSG: &'static str =
    "find_impact needs `symbol_name`, `file` with `line`, or `symbol_key`";

/// The answer when no language was given and no symbol index is installed.
pub const NO_INDEX_MSG: &'static str = "No symbol index is installed for any language";

/// A validated request: the language to ask, the query, and how the answer
/// echoes what was asked.
#[derive(Debug, PartialEq, Eq)]
pub struct ImpactPlan {
    pub language: String,
    pub query: ImpactQuery,
    pub echo: String,
}

/// The strings of a list joined by a separator.
pub open spec fn joined(list: Seq<Seq<char>>, sep: Seq<char>) -> Seq<char>
    decreases list.len(),
{
    if list.len() == 0 {
        Seq::empty()
    } else if list.len() == 1 {
        list[0]
    } else {
        joined(list.drop_last(), sep) + sep + list.last()
    }
}

/// The answer when no language was given and several indexes are installed:
/// it asks which one and lists them.
pub open spec fn several_indexes_message(installed: Seq<Seq<char>>) -> Seq<char> {
    "Several symbol indexes are installed ("@ + joined(installed, ", "@)
        + "); pass `language` to choose one"@
}

/// The answer when the named language's symbol index helper is not
/// installed.
pub open spec fn not_installed_message(language: Seq<char>) -> Seq<char> {
    "The "@ + language + " symbol index helper is not installed"@
}

/// The request names a symbol by name or by position.
pub open spec fn is_fuzzy(req: FindImpactRequest) -> bool {
    req.symbol_name is Some || req.file is Some || req.line is Some
}

/// What a valid request is planned as, as a condition on the result.
pub open spec fn planned_as(req: FindImpactRequest, installed: Seq<Seq<char>>, r: Result<ImpactPlan, String>) -> bool {
    if req.symbol_key is Some && is_fuzzy(req) {
        r matches Err(e) && e@ == MUTUALLY_EXCLUSIVE_MSG@
    } else if req.symbol_key is None && req.symbol_name is None && !(req.file is Some
        && req.line is Some) {
        r matches Err(e) && e@ == MISSING_QUERY_MSG@
    } else if req.language is Some && !installed.contains(req.language->0@) {
        r matches Err(e) && e@ == not_installed_message(req.language->0@)
    } else if req.language is None && installed.len() == 0 {
        r matches Err(e) && e@ == NO_INDEX_MSG@
    } else if req.language is None && installed.len() > 1 {
        r matches Err(e) && e@ == several_indexes_message(installed)
    } else {
        &&& r matches Ok(p)
        &&& p.language@ == (match req.language {
            Some(l) => l@,
            None => installed[0],
        })
        &&& match req.symbol_key {
            Some(k) => p.query matches ImpactQuery::ExactKey(x) && x@ == k@ && p.echo@ == k@,
            None => match req.symbol_name {
                Some(n) => p.query matches ImpactQuery::Name(x) && x@ == n@ && p.echo@ == n@,
                None => p.query matches ImpactQuery::Position { file, line } && file@
                    == req.file->0@ && line == req.line->0 && p.echo@ == position_key(
                    file@,
                    line,
                ),
            },
        }
    }
}

fn contains_string(list: &Vec<String>, x: &String) -> (r: bool)
    ensures
        r == strings_view(list@).contains(x@),
{
    let n = list.len();
    for i in 0..n
        invariant
            n == list@.len(),
            forall|j: int| 0 <= j < i ==> list@[j]@ != x@,
    {
        if list[i] == *x {
            assert(strings_view(list@)[i as int] == x@);
            return true;
        }
    }
    assert forall|j: int| 0 <= j < strings_view(list@).len() implies strings_view(list@)[j] != x@ by {
        assert(strings_view(list@)[j] == list@[j]@);
    }
    false
}

fn join_strings(list: &Vec<String>, sep: &str) -> (s: String)
    ensures
        s@ == joined(strings_view(list@), sep@),
{
    let mut s = String::new();
    let n = list.len();
    let ghost lv = strings_view(list@);
    for i in 0..n
        invariant
            n == list@.len(),
            lv == strings_view(list@),
            s@ == joined(lv.take(i as int), sep@),
    {
        assert(lv.take(i + 1).drop_last() =~= lv.take(i as int));
        assert(lv.take(i + 1).last() == list@[i as int]@);
        if i > 0 {
            s.append(sep);
        } else {
            assert(s@ =~= Seq::<char>::empty());
        }
        s.append(list[i].as_str());
        proof {
            if i == 0 {
                assert(s@ =~= lv.take(1)[0]);
            }
        }
    }
    assert(lv.take(n as int) =~= lv);
    s
}

/// Validates a request and plans its query. `installed` lists the languages
/// whose symbol index helper is installed. A named language must be among
/// them; where the request names none, the language is decided only when
/// exactly one is installed: answering from the first of several would be a
/// silent pick.
pub fn plan_find_impact(req: &FindImpactRequest, installed: &Vec<String>) -> (r: Result<
    ImpactPlan,
    String,
>)
    ensures
        planned_as(*req, strings_view(installed@), r),
{
    let fuzzy = req.symbol_name.is_some() || req.file.is_some() || req.line.is_some();
    if req.symbol_key.is_some() && fuzzy {
        return Err(String::from_str(MUTUALLY_EXCLUSIVE_MSG));
    }
    let (query, echo) = match &req.symbol_key {
        Some(k) => (ImpactQuery::ExactKey(copy_string(k)), copy_string(k)),
        None => match &req.symbol_name {
            Some(n) => (ImpactQuery::Name(copy_string(n)), copy_string(n)),
            None => match (&req.file, req.line) {
                (Some(f), Some(l)) => (
                    ImpactQuery::Position { file: copy_string(f), line: l },
                    make_position_key(f, l),
                ),
                _ => {
                    return Err(String::from_str(MISSING_QUERY_MSG));
                },
            },
        },
    };
    let language = match &req.language {
        Some(l) => {
            // the named language's helper must be installed before any lookup
            if !contains_string(installed, l) {
                let mut msg = String::from_str("The ");
                msg.append(l.as_str());
                msg.append(" symbol index helper is not installed");
                return Err(msg);
            }
            copy_string(l)
        },
        None => {
            if installed.len() == 0 {
                return Err(String::from_str(NO_INDEX_MSG));
            }
            if installed.len() > 1 {
                let mut msg = String::from_str("Several symbol indexes are installed (");
                let list = join_strings(installed, ", ");
                msg.append(list.as_str());
                msg.append("); pass `language` to choose one");
                return Err(msg);
            }
            copy_string(&installed[0])
        },
    };
    Ok(ImpactPlan { language, query, echo })
}

/// The error of an explicit key that is not in the index.
pub open spec fn key_miss_message(key: Seq<char>, language: Seq<char>) -> Seq<char> {
    "symbol key '"@ + key + "' is not in the "@ + language + " index"@
}

/// What a resolution is answered with.
#[derive(Debug, PartialEq, Eq)]
pub enum ImpactAnswer {
    /// Go on to the references of this canonical key.
    Lookup { key: String },
    /// Several symbols match: ask the caller to choose.
    Ambiguity(SymbolAmbiguity),
    /// A typed failure.
    Failure(SymbolLookupFailure),
    /// A fuzzy query that matched nothing: no references.
    NotFound(FindImpactResult),
}

/// Answers a resolution: a resolved key goes on to its references, an
/// ambiguity lists the candidates, an explicit key that misses fails loudly,
/// and a fuzzy query that matches nothing answers with no references.
pub fn answer_for_match(plan: &ImpactPlan, m: KeyMatch, scope: &String, index_age_seconds: u64) -> (a: ImpactAnswer)
    ensures
        match m {
            KeyMatch::Resolved(k) => a matches ImpactAnswer::Lookup { key } && key@ == k@,
            KeyMatch::Ambiguous(c) => a matches ImpactAnswer::Ambiguity(amb) && amb.ambiguous
                && amb.query@ == seq!['\''] + plan.echo@ + seq!['\''] && amb.candidates@ == c@
                && amb.hint_for_agent@ == AMBIGUITY_HINT@,
            KeyMatch::NotFound => match plan.query {
                ImpactQuery::ExactKey(k) => a matches ImpactAnswer::Failure(f) && f.class
                    == crate::envelopes::SymbolLookupFailureClass::Failed && f.error@
                    == key_miss_message(k@, plan.language@) && f.hint_for_agent@ == FAILED_HINT@,
                _ => a matches ImpactAnswer::NotFound(res) && res.symbol@ == plan.echo@
                    && res.resolved_symbol is None && res.references@.len() == 0
                    && res.language@ == plan.language@ && res.scope@ == scope@
                    && res.index_age_seconds == index_age_seconds && res.index_head_sha is None
                    && res.current_head_sha is None,
            },
        },
{
    match m {
        KeyMatch::Resolved(k) => ImpactAnswer::Lookup { key: k },
        KeyMatch::Ambiguous(c) => ImpactAnswer::Ambiguity(SymbolAmbiguity::new(&plan.echo, c)),
        KeyMatch::NotFound => match &plan.query {
            ImpactQuery::ExactKey(k) => {
                let mut msg = String::from_str("symbol key '");
                msg.append(k.as_str());
                msg.append("' is not in the ");
                msg.append(plan.language.as_str());
                msg.append(" index");
                ImpactAnswer::Failure(SymbolLookupFailure::failed(msg.as_str()))
            },
            _ => ImpactAnswer::NotFound(
                FindImpactResult::not_found(&plan.echo, &plan.language, scope, index_age_seconds),
            ),
        },
    }
}

/// How a running lookup is described in a busy notice.
pub open spec fn lookup_state_text(echo: Seq<char>, language: Seq<char>) -> Seq<char> {
    "resolving '"@ + echo + "' via the "@ + language + " SCIP helper"@
}

/// Describes the running lookup of a plan, for a busy notice.
pub fn lookup_state(plan: &ImpactPlan) -> (s: String)
    ensures
        s@ == lookup_state_text(plan.echo@, plan.language@),
{
    let mut s = String::from_str("resolving '");
    s.append(plan.echo.as_str());
    s.append("' via the ");
    s.append(plan.language.as_str());
    s.append(" SCIP helper");
    s
}

/// The error of an index whose key lists cannot be read.
pub const UNREADABLE_KEYS_MSG: &'static str = "the symbol index holds a key list it cannot read";

/// The error of an index whose stored references cannot be read.
pub const UNREADABLE_REFERENCES_MSG: &'static str =
    "the symbol index holds references it cannot read";

/// An index that cannot be read is answered as stale: the caller should
/// build the index again.
pub fn failure_for_index_error(e: IndexError) -> (f: SymbolLookupFailure)
    ensures
        f.class == SymbolLookupFailureClass::Stale,
        f.hint_for_agent@ == STALE_HINT@,
        f.error@ == (match e {
            IndexError::UnreadableKeys => UNREADABLE_KEYS_MSG@,
            IndexError::UnreadableReferences => UNREADABLE_REFERENCES_MSG@,
        }),
{
    match e {
        IndexError::UnreadableKeys => SymbolLookupFailure::stale(UNREADABLE_KEYS_MSG),
        IndexError::UnreadableReferences => SymbolLookupFailure::stale(UNREADABLE_REFERENCES_MSG),
    }
}

/// What the lookup of a resolved key is answered with.
#[derive(Debug, PartialEq, Eq)]
pub enum ImpactReply {
    /// The references, with what was asked and the state of the index.
    Result(FindImpactResult),
    /// The budget ran out first.
    Busy(SymbolLookupBusy),
    /// The lookup failed; the age of the index tells a stale index from a
    /// failed lookup.
    Failure(SymbolLookupFailure),
}

/// Answers the lookup of the resolved `key`: references pass through with
/// repeated entries collapsed, an overrun budget is answered busy with the
/// advice to retry after the budget (`budget_secs`) has passed once more,
/// and an error is classified
/// by the age of the index.
pub fn reply_for_outcome(
    plan: &ImpactPlan,
    key: &String,
    outcome: ImpactLookupOutcome,
    scope: &String,
    index_age_seconds: u64,
    budget_secs: u64,
    index_head_sha: Option<String>,
    current_head_sha: Option<String>,
) -> (r: ImpactReply)
    ensures
        match outcome {
            ImpactLookupOutcome::Done(Ok(refs)) => r matches ImpactReply::Result(res) && res.symbol@
                == plan.echo@ && (res.resolved_symbol matches Some(k) && k@ == key@)
                && references_view(res.references@) == first_occurrences(references_view(refs@))
                && res.index_age_seconds == index_age_seconds && res.language@ == plan.language@
                && res.scope@ == scope@ && res.index_head_sha == index_head_sha
                && res.current_head_sha == current_head_sha,
            ImpactLookupOutcome::Done(Err(chain)) => r matches ImpactReply::Failure(f) && f.error@
                == chain@ && f.class == (if index_age_seconds == UNKNOWN_INDEX_AGE {
                SymbolLookupFailureClass::Stale
            } else {
                SymbolLookupFailureClass::Failed
            }) && f.hint_for_agent@ == (if index_age_seconds == UNKNOWN_INDEX_AGE {
                STALE_HINT@
            } else {
                FAILED_HINT@
            }),
            ImpactLookupOutcome::Busy { state, waited_ms } => r matches ImpactReply::Busy(b)
                && b.busy && b.state@ == state@ && b.waited_ms == waited_ms
                && b.retry_after_seconds == budget_secs && b.advice@ == retry_advice(
                budget_secs,
            ),
        },
{
    match outcome {
        ImpactLookupOutcome::Done(Ok(refs)) => ImpactReply::Result(
            FindImpactResult::resolved(
                &plan.echo,
                key,
                refs,
                index_age_seconds,
                &plan.language,
                scope,
                index_head_sha,
                current_head_sha,
            ),
        ),
        ImpactLookupOutcome::Done(Err(chain)) => ImpactReply::Failure(
            SymbolLookupFailure::classify(chain.as_str(), index_age_seconds),
        ),
        ImpactLookupOutcome::Busy { state, waited_ms } => ImpactReply::Busy(
            SymbolLookupBusy::new(state, waited_ms, budget_secs),
        ),
    }
}

/// The language a request may be answered in: the one it names, when that
/// index is installed, or the only installed one, when it names none.
pub open spec fn language_settled(req: FindImpactRequest, installed: Seq<Seq<char>>) -> bool {
    ||| (req.language is Some && installed.contains(req.language->0@))
    ||| (req.language is None && installed.len() == 1)
}

/// A key given together with a name, a file or a line is refused with the
/// usage error, whatever the language: neither half is silently dropped.
pub proof fn lemma_key_with_name_or_position_is_refused(
    req: FindImpactRequest,
    installed: Seq<Seq<char>>,
    r: Result<ImpactPlan, String>,
)
    requires
        planned_as(req, installed, r),
        req.symbol_key is Some,
        req.symbol_name is Some || req.file is Some || req.line is Some,
    ensures
        r matches Err(e) && e@ == MUTUALLY_EXCLUSIVE_MSG@,
{
}

/// A request by file and line alone asks for the symbols at that line of
/// that file, in the settled language.
pub proof fn lemma_position_request_is_planned(
    req: FindImpactRequest,
    installed: Seq<Seq<char>>,
    r: Result<ImpactPlan, String>,
)
    requires
        planned_as(req, installed, r),
        req.symbol_key is None,
        req.symbol_name is None,
        req.file is Some,
        req.line is Some,
        language_settled(req, installed),
    ensures
        r matches Ok(p) && p.query matches ImpactQuery::Position { file, line } && file@
            == req.file->0@ && line == req.line->0,
        r matches Ok(p) && p.language@ == (if req.language is Some {
            req.language->0@
        } else {
            installed[0]
        }),
{
}

/// A request by name alone asks for that name, in the settled language.
pub proof fn lemma_name_request_is_planned(
    req: FindImpactRequest,
    installed: Seq<Seq<char>>,
    r: Result<ImpactPlan, String>,
)
    requires
        planned_as(req, installed, r),
        req.symbol_key is None,
        req.symbol_name is Some,
        language_settled(req, installed),
    ensures
        r matches Ok(p) && p.query matches ImpactQuery::Name(n) && n@ == req.symbol_name->0@
            && p.echo@ == req.symbol_name->0@,
{
}

/// A request by key alone asks for that key verbatim, in the settled
/// language.
pub proof fn lemma_key_request_is_planned(
    req: FindImpactRequest,
    installed: Seq<Seq<char>>,
    r: Result<ImpactPlan, String>,
)
    requires
        planned_as(req, installed, r),
        req.symbol_key is Some,
        req.symbol_name is None,
        req.file is None,
        req.line is None,
        language_settled(req, installed),
    ensures
        r matches Ok(p) && p.query matches ImpactQuery::ExactKey(k) && k@ == req.symbol_key->0@,
{
}

/// A request that names neither a key, nor a name, nor both a file and a
/// line is refused as naming no symbol.
pub proof fn lemma_request_without_symbol_is_refused(
    req: FindImpactRequest,
    installed: Seq<Seq<char>>,
    r: Result<ImpactPlan, String>,
)
    requires
        planned_as(req, installed, r),
        req.symbol_key is None,
        req.symbol_name is None,
        req.file is None || req.line is None,
    ensures
        r matches Err(e) && e@ == MISSING_QUERY_MSG@,
{
}

} // verus!
