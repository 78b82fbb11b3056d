//! The wall-clock budget of `find_impact`.
//!
//! The budget comes from an environment value: a whole number of seconds,
//! surrounding whitespace allowed. Anything else (garbage, empty, negative)
//! falls back to the default rather than erroring or clamping to 0, because
//! 0 is meaningful: it disables the budget, so it only ever comes from an
//! explicit `0`. The lookup then races the budget; when the budget runs out
//! first the caller is answered busy with the time waited, otherwise the
//! lookup's own result passes through.
use vstd::prelude::*;
use crate::constants::DEFAULT_FIND_IMPACT_BUDGET_SECS;
use crate::text::{chars_of, trim, trim_start, trim_end, is_whitespace, trim_bounds};
use crate::references::SymbolReference;

verus! {

/// An ASCII decimal digit.
pub open spec fn is_digit(c: char) -> bool {
    48 <= (c as u32) <= 57
}

/// The number that a string of decimal digits writes.
pub open spec fn digits_value(s: Seq<char>) -> nat
    decreases s.len(),
{
    if s.len() == 0 {
        0
    } else {
        digits_value(s.drop_last()) * 10 + ((s.last() as u32) - 48) as nat
    }
}

/// The digits of an unsigned number as std's `u64` parser takes them: an
/// optional `+` is dropped.
pub open spec fn unsigned_body(s: Seq<char>) -> Seq<char> {
    if s.len() > 0 && s[0] == '+' {
        s.drop_first()
    } else {
        s
    }
}

/// What std's `u64::from_str` reads: an optional `+`, then at least one
/// decimal digit and nothing else, with a value that fits in 64 bits.
pub open spec fn parse_u64(s: Seq<char>) -> Option<u64> {
    let body = unsigned_body(s);
    if body.len() > 0 && (forall|i: int| 0 <= i < body.len() ==> is_digit(body[i]))
        && digits_value(body) <= u64::MAX {
        Some(digits_value(body) as u64)
    } else {
        None
    }
}

/// The budget in seconds for an environment value (`None` where the
/// variable is not set).
pub open spec fn budget_from_env(raw: Option<Seq<char>>) -> u64 {
    match raw {
        Some(r) => match parse_u64(trim(r)) {
            Some(v) => v,
            None => DEFAULT_FIND_IMPACT_BUDGET_SECS,
        },
        None => DEFAULT_FIND_IMPACT_BUDGET_SECS,
    }
}

proof fn lemma_digits_value_prefix(s: Seq<char>, k: int)
    requires
        0 <= k <= s.len(),
    ensures
        digits_value(s.take(k)) <= digits_value(s),
    decreases s.len(),
{
    if k < s.len() {
        assert(s.drop_last().take(k) =~= s.take(k));
        lemma_digits_value_prefix(s.drop_last(), k);
    } else {
        assert(s.take(k) =~= s);
    }
}

/// Reads the decimal number written by `cs[from..to]`, as std's `u64`
/// parser reads digits (after an optional `+`).
fn parse_digits(cs: &Vec<char>, from: usize, to: usize) -> (r: Option<u64>)
    requires
        from <= to <= cs@.len(),
    ensures
        r == parse_u64(cs@.subrange(from as int, to as int)),
{
    let ghost s = cs@.subrange(from as int, to as int);
    let mut start = from;
    if start < to && cs[start] == '+' {
        start = start + 1;
    }
    let ghost body = cs@.subrange(start as int, to as int);
    assert(body =~= unsigned_body(s));
    if start == to {
        return None;
    }
    let mut acc: u64 = 0;
    let mut k = start;
    while k < to
        invariant
            start <= k <= to,
            to <= cs@.len(),
            from <= start,
            s == cs@.subrange(from as int, to as int),
            body == cs@.subrange(start as int, to as int),
            body == unsigned_body(s),
            body.len() > 0,
            forall|i: int| 0 <= i < k - start ==> is_digit(body[i]),
            acc as nat == digits_value(body.take(k - start)),
        decreases to - k,
    {
        let c = cs[k];
        let u = c as u32;
        assert(body.take(k - start + 1).last() == c);
        assert(body[k - start] == c);
        if u < 48 || u > 57 {
            return None;
        }
        let d = (u - 48) as u64;
        assert(body.take(k - start + 1).drop_last() =~= body.take(k - start));
        let m = acc.checked_mul(10);
        match m {
            None => {
                proof {
                    lemma_digits_value_prefix(body, k - start + 1);
                }
                return None;
            },
            Some(m) => match m.checked_add(d) {
                None => {
                    proof {
                        lemma_digits_value_prefix(body, k - start + 1);
                    }
                    return None;
                },
                Some(v) => {
                    acc = v;
                },
            },
        }
        k = k + 1;
    }
    assert(body.take(to - start) =~= body);
    Some(acc)
}

/// The `find_impact` budget in seconds for the value of its environment
/// variable (`None` where it is not set): the value's number when it is a
/// whole number of seconds with optional surrounding white space, the
/// default otherwise.
pub fn resolve_find_impact_budget_secs(raw: Option<&str>) -> (secs: u64)
    ensures
        secs == budget_from_env(
            match raw {
                Some(r) => Some(r@),
                None => None,
            },
        ),
{
    let r = match raw {
        None => return DEFAULT_FIND_IMPACT_BUDGET_SECS,
        Some(r) => r,
    };
    let cs = chars_of(r);
    let (i, j) = trim_bounds(&cs);
    match parse_digits(&cs, i, j) {
        Some(v) => v,
        None => DEFAULT_FIND_IMPACT_BUDGET_SECS,
    }
}

/// Every character is white space.
pub open spec fn all_whitespace(w: Seq<char>) -> bool {
    forall|i: int| 0 <= i < w.len() ==> is_whitespace(w[i])
}

proof fn lemma_trim_start_skips_whitespace(w: Seq<char>, x: Seq<char>)
    requires
        all_whitespace(w),
    ensures
        trim_start(w + x) == trim_start(x),
    decreases w.len(),
{
    if w.len() > 0 {
        assert((w + x)[0] == w[0]);
        assert((w + x).drop_first() =~= w.drop_first() + x);
        lemma_trim_start_skips_whitespace(w.drop_first(), x);
    } else {
        assert(w + x =~= x);
    }
}

proof fn lemma_trim_end_skips_whitespace(x: Seq<char>, w: Seq<char>)
    requires
        all_whitespace(w),
    ensures
        trim_end(x + w) == trim_end(x),
    decreases w.len(),
{
    if w.len() > 0 {
        assert((x + w).last() == w.last());
        assert((x + w).drop_last() =~= x + w.drop_last());
        lemma_trim_end_skips_whitespace(x, w.drop_last());
    } else {
        assert(x + w =~= x);
    }
}

proof fn lemma_trim_with_trailing_whitespace(x: Seq<char>, w: Seq<char>)
    requires
        all_whitespace(w),
    ensures
        trim_end(trim_start(x + w)) == trim_end(trim_start(x)),
    decreases x.len(),
{
    if x.len() == 0 {
        assert(x + w =~= w + x);
        lemma_trim_start_skips_whitespace(w, x);
    } else if is_whitespace(x[0]) {
        assert((x + w)[0] == x[0]);
        assert((x + w).drop_first() =~= x.drop_first() + w);
        lemma_trim_with_trailing_whitespace(x.drop_first(), w);
    } else {
        assert((x + w)[0] == x[0]);
        lemma_trim_end_skips_whitespace(x, w);
    }
}

/// White space around the value does not change the budget.
pub proof fn lemma_budget_ignores_surrounding_whitespace(lead: Seq<char>, s: Seq<char>, trail: Seq<char>)
    requires
        all_whitespace(lead),
        all_whitespace(trail),
    ensures
        budget_from_env(Some(lead + s + trail)) == budget_from_env(Some(s)),
{
    assert(lead + s + trail =~= lead + (s + trail));
    lemma_trim_start_skips_whitespace(lead, s + trail);
    lemma_trim_with_trailing_whitespace(s, trail);
}

/// A budget of 0, which disables the race, only ever comes from an explicit
/// zero: an unset variable and every value that is not a whole number give
/// the default, which is not 0.
pub proof fn lemma_zero_budget_only_from_explicit_zero(raw: Option<Seq<char>>)
    ensures
        budget_from_env(raw) == 0 ==> (raw is Some && parse_u64(trim(raw->0)) == Some(0u64)),
{
}

/// How the lookup is run: without a budget, or raced against one.
#[derive(Debug, PartialEq, Eq)]
pub enum RacePlan {
    Unbounded,
    Bounded { budget_ms: u64 },
}

/// The plan for a budget in seconds: `0` disables the race.
pub fn race_plan(budget_secs: u64) -> (p: RacePlan)
    ensures
        budget_secs == 0 ==> p == RacePlan::Unbounded,
        budget_secs > 0 ==> p == (RacePlan::Bounded {
            budget_ms: if budget_secs * 1000 <= u64::MAX {
                (budget_secs * 1000) as u64
            } else {
                u64::MAX
            },
        }),
{
    if budget_secs == 0 {
        RacePlan::Unbounded
    } else {
        match budget_secs.checked_mul(1000) {
            Some(ms) => RacePlan::Bounded { budget_ms: ms },
            None => RacePlan::Bounded { budget_ms: u64::MAX },
        }
    }
}

/// What a lookup under a budget comes to: its own result, or busy.
#[derive(Debug, PartialEq, Eq)]
pub enum ImpactLookupOutcome {
    /// The lookup finished; its error, if any, is its rendered chain.
    Done(Result<Vec<SymbolReference>, String>),
    /// The budget ran out first.
    Busy { state: String, waited_ms: u64 },
}

/// What ends the race.
#[derive(Debug, PartialEq, Eq)]
pub enum RaceEvent {
    LookupFinished(Result<Vec<SymbolReference>, String>),
    BudgetElapsed { waited_ms: u64 },
}

/// Settles the race: a finished lookup passes through unchanged, error
/// included; a budget that ran out first answers busy with the state of the
/// lookup and the time waited.
pub fn settle_race(state: String, event: RaceEvent) -> (o: ImpactLookupOutcome)
    ensures
        match event {
            RaceEvent::LookupFinished(r) => o == ImpactLookupOutcome::Done(r),
            RaceEvent::BudgetElapsed { waited_ms } => o == (ImpactLookupOutcome::Busy {
                state,
                waited_ms,
            }),
        },
{
    match event {
        RaceEvent::LookupFinished(r) => ImpactLookupOutcome::Done(r),
        RaceEvent::BudgetElapsed { waited_ms } => ImpactLookupOutcome::Busy { state, waited_ms },
    }
}

} // verus!
