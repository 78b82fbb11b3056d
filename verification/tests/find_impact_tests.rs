use codesearch::budget::{race_plan, resolve_find_impact_budget_secs, settle_race, ImpactLookupOutcome, RaceEvent, RacePlan};
use codesearch::constants::DEFAULT_FIND_IMPACT_BUDGET_SECS;
use codesearch::envelopes::{SymbolAmbiguity, SymbolLookupBusy, SymbolLookupFailure, SymbolLookupFailureClass, UNKNOWN_INDEX_AGE};
use codesearch::fixtures::{find_impact_request, populate_overload_fixture, sample_state};
use codesearch::git::{after_head_file, after_loose_ref, after_packed_refs, git_dir_of_dot_git_file, is_full_commit_id, loose_ref_sha, packed_ref_sha, parse_head, HeadRead, HeadTarget};
use codesearch::handler::{answer_for_match, plan_find_impact, reply_for_outcome, FindImpactRequest, ImpactAnswer, ImpactReply};
use codesearch::references::{dedupe_references, SymbolReference};
use codesearch::resolve::{ScipTables, TypeScriptSymbolIndexer};

fn definition_ref() -> SymbolReference {
    SymbolReference {
        file: "src/x.rs".to_string(),
        start_line: 1,
        end_line: 2,
        kind: "definition".to_string(),
    }
}

#[test]
fn budget_overrun_returns_busy_with_wait_time() {
    // The race itself runs in the program around the library; here the
    // budget's expiry is handed in as the event, and the library must answer
    // busy with the state and the time that the race reports.
    assert_eq!(race_plan(1), RacePlan::Bounded { budget_ms: 1_000 });
    let outcome = settle_race(sample_state(), RaceEvent::BudgetElapsed { waited_ms: 1_003 });
    match outcome {
        ImpactLookupOutcome::Busy { state, waited_ms } => {
            assert_eq!(state, sample_state());
            assert!(
                (900..=2_000).contains(&waited_ms),
                "busy must fire at ~the 1s budget, waited_ms={waited_ms}"
            );
        }
        ImpactLookupOutcome::Done(_) => panic!("a 2s handler must overrun a 1s budget"),
    }
}

#[test]
fn fast_lookup_completes_within_budget_passes_through() {
    // A lookup that ends before the budget passes its references through.
    assert_eq!(race_plan(60), RacePlan::Bounded { budget_ms: 60_000 });
    let outcome = settle_race(
        sample_state(),
        RaceEvent::LookupFinished(Ok(vec![definition_ref()])),
    );
    match outcome {
        ImpactLookupOutcome::Done(Ok(refs)) => {
            assert_eq!(refs.len(), 1);
            assert_eq!(refs[0].file, "src/x.rs");
            assert_eq!(refs[0].kind, "definition");
        }
        _ => panic!("a 10ms handler must complete inside a 60s budget"),
    }
}

#[test]
fn lookup_failure_passes_through_with_error_chain() {
    // A lookup that fails before the budget passes its rendered error chain
    // through, not busy and not swallowed.
    let outcome = settle_race(
        sample_state(),
        RaceEvent::LookupFinished(Err(
            "scip-csharp find-refs failed: helper exited 1".to_string(),
        )),
    );
    match outcome {
        ImpactLookupOutcome::Done(Err(rendered)) => {
            assert!(
                rendered.contains("scip-csharp find-refs failed")
                    && rendered.contains("helper exited 1"),
                "error chain must survive: {rendered}"
            );
        }
        _ => panic!("a failing handler must surface as Done(Err)"),
    }
}

#[test]
fn zero_budget_disables_the_race() {
    // 0 disables the budget: the plan has no deadline, so only the lookup's
    // own end can settle it.
    assert_eq!(race_plan(0), RacePlan::Unbounded);
    let outcome = settle_race(
        sample_state(),
        RaceEvent::LookupFinished(Ok(vec![definition_ref()])),
    );
    assert!(matches!(outcome, ImpactLookupOutcome::Done(Ok(_))));
}

#[test]
fn budget_env_overrides_parses_and_falls_back() {
    // (raw env value, expected seconds). Garbage and empty fall back to the
    // default rather than erroring or clamping to 0.
    let cases: &[(&str, u64)] = &[
        ("90", 90),
        ("0", 0),
        (" 45 ", 45),
        ("junk", DEFAULT_FIND_IMPACT_BUDGET_SECS),
        ("", DEFAULT_FIND_IMPACT_BUDGET_SECS),
        ("-5", DEFAULT_FIND_IMPACT_BUDGET_SECS),
    ];
    for (raw, expected) in cases {
        assert_eq!(
            resolve_find_impact_budget_secs(Some(raw)),
            *expected,
            "env value {raw:?} must resolve to {expected}"
        );
    }
    // Absent → documented default.
    assert_eq!(
        resolve_find_impact_budget_secs(None),
        DEFAULT_FIND_IMPACT_BUDGET_SECS
    );
}

#[test]
fn classify_maps_unknown_index_age_to_stale_and_readability_to_failed() {
    let cases: &[(u64, SymbolLookupFailureClass)] = &[
        (u64::MAX, SymbolLookupFailureClass::Stale),
        (0, SymbolLookupFailureClass::Failed),
        (3_600, SymbolLookupFailureClass::Failed),
    ];
    for (age, expected) in cases {
        let failure = SymbolLookupFailure::classify("chain", *age);
        assert_eq!(failure.class, *expected, "age {age} must classify");
        assert!(!failure.error.is_empty());
    }
}

#[test]
fn failure_hints_are_actionable_per_class() {
    let failed = SymbolLookupFailure::failed("boom");
    let stale = SymbolLookupFailure::stale("gone");
    assert!(
        failed.hint_for_agent.contains("usages"),
        "failed hint must point at the text-search fallback: {}",
        failed.hint_for_agent
    );
    assert!(
        stale.hint_for_agent.contains("index"),
        "stale hint must point at (re)building the index: {}",
        stale.hint_for_agent
    );
}

#[test]
fn current_git_head_resolves_the_crate_checkout() {
    // The file reads run in the program around the library; here the files
    // of a checkout on a branch are handed in: HEAD names the branch, the
    // loose ref holds the full commit id.
    let head = parse_head("ref: refs/heads/main\n");
    assert_eq!(head, HeadTarget::Symbolic("refs/heads/main".to_string()));
    let sha = loose_ref_sha("4b825dc642cb6eb9a060e54bf8d69288fbee4904\n")
        .expect("crate checkout must resolve a HEAD sha");
    assert_eq!(sha.len(), 40, "full sha expected: {sha}");
    assert!(
        sha.chars().all(|c| c.is_ascii_hexdigit()),
        "hex sha expected: {sha}"
    );
}

#[test]
fn current_git_head_is_none_outside_a_repo() {
    // Nothing readable: no commit, not an error.
    assert_eq!(parse_head(""), HeadTarget::Unknown);
    assert!(loose_ref_sha("").is_none());
    assert!(packed_ref_sha("", "refs/heads/main").is_none());
}

#[test]
fn dedupe_references_collapses_identical_entries_and_keeps_distinct_ones() {
    let r = |file: &str, start: u32, end: u32, kind: &str| SymbolReference {
        file: file.to_string(),
        start_line: start,
        end_line: end,
        kind: kind.to_string(),
    };
    let input = vec![
        r("src/A.cs", 9, 9, "definition"),
        r("src/A.cs", 9, 9, "definition"),
        r("src/A.cs", 9, 9, "definition"),
        r("src/B.cs", 192, 192, "reference"),
        r("src/A.cs", 9, 9, "definition"),
        r("src/A.cs", 40, 44, "reference"),
        r("src/A.cs", 9, 9, "reference"), // same line, DIFFERENT kind → kept
    ];
    let out = dedupe_references(input);
    let summary: Vec<(String, u32, u32, &str)> = out
        .iter()
        .map(|x| (x.file.clone(), x.start_line, x.end_line, x.kind.as_str()))
        .collect();
    assert_eq!(
        summary,
        vec![
            ("src/A.cs".to_string(), 9, 9, "definition"),
            ("src/B.cs".to_string(), 192, 192, "reference"),
            ("src/A.cs".to_string(), 40, 44, "reference"),
            ("src/A.cs".to_string(), 9, 9, "reference"),
        ],
        "identical entries collapse to the first, distinct ones survive, order is stable: {summary:?}"
    );

    // Empty input stays empty.
    assert!(dedupe_references(Vec::new()).is_empty());
}

fn request(symbol_name: Option<&str>, symbol_key: Option<&str>, language: Option<&str>) -> FindImpactRequest {
    let mut req = find_impact_request();
    req.symbol_name = symbol_name.map(|s| s.to_string());
    req.symbol_key = symbol_key.map(|s| s.to_string());
    req.language = language.map(|s| s.to_string());
    req
}

fn answer(req: &FindImpactRequest, installed: &[&str]) -> Result<ImpactAnswer, String> {
    let mut tables = ScipTables::new();
    populate_overload_fixture(&mut tables);
    let installed: Vec<String> = installed.iter().map(|s| s.to_string()).collect();
    let plan = plan_find_impact(req, &installed)?;
    let m = TypeScriptSymbolIndexer::new()
        .resolve_query(&tables, &plan.query)
        .expect("readable index");
    Ok(answer_for_match(&plan, m, &"project:p".to_string(), 12))
}

#[test]
fn ambiguous_name_answers_with_the_typed_candidates_envelope() {
    let out = answer(&request(Some("Validate"), None, Some("csharp")), &["csharp"]).unwrap();
    match out {
        ImpactAnswer::Ambiguity(SymbolAmbiguity { ambiguous, candidates, query, .. }) => {
            assert!(ambiguous, "an overloaded name must answer the ambiguity envelope");
            assert_eq!(query, "'Validate'");
            assert_eq!(candidates.len(), 2, "both overloads listed: {candidates:?}");
            assert!(candidates[0] <= candidates[1], "candidates must be sorted: {candidates:?}");
        }
        other => panic!("an overloaded name must answer the ambiguity envelope, got: {other:?}"),
    }
}

#[test]
fn an_explicit_key_that_misses_is_a_loud_failure_not_an_empty_answer() {
    let out = answer(
        &request(None, Some("csharp Ns . V#Gone()."), Some("csharp")),
        &["csharp"],
    )
    .unwrap();
    match out {
        ImpactAnswer::Failure(f) => {
            assert_eq!(f.class, SymbolLookupFailureClass::Failed);
            assert!(f.error.contains("not in the"), "the error must name the miss: {}", f.error);
        }
        other => panic!("an explicit-key miss must be a typed failure, got: {other:?}"),
    }
}

#[test]
fn fuzzy_not_found_keeps_the_empty_references_contract() {
    let out = answer(&request(Some("Nope"), None, Some("csharp")), &["csharp"]).unwrap();
    match out {
        ImpactAnswer::NotFound(res) => {
            assert!(res.references.is_empty(), "the historical empty-references contract");
            assert_eq!(res.symbol, "Nope", "the echo stays the query");
            assert!(res.resolved_symbol.is_none(), "an unresolved answer names no identity");
            assert!(res.index_head_sha.is_none() && res.current_head_sha.is_none());
        }
        other => panic!("a fuzzy miss keeps the empty answer, got: {other:?}"),
    }
}

#[test]
fn symbol_key_combined_with_a_fuzzy_query_is_rejected() {
    let err = answer(
        &request(Some("Validate"), Some("csharp Ns . V#Validate()."), Some("csharp")),
        &[],
    )
    .unwrap_err();
    assert!(
        err.contains("mutually exclusive"),
        "the combination must be rejected with the documented usage error: {err}"
    );
}

#[test]
fn without_language_several_installed_helpers_ask_which_one() {
    let err = answer(&request(Some("Validate"), None, None), &["csharp", "typescript"]).unwrap_err();
    assert!(
        err.contains("Several symbol indexes are installed"),
        "the answer must ask which language, got: {err}"
    );
    assert!(
        err.contains("csharp") && err.contains("typescript"),
        "the answer must list the installed languages: {err}"
    );
    assert!(!err.contains("\"ambiguous\""), "asking for a language is not an ambiguity envelope: {err}");
}

#[test]
fn without_language_a_single_installed_helper_answers_deterministically() {
    let out = answer(&request(Some("Validate"), None, None), &["csharp"]).unwrap();
    assert!(
        matches!(out, ImpactAnswer::Ambiguity(ref a) if a.ambiguous),
        "one installed helper must answer, not ask: {out:?}"
    );
}

#[test]
fn busy_notice_carries_the_retry_hint() {
    let busy = SymbolLookupBusy::new(sample_state(), 60_012, 45);
    assert!(busy.busy);
    assert_eq!(busy.state, sample_state());
    assert_eq!(busy.waited_ms, 60_012);
    assert_eq!(busy.retry_after_seconds, 45);
    assert_eq!(busy.advice, "retry the same call in ~45s");
}

#[test]
fn classify_keeps_the_error_chain_verbatim() {
    let f = SymbolLookupFailure::classify("outer: inner", UNKNOWN_INDEX_AGE);
    assert_eq!(f.error, "outer: inner");
    assert_eq!(f.class, SymbolLookupFailureClass::Stale);
}

#[test]
fn budget_parsing_follows_the_unsigned_parser() {
    assert_eq!(resolve_find_impact_budget_secs(Some("+45")), 45);
    assert_eq!(resolve_find_impact_budget_secs(Some("\t\n 7\r\n")), 7);
    assert_eq!(resolve_find_impact_budget_secs(Some("4 5")), DEFAULT_FIND_IMPACT_BUDGET_SECS);
    assert_eq!(resolve_find_impact_budget_secs(Some("+")), DEFAULT_FIND_IMPACT_BUDGET_SECS);
    assert_eq!(
        resolve_find_impact_budget_secs(Some("18446744073709551615")),
        u64::MAX
    );
    assert_eq!(
        resolve_find_impact_budget_secs(Some("18446744073709551616")),
        DEFAULT_FIND_IMPACT_BUDGET_SECS
    );
    assert_eq!(resolve_find_impact_budget_secs(Some("\u{3000}12\u{00A0}")), 12);
}

#[test]
fn race_plan_saturates_huge_budgets() {
    assert_eq!(race_plan(u64::MAX), RacePlan::Bounded { budget_ms: u64::MAX });
}

#[test]
fn dedupe_twice_is_dedupe_once() {
    let r = |file: &str, start: u32| SymbolReference {
        file: file.to_string(),
        start_line: start,
        end_line: start,
        kind: "reference".to_string(),
    };
    let once = dedupe_references(vec![r("a", 1), r("b", 2), r("a", 1), r("c", 3), r("b", 2)]);
    assert_eq!(once.len(), 3);
    let again = dedupe_references(vec![r("a", 1), r("b", 2), r("c", 3)]);
    assert_eq!(once, again);
    assert_eq!(dedupe_references(once), again);
}

#[test]
fn detached_head_and_packed_refs_resolve_the_commit() {
    let sha = "0123456789abcdef0123456789ABCDEF01234567";
    assert_eq!(parse_head(&format!("{sha}\n")), HeadTarget::Detached(sha.to_string()));
    let packed = format!(
        "# pack-refs with: peeled fully-peeled sorted\n{sha} refs/heads/dev\n^{sha}\n{sha} refs/heads/main\n"
    );
    assert_eq!(packed_ref_sha(&packed, "refs/heads/main"), Some(sha.to_string()));
    assert_eq!(packed_ref_sha(&packed, "refs/heads/ma"), None);
    assert!(is_full_commit_id(sha));
    assert!(!is_full_commit_id("0123"));
    assert!(!is_full_commit_id("g123456789abcdef0123456789abcdef01234567"));
}

#[test]
fn a_finished_lookup_is_answered_with_collapsed_references() {
    let plan = plan_find_impact(&request(Some("Validate"), None, Some("csharp")), &vec!["csharp".to_string()]).unwrap();
    let key = "csharp Ns . V#Validate().".to_string();
    let scope = "project:p".to_string();
    let refs = vec![definition_ref(), definition_ref()];
    let reply = reply_for_outcome(
        &plan,
        &key,
        ImpactLookupOutcome::Done(Ok(refs)),
        &scope,
        12,
        60,
        Some("a".repeat(40)),
        None,
    );
    match reply {
        ImpactReply::Result(res) => {
            assert_eq!(res.symbol, "Validate");
            assert_eq!(res.resolved_symbol, Some(key.clone()));
            assert_eq!(res.references.len(), 1);
            assert_eq!(res.language, "csharp");
            assert_eq!(res.index_head_sha, Some("a".repeat(40)));
            assert_eq!(res.current_head_sha, None);
        }
        other => panic!("a finished lookup answers with references, got {other:?}"),
    }
    let busy = reply_for_outcome(
        &plan,
        &key,
        ImpactLookupOutcome::Busy { state: sample_state(), waited_ms: 60_012 },
        &scope,
        12,
        60,
        None,
        None,
    );
    assert!(matches!(busy, ImpactReply::Busy(ref b) if b.advice == "retry the same call in ~60s" && b.waited_ms == 60_012));
    let stale = reply_for_outcome(
        &plan,
        &key,
        ImpactLookupOutcome::Done(Err("no index".to_string())),
        &scope,
        u64::MAX,
        60,
        None,
        None,
    );
    assert!(matches!(stale, ImpactReply::Failure(ref f) if f.class == SymbolLookupFailureClass::Stale && f.error == "no index"));
}

#[test]
fn the_busy_state_names_the_query_and_the_helper() {
    let plan = plan_find_impact(&request(Some("Ns.I.M"), None, Some("csharp")), &vec!["csharp".to_string()]).unwrap();
    assert_eq!(codesearch::handler::lookup_state(&plan), sample_state());
}

#[test]
fn a_named_language_without_its_helper_is_refused_before_any_lookup() {
    let err = answer(&request(Some("Validate"), None, Some("csharp")), &["typescript"]).unwrap_err();
    assert_eq!(err, "The csharp symbol index helper is not installed");
    let err = answer(&request(Some("Validate"), None, Some("csharp")), &[]).unwrap_err();
    assert!(err.contains("not installed"), "{err}");
}

#[test]
fn the_commit_search_reads_head_then_the_loose_ref_then_packed_refs() {
    let sha = "4b825dc642cb6eb9a060e54bf8d69288fbee4904";
    assert_eq!(after_head_file(None), HeadRead::Done(None));
    assert_eq!(after_head_file(Some("ref: refs/heads/main\n")), HeadRead::LooseRef("refs/heads/main".to_string()));
    assert_eq!(after_head_file(Some(&format!("{sha}\n"))), HeadRead::Done(Some(sha.to_string())));
    assert_eq!(after_head_file(Some("garbage")), HeadRead::Done(None));
    assert_eq!(
        after_loose_ref("refs/heads/main".to_string(), Some(&format!("{sha}\n"))),
        HeadRead::Done(Some(sha.to_string()))
    );
    assert_eq!(
        after_loose_ref("refs/heads/main".to_string(), None),
        HeadRead::PackedRefs("refs/heads/main".to_string())
    );
    assert_eq!(
        after_packed_refs("refs/heads/main", Some(&format!("{sha} refs/heads/main\n"))),
        Some(sha.to_string())
    );
    assert_eq!(after_packed_refs("refs/heads/main", None), None);
    assert_eq!(git_dir_of_dot_git_file("gitdir: ../.git/worktrees/w\n"), Some("../.git/worktrees/w".to_string()));
    assert_eq!(git_dir_of_dot_git_file("nothing"), None);
}

#[test]
fn an_unreadable_index_is_answered_as_stale() {
    let f = codesearch::handler::failure_for_index_error(codesearch::resolve::IndexError::UnreadableKeys);
    assert_eq!(f.class, SymbolLookupFailureClass::Stale);
    assert!(f.hint_for_agent.contains("index"));
    assert_eq!(f.error, codesearch::handler::UNREADABLE_KEYS_MSG);
}
