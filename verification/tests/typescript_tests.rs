use codesearch::codec::{deserialize_keys_v1, deserialize_refs, serialize_keys_v1, serialize_refs, StoredReference};
use codesearch::constants::META_INDEX_WARNINGS;
use codesearch::fixtures::populate_ambiguity_fixture;
use codesearch::resolve::{make_position_key, match_candidates, sorted_distinct_keys, ImpactQuery, IndexError, KeyMatch, ScipTables, TypeScriptSymbolIndexer};
use codesearch::tables::Table;
use codesearch::warnings::{exit_status_text, helper_exit_warnings, record_index_warnings};

fn fixture() -> (ScipTables, String, String, String) {
    let mut tables = ScipTables::new();
    let (a1, a2, mul) = populate_ambiguity_fixture(&mut tables);
    (tables, a1, a2, mul)
}

#[test]
fn resolve_name_unique_fuzzy_resolves_the_single_candidate() {
    let (db, _a1, _a2, mul) = fixture();
    let indexer = TypeScriptSymbolIndexer::new();
    assert_eq!(
        indexer
            .resolve_query(&db, &ImpactQuery::Name("mul".into()))
            .unwrap(),
        KeyMatch::Resolved(mul)
    );
}

#[test]
fn resolve_name_overloads_come_back_ambiguous_and_sorted() {
    let (db, a1, a2, _mul) = fixture();
    let indexer = TypeScriptSymbolIndexer::new();
    assert_eq!(
        indexer
            .resolve_query(&db, &ImpactQuery::Name("add".into()))
            .unwrap(),
        KeyMatch::Ambiguous(vec![a1, a2])
    );
}

#[test]
fn resolve_exact_key_is_verbatim_and_never_fuzzy() {
    let (db, a1, _a2, _mul) = fixture();
    let indexer = TypeScriptSymbolIndexer::new();
    assert_eq!(
        indexer
            .resolve_query(&db, &ImpactQuery::ExactKey(a1.clone()))
            .unwrap(),
        KeyMatch::Resolved(a1)
    );
    // A key that is only a prefix of a stored one must miss.
    assert_eq!(
        indexer
            .resolve_query(
                &db,
                &ImpactQuery::ExactKey("scip-typescript npm mypkg 1.0.0 `src/math.ts`/add".into())
            )
            .unwrap(),
        KeyMatch::NotFound
    );
}

#[test]
fn resolve_position_single_resolves_two_symbols_are_ambiguous() {
    let (db, a1, a2, mul) = fixture();
    let indexer = TypeScriptSymbolIndexer::new();
    assert_eq!(
        indexer
            .resolve_query(
                &db,
                &ImpactQuery::Position {
                    file: "src/math.ts".to_string(),
                    line: 20
                }
            )
            .unwrap(),
        KeyMatch::Resolved(mul)
    );
    assert_eq!(
        indexer
            .resolve_query(
                &db,
                &ImpactQuery::Position {
                    file: "src/math.ts".to_string(),
                    line: 10
                }
            )
            .unwrap(),
        KeyMatch::Ambiguous(vec![a1, a2])
    );
    assert_eq!(
        indexer
            .resolve_query(
                &db,
                &ImpactQuery::Position {
                    file: "src/math.ts".to_string(),
                    line: 99
                }
            )
            .unwrap(),
        KeyMatch::NotFound
    );
}

#[test]
fn references_for_key_returns_stored_definitions() {
    let (db, a1, _a2, _mul) = fixture();
    let indexer = TypeScriptSymbolIndexer::new();
    let refs = indexer.find_references_for_key(&db, &a1).unwrap();
    assert_eq!(refs.len(), 1, "definitions only, got {refs:?}");
    assert_eq!(refs[0].kind, "definition");
    assert_eq!(refs[0].file, "src/math.ts");
}

#[test]
fn lookup_warnings_reads_the_index_warnings_meta_entry() {
    let (mut db, a1, _a2, _mul) = fixture();
    let indexer = TypeScriptSymbolIndexer::new();

    // No entry yet (pre-warnings index) → empty = complete.
    assert!(indexer.lookup_warnings(&db, &a1).is_empty());

    // Hand-populate the meta entry: a JSON array under the namespaced key.
    db.meta.put(
        META_INDEX_WARNINGS.to_string(),
        r#"["scip-typescript exited with 1 for /repo — index may be incomplete"]"#.to_string(),
    );

    let warnings = indexer.lookup_warnings(&db, &a1);
    assert_eq!(warnings.len(), 1, "the stored warning must be read back");
    assert!(
        warnings[0].contains("scip-typescript exited with 1"),
        "warning text must round-trip, got: {}",
        warnings[0]
    );

    // The entry is per-index, not per-symbol: every key reports it.
    assert_eq!(
        indexer
            .lookup_warnings(&db, &"scip-typescript npm mypkg 1.0.0 `src/other.ts`/x().".to_string())
            .len(),
        1
    );

    // An empty array (what a clean reindex writes) must read as complete.
    db.meta.put(META_INDEX_WARNINGS.to_string(), "[]".to_string());
    assert!(
        indexer.lookup_warnings(&db, &a1).is_empty(),
        "an empty warnings array must mean complete"
    );
}

#[test]
fn rebuild_persists_the_nonzero_exit_warning_into_the_meta_table() {
    let mut db = ScipTables::new();
    let indexer = TypeScriptSymbolIndexer::new();
    let any_key = "scip-typescript npm mypkg 1.0.0 `src/x.ts`/f().".to_string();
    assert!(indexer.lookup_warnings(&db, &any_key).is_empty());

    // A helper that exits 3 after writing its output: the rebuild keeps the
    // output and persists the warning.
    let warnings = helper_exit_warnings("scip-typescript", Some(3), "/repo");
    record_index_warnings(&mut db, &warnings);

    let warnings = indexer.lookup_warnings(&db, &any_key);
    assert_eq!(
        warnings.len(),
        1,
        "the rebuild must persist the non-zero-exit warning"
    );
    assert!(
        warnings[0].contains("exit code: 3"),
        "warning text must name the exit status, got: {}",
        warnings[0]
    );
}

#[test]
fn exit_status_text_is_platform_stable() {
    assert_eq!(exit_status_text(Some(3)), "exit code: 3");
}

#[test]
fn exit_text_covers_negative_codes_and_signals() {
    assert_eq!(exit_status_text(Some(-1)), "exit code: -1");
    assert_eq!(exit_status_text(Some(i32::MIN)), "exit code: -2147483648");
    assert_eq!(exit_status_text(Some(0)), "exit code: 0");
    assert_eq!(exit_status_text(None), "terminated by a signal");
}

#[test]
fn a_successful_helper_leaves_no_warning() {
    assert!(helper_exit_warnings("scip-typescript", Some(0), "/repo").is_empty());
    let w = helper_exit_warnings("scip-typescript", None, "/repo");
    assert_eq!(
        w,
        vec!["scip-typescript exited with terminated by a signal for /repo — index may be incomplete".to_string()]
    );
}

#[test]
fn recording_a_clean_rebuild_clears_earlier_warnings() {
    let mut db = ScipTables::new();
    let indexer = TypeScriptSymbolIndexer::new();
    let key = "k".to_string();
    record_index_warnings(&mut db, &helper_exit_warnings("h", Some(1), "/r"));
    assert_eq!(indexer.lookup_warnings(&db, &key).len(), 1);
    record_index_warnings(&mut db, &Vec::new());
    assert!(indexer.lookup_warnings(&db, &key).is_empty());
    assert_eq!(db.meta.get(&META_INDEX_WARNINGS.to_string()).map(|s| s.as_str()), Some("[]"));
}

#[test]
fn key_payloads_read_back_what_was_written() {
    let keys = vec!["b".to_string(), "a".to_string(), "b".to_string(), "ü€".to_string()];
    let payload = serialize_keys_v1(&keys);
    assert_eq!(payload[0], 1u8);
    assert_eq!(deserialize_keys_v1(&payload), Some(keys.clone()));
    // the payload after the version byte is plain bincode of the list
    assert_eq!(&payload[1..], bincode::serialize(&keys).unwrap().as_slice());
    assert_eq!(deserialize_keys_v1(&[]), None);
    assert_eq!(deserialize_keys_v1(&payload[1..]), None);
    let mut wrong_version = payload.clone();
    wrong_version[0] = 2;
    assert_eq!(deserialize_keys_v1(&wrong_version), None);
}

#[test]
fn reference_payloads_read_back_what_was_written() {
    let stored = vec![
        StoredReference { file: "src/a.ts".to_string(), start_line: 3, end_line: 5, kind: "reference".to_string() },
        StoredReference { file: "src/b.ts".to_string(), start_line: 1, end_line: 1, kind: "definition".to_string() },
    ];
    let payload = serialize_refs(&stored);
    let back = deserialize_refs(&payload).unwrap();
    assert_eq!(back.len(), 2);
    assert_eq!(back[0].file, "src/a.ts");
    assert_eq!((back[0].start_line, back[0].end_line), (3, 5));
    assert_eq!(back[1].kind, "definition");
    assert!(deserialize_refs(&[1u8]).is_none());
}

#[test]
fn unreadable_payloads_are_index_errors() {
    let mut db = ScipTables::new();
    db.names.put("bad".to_string(), vec![7u8, 0, 1]);
    db.symbols.put("k".to_string(), vec![1u8]);
    let indexer = TypeScriptSymbolIndexer::new();
    assert_eq!(
        indexer.resolve_query(&db, &ImpactQuery::Name("bad".into())),
        Err(IndexError::UnreadableKeys)
    );
    assert_eq!(
        indexer.find_references_for_key(&db, &"k".to_string()),
        Err(IndexError::UnreadableReferences)
    );
    assert_eq!(indexer.find_references_for_key(&db, &"missing".to_string()), Ok(Vec::new()));
}

#[test]
fn candidate_order_and_repetition_do_not_change_the_answer() {
    let a = "alpha".to_string();
    let b = "beta".to_string();
    let c = "gamma".to_string();
    let one = match_candidates(&vec![c.clone(), a.clone(), b.clone(), a.clone()]);
    let two = match_candidates(&vec![b.clone(), c.clone(), a.clone()]);
    assert_eq!(one, two);
    assert_eq!(one, KeyMatch::Ambiguous(vec![a.clone(), b.clone(), c.clone()]));
    assert_eq!(match_candidates(&vec![b.clone(), b.clone()]), KeyMatch::Resolved(b.clone()));
    assert_eq!(match_candidates(&Vec::new()), KeyMatch::NotFound);
    assert_eq!(
        sorted_distinct_keys(&vec!["Z".to_string(), "a".to_string(), "Ä".to_string(), "a".to_string()]),
        vec!["Z".to_string(), "a".to_string(), "Ä".to_string()]
    );
}

#[test]
fn position_keys_name_file_and_line() {
    assert_eq!(make_position_key(&"src/math.ts".to_string(), 10), "src/math.ts:10");
    assert_eq!(make_position_key(&"a".to_string(), 0), "a:0");
    assert_eq!(make_position_key(&"a".to_string(), u32::MAX), "a:4294967295");
}

#[test]
fn a_table_gives_back_the_last_value_put_under_a_key() {
    let mut t: Table<u32> = Table::new();
    t.put("x".to_string(), 1);
    t.put("y".to_string(), 2);
    t.put("x".to_string(), 3);
    assert_eq!(t.get(&"x".to_string()), Some(&3));
    assert_eq!(t.get(&"y".to_string()), Some(&2));
    assert_eq!(t.get(&"z".to_string()), None);
    assert_eq!(t.len(), 2);
    assert!(t.contains_key(&"y".to_string()));
}

#[test]
fn payload_bytes_follow_the_bincode_layout() {
    let keys = vec!["ab".to_string()];
    assert_eq!(
        serialize_keys_v1(&keys),
        vec![1u8, 1, 0, 0, 0, 0, 0, 0, 0, 2, 0, 0, 0, 0, 0, 0, 0, b'a', b'b']
    );
    let refs = vec![StoredReference { file: "f".to_string(), start_line: 1, end_line: 258, kind: "é".to_string() }];
    assert_eq!(
        serialize_refs(&refs),
        vec![
            1u8, 0, 0, 0, 0, 0, 0, 0, // one record
            1, 0, 0, 0, 0, 0, 0, 0, b'f', // file
            1, 0, 0, 0, // start line
            2, 1, 0, 0, // end line
            2, 0, 0, 0, 0, 0, 0, 0, 0xC3, 0xA9, // kind, two UTF-8 bytes
        ]
    );
}

#[test]
fn warnings_are_kept_as_compact_json() {
    let mut db = ScipTables::new();
    let warnings = vec!["a\"b\\c\n\u{1}\u{1f}é/".to_string(), String::new()];
    record_index_warnings(&mut db, &warnings);
    assert_eq!(
        db.meta.get(&META_INDEX_WARNINGS.to_string()).map(|s| s.as_str()),
        Some("[\"a\\\"b\\\\c\\n\\u0001\\u001fé/\",\"\"]")
    );
    let indexer = TypeScriptSymbolIndexer::new();
    assert_eq!(indexer.lookup_warnings(&db, &"k".to_string()), warnings);
}
