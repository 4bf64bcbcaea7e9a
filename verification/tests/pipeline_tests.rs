use readit::indexing::{
    build_content, file_descriptions, plan_reindex, record_from_description, remove_all,
    strip_code_fences, IndexRun, RetryState,
};
use readit::store::{EntityKind, Record, Store, StoreError};
use readit::structs::{CodeDescription, GPTResponse};
use readit::summary::{apply_summary, sort_file_pairs, summary_digest};

fn record(file: &str, hash: &str, kind: EntityKind, name: &str, purpose: &str, emb: Vec<i64>) -> Record {
    Record {
        file: file.to_string(),
        content_hash: hash.to_string(),
        entity_kind: kind,
        language: "Rust".to_string(),
        name: name.to_string(),
        purpose: purpose.to_string(),
        source_text: "src".to_string(),
        content: build_content(file, "file", name, purpose, "src"),
        embedding: emb,
    }
}

#[test]
fn change_detection_before_and_after_insert() {
    let mut store = Store::new(2);
    assert!(store.is_file_change("a.rs", "h1"));
    store
        .insert(record("a.rs", "h1", EntityKind::File, "a.rs", "pa", vec![1, 2]))
        .unwrap();
    assert!(!store.is_file_change("a.rs", "h1"));
    // A changed fingerprint for the same path still needs processing.
    assert!(store.is_file_change("a.rs", "h2"));
    assert!(store.is_file_change("b.rs", "h1"));
}

#[test]
fn insert_refuses_wrong_width() {
    let mut store = Store::new(2);
    let r = store.insert(record("a.rs", "h1", EntityKind::File, "a.rs", "pa", vec![1, 2, 3]));
    assert_eq!(r, Err(StoreError::DimensionMismatch));
    assert_eq!(store.len(), 0);
}

#[test]
fn insert_refuses_component_out_of_range() {
    let mut store = Store::new(2);
    let r = store.insert(record(
        "a.rs",
        "h1",
        EntityKind::File,
        "a.rs",
        "pa",
        vec![1, 0x1_0000_0000],
    ));
    assert_eq!(r, Err(StoreError::ComponentOutOfRange));
    assert_eq!(store.len(), 0);
}

#[test]
fn unchanged_file_is_not_planned_again() {
    let mut store = Store::new(2);
    store
        .insert(record("a.rs", "h1", EntityKind::File, "a.rs", "pa", vec![1, 2]))
        .unwrap();
    let files = vec![
        ("a.rs".to_string(), "h1".to_string()),
        ("b.rs".to_string(), "h2".to_string()),
    ];
    let plan = plan_reindex(&files, &store);
    assert_eq!(plan, vec![1]);
    // Re-planning with nothing new stays empty once b.rs is recorded too.
    store
        .insert(record("b.rs", "h2", EntityKind::File, "b.rs", "pb", vec![3, 4]))
        .unwrap();
    let plan2 = plan_reindex(&files, &store);
    assert!(plan2.is_empty());
}

#[test]
fn update_replaces_exactly_the_rows_of_one_file() {
    let mut store = Store::new(2);
    store
        .insert(record("a.rs", "h1", EntityKind::File, "a.rs", "old", vec![1, 2]))
        .unwrap();
    store
        .insert(record("a.rs", "h1", EntityKind::Function, "f", "old-f", vec![1, 2]))
        .unwrap();
    store
        .insert(record("b.rs", "h2", EntityKind::File, "b.rs", "pb", vec![3, 4]))
        .unwrap();
    let new_rows = vec![
        record("a.rs", "h9", EntityKind::File, "a.rs", "new", vec![5, 6]),
        record("a.rs", "h9", EntityKind::Class, "C", "new-c", vec![5, 6]),
    ];
    store.update_file("a.rs", new_rows).unwrap();
    let rows = store.all();
    assert_eq!(rows.len(), 3);
    assert_eq!(rows[0].file, "b.rs");
    assert_eq!(rows[1].file, "a.rs");
    assert_eq!(rows[1].purpose, "new");
    assert_eq!(rows[2].purpose, "new-c");
    // No stale rows survive for the updated file.
    assert!(rows.iter().all(|r| r.file != "a.rs" || r.content_hash == "h9"));
}

#[test]
fn summary_row_count_stays_at_one() {
    let mut store = Store::new(2);
    store
        .insert(record("a.rs", "h1", EntityKind::File, "a.rs", "pa", vec![1, 2]))
        .unwrap();
    apply_summary(&mut store, "first summary".to_string(), vec![0, 0]).unwrap();
    apply_summary(&mut store, "second summary".to_string(), vec![0, 0]).unwrap();
    let summaries: Vec<_> = store
        .all()
        .iter()
        .filter(|r| r.file == "whole project")
        .collect();
    assert_eq!(summaries.len(), 1);
    assert_eq!(summaries[0].purpose, "second summary");
    assert_eq!(summaries[0].name, "whole project summary");
    assert_eq!(summaries[0].entity_kind, EntityKind::File);
}

#[test]
fn digest_reflects_file_purposes_sorted_by_path() {
    let mut store = Store::new(2);
    store
        .insert(record("b.rs", "h2", EntityKind::File, "b.rs", "pb", vec![3, 4]))
        .unwrap();
    store
        .insert(record("a.rs", "h1", EntityKind::File, "a.rs", "pa", vec![1, 2]))
        .unwrap();
    // Entity rows do not enter the digest.
    store
        .insert(record("a.rs", "h1", EntityKind::Function, "f", "pf", vec![1, 2]))
        .unwrap();
    let digest = summary_digest(&store);
    assert_eq!(digest, "a.rs: pa\nb.rs: pb");
}

#[test]
fn digest_of_empty_store_is_empty() {
    let store = Store::new(2);
    assert_eq!(summary_digest(&store), "");
}

#[test]
fn sorting_pairs_is_stable_by_key_then_value() {
    let pairs = vec![
        ("b".to_string(), "2".to_string()),
        ("a".to_string(), "9".to_string()),
        ("a".to_string(), "1".to_string()),
    ];
    let sorted = sort_file_pairs(pairs);
    assert_eq!(
        sorted,
        vec![
            ("a".to_string(), "1".to_string()),
            ("a".to_string(), "9".to_string()),
            ("b".to_string(), "2".to_string()),
        ]
    );
}

#[test]
fn end_to_end_three_files_and_search() {
    let dim = 4usize;
    let mut store = Store::new(dim);
    let entries = [
        ("a.rs", "ha", "pa", vec![0i64, 0, 0, 0]),
        ("b.rs", "hb", "pb", vec![100, 100, 100, 100]),
        ("c.rs", "hc", "pc", vec![-100, -100, -100, -100]),
    ];
    for (f, h, p, e) in entries.iter() {
        assert!(store.is_file_change(f, h));
        store
            .insert(record(f, h, EntityKind::File, f, p, e.clone()))
            .unwrap();
    }
    assert_eq!(store.len(), 3);
    // A query close to b.rs's embedding ranks its content first.
    let query: Vec<i64> = vec![90, 90, 90, 90];
    let results = store.search(&query, 10);
    assert_eq!(results.len(), 3);
    let b_content = build_content("b.rs", "file", "b.rs", "pb", "src");
    assert_eq!(results[0], b_content);
    assert!(results.contains(&b_content));
}

#[test]
fn search_keeps_only_k_nearest() {
    let mut store = Store::new(1);
    for (i, f) in ["a", "b", "c", "d"].iter().enumerate() {
        store
            .insert(record(f, "h", EntityKind::File, f, "p", vec![10 * i as i64]))
            .unwrap();
    }
    let results = store.search(&vec![0], 2);
    assert_eq!(results.len(), 2);
    assert_eq!(results[0], build_content("a", "file", "a", "p", "src"));
    assert_eq!(results[1], build_content("b", "file", "b", "p", "src"));
}

#[test]
fn select_filters_on_one_column() {
    let mut store = Store::new(2);
    store
        .insert(record("a.rs", "h1", EntityKind::File, "a.rs", "pa", vec![1, 2]))
        .unwrap();
    store
        .insert(record("a.rs", "h1", EntityKind::Function, "f", "pf", vec![1, 2]))
        .unwrap();
    store
        .insert(record("b.rs", "h2", EntityKind::File, "b.rs", "pb", vec![3, 4]))
        .unwrap();
    assert_eq!(store.search_other("file", "a.rs"), vec![0, 1]);
    assert_eq!(store.search_other("code_type", "file"), vec![0, 2]);
    assert_eq!(store.search_other("md5", "h2"), vec![2]);
    assert_eq!(store.search_other("name", "f"), vec![1]);
    assert!(store.search_other("nonsense", "x").is_empty());
}

#[test]
fn full_reindex_wipes_the_store() {
    let mut store = Store::new(2);
    store
        .insert(record("a.rs", "h1", EntityKind::File, "a.rs", "pa", vec![1, 2]))
        .unwrap();
    store.clean_all();
    assert_eq!(store.len(), 0);
    assert!(store.is_file_change("a.rs", "h1"));
}

#[test]
fn content_is_the_documented_concatenation() {
    let c = build_content("lib.rs", "function", "go", "runs it", "fn go() {}");
    assert_eq!(c, "//file lib.rs \n//function name: go\n\n// runs it\nfn go() {}");
}

#[test]
fn descriptions_cover_file_classes_and_functions() {
    let response = GPTResponse {
        purpose: "does things".to_string(),
        classes: vec![CodeDescription {
            name: "C".to_string(),
            md5: None,
            source_code: "class C".to_string(),
            purpose: "a class".to_string(),
            lang: None,
            file: None,
            code_type: None,
        }],
        functions: vec![CodeDescription {
            name: "f".to_string(),
            md5: None,
            source_code: "fn f".to_string(),
            purpose: "a function".to_string(),
            lang: None,
            file: None,
            code_type: None,
        }],
    };
    let descs = file_descriptions(&response, "m.rs", "/p/m.rs", "hash", "Rust", "code");
    assert_eq!(descs.len(), 3);
    assert_eq!(descs[0].code_type.as_deref(), Some("file"));
    assert_eq!(descs[0].purpose, "does things");
    assert_eq!(descs[1].code_type.as_deref(), Some("class"));
    assert_eq!(descs[1].name, "C");
    assert_eq!(descs[2].code_type.as_deref(), Some("function"));
    assert_eq!(descs[2].name, "f");
    let rec = record_from_description(&descs[2], vec![1, 2]);
    assert_eq!(rec.entity_kind, EntityKind::Function);
    assert_eq!(rec.file, "/p/m.rs");
    assert_eq!(
        rec.content,
        build_content("/p/m.rs", "function", "f", "a function", "fn f")
    );
}

#[test]
fn malformed_output_is_retried_at_most_three_times() {
    let mut retry = RetryState::new();
    assert!(retry.register_failure());
    assert!(retry.register_failure());
    assert!(!retry.register_failure());
}

#[test]
fn summary_waits_for_the_barrier() {
    let mut run = IndexRun::new(2);
    assert!(!run.summary_allowed());
    run.record_finished();
    assert!(!run.summary_allowed());
    run.record_finished();
    assert!(run.summary_allowed());
}

#[test]
fn code_fences_are_stripped() {
    let cleaned = strip_code_fences("```json\n{\"purpose\": \"x\"}\n```");
    assert_eq!(cleaned, "{\"purpose\": \"x\"}\n");
    let untouched = strip_code_fences("{\"purpose\": \"x\"}");
    assert_eq!(untouched, "{\"purpose\": \"x\"}");
}

#[test]
fn remove_all_removes_every_occurrence() {
    assert_eq!(remove_all("abcabc", "b"), "acac");
    assert_eq!(remove_all("``````", "```"), "");
    assert_eq!(remove_all("plain", "zz"), "plain");
}
