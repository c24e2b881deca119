use byok_server::error::Error;
use byok_server::knowledge::{
    accepted_update, assemble, escape_xml, local_listing, local_update, mirror,
    mirrors_upstream_list, relevant_items, rule_content, sort_for_listing, system_prompt_section,
    validate_id, JournalEntry, JournalOp, KnowledgeBaseListItem, ReplayOutcome, RuleMeta, RuleRecord,
    RuleStore,
};

fn record(id: &str, knowledge: &str, created_at: &str) -> RuleRecord {
    RuleRecord {
        id: id.into(),
        knowledge: knowledge.into(),
        title: format!("title-{id}"),
        created_at: created_at.into(),
        is_generated: false,
        git_origin: String::new(),
    }
}

/// Reads a rule back the way the store's owner does: its metadata and its file text.
fn read_back(store: &RuleStore, id: &str, knowledge: &str) -> RuleRecord {
    assemble(id, knowledge.into(), store.rule(id), "1970-01-01T00:00:00.000Z")
}

#[test]
fn upserts_lists_and_removes_rules() {
    let mut store = RuleStore::new();
    let first = store
        .upsert(&record("100", "older", "2026-01-01T00:00:00.000Z"))
        .unwrap();
    assert_eq!(first.writes, vec![("100".to_owned(), "older".to_owned())]);
    store
        .upsert(&record("200", "newer", "2026-02-01T00:00:00.000Z"))
        .unwrap();

    let listed = sort_for_listing(vec![
        read_back(&store, "100", "older"),
        read_back(&store, "200", "newer"),
    ]);
    assert_eq!(
        listed.iter().map(|rule| rule.id.as_str()).collect::<Vec<_>>(),
        ["200", "100"],
        "list is sorted by created_at descending"
    );
    assert_eq!(listed[0].knowledge, "newer");
    assert_eq!(listed[0].title, "title-200");

    let removal = store.remove("200").unwrap();
    assert_eq!(removal.deletes, vec!["200".to_owned()]);
    assert!(store.rule("200").is_none());
    assert_eq!(store.rule_ids().len(), 1);
}

#[test]
fn rejects_path_traversal_ids() {
    assert!(validate_id("../escape").is_err());
    assert!(validate_id("a/b").is_err());
    assert!(validate_id("").is_err());
    assert!(matches!(
        validate_id("a/b"),
        Err(Error::Protocol(message)) if message == "invalid rule id: \"a/b\""
    ));
    assert!(validate_id(&"a".repeat(128)).is_ok());
    assert!(validate_id(&"a".repeat(129)).is_err());
    assert!(validate_id("Local_rule-1").is_ok());
}

fn entry(op: JournalOp, id: &str) -> JournalEntry {
    JournalEntry {
        op,
        id: id.into(),
        attempts: 0,
    }
}

#[test]
fn compacts_offline_journal() {
    let mut store = RuleStore::new();

    store
        .upsert_and_record_add(&record("local-a", "v1", "2026-01-01T00:00:00.000Z"))
        .unwrap();
    store
        .upsert_and_record_update(&record("local-a", "v2", "2026-01-01T00:00:00.000Z"))
        .unwrap();
    assert_eq!(store.journal(), &vec![entry(JournalOp::Add, "local-a")]);

    store.remove_and_record("local-a").unwrap();
    assert!(store.journal().is_empty());

    let existing = record("42", "v1", "2026-01-01T00:00:00.000Z");
    store.upsert_and_record_update(&existing).unwrap();
    store.upsert_and_record_update(&existing).unwrap();
    assert_eq!(store.journal(), &vec![entry(JournalOp::Update, "42")]);
    store.remove_and_record("42").unwrap();
    assert_eq!(store.journal(), &vec![entry(JournalOp::Remove, "42")]);
}

#[test]
fn promote_renames_rule_and_journal_ids() {
    let mut store = RuleStore::new();
    store
        .upsert_and_record_add(&record("local-a", "content", "2026-01-01T00:00:00.000Z"))
        .unwrap();

    let transaction = store.promote_and_pop("local-a", "17353272", "content").unwrap();

    assert!(store.rule("local-a").is_none());
    assert_eq!(transaction.deletes, vec!["local-a".to_owned()]);
    assert_eq!(transaction.writes, vec![("17353272".to_owned(), "content".to_owned())]);
    let promoted = read_back(&store, "17353272", "content");
    assert_eq!(promoted.knowledge, "content");
    assert_eq!(promoted.title, "title-local-a");
    assert!(store.journal().is_empty());
}

#[test]
fn replace_all_mirrors_upstream_state() {
    let mut store = RuleStore::new();
    store
        .upsert(&record("stale", "gone soon", "2026-01-01T00:00:00.000Z"))
        .unwrap();

    let transaction = store
        .replace_all(
            &[record("17353272", "from upstream", "2026-02-01T00:00:00.000Z")],
            &["stale".to_owned(), "My Notes".to_owned()],
        )
        .unwrap();

    assert_eq!(store.rule_ids(), &vec!["17353272".to_owned()]);
    assert_eq!(
        transaction.writes,
        vec![("17353272".to_owned(), "from upstream".to_owned())]
    );
    assert_eq!(transaction.deletes, vec!["stale".to_owned()]);
    assert!(store.rule("stale").is_none());
}

#[test]
fn recovers_interrupted_markdown_and_journal_commit() {
    let mut store = RuleStore::new();
    let pending = record("local-a", "durable", "2026-01-01T00:00:00.000Z");
    store.load_rule(
        pending.id.clone(),
        RuleMeta {
            title: pending.title.clone(),
            created_at: pending.created_at.clone(),
            is_generated: pending.is_generated,
            git_origin: pending.git_origin.clone(),
        },
    );
    store.load_journal_entry(entry(JournalOp::Add, "local-a"));

    assert_eq!(read_back(&store, "local-a", "durable").knowledge, "durable");
    assert_eq!(store.journal_front().unwrap().op, JournalOp::Add);
}

#[test]
fn hand_written_files_are_titled_by_their_id() {
    let store = RuleStore::new();
    let listed = assemble("manual_rule", "hand written".into(), store.rule("manual_rule"), "2026-03-01T00:00:00.000Z");
    assert_eq!(listed.id, "manual_rule");
    assert_eq!(listed.title, "manual_rule");
    assert_eq!(listed.knowledge, "hand written");
    assert_eq!(listed.created_at, "2026-03-01T00:00:00.000Z");
}

#[test]
fn rejections_are_counted_until_the_entry_is_dropped() {
    let mut store = RuleStore::new();
    store
        .upsert_and_record_add(&record("local-a", "v1", "2026-01-01T00:00:00.000Z"))
        .unwrap();
    for attempt in 1..8u32 {
        assert!(!store.settle_rejection());
        assert_eq!(store.journal_front().unwrap().attempts, attempt);
    }
    assert!(store.settle_rejection());
    assert!(store.journal_front().is_none());
    assert_eq!(store.record_rejection(), 0);
}

#[test]
fn mirror_drops_the_git_origin_and_replaces_the_metadata() {
    let mut store = RuleStore::new();
    let transaction = mirror(
        &mut store,
        vec![KnowledgeBaseListItem {
            id: "9".into(),
            knowledge: "rule".into(),
            title: "Nine".into(),
            created_at: "2026-01-01T00:00:00.000Z".into(),
            is_generated: true,
        }],
        &[],
    )
    .unwrap();
    assert_eq!(transaction.writes, vec![("9".to_owned(), "rule".to_owned())]);
    let meta = store.rule("9").unwrap();
    assert_eq!(meta.title, "Nine");
    assert!(meta.is_generated);
    assert_eq!(meta.git_origin, "");
}

#[test]
fn front_matter_is_stripped_from_rule_bodies() {
    assert_eq!(rule_content("---\ntitle: x\n---\n\nbody\n"), "body");
    assert_eq!(rule_content("  plain rule  "), "plain rule");
    assert_eq!(rule_content("---\nnever closed"), "---\nnever closed");
    assert_eq!(rule_content(""), "");
    assert_eq!(escape_xml("a<b>&\"c\""), "a&lt;b&gt;&amp;&quot;c&quot;");
}

#[test]
fn prompt_section_lists_rules_with_bodies() {
    assert_eq!(system_prompt_section(&[]), "");
    assert_eq!(
        system_prompt_section(&[record("empty", "---\nx: 1\n---\n", "")]),
        ""
    );
    let section = system_prompt_section(&[
        record("a", "use <tabs>", ""),
        record("b", "   ", ""),
    ]);
    assert_eq!(
        section,
        "<shared_user_rules description=\"These shared local rules apply to every conversation. Follow them when relevant.\">\n<rule file=\"a.md\">\nuse &lt;tabs&gt;\n</rule>\n</shared_user_rules>"
    );
}

fn origin_record(id: &str, origin: &str) -> RuleRecord {
    RuleRecord {
        id: id.into(),
        knowledge: format!("knowledge {id}"),
        title: format!("title {id}"),
        created_at: "2024-01-01T00:00:00.000Z".into(),
        is_generated: false,
        git_origin: origin.into(),
    }
}

#[test]
fn a_local_listing_filters_by_origin_and_limit() {
    let records = vec![
        origin_record("a", "git@one"),
        origin_record("b", "git@two"),
        origin_record("c", "git@one"),
    ];
    let all = local_listing(&records, "", None);
    assert_eq!(all.iter().map(|item| item.id.as_str()).collect::<Vec<_>>(), ["a", "b", "c"]);
    assert_eq!(all[1].title, "title b");
    let one = local_listing(&records, "git@one", None);
    assert_eq!(one.iter().map(|item| item.id.as_str()).collect::<Vec<_>>(), ["a", "c"]);
    let cut = local_listing(&records, "git@one", Some(1));
    assert_eq!(cut.iter().map(|item| item.id.as_str()).collect::<Vec<_>>(), ["a"]);
    assert_eq!(local_listing(&records, "", Some(-1)).len(), 3);
    assert_eq!(local_listing(&records, "", Some(0)).len(), 0);
    assert_eq!(local_listing(&records, "", Some(10)).len(), 3);
}

#[test]
fn only_a_full_successful_upstream_listing_is_mirrored() {
    assert!(mirrors_upstream_list(true, ""));
    assert!(!mirrors_upstream_list(true, "git@one"));
    assert!(!mirrors_upstream_list(false, ""));
}

#[test]
fn relevant_rules_ignore_the_origin_and_honor_the_limit() {
    let records = vec![origin_record("a", "git@one"), origin_record("b", "git@two")];
    let items = relevant_items(&records, None);
    assert_eq!(items.len(), 2);
    assert_eq!(items[1].knowledge_id, "b");
    assert_eq!(items[1].knowledge, "knowledge b");
    assert_eq!(relevant_items(&records, Some(1)).len(), 1);
    assert_eq!(relevant_items(&records, Some(-5)).len(), 2);
}

#[test]
fn an_accepted_update_keeps_what_the_store_knew() {
    let existing = RuleRecord { is_generated: true, ..origin_record("a", "git@one") };
    let updated = accepted_update("a", "new", "New", Some(&existing), "2025-02-02T00:00:00.000Z");
    assert_eq!(updated.knowledge, "new");
    assert_eq!(updated.title, "New");
    assert_eq!(updated.created_at, "2024-01-01T00:00:00.000Z");
    assert!(updated.is_generated);
    assert_eq!(updated.git_origin, "git@one");
    let fresh = accepted_update("z", "k", "t", None, "2025-02-02T00:00:00.000Z");
    assert_eq!(fresh.created_at, "2025-02-02T00:00:00.000Z");
    assert!(!fresh.is_generated);
    assert_eq!(fresh.git_origin, "");
}

#[test]
fn a_local_update_needs_a_stored_rule() {
    assert!(local_update(None, "k", "t").is_none());
    let updated = local_update(Some(origin_record("a", "git@one")), "k", "t").unwrap();
    assert_eq!(updated.id, "a");
    assert_eq!(updated.knowledge, "k");
    assert_eq!(updated.title, "t");
    assert_eq!(updated.git_origin, "git@one");
}

/// One replay of the journal against an upstream that rejects every entry: each rejection is
/// settled, and the replay goes on only past an entry dropped at the retry cap.
fn replay_against_rejecting_upstream(store: &mut RuleStore) -> bool {
    while store.journal_front().is_some() {
        if let Some(result) = store.after_replay(ReplayOutcome::Rejected) {
            return result;
        }
    }
    true
}

#[test]
fn an_unreachable_upstream_stops_the_replay_with_the_journal_kept() {
    let mut store = RuleStore::new();
    store.upsert_and_record_add(&record("local-a", "v1", "2026-01-01T00:00:00.000Z")).unwrap();
    assert_eq!(store.after_replay(ReplayOutcome::Unreachable), Some(false));
    let front = store.journal_front().unwrap();
    assert_eq!(front.id, "local-a");
    assert_eq!(front.attempts, 0);
    assert_eq!(store.after_replay(ReplayOutcome::Advanced), None);
    assert_eq!(store.journal_front().unwrap().id, "local-a");
}

#[test]
fn rejected_add_is_retained() {
    let mut store = RuleStore::new();
    store.upsert_and_record_add(&record("local-a", "v1", "2026-01-01T00:00:00.000Z")).unwrap();
    assert!(!replay_against_rejecting_upstream(&mut store));
    let front = store.journal_front().unwrap();
    assert_eq!(front.op, JournalOp::Add);
    assert_eq!(front.attempts, 1);
}

#[test]
fn rejected_update_is_retained() {
    let mut store = RuleStore::new();
    store.upsert_and_record_update(&record("42", "v1", "2026-01-01T00:00:00.000Z")).unwrap();
    assert!(!replay_against_rejecting_upstream(&mut store));
    assert_eq!(store.journal_front().unwrap().op, JournalOp::Update);
}

#[test]
fn rejected_remove_is_retained() {
    let mut store = RuleStore::new();
    store.upsert(&record("42", "v1", "2026-01-01T00:00:00.000Z")).unwrap();
    store.remove_and_record("42").unwrap();
    assert!(!replay_against_rejecting_upstream(&mut store));
    assert_eq!(store.journal_front().unwrap().op, JournalOp::Remove);
}

#[test]
fn permanently_rejected_entry_is_dropped_after_the_retry_cap() {
    let mut store = RuleStore::new();
    store.upsert_and_record_add(&record("local-a", "v1", "2026-01-01T00:00:00.000Z")).unwrap();
    store.upsert_and_record_add(&record("local-b", "v1", "2026-01-01T00:00:00.000Z")).unwrap();
    for attempt in 1..byok_server::knowledge::MAX_REPLAY_REJECTIONS {
        assert!(!replay_against_rejecting_upstream(&mut store));
        assert_eq!(store.journal_front().unwrap().attempts, attempt, "attempt {attempt} must be retained");
    }
    // Cap reached: the head entry is dropped and replay continues with the following entries.
    assert!(!replay_against_rejecting_upstream(&mut store));
    let front = store.journal_front().unwrap();
    assert_eq!(front.id, "local-b");
    assert_eq!(front.attempts, 1);
}
