use gqy::language::Language;
use gqy::state::db::ConversationDb;
use gqy::state::error::{StateError, StateErrorKind};
use gqy::state::footprint::ToolFootprint;
use gqy::state::journal::{interrupted_text, pending_placeholder, strip_suffix};
use gqy::state::replay::{encode_replay, fit_budget, truncate_chars_owned};
use gqy::state::rows::{EvictedRow, QueuedPromptRow, TurnRow};
use gqy::state::sessions::{same_but_case, DEFAULT_SESSION_ID};
use gqy::state::size::turn_chars;
use gqy::state::types::{
    ArtifactAsset, ArtifactAssetData, EvictedTurn, ImageAsset, ImageAssetData,
    PlatformAccessActor, PlatformAccessGrantKey, PlatformPluginScopeKey, PlatformSessionBindingKey,
    RedoInputKind, ReplayEntry, TurnTokens,
};

const NOW: &str = "2026-01-01T00:00:00Z";
const LATER: &str = "2026-01-02T00:00:00Z";

fn ok<T>(result: Result<T, StateError>) -> T {
    match result {
        Ok(value) => value,
        Err(error) => panic!("{}", error.message(Language::English)),
    }
}

fn kind<T>(result: Result<T, StateError>) -> StateErrorKind {
    match result {
        Ok(_) => panic!("it should have failed"),
        Err(error) => error.kind,
    }
}

fn turn(id: &str, session: &str, seq: i64, status: &str) -> TurnRow {
    TurnRow {
        turn_id: id.to_string(),
        session_id: session.to_string(),
        seq,
        user_content: format!("question {seq}"),
        display_content: format!("question {seq}"),
        user_timestamp: NOW.to_string(),
        assistant_content: format!("answer {seq}"),
        assistant_reasoning: None,
        assistant_provider_id: None,
        assistant_model: None,
        assistant_timestamp: Some(NOW.to_string()),
        status: status.to_string(),
        tool_reports: "[]".to_string(),
        tool_reports_archive: None,
        tool_flow: Vec::new(),
        hidden: false,
        is_summary: false,
        owner_pid: None,
        queue_session_id: None,
        token_total: 0,
        token_prompt: 0,
        token_cache_read: 0,
        token_usage_estimated: false,
        revision: 0,
        context_messages: Vec::new(),
        replay_journal: None,
        compact_reversible: false,
        compact_parent_summary_seq: None,
        compact_hidden_json: None,
        tool_footprint: None,
    }
}

fn prompt(id: &str, seq: i64, session: &str, queue: &str, pid: i64) -> QueuedPromptRow {
    QueuedPromptRow {
        prompt_id: id.to_string(),
        seq,
        session_id: session.to_string(),
        queue_session_id: Some(queue.to_string()),
        owner_pid: Some(pid),
        status: "queued".to_string(),
        content: format!("content of {id}"),
        display_content: format!("shown of {id}"),
        context_content: None,
        attachments: Vec::new(),
        submitted_at: NOW.to_string(),
        consumed_at: None,
        turn_id: None,
        preceding_assistant_content: None,
        preceding_assistant_reasoning: None,
        preceding_assistant_provider_id: None,
        preceding_assistant_model: None,
    }
}

fn with_session(id: &str) -> ConversationDb {
    let mut db = ConversationDb::new();
    ok(db.create_session(id, "gqy", "first", "user", None, NOW));
    db
}

fn tokens(total: u64) -> TurnTokens {
    TurnTokens { total, prompt: total, cache_read: 0 }
}

#[test]
fn a_created_session_is_found_by_id_and_name() {
    let db = with_session("s1");
    let record = db.session_record("s1").unwrap();
    assert_eq!(record.name, "first");
    assert_eq!(record.kind, "user");
    assert_eq!(db.find_session_by_name("gqy", "FIRST").unwrap().session_id, "s1");
    assert!(db.find_session_by_name("other", "first").is_none());
    assert_eq!(db.list_sessions("gqy").len(), 1);
}

#[test]
fn an_id_is_given_to_one_session_only() {
    let mut db = with_session("s1");
    let again = db.create_session("s1", "gqy", "second", "user", None, NOW);
    assert_eq!(kind(again), StateErrorKind::UniqueViolation);
    assert_eq!(db.sessions.len(), 1);
}

#[test]
fn a_session_that_is_gone_takes_its_turns_along() {
    let mut db = with_session("s1");
    db.turns.push(turn("t1", "s1", 1, "completed"));
    db.queued_prompts.push(prompt("p1", 1, "s1", "q", 1));
    ok(db.delete_session("s1"));
    assert!(db.session_record("s1").is_none());
    assert!(db.turns.is_empty());
    assert!(db.queued_prompts.is_empty());
    assert_eq!(kind(db.delete_session("s1")), StateErrorKind::SessionNotFound);
}

#[test]
fn the_current_session_is_the_one_that_was_set() {
    let mut db = with_session("s1");
    ok(db.create_session("s2", "gqy", "second", "user", None, NOW));
    ok(db.set_current_session("s2"));
    assert_eq!(db.resolve_current_session(NOW, Language::English), "s2");
    assert_eq!(kind(db.set_current_session("nowhere")), StateErrorKind::SessionNotFound);
}

#[test]
fn an_empty_store_gets_a_session() {
    let mut db = ConversationDb::new();
    assert_eq!(db.resolve_current_session(NOW, Language::English), DEFAULT_SESSION_ID);
    assert!(db.has_session(DEFAULT_SESSION_ID));
}

#[test]
fn pointers_of_personas_are_apart() {
    let mut db = with_session("s1");
    ok(db.create_session("s2", "dev", "second", "user", None, NOW));
    db.set_persona_current_session("gqy", "s1");
    db.set_repl_session("dev", "s2");
    assert_eq!(db.persona_current_session("gqy"), Some("s1".to_string()));
    assert_eq!(db.persona_current_session("dev"), None);
    assert_eq!(db.repl_session("dev"), Some("s2".to_string()));
    assert_eq!(db.repl_session("gqy"), None);
}

#[test]
fn a_persona_takes_its_sessions_along_when_it_is_renamed() {
    let mut db = with_session("s1");
    ok(db.rename_persona_scope("gqy", "new"));
    assert_eq!(db.session_record("s1").unwrap().persona, "new");
    ok(db.create_session("s2", "taken", "second", "user", None, NOW));
    assert_eq!(kind(db.rename_persona_scope("new", "taken")), StateErrorKind::PersonaHasSessions);
    db.delete_persona_scope("new");
    assert!(db.session_record("s1").is_none());
}

#[test]
fn one_column_of_a_session_is_set() {
    let mut db = with_session("s1");
    ok(db.rename_session("s1", "renamed"));
    ok(db.set_session_workspace("s1", &Some("/work".to_string())));
    ok(db.set_session_model_override("s1", &Some("[]".to_string())));
    let record = db.session_record("s1").unwrap();
    assert_eq!(record.name, "renamed");
    assert_eq!(record.workspace, Some("/work".to_string()));
    assert_eq!(db.session_model_override("s1"), Some("[]".to_string()));
    assert_eq!(kind(db.rename_session("s2", "x")), StateErrorKind::SessionNotFound);
}

fn binding(participant: Option<&str>) -> PlatformSessionBindingKey {
    PlatformSessionBindingKey {
        platform: "qq".to_string(),
        account_id: "1".to_string(),
        conversation_kind: "group".to_string(),
        conversation_id: "2".to_string(),
        participant_id: participant.map(|p| p.to_string()),
        persona: "gqy".to_string(),
    }
}

#[test]
fn a_bound_conversation_is_found_and_let_go() {
    let mut db = with_session("s1");
    ok(db.bind_platform_session(&binding(None), "s1", NOW));
    assert_eq!(db.find_platform_session_binding(&binding(None)), Some("s1".to_string()));
    assert!(db.is_platform_session("s1"));
    assert_eq!(db.platform_session_bindings("gqy", "qq").len(), 1);
    let other = db.bind_platform_session(&binding(Some("p")), "s1", NOW);
    assert_eq!(kind(other), StateErrorKind::SessionBoundElsewhere);
    assert!(db.unbind_platform_session(&binding(None)));
    assert!(!db.unbind_platform_session(&binding(None)));
    assert_eq!(db.find_platform_session_binding(&binding(None)), None);
}

#[test]
fn claims_for_one_conversation_come_to_one_session() {
    let mut db = with_session("s1");
    ok(db.create_session("s2", "gqy", "second", "user", None, NOW));
    assert_eq!(ok(db.claim_platform_session(&binding(None), "s1", NOW)), "s1");
    assert_eq!(ok(db.claim_platform_session(&binding(None), "s2", NOW)), "s1");
}

#[test]
fn a_conversation_gets_one_session_only() {
    let mut db = ConversationDb::new();
    let (first, made) = ok(db.create_or_get_platform_session(&binding(None), "chat", "s1", NOW));
    assert!(made);
    let (second, made) = ok(db.create_or_get_platform_session(&binding(None), "chat", "s2", NOW));
    assert!(!made);
    assert_eq!(first.session_id, second.session_id);
}

fn scope() -> PlatformPluginScopeKey {
    PlatformPluginScopeKey {
        plugin_id: "affection".to_string(),
        platform: "qq".to_string(),
        account_id: "1".to_string(),
        conversation_kind: "group".to_string(),
        conversation_id: "2".to_string(),
    }
}

#[test]
fn a_plugin_reads_what_it_wrote() {
    let mut db = ConversationDb::new();
    assert_eq!(db.plugin_get_json(&scope(), "k"), None);
    db.plugin_put_json(&scope(), "k", "1", NOW);
    assert_eq!(db.plugin_get_json(&scope(), "k"), Some("1".to_string()));
    assert_eq!(db.plugin_json_revision(&scope(), "k"), Some(NOW.to_string()));
    db.plugin_update_json(&scope(), "k", Some("1"), Some("2"), LATER);
    assert_eq!(
        db.plugin_get_json_with_revision(&scope(), "k"),
        Some(("2".to_string(), LATER.to_string()))
    );
    assert!(db.plugin_delete_key(&scope(), "k"));
    assert!(!db.plugin_delete_key(&scope(), "k"));
    db.plugin_put_json(&scope(), "a", "1", NOW);
    db.plugin_put_json(&scope(), "b", "1", NOW);
    assert_eq!(db.plugin_delete_scope(&scope()), 2);
}

fn grant_key(user: &str) -> PlatformAccessGrantKey {
    PlatformAccessGrantKey {
        platform: "qq".to_string(),
        account_scope: "*".to_string(),
        permission: "use".to_string(),
        subject_kind: "user".to_string(),
        subject_id: user.to_string(),
    }
}

fn actor() -> PlatformAccessActor {
    PlatformAccessActor {
        platform: "qq".to_string(),
        account_id: "1".to_string(),
        user_id: "owner".to_string(),
        conversation_kind: "private".to_string(),
        conversation_id: "owner".to_string(),
        message_id: "m".to_string(),
    }
}

#[test]
fn a_grant_is_given_and_taken_once_and_noted() {
    let mut db = ConversationDb::new();
    assert!(db.add_platform_access_grant(&grant_key("u"), &actor(), "a1", NOW));
    assert!(!db.add_platform_access_grant(&grant_key("u"), &actor(), "a2", NOW));
    assert_eq!(db.platform_access_grants(Some("qq")).len(), 1);
    assert_eq!(db.platform_access_grants(Some("other")).len(), 0);
    assert!(db.remove_platform_access_grant(&grant_key("u"), &actor(), "a3", LATER));
    assert!(!db.remove_platform_access_grant(&grant_key("u"), &actor(), "a4", LATER));
    assert_eq!(db.audit.len(), 2);
    assert_eq!(db.audit[0].audit_id, "a1");
    assert_eq!(db.audit[1].audit_id, "a3");
}

#[test]
fn turns_are_loaded_in_order_without_the_hidden() {
    let mut db = with_session("s1");
    db.turns.push(turn("t2", "s1", 2, "completed"));
    db.turns.push(turn("t1", "s1", 1, "completed"));
    db.turns.push(turn("t3", "other", 3, "completed"));
    assert_eq!(db.hide_turns_before_seq("s1", 1), 1);
    let all = db.load_turns("s1");
    let visible = db.load_visible_turns("s1");
    assert_eq!(all.iter().map(|t| t.turn_id.as_str()).collect::<Vec<_>>(), vec!["t1", "t2"]);
    assert_eq!(visible.iter().map(|t| t.turn_id.as_str()).collect::<Vec<_>>(), vec!["t2"]);
    assert_eq!(db.count_turns("s1"), 2);
    assert_eq!(db.latest_turn_seq("s1"), 2);
    assert_eq!(db.next_seq("s1"), Some(3));
}

#[test]
fn a_running_turn_is_seen_until_its_process_is_gone() {
    let mut db = with_session("s1");
    let mut running = turn("t1", "s1", 1, "running");
    running.owner_pid = Some(7);
    running.queue_session_id = Some("q".to_string());
    running.assistant_content = pending_placeholder().to_string();
    db.turns.push(running);
    assert!(db.has_running_turns("s1"));
    assert_eq!(
        db.running_turn_queue_target("s1"),
        Some(("t1".to_string(), Some("q".to_string()), Some(7)))
    );
    assert_eq!(ok(db.recover_stale_running_turns(&vec![7], NOW)).len(), 0);
    let recovered = ok(db.recover_stale_running_turns(&vec![8], LATER));
    assert_eq!(recovered.len(), 1);
    assert_eq!(recovered[0].turn_id, "t1");
    assert!(!recovered[0].restored_redo);
    assert!(!db.has_any_running_turns());
    assert_eq!(db.turns[0].status, "interrupted");
}

#[test]
fn prompts_are_taken_up_once_in_order() {
    let mut db = with_session("s1");
    let mut running = turn("t1", "s1", 1, "running");
    running.queue_session_id = Some("q".to_string());
    db.turns.push(running);
    db.queued_prompts.push(prompt("p1", 1, "s1", "q", 7));
    db.queued_prompts.push(prompt("p2", 2, "s1", "q", 7));
    let waiting = db.load_queued_prompts("s1", "q");
    assert_eq!(waiting.iter().map(|p| p.prompt_id.as_str()).collect::<Vec<_>>(), vec!["p1", "p2"]);
    let batch = vec![("p1".to_string(), "content of p1".to_string())];
    ok(db.consume_queued_prompts("s1", "t1", &batch, Some("so far"), None, None, None, "q", NOW));
    assert_eq!(db.load_queued_prompts("s1", "q").len(), 1);
    let again = db.consume_queued_prompts("s1", "t1", &batch, None, None, None, None, "q", NOW);
    assert_eq!(kind(again), StateErrorKind::PromptChanged);
    let gone = db.consume_queued_prompts("s1", "t9", &batch, None, None, None, None, "q", NOW);
    assert_eq!(kind(gone), StateErrorKind::TurnNotRunning);
}

#[test]
fn a_prompt_is_withdrawn_and_a_queue_emptied() {
    let mut db = with_session("s1");
    db.queued_prompts.push(prompt("p1", 1, "s1", "q", 7));
    db.queued_prompts.push(prompt("p2", 2, "s1", "q", 7));
    assert!(db.remove_queued_prompt("s1", "p1", "q"));
    assert!(!db.remove_queued_prompt("s1", "p1", "q"));
    assert_eq!(db.delete_queued_prompts("s1", "q"), vec!["p2".to_string()]);
    assert!(db.queued_prompts.is_empty());
}

#[test]
fn prompts_of_dead_processes_are_discarded() {
    let mut db = with_session("s1");
    db.queued_prompts.push(prompt("p1", 1, "s1", "old", 7));
    db.queued_prompts.push(prompt("p2", 2, "s1", "new", 8));
    let discarded = db.discard_stale_queued_prompts("new", &vec![8]);
    assert_eq!(discarded, 1);
    assert_eq!(db.load_queued_prompts("s1", "new").len(), 1);
}

#[test]
fn a_summary_hides_turns_and_is_taken_back() {
    let mut db = with_session("s1");
    db.turns.push(turn("t1", "s1", 1, "completed"));
    db.turns.push(turn("t2", "s1", 2, "completed"));
    db.turns.push(turn("t3", "s1", 3, "completed"));
    let fold = vec!["t1".to_string(), "t2".to_string()];
    let visible = vec!["t1".to_string(), "t2".to_string(), "t3".to_string()];
    ok(db.replace_visible_with_summary(
        "s1", &fold, &visible, "in short", &tokens(9), false, None, "sum", NOW,
    ));
    let shown = db.load_visible_turns("s1");
    assert!(shown.iter().any(|t| t.turn_id == "sum" && t.is_summary));
    assert!(!shown.iter().any(|t| t.turn_id == "t1"));
    assert_eq!(db.load_last_summary("s1").unwrap().turn_id, "sum");
    let changed = db.replace_visible_with_summary(
        "s1", &fold, &visible, "again", &tokens(9), false, None, "sum2", NOW,
    );
    assert_eq!(kind(changed), StateErrorKind::CompactConversationChanged);
    let empty = db.replace_visible_with_summary(
        "s1", &fold, &visible, "  ", &tokens(9), false, None, "sum3", NOW,
    );
    assert_eq!(kind(empty), StateErrorKind::EmptySummary);
}

#[test]
fn the_last_turn_is_undone() {
    let mut db = with_session("s1");
    db.turns.push(turn("t1", "s1", 1, "completed"));
    db.turns.push(turn("t2", "s1", 2, "completed"));
    let (n, content) = db.undo_last_turn("s1");
    assert_eq!(n, 1);
    assert_eq!(content, Some("question 2".to_string()));
    assert_eq!(db.load_visible_turns("s1").len(), 1);
}

#[test]
fn turns_are_archived_before_they_go() {
    let mut db = with_session("s1");
    db.turns.push(turn("t1", "s1", 1, "completed"));
    db.turns.push(turn("t2", "s1", 2, "completed"));
    let mut archive: Vec<EvictedRow> = Vec::new();
    let evicted = vec![EvictedTurn {
        source_id: "t1:user".to_string(),
        timestamp: NOW.to_string(),
        role: "user".to_string(),
        content: "question 1".to_string(),
        visibility: "owner".to_string(),
        owner_principal: None,
        owner_display_name: None,
    }];
    let ids = vec!["t1".to_string()];
    let n = ok(db.archive_and_delete_visible_turns("s1", &mut archive, &evicted, &ids, &None, NOW));
    assert_eq!(n, 1);
    assert_eq!(archive.len(), 1);
    assert_eq!(db.load_turns("s1").len(), 1);
    let gone = db.delete_visible_turns("s1", &ids);
    assert_eq!(kind(gone), StateErrorKind::PoppedTurnsChanged);
}

#[test]
fn reports_that_are_long_ago_are_pruned_once() {
    let mut db = with_session("s1");
    let mut first = turn("t1", "s1", 1, "completed");
    first.tool_reports = format!("[\"{}\"]", "x".repeat(5000));
    db.turns.push(first);
    db.turns.push(turn("t2", "s1", 2, "completed"));
    let stats = db.prune_stale_tool_reports("s1", 1, 1);
    assert_eq!(stats.turns, 1);
    assert!(stats.saved_chars > 4000);
    assert!(db.turns[0].tool_reports_archive.is_some());
    assert_eq!(db.prune_stale_tool_reports("s1", 1, 1).turns, 0);
}

#[test]
fn what_was_used_is_added_up() {
    let mut db = with_session("s1");
    let mut first = turn("t1", "s1", 1, "completed");
    first.token_total = 5;
    first.token_prompt = 3;
    db.turns.push(first);
    assert_eq!(ok(db.session_token_total("s1")), 5);
    assert_eq!(ok(db.session_token_totals("s1")).prompt, 3);
    db.hide_turns_before_seq("s1", 1);
    assert_eq!(ok(db.session_token_total("s1")), 5);
    db.reset("s1");
    assert_eq!(db.load_turns("s1").len(), 0);
    assert_eq!(ok(db.session_token_total("s1")), 0);
}

#[test]
fn the_last_input_may_be_answered_again() {
    let mut db = with_session("s1");
    db.turns.push(turn("t1", "s1", 1, "completed"));
    let candidate = db.redo_candidate("s1").unwrap();
    assert_eq!(candidate.turn_id, "t1");
    assert_eq!(candidate.input_id, "t1");
    assert!(matches!(candidate.input_kind, RedoInputKind::Initial));
    let start = ok(db.begin_redo(
        "s1", "t1", "t1", RedoInputKind::Initial, 0, "asked again", "asked again", 7, "q", NOW,
    ));
    assert_eq!(start.revision, 1);
    assert_eq!(db.turns[0].status, "running");
    assert!(db.redo_candidate("s1").is_none());
    assert!(ok(db.restore_redo_backup("t1", 1)));
    assert_eq!(db.turns[0].assistant_content, "answer 1");
    assert_eq!(db.turns[0].user_content, "question 1");
    let missing = db.begin_redo(
        "s1", "t9", "t9", RedoInputKind::Initial, 0, "x", "x", 7, "q", NOW,
    );
    assert_eq!(kind(missing), StateErrorKind::RedoConversationChanged);
}

#[test]
fn tools_that_were_loaded_are_remembered_once() {
    let mut db = with_session("s1");
    let names = vec!["a".to_string(), "b".to_string()];
    assert_eq!(db.add_session_loaded_items("s1", "tool", &names, Some("t1"), NOW), 2);
    assert_eq!(db.add_session_loaded_items("s1", "tool", &names, None, NOW), 2);
    assert_eq!(db.load_session_loaded_items("s1", "tool"), names);
    assert_eq!(db.load_session_loaded_items("s1", "target").len(), 0);
    assert_eq!(
        db.load_session_loaded_items_with_sources("s1", "tool")[0],
        ("a".to_string(), Some("t1".to_string()))
    );
}

#[test]
fn old_conversations_are_taken_over() {
    let mut db = with_session("s1");
    let lines = vec![
        "{\"role\":\"user\",\"content\":\"hello\",\"timestamp\":\"2025-01-01T00:00:00Z\"}".to_string(),
        "not json".to_string(),
        "{\"role\":\"assistant\",\"content\":\"hi\",\"timestamp\":\"2025-01-01T00:00:01Z\"}".to_string(),
        "{\"role\":\"user\",\"content\":\"more\",\"timestamp\":\"2025-01-01T00:00:02Z\"}".to_string(),
    ];
    let n = ok(db.migrate_from_jsonl("s1", &lines, NOW));
    assert_eq!(n, db.load_turns("s1").len());
    let turns = db.load_turns("s1");
    assert_eq!(turns[0].user_content, "hello");
    assert_eq!(turns[0].assistant_content, "hi");
}

#[test]
fn an_unreadable_picture_is_not_kept() {
    let mut db = with_session("s1");
    db.turns.push(turn("t1", "s1", 1, "running"));
    let bad = db.save_image_asset("t1", None, "a.png", &vec![1, 2, 3], "a", 1, 2, NOW);
    assert_eq!(kind(bad), StateErrorKind::ImageUnreadable);
    let png: Vec<u8> = vec![
        0x89, 0x50, 0x4e, 0x47, 0x0d, 0x0a, 0x1a, 0x0a, 0, 0, 0, 13, 0x49, 0x48, 0x44, 0x52, 0, 0,
        0, 1, 0, 0, 0, 1, 8, 6, 0, 0, 0, 0x1f, 0x15, 0xc4, 0x89, 0, 0, 0, 13, 0x49, 0x44, 0x41,
        0x54, 0x78, 0x9c, 0x62, 0, 1, 0, 0, 5, 0, 1, 0x0d, 0x0a, 0x2d, 0xb4, 0, 0, 0, 0, 0x49,
        0x45, 0x4e, 0x44, 0xae, 0x42, 0x60, 0x82,
    ];
    let kept = ok(db.save_image_asset("t1", Some("tool"), "a.png", &png, "alt", 1, 2, NOW));
    assert_eq!(kept.mime, "image/png");
    assert_eq!((kept.width, kept.height), (1, 1));
    assert_eq!(kept.alt, "alt");
    assert_eq!(db.load_image_assets("s1").len(), 1);
    assert_eq!(db.load_image_asset(&kept.asset_id).unwrap().bytes, png);
    assert_eq!(db.load_image_assets("s2").len(), 0);
}

#[test]
fn assets_belong_to_the_session_of_their_turn() {
    let mut db = with_session("s1");
    db.turns.push(turn("t1", "s1", 1, "completed"));
    db.artifacts.push(ArtifactAssetData {
        asset: ArtifactAsset {
            asset_id: "a1".to_string(),
            turn_id: "t1".to_string(),
            tool_id: None,
            source_key: "/tmp/x".to_string(),
            file_name: "x".to_string(),
            mime: "text/plain".to_string(),
            kind: "text".to_string(),
            size_bytes: 1,
            created_at: NOW.to_string(),
            updated_at: NOW.to_string(),
        },
        bytes: vec![1],
    });
    db.images.push(ImageAssetData {
        asset: ImageAsset {
            asset_id: "i1".to_string(),
            turn_id: "gone".to_string(),
            tool_id: None,
            mime: "image/png".to_string(),
            width: 1,
            height: 1,
            alt: String::new(),
            created_at: NOW.to_string(),
        },
        bytes: vec![1],
    });
    assert_eq!(db.load_artifact_assets("s1").len(), 1);
    assert_eq!(db.load_artifact_assets("s2").len(), 0);
    assert_eq!(db.load_artifact_asset("a1").unwrap().bytes, vec![1]);
    assert_eq!(db.load_image_assets("s1").len(), 0);
    assert!(db.load_image_asset("i2").is_none());
}

#[test]
fn footprints_are_merged() {
    let mut all = ToolFootprint::new();
    assert!(all.is_empty());
    let mut one = ToolFootprint::new();
    one.read.push("b".to_string());
    all.merge(one);
    let mut two = ToolFootprint::new();
    two.read.push("a".to_string());
    two.modified.push("c".to_string());
    all.merge(two);
    assert_eq!(all.read, vec!["a".to_string(), "b".to_string()]);
    assert_eq!(all.modified, vec!["c".to_string()]);
    assert!(!all.is_empty());
}

#[test]
fn texts_are_cut_and_budgets_kept() {
    assert_eq!(truncate_chars_owned("界界界", 3), "界界界");
    assert!(truncate_chars_owned("界界界界", 3).starts_with("界界界"));
    assert_eq!(
        encode_replay(&vec![ReplayEntry::Text { text: "a\"b".to_string() }]),
        "[{\"kind\":\"text\",\"text\":\"a\\\"b\"}]"
    );
    let long = || ReplayEntry::Text { text: "x".repeat(2000) };
    let fitted = fit_budget(vec![long(), long(), long(), long(), long(), long()]);
    assert!(encode_replay(&fitted).len() <= 8192);
    assert!(fitted.len() < 6);
}

#[test]
fn an_interruption_is_told_apart() {
    assert_ne!(interrupted_text(), pending_placeholder());
    assert_eq!(strip_suffix("abc", "c"), Some("ab".to_string()));
    assert_eq!(strip_suffix("abc", "x"), None);
    assert!(same_but_case("Name", "nAME"));
    assert!(!same_but_case("Name", "Names"));
}

#[test]
fn a_turn_is_measured_in_characters() {
    let mut db = with_session("s1");
    db.turns.push(turn("t1", "s1", 1, "completed"));
    let turns = db.load_turns("s1");
    assert!(turn_chars(&turns[0]) >= "question 1answer 1".len());
    assert_eq!(db.total_chars("s1"), turn_chars(&turns[0]));
}

fn ids(db: &ConversationDb, session: &str) -> Vec<String> {
    db.load_turns(session).iter().map(|t| t.turn_id.clone()).collect()
}

#[test]
fn an_undone_summary_leaves_what_was_in_view_before_it() {
    let mut db = with_session("s1");
    for (seq, id) in [(1, "t1"), (2, "t2"), (3, "t3")] {
        let mut row = turn(id, "s1", seq, "completed");
        row.token_total = 10;
        db.turns.push(row);
    }
    let visible = ids(&db, "s1");
    let fold = visible[..2].to_vec();
    ok(db.replace_visible_with_summary(
        "s1", &fold, &visible, "in short", &tokens(9), false, None, "sum", NOW,
    ));
    assert_eq!(ok(db.session_token_total("s1")), 39);
    assert_eq!(db.load_visible_turns("s1").len(), 2);
    assert_eq!(db.undo_last_turn("s1"), (1, None));
    let shown = db.load_visible_turns("s1");
    assert_eq!(shown.iter().map(|t| t.turn_id.clone()).collect::<Vec<_>>(), visible);
    assert_eq!(ok(db.session_token_total("s1")), 30);
}

#[test]
fn a_prune_changes_as_many_turns_as_it_counts() {
    let mut db = with_session("s1");
    for (seq, id) in [(1, "t1"), (2, "t2"), (3, "t3"), (4, "t4")] {
        let mut row = turn(id, "s1", seq, "completed");
        row.tool_reports = format!("[\"{}\",\"b\"]", "x".repeat(5000));
        db.turns.push(row);
    }
    let before = db.dup();
    assert_eq!(db.prune_stale_tool_reports("s1", 2, 1_000_000).turns, 0);
    assert!(db.turns.iter().all(|t| t.tool_reports_archive.is_none()));
    let stats = db.prune_stale_tool_reports("s1", 2, 100);
    assert!(stats.saved_chars >= 100);
    let changed = (0..4)
        .filter(|&i| db.turns[i].tool_reports != before.turns[i].tool_reports)
        .collect::<Vec<_>>();
    assert_eq!(stats.turns, changed.len());
    assert_eq!(changed, vec![0, 1]);
    let left: Vec<String> = serde_json::from_str(&db.turns[0].tool_reports).unwrap();
    assert_eq!(left.len(), 1);
    assert_eq!(db.turns[0].tool_reports_archive, Some(before.turns[0].tool_reports.clone()));
}

#[test]
fn the_oldest_turns_can_go_and_the_others_stay_in_order() {
    let mut db = with_session("s1");
    for (seq, id, status) in
        [(3, "t3", "completed"), (1, "t1", "completed"), (4, "t4", "running"), (2, "t2", "failed")]
    {
        db.turns.push(turn(id, "s1", seq, status));
    }
    let offered = db.oldest_evictable_visible_turns("s1", 2);
    let gone = offered.iter().map(|t| t.turn_id.clone()).collect::<Vec<_>>();
    assert_eq!(gone, vec!["t1".to_string(), "t2".to_string()]);
    for unfit in [
        vec!["t1".to_string(), "t4".to_string()],
        vec!["t1".to_string(), "t1".to_string()],
        vec!["t3".to_string(), "t9".to_string()],
    ] {
        let refused = db.delete_visible_turns("s1", &unfit);
        assert_eq!(kind(refused), StateErrorKind::PoppedTurnsChanged);
        assert_eq!(db.turns.len(), 4);
    }
    assert_eq!(ok(db.delete_visible_turns("s1", &gone)), 2);
    assert_eq!(ids(&db, "s1"), vec!["t3".to_string(), "t4".to_string()]);
    assert_eq!(ok(db.delete_visible_turns("s1", &Vec::new())), 0);
}

#[test]
fn a_persona_gets_its_name_back() {
    let mut db = with_session("s1");
    ok(db.create_session("s2", "gqy", "second", "user", None, LATER));
    ok(db.bind_platform_session(&binding(None), "s2", NOW));
    db.set_persona_current_session("gqy", "s1");
    let listed = |db: &ConversationDb, persona: &str| {
        db.list_sessions(persona).iter().map(|o| o.record.session_id.clone()).collect::<Vec<_>>()
    };
    let before = listed(&db, "gqy");
    assert_eq!(before, vec!["s2".to_string(), "s1".to_string()]);
    ok(db.rename_persona_scope("gqy", "new"));
    assert!(listed(&db, "gqy").is_empty());
    assert_eq!(listed(&db, "new"), before);
    assert_eq!(db.persona_current_session("new"), Some("s1".to_string()));
    assert_eq!(db.platform_session_bindings("new", "qq").len(), 1);
    ok(db.rename_persona_scope("new", "gqy"));
    assert_eq!(listed(&db, "gqy"), before);
    assert_eq!(db.persona_current_session("gqy"), Some("s1".to_string()));
    assert_eq!(db.platform_session_bindings("gqy", "qq").len(), 1);
}

#[test]
fn a_pointer_leads_to_an_open_session_of_its_persona() {
    let mut db = with_session("s1");
    ok(db.create_session("a1", "gqy", "asked", "ask", None, NOW));
    for (id, leads) in [("s1", true), ("a1", false), ("s9", false)] {
        db.set_persona_current_session("gqy", id);
        let expected = if leads { Some(id.to_string()) } else { None };
        assert_eq!(db.persona_current_session("gqy"), expected);
    }
    db.set_persona_current_session("gqy", "s1");
    db.sessions[0].record.archived = true;
    assert_eq!(db.persona_current_session("gqy"), None);
}

#[test]
fn a_session_is_of_a_platform_while_it_is_bound() {
    let mut db = with_session("s1");
    assert!(!db.is_platform_session("s1"));
    ok(db.bind_platform_session(&binding(None), "s1", NOW));
    assert!(db.is_platform_session("s1"));
    assert!(db.unbind_platform_session(&binding(None)));
    assert!(!db.is_platform_session("s1"));
    assert!(!db.is_platform_session("s9"));
    assert_eq!(
        kind(db.bind_platform_session(&binding(None), "s9", NOW)),
        StateErrorKind::SessionNotFound
    );
    ok(db.bind_platform_session(&binding(None), "s1", NOW));
    ok(db.delete_session("s1"));
    assert!(!db.is_platform_session("s1"));
}

#[test]
fn errors_are_told_in_the_language_of_the_user() {
    let changed = StateError::plain(StateErrorKind::PoppedTurnsChanged);
    assert_eq!(
        changed.message(Language::English),
        "conversation changed before popped turns could be deleted"
    );
    assert_eq!(changed.message(Language::Chinese), "删除弹出轮次前会话已发生变化");
    let missing = StateError::about(StateErrorKind::SessionNotFound, "s1");
    assert_eq!(missing.message(Language::Chinese), "session not found: s1");
    let mut db = ConversationDb::new();
    assert_eq!(db.resolve_current_session(NOW, Language::Chinese), DEFAULT_SESSION_ID);
    assert_eq!(db.session_record(DEFAULT_SESSION_ID).unwrap().name, "终端集成会话");
}

#[test]
fn a_conversation_is_not_bound_twice_by_a_new_name() {
    let mut db = with_session("s1");
    ok(db.create_session("s2", "other", "second", "user", None, LATER));
    ok(db.bind_platform_session(&binding(None), "s1", NOW));
    let mut taken = binding(None);
    taken.persona = "new".to_string();
    ok(db.bind_platform_session(&taken, "s2", NOW));
    assert_eq!(kind(db.rename_persona_scope("gqy", "new")), StateErrorKind::UniqueViolation);
    assert_eq!(db.list_sessions("gqy").len(), 1);
    assert_eq!(db.platform_session_bindings("gqy", "qq").len(), 1);
    assert!(db.unbind_platform_session(&taken));
    taken.participant_id = Some("someone".to_string());
    ok(db.bind_platform_session(&taken, "s2", NOW));
    ok(db.rename_persona_scope("gqy", "new"));
    assert_eq!(db.platform_session_bindings("new", "qq").len(), 2);
}

#[test]
fn a_report_without_a_reply_says_so() {
    let mut db = with_session("s1");
    let replies = [("a", "failed"), ("  ", "failed"), (" \0x", "failed"), ("", "completed")];
    for (seq, (reply, status)) in replies.iter().enumerate() {
        let mut row = turn(&format!("t{seq}"), "s1", seq as i64 + 1, status);
        row.user_content = "<Background-Job-Report>done".to_string();
        row.assistant_content = reply.to_string();
        db.turns.push(row);
    }
    let list = db.background_report_replies_after("s1", 0);
    let shown = list.iter().map(|row| row.3.starts_with("（自动跟进未能完成")).collect::<Vec<_>>();
    assert_eq!(shown, vec![false, true, true, false]);
    assert_eq!(list[0].3, "a");
}

#[test]
fn a_backup_that_lists_an_item_twice_is_refused() {
    let mut db = with_session("s1");
    db.turns.push(turn("t1", "s1", 1, "completed"));
    db.add_session_loaded_items("s1", "tool", &vec!["a".to_string()], None, NOW);
    ok(db.begin_redo("s1", "t1", "t1", RedoInputKind::Initial, 0, "again", "again", 7, "q", NOW));
    let listed = db.backups[0].payload.loaded_items[0].clone();
    db.backups[0].payload.loaded_items.push(listed);
    assert_eq!(kind(db.restore_redo_backup("t1", 1)), StateErrorKind::UniqueViolation);
    assert_eq!(db.turns[0].status, "running");
    assert_eq!(db.backups.len(), 1);
    db.backups[0].payload.loaded_items.pop();
    assert!(ok(db.restore_redo_backup("t1", 1)));
    assert_eq!(db.load_session_loaded_items("s1", "tool"), vec!["a".to_string()]);
}
