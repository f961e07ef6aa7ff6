use gqy::language::Language;
use gqy::state::db::ConversationDb;
use gqy::state::edits::{EMPTY_PROFILE, EMPTY_USAGE};
use gqy::state::error::StateErrorKind;
use gqy::state::rows::{
    JournalEventRow, JournalSegmentRow, LoadedItemRow, QueuedPromptRow, TurnRow,
};
use gqy::state::salvage::{ArtifactPlace, FoundFile};
use gqy::state::store::{
    PlatformAccessAuthorization, PlatformAccessMutation, PlatformAccessMutationResult,
    PromptChange, SharedState, StateStore,
};
use gqy::state::types::{
    ArtifactAsset, ArtifactAssetData, PlatformAccessActor, PlatformAccessGrantKey,
    RunningTurnQueueTarget, TurnJournalEvent,
};
use gqy::web::models::{ChannelRecent, ChannelSummary, DisplayConfig};
use gqy::web::sessions::{session_record_json, session_turns};
use gqy::web::types::{parse_pi_command, safe_channel_summary, web_display_config, PiCommandKind};

fn turn(id: &str, session: &str, seq: i64, status: &str) -> TurnRow {
    TurnRow {
        turn_id: id.to_string(),
        session_id: session.to_string(),
        seq,
        user_content: "hello".to_string(),
        display_content: "hello".to_string(),
        user_timestamp: "now".to_string(),
        assistant_content: String::new(),
        assistant_reasoning: None,
        assistant_provider_id: None,
        assistant_model: None,
        assistant_timestamp: None,
        status: status.to_string(),
        tool_reports: "[]".to_string(),
        tool_reports_archive: None,
        tool_flow: Vec::new(),
        hidden: false,
        is_summary: false,
        owner_pid: Some(9),
        queue_session_id: None,
        token_total: 10,
        token_prompt: 4,
        token_cache_read: 1,
        token_usage_estimated: false,
        revision: 1,
        context_messages: Vec::new(),
        replay_journal: None,
        compact_reversible: false,
        compact_parent_summary_seq: None,
        compact_hidden_json: None,
        tool_footprint: None,
    }
}

fn prompt(id: &str, session: &str, queue: &str) -> QueuedPromptRow {
    QueuedPromptRow {
        prompt_id: id.to_string(),
        seq: 1,
        session_id: session.to_string(),
        queue_session_id: Some(queue.to_string()),
        owner_pid: Some(7),
        status: "queued".to_string(),
        content: "more".to_string(),
        display_content: "shown".to_string(),
        context_content: None,
        attachments: Vec::new(),
        submitted_at: "then".to_string(),
        consumed_at: None,
        turn_id: None,
        preceding_assistant_content: None,
        preceding_assistant_reasoning: None,
        preceding_assistant_provider_id: None,
        preceding_assistant_model: None,
    }
}

fn shared() -> (SharedState, StateStore) {
    let mut db = ConversationDb::new();
    assert!(db.create_session("s1", "gqy", "one", "user", None, "now").is_ok());
    assert!(db.create_session("s2", "gqy", "two", "user", None, "now").is_ok());
    let mut shared = SharedState::new(db);
    let store = StateStore::new(&mut shared, "/state", "/data", 7, &vec![7], Language::English);
    (shared, store)
}

#[test]
fn a_process_changes_to_another_session() {
    let (mut shared, store) = shared();
    assert!(store.switch_session(&mut shared, "s2").is_ok());
    assert_eq!(store.session_id(&shared), "s2");
    let missing = store.switch_session(&mut shared, "s9");
    assert_eq!(missing.map_err(|e| e.kind), Err(StateErrorKind::SessionNotFound));
    assert_eq!(store.session_id(&shared), "s2");
    let pinned = store.pinned_for_turn(&mut shared, "s1");
    assert_eq!(pinned.session_id(&shared), "s1");
    let target = pinned.queue_target("t1");
    assert_eq!(target.owner_pid, Some(7));
    assert!(target.queue_session_id.unwrap().starts_with("queue_7_"));
    assert_ne!(
        store.queue_target("t1").queue_session_id,
        pinned.queue_target("t1").queue_session_id
    );
}

#[test]
fn clones_go_together_and_pinned_handles_stay() {
    let (mut shared, store) = shared();
    let first = store.session_id(&shared);
    let clone = store.clone();
    assert_eq!(clone.session(&shared), first);
    let pinned = store.pinned(&mut shared, "s1");
    store.adopt_session(&mut shared, "s2");
    assert_eq!(store.session(&shared), "s2");
    assert_eq!(clone.session_id(&shared), "s2");
    assert_eq!(pinned.session(&shared), "s1");
    assert_eq!(shared.conv_db.app_state[0].value, first);
    clone.adopt_session(&mut shared, "s1");
    pinned.adopt_session(&mut shared, "s2");
    assert_eq!(store.session(&shared), "s1");
    assert_eq!(pinned.session(&shared), "s2");
    assert_eq!(SharedState::new(ConversationDb::new()).entered.len(), 0);
    assert_eq!(store.session(&SharedState::new(ConversationDb::new())), "");
}

#[test]
fn files_lie_below_the_state_directory() {
    let (mut shared, store) = shared();
    let store = store.pinned(&mut shared, "s1");
    assert_eq!(store.conversation_file(), "/state/conversation.jsonl");
    assert_eq!(store.usage_history_file(), "/state/usage-history.jsonl");
    let print = store.prompt_fingerprint_file(&shared);
    assert!(print.starts_with("/state/prompt-fingerprints/"));
    assert!(print.ends_with(".sha256"));
    assert_eq!(print.len(), "/state/prompt-fingerprints/".len() + 64 + ".sha256".len());
    let other = store.pinned(&mut shared, "s2");
    assert_ne!(print, other.prompt_fingerprint_file(&shared));
    let files = store.init_files(false, false);
    assert_eq!(files[0], ("/state/usage.json".to_string(), EMPTY_USAGE.to_string()));
    assert_eq!(files[1], ("/state/profile.md".to_string(), EMPTY_PROFILE.to_string()));
    assert!(serde_json::from_str::<serde_json::Value>(EMPTY_USAGE).is_ok());
    assert_eq!(store.init_files(true, true).len(), 0);
}

#[test]
fn a_new_prompt_keeps_the_history() {
    let (_, store) = shared();
    assert_eq!(store.reset_if_prompt_changed("f", Some("f\n"), false), PromptChange::Unchanged);
    assert_eq!(store.reset_if_prompt_changed("f", Some("g\n"), true), PromptChange::ColdStart);
    assert_eq!(store.reset_if_prompt_changed("f", None, true), PromptChange::Recorded);
    assert_eq!(store.reset_if_prompt_changed("f", None, false), PromptChange::ColdStart);
}

#[test]
fn queues_of_other_processes_are_addressed() {
    let (_, store) = shared();
    let target = |queue: Option<&str>, pid: Option<u32>| RunningTurnQueueTarget {
        turn_id: "t1".to_string(),
        queue_session_id: queue.map(|q| q.to_string()),
        owner_pid: pid,
    };
    let kind = |t: RunningTurnQueueTarget| store.queue_address(&t).map(|_| ()).map_err(|e| e.kind);
    assert_eq!(kind(target(None, Some(1))), Err(StateErrorKind::NoQueueSession));
    assert_eq!(kind(target(Some("q"), None)), Err(StateErrorKind::NoOwnerProcess));
    let address = store.queue_address(&target(Some("q"), Some(3)));
    assert!(matches!(address, Ok((queue, 3)) if queue == "q"));
}

fn grant_key(subject: &str) -> PlatformAccessGrantKey {
    PlatformAccessGrantKey {
        platform: "qq".to_string(),
        account_scope: "a".to_string(),
        permission: "admin".to_string(),
        subject_kind: "user".to_string(),
        subject_id: subject.to_string(),
    }
}

fn actor() -> PlatformAccessActor {
    PlatformAccessActor {
        platform: "qq".to_string(),
        account_id: "a".to_string(),
        user_id: "u".to_string(),
        conversation_kind: "group".to_string(),
        conversation_id: "g".to_string(),
        message_id: "m".to_string(),
    }
}

#[test]
fn only_who_may_grants_access() {
    let (mut shared, store) = shared();
    let by = |subject: &str| PlatformAccessAuthorization {
        statically_authorized: false,
        dynamic_key: grant_key(subject),
    };
    let owner = PlatformAccessAuthorization {
        statically_authorized: true,
        dynamic_key: grant_key("nobody"),
    };
    let grant = |shared: &mut SharedState, subject: &str, by: &PlatformAccessAuthorization| {
        store.mutate_platform_access_grant_if_authorized(
            shared,
            &grant_key(subject),
            &actor(),
            PlatformAccessMutation::Grant,
            by,
        )
    };
    assert_eq!(
        grant(&mut shared, "x", &by("x")),
        PlatformAccessMutationResult::Unauthorized
    );
    assert!(!store.has_platform_access_grant(&shared, "qq", "a", "admin", "user", "x"));
    assert_eq!(grant(&mut shared, "x", &owner), PlatformAccessMutationResult::Changed);
    assert_eq!(grant(&mut shared, "x", &owner), PlatformAccessMutationResult::Unchanged);
    assert!(store.has_platform_access_grant(&shared, "qq", "a", "admin", "user", "x"));
    assert!(!store.has_platform_access_grant(&shared, "qq", "b", "admin", "user", "x"));
    assert_eq!(grant(&mut shared, "y", &by("x")), PlatformAccessMutationResult::Changed);
    let listed = store.platform_access_grants_if_authorized(&shared, "qq", &by("y"));
    assert_eq!(listed.map(|grants| grants.len()), Some(2));
    assert!(store.platform_access_grants_if_authorized(&shared, "qq", &by("z")).is_none());
    assert_eq!(
        store.mutate_platform_access_grant_if_authorized(
            &mut shared,
            &grant_key("x"),
            &actor(),
            PlatformAccessMutation::Revoke,
            &by("y"),
        ),
        PlatformAccessMutationResult::Changed
    );
    assert!(!store.has_platform_access_grant(&shared, "qq", "a", "admin", "user", "x"));
    assert_eq!(shared.conv_db.audit.len(), 3);
}

#[test]
fn files_that_were_produced_are_described() {
    let (shared, store) = shared();
    let managed = format!("/data/./artifacts//{}/out.txt", store.session_id(&shared));
    let describe = |own: bool, size, title: &str| {
        store.save_artifact_asset(
            &shared,
            "t1",
            Some("tool"),
            if own { managed.as_str() } else { "/elsewhere/out.txt" },
            "out.txt",
            "text/plain",
            "text",
            size,
            title,
        )
    };
    let asset = describe(false, 3, " a/b\\c ").unwrap_or_else(|_| panic!());
    assert_eq!(asset.file_name, "abc");
    assert_eq!(asset.size_bytes, 3);
    assert!(asset.asset_id.starts_with("art_"));
    assert_eq!(asset.asset_id.len(), 4 + 32);
    assert_eq!(describe(false, 3, "").unwrap_or_else(|_| panic!()).file_name, "out.txt");
    assert_eq!(describe(false, 3, "//").unwrap_or_else(|_| panic!()).file_name, "artifact");
    assert_ne!(describe(true, 3, "").unwrap_or_else(|_| panic!()).asset_id, asset.asset_id);
    assert_eq!(describe(false, 0, "").map(|_| ()).map_err(|e| e.kind), Err(StateErrorKind::ArtifactSize));
    let large = 20 * 1024 * 1024 + 1;
    assert_eq!(describe(false, large, "").map(|_| ()).map_err(|e| e.kind), Err(StateErrorKind::ArtifactSize));
}

#[test]
fn a_directory_holds_what_the_turns_produced() {
    let (mut shared, store) = shared();
    shared.conv_db.turns.push(turn("t1", "s1", 1, "completed"));
    shared.conv_db.artifacts.push(ArtifactAssetData {
        asset: ArtifactAsset {
            asset_id: "art_1".to_string(),
            turn_id: "t1".to_string(),
            tool_id: None,
            source_key: "/data/s1/a.txt".to_string(),
            file_name: "a.txt".to_string(),
            mime: "text/plain".to_string(),
            kind: "text".to_string(),
            size_bytes: 1,
            created_at: "now".to_string(),
            updated_at: "now".to_string(),
        },
        bytes: vec![65],
    });
    let places = vec![ArtifactPlace {
        source_key: "/data/s1/a.txt".to_string(),
        target: "/data/s1/a.txt".to_string(),
    }];
    let entries = vec!["/data/s1/a.txt".to_string(), "/data/s1/b.txt".to_string()];
    let plan =
        store.reconcile_managed_artifacts_for_turn(&shared, "s1", "t1", &places, &entries);
    let (writes, removed) = plan.unwrap_or_else(|_| panic!());
    assert_eq!(writes, vec![("/data/s1/a.txt".to_string(), vec![65u8])]);
    assert_eq!(removed, vec!["/data/s1/b.txt".to_string()]);
    let outside =
        store.reconcile_managed_artifacts_for_turn(&shared, "../x", "t1", &places, &entries);
    assert_eq!(outside.map(|_| ()).map_err(|e| e.kind), Err(StateErrorKind::InvalidRecoveryDir));
}

#[test]
fn queued_prompts_are_taken_up_with_the_model_before_them() {
    let (mut shared, store) = shared();
    let store = store.pinned(&mut shared, "s1");
    let queue = store.queue_target("t1").queue_session_id.unwrap();
    shared.conv_db.turns.push(turn("t1", "s1", 1, "running"));
    shared.conv_db.queued_prompts.push(prompt("p1", "s1", &queue));
    let prompts = vec![("p1".to_string(), "in context".to_string())];
    let done = store.consume_queued_prompts_with_model(
        &mut shared,
        "t1",
        &prompts,
        Some("said"),
        None,
        Some("provider"),
        Some("model"),
    );
    assert!(done.is_ok());
    let row = &shared.conv_db.queued_prompts[0];
    assert_eq!(row.status, "consumed");
    assert_eq!(row.turn_id, Some("t1".to_string()));
    assert_eq!(row.context_content, Some("in context".to_string()));
    assert_eq!(row.preceding_assistant_model, Some("model".to_string()));
    let again = store.consume_queued_prompts_with_model(
        &mut shared,
        "t1",
        &prompts,
        None,
        None,
        None,
        None,
    );
    assert_eq!(again.map_err(|e| e.kind), Err(StateErrorKind::PromptChanged));
}

#[test]
fn loaded_tools_belong_to_a_session() {
    let (mut shared, store) = shared();
    let store = store.pinned(&mut shared, "s1");
    store.add_session_loaded_tools(&mut shared, &vec!["b".to_string(), "a".to_string()], Some("t1"));
    store.add_session_loaded_targets(&mut shared, &vec!["c".to_string()], None);
    assert_eq!(store.load_session_loaded_tools(&shared), vec!["a".to_string(), "b".to_string()]);
    assert_eq!(
        store.load_session_loaded_tools_with_sources(&shared)[0],
        ("a".to_string(), Some("t1".to_string()))
    );
    let other = store.pinned(&mut shared, "s2");
    assert_eq!(other.load_session_loaded_tools(&shared).len(), 0);
    let kinds = |row: &LoadedItemRow| row.kind.clone();
    assert_eq!(
        shared.conv_db.loaded_items.iter().map(kinds).collect::<Vec<_>>(),
        vec!["tool", "tool", "target"]
    );
}

#[test]
fn turns_of_processes_that_are_gone_are_put_in_order() {
    let (mut shared, store) = shared();
    shared.conv_db.turns.push(turn("t1", "s1", 1, "running"));
    let none = store.recover_stale_turns(&mut shared, &vec![9]);
    assert_eq!(none.unwrap_or_else(|_| panic!()).len(), 0);
    let recovered = store.recover_stale_turns(&mut shared, &vec![1]);
    assert_eq!(recovered.unwrap_or_else(|_| panic!()).len(), 1);
    assert_eq!(shared.conv_db.turns[0].status, "interrupted");
}

#[test]
fn what_a_session_used_is_added_up() {
    let (mut shared, store) = shared();
    let store = store.pinned(&mut shared, "s1");
    shared.conv_db.turns.push(turn("t1", "s1", 1, "completed"));
    shared.conv_db.turns.push(turn("t2", "s1", 2, "completed"));
    assert!(matches!(store.session_cumulative_tokens(&shared), Ok(20)));
    let totals = store.session_cumulative_token_totals(&shared).unwrap_or_else(|_| panic!());
    assert_eq!(totals.total, 20);
    assert_eq!(store.session_last_request_at(&shared), None);
    shared.conv_db.touch_session_last_request("t1", 5);
    shared.conv_db.touch_session_last_request("t2", 3);
    assert_eq!(store.session_last_request_at(&shared), Some(5));
    assert_eq!(shared.conv_db.load_turns_for_context("s1").len(), 2);
    let shown = session_turns(&shared.conv_db.load_turns("s1"), &Vec::new());
    assert_eq!(shown.iter().map(|t| t.id.as_str()).collect::<Vec<_>>(), vec!["t1", "t2"]);
}

#[test]
fn the_history_is_what_was_said_last() {
    let (mut shared, store) = shared();
    let store = store.pinned(&mut shared, "s1");
    let mut summary = turn("t1", "s1", 1, "completed");
    summary.is_summary = true;
    shared.conv_db.turns.push(summary);
    shared.conv_db.turns.push(turn("t3", "s1", 3, "completed"));
    shared.conv_db.turns.push(turn("t2", "s1", 2, "completed"));
    let turns = store.load_conversation(&shared);
    let entries = turns.iter().map(|t| t.turn_id.clone()).collect::<Vec<_>>();
    assert_eq!(entries, vec!["t2".to_string(), "t3".to_string()]);
    assert_eq!(store.history(entries.clone(), 1), vec!["t3".to_string()]);
    assert_eq!(store.history(entries.clone(), 9), entries);
    assert!(store.history(entries, 0).is_empty());
}

#[test]
fn records_are_shown() {
    let (shared, store) = shared();
    let record = store.session_record(&shared, "s1").unwrap();
    assert_eq!(
        session_record_json(&record),
        "{\"created_at\":\"now\",\"kind\":\"user\",\"mode\":\"normal\",\"name\":\"one\",\"session_id\":\"s1\",\"updated_at\":\"now\",\"workspace\":null}"
    );
    assert!(matches!(parse_pi_command("thinking"), Some(PiCommandKind::SetThinking)));
    assert!(parse_pi_command("other").is_none());
    let display = DisplayConfig {
        reasoning: "summary".to_string(),
        tool_calls: "full".to_string(),
        readable_tool_names: true,
        command_output_lines: 4,
        mixed_model_endpoint_display: "always".to_string(),
    };
    assert_eq!(web_display_config(&display, 2).command_output_lines, 4);
    let summary = ChannelSummary {
        channel: "qq".to_string(),
        turn_count: 3,
        last_seq: 9,
        recent: Some(ChannelRecent {
            user_content: "u".to_string(),
            assistant_content: "a".to_string(),
            user_timestamp: "then".to_string(),
            assistant_timestamp: None,
            status: "running".to_string(),
        }),
    };
    let shown = safe_channel_summary(&summary);
    assert_eq!((shown.id.as_str(), shown.turn_count, shown.last_seq), ("qq", 3, 9));
    assert!(shown.running);
}

#[test]
fn recovered_files_are_known_by_the_session_of_the_handle() {
    let (mut shared, store) = shared();
    let mut run = turn("t1", "s1", 1, "interrupted");
    run.revision = 1;
    shared.conv_db.turns.push(run);
    shared.conv_db.segments.push(JournalSegmentRow {
        turn_id: "t1".to_string(),
        revision: 1,
        segment_index: 0,
        status: "running".to_string(),
        started_at: "now".to_string(),
        finished_at: None,
    });
    shared.conv_db.events.push(JournalEventRow {
        turn_id: "t1".to_string(),
        event: TurnJournalEvent {
            event_id: 1,
            revision: 1,
            segment_index: 0,
            kind: "artifact".to_string(),
            call_id: None,
            name: None,
            text_payload: Some("{\"path\":\"out.txt\",\"title\":\"\"}".to_string()),
            blob_payload: None,
            ok: None,
        },
        created_at: "now".to_string(),
    });
    let mut ids = Vec::new();
    for (session, dir) in [("s1", "s1"), ("s2", "s1"), ("s2", "s2")] {
        let handle = store.pinned(&mut shared, session);
        let files = vec![FoundFile {
            path: "out.txt".to_string(),
            source_key: Some(format!("/data/artifacts/{dir}/out.txt")),
            file_name: "out.txt".to_string(),
            mime: "text/plain".to_string(),
            kind: "text".to_string(),
            bytes: vec![1, 2, 3],
        }];
        let made = handle.recover_journal_assets(&mut shared, "s1", "t1", &files);
        assert_eq!(made.len(), 1);
        let by_turn = |turn: &str| {
            let key = files[0].source_key.clone().unwrap();
            let asset = handle
                .save_artifact_asset(&shared, turn, None, &key, "out.txt", "text/plain", "text", 3, "")
                .unwrap_or_else(|_| panic!());
            asset.asset_id
        };
        assert_eq!(made[0].asset.asset_id, by_turn("t1"));
        assert_eq!(by_turn("t1") == by_turn("t2"), session == dir);
        ids.push(made[0].asset.asset_id.clone());
    }
    assert_ne!(ids[0], ids[1]);
}
