use gqy::language::Language;
use gqy::state::db::ConversationDb;
use gqy::state::edits::AfterInterruption;
use gqy::state::error::StateErrorKind;
use gqy::state::rows::{QueuedPromptRow, TurnRow};
use gqy::state::store::{SharedState, StateStore};
use gqy::web::actor::AdminFailure;
use gqy::web::auth::{RequestHeaders, WebAuth};
use gqy::web::error::StatusCode;
use gqy::web::events::EventHub;
use gqy::web::handlers::QueuePlace;
use gqy::web::manager::{ContextSnapshot, ManagerState};
use gqy::web::media::persona_asset_name;
use gqy::web::requests::{
    address_fault, build_etag, check_turn, create_turn, embedded_asset, handle_ipc_turn,
    publish_answer, store_persona_asset, switch_session_via_actor, update_session,
    waiting_prompts, withdraw_prompt, Admission, AssetAction, AssetFound, SessionEdit,
    SwitchReply, TerminalRefusal,
};
use gqy::web::scopes::{
    fetches_persona_scope, prompt_file_action, removes_persona_scope, settles_persona_scope,
    stage_persona_scope, FileAction,
};
use gqy::web::sessions::SessionMode;
use gqy::web::types::AgentMode;
use std::collections::BTreeMap;

fn manager() -> ManagerState {
    ManagerState {
        active_run_id: None,
        admin_busy: false,
        context: ContextSnapshot { tokens: 0, window: None },
    }
}

fn headers(origin: Option<&str>) -> RequestHeaders {
    RequestHeaders {
        cookies: Vec::new(),
        origins: origin.map(|o| vec![Some(o.to_string())]).unwrap_or_default(),
        host: Some("127.0.0.1:4096".to_string()),
    }
}

fn turn(id: &str, session: &str, status: &str) -> TurnRow {
    TurnRow {
        turn_id: id.to_string(),
        session_id: session.to_string(),
        seq: 1,
        user_content: "hello".to_string(),
        display_content: "hello".to_string(),
        user_timestamp: "now".to_string(),
        assistant_content: String::new(),
        assistant_reasoning: None,
        assistant_provider_id: None,
        assistant_model: None,
        assistant_timestamp: None,
        status: status.to_string(),
        tool_reports: "[]".to_string(),
        tool_reports_archive: None,
        tool_flow: Vec::new(),
        hidden: false,
        is_summary: false,
        owner_pid: Some(7),
        queue_session_id: Some("other".to_string()),
        token_total: 0,
        token_prompt: 0,
        token_cache_read: 0,
        token_usage_estimated: false,
        revision: 1,
        context_messages: Vec::new(),
        replay_journal: None,
        compact_reversible: false,
        compact_parent_summary_seq: None,
        compact_hidden_json: None,
        tool_footprint: None,
    }
}

fn prompt(id: &str, session: &str, queue: &str) -> QueuedPromptRow {
    QueuedPromptRow {
        prompt_id: id.to_string(),
        seq: 1,
        session_id: session.to_string(),
        queue_session_id: Some(queue.to_string()),
        owner_pid: Some(7),
        status: "queued".to_string(),
        content: "more".to_string(),
        display_content: "shown".to_string(),
        context_content: None,
        attachments: Vec::new(),
        submitted_at: "then".to_string(),
        consumed_at: None,
        turn_id: None,
        preceding_assistant_content: None,
        preceding_assistant_reasoning: None,
        preceding_assistant_provider_id: None,
        preceding_assistant_model: None,
    }
}

fn shared() -> (SharedState, StateStore) {
    let mut db = ConversationDb::new();
    assert!(db.create_session("s1", "gqy", "one", "user", None, "now").is_ok());
    assert!(db.create_session("d1", "dev", "build", "user", None, "now").is_ok());
    let mut shared = SharedState::new(db);
    let store = StateStore::new(&mut shared, "/state", "/data", 7, &vec![7], Language::English);
    (shared, store)
}

#[test]
fn messages_are_looked_at_before_they_are_taken() {
    let auth = WebAuth::new(None);
    let taken = check_turn(&headers(None), &auth, " hello ", "plan").unwrap_or_else(|_| panic!());
    assert_eq!(taken.content, "hello");
    assert!(matches!(taken.mode, AgentMode::Plan));
    let refused = |origin, content: &str, mode: &str| {
        check_turn(&headers(origin), &WebAuth::new(None), content, mode).map(|_| ()).unwrap_err()
    };
    assert_eq!(refused(Some("http://evil.example"), "", "").status, StatusCode::Forbidden);
    assert_eq!(refused(None, "", "fast").message, "content cannot be empty");
    assert_eq!(refused(None, "x", "fast").message, "mode must be normal, plan, or chat");
}

#[test]
fn one_message_begins_a_run_and_the_next_waits() {
    let (mut shared, store) = shared();
    let mut manager = manager();
    assert!(matches!(create_turn(&store, &shared, &mut manager, "r1"), Ok(Admission::Run)));
    assert_eq!(manager.active_run_id, Some("r1".to_string()));
    let busy = create_turn(&store, &shared, &mut manager, "r2").map(|_| ()).unwrap_err();
    assert_eq!(busy.status, StatusCode::Conflict);
    let session = store.session_id(&shared);
    shared.conv_db.turns.push(turn("t1", &session, "running"));
    assert!(matches!(
        create_turn(&store, &shared, &mut manager, "r2"),
        Ok(Admission::Queue(QueuePlace::Run(run))) if run == "r1"
    ));
    manager.active_run_id = None;
    assert!(matches!(
        create_turn(&store, &shared, &mut manager, "r2"),
        Ok(Admission::Queue(QueuePlace::Turn(target))) if target.turn_id == "t1"
    ));
    assert_eq!(manager.active_run_id, None);
}

#[test]
fn waiting_messages_are_shown_and_withdrawn() {
    let (mut shared, store) = shared();
    let session = store.session_id(&shared);
    let mut events = EventHub::new();
    let mut manager = manager();
    shared.conv_db.turns.push(turn("t1", &session, "running"));
    shared.conv_db.queued_prompts.push(prompt("p1", &session, "other"));
    let shown = waiting_prompts(&store, &shared, &manager);
    assert_eq!(shown.iter().map(|p| p.content.as_str()).collect::<Vec<_>>(), vec!["shown"]);
    manager.active_run_id = Some("r1".to_string());
    assert_eq!(waiting_prompts(&store, &shared, &manager).len(), 0);
    let other = withdraw_prompt(&store, &mut shared, &manager, &mut events, "p1");
    assert_eq!(other.unwrap_err().status, StatusCode::NotFound);
    assert_eq!(events.latest_id(), 0);
    manager.active_run_id = None;
    assert!(withdraw_prompt(&store, &mut shared, &manager, &mut events, "p/1").is_err());
    assert!(withdraw_prompt(&store, &mut shared, &manager, &mut events, "p1").is_ok());
    assert_eq!(shared.conv_db.queued_prompts.len(), 0);
    assert_eq!(
        events.replay_after(0)[0].data,
        "{\"prompt_id\":\"p1\",\"run_id\":null,\"turn_id\":\"t1\"}"
    );
}

#[test]
fn terminals_name_the_session_of_a_message() {
    let (shared, store) = shared();
    let mut manager = manager();
    let dev = handle_ipc_turn(
        "x",
        "normal",
        &store,
        &shared,
        Some("d1".to_string()),
        "gqy",
        &manager,
        Language::English,
    );
    assert!(matches!(dev, Ok(turn) if turn.session_id == "d1" && turn.mode == SessionMode::Dev));
    let current = handle_ipc_turn("x", "chat", &store, &shared, None, "gqy", &manager, Language::English);
    assert!(matches!(current, Ok(turn) if turn.session_id == store.session_id(&shared)));
    let missing =
        handle_ipc_turn("x", "chat", &store, &shared, Some("s9".to_string()), "gqy", &manager, Language::English);
    assert!(matches!(missing, Err(TerminalRefusal::Message(m)) if m == "session not found"));
    let empty = handle_ipc_turn(" ", "chat", &store, &shared, None, "gqy", &manager, Language::English);
    assert!(matches!(empty, Err(TerminalRefusal::Message(_))));
    manager.admin_busy = true;
    let busy = handle_ipc_turn("x", "chat", &store, &shared, None, "gqy", &manager, Language::English);
    assert!(matches!(busy, Err(TerminalRefusal::Busy)));
}

#[test]
fn sessions_are_changed_as_a_page_asks() {
    let (shared, store) = shared();
    let auth = WebAuth::new(None);
    let change = |id: &str, name: Option<&str>, workspace: Option<&str>| {
        update_session(
            &headers(None),
            &auth,
            &store,
            &shared,
            id,
            "gqy",
            name.map(|n| n.to_string()),
            workspace.map(|w| w.to_string()),
        )
    };
    let edits = change("s1", Some("new"), Some("  ")).unwrap_or_else(|_| panic!());
    assert!(matches!(&edits[0], SessionEdit::Rename(name) if name == "new"));
    assert!(matches!(&edits[1], SessionEdit::Workspace(None)));
    let edits = change("d1", None, Some("/w")).unwrap_or_else(|_| panic!());
    assert!(matches!(&edits[0], SessionEdit::Workspace(Some(path)) if path == "/w"));
    assert_eq!(change("s1", None, None).unwrap_or_else(|_| panic!()).len(), 0);
    assert_eq!(change("s9", None, None).map(|_| ()).unwrap_err().status, StatusCode::NotFound);
}

#[test]
fn a_change_of_sessions_is_answered() {
    let mut manager = manager();
    manager.admin_busy = true;
    let gone = switch_session_via_actor(SwitchReply::Unavailable, true, &mut manager);
    assert_eq!(gone, Err("GQY core worker is unavailable".to_string()));
    assert!(manager.admin_busy);
    let refused = Err(AdminFailure::Invalid("no".to_string()));
    let refused = switch_session_via_actor(SwitchReply::Answered(refused), false, &mut manager);
    assert_eq!(refused, Err("no".to_string()));
    assert!(manager.admin_busy);
    let stopped = switch_session_via_actor(SwitchReply::Stopped, false, &mut manager);
    assert_eq!(stopped, Err("GQY core stopped while switching sessions".to_string()));
    assert!(!manager.admin_busy);
    assert!(switch_session_via_actor(SwitchReply::Answered(Ok(())), false, &mut manager).is_ok());
}

#[test]
fn answers_are_told() {
    let mut events = EventHub::new();
    let answers = vec![vec!["a".to_string(), "b\"".to_string()], Vec::new()];
    publish_answer(&mut events, "r1", "q1", &answers);
    assert_eq!(
        events.replay_after(0)[0].data,
        "{\"answers\":[[\"a\",\"b\\\"\"],[]],\"question_id\":\"q1\",\"run_id\":\"r1\"}"
    );
}

#[test]
fn others_need_a_password() {
    assert_eq!(address_fault("127.0.0.1", true, false), None);
    assert_eq!(address_fault("0.0.0.0", false, true), None);
    assert_eq!(
        address_fault("0.0.0.0", false, false),
        Some("绑定非回环地址（0.0.0.0）必须设置访问密码：gqy web --host 0.0.0.0 -p <password>".to_string())
    );
}

#[test]
fn pictures_are_kept_once() {
    let png = vec![0x89u8, 0x50, 0x4e, 0x47, 0x0d, 0x0a, 0x1a, 0x0a];
    let name = persona_asset_name(&png, 100).unwrap();
    let keep = |found: AssetFound| store_persona_asset(&found, &name[..64], 100);
    assert_eq!(keep(AssetFound::Nothing).unwrap(), AssetAction::Link);
    assert_eq!(keep(AssetFound::File(png.clone())).unwrap(), AssetAction::Keep);
    assert_eq!(keep(AssetFound::File(vec![1])).unwrap(), AssetAction::Replace);
    assert_eq!(keep(AssetFound::Other).unwrap_err().status, StatusCode::Conflict);
}

#[test]
fn files_of_a_build_are_sent_once() {
    assert_eq!(build_etag("b1"), "\"b1\"");
    assert_eq!(embedded_asset(&Some("\"b1\"".to_string()), "b1"), StatusCode::NotModified);
    assert_eq!(embedded_asset(&Some("\"b2\"".to_string()), "b1"), StatusCode::Okay);
    assert_eq!(embedded_asset(&None, "b1"), StatusCode::Okay);
}

#[test]
fn directories_of_a_persona_are_set_aside() {
    let backup = stage_persona_scope("/d/a", Some("/d"), Some("/d/b"), "tok", 1, 2).unwrap_or_else(|_| panic!());
    assert_eq!(backup.staged, "/d/.gqy-web-scope-tok-1-2");
    assert_eq!(
        stage_persona_scope("/", None, None, "tok", 0, 0).map(|_| ()),
        Err("persona scope path has no parent".to_string())
    );
    assert_eq!(settles_persona_scope(&backup, false), Ok(true));
    assert_eq!(
        settles_persona_scope(&backup, true),
        Err("persona scope destination already exists: /d/b".to_string())
    );
    assert!(fetches_persona_scope(&backup, true, false));
    assert!(!fetches_persona_scope(&backup, true, true));
    assert!(!removes_persona_scope(&backup, true));
    let gone = stage_persona_scope("/d/a", Some("/d"), None, "tok", 0, 0).unwrap_or_else(|_| panic!());
    assert_eq!(settles_persona_scope(&gone, true), Ok(false));
    assert!(removes_persona_scope(&gone, true));
    assert!(!fetches_persona_scope(&gone, true, false));
}

#[test]
fn files_are_written_or_removed() {
    assert_eq!(prompt_file_action(true, false), FileAction::Write);
    assert_eq!(prompt_file_action(false, true), FileAction::Remove);
    assert_eq!(prompt_file_action(false, false), FileAction::Leave);
}

#[test]
fn files_follow_an_interruption() {
    let (mut shared, store) = shared();
    shared.conv_db.turns.push(turn("t1", "s1", "interrupted"));
    assert!(matches!(
        store.interrupt_turn_revision(&shared, "t1", true),
        Ok(AfterInterruption::Reconcile(session)) if session == "s1"
    ));
    assert!(matches!(
        store.interrupt_turn_revision(&shared, "t1", false),
        Ok(AfterInterruption::Recover(session)) if session == "s1"
    ));
    let kind = |restored| match store.interrupt_turn_revision(&shared, "t9", restored) {
        Err(error) => error.kind,
        Ok(_) => panic!("there is no such turn"),
    };
    assert_eq!(kind(true), StateErrorKind::RestoredTurnGone);
    assert_eq!(kind(false), StateErrorKind::InterruptedTurnGone);
}

#[test]
fn a_change_of_personas_that_fails_is_taken_back() {
    let before: BTreeMap<String, u8> =
        [("/d/a", 1u8), ("/d/b", 2), ("/d/c", 3)].map(|(path, n)| (path.to_string(), n)).into();
    let backups = [
        stage_persona_scope("/d/a", Some("/d"), Some("/d/x"), "t", 0, 0),
        stage_persona_scope("/d/b", Some("/d"), None, "t", 1, 0),
        stage_persona_scope("/d/c", Some("/d"), Some("/d/a"), "t", 2, 0),
    ]
    .map(|backup| backup.unwrap_or_else(|_| panic!()));
    let shift = |tree: &mut BTreeMap<String, u8>, from: &str, to: &str| {
        let n = tree.remove(from).unwrap();
        assert!(tree.insert(to.to_string(), n).is_none());
    };
    for moved in 0..=backups.len() {
        let mut tree = before.clone();
        for backup in &backups {
            shift(&mut tree, &backup.original, &backup.staged);
        }
        for backup in &backups[..moved] {
            let destination = backup.destination.clone().unwrap_or_default();
            if settles_persona_scope(backup, tree.contains_key(&destination)).unwrap() {
                shift(&mut tree, &backup.staged, &destination);
            }
        }
        for backup in backups.iter().rev() {
            let destination = backup.destination.clone().unwrap_or_default();
            let lies = tree.contains_key(&destination);
            if fetches_persona_scope(backup, lies, tree.contains_key(&backup.staged)) {
                shift(&mut tree, &destination, &backup.staged);
            }
            shift(&mut tree, &backup.staged, &backup.original);
        }
        assert_eq!(tree, before);
    }
}
