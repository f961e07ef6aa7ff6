use gqy::language::Language;
use gqy::state::db::ConversationDb;
use gqy::state::store::{SharedState, StateStore};
use gqy::state::types::{ImageAsset, RunningTurnQueueTarget};
use gqy::text::long_decimal_text;
use gqy::web::actor::{
    active_directive, next_action, provider_will_change, ActiveDirective, ActorCommand,
    AdminFailure, IdleAction,
};
use gqy::web::admin::{
    admin_answer, bridge_image, confirm_prompt_change, publish_bridge_image,
    publish_bridge_progress, rebuild_for_models, reload_due, reset_actor_conversation, AdminChange, ConfigStage,
    ConfigStep, ModelsAttempt,
};
use gqy::web::answers::{normalize_answers, trim_answers};
use gqy::web::auth::{require_auth, require_mutation, RequestHeaders, WebAuth};
use gqy::web::config::{
    parse_secret_list, restore_config_secrets, validate_config_candidate, ProviderSecret,
    SecretConfig, SecretMutation,
};
use gqy::web::error::StatusCode;
use gqy::web::events::{AnswerFailure, EventHub, EventStream, QuestionBroker};
use gqy::web::handlers::{
    address_text, answer_login, answer_refused, auth_login, balance_is_fresh, cancel_run,
    engine_name, enqueue_running_prompt, events_after, export_conversation,
    external_queue_available, follow_frame, is_fit_id, password_in_file, pi_value,
    publish_queued_prompt, remove_queue_prompt, resolve_web_password, search_limit, session_state,
    speech_address, tool_timeout, user_image_file, user_image_tool, FrameAction, LoginReply, QueuePlace,
};
use gqy::web::manager::{
    claim_run, finish_run, release_admin, require_no_running_turn, reserve_admin, ContextSnapshot,
    ManagerState,
};
use gqy::web::mapper::{AgentEvent, RunEventMapper};
use gqy::web::media::{
    avatar_mime, media_mime, media_span, parse_byte_range, parse_number, persona_asset_name,
    verify_persona_asset_hash, versioned_index,
};
use gqy::web::models::{
    ActiveProviderModelConfig, PromptDocument, PromptDocuments, QuestionPrompt, QuestionRequest,
    SafeQueuedPrompt, WebImageInput,
};
use gqy::web::prompts::{
    collect_prompt_file_mutations, persona_scope_changes, prompt_documents_changed,
    read_prompt_document_dir, validate_prompt_document_name, validate_prompt_documents,
};
use gqy::web::run::{
    ChatOutcome, ChatResult, OverflowOutcome, RunEvent, Stage, TurnRun,
};
use gqy::web::sessions::{
    fallback_session_id, require_local_web_session, resolve_local_session_ref,
    resolve_turn_session, session_overview_json, sessions_with_dev, turn_mode_for_session,
    SessionMode, SessionRef,
};
use gqy::web::types::{
    parse_mode, pasted_images_from_input, queued_attachments_from_input, validate_content,
    validate_short_field, AgentMode, PiCommandKind,
};
use gqy::web::util::{random_id, safe_error_message, web_access_urls};

fn manager() -> ManagerState {
    ManagerState {
        active_run_id: None,
        admin_busy: false,
        context: ContextSnapshot { tokens: 0, window: None },
    }
}

fn model(provider: &str, name: &str) -> ActiveProviderModelConfig {
    ActiveProviderModelConfig { provider_id: provider.to_string(), model: name.to_string() }
}

fn document(name: &str, content: &str, original: Option<&str>) -> PromptDocument {
    PromptDocument {
        name: name.to_string(),
        content: content.to_string(),
        original_name: original.map(|name| name.to_string()),
    }
}

fn secrets(ids: &[(&str, Option<&str>)]) -> SecretConfig {
    SecretConfig {
        providers: ids
            .iter()
            .map(|(id, key)| ProviderSecret {
                id: id.to_string(),
                api_key: key.map(|key| key.to_string()),
            })
            .collect(),
        tavily_api_keys: vec!["t".to_string()],
        firecrawl_api_keys: Vec::new(),
        anysearch_api_keys: Vec::new(),
        image_generation_api_keys: Vec::new(),
        exchange_rate_api_key: "e".to_string(),
    }
}

fn shared_with(sessions: &[(&str, &str, &str, &str)]) -> SharedState {
    let mut db = ConversationDb::new();
    for (id, persona, name, kind) in sessions {
        assert!(db.create_session(id, persona, name, kind, None, "2026-01-01T00:00:00Z").is_ok());
    }
    SharedState::new(db)
}

fn headers(cookie: Option<&str>, origin: Option<&str>) -> RequestHeaders {
    RequestHeaders {
        cookies: cookie.map(|c| vec![Some(c.to_string())]).unwrap_or_default(),
        origins: origin.map(|o| vec![Some(o.to_string())]).unwrap_or_default(),
        host: Some("127.0.0.1:4096".to_string()),
    }
}

#[test]
fn a_login_gives_a_cookie_that_opens() {
    let mut auth = WebAuth::new(Some("pw"));
    let reply = auth_login(&headers(None, None), &mut auth, "peer", "pw", 5);
    let cookie = match reply {
        LoginReply::Cookie(cookie) => cookie,
        _ => panic!("no cookie"),
    };
    assert!(cookie.starts_with("gqy_session="));
    assert!(cookie.ends_with("; HttpOnly; SameSite=Strict; Path=/; Max-Age=86400"));
    let pair = cookie.split(';').next().unwrap().to_string();
    assert!(require_auth(&headers(Some(&pair), None), &auth).is_ok());
    let same = headers(Some(&pair), Some("http://127.0.0.1:4096"));
    assert!(require_mutation(&same, &auth).is_ok());
    let other = headers(Some(&pair), Some("http://evil.example"));
    assert_eq!(require_mutation(&other, &auth).unwrap_err().status, StatusCode::Forbidden);
    assert_eq!(
        require_auth(&headers(None, None), &auth).unwrap_err().status,
        StatusCode::Unauthorized
    );
}

#[test]
fn logins_are_refused_for_a_reason() {
    let mut auth = WebAuth::new(Some("pw"));
    let evil = headers(None, Some("http://evil.example"));
    assert!(matches!(auth_login(&evil, &mut auth, "p", "pw", 0), LoginReply::Refused(e) if e.status == StatusCode::Forbidden));
    let long = "x".repeat(1025);
    assert!(matches!(auth_login(&headers(None, None), &mut auth, "p", &long, 0), LoginReply::Refused(e) if e.status == StatusCode::BadRequest));
    for _ in 0..5 {
        assert!(matches!(auth_login(&headers(None, None), &mut auth, "p", "no", 0), LoginReply::Refused(e) if e.status == StatusCode::Unauthorized));
    }
    assert!(matches!(auth_login(&headers(None, None), &mut auth, "p", "pw", 1), LoginReply::Later(e, 60) if e.status == StatusCode::TooManyRequests));
    assert!(matches!(auth_login(&headers(None, None), &mut auth, "q", "pw", 1), LoginReply::Cookie(_)));
    assert!(matches!(auth_login(&headers(None, None), &mut auth, "p", "pw", 60001), LoginReply::Cookie(_)));
    let mut open = WebAuth::new(None);
    assert!(matches!(auth_login(&headers(None, None), &mut open, "p", "", 0), LoginReply::NotNeeded));
    assert!(matches!(answer_login(Ok("s".to_string())), LoginReply::Cookie(c) if c.starts_with("gqy_session=s;")));
}

#[test]
fn passwords_are_checked_when_they_are_set() {
    assert_eq!(password_in_file("secret\r\n\n"), "secret");
    assert_eq!(resolve_web_password(&None), None);
    assert_eq!(resolve_web_password(&Some(String::new())), Some("WebUI password cannot be empty"));
    assert!(resolve_web_password(&Some("x".repeat(1025))).is_some());
    assert_eq!(resolve_web_password(&Some("x".repeat(1024))), None);
}

#[test]
fn an_address_is_escaped() {
    assert_eq!(address_text("a-Z_0.~ é&"), "a-Z_0.~+%C3%A9%26");
    assert_eq!(
        speech_address("  你好 ").unwrap(),
        "http://127.0.0.1:8091/tts?text=%E4%BD%A0%E5%A5%BD"
    );
    assert_eq!(speech_address("  ").unwrap_err().message, "text is required");
}

#[test]
fn limits_are_what_they_are() {
    assert_eq!(search_limit(None), 30);
    assert_eq!(search_limit(Some(0)), 1);
    assert_eq!(search_limit(Some(1000)), 200);
    assert_eq!(tool_timeout("task"), 1800);
    assert_eq!(tool_timeout("read_file"), 180);
    assert!(balance_is_fresh(false, 59999));
    assert!(!balance_is_fresh(false, 60000));
    assert!(!balance_is_fresh(true, 10000));
    assert!(is_fit_id("img_1-a"));
    assert!(!is_fit_id(""));
    assert!(!is_fit_id("a/b"));
    assert!(!is_fit_id(&"x".repeat(97)));
    assert_eq!(events_after(3, Some("7")), 7);
    assert_eq!(events_after(3, Some("x")), 3);
    assert_eq!(events_after(3, None), 3);
    assert_eq!(user_image_file("t1", 0, "image/jpeg"), "user_image_t1_0.jpg");
    assert_eq!(user_image_file("t1", 2, "strange"), "user_image_t1_2.png");
    assert_eq!(engine_name(Some(("openai", false))), "openai");
    assert_eq!(engine_name(Some(("x", true))), "pi");
    assert_eq!(engine_name(None), "unknown");
}

#[test]
fn commands_for_the_engine_are_read() {
    assert_eq!(pi_value(PiCommandKind::SetModel, "{\"modelId\":\"m\"}"), "m");
    assert_eq!(pi_value(PiCommandKind::SetThinking, "{\"level\":\"high\"}"), "high");
    assert_eq!(pi_value(PiCommandKind::SetModel, "no json"), "");
    assert_eq!(pi_value(PiCommandKind::GetState, "{\"modelId\":\"m\"}"), "");
}

#[test]
fn ranges_of_bytes_are_read() {
    assert_eq!(parse_byte_range("bytes=0-99", 1000), Some((0, 99)));
    assert_eq!(parse_byte_range("bytes=900-", 1000), Some((900, 999)));
    assert_eq!(parse_byte_range("bytes=-10", 1000), Some((990, 999)));
    assert_eq!(parse_byte_range("bytes=-5000", 1000), Some((0, 999)));
    assert_eq!(parse_byte_range(" bytes=5-2000 , 7-8", 1000), Some((5, 999)));
    assert_eq!(parse_byte_range("bytes=1000-", 1000), None);
    assert_eq!(parse_byte_range("bytes=5-4", 1000), None);
    assert_eq!(parse_byte_range("bytes=-0", 1000), None);
    assert_eq!(parse_byte_range("items=0-1", 1000), None);
    assert_eq!(parse_byte_range("bytes=0-", 0), None);
    assert_eq!(parse_number("+12"), Some(12));
    assert_eq!(parse_number("18446744073709551615"), Some(u64::MAX));
    assert_eq!(parse_number("18446744073709551616"), None);
    assert_eq!(parse_number("+"), None);
    assert_eq!(parse_number("1a"), None);
}

#[test]
fn parts_of_a_film_are_sent() {
    let whole = media_span(None, 10);
    assert_eq!((whole.status, whole.start, whole.end, whole.length), (StatusCode::Okay, 0, 9, 10));
    let part = media_span(Some("bytes=2-4"), 10);
    assert_eq!((part.status, part.length), (StatusCode::PartialContent, 3));
    assert_eq!(part.content_range, Some("bytes 2-4/10".to_string()));
    let none = media_span(Some("bytes=50-"), 10);
    assert_eq!(none.status, StatusCode::RangeNotSatisfiable);
    assert_eq!(none.content_range, Some("bytes */10".to_string()));
    assert_eq!(media_mime(Some("MP4")), Some("video/mp4"));
    assert_eq!(media_mime(Some("exe")), None);
    assert_eq!(media_mime(None), None);
}

#[test]
fn pictures_of_personas_are_looked_at() {
    let png = vec![0x89u8, 0x50, 0x4e, 0x47, 0x0d, 0x0a, 0x1a, 0x0a];
    assert_eq!(avatar_mime(&png).unwrap(), "image/png");
    assert_eq!(avatar_mime(&vec![1, 2, 3]).unwrap_err().status, StatusCode::NotFound);
    let name = persona_asset_name(&png, 100).unwrap();
    assert_eq!(name.len(), 64 + 4);
    assert!(name.ends_with(".png"));
    assert_eq!(persona_asset_name(&Vec::new(), 100).unwrap_err().message, "image is empty");
    assert_eq!(persona_asset_name(&png, 4).unwrap_err().status, StatusCode::PayloadTooLarge);
    assert_eq!(
        persona_asset_name(&vec![1, 2, 3], 100).unwrap_err().message,
        "unsupported image format"
    );
    assert!(verify_persona_asset_hash(&png, &name[..64], 100).is_ok());
    assert_eq!(
        verify_persona_asset_hash(&png, "0", 100).unwrap_err().status,
        StatusCode::Conflict
    );
}

#[test]
fn the_page_names_its_build() {
    let page = versioned_index("<link href=\"/styles.css\"><script src=\"/app.js\">", "b1");
    assert_eq!(page, "<link href=\"/styles.css?v=b1\"><script src=\"/app.js?v=b1\">");
}

#[test]
fn a_run_and_a_change_keep_each_other_out() {
    let mut manager = manager();
    assert!(claim_run(&mut manager, "r1").is_ok());
    assert_eq!(reserve_admin(&mut manager).unwrap_err().status, StatusCode::Conflict);
    finish_run(&mut manager, "other", None);
    assert_eq!(manager.active_run_id, Some("r1".to_string()));
    finish_run(&mut manager, "r1", Some(ContextSnapshot { tokens: 5, window: Some(9) }));
    assert_eq!(manager.active_run_id, None);
    assert_eq!(manager.context.tokens, 5);
    assert!(reserve_admin(&mut manager).is_ok());
    assert!(claim_run(&mut manager, "r2").is_err());
    release_admin(&mut manager);
    assert!(claim_run(&mut manager, "r2").is_ok());
    assert!(cancel_run(&manager, "r2").is_ok());
    assert_eq!(cancel_run(&manager, "r1").unwrap_err().status, StatusCode::NotFound);
}

#[test]
fn commands_during_a_run_are_answered() {
    let mut manager = manager();
    assert!(claim_run(&mut manager, "r1").is_ok());
    manager.admin_busy = true;
    let (directive, refusal) =
        active_directive(Some(&ActorCommand::SetModels { models: Vec::new() }), "r1", &mut manager);
    assert_eq!(directive, ActiveDirective::Continue);
    assert!(matches!(refusal, Some(AdminFailure::Invalid(m)) if m == "the model cannot be changed while a turn is running"));
    assert!(!manager.admin_busy);
    let cancel = ActorCommand::Cancel { run_id: "r1".to_string() };
    assert_eq!(active_directive(Some(&cancel), "r1", &mut manager).0, ActiveDirective::Cancel);
    assert_eq!(active_directive(Some(&cancel), "r2", &mut manager).0, ActiveDirective::Continue);
    assert_eq!(active_directive(None, "r1", &mut manager).0, ActiveDirective::Shutdown);
    let shutdown = ActorCommand::Shutdown;
    assert_eq!(active_directive(Some(&shutdown), "r1", &mut manager).0, ActiveDirective::Shutdown);
    let (_, refusal) = active_directive(Some(&ActorCommand::ResetConversation), "r1", &mut manager);
    assert!(refusal.is_some());
    let apply = ActorCommand::ApplyConfig { reset_conversation: false };
    assert!(active_directive(Some(&apply), "r1", &mut manager).1.is_some());
    assert!(active_directive(Some(&ActorCommand::Pi), "r1", &mut manager).1.is_none());
}

#[test]
fn the_context_is_made_shorter_when_providers_change() {
    let active = Some(vec![model("a", "1"), model("b", "2")]);
    assert!(!provider_will_change(&active, "a", &vec![model("b", "3"), model("a", "1")]));
    assert!(!provider_will_change(&active, "a", &vec![model("a", "1"), model("a", "3"), model("b", "1")]));
    assert!(provider_will_change(&active, "a", &vec![model("a", "1")]));
    assert!(!provider_will_change(&None, "a", &vec![model("a", "9")]));
    let change = ActorCommand::SetModels { models: vec![model("c", "1")] };
    assert_eq!(next_action(Some(&change), &active, "a"), IdleAction::CompactThenSetModels);
    let start = ActorCommand::StartTurn { run_id: "r".to_string() };
    assert_eq!(next_action(Some(&start), &active, "a"), IdleAction::RunTurn);
    assert_eq!(next_action(None, &active, "a"), IdleAction::Stop);
    let cancel = ActorCommand::Cancel { run_id: "r".to_string() };
    assert_eq!(next_action(Some(&cancel), &active, "a"), IdleAction::Ignore);
}

fn chat_result() -> ChatResult {
    ChatResult {
        usage: "{\"total_tokens\":3}".to_string(),
        usage_estimated: false,
        provider_id: Some("p".to_string()),
        model: None,
    }
}

#[test]
fn a_run_is_told_from_its_start_to_its_end() {
    let mut manager = manager();
    let mut events = EventHub::new();
    let mut questions = QuestionBroker::new();
    assert!(claim_run(&mut manager, "r1").is_ok());
    let mut run = TurnRun::begin("r1".to_string(), AgentMode::Plan, &mut events);
    let context = || Ok(ContextSnapshot { tokens: 12, window: Some(100) });
    run.advance(RunEvent::SetUp(None), context(), None, &mut manager, &mut events, &mut questions);
    assert!(matches!(run.stage, Stage::Chat));
    run.advance(
        RunEvent::ChatEnded(ChatOutcome::Finished(chat_result())),
        context(),
        None,
        &mut manager,
        &mut events,
        &mut questions,
    );
    run.advance(RunEvent::Measured(None), context(), None, &mut manager, &mut events, &mut questions);
    assert_eq!(run.ended(), None);
    run.advance(
        RunEvent::OverflowEnded(OverflowOutcome::Finished),
        context(),
        None,
        &mut manager,
        &mut events,
        &mut questions,
    );
    assert_eq!(run.ended(), Some(true));
    assert_eq!(manager.active_run_id, None);
    let told = events.replay_after(0);
    assert_eq!(told.len(), 2);
    assert_eq!(told[0].kind, "run.started");
    assert_eq!(told[0].data, "{\"mode\":\"plan\",\"run_id\":\"r1\"}");
    assert_eq!(told[1].kind, "run.completed");
    assert_eq!(
        told[1].data,
        "{\"context_tokens\":12,\"context_window\":100,\"model\":null,\"provider_id\":\"p\",\"run_id\":\"r1\",\"usage\":{\"total_tokens\":3},\"usage_estimated\":false}"
    );
}

#[test]
fn a_run_that_goes_wrong_is_told_too() {
    let ends = vec![
        (ChatOutcome::Failed("bad\u{7}".to_string()), "run.failed", true),
        (ChatOutcome::Cancelled, "run.cancelled", true),
        (ChatOutcome::QuestionCancelled, "run.cancelled", true),
        (ChatOutcome::Shutdown, "run.cancelled", false),
    ];
    for (outcome, kind, more) in ends {
        let mut manager = manager();
        let mut events = EventHub::new();
        let mut questions = QuestionBroker::new();
        assert!(claim_run(&mut manager, "r1").is_ok());
        let mut run = TurnRun::begin("r1".to_string(), AgentMode::Normal, &mut events);
        let context = || Err("not measured".to_string());
        run.advance(RunEvent::SetUp(None), context(), None, &mut manager, &mut events, &mut questions);
        run.advance(
            RunEvent::ChatEnded(outcome),
            context(),
            None,
            &mut manager,
            &mut events,
            &mut questions,
        );
        assert_eq!(run.ended(), Some(more));
        assert_eq!(manager.active_run_id, None);
        assert_eq!(events.replay_after(0).last().unwrap().kind, kind);
    }
    let mut manager = manager();
    let mut events = EventHub::new();
    let mut questions = QuestionBroker::new();
    let mut run = TurnRun::begin("r1".to_string(), AgentMode::Chat, &mut events);
    run.advance(
        RunEvent::SetUp(Some("no tools".to_string())),
        Err(String::new()),
        None,
        &mut manager,
        &mut events,
        &mut questions,
    );
    let told = events.replay_after(0);
    assert_eq!(told[1].data, "{\"message\":\"no tools\",\"run_id\":\"r1\"}");
}

#[test]
fn a_context_that_was_not_measured_is_measured_again() {
    let measured = ContextSnapshot { tokens: 12, window: None };
    for (again, tokens) in [(Some(measured), 12), (None, 0)] {
        let mut manager = manager();
        let mut events = EventHub::new();
        let mut questions = QuestionBroker::new();
        let mut run = TurnRun::begin("r1".to_string(), AgentMode::Normal, &mut events);
        run.stage = Stage::Overflow(chat_result());
        run.advance(
            RunEvent::OverflowEnded(OverflowOutcome::Finished),
            Err("not measured".to_string()),
            again,
            &mut manager,
            &mut events,
            &mut questions,
        );
        assert_eq!(run.ended(), Some(true));
        assert_eq!(manager.context.tokens, tokens);
        let told = events.replay_after(0);
        assert_eq!(told[1].kind, "context.error");
        assert!(told[2].data.contains(&format!("\"context_tokens\":{tokens},")));
    }
}

#[test]
fn a_change_that_fails_is_taken_back() {
    assert!(matches!(
        ConfigStage::SaveConfig.next(None, true),
        ConfigStep::Next(ConfigStage::Reset)
    ));
    assert!(matches!(
        ConfigStage::SaveConfig.next(None, false),
        ConfigStep::Next(ConfigStage::Done)
    ));
    match ConfigStage::BuildAgent.next(Some("x".to_string()), false) {
        ConfigStep::Fail(AdminFailure::Invalid(message), undo) => {
            assert_eq!(message, "x");
            assert!(undo.prompts && undo.scopes && !undo.config);
        }
        _ => panic!("it should have failed"),
    }
    match ConfigStage::Reset.next(Some(String::new()), true) {
        ConfigStep::Fail(AdminFailure::Internal(message), undo) => {
            assert_eq!(message, "operation failed");
            assert!(undo.prompts && undo.scopes && undo.config);
        }
        _ => panic!("it should have failed"),
    }
    let mut manager = manager();
    let ready = ModelsAttempt::Ready(ContextSnapshot { tokens: 4, window: None });
    assert!(rebuild_for_models(ready, &mut manager).is_ok());
    assert_eq!(manager.context.tokens, 4);
    assert!(rebuild_for_models(ModelsAttempt::Unchanged, &mut manager).is_ok());
    assert!(matches!(
        rebuild_for_models(ModelsAttempt::Refused("r".to_string()), &mut manager),
        Err(AdminFailure::Invalid(_))
    ));
    assert!(matches!(
        rebuild_for_models(ModelsAttempt::Failed("f".to_string()), &mut manager),
        Err(AdminFailure::Internal(_))
    ));
    let mut events = EventHub::new();
    let failed = reset_actor_conversation(Err("e".to_string()), &mut manager, &mut events);
    assert!(failed.is_err());
    assert_eq!(events.latest_id(), 0);
    let done = Ok(ContextSnapshot { tokens: 0, window: None });
    assert!(reset_actor_conversation(done, &mut manager, &mut events).is_ok());
    assert_eq!(events.replay_after(0)[0].kind, "conversation.reset");
}

#[test]
fn a_page_is_told_what_became_of_a_change() {
    let mut manager = manager();
    manager.admin_busy = true;
    let stopped = admin_answer(AdminChange::Models, None, &mut manager).unwrap_err();
    assert_eq!(stopped.status, StatusCode::ServiceUnavailable);
    assert_eq!(stopped.message, "agent worker stopped before updating the model");
    assert!(!manager.admin_busy);
    let invalid = |change| {
        let mut manager = self::manager();
        let reply = Some(Err(AdminFailure::Invalid("m".to_string())));
        admin_answer(change, reply, &mut manager).unwrap_err().status
    };
    assert_eq!(invalid(AdminChange::Config), StatusCode::BadRequest);
    assert_eq!(invalid(AdminChange::Conversation), StatusCode::Conflict);
    let internal = Some(Err(AdminFailure::Internal("m".to_string())));
    assert_eq!(
        admin_answer(AdminChange::Config, internal, &mut manager).unwrap_err().status,
        StatusCode::InternalServerError
    );
    assert!(admin_answer(AdminChange::Config, Some(Ok(())), &mut manager).is_ok());
    assert!(confirm_prompt_change(true, true).is_ok());
    assert_eq!(confirm_prompt_change(true, false).unwrap_err().status, StatusCode::Conflict);
}

#[test]
fn pictures_and_progress_of_the_engine_are_told() {
    let mut manager = manager();
    let mut events = EventHub::new();
    publish_bridge_progress(&mut events, &manager, "x");
    assert_eq!(events.latest_id(), 0);
    manager.active_run_id = Some("r1".to_string());
    publish_bridge_progress(&mut events, &manager, "x");
    assert_eq!(
        events.replay_after(0)[0].data,
        "{\"message\":\"x\",\"name\":\"agent 集群活动\",\"run_id\":\"r1\",\"tool_id\":\"r1_agent_activity\"}"
    );
    assert!(bridge_image(&manager, None, "a").is_none());
    assert!(bridge_image(&manager, Some(""), "a").is_none());
    let place = bridge_image(&manager, Some("t1"), "一个表情").unwrap();
    assert_eq!(place.name, "show_meme");
    assert_eq!(place.tool_id, "r1_bridge_image");
    assert_eq!(bridge_image(&manager, Some("t1"), "chart").unwrap().name, "image");
    let asset = ImageAsset {
        asset_id: "i1".to_string(),
        turn_id: "t1".to_string(),
        tool_id: Some(place.tool_id.clone()),
        mime: "image/png".to_string(),
        width: 2,
        height: 3,
        alt: "一个表情".to_string(),
        created_at: "2026-01-01T00:00:00Z".to_string(),
    };
    publish_bridge_image(&mut events, &place, &asset);
    let told = events.replay_after(1).pop().unwrap();
    assert_eq!(told.kind, "tool.image");
    assert!(told.data.contains("\"name\":\"show_meme\""));
    assert!(told.data.contains("\"tool_id\":\"r1_bridge_image\""));
    assert!(told.data.contains("\"hide_caption\":true"));
    assert_eq!(user_image_tool(7), "user_image_7");
}

#[test]
fn tools_of_a_run_have_ids_of_their_own() {
    let mut events = EventHub::new();
    let mut mapper = RunEventMapper::new("r1".to_string());
    let call = |name: &str| AgentEvent::ToolCall {
        name: name.to_string(),
        display_name: "Read".to_string(),
        arguments: "{}".to_string(),
    };
    mapper.handle(AgentEvent::TurnStarted { turn_id: "t1".to_string() }, &mut events);
    mapper.handle(call("load_skill:x"), &mut events);
    mapper.handle(
        AgentEvent::CommandOutput {
            name: "other".to_string(),
            stderr: true,
            chunk: vec![0x61, 0xff],
        },
        &mut events,
    );
    mapper.handle(
        AgentEvent::ToolResult {
            name: "load_skill:x".to_string(),
            ok: true,
            output: "done".to_string(),
        },
        &mut events,
    );
    mapper.handle(call("read_file"), &mut events);
    mapper.handle(AgentEvent::SpinnerTick, &mut events);
    let told = events.replay_after(0);
    assert_eq!(told.len(), 5);
    assert_eq!(
        told[1].data,
        "{\"arguments\":\"{}\",\"display_name\":\"Read\",\"name\":\"load_skill\",\"run_id\":\"r1\",\"tool_id\":\"r1_tool_1\"}"
    );
    assert_eq!(
        told[2].data,
        "{\"name\":\"load_skill\",\"output\":\"a\u{fffd}\",\"run_id\":\"r1\",\"stream\":\"stderr\",\"tool_id\":\"r1_tool_1\"}"
    );
    assert_eq!(told[3].kind, "tool.finished");
    assert!(told[4].data.contains("r1_tool_2"));
}

#[test]
fn pictures_without_a_turn_are_told_as_errors() {
    let mut events = EventHub::new();
    let mut mapper = RunEventMapper::new("r1".to_string());
    let image = || AgentEvent::Image {
        name: "show_meme".to_string(),
        emotion: None,
        action: None,
        saved: None,
    };
    mapper.handle(image(), &mut events);
    mapper.handle(AgentEvent::TurnStarted { turn_id: "t1".to_string() }, &mut events);
    mapper.handle(image(), &mut events);
    mapper.handle(
        AgentEvent::QueuedPromptsConsumed {
            prompt_ids: vec!["p1".to_string()],
            mode: AgentMode::Normal,
            provider_id: None,
            model: None,
        },
        &mut events,
    );
    let told = events.replay_after(0);
    assert!(told[0].data.contains("image could not be associated with the current turn"));
    assert!(told[2].data.contains("image could not be added to the WebUI"));
    assert_eq!(
        told[3].data,
        "{\"mode\":\"normal\",\"model\":null,\"prompt_ids\":[\"p1\"],\"provider_id\":null,\"run_id\":\"r1\"}"
    );
}

#[test]
fn secrets_stay_with_their_providers() {
    let current = secrets(&[("a", Some("ka")), ("b", Some("kb"))]);
    let swapped = secrets(&[("b", None), ("a", None)]);
    let restored = restore_config_secrets(&swapped, &current, &Vec::new()).unwrap();
    assert_eq!(restored.providers[0].api_key, Some("kb".to_string()));
    assert_eq!(restored.providers[1].api_key, Some("ka".to_string()));
    assert_eq!(restored.tavily_api_keys, vec!["t".to_string()]);
    let changes = vec![
        ("providers.1.api_key".to_string(), SecretMutation::Replace("  new ".to_string())),
        (
            "plugins.web.tavily_api_keys".to_string(),
            SecretMutation::Replace("x, y\n\n z".to_string()),
        ),
        ("plugins.exchange_rate.api_key".to_string(), SecretMutation::Clear),
    ];
    let changed = restore_config_secrets(&swapped, &current, &changes).unwrap();
    assert_eq!(changed.providers[1].api_key, Some("new".to_string()));
    assert_eq!(changed.tavily_api_keys, vec!["x".to_string(), "y".to_string(), "z".to_string()]);
    assert_eq!(changed.exchange_rate_api_key, "");
    let unknown = vec![("providers.2.api_key".to_string(), SecretMutation::Clear)];
    assert_eq!(
        restore_config_secrets(&swapped, &current, &unknown).map(|_| ()).unwrap_err().message,
        "unknown secret field: providers.2.api_key"
    );
    assert_eq!(
        parse_secret_list("a\u{0}", "f").unwrap_err().message,
        "f is invalid"
    );
}

#[test]
fn configurations_are_checked() {
    let ids = vec!["a".to_string(), " a ".to_string()];
    let none = Vec::new();
    let twice = validate_config_candidate(None, &ids, None, &none, &none).unwrap_err();
    assert_eq!(twice.message, "duplicate provider id:  a ");
    let fault = validate_config_candidate(Some("why"), &none_ids(), None, &none, &none);
    assert_eq!(fault.unwrap_err().message, "invalid configuration: why");
    let choices = vec![model("a", "1")];
    let active = vec![model("a", "2")];
    let unknown = validate_config_candidate(None, &none_ids(), None, &active, &choices);
    assert_eq!(unknown.unwrap_err().message, "invalid multimodal provider/model: a / 2");
    let active = vec![model("a", "1"), model("a", "1")];
    assert!(validate_config_candidate(None, &none_ids(), None, &active, &choices).is_err());
    assert!(validate_config_candidate(None, &none_ids(), Some("x"), &none, &none).is_err());
    assert!(validate_config_candidate(None, &none_ids(), None, &choices, &choices).is_ok());
}

fn none_ids() -> Vec<String> {
    Vec::new()
}

#[test]
fn documents_are_checked() {
    assert!(validate_prompt_document_name("a.md", "persona").is_ok());
    for bad in [".a.md", "a.txt", " a.md", ".md", "a/b.md", "a\n.md"] {
        assert_eq!(
            validate_prompt_document_name(bad, "persona").unwrap_err().status,
            StatusCode::BadRequest
        );
    }
    let prompts = |personas| PromptDocuments { personas, identities: Vec::new() };
    let fine = prompts(vec![document("a.md", "x", None)]);
    assert!(validate_prompt_documents("a.md", "", &fine).is_ok());
    assert_eq!(
        validate_prompt_documents("b.md", "", &fine).unwrap_err().message,
        "the active persona does not exist"
    );
    assert_eq!(
        validate_prompt_documents("", "b.md", &fine).unwrap_err().message,
        "the active identity does not exist"
    );
    let twice = prompts(vec![document("a.md", "x", None), document("a.md", "y", None)]);
    assert_eq!(
        validate_prompt_documents("", "", &twice).unwrap_err().message,
        "duplicate persona document: a.md"
    );
    let origins = prompts(vec![
        document("a.md", "x", Some("o.md")),
        document("b.md", "y", Some("o.md")),
    ]);
    assert_eq!(
        validate_prompt_documents("", "", &origins).unwrap_err().message,
        "duplicate original persona document: o.md"
    );
    let large = prompts(vec![document("a.md", "\0", None)]);
    assert_eq!(
        validate_prompt_documents("", "", &large).unwrap_err().status,
        StatusCode::PayloadTooLarge
    );
    let many = prompts((0..129).map(|i| document(&format!("{i}.md"), "", None)).collect());
    assert_eq!(
        validate_prompt_documents("", "", &many).unwrap_err().message,
        "at most 128 persona documents are allowed"
    );
}

#[test]
fn documents_become_files() {
    let files = vec![
        ("b.md".to_string(), "B".to_string()),
        ("x.txt".to_string(), "X".to_string()),
        ("a.md".to_string(), "A".to_string()),
    ];
    let current = read_prompt_document_dir(&files);
    assert_eq!(current.iter().map(|d| d.name.as_str()).collect::<Vec<_>>(), vec!["a.md", "b.md"]);
    let next = vec![document("c.md", "A  \n\n", Some("a.md")), document("new.md", " ", None)];
    let mut mutations = Vec::new();
    collect_prompt_file_mutations(&current, &next, "/p", "/p", &mut mutations);
    assert_eq!(
        mutations,
        vec![
            ("/p/c.md".to_string(), Some("A\n".to_string())),
            ("/p/new.md".to_string(), Some(String::new())),
            ("/p/a.md".to_string(), None),
            ("/p/b.md".to_string(), None),
        ]
    );
    let kept = vec![document("a.md", "A", Some("a.md"))];
    let mut mutations = vec![("/p//a.md".to_string(), None)];
    collect_prompt_file_mutations(&current, &kept, "/p/.", "/p", &mut mutations);
    assert_eq!(
        mutations,
        vec![
            ("/p//a.md".to_string(), Some("A\n".to_string())),
            ("/p/./b.md".to_string(), None),
        ]
    );
    let mut mutations = Vec::new();
    collect_prompt_file_mutations(&kept, &kept, "./p", "p", &mut mutations);
    assert_eq!(mutations.len(), 2);
    assert_eq!(
        persona_scope_changes(&current, &next),
        vec![("a.md".to_string(), Some("c.md".to_string())), ("b.md".to_string(), None)]
    );
    let one = PromptDocuments {
        personas: vec![document("a.md", "A", None), document("b.md", "B", None)],
        identities: Vec::new(),
    };
    let two = PromptDocuments {
        personas: vec![document("b.md", "B", Some("b.md")), document("a.md", "A", None)],
        identities: Vec::new(),
    };
    assert!(!prompt_documents_changed(&one, &two));
    let three = PromptDocuments {
        personas: Vec::new(),
        identities: vec![document("a.md", "A", None)],
    };
    assert!(prompt_documents_changed(&one, &three));
}

#[test]
fn pages_work_with_sessions_of_their_own() {
    let mut shared = shared_with(&[
        ("s1", "gqy", "one", "user"),
        ("s2", "dev", "two", "user"),
        ("s3", "other", "three", "user"),
        ("s4", "gqy", "four", "ask"),
    ]);
    let store = StateStore::new(&mut shared, "/state", "/data", 7, &vec![7], Language::English);
    assert!(require_local_web_session(&store, &shared, "s1", "gqy").is_ok());
    assert!(require_local_web_session(&store, &shared, "s2", "gqy").is_ok());
    for id in ["s3", "s4", "s9"] {
        let refused = require_local_web_session(&store, &shared, id, "gqy");
        assert_eq!(refused.map(|_| ()).unwrap_err().status, StatusCode::NotFound);
    }
    let by_id = SessionRef::Id("s3".to_string());
    assert!(resolve_local_session_ref(&store, &shared, &by_id, "gqy", Language::English).is_ok());
    let by_name = SessionRef::Name("three".to_string());
    assert_eq!(
        resolve_local_session_ref(&store, &shared, &by_name, "gqy", Language::Chinese)
            .map(|_| ())
            .unwrap_err(),
        "找不到该会话"
    );
    let wanted = Some("s4".to_string());
    assert_eq!(resolve_turn_session(&store, &shared, wanted, "gqy", Language::English).unwrap(), "s4");
    assert_eq!(
        resolve_turn_session(&store, &shared, None, "gqy", Language::English).unwrap(),
        store.session_id(&shared)
    );
    assert!(resolve_turn_session(&store, &shared, Some("s9".to_string()), "gqy", Language::English).is_err());
    assert_eq!(turn_mode_for_session(&store, &shared, "s2"), SessionMode::Dev);
    assert_eq!(turn_mode_for_session(&store, &shared, "s1"), SessionMode::Normal);
    let listed = sessions_with_dev(&store, &shared, "gqy");
    assert!(listed.iter().any(|o| o.record.session_id == "s2"));
    let one = listed.iter().find(|o| o.record.session_id == "s1").unwrap();
    let json = session_overview_json(one, "s1");
    assert!(json.contains("\"is_current\":true"));
    assert!(json.contains("\"mode\":\"normal\""));
    assert!(require_no_running_turn(&store, &shared).is_ok());
}

#[test]
fn there_is_always_a_session_to_go_on_with() {
    let mut shared = shared_with(&[("s1", "p", "one", "user"), ("s2", "p", "two", "user")]);
    let store = StateStore::new(&mut shared, "/state", "/data", 7, &vec![7], Language::English);
    let mut events = EventHub::new();
    let next = fallback_session_id(&store, &mut shared, &mut events, "s1", "p", Language::English);
    assert!(matches!(next, Ok(id) if id == "s2"));
    assert_eq!(events.latest_id(), 0);
    let fresh = fallback_session_id(&store, &mut shared, &mut events, "x", "empty", Language::English);
    let id = match fresh {
        Ok(id) => id,
        Err(error) => panic!("{}", error.message(Language::English)),
    };
    assert_eq!(store.session_record(&shared, &id).unwrap().name, "Terminal session");
    assert_eq!(events.replay_after(0)[0].kind, "session.created");
}

#[test]
fn messages_wait_where_a_turn_is_running() {
    let mut manager = manager();
    let target = |queue: Option<&str>| RunningTurnQueueTarget {
        turn_id: "t1".to_string(),
        queue_session_id: queue.map(|q| q.to_string()),
        owner_pid: Some(7),
    };
    assert_eq!(
        enqueue_running_prompt(&manager, None).map(|_| ()).unwrap_err().message,
        "there is no active reply to follow up"
    );
    assert_eq!(
        enqueue_running_prompt(&manager, Some(target(None))).map(|_| ()).unwrap_err().message,
        "the running turn cannot accept messages from this WebUI"
    );
    assert!(matches!(
        enqueue_running_prompt(&manager, Some(target(Some("q")))),
        Ok(QueuePlace::Turn(_))
    ));
    assert!(external_queue_available(&manager, &Some(target(Some("q")))));
    assert!(!external_queue_available(&manager, &Some(target(None))));
    manager.active_run_id = Some("r1".to_string());
    assert!(matches!(enqueue_running_prompt(&manager, None), Ok(QueuePlace::Run(r)) if r == "r1"));
    assert!(!external_queue_available(&manager, &Some(target(Some("q")))));
    manager.admin_busy = true;
    assert!(enqueue_running_prompt(&manager, None).is_err());
    let mut events = EventHub::new();
    let prompt = SafeQueuedPrompt {
        id: "p1".to_string(),
        content: "c".to_string(),
        submitted_at: "now".to_string(),
    };
    publish_queued_prompt(&mut events, &None, &Some("t1".to_string()), &prompt);
    assert_eq!(
        events.replay_after(0)[0].data,
        "{\"prompt\":{\"content\":\"c\",\"id\":\"p1\",\"submitted_at\":\"now\"},\"run_id\":null,\"turn_id\":\"t1\"}"
    );
    assert!(remove_queue_prompt(&mut events, "p/1", &None, &None, true).is_err());
    assert!(remove_queue_prompt(&mut events, "p1", &None, &None, false).is_err());
    assert!(remove_queue_prompt(&mut events, "p1", &None, &None, true).is_ok());
    assert_eq!(events.replay_after(1)[0].kind, "queue.removed");
}

#[test]
fn a_terminal_follows_its_run() {
    let data = "{\"run_id\":\"r1\"}";
    assert_eq!(follow_frame("assistant.delta", data, "r1", true), FrameAction::Forward);
    assert_eq!(follow_frame("run.failed", data, "r1", true), FrameAction::ForwardLast);
    assert_eq!(follow_frame("assistant.delta", data, "r2", true), FrameAction::Skip);
    assert_eq!(follow_frame("assistant.delta", data, "r2", false), FrameAction::Stop);
    assert_eq!(follow_frame("x", "no json", "r2", false), FrameAction::Skip);
    assert_eq!(follow_frame("resync_required", "{}", "r1", true), FrameAction::Lost);
}

#[test]
fn answers_are_refused_for_a_reason() {
    assert_eq!(answer_refused(AnswerFailure::NotFound).status, StatusCode::NotFound);
    assert_eq!(answer_refused(AnswerFailure::Gone).status, StatusCode::Conflict);
    let invalid = answer_refused(AnswerFailure::Invalid("m".to_string()));
    assert_eq!((invalid.status, invalid.message.as_str()), (StatusCode::BadRequest, "m"));
    let mut broker = QuestionBroker::new();
    assert!(matches!(broker.answer("q", Vec::new(), None), Err(AnswerFailure::NotFound)));
}

#[test]
fn answers_are_judged_by_who_asked() {
    let request = QuestionRequest {
        questions: vec![QuestionPrompt {
            header: "h".to_string(),
            question: "q".to_string(),
            options: Vec::new(),
            multiple: true,
            custom: true,
        }],
    };
    let given = vec![vec![" a ".to_string(), "b".to_string()]];
    assert_eq!(trim_answers(&given), vec![vec!["a".to_string(), "b".to_string()]]);
    let refused = normalize_answers(&request, given.clone(), Some("only one".to_string()));
    assert_eq!(refused.unwrap_err(), "only one");
    let missing = normalize_answers(&request, Vec::new(), None);
    assert_eq!(missing.unwrap_err(), "every question needs an answer");
    let mut broker = QuestionBroker::new();
    assert!(broker.request_of("x").is_none());
    let id = broker.insert("r1", &request).unwrap();
    assert!(id.starts_with("question_"));
    assert_eq!(broker.request_of(&id).unwrap().questions[0].header, "h");
    let fault = Some("only one".to_string());
    assert!(matches!(broker.answer(&id, given.clone(), fault), Err(AnswerFailure::Invalid(_))));
    assert!(broker.is_pending(&id));
    assert!(broker.answer(&id, given, None).is_ok());
    assert!(!broker.is_pending(&id));
}

#[test]
fn long_numbers_are_written_out() {
    assert_eq!(long_decimal_text(0), "0");
    assert_eq!(long_decimal_text(1_700_000_000_123), "1700000000123");
    assert_eq!(long_decimal_text(u128::MAX), "340282366920938463463374607431768211455");
}

#[test]
fn a_file_that_was_changed_is_read_again() {
    assert!(!reload_due(None, None));
    assert!(!reload_due(Some(1), None));
    assert!(!reload_due(Some(1), Some(1)));
    assert!(reload_due(None, Some(1)));
    assert!(reload_due(Some(2), Some(1)));
}

#[test]
fn a_stream_tells_every_event_once() {
    let mut hub = EventHub::new();
    hub.publish("a", "{}");
    hub.publish("b", "{}");
    let pending = hub.replay_after(0);
    let mut stream = EventStream::new(pending, 0);
    assert_eq!(stream.next_pending().unwrap().kind, "a");
    assert_eq!(stream.next_pending().unwrap().kind, "b");
    assert!(stream.next_pending().is_none());
    hub.publish("c", "{}");
    let record = hub.replay_after(2).pop().unwrap();
    assert!(stream.receive(&record));
    assert!(!stream.receive(&record));
    hub.publish("d", "{}");
    stream.catch_up(&mut hub);
    assert_eq!(stream.next_pending().unwrap().kind, "d");
    assert!(stream.next_pending().is_none());
}

#[test]
fn pictures_in_messages_are_decoded() {
    let images = vec![
        WebImageInput { mime: "image/png".to_string(), data_base64: "AQID".to_string() },
        WebImageInput { mime: "image/png".to_string(), data_base64: "?".to_string() },
    ];
    let pasted = pasted_images_from_input(&images);
    assert_eq!(pasted.len(), 2);
    assert!(pasted[0].is_some());
    assert!(pasted[1].is_none());
    assert_eq!(queued_attachments_from_input(&images).len(), 1);
}

#[test]
fn fields_and_modes_are_checked() {
    assert!(validate_content("  ").is_err());
    assert_eq!(validate_content(" a\nb ").unwrap(), "a\nb");
    assert!(validate_content("a\u{7}").is_err());
    assert!(validate_short_field("abc", "name", 2).is_err());
    assert!(validate_short_field("ab", "name", 2).is_ok());
    assert!(matches!(parse_mode("plan"), Ok(AgentMode::Plan)));
    assert!(parse_mode("fast").is_err());
    assert_eq!(safe_error_message("a\u{7}b"), "ab");
    assert_eq!(safe_error_message(" "), "operation failed");
    assert!(random_id("run", 18).starts_with("run_"));
    assert_ne!(random_id("run", 18), random_id("run", 18));
    let urls = web_access_urls(&vec![0xc0a80114], 4096, true);
    assert!(urls.iter().any(|u| u.contains("192.168.1.20:4096")));
}

#[test]
fn a_conversation_is_exported() {
    let mut db = ConversationDb::new();
    assert!(db.create_session("s1", "p", "one", "user", None, "now").is_ok());
    let lines = vec![
        "{\"role\":\"user\",\"content\":\"hello\",\"timestamp\":\"2025-01-01T00:00:00Z\"}".to_string(),
        "{\"role\":\"assistant\",\"content\":\"hi\",\"timestamp\":\"2025-01-01T00:00:01Z\"}".to_string(),
    ];
    assert!(db.migrate_from_jsonl("s1", &lines, "now").is_ok());
    let turns = db.load_visible_turns("s1");
    let document = export_conversation(&turns);
    assert!(document.starts_with("# GQY 对话导出\n\n## "));
    assert!(document.contains("**你**：\n\nhello\n\n**顾清影**：\n\nhi\n\n"));
    assert_eq!(session_state(&turns), turns[0].seq);
    assert_eq!(session_state(&Vec::new()), 0);
}
