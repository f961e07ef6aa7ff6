use gqy::state::journal::{interrupted_text, pending_placeholder};
use gqy::state::types::ImageAsset;
use gqy::tools::memory::{MemoryFileStore, MemoryType, WriteMode, WriteOptions};
use gqy::web::answers::normalize_answers;
use gqy::web::auth::{cookie_value, origin_is_allowed, LoginFailure, RequestHeaders, WebAuth};
use gqy::web::config::{
    config_response, restore_config_secrets, ProviderSecret, SecretConfig, SecretMutation,
};
use gqy::web::error::StatusCode;
use gqy::web::events::{AnswerFailure, EventHub, QuestionBroker};
use gqy::web::models::{
    ActiveProviderModelConfig, QuestionOption, QuestionPrompt, QuestionRequest,
};
use gqy::web::types::{
    meme_asset_caption_hidden, redact_internal_assistant_text, validate_content,
    validate_model_selection,
};
use gqy::web::util::{AUTH_COOKIE, EVENT_CAPACITY, LOGIN_ATTEMPT_LIMIT, MAX_CONTENT_CHARS};

fn no_headers() -> RequestHeaders {
    RequestHeaders { cookies: Vec::new(), origins: Vec::new(), host: None }
}

fn config(id: &str, api_key: Option<&str>) -> SecretConfig {
    SecretConfig {
        providers: vec![ProviderSecret {
            id: id.to_string(),
            api_key: api_key.map(|key| key.to_string()),
        }],
        tavily_api_keys: Vec::new(),
        firecrawl_api_keys: Vec::new(),
        anysearch_api_keys: Vec::new(),
        image_generation_api_keys: Vec::new(),
        exchange_rate_api_key: String::new(),
    }
}

fn sample_question() -> QuestionRequest {
    QuestionRequest {
        questions: vec![QuestionPrompt {
            header: "Scope".to_string(),
            question: "Which scope?".to_string(),
            options: vec![QuestionOption {
                label: "All".to_string(),
                description: String::new(),
            }],
            multiple: false,
            custom: true,
        }],
    }
}

#[test]
fn assistant_sentinels_are_never_exposed() {
    assert_eq!(redact_internal_assistant_text(pending_placeholder()), "");
    assert_eq!(redact_internal_assistant_text(interrupted_text()), "");
    let combined = format!("before {} after", interrupted_text());
    let redacted = redact_internal_assistant_text(&combined);
    assert_eq!(redacted, "before  after");
    assert!(!redacted.contains("system-reminder"));
}

#[test]
fn persisted_meme_assets_hide_their_descriptive_caption() {
    let asset = ImageAsset {
        asset_id: "img_test".to_string(),
        turn_id: "turn_test".to_string(),
        tool_id: Some("tool_test".to_string()),
        mime: "image/png".to_string(),
        width: 64,
        height: 64,
        alt: "猫猫 开心 & <得意>".to_string(),
        created_at: "2026-01-01T00:00:00Z".to_string(),
    };
    let reports = vec![
        "<sent_meme>发送了一个表情包：id=sha256:test；description=猫猫 开心 &amp; &lt;得意&gt;</sent_meme>"
            .to_string(),
    ];

    assert!(meme_asset_caption_hidden(&asset, &reports));
    assert!(!meme_asset_caption_hidden(&asset, &vec!["normal tool output".to_string()]));
}

#[test]
fn cookie_parser_matches_an_exact_cookie_name() {
    let mut headers = no_headers();
    headers.cookies.push(Some("other=1; gqy_session=secret-token; suffix=2".to_string()));
    assert_eq!(cookie_value(&headers, AUTH_COOKIE), Some("secret-token".to_string()));
    assert_eq!(cookie_value(&headers, "session"), None);
}

#[test]
fn mutation_guard_requires_matching_origin_after_auth() {
    let mut headers = no_headers();
    headers.host = Some("127.0.0.1:4096".to_string());
    headers.origins = vec![Some("http://evil.example".to_string())];
    assert!(!origin_is_allowed(&headers));
    headers.origins = vec![Some("http://127.0.0.1:4096".to_string())];
    assert!(origin_is_allowed(&headers));
}

#[test]
fn origin_check_accepts_absent_or_current_host_origin() {
    let mut headers = no_headers();
    assert!(origin_is_allowed(&headers));
    headers.host = Some("192.168.1.20:4096".to_string());
    headers.origins = vec![Some("http://127.0.0.1:4096".to_string())];
    assert!(!origin_is_allowed(&headers));
    headers.origins = vec![Some("http://192.168.1.20:4096".to_string())];
    assert!(origin_is_allowed(&headers));
    headers.origins.push(Some("http://192.168.1.20:4096".to_string()));
    assert!(!origin_is_allowed(&headers));
}

#[test]
fn optional_password_auth_issues_server_side_sessions_and_limits_failures() {
    let disabled = WebAuth::new(None);
    assert!(disabled.is_authenticated(None));

    let mut auth = WebAuth::new(Some("correct horse"));
    let peer = "127.0.0.1";
    assert!(!auth.is_authenticated(None));
    assert!(matches!(auth.login(peer, "wrong", 0), Err(LoginFailure::Invalid)));
    let token = auth.login(peer, "correct horse", 1).unwrap();
    assert!(auth.is_authenticated(Some(&token)));

    let mut limited = WebAuth::new(Some("secret"));
    for _ in 0..LOGIN_ATTEMPT_LIMIT {
        assert!(matches!(limited.login(peer, "wrong", 2), Err(LoginFailure::Invalid)));
    }
    assert!(matches!(limited.login(peer, "secret", 3), Err(LoginFailure::RateLimited)));
}

#[test]
fn model_selection_rejects_empty_and_duplicate_pools() {
    let model = || ActiveProviderModelConfig {
        provider_id: "provider".to_string(),
        model: "model".to_string(),
    };
    assert!(validate_model_selection(&Vec::new()).is_err());
    assert!(validate_model_selection(&vec![model()]).is_ok());
    assert!(validate_model_selection(&vec![model(), model()]).is_err());
}

#[test]
fn config_response_never_serializes_secret_values() {
    let mut config = config("provider", Some("provider-secret"));
    config.tavily_api_keys = vec!["tavily-secret".to_string()];
    config.exchange_rate_api_key = "exchange-secret".to_string();
    config.image_generation_api_keys = vec!["image-secret".to_string()];
    let (shown, states) = config_response(&config);
    assert_eq!(shown.providers[0].id, "provider");
    assert_eq!(shown.providers[0].api_key, None);
    assert!(shown.tavily_api_keys.is_empty());
    assert_eq!(shown.exchange_rate_api_key, "");
    assert!(shown.image_generation_api_keys.is_empty());
    let state = |key: &str| states.iter().find(|state| state.0 == key).unwrap().1;
    assert_eq!(state("providers.0.api_key"), true);
    assert_eq!(state("plugins.web.tavily_api_keys"), true);
    assert_eq!(state("plugins.web.firecrawl_api_keys"), false);
    for (key, _) in &states {
        assert!(!key.contains("-secret"));
    }
}

#[test]
fn omitted_provider_secret_does_not_follow_array_position_after_rename() {
    let current = config("first", Some("first-secret"));
    let candidate = config("renamed", None);
    let restored = restore_config_secrets(&candidate, &current, &Vec::new()).unwrap();
    assert_eq!(restored.providers[0].api_key, None);
}

#[test]
fn explicit_secret_clear_removes_a_provider_key() {
    let current = config("first", Some("secret"));
    let candidate = config("first", None);
    let mutations = vec![("providers.0.api_key".to_string(), SecretMutation::Clear)];
    let restored = restore_config_secrets(&candidate, &current, &mutations).unwrap();
    assert_eq!(restored.providers[0].api_key, None);
}

#[test]
fn stale_event_cursor_receives_resync_marker() {
    let mut events = EventHub::new();
    for index in 0..=EVENT_CAPACITY {
        events.publish("test", &format!("{{\"index\":{index}}}"));
    }
    let replay = events.replay_after(0);
    assert_eq!(replay.len(), 1);
    assert_eq!(replay[0].kind, "resync_required");
    assert_eq!(replay[0].id, events.latest_id());
    let next = events.publish("after-resync", "{}");
    assert!(next > replay[0].id);
}

#[test]
fn replay_after_cursor_is_ordered_and_exclusive() {
    let mut events = EventHub::new();
    events.publish("one", "{}");
    events.publish("two", "{}");
    events.publish("three", "{}");
    let replay = events.replay_after(1);
    assert_eq!(replay.iter().map(|record| record.id).collect::<Vec<_>>(), vec![2, 3]);
}

#[test]
fn future_event_cursor_requests_resync_after_server_restart() {
    let mut events = EventHub::new();
    let replay = events.replay_after(42);
    assert_eq!(replay.len(), 1);
    assert_eq!(replay[0].kind, "resync_required");
}

#[test]
fn answer_validation_trims_values_and_rejects_control_characters() {
    let request = sample_question();
    assert_eq!(
        normalize_answers(&request, vec![vec!["  All  ".to_string()]], None).unwrap(),
        vec![vec!["All".to_string()]]
    );
    assert!(normalize_answers(&request, vec![vec!["bad\nanswer".to_string()]], None).is_err());
}

#[test]
fn invalid_answer_keeps_question_pending() {
    let mut broker = QuestionBroker::new();
    let question_id = broker.insert("run_test", &sample_question()).unwrap();
    let invalid = broker.answer(&question_id, vec![Vec::new()], None);
    assert!(matches!(invalid, Err(AnswerFailure::Invalid(_))), "invalid answer must not be published");
    assert!(broker.is_pending(&question_id));

    let (run_id, answers) = broker.answer(&question_id, vec![vec![" All ".to_string()]], None).unwrap();
    assert_eq!(run_id, "run_test");
    assert_eq!(answers, vec![vec!["All".to_string()]]);
    assert!(!broker.is_pending(&question_id));
    assert!(broker.delivered(true).is_ok());
}

#[test]
fn closed_question_responder_does_not_publish_an_answer() {
    let mut broker = QuestionBroker::new();
    let question_id = broker.insert("run_test", &sample_question()).unwrap();
    let _answer = broker.answer(&question_id, vec![vec!["All".to_string()]], None).unwrap();
    let mut published = false;
    let result = broker.delivered(false);
    if result.is_ok() {
        published = true;
    }
    assert!(matches!(result, Err(AnswerFailure::Gone)));
    assert!(!published);
}

#[test]
fn content_limit_counts_characters() {
    assert!(validate_content(&"x".repeat(MAX_CONTENT_CHARS)).is_ok());
    let error = validate_content(&"界".repeat(MAX_CONTENT_CHARS + 1)).unwrap_err();
    assert_eq!(error.status, StatusCode::PayloadTooLarge);
}

#[test]
fn test_memory_store() {
    let mut store = MemoryFileStore::new("memory".to_string());

    store
        .write(WriteOptions {
            memory_type: MemoryType::User,
            name: "test_memory".to_string(),
            title: "Test Memory".to_string(),
            description: "A test memory".to_string(),
            body: "This is the body".to_string(),
            mode: WriteMode::Create,
        })
        .map_err(|error| error.message())
        .unwrap();

    let memories = store.list();
    assert_eq!(memories.len(), 1);
    assert_eq!(memories[0].title, "Test Memory");

    let shard = store.read("test_memory.md").map_err(|error| error.message()).unwrap();
    assert_eq!(shard.body, "This is the body");

    let hits = store.search("test", None, 10);
    assert_eq!(hits.len(), 1);

    store.delete("test_memory.md").map_err(|error| error.message()).unwrap();
    assert_eq!(store.list().len(), 0);
}
