use codex_kit::feedback::attachments::attach;
use codex_kit::feedback::attachments::auto_review_rollout_filename;
use codex_kit::feedback::attachments::windows_sandbox_log_attachment;
use codex_kit::feedback::attachments::FeedbackAttachmentPath;
use codex_kit::feedback::ids::split_compound_appgen_version_id;
use codex_kit::feedback::ids::valid_appgen_id;
use codex_kit::feedback::ids::valid_prefixed_hex_id;
use codex_kit::feedback::tags::appgen_feedback_tags;
use codex_kit::feedback::tags::JsonValue;
use codex_kit::feedback::tags::ThreadItem;
use codex_kit::feedback::tags::Turn;
use codex_kit::feedback::threads::fallback_listing;
use codex_kit::feedback::threads::select_feedback_threads;
use codex_kit::feedback::upload::finish_upload;
use codex_kit::feedback::upload::next_upload_state;
use codex_kit::feedback::upload::resolve_rollout_path;
use codex_kit::feedback::upload::stored_rollout;
use codex_kit::feedback::upload::tags_to_upload;
use codex_kit::feedback::upload::upload_feedback_response;
use codex_kit::feedback::upload::DoctorReport;
use codex_kit::feedback::upload::FeedbackErrorKind;
use codex_kit::feedback::upload::FeedbackReport;
use codex_kit::feedback::upload::FeedbackSetting;
use codex_kit::feedback::upload::FeedbackUploadParams;
use codex_kit::feedback::upload::LiveHistory;
use codex_kit::feedback::upload::RolloutLookup;
use codex_kit::feedback::upload::SandboxLog;
use codex_kit::feedback::upload::UploadEvent;
use codex_kit::feedback::upload::UploadState;
use codex_kit::path::LocalPath;
use codex_kit::text_map::TextMap;

const APPS: &str = "codex_apps";
const PROJECT_ID: &str = "appgprj_6a239a76a4b08191986eb3712f427df9";
const VERSION_ID: &str =
    "appgprj_6a239a76a4b08191986eb3712f427df9~appgver_a24820415a508191a28bd3a66b59b3f9";
const DEPLOYMENT_ID: &str = "appgdep_6a1f3df81a0c81919722b3bd1ec5c657";

fn text(value: &str) -> JsonValue {
    JsonValue::Text(value.to_string())
}

fn object(fields: Vec<(&str, JsonValue)>) -> JsonValue {
    JsonValue::Object(
        fields
            .into_iter()
            .map(|(key, value)| (key.to_string(), value))
            .collect(),
    )
}

fn mcp_call(server: &str, arguments: JsonValue, returned: bool) -> Turn {
    Turn {
        items: vec![
            ThreadItem::Other,
            ThreadItem::McpToolCall {
                server: server.to_string(),
                arguments,
                returned,
            },
        ],
    }
}

fn legacy_mcp_call(arguments: JsonValue) -> Turn {
    mcp_call(APPS, arguments, true)
}

fn listed(map: &TextMap) -> Vec<(&str, &str)> {
    map.entries()
        .iter()
        .map(|(key, value)| (key.as_str(), value.as_str()))
        .collect()
}

fn tag_map(pairs: &[(&str, &str)]) -> TextMap {
    let mut map = TextMap::new();
    for (key, value) in pairs {
        map.insert(key.to_string(), value.to_string());
    }
    map
}

fn path(text: &str) -> LocalPath {
    LocalPath::from_text(text)
}

fn deploy_history() -> Vec<Turn> {
    vec![legacy_mcp_call(object(vec![
        ("project_id", text(PROJECT_ID)),
        ("version_id", text(VERSION_ID)),
        ("deployment_id", text(DEPLOYMENT_ID)),
    ]))]
}

fn setting(feedback_enabled: bool, has_state_db: bool) -> FeedbackSetting {
    FeedbackSetting {
        feedback_enabled,
        has_state_db,
        windows: false,
        apps_server_name: APPS.to_string(),
    }
}

fn params(thread_id: Option<&str>, include_logs: bool, tags: Option<TextMap>) -> FeedbackUploadParams {
    FeedbackUploadParams {
        classification: "bug".to_string(),
        reason: Some("Sites feedback correlation E2E".to_string()),
        thread_id: thread_id.map(str::to_string),
        include_logs,
        extra_log_files: None,
        tags,
    }
}

fn sandbox_log() -> SandboxLog {
    SandboxLog {
        path: path("/s"),
        is_file: true,
        filename: "n".to_string(),
    }
}

fn parsed(state: UploadState, thread: &str) -> UploadState {
    next_upload_state(state, UploadEvent::ThreadParsed(Ok(thread.to_string())))
}

fn snapshot(state: UploadState) -> UploadState {
    next_upload_state(state, UploadEvent::SnapshotTaken("snapshot".to_string()))
}

fn logs(state: UploadState) -> UploadState {
    next_upload_state(snapshot(state), UploadEvent::LogsFlushed)
}

fn gathered(state: UploadState) -> FeedbackReport {
    report(snapshot(state))
}

fn report(state: UploadState) -> FeedbackReport {
    match state {
        UploadState::Upload { report } => report,
        _ => panic!("the report should be ready"),
    }
}

#[test]
fn appgen_feedback_tags_collect_latest_ids_from_persisted_calls() {
    let turns = vec![
        legacy_mcp_call(object(vec![
            ("project_id", text(PROJECT_ID)),
            ("version_id", text(VERSION_ID)),
        ])),
        mcp_call(
            APPS,
            object(vec![
                ("project_id", text(PROJECT_ID)),
                ("deployment_id", text(DEPLOYMENT_ID)),
            ]),
            true,
        ),
        mcp_call(
            APPS,
            object(vec![(
                "project_id",
                text("appgprj_ffffffffffffffffffffffffffffffff"),
            )]),
            false,
        ),
    ];
    assert_eq!(
        listed(&appgen_feedback_tags(&turns, APPS)),
        vec![
            ("deployment_id", DEPLOYMENT_ID),
            ("project_id", PROJECT_ID),
            ("version_id", VERSION_ID),
        ]
    );
}

#[test]
fn appgen_feedback_tags_clear_ids_when_the_project_changes() {
    let turns = vec![
        legacy_mcp_call(object(vec![
            ("project_id", text("appgprj_00000000000000000000000000000000")),
            (
                "version_id",
                text("appgprj_00000000000000000000000000000000~appgver_a24820415a508191a28bd3a66b59b3f9"),
            ),
        ])),
        legacy_mcp_call(object(vec![
            ("project_id", text(PROJECT_ID)),
            (
                "version_id",
                text("appgprj_00000000000000000000000000000000~appgver_a24820415a508191a28bd3a66b59b3f9"),
            ),
            ("deployment_id", text("appgdep_6a1f3df81a0c81919722b3bd1ec5c657")),
        ])),
    ];
    assert_eq!(
        listed(&appgen_feedback_tags(&turns, APPS)),
        vec![
            ("deployment_id", "appgdep_6a1f3df81a0c81919722b3bd1ec5c657"),
            ("project_id", PROJECT_ID),
        ]
    );
}

#[test]
fn appgen_feedback_tags_keep_projectless_calls_as_standalone_context() {
    let turns = vec![
        legacy_mcp_call(object(vec![
            ("project_id", text("appgprj_00000000000000000000000000000000")),
            ("version_id", text("appgver_a24820415a508191a28bd3a66b59b3f9")),
        ])),
        legacy_mcp_call(object(vec![("deployment_id", text(DEPLOYMENT_ID))])),
    ];
    assert_eq!(
        listed(&appgen_feedback_tags(&turns, APPS)),
        vec![("deployment_id", DEPLOYMENT_ID)]
    );
}

#[test]
fn appgen_feedback_tags_ignore_untrusted_shapes_and_values() {
    let turns = vec![
        legacy_mcp_call(object(vec![
            (
                "project_id",
                object(vec![("nested", text("appgprj_6a239a76a4b08191986eb3712f427df9"))]),
            ),
            ("version_id", text("version-4")),
            ("deployment_id", text("appgdep_not-hex")),
        ])),
        mcp_call(
            "custom_server",
            object(vec![(
                "project_id",
                text("appgprj_6a239a76a4b08191986eb3712f427df9"),
            )]),
            true,
        ),
        legacy_mcp_call(object(vec![
            (
                "nested",
                object(vec![(
                    "project_id",
                    text("appgprj_6a239a76a4b08191986eb3712f427df9"),
                )]),
            ),
            (
                "project_id",
                text(&format!("appgprj_{}", "a".repeat(65))),
            ),
        ])),
        legacy_mcp_call(JsonValue::Other),
    ];
    assert!(appgen_feedback_tags(&turns, APPS).is_empty());
}

#[test]
fn a_project_takes_over_projectless_tags() {
    let turns = vec![
        legacy_mcp_call(object(vec![("deployment_id", text(DEPLOYMENT_ID))])),
        legacy_mcp_call(object(vec![("project_id", text(PROJECT_ID))])),
    ];
    assert_eq!(
        listed(&appgen_feedback_tags(&turns, APPS)),
        vec![("project_id", PROJECT_ID)]
    );
}

#[test]
fn identifiers() {
    assert!(valid_prefixed_hex_id("appgprj_0aF", "appgprj_"));
    assert!(!valid_prefixed_hex_id("appgprj_", "appgprj_"));
    assert!(!valid_prefixed_hex_id("appgprj_g", "appgprj_"));
    assert!(!valid_prefixed_hex_id("appgdep_0", "appgprj_"));
    let longest = format!("appgprj_{}", "a".repeat(64));
    assert!(valid_prefixed_hex_id(&longest, "appgprj_"));
    assert_eq!(
        split_compound_appgen_version_id("appgprj_1~appgver_2"),
        Some(("appgprj_1", "appgver_2"))
    );
    assert_eq!(split_compound_appgen_version_id("appgprj_1~appgver_2~x"), None);
    assert_eq!(split_compound_appgen_version_id("appgver_2"), None);
    assert!(valid_appgen_id("version_id", "appgver_", "appgprj_1~appgver_2"));
    assert!(!valid_appgen_id("project_id", "appgprj_", "appgprj_1~appgver_2"));
}

#[test]
fn small_trees_are_taken_whole() {
    let listing = vec!["c".to_string(), "a".to_string(), "r".to_string()];
    assert_eq!(select_feedback_threads("r", &listing), vec!["r", "a", "c"]);
    assert_eq!(select_feedback_threads("r", &Vec::new()), vec!["r"]);
}

#[test]
fn large_trees_keep_the_most_recent_descendants() {
    let mut listing: Vec<String> = (0..9).rev().map(|i| format!("t{i}")).collect();
    listing.push("r".to_string());
    assert_eq!(
        select_feedback_threads("r", &listing),
        vec!["r", "t2", "t3", "t4", "t5", "t6", "t7", "t8"]
    );
}

#[test]
fn stored_descendants_stand_in() {
    assert_eq!(
        fallback_listing("r", Some(vec!["b".to_string()]), None),
        vec!["r", "b"]
    );
    assert_eq!(
        fallback_listing("r", None, Some(vec!["c".to_string()])),
        vec!["r", "c"]
    );
}

#[test]
fn attachments_are_kept_once() {
    let mut list: Vec<FeedbackAttachmentPath> = Vec::new();
    for (file, name) in [("/a/b", None), ("/a//./b", Some("x")), ("/a/c", Some("y"))] {
        attach(
            &mut list,
            FeedbackAttachmentPath {
                path: path(file),
                attachment_filename_override: name.map(str::to_string),
            },
        );
    }
    assert_eq!(
        list,
        vec![
            FeedbackAttachmentPath {
                path: path("/a/b"),
                attachment_filename_override: None,
            },
            FeedbackAttachmentPath {
                path: path("/a/c"),
                attachment_filename_override: Some("y".to_string()),
            },
        ]
    );
    assert_eq!(
        auto_review_rollout_filename("t1"),
        "auto-review-rollout-t1.jsonl"
    );
}

#[test]
fn sandbox_log_is_attached_where_it_is_a_file() {
    assert_eq!(
        windows_sandbox_log_attachment(false, path("/s.log"), true, "windows-sandbox.log"),
        None
    );
    assert_eq!(
        windows_sandbox_log_attachment(true, path("/s.log"), true, "windows-sandbox.log"),
        Some(FeedbackAttachmentPath {
            path: path("/s.log"),
            attachment_filename_override: Some("windows-sandbox.log".to_string()),
        })
    );
    assert_eq!(
        windows_sandbox_log_attachment(true, path("/s.log"), false, "windows-sandbox.log"),
        None
    );
}

#[test]
fn stored_histories_are_looked_up() {
    assert!(matches!(
        resolve_rollout_path(Some(path("/r")), true),
        RolloutLookup::Found(found) if found == path("/r")
    ));
    assert!(matches!(
        resolve_rollout_path(None, true),
        RolloutLookup::AskStateDb
    ));
    assert!(matches!(
        resolve_rollout_path(None, false),
        RolloutLookup::NotFound
    ));
    assert_eq!(stored_rollout(Ok(Some(path("/r")))), Some(path("/r")));
    assert_eq!(stored_rollout(Err("down".to_string())), None);
}

#[test]
fn feedback_that_is_disabled_is_refused() {
    match upload_feedback_response(params(Some("x"), true, None), setting(false, true)) {
        UploadState::Done { result: Err(error) } => {
            assert_eq!(error.kind, FeedbackErrorKind::InvalidRequest);
            assert_eq!(error.message, "sending feedback is disabled by configuration");
        }
        _ => panic!("the request should be refused"),
    }
}

#[test]
fn invalid_thread_ids_are_refused() {
    let state = upload_feedback_response(params(Some("x"), false, None), setting(true, true));
    match next_upload_state(state, UploadEvent::ThreadParsed(Err("bad uuid".to_string()))) {
        UploadState::Done { result: Err(error) } => {
            assert_eq!(error.kind, FeedbackErrorKind::InvalidRequest);
            assert_eq!(error.message, "invalid thread id: bad uuid");
        }
        _ => panic!("the request should be refused"),
    }
}

#[test]
fn feedback_upload_projects_cold_and_live_history_into_tags() {
    let expected = vec![
        ("deployment_id", DEPLOYMENT_ID),
        ("project_id", PROJECT_ID),
        ("version_id", VERSION_ID),
    ];

    let state = upload_feedback_response(params(Some("t"), false, None), setting(true, true));
    let state = parsed(state, "t");
    let state = next_upload_state(state, UploadEvent::LiveHistory(LiveHistory::NotLive));
    let state = next_upload_state(state, UploadEvent::RolloutResolved(Some(path("/r"))));
    let state = next_upload_state(state, UploadEvent::StoredHistory(Some(deploy_history())));
    assert_eq!(listed(&gathered(state).tags), expected);

    let state = upload_feedback_response(params(Some("t"), false, None), setting(true, true));
    let state = parsed(state, "t");
    let state = next_upload_state(
        state,
        UploadEvent::LiveHistory(LiveHistory::Loaded(deploy_history())),
    );
    assert_eq!(listed(&gathered(state).tags), expected);

    let caller_project_id = "appgprj_ffffffffffffffffffffffffffffffff";
    let tags = tag_map(&[("project_id", caller_project_id)]);
    let state = upload_feedback_response(params(Some("t"), false, Some(tags)), setting(true, true));
    let state = parsed(state, "t");
    assert_eq!(
        listed(&gathered(state).tags),
        vec![("project_id", caller_project_id)]
    );

    let state = upload_feedback_response(params(None, false, None), setting(true, true));
    assert!(tags_to_upload(&gathered(state).tags).is_none());
}

#[test]
fn unreadable_histories_give_no_tags() {
    let start = || {
        parsed(
            upload_feedback_response(params(Some("t"), false, None), setting(true, true)),
            "t",
        )
    };
    let state = next_upload_state(
        start(),
        UploadEvent::LiveHistory(LiveHistory::Unreadable),
    );
    assert!(gathered(state).tags.is_empty());
    let state = next_upload_state(start(), UploadEvent::LiveHistory(LiveHistory::NotLive));
    let state = next_upload_state(state, UploadEvent::RolloutResolved(None));
    assert!(gathered(state).tags.is_empty());
    let state = next_upload_state(start(), UploadEvent::LiveHistory(LiveHistory::NotLive));
    let state = next_upload_state(state, UploadEvent::RolloutResolved(Some(path("/r"))));
    let state = next_upload_state(state, UploadEvent::StoredHistory(None));
    assert!(gathered(state).tags.is_empty());
}

#[test]
fn a_full_report_is_gathered() {
    let mut request = params(Some("T"), true, Some(tag_map(&[("project_id", "p"), ("k", "v")])));
    request.extra_log_files = Some(vec![path("/extra"), path("/r1")]);
    let state = upload_feedback_response(request, setting(true, true));
    let state = logs(parsed(state, "t"));
    assert!(matches!(&state, UploadState::ListSubtree { thread, .. } if thread == "t"));
    let state = next_upload_state(state, UploadEvent::SubtreeListed(None));
    let state = next_upload_state(state, UploadEvent::DescendantsListed(None));
    let state = next_upload_state(
        state,
        UploadEvent::DescendantsListed(Some(vec!["u".to_string()])),
    );
    match &state {
        UploadState::QueryLogs { report } => assert_eq!(report.threads, vec!["t", "u"]),
        _ => panic!("the logs should be read"),
    }
    let state = next_upload_state(state, UploadEvent::LogsRead(Some(vec![1, 2])));
    let state = next_upload_state(state, UploadEvent::RolloutResolved(Some(path("/r1"))));
    assert!(matches!(&state, UploadState::FindRollout { next: 1, .. }));
    let state = next_upload_state(state, UploadEvent::RolloutResolved(None));
    let state = next_upload_state(state, UploadEvent::GuardianFound(Some(path("/g"))));
    let state = next_upload_state(state, UploadEvent::SandboxLogFound(None));
    let state = next_upload_state(
        state,
        UploadEvent::DoctorReported(Some(DoctorReport {
            attachment: vec![9],
            tags: tag_map(&[("k", "other"), ("d", "x")]),
        })),
    );
    match &state {
        UploadState::Upload { report } => {
            assert_eq!(
                listed(&report.tags),
                vec![("d", "x"), ("k", "v"), ("project_id", "p")]
            );
            assert_eq!(report.logs_override, Some(vec![1, 2]));
            assert_eq!(report.doctor_attachment, Some(vec![9]));
            let files: Vec<(&LocalPath, Option<&str>)> = report
                .attachment_paths
                .iter()
                .map(|item| (&item.path, item.attachment_filename_override.as_deref()))
                .collect();
            assert_eq!(
                files,
                vec![
                    (&path("/r1"), None),
                    (&path("/g"), Some("auto-review-rollout-t.jsonl")),
                    (&path("/extra"), None),
                ]
            );
        }
        _ => panic!("the report should be ready"),
    }
    match next_upload_state(state, UploadEvent::Uploaded(Ok(()))) {
        UploadState::Done { result: Ok(thread) } => assert_eq!(thread, "snapshot"),
        _ => panic!("the upload should be done"),
    }
}

#[test]
fn failed_uploads_are_told() {
    let state = snapshot(upload_feedback_response(
        params(None, false, None),
        setting(true, false),
    ));
    match next_upload_state(state, UploadEvent::Uploaded(Err("no network".to_string()))) {
        UploadState::Done { result: Err(error) } => {
            assert_eq!(error.kind, FeedbackErrorKind::Internal);
            assert_eq!(error.message, "failed to upload feedback: no network");
        }
        _ => panic!("the failure should be told"),
    }
}

#[test]
fn reports_without_a_thread_or_database() {
    let state = logs(upload_feedback_response(
        params(None, true, None),
        setting(true, false),
    ));
    assert!(matches!(&state, UploadState::FindSandboxLog { .. }));
    let state = next_upload_state(state, UploadEvent::LogsRead(None));
    let state = next_upload_state(
        state,
        UploadEvent::SandboxLogFound(Some(sandbox_log())),
    );
    let state = next_upload_state(state, UploadEvent::DoctorReported(None));
    assert!(report(state).attachment_paths.is_empty());

    let tags = tag_map(&[("version_id", "given")]);
    let state = upload_feedback_response(params(Some("t"), true, Some(tags)), setting(true, false));
    let state = next_upload_state(logs(parsed(state, "t")), UploadEvent::SubtreeListed(None));
    match &state {
        UploadState::FindRollout { report, next: 0 } => assert_eq!(report.threads, vec!["t"]),
        _ => panic!("the history should be looked for"),
    }
}

#[test]
fn outcomes_of_uploads() {
    assert_eq!(finish_upload("s".to_string(), Ok(())), Ok("s".to_string()));
    let error = finish_upload("s".to_string(), Err("x".to_string())).expect_err("failed");
    assert_eq!(error.message, "failed to upload feedback: x");
}

#[test]
fn sandbox_logs_go_along_on_windows() {
    let on_windows = FeedbackSetting {
        windows: true,
        ..setting(true, false)
    };
    let state = logs(upload_feedback_response(params(None, true, None), on_windows));
    let state = next_upload_state(state, UploadEvent::SandboxLogFound(Some(sandbox_log())));
    let state = next_upload_state(state, UploadEvent::DoctorReported(None));
    assert_eq!(
        report(state).attachment_paths,
        vec![FeedbackAttachmentPath {
            path: path("/s"),
            attachment_filename_override: Some("n".to_string()),
        }]
    );
}

#[test]
fn empty_logs_are_dropped() {
    let tags = tag_map(&[("version_id", "given")]);
    let state = upload_feedback_response(params(Some("t"), true, Some(tags)), setting(true, true));
    let state = logs(parsed(state, "t"));
    let state = next_upload_state(
        state,
        UploadEvent::SubtreeListed(Some(vec!["t".to_string()])),
    );
    let state = next_upload_state(state, UploadEvent::LogsRead(Some(Vec::new())));
    match state {
        UploadState::FindRollout { report, .. } => assert_eq!(report.logs_override, None),
        _ => panic!("the history should be looked for"),
    }
}
