use gogs_cli::api::{
    add_labels_body, auth_header_value, comment_body, comments_path, create_issue_body,
    issue_label_path, issue_labels_path, issue_path, issues_list_path, normalize_base_url,
    repo_labels_path, request_url, update_issue_body, user_repos_path,
};
use gogs_cli::cli::select_state;
use gogs_cli::config::{build_init_config, parse_repo, Config, Defaults, Profile, ProfileEntry, ServerConfig};
use gogs_cli::error::{classify_status, GogsError};
use gogs_cli::labels::resolve_label;
use gogs_cli::output::{action_for_state, OutputFormat};
use gogs_cli::signature::augment_body;
use gogs_cli::types::Label;

fn label(id: i64, name: &str) -> Label {
    Label {
        id,
        name: name.to_string(),
        color: "#0000ff".to_string(),
    }
}

#[test]
fn signature_is_prepended_to_a_body() {
    assert_eq!(augment_body("[Planner]", Some("working on it")), "[Planner] working on it");
}

#[test]
fn signature_stands_alone_without_a_body() {
    assert_eq!(augment_body("[Planner]", None), "[Planner]");
}

#[test]
fn signature_applied_twice_duplicates() {
    let once = augment_body("[Planner]", Some("text"));
    let twice = augment_body("[Planner]", Some(once.as_str()));
    assert_eq!(twice, "[Planner] [Planner] text");
    assert_ne!(twice, once);
}

#[test]
fn label_resolution_is_case_insensitive() {
    let labels = vec![label(7, "Bug"), label(8, "enhancement")];
    assert_eq!(resolve_label(&labels, "bug").unwrap(), 7);
    assert_eq!(resolve_label(&labels, "BUG").unwrap(), 7);
    assert_eq!(resolve_label(&labels, "ENHANCEMENT").unwrap(), 8);
}

#[test]
fn label_resolution_returns_first_match() {
    let labels = vec![label(1, "bug"), label(2, "BUG")];
    assert_eq!(resolve_label(&labels, "Bug").unwrap(), 1);
}

#[test]
fn absent_label_fails_with_not_found_before_any_mutation() {
    let labels = vec![label(7, "bug")];
    // The resolver is pure: a failed resolution returns before any request
    // body or path for a mutating call exists.
    let err = resolve_label(&labels, "missing").unwrap_err();
    match &err {
        GogsError::NotFound(s) => {
            assert_eq!(s, "Label 'missing' not found in repository");
        }
        other => panic!("expected NotFound, got {:?}", other),
    }
    assert_eq!(err.exit_code(), 2);
    assert_eq!(err.message(), "Resource not found: Label 'missing' not found in repository");
}

#[test]
fn parse_repo_splits_owner_and_name() {
    let (owner, name) = parse_repo("octo/tools").unwrap();
    assert_eq!(owner, "octo");
    assert_eq!(name, "tools");
}

#[test]
fn parse_repo_rejects_malformed_strings() {
    for bad in ["plain", "a/b/c", ""] {
        let err = parse_repo(bad).unwrap_err();
        match &err {
            GogsError::ValidationError(s) => {
                assert_eq!(
                    s,
                    &format!("Invalid repository format. Expected 'owner/repo', got '{}'", bad)
                );
            }
            other => panic!("expected ValidationError, got {:?}", other),
        }
        assert_eq!(err.exit_code(), 1);
    }
}

fn sample_config() -> Config {
    Config {
        server: ServerConfig { url: "https://gogs.example.com".to_string() },
        defaults: Defaults {
            repo: Some("octo/tools".to_string()),
            profile: Some("planner".to_string()),
        },
        profiles: vec![
            ProfileEntry {
                name: "planner".to_string(),
                profile: Profile {
                    gogs_user: "planner-bot".to_string(),
                    token: "SECRET-REDACTED".to_string(),
                    role: "Planning Agent".to_string(),
                    signature: "[Planner]".to_string(),
                },
            },
            ProfileEntry {
                name: "default".to_string(),
                profile: Profile {
                    gogs_user: "human".to_string(),
                    token: "SECRET-REDACTED".to_string(),
                    role: "Human".to_string(),
                    signature: "[Human]".to_string(),
                },
            },
        ],
    }
}

#[test]
fn profile_resolution_prefers_the_explicit_name() {
    let cfg = sample_config();
    assert_eq!(cfg.get_profile(Some("default")).unwrap().gogs_user, "human");
    assert_eq!(cfg.get_profile(None).unwrap().gogs_user, "planner-bot");
}

#[test]
fn missing_profile_is_a_config_error() {
    let cfg = sample_config();
    match cfg.get_profile(Some("ghost")).unwrap_err() {
        GogsError::ConfigError(s) => assert_eq!(s, "Profile 'ghost' not found in config"),
        other => panic!("expected ConfigError, got {:?}", other),
    }
}

#[test]
fn repo_resolution_falls_back_to_the_default() {
    let cfg = sample_config();
    assert_eq!(cfg.get_repo(None).unwrap(), ("octo".to_string(), "tools".to_string()));
    assert_eq!(cfg.get_repo(Some("a/b")).unwrap(), ("a".to_string(), "b".to_string()));
    let mut bare = sample_config();
    bare.defaults.repo = None;
    match bare.get_repo(None).unwrap_err() {
        GogsError::ConfigError(s) => assert_eq!(
            s,
            "Repository not specified. Use --repo owner/name or set defaults.repo in config"
        ),
        other => panic!("expected ConfigError, got {:?}", other),
    }
}

#[test]
fn init_applies_fallbacks_and_validation() {
    let built = build_init_config(
        "https://gogs.example.com/".to_string(),
        "".to_string(),
        "alice".to_string(),
        "SECRET-REDACTED".to_string(),
        "".to_string(),
        "".to_string(),
        "noslash".to_string(),
    )
    .unwrap();
    assert_eq!(built.profiles.len(), 1);
    assert_eq!(built.profiles[0].name, "default");
    assert_eq!(built.profiles[0].profile.role, "Human");
    assert_eq!(built.profiles[0].profile.signature, "[Human]");
    assert_eq!(built.defaults.profile.as_deref(), Some("default"));
    assert!(built.defaults.repo.is_none());

    let with_repo = build_init_config(
        "https://gogs.example.com".to_string(),
        "planner".to_string(),
        "bot".to_string(),
        "SECRET-REDACTED".to_string(),
        "Planning Agent".to_string(),
        "".to_string(),
        "octo/tools".to_string(),
    )
    .unwrap();
    assert_eq!(with_repo.profiles[0].profile.signature, "[Planning Agent]");
    assert_eq!(with_repo.defaults.repo.as_deref(), Some("octo/tools"));

    match build_init_config(
        "".to_string(),
        "p".to_string(),
        "u".to_string(),
        "t".to_string(),
        "r".to_string(),
        "s".to_string(),
        "".to_string(),
    )
    .unwrap_err()
    {
        GogsError::ValidationError(s) => assert_eq!(s, "Server URL cannot be empty"),
        other => panic!("expected ValidationError, got {:?}", other),
    }
}

#[test]
fn state_selection_defaults_to_open() {
    assert_eq!(select_state(false, false), "open");
    assert_eq!(select_state(true, false), "open");
    assert_eq!(select_state(false, true), "closed");
}

#[test]
fn output_format_follows_the_json_flag() {
    assert!(matches!(OutputFormat::from_json_flag(true), OutputFormat::Json));
    assert!(matches!(OutputFormat::from_json_flag(false), OutputFormat::Human));
}

#[test]
fn action_words_for_state_changes() {
    assert_eq!(action_for_state("closed"), "closed");
    assert_eq!(action_for_state("open"), "reopened");
}

#[test]
fn status_codes_map_to_error_classes() {
    match classify_status(401, "ignored") {
        GogsError::AuthError(s) => assert_eq!(s, "Check your API token."),
        other => panic!("expected AuthError, got {:?}", other),
    }
    match classify_status(404, "no such issue") {
        GogsError::NotFound(s) => assert_eq!(s, "no such issue"),
        other => panic!("expected NotFound, got {:?}", other),
    }
    match classify_status(403, "ignored") {
        GogsError::Forbidden(s) => assert_eq!(s, "Check permissions for this resource."),
        other => panic!("expected Forbidden, got {:?}", other),
    }
    match classify_status(500, "boom") {
        GogsError::ApiError(s) => assert_eq!(s, "500: boom"),
        other => panic!("expected ApiError, got {:?}", other),
    }
}

#[test]
fn error_messages_and_exit_codes() {
    let e = GogsError::NetworkError("timed out".to_string());
    assert_eq!(e.message(), "Network error: timed out");
    assert_eq!(e.exit_code(), 1);
    let e = GogsError::JsonError("bad token".to_string());
    assert_eq!(e.message(), "JSON error: bad token");
    let e = GogsError::NotFound("gone".to_string());
    assert_eq!(e.exit_code(), 2);
}

#[test]
fn request_paths_are_exact() {
    assert_eq!(issues_list_path("o", "r", "open"), "/repos/o/r/issues?state=open");
    assert_eq!(issue_path("o", "r", 42), "/repos/o/r/issues/42");
    assert_eq!(comments_path("o", "r", 42), "/repos/o/r/issues/42/comments");
    assert_eq!(repo_labels_path("o", "r"), "/repos/o/r/labels");
    assert_eq!(issue_labels_path("o", "r", 42), "/repos/o/r/issues/42/labels");
    assert_eq!(issue_label_path("o", "r", 42, 7), "/repos/o/r/issues/42/labels/7");
    assert_eq!(user_repos_path(), "/user/repos");
}

#[test]
fn url_assembly_trims_trailing_slashes() {
    assert_eq!(normalize_base_url("https://host//"), "https://host");
    assert_eq!(normalize_base_url("https://host"), "https://host");
    assert_eq!(
        request_url("https://host", "/user/repos"),
        "https://host/api/v1/user/repos"
    );
    assert_eq!(auth_header_value("abc"), "token abc");
}

#[test]
fn request_bodies_serialize_deterministically() {
    assert_eq!(
        create_issue_body("Title", Some("Body"), &vec!["a".to_string(), "b".to_string()]),
        "{\"title\":\"Title\",\"body\":\"Body\",\"labels\":[\"a\",\"b\"]}"
    );
    assert_eq!(create_issue_body("T", None, &vec![]), "{\"title\":\"T\"}");
    assert_eq!(update_issue_body(Some("closed")), "{\"state\":\"closed\"}");
    assert_eq!(update_issue_body(None), "{}");
    assert_eq!(comment_body("hi \"there\""), "{\"body\":\"hi \\\"there\\\"\"}");
    assert_eq!(add_labels_body(&vec![3, 5]), "{\"labels\":[3,5]}");
    let parsed: serde_json::Value = serde_json::from_str(&create_issue_body(
        "T",
        Some("line\nbreak"),
        &vec!["x".to_string()],
    ))
    .expect("valid JSON");
    assert_eq!(parsed["body"], "line\nbreak");
}
