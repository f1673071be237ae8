use gogs_cli::aggregate::{aggregate, filter_issues, AggregationResult, FetchOutcome, RepoFetch};
use gogs_cli::output::{format_issue_list, format_issues_human, OutputFormat};
use gogs_cli::types::{Issue, Label, User};

fn user(name: &str) -> User {
    User {
        id: 1,
        username: name.to_string(),
        full_name: None,
        email: None,
    }
}

fn label(id: i64, name: &str) -> Label {
    Label {
        id,
        name: name.to_string(),
        color: "#ff0000".to_string(),
    }
}

fn issue(number: i64, title: &str, labels: Vec<Label>) -> Issue {
    Issue {
        id: number * 10,
        number,
        title: title.to_string(),
        body: None,
        user: user("alice"),
        labels,
        state: "open".to_string(),
        comments: 0,
        created_at: "2024-01-01T00:00:00Z".to_string(),
        updated_at: "2024-01-02T00:00:00Z".to_string(),
        html_url: "https://example.com/i".to_string(),
    }
}

fn success(name: &str, issues: Vec<Issue>) -> RepoFetch {
    RepoFetch {
        repo_full_name: name.to_string(),
        outcome: FetchOutcome::Success(issues),
    }
}

fn failure(name: &str, reason: &str) -> RepoFetch {
    RepoFetch {
        repo_full_name: name.to_string(),
        outcome: FetchOutcome::Failure(reason.to_string()),
    }
}

#[test]
fn filter_keeps_matching_issues_case_insensitively() {
    let issues = vec![
        issue(1, "crash", vec![label(1, "bug")]),
        issue(2, "idea", vec![label(2, "enhancement")]),
        issue(3, "slow", vec![label(3, "BUG"), label(4, "perf")]),
    ];
    let filter = vec!["Bug".to_string()];
    let kept = filter_issues(issues, &filter);
    assert_eq!(kept.len(), 2);
    assert_eq!(kept[0].number, 1);
    assert_eq!(kept[1].number, 3);
}

#[test]
fn filter_is_a_disjunction_across_terms() {
    let issues = vec![
        issue(1, "crash", vec![label(1, "bug")]),
        issue(2, "idea", vec![label(2, "enhancement")]),
        issue(3, "docs", vec![label(3, "documentation")]),
    ];
    let filter = vec!["bug".to_string(), "DOCUMENTATION".to_string()];
    let kept = filter_issues(issues, &filter);
    assert_eq!(kept.len(), 2);
    assert_eq!(kept[0].number, 1);
    assert_eq!(kept[1].number, 3);
}

#[test]
fn empty_filter_is_identity() {
    let issues = vec![
        issue(1, "crash", vec![label(1, "bug")]),
        issue(2, "bare", vec![]),
    ];
    let filter: Vec<String> = vec![];
    let kept = filter_issues(issues, &filter);
    assert_eq!(kept.len(), 2);
    assert_eq!(kept[0].number, 1);
    assert_eq!(kept[1].number, 2);
}

#[test]
fn aggregate_sorts_entries_by_full_name() {
    let outcomes = vec![
        success("zeta/late", vec![issue(1, "a", vec![])]),
        success("alpha/early", vec![issue(2, "b", vec![])]),
        success("mid/way", vec![issue(3, "c", vec![])]),
    ];
    let filter: Vec<String> = vec![];
    let r = aggregate(outcomes, &filter);
    let names: Vec<&str> = r.entries.iter().map(|e| e.repo_full_name.as_str()).collect();
    assert_eq!(names, vec!["alpha/early", "mid/way", "zeta/late"]);
    assert!(r.warnings.is_empty());
}

#[test]
fn aggregate_result_is_independent_of_arrival_order() {
    let make = |order: &[usize]| -> AggregationResult {
        let fetches: Vec<RepoFetch> = order
            .iter()
            .map(|&k| match k {
                0 => success("o/a", vec![issue(1, "first", vec![label(1, "bug")])]),
                1 => success("o/b", vec![issue(2, "second", vec![])]),
                _ => success("o/c", vec![issue(3, "third", vec![label(2, "bug")])]),
            })
            .collect();
        let filter: Vec<String> = vec![];
        aggregate(fetches, &filter)
    };
    let one = make(&[0, 1, 2]);
    let other = make(&[2, 0, 1]);
    let render_one = format_issues_human(one.entries);
    let render_other = format_issues_human(other.entries);
    assert_eq!(render_one, render_other);
}

#[test]
fn failed_repository_yields_one_warning_and_no_entry() {
    let outcomes = vec![
        success("o/a", vec![issue(1, "fine", vec![])]),
        failure("o/b", "connection timed out"),
    ];
    let filter: Vec<String> = vec![];
    let r = aggregate(outcomes, &filter);
    assert_eq!(r.warnings.len(), 1);
    assert_eq!(
        r.warnings[0],
        "Warning: Failed to list issues for o/b: connection timed out"
    );
    assert_eq!(r.entries.len(), 1);
    assert_eq!(r.entries[0].repo_full_name, "o/a");
    let json = format_issue_list(r.entries, &OutputFormat::Json);
    assert!(!json.contains("o/b"));
}

#[test]
fn repositories_without_surviving_issues_are_dropped() {
    let outcomes = vec![
        success("o/a", vec![issue(1, "bugged", vec![label(1, "bug")])]),
        success("o/b", vec![issue(2, "plain", vec![])]),
        success("o/c", vec![]),
    ];
    let filter = vec!["bug".to_string()];
    let r = aggregate(outcomes, &filter);
    assert_eq!(r.entries.len(), 1);
    assert_eq!(r.entries[0].repo_full_name, "o/a");
}

#[test]
fn filtering_preserves_issue_order() {
    let issues = vec![
        issue(5, "e", vec![label(1, "bug")]),
        issue(2, "b", vec![]),
        issue(9, "i", vec![label(2, "Bug")]),
        issue(1, "a", vec![label(3, "bug")]),
    ];
    let filter = vec!["bug".to_string()];
    let kept = filter_issues(issues, &filter);
    let numbers: Vec<i64> = kept.iter().map(|i| i.number).collect();
    assert_eq!(numbers, vec![5, 9, 1]);
}

#[test]
fn json_array_flattens_entries_in_sorted_order() {
    let outcomes = vec![
        success("o/b", vec![issue(2, "second", vec![])]),
        success("o/a", vec![issue(1, "first", vec![]), issue(3, "third", vec![])]),
    ];
    let filter: Vec<String> = vec![];
    let r = aggregate(outcomes, &filter);
    let json = format_issue_list(r.entries, &OutputFormat::Json);
    let value: serde_json::Value = serde_json::from_str(&json).expect("valid JSON");
    let arr = value.as_array().expect("array");
    let order: Vec<(String, i64)> = arr
        .iter()
        .map(|v| {
            (
                v["repo"].as_str().unwrap().to_string(),
                v["number"].as_i64().unwrap(),
            )
        })
        .collect();
    assert_eq!(
        order,
        vec![
            ("o/a".to_string(), 1),
            ("o/a".to_string(), 3),
            ("o/b".to_string(), 2)
        ]
    );
}

#[test]
fn fan_out_scenario_with_partial_failure() {
    // Three repositories; the middle one fails; the others return two
    // issues each, one of which carries the filtered label.
    let outcomes = vec![
        success(
            "org/alpha",
            vec![
                issue(1, "broken build", vec![label(1, "bug")]),
                issue(2, "nice to have", vec![label(2, "enhancement")]),
            ],
        ),
        failure("org/beta", "boom"),
        success(
            "org/gamma",
            vec![
                issue(3, "plain", vec![]),
                issue(4, "docs", vec![label(3, "documentation")]),
            ],
        ),
    ];
    let filter = vec!["bug".to_string()];
    let r = aggregate(outcomes, &filter);
    assert_eq!(r.warnings.len(), 1);
    assert_eq!(r.warnings[0], "Warning: Failed to list issues for org/beta: boom");
    assert_eq!(r.entries.len(), 1);
    assert_eq!(r.entries[0].repo_full_name, "org/alpha");
    assert_eq!(r.entries[0].issues.len(), 1);
    assert_eq!(r.entries[0].issues[0].number, 1);
    let human = format_issue_list(r.entries, &OutputFormat::Human);
    assert_eq!(
        human,
        "\norg/alpha\n  #1    [open] [bug] broken build\n\nTotal: 1 issue(s) across 1 repo(s)\n"
    );
}
