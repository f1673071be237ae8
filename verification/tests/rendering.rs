use gogs_cli::aggregate::RepoIssues;
use gogs_cli::output::{
    format_created_comment, format_created_issue, format_issue_detail, format_issue_list,
    format_issue_updated, format_label_operation, format_repo_list, OutputFormat,
};
use gogs_cli::types::{Comment, Issue, Label, Repository, User};

fn user(name: &str) -> User {
    User {
        id: 9,
        username: name.to_string(),
        full_name: Some("Alice Smith".to_string()),
        email: None,
    }
}

fn label(id: i64, name: &str) -> Label {
    Label {
        id,
        name: name.to_string(),
        color: "#00ff00".to_string(),
    }
}

fn issue(number: i64, title: &str, labels: Vec<Label>) -> Issue {
    Issue {
        id: number * 10,
        number,
        title: title.to_string(),
        body: Some("details".to_string()),
        user: user("alice"),
        labels,
        state: "open".to_string(),
        comments: 1,
        created_at: "2024-01-01T00:00:00Z".to_string(),
        updated_at: "2024-01-02T00:00:00Z".to_string(),
        html_url: "https://example.com/i/1".to_string(),
    }
}

#[test]
fn empty_result_renders_no_issues_found() {
    let human = format_issue_list(vec![], &OutputFormat::Human);
    assert_eq!(human, "\nNo issues found.\n");
}

#[test]
fn empty_result_renders_empty_json_array() {
    let json = format_issue_list(vec![], &OutputFormat::Json);
    assert_eq!(json, "[]");
}

#[test]
fn issue_list_human_layout_is_exact() {
    let entries = vec![
        RepoIssues {
            repo_full_name: "org/alpha".to_string(),
            issues: vec![
                issue(7, "Fix crash", vec![label(1, "bug"), label(2, "urgent")]),
                issue(12345, "Huge number", vec![]),
            ],
        },
        RepoIssues {
            repo_full_name: "org/beta".to_string(),
            issues: vec![issue(2, "Tidy docs", vec![])],
        },
    ];
    let human = format_issue_list(entries, &OutputFormat::Human);
    let expected = "\norg/alpha\n\
                    \x20\x20#7    [open] [bug] [urgent] Fix crash\n\
                    \x20\x20#12345 [open] Huge number\n\
                    \norg/beta\n\
                    \x20\x20#2    [open] Tidy docs\n\
                    \nTotal: 3 issue(s) across 2 repo(s)\n";
    assert_eq!(human, expected);
}

#[test]
fn issue_list_json_is_valid_and_carries_repo_field() {
    let entries = vec![RepoIssues {
        repo_full_name: "org/alpha".to_string(),
        issues: vec![issue(7, "Fix crash", vec![label(1, "bug")])],
    }];
    let json = format_issue_list(entries, &OutputFormat::Json);
    let value: serde_json::Value = serde_json::from_str(&json).expect("valid JSON");
    let arr = value.as_array().expect("array");
    assert_eq!(arr.len(), 1);
    assert_eq!(arr[0]["repo"], "org/alpha");
    assert_eq!(arr[0]["number"], 7);
    assert_eq!(arr[0]["title"], "Fix crash");
    assert_eq!(arr[0]["labels"][0]["name"], "bug");
    assert_eq!(arr[0]["user"]["username"], "alice");
    assert_eq!(arr[0]["user"]["email"], serde_json::Value::Null);
}

#[test]
fn json_strings_are_escaped() {
    let mut it = issue(1, "", vec![]);
    it.title = "a\"b\\c\nd\te\u{8}f\u{1}g".to_string();
    let entries = vec![RepoIssues {
        repo_full_name: "o/r".to_string(),
        issues: vec![it],
    }];
    let json = format_issue_list(entries, &OutputFormat::Json);
    let value: serde_json::Value = serde_json::from_str(&json).expect("valid JSON");
    assert_eq!(value[0]["title"], "a\"b\\c\nd\te\u{8}f\u{1}g");
}

#[test]
fn issue_detail_human_layout_is_exact() {
    let it = issue(3, "Odd case", vec![label(1, "bug"), label(2, "ui")]);
    let comments = vec![Comment {
        id: 1,
        body: "looking into it".to_string(),
        user: user("bob"),
        created_at: "2024-02-01T10:00:00Z".to_string(),
        updated_at: "2024-02-01T10:00:00Z".to_string(),
    }];
    let human = format_issue_detail(&it, &comments, &OutputFormat::Human);
    let expected = "#3 Odd case\n\
                    State: open\n\
                    Author: alice\n\
                    Created: 2024-01-01T00:00:00Z\n\
                    Updated: 2024-01-02T00:00:00Z\n\
                    Labels: bug, ui\n\
                    URL: https://example.com/i/1\n\
                    \ndetails\n\
                    \n--- 1 comment(s) ---\n\
                    \n@bob (2024-02-01T10:00:00Z)\nlooking into it\n";
    assert_eq!(human, expected);
}

#[test]
fn issue_detail_json_holds_comment_list() {
    let it = issue(3, "Odd case", vec![]);
    let comments = vec![Comment {
        id: 1,
        body: "hi".to_string(),
        user: user("bob"),
        created_at: "t1".to_string(),
        updated_at: "t2".to_string(),
    }];
    let json = format_issue_detail(&it, &comments, &OutputFormat::Json);
    let value: serde_json::Value = serde_json::from_str(&json).expect("valid JSON");
    assert_eq!(value["number"], 3);
    assert_eq!(value["comment_list"][0]["body"], "hi");
    assert_eq!(value["comment_list"][0]["user"]["username"], "bob");
}

#[test]
fn repo_list_human_layout_is_exact() {
    let repos = vec![
        Repository {
            id: 1,
            name: "alpha".to_string(),
            full_name: "org/alpha".to_string(),
            owner: user("alice"),
            description: Some("The first one".to_string()),
            private: true,
            html_url: "https://example.com/org/alpha".to_string(),
            clone_url: "https://example.com/org/alpha.git".to_string(),
        },
        Repository {
            id: 2,
            name: "beta".to_string(),
            full_name: "org/beta".to_string(),
            owner: user("alice"),
            description: None,
            private: false,
            html_url: "https://example.com/org/beta".to_string(),
            clone_url: "https://example.com/org/beta.git".to_string(),
        },
    ];
    let human = format_repo_list(&repos, &OutputFormat::Human);
    let expected = "Found 2 repository(ies):\n\n\
                    \x20\x20org/alpha [private]\n\
                    \x20\x20\x20\x20The first one\n\
                    \x20\x20org/beta [public]\n";
    assert_eq!(human, expected);
}

#[test]
fn empty_repo_list_human() {
    let repos: Vec<Repository> = vec![];
    let human = format_repo_list(&repos, &OutputFormat::Human);
    assert_eq!(human, "No repositories found.\n");
    let json = format_repo_list(&repos, &OutputFormat::Json);
    assert_eq!(json, "[]");
}

#[test]
fn created_and_updated_messages_are_exact() {
    let it = issue(11, "New thing", vec![]);
    assert_eq!(
        format_created_issue(&it, &OutputFormat::Human),
        "Created issue #11: New thing\nURL: https://example.com/i/1\n"
    );
    assert_eq!(
        format_issue_updated(&it, "closed", &OutputFormat::Human),
        "Issue #11 closed: New thing\n"
    );
    let c = Comment {
        id: 5,
        body: "done".to_string(),
        user: user("carol"),
        created_at: "2024-03-01T00:00:00Z".to_string(),
        updated_at: "2024-03-01T00:00:00Z".to_string(),
    };
    assert_eq!(
        format_created_comment(&c, &OutputFormat::Human),
        "Comment added by @carol at 2024-03-01T00:00:00Z\n"
    );
}

#[test]
fn label_operation_messages_are_exact() {
    assert_eq!(
        format_label_operation("bug", 42, false, &OutputFormat::Human),
        "Label 'bug' added to issue #42"
    );
    assert_eq!(
        format_label_operation("bug", 42, true, &OutputFormat::Human),
        "Label 'bug' removed from issue #42"
    );
    assert_eq!(
        format_label_operation("bug", 42, false, &OutputFormat::Json),
        "{\"status\": \"success\", \"label\": \"bug\", \"issue\": 42}"
    );
}
