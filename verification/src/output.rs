//! Presentation layer: render aggregation results, issue details and
//! repository lists as stable human-readable text. Rendering is a pure
//! function of already-fetched data.

use vstd::prelude::*;

use crate::aggregate::entry_views;
use crate::aggregate::RepoIssues;
use crate::text::append_i64_padded;
use crate::text::append_u128;
use crate::text::dec_rep;
use crate::text::int_rep;
use crate::text::pad_right;
use crate::types::Comment;
use crate::types::Issue;
use crate::types::Label;
use crate::types::Repository;

verus! {

/// The two output formats every result can be rendered in.
#[derive(Debug, Clone, Copy, PartialEq, Eq, Structural)]
pub enum OutputFormat {
    Human,
    Json,
}

impl OutputFormat {
    /// The format selected by the global JSON flag.
    pub fn from_json_flag(json: bool) -> (r: Self)
        ensures
            r == (if json {
                OutputFormat::Json
            } else {
                OutputFormat::Human
            }),
    {
        if json {
            OutputFormat::Json
        } else {
            OutputFormat::Human
        }
    }
}

// --- Issue list, human format ---------------------------------------------

/// The bracketed-label tail of an issue line: one ` [name]` per label.
pub open spec fn spec_labels_part(labels: Seq<Label>) -> Seq<char>
    decreases labels.len(),
{
    if labels.len() == 0 {
        Seq::empty()
    } else {
        spec_labels_part(labels.drop_last()) + " ["@ + labels.last().name@ + "]"@
    }
}

/// One issue line: `  #<number, left-aligned to 4> [<state>]<labels> <title>\n`.
pub open spec fn spec_issue_line(issue: Issue) -> Seq<char> {
    "  #"@ + pad_right(int_rep(issue.number as int), 4) + " ["@ + issue.state@ + "]"@
        + spec_labels_part(issue.labels@) + " "@ + issue.title@ + "\n"@
}

/// The lines of a repository's issues, in order.
pub open spec fn spec_issue_lines(issues: Seq<Issue>) -> Seq<char>
    decreases issues.len(),
{
    if issues.len() == 0 {
        Seq::empty()
    } else {
        spec_issue_lines(issues.drop_last()) + spec_issue_line(issues.last())
    }
}

/// A repository block: a blank line, the header line, then the issue lines.
pub open spec fn spec_repo_block(name: Seq<char>, issues: Seq<Issue>) -> Seq<char> {
    "\n"@ + name + "\n"@ + spec_issue_lines(issues)
}

/// The blocks of all repositories holding at least one issue, in order.
pub open spec fn spec_blocks(entries: Seq<(Seq<char>, Seq<Issue>)>) -> Seq<char>
    decreases entries.len(),
{
    if entries.len() == 0 {
        Seq::empty()
    } else {
        spec_blocks(entries.drop_last()) + (if entries.last().1.len() > 0 {
            spec_repo_block(entries.last().0, entries.last().1)
        } else {
            Seq::empty()
        })
    }
}

/// The total number of issues across all entries.
pub open spec fn spec_total_issues(entries: Seq<(Seq<char>, Seq<Issue>)>) -> int
    decreases entries.len(),
{
    if entries.len() == 0 {
        0
    } else {
        spec_total_issues(entries.drop_last()) + entries.last().1.len()
    }
}

/// The number of entries holding at least one issue.
pub open spec fn spec_repo_count(entries: Seq<(Seq<char>, Seq<Issue>)>) -> int
    decreases entries.len(),
{
    if entries.len() == 0 {
        0
    } else {
        spec_repo_count(entries.drop_last()) + (if entries.last().1.len() > 0 {
            1int
        } else {
            0int
        })
    }
}

/// The human rendering of an issue list: the repository blocks followed by a
/// summary line, or `\nNo issues found.\n` when nothing survived.
pub open spec fn spec_issues_human(entries: Seq<(Seq<char>, Seq<Issue>)>) -> Seq<char> {
    if spec_total_issues(entries) == 0 {
        spec_blocks(entries) + "\nNo issues found.\n"@
    } else {
        spec_blocks(entries) + "\nTotal: "@ + dec_rep(spec_total_issues(entries))
            + " issue(s) across "@ + dec_rep(spec_repo_count(entries)) + " repo(s)\n"@
    }
}

/// Append one issue line.
#[verifier::rlimit(100)]
fn append_issue_line(out: &mut String, issue: &Issue)
    ensures
        final(out)@ == old(out)@ + spec_issue_line(*issue),
{
    out.append("  #");
    append_i64_padded(out, issue.number, 4);
    out.append(" [");
    out.append(issue.state.as_str());
    out.append("]");
    let ghost mid = out@;
    let mut k: usize = 0;
    proof {
        assert(spec_labels_part(issue.labels@.take(0)) =~= Seq::<char>::empty());
        assert(out@ =~= mid + spec_labels_part(issue.labels@.take(0)));
    }
    while k < issue.labels.len()
        invariant
            k <= issue.labels@.len(),
            out@ == mid + spec_labels_part(issue.labels@.take(k as int)),
        decreases issue.labels@.len() - k,
    {
        out.append(" [");
        out.append(issue.labels[k].name.as_str());
        out.append("]");
        proof {
            assert(issue.labels@.take(k + 1).drop_last() =~= issue.labels@.take(k as int));
            assert(issue.labels@.take(k + 1).last() == issue.labels@[k as int]);
            assert(out@ =~= mid + spec_labels_part(issue.labels@.take(k + 1)));
        }
        k += 1;
    }
    proof {
        assert(issue.labels@.take(issue.labels@.len() as int) =~= issue.labels@);
    }
    out.append(" ");
    out.append(issue.title.as_str());
    out.append("\n");
    proof {
        assert(final(out)@ =~= old(out)@ + spec_issue_line(*issue));
    }
}

/// Append one repository block.
#[verifier::rlimit(100)]
fn append_repo_block(out: &mut String, entry: &RepoIssues)
    ensures
        final(out)@ == old(out)@ + spec_repo_block(entry.repo_full_name@, entry.issues@),
{
    out.append("\n");
    out.append(entry.repo_full_name.as_str());
    out.append("\n");
    let ghost mid = out@;
    let mut k: usize = 0;
    proof {
        assert(spec_issue_lines(entry.issues@.take(0)) =~= Seq::<char>::empty());
        assert(out@ =~= mid + spec_issue_lines(entry.issues@.take(0)));
    }
    while k < entry.issues.len()
        invariant
            k <= entry.issues@.len(),
            out@ == mid + spec_issue_lines(entry.issues@.take(k as int)),
        decreases entry.issues@.len() - k,
    {
        append_issue_line(out, &entry.issues[k]);
        proof {
            assert(entry.issues@.take(k + 1).drop_last() =~= entry.issues@.take(k as int));
            assert(entry.issues@.take(k + 1).last() == entry.issues@[k as int]);
            assert(out@ =~= mid + spec_issue_lines(entry.issues@.take(k + 1)));
        }
        k += 1;
    }
    proof {
        assert(entry.issues@.take(entry.issues@.len() as int) =~= entry.issues@);
        assert(final(out)@ =~= old(out)@ + spec_repo_block(entry.repo_full_name@, entry.issues@));
    }
}

/// Render an issue list in the human format.
#[verifier::rlimit(100)]
pub fn format_issues_human(issues: Vec<RepoIssues>) -> (r: String)
    ensures
        r@ == spec_issues_human(entry_views(issues@)),
{
    let ghost ev = entry_views(issues@);
    let mut out = String::new();
    let mut total: u128 = 0;
    let mut repo_count: usize = 0;
    let mut i: usize = 0;
    proof {
        assert(ev.take(0) =~= Seq::<(Seq<char>, Seq<Issue>)>::empty());
        assert(out@ =~= Seq::<char>::empty() + spec_blocks(ev.take(0)));
        assert(out@ =~= spec_blocks(ev.take(0)));
    }
    while i < issues.len()
        invariant
            ev == entry_views(issues@),
            i <= issues@.len(),
            out@ == spec_blocks(ev.take(i as int)),
            total == spec_total_issues(ev.take(i as int)),
            repo_count == spec_repo_count(ev.take(i as int)),
            repo_count <= i,
            total <= i * (usize::MAX as int),
        decreases issues@.len() - i,
    {
        let entry = &issues[i];
        proof {
            assert(ev[i as int] == (entry.repo_full_name@, entry.issues@));
            assert(ev.take(i + 1).drop_last() =~= ev.take(i as int));
            assert(ev.take(i + 1).last() == ev[i as int]);
        }
        let count = entry.issues.len();
        if count > 0 {
            repo_count += 1;
            append_repo_block(&mut out, entry);
        }
        proof {
            assert(total + count <= (i + 1) * (usize::MAX as int)) by (nonlinear_arith)
                requires
                    total <= i * (usize::MAX as int),
                    count <= usize::MAX as int,
                    i >= 0,
            ;
            assert((i + 1) * (usize::MAX as int) < u128::MAX as int) by (nonlinear_arith)
                requires
                    i + 1 <= usize::MAX as int,
            ;
        }
        total = total + count as u128;
        i += 1;
        proof {
            assert(out@ =~= spec_blocks(ev.take(i as int)));
        }
    }
    proof {
        assert(ev.take(ev.len() as int) =~= ev);
    }
    if total == 0 {
        out.append("\nNo issues found.\n");
        proof {
            assert(out@ =~= spec_issues_human(ev));
        }
    } else {
        out.append("\nTotal: ");
        append_u128(&mut out, total);
        out.append(" issue(s) across ");
        append_u128(&mut out, repo_count as u128);
        out.append(" repo(s)\n");
        proof {
            assert(spec_repo_count(ev) == repo_count as int);
            assert(out@ =~= spec_issues_human(ev));
        }
    }
    out
}

// --- Issue detail, human format ---------------------------------------------

/// The header of an issue detail: number, title, state, author and times.
pub open spec fn spec_detail_head(issue: Issue) -> Seq<char> {
    "#"@ + int_rep(issue.number as int) + " "@ + issue.title@ + "\n"@ + "State: "@ + issue.state@
        + "\n"@ + "Author: "@ + issue.user.username@ + "\n"@ + "Created: "@ + issue.created_at@
        + "\n"@ + "Updated: "@ + issue.updated_at@ + "\n"@
}

/// Label names joined with a comma and a space.
pub open spec fn spec_labels_csv(labels: Seq<Label>) -> Seq<char>
    decreases labels.len(),
{
    if labels.len() == 0 {
        Seq::empty()
    } else if labels.len() == 1 {
        labels[0].name@
    } else {
        spec_labels_csv(labels.drop_last()) + ", "@ + labels.last().name@
    }
}

/// The labels line of an issue detail; absent when there are no labels.
pub open spec fn spec_labels_line(labels: Seq<Label>) -> Seq<char> {
    if labels.len() == 0 {
        Seq::empty()
    } else {
        "Labels: "@ + spec_labels_csv(labels) + "\n"@
    }
}

/// The body paragraph of an issue detail; absent when the body is missing or
/// empty.
pub open spec fn spec_body_part(body: Option<Seq<char>>) -> Seq<char> {
    match body {
        Some(b) => if b.len() > 0 {
            "\n"@ + b + "\n"@
        } else {
            Seq::empty()
        },
        None => Seq::empty(),
    }
}

/// One rendered comment of an issue detail.
pub open spec fn spec_comment_part(c: Comment) -> Seq<char> {
    "\n@"@ + c.user.username@ + " ("@ + c.created_at@ + ")\n"@ + c.body@ + "\n"@
}

/// All rendered comments, in order.
pub open spec fn spec_comment_parts(comments: Seq<Comment>) -> Seq<char>
    decreases comments.len(),
{
    if comments.len() == 0 {
        Seq::empty()
    } else {
        spec_comment_parts(comments.drop_last()) + spec_comment_part(comments.last())
    }
}

/// The comments section of an issue detail; absent when there are none.
pub open spec fn spec_comments_section(comments: Seq<Comment>) -> Seq<char> {
    if comments.len() == 0 {
        Seq::empty()
    } else {
        "\n--- "@ + dec_rep(comments.len() as int) + " comment(s) ---\n"@ + spec_comment_parts(
            comments,
        )
    }
}

/// The human rendering of an issue detail with its comments.
pub open spec fn spec_issue_detail_human(issue: Issue, comments: Seq<Comment>) -> Seq<char> {
    spec_detail_head(issue) + spec_labels_line(issue.labels@) + "URL: "@ + issue.html_url@ + "\n"@
        + spec_body_part(
        match issue.body {
            Some(b) => Some(b@),
            None => None,
        },
    ) + spec_comments_section(comments)
}

/// Render an issue detail in the human format.
#[verifier::rlimit(100)]
pub fn format_issue_detail_human(issue: &Issue, comments: &Vec<Comment>) -> (r: String)
    ensures
        r@ == spec_issue_detail_human(*issue, comments@),
{
    let mut out = String::new();
    out.append("#");
    crate::text::append_i64(&mut out, issue.number);
    out.append(" ");
    out.append(issue.title.as_str());
    out.append("\n");
    out.append("State: ");
    out.append(issue.state.as_str());
    out.append("\n");
    out.append("Author: ");
    out.append(issue.user.username.as_str());
    out.append("\n");
    out.append("Created: ");
    out.append(issue.created_at.as_str());
    out.append("\n");
    out.append("Updated: ");
    out.append(issue.updated_at.as_str());
    out.append("\n");
    proof {
        assert(out@ =~= Seq::<char>::empty() + spec_detail_head(*issue));
        assert(out@ =~= spec_detail_head(*issue));
    }
    let ghost after_head = out@;
    if issue.labels.len() > 0 {
        out.append("Labels: ");
        let ghost mid = out@;
        let mut k: usize = 0;
        proof {
            assert(spec_labels_csv(issue.labels@.take(0)) =~= Seq::<char>::empty());
            assert(out@ =~= mid + spec_labels_csv(issue.labels@.take(0)));
        }
        while k < issue.labels.len()
            invariant
                k <= issue.labels@.len(),
                out@ == mid + spec_labels_csv(issue.labels@.take(k as int)),
            decreases issue.labels@.len() - k,
        {
            if k > 0 {
                out.append(", ");
            }
            out.append(issue.labels[k].name.as_str());
            proof {
                assert(issue.labels@.take(k + 1).drop_last() =~= issue.labels@.take(k as int));
                assert(issue.labels@.take(k + 1).last() == issue.labels@[k as int]);
                assert(out@ =~= mid + spec_labels_csv(issue.labels@.take(k + 1)));
            }
            k += 1;
        }
        proof {
            assert(issue.labels@.take(issue.labels@.len() as int) =~= issue.labels@);
        }
        out.append("\n");
        proof {
            assert(out@ =~= after_head + spec_labels_line(issue.labels@));
        }
    }
    out.append("URL: ");
    out.append(issue.html_url.as_str());
    out.append("\n");
    let ghost after_url = out@;
    proof {
        assert(after_url =~= after_head + spec_labels_line(issue.labels@) + "URL: "@
            + issue.html_url@ + "\n"@);
    }
    match &issue.body {
        Some(b) => {
            if b.as_str().unicode_len() > 0 {
                out.append("\n");
                out.append(b.as_str());
                out.append("\n");
                proof {
                    assert(out@ =~= after_url + spec_body_part(Some(b@)));
                }
            }
        },
        None => {},
    }
    let ghost after_body = out@;
    proof {
        assert(after_body =~= after_url + spec_body_part(
            match issue.body {
                Some(b) => Some(b@),
                None => None,
            },
        ));
    }
    if comments.len() > 0 {
        out.append("\n--- ");
        append_u128(&mut out, comments.len() as u128);
        out.append(" comment(s) ---\n");
        let ghost mid = out@;
        let mut k: usize = 0;
        proof {
            assert(spec_comment_parts(comments@.take(0)) =~= Seq::<char>::empty());
            assert(out@ =~= mid + spec_comment_parts(comments@.take(0)));
        }
        while k < comments.len()
            invariant
                k <= comments@.len(),
                out@ == mid + spec_comment_parts(comments@.take(k as int)),
            decreases comments@.len() - k,
        {
            let c = &comments[k];
            out.append("\n@");
            out.append(c.user.username.as_str());
            out.append(" (");
            out.append(c.created_at.as_str());
            out.append(")\n");
            out.append(c.body.as_str());
            out.append("\n");
            proof {
                assert(comments@.take(k + 1).drop_last() =~= comments@.take(k as int));
                assert(comments@.take(k + 1).last() == comments@[k as int]);
                assert(out@ =~= mid + spec_comment_parts(comments@.take(k + 1)));
            }
            k += 1;
        }
        proof {
            assert(comments@.take(comments@.len() as int) =~= comments@);
            assert(out@ =~= after_body + spec_comments_section(comments@));
        }
    }
    proof {
        assert(out@ =~= spec_issue_detail_human(*issue, comments@));
    }
    out
}

// --- Repository list, human format -------------------------------------------

/// One repository line with its visibility tag and optional description.
pub open spec fn spec_repo_line(r: Repository) -> Seq<char> {
    "  "@ + r.full_name@ + " "@ + (if r.private {
        "[private]"@
    } else {
        "[public]"@
    }) + "\n"@ + (match r.description {
        Some(d) => if d@.len() > 0 {
            "    "@ + d@ + "\n"@
        } else {
            Seq::empty()
        },
        None => Seq::empty(),
    })
}

/// All repository lines, in order.
pub open spec fn spec_repo_lines(repos: Seq<Repository>) -> Seq<char>
    decreases repos.len(),
{
    if repos.len() == 0 {
        Seq::empty()
    } else {
        spec_repo_lines(repos.drop_last()) + spec_repo_line(repos.last())
    }
}

/// The human rendering of a repository list.
pub open spec fn spec_repos_human(repos: Seq<Repository>) -> Seq<char> {
    if repos.len() == 0 {
        "No repositories found.\n"@
    } else {
        "Found "@ + dec_rep(repos.len() as int) + " repository(ies):\n\n"@ + spec_repo_lines(repos)
    }
}

/// Render a repository list in the human format.
#[verifier::rlimit(100)]
pub fn format_repos_human(repos: &Vec<Repository>) -> (r: String)
    ensures
        r@ == spec_repos_human(repos@),
{
    let mut out = String::new();
    if repos.len() == 0 {
        out.append("No repositories found.\n");
        proof {
            assert(out@ =~= spec_repos_human(repos@));
        }
        return out;
    }
    out.append("Found ");
    append_u128(&mut out, repos.len() as u128);
    out.append(" repository(ies):\n\n");
    let ghost mid = out@;
    let mut k: usize = 0;
    proof {
        assert(spec_repo_lines(repos@.take(0)) =~= Seq::<char>::empty());
        assert(out@ =~= mid + spec_repo_lines(repos@.take(0)));
    }
    while k < repos.len()
        invariant
            k <= repos@.len(),
            out@ == mid + spec_repo_lines(repos@.take(k as int)),
        decreases repos@.len() - k,
    {
        let repo = &repos[k];
        out.append("  ");
        out.append(repo.full_name.as_str());
        out.append(" ");
        if repo.private {
            out.append("[private]");
        } else {
            out.append("[public]");
        }
        out.append("\n");
        match &repo.description {
            Some(d) => {
                if d.as_str().unicode_len() > 0 {
                    out.append("    ");
                    out.append(d.as_str());
                    out.append("\n");
                }
            },
            None => {},
        }
        proof {
            assert(repos@.take(k + 1).drop_last() =~= repos@.take(k as int));
            assert(repos@.take(k + 1).last() == repos@[k as int]);
            assert(out@ =~= mid + spec_repo_lines(repos@.take(k + 1)));
        }
        k += 1;
    }
    proof {
        assert(repos@.take(repos@.len() as int) =~= repos@);
        assert(out@ =~= spec_repos_human(repos@));
    }
    out
}

/// An empty aggregation renders to exactly `\nNo issues found.\n` in the
/// human format and to `[]` in the machine format.
pub proof fn lemma_empty_rendering()
    ensures
        spec_issues_human(Seq::<(Seq<char>, Seq<Issue>)>::empty()) == "\nNo issues found.\n"@,
        crate::json::spec_issues_json(Seq::<(Seq<char>, Seq<Issue>)>::empty()) == "[]"@,
{
    reveal_strlit("[");
    reveal_strlit("]");
    reveal_strlit("[]");
    let none: Seq<(Seq<char>, Seq<Issue>)> = Seq::empty();
    assert(spec_issues_human(none) =~= "\nNo issues found.\n"@);
    assert(crate::json::spec_issues_json(none) =~= "[]"@);
}

// --- Dispatchers and one-line messages ----------------------------------------

/// Render an issue list in the selected format.
pub fn format_issue_list(issues: Vec<RepoIssues>, format: &OutputFormat) -> (r: String)
    ensures
        format is Human ==> r@ == spec_issues_human(entry_views(issues@)),
        format is Json ==> r@ == crate::json::spec_issues_json(entry_views(issues@)),
{
    match format {
        OutputFormat::Human => format_issues_human(issues),
        OutputFormat::Json => crate::json::format_issues_json(issues),
    }
}

/// Render an issue detail in the selected format.
pub fn format_issue_detail(issue: &Issue, comments: &Vec<Comment>, format: &OutputFormat) -> (r:
    String)
    ensures
        format is Human ==> r@ == spec_issue_detail_human(*issue, comments@),
        format is Json ==> r@ == crate::json::spec_issue_detail_json(*issue, comments@),
{
    match format {
        OutputFormat::Human => format_issue_detail_human(issue, comments),
        OutputFormat::Json => crate::json::format_issue_detail_json(issue, comments),
    }
}

/// Render a repository list in the selected format.
pub fn format_repo_list(repos: &Vec<Repository>, format: &OutputFormat) -> (r: String)
    ensures
        format is Human ==> r@ == spec_repos_human(repos@),
        format is Json ==> r@ == crate::json::spec_repos_json(repos@),
{
    match format {
        OutputFormat::Human => format_repos_human(repos),
        OutputFormat::Json => crate::json::format_repos_json(repos),
    }
}

/// The human confirmation for a created issue.
pub open spec fn spec_created_issue_human(issue: Issue) -> Seq<char> {
    "Created issue #"@ + int_rep(issue.number as int) + ": "@ + issue.title@ + "\nURL: "@
        + issue.html_url@ + "\n"@
}

/// Render the confirmation for a created issue.
#[verifier::rlimit(100)]
pub fn format_created_issue(issue: &Issue, format: &OutputFormat) -> (r: String)
    ensures
        format is Human ==> r@ == spec_created_issue_human(*issue),
        format is Json ==> r@ == crate::json::spec_json_issue(*issue),
{
    match format {
        OutputFormat::Human => {
            let mut out = String::new();
            out.append("Created issue #");
            crate::text::append_i64(&mut out, issue.number);
            out.append(": ");
            out.append(issue.title.as_str());
            out.append("\nURL: ");
            out.append(issue.html_url.as_str());
            out.append("\n");
            proof {
                assert(out@ =~= Seq::<char>::empty() + spec_created_issue_human(*issue));
                assert(out@ =~= spec_created_issue_human(*issue));
            }
            out
        },
        OutputFormat::Json => crate::json::format_issue_json(issue),
    }
}

/// The human confirmation for a created comment.
pub open spec fn spec_created_comment_human(comment: Comment) -> Seq<char> {
    "Comment added by @"@ + comment.user.username@ + " at "@ + comment.created_at@ + "\n"@
}

/// Render the confirmation for a created comment.
#[verifier::rlimit(100)]
pub fn format_created_comment(comment: &Comment, format: &OutputFormat) -> (r: String)
    ensures
        format is Human ==> r@ == spec_created_comment_human(*comment),
        format is Json ==> r@ == crate::json::spec_json_comment(*comment),
{
    match format {
        OutputFormat::Human => {
            let mut out = String::new();
            out.append("Comment added by @");
            out.append(comment.user.username.as_str());
            out.append(" at ");
            out.append(comment.created_at.as_str());
            out.append("\n");
            proof {
                assert(out@ =~= Seq::<char>::empty() + spec_created_comment_human(*comment));
                assert(out@ =~= spec_created_comment_human(*comment));
            }
            out
        },
        OutputFormat::Json => crate::json::format_comment_json(comment),
    }
}

/// The human confirmation for an updated issue.
pub open spec fn spec_issue_updated_human(issue: Issue, action: Seq<char>) -> Seq<char> {
    "Issue #"@ + int_rep(issue.number as int) + " "@ + action + ": "@ + issue.title@ + "\n"@
}

/// Render the confirmation for an updated issue.
#[verifier::rlimit(100)]
pub fn format_issue_updated(issue: &Issue, action: &str, format: &OutputFormat) -> (r: String)
    ensures
        format is Human ==> r@ == spec_issue_updated_human(*issue, action@),
        format is Json ==> r@ == crate::json::spec_json_issue(*issue),
{
    match format {
        OutputFormat::Human => {
            let mut out = String::new();
            out.append("Issue #");
            crate::text::append_i64(&mut out, issue.number);
            out.append(" ");
            out.append(action);
            out.append(": ");
            out.append(issue.title.as_str());
            out.append("\n");
            proof {
                assert(out@ =~= Seq::<char>::empty() + spec_issue_updated_human(*issue, action@));
                assert(out@ =~= spec_issue_updated_human(*issue, action@));
            }
            out
        },
        OutputFormat::Json => crate::json::format_issue_json(issue),
    }
}

/// The word reported for a state change: an issue set to `closed` was
/// closed, anything else was reopened.
pub fn action_for_state(state: &str) -> (r: &'static str)
    ensures
        state@ == "closed"@ ==> r@ == "closed"@,
        state@ != "closed"@ ==> r@ == "reopened"@,
{
    if crate::text::str_eq(state, "closed") {
        "closed"
    } else {
        "reopened"
    }
}

/// The human confirmation for a label operation.
pub open spec fn spec_label_operation_human(
    label_name: Seq<char>,
    number: int,
    removed: bool,
) -> Seq<char> {
    "Label '"@ + label_name + (if removed {
        "' removed from issue #"@
    } else {
        "' added to issue #"@
    }) + int_rep(number)
}

/// The machine confirmation for a label operation.
pub open spec fn spec_label_operation_json(label_name: Seq<char>, number: int) -> Seq<char> {
    "{\"status\": \"success\", \"label\": "@ + crate::json::spec_json_string(label_name)
        + ", \"issue\": "@ + int_rep(number) + "}"@
}

/// Render the confirmation for adding or removing a label.
#[verifier::rlimit(100)]
pub fn format_label_operation(
    label_name: &str,
    number: i64,
    removed: bool,
    format: &OutputFormat,
) -> (r: String)
    ensures
        format is Human ==> r@ == spec_label_operation_human(
            label_name@,
            number as int,
            removed,
        ),
        format is Json ==> r@ == spec_label_operation_json(label_name@, number as int),
{
    match format {
        OutputFormat::Human => {
            let mut out = String::new();
            out.append("Label '");
            out.append(label_name);
            if removed {
                out.append("' removed from issue #");
            } else {
                out.append("' added to issue #");
            }
            crate::text::append_i64(&mut out, number);
            proof {
                assert(out@ =~= Seq::<char>::empty() + spec_label_operation_human(
                    label_name@,
                    number as int,
                    removed,
                ));
                assert(out@ =~= spec_label_operation_human(label_name@, number as int, removed));
            }
            out
        },
        OutputFormat::Json => {
            let mut out = String::new();
            out.append("{\"status\": \"success\", \"label\": ");
            crate::json::append_json_string(&mut out, label_name);
            out.append(", \"issue\": ");
            crate::text::append_i64(&mut out, number);
            out.append("}");
            proof {
                assert(out@ =~= Seq::<char>::empty() + spec_label_operation_json(
                    label_name@,
                    number as int,
                ));
                assert(out@ =~= spec_label_operation_json(label_name@, number as int));
            }
            out
        },
    }
}

} // verus!
