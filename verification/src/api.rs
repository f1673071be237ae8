//! The resource endpoint layer's pure half: request paths, request bodies
//! and the URL assembly that the transport sends, each stated exactly.

use vstd::prelude::*;

use crate::json::spec_join_comma;
use crate::json::spec_json_string;
use crate::text::append_i64;
use crate::text::int_rep;

verus! {

// --- Paths -------------------------------------------------------------------

/// The path listing a repository's issues with a state filter.
pub open spec fn spec_issues_list_path(owner: Seq<char>, repo: Seq<char>, state: Seq<char>) -> Seq<
    char,
> {
    "/repos/"@ + owner + "/"@ + repo + "/issues?state="@ + state
}

/// Build the path listing a repository's issues.
#[verifier::rlimit(100)]
pub fn issues_list_path(owner: &str, repo: &str, state: &str) -> (r: String)
    ensures
        r@ == spec_issues_list_path(owner@, repo@, state@),
{
    let mut out = "/repos/".to_owned();
    out.append(owner);
    out.append("/");
    out.append(repo);
    out.append("/issues?state=");
    out.append(state);
    proof {
        assert(out@ =~= spec_issues_list_path(owner@, repo@, state@));
    }
    out
}

/// The path of a repository's issue collection.
pub open spec fn spec_issues_path(owner: Seq<char>, repo: Seq<char>) -> Seq<char> {
    "/repos/"@ + owner + "/"@ + repo + "/issues"@
}

/// Build the path of a repository's issue collection.
pub fn issues_path(owner: &str, repo: &str) -> (r: String)
    ensures
        r@ == spec_issues_path(owner@, repo@),
{
    let mut out = "/repos/".to_owned();
    out.append(owner);
    out.append("/");
    out.append(repo);
    out.append("/issues");
    proof {
        assert(out@ =~= spec_issues_path(owner@, repo@));
    }
    out
}

/// The path of one issue.
pub open spec fn spec_issue_path(owner: Seq<char>, repo: Seq<char>, number: int) -> Seq<char> {
    "/repos/"@ + owner + "/"@ + repo + "/issues/"@ + int_rep(number)
}

/// Build the path of one issue.
#[verifier::rlimit(100)]
pub fn issue_path(owner: &str, repo: &str, number: i64) -> (r: String)
    ensures
        r@ == spec_issue_path(owner@, repo@, number as int),
{
    let mut out = "/repos/".to_owned();
    out.append(owner);
    out.append("/");
    out.append(repo);
    out.append("/issues/");
    append_i64(&mut out, number);
    proof {
        assert(out@ =~= spec_issue_path(owner@, repo@, number as int));
    }
    out
}

/// The path of an issue's comment collection.
pub open spec fn spec_comments_path(owner: Seq<char>, repo: Seq<char>, number: int) -> Seq<char> {
    spec_issue_path(owner, repo, number) + "/comments"@
}

/// Build the path of an issue's comment collection.
pub fn comments_path(owner: &str, repo: &str, number: i64) -> (r: String)
    ensures
        r@ == spec_comments_path(owner@, repo@, number as int),
{
    let mut out = issue_path(owner, repo, number);
    out.append("/comments");
    proof {
        assert(out@ =~= spec_comments_path(owner@, repo@, number as int));
    }
    out
}

/// The path of a repository's label collection.
pub open spec fn spec_repo_labels_path(owner: Seq<char>, repo: Seq<char>) -> Seq<char> {
    "/repos/"@ + owner + "/"@ + repo + "/labels"@
}

/// Build the path of a repository's label collection.
pub fn repo_labels_path(owner: &str, repo: &str) -> (r: String)
    ensures
        r@ == spec_repo_labels_path(owner@, repo@),
{
    let mut out = "/repos/".to_owned();
    out.append(owner);
    out.append("/");
    out.append(repo);
    out.append("/labels");
    proof {
        assert(out@ =~= spec_repo_labels_path(owner@, repo@));
    }
    out
}

/// The path of an issue's label collection.
pub open spec fn spec_issue_labels_path(owner: Seq<char>, repo: Seq<char>, number: int) -> Seq<
    char,
> {
    spec_issue_path(owner, repo, number) + "/labels"@
}

/// Build the path of an issue's label collection.
pub fn issue_labels_path(owner: &str, repo: &str, number: i64) -> (r: String)
    ensures
        r@ == spec_issue_labels_path(owner@, repo@, number as int),
{
    let mut out = issue_path(owner, repo, number);
    out.append("/labels");
    proof {
        assert(out@ =~= spec_issue_labels_path(owner@, repo@, number as int));
    }
    out
}

/// The path removing one label from an issue.
pub open spec fn spec_issue_label_path(
    owner: Seq<char>,
    repo: Seq<char>,
    number: int,
    label_id: int,
) -> Seq<char> {
    spec_issue_labels_path(owner, repo, number) + "/"@ + int_rep(label_id)
}

/// Build the path removing one label from an issue.
pub fn issue_label_path(owner: &str, repo: &str, number: i64, label_id: i64) -> (r: String)
    ensures
        r@ == spec_issue_label_path(owner@, repo@, number as int, label_id as int),
{
    let mut out = issue_labels_path(owner, repo, number);
    out.append("/");
    append_i64(&mut out, label_id);
    proof {
        assert(out@ =~= spec_issue_label_path(owner@, repo@, number as int, label_id as int));
    }
    out
}

/// The path of one repository.
pub open spec fn spec_repo_path(owner: Seq<char>, repo: Seq<char>) -> Seq<char> {
    "/repos/"@ + owner + "/"@ + repo
}

/// Build the path of one repository.
pub fn repo_path(owner: &str, repo: &str) -> (r: String)
    ensures
        r@ == spec_repo_path(owner@, repo@),
{
    let mut out = "/repos/".to_owned();
    out.append(owner);
    out.append("/");
    out.append(repo);
    proof {
        assert(out@ =~= spec_repo_path(owner@, repo@));
    }
    out
}

/// The path listing the repositories the identity can see.
pub fn user_repos_path() -> (r: &'static str)
    ensures
        r@ == "/user/repos"@,
{
    "/user/repos"
}

// --- URL assembly --------------------------------------------------------------

/// A server URL with every trailing `/` removed.
pub open spec fn spec_trim_trailing_slashes(s: Seq<char>) -> Seq<char>
    decreases s.len(),
{
    if s.len() > 0 && s.last() == '/' {
        spec_trim_trailing_slashes(s.drop_last())
    } else {
        s
    }
}

/// Normalize a server URL by removing trailing `/` characters.
pub fn normalize_base_url(url: &str) -> (r: String)
    ensures
        r@ == spec_trim_trailing_slashes(url@),
{
    let len = url.unicode_len();
    let mut cut: usize = len;
    proof {
        assert(url@.take(len as int) =~= url@);
    }
    while cut > 0 && url.get_char(cut - 1) == '/'
        invariant
            len == url@.len(),
            cut <= len,
            spec_trim_trailing_slashes(url@) == spec_trim_trailing_slashes(url@.take(cut as int)),
        decreases cut,
    {
        proof {
            assert(url@.take(cut as int).last() == url@[cut - 1]);
            assert(url@.take(cut as int).drop_last() =~= url@.take(cut - 1));
        }
        cut -= 1;
    }
    let kept = url.substring_char(0, cut);
    proof {
        if cut > 0 {
            assert(url@.take(cut as int).last() == url@[cut - 1]);
        }
        assert(spec_trim_trailing_slashes(url@.take(cut as int)) == url@.take(cut as int));
        assert(kept@ =~= url@.take(cut as int));
    }
    kept.to_owned()
}

/// The full request URL: the normalized base, the API prefix, the path.
pub open spec fn spec_request_url(base: Seq<char>, path: Seq<char>) -> Seq<char> {
    base + "/api/v1"@ + path
}

/// Build the full request URL from a normalized base and a path.
pub fn request_url(base: &str, path: &str) -> (r: String)
    ensures
        r@ == spec_request_url(base@, path@),
{
    let mut out = base.to_owned();
    out.append("/api/v1");
    out.append(path);
    proof {
        assert(out@ =~= spec_request_url(base@, path@));
    }
    out
}

/// The value of the authorization header for a token.
pub fn auth_header_value(token: &str) -> (r: String)
    ensures
        r@ == "token "@ + token@,
{
    let mut out = "token ".to_owned();
    out.append(token);
    proof {
        assert(out@ =~= "token "@ + token@);
    }
    out
}

// --- Request bodies --------------------------------------------------------------

/// The issue-creation body: the title, the body when present, the label
/// names when any are given — each field serialized deterministically.
pub open spec fn spec_create_issue_body(
    title: Seq<char>,
    body: Option<Seq<char>>,
    labels: Seq<Seq<char>>,
) -> Seq<char> {
    "{\"title\":"@ + spec_json_string(title) + (match body {
        Some(b) => ",\"body\":"@ + spec_json_string(b),
        None => Seq::empty(),
    }) + (if labels.len() > 0 {
        ",\"labels\":["@ + spec_join_comma(labels.map_values(|l: Seq<char>| spec_json_string(l)))
            + "]"@
    } else {
        Seq::empty()
    }) + "}"@
}

/// Build the issue-creation body.
#[verifier::rlimit(100)]
pub fn create_issue_body(title: &str, body: Option<&str>, labels: &Vec<String>) -> (r: String)
    ensures
        r@ == spec_create_issue_body(
            title@,
            match body {
                Some(b) => Some(b@),
                None => None,
            },
            labels.deep_view(),
        ),
{
    let mut out = "{\"title\":".to_owned();
    crate::json::append_json_string(&mut out, title);
    match body {
        Some(b) => {
            out.append(",\"body\":");
            crate::json::append_json_string(&mut out, b);
        },
        None => {},
    }
    let ghost mid = out@;
    let ghost items = labels.deep_view().map_values(|l: Seq<char>| spec_json_string(l));
    if labels.len() > 0 {
        out.append(",\"labels\":[");
        let ghost mid2 = out@;
        let mut j: usize = 0;
        proof {
            assert(items.take(0) =~= Seq::<Seq<char>>::empty());
            assert(out@ =~= mid2 + spec_join_comma(items.take(0)));
        }
        while j < labels.len()
            invariant
                j <= labels@.len(),
                items == labels.deep_view().map_values(|l: Seq<char>| spec_json_string(l)),
                items.len() == labels@.len(),
                forall|k: int| 0 <= k < labels@.len() ==> labels.deep_view()[k] == labels@[k]@,
                out@ == mid2 + spec_join_comma(items.take(j as int)),
            decreases labels@.len() - j,
        {
            if j > 0 {
                out.append(",");
            }
            crate::json::append_json_string(&mut out, labels[j].as_str());
            proof {
                assert(items.take(j + 1).drop_last() =~= items.take(j as int));
                assert(items.take(j + 1).last() == spec_json_string(labels@[j as int]@));
                assert(out@ =~= mid2 + spec_join_comma(items.take(j + 1)));
            }
            j += 1;
        }
        proof {
            assert(items.take(items.len() as int) =~= items);
        }
        out.append("]");
        proof {
            assert(out@ =~= mid + ",\"labels\":["@ + spec_join_comma(items) + "]"@);
        }
    }
    out.append("}");
    proof {
        assert(out@ =~= spec_create_issue_body(
            title@,
            match body {
                Some(b) => Some(b@),
                None => None,
            },
            labels.deep_view(),
        ));
    }
    out
}

/// The issue-update body: the state when given, an empty object otherwise.
pub open spec fn spec_update_issue_body(state: Option<Seq<char>>) -> Seq<char> {
    match state {
        Some(s) => "{\"state\":"@ + spec_json_string(s) + "}"@,
        None => "{}"@,
    }
}

/// Build the issue-update body.
pub fn update_issue_body(state: Option<&str>) -> (r: String)
    ensures
        r@ == spec_update_issue_body(
            match state {
                Some(s) => Some(s@),
                None => None,
            },
        ),
{
    match state {
        Some(s) => {
            let mut out = "{\"state\":".to_owned();
            crate::json::append_json_string(&mut out, s);
            out.append("}");
            proof {
                assert(out@ =~= "{\"state\":"@ + spec_json_string(s@) + "}"@);
            }
            out
        },
        None => "{}".to_owned(),
    }
}

/// The comment-creation body.
pub open spec fn spec_comment_body(body: Seq<char>) -> Seq<char> {
    "{\"body\":"@ + spec_json_string(body) + "}"@
}

/// Build the comment-creation body.
pub fn comment_body(body: &str) -> (r: String)
    ensures
        r@ == spec_comment_body(body@),
{
    let mut out = "{\"body\":".to_owned();
    crate::json::append_json_string(&mut out, body);
    out.append("}");
    proof {
        assert(out@ =~= spec_comment_body(body@));
    }
    out
}

/// The label-attachment body: the label identifiers to add.
pub open spec fn spec_add_labels_body(ids: Seq<i64>) -> Seq<char> {
    "{\"labels\":["@ + spec_join_comma(ids.map_values(|id: i64| int_rep(id as int))) + "]}"@
}

/// Build the label-attachment body.
#[verifier::rlimit(100)]
pub fn add_labels_body(ids: &Vec<i64>) -> (r: String)
    ensures
        r@ == spec_add_labels_body(ids@),
{
    let mut out = "{\"labels\":[".to_owned();
    let ghost mid = out@;
    let ghost items = ids@.map_values(|id: i64| int_rep(id as int));
    let mut j: usize = 0;
    proof {
        assert(items.take(0) =~= Seq::<Seq<char>>::empty());
        assert(out@ =~= mid + spec_join_comma(items.take(0)));
    }
    while j < ids.len()
        invariant
            j <= ids@.len(),
            items == ids@.map_values(|id: i64| int_rep(id as int)),
            out@ == mid + spec_join_comma(items.take(j as int)),
        decreases ids@.len() - j,
    {
        if j > 0 {
            out.append(",");
        }
        append_i64(&mut out, ids[j]);
        proof {
            assert(items.take(j + 1).drop_last() =~= items.take(j as int));
            assert(items.take(j + 1).last() == int_rep(ids@[j as int] as int));
            assert(out@ =~= mid + spec_join_comma(items.take(j + 1)));
        }
        j += 1;
    }
    proof {
        assert(items.take(items.len() as int) =~= items);
    }
    out.append("]}");
    proof {
        assert(out@ =~= spec_add_labels_body(ids@));
    }
    out
}

} // verus!