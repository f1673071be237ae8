//! Canonical JSON rendering of the data model: a deterministic, single-line
//! serialization, so wire payloads and machine output can be stated exactly.

use vstd::prelude::*;

use crate::aggregate::entry_views;
use crate::aggregate::RepoIssues;
use crate::text::append_i64;
use crate::text::int_rep;
use crate::types::Comment;
use crate::types::Issue;
use crate::types::Label;
use crate::types::Repository;
use crate::types::User;

verus! {

// --- Strings ---------------------------------------------------------------

/// The hexadecimal digit character for `d` in 0..16.
pub open spec fn hex_digit(d: int) -> char {
    if d == 10 {
        'a'
    } else if d == 11 {
        'b'
    } else if d == 12 {
        'c'
    } else if d == 13 {
        'd'
    } else if d == 14 {
        'e'
    } else if d == 15 {
        'f'
    } else {
        crate::text::dec_digit(d)
    }
}

/// The JSON escape of one character: the named escapes for the quote, the
/// backslash and the common control characters, a `\u00XX` escape for the
/// other control characters, and the character itself otherwise.
pub open spec fn json_escape_char(c: char) -> Seq<char> {
    if c == '"' {
        seq!['\\', '"']
    } else if c == '\\' {
        seq!['\\', '\\']
    } else if c == '\n' {
        seq!['\\', 'n']
    } else if c == '\r' {
        seq!['\\', 'r']
    } else if c == '\t' {
        seq!['\\', 't']
    } else if c == '\u{8}' {
        seq!['\\', 'b']
    } else if c == '\u{c}' {
        seq!['\\', 'f']
    } else if (c as u32) < 32 {
        seq!['\\', 'u', '0', '0', hex_digit(c as u32 as int / 16), hex_digit(c as u32 as int % 16)]
    } else {
        seq![c]
    }
}

/// A text with every character JSON-escaped.
pub open spec fn spec_json_escaped(s: Seq<char>) -> Seq<char>
    decreases s.len(),
{
    if s.len() == 0 {
        Seq::empty()
    } else {
        spec_json_escaped(s.drop_last()) + json_escape_char(s.last())
    }
}

/// A JSON string literal: the escaped text between quotes.
pub open spec fn spec_json_string(s: Seq<char>) -> Seq<char> {
    seq!['"'] + spec_json_escaped(s) + seq!['"']
}

/// A JSON string or `null` for an absent value.
pub open spec fn spec_json_opt_string(s: Option<Seq<char>>) -> Seq<char> {
    match s {
        Some(t) => spec_json_string(t),
        None => "null"@,
    }
}

/// A JSON boolean.
pub open spec fn spec_json_bool(b: bool) -> Seq<char> {
    if b {
        "true"@
    } else {
        "false"@
    }
}

fn hex_digit_str(d: u32) -> (r: &'static str)
    requires
        d < 16,
    ensures
        r@ =~= seq![hex_digit(d as int)],
{
    proof {
        reveal_strlit("0");
        reveal_strlit("1");
        reveal_strlit("2");
        reveal_strlit("3");
        reveal_strlit("4");
        reveal_strlit("5");
        reveal_strlit("6");
        reveal_strlit("7");
        reveal_strlit("8");
        reveal_strlit("9");
        reveal_strlit("a");
        reveal_strlit("b");
        reveal_strlit("c");
        reveal_strlit("d");
        reveal_strlit("e");
        reveal_strlit("f");
    }
    match d {
        0 => "0",
        1 => "1",
        2 => "2",
        3 => "3",
        4 => "4",
        5 => "5",
        6 => "6",
        7 => "7",
        8 => "8",
        9 => "9",
        10 => "a",
        11 => "b",
        12 => "c",
        13 => "d",
        14 => "e",
        _ => "f",
    }
}

/// Append the JSON escape of one character.
fn append_escape(out: &mut String, c: char, one: &str)
    requires
        one@ == seq![c],
    ensures
        final(out)@ == old(out)@ + json_escape_char(c),
{
    proof {
        reveal_strlit("\\\"");
        reveal_strlit("\\\\");
        reveal_strlit("\\n");
        reveal_strlit("\\r");
        reveal_strlit("\\t");
        reveal_strlit("\\b");
        reveal_strlit("\\f");
        reveal_strlit("\\u00");
    }
    if c == '"' {
        out.append("\\\"");
        proof {
            assert(out@ =~= old(out)@ + json_escape_char(c));
        }
    } else if c == '\\' {
        out.append("\\\\");
        proof {
            assert(out@ =~= old(out)@ + json_escape_char(c));
        }
    } else if c == '\n' {
        out.append("\\n");
        proof {
            assert(out@ =~= old(out)@ + json_escape_char(c));
        }
    } else if c == '\r' {
        out.append("\\r");
        proof {
            assert(out@ =~= old(out)@ + json_escape_char(c));
        }
    } else if c == '\t' {
        out.append("\\t");
        proof {
            assert(out@ =~= old(out)@ + json_escape_char(c));
        }
    } else if c == '\u{8}' {
        out.append("\\b");
        proof {
            assert(out@ =~= old(out)@ + json_escape_char(c));
        }
    } else if c == '\u{c}' {
        out.append("\\f");
        proof {
            assert(out@ =~= old(out)@ + json_escape_char(c));
        }
    } else if (c as u32) < 32 {
        let u = c as u32;
        out.append("\\u00");
        out.append(hex_digit_str(u / 16));
        out.append(hex_digit_str(u % 16));
        proof {
            assert(out@ =~= old(out)@ + json_escape_char(c));
        }
    } else {
        out.append(one);
        proof {
            assert(out@ =~= old(out)@ + json_escape_char(c));
        }
    }
}

/// Append a JSON string literal.
#[verifier::rlimit(100)]
pub fn append_json_string(out: &mut String, s: &str)
    ensures
        final(out)@ == old(out)@ + spec_json_string(s@),
{
    proof {
        reveal_strlit("\"");
    }
    out.append("\"");
    let len = s.unicode_len();
    let mut i: usize = 0;
    let ghost mid = out@;
    proof {
        assert(mid =~= old(out)@ + seq!['"']);
        assert(spec_json_escaped(s@.take(0)) =~= Seq::<char>::empty());
        assert(out@ =~= mid + spec_json_escaped(s@.take(0)));
    }
    while i < len
        invariant
            len == s@.len(),
            i <= len,
            out@ == mid + spec_json_escaped(s@.take(i as int)),
        decreases len - i,
    {
        let c = s.get_char(i);
        let one = s.substring_char(i, i + 1);
        proof {
            assert(one@ =~= seq![c]);
            assert(s@.take(i + 1).drop_last() =~= s@.take(i as int));
            assert(s@.take(i + 1).last() == s@[i as int]);
        }
        append_escape(out, c, one);
        proof {
            assert(out@ =~= mid + spec_json_escaped(s@.take(i + 1)));
        }
        i += 1;
    }
    proof {
        assert(s@.take(s@.len() as int) =~= s@);
    }
    out.append("\"");
    proof {
        assert(final(out)@ =~= old(out)@ + spec_json_string(s@));
    }
}

// --- Objects of the data model ---------------------------------------------

/// The JSON object of an identity.
pub open spec fn spec_json_user(u: User) -> Seq<char> {
    "{\"id\":"@ + int_rep(u.id as int) + ",\"username\":"@ + spec_json_string(u.username@)
        + ",\"full_name\":"@ + spec_json_opt_string(
        match u.full_name {
            Some(t) => Some(t@),
            None => None,
        },
    ) + ",\"email\":"@ + spec_json_opt_string(
        match u.email {
            Some(t) => Some(t@),
            None => None,
        },
    ) + "}"@
}

/// The JSON object of a label.
pub open spec fn spec_json_label(l: Label) -> Seq<char> {
    "{\"id\":"@ + int_rep(l.id as int) + ",\"name\":"@ + spec_json_string(l.name@) + ",\"color\":"@
        + spec_json_string(l.color@) + "}"@
}

/// A comma-separated join of rendered elements.
pub open spec fn spec_join_comma(items: Seq<Seq<char>>) -> Seq<char>
    decreases items.len(),
{
    if items.len() == 0 {
        Seq::empty()
    } else if items.len() == 1 {
        items[0]
    } else {
        spec_join_comma(items.drop_last()) + ","@ + items.last()
    }
}

/// The JSON array of an issue's labels.
pub open spec fn spec_json_labels(labels: Seq<Label>) -> Seq<char> {
    "["@ + spec_join_comma(labels.map_values(|l: Label| spec_json_label(l))) + "]"@
}

/// The leading fields of an issue's JSON object.
pub open spec fn spec_json_issue_fields_head(issue: Issue) -> Seq<char> {
    "\"id\":"@ + int_rep(issue.id as int) + ",\"number\":"@ + int_rep(issue.number as int)
        + ",\"title\":"@ + spec_json_string(issue.title@) + ",\"body\":"@ + spec_json_opt_string(
        match issue.body {
            Some(t) => Some(t@),
            None => None,
        },
    ) + ",\"user\":"@ + spec_json_user(issue.user)
}

/// The trailing fields of an issue's JSON object.
pub open spec fn spec_json_issue_fields_tail(issue: Issue) -> Seq<char> {
    ",\"labels\":"@ + spec_json_labels(issue.labels@) + ",\"state\":"@ + spec_json_string(
        issue.state@,
    ) + ",\"comments\":"@ + int_rep(issue.comments as int) + ",\"created_at\":"@
        + spec_json_string(issue.created_at@) + ",\"updated_at\":"@ + spec_json_string(
        issue.updated_at@,
    ) + ",\"html_url\":"@ + spec_json_string(issue.html_url@)
}

/// The fields of an issue's JSON object, without the braces.
pub open spec fn spec_json_issue_fields(issue: Issue) -> Seq<char> {
    spec_json_issue_fields_head(issue) + spec_json_issue_fields_tail(issue)
}

/// The JSON object of an issue.
pub open spec fn spec_json_issue(issue: Issue) -> Seq<char> {
    "{"@ + spec_json_issue_fields(issue) + "}"@
}

/// The JSON object of an issue with the owning repository's full name
/// injected as a leading `repo` field.
pub open spec fn spec_json_issue_with_repo(repo: Seq<char>, issue: Issue) -> Seq<char> {
    "{\"repo\":"@ + spec_json_string(repo) + ","@ + spec_json_issue_fields(issue) + "}"@
}

/// The JSON object of a comment.
pub open spec fn spec_json_comment(c: Comment) -> Seq<char> {
    "{\"id\":"@ + int_rep(c.id as int) + ",\"body\":"@ + spec_json_string(c.body@) + ",\"user\":"@
        + spec_json_user(c.user) + ",\"created_at\":"@ + spec_json_string(c.created_at@)
        + ",\"updated_at\":"@ + spec_json_string(c.updated_at@) + "}"@
}

/// The JSON object of a repository.
pub open spec fn spec_json_repo(r: Repository) -> Seq<char> {
    "{\"id\":"@ + int_rep(r.id as int) + ",\"name\":"@ + spec_json_string(r.name@)
        + ",\"full_name\":"@ + spec_json_string(r.full_name@) + ",\"owner\":"@ + spec_json_user(
        r.owner,
    ) + ",\"description\":"@ + spec_json_opt_string(
        match r.description {
            Some(t) => Some(t@),
            None => None,
        },
    ) + ",\"private\":"@ + spec_json_bool(r.private) + ",\"html_url\":"@ + spec_json_string(
        r.html_url@,
    ) + ",\"clone_url\":"@ + spec_json_string(r.clone_url@) + "}"@
}

/// Append an identity object.
#[verifier::rlimit(100)]
fn append_json_user(out: &mut String, u: &User)
    ensures
        final(out)@ == old(out)@ + spec_json_user(*u),
{
    out.append("{\"id\":");
    append_i64(out, u.id);
    out.append(",\"username\":");
    append_json_string(out, u.username.as_str());
    out.append(",\"full_name\":");
    append_json_opt_string(out, &u.full_name);
    out.append(",\"email\":");
    append_json_opt_string(out, &u.email);
    out.append("}");
    proof {
        assert(final(out)@ =~= old(out)@ + spec_json_user(*u));
    }
}

/// Append a label object.
#[verifier::rlimit(100)]
fn append_json_label(out: &mut String, l: &Label)
    ensures
        final(out)@ == old(out)@ + spec_json_label(*l),
{
    out.append("{\"id\":");
    append_i64(out, l.id);
    out.append(",\"name\":");
    append_json_string(out, l.name.as_str());
    out.append(",\"color\":");
    append_json_string(out, l.color.as_str());
    out.append("}");
    proof {
        assert(final(out)@ =~= old(out)@ + spec_json_label(*l));
    }
}

/// Append a labels array.
#[verifier::rlimit(100)]
fn append_json_labels(out: &mut String, labels: &Vec<Label>)
    ensures
        final(out)@ == old(out)@ + spec_json_labels(labels@),
{
    out.append("[");
    let ghost items = labels@.map_values(|l: Label| spec_json_label(l));
    let ghost mid = out@;
    let mut j: usize = 0;
    proof {
        assert(items.take(0) =~= Seq::<Seq<char>>::empty());
        assert(out@ =~= mid + spec_join_comma(items.take(0)));
    }
    while j < labels.len()
        invariant
            items == labels@.map_values(|l: Label| spec_json_label(l)),
            j <= labels@.len(),
            out@ == mid + spec_join_comma(items.take(j as int)),
        decreases labels@.len() - j,
    {
        if j > 0 {
            out.append(",");
        }
        append_json_label(out, &labels[j]);
        proof {
            assert(items.take(j + 1).drop_last() =~= items.take(j as int));
            assert(items.take(j + 1).last() == spec_json_label(labels@[j as int]));
            assert(out@ =~= mid + spec_join_comma(items.take(j + 1)));
        }
        j += 1;
    }
    proof {
        assert(items.take(items.len() as int) =~= items);
    }
    out.append("]");
    proof {
        assert(final(out)@ =~= old(out)@ + spec_json_labels(labels@));
    }
}

/// Append an issue's leading fields.
#[verifier::rlimit(100)]
fn append_json_issue_fields_head(out: &mut String, issue: &Issue)
    ensures
        final(out)@ == old(out)@ + spec_json_issue_fields_head(*issue),
{
    out.append("\"id\":");
    append_i64(out, issue.id);
    out.append(",\"number\":");
    append_i64(out, issue.number);
    out.append(",\"title\":");
    append_json_string(out, issue.title.as_str());
    out.append(",\"body\":");
    append_json_opt_string(out, &issue.body);
    out.append(",\"user\":");
    append_json_user(out, &issue.user);
    proof {
        assert(final(out)@ =~= old(out)@ + spec_json_issue_fields_head(*issue));
    }
}

/// Append an issue's trailing fields.
#[verifier::rlimit(100)]
fn append_json_issue_fields_tail(out: &mut String, issue: &Issue)
    ensures
        final(out)@ == old(out)@ + spec_json_issue_fields_tail(*issue),
{
    out.append(",\"labels\":");
    append_json_labels(out, &issue.labels);
    out.append(",\"state\":");
    append_json_string(out, issue.state.as_str());
    out.append(",\"comments\":");
    append_i64(out, issue.comments);
    out.append(",\"created_at\":");
    append_json_string(out, issue.created_at.as_str());
    out.append(",\"updated_at\":");
    append_json_string(out, issue.updated_at.as_str());
    out.append(",\"html_url\":");
    append_json_string(out, issue.html_url.as_str());
    proof {
        assert(final(out)@ =~= old(out)@ + spec_json_issue_fields_tail(*issue));
    }
}

/// Append an issue's fields, without the braces.
fn append_json_issue_fields(out: &mut String, issue: &Issue)
    ensures
        final(out)@ == old(out)@ + spec_json_issue_fields(*issue),
{
    append_json_issue_fields_head(out, issue);
    append_json_issue_fields_tail(out, issue);
    proof {
        assert(final(out)@ =~= old(out)@ + spec_json_issue_fields(*issue));
    }
}

/// Append a JSON string or `null`.
fn append_json_opt_string(out: &mut String, s: &Option<String>)
    ensures
        s is Some ==> final(out)@ == old(out)@ + spec_json_opt_string(Some(s->Some_0@)),
        s is None ==> final(out)@ == old(out)@ + spec_json_opt_string(None),
{
    match s {
        Some(t) => {
            append_json_string(out, t.as_str());
        },
        None => {
            out.append("null");
        },
    }
}

// --- Arrays and the machine-format renderings --------------------------------

/// The rendered elements of the machine format: one object per issue, each
/// carrying its repository's full name, in entry order.
pub open spec fn spec_flat_items(entries: Seq<(Seq<char>, Seq<Issue>)>) -> Seq<Seq<char>>
    decreases entries.len(),
{
    if entries.len() == 0 {
        Seq::empty()
    } else {
        spec_flat_items(entries.drop_last()) + entries.last().1.map_values(
            |issue: Issue| spec_json_issue_with_repo(entries.last().0, issue),
        )
    }
}

/// The machine rendering of an issue list: a JSON array of issue objects,
/// each with its `repo` field; `[]` when nothing survived.
pub open spec fn spec_issues_json(entries: Seq<(Seq<char>, Seq<Issue>)>) -> Seq<char> {
    "["@ + spec_join_comma(spec_flat_items(entries)) + "]"@
}

/// Append one issue object with its `repo` field.
fn append_json_issue_with_repo(out: &mut String, repo: &str, issue: &Issue)
    ensures
        final(out)@ == old(out)@ + spec_json_issue_with_repo(repo@, *issue),
{
    out.append("{\"repo\":");
    append_json_string(out, repo);
    out.append(",");
    append_json_issue_fields(out, issue);
    out.append("}");
    proof {
        assert(final(out)@ =~= old(out)@ + spec_json_issue_with_repo(repo@, *issue));
    }
}

/// Render an issue list in the machine format.
#[verifier::rlimit(100)]
pub fn format_issues_json(issues: Vec<RepoIssues>) -> (r: String)
    ensures
        r@ == spec_issues_json(entry_views(issues@)),
{
    let ghost ev = entry_views(issues@);
    let mut out = String::new();
    out.append("[");
    let ghost mid = out@;
    let ghost mut items: Seq<Seq<char>> = Seq::empty();
    let mut first: bool = true;
    let mut i: usize = 0;
    proof {
        assert(ev.take(0) =~= Seq::<(Seq<char>, Seq<Issue>)>::empty());
        assert(items =~= spec_flat_items(ev.take(0)));
        assert(out@ =~= mid + spec_join_comma(items));
    }
    while i < issues.len()
        invariant
            ev == entry_views(issues@),
            i <= issues@.len(),
            items == spec_flat_items(ev.take(i as int)),
            out@ == mid + spec_join_comma(items),
            first <==> items.len() == 0,
        decreases issues@.len() - i,
    {
        let entry = &issues[i];
        let ghost name = entry.repo_full_name@;
        let ghost entry_items = entry.issues@.map_values(
            |issue: Issue| spec_json_issue_with_repo(name, issue),
        );
        proof {
            assert(ev[i as int] == (entry.repo_full_name@, entry.issues@));
            assert(ev.take(i + 1).drop_last() =~= ev.take(i as int));
            assert(ev.take(i + 1).last() == ev[i as int]);
            assert(spec_flat_items(ev.take(i + 1)) =~= items + entry_items);
            assert(entry_items.take(0) =~= Seq::<Seq<char>>::empty());
            assert(items + entry_items.take(0) =~= items);
        }
        let mut j: usize = 0;
        while j < entry.issues.len()
            invariant
                j <= entry.issues@.len(),
                name == entry.repo_full_name@,
                entry_items == entry.issues@.map_values(
                    |issue: Issue| spec_json_issue_with_repo(name, issue),
                ),
                out@ == mid + spec_join_comma(items + entry_items.take(j as int)),
                first <==> (items + entry_items.take(j as int)).len() == 0,
            decreases entry.issues@.len() - j,
        {
            let ghost sofar = items + entry_items.take(j as int);
            if !first {
                out.append(",");
            }
            append_json_issue_with_repo(&mut out, entry.repo_full_name.as_str(), &entry.issues[j]);
            first = false;
            proof {
                assert(entry_items[j as int] == spec_json_issue_with_repo(
                    name,
                    entry.issues@[j as int],
                ));
                assert(items + entry_items.take(j + 1) =~= sofar.push(entry_items[j as int]));
                assert(sofar.push(entry_items[j as int]).drop_last() =~= sofar);
                if sofar.len() == 0 {
                    assert(spec_join_comma(sofar.push(entry_items[j as int])) =~= entry_items[j as int]);
                }
                assert(out@ =~= mid + spec_join_comma(items + entry_items.take(j + 1)));
            }
            j += 1;
        }
        proof {
            assert(entry_items.take(entry_items.len() as int) =~= entry_items);
        }
        i += 1;
        proof {
            assert(items + entry_items =~= spec_flat_items(ev.take(i as int)));
        }
        proof {
            items = items + entry_items;
        }
    }
    proof {
        assert(ev.take(ev.len() as int) =~= ev);
    }
    out.append("]");
    proof {
        assert(out@ =~= Seq::<char>::empty() + spec_issues_json(ev));
        assert(out@ =~= spec_issues_json(ev));
    }
    out
}

/// The JSON array of a comment list.
pub open spec fn spec_json_comments(comments: Seq<Comment>) -> Seq<char> {
    "["@ + spec_join_comma(comments.map_values(|c: Comment| spec_json_comment(c))) + "]"@
}

/// The machine rendering of an issue detail: the issue's fields with the
/// comment list appended as a `comment_list` field.
pub open spec fn spec_issue_detail_json(issue: Issue, comments: Seq<Comment>) -> Seq<char> {
    "{"@ + spec_json_issue_fields(issue) + ",\"comment_list\":"@ + spec_json_comments(comments)
        + "}"@
}

/// The machine rendering of a repository list: a JSON array of repository
/// objects.
pub open spec fn spec_repos_json(repos: Seq<Repository>) -> Seq<char> {
    "["@ + spec_join_comma(repos.map_values(|r: Repository| spec_json_repo(r))) + "]"@
}

/// Append a comment object.
#[verifier::rlimit(100)]
fn append_json_comment(out: &mut String, c: &Comment)
    ensures
        final(out)@ == old(out)@ + spec_json_comment(*c),
{
    out.append("{\"id\":");
    append_i64(out, c.id);
    out.append(",\"body\":");
    append_json_string(out, c.body.as_str());
    out.append(",\"user\":");
    append_json_user(out, &c.user);
    out.append(",\"created_at\":");
    append_json_string(out, c.created_at.as_str());
    out.append(",\"updated_at\":");
    append_json_string(out, c.updated_at.as_str());
    out.append("}");
    proof {
        assert(final(out)@ =~= old(out)@ + spec_json_comment(*c));
    }
}

/// Append a comment array.
#[verifier::rlimit(100)]
fn append_json_comments(out: &mut String, comments: &Vec<Comment>)
    ensures
        final(out)@ == old(out)@ + spec_json_comments(comments@),
{
    out.append("[");
    let ghost items = comments@.map_values(|c: Comment| spec_json_comment(c));
    let ghost mid = out@;
    let mut j: usize = 0;
    proof {
        assert(items.take(0) =~= Seq::<Seq<char>>::empty());
        assert(out@ =~= mid + spec_join_comma(items.take(0)));
    }
    while j < comments.len()
        invariant
            items == comments@.map_values(|c: Comment| spec_json_comment(c)),
            j <= comments@.len(),
            out@ == mid + spec_join_comma(items.take(j as int)),
        decreases comments@.len() - j,
    {
        if j > 0 {
            out.append(",");
        }
        append_json_comment(out, &comments[j]);
        proof {
            assert(items.take(j + 1).drop_last() =~= items.take(j as int));
            assert(items.take(j + 1).last() == spec_json_comment(comments@[j as int]));
            assert(out@ =~= mid + spec_join_comma(items.take(j + 1)));
        }
        j += 1;
    }
    proof {
        assert(items.take(items.len() as int) =~= items);
    }
    out.append("]");
    proof {
        assert(final(out)@ =~= old(out)@ + spec_json_comments(comments@));
    }
}

/// Render an issue detail in the machine format.
#[verifier::rlimit(100)]
pub fn format_issue_detail_json(issue: &Issue, comments: &Vec<Comment>) -> (r: String)
    ensures
        r@ == spec_issue_detail_json(*issue, comments@),
{
    let mut out = String::new();
    out.append("{");
    append_json_issue_fields(&mut out, issue);
    out.append(",\"comment_list\":");
    append_json_comments(&mut out, comments);
    out.append("}");
    proof {
        assert(out@ =~= Seq::<char>::empty() + spec_issue_detail_json(*issue, comments@));
        assert(out@ =~= spec_issue_detail_json(*issue, comments@));
    }
    out
}

/// Append a repository object.
#[verifier::rlimit(60)]
fn append_json_repo(out: &mut String, r: &Repository)
    ensures
        final(out)@ == old(out)@ + spec_json_repo(*r),
{
    out.append("{\"id\":");
    append_i64(out, r.id);
    out.append(",\"name\":");
    append_json_string(out, r.name.as_str());
    out.append(",\"full_name\":");
    append_json_string(out, r.full_name.as_str());
    out.append(",\"owner\":");
    append_json_user(out, &r.owner);
    out.append(",\"description\":");
    append_json_opt_string(out, &r.description);
    out.append(",\"private\":");
    if r.private {
        out.append("true");
    } else {
        out.append("false");
    }
    out.append(",\"html_url\":");
    append_json_string(out, r.html_url.as_str());
    out.append(",\"clone_url\":");
    append_json_string(out, r.clone_url.as_str());
    out.append("}");
    proof {
        assert(final(out)@ =~= old(out)@ + spec_json_repo(*r));
    }
}

/// Render a repository list in the machine format.
#[verifier::rlimit(100)]
pub fn format_repos_json(repos: &Vec<Repository>) -> (r: String)
    ensures
        r@ == spec_repos_json(repos@),
{
    let mut out = String::new();
    out.append("[");
    let ghost items = repos@.map_values(|rp: Repository| spec_json_repo(rp));
    let ghost mid = out@;
    let mut j: usize = 0;
    proof {
        assert(items.take(0) =~= Seq::<Seq<char>>::empty());
        assert(out@ =~= mid + spec_join_comma(items.take(0)));
    }
    while j < repos.len()
        invariant
            items == repos@.map_values(|rp: Repository| spec_json_repo(rp)),
            j <= repos@.len(),
            out@ == mid + spec_join_comma(items.take(j as int)),
        decreases repos@.len() - j,
    {
        if j > 0 {
            out.append(",");
        }
        append_json_repo(&mut out, &repos[j]);
        proof {
            assert(items.take(j + 1).drop_last() =~= items.take(j as int));
            assert(items.take(j + 1).last() == spec_json_repo(repos@[j as int]));
            assert(out@ =~= mid + spec_join_comma(items.take(j + 1)));
        }
        j += 1;
    }
    proof {
        assert(items.take(items.len() as int) =~= items);
    }
    out.append("]");
    proof {
        assert(out@ =~= Seq::<char>::empty() + spec_repos_json(repos@));
        assert(out@ =~= spec_repos_json(repos@));
    }
    out
}

/// Render one issue in the machine format.
pub fn format_issue_json(issue: &Issue) -> (r: String)
    ensures
        r@ == spec_json_issue(*issue),
{
    let mut out = String::new();
    out.append("{");
    append_json_issue_fields(&mut out, issue);
    out.append("}");
    proof {
        assert(out@ =~= Seq::<char>::empty() + spec_json_issue(*issue));
        assert(out@ =~= spec_json_issue(*issue));
    }
    out
}

/// Render one comment in the machine format.
pub fn format_comment_json(comment: &Comment) -> (r: String)
    ensures
        r@ == spec_json_comment(*comment),
{
    let mut out = String::new();
    append_json_comment(&mut out, comment);
    proof {
        assert(out@ =~= Seq::<char>::empty() + spec_json_comment(*comment));
        assert(out@ =~= spec_json_comment(*comment));
    }
    out
}

} // verus!
