//! Label resolution: translate a user-supplied label name into the tracker's
//! numeric identifier before any mutating call is attempted.

use vstd::prelude::*;

use crate::aggregate::label_matches_term;
use crate::error::GogsError;
use crate::text::str_eq_ignore_case;
use crate::types::Label;

verus! {

/// Resolve a label name against a repository's label set, matching
/// case-insensitively. Succeeds exactly when some label matches, returning
/// the first match's identifier; fails with a not-found error naming the
/// requested label otherwise — before any mutating call can be made.
pub fn resolve_label(labels: &Vec<Label>, name: &str) -> (r: Result<i64, GogsError>)
    ensures
        r is Ok <==> exists|j: int|
            0 <= j < labels@.len() && label_matches_term(#[trigger] labels@[j], name@),
        r is Ok ==> exists|j: int|
            0 <= j < labels@.len() && label_matches_term(#[trigger] labels@[j], name@)
                && r->Ok_0 == labels@[j].id && (forall|j2: int|
                0 <= j2 < j ==> !label_matches_term(#[trigger] labels@[j2], name@)),
        r is Err ==> r->Err_0 is NotFound && (r->Err_0)->NotFound_0@ == "Label '"@ + name@
            + "' not found in repository"@,
{
    let mut j: usize = 0;
    while j < labels.len()
        invariant
            j <= labels@.len(),
            forall|j2: int| 0 <= j2 < j ==> !label_matches_term(#[trigger] labels@[j2], name@),
        decreases labels@.len() - j,
    {
        if str_eq_ignore_case(labels[j].name.as_str(), name) {
            proof {
                assert(label_matches_term(labels@[j as int], name@));
            }
            return Ok(labels[j].id);
        }
        j += 1;
    }
    let mut msg = "Label '".to_owned();
    msg.append(name);
    msg.append("' not found in repository");
    proof {
        assert(msg@ =~= "Label '"@ + name@ + "' not found in repository"@);
    }
    Err(GogsError::NotFound(msg))
}

} // verus!
