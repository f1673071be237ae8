//! Signature-augmentation policy: every piece of agent-authored content
//! (issue bodies, comments) carries the submitting profile's signature,
//! prepended exactly once before submission.

use vstd::prelude::*;

verus! {

/// What augmentation produces: the signature alone when there is no body,
/// otherwise the signature, one space, and the body.
pub open spec fn spec_augment(sig: Seq<char>, body: Option<Seq<char>>) -> Seq<char> {
    match body {
        Some(b) => sig + " "@ + b,
        None => sig,
    }
}

/// Prepend the profile signature to a user-supplied body text.
pub fn augment_body(signature: &str, body: Option<&str>) -> (r: String)
    ensures
        body is Some ==> r@ == spec_augment(signature@, Some(body->Some_0@)),
        body is None ==> r@ == spec_augment(signature@, None),
{
    match body {
        Some(b) => {
            let mut s = signature.to_owned();
            s.append(" ");
            s.append(b);
            s
        },
        None => signature.to_owned(),
    }
}

/// Augmentation is not idempotent: augmenting an already-augmented body
/// always yields a strictly different (longer) text, so the policy must be
/// applied exactly once per submission.
pub proof fn lemma_augment_not_idempotent(sig: Seq<char>, body: Seq<char>)
    ensures
        spec_augment(sig, Some(spec_augment(sig, Some(body)))) != spec_augment(sig, Some(body)),
{
    reveal_strlit(" ");
    let once = spec_augment(sig, Some(body));
    let twice = spec_augment(sig, Some(once));
    assert(twice.len() == once.len() + sig.len() + 1);
}

} // verus!
