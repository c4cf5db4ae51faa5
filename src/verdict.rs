//! The verdict on a workload: why it is refused, axis by axis, and the
//! message an operator reads.

use vstd::prelude::*;

use crate::text::{join, join_strs, strictly_sorted, views_of};

verus! {

/// Why a workload is refused: on each axis a sorted list without repeats.
#[derive(Debug)]
pub struct PodRejectionReasons {
    pub registries_not_allowed: Vec<String>,
    pub tags_not_allowed: Vec<String>,
    pub images_not_allowed: Vec<String>,
}

impl PodRejectionReasons {
    /// Each list is sorted and holds no repeats.
    pub open spec fn wf(&self) -> bool {
        &&& strictly_sorted(views_of(self.registries_not_allowed@))
        &&& strictly_sorted(views_of(self.tags_not_allowed@))
        &&& strictly_sorted(views_of(self.images_not_allowed@))
    }

    pub open spec fn spec_is_empty(&self) -> bool {
        &&& self.registries_not_allowed@.len() == 0
        &&& self.tags_not_allowed@.len() == 0
        &&& self.images_not_allowed@.len() == 0
    }

    /// No list holds a reason.
    pub fn is_empty(&self) -> (r: bool)
        ensures
            r == self.spec_is_empty(),
    {
        self.registries_not_allowed.len() == 0 && self.tags_not_allowed.len() == 0
            && self.images_not_allowed.len() == 0
    }
}

impl Default for PodRejectionReasons {
    fn default() -> (r: PodRejectionReasons)
        ensures
            r.spec_is_empty(),
            r.wf(),
    {
        PodRejectionReasons {
            registries_not_allowed: Vec::new(),
            tags_not_allowed: Vec::new(),
            images_not_allowed: Vec::new(),
        }
    }
}

/// The outcome of judging a pod specification.
#[derive(Debug)]
pub enum PodSpecValidationResult {
    Allowed,
    NotAllowed(PodRejectionReasons),
}

/// What is handed back to the admission pipeline.
#[derive(Debug)]
pub struct Verdict {
    pub accepted: bool,
    pub message: Option<String>,
}

/// `<label><reasons joined by ", ">` if there are reasons, else nothing.
pub open spec fn clause(label: Seq<char>, reasons: Seq<Seq<char>>) -> Seq<Seq<char>> {
    if reasons.len() > 0 {
        seq![label + join(reasons, ", "@)]
    } else {
        Seq::empty()
    }
}

/// The clauses of a refusal in the order registries, tags, images.
pub open spec fn clauses(r: PodRejectionReasons) -> Seq<Seq<char>> {
    clause("registries not allowed: "@, views_of(r.registries_not_allowed@))
        + clause("tags not allowed: "@, views_of(r.tags_not_allowed@))
        + clause("images not allowed: "@, views_of(r.images_not_allowed@))
}

/// The message of a refusal.
pub open spec fn rejection_message(r: PodRejectionReasons) -> Seq<char> {
    "not allowed, reported errors: "@ + join(clauses(r), "; "@)
}

/// Appends the clause for `reasons` to `out`, if there are reasons.
fn push_clause(out: &mut Vec<String>, label: &str, reasons: &Vec<String>)
    ensures
        views_of(final(out)@) == views_of(old(out)@) + clause(label@, views_of(reasons@)),
{
    if reasons.len() > 0 {
        let mut c = String::from_str(label);
        c.append(join_strs(reasons, ", ").as_str());
        out.push(c);
        proof {
            reveal_strlit(", ");
            assert(views_of(final(out)@) =~= views_of(old(out)@) + clause(label@, views_of(reasons@)));
        }
    } else {
        assert(views_of(out@) =~= views_of(out@) + clause(label@, views_of(reasons@)));
    }
}

impl PodSpecValidationResult {
    /// Accepted with no message, or refused with the rejection message.
    pub fn into_response(self) -> (v: Verdict)
        ensures
            self is Allowed ==> v.accepted && v.message is None,
            self matches PodSpecValidationResult::NotAllowed(r) ==> (!v.accepted
                && (v.message matches Some(m) && m@ == rejection_message(r))),
    {
        match self {
            PodSpecValidationResult::Allowed => Verdict { accepted: true, message: None },
            PodSpecValidationResult::NotAllowed(r) => {
                let mut errors: Vec<String> = Vec::new();
                push_clause(&mut errors, "registries not allowed: ", &r.registries_not_allowed);
                push_clause(&mut errors, "tags not allowed: ", &r.tags_not_allowed);
                push_clause(&mut errors, "images not allowed: ", &r.images_not_allowed);
                let mut m = String::from_str("not allowed, reported errors: ");
                m.append(join_strs(&errors, "; ").as_str());
                proof {
                    reveal_strlit("; ");
                    assert(views_of(errors@) =~= clauses(r));
                }
                Verdict { accepted: false, message: Some(m) }
            },
        }
    }
}

} // verus!
