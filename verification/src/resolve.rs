use vstd::prelude::*;
use crate::entry::{Entry, EntryModel};

verus! {

/// Strict precedence between two versions of one entry: the candidate beats
/// the existing value when it carries a higher version, or the same version
/// with a later update time (last-writer-wins tie-break).
pub open spec fn spec_beats(c: EntryModel, e: EntryModel) -> bool {
    ||| c.version > e.version
    ||| (c.version == e.version && c.updated_at > e.updated_at)
}

/// Whether the candidate wins against the slot: an absent slot is won
/// unconditionally, an occupied one only by strict precedence.
pub open spec fn spec_wins(existing: Option<EntryModel>, c: EntryModel) -> bool {
    match existing {
        Option::None => true,
        Option::Some(e) => spec_beats(c, e),
    }
}

/// The conflict resolver: the slot after one candidate has been considered.
/// A losing candidate is stale and leaves the slot unchanged.
pub open spec fn spec_resolve(existing: Option<EntryModel>, c: EntryModel) -> Option<EntryModel> {
    if spec_wins(existing, c) {
        Option::Some(c)
    } else {
        existing
    }
}

/// The model of an optional entry reference.
pub open spec fn opt_ref_model(e: Option<&Entry>) -> Option<EntryModel> {
    match e {
        Option::None => Option::None,
        Option::Some(r) => Option::Some(r@),
    }
}

/// Decides whether the candidate beats the slot, as [`spec_wins`] says.
pub fn candidate_wins(existing: Option<&Entry>, candidate: &Entry) -> (b: bool)
    ensures
        b == spec_wins(opt_ref_model(existing), candidate@),
{
    match existing {
        Option::None => true,
        Option::Some(e) => {
            candidate.version > e.version
                || (candidate.version == e.version && candidate.updated_at > e.updated_at)
        },
    }
}

} // verus!
