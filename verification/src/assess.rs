use vstd::prelude::*;

use crate::ids::now_utc_text;
use crate::score::Score;
use crate::text::{chars_of, trimmed_view, trimmed_len};

verus! {

// The analyst surface: an expert override for one ingested record. The
// one validation gate sits here — a justification must hold at least ten
// characters once trimmed — and it is checked before anything is staged
// for the store, so a rejected submission leaves every record untouched.

/// The least number of trimmed justification characters accepted.
pub const MIN_JUSTIFICATION: usize = 10;

/// An analyst's override for one record, as submitted.
pub struct ExpertUpdate {
    pub id: String,
    pub severity: String,
    pub vector: Option<String>,
    pub score: Option<Score>,
    pub justification: String,
}

/// A validated submission, stamped with its audit time, ready for the
/// store's single update.
pub struct PreparedAssessment {
    pub update: ExpertUpdate,
    pub updated_at: String,
}

/// Whether a justification is long enough once trimmed.
pub open spec fn justification_ok(j: Seq<char>) -> bool {
    trimmed_view(j).len() >= MIN_JUSTIFICATION
}

/// Validates a submission and stamps the audit time. Succeeds exactly
/// when the trimmed justification is long enough; a rejected submission
/// produces the user-facing message and nothing for the store.
pub fn prepare_expert_update(u: ExpertUpdate) -> (r: Result<PreparedAssessment, String>)
    ensures
        match r {
            Ok(p) => justification_ok(u.justification@) && p.update == u,
            Err(m) => !justification_ok(u.justification@) && m@
                == "Justification must be at least 10 characters long."@,
        },
{
    let jchars = chars_of(u.justification.as_str());
    if trimmed_len(&jchars) < MIN_JUSTIFICATION {
        return Err(String::from_str("Justification must be at least 10 characters long."));
    }
    let updated_at = now_utc_text();
    Ok(PreparedAssessment { update: u, updated_at })
}

} // verus!
