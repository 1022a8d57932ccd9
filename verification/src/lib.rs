//! Ingestion core for schema-drifting CSV exports of vulnerability
//! findings. A file is decoded row by row ([`decode`]), each row is
//! projected by column name onto a stable schema while the whole row is
//! kept verbatim in a recoverable blob ([`mapper`], [`verbatim`],
//! [`score`]), and everything one file contributes — the accepted records
//! and the dataset summary whose count equals them exactly — is staged as
//! one unit ([`ingest`]) that a transactional store commits or discards
//! whole ([`session`]). A separate surface validates expert overrides
//! before anything reaches the store ([`assess`]).

pub mod assess;
pub mod decode;
mod ids;
pub mod ingest;
pub mod mapper;
pub mod score;
pub mod session;
pub mod text;
pub mod verbatim;

use vstd::prelude::*;

verus! {

/// Summary row written once per ingested file: an opaque identifier, the
/// source file's base name, the UTC creation timestamp, and how many rows
/// of the file were accepted and stored.
pub struct Dataset {
    pub id: String,
    pub file_name: String,
    pub created_at: String,
    pub record_count: i64,
}

impl Dataset {
    /// A dataset summary never carries a negative count.
    pub open spec fn wf(&self) -> bool {
        self.record_count >= 0
    }

    pub fn new(id: String, file_name: String, created_at: String, record_count: i64) -> (d: Dataset)
        requires
            record_count >= 0,
        ensures
            d.id@ == id@,
            d.file_name@ == file_name@,
            d.created_at@ == created_at@,
            d.record_count == record_count,
            d.wf(),
    {
        Dataset { id, file_name, created_at, record_count }
    }
}

} // verus!
