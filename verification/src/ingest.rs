use vstd::prelude::*;

use crate::decode::{csv_records, parse_csv, CsvError};
use crate::mapper::{is_mapped_of, map_row, row_rejected, zip_pairs, zip_row, MappedRecord};
use crate::ids::{fresh_id, now_utc_text};
use crate::text::{base_name, base_name_view, chars_of, dec_str, push_dec, string_from_chars};
use crate::Dataset;

verus! {

// The ingestion orchestrator. From the text of one export file it stages
// everything a single atomic transaction must write: one record per
// accepted row and the dataset summary whose count equals exactly the
// number of staged records. Rows are skipped silently when jagged or when
// the business gate rejects them; text that cannot be tokenised fails the
// whole file. The caller executes the staged writes inside one
// transaction, so an ingestion is all-or-nothing from the store's point
// of view.

/// The header record of a decoded file: its first record, or no columns
/// at all for an empty file.
pub open spec fn header_of(recs: Seq<Seq<Seq<char>>>) -> Seq<Seq<char>> {
    if recs.len() == 0 {
        Seq::empty()
    } else {
        recs[0]
    }
}

/// The data records of a decoded file: everything after the header.
pub open spec fn data_rows(recs: Seq<Seq<Seq<char>>>) -> Seq<Seq<Seq<char>>> {
    if recs.len() == 0 {
        Seq::empty()
    } else {
        recs.drop_first()
    }
}

/// A data row is accepted when its field count matches the header's and
/// the business gate does not reject it.
pub open spec fn row_accepted(header: Seq<Seq<char>>, row: Seq<Seq<char>>) -> bool {
    row.len() == header.len() && !row_rejected(zip_pairs(header, row))
}

/// The accepted data rows, in file order.
pub open spec fn accepted_rows(
    header: Seq<Seq<char>>,
    rows: Seq<Seq<Seq<char>>>,
) -> Seq<Seq<Seq<char>>> {
    rows.filter(|row: Seq<Seq<char>>| row_accepted(header, row))
}

/// How many rows of the file are accepted; zero when the file cannot be
/// tokenised at all.
pub open spec fn accepted_count(content: Seq<char>, d: char) -> int {
    match csv_records(content, d) {
        Some(recs) => accepted_rows(header_of(recs), data_rows(recs)).len() as int,
        None => 0,
    }
}

/// One staged record insert: a fresh identifier, the owning dataset and
/// the mapped fields with their verbatim blob.
pub struct StoredRecord {
    pub id: String,
    pub dataset_id: String,
    pub fields: MappedRecord,
}

/// Why an ingestion attempt failed outright.
#[derive(PartialEq, Eq, Structural, Clone, Copy, Debug)]
pub enum IngestError {
    /// The file could not be tokenised; nothing may be stored.
    Tokenize(CsvError),
    /// The accepted-row count does not fit the store's signed counter.
    TooManyRecords,
}

/// Everything one successful ingestion writes, staged for a single
/// transaction: the dataset summary and the accepted records, plus the
/// human-readable summary line.
pub struct IngestionPlan {
    pub dataset: Dataset,
    pub records: Vec<StoredRecord>,
    pub summary: String,
}

/// The success summary: accepted-row count and source file name.
pub open spec fn summary_view(count: int, name: Seq<char>) -> Seq<char> {
    "Successfully ingested "@ + dec_str(count as nat) + " valid records from "@ + name
}

/// A staged record that faithfully projects the row mapping `ps` and
/// belongs to the dataset `did`.
pub open spec fn record_matches(rec: StoredRecord, did: Seq<char>, ps: Seq<(Seq<char>, Seq<char>)>) -> bool {
    &&& is_mapped_of(rec.fields, ps)
    &&& rec.dataset_id@ == did
    &&& rec.id@.len() == 36
}

impl IngestionPlan {
    /// What a plan built from `path` and `content` holds: a well-formed
    /// dataset row whose count equals the number of staged records, and
    /// one staged record per accepted row, in file order, each the
    /// faithful projection of its row.
    pub open spec fn matches(self, path: Seq<char>, content: Seq<char>, d: char) -> bool {
        csv_records(content, d) matches Some(recs) && {
            let header = header_of(recs);
            let acc = accepted_rows(header, data_rows(recs));
            &&& self.dataset.wf()
            &&& self.dataset.id@.len() == 36
            &&& self.dataset.file_name@ == base_name_view(path)
            &&& self.dataset.record_count as int == acc.len()
            &&& self.records.len() == acc.len()
            &&& forall|i: int|
                0 <= i < acc.len() ==> record_matches(
                    #[trigger] self.records@[i],
                    self.dataset.id@,
                    zip_pairs(header, acc[i]),
                )
            &&& self.summary@ == summary_view(acc.len() as int, base_name_view(path))
        }
    }
}

/// Stages one whole-file ingestion: decodes every row, maps the accepted
/// ones and lays out, in one unit, everything the store must commit
/// atomically. Fails exactly when the file cannot be tokenised (or when
/// its accepted-row count overflows the store's signed counter).
pub fn plan_ingest(path: &str, content: &str, delim: char) -> (r: Result<
    IngestionPlan,
    IngestError,
>)
    ensures
        match r {
            Ok(p) => {
                &&& csv_records(content@, delim) is Some
                &&& 0 <= accepted_count(content@, delim) <= i64::MAX
                &&& p.matches(path@, content@, delim)
            },
            Err(e) => match e {
                IngestError::Tokenize(_) => csv_records(content@, delim) is None,
                IngestError::TooManyRecords => csv_records(content@, delim) is Some
                    && accepted_count(content@, delim) > i64::MAX,
            },
        },
{
    let dataset_id = fresh_id();
    let created_at = now_utc_text();
    let path_chars = chars_of(path);
    let file_name = base_name(&path_chars);
    let content_chars = chars_of(content);
    let recs = match parse_csv(&content_chars, delim) {
        Ok(r) => r,
        Err(e) => {
            return Err(IngestError::Tokenize(e));
        },
    };
    let ghost rdv = recs.deep_view();
    let ghost hdv = header_of(rdv);
    let mut records: Vec<StoredRecord> = Vec::new();
    let n = recs.len();
    if n > 0 {
        let mut j: usize = 1;
        while j < n
            invariant
                n == recs@.len(),
                n > 0,
                1 <= j <= n,
                rdv == recs.deep_view(),
                hdv == rdv[0],
                dataset_id@.len() == 36,
                records@.len() == accepted_rows(hdv, rdv.subrange(1, j as int)).len(),
                forall|i: int|
                    0 <= i < records@.len() ==> record_matches(
                        #[trigger] records@[i],
                        dataset_id@,
                        zip_pairs(hdv, accepted_rows(hdv, rdv.subrange(1, j as int))[i]),
                    ),
            decreases n - j,
        {
            let ghost prefix = rdv.subrange(1, j as int);
            let ghost next = rdv.subrange(1, j as int + 1);
            let ghost row = rdv[j as int];
            proof {
                reveal(Seq::filter);
                assert(next.drop_last() =~= prefix);
                assert(next.last() == row);
            }
            let hlen = recs[0].len();
            let rl = recs[j].len();
            proof {
                assert(rdv[0] == recs@[0].deep_view());
                assert(row == recs@[j as int].deep_view());
                assert(hdv.len() == hlen as int);
                assert(row.len() == rl as int);
            }
            if rl == hlen {
                let pairs = zip_row(&recs[0], &recs[j]);
                proof {
                    assert(pairs.deep_view() == zip_pairs(hdv, row));
                }
                match map_row(&pairs) {
                    Some(m) => {
                        let rid = fresh_id();
                        let ghost old_records = records@;
                        let ghost old_acc = accepted_rows(hdv, prefix);
                        records.push(
                            StoredRecord { id: rid, dataset_id: dataset_id.clone(), fields: m },
                        );
                        proof {
                            assert(row_accepted(hdv, row));
                            let new_acc = accepted_rows(hdv, next);
                            assert(new_acc == old_acc.push(row));
                            assert forall|i: int| 0 <= i < records@.len() implies record_matches(
                                #[trigger] records@[i],
                                dataset_id@,
                                zip_pairs(hdv, new_acc[i]),
                            ) by {
                                if i < records@.len() - 1 {
                                    assert(records@[i] == old_records[i]);
                                    assert(new_acc[i] == old_acc[i]);
                                } else {
                                    assert(records@[i].fields == m);
                                    assert(new_acc[i] == row);
                                }
                            }
                        }
                    },
                    None => {
                        proof {
                            assert(row_rejected(zip_pairs(hdv, row)));
                            assert(!row_accepted(hdv, row));
                            assert(accepted_rows(hdv, next) == accepted_rows(hdv, prefix));
                        }
                    },
                }
            } else {
                proof {
                    assert(!row_accepted(hdv, row));
                    assert(accepted_rows(hdv, next) == accepted_rows(hdv, prefix));
                }
            }
            j = j + 1;
        }
        proof {
            assert(rdv.subrange(1, n as int) =~= data_rows(rdv));
        }
    } else {
        proof {
            reveal(Seq::filter);
            assert(accepted_rows(hdv, data_rows(rdv)).len() == 0);
        }
    }
    let count = records.len();
    if count as u64 > i64::MAX as u64 {
        return Err(IngestError::TooManyRecords);
    }
    let mut summary_chars = chars_of("Successfully ingested ");
    push_dec(count as u64, &mut summary_chars);
    let mut tail = chars_of(" valid records from ");
    summary_chars.append(&mut tail);
    let mut name_chars = crate::text::copy_chars(&file_name);
    summary_chars.append(&mut name_chars);
    let summary = string_from_chars(&summary_chars);
    let dataset = Dataset::new(
        dataset_id,
        string_from_chars(&file_name),
        created_at,
        count as i64,
    );
    proof {
        assert(summary_chars@ =~= summary_view(count as int, base_name_view(path@)));
    }
    Ok(IngestionPlan { dataset, records, summary })
}

/// Re-ingesting identical input accepts the same number of rows: the
/// accepted count is a function of the file content alone, however often
/// the file is ingested and whatever fresh identifiers each attempt
/// draws.
pub proof fn lemma_reingestion_same_count(content: Seq<char>, d: char, n1: int, n2: int)
    requires
        n1 == accepted_count(content, d),
        n2 == accepted_count(content, d),
    ensures
        n1 == n2,
{
}

/// Row-count invariant: the accepted count never exceeds the number of
/// data rows in the input, and is never negative.
pub proof fn lemma_count_bounded_by_rows(content: Seq<char>, d: char, recs: Seq<Seq<Seq<char>>>)
    requires
        csv_records(content, d) == Some(recs),
    ensures
        0 <= accepted_count(content, d) <= data_rows(recs).len(),
{
    broadcast use vstd::seq_lib::group_filter_ensures;

    assert(accepted_rows(header_of(recs), data_rows(recs)).len() <= data_rows(recs).len());
}

/// Field-count mismatch tolerance: a jagged row — one whose field count
/// differs from the header's — is skipped, never stored: it is not among
/// the accepted rows, and the rest of the file is unaffected.
pub proof fn lemma_jagged_row_skipped(header: Seq<Seq<char>>, rows: Seq<Seq<Seq<char>>>, i: int)
    requires
        0 <= i < rows.len(),
        rows[i].len() != header.len(),
    ensures
        !accepted_rows(header, rows).contains(rows[i]),
{
    broadcast use vstd::seq_lib::group_filter_ensures;

    let acc = accepted_rows(header, rows);
    if acc.contains(rows[i]) {
        let k = choose|k: int| 0 <= k < acc.len() && acc[k] == rows[i];
        assert(row_accepted(header, acc[k]));
    }
}

} // verus!
