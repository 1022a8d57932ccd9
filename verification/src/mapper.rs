use vstd::prelude::*;

use crate::score::{parse_score, score_of, Score};
use crate::text::{chars_eq, chars_of, copy_chars, string_from_chars};
use crate::verbatim::{encode_pairs, json_of, json_pairs_of, lemma_verbatim_round_trip};

verus! {

// The field mapper: projects one decoded row — an ordered mapping of
// column name to raw value — onto the stable internal schema. Columns are
// found by name, never by position; a missing column yields the empty
// string, and the score column is parsed leniently. A row is rejected
// only when both identifying fields, the CVE identifier and the product,
// come out empty; every other kind of emptiness is tolerated. The whole
// mapping, extracted or not, is serialised into the record's recoverable
// blob.

/// The value of the named column: the last occurrence wins, as it would
/// when the row is loaded name-by-name into a map.
pub open spec fn lookup_pairs(
    ps: Seq<(Seq<char>, Seq<char>)>,
    name: Seq<char>,
) -> Option<Seq<char>>
    decreases ps.len(),
{
    if ps.len() == 0 {
        None
    } else if ps.last().0 == name {
        Some(ps.last().1)
    } else {
        lookup_pairs(ps.drop_last(), name)
    }
}

/// The named column's value, or the empty string when the column is
/// absent.
pub open spec fn field_of(ps: Seq<(Seq<char>, Seq<char>)>, name: Seq<char>) -> Seq<char> {
    match lookup_pairs(ps, name) {
        Some(v) => v,
        None => Seq::empty(),
    }
}

pub open spec fn key_cve_id() -> Seq<char> {
    "CVE ID"@
}

pub open spec fn key_product() -> Seq<char> {
    "Product"@
}

pub open spec fn key_component() -> Seq<char> {
    "Component"@
}

pub open spec fn key_original_severity() -> Seq<char> {
    "Original Severity"@
}

pub open spec fn key_original_vector() -> Seq<char> {
    "Original Vector"@
}

pub open spec fn key_original_score() -> Seq<char> {
    "Original Score"@
}

pub open spec fn key_disposition_summary() -> Seq<char> {
    "Disposition Summary"@
}

pub open spec fn key_rationale() -> Seq<char> {
    "Rationale"@
}

/// Looks a column up by name.
pub fn lookup_field(ps: &Vec<(Vec<char>, Vec<char>)>, name: &Vec<char>) -> (r: Option<Vec<char>>)
    ensures
        match r {
            Some(v) => lookup_pairs(ps.deep_view(), name@) == Some(v@),
            None => lookup_pairs(ps.deep_view(), name@) is None,
        },
{
    let n = ps.len();
    let mut j: usize = n;
    proof {
        assert(ps.deep_view().subrange(0, n as int) =~= ps.deep_view());
    }
    while j > 0
        invariant
            n == ps@.len(),
            j <= n,
            lookup_pairs(ps.deep_view(), name@) == lookup_pairs(
                ps.deep_view().subrange(0, j as int),
                name@,
            ),
        decreases j,
    {
        let hit = chars_eq(&ps[j - 1].0, name);
        proof {
            assert(ps.deep_view().subrange(0, j as int).last() == ps.deep_view()[j as int - 1]);
            assert(ps.deep_view()[j as int - 1].0 =~= ps@[j as int - 1].0@);
            assert(ps.deep_view()[j as int - 1].1 =~= ps@[j as int - 1].1@);
            assert(ps.deep_view().subrange(0, j as int).drop_last() =~= ps.deep_view().subrange(
                0,
                j as int - 1,
            ));
        }
        if hit {
            let v = copy_chars(&ps[j - 1].1);
            return Some(v);
        }
        j = j - 1;
    }
    proof {
        assert(ps.deep_view().subrange(0, 0) =~= Seq::<(Seq<char>, Seq<char>)>::empty());
    }
    None
}

/// The named column's raw value, or the empty string when absent.
pub fn field_value(ps: &Vec<(Vec<char>, Vec<char>)>, name: &Vec<char>) -> (r: Vec<char>)
    ensures
        r@ == field_of(ps.deep_view(), name@),
{
    match lookup_field(ps, name) {
        Some(v) => v,
        None => Vec::new(),
    }
}

/// One row projected onto the stable schema, together with the
/// recoverable serialisation of everything the row held.
pub struct MappedRecord {
    pub cve_id: String,
    pub product: String,
    pub component: String,
    pub original_severity: String,
    pub original_vector: String,
    pub original_score: Score,
    pub disposition_summary: String,
    pub rationale: String,
    pub raw_data: String,
}

/// What it means for a mapped record to be the faithful projection of a
/// decoded row mapping.
pub open spec fn is_mapped_of(r: MappedRecord, ps: Seq<(Seq<char>, Seq<char>)>) -> bool {
    &&& r.cve_id@ == field_of(ps, key_cve_id())
    &&& r.product@ == field_of(ps, key_product())
    &&& r.component@ == field_of(ps, key_component())
    &&& r.original_severity@ == field_of(ps, key_original_severity())
    &&& r.original_vector@ == field_of(ps, key_original_vector())
    &&& r.original_score == score_of(field_of(ps, key_original_score()))
    &&& r.disposition_summary@ == field_of(ps, key_disposition_summary())
    &&& r.rationale@ == field_of(ps, key_rationale())
    &&& r.raw_data@ == json_of(ps)
}

/// The one business-level validity gate: a row is rejected exactly when
/// both identifying fields are empty after extraction.
pub open spec fn row_rejected(ps: Seq<(Seq<char>, Seq<char>)>) -> bool {
    field_of(ps, key_cve_id()).len() == 0 && field_of(ps, key_product()).len() == 0
}

/// Maps one decoded row: the full projection, or `None` for the one
/// business rejection.
pub fn map_row(ps: &Vec<(Vec<char>, Vec<char>)>) -> (r: Option<MappedRecord>)
    ensures
        match r {
            Some(m) => is_mapped_of(m, ps.deep_view()) && !row_rejected(ps.deep_view()),
            None => row_rejected(ps.deep_view()),
        },
{
    let cve_id = field_value(ps, &chars_of("CVE ID"));
    let product = field_value(ps, &chars_of("Product"));
    if cve_id.len() == 0 && product.len() == 0 {
        return None;
    }
    let component = field_value(ps, &chars_of("Component"));
    let original_severity = field_value(ps, &chars_of("Original Severity"));
    let original_vector = field_value(ps, &chars_of("Original Vector"));
    let score_raw = field_value(ps, &chars_of("Original Score"));
    let original_score = parse_score(&score_raw);
    let disposition_summary = field_value(ps, &chars_of("Disposition Summary"));
    let rationale = field_value(ps, &chars_of("Rationale"));
    let raw = encode_pairs(ps);
    Some(
        MappedRecord {
            cve_id: string_from_chars(&cve_id),
            product: string_from_chars(&product),
            component: string_from_chars(&component),
            original_severity: string_from_chars(&original_severity),
            original_vector: string_from_chars(&original_vector),
            original_score,
            disposition_summary: string_from_chars(&disposition_summary),
            rationale: string_from_chars(&rationale),
            raw_data: string_from_chars(&raw),
        },
    )
}

/// Verbatim preservation: the blob carried by a mapped record re-parses
/// to exactly the decoded row it came from — every column name with its
/// original raw value, in order. The normalised fields and the blob are
/// two views of the same row, and the blob loses nothing.
pub proof fn lemma_mapped_blob_recovers_row(m: MappedRecord, ps: Seq<(Seq<char>, Seq<char>)>)
    requires
        is_mapped_of(m, ps),
    ensures
        json_pairs_of(m.raw_data@) == Some(ps),
{
    lemma_verbatim_round_trip(ps);
}

/// Pairs each header name with the same-positioned value of a row.
pub open spec fn zip_pairs(header: Seq<Seq<char>>, row: Seq<Seq<char>>) -> Seq<
    (Seq<char>, Seq<char>),
> {
    Seq::new(header.len(), |i: int| (header[i], row[i]))
}

/// Builds the ordered name-to-value mapping of one row.
pub fn zip_row(header: &Vec<Vec<char>>, row: &Vec<Vec<char>>) -> (r: Vec<(Vec<char>, Vec<char>)>)
    requires
        header@.len() == row@.len(),
    ensures
        r.deep_view() == zip_pairs(header.deep_view(), row.deep_view()),
{
    let n = header.len();
    let mut r: Vec<(Vec<char>, Vec<char>)> = Vec::new();
    let mut i: usize = 0;
    while i < n
        invariant
            n == header@.len(),
            n == row@.len(),
            i <= n,
            r@.len() == i as int,
            forall|k: int|
                0 <= k < i as int ==> #[trigger] r.deep_view()[k] == zip_pairs(
                    header.deep_view(),
                    row.deep_view(),
                )[k],
        decreases n - i,
    {
        let k = copy_chars(&header[i]);
        let v = copy_chars(&row[i]);
        proof {
            assert(k.deep_view() =~= header@[i as int]@);
            assert(header.deep_view()[i as int] =~= header@[i as int]@);
            assert(v.deep_view() =~= row@[i as int]@);
            assert(row.deep_view()[i as int] =~= row@[i as int]@);
        }
        let ghost rdv = r.deep_view();
        r.push((k, v));
        i = i + 1;
        proof {
            let zp = zip_pairs(header.deep_view(), row.deep_view());
            assert forall|m: int| 0 <= m < i as int implies #[trigger] r.deep_view()[m]
                == zp[m] by {
                if m < i as int - 1 {
                    assert(rdv[m] == zp[m]);
                    assert(r.deep_view()[m] == r@[m].deep_view());
                } else {
                    assert(r.deep_view()[m] == r@[m].deep_view());
                }
            }
        }
    }
    proof {
        assert(r.deep_view() =~= zip_pairs(header.deep_view(), row.deep_view()));
    }
    r
}

} // verus!
