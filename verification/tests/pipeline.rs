use vulnmaster::ingest::{plan_ingest, IngestError};
use vulnmaster::decode::CsvError;

const HEADER: &str = "CVE ID;Product;Component;Original Severity;Original Vector;Original Score;Disposition Summary;Rationale";

fn sample_two_rows() -> String {
    let mut s = String::new();
    s.push_str(HEADER);
    s.push('\n');
    s.push_str("CVE-2024-0001;WidgetOS;kernel;High;AV:N/AC:L;7,3;Mitigated;Patch planned\n");
    s.push_str("CVE-2024-0002;WidgetOS;net;Low;AV:L/AC:H;3.1;Open;Accepted risk\n");
    s
}

#[test]
fn ingest_two_rows_counts_and_summary() {
    let plan = plan_ingest("/tmp/exports/data.csv", &sample_two_rows(), ';').unwrap();
    assert_eq!(plan.records.len(), 2);
    assert_eq!(plan.dataset.record_count, 2);
    assert_eq!(plan.dataset.file_name, "data.csv");
    assert_eq!(
        plan.summary,
        "Successfully ingested 2 valid records from data.csv"
    );
}

#[test]
fn ingest_maps_fields_by_name() {
    let plan = plan_ingest("data.csv", &sample_two_rows(), ';').unwrap();
    let first = &plan.records[0].fields;
    assert_eq!(first.cve_id, "CVE-2024-0001");
    assert_eq!(first.product, "WidgetOS");
    assert_eq!(first.component, "kernel");
    assert_eq!(first.original_severity, "High");
    assert_eq!(first.original_vector, "AV:N/AC:L");
    assert_eq!(first.disposition_summary, "Mitigated");
    assert_eq!(first.rationale, "Patch planned");
    // the decimal-comma score of the first row and the decimal-point
    // score of the second both land as numbers
    let s0 = &first.original_score;
    assert_eq!(s0.mantissa as f64 / 10f64.powi(s0.frac as i32), 7.3);
    let s1 = &plan.records[1].fields.original_score;
    assert_eq!(s1.mantissa as f64 / 10f64.powi(s1.frac as i32), 3.1);
}

#[test]
fn ingest_reordered_columns_still_map() {
    let mut s = String::new();
    s.push_str("Product;CVE ID\n");
    s.push_str("WidgetOS;CVE-2024-0009\n");
    let plan = plan_ingest("x.csv", &s, ';').unwrap();
    assert_eq!(plan.records.len(), 1);
    assert_eq!(plan.records[0].fields.cve_id, "CVE-2024-0009");
    assert_eq!(plan.records[0].fields.product, "WidgetOS");
    // absent columns come out empty, never fatal
    assert_eq!(plan.records[0].fields.component, "");
    let f = &plan.records[0].fields;
    let score = f.original_score.mantissa as f64 / 10f64.powi(f.original_score.frac as i32);
    assert_eq!(score, 0.0);
}

// Idempotent re-ingestion: same input, same count; fresh identifiers.
#[test]
fn reingestion_same_count_fresh_ids() {
    let content = sample_two_rows();
    let p1 = plan_ingest("data.csv", &content, ';').unwrap();
    let p2 = plan_ingest("data.csv", &content, ';').unwrap();
    assert_eq!(p1.dataset.record_count, p2.dataset.record_count);
    assert_eq!(p1.records.len(), p2.records.len());
    assert_ne!(p1.dataset.id, p2.dataset.id);
}

// Row-count invariant: the staged count equals the staged records and
// never exceeds the number of data rows.
#[test]
fn count_equals_staged_records() {
    let mut s = sample_two_rows();
    s.push_str(";;;;;;;\n"); // business-rejected row
    let plan = plan_ingest("data.csv", &s, ';').unwrap();
    assert_eq!(plan.dataset.record_count as usize, plan.records.len());
    assert!(plan.records.len() <= 3);
}

// Field-count mismatch tolerance: jagged rows are skipped, not fatal.
#[test]
fn jagged_rows_skipped() {
    let mut s = String::new();
    s.push_str(HEADER);
    s.push('\n');
    for i in 0..10 {
        s.push_str(&format!(
            "CVE-2024-{:04};WidgetOS;c;High;AV:N;5.0;Open;r\n",
            i
        ));
    }
    s.push_str("CVE-2024-9998;too;short\n");
    s.push_str("CVE-2024-9999\n");
    let plan = plan_ingest("data.csv", &s, ';').unwrap();
    assert_eq!(plan.dataset.record_count, 10);
    assert_eq!(
        plan.summary,
        "Successfully ingested 10 valid records from data.csv"
    );
}

// Business rejection: both identifying fields empty, all others full.
#[test]
fn business_rejected_row_excluded() {
    let mut s = String::new();
    s.push_str(HEADER);
    s.push('\n');
    s.push_str(";;kernel;High;AV:N;9.8;Open;Looks bad\n");
    s.push_str("CVE-2024-0001;WidgetOS;kernel;High;AV:N;7.3;Open;r\n");
    let plan = plan_ingest("data.csv", &s, ';').unwrap();
    assert_eq!(plan.dataset.record_count, 1);
    assert_eq!(plan.records[0].fields.cve_id, "CVE-2024-0001");
}

#[test]
fn one_identifying_field_suffices() {
    let mut s = String::new();
    s.push_str(HEADER);
    s.push('\n');
    s.push_str(";WidgetOS;kernel;High;AV:N;9.8;Open;product only\n");
    s.push_str("CVE-2024-0002;;kernel;High;AV:N;9.8;Open;cve only\n");
    let plan = plan_ingest("data.csv", &s, ';').unwrap();
    assert_eq!(plan.dataset.record_count, 2);
}

// Verbatim preservation: the blob re-parses to every header column with
// its original raw value.
#[test]
fn verbatim_blob_round_trips() {
    let mut s = String::new();
    s.push_str("CVE ID;Product;Extra Column\n");
    s.push_str("CVE-2024-0001;\"He said \"\"hi\"\"; twice\";\"line one\nline two\"\n");
    let plan = plan_ingest("data.csv", &s, ';').unwrap();
    assert_eq!(plan.records.len(), 1);
    let blob = &plan.records[0].fields.raw_data;
    let v: serde_json::Value = serde_json::from_str(blob).unwrap();
    assert_eq!(v.get("CVE ID").unwrap().as_str().unwrap(), "CVE-2024-0001");
    assert_eq!(
        v.get("Product").unwrap().as_str().unwrap(),
        "He said \"hi\"; twice"
    );
    assert_eq!(
        v.get("Extra Column").unwrap().as_str().unwrap(),
        "line one\nline two"
    );
}

#[test]
fn verbatim_blob_keeps_unmapped_columns() {
    let mut s = String::new();
    s.push_str("CVE ID;Undocumented\n");
    s.push_str("CVE-2024-0007;kept as is\n");
    let plan = plan_ingest("data.csv", &s, ';').unwrap();
    let blob = &plan.records[0].fields.raw_data;
    let v: serde_json::Value = serde_json::from_str(blob).unwrap();
    assert_eq!(
        v.get("Undocumented").unwrap().as_str().unwrap(),
        "kept as is"
    );
}

#[test]
fn unterminated_quote_is_fatal() {
    let mut s = String::new();
    s.push_str(HEADER);
    s.push('\n');
    s.push_str("CVE-2024-0001;\"unterminated;kernel;High;AV:N;7.3;Open;r\n");
    let r = plan_ingest("data.csv", &s, ';');
    assert!(matches!(
        r,
        Err(IngestError::Tokenize(CsvError::UnterminatedQuote))
    ));
}

#[test]
fn garbage_after_closing_quote_is_fatal() {
    let s = "A;B\n\"x\"y;z\n";
    let r = plan_ingest("data.csv", s, ';');
    assert!(matches!(
        r,
        Err(IngestError::Tokenize(CsvError::MalformedQuote))
    ));
}

#[test]
fn empty_file_yields_empty_dataset() {
    let plan = plan_ingest("empty.csv", "", ';').unwrap();
    assert_eq!(plan.dataset.record_count, 0);
    assert_eq!(plan.records.len(), 0);
    assert_eq!(
        plan.summary,
        "Successfully ingested 0 valid records from empty.csv"
    );
}

#[test]
fn crlf_and_blank_lines_tolerated() {
    let s = "CVE ID;Product\r\nCVE-1;Alpha\r\n\r\nCVE-2;Beta\r\n";
    let plan = plan_ingest("data.csv", s, ';').unwrap();
    assert_eq!(plan.dataset.record_count, 2);
}

#[test]
fn dataset_and_record_ids_are_opaque_36_chars() {
    let plan = plan_ingest("data.csv", &sample_two_rows(), ';').unwrap();
    assert_eq!(plan.dataset.id.chars().count(), 36);
    for r in &plan.records {
        assert_eq!(r.id.chars().count(), 36);
        assert_eq!(r.dataset_id, plan.dataset.id);
    }
}
