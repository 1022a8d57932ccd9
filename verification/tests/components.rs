use vulnmaster::assess::{prepare_expert_update, ExpertUpdate};
use vulnmaster::decode::parse_csv;
use vulnmaster::mapper::map_row;
use vulnmaster::score::{parse_score, Score};
use vulnmaster::text::{base_name, chars_of, string_from_chars, trimmed_len};
use vulnmaster::verbatim::encode_pairs;

fn score_value(s: &Score) -> f64 {
    let v = s.mantissa as f64 / 10f64.powi(s.frac as i32);
    if s.neg {
        -v
    } else {
        v
    }
}

// Locale numeric normalization: decimal comma reads as decimal point,
// anything unparsable defaults to zero.
#[test]
fn score_decimal_comma() {
    let s = parse_score(&chars_of("7,3"));
    assert_eq!(s.mantissa, 73);
    assert_eq!(s.frac, 1);
    assert!(!s.neg);
    assert_eq!(score_value(&s), 7.3);
}

#[test]
fn score_decimal_point() {
    let s = parse_score(&chars_of("9.8"));
    assert_eq!(score_value(&s), 9.8);
}

#[test]
fn score_unparsable_defaults_to_zero() {
    assert_eq!(score_value(&parse_score(&chars_of("not a number"))), 0.0);
    assert_eq!(score_value(&parse_score(&chars_of(""))), 0.0);
    assert_eq!(score_value(&parse_score(&chars_of("1,2,3"))), 0.0);
    assert_eq!(score_value(&parse_score(&chars_of("7.3.1"))), 0.0);
    assert_eq!(score_value(&parse_score(&chars_of(" 7.3"))), 0.0);
}

#[test]
fn score_plain_and_signed() {
    assert_eq!(score_value(&parse_score(&chars_of("10"))), 10.0);
    assert_eq!(score_value(&parse_score(&chars_of("+5"))), 5.0);
    assert_eq!(score_value(&parse_score(&chars_of("-2,5"))), -2.5);
    assert_eq!(score_value(&parse_score(&chars_of("0"))), 0.0);
}

// Validation gate: nine trimmed characters rejected, ten accepted.
#[test]
fn justification_nine_trimmed_chars_rejected() {
    let u = ExpertUpdate {
        id: "r1".to_string(),
        severity: "High".to_string(),
        vector: None,
        score: None,
        justification: "  123456789   ".to_string(),
    };
    let r = prepare_expert_update(u);
    assert_eq!(
        r.err().unwrap(),
        "Justification must be at least 10 characters long."
    );
}

#[test]
fn justification_ten_trimmed_chars_accepted() {
    let u = ExpertUpdate {
        id: "r1".to_string(),
        severity: "High".to_string(),
        vector: Some("AV:N".to_string()),
        score: Some(parse_score(&chars_of("8.1"))),
        justification: " 1234567890 ".to_string(),
    };
    let p = prepare_expert_update(u).unwrap();
    assert_eq!(p.update.severity, "High");
    assert_eq!(p.update.justification, " 1234567890 ");
    assert!(!p.updated_at.is_empty());
}

#[test]
fn trimmed_len_cases() {
    assert_eq!(trimmed_len(&chars_of("  abc  ")), 3);
    assert_eq!(trimmed_len(&chars_of("abc")), 3);
    assert_eq!(trimmed_len(&chars_of("   ")), 0);
    assert_eq!(trimmed_len(&chars_of("")), 0);
    assert_eq!(trimmed_len(&chars_of("\t a b \n")), 3);
}

#[test]
fn base_name_cases() {
    assert_eq!(string_from_chars(&base_name(&chars_of("/tmp/dir/data.csv"))), "data.csv");
    assert_eq!(string_from_chars(&base_name(&chars_of("C:\\exports\\d.csv"))), "d.csv");
    assert_eq!(string_from_chars(&base_name(&chars_of("plain.csv"))), "plain.csv");
    assert_eq!(string_from_chars(&base_name(&chars_of("/ends/with/"))), "unknown_file");
    assert_eq!(string_from_chars(&base_name(&chars_of(""))), "unknown_file");
}

#[test]
fn decode_quoted_fields() {
    let rows = parse_csv(&chars_of("A;B\n\"x;y\";\"q\"\"q\"\n"), ';').unwrap();
    assert_eq!(rows.len(), 2);
    let row: Vec<String> = rows[1].iter().map(string_from_chars).collect();
    assert_eq!(row, vec!["x;y".to_string(), "q\"q".to_string()]);
}

#[test]
fn decode_missing_trailing_field() {
    let rows = parse_csv(&chars_of("A;B\nv;\n"), ';').unwrap();
    assert_eq!(rows[1].len(), 2);
    assert_eq!(string_from_chars(&rows[1][1]), "");
}

#[test]
fn decode_matches_csv_crate_on_plain_rows() {
    let text = "A;B;C\na1;b1;c1\na2;b2;c2\n";
    let ours = parse_csv(&chars_of(text), ';').unwrap();
    let mut theirs = csv::ReaderBuilder::new()
        .delimiter(b';')
        .flexible(true)
        .has_headers(false)
        .from_reader(text.as_bytes());
    let mut their_rows: Vec<Vec<String>> = Vec::new();
    for rec in theirs.records() {
        let rec = rec.unwrap();
        their_rows.push(rec.iter().map(|f| f.to_string()).collect());
    }
    let our_rows: Vec<Vec<String>> = ours
        .iter()
        .map(|r| r.iter().map(string_from_chars).collect())
        .collect();
    assert_eq!(our_rows, their_rows);
}

#[test]
fn encode_pairs_escapes_and_orders() {
    let pairs = vec![
        (chars_of("plain"), chars_of("value")),
        (chars_of("quote"), chars_of("a\"b")),
        (chars_of("back"), chars_of("a\\b")),
        (chars_of("ctl"), chars_of("a\nb\tc")),
    ];
    let blob = string_from_chars(&encode_pairs(&pairs));
    assert_eq!(
        blob,
        "{\"plain\":\"value\",\"quote\":\"a\\\"b\",\"back\":\"a\\\\b\",\"ctl\":\"a\\u000ab\\u0009c\"}"
    );
    let v: serde_json::Value = serde_json::from_str(&blob).unwrap();
    assert_eq!(v.get("ctl").unwrap().as_str().unwrap(), "a\nb\tc");
}

#[test]
fn encode_pairs_empty_object() {
    let pairs: Vec<(Vec<char>, Vec<char>)> = Vec::new();
    assert_eq!(string_from_chars(&encode_pairs(&pairs)), "{}");
}

#[test]
fn map_row_rejects_only_doubly_empty() {
    let both_empty = vec![
        (chars_of("CVE ID"), chars_of("")),
        (chars_of("Product"), chars_of("")),
        (chars_of("Rationale"), chars_of("full")),
    ];
    assert!(map_row(&both_empty).is_none());
    let cve_only = vec![
        (chars_of("CVE ID"), chars_of("CVE-1")),
        (chars_of("Product"), chars_of("")),
    ];
    let m = map_row(&cve_only).unwrap();
    assert_eq!(m.cve_id, "CVE-1");
    assert_eq!(m.product, "");
}
