use vstd::prelude::*;

verus! {

// The row decoder: turns the text of a delimited export into a sequence of
// records, each a sequence of raw field values. The delimiter is
// configuration (the target export format uses a semicolon); a double quote
// opens a quoted field, inside which the delimiter and line breaks are
// literal and a doubled quote stands for one quote character. Blank lines
// separate nothing and are ignored. Text that cannot be tokenised at all —
// a quote left open at end of input, or stray characters directly after a
// closing quote — fails the whole file; there is no safe resumption point
// inside a quoted-field format.

/// Position of the scanner inside the current field.
#[derive(PartialEq, Eq, Structural, Clone, Copy, Debug)]
pub enum FieldMode {
    /// At the start of a field, nothing read yet.
    Start,
    /// Inside an unquoted field.
    Unquoted,
    /// Inside a quoted field, after the opening quote.
    Quoted,
    /// Directly after a quote character read while inside a quoted field.
    QuoteSeen,
}

/// One step per character: the decoded records of `s` from position `i`
/// onward, given the field, row and records accumulated so far. `None`
/// means the text cannot be tokenised.
pub open spec fn scan_csv(
    s: Seq<char>,
    d: char,
    i: int,
    mode: FieldMode,
    field: Seq<char>,
    row: Seq<Seq<char>>,
    out: Seq<Seq<Seq<char>>>,
) -> Option<Seq<Seq<Seq<char>>>>
    decreases s.len() - i,
{
    if i < 0 || i > s.len() {
        None
    } else if i == s.len() {
        match mode {
            FieldMode::Quoted => None,
            FieldMode::Start => if row.len() == 0 {
                Some(out)
            } else {
                Some(out.push(row.push(field)))
            },
            _ => Some(out.push(row.push(field))),
        }
    } else {
        let c = s[i];
        match mode {
            FieldMode::Start => {
                if c == '"' {
                    scan_csv(s, d, i + 1, FieldMode::Quoted, field, row, out)
                } else if c == d {
                    scan_csv(s, d, i + 1, FieldMode::Start, Seq::empty(), row.push(field), out)
                } else if c == '\n' || c == '\r' {
                    if row.len() == 0 {
                        scan_csv(s, d, i + 1, FieldMode::Start, field, row, out)
                    } else {
                        scan_csv(
                            s,
                            d,
                            i + 1,
                            FieldMode::Start,
                            Seq::empty(),
                            Seq::empty(),
                            out.push(row.push(field)),
                        )
                    }
                } else {
                    scan_csv(s, d, i + 1, FieldMode::Unquoted, field.push(c), row, out)
                }
            },
            FieldMode::Unquoted => {
                if c == d {
                    scan_csv(s, d, i + 1, FieldMode::Start, Seq::empty(), row.push(field), out)
                } else if c == '\n' || c == '\r' {
                    scan_csv(
                        s,
                        d,
                        i + 1,
                        FieldMode::Start,
                        Seq::empty(),
                        Seq::empty(),
                        out.push(row.push(field)),
                    )
                } else {
                    scan_csv(s, d, i + 1, FieldMode::Unquoted, field.push(c), row, out)
                }
            },
            FieldMode::Quoted => {
                if c == '"' {
                    scan_csv(s, d, i + 1, FieldMode::QuoteSeen, field, row, out)
                } else {
                    scan_csv(s, d, i + 1, FieldMode::Quoted, field.push(c), row, out)
                }
            },
            FieldMode::QuoteSeen => {
                if c == '"' {
                    scan_csv(s, d, i + 1, FieldMode::Quoted, field.push('"'), row, out)
                } else if c == d {
                    scan_csv(s, d, i + 1, FieldMode::Start, Seq::empty(), row.push(field), out)
                } else if c == '\n' || c == '\r' {
                    scan_csv(
                        s,
                        d,
                        i + 1,
                        FieldMode::Start,
                        Seq::empty(),
                        Seq::empty(),
                        out.push(row.push(field)),
                    )
                } else {
                    None
                }
            },
        }
    }
}

/// The records encoded by `s` with delimiter `d`, or `None` when the text
/// cannot be tokenised.
pub open spec fn csv_records(s: Seq<char>, d: char) -> Option<Seq<Seq<Seq<char>>>> {
    scan_csv(s, d, 0, FieldMode::Start, Seq::empty(), Seq::empty(), Seq::empty())
}

/// Why a file could not be tokenised.
#[derive(PartialEq, Eq, Structural, Clone, Copy, Debug)]
pub enum CsvError {
    /// A quoted field was still open at the end of the input.
    UnterminatedQuote,
    /// A character other than a quote, the delimiter or a line break
    /// directly followed a closing quote.
    MalformedQuote,
}

/// Decodes a whole file into records of raw fields.
pub fn parse_csv(content: &Vec<char>, d: char) -> (r: Result<Vec<Vec<Vec<char>>>, CsvError>)
    ensures
        match r {
            Ok(rows) => csv_records(content@, d) == Some(rows.deep_view()),
            Err(_) => csv_records(content@, d) is None,
        },
{
    let n = content.len();
    let mut i: usize = 0;
    let mut mode = FieldMode::Start;
    let mut field: Vec<char> = Vec::new();
    let mut row: Vec<Vec<char>> = Vec::new();
    let mut out: Vec<Vec<Vec<char>>> = Vec::new();
    proof {
        assert(field.deep_view() =~~= Seq::<char>::empty());
        assert(row.deep_view() =~~= Seq::<Seq<char>>::empty());
        assert(out.deep_view() =~~= Seq::<Seq<Seq<char>>>::empty());
    }
    while i < n
        invariant
            n == content@.len(),
            i <= n,
            csv_records(content@, d) == scan_csv(
                content@,
                d,
                i as int,
                mode,
                field.deep_view(),
                row.deep_view(),
                out.deep_view(),
            ),
        decreases n - i,
    {
        let c = content[i];
        let ghost fdv = field.deep_view();
        let ghost rdv = row.deep_view();
        let ghost odv = out.deep_view();
        match mode {
            FieldMode::Start => {
                if c == '"' {
                    mode = FieldMode::Quoted;
                } else if c == d {
                    row.push(field);
                    field = Vec::new();
                    proof {
                        assert(row.deep_view() =~~= rdv.push(fdv));
                        assert(field.deep_view() =~~= Seq::<char>::empty());
                    }
                } else if c == '\n' || c == '\r' {
                    if row.len() > 0 {
                        row.push(field);
                        field = Vec::new();
                        out.push(row);
                        row = Vec::new();
                        proof {
                            assert(out.deep_view() =~~= odv.push(rdv.push(fdv)));
                            assert(field.deep_view() =~~= Seq::<char>::empty());
                            assert(row.deep_view() =~~= Seq::<Seq<char>>::empty());
                        }
                    }
                } else {
                    field.push(c);
                    mode = FieldMode::Unquoted;
                    proof {
                        assert(field.deep_view() =~~= fdv.push(c));
                    }
                }
            },
            FieldMode::Unquoted => {
                if c == d {
                    row.push(field);
                    field = Vec::new();
                    mode = FieldMode::Start;
                    proof {
                        assert(row.deep_view() =~~= rdv.push(fdv));
                        assert(field.deep_view() =~~= Seq::<char>::empty());
                    }
                } else if c == '\n' || c == '\r' {
                    row.push(field);
                    field = Vec::new();
                    out.push(row);
                    row = Vec::new();
                    mode = FieldMode::Start;
                    proof {
                        assert(out.deep_view() =~~= odv.push(rdv.push(fdv)));
                        assert(field.deep_view() =~~= Seq::<char>::empty());
                        assert(row.deep_view() =~~= Seq::<Seq<char>>::empty());
                    }
                } else {
                    field.push(c);
                    proof {
                        assert(field.deep_view() =~~= fdv.push(c));
                    }
                }
            },
            FieldMode::Quoted => {
                if c == '"' {
                    mode = FieldMode::QuoteSeen;
                } else {
                    field.push(c);
                    proof {
                        assert(field.deep_view() =~~= fdv.push(c));
                    }
                }
            },
            FieldMode::QuoteSeen => {
                if c == '"' {
                    field.push('"');
                    mode = FieldMode::Quoted;
                    proof {
                        assert(field.deep_view() =~~= fdv.push('"'));
                    }
                } else if c == d {
                    row.push(field);
                    field = Vec::new();
                    mode = FieldMode::Start;
                    proof {
                        assert(row.deep_view() =~~= rdv.push(fdv));
                        assert(field.deep_view() =~~= Seq::<char>::empty());
                    }
                } else if c == '\n' || c == '\r' {
                    row.push(field);
                    field = Vec::new();
                    out.push(row);
                    row = Vec::new();
                    mode = FieldMode::Start;
                    proof {
                        assert(out.deep_view() =~~= odv.push(rdv.push(fdv)));
                        assert(field.deep_view() =~~= Seq::<char>::empty());
                        assert(row.deep_view() =~~= Seq::<Seq<char>>::empty());
                    }
                } else {
                    return Err(CsvError::MalformedQuote);
                }
            },
        }
        i = i + 1;
    }
    match mode {
        FieldMode::Quoted => Err(CsvError::UnterminatedQuote),
        FieldMode::Start => {
            if row.len() == 0 {
                Ok(out)
            } else {
                let ghost fdv = field.deep_view();
                let ghost rdv = row.deep_view();
                let ghost odv = out.deep_view();
                row.push(field);
                out.push(row);
                proof {
                    assert(out.deep_view() =~~= odv.push(rdv.push(fdv)));
                }
                Ok(out)
            }
        },
        _ => {
            let ghost fdv = field.deep_view();
            let ghost rdv = row.deep_view();
            let ghost odv = out.deep_view();
            row.push(field);
            out.push(row);
            proof {
                assert(out.deep_view() =~~= odv.push(rdv.push(fdv)));
            }
            Ok(out)
        },
    }
}

} // verus!
