use vstd::prelude::*;

verus! {

// The recoverable side channel: every decoded column of a row, name and raw
// value alike, serialised into one text blob so that no information from
// the source row is lost even though only a few columns are queryable. The
// blob is a flat JSON object of string members, written in column order.
// Quotes and backslashes are escaped with a backslash; control characters
// are written as `\u00` followed by two lowercase hex digits. The parser
// accepts exactly such objects (plus the usual single-letter escapes), and
// parsing an encoded blob gives back precisely the encoded pairs.

/// Lowercase hexadecimal digit for a value between 0 and 15.
pub open spec fn hex_digit(d: int) -> char {
    if d < 10 {
        ((48 + d) as u8) as char
    } else {
        ((87 + d) as u8) as char
    }
}

pub open spec fn is_hex_char(c: char) -> bool {
    (48 <= c as int && c as int <= 57) || (97 <= c as int && c as int <= 102)
}

pub open spec fn hex_val(c: char) -> int {
    if 48 <= c as int && c as int <= 57 {
        c as int - 48
    } else {
        c as int - 87
    }
}

/// The escaped rendering of one character inside a JSON string.
pub open spec fn esc_char(c: char) -> Seq<char> {
    if c == '"' {
        seq!['\\', '"']
    } else if c == '\\' {
        seq!['\\', '\\']
    } else if (c as int) < 32 {
        seq!['\\', 'u', '0', '0', hex_digit(c as int / 16), hex_digit(c as int % 16)]
    } else {
        seq![c]
    }
}

/// The escaped rendering of a whole string body.
pub open spec fn esc_str(s: Seq<char>) -> Seq<char>
    decreases s.len(),
{
    if s.len() == 0 {
        Seq::empty()
    } else {
        esc_str(s.drop_last()) + esc_char(s.last())
    }
}

/// One serialised member: `"key":"value"`, both parts escaped.
pub open spec fn json_pair(k: Seq<char>, v: Seq<char>) -> Seq<char> {
    seq!['"'] + esc_str(k) + seq!['"', ':', '"'] + esc_str(v) + seq!['"']
}

/// The members after the first, each preceded by a comma.
pub open spec fn json_pairs_tail(ps: Seq<(Seq<char>, Seq<char>)>) -> Seq<char>
    decreases ps.len(),
{
    if ps.len() == 0 {
        Seq::empty()
    } else {
        seq![','] + json_pair(ps[0].0, ps[0].1) + json_pairs_tail(ps.drop_first())
    }
}

/// The serialised object holding every pair, in order.
pub open spec fn json_of(ps: Seq<(Seq<char>, Seq<char>)>) -> Seq<char> {
    if ps.len() == 0 {
        seq!['{', '}']
    } else {
        seq!['{'] + json_pair(ps[0].0, ps[0].1) + json_pairs_tail(ps.drop_first()) + seq!['}']
    }
}

fn hex_digit_exec(d: u32) -> (r: char)
    requires
        d < 16,
    ensures
        r == hex_digit(d as int),
{
    if d < 10 {
        ((48 + d) as u8) as char
    } else {
        ((87 + d) as u8) as char
    }
}

/// Appends the escaped rendering of one character.
fn push_esc_char(c: char, out: &mut Vec<char>)
    ensures
        final(out)@ == old(out)@ + esc_char(c),
{
    if c == '"' {
        out.push('\\');
        out.push('"');
    } else if c == '\\' {
        out.push('\\');
        out.push('\\');
    } else if (c as u32) < 32 {
        let n = c as u32;
        out.push('\\');
        out.push('u');
        out.push('0');
        out.push('0');
        out.push(hex_digit_exec(n / 16));
        out.push(hex_digit_exec(n % 16));
    } else {
        out.push(c);
    }
    proof {
        assert(out@ =~= old(out)@ + esc_char(c));
    }
}

/// Appends the escaped rendering of a whole string body.
fn push_esc(s: &Vec<char>, out: &mut Vec<char>)
    ensures
        final(out)@ == old(out)@ + esc_str(s@),
{
    let n = s.len();
    let mut i: usize = 0;
    while i < n
        invariant
            n == s@.len(),
            i <= n,
            out@ == old(out)@ + esc_str(s@.subrange(0, i as int)),
        decreases n - i,
    {
        push_esc_char(s[i], out);
        i = i + 1;
        proof {
            assert(s@.subrange(0, i as int).drop_last() =~= s@.subrange(0, i as int - 1));
            assert(s@.subrange(0, i as int).last() == s@[i as int - 1]);
        }
    }
    proof {
        assert(s@.subrange(0, n as int) =~= s@);
    }
}

/// Appends the members of `ps` from index `j` on, each preceded by a comma.
fn push_pairs_tail(ps: &Vec<(Vec<char>, Vec<char>)>, j: usize, out: &mut Vec<char>)
    requires
        j <= ps.len(),
    ensures
        final(out)@ == old(out)@ + json_pairs_tail(ps.deep_view().skip(j as int)),
    decreases ps.len() - j,
{
    if j < ps.len() {
        out.push(',');
        out.push('"');
        push_esc(&ps[j].0, out);
        out.push('"');
        out.push(':');
        out.push('"');
        push_esc(&ps[j].1, out);
        out.push('"');
        proof {
            assert(ps.deep_view().skip(j as int)[0] == ps.deep_view()[j as int]);
            assert(ps.deep_view()[j as int].0 =~= ps@[j as int].0@);
            assert(ps.deep_view()[j as int].1 =~= ps@[j as int].1@);
            assert(out@ =~= old(out)@ + seq![','] + json_pair(
                ps.deep_view()[j as int].0,
                ps.deep_view()[j as int].1,
            ));
        }
        push_pairs_tail(ps, j + 1, out);
        proof {
            assert(ps.deep_view().skip(j as int).drop_first() =~= ps.deep_view().skip(
                j as int + 1,
            ));
            assert(out@ =~= old(out)@ + json_pairs_tail(ps.deep_view().skip(j as int)));
        }
    } else {
        proof {
            assert(ps.deep_view().skip(j as int) =~= Seq::<(Seq<char>, Seq<char>)>::empty());
            assert(out@ =~= old(out)@ + json_pairs_tail(ps.deep_view().skip(j as int)));
        }
    }
}

/// Serialises every pair into the recoverable blob.
pub fn encode_pairs(ps: &Vec<(Vec<char>, Vec<char>)>) -> (r: Vec<char>)
    ensures
        r@ == json_of(ps.deep_view()),
{
    let mut out: Vec<char> = Vec::new();
    out.push('{');
    if ps.len() == 0 {
        out.push('}');
        proof {
            assert(out@ =~= json_of(ps.deep_view()));
        }
        return out;
    }
    out.push('"');
    push_esc(&ps[0].0, &mut out);
    out.push('"');
    out.push(':');
    out.push('"');
    push_esc(&ps[0].1, &mut out);
    out.push('"');
    proof {
        assert(ps.deep_view()[0].0 =~= ps@[0].0@);
        assert(ps.deep_view()[0].1 =~= ps@[0].1@);
        assert(out@ =~= seq!['{'] + json_pair(ps.deep_view()[0].0, ps.deep_view()[0].1));
    }
    push_pairs_tail(ps, 1, &mut out);
    out.push('}');
    proof {
        assert(ps.deep_view().skip(1) =~= ps.deep_view().drop_first());
        assert(out@ =~= json_of(ps.deep_view()));
    }
    out
}

/// Reads a string body from position `i` up to its closing quote,
/// unescaping as it goes: the accumulated characters and the position just
/// past the closing quote, or `None` when the body is malformed or
/// unterminated. Besides the escapes the encoder writes, the usual
/// single-letter escapes are accepted.
pub open spec fn scan_jstr(s: Seq<char>, i: int, acc: Seq<char>) -> Option<(Seq<char>, int)>
    decreases s.len() - i,
{
    if i < 0 || i >= s.len() {
        None
    } else {
        let c = s[i];
        if c == '"' {
            Some((acc, i + 1))
        } else if c == '\\' {
            if i + 1 >= s.len() {
                None
            } else {
                let e = s[i + 1];
                if e == '"' {
                    scan_jstr(s, i + 2, acc.push('"'))
                } else if e == '\\' {
                    scan_jstr(s, i + 2, acc.push('\\'))
                } else if e == '/' {
                    scan_jstr(s, i + 2, acc.push('/'))
                } else if e == 'n' {
                    scan_jstr(s, i + 2, acc.push('\n'))
                } else if e == 't' {
                    scan_jstr(s, i + 2, acc.push('\t'))
                } else if e == 'r' {
                    scan_jstr(s, i + 2, acc.push('\r'))
                } else if e == 'b' {
                    scan_jstr(s, i + 2, acc.push('\u{8}'))
                } else if e == 'f' {
                    scan_jstr(s, i + 2, acc.push('\u{c}'))
                } else if e == 'u' {
                    if i + 5 >= s.len() {
                        None
                    } else if s[i + 2] == '0' && s[i + 3] == '0' && is_hex_char(s[i + 4])
                        && is_hex_char(s[i + 5]) {
                        scan_jstr(
                            s,
                            i + 6,
                            acc.push(((hex_val(s[i + 4]) * 16 + hex_val(s[i + 5])) as u32) as char),
                        )
                    } else {
                        None
                    }
                } else {
                    None
                }
            }
        } else {
            scan_jstr(s, i + 1, acc.push(c))
        }
    }
}

/// Reads members from position `i` (which must hold the opening quote of a
/// key) to the closing brace, which must end the text.
pub open spec fn scan_jpairs(
    s: Seq<char>,
    i: int,
    acc: Seq<(Seq<char>, Seq<char>)>,
) -> Option<Seq<(Seq<char>, Seq<char>)>>
    decreases s.len() - i,
{
    if !(0 <= i && i < s.len() && s[i] == '"') {
        None
    } else {
        match scan_jstr(s, i + 1, Seq::empty()) {
            None => None,
            Some((k, j)) => {
                if !(0 <= j && j + 1 < s.len() && s[j] == ':' && s[j + 1] == '"') {
                    None
                } else {
                    match scan_jstr(s, j + 2, Seq::empty()) {
                        None => None,
                        Some((v, j2)) => {
                            if !(0 <= j2 && j2 < s.len()) {
                                None
                            } else if s[j2] == '}' {
                                if j2 + 1 == s.len() {
                                    Some(acc.push((k, v)))
                                } else {
                                    None
                                }
                            } else if s[j2] == ',' {
                                if i < j2 + 1 {
                                    scan_jpairs(s, j2 + 1, acc.push((k, v)))
                                } else {
                                    None
                                }
                            } else {
                                None
                            }
                        },
                    }
                }
            },
        }
    }
}

/// The pairs a serialised blob denotes: a flat object of string members,
/// or `None` when the text is not such an object.
pub open spec fn json_pairs_of(s: Seq<char>) -> Option<Seq<(Seq<char>, Seq<char>)>> {
    if s.len() >= 2 && s[0] == '{' {
        if s.len() == 2 && s[1] == '}' {
            Some(Seq::empty())
        } else {
            scan_jpairs(s, 1, Seq::empty())
        }
    } else {
        None
    }
}

/// The escaped rendering of a string, read from the front.
proof fn lemma_esc_str_first(s: Seq<char>)
    requires
        s.len() > 0,
    ensures
        esc_str(s) == esc_char(s[0]) + esc_str(s.drop_first()),
    decreases s.len(),
{
    if s.len() == 1 {
        assert(s.drop_last() =~= Seq::<char>::empty());
        assert(s.drop_first() =~= Seq::<char>::empty());
        assert(esc_str(s) =~= esc_char(s[0]) + esc_str(s.drop_first()));
    } else {
        lemma_esc_str_first(s.drop_last());
        assert(s.drop_last()[0] == s[0]);
        assert(s.drop_last().drop_first() =~= s.drop_first().drop_last());
        assert(s.drop_first().last() == s.last());
        assert(esc_str(s.drop_first()) == esc_str(s.drop_first().drop_last()) + esc_char(
            s.drop_first().last(),
        ));
        assert(esc_str(s) =~= esc_char(s[0]) + esc_str(s.drop_first()));
    }
}

/// A hex digit written by the encoder reads back as its value.
proof fn lemma_hex_digit_val(d: int)
    requires
        0 <= d < 16,
    ensures
        is_hex_char(hex_digit(d)),
        hex_val(hex_digit(d)) == d,
{
}

/// One character of a block known to sit inside `full` from position `i`.
proof fn chars_at(full: Seq<char>, i: int, b: Seq<char>, k: int)
    requires
        0 <= i,
        0 <= k < b.len(),
        i + b.len() <= full.len(),
        full.subrange(i, i + b.len()) == b,
    ensures
        full[i + k] == b[k],
{
    assert(full.subrange(i, i + b.len())[k] == full[i + k]);
}

/// Reading an escaped string body: the scanner consumes exactly the
/// escaped rendering and its closing quote and hands back the original
/// characters appended to the accumulator.
proof fn lemma_scan_esc(full: Seq<char>, i: int, s: Seq<char>, acc: Seq<char>)
    requires
        0 <= i,
        i + esc_str(s).len() + 1 <= full.len(),
        full.subrange(i, i + esc_str(s).len() + 1) == esc_str(s) + seq!['"'],
    ensures
        scan_jstr(full, i, acc) == Some((acc + s, i + esc_str(s).len() + 1)),
    decreases s.len(),
{
    let es = esc_str(s);
    let block = es + seq!['"'];
    assert(block.len() == es.len() + 1);
    if s.len() == 0 {
        assert(es.len() == 0);
        chars_at(full, i, block, 0);
        assert(full[i] == '"');
        assert(acc + s =~= acc);
    } else {
        lemma_esc_str_first(s);
        let c = s[0];
        let e = esc_char(c);
        let tail = s.drop_first();
        let et = esc_str(tail);
        assert(es == e + et);
        let off = e.len() as int;
        assert(i + off + et.len() + 1 <= full.len());
        assert forall|k: int| 0 <= k < off implies full[i + k] == e[k] by {
            chars_at(full, i, block, k);
            assert(block[k] == (e + et)[k]);
            assert((e + et)[k] == e[k]);
        }
        assert(full.subrange(i + off, i + off + et.len() + 1) =~= et + seq!['"']) by {
            assert forall|k: int| 0 <= k < et.len() + 1 implies full[i + off + k] == (et
                + seq!['"'])[k] by {
                chars_at(full, i, block, off + k);
                if k < et.len() {
                    assert(block[off + k] == (e + et)[off + k]);
                    assert((e + et)[off + k] == et[k]);
                } else {
                    assert(block[off + k] == '"');
                }
            }
        }
        if c == '"' {
            assert(full[i + 0] == e[0] && full[i + 1] == e[1]);
            assert(full[i] == '\\' && full[i + 1] == '"');
            lemma_scan_esc(full, i + 2, tail, acc.push('"'));
            assert(acc.push('"') + tail =~= acc + s);
        } else if c == '\\' {
            assert(full[i + 0] == e[0] && full[i + 1] == e[1]);
            assert(full[i] == '\\' && full[i + 1] == '\\');
            lemma_scan_esc(full, i + 2, tail, acc.push('\\'));
            assert(acc.push('\\') + tail =~= acc + s);
        } else if (c as int) < 32 {
            vstd::utf8::char_is_scalar(c);
            vstd::utf8::char_u32_cast(c, c as u32);
            assert(0 <= c as int);
            let hi = c as int / 16;
            let lo = c as int % 16;
            lemma_hex_digit_val(hi);
            lemma_hex_digit_val(lo);
            assert(full[i + 0] == e[0] && full[i + 1] == e[1] && full[i + 2] == e[2] && full[i + 3]
                == e[3] && full[i + 4] == e[4] && full[i + 5] == e[5]);
            assert(full[i] == '\\' && full[i + 1] == 'u' && full[i + 2] == '0' && full[i + 3]
                == '0');
            assert(full[i + 4] == hex_digit(hi) && full[i + 5] == hex_digit(lo));
            assert(hex_val(full[i + 4]) * 16 + hex_val(full[i + 5]) == c as int);
            assert(((hex_val(full[i + 4]) * 16 + hex_val(full[i + 5])) as u32) as char == c);
            lemma_scan_esc(full, i + 6, tail, acc.push(c));
            assert(acc.push(c) + tail =~= acc + s);
        } else {
            assert(full[i + 0] == e[0]);
            assert(full[i] == c);
            assert(c != '"' && c != '\\');
            lemma_scan_esc(full, i + 1, tail, acc.push(c));
            assert(acc.push(c) + tail =~= acc + s);
        }
    }
}

/// Reading the members rendered after the opening brace: the scanner
/// recovers exactly the rendered pairs, appended to the accumulator.
proof fn lemma_scan_pairs(
    full: Seq<char>,
    i: int,
    ps: Seq<(Seq<char>, Seq<char>)>,
    acc: Seq<(Seq<char>, Seq<char>)>,
)
    requires
        0 <= i <= full.len(),
        ps.len() > 0,
        full.subrange(i, full.len() as int) == json_pair(ps[0].0, ps[0].1) + json_pairs_tail(
            ps.drop_first(),
        ) + seq!['}'],
    ensures
        scan_jpairs(full, i, acc) == Some(acc + ps),
    decreases ps.len(),
{
    let k0 = ps[0].0;
    let v0 = ps[0].1;
    let rest = ps.drop_first();
    let jp = json_pair(k0, v0);
    let block = jp + json_pairs_tail(rest) + seq!['}'];
    let ek = esc_str(k0);
    let ev = esc_str(v0);
    assert(full.len() - i == block.len());
    assert(full.subrange(i, i + block.len()) == block);
    assert(jp == seq!['"'] + ek + seq!['"', ':', '"'] + ev + seq!['"']);
    assert(jp.len() == ek.len() + ev.len() + 5);
    chars_at(full, i, block, 0);
    assert(full[i] == '"');
    // the key body with its closing quote
    assert(full.subrange(i + 1, i + 1 + ek.len() + 1) =~= ek + seq!['"']) by {
        assert forall|k: int| 0 <= k < ek.len() + 1 implies full[i + 1 + k] == (ek
            + seq!['"'])[k] by {
            chars_at(full, i, block, 1 + k);
            assert(block[1 + k] == jp[1 + k]);
            if k < ek.len() {
                assert(jp[1 + k] == ek[k]);
            } else {
                assert(jp[1 + k] == '"');
            }
        }
    }
    lemma_scan_esc(full, i + 1, k0, Seq::empty());
    let j = i + 1 + ek.len() + 1;
    assert(Seq::empty() + k0 =~= k0);
    assert(scan_jstr(full, i + 1, Seq::empty()) == Some((k0, j)));
    chars_at(full, i, block, ek.len() as int + 2);
    assert(block[ek.len() as int + 2] == jp[ek.len() as int + 2]);
    assert(jp[ek.len() as int + 2] == ':');
    assert(full[j] == ':');
    chars_at(full, i, block, ek.len() as int + 3);
    assert(block[ek.len() as int + 3] == jp[ek.len() as int + 3]);
    assert(jp[ek.len() as int + 3] == '"');
    assert(full[j + 1] == '"');
    // the value body with its closing quote
    assert(full.subrange(j + 2, j + 2 + ev.len() + 1) =~= ev + seq!['"']) by {
        assert forall|k: int| 0 <= k < ev.len() + 1 implies full[j + 2 + k] == (ev
            + seq!['"'])[k] by {
            chars_at(full, i, block, ek.len() as int + 4 + k);
            assert(block[ek.len() as int + 4 + k] == jp[ek.len() as int + 4 + k]);
            if k < ev.len() {
                assert(jp[ek.len() as int + 4 + k] == ev[k]);
            } else {
                assert(jp[ek.len() as int + 4 + k] == '"');
            }
        }
    }
    lemma_scan_esc(full, j + 2, v0, Seq::empty());
    let j2 = j + 2 + ev.len() + 1;
    assert(Seq::empty() + v0 =~= v0);
    assert(scan_jstr(full, j + 2, Seq::empty()) == Some((v0, j2)));
    assert(j2 - i == jp.len());
    if rest.len() == 0 {
        assert(json_pairs_tail(rest) == Seq::<char>::empty());
        assert(block =~= jp + seq!['}']);
        chars_at(full, i, block, jp.len() as int);
        assert(block[jp.len() as int] == '}');
        assert(full[j2] == '}');
        assert(j2 + 1 == full.len());
        assert((k0, v0) == ps[0]);
        assert(acc.push(ps[0]) =~= acc + ps);
    } else {
        assert(json_pairs_tail(rest) == seq![','] + json_pair(rest[0].0, rest[0].1)
            + json_pairs_tail(rest.drop_first()));
        let rblock = json_pair(rest[0].0, rest[0].1) + json_pairs_tail(rest.drop_first())
            + seq!['}'];
        assert(block =~= (jp + seq![',']) + rblock);
        chars_at(full, i, block, jp.len() as int);
        assert(block[jp.len() as int] == ((jp + seq![',']) + rblock)[jp.len() as int]);
        assert(((jp + seq![',']) + rblock)[jp.len() as int] == ',');
        assert(full[j2] == ',');
        assert(full.subrange(j2 + 1, full.len() as int) =~= rblock) by {
            assert forall|k: int| 0 <= k < rblock.len() implies full[j2 + 1 + k] == rblock[k] by {
                chars_at(full, i, block, jp.len() as int + 1 + k);
                assert(block[jp.len() as int + 1 + k] == ((jp + seq![',']) + rblock)[jp.len() as int + 1 + k]);
                assert(((jp + seq![',']) + rblock)[jp.len() as int + 1 + k] == rblock[k]);
            }
        }
        lemma_scan_pairs(full, j2 + 1, rest, acc.push((k0, v0)));
        assert(acc.push((k0, v0)) + rest =~= acc + ps);
    }
}

/// Verbatim preservation: parsing an encoded blob gives back exactly the
/// encoded pairs — every column name with its original raw value, in
/// order. Nothing from the source row is lost in the side channel.
pub proof fn lemma_verbatim_round_trip(ps: Seq<(Seq<char>, Seq<char>)>)
    ensures
        json_pairs_of(json_of(ps)) == Some(ps),
{
    let s = json_of(ps);
    if ps.len() == 0 {
        assert(s =~= seq!['{', '}']);
        assert(json_pairs_of(s) == Some(Seq::<(Seq<char>, Seq<char>)>::empty()));
        assert(Seq::<(Seq<char>, Seq<char>)>::empty() =~= ps);
    } else {
        assert(s == seq!['{'] + json_pair(ps[0].0, ps[0].1) + json_pairs_tail(ps.drop_first())
            + seq!['}']);
        assert(s[0] == '{');
        assert(json_pair(ps[0].0, ps[0].1).len() >= 5);
        assert(s.len() >= 7);
        assert(s.subrange(1, s.len() as int) =~= json_pair(ps[0].0, ps[0].1) + json_pairs_tail(
            ps.drop_first(),
        ) + seq!['}']);
        lemma_scan_pairs(s, 1, ps, Seq::empty());
        assert(Seq::empty() + ps =~= ps);
    }
}

} // verus!
