//! Client-side parsing of language feedback: severity classification of
//! prefixed lines, extraction of the corrected sentence, and splitting of
//! a corrected sentence into plain and corrected segments delimited by
//! `<<` and `>>`.

use vstd::prelude::*;
use vstd::string::*;
use crate::text::{eq_ignore_ascii_case_char, find_from, find_str, lemma_find_from, matches_at,
    matches_at_ignore_case, occurs_at, trim, trim_spec};

verus! {

/// The opening marker of a corrected segment.
pub open spec fn open_marker() -> Seq<char> {
    seq!['<', '<']
}

/// The closing marker of a corrected segment.
pub open spec fn close_marker() -> Seq<char> {
    seq!['>', '>']
}

/// One scan step of the corrected-sentence splitter, on the text remaining
/// after any previously emitted segments: text before the next `<<` is
/// plain, text up to the matching `>>` is corrected, an unmatched `<<`
/// makes the whole remainder corrected, and empty segments are skipped.
pub open spec fn corrected_loop_spec(s: Seq<char>) -> Seq<(bool, Seq<char>)>
    decreases s.len(),
    via corrected_loop_dec
{
    match find_from(s, open_marker(), 0) {
        None => if s.len() == 0 {
            Seq::empty()
        } else {
            seq![(false, s)]
        },
        Some(i) => {
            let before = s.take(i);
            let after = s.skip(i + 2);
            let head: Seq<(bool, Seq<char>)> = if before.len() > 0 {
                seq![(false, before)]
            } else {
                Seq::empty()
            };
            match find_from(after, close_marker(), 0) {
                None => head + if after.len() > 0 {
                    seq![(true, after)]
                } else {
                    Seq::empty()
                },
                Some(j) => {
                    let inner = after.take(j);
                    let mid: Seq<(bool, Seq<char>)> = if inner.len() > 0 {
                        seq![(true, inner)]
                    } else {
                        Seq::empty()
                    };
                    head + mid + corrected_loop_spec(after.skip(j + 2))
                }
            }
        }
    }
}

#[via_fn]
proof fn corrected_loop_dec(s: Seq<char>) {
    lemma_find_from(s, open_marker(), 0);
    match find_from(s, open_marker(), 0) {
        Some(i) => {
            let after = s.skip(i + 2);
            lemma_find_from(after, close_marker(), 0);
        }
        None => {}
    }
}

/// The corrected-sentence splitter: an empty input has no segments, an
/// input without `<<` is one whole corrected segment, anything else is
/// scanned by [`corrected_loop_spec`].
pub open spec fn corrected_parts_spec(s: Seq<char>) -> Seq<(bool, Seq<char>)> {
    if s.len() == 0 {
        Seq::empty()
    } else if find_from(s, open_marker(), 0) is None {
        seq![(true, s)]
    } else {
        corrected_loop_spec(s)
    }
}

/// Emits the segments of [`corrected_loop_spec`] for the remainder `s`.
fn parse_corrected_rest<'a>(s: &'a str, out: &mut Vec<(bool, &'a str)>)
    ensures
        final(out).deep_view() == old(out).deep_view() + corrected_loop_spec(s@),
    decreases s@.len(),
{
    proof {
        reveal_strlit("<<");
        reveal_strlit(">>");
        assert("<<"@ =~= open_marker());
        assert(">>"@ =~= close_marker());
        lemma_find_from(s@, open_marker(), 0);
    }
    let n = s.unicode_len();
    match find_str(s, "<<", 0) {
        None => {
            if n > 0 {
                out.push((false, s));
                proof {
                    assert(out.deep_view() =~= old(out).deep_view() + corrected_loop_spec(s@));
                }
            } else {
                proof {
                    assert(out.deep_view() =~= old(out).deep_view() + corrected_loop_spec(s@));
                }
            }
        }
        Some(i) => {
            if i > 0 {
                let before = s.substring_char(0, i);
                proof {
                    assert(before@ =~= s@.take(i as int));
                }
                out.push((false, before));
            }
            let after = s.substring_char(i + 2, n);
            proof {
                assert(after@ =~= s@.skip(i + 2));
                lemma_find_from(after@, close_marker(), 0);
            }
            let an = after.unicode_len();
            match find_str(after, ">>", 0) {
                None => {
                    if an > 0 {
                        out.push((true, after));
                    }
                    proof {
                        assert(out.deep_view() =~= old(out).deep_view() + corrected_loop_spec(s@));
                    }
                }
                Some(j) => {
                    if j > 0 {
                        let inner = after.substring_char(0, j);
                        proof {
                            assert(inner@ =~= after@.take(j as int));
                        }
                        out.push((true, inner));
                    }
                    let rest = after.substring_char(j + 2, an);
                    proof {
                        assert(rest@ =~= after@.skip(j + 2));
                    }
                    parse_corrected_rest(rest, out);
                    proof {
                        assert(out.deep_view() =~= old(out).deep_view() + corrected_loop_spec(s@));
                    }
                }
            }
        }
    }
}

/// Splits a corrected sentence into `(is_corrected, text)` segments.
///
/// Text between `<<` and `>>` is corrected; text outside is plain; a text
/// without any `<<` is one whole corrected segment; an unmatched `<<`
/// makes the remainder corrected; a stray `>>` is literal text; empty
/// segments are dropped and an empty input has none.
pub fn parse_corrected_parts<'a>(text: &'a str) -> (r: Vec<(bool, &'a str)>)
    ensures
        r.deep_view() == corrected_parts_spec(text@),
{
    proof {
        reveal_strlit("<<");
        assert("<<"@ =~= open_marker());
    }
    let mut out: Vec<(bool, &'a str)> = Vec::new();
    let n = s_len(text);
    if n == 0 {
        proof {
            assert(out.deep_view() =~= corrected_parts_spec(text@));
        }
        return out;
    }
    match find_str(text, "<<", 0) {
        None => {
            out.push((true, text));
            proof {
                assert(out.deep_view() =~= corrected_parts_spec(text@));
            }
            out
        }
        Some(_) => {
            parse_corrected_rest(text, &mut out);
            proof {
                assert(out.deep_view() =~= corrected_parts_spec(text@));
            }
            out
        }
    }
}

/// The character count of `s`.
fn s_len(s: &str) -> (n: usize)
    ensures
        n == s@.len(),
{
    s.unicode_len()
}

// --- severity classification -------------------------------------------

/// Whether every character of `c` may form an all-caps prefix word:
/// ASCII upper-case letters and underscores.
pub open spec fn all_caps(c: Seq<char>) -> bool {
    forall|j: int| 0 <= j < c.len() ==> ('A' <= c[j] && c[j] <= 'Z') || c[j] == '_'
}

/// Whether the first `c` characters of `line` are all upper-case ASCII
/// letters or underscores.
fn all_caps_prefix(line: &str, c: usize) -> (r: bool)
    requires
        c <= line@.len(),
    ensures
        r == all_caps(line@.take(c as int)),
{
    let mut k: usize = 0;
    while k < c
        invariant
            k <= c,
            c <= line@.len(),
            forall|j: int| 0 <= j < k ==> ('A' <= line@[j] && line@[j] <= 'Z') || line@[j] == '_',
        decreases c - k,
    {
        let ch = line.get_char(k);
        if !(ch >= 'A' && ch <= 'Z' || ch == '_') {
            proof {
                assert(line@.take(c as int)[k as int] == line@[k as int]);
            }
            return false;
        }
        k = k + 1;
    }
    proof {
        assert forall|j: int| 0 <= j < line@.take(c as int).len() implies ('A' <= line@.take(
            c as int,
        )[j] && line@.take(c as int)[j] <= 'Z') || line@.take(c as int)[j] == '_' by {
            assert(line@.take(c as int)[j] == line@[j]);
        }
    }
    true
}

/// How one feedback line is classified: a severity (`"red"` or `"blue"`)
/// and the trimmed content after the prefix, or nothing for an
/// unprefixed line.
///
/// `RED:` and `ORANGE:` are severe; `BLUE:` and `YELLOW:` are soft; any
/// other all-caps word before a colon is soft as well.
pub open spec fn classify_spec(l: Seq<char>) -> Option<(Seq<char>, Seq<char>)> {
    let red = seq!['r', 'e', 'd'];
    let blue = seq!['b', 'l', 'u', 'e'];
    if occurs_at(l, seq!['R', 'E', 'D', ':'], 0) {
        Some((red, trim_spec(l.skip(4))))
    } else if occurs_at(l, seq!['O', 'R', 'A', 'N', 'G', 'E', ':'], 0) {
        Some((red, trim_spec(l.skip(7))))
    } else if occurs_at(l, seq!['B', 'L', 'U', 'E', ':'], 0) {
        Some((blue, trim_spec(l.skip(5))))
    } else if occurs_at(l, seq!['Y', 'E', 'L', 'L', 'O', 'W', ':'], 0) {
        Some((blue, trim_spec(l.skip(7))))
    } else {
        match find_from(l, seq![':'], 0) {
            Some(c) => if c > 0 && all_caps(l.take(c)) {
                Some((blue, trim_spec(l.skip(c + 1))))
            } else {
                None
            },
            None => None,
        }
    }
}

/// Classifies one feedback line by its colour prefix.
///
/// Severe prefixes (`RED:`, `ORANGE:`) give `"red"`; known soft prefixes
/// and any other all-caps word before a colon give `"blue"`; the second
/// component is the trimmed text after the prefix. Unprefixed lines give
/// `None`.
pub fn classify_feedback_line<'a>(line: &'a str) -> (r: Option<(&'static str, &'a str)>)
    ensures
        match classify_spec(line@) {
            Some(p) => r matches Some(q) && q.0@ == p.0 && q.1@ == p.1,
            None => r is None,
        },
{
    proof {
        reveal_strlit("RED:");
        reveal_strlit("ORANGE:");
        reveal_strlit("BLUE:");
        reveal_strlit("YELLOW:");
        reveal_strlit(":");
        reveal_strlit("red");
        reveal_strlit("blue");
        assert("RED:"@ =~= seq!['R', 'E', 'D', ':']);
        assert("ORANGE:"@ =~= seq!['O', 'R', 'A', 'N', 'G', 'E', ':']);
        assert("BLUE:"@ =~= seq!['B', 'L', 'U', 'E', ':']);
        assert("YELLOW:"@ =~= seq!['Y', 'E', 'L', 'L', 'O', 'W', ':']);
        assert(":"@ =~= seq![':']);
        assert("red"@ =~= seq!['r', 'e', 'd']);
        assert("blue"@ =~= seq!['b', 'l', 'u', 'e']);
    }
    let n = line.unicode_len();
    if matches_at(line, "RED:", 0) {
        let rest = line.substring_char(4, n);
        proof {
            assert(rest@ =~= line@.skip(4));
        }
        return Some(("red", trim(rest)));
    }
    if matches_at(line, "ORANGE:", 0) {
        let rest = line.substring_char(7, n);
        proof {
            assert(rest@ =~= line@.skip(7));
        }
        return Some(("red", trim(rest)));
    }
    if matches_at(line, "BLUE:", 0) {
        let rest = line.substring_char(5, n);
        proof {
            assert(rest@ =~= line@.skip(5));
        }
        return Some(("blue", trim(rest)));
    }
    if matches_at(line, "YELLOW:", 0) {
        let rest = line.substring_char(7, n);
        proof {
            assert(rest@ =~= line@.skip(7));
        }
        return Some(("blue", trim(rest)));
    }
    proof {
        lemma_find_from(line@, seq![':'], 0);
    }
    match find_str(line, ":", 0) {
        Some(c) => {
            if c == 0 {
                return None;
            }
            if !all_caps_prefix(line, c) {
                return None;
            }
            let rest = line.substring_char(c + 1, n);
            proof {
                assert(rest@ =~= line@.skip(c + 1));
            }
            Some(("blue", trim(rest)))
        }
        None => None,
    }
}

// --- corrected-line extraction -----------------------------------------

/// The case-insensitive `CORRECTED:` prefix test on a trimmed line.
pub open spec fn is_corrected_line(t: Seq<char>) -> bool {
    t.len() >= 10 && forall|j: int|
        0 <= j < 10 ==> eq_ignore_ascii_case_char(
            t[j],
            seq!['C', 'O', 'R', 'R', 'E', 'C', 'T', 'E', 'D', ':'][j],
        )
}

/// The corrected sentence carried by the last `CORRECTED:` line of the
/// feedback, if any: the trimmed text after the prefix.
pub open spec fn corrected_of_lines(ls: Seq<Seq<char>>) -> Option<Seq<char>>
    decreases ls.len(),
{
    if ls.len() == 0 {
        None
    } else {
        let last = trim_spec(ls[ls.len() - 1]);
        if is_corrected_line(last) {
            Some(trim_spec(last.skip(10)))
        } else {
            corrected_of_lines(ls.drop_last())
        }
    }
}

/// The lines of `s`: split at `'\n'`, with a `'\r'` directly before the
/// split stripped, and no empty final line after a trailing newline.
pub open spec fn lines_spec(s: Seq<char>) -> Seq<Seq<char>>
    decreases s.len(),
    via lines_dec
{
    if s.len() == 0 {
        Seq::empty()
    } else {
        match find_from(s, seq!['\n'], 0) {
            None => seq![s],
            Some(i) => {
                let head = s.take(i);
                let stripped = if head.len() > 0 && head[head.len() - 1] == '\r' {
                    head.drop_last()
                } else {
                    head
                };
                seq![stripped] + lines_spec(s.skip(i + 1))
            }
        }
    }
}

#[via_fn]
proof fn lines_dec(s: Seq<char>) {
    if s.len() > 0 {
        lemma_find_from(s, seq!['\n'], 0);
    }
}

/// Splits `text` into its lines, as [`lines_spec`] prescribes.
pub fn split_lines<'a>(text: &'a str) -> (r: Vec<&'a str>)
    ensures
        r.deep_view() == lines_spec(text@),
{
    proof {
        reveal_strlit("\n");
        assert("\n"@ =~= seq!['\n']);
    }
    let mut out: Vec<&'a str> = Vec::new();
    let mut rest: &'a str = text;
    loop
        invariant
            out.deep_view() + lines_spec(rest@) == lines_spec(text@),
        decreases rest@.len(),
    {
        proof {
            reveal_strlit("\n");
            assert("\n"@ =~= seq!['\n']);
            lemma_find_from(rest@, seq!['\n'], 0);
        }
        let n = rest.unicode_len();
        if n == 0 {
            proof {
                assert(out.deep_view() + lines_spec(rest@) =~= out.deep_view());
            }
            return out;
        }
        match find_str(rest, "\n", 0) {
            None => {
                let ghost out_entry = out.deep_view();
                out.push(rest);
                proof {
                    assert(lines_spec(rest@) == seq![rest@]);
                    assert(lines_spec(text@) == out_entry + seq![rest@]);
                    assert(out.deep_view() =~= lines_spec(text@));
                }
                return out;
            }
            Some(i) => {
                let head = if i > 0 && rest.get_char(i - 1) == '\r' {
                    let h = rest.substring_char(0, i - 1);
                    proof {
                        assert(h@ =~= rest@.take(i as int).drop_last());
                    }
                    h
                } else {
                    let h = rest.substring_char(0, i);
                    proof {
                        assert(h@ =~= rest@.take(i as int));
                        if rest@.take(i as int).len() > 0 {
                            assert(rest@.take(i as int)[i - 1] == rest@[i - 1]);
                        }
                    }
                    h
                };
                let ghost prev_out = out.deep_view();
                let ghost prev_rest = rest@;
                out.push(head);
                let next = rest.substring_char(i + 1, n);
                proof {
                    assert(next@ =~= rest@.skip(i + 1));
                }
                rest = next;
                proof {
                    assert(out.deep_view() + lines_spec(rest@) =~= prev_out + lines_spec(
                        prev_rest,
                    ));
                }
            }
        }
    }
}

/// Finds the corrected sentence in a feedback text: the trimmed content
/// after the prefix of the last line whose trimmed form starts with
/// `CORRECTED:`, compared without regard to ASCII case.
pub fn extract_corrected<'a>(text: &'a str) -> (r: Option<&'a str>)
    ensures
        match corrected_of_lines(lines_spec(text@)) {
            Some(c) => r matches Some(s) && s@ == c,
            None => r is None,
        },
{
    let lines = split_lines(text);
    let mut k: usize = lines.len();
    proof {
        assert(lines.deep_view().take(k as int) =~= lines.deep_view());
    }
    while k > 0
        invariant
            k <= lines@.len(),
            lines.deep_view() == lines_spec(text@),
            corrected_of_lines(lines_spec(text@)) == corrected_of_lines(
                lines.deep_view().take(k as int),
            ),
        decreases k,
    {
        k = k - 1;
        let t = trim(lines[k]);
        proof {
            assert(lines.deep_view().take(k + 1).drop_last() =~= lines.deep_view().take(k as int));
            assert(lines.deep_view().take(k + 1)[k as int] == lines[k as int]@);
            reveal_strlit("CORRECTED:");
            assert("CORRECTED:"@ =~= seq!['C', 'O', 'R', 'R', 'E', 'C', 'T', 'E', 'D', ':']);
        }
        if matches_at_ignore_case(t, "CORRECTED:", 0) {
            let tn = t.unicode_len();
            let rest = t.substring_char(10, tn);
            proof {
                assert(rest@ =~= t@.skip(10));
            }
            return Some(trim(rest));
        }
    }
    proof {
        assert(lines.deep_view().take(0) =~= Seq::<Seq<char>>::empty());
    }
    None
}


// --- the rendered feedback ----------------------------------------------

/// The lines a feedback text renders, in order: each line is trimmed,
/// empty lines and corrected lines are skipped, classified lines carry
/// their severity, and unclassified lines render soft with their full
/// trimmed text.
pub open spec fn display_lines_spec(ls: Seq<Seq<char>>) -> Seq<(bool, Seq<char>)>
    decreases ls.len(),
{
    if ls.len() == 0 {
        Seq::empty()
    } else {
        let t = trim_spec(ls[0]);
        let rest = display_lines_spec(ls.drop_first());
        if t.len() == 0 || is_corrected_line(t) {
            rest
        } else {
            match classify_spec(t) {
                Some(p) => seq![(p.0 == seq!['r', 'e', 'd'], p.1)] + rest,
                None => seq![(false, t)] + rest,
            }
        }
    }
}

/// Lays out a feedback text for display: the classified lines in order,
/// each `(severe, content)`, and the corrected sentence of the last
/// `CORRECTED:` line if any. Corrected lines and empty lines do not
/// appear among the classified lines.
pub fn feedback_display_plan<'a>(text: &'a str) -> (r: (Vec<(bool, &'a str)>, Option<&'a str>))
    ensures
        r.0.deep_view() == display_lines_spec(lines_spec(text@)),
        match corrected_of_lines(lines_spec(text@)) {
            Some(c) => r.1 matches Some(s) && s@ == c,
            None => r.1 is None,
        },
{
    let corrected = extract_corrected(text);
    let lines = split_lines(text);
    let mut out: Vec<(bool, &'a str)> = Vec::new();
    let mut rest = lines;
    proof {
        reveal_strlit("CORRECTED:");
        assert("CORRECTED:"@ =~= seq!['C', 'O', 'R', 'R', 'E', 'C', 'T', 'E', 'D', ':']);
        reveal_strlit("red");
        assert("red"@ =~= seq!['r', 'e', 'd']);
    }
    while rest.len() > 0
        invariant
            out.deep_view() + display_lines_spec(rest.deep_view()) == display_lines_spec(
                lines_spec(text@),
            ),
        decreases rest@.len(),
    {
        proof {
            reveal_strlit("CORRECTED:");
            assert("CORRECTED:"@ =~= seq!['C', 'O', 'R', 'R', 'E', 'C', 'T', 'E', 'D', ':']);
            reveal_strlit("red");
            assert("red"@ =~= seq!['r', 'e', 'd']);
        }
        let ghost pre_rest = rest.deep_view();
        let ghost pre_out = out.deep_view();
        let line = rest.remove(0);
        proof {
            assert(rest.deep_view() =~= pre_rest.drop_first());
            assert(line@ == pre_rest[0]);
        }
        let t = trim(line);
        if t.unicode_len() == 0 || matches_at_ignore_case(t, "CORRECTED:", 0) {
            proof {
                assert(out.deep_view() + display_lines_spec(rest.deep_view())
                    =~= display_lines_spec(lines_spec(text@)));
            }
            continue;
        }
        match classify_feedback_line(t) {
            Some((severity, content)) => {
                let severe = matches_at(severity, "red", 0) && severity.unicode_len() == 3;
                proof {
                    if severe {
                        assert(severity@.subrange(0, 3) =~= severity@);
                    } else {
                        if severity@ == seq!['r', 'e', 'd'] {
                            assert(severity@.subrange(0, 3) =~= severity@);
                        }
                    }
                }
                out.push((severe, content));
            }
            None => {
                out.push((false, t));
            }
        }
        proof {
            assert(out.deep_view() =~= pre_out + seq![out.deep_view()[pre_out.len() as int]]);
            assert(out.deep_view() + display_lines_spec(rest.deep_view()) =~= display_lines_spec(
                lines_spec(text@),
            ));
        }
    }
    proof {
        assert(display_lines_spec(rest.deep_view()) =~= Seq::<(bool, Seq<char>)>::empty());
        assert(out.deep_view() =~= display_lines_spec(lines_spec(text@)));
    }
    (out, corrected)
}
} // verus!
