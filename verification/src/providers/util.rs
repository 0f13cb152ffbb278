//! What comes of running a command, and output that holds one document in
//! each line.
use crate::encoding;
use crate::encoding::{decode_lossy, decode_strict};
use crate::providers::listing;
use crate::text;
use vstd::prelude::*;
use vstd::string::*;

verus! {

// ---------------------------------------------------------------------------
// Commands
// ---------------------------------------------------------------------------
/// How a command ended.
#[derive(Debug)]
pub enum CommandEnd {
    /// It could not be started.
    NotStarted,
    /// It took too long.
    TimedOut,
    /// It ended, with what it printed.
    Exited { success: bool, stdout: Vec<u8> },
}

/// What a command printed, if it succeeded.
pub open spec fn printed(end: CommandEnd) -> Option<Seq<u8>> {
    match end {
        CommandEnd::Exited { success, stdout } => if success {
            Some(stdout@)
        } else {
            None
        },
        _ => None,
    }
}

/// What a command printed, if it succeeded.
pub fn raw_output(end: CommandEnd) -> (r: Option<Vec<u8>>)
    ensures
        match r {
            Some(b) => printed(end) == Some(b@),
            None => printed(end) is None,
        },
{
    match end {
        CommandEnd::Exited { success, stdout } => if success {
            Some(stdout)
        } else {
            None
        },
        _ => None,
    }
}

/// What a command printed as text, if it succeeded. Bytes that are no text
/// are replaced.
pub fn lossy_output(end: CommandEnd) -> (r: Option<String>)
    ensures
        text::opt_view(r) == (match printed(end) {
            Some(b) => Some(encoding::lossy_text(b)),
            None => None,
        }),
        printed(end) matches Some(b) ==> (vstd::utf8::valid_utf8(b) ==> text::opt_view(r) == Some(
            vstd::utf8::decode_utf8(b),
        )),
{
    match raw_output(end) {
        Some(b) => Some(decode_lossy(b.as_slice())),
        None => None,
    }
}

/// What a command printed as text, if it succeeded and printed nothing else.
pub fn strict_output(end: CommandEnd) -> (r: Option<String>)
    ensures
        text::opt_view(r) == (match printed(end) {
            Some(b) => if vstd::utf8::valid_utf8(b) {
                Some(vstd::utf8::decode_utf8(b))
            } else {
                None
            },
            None => None,
        }),
{
    match raw_output(end) {
        Some(b) => decode_strict(b),
        None => None,
    }
}

// ---------------------------------------------------------------------------
// One document in each line
// ---------------------------------------------------------------------------
/// The line, unless it is blank.
pub open spec fn unless_blank(line: Seq<char>) -> Option<Seq<char>> {
    if text::is_blank(line) {
        None
    } else {
        Some(line)
    }
}

/// The lines that are not blank.
pub open spec fn filled_lines(s: Seq<char>) -> Seq<Seq<char>> {
    listing::picked(text::lines(s), |l: Seq<char>| unless_blank(l))
}

/// The lines that are not blank.
pub fn filled_lines_of(s: &str) -> (r: Vec<String>)
    ensures
        text::views(r@) == filled_lines(s@),
{
    let lines = text::lines_of(s);
    let ghost all = text::lines(s@);
    let ghost f = |l: Seq<char>| unless_blank(l);
    let mut out: Vec<String> = Vec::new();
    let mut i: usize = 0;
    proof {
        assert(all.take(0) =~= Seq::empty());
        assert(text::views(out@) =~= Seq::empty());
    }
    while i < lines.len()
        invariant
            i <= lines.len(),
            all == text::views(lines@),
            f == (|l: Seq<char>| unless_blank(l)),
            text::views(out@) == listing::picked(all.take(i as int), f),
        decreases lines.len() - i,
    {
        proof {
            assert(all.take(i + 1).drop_last() =~= all.take(i as int));
            assert(all.take(i + 1).last() == lines@[i as int]@);
        }
        if !text::blank(&lines[i]) {
            let ghost before = out@;
            out.push(lines[i].clone());
            assert(text::views(out@) =~= text::views(before).push(lines@[i as int]@));
        }
        i += 1;
    }
    assert(all.take(all.len() as int) =~= all);
    out
}

/// That `parse` was given the line and made this of it.
pub open spec fn parsed_as<T, F: Fn(&str) -> Option<T>>(
    parse: F,
    line: Seq<char>,
    got: Option<T>,
) -> bool {
    exists|q: &str| q@ == line && #[trigger] call_ensures(parse, (q,), got)
}

/// That `parse` made the rows of the first lines.
pub open spec fn rows_parsed<T, F: Fn(&str) -> Option<T>>(
    parse: F,
    lines: Seq<Seq<char>>,
    rows: Seq<T>,
) -> bool {
    rows.len() <= lines.len() && forall|i: int|
        0 <= i < rows.len() ==> parsed_as(parse, #[trigger] lines[i], Some(rows[i]))
}

/// What output with one document in each line comes to: every row, or nothing
/// when a line does not parse.
pub open spec fn lines_result<T, F: Fn(&str) -> Option<T>>(
    parse: F,
    lines: Seq<Seq<char>>,
    r: Option<Seq<T>>,
) -> bool {
    match r {
        Some(rows) => rows.len() == lines.len() && rows_parsed(parse, lines, rows),
        None => exists|before: Seq<T>| #[trigger]
            rows_parsed(parse, lines, before) && before.len() < lines.len() && parsed_as(
                parse,
                lines[before.len() as int],
                None,
            ),
    }
}

/// The rows of output that holds one document in each line that is not blank,
/// unless one of them does not parse.
pub fn parse_json_lines<T, F: Fn(&str) -> Option<T>>(stdout: &str, parse: &F) -> (r: Option<
    Vec<T>,
>)
    requires
        forall|q: &str| #[trigger] call_requires(*parse, (q,)),
    ensures
        lines_result(
            *parse,
            filled_lines(stdout@),
            match r {
                Some(rows) => Some(rows@),
                None => None,
            },
        ),
{
    let lines = filled_lines_of(stdout);
    let ghost all = filled_lines(stdout@);
    let mut out: Vec<T> = Vec::new();
    let mut i: usize = 0;
    while i < lines.len()
        invariant
            i <= lines.len(),
            all == text::views(lines@),
            all == filled_lines(stdout@),
            out.len() == i,
            forall|q: &str| #[trigger] call_requires(*parse, (q,)),
            rows_parsed(*parse, all, out@),
        decreases lines.len() - i,
    {
        let q = lines[i].as_str();
        let got = parse(q);
        assert(call_ensures(*parse, (q,), got));
        assert(all[i as int] == q@);
        assert(parsed_as(*parse, all[i as int], got));
        match got {
            Some(row) => {
                let ghost before = out@;
                out.push(row);
                assert(rows_parsed(*parse, all, out@)) by {
                    assert forall|j: int| 0 <= j < out@.len() implies parsed_as(
                        *parse,
                        #[trigger] all[j],
                        Some(out@[j]),
                    ) by {
                        if j < before.len() {
                            assert(out@[j] == before[j]);
                        }
                    }
                }
            },
            None => {
                assert(rows_parsed(*parse, all, out@));
                return None;
            },
        }
        i += 1;
    }
    Some(out)
}

} // verus!
