//! Targets of the nearest makefile.
use crate::encoding;
use crate::encoding::decode_lossy;
use crate::providers::context::Provider;
use crate::providers::paths;
use crate::text;
use crate::types;
use crate::types::{provider_value, Suggestion};
use vstd::prelude::*;
use vstd::string::*;

verus! {

// ---------------------------------------------------------------------------
// Logical lines
// ---------------------------------------------------------------------------
/// A line without the carriage return at its end.
pub open spec fn without_cr(s: Seq<char>) -> Seq<char> {
    if s.len() > 0 && s.last() == '\r' {
        s.drop_last()
    } else {
        s
    }
}

/// Lines being joined.
#[verifier::ext_equal]
pub struct Joining {
    pub out: Seq<Seq<char>>,
    pub current: Seq<char>,
    /// Whether the line before ended in a backslash.
    pub continued: bool,
}

/// One physical line more. A backslash at its end goes, and the next line
/// follows after a space.
pub open spec fn join_line(st: Joining, piece: Seq<char>) -> Joining {
    let line = without_cr(piece);
    let begun = if st.continued {
        st.current.push(' ')
    } else {
        st.current
    };
    if line.len() > 0 && line.last() == '\\' {
        Joining { out: st.out, current: begun + line.drop_last(), continued: true }
    } else {
        Joining { out: st.out.push(begun + line), current: Seq::empty(), continued: false }
    }
}

pub open spec fn join_lines(pieces: Seq<Seq<char>>) -> Joining
    decreases pieces.len(),
{
    if pieces.len() == 0 {
        Joining { out: Seq::empty(), current: Seq::empty(), continued: false }
    } else {
        join_line(join_lines(pieces.drop_last()), pieces.last())
    }
}

/// The lines of a makefile with continuations joined.
pub open spec fn logical(s: Seq<char>) -> Seq<Seq<char>> {
    let st = join_lines(text::split(s, '\n'));
    if st.current.len() > 0 {
        st.out.push(st.current)
    } else {
        st.out
    }
}

/// The lines of a makefile with continuations joined.
pub fn logical_lines(s: &str) -> (r: Vec<String>)
    ensures
        text::views(r@) == logical(s@),
{
    let pieces = text::split_on(s, '\n');
    let ghost all = text::split(s@, '\n');
    let mut out: Vec<String> = Vec::new();
    let mut current = String::new();
    let mut continued = false;
    let mut i: usize = 0;
    proof {
        assert(all.take(0) =~= Seq::empty());
        assert(text::views(out@) =~= Seq::empty());
    }
    while i < pieces.len()
        invariant
            i <= pieces.len(),
            all == text::views(pieces@),
            join_lines(all.take(i as int)) == (Joining {
                out: text::views(out@),
                current: current@,
                continued,
            }),
        decreases pieces.len() - i,
    {
        let ghost st = join_lines(all.take(i as int));
        let ghost piece = pieces@[i as int]@;
        proof {
            assert(all.take(i + 1).drop_last() =~= all.take(i as int));
            assert(all.take(i + 1).last() == piece);
        }
        let x = text::chars_of(&pieces[i]);
        let mut n: usize = x.len();
        if n > 0 && x[n - 1] == '\r' {
            n -= 1;
        }
        let ghost line = without_cr(piece);
        assert(line =~= piece.take(n as int));
        if continued {
            current.push(' ');
        }
        if n > 0 && x[n - 1] == '\\' {
            let part = text::string_of(&x, 0, n - 1);
            assert(part@ =~= line.drop_last());
            current.append(&part);
            continued = true;
        } else {
            let part = text::string_of(&x, 0, n);
            assert(part@ =~= line);
            current.append(&part);
            let ghost before = out@;
            let mut done = String::new();
            std::mem::swap(&mut done, &mut current);
            out.push(done);
            assert(text::views(out@) =~= text::views(before).push(done@));
            continued = false;
        }
        i += 1;
    }
    assert(all.take(all.len() as int) =~= all);
    if !current.as_str().is_empty() {
        let ghost before = out@;
        let ghost last = current@;
        out.push(current);
        assert(text::views(out@) =~= text::views(before).push(last));
    }
    out
}

// ---------------------------------------------------------------------------
// Targets
// ---------------------------------------------------------------------------
/// Whether `a` directly before `b` occurs.
pub open spec fn has_pair(s: Seq<char>, a: char, b: char) -> bool {
    exists|i: int| 0 <= i < s.len() - 1 && #[trigger] s[i] == a && s[i + 1] == b
}

/// Whether a name is a target to suggest: no meta target, no pattern, and
/// nothing that make would have to expand.
pub open spec fn is_target(name: Seq<char>) -> bool {
    !(name.len() > 0 && name[0] == '.') && !has_pair(name, '$', '(') && !has_pair(name, '$', '{')
        && !name.contains('%')
}

/// Whether a line with its first colon at `c` is an assignment: the colon
/// begins `:=` or `::=`, or stands in the value behind an `=` before it.
pub open spec fn assigns(t: Seq<char>, c: int) -> bool {
    ||| text::find_from(t, '=', 0) < c
    ||| c + 1 < t.len() && t[c + 1] == '='
    ||| c + 2 < t.len() && t[c + 1] == ':' && t[c + 2] == '='
}

/// The line from its first character that is not white space.
pub open spec fn without_indent(line: Seq<char>) -> Seq<char> {
    line.skip(text::skip_white(line, 0))
}

/// Whether a line can be no rule at all: a recipe, a comment, blank, or a
/// meta target.
pub open spec fn is_skipped(line: Seq<char>) -> bool {
    let t = without_indent(line);
    ||| line.len() > 0 && (line[0] == '\t' || line[0] == '#')
    ||| t.len() == 0
    ||| t[0] == '#'
    ||| t[0] == '.'
}

/// The names before the colon of a rule.
pub open spec fn rule_names(line: Seq<char>) -> Seq<Seq<char>> {
    let t = without_indent(line);
    let c = text::find_from(t, ':', 0);
    if is_skipped(line) || c >= t.len() || assigns(t, c) {
        Seq::empty()
    } else {
        text::words(t.take(c))
    }
}

/// The names so far and one more, unless it is there already or is no target.
pub open spec fn with_name(out: Seq<Seq<char>>, name: Seq<char>) -> Seq<Seq<char>> {
    if is_target(name) && !out.contains(name) {
        out.push(name)
    } else {
        out
    }
}

pub open spec fn with_names(out: Seq<Seq<char>>, names: Seq<Seq<char>>) -> Seq<Seq<char>>
    decreases names.len(),
{
    if names.len() == 0 {
        out
    } else {
        with_name(with_names(out, names.drop_last()), names.last())
    }
}

pub open spec fn targets_of(lines: Seq<Seq<char>>) -> Seq<Seq<char>>
    decreases lines.len(),
{
    if lines.len() == 0 {
        Seq::empty()
    } else {
        with_names(targets_of(lines.drop_last()), rule_names(lines.last()))
    }
}

/// The targets of a makefile, each where it first occurs.
pub open spec fn makefile_targets(s: Seq<char>) -> Seq<Seq<char>> {
    targets_of(logical(s))
}

proof fn lemma_with_names(out: Seq<Seq<char>>, names: Seq<Seq<char>>)
    requires
        out.no_duplicates(),
        forall|i: int| 0 <= i < out.len() ==> is_target(#[trigger] out[i]),
    ensures
        with_names(out, names).no_duplicates(),
        forall|i: int|
            0 <= i < with_names(out, names).len() ==> is_target(
                #[trigger] with_names(out, names)[i],
            ),
    decreases names.len(),
{
    if names.len() > 0 {
        lemma_with_names(out, names.drop_last());
    }
}

proof fn lemma_targets_of(lines: Seq<Seq<char>>)
    ensures
        targets_of(lines).no_duplicates(),
        forall|i: int|
            0 <= i < targets_of(lines).len() ==> is_target(#[trigger] targets_of(lines)[i]),
    decreases lines.len(),
{
    if lines.len() > 0 {
        lemma_targets_of(lines.drop_last());
        lemma_with_names(targets_of(lines.drop_last()), rule_names(lines.last()));
    }
}

/// No target is suggested twice, and no meta target, pattern or name that
/// make would have to expand is suggested at all.
pub proof fn law_targets_distinct(s: Seq<char>)
    ensures
        makefile_targets(s).no_duplicates(),
        forall|i: int|
            0 <= i < makefile_targets(s).len() ==> is_target(#[trigger] makefile_targets(s)[i]),
{
    lemma_targets_of(logical(s));
}

fn holds_pair(x: &Vec<char>, a: char, b: char) -> (r: bool)
    ensures
        r == has_pair(x@, a, b),
{
    let mut i: usize = 0;
    while i < x.len()
        invariant
            i <= x.len(),
            forall|j: int| 0 <= j < i && j < x.len() - 1 ==> !(#[trigger] x@[j] == a && x@[j + 1] == b),
        decreases x.len() - i,
    {
        if i + 1 < x.len() && x[i] == a && x[i + 1] == b {
            assert(x@[i as int] == a);
            return true;
        }
        i += 1;
    }
    false
}

fn accepts(name: &str) -> (r: bool)
    ensures
        r == is_target(name@),
{
    let x = text::chars_of(name);
    !(x.len() > 0 && x[0] == '.') && !holds_pair(&x, '$', '(') && !holds_pair(&x, '$', '{')
        && !text::contains_char(name, '%')
}

fn names_of_rule(line: &str) -> (r: Vec<String>)
    ensures
        text::views(r@) == rule_names(line@),
{
    let x = text::chars_of(line);
    let none: Vec<String> = Vec::new();
    assert(text::views(none@) =~= Seq::empty());
    let a = text::white_end(&x, 0);
    let ghost t = without_indent(line@);
    proof {
        text::lemma_skip_white(line@, 0);
        assert(t =~= x@.skip(a as int));
    }
    if (x.len() > 0 && (x[0] == '\t' || x[0] == '#')) || a == x.len() || x[a] == '#' || x[a]
        == '.' {
        return none;
    }
    let c = text::find_char(&x, ':', a);
    proof {
        lemma_find_shift(x@, ':', a as int, a as int);
        lemma_find_shift(x@, '=', a as int, a as int);
    }
    if c == x.len() || text::find_char(&x, '=', a) < c {
        return none;
    }
    if c + 1 < x.len() && x[c + 1] == '=' {
        return none;
    }
    if c + 1 < x.len() - 1 && x[c + 1] == ':' && x[c + 2] == '=' {
        return none;
    }
    let lhs = text::string_of(&x, a, c);
    assert(lhs@ =~= t.take(c - a));
    text::words_of(&lhs)
}

/// Searching a suffix is searching from its start.
proof fn lemma_find_shift(s: Seq<char>, c: char, a: int, i: int)
    requires
        0 <= a <= i <= s.len(),
    ensures
        text::find_from(s.skip(a), c, i - a) == text::find_from(s, c, i) - a,
    decreases s.len() - i,
{
    if i < s.len() && s[i] != c {
        lemma_find_shift(s, c, a, i + 1);
    }
}

/// An assignment names no target, whatever stands in its value.
pub proof fn law_assignment_is_no_rule(line: Seq<char>, value: Seq<char>)
    requires
        line.len() > 0,
        line.last() == '=',
        !line.contains(':'),
    ensures
        rule_names(line + value) == Seq::<Seq<char>>::empty(),
{
    let s = line + value;
    let a = text::skip_white(s, 0);
    text::lemma_skip_white(s, 0);
    let t = without_indent(s);
    let n = line.len() - 1;
    assert(s[n] == '=');
    if a > n {
        assert(text::is_white(s[n]));
    }
    assert(t[n - a] == '=');
    lemma_find_before(t, '=', 0, n - a);
    let c = text::find_from(t, ':', 0);
    lemma_find_hit(t, ':', 0);
    if c <= n - a {
        assert(t[c] == s[a + c]);
        assert(line[a + c] == ':');
    }
}

proof fn lemma_find_before(s: Seq<char>, c: char, i: int, k: int)
    requires
        0 <= i <= k < s.len(),
        s[k] == c,
    ensures
        text::find_from(s, c, i) <= k,
    decreases k - i,
{
    if i < k && s[i] != c {
        lemma_find_before(s, c, i + 1, k);
    }
}

proof fn lemma_find_hit(s: Seq<char>, c: char, i: int)
    requires
        0 <= i <= s.len(),
    ensures
        i <= text::find_from(s, c, i) <= s.len(),
        text::find_from(s, c, i) < s.len() ==> s[text::find_from(s, c, i)] == c,
    decreases s.len() - i,
{
    if i < s.len() && s[i] != c {
        lemma_find_hit(s, c, i + 1);
    }
}

/// The targets of a makefile's text, in source order, each once.
pub fn parse_makefile_text(s: &str) -> (r: Vec<String>)
    ensures
        text::views(r@) == makefile_targets(s@),
{
    let lines = logical_lines(s);
    let ghost all = logical(s@);
    let mut out: Vec<String> = Vec::new();
    let mut i: usize = 0;
    proof {
        assert(all.take(0) =~= Seq::empty());
        assert(text::views(out@) =~= Seq::empty());
    }
    while i < lines.len()
        invariant
            i <= lines.len(),
            all == text::views(lines@),
            text::views(out@) == targets_of(all.take(i as int)),
        decreases lines.len() - i,
    {
        proof {
            assert(all.take(i + 1).drop_last() =~= all.take(i as int));
            assert(all.take(i + 1).last() == lines@[i as int]@);
        }
        let names = names_of_rule(&lines[i]);
        let ghost start = text::views(out@);
        let ghost ns = text::views(names@);
        let mut k: usize = 0;
        assert(ns.take(0) =~= Seq::empty());
        while k < names.len()
            invariant
                k <= names.len(),
                ns == text::views(names@),
                text::views(out@) == with_names(start, ns.take(k as int)),
            decreases names.len() - k,
        {
            proof {
                assert(ns.take(k + 1).drop_last() =~= ns.take(k as int));
                assert(ns.take(k + 1).last() == names@[k as int]@);
            }
            if accepts(&names[k]) && !text::lists(&out, &names[k]) {
                let ghost before = out@;
                out.push(names[k].clone());
                assert(text::views(out@) =~= text::views(before).push(names@[k as int]@));
            }
            k += 1;
        }
        assert(ns.take(ns.len() as int) =~= ns);
        i += 1;
    }
    assert(all.take(all.len() as int) =~= all);
    out
}

/// The targets of a makefile, in source order, each once.
pub fn parse_makefile_targets(bytes: &[u8]) -> (r: Vec<String>)
    ensures
        text::views(r@) == makefile_targets(encoding::lossy_text(bytes@)),
        vstd::utf8::valid_utf8(bytes@) ==> text::views(r@) == makefile_targets(
            vstd::utf8::decode_utf8(bytes@),
        ),
{
    parse_makefile_text(&decode_lossy(bytes))
}

// ---------------------------------------------------------------------------
// The provider
// ---------------------------------------------------------------------------
/// The names of a makefile, in order of precedence.
pub open spec fn makefile_names() -> Seq<Seq<char>> {
    seq!["GNUmakefile"@, "makefile"@, "Makefile"@]
}

/// The nearest makefile in `start` and above. Of several in one directory the
/// first in order of precedence counts.
pub fn find_makefile<F: Fn(&str) -> bool>(start: &str, is_file: F) -> (r: Option<String>)
    requires
        forall|q: &str| #[trigger] call_requires(is_file, (q,)),
    ensures
        paths::upward_result(is_file, start@, makefile_names(), text::opt_view(r)),
{
    let mut names: Vec<String> = Vec::new();
    names.push("GNUmakefile".to_owned());
    names.push("makefile".to_owned());
    names.push("Makefile".to_owned());
    assert(text::views(names@) =~= makefile_names());
    paths::find_upward(start, &names, is_file)
}

/// The targets as suggestions.
pub fn target_suggestions(targets: Vec<String>) -> (r: Vec<Suggestion>)
    ensures
        types::shown(r@) == text::views(targets@).map_values(
            |t: Seq<char>| types::provided(t, Some("Make target"@)),
        ),
{
    let mut out: Vec<Suggestion> = Vec::new();
    let mut i: usize = 0;
    while i < targets.len()
        invariant
            i <= targets.len(),
            out.len() == i,
            forall|j: int|
                0 <= j < i ==> (#[trigger] out@[j])@ == types::provided(
                    targets@[j]@,
                    Some("Make target"@),
                ),
        decreases targets.len() - i,
    {
        out.push(provider_value(targets[i].clone(), Some("Make target".to_owned())));
        i += 1;
    }
    assert(types::shown(out@) =~= text::views(targets@).map_values(
        |t: Seq<char>| types::provided(t, Some("Make target"@)),
    ));
    out
}

/// Targets of the nearest makefile.
pub struct MakefileTargets;

impl Provider for MakefileTargets {
    open spec fn provider_name(&self) -> Seq<char> {
        "makefile_targets"@
    }

    fn name(&self) -> (r: &'static str) {
        "makefile_targets"
    }
}

} // verus!
