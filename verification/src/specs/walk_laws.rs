//! How a command line leads through the tree of a spec, word by word.
use crate::specs::model::{ArgView, CompletionSpecView, OptionView, SubcommandView};
use crate::specs::resolve;
use crate::specs::resolve::Position;
use crate::specs::resolve_laws;
use crate::text;
use crate::text_laws;
use vstd::prelude::*;
use vstd::string::*;

verus! {

/// Whether `t` is the subcommand that its name stands for: the first of that
/// name.
pub open spec fn stands_first(subs: Seq<SubcommandView>, t: SubcommandView) -> bool {
    exists|k: int|
        0 <= k < subs.len() && #[trigger] subs[k] == t && forall|j: int|
            0 <= j < k ==> (#[trigger] subs[j]).name != t.name
}

/// Whether `o` is the option that `name` stands for: the first that has it
/// among its names.
pub open spec fn stands_for(options: Seq<OptionView>, name: Seq<char>, o: OptionView) -> bool {
    exists|k: int|
        0 <= k < options.len() && #[trigger] options[k] == o && o.name.contains(name) && forall|
            j: int,
        |
            0 <= j < k ==> !(#[trigger] options[j]).name.contains(name)
}

proof fn lemma_subcommand_named(subs: Seq<SubcommandView>, name: Seq<char>, i: int, k: int)
    requires
        0 <= i <= k <= subs.len(),
        k < subs.len() ==> subs[k].name == name,
        forall|j: int| i <= j < k ==> (#[trigger] subs[j]).name != name,
    ensures
        resolve::subcommand_named(subs, name, i) == k,
    decreases k - i,
{
    if i < k {
        lemma_subcommand_named(subs, name, i + 1, k);
    }
}

proof fn lemma_option_named(options: Seq<OptionView>, name: Seq<char>, i: int, k: int)
    requires
        0 <= i <= k <= options.len(),
        k < options.len() ==> options[k].name.contains(name),
        forall|j: int| i <= j < k ==> !(#[trigger] options[j]).name.contains(name),
    ensures
        resolve::option_named(options, name, i) == k,
    decreases k - i,
{
    if i < k {
        lemma_option_named(options, name, i + 1, k);
    }
}

/// The words of a command line behind some others count as if they stood
/// alone.
proof fn lemma_free_run_shift(a: Seq<Seq<char>>, b: Seq<Seq<char>>, i: int)
    requires
        0 <= i,
    ensures
        resolve::free_run(a + b, a.len() + i) == resolve::free_run(b, i),
    decreases b.len() - i,
{
    if i < b.len() {
        assert((a + b)[a.len() + i] == b[i]);
        if !resolve::is_flag(b[i]) {
            lemma_free_run_shift(a, b, i + 1);
        }
    }
}

proof fn lemma_walk_shift(
    p: Position,
    a: Seq<Seq<char>>,
    b: Seq<Seq<char>>,
    i: int,
    positional: bool,
)
    requires
        0 <= i,
    ensures
        resolve::walk(p, a + b, a.len() + i, positional) == resolve::walk(p, b, i, positional),
    decreases (if i < b.len() { b.len() - i } else { 0 }),
{
    let s = a + b;
    let n = a.len() as int;
    if i < b.len() {
        assert(s[n + i] == b[i]);
        if b[i] == "--"@ {
            lemma_walk_shift(p, a, b, i + 1, true);
        } else if resolve::is_flag(b[i]) {
            lemma_free_run_shift(a, b, i + 1);
            let taken = resolve::taken_by_flag(p, b, i);
            assert(resolve::taken_by_flag(p, s, n + i) == taken);
            lemma_walk_shift(p, a, b, i + 1 + taken, positional);
        } else {
            let k = resolve::subcommand_named(p.subcommands, b[i], 0);
            if !positional && k < p.subcommands.len() {
                lemma_walk_shift(resolve::below(p.subcommands[k]), a, b, i + 1, false);
            } else {
                lemma_walk_shift(p, a, b, i + 1, true);
            }
        }
    }
}

/// Before any word the command line is at the top of the spec.
pub proof fn law_no_words(s: CompletionSpecView)
    ensures
        ({
            let p = resolve::reached(s, Seq::empty());
            p.subcommands == s.subcommands && p.options == s.options && p.args == s.args
        }),
{
}

/// The name of a subcommand leads below it: the words behind the name lead as
/// far as they would in a spec that declares what the subcommand declares.
pub proof fn law_descend(
    s: CompletionSpecView,
    t: SubcommandView,
    under: CompletionSpecView,
    more: Seq<Seq<char>>,
)
    requires
        stands_first(s.subcommands, t),
        t.name.len() == 0 || t.name[0] != '-',
        under.subcommands == t.subcommands,
        under.options == t.options,
        under.args == t.args,
    ensures
        resolve::reached(s, seq![t.name] + more) == resolve::reached(under, more),
{
    let words = seq![t.name] + more;
    let p = Position { subcommands: s.subcommands, options: s.options, args: s.args };
    let k = choose|k: int|
        0 <= k < s.subcommands.len() && #[trigger] s.subcommands[k] == t && forall|j: int|
            0 <= j < k ==> (#[trigger] s.subcommands[j]).name != t.name;
    lemma_subcommand_named(s.subcommands, t.name, 0, k);
    reveal_strlit("--");
    assert(words[0] == t.name);
    assert(t.name != "--"@) by {
        assert("--"@[0] == '-');
    }
    assert(resolve::walk(p, words, 0, false) == resolve::walk(
        resolve::below(t),
        words,
        1,
        false,
    ));
    lemma_walk_shift(resolve::below(t), seq![t.name], more, 0, false);
}

/// A path of subcommands, each the first of its name below the one before,
/// leads to the last of them, however long it is: what can follow is what the
/// last one declares.
pub proof fn law_path(s: CompletionSpecView, path: Seq<SubcommandView>)
    requires
        path.len() > 0,
        stands_first(s.subcommands, path[0]),
        forall|i: int|
            0 <= i < path.len() - 1 ==> stands_first(
                (#[trigger] path[i]).subcommands,
                path[i + 1],
            ),
        forall|i: int|
            0 <= i < path.len() ==> (#[trigger] path[i]).name.len() == 0 || path[i].name[0] != '-',
    ensures
        ({
            let p = resolve::reached(s, path.map_values(|t: SubcommandView| t.name));
            p.subcommands == path.last().subcommands && p.options == path.last().options && p.args
                == path.last().args
        }),
    decreases path.len(),
{
    let f = |t: SubcommandView| t.name;
    let t = path[0];
    let under = CompletionSpecView {
        name: t.name,
        description: t.description,
        subcommands: t.subcommands,
        options: t.options,
        args: t.args,
    };
    let rest = path.skip(1);
    assert(path.map_values(f) =~= seq![t.name] + rest.map_values(f));
    law_descend(s, t, under, rest.map_values(f));
    if path.len() == 1 {
        assert(rest.map_values(f) =~= Seq::empty());
        law_no_words(under);
    } else {
        assert(rest[0] == path[1]);
        assert(stands_first(path[0].subcommands, path[1]));
        assert forall|i: int| 0 <= i < rest.len() - 1 implies stands_first(
            (#[trigger] rest[i]).subcommands,
            rest[i + 1],
        ) by {
            assert(rest[i] == path[i + 1]);
            assert(rest[i + 1] == path[i + 1 + 1]);
        }
        assert forall|i: int| 0 <= i < rest.len() implies (#[trigger] rest[i]).name.len() == 0
            || rest[i].name[0] != '-' by {
            assert(rest[i] == path[i + 1]);
        }
        law_path(under, rest);
        assert(rest.last() == path.last());
    }
}

/// A word that is neither a flag nor the name of a subcommand ends the search:
/// whatever follows it, the command line stays where it was. So does `--`.
pub proof fn law_stay(s: CompletionSpecView, w: Seq<char>, more: Seq<Seq<char>>)
    requires
        w == seq!['-', '-'] || (w.len() == 0 || w[0] != '-') && forall|j: int|
            0 <= j < s.subcommands.len() ==> (#[trigger] s.subcommands[j]).name != w,
    ensures
        ({
            let p = resolve::reached(s, seq![w] + more);
            p.subcommands == s.subcommands && p.options == s.options && p.args == s.args
        }),
{
    let words = seq![w] + more;
    let p = Position { subcommands: s.subcommands, options: s.options, args: s.args };
    reveal_strlit("--");
    assert("--"@ =~= seq!['-', '-']);
    assert(words[0] == w);
    if w != "--"@ {
        lemma_subcommand_named(s.subcommands, w, 0, s.subcommands.len() as int);
    }
    resolve_laws::law_positional_words_stay_put(p, words, 1);
}

/// A flag as it is written: its name, and the value behind an `=`.
pub open spec fn written(name: Seq<char>, value: Option<Seq<char>>) -> Seq<char> {
    match value {
        Some(v) => name + seq!['='] + v,
        None => name,
    }
}

proof fn lemma_written(name: Seq<char>, value: Option<Seq<char>>)
    requires
        !name.contains('='),
    ensures
        resolve::base_flag(written(name, value)) == name,
        resolve::has_inline(written(name, value)) == (value matches Some(v) && v.len() > 0),
{
    match value {
        Some(v) => {
            text_laws::law_split(name, '=', v);
        },
        None => {
            text::lemma_find_from(name, '=', 0);
            let k = text::find_from(name, '=', 0);
            if k < name.len() {
                assert(name[k] == '=');
                assert(name.contains('='));
            }
        },
    }
}

/// Which option a flag stands for depends on its name alone, and is the first
/// one that has the name.
pub proof fn law_option(
    options: Seq<OptionView>,
    name: Seq<char>,
    value: Option<Seq<char>>,
    o: OptionView,
)
    requires
        !name.contains('='),
    ensures
        stands_for(options, name, o) ==> resolve::option_for(options, written(name, value)) == Some(
            o,
        ),
        (forall|j: int| 0 <= j < options.len() ==> !(#[trigger] options[j]).name.contains(name))
            ==> resolve::option_for(options, written(name, value)) is None,
{
    lemma_written(name, value);
    if stands_for(options, name, o) {
        let k = choose|k: int|
            0 <= k < options.len() && #[trigger] options[k] == o && o.name.contains(name)
                && forall|j: int| 0 <= j < k ==> !(#[trigger] options[j]).name.contains(name);
        lemma_option_named(options, name, 0, k);
    }
    if forall|j: int| 0 <= j < options.len() ==> !(#[trigger] options[j]).name.contains(name) {
        lemma_option_named(options, name, 0, options.len() as int);
    }
}

proof fn lemma_no_option(options: Seq<OptionView>, name: Seq<char>, value: Option<Seq<char>>)
    requires
        !name.contains('='),
        forall|j: int| 0 <= j < options.len() ==> !(#[trigger] options[j]).name.contains(name),
    ensures
        resolve::option_for(options, written(name, value)) is None,
{
    lemma_written(name, value);
    lemma_option_named(options, name, 0, options.len() as int);
}

/// A flag that stands for no option, or for one without arguments, takes no
/// word along: the words behind it lead as far as they would without it.
pub proof fn law_lone_flag(
    s: CompletionSpecView,
    name: Seq<char>,
    value: Option<Seq<char>>,
    more: Seq<Seq<char>>,
)
    requires
        !name.contains('='),
        name.len() > 0,
        name[0] == '-',
        written(name, value) != seq!['-', '-'],
        (forall|j: int|
            0 <= j < s.options.len() ==> !(#[trigger] s.options[j]).name.contains(name)) || (exists|
            o: OptionView,
        | #[trigger]
            stands_for(s.options, name, o) && o.args is None && o.extra_args.len() == 0),
    ensures
        resolve::reached(s, seq![written(name, value)] + more) == resolve::reached(s, more),
{
    let p = Position { subcommands: s.subcommands, options: s.options, args: s.args };
    let flag = written(name, value);
    let words = seq![flag] + more;
    reveal_strlit("--");
    assert("--"@ =~= seq!['-', '-']);
    assert(words[0] == flag);
    assert(flag[0] == '-');
    if exists|o: OptionView| #[trigger]
        stands_for(s.options, name, o) && o.args is None && o.extra_args.len() == 0 {
        let o = choose|o: OptionView| #[trigger]
            stands_for(s.options, name, o) && o.args is None && o.extra_args.len() == 0;
        law_option(s.options, name, value, o);
    } else {
        lemma_no_option(s.options, name, value);
    }
    assert(resolve::taken_by_flag(p, words, 0) == 0);
    lemma_walk_shift(p, seq![flag], more, 0, false);
}

/// How many arguments an option declares.
pub open spec fn declared(o: OptionView) -> Seq<ArgView> {
    match o.args {
        Some(a) => seq![a] + o.extra_args,
        None => o.extra_args,
    }
}

proof fn lemma_declared(o: OptionView)
    requires
        o.args is Some,
    ensures
        resolve::arg_count(o) == declared(o).len(),
        forall|i: int|
            0 <= i < declared(o).len() ==> resolve::arg_at(o, i) == Some(#[trigger] declared(o)[i]),
        resolve::last_is_variadic(o) == declared(o).last().is_variadic,
{
    let d = declared(o);
    assert forall|i: int| 0 <= i < d.len() implies resolve::arg_at(o, i) == Some(
        #[trigger] d[i],
    ) by {}
    assert(resolve::arg_at(o, d.len() - 1) == Some(d[d.len() - 1]));
}

proof fn lemma_free_run(vals: Seq<Seq<char>>, more: Seq<Seq<char>>, i: int)
    requires
        0 <= i <= vals.len(),
        forall|j: int|
            0 <= j < vals.len() ==> (#[trigger] vals[j]).len() == 0 || vals[j][0] != '-',
    ensures
        resolve::free_run(vals + more, i) == vals.len() - i + resolve::free_run(more, 0),
    decreases vals.len() - i,
{
    if i < vals.len() {
        assert((vals + more)[i] == vals[i]);
        lemma_free_run(vals, more, i + 1);
    } else {
        lemma_free_run_shift(vals, more, 0);
    }
}

/// Whether the words `vals`, and the value behind the `=`, are all that an
/// option with the arguments `d` is given when `more` follows them: as many as
/// it has arguments, or fewer (or, where the last argument takes any number,
/// more) up to the next flag or the end.
pub open spec fn are_values(
    d: Seq<ArgView>,
    value: Option<Seq<char>>,
    vals: Seq<Seq<char>>,
    more: Seq<Seq<char>>,
) -> bool {
    let inline: int = if value matches Some(v) && v.len() > 0 {
        1
    } else {
        0
    };
    let ends = more.len() == 0 || (more[0].len() > 0 && more[0][0] == '-');
    &&& forall|j: int| 0 <= j < vals.len() ==> (#[trigger] vals[j]).len() == 0 || vals[j][0] != '-'
    &&& if d.last().is_variadic {
        ends
    } else {
        vals.len() + inline == d.len() || (vals.len() + inline < d.len() && ends)
    }
}

proof fn lemma_values(
    o: OptionView,
    name: Seq<char>,
    value: Option<Seq<char>>,
    pre: Seq<Seq<char>>,
    vals: Seq<Seq<char>>,
    more: Seq<Seq<char>>,
)
    requires
        !name.contains('='),
        o.args is Some,
        are_values(declared(o), value, vals, more),
    ensures
        ({
            let words = pre + (seq![written(name, value)] + (vals + more));
            let inline: int = if value matches Some(v) && v.len() > 0 {
                1
            } else {
                0
            };
            &&& resolve::value_words(words, pre.len() as int, o) == vals.len()
            &&& resolve::completed_values(words, pre.len() as int, o) == vals.len() + inline
        }),
{
    let flag = written(name, value);
    let tail = seq![flag] + (vals + more);
    let words = pre + tail;
    let n = pre.len() as int;
    assert(words[n] == flag);
    lemma_written(name, value);
    lemma_declared(o);
    lemma_free_run_shift(pre, tail, 1);
    lemma_free_run_shift(seq![flag], vals + more, 0);
    lemma_free_run(vals, more, 0);
    assert(resolve::free_run(words, n + 1) == vals.len() + resolve::free_run(more, 0));
}

/// An option takes its values along: the words behind them lead as far as they
/// would without the flag and its values. In particular no value is taken for
/// the name of a subcommand.
pub proof fn law_flag_with_values(
    s: CompletionSpecView,
    o: OptionView,
    name: Seq<char>,
    value: Option<Seq<char>>,
    vals: Seq<Seq<char>>,
    more: Seq<Seq<char>>,
)
    requires
        !name.contains('='),
        name.len() > 0,
        name[0] == '-',
        written(name, value) != seq!['-', '-'],
        stands_for(s.options, name, o),
        o.args is Some,
        are_values(declared(o), value, vals, more),
    ensures
        resolve::reached(s, seq![written(name, value)] + vals + more) == resolve::reached(s, more),
{
    let p = Position { subcommands: s.subcommands, options: s.options, args: s.args };
    let flag = written(name, value);
    let words = seq![flag] + vals + more;
    reveal_strlit("--");
    assert("--"@ =~= seq!['-', '-']);
    assert(words[0] == flag);
    assert(flag[0] == '-');
    law_option(s.options, name, value, o);
    let none = Seq::<Seq<char>>::empty();
    lemma_values(o, name, value, none, vals, more);
    assert(none + (seq![flag] + (vals + more)) =~= words);
    assert(resolve::taken_by_flag(p, words, 0) == vals.len());
    lemma_walk_shift(p, seq![flag] + vals, more, 0, false);
}

// ---------------------------------------------------------------------------
// The argument at the cursor
// ---------------------------------------------------------------------------
/// No flag before the last one waits for a value.
proof fn lemma_first_awaited(
    options: Seq<OptionView>,
    words: Seq<Seq<char>>,
    i: int,
    k: int,
)
    requires
        0 <= i <= k <= words.len(),
        k < words.len() ==> resolve::is_flag(words[k]),
        forall|j: int| k < j < words.len() ==> !resolve::is_flag(#[trigger] words[j]),
        k == words.len() ==> forall|j: int|
            0 <= j < words.len() ==> !resolve::is_flag(#[trigger] words[j]),
    ensures
        resolve::first_awaited(options, words, i) == (if k < words.len() {
            match resolve::awaited(options, words, k) {
                Some(a) => a,
                None => None,
            }
        } else {
            None
        }),
    decreases k - i,
{
    if i < k {
        assert(resolve::awaited(options, words, i) is None) by {
            if resolve::is_flag(words[i]) {
                if let Some(o) = resolve::option_for(options, words[i]) {
                    lemma_run_stops(words, i + 1, k);
                }
            }
        }
        lemma_first_awaited(options, words, i + 1, k);
    } else if k < words.len() {
        if resolve::awaited(options, words, k) is None {
            lemma_none_awaited(options, words, k + 1);
        }
    }
}

proof fn lemma_run_stops(words: Seq<Seq<char>>, i: int, k: int)
    requires
        0 <= i <= k < words.len(),
        resolve::is_flag(words[k]),
    ensures
        resolve::free_run(words, i) <= k - i,
    decreases k - i,
{
    if i < k {
        lemma_run_stops(words, i + 1, k);
    }
}

proof fn lemma_none_awaited(options: Seq<OptionView>, words: Seq<Seq<char>>, i: int)
    requires
        0 <= i,
        forall|j: int| i <= j < words.len() ==> !resolve::is_flag(#[trigger] words[j]),
    ensures
        resolve::first_awaited(options, words, i) is None,
    decreases words.len() - i,
{
    if i < words.len() {
        lemma_none_awaited(options, words, i + 1);
    }
}

/// The last flag decides which option argument the next word fills in: the
/// first that has no value yet, or the last one where it takes any number.
/// Where all have their values, the next word fills in none. What stands
/// before the last flag makes no difference.
pub proof fn law_awaited_argument(
    options: Seq<OptionView>,
    o: OptionView,
    name: Seq<char>,
    value: Option<Seq<char>>,
    pre: Seq<Seq<char>>,
    vals: Seq<Seq<char>>,
)
    requires
        !name.contains('='),
        name.len() > 0,
        name[0] == '-',
        stands_for(options, name, o),
        o.args is Some,
        are_values(declared(o), value, vals, Seq::empty()),
    ensures
        ({
            let words = pre + seq![written(name, value)] + vals;
            let given: int = vals.len() + (if value matches Some(v) && v.len() > 0 {
                1int
            } else {
                0
            });
            let d = declared(o);
            resolve::active_arg(options, words, None) == (if given < d.len() {
                Some(d[given])
            } else if d.last().is_variadic {
                Some(d.last())
            } else {
                None
            })
        }),
{
    let none = Seq::<Seq<char>>::empty();
    let flag = written(name, value);
    let words = pre + seq![flag] + vals;
    let n = pre.len() as int;
    law_option(options, name, value, o);
    lemma_values(o, name, value, pre, vals, none);
    lemma_declared(o);
    assert(pre + (seq![flag] + (vals + none)) =~= words);
    assert(words[n] == flag);
    assert(flag[0] == '-');
    assert forall|j: int| n < j < words.len() implies !resolve::is_flag(#[trigger] words[j]) by {
        assert(words[j] == vals[j - n - 1]);
    }
    lemma_first_awaited(options, words, 0, n);
}

/// Words of which none is a flag wait for no option argument, and neither does
/// a last flag that stands for no option or for one without arguments.
pub proof fn law_nothing_awaited(
    options: Seq<OptionView>,
    pre: Seq<Seq<char>>,
    name: Seq<char>,
    value: Option<Seq<char>>,
    vals: Seq<Seq<char>>,
)
    requires
        forall|j: int| 0 <= j < vals.len() ==> (#[trigger] vals[j]).len() == 0 || vals[j][0] != '-',
        !name.contains('='),
        name.len() > 0,
        name[0] == '-',
        (forall|j: int| 0 <= j < options.len() ==> !(#[trigger] options[j]).name.contains(name))
            || (exists|o: OptionView| #[trigger]
            stands_for(options, name, o) && o.args is None && o.extra_args.len() == 0),
    ensures
        resolve::active_arg(options, vals, None) is None,
        resolve::active_arg(options, pre + seq![written(name, value)] + vals, None) is None,
{
    lemma_first_awaited(options, vals, 0, vals.len() as int);
    let flag = written(name, value);
    let words = pre + seq![flag] + vals;
    let n = pre.len() as int;
    if exists|o: OptionView| #[trigger]
        stands_for(options, name, o) && o.args is None && o.extra_args.len() == 0 {
        let o = choose|o: OptionView| #[trigger]
            stands_for(options, name, o) && o.args is None && o.extra_args.len() == 0;
        law_option(options, name, value, o);
    } else {
        lemma_no_option(options, name, value);
    }
    assert(words[n] == flag);
    assert(flag[0] == '-');
    assert forall|j: int| n < j < words.len() implies !resolve::is_flag(#[trigger] words[j]) by {
        assert(words[j] == vals[j - n - 1]);
    }
    lemma_first_awaited(options, words, 0, n);
}

/// A flag directly before the cursor is waiting for its first argument,
/// whatever the words are. One that carries its value behind an `=`, or that
/// stands for no option, says nothing more than the words do.
pub proof fn law_preceding_flag(
    options: Seq<OptionView>,
    o: OptionView,
    name: Seq<char>,
    value: Seq<char>,
    words: Seq<Seq<char>>,
)
    requires
        !name.contains('='),
    ensures
        stands_for(options, name, o) ==> resolve::active_arg(options, words, Some(name)) == o.args,
        resolve::active_arg(options, words, Some(name + seq!['='] + value)) == resolve::active_arg(
            options,
            words,
            None,
        ),
        (forall|j: int| 0 <= j < options.len() ==> !(#[trigger] options[j]).name.contains(name))
            ==> resolve::active_arg(options, words, Some(name)) == resolve::active_arg(
            options,
            words,
            None,
        ),
{
    law_option(options, name, None, o);
    law_option(options, name, Some(value), o);
    let long = name + seq!['='] + value;
    assert(long[name.len() as int] == '=');
    assert(long.contains('='));
}

} // verus!
