//! Resolving a command line against a spec: which position of the tree it has
//! reached, and what can be suggested there.
use crate::providers::kind;
use crate::providers::kind::ProviderKind;
use crate::specs::model;
use crate::specs::model::{
    ArgSpec, ArgView, CompletionSpec, CompletionSpecView, EntryView, GeneratorSpec, GeneratorView,
    JsRuntimeKind, OptionSpec, OptionView, SubcommandSpec, SubcommandView, SuggestionEntry,
};
use crate::specs::validate;
use crate::text;
use crate::types;
use crate::types::{
    CommandContext, Suggestion, SuggestionKind, SuggestionSource, SuggestionView,
};
use std::sync::Arc;
use vstd::prelude::*;

verus! {

/// What can be suggested at a position of a spec.
#[derive(Debug)]
pub struct SpecResolution {
    pub subcommands: Vec<Suggestion>,
    pub options: Vec<Suggestion>,
    /// Values that the spec lists itself.
    pub static_suggestions: Vec<Suggestion>,
    /// `type` strings that are not providers.
    pub native_generators: Vec<String>,
    pub provider_generators: Vec<ProviderKind>,
    /// Generators that run a script or a JavaScript body.
    pub script_generators: Vec<Arc<GeneratorSpec>>,
    pub wants_filepaths: bool,
    pub wants_folders_only: bool,
    /// Whether the word at the cursor is an option's argument.
    pub preceding_flag_has_args: bool,
    /// Whether a `--` came before the cursor.
    pub past_double_dash: bool,
}

// ---------------------------------------------------------------------------
// Options and their arguments
// ---------------------------------------------------------------------------
/// Whether a word is written as a flag.
pub open spec fn is_flag(w: Seq<char>) -> bool {
    w.len() > 0 && w[0] == '-'
}

/// The flag without a `=value` behind it.
pub open spec fn base_flag(flag: Seq<char>) -> Seq<char> {
    match text::split_first(flag, '=') {
        Some(p) => p.0,
        None => flag,
    }
}

/// Whether the flag carries a value of its own.
pub open spec fn has_inline(flag: Seq<char>) -> bool {
    match text::split_first(flag, '=') {
        Some(p) => p.1.len() > 0,
        None => false,
    }
}

/// The first option from `i` on that has the name, or the number of options.
pub open spec fn option_named(options: Seq<OptionView>, name: Seq<char>, i: int) -> int
    decreases options.len() - i,
{
    if 0 <= i < options.len() && !options[i].name.contains(name) {
        option_named(options, name, i + 1)
    } else {
        i
    }
}

/// The option that a flag stands for.
pub open spec fn option_for(options: Seq<OptionView>, flag: Seq<char>) -> Option<OptionView> {
    let i = option_named(options, base_flag(flag), 0);
    if i < options.len() {
        Some(options[i])
    } else {
        None
    }
}

/// A `=value` makes no difference to which option a flag stands for.
pub proof fn law_inline_value_is_ignored(
    options: Seq<OptionView>,
    flag: Seq<char>,
    value: Seq<char>,
)
    requires
        !flag.contains('='),
    ensures
        option_for(options, flag + seq!['='] + value) == option_for(options, flag),
{
    let long = flag + seq!['='] + value;
    text::lemma_find_from(flag, '=', 0);
    let k = text::find_from(flag, '=', 0);
    if k < flag.len() {
        assert(flag[k] == '=');
        assert(flag.contains('='));
    }
    text::lemma_find_from(long, '=', 0);
    let j = text::find_from(long, '=', 0);
    assert(long[flag.len() as int] == '=');
    if j < flag.len() {
        assert(long[j] == flag[j]);
        assert(flag.contains('='));
    }
    assert(j == flag.len());
    assert(long.subrange(0, j) =~= flag);
}

/// How many arguments an option declares.
pub open spec fn arg_count(o: OptionView) -> nat {
    (if o.args is Some {
        1nat
    } else {
        0
    }) + o.extra_args.len()
}

/// The option's `i`-th argument.
pub open spec fn arg_at(o: OptionView, i: int) -> Option<ArgView> {
    if i == 0 {
        o.args
    } else if 0 < i <= o.extra_args.len() {
        Some(o.extra_args[i - 1])
    } else {
        None
    }
}

/// Whether the option's last argument takes any number of values.
pub open spec fn last_is_variadic(o: OptionView) -> bool {
    arg_count(o) > 0 && (arg_at(o, arg_count(o) - 1) matches Some(a) && a.is_variadic)
}

/// The number of words from `i` on up to the next flag.
pub open spec fn free_run(words: Seq<Seq<char>>, i: int) -> nat
    decreases words.len() - i,
{
    if 0 <= i < words.len() && !is_flag(words[i]) {
        1 + free_run(words, i + 1)
    } else {
        0
    }
}

/// How many values the option at word `i` has been given: one behind its `=`,
/// and the words after it, as far as the option takes them.
pub open spec fn completed_values(words: Seq<Seq<char>>, i: int, o: OptionView) -> nat {
    let inline = if has_inline(words[i]) {
        1nat
    } else {
        0
    };
    let given = inline + free_run(words, i + 1);
    if arg_count(o) == 0 {
        0
    } else if last_is_variadic(o) || given <= arg_count(o) {
        given
    } else {
        arg_count(o)
    }
}

/// How many words after word `i` are values of the option there: those that it
/// has been given, but for one that stands behind its `=`.
pub open spec fn value_words(words: Seq<Seq<char>>, i: int, o: OptionView) -> nat {
    let done = completed_values(words, i, o);
    if has_inline(words[i]) && done > 0 {
        (done - 1) as nat
    } else {
        done
    }
}

/// A value behind the `=` is no word of its own: an option with one argument
/// takes no word after it.
pub proof fn law_inline_value_is_no_word(words: Seq<Seq<char>>, i: int, o: OptionView)
    requires
        has_inline(words[i]),
        arg_count(o) == 1,
        !last_is_variadic(o),
    ensures
        value_words(words, i, o) == 0,
{
}

/// Whether the option at word `i` still waits for a value at the end of the
/// words, and for which argument.
pub open spec fn awaited(options: Seq<OptionView>, words: Seq<Seq<char>>, i: int) -> Option<
    Option<ArgView>,
> {
    if !is_flag(words[i]) {
        None
    } else {
        match option_for(options, words[i]) {
            None => None,
            Some(o) => {
                let done = completed_values(words, i, o);
                if arg_count(o) == 0 || i + 1 + value_words(words, i, o) != words.len() {
                    None
                } else if done < arg_count(o) {
                    Some(arg_at(o, done as int))
                } else if last_is_variadic(o) {
                    Some(arg_at(o, arg_count(o) - 1))
                } else {
                    None
                }
            },
        }
    }
}

/// The argument of the first option from word `i` on that waits for a value.
pub open spec fn first_awaited(options: Seq<OptionView>, words: Seq<Seq<char>>, i: int) -> Option<
    ArgView,
>
    decreases words.len() - i,
{
    if 0 <= i < words.len() {
        match awaited(options, words, i) {
            Some(a) => a,
            None => first_awaited(options, words, i + 1),
        }
    } else {
        None
    }
}

/// The option argument that the word at the cursor fills in, if it fills in
/// one.
pub open spec fn active_arg(
    options: Seq<OptionView>,
    words: Seq<Seq<char>>,
    preceding: Option<Seq<char>>,
) -> Option<ArgView> {
    match preceding {
        Some(flag) => match option_for(options, flag) {
            Some(o) => if flag.contains('=') {
                first_awaited(options, words, 0)
            } else {
                o.args
            },
            None => first_awaited(options, words, 0),
        },
        None => first_awaited(options, words, 0),
    }
}

fn starts_with_dash(w: &str) -> (r: bool)
    ensures
        r == is_flag(w@),
{
    let x = text::chars_of(w);
    x.len() > 0 && x[0] == '-'
}

fn has_inline_option_value(flag: &str) -> (r: bool)
    ensures
        r == has_inline(flag@),
{
    match text::split_once(flag, '=') {
        Some(p) => !p.1.as_str().is_empty(),
        None => false,
    }
}

fn has_name(o: &OptionSpec, name: &str) -> (r: bool)
    ensures
        r == o@.name.contains(name@),
{
    let ghost names = o@.name;
    let mut i: usize = 0;
    while i < o.name.len()
        invariant
            i <= o.name.len(),
            names == text::views(o.name@),
            forall|j: int| 0 <= j < i ==> #[trigger] names[j] != name@,
        decreases o.name.len() - i,
    {
        assert(names[i as int] == o.name@[i as int]@);
        if text::same(&o.name[i], name) {
            assert(names.contains(name@));
            return true;
        }
        i += 1;
    }
    false
}

/// The option that a flag stands for, whether or not it carries a value.
pub fn find_option<'a>(options: &'a Vec<OptionSpec>, flag: &str) -> (r: Option<&'a OptionSpec>)
    ensures
        match r {
            Some(o) => option_for(model::option_views(options@), flag@) == Some(o@),
            None => option_for(model::option_views(options@), flag@) is None,
        },
{
    let base = match text::split_once(flag, '=') {
        Some(p) => p.0,
        None => flag.to_owned(),
    };
    let ghost all = model::option_views(options@);
    assert(base@ == base_flag(flag@));
    let mut i: usize = 0;
    while i < options.len()
        invariant
            i <= options.len(),
            all == model::option_views(options@),
            base@ == base_flag(flag@),
            option_named(all, base@, 0) == option_named(all, base@, i as int),
        decreases options.len() - i,
    {
        assert(all[i as int] == options@[i as int]@);
        if has_name(&options[i], &base) {
            return Some(&options[i]);
        }
        i += 1;
    }
    None
}

/// The number of declared arguments, which need not fit in a `usize`.
fn option_arg_count(o: &OptionSpec) -> (r: u128)
    ensures
        r == arg_count(o@),
{
    let more = o.extra_args.len() as u128;
    if o.args.is_some() {
        more + 1
    } else {
        more
    }
}

fn option_arg_at(o: &OptionSpec, i: usize) -> (r: Option<&ArgSpec>)
    ensures
        match r {
            Some(a) => arg_at(o@, i as int) == Some(a@),
            None => arg_at(o@, i as int) is None,
        },
{
    if i == 0 {
        match &o.args {
            Some(a) => Some(a),
            None => None,
        }
    } else if i <= o.extra_args.len() {
        assert(o@.extra_args[i - 1] == o.extra_args@[i - 1]@);
        Some(&o.extra_args[i - 1])
    } else {
        None
    }
}

/// The option's last argument.
fn option_last_arg(o: &OptionSpec) -> (r: Option<&ArgSpec>)
    ensures
        match r {
            Some(a) => arg_count(o@) > 0 && arg_at(o@, arg_count(o@) - 1) == Some(a@),
            None => arg_count(o@) == 0 || arg_at(o@, arg_count(o@) - 1) is None,
        },
{
    let n: usize = o.extra_args.len();
    if o.args.is_some() {
        if n == 0 {
            option_arg_at(o, 0)
        } else {
            assert(o@.extra_args[n - 1] == o.extra_args@[n - 1]@);
            Some(&o.extra_args[n - 1])
        }
    } else if n > 0 {
        option_arg_at(o, n - 1)
    } else {
        None
    }
}

fn option_last_arg_is_variadic(o: &OptionSpec) -> (r: bool)
    ensures
        r == last_is_variadic(o@),
{
    match option_last_arg(o) {
        Some(a) => a.is_variadic,
        None => false,
    }
}

fn completed_option_value_count(args: &Vec<String>, flag_idx: usize, o: &OptionSpec) -> (r: usize)
    requires
        flag_idx < args.len(),
    ensures
        r == completed_values(text::views(args@), flag_idx as int, o@),
        r <= args.len() - flag_idx,
        !has_inline(args@[flag_idx as int]@) ==> r < args.len() - flag_idx,
{
    let ghost words = text::views(args@);
    let count = option_arg_count(o);
    if count == 0 {
        return 0;
    }
    let variadic = option_last_arg_is_variadic(o);
    assert(words[flag_idx as int] == args@[flag_idx as int]@);
    let inline = has_inline_option_value(&args[flag_idx]);
    let mut completed: usize = if inline {
        1
    } else {
        0
    };
    let ghost start = completed as nat;
    let mut idx: usize = flag_idx + 1;
    while idx < args.len() && !starts_with_dash(&args[idx]) && (variadic || (completed as u128)
        < count)
        invariant
            flag_idx < idx <= args.len(),
            words == text::views(args@),
            count == arg_count(o@),
            count >= 1,
            variadic == last_is_variadic(o@),
            start <= 1,
            completed == start + (idx - flag_idx - 1),
            start + free_run(words, flag_idx + 1) == completed + free_run(words, idx as int),
            variadic || completed <= count,
        decreases args.len() - idx,
    {
        assert(words[idx as int] == args@[idx as int]@);
        completed += 1;
        idx += 1;
    }
    proof {
        if idx < args.len() {
            assert(words[idx as int] == args@[idx as int]@);
        }
    }
    completed
}

/// The number of words after the flag that are its values.
fn value_word_count(args: &Vec<String>, flag_idx: usize, o: &OptionSpec) -> (r: usize)
    requires
        flag_idx < args.len(),
    ensures
        r == value_words(text::views(args@), flag_idx as int, o@),
        r < args.len() - flag_idx,
{
    assert(text::views(args@)[flag_idx as int] == args@[flag_idx as int]@);
    let completed = completed_option_value_count(args, flag_idx, o);
    if has_inline_option_value(&args[flag_idx]) && completed > 0 {
        completed - 1
    } else {
        completed
    }
}

/// The option argument that the next word would fill, where there is one.
fn active_option_arg_spec<'a>(
    options: &'a Vec<OptionSpec>,
    args: &Vec<String>,
    preceding_flag: &Option<String>,
) -> (r: Option<&'a ArgSpec>)
    ensures
        match r {
            Some(a) => active_arg(
                model::option_views(options@),
                text::views(args@),
                text::opt_view(*preceding_flag),
            ) == Some(a@),
            None => active_arg(
                model::option_views(options@),
                text::views(args@),
                text::opt_view(*preceding_flag),
            ) is None,
        },
{
    let ghost words = text::views(args@);
    let ghost all = model::option_views(options@);
    if let Some(flag) = preceding_flag {
        if !text::contains_char(flag, '=') {
            if let Some(o) = find_option(options, flag) {
                return option_arg_at(o, 0);
            }
        }
    }
    let mut i: usize = 0;
    while i < args.len()
        invariant
            i <= args.len(),
            words == text::views(args@),
            all == model::option_views(options@),
            active_arg(all, words, text::opt_view(*preceding_flag)) == first_awaited(all, words, 0),
            first_awaited(all, words, 0) == first_awaited(all, words, i as int),
        decreases args.len() - i,
    {
        assert(words[i as int] == args@[i as int]@);
        if starts_with_dash(&args[i]) {
            if let Some(o) = find_option(options, &args[i]) {
                let count = option_arg_count(o);
                if count > 0 {
                    let completed = completed_option_value_count(args, i, o);
                    if value_word_count(args, i, o) == args.len() - i - 1 {
                        if (completed as u128) < count {
                            return option_arg_at(o, completed);
                        } else if option_last_arg_is_variadic(o) {
                            return option_last_arg(o);
                        }
                    }
                }
            }
        }
        i += 1;
    }
    None
}

// ---------------------------------------------------------------------------
// The position in the tree
// ---------------------------------------------------------------------------
/// What can follow at some point of the command line.
#[verifier::ext_equal]
pub struct Position {
    pub subcommands: Seq<SubcommandView>,
    pub options: Seq<OptionView>,
    pub args: Seq<ArgView>,
}

/// The first subcommand from `i` on with the name, or the number of them.
pub open spec fn subcommand_named(subs: Seq<SubcommandView>, name: Seq<char>, i: int) -> int
    decreases subs.len() - i,
{
    if 0 <= i < subs.len() && subs[i].name != name {
        subcommand_named(subs, name, i + 1)
    } else {
        i
    }
}

/// The position below a subcommand.
pub open spec fn below(t: SubcommandView) -> Position {
    Position { subcommands: t.subcommands, options: t.options, args: t.args }
}

/// The words that a flag takes up besides itself.
pub open spec fn taken_by_flag(p: Position, words: Seq<Seq<char>>, i: int) -> nat {
    match option_for(p.options, words[i]) {
        Some(o) => value_words(words, i, o),
        None => 0,
    }
}

/// The position after the words from `i` on. A flag takes its values along. A
/// name of a subcommand leads below it, until a word that is none of them:
/// from there on, and from a `--` on, words are positional.
pub open spec fn walk(p: Position, words: Seq<Seq<char>>, i: int, positional: bool) -> Position
    decreases (if i < words.len() { words.len() - i } else { 0 }),
{
    if i < 0 || i >= words.len() {
        p
    } else if words[i] == "--"@ {
        walk(p, words, i + 1, true)
    } else if is_flag(words[i]) {
        walk(p, words, i + 1 + taken_by_flag(p, words, i), positional)
    } else {
        let k = subcommand_named(p.subcommands, words[i], 0);
        if !positional && k < p.subcommands.len() {
            walk(below(p.subcommands[k]), words, i + 1, false)
        } else {
            walk(p, words, i + 1, true)
        }
    }
}

/// The position that a command line has reached.
pub open spec fn reached(s: CompletionSpecView, words: Seq<Seq<char>>) -> Position {
    walk(
        Position { subcommands: s.subcommands, options: s.options, args: s.args },
        words,
        0,
        false,
    )
}

/// A part of the tree, by reference.
struct Place<'a> {
    subcommands: &'a Vec<SubcommandSpec>,
    options: &'a Vec<OptionSpec>,
    args: &'a Vec<ArgSpec>,
}

impl<'a> Place<'a> {
    spec fn pos(self) -> Position {
        Position {
            subcommands: model::sub_views(self.subcommands@),
            options: model::option_views(self.options@),
            args: model::arg_views(self.args@),
        }
    }
}

fn find_subcommand<'a>(subs: &'a Vec<SubcommandSpec>, name: &str) -> (r: Option<&'a SubcommandSpec>)
    ensures
        ({
            let all = model::sub_views(subs@);
            let k = subcommand_named(all, name@, 0);
            match r {
                Some(t) => k < all.len() && t@ == all[k],
                None => k >= all.len(),
            }
        }),
{
    let ghost all = model::sub_views(subs@);
    let mut i: usize = 0;
    while i < subs.len()
        invariant
            i <= subs.len(),
            all == model::sub_views(subs@),
            subcommand_named(all, name@, 0) == subcommand_named(all, name@, i as int),
        decreases subs.len() - i,
    {
        assert(all[i as int] == subs@[i as int]@);
        if text::same(&subs[i].name, name) {
            return Some(&subs[i]);
        }
        i += 1;
    }
    None
}

fn find_place<'a>(spec: &'a CompletionSpec, args: &Vec<String>) -> (r: Place<'a>)
    ensures
        r.pos() == reached(spec@, text::views(args@)),
{
    let ghost words = text::views(args@);
    let mut place = Place {
        subcommands: &spec.subcommands,
        options: &spec.options,
        args: &spec.args,
    };
    let mut positional = false;
    let mut i: usize = 0;
    while i < args.len()
        invariant
            i <= args.len(),
            words == text::views(args@),
            reached(spec@, words) == walk(place.pos(), words, i as int, positional),
        decreases args.len() - i,
    {
        assert(words[i as int] == args@[i as int]@);
        let word = &args[i];
        if text::same(word, "--") {
            positional = true;
            i += 1;
        } else if starts_with_dash(word) {
            let taken: usize = match find_option(place.options, word) {
                Some(o) => value_word_count(args, i, o),
                None => 0,
            };
            i = i + 1 + taken;
        } else {
            let below_here = if positional {
                None
            } else {
                find_subcommand(place.subcommands, word)
            };
            match below_here {
                Some(t) => {
                    proof {
                        model::lemma_sub_view(*t);
                    }
                    place = Place {
                        subcommands: &t.subcommands,
                        options: &t.options,
                        args: &t.args,
                    };
                },
                None => {
                    positional = true;
                },
            }
            i += 1;
        }
    }
    place
}

// ---------------------------------------------------------------------------
// What is suggested there
// ---------------------------------------------------------------------------
/// A suggestion that a spec makes.
pub open spec fn from_spec(
    text: Seq<char>,
    description: Option<Seq<char>>,
    kind: SuggestionKind,
    priority: Option<crate::types::Priority>,
) -> SuggestionView {
    SuggestionView { text, description, kind, source: SuggestionSource::Spec, priority }
}

fn spec_suggestion(
    text: String,
    description: Option<String>,
    kind: SuggestionKind,
    priority: Option<crate::types::Priority>,
) -> (r: Suggestion)
    ensures
        r@ == from_spec(text@, text::opt_view(description), kind, priority),
{
    Suggestion { text, description, kind, source: SuggestionSource::Spec, priority }
}

/// The subcommands of a position.
pub open spec fn subcommand_suggestions(subs: Seq<SubcommandView>) -> Seq<SuggestionView> {
    subs.map_values(
        |t: SubcommandView|
            from_spec(t.name, t.description, SuggestionKind::Subcommand, t.priority),
    )
}

/// One suggestion for each name of an option.
pub open spec fn names_of(o: OptionView) -> Seq<SuggestionView> {
    o.name.map_values(
        |n: Seq<char>| from_spec(n, o.description, SuggestionKind::Flag, o.priority),
    )
}

/// The options of a position, under each of their names.
pub open spec fn option_suggestions(options: Seq<OptionView>) -> Seq<SuggestionView>
    decreases options.len(),
{
    if options.len() == 0 {
        Seq::empty()
    } else {
        option_suggestions(options.drop_last()) + names_of(options.last())
    }
}

/// What a listed value's `type` string makes of it.
pub open spec fn kind_of_type(t: Option<Seq<char>>) -> SuggestionKind {
    match t {
        Some(s) => if s == "subcommand"@ {
            SuggestionKind::Subcommand
        } else if s == "option"@ {
            SuggestionKind::Flag
        } else if s == "file"@ {
            SuggestionKind::FilePath
        } else if s == "folder"@ {
            SuggestionKind::Directory
        } else {
            SuggestionKind::EnumValue
        },
        None => SuggestionKind::EnumValue,
    }
}

/// The suggestions of one listed value: one for each of its names, and none
/// if it cannot be shown.
pub open spec fn entry_suggestions(e: EntryView) -> Seq<SuggestionView> {
    if !validate::presentable(e) {
        Seq::empty()
    } else {
        match e {
            EntryView::Plain(s) => seq![from_spec(s, None, SuggestionKind::EnumValue, None)],
            EntryView::Object(o) => o.name.map_values(
                |n: Seq<char>| from_spec(n, o.description, kind_of_type(o.kind), o.priority),
            ),
        }
    }
}

/// The suggestions of all listed values.
pub open spec fn static_suggestions(es: Seq<EntryView>) -> Seq<SuggestionView>
    decreases es.len(),
{
    if es.len() == 0 {
        Seq::empty()
    } else {
        static_suggestions(es.drop_last()) + entry_suggestions(es.last())
    }
}

/// `type` strings that are served without a provider.
pub open spec fn is_native_type(s: Seq<char>) -> bool {
    ||| s == "git_branches"@
    ||| s == "git_tags"@
    ||| s == "git_remotes"@
    ||| s == "git_files"@
    ||| s == "filepaths"@
    ||| s == "folders"@
}

fn is_known_native(s: &str) -> (r: bool)
    ensures
        r == is_native_type(s@),
{
    text::same(s, "git_branches") || text::same(s, "git_tags") || text::same(s, "git_remotes")
        || text::same(s, "git_files") || text::same(s, "filepaths") || text::same(s, "folders")
}

/// What the generators and values of arguments come to.
#[verifier::ext_equal]
pub struct Collected {
    pub native: Seq<Seq<char>>,
    pub provider: Seq<ProviderKind>,
    pub script: Seq<GeneratorView>,
    pub statics: Seq<SuggestionView>,
    pub filepaths: bool,
    pub folders: bool,
}

/// Nothing yet.
pub open spec fn nothing() -> Collected {
    Collected {
        native: Seq::empty(),
        provider: Seq::empty(),
        script: Seq::empty(),
        statics: Seq::empty(),
        filepaths: false,
        folders: false,
    }
}

/// Whether a JavaScript body can be run: with the output of a script to work
/// on, or on its own.
pub open spec fn js_supported(g: GeneratorView) -> bool {
    match g.js_runtime {
        Some(rt) => match rt.kind {
            JsRuntimeKind::PostProcess => g.script is Some || g.script_template is Some,
            JsRuntimeKind::ScriptFunction | JsRuntimeKind::Custom => rt.self_contained
                && !text::is_blank(rt.source),
        },
        None => false,
    }
}

/// Whether a generator's `type` serves it, so that its script is not run.
pub open spec fn handled_by_type(g: GeneratorView) -> bool {
    g.generator_type matches Some(t) && (kind::kind_named(t) is Some || is_native_type(t))
}

/// Whether there is something to run.
pub open spec fn dispatchable(g: GeneratorView) -> bool {
    g.script is Some || g.script_template is Some || (g.requires_js && g.js_runtime is Some)
}

/// The folder and file wishes of a template.
pub open spec fn with_template(c: Collected, t: Option<Seq<char>>) -> Collected {
    Collected {
        filepaths: c.filepaths || t == Some("filepaths"@),
        folders: c.folders || t == Some("folders"@),
        ..c
    }
}

/// One generator more.
pub open spec fn with_generator(c: Collected, g: GeneratorView) -> Collected {
    if g.requires_js && !js_supported(g) {
        c
    } else {
        let typed = match g.generator_type {
            Some(t) => match kind::kind_named(t) {
                Some(k) => Collected { provider: c.provider.push(k), ..c },
                None => Collected { native: c.native.push(t), ..c },
            },
            None => c,
        };
        let run = if !handled_by_type(g) && dispatchable(g) {
            Collected { script: typed.script.push(g), ..typed }
        } else {
            typed
        };
        with_template(run, g.template)
    }
}

/// The generators, in order.
pub open spec fn with_generators(c: Collected, gs: Seq<GeneratorView>) -> Collected
    decreases gs.len(),
{
    if gs.len() == 0 {
        c
    } else {
        with_generator(with_generators(c, gs.drop_last()), gs.last())
    }
}

/// One argument more: its generators, its values and its template.
pub open spec fn with_arg(c: Collected, a: ArgView) -> Collected {
    let gens = with_generators(c, a.generators);
    with_template(
        Collected { statics: gens.statics + static_suggestions(a.suggestions), ..gens },
        a.template,
    )
}

/// The arguments, in order.
pub open spec fn with_args(c: Collected, v: Seq<ArgView>) -> Collected
    decreases v.len(),
{
    if v.len() == 0 {
        c
    } else {
        with_arg(with_args(c, v.drop_last()), v.last())
    }
}

/// Whether an argument says anything about its values.
pub open spec fn has_content(a: ArgView) -> bool {
    a.generators.len() > 0 || a.suggestions.len() > 0 || a.template == Some("filepaths"@)
        || a.template == Some("folders"@)
}

/// What the arguments at a position come to. The argument of an option goes
/// first, and the positional ones count only if it has nothing to say.
pub open spec fn collected(p: Position, active: Option<ArgView>) -> Collected {
    match active {
        Some(a) => if has_content(a) {
            with_arg(nothing(), a)
        } else {
            with_args(with_arg(nothing(), a), p.args)
        },
        None => with_args(nothing(), p.args),
    }
}

/// Lists under construction.
struct Bag {
    native: Vec<String>,
    provider: Vec<ProviderKind>,
    script: Vec<Arc<GeneratorSpec>>,
    statics: Vec<Suggestion>,
    filepaths: bool,
    folders: bool,
}

/// The contents of a list of shared generators.
pub open spec fn generator_views(v: Seq<Arc<GeneratorSpec>>) -> Seq<GeneratorView> {
    v.map_values(|g: Arc<GeneratorSpec>| (*g)@)
}

impl Bag {
    spec fn content(self) -> Collected {
        Collected {
            native: text::views(self.native@),
            provider: self.provider@,
            script: generator_views(self.script@),
            statics: types::shown(self.statics@),
            filepaths: self.filepaths,
            folders: self.folders,
        }
    }
}

fn note_template(bag: &mut Bag, template: &Option<String>)
    ensures
        final(bag).content() == with_template(old(bag).content(), text::opt_view(*template)),
{
    if let Some(t) = template {
        proof {
            reveal_strlit("filepaths");
            reveal_strlit("folders");
        }
        if text::same(t, "filepaths") {
            bag.filepaths = true;
        } else if text::same(t, "folders") {
            bag.folders = true;
        }
        assert("filepaths"@.len() != "folders"@.len());
    }
}

fn js_can_run(g: &GeneratorSpec) -> (r: bool)
    ensures
        r == js_supported(g@),
{
    match &g.js_runtime {
        Some(rt) => match rt.kind {
            JsRuntimeKind::PostProcess => g.script.is_some() || g.script_template.is_some(),
            JsRuntimeKind::ScriptFunction => rt.self_contained && !text::blank(&rt.source),
            JsRuntimeKind::Custom => rt.self_contained && !text::blank(&rt.source),
        },
        None => false,
    }
}

fn collect_generator(g: &GeneratorSpec, bag: &mut Bag)
    ensures
        final(bag).content() == with_generator(old(bag).content(), g@),
{
    if g.requires_js && !js_can_run(g) {
        return;
    }
    let ghost c0 = bag.content();
    let mut handled = false;
    if let Some(t) = &g.generator_type {
        match kind::kind_from_type_str(t) {
            Some(k) => {
                bag.provider.push(k);
                handled = true;
                assert(bag.content() == (Collected { provider: c0.provider.push(k), ..c0 }));
            },
            None => {
                let ghost before = bag.native@;
                handled = is_known_native(t);
                bag.native.push(t.clone());
                proof {
                    assert(text::views(bag.native@) =~= text::views(before).push(t@));
                    assert(bag.content() == (Collected { native: c0.native.push(t@), ..c0 }));
                }
            },
        }
    }
    assert(handled == handled_by_type(g@));
    let ghost c1 = bag.content();
    if !handled && (g.script.is_some() || g.script_template.is_some() || (g.requires_js
        && g.js_runtime.is_some())) {
        let ghost before = bag.script@;
        let copy = Arc::new(g.clone());
        bag.script.push(copy);
        proof {
            assert(generator_views(bag.script@) =~= generator_views(before).push(g@));
            assert(bag.content() == (Collected { script: c1.script.push(g@), ..c1 }));
        }
    }
    note_template(bag, &g.template);
}

fn collect_generators(generators: &Vec<GeneratorSpec>, bag: &mut Bag)
    ensures
        final(bag).content() == with_generators(
            old(bag).content(),
            generators@.map_values(|g: GeneratorSpec| g@),
        ),
{
    let ghost all = generators@.map_values(|g: GeneratorSpec| g@);
    let ghost c0 = bag.content();
    let mut i: usize = 0;
    assert(all.take(0) =~= Seq::empty());
    while i < generators.len()
        invariant
            i <= generators.len(),
            all == generators@.map_values(|g: GeneratorSpec| g@),
            bag.content() == with_generators(c0, all.take(i as int)),
        decreases generators.len() - i,
    {
        proof {
            assert(all.take(i + 1).drop_last() =~= all.take(i as int));
            assert(all.take(i + 1).last() == generators@[i as int]@);
        }
        collect_generator(&generators[i], bag);
        i += 1;
    }
    assert(all.take(all.len() as int) =~= all);
}

/// What a listed value's `type` string makes of it.
pub fn suggestion_kind_from_type(t: Option<&str>) -> (r: SuggestionKind)
    ensures
        r == kind_of_type(
            match t {
                Some(s) => Some(s@),
                None => None,
            },
        ),
{
    match t {
        Some(s) => {
            if text::same(s, "subcommand") {
                SuggestionKind::Subcommand
            } else if text::same(s, "option") {
                SuggestionKind::Flag
            } else if text::same(s, "file") {
                SuggestionKind::FilePath
            } else if text::same(s, "folder") {
                SuggestionKind::Directory
            } else {
                SuggestionKind::EnumValue
            }
        },
        None => SuggestionKind::EnumValue,
    }
}

fn collect_entry(e: &SuggestionEntry, out: &mut Vec<Suggestion>)
    ensures
        types::shown(final(out)@) == types::shown(old(out)@) + entry_suggestions(e@),
{
    let ghost s0 = types::shown(out@);
    if e.is_empty_name() || e.is_hidden() {
        assert(s0 + entry_suggestions(e@) =~= s0);
        return;
    }
    match e {
        SuggestionEntry::Plain(s) => {
            let ghost before = out@;
            let x = spec_suggestion(s.clone(), None, SuggestionKind::EnumValue, None);
            out.push(x);
            assert(types::shown(out@) =~= s0 + entry_suggestions(e@));
        },
        SuggestionEntry::Object(o) => {
            let kind = suggestion_kind_from_type(
                match &o.kind {
                    Some(k) => Some(k.as_str()),
                    None => None,
                },
            );
            let ghost want = entry_suggestions(e@);
            let ghost names = text::views(o.name@);
            let mut i: usize = 0;
            assert(s0 + want.take(0) =~= s0);
            while i < o.name.len()
                invariant
                    i <= o.name.len(),
                    names == text::views(o.name@),
                    kind == kind_of_type(text::opt_view(o.kind)),
                    want == names.map_values(
                        |n: Seq<char>|
                            from_spec(
                                n,
                                text::opt_view(o.description),
                                kind_of_type(text::opt_view(o.kind)),
                                o.priority,
                            ),
                    ),
                    types::shown(out@) == s0 + want.take(i as int),
                decreases o.name.len() - i,
            {
                let ghost before = out@;
                let x = spec_suggestion(
                    o.name[i].clone(),
                    text::clone_opt(&o.description),
                    kind,
                    o.priority,
                );
                out.push(x);
                proof {
                    assert(names[i as int] == o.name@[i as int]@);
                    assert(types::shown(out@) =~= types::shown(before).push(x@));
                    assert(want.take(i + 1) =~= want.take(i as int).push(x@));
                    assert(s0 + want.take(i + 1) =~= (s0 + want.take(i as int)).push(x@));
                }
                i += 1;
            }
            assert(want.take(want.len() as int) =~= want);
        },
    }
}

fn collect_static_suggestions(entries: &Vec<SuggestionEntry>, out: &mut Vec<Suggestion>)
    ensures
        types::shown(final(out)@) == types::shown(old(out)@) + static_suggestions(
            entries@.map_values(|e: SuggestionEntry| e@),
        ),
{
    let ghost all = entries@.map_values(|e: SuggestionEntry| e@);
    let ghost s0 = types::shown(out@);
    let mut i: usize = 0;
    proof {
        assert(all.take(0) =~= Seq::empty());
        assert(s0 + static_suggestions(all.take(0)) =~= s0);
    }
    while i < entries.len()
        invariant
            i <= entries.len(),
            all == entries@.map_values(|e: SuggestionEntry| e@),
            types::shown(out@) == s0 + static_suggestions(all.take(i as int)),
        decreases entries.len() - i,
    {
        proof {
            assert(all.take(i + 1).drop_last() =~= all.take(i as int));
            assert(all.take(i + 1).last() == entries@[i as int]@);
        }
        collect_entry(&entries[i], out);
        i += 1;
        assert(types::shown(out@) =~= s0 + static_suggestions(all.take(i as int)));
    }
    assert(all.take(all.len() as int) =~= all);
}

fn collect_arg(a: &ArgSpec, bag: &mut Bag)
    ensures
        final(bag).content() == with_arg(old(bag).content(), a@),
{
    collect_generators(&a.generators, bag);
    collect_static_suggestions(&a.suggestions, &mut bag.statics);
    note_template(bag, &a.template);
}

fn collect_args(v: &Vec<ArgSpec>, bag: &mut Bag)
    ensures
        final(bag).content() == with_args(old(bag).content(), model::arg_views(v@)),
{
    let ghost all = model::arg_views(v@);
    let ghost c0 = bag.content();
    let mut i: usize = 0;
    assert(all.take(0) =~= Seq::empty());
    while i < v.len()
        invariant
            i <= v.len(),
            all == model::arg_views(v@),
            bag.content() == with_args(c0, all.take(i as int)),
        decreases v.len() - i,
    {
        proof {
            assert(all.take(i + 1).drop_last() =~= all.take(i as int));
            assert(all.take(i + 1).last() == v@[i as int]@);
        }
        collect_arg(&v[i], bag);
        i += 1;
    }
    assert(all.take(all.len() as int) =~= all);
}

fn arg_spec_has_completion_content(a: &ArgSpec) -> (r: bool)
    ensures
        r == has_content(a@),
{
    assert(a@.generators.len() == a.generators.len());
    assert(a@.suggestions.len() == a.suggestions.len());
    a.generators.len() > 0 || a.suggestions.len() > 0 || match &a.template {
        Some(t) => text::same(t, "filepaths") || text::same(t, "folders"),
        None => false,
    }
}

fn list_subcommands(subs: &Vec<SubcommandSpec>) -> (r: Vec<Suggestion>)
    ensures
        types::shown(r@) == subcommand_suggestions(model::sub_views(subs@)),
{
    let mut out: Vec<Suggestion> = Vec::new();
    let ghost want = subcommand_suggestions(model::sub_views(subs@));
    let mut i: usize = 0;
    while i < subs.len()
        invariant
            i <= subs.len(),
            out.len() == i,
            want == subcommand_suggestions(model::sub_views(subs@)),
            forall|j: int| 0 <= j < i ==> (#[trigger] out@[j])@ == want[j],
        decreases subs.len() - i,
    {
        let t = &subs[i];
        out.push(
            spec_suggestion(
                t.name.clone(),
                text::clone_opt(&t.description),
                SuggestionKind::Subcommand,
                t.priority,
            ),
        );
        assert(model::sub_views(subs@)[i as int] == t@);
        i += 1;
    }
    assert(types::shown(out@) =~= want);
    out
}

fn list_options(options: &Vec<OptionSpec>) -> (r: Vec<Suggestion>)
    ensures
        types::shown(r@) == option_suggestions(model::option_views(options@)),
{
    let mut out: Vec<Suggestion> = Vec::new();
    let ghost all = model::option_views(options@);
    let mut i: usize = 0;
    proof {
        assert(all.take(0) =~= Seq::empty());
        assert(types::shown(out@) =~= option_suggestions(all.take(0)));
    }
    while i < options.len()
        invariant
            i <= options.len(),
            all == model::option_views(options@),
            types::shown(out@) == option_suggestions(all.take(i as int)),
        decreases options.len() - i,
    {
        let o = &options[i];
        let ghost s0 = types::shown(out@);
        let ghost want = names_of(o@);
        proof {
            assert(all.take(i + 1).drop_last() =~= all.take(i as int));
            assert(all.take(i + 1).last() == o@);
            assert(s0 + want.take(0) =~= s0);
        }
        let mut k: usize = 0;
        while k < o.name.len()
            invariant
                k <= o.name.len(),
                want == names_of(o@),
                types::shown(out@) == s0 + want.take(k as int),
            decreases o.name.len() - k,
        {
            let ghost before = out@;
            let x = spec_suggestion(
                o.name[k].clone(),
                text::clone_opt(&o.description),
                SuggestionKind::Flag,
                o.priority,
            );
            out.push(x);
            proof {
                assert(o@.name[k as int] == o.name@[k as int]@);
                assert(types::shown(out@) =~= types::shown(before).push(x@));
                assert(want.take(k + 1) =~= want.take(k as int).push(x@));
                assert(s0 + want.take(k + 1) =~= (s0 + want.take(k as int)).push(x@));
            }
            k += 1;
        }
        proof {
            assert(want.take(want.len() as int) =~= want);
        }
        i += 1;
    }
    assert(all.take(all.len() as int) =~= all);
    out
}

fn holds_double_dash(args: &Vec<String>) -> (r: bool)
    ensures
        r == text::views(args@).contains("--"@),
{
    let ghost words = text::views(args@);
    let mut i: usize = 0;
    while i < args.len()
        invariant
            i <= args.len(),
            words == text::views(args@),
            forall|j: int| 0 <= j < i ==> #[trigger] words[j] != "--"@,
        decreases args.len() - i,
    {
        assert(words[i as int] == args@[i as int]@);
        if text::same(&args[i], "--") {
            assert(words.contains("--"@));
            return true;
        }
        i += 1;
    }
    false
}

/// What can be suggested for a command line: the subcommands and options at
/// the position that it has reached, and the sources of values there.
pub fn resolve_spec(spec: &CompletionSpec, ctx: &CommandContext) -> (r: SpecResolution)
    ensures
        ({
            let words = text::views(ctx.args@);
            let p = reached(spec@, words);
            let active = active_arg(p.options, words, text::opt_view(ctx.preceding_flag));
            let c = collected(p, active);
            &&& types::shown(r.subcommands@) == subcommand_suggestions(p.subcommands)
            &&& types::shown(r.options@) == option_suggestions(p.options)
            &&& types::shown(r.static_suggestions@) == c.statics
            &&& text::views(r.native_generators@) == c.native
            &&& r.provider_generators@ == c.provider
            &&& generator_views(r.script_generators@) == c.script
            &&& r.wants_filepaths == c.filepaths
            &&& r.wants_folders_only == c.folders
            &&& r.preceding_flag_has_args == active is Some
            &&& r.past_double_dash == words.contains("--"@)
        }),
{
    let place = find_place(spec, &ctx.args);
    let subcommands = list_subcommands(place.subcommands);
    let options = list_options(place.options);
    let mut bag = Bag {
        native: Vec::new(),
        provider: Vec::new(),
        script: Vec::new(),
        statics: Vec::new(),
        filepaths: false,
        folders: false,
    };
    assert(bag.content() =~= nothing());
    let active = active_option_arg_spec(place.options, &ctx.args, &ctx.preceding_flag);
    let mut answered = false;
    let preceding_flag_has_args = active.is_some();
    if let Some(a) = active {
        answered = arg_spec_has_completion_content(a);
        collect_arg(a, &mut bag);
    }
    if !answered {
        collect_args(place.args, &mut bag);
    }
    SpecResolution {
        subcommands,
        options,
        static_suggestions: bag.statics,
        native_generators: bag.native,
        provider_generators: bag.provider,
        script_generators: bag.script,
        wants_filepaths: bag.filepaths,
        wants_folders_only: bag.folders,
        preceding_flag_has_args,
        past_double_dash: holds_double_dash(&ctx.args),
    }
}

} // verus!
