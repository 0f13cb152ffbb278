//! The values that completion produces and the command line that it reads.
use crate::sorting::Keyed;
use crate::text;
use vstd::prelude::*;

verus! {

/// What a suggestion stands for, as the popup shows it.
#[derive(Debug, Clone, Copy, PartialEq, Eq, Structural)]
pub enum SuggestionKind {
    Command,
    Subcommand,
    Flag,
    FilePath,
    Directory,
    EnumValue,
    ProviderValue,
}

/// Which part of the engine a suggestion comes from.
#[derive(Debug, Clone, Copy, PartialEq, Eq, Structural)]
pub enum SuggestionSource {
    Spec,
    Provider,
}

/// Ranking weight that a spec author gave an entry.
#[derive(Debug, Clone, Copy, PartialEq, Eq, Structural)]
pub struct Priority {
    pub value: u8,
}

impl Priority {
    pub fn new(value: u8) -> (r: Priority)
        ensures
            r.value == value,
    {
        Priority { value }
    }
}

/// One completion candidate.
#[derive(Debug)]
pub struct Suggestion {
    pub text: String,
    pub description: Option<String>,
    pub kind: SuggestionKind,
    pub source: SuggestionSource,
    pub priority: Option<Priority>,
}

/// The mathematical content of a [`Suggestion`].
#[verifier::ext_equal]
pub struct SuggestionView {
    pub text: Seq<char>,
    pub description: Option<Seq<char>>,
    pub kind: SuggestionKind,
    pub source: SuggestionSource,
    pub priority: Option<Priority>,
}

impl View for Suggestion {
    type V = SuggestionView;

    open spec fn view(&self) -> SuggestionView {
        SuggestionView {
            text: self.text@,
            description: text::opt_view(self.description),
            kind: self.kind,
            source: self.source,
            priority: self.priority,
        }
    }
}

impl Clone for Suggestion {
    fn clone(&self) -> (r: Self)
        ensures
            r@ == self@,
    {
        Suggestion {
            text: self.text.clone(),
            description: text::clone_opt(&self.description),
            kind: self.kind,
            source: self.source,
            priority: self.priority,
        }
    }
}

/// Suggestions are ordered by their text.
impl Keyed for Suggestion {
    open spec fn key_view(self) -> Seq<char> {
        self.text@
    }

    fn key(&self) -> (r: &str) {
        self.text.as_str()
    }
}

/// The contents of a sequence of suggestions.
pub open spec fn shown(v: Seq<Suggestion>) -> Seq<SuggestionView> {
    v.map_values(|s: Suggestion| s@)
}

/// A copy of a list of suggestions.
pub fn clone_suggestions(v: &Vec<Suggestion>) -> (r: Vec<Suggestion>)
    ensures
        shown(r@) == shown(v@),
{
    let mut out: Vec<Suggestion> = Vec::new();
    let mut i: usize = 0;
    while i < v.len()
        invariant
            i <= v.len(),
            out.len() == i,
            forall|j: int| 0 <= j < i ==> (#[trigger] out@[j])@ == v@[j]@,
        decreases v.len() - i,
    {
        out.push(v[i].clone());
        i += 1;
    }
    assert(shown(out@) =~= shown(v@));
    out
}

/// A value that a provider found, without ranking weight.
pub open spec fn provided(text: Seq<char>, description: Option<Seq<char>>) -> SuggestionView {
    SuggestionView {
        text,
        description,
        kind: SuggestionKind::ProviderValue,
        source: SuggestionSource::Provider,
        priority: None,
    }
}

/// A value that a provider found is shown under its own text, with nothing but
/// its own description, as a provider's value and without a priority.
pub proof fn law_provided(text: Seq<char>, description: Option<Seq<char>>)
    ensures
        provided(text, description).text == text,
        provided(text, description).description == description,
        provided(text, description).kind == SuggestionKind::ProviderValue,
        provided(text, description).source == SuggestionSource::Provider,
        provided(text, description).priority is None,
{
}

/// A value that a provider found.
pub fn provider_value(text: String, description: Option<String>) -> (r: Suggestion)
    ensures
        r@ == provided(text@, text::opt_view(description)),
{
    Suggestion {
        text,
        description,
        kind: SuggestionKind::ProviderValue,
        source: SuggestionSource::Provider,
        priority: None,
    }
}

/// How the word under the cursor is quoted.
#[derive(Debug, Clone, Copy, PartialEq, Eq, Structural)]
pub enum QuoteState {
    Unquoted,
    Single,
    Double,
}

/// The command line up to the cursor, cut into words.
#[derive(Debug)]
pub struct CommandContext {
    pub command: Option<String>,
    /// The complete words after the command and before the current word.
    pub args: Vec<String>,
    pub current_word: String,
    pub word_index: usize,
    pub is_flag: bool,
    pub is_long_flag: bool,
    /// The flag right before the current word, if the word before is one.
    pub preceding_flag: Option<String>,
    pub in_pipe: bool,
    pub in_redirect: bool,
    pub quote_state: QuoteState,
    pub is_first_segment: bool,
}

} // verus!
