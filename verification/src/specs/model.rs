//! The completion spec tree: what a spec file declares about one command.
use crate::text;
use crate::types::Priority;
use std::sync::Arc;
use vstd::prelude::*;

verus! {

/// `Arc::clone` hands out another pointer to the same value.
#[verifier::external_body]
pub(crate) fn share<T>(a: &Arc<T>) -> (r: Arc<T>)
    ensures
        r == *a,
{
    Arc::clone(a)
}

/// A whole spec: the command's own options and arguments, and its subcommands.
#[derive(Debug)]
pub struct CompletionSpec {
    pub name: String,
    pub description: Option<String>,
    pub subcommands: Vec<SubcommandSpec>,
    pub options: Vec<OptionSpec>,
    pub args: Vec<ArgSpec>,
}

/// One subcommand, with subcommands of its own.
#[derive(Debug)]
pub struct SubcommandSpec {
    pub name: String,
    pub description: Option<String>,
    pub subcommands: Vec<SubcommandSpec>,
    pub options: Vec<OptionSpec>,
    pub args: Vec<ArgSpec>,
    pub priority: Option<Priority>,
}

/// One option under all of its names.
#[derive(Debug)]
pub struct OptionSpec {
    pub name: Vec<String>,
    pub description: Option<String>,
    /// The option's first argument. Further ones are in `extra_args`.
    pub args: Option<ArgSpec>,
    /// The option's arguments after the first, in order.
    pub extra_args: Vec<ArgSpec>,
    pub priority: Option<Priority>,
}

/// One positional or option argument.
#[derive(Debug)]
pub struct ArgSpec {
    pub name: Option<String>,
    pub description: Option<String>,
    pub generators: Vec<GeneratorSpec>,
    pub template: Option<String>,
    /// Values that the spec lists itself.
    pub suggestions: Vec<SuggestionEntry>,
    pub is_optional: bool,
    pub is_variadic: bool,
}

/// A listed value: a bare string, or an object with more to say.
#[derive(Debug)]
pub enum SuggestionEntry {
    Plain(String),
    Object(SuggestionObject),
}

/// A listed value written as an object.
#[derive(Debug)]
pub struct SuggestionObject {
    pub name: Vec<String>,
    pub description: Option<String>,
    pub kind: Option<String>,
    pub priority: Option<Priority>,
    pub hidden: bool,
}

/// How long, and for which directory, a generator's output may be kept.
#[derive(Debug, Clone, Copy, PartialEq, Eq, Structural)]
pub struct CacheConfig {
    pub ttl_seconds: u64,
    pub cache_by_directory: bool,
}

/// Which evaluator a runtime JavaScript body needs.
#[derive(Debug, Clone, Copy, PartialEq, Eq, Structural)]
pub enum JsRuntimeKind {
    /// The script runs as usual and the body turns its output into suggestions.
    PostProcess,
    /// The body returns the argument vector to run.
    ScriptFunction,
    /// The body returns the suggestions.
    Custom,
}

/// A JavaScript body and what the runtime must know about it.
#[derive(Debug)]
pub struct JsRuntimeSpec {
    pub kind: JsRuntimeKind,
    pub source: String,
    pub timeout_ms: Option<u64>,
    pub allow_shell_command: bool,
    /// True only when the source is known to use no binding from outside itself.
    pub self_contained: bool,
}

/// A transform without parameters.
#[derive(Debug, Clone, Copy, PartialEq, Eq, Structural)]
pub enum NamedTransform {
    SplitLines,
    FilterEmpty,
    Trim,
    /// One that only the transform runner knows, by its number there.
    Other(u32),
}

/// A transform with parameters.
#[derive(Debug)]
pub enum ParameterizedTransform {
    SplitOn { delimiter: String },
    Skip { count: usize },
    Take { count: usize },
    ErrorGuard { starts_with: Option<String>, contains: Option<String> },
    RegexExtract { pattern: String },
    JsonExtract { path: String },
    ColumnExtract { column: usize },
    Suffix { value: String },
    JsonExtractArray { path: String, split_on: Option<String> },
}

/// One step from a script's output to suggestions.
#[derive(Debug)]
pub enum Transform {
    Named(NamedTransform),
    Parameterized(ParameterizedTransform),
}

/// A source of suggestions that has to be run.
#[derive(Debug)]
pub struct GeneratorSpec {
    pub generator_type: Option<String>,
    pub script: Option<Vec<String>>,
    pub script_template: Option<Vec<String>>,
    pub transforms: Vec<Transform>,
    /// Why the transform runner refuses `transforms`, or `None` when it takes
    /// them. Recorded when the generator is read.
    pub pipeline_error: Option<String>,
    pub cache: Option<CacheConfig>,
    pub requires_js: bool,
    pub js_source: Option<String>,
    pub js_runtime: Option<Arc<JsRuntimeSpec>>,
    /// The release that corrected this generator's conversion.
    pub corrected_in: Option<String>,
    pub template: Option<String>,
}

// ---------------------------------------------------------------------------
// Views
// ---------------------------------------------------------------------------
#[verifier::ext_equal]
pub struct CompletionSpecView {
    pub name: Seq<char>,
    pub description: Option<Seq<char>>,
    pub subcommands: Seq<SubcommandView>,
    pub options: Seq<OptionView>,
    pub args: Seq<ArgView>,
}

#[verifier::ext_equal]
pub struct SubcommandView {
    pub name: Seq<char>,
    pub description: Option<Seq<char>>,
    pub subcommands: Seq<SubcommandView>,
    pub options: Seq<OptionView>,
    pub args: Seq<ArgView>,
    pub priority: Option<Priority>,
}

#[verifier::ext_equal]
pub struct OptionView {
    pub name: Seq<Seq<char>>,
    pub description: Option<Seq<char>>,
    pub args: Option<ArgView>,
    pub extra_args: Seq<ArgView>,
    pub priority: Option<Priority>,
}

#[verifier::ext_equal]
pub struct ArgView {
    pub name: Option<Seq<char>>,
    pub description: Option<Seq<char>>,
    pub generators: Seq<GeneratorView>,
    pub template: Option<Seq<char>>,
    pub suggestions: Seq<EntryView>,
    pub is_optional: bool,
    pub is_variadic: bool,
}

#[verifier::ext_equal]
pub enum EntryView {
    Plain(Seq<char>),
    Object(ObjectView),
}

#[verifier::ext_equal]
pub struct ObjectView {
    pub name: Seq<Seq<char>>,
    pub description: Option<Seq<char>>,
    pub kind: Option<Seq<char>>,
    pub priority: Option<Priority>,
    pub hidden: bool,
}

#[verifier::ext_equal]
pub struct JsRuntimeView {
    pub kind: JsRuntimeKind,
    pub source: Seq<char>,
    pub timeout_ms: Option<u64>,
    pub allow_shell_command: bool,
    pub self_contained: bool,
}

#[verifier::ext_equal]
pub enum TransformView {
    Named(NamedTransform),
    SplitOn { delimiter: Seq<char> },
    Skip { count: usize },
    Take { count: usize },
    ErrorGuard { starts_with: Option<Seq<char>>, contains: Option<Seq<char>> },
    RegexExtract { pattern: Seq<char> },
    JsonExtract { path: Seq<char> },
    ColumnExtract { column: usize },
    Suffix { value: Seq<char> },
    JsonExtractArray { path: Seq<char>, split_on: Option<Seq<char>> },
}

#[verifier::ext_equal]
pub struct GeneratorView {
    pub generator_type: Option<Seq<char>>,
    pub script: Option<Seq<Seq<char>>>,
    pub script_template: Option<Seq<Seq<char>>>,
    pub transforms: Seq<TransformView>,
    pub pipeline_error: Option<Seq<char>>,
    pub cache: Option<CacheConfig>,
    pub requires_js: bool,
    pub js_source: Option<Seq<char>>,
    pub js_runtime: Option<JsRuntimeView>,
    pub corrected_in: Option<Seq<char>>,
    pub template: Option<Seq<char>>,
}

/// The view of an optional list of strings.
pub open spec fn opt_views(o: Option<Vec<String>>) -> Option<Seq<Seq<char>>> {
    match o {
        Some(v) => Some(text::views(v@)),
        None => None,
    }
}

impl View for JsRuntimeSpec {
    type V = JsRuntimeView;

    open spec fn view(&self) -> JsRuntimeView {
        JsRuntimeView {
            kind: self.kind,
            source: self.source@,
            timeout_ms: self.timeout_ms,
            allow_shell_command: self.allow_shell_command,
            self_contained: self.self_contained,
        }
    }
}

impl View for Transform {
    type V = TransformView;

    open spec fn view(&self) -> TransformView {
        match *self {
            Transform::Named(n) => TransformView::Named(n),
            Transform::Parameterized(p) => match p {
                ParameterizedTransform::SplitOn { delimiter } => TransformView::SplitOn {
                    delimiter: delimiter@,
                },
                ParameterizedTransform::Skip { count } => TransformView::Skip { count },
                ParameterizedTransform::Take { count } => TransformView::Take { count },
                ParameterizedTransform::ErrorGuard { starts_with, contains } =>
                    TransformView::ErrorGuard {
                    starts_with: text::opt_view(starts_with),
                    contains: text::opt_view(contains),
                },
                ParameterizedTransform::RegexExtract { pattern } => TransformView::RegexExtract {
                    pattern: pattern@,
                },
                ParameterizedTransform::JsonExtract { path } => TransformView::JsonExtract {
                    path: path@,
                },
                ParameterizedTransform::ColumnExtract { column } => TransformView::ColumnExtract {
                    column,
                },
                ParameterizedTransform::Suffix { value } => TransformView::Suffix { value: value@ },
                ParameterizedTransform::JsonExtractArray { path, split_on } =>
                    TransformView::JsonExtractArray { path: path@, split_on: text::opt_view(split_on) },
            },
        }
    }
}

impl View for GeneratorSpec {
    type V = GeneratorView;

    open spec fn view(&self) -> GeneratorView {
        GeneratorView {
            generator_type: text::opt_view(self.generator_type),
            script: opt_views(self.script),
            script_template: opt_views(self.script_template),
            transforms: self.transforms@.map_values(|t: Transform| t@),
            pipeline_error: text::opt_view(self.pipeline_error),
            cache: self.cache,
            requires_js: self.requires_js,
            js_source: text::opt_view(self.js_source),
            js_runtime: match self.js_runtime {
                Some(rt) => Some((*rt)@),
                None => None,
            },
            corrected_in: text::opt_view(self.corrected_in),
            template: text::opt_view(self.template),
        }
    }
}

impl View for SuggestionObject {
    type V = ObjectView;

    open spec fn view(&self) -> ObjectView {
        ObjectView {
            name: text::views(self.name@),
            description: text::opt_view(self.description),
            kind: text::opt_view(self.kind),
            priority: self.priority,
            hidden: self.hidden,
        }
    }
}

impl View for SuggestionEntry {
    type V = EntryView;

    open spec fn view(&self) -> EntryView {
        match *self {
            SuggestionEntry::Plain(s) => EntryView::Plain(s@),
            SuggestionEntry::Object(o) => EntryView::Object(o@),
        }
    }
}

impl View for ArgSpec {
    type V = ArgView;

    open spec fn view(&self) -> ArgView {
        ArgView {
            name: text::opt_view(self.name),
            description: text::opt_view(self.description),
            generators: self.generators@.map_values(|g: GeneratorSpec| g@),
            template: text::opt_view(self.template),
            suggestions: self.suggestions@.map_values(|e: SuggestionEntry| e@),
            is_optional: self.is_optional,
            is_variadic: self.is_variadic,
        }
    }
}

/// The contents of a list of arguments.
pub open spec fn arg_views(v: Seq<ArgSpec>) -> Seq<ArgView> {
    v.map_values(|a: ArgSpec| a@)
}

impl View for OptionSpec {
    type V = OptionView;

    open spec fn view(&self) -> OptionView {
        OptionView {
            name: text::views(self.name@),
            description: text::opt_view(self.description),
            args: match self.args {
                Some(a) => Some(a@),
                None => None,
            },
            extra_args: arg_views(self.extra_args@),
            priority: self.priority,
        }
    }
}

/// The contents of a list of options.
pub open spec fn option_views(v: Seq<OptionSpec>) -> Seq<OptionView> {
    v.map_values(|o: OptionSpec| o@)
}

/// The contents of a subcommand, down to its leaves.
pub open spec fn sub_view(s: SubcommandSpec) -> SubcommandView
    decreases s,
{
    SubcommandView {
        name: s.name@,
        description: text::opt_view(s.description),
        subcommands: Seq::new(
            s.subcommands@.len(),
            |i: int|
                if 0 <= i < s.subcommands@.len() {
                    sub_view(s.subcommands@[i])
                } else {
                    arbitrary()
                },
        ),
        options: option_views(s.options@),
        args: arg_views(s.args@),
        priority: s.priority,
    }
}

impl View for SubcommandSpec {
    type V = SubcommandView;

    open spec fn view(&self) -> SubcommandView {
        sub_view(*self)
    }
}

/// The contents of a list of subcommands.
pub open spec fn sub_views(v: Seq<SubcommandSpec>) -> Seq<SubcommandView> {
    v.map_values(|s: SubcommandSpec| s@)
}

impl View for CompletionSpec {
    type V = CompletionSpecView;

    open spec fn view(&self) -> CompletionSpecView {
        CompletionSpecView {
            name: self.name@,
            description: text::opt_view(self.description),
            subcommands: sub_views(self.subcommands@),
            options: option_views(self.options@),
            args: arg_views(self.args@),
        }
    }
}

/// A subcommand's view lists the views of its subcommands.
pub proof fn lemma_sub_view(s: SubcommandSpec)
    ensures
        s@.subcommands == sub_views(s.subcommands@),
{
    assert(s@.subcommands =~= sub_views(s.subcommands@));
}

// ---------------------------------------------------------------------------
// Copies
// ---------------------------------------------------------------------------
impl Clone for Transform {
    fn clone(&self) -> (r: Self)
        ensures
            r@ == self@,
    {
        match self {
            Transform::Named(n) => Transform::Named(*n),
            Transform::Parameterized(p) => Transform::Parameterized(
                match p {
                    ParameterizedTransform::SplitOn { delimiter } =>
                        ParameterizedTransform::SplitOn { delimiter: delimiter.clone() },
                    ParameterizedTransform::Skip { count } => ParameterizedTransform::Skip {
                        count: *count,
                    },
                    ParameterizedTransform::Take { count } => ParameterizedTransform::Take {
                        count: *count,
                    },
                    ParameterizedTransform::ErrorGuard { starts_with, contains } =>
                        ParameterizedTransform::ErrorGuard {
                        starts_with: text::clone_opt(starts_with),
                        contains: text::clone_opt(contains),
                    },
                    ParameterizedTransform::RegexExtract { pattern } =>
                        ParameterizedTransform::RegexExtract { pattern: pattern.clone() },
                    ParameterizedTransform::JsonExtract { path } =>
                        ParameterizedTransform::JsonExtract { path: path.clone() },
                    ParameterizedTransform::ColumnExtract { column } =>
                        ParameterizedTransform::ColumnExtract { column: *column },
                    ParameterizedTransform::Suffix { value } => ParameterizedTransform::Suffix {
                        value: value.clone(),
                    },
                    ParameterizedTransform::JsonExtractArray { path, split_on } =>
                        ParameterizedTransform::JsonExtractArray {
                        path: path.clone(),
                        split_on: text::clone_opt(split_on),
                    },
                },
            ),
        }
    }
}

fn clone_opt_all(o: &Option<Vec<String>>) -> (r: Option<Vec<String>>)
    ensures
        opt_views(r) == opt_views(*o),
{
    match o {
        Some(v) => Some(text::clone_all(v)),
        None => None,
    }
}

impl Clone for GeneratorSpec {
    fn clone(&self) -> (r: Self)
        ensures
            r@ == self@,
    {
        let mut transforms: Vec<Transform> = Vec::new();
        let mut i: usize = 0;
        while i < self.transforms.len()
            invariant
                i <= self.transforms.len(),
                transforms.len() == i,
                forall|j: int| 0 <= j < i ==> (#[trigger] transforms@[j])@ == self.transforms@[j]@,
            decreases self.transforms.len() - i,
        {
            transforms.push(self.transforms[i].clone());
            i += 1;
        }
        assert(transforms@.map_values(|t: Transform| t@) =~= self.transforms@.map_values(
            |t: Transform| t@,
        ));
        GeneratorSpec {
            generator_type: text::clone_opt(&self.generator_type),
            script: clone_opt_all(&self.script),
            script_template: clone_opt_all(&self.script_template),
            transforms,
            pipeline_error: text::clone_opt(&self.pipeline_error),
            cache: self.cache,
            requires_js: self.requires_js,
            js_source: text::clone_opt(&self.js_source),
            js_runtime: match &self.js_runtime {
                Some(rt) => Some(share(rt)),
                None => None,
            },
            corrected_in: text::clone_opt(&self.corrected_in),
            template: text::clone_opt(&self.template),
        }
    }
}

} // verus!
