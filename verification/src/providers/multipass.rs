//! Multipass instances, from what `multipass list` prints as JSON.
use crate::providers::context::Provider;
use crate::providers::listing;
use crate::text;
use crate::text_parts;
use crate::types;
use crate::types::{Suggestion, SuggestionKind, SuggestionSource, SuggestionView};
use vstd::prelude::*;
use vstd::string::*;

verus! {

/// One instance, as far as it is read.
#[derive(Debug)]
pub struct MultipassInstance {
    pub name: Option<String>,
    pub release: Option<String>,
    pub state: Option<String>,
}

/// The content of a [`MultipassInstance`].
#[verifier::ext_equal]
pub struct InstanceView {
    pub name: Option<Seq<char>>,
    pub release: Option<Seq<char>>,
    pub state: Option<Seq<char>>,
}

impl View for MultipassInstance {
    type V = InstanceView;

    open spec fn view(&self) -> InstanceView {
        InstanceView {
            name: text::opt_view(self.name),
            release: text::opt_view(self.release),
            state: text::opt_view(self.state),
        }
    }
}

/// What the command prints.
#[derive(Debug)]
pub struct MultipassListOutput {
    pub list: Vec<MultipassInstance>,
}

/// Which instances are wanted, by their state.
#[derive(Debug, Clone, Copy, PartialEq, Eq, Structural)]
pub enum MultipassInstanceFilter {
    All,
    NotDeleted,
    Deleted,
    Running,
    Stopped,
}

/// Whether an instance is wanted.
pub open spec fn wanted(i: InstanceView, filter: MultipassInstanceFilter) -> bool {
    match filter {
        MultipassInstanceFilter::All => true,
        MultipassInstanceFilter::NotDeleted => text_parts::or_empty(i.state) != "Deleted"@,
        MultipassInstanceFilter::Deleted => text_parts::or_empty(i.state) == "Deleted"@,
        MultipassInstanceFilter::Running => text_parts::or_empty(i.state) == "Running"@,
        MultipassInstanceFilter::Stopped => text_parts::or_empty(i.state) == "Stopped"@,
    }
}

/// Release and state of an instance, as far as they are known.
pub open spec fn instance_description(i: InstanceView) -> Option<Seq<char>> {
    let release = text_parts::or_empty(i.release);
    let state = text_parts::or_empty(i.state);
    if release.len() == 0 && state.len() == 0 {
        None
    } else if release.len() == 0 {
        Some("("@ + state + ")"@)
    } else if state.len() == 0 {
        Some(release)
    } else {
        Some(release + " ("@ + (state + ")"@))
    }
}

/// The suggestion that an instance makes, if it is wanted and has a name.
pub open spec fn instance_shown(
    i: InstanceView,
    filter: MultipassInstanceFilter,
) -> Option<SuggestionView> {
    match i.name {
        Some(n) => if wanted(i, filter) {
            Some(
                SuggestionView {
                    text: n,
                    description: instance_description(i),
                    kind: SuggestionKind::Command,
                    source: SuggestionSource::Provider,
                    priority: None,
                },
            )
        } else {
            None
        },
        None => None,
    }
}

/// The suggestions that instances make.
pub open spec fn instances_shown(
    list: Seq<InstanceView>,
    filter: MultipassInstanceFilter,
) -> Seq<SuggestionView> {
    listing::picked(list, |i: InstanceView| instance_shown(i, filter))
}

/// Every instance is either deleted or not, and one that runs or stands still
/// is not deleted.
pub proof fn law_filters_part(i: InstanceView)
    ensures
        wanted(i, MultipassInstanceFilter::Deleted) != wanted(
            i,
            MultipassInstanceFilter::NotDeleted,
        ),
        wanted(i, MultipassInstanceFilter::Running) ==> wanted(
            i,
            MultipassInstanceFilter::NotDeleted,
        ),
        wanted(i, MultipassInstanceFilter::Stopped) ==> wanted(
            i,
            MultipassInstanceFilter::NotDeleted,
        ) && !wanted(i, MultipassInstanceFilter::Running),
{
    reveal_strlit("Deleted");
    reveal_strlit("Running");
    reveal_strlit("Stopped");
    assert("Deleted"@[0] != "Running"@[0]);
    assert("Deleted"@[0] != "Stopped"@[0]);
    assert("Running"@[0] != "Stopped"@[0]);
}

fn is_wanted(i: &MultipassInstance, filter: MultipassInstanceFilter) -> (r: bool)
    ensures
        r == wanted(i@, filter),
{
    let state = text_parts::field(&i.state);
    match filter {
        MultipassInstanceFilter::All => true,
        MultipassInstanceFilter::NotDeleted => !text::same(&state, "Deleted"),
        MultipassInstanceFilter::Deleted => text::same(&state, "Deleted"),
        MultipassInstanceFilter::Running => text::same(&state, "Running"),
        MultipassInstanceFilter::Stopped => text::same(&state, "Stopped"),
    }
}

fn describe(i: &MultipassInstance) -> (r: Option<String>)
    ensures
        text::opt_view(r) == instance_description(i@),
{
    let release = text_parts::field(&i.release);
    let mut state = text_parts::field(&i.state);
    if release.as_str().is_empty() && state.as_str().is_empty() {
        None
    } else if release.as_str().is_empty() {
        Some(text_parts::concat3("(", &state, ")"))
    } else if state.as_str().is_empty() {
        Some(release)
    } else {
        state.append(")");
        Some(text_parts::concat3(&release, " (", &state))
    }
}

fn instance_to_suggestion(i: &MultipassInstance, filter: MultipassInstanceFilter) -> (r: Option<
    Suggestion,
>)
    ensures
        listing::opt_shown(r) == instance_shown(i@, filter),
{
    match &i.name {
        Some(n) => if is_wanted(i, filter) {
            Some(
                Suggestion {
                    text: n.clone(),
                    description: describe(i),
                    kind: SuggestionKind::Command,
                    source: SuggestionSource::Provider,
                    priority: None,
                },
            )
        } else {
            None
        },
        None => None,
    }
}

/// The suggestions that the wanted instances make.
pub fn filtered_suggestions(output: &MultipassListOutput, filter: MultipassInstanceFilter) -> (r:
    Vec<Suggestion>)
    ensures
        types::shown(r@) == instances_shown(listing::views_of(output.list@), filter),
{
    let f = |i: &MultipassInstance| -> (o: Option<Suggestion>)
        ensures
            listing::opt_shown(o) == instance_shown(i@, filter),
        { instance_to_suggestion(i, filter) };
    listing::pick(&output.list, f, Ghost(|i: InstanceView| instance_shown(i, filter)))
}

/// The suggestions that all instances make.
pub fn instances_to_suggestions(output: &MultipassListOutput) -> (r: Vec<Suggestion>)
    ensures
        types::shown(r@) == instances_shown(
            listing::views_of(output.list@),
            MultipassInstanceFilter::All,
        ),
{
    filtered_suggestions(output, MultipassInstanceFilter::All)
}

/// Multipass instances.
pub struct MultipassList;

impl Provider for MultipassList {
    open spec fn provider_name(&self) -> Seq<char> {
        "multipass_list"@
    }

    fn name(&self) -> (r: &'static str) {
        "multipass_list"
    }
}

} // verus!
