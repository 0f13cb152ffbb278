//! Homebrew formulae and casks, from what `brew` prints.
use crate::providers::context::Provider;
use crate::providers::listing;
use crate::text;
use crate::text_parts;
use crate::types;
use crate::types::{provider_value, Suggestion, SuggestionView};
use vstd::prelude::*;
use vstd::string::*;

verus! {

/// How many formulae are suggested while nothing is typed, unless set
/// otherwise.
pub const DEFAULT_BREW_SEARCH_CAP: usize = 1000;

/// How many formulae are suggested while nothing is typed. Never none.
#[derive(Debug)]
pub struct BrewSearchCap {
    value: usize,
}

impl BrewSearchCap {
    #[verifier::type_invariant]
    spec fn inv(self) -> bool {
        self.value >= 1
    }

    /// The limit.
    pub closed spec fn cap(&self) -> usize {
        self.value
    }

    /// The limit that holds unless set otherwise.
    pub fn new() -> (r: BrewSearchCap)
        ensures
            r.cap() == DEFAULT_BREW_SEARCH_CAP,
            r.cap() == 1000,
    {
        BrewSearchCap { value: DEFAULT_BREW_SEARCH_CAP }
    }

    /// The limit, which is never zero.
    pub fn get(&self) -> (r: usize)
        ensures
            r == self.cap(),
            r >= 1,
    {
        proof {
            use_type_invariant(self);
        }
        self.value
    }
}

/// Sets the limit. Zero counts as one.
pub fn set_brew_search_cap(setting: &mut BrewSearchCap, cap: usize)
    ensures
        final(setting).cap() == (if cap == 0 {
            1
        } else {
            cap
        }),
{
    *setting = BrewSearchCap {
        value: if cap == 0 {
            1
        } else {
            cap
        },
    };
}

// ---------------------------------------------------------------------------
// Which commands are run
// ---------------------------------------------------------------------------
/// What is listed.
#[derive(Debug, Clone, Copy, PartialEq, Eq, Structural)]
pub enum BrewListing {
    FormulaeInstalled,
    CasksInstalled,
    FormulaeSearchable,
}

/// Whether the tool can be used, given whether it is new enough, as far as
/// that is known.
pub fn is_supported(recent: Option<bool>) -> (r: bool)
    ensures
        r == (recent != Some(false)),
{
    match recent {
        Some(b) => b,
        None => true,
    }
}

/// The arguments of a search, and how many results are taken: what is typed
/// narrows the search, so only a search for everything is limited.
pub fn brew_search_plan(query: &str, empty_cap: usize) -> (r: (Vec<String>, usize))
    ensures
        text::views(r.0@) == seq!["search"@, query@],
        r.1 == (if query@.len() == 0 {
            empty_cap
        } else {
            usize::MAX
        }),
{
    let cap: usize = if query.is_empty() {
        empty_cap
    } else {
        usize::MAX
    };
    (listing::strings2("search", query), cap)
}

/// The arguments of a search for casks.
pub fn cask_search_args(query: &str) -> (r: Vec<String>)
    ensures
        text::views(r@) == seq!["search"@, "--cask"@, query@],
{
    listing::strings3("search", "--cask", query)
}

// ---------------------------------------------------------------------------
// Installed packages
// ---------------------------------------------------------------------------
/// The installed formulae, one in each line.
pub fn parse_formulae_installed_output(s: &str) -> (r: Vec<Suggestion>)
    ensures
        types::shown(r@) == listing::entries(text::lines(s@), "installed brew formula"@),
{
    listing::line_entries(s, "installed brew formula")
}

/// The installed casks, one in each line.
pub fn parse_casks_installed_output(s: &str) -> (r: Vec<Suggestion>)
    ensures
        types::shown(r@) == listing::entries(text::lines(s@), "installed brew cask"@),
{
    listing::line_entries(s, "installed brew cask")
}

// ---------------------------------------------------------------------------
// Found packages
// ---------------------------------------------------------------------------
/// Which sections of a search result are read.
#[derive(Debug, Clone, Copy, PartialEq, Eq, Structural)]
pub enum BrewSections {
    /// The formulae, and what stands before any heading.
    Formulae,
    /// The casks.
    Casks,
    /// All of them.
    All,
}

/// Whether the line begins a section that is read. `None` for a line that is
/// no heading.
pub open spec fn heading(line: Seq<char>, sections: BrewSections) -> Option<bool> {
    let arrow = "==>"@.is_prefix_of(line);
    let colon = ":"@.is_suffix_of(line);
    match sections {
        BrewSections::Formulae => if arrow {
            Some(line == "==> Formulae"@)
        } else {
            None
        },
        BrewSections::Casks => if arrow {
            Some(line == "==> Casks"@)
        } else if colon {
            Some(text_parts::same_folded(line, "Casks:"@))
        } else {
            None
        },
        BrewSections::All => if arrow || colon {
            Some(true)
        } else {
            None
        },
    }
}

/// How far a search result has been read.
#[verifier::ext_equal]
pub struct SearchState {
    pub names: Seq<Seq<char>>,
    /// Whether the current section is read.
    pub reading: bool,
}

/// Before the first line.
pub open spec fn search_start(sections: BrewSections) -> SearchState {
    SearchState { names: Seq::empty(), reading: sections != BrewSections::Casks }
}

/// One line more.
pub open spec fn search_step(
    st: SearchState,
    line: Seq<char>,
    sections: BrewSections,
) -> SearchState {
    let t = text::trimmed(line);
    if t.len() == 0 {
        st
    } else {
        match heading(t, sections) {
            Some(b) => SearchState { reading: b, ..st },
            None => if st.reading {
                SearchState { names: st.names + text::words(t), ..st }
            } else {
                st
            },
        }
    }
}

pub open spec fn search_read(lines: Seq<Seq<char>>, sections: BrewSections) -> SearchState
    decreases lines.len(),
{
    if lines.len() == 0 {
        search_start(sections)
    } else {
        search_step(search_read(lines.drop_last(), sections), lines.last(), sections)
    }
}

/// The names in the sections that are read, in order.
pub open spec fn found_names(s: Seq<char>, sections: BrewSections) -> Seq<Seq<char>> {
    search_read(text::lines(s), sections).names
}

fn heading_of(line: &str, sections: BrewSections) -> (r: Option<bool>)
    ensures
        r == heading(line@, sections),
{
    let arrow = text::starts_with(line, "==>");
    let colon = text::ends_with(line, ":");
    match sections {
        BrewSections::Formulae => if arrow {
            Some(text::same(line, "==> Formulae"))
        } else {
            None
        },
        BrewSections::Casks => if arrow {
            Some(text::same(line, "==> Casks"))
        } else if colon {
            Some(text_parts::eq_folded(line, "Casks:"))
        } else {
            None
        },
        BrewSections::All => if arrow || colon {
            Some(true)
        } else {
            None
        },
    }
}

fn names_in(s: &str, sections: BrewSections) -> (r: Vec<String>)
    ensures
        text::views(r@) == found_names(s@, sections),
{
    let lines = text::lines_of(s);
    let ghost all = text::lines(s@);
    let mut out: Vec<String> = Vec::new();
    let mut reading = sections != BrewSections::Casks;
    let mut i: usize = 0;
    proof {
        assert(all.take(0) =~= Seq::empty());
        assert(text::views(out@) =~= Seq::empty());
    }
    while i < lines.len()
        invariant
            i <= lines.len(),
            all == text::views(lines@),
            search_read(all.take(i as int), sections) == (SearchState {
                names: text::views(out@),
                reading,
            }),
        decreases lines.len() - i,
    {
        proof {
            assert(all.take(i + 1).drop_last() =~= all.take(i as int));
            assert(all.take(i + 1).last() == lines@[i as int]@);
        }
        let t = text::trim(&lines[i]);
        if !t.as_str().is_empty() {
            match heading_of(&t, sections) {
                Some(b) => {
                    reading = b;
                },
                None => {
                    if reading {
                        let mut words = text::words_of(&t);
                        let ghost before = out@;
                        let ghost more = words@;
                        out.append(&mut words);
                        assert(text::views(out@) =~= text::views(before) + text::views(more));
                    }
                },
            }
        }
        i += 1;
    }
    assert(all.take(all.len() as int) =~= all);
    out
}

/// Names with one description, as many as the limit allows.
pub open spec fn limited(
    names: Seq<Seq<char>>,
    cap: nat,
    description: Seq<char>,
) -> Seq<SuggestionView> {
    let n = if names.len() <= cap {
        names.len()
    } else {
        cap
    };
    names.take(n as int).map_values(|s: Seq<char>| types::provided(s, Some(description)))
}

fn describe(names: &Vec<String>, cap: usize, description: &str) -> (r: Vec<Suggestion>)
    ensures
        types::shown(r@) == limited(text::views(names@), cap as nat, description@),
{
    let mut out: Vec<Suggestion> = Vec::new();
    let mut i: usize = 0;
    while i < names.len() && i < cap
        invariant
            i <= names.len(),
            i <= cap,
            out.len() == i,
            forall|j: int|
                0 <= j < i ==> (#[trigger] out@[j])@ == types::provided(
                    names@[j]@,
                    Some(description@),
                ),
        decreases names.len() - i,
    {
        out.push(provider_value(names[i].clone(), Some(description.to_owned())));
        i += 1;
    }
    assert(types::shown(out@) =~= limited(text::views(names@), cap as nat, description@));
    out
}

/// The formulae that a search found, as many as the limit allows.
pub fn parse_formulae_searchable_output(s: &str, cap: usize) -> (r: Vec<Suggestion>)
    ensures
        types::shown(r@) == limited(
            found_names(s@, BrewSections::Formulae),
            cap as nat,
            "brew formula"@,
        ),
        r@.len() <= cap,
{
    let r = describe(&names_in(s, BrewSections::Formulae), cap, "brew formula");
    assert(types::shown(r@).len() == r@.len());
    r
}

/// The casks that a search found.
pub fn parse_casks_searchable_output(s: &str) -> (r: Vec<Suggestion>)
    ensures
        types::shown(r@) == found_names(s@, BrewSections::Casks).map_values(
            |n: Seq<char>| types::provided(n, Some("brew cask"@)),
        ),
{
    let names = names_in(s, BrewSections::Casks);
    let ghost all = text::views(names@);
    assert(all.take(all.len() as int) =~= all);
    describe(&names, names.len(), "brew cask")
}

/// The formulae and casks that a search found.
pub fn parse_packages_searchable_output(s: &str) -> (r: Vec<Suggestion>)
    ensures
        types::shown(r@) == found_names(s@, BrewSections::All).map_values(
            |n: Seq<char>| types::provided(n, Some("brew formula or cask"@)),
        ),
{
    let names = names_in(s, BrewSections::All);
    let ghost all = text::views(names@);
    assert(all.take(all.len() as int) =~= all);
    describe(&names, names.len(), "brew formula or cask")
}

// ---------------------------------------------------------------------------
// The providers
// ---------------------------------------------------------------------------
/// Installed formulae.
pub struct BrewFormulaeInstalled;

impl Provider for BrewFormulaeInstalled {
    open spec fn provider_name(&self) -> Seq<char> {
        "brew_formulae_installed"@
    }

    fn name(&self) -> (r: &'static str) {
        "brew_formulae_installed"
    }
}

/// Installed casks.
pub struct BrewCasksInstalled;

impl Provider for BrewCasksInstalled {
    open spec fn provider_name(&self) -> Seq<char> {
        "brew_casks_installed"@
    }

    fn name(&self) -> (r: &'static str) {
        "brew_casks_installed"
    }
}

/// Formulae that can be installed.
pub struct BrewFormulaeSearchable;

impl Provider for BrewFormulaeSearchable {
    open spec fn provider_name(&self) -> Seq<char> {
        "brew_formulae_searchable"@
    }

    fn name(&self) -> (r: &'static str) {
        "brew_formulae_searchable"
    }
}

/// Casks that can be installed.
pub struct BrewCasksSearchable;

impl Provider for BrewCasksSearchable {
    open spec fn provider_name(&self) -> Seq<char> {
        "brew_casks_searchable"@
    }

    fn name(&self) -> (r: &'static str) {
        "brew_casks_searchable"
    }
}

/// Formulae and casks that can be installed.
pub struct BrewPackagesSearchable;

impl Provider for BrewPackagesSearchable {
    open spec fn provider_name(&self) -> Seq<char> {
        "brew_packages_searchable"@
    }

    fn name(&self) -> (r: &'static str) {
        "brew_packages_searchable"
    }
}

} // verus!
