//! systemd units, from what `systemctl` prints.
use crate::providers::context::Provider;
use crate::providers::listing;
use crate::sorting;
use crate::text;
use crate::text_parts;
use crate::types;
use crate::types::{provider_value, Suggestion, SuggestionView};
use vstd::prelude::*;
use vstd::string::*;

verus! {

/// One unit.
#[derive(Debug)]
pub struct SystemdUnit {
    pub unit: String,
    pub active: String,
    pub description: Option<String>,
}

/// The content of a [`SystemdUnit`].
#[verifier::ext_equal]
pub struct UnitView {
    pub unit: Seq<char>,
    pub active: Seq<char>,
    pub description: Option<Seq<char>>,
}

impl View for SystemdUnit {
    type V = UnitView;

    open spec fn view(&self) -> UnitView {
        UnitView {
            unit: self.unit@,
            active: self.active@,
            description: text::opt_view(self.description),
        }
    }
}

/// One unit of a JSON listing, as far as it is read.
#[derive(Debug)]
pub struct SystemdJsonUnit {
    pub unit: Option<String>,
    pub active: Option<String>,
    pub description: Option<String>,
}

/// The content of a [`SystemdJsonUnit`].
#[verifier::ext_equal]
pub struct JsonUnitView {
    pub unit: Option<Seq<char>>,
    pub active: Option<Seq<char>>,
    pub description: Option<Seq<char>>,
}

impl View for SystemdJsonUnit {
    type V = JsonUnitView;

    open spec fn view(&self) -> JsonUnitView {
        JsonUnitView {
            unit: text::opt_view(self.unit),
            active: text::opt_view(self.active),
            description: text::opt_view(self.description),
        }
    }
}

/// Which units are wanted.
#[derive(Debug, Clone, Copy, PartialEq, Eq, Structural)]
pub enum SystemdFilter {
    All,
    ActiveOnly,
}

/// Whose units are listed.
#[derive(Debug, Clone, Copy, PartialEq, Eq, Structural)]
pub enum SystemdScope {
    System,
    User,
}

/// What is listed.
#[derive(Debug, Clone, Copy, PartialEq, Eq, Structural)]
pub enum SystemdListing {
    Units,
    UserUnits,
    ActiveUnits,
}

impl SystemdListing {
    /// Whose units are listed.
    pub fn scope(self) -> (r: SystemdScope)
        ensures
            r == (if self == SystemdListing::UserUnits {
                SystemdScope::User
            } else {
                SystemdScope::System
            }),
    {
        match self {
            SystemdListing::UserUnits => SystemdScope::User,
            _ => SystemdScope::System,
        }
    }

    /// Which of them are wanted.
    pub fn filter(self) -> (r: SystemdFilter)
        ensures
            r == (if self == SystemdListing::ActiveUnits {
                SystemdFilter::ActiveOnly
            } else {
                SystemdFilter::All
            }),
    {
        match self {
            SystemdListing::ActiveUnits => SystemdFilter::ActiveOnly,
            _ => SystemdFilter::All,
        }
    }
}

// ---------------------------------------------------------------------------
// Reading units
// ---------------------------------------------------------------------------
/// A field without white space around it, if anything is left.
pub open spec fn opt_cleaned(value: Option<Seq<char>>) -> Option<Seq<char>> {
    match value {
        Some(v) => text_parts::cleaned(v),
        None => None,
    }
}

/// The state that a field names.
pub open spec fn state_of(value: Option<Seq<char>>) -> Seq<char> {
    match opt_cleaned(value) {
        Some(v) => v,
        None => "unknown"@,
    }
}

/// The unit that a row of a JSON listing is about.
pub open spec fn json_unit(row: JsonUnitView) -> Option<UnitView> {
    match opt_cleaned(row.unit) {
        Some(unit) => Some(
            UnitView {
                unit,
                active: state_of(row.active),
                description: opt_cleaned(row.description),
            },
        ),
        None => None,
    }
}

/// The units of a JSON listing.
pub open spec fn json_units(rows: Seq<JsonUnitView>) -> Seq<UnitView> {
    listing::picked(rows, |row: JsonUnitView| json_unit(row))
}

/// The words of a line without a marker in front.
pub open spec fn unmarked(words: Seq<Seq<char>>) -> Seq<Seq<char>> {
    if words.len() > 0 && (words[0] == "*"@ || words[0] == "\u{25cf}"@) {
        words.skip(1)
    } else {
        words
    }
}

/// The unit that a line of a listing is about: its name first, its state
/// third, and from the fifth word on what it is.
pub open spec fn text_unit(line: Seq<char>) -> Option<UnitView> {
    let w = unmarked(text::words(line));
    if w.len() < 4 || !w[0].contains('.') {
        None
    } else {
        let rest = text_parts::joined(w.skip(4), " "@);
        Some(
            UnitView {
                unit: w[0],
                active: state_of(Some(w[2])),
                description: if w.len() > 4 && !text::is_blank(rest) {
                    Some(rest)
                } else {
                    None
                },
            },
        )
    }
}

/// The units of a listing.
pub open spec fn text_units(s: Seq<char>) -> Seq<UnitView> {
    listing::picked(text::lines(s), |l: Seq<char>| text_unit(l))
}

fn clean_opt(value: &Option<String>) -> (r: Option<String>)
    ensures
        text::opt_view(r) == opt_cleaned(text::opt_view(*value)),
{
    match value {
        Some(v) => text_parts::clean(v),
        None => None,
    }
}

fn state_or_unknown(value: Option<String>) -> (r: String)
    ensures
        r@ == (match value {
            Some(v) => v@,
            None => "unknown"@,
        }),
{
    match value {
        Some(v) => v,
        None => "unknown".to_owned(),
    }
}

/// The units that rows of a JSON listing are about.
pub fn units_from_rows(rows: &Vec<SystemdJsonUnit>) -> (r: Vec<SystemdUnit>)
    ensures
        listing::views_of(r@) == json_units(listing::views_of(rows@)),
{
    let ghost all = listing::views_of(rows@);
    let ghost f = |row: JsonUnitView| json_unit(row);
    let mut out: Vec<SystemdUnit> = Vec::new();
    let mut i: usize = 0;
    proof {
        assert(all.take(0) =~= Seq::empty());
        assert(listing::views_of(out@) =~= Seq::empty());
    }
    while i < rows.len()
        invariant
            i <= rows.len(),
            all == listing::views_of(rows@),
            f == (|row: JsonUnitView| json_unit(row)),
            listing::views_of(out@) == listing::picked(all.take(i as int), f),
        decreases rows.len() - i,
    {
        proof {
            assert(all.take(i + 1).drop_last() =~= all.take(i as int));
            assert(all.take(i + 1).last() == rows@[i as int]@);
        }
        if let Some(unit) = clean_opt(&rows[i].unit) {
            let ghost before = out@;
            let u = SystemdUnit {
                unit,
                active: state_or_unknown(clean_opt(&rows[i].active)),
                description: clean_opt(&rows[i].description),
            };
            out.push(u);
            assert(listing::views_of(out@) =~= listing::views_of(before).push(u@));
        }
        i += 1;
    }
    assert(all.take(all.len() as int) =~= all);
    out
}

/// The units of a JSON listing. `parse` reads its rows; where it fails there
/// is no result.
pub fn parse_systemd_json_units<F: FnOnce(&str) -> Option<Vec<SystemdJsonUnit>>>(
    stdout: &str,
    parse: F,
) -> (r: Option<Vec<SystemdUnit>>)
    requires
        call_requires(parse, (stdout,)),
    ensures
        exists|rows: Option<Vec<SystemdJsonUnit>>| #[trigger]
            call_ensures(parse, (stdout,), rows) && match rows {
                Some(v) => r matches Some(u) && listing::views_of(u@) == json_units(
                    listing::views_of(v@),
                ),
                None => r is None,
            },
{
    let rows = parse(stdout);
    let ghost got = rows;
    assert(call_ensures(parse, (stdout,), got));
    match rows {
        Some(v) => Some(units_from_rows(&v)),
        None => None,
    }
}

fn parse_systemd_text_line(line: &str) -> (r: Option<SystemdUnit>)
    ensures
        match r {
            Some(u) => text_unit(line@) == Some(u@),
            None => text_unit(line@) is None,
        },
{
    let words = text::words_of(line);
    let ghost all = text::words(line@);
    let n: usize = words.len();
    assert(all.len() == n);
    let mut a: usize = 0;
    if n > 0 {
        assert(all[0] == words@[0]@);
        if text::same(&words[0], "*") || text::same(&words[0], "\u{25cf}") {
            a = 1;
        }
    }
    let ghost w = unmarked(all);
    proof {
        assert(w =~= all.skip(a as int));
    }
    if n - a < 4 {
        return None;
    }
    assert(w[0] == words@[a as int]@ && w[2] == words@[a + 2]@);
    if !text::contains_char(&words[a], '.') {
        return None;
    }
    let rest = text_parts::join_from(&words, a + 4, " ");
    assert(all.skip(a + 4) =~= w.skip(4));
    let description = if n - a > 4 && !text::blank(&rest) {
        Some(rest)
    } else {
        None
    };
    Some(
        SystemdUnit {
            unit: words[a].clone(),
            active: state_or_unknown(text_parts::clean(&words[a + 2])),
            description,
        },
    )
}

/// The units of a plain listing.
pub fn parse_systemd_text_units(stdout: &str) -> (r: Vec<SystemdUnit>)
    ensures
        listing::views_of(r@) == text_units(stdout@),
{
    let lines = text::lines_of(stdout);
    let ghost all = text::lines(stdout@);
    let ghost f = |l: Seq<char>| text_unit(l);
    let mut out: Vec<SystemdUnit> = Vec::new();
    let mut i: usize = 0;
    proof {
        assert(all.take(0) =~= Seq::empty());
        assert(listing::views_of(out@) =~= Seq::empty());
    }
    while i < lines.len()
        invariant
            i <= lines.len(),
            all == text::views(lines@),
            f == (|l: Seq<char>| text_unit(l)),
            listing::views_of(out@) == listing::picked(all.take(i as int), f),
        decreases lines.len() - i,
    {
        proof {
            assert(all.take(i + 1).drop_last() =~= all.take(i as int));
            assert(all.take(i + 1).last() == lines@[i as int]@);
        }
        if let Some(u) = parse_systemd_text_line(&lines[i]) {
            let ghost before = out@;
            out.push(u);
            assert(listing::views_of(out@) =~= listing::views_of(before).push(u@));
        }
        i += 1;
    }
    assert(all.take(all.len() as int) =~= all);
    out
}

// ---------------------------------------------------------------------------
// Suggesting units
// ---------------------------------------------------------------------------
/// A state in words: one that is passing through is pending.
pub open spec fn state_words(active: Seq<char>) -> Seq<char> {
    if active == "activating"@ || active == "deactivating"@ {
        "pending "@ + active
    } else if active.len() == 0 {
        "unknown"@
    } else {
        active
    }
}

/// State and description of a unit.
pub open spec fn unit_description(u: UnitView) -> Seq<char> {
    match opt_cleaned(u.description) {
        Some(d) => state_words(u.active) + " - "@ + d,
        None => state_words(u.active),
    }
}

/// The suggestion that a unit makes, if it is wanted.
pub open spec fn unit_shown(u: UnitView, filter: SystemdFilter) -> Option<SuggestionView> {
    if filter == SystemdFilter::ActiveOnly && !text_parts::same_folded(u.active, "active"@) {
        None
    } else {
        Some(types::provided(u.unit, Some(unit_description(u))))
    }
}

/// The suggestions that units make, in the order of the units.
pub open spec fn units_shown(units: Seq<UnitView>, filter: SystemdFilter) -> Seq<SuggestionView> {
    listing::picked(units, |u: UnitView| unit_shown(u, filter))
}

fn status_prefix(active: &str) -> (r: String)
    ensures
        r@ == state_words(active@),
{
    if text::same(active, "activating") || text::same(active, "deactivating") {
        let mut out = "pending ".to_owned();
        out.append(active);
        out
    } else if active.is_empty() {
        "unknown".to_owned()
    } else {
        active.to_owned()
    }
}

fn systemd_description(u: &SystemdUnit) -> (r: String)
    ensures
        r@ == unit_description(u@),
{
    let prefix = status_prefix(&u.active);
    match clean_opt(&u.description) {
        Some(d) => text_parts::concat3(&prefix, " - ", &d),
        None => prefix,
    }
}

/// The suggestions that the wanted units make, in the order of their names.
pub fn systemd_units_to_suggestions(units: &Vec<SystemdUnit>, filter: SystemdFilter) -> (r: Vec<
    Suggestion,
>)
    ensures
        exists|found: Seq<Suggestion>|
            types::shown(found) == units_shown(listing::views_of(units@), filter) && r@
                == #[trigger] sorting::sorted(found),
        sorting::in_order(r@),
{
    let f = |u: &SystemdUnit| -> (o: Option<Suggestion>)
        ensures
            listing::opt_shown(o) == unit_shown(u@, filter),
        {
            if filter == SystemdFilter::ActiveOnly && !text_parts::eq_folded(&u.active, "active") {
                None
            } else {
                Some(provider_value(u.unit.clone(), Some(systemd_description(u))))
            }
        };
    let found = listing::pick(units, f, Ghost(|u: UnitView| unit_shown(u, filter)));
    let ghost before = found@;
    proof {
        sorting::law_sorted(before);
    }
    let r = sorting::sort(found);
    assert(r@ == sorting::sorted(before));
    r
}

// ---------------------------------------------------------------------------
// Which commands are run
// ---------------------------------------------------------------------------
/// Whether a JSON listing is tried, given whether the tool is new enough, as
/// far as that is known.
pub fn tries_json(recent: Option<bool>) -> (r: bool)
    ensures
        r == (recent != Some(false)),
{
    match recent {
        Some(b) => b,
        None => true,
    }
}

/// The arguments for a JSON listing.
pub open spec fn systemd_json_args(scope: SystemdScope) -> Seq<Seq<char>> {
    let rest = seq!["list-units"@, "-o"@, "json"@, "--all"@, "--full"@];
    if scope == SystemdScope::User {
        seq!["--user"@] + rest
    } else {
        rest
    }
}

/// The arguments for a plain listing.
pub open spec fn systemd_text_args(scope: SystemdScope) -> Seq<Seq<char>> {
    let rest = seq!["list-units"@, "--no-legend"@, "--all"@, "--full"@];
    if scope == SystemdScope::User {
        seq!["--user"@] + rest
    } else {
        rest
    }
}

/// The arguments for a JSON listing.
pub fn json_args(scope: SystemdScope) -> (r: Vec<String>)
    ensures
        text::views(r@) == systemd_json_args(scope),
{
    let mut rest = listing::strings5("list-units", "-o", "json", "--all", "--full");
    if scope == SystemdScope::User {
        let ghost before = rest@;
        rest.insert(0, "--user".to_owned());
        assert(text::views(rest@) =~= seq!["--user"@] + text::views(before));
    }
    rest
}

/// The arguments for a plain listing.
pub fn text_args(scope: SystemdScope) -> (r: Vec<String>)
    ensures
        text::views(r@) == systemd_text_args(scope),
{
    let mut rest = listing::strings4("list-units", "--no-legend", "--all", "--full");
    if scope == SystemdScope::User {
        let ghost before = rest@;
        rest.insert(0, "--user".to_owned());
        assert(text::views(rest@) =~= seq!["--user"@] + text::views(before));
    }
    rest
}

/// A run of the tool.
#[derive(Debug)]
pub struct SystemctlCall {
    pub args: Vec<String>,
    /// Whether a JSON listing is asked for.
    pub json: bool,
}

/// The first run, given whether the tool is new enough for a JSON listing, as
/// far as that is known.
pub fn first_call(scope: SystemdScope, recent: Option<bool>) -> (r: SystemctlCall)
    ensures
        r.json == (recent != Some(false)),
        text::views(r.args@) == (if r.json {
            systemd_json_args(scope)
        } else {
            systemd_text_args(scope)
        }),
{
    if tries_json(recent) {
        SystemctlCall { args: json_args(scope), json: true }
    } else {
        SystemctlCall { args: text_args(scope), json: false }
    }
}

/// What follows a run.
#[derive(Debug)]
pub enum SystemctlStep {
    /// The units are known.
    Units(Vec<SystemdUnit>),
    /// The tool is run again.
    Again(SystemctlCall),
    /// There is nothing to list.
    Nothing,
}

/// Whether the tool is run again, for a plain listing.
pub open spec fn asks_for_text(step: SystemctlStep, scope: SystemdScope) -> bool {
    step matches SystemctlStep::Again(c) && !c.json && text::views(c.args@) == systemd_text_args(
        scope,
    )
}

/// What follows a run that printed `stdout`, or failed. A JSON listing that
/// fails or does not parse is followed by a plain one, and a plain one by
/// nothing. `parse` reads the rows of a JSON listing.
pub fn next_step<F: FnOnce(&str) -> Option<Vec<SystemdJsonUnit>>>(
    scope: SystemdScope,
    call: &SystemctlCall,
    stdout: Option<&str>,
    parse: F,
) -> (r: SystemctlStep)
    requires
        forall|q: &str| #[trigger] call_requires(parse, (q,)),
    ensures
        match stdout {
            Some(s) => if call.json {
                exists|rows: Option<Vec<SystemdJsonUnit>>| #[trigger]
                    call_ensures(parse, (s,), rows) && match rows {
                        Some(v) => r matches SystemctlStep::Units(u) && listing::views_of(u@)
                            == json_units(listing::views_of(v@)),
                        None => asks_for_text(r, scope),
                    }
            } else {
                r matches SystemctlStep::Units(u) && listing::views_of(u@) == text_units(s@)
            },
            None => if call.json {
                asks_for_text(r, scope)
            } else {
                r is Nothing
            },
        },
{
    if call.json {
        if let Some(s) = stdout {
            if let Some(units) = parse_systemd_json_units(s, parse) {
                return SystemctlStep::Units(units);
            }
        }
        return SystemctlStep::Again(SystemctlCall { args: text_args(scope), json: false });
    }
    match stdout {
        Some(s) => SystemctlStep::Units(parse_systemd_text_units(s)),
        None => SystemctlStep::Nothing,
    }
}

// ---------------------------------------------------------------------------
// The providers
// ---------------------------------------------------------------------------
/// systemd units.
pub struct SystemdUnits;

impl Provider for SystemdUnits {
    open spec fn provider_name(&self) -> Seq<char> {
        "systemd_units"@
    }

    fn name(&self) -> (r: &'static str) {
        "systemd_units"
    }
}

/// systemd units of the user.
pub struct SystemdUserUnits;

impl Provider for SystemdUserUnits {
    open spec fn provider_name(&self) -> Seq<char> {
        "systemd_user_units"@
    }

    fn name(&self) -> (r: &'static str) {
        "systemd_user_units"
    }
}

/// Active systemd units.
pub struct SystemdActiveUnits;

impl Provider for SystemdActiveUnits {
    open spec fn provider_name(&self) -> Seq<char> {
        "systemd_active_units"@
    }

    fn name(&self) -> (r: &'static str) {
        "systemd_active_units"
    }
}

} // verus!
