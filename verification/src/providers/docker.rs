//! Docker images, containers, networks and volumes, from the rows that
//! Docker-like tools print as JSON.
use crate::providers::context::{Provider, ProviderCtx};
use crate::providers::listing;
use crate::providers::util;
use crate::providers::util::parse_json_lines;
use crate::text;
use crate::text_map;
use crate::text_parts;
use crate::types;
use crate::types::{provider_value, Suggestion, SuggestionView};
use vstd::prelude::*;
use vstd::string::*;

verus! {

/// What is listed.
#[derive(Debug, Clone, Copy, PartialEq, Eq, Structural)]
pub enum DockerKind {
    Images,
    Containers,
    RunningContainers,
    Networks,
    Volumes,
}

/// The arguments of the command that lists.
pub open spec fn docker_args(kind: DockerKind) -> Seq<Seq<char>> {
    match kind {
        DockerKind::Images => seq!["images"@, "--format"@, "{{json .}}"@],
        DockerKind::Containers => seq!["ps"@, "-a"@, "--format"@, "{{json .}}"@],
        DockerKind::RunningContainers => seq!["ps"@, "--filter"@, "status=running"@, "--format"@, "{{json .}}"@],
        DockerKind::Networks => seq!["network"@, "ls"@, "--format"@, "{{json .}}"@],
        DockerKind::Volumes => seq!["volume"@, "ls"@, "--format"@, "{{json .}}"@],
    }
}

impl DockerKind {
    /// The arguments of the command that lists.
    pub fn args(self) -> (r: Vec<String>)
        ensures
            text::views(r@) == docker_args(self),
    {
        match self {
            DockerKind::Images => listing::strings3("images", "--format", "{{json .}}"),
            DockerKind::Containers => listing::strings4("ps", "-a", "--format", "{{json .}}"),
            DockerKind::RunningContainers => listing::strings5("ps", "--filter", "status=running", "--format", "{{json .}}"),
            DockerKind::Networks => listing::strings4("network", "ls", "--format", "{{json .}}"),
            DockerKind::Volumes => listing::strings4("volume", "ls", "--format", "{{json .}}"),
        }
    }
}

/// One row, as far as it is read. Fields that a row lacks are absent.
#[derive(Debug)]
pub struct DockerRow {
    pub repository: Option<String>,
    pub tag: Option<String>,
    pub id: Option<String>,
    pub image: Option<String>,
    pub names: Option<String>,
    pub name: Option<String>,
    pub status: Option<String>,
    pub state: Option<String>,
    pub size: Option<String>,
    pub driver: Option<String>,
    pub scope: Option<String>,
    pub mountpoint: Option<String>,
}

/// The content of a [`DockerRow`].
#[verifier::ext_equal]
pub struct DockerRowView {
    pub repository: Option<Seq<char>>,
    pub tag: Option<Seq<char>>,
    pub id: Option<Seq<char>>,
    pub image: Option<Seq<char>>,
    pub names: Option<Seq<char>>,
    pub name: Option<Seq<char>>,
    pub status: Option<Seq<char>>,
    pub state: Option<Seq<char>>,
    pub size: Option<Seq<char>>,
    pub driver: Option<Seq<char>>,
    pub scope: Option<Seq<char>>,
    pub mountpoint: Option<Seq<char>>,
}

impl View for DockerRow {
    type V = DockerRowView;

    open spec fn view(&self) -> DockerRowView {
        DockerRowView {
            repository: text::opt_view(self.repository),
            tag: text::opt_view(self.tag),
            id: text::opt_view(self.id),
            image: text::opt_view(self.image),
            names: text::opt_view(self.names),
            name: text::opt_view(self.name),
            status: text::opt_view(self.status),
            state: text::opt_view(self.state),
            size: text::opt_view(self.size),
            driver: text::opt_view(self.driver),
            scope: text::opt_view(self.scope),
            mountpoint: text::opt_view(self.mountpoint),
        }
    }
}

// ---------------------------------------------------------------------------
// From rows to suggestions
// ---------------------------------------------------------------------------
/// A field without white space around it, unless it says nothing.
pub open spec fn told(value: Option<Seq<char>>) -> Option<Seq<char>> {
    match value {
        Some(v) => {
            let t = text::trimmed(v);
            if t.len() == 0 || t == "<none>"@ || t == "N/A"@ {
                None
            } else {
                Some(t)
            }
        },
        None => None,
    }
}

/// The first of two that is there.
pub open spec fn first_of(a: Option<Seq<char>>, b: Option<Seq<char>>) -> Option<Seq<char>> {
    if a is Some {
        a
    } else {
        b
    }
}

/// Whether a container runs.
pub open spec fn runs(row: DockerRowView) -> bool {
    ||| told(row.state) matches Some(s) && text_parts::same_folded(s, "running"@)
    ||| told(row.status) matches Some(s) && (text_parts::same_folded(s, "running"@)
        || "Up "@.is_prefix_of(s))
}

/// The name of what a row is about.
pub open spec fn row_text(row: DockerRowView, kind: DockerKind) -> Option<Seq<char>> {
    match kind {
        DockerKind::Images => match (told(row.repository), told(row.tag)) {
            (Some(r), Some(t)) => Some(r + ":"@ + t),
            (Some(r), None) => Some(r),
            (None, _) => told(row.id),
        },
        DockerKind::Containers | DockerKind::RunningContainers => first_of(
            told(row.names),
            first_of(told(row.name), told(row.id)),
        ),
        DockerKind::Networks => first_of(told(row.name), told(row.names)),
        DockerKind::Volumes => told(row.name),
    }
}

/// What is told about what a row is about.
pub open spec fn row_description(row: DockerRowView, kind: DockerKind) -> Option<Seq<char>> {
    let none = Seq::<Seq<char>>::empty();
    match kind {
        DockerKind::Images => listing::joined_or_none(
            listing::extended(listing::extended(none, told(row.id)), told(row.size)),
        ),
        DockerKind::Containers | DockerKind::RunningContainers => listing::with_remark(
            told(row.image),
            first_of(told(row.status), told(row.state)),
        ),
        DockerKind::Networks => listing::joined_or_none(
            listing::extended(
                listing::extended(listing::extended(none, told(row.id)), told(row.driver)),
                told(row.scope),
            ),
        ),
        DockerKind::Volumes => listing::joined_or_none(
            listing::extended(
                listing::extended(
                    listing::extended(none, told(row.driver)),
                    told(row.mountpoint),
                ),
                told(row.scope),
            ),
        ),
    }
}

/// The suggestion that a row makes. Rows without a name make none, nor do
/// containers that stand still where only running ones are asked for.
pub open spec fn row_shown(row: DockerRowView, kind: DockerKind) -> Option<SuggestionView> {
    if kind == DockerKind::RunningContainers && !runs(row) {
        None
    } else {
        match row_text(row, kind) {
            Some(t) => Some(types::provided(t, row_description(row, kind))),
            None => None,
        }
    }
}

/// A running container is suggested just as it is among all containers.
pub proof fn law_running_among_all(row: DockerRowView)
    ensures
        row_shown(row, DockerKind::RunningContainers) is Some ==> row_shown(
            row,
            DockerKind::RunningContainers,
        ) == row_shown(row, DockerKind::Containers),
{
}

/// The suggestions that rows make.
pub open spec fn rows_shown(rows: Seq<DockerRowView>, kind: DockerKind) -> Seq<SuggestionView> {
    listing::picked(rows, |row: DockerRowView| row_shown(row, kind))
}

fn clean(value: &Option<String>) -> (r: Option<String>)
    ensures
        text::opt_view(r) == told(text::opt_view(*value)),
{
    match value {
        Some(v) => {
            let t = text::trim(v);
            if t.as_str().is_empty() || text::same(&t, "<none>") || text::same(&t, "N/A") {
                None
            } else {
                Some(t)
            }
        },
        None => None,
    }
}

fn or_else(a: Option<String>, b: Option<String>) -> (r: Option<String>)
    ensures
        text::opt_view(r) == first_of(text::opt_view(a), text::opt_view(b)),
{
    if a.is_some() {
        a
    } else {
        b
    }
}

fn is_running(row: &DockerRow) -> (r: bool)
    ensures
        r == runs(row@),
{
    if let Some(state) = clean(&row.state) {
        if text_parts::eq_folded(&state, "running") {
            return true;
        }
    }
    match clean(&row.status) {
        Some(status) => text_parts::eq_folded(&status, "running") || text::starts_with(
            &status,
            "Up ",
        ),
        None => false,
    }
}

fn text_of(row: &DockerRow, kind: DockerKind) -> (r: Option<String>)
    ensures
        text::opt_view(r) == row_text(row@, kind),
{
    match kind {
        DockerKind::Images => match (clean(&row.repository), clean(&row.tag)) {
            (Some(repository), Some(tag)) => Some(text_parts::concat3(&repository, ":", &tag)),
            (Some(repository), None) => Some(repository),
            (None, _) => clean(&row.id),
        },
        DockerKind::Containers | DockerKind::RunningContainers => or_else(
            clean(&row.names),
            or_else(clean(&row.name), clean(&row.id)),
        ),
        DockerKind::Networks => or_else(clean(&row.name), clean(&row.names)),
        DockerKind::Volumes => clean(&row.name),
    }
}

fn description_of(row: &DockerRow, kind: DockerKind) -> (r: Option<String>)
    ensures
        text::opt_view(r) == row_description(row@, kind),
{
    let mut pieces: Vec<String> = Vec::new();
    assert(text::views(pieces@) =~= Seq::empty());
    match kind {
        DockerKind::Images => {
            listing::extend(&mut pieces, clean(&row.id));
            listing::extend(&mut pieces, clean(&row.size));
            listing::join_or_none(&pieces)
        },
        DockerKind::Containers | DockerKind::RunningContainers => listing::remark(
            clean(&row.image),
            or_else(clean(&row.status), clean(&row.state)),
        ),
        DockerKind::Networks => {
            listing::extend(&mut pieces, clean(&row.id));
            listing::extend(&mut pieces, clean(&row.driver));
            listing::extend(&mut pieces, clean(&row.scope));
            listing::join_or_none(&pieces)
        },
        DockerKind::Volumes => {
            listing::extend(&mut pieces, clean(&row.driver));
            listing::extend(&mut pieces, clean(&row.mountpoint));
            listing::extend(&mut pieces, clean(&row.scope));
            listing::join_or_none(&pieces)
        },
    }
}

/// The suggestion that a row makes.
pub fn row_to_suggestion(row: &DockerRow, kind: DockerKind) -> (r: Option<Suggestion>)
    ensures
        listing::opt_shown(r) == row_shown(row@, kind),
{
    if kind == DockerKind::RunningContainers && !is_running(row) {
        return None;
    }
    match text_of(row, kind) {
        Some(t) => Some(provider_value(t, description_of(row, kind))),
        None => None,
    }
}

/// The suggestions that rows make.
pub fn rows_to_suggestions(rows: &Vec<DockerRow>, kind: DockerKind) -> (r: Vec<Suggestion>)
    ensures
        types::shown(r@) == rows_shown(listing::views_of(rows@), kind),
{
    let f = |row: &DockerRow| -> (o: Option<Suggestion>)
        ensures
            listing::opt_shown(o) == row_shown(row@, kind),
        { row_to_suggestion(row, kind) };
    listing::pick(rows, f, Ghost(|row: DockerRowView| row_shown(row, kind)))
}

/// The suggestions for what the command printed. `parse` reads one row; where
/// it fails on one, nothing is suggested.
pub fn parse_docker_json_lines<F: Fn(&str) -> Option<DockerRow>>(
    stdout: &str,
    kind: DockerKind,
    parse: &F,
) -> (r: Vec<Suggestion>)
    requires
        forall|q: &str| #[trigger] call_requires(*parse, (q,)),
    ensures
        exists|rows: Option<Seq<DockerRow>>| #[trigger]
            util::lines_result(*parse, util::filled_lines(stdout@), rows) && types::shown(r@) == (
            match rows {
                Some(v) => rows_shown(listing::views_of(v), kind),
                None => Seq::empty(),
            }),
{
    match parse_json_lines(stdout, parse) {
        Some(rows) => {
            assert(util::lines_result(*parse, util::filled_lines(stdout@), Some(rows@)));
            rows_to_suggestions(&rows, kind)
        },
        None => {
            let none: Vec<Suggestion> = Vec::new();
            assert(util::lines_result(
                *parse,
                util::filled_lines(stdout@),
                None::<Seq<DockerRow>>,
            ));
            assert(types::shown(none@) =~= Seq::empty());
            none
        },
    }
}

/// The tool to run: the parameter `binary` without white space around it, or
/// `docker`.
pub open spec fn docker_binary(params: Seq<(Seq<char>, Seq<char>)>) -> Seq<char> {
    match text_map::value_of(params, "binary"@) {
        Some(b) => if text::trimmed(b).len() > 0 {
            text::trimmed(b)
        } else {
            "docker"@
        },
        None => "docker"@,
    }
}

/// The tool to run.
pub fn binary_from_ctx(ctx: &ProviderCtx) -> (r: String)
    ensures
        r@ == docker_binary(ctx.params.items()),
{
    if let Some(b) = ctx.params.get("binary") {
        let t = text::trim(b);
        if !t.as_str().is_empty() {
            return t;
        }
    }
    "docker".to_owned()
}

// ---------------------------------------------------------------------------
// The providers
// ---------------------------------------------------------------------------
/// Docker images.
pub struct DockerImages;

impl Provider for DockerImages {
    open spec fn provider_name(&self) -> Seq<char> {
        "docker_images"@
    }

    fn name(&self) -> (r: &'static str) {
        "docker_images"
    }
}

/// Docker containers.
pub struct DockerContainers;

impl Provider for DockerContainers {
    open spec fn provider_name(&self) -> Seq<char> {
        "docker_containers"@
    }

    fn name(&self) -> (r: &'static str) {
        "docker_containers"
    }
}

/// Running Docker containers.
pub struct DockerRunningContainers;

impl Provider for DockerRunningContainers {
    open spec fn provider_name(&self) -> Seq<char> {
        "docker_running_containers"@
    }

    fn name(&self) -> (r: &'static str) {
        "docker_running_containers"
    }
}

/// Docker networks.
pub struct DockerNetworks;

impl Provider for DockerNetworks {
    open spec fn provider_name(&self) -> Seq<char> {
        "docker_networks"@
    }

    fn name(&self) -> (r: &'static str) {
        "docker_networks"
    }
}

/// Docker volumes.
pub struct DockerVolumes;

impl Provider for DockerVolumes {
    open spec fn provider_name(&self) -> Seq<char> {
        "docker_volumes"@
    }

    fn name(&self) -> (r: &'static str) {
        "docker_volumes"
    }
}

} // verus!
