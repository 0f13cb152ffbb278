//! Kubernetes resources, contexts and cluster objects, from what `kubectl`
//! prints.
use crate::providers::context::Provider;
use crate::providers::listing;
use crate::text;
use crate::text_parts;
use crate::types;
use crate::types::{provider_value, Suggestion, SuggestionView};
use vstd::prelude::*;
use vstd::string::*;

verus! {

/// What is listed.
#[derive(Debug, Clone, Copy, PartialEq, Eq, Structural)]
pub enum K8sKind {
    Resources,
    Pods,
    Namespaces,
    Contexts,
    Nodes,
    Services,
}

/// The arguments of the command that lists.
pub open spec fn kubectl_args(kind: K8sKind) -> Seq<Seq<char>> {
    match kind {
        K8sKind::Resources => seq!["api-resources"@, "-o"@, "name"@],
        K8sKind::Pods => seq!["get"@, "pods"@, "-o"@, "json"@],
        K8sKind::Namespaces => seq!["get"@, "namespaces"@, "-o"@, "json"@],
        K8sKind::Contexts => seq!["config"@, "get-contexts"@, "-o"@, "name"@],
        K8sKind::Nodes => seq!["get"@, "nodes"@, "-o"@, "json"@],
        K8sKind::Services => seq!["get"@, "services"@, "-o"@, "json"@],
    }
}

/// The arguments for older tools that cannot print names alone.
pub open spec fn kubectl_legacy_args(kind: K8sKind) -> Option<Seq<Seq<char>>> {
    if kind == K8sKind::Resources {
        Some(seq!["api-resources"@])
    } else {
        None
    }
}

/// Whether one name in each line is printed, rather than a JSON document.
pub open spec fn prints_lines(kind: K8sKind) -> bool {
    kind == K8sKind::Resources || kind == K8sKind::Contexts
}

impl K8sKind {
    /// The arguments of the command that lists.
    pub fn args(self) -> (r: Vec<String>)
        ensures
            text::views(r@) == kubectl_args(self),
    {
        match self {
            K8sKind::Resources => listing::strings3("api-resources", "-o", "name"),
            K8sKind::Pods => listing::strings4("get", "pods", "-o", "json"),
            K8sKind::Namespaces => listing::strings4("get", "namespaces", "-o", "json"),
            K8sKind::Contexts => listing::strings4("config", "get-contexts", "-o", "name"),
            K8sKind::Nodes => listing::strings4("get", "nodes", "-o", "json"),
            K8sKind::Services => listing::strings4("get", "services", "-o", "json"),
        }
    }

    /// The arguments for older tools that cannot print names alone.
    pub fn legacy_args(self) -> (r: Option<Vec<String>>)
        ensures
            match r {
                Some(v) => kubectl_legacy_args(self) == Some(text::views(v@)),
                None => kubectl_legacy_args(self) is None,
            },
    {
        if self == K8sKind::Resources {
            Some(listing::strings1("api-resources"))
        } else {
            None
        }
    }

    /// Whether one name in each line is printed.
    pub fn is_line_output(self) -> (r: bool)
        ensures
            r == prints_lines(self),
    {
        self == K8sKind::Resources || self == K8sKind::Contexts
    }
}

// ---------------------------------------------------------------------------
// Which commands are run
// ---------------------------------------------------------------------------
/// A run of the tool.
#[derive(Debug)]
pub struct KubectlCall {
    pub args: Vec<String>,
    /// Whether the arguments are those for older tools.
    pub legacy: bool,
}

/// The first run, given whether the tool is new enough, as far as that is
/// known.
pub fn first_call(kind: K8sKind, recent: Option<bool>) -> (r: KubectlCall)
    ensures
        r.legacy == (kind == K8sKind::Resources && recent == Some(false)),
        text::views(r.args@) == (if r.legacy {
            kubectl_legacy_args(kind)->Some_0
        } else {
            kubectl_args(kind)
        }),
{
    let old_tool = match recent {
        Some(b) => !b,
        None => false,
    };
    if old_tool {
        if let Some(args) = kind.legacy_args() {
            return KubectlCall { args, legacy: true };
        }
    }
    KubectlCall { args: kind.args(), legacy: false }
}

/// The run after one that failed: with the arguments for older tools, if
/// there are such and they were not tried.
pub fn next_call(kind: K8sKind, failed: &KubectlCall) -> (r: Option<KubectlCall>)
    ensures
        match r {
            Some(c) => !failed.legacy && c.legacy && kubectl_legacy_args(kind) == Some(
                text::views(c.args@),
            ),
            None => failed.legacy || kubectl_legacy_args(kind) is None,
        },
{
    if failed.legacy {
        return None;
    }
    match kind.legacy_args() {
        Some(args) => Some(KubectlCall { args, legacy: true }),
        None => None,
    }
}

// ---------------------------------------------------------------------------
// Names in lines
// ---------------------------------------------------------------------------
/// The suggestion that a line makes. A heading makes none.
pub open spec fn line_shown(line: Seq<char>, kind: K8sKind) -> Option<SuggestionView> {
    let words = text::words(line);
    match kind {
        K8sKind::Resources => if words.len() == 0 || text_parts::same_folded(words[0], "NAME"@) {
            None
        } else {
            Some(types::provided(words[0], Some("kubernetes resource"@)))
        },
        K8sKind::Contexts => listing::entry(line, "kubernetes context"@),
        _ => None,
    }
}

fn line_to_suggestion(line: &String, kind: K8sKind) -> (r: Option<Suggestion>)
    ensures
        listing::opt_shown(r) == line_shown(line@, kind),
{
    match kind {
        K8sKind::Resources => {
            let words = text::words_of(line);
            assert(text::views(words@).len() == words@.len());
            if words.len() == 0 {
                return None;
            }
            assert(text::views(words@)[0] == words@[0]@);
            if text_parts::eq_folded(&words[0], "NAME") {
                return None;
            }
            Some(provider_value(words[0].clone(), Some("kubernetes resource".to_owned())))
        },
        K8sKind::Contexts => {
            let t = text::trim(line);
            if t.as_str().is_empty() {
                None
            } else {
                Some(provider_value(t, Some("kubernetes context".to_owned())))
            }
        },
        _ => None,
    }
}

/// The suggestions for output with one name in each line. For what is printed
/// as a JSON document there are none.
pub fn parse_kubectl_lines(stdout: &str, kind: K8sKind) -> (r: Vec<Suggestion>)
    ensures
        types::shown(r@) == (if prints_lines(kind) {
            listing::picked(text::lines(stdout@), |l: Seq<char>| line_shown(l, kind))
        } else {
            Seq::empty()
        }),
{
    if !kind.is_line_output() {
        let none: Vec<Suggestion> = Vec::new();
        assert(types::shown(none@) =~= Seq::empty());
        return none;
    }
    let f = |line: &String| -> (o: Option<Suggestion>)
        ensures
            listing::opt_shown(o) == line_shown(line@, kind),
        { line_to_suggestion(line, kind) };
    listing::pick_lines(stdout, f, Ghost(|l: Seq<char>| line_shown(l, kind)))
}

// ---------------------------------------------------------------------------
// Objects
// ---------------------------------------------------------------------------
/// One object of a list, as far as it is read.
#[derive(Debug)]
pub struct KubernetesItem {
    pub metadata: Option<KubernetesMetadata>,
    pub status: Option<KubernetesStatus>,
    pub spec: Option<KubernetesSpec>,
}

#[derive(Debug)]
pub struct KubernetesMetadata {
    pub name: Option<String>,
    pub namespace: Option<String>,
}

#[derive(Debug)]
pub struct KubernetesStatus {
    pub phase: Option<String>,
}

#[derive(Debug)]
pub struct KubernetesSpec {
    pub service_type: Option<String>,
    pub cluster_ip: Option<String>,
}

/// The content of a [`KubernetesItem`].
#[verifier::ext_equal]
pub struct ItemView {
    /// Name and namespace.
    pub metadata: Option<(Option<Seq<char>>, Option<Seq<char>>)>,
    pub phase: Option<Option<Seq<char>>>,
    /// Service type and cluster address.
    pub service: Option<(Option<Seq<char>>, Option<Seq<char>>)>,
}

impl View for KubernetesItem {
    type V = ItemView;

    open spec fn view(&self) -> ItemView {
        ItemView {
            metadata: match self.metadata {
                Some(m) => Some((text::opt_view(m.name), text::opt_view(m.namespace))),
                None => None,
            },
            phase: match self.status {
                Some(s) => Some(text::opt_view(s.phase)),
                None => None,
            },
            service: match self.spec {
                Some(s) => Some((text::opt_view(s.service_type), text::opt_view(s.cluster_ip))),
                None => None,
            },
        }
    }
}

/// A field without white space around it, unless it says nothing.
pub open spec fn told(value: Option<Seq<char>>) -> Option<Seq<char>> {
    match value {
        Some(v) => {
            let t = text::trimmed(v);
            if t.len() == 0 || t == "<none>"@ {
                None
            } else {
                Some(t)
            }
        },
        None => None,
    }
}

/// The phase of an object, if one is told.
pub open spec fn told_phase(item: ItemView) -> Option<Seq<char>> {
    match item.phase {
        Some(p) => told(p),
        None => None,
    }
}

/// What is told about an object.
pub open spec fn item_description(
    item: ItemView,
    namespace: Option<Seq<char>>,
    kind: K8sKind,
) -> Option<Seq<char>> {
    match kind {
        K8sKind::Pods => listing::with_remark(told(namespace), told_phase(item)),
        K8sKind::Namespaces => told_phase(item),
        K8sKind::Services => match item.service {
            Some(s) => listing::joined_or_none(
                listing::extended(
                    listing::extended(
                        listing::extended(Seq::<Seq<char>>::empty(), told(namespace)),
                        told(s.0),
                    ),
                    told(s.1),
                ),
            ),
            None => None,
        },
        _ => None,
    }
}

/// The suggestion that an object makes. One without a name makes none.
pub open spec fn item_shown(item: ItemView, kind: K8sKind) -> Option<SuggestionView> {
    match item.metadata {
        Some(m) => match told(m.0) {
            Some(n) => Some(types::provided(n, item_description(item, m.1, kind))),
            None => None,
        },
        None => None,
    }
}

/// The suggestions that objects make.
pub open spec fn items_shown(items: Seq<ItemView>, kind: K8sKind) -> Seq<SuggestionView> {
    listing::picked(items, |item: ItemView| item_shown(item, kind))
}

fn clean(value: &Option<String>) -> (r: Option<String>)
    ensures
        text::opt_view(r) == told(text::opt_view(*value)),
{
    match value {
        Some(v) => {
            let t = text::trim(v);
            if t.as_str().is_empty() || text::same(&t, "<none>") {
                None
            } else {
                Some(t)
            }
        },
        None => None,
    }
}

fn phase_of(item: &KubernetesItem) -> (r: Option<String>)
    ensures
        text::opt_view(r) == told_phase(item@),
{
    match &item.status {
        Some(s) => clean(&s.phase),
        None => None,
    }
}

fn description_of(item: &KubernetesItem, namespace: &Option<String>, kind: K8sKind) -> (r: Option<
    String,
>)
    ensures
        text::opt_view(r) == item_description(item@, text::opt_view(*namespace), kind),
{
    match kind {
        K8sKind::Pods => listing::remark(clean(namespace), phase_of(item)),
        K8sKind::Namespaces => phase_of(item),
        K8sKind::Services => match &item.spec {
            Some(s) => {
                let mut pieces: Vec<String> = Vec::new();
                assert(text::views(pieces@) =~= Seq::empty());
                listing::extend(&mut pieces, clean(namespace));
                listing::extend(&mut pieces, clean(&s.service_type));
                listing::extend(&mut pieces, clean(&s.cluster_ip));
                listing::join_or_none(&pieces)
            },
            None => None,
        },
        _ => None,
    }
}

/// The suggestion that an object makes.
pub fn item_to_suggestion(item: &KubernetesItem, kind: K8sKind) -> (r: Option<Suggestion>)
    ensures
        listing::opt_shown(r) == item_shown(item@, kind),
{
    match &item.metadata {
        Some(m) => match clean(&m.name) {
            Some(name) => Some(provider_value(name, description_of(item, &m.namespace, kind))),
            None => None,
        },
        None => None,
    }
}

/// The suggestions for a JSON document. `parse` reads its objects; where it
/// fails, or where names in lines are printed, there are none.
pub fn parse_kubectl_json_list<F: FnOnce(&str) -> Option<Vec<KubernetesItem>>>(
    stdout: &str,
    kind: K8sKind,
    parse: F,
) -> (r: Vec<Suggestion>)
    requires
        call_requires(parse, (stdout,)),
    ensures
        prints_lines(kind) ==> r@.len() == 0,
        !prints_lines(kind) ==> exists|items: Option<Vec<KubernetesItem>>| #[trigger]
            call_ensures(parse, (stdout,), items) && types::shown(r@) == (match items {
                Some(v) => items_shown(listing::views_of(v@), kind),
                None => Seq::empty(),
            }),
{
    let none: Vec<Suggestion> = Vec::new();
    assert(types::shown(none@) =~= Seq::empty());
    if kind.is_line_output() {
        return none;
    }
    let items = parse(stdout);
    let ghost got = items;
    assert(call_ensures(parse, (stdout,), got));
    match items {
        Some(v) => {
            let f = |item: &KubernetesItem| -> (o: Option<Suggestion>)
                ensures
                    listing::opt_shown(o) == item_shown(item@, kind),
                { item_to_suggestion(item, kind) };
            listing::pick(&v, f, Ghost(|item: ItemView| item_shown(item, kind)))
        },
        None => none,
    }
}

// ---------------------------------------------------------------------------
// The providers
// ---------------------------------------------------------------------------
/// Kubernetes resource types.
pub struct K8sResources;

impl Provider for K8sResources {
    open spec fn provider_name(&self) -> Seq<char> {
        "k8s_resources"@
    }

    fn name(&self) -> (r: &'static str) {
        "k8s_resources"
    }
}

/// Kubernetes pods.
pub struct K8sPods;

impl Provider for K8sPods {
    open spec fn provider_name(&self) -> Seq<char> {
        "k8s_pods"@
    }

    fn name(&self) -> (r: &'static str) {
        "k8s_pods"
    }
}

/// Kubernetes namespaces.
pub struct K8sNamespaces;

impl Provider for K8sNamespaces {
    open spec fn provider_name(&self) -> Seq<char> {
        "k8s_namespaces"@
    }

    fn name(&self) -> (r: &'static str) {
        "k8s_namespaces"
    }
}

/// Kubernetes contexts.
pub struct K8sContexts;

impl Provider for K8sContexts {
    open spec fn provider_name(&self) -> Seq<char> {
        "k8s_contexts"@
    }

    fn name(&self) -> (r: &'static str) {
        "k8s_contexts"
    }
}

/// Kubernetes nodes.
pub struct K8sNodes;

impl Provider for K8sNodes {
    open spec fn provider_name(&self) -> Seq<char> {
        "k8s_nodes"@
    }

    fn name(&self) -> (r: &'static str) {
        "k8s_nodes"
    }
}

/// Kubernetes services.
pub struct K8sServices;

impl Provider for K8sServices {
    open spec fn provider_name(&self) -> Seq<char> {
        "k8s_services"@
    }

    fn name(&self) -> (r: &'static str) {
        "k8s_services"
    }
}

} // verus!
