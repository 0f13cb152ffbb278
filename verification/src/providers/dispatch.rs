//! Which provider answers for which kind, and what it is asked.
use crate::providers;
use crate::providers::arduino_cli::ArduinoListing;
use crate::providers::brew::BrewListing;
use crate::providers::context;
use crate::providers::context::{path_is_absolute, Provider, ProviderCtx};
use crate::providers::docker::DockerKind;
use crate::providers::dscl_principals::PrincipalNode;
use crate::providers::kind;
use crate::providers::kind::ProviderKind;
use crate::providers::kubectl::K8sKind;
use crate::providers::multipass::MultipassInstanceFilter;
use crate::providers::npm_local::NpmDependencyMode;
use crate::providers::pandoc::PandocFormats;
use crate::providers::systemd_units::SystemdListing;
use crate::providers::tmux_state::TmuxQuery;
use crate::types::Suggestion;
use vstd::prelude::*;

verus! {

// ---------------------------------------------------------------------------
// The table
// ---------------------------------------------------------------------------
/// What is asked for a kind: the family that answers, and which of its
/// listings is wanted.
#[derive(Debug, Clone, Copy, PartialEq, Eq, Structural)]
pub enum ProviderQuery {
    AwsSdk,
    AwsProfileNames,
    AnsibleDocModules,
    Arduino(ArduinoListing),
    Brew(BrewListing),
    CargoWorkspaceMembers,
    CargoTargets,
    CargoFeatures,
    DefaultsDomains,
    Docker(DockerKind),
    Principals(PrincipalNode),
    Kubernetes(K8sKind),
    MakefileTargets,
    MambaEnvs,
    Multipass(MultipassInstanceFilter),
    NpmScripts,
    Npm(NpmDependencyMode),
    Pandoc(PandocFormats),
    Systemd(SystemdListing),
    Tmux(TmuxQuery),
}

/// What is asked for a kind. Every kind has something.
pub open spec fn asked(kind: ProviderKind) -> ProviderQuery {
    match kind {
        ProviderKind::AwsSdk => ProviderQuery::AwsSdk,
        ProviderKind::AwsProfileNames => ProviderQuery::AwsProfileNames,
        ProviderKind::AnsibleDocModules => ProviderQuery::AnsibleDocModules,
        ProviderKind::ArduinoCliBoards => ProviderQuery::Arduino(ArduinoListing::Boards),
        ProviderKind::ArduinoCliPorts => ProviderQuery::Arduino(ArduinoListing::Ports),
        ProviderKind::CargoWorkspaceMembers => ProviderQuery::CargoWorkspaceMembers,
        ProviderKind::CargoTargets => ProviderQuery::CargoTargets,
        ProviderKind::CargoFeatures => ProviderQuery::CargoFeatures,
        ProviderKind::DefaultsDomains => ProviderQuery::DefaultsDomains,
        ProviderKind::DockerImages => ProviderQuery::Docker(DockerKind::Images),
        ProviderKind::DockerContainers => ProviderQuery::Docker(DockerKind::Containers),
        ProviderKind::DockerRunningContainers => ProviderQuery::Docker(DockerKind::RunningContainers),
        ProviderKind::DockerNetworks => ProviderQuery::Docker(DockerKind::Networks),
        ProviderKind::DockerVolumes => ProviderQuery::Docker(DockerKind::Volumes),
        ProviderKind::DsclUsers => ProviderQuery::Principals(PrincipalNode::Users),
        ProviderKind::DsclGroups => ProviderQuery::Principals(PrincipalNode::Groups),
        ProviderKind::K8sResources => ProviderQuery::Kubernetes(K8sKind::Resources),
        ProviderKind::K8sPods => ProviderQuery::Kubernetes(K8sKind::Pods),
        ProviderKind::K8sNamespaces => ProviderQuery::Kubernetes(K8sKind::Namespaces),
        ProviderKind::K8sContexts => ProviderQuery::Kubernetes(K8sKind::Contexts),
        ProviderKind::K8sNodes => ProviderQuery::Kubernetes(K8sKind::Nodes),
        ProviderKind::K8sServices => ProviderQuery::Kubernetes(K8sKind::Services),
        ProviderKind::MakefileTargets => ProviderQuery::MakefileTargets,
        ProviderKind::MambaEnvs => ProviderQuery::MambaEnvs,
        ProviderKind::MultipassList => ProviderQuery::Multipass(MultipassInstanceFilter::All),
        ProviderKind::NpmScripts => ProviderQuery::NpmScripts,
        ProviderKind::NpmDependencies => ProviderQuery::Npm(NpmDependencyMode::Dependencies),
        ProviderKind::NpmDevDependencies => ProviderQuery::Npm(NpmDependencyMode::DevDependencies),
        ProviderKind::NpmAllDependencies => ProviderQuery::Npm(NpmDependencyMode::AllDependencies),
        ProviderKind::MultipassListNotDeleted => ProviderQuery::Multipass(MultipassInstanceFilter::NotDeleted),
        ProviderKind::MultipassListDeleted => ProviderQuery::Multipass(MultipassInstanceFilter::Deleted),
        ProviderKind::MultipassListRunning => ProviderQuery::Multipass(MultipassInstanceFilter::Running),
        ProviderKind::MultipassListStopped => ProviderQuery::Multipass(MultipassInstanceFilter::Stopped),
        ProviderKind::PandocInputFormats => ProviderQuery::Pandoc(PandocFormats::Input),
        ProviderKind::PandocOutputFormats => ProviderQuery::Pandoc(PandocFormats::Output),
        ProviderKind::TmuxSessions => ProviderQuery::Tmux(TmuxQuery::Sessions),
        ProviderKind::TmuxWindows => ProviderQuery::Tmux(TmuxQuery::Windows),
        ProviderKind::TmuxPanes => ProviderQuery::Tmux(TmuxQuery::Panes),
        ProviderKind::TmuxClients => ProviderQuery::Tmux(TmuxQuery::Clients),
        ProviderKind::SystemdUnits => ProviderQuery::Systemd(SystemdListing::Units),
        ProviderKind::SystemdUserUnits => ProviderQuery::Systemd(SystemdListing::UserUnits),
        ProviderKind::SystemdActiveUnits => ProviderQuery::Systemd(SystemdListing::ActiveUnits),
        ProviderKind::BrewFormulaeInstalled => ProviderQuery::Brew(BrewListing::FormulaeInstalled),
        ProviderKind::BrewCasksInstalled => ProviderQuery::Brew(BrewListing::CasksInstalled),
        ProviderKind::BrewFormulaeSearchable => ProviderQuery::Brew(BrewListing::FormulaeSearchable),
    }
}

/// What is asked for a kind.
pub fn query_of(kind: ProviderKind) -> (r: ProviderQuery)
    ensures
        r == asked(kind),
{
    match kind {
        ProviderKind::AwsSdk => ProviderQuery::AwsSdk,
        ProviderKind::AwsProfileNames => ProviderQuery::AwsProfileNames,
        ProviderKind::AnsibleDocModules => ProviderQuery::AnsibleDocModules,
        ProviderKind::ArduinoCliBoards => ProviderQuery::Arduino(ArduinoListing::Boards),
        ProviderKind::ArduinoCliPorts => ProviderQuery::Arduino(ArduinoListing::Ports),
        ProviderKind::CargoWorkspaceMembers => ProviderQuery::CargoWorkspaceMembers,
        ProviderKind::CargoTargets => ProviderQuery::CargoTargets,
        ProviderKind::CargoFeatures => ProviderQuery::CargoFeatures,
        ProviderKind::DefaultsDomains => ProviderQuery::DefaultsDomains,
        ProviderKind::DockerImages => ProviderQuery::Docker(DockerKind::Images),
        ProviderKind::DockerContainers => ProviderQuery::Docker(DockerKind::Containers),
        ProviderKind::DockerRunningContainers => ProviderQuery::Docker(DockerKind::RunningContainers),
        ProviderKind::DockerNetworks => ProviderQuery::Docker(DockerKind::Networks),
        ProviderKind::DockerVolumes => ProviderQuery::Docker(DockerKind::Volumes),
        ProviderKind::DsclUsers => ProviderQuery::Principals(PrincipalNode::Users),
        ProviderKind::DsclGroups => ProviderQuery::Principals(PrincipalNode::Groups),
        ProviderKind::K8sResources => ProviderQuery::Kubernetes(K8sKind::Resources),
        ProviderKind::K8sPods => ProviderQuery::Kubernetes(K8sKind::Pods),
        ProviderKind::K8sNamespaces => ProviderQuery::Kubernetes(K8sKind::Namespaces),
        ProviderKind::K8sContexts => ProviderQuery::Kubernetes(K8sKind::Contexts),
        ProviderKind::K8sNodes => ProviderQuery::Kubernetes(K8sKind::Nodes),
        ProviderKind::K8sServices => ProviderQuery::Kubernetes(K8sKind::Services),
        ProviderKind::MakefileTargets => ProviderQuery::MakefileTargets,
        ProviderKind::MambaEnvs => ProviderQuery::MambaEnvs,
        ProviderKind::MultipassList => ProviderQuery::Multipass(MultipassInstanceFilter::All),
        ProviderKind::NpmScripts => ProviderQuery::NpmScripts,
        ProviderKind::NpmDependencies => ProviderQuery::Npm(NpmDependencyMode::Dependencies),
        ProviderKind::NpmDevDependencies => ProviderQuery::Npm(NpmDependencyMode::DevDependencies),
        ProviderKind::NpmAllDependencies => ProviderQuery::Npm(NpmDependencyMode::AllDependencies),
        ProviderKind::MultipassListNotDeleted => ProviderQuery::Multipass(MultipassInstanceFilter::NotDeleted),
        ProviderKind::MultipassListDeleted => ProviderQuery::Multipass(MultipassInstanceFilter::Deleted),
        ProviderKind::MultipassListRunning => ProviderQuery::Multipass(MultipassInstanceFilter::Running),
        ProviderKind::MultipassListStopped => ProviderQuery::Multipass(MultipassInstanceFilter::Stopped),
        ProviderKind::PandocInputFormats => ProviderQuery::Pandoc(PandocFormats::Input),
        ProviderKind::PandocOutputFormats => ProviderQuery::Pandoc(PandocFormats::Output),
        ProviderKind::TmuxSessions => ProviderQuery::Tmux(TmuxQuery::Sessions),
        ProviderKind::TmuxWindows => ProviderQuery::Tmux(TmuxQuery::Windows),
        ProviderKind::TmuxPanes => ProviderQuery::Tmux(TmuxQuery::Panes),
        ProviderKind::TmuxClients => ProviderQuery::Tmux(TmuxQuery::Clients),
        ProviderKind::SystemdUnits => ProviderQuery::Systemd(SystemdListing::Units),
        ProviderKind::SystemdUserUnits => ProviderQuery::Systemd(SystemdListing::UserUnits),
        ProviderKind::SystemdActiveUnits => ProviderQuery::Systemd(SystemdListing::ActiveUnits),
        ProviderKind::BrewFormulaeInstalled => ProviderQuery::Brew(BrewListing::FormulaeInstalled),
        ProviderKind::BrewCasksInstalled => ProviderQuery::Brew(BrewListing::CasksInstalled),
        ProviderKind::BrewFormulaeSearchable => ProviderQuery::Brew(BrewListing::FormulaeSearchable),
    }
}

/// The kind that a query is asked for.
pub open spec fn kind_of(query: ProviderQuery) -> ProviderKind {
    match query {
        ProviderQuery::AwsSdk => ProviderKind::AwsSdk,
        ProviderQuery::AwsProfileNames => ProviderKind::AwsProfileNames,
        ProviderQuery::AnsibleDocModules => ProviderKind::AnsibleDocModules,
        ProviderQuery::Arduino(x) => match x {
            ArduinoListing::Boards => ProviderKind::ArduinoCliBoards,
            ArduinoListing::Ports => ProviderKind::ArduinoCliPorts,
        },
        ProviderQuery::CargoWorkspaceMembers => ProviderKind::CargoWorkspaceMembers,
        ProviderQuery::CargoTargets => ProviderKind::CargoTargets,
        ProviderQuery::CargoFeatures => ProviderKind::CargoFeatures,
        ProviderQuery::DefaultsDomains => ProviderKind::DefaultsDomains,
        ProviderQuery::Docker(x) => match x {
            DockerKind::Images => ProviderKind::DockerImages,
            DockerKind::Containers => ProviderKind::DockerContainers,
            DockerKind::RunningContainers => ProviderKind::DockerRunningContainers,
            DockerKind::Networks => ProviderKind::DockerNetworks,
            DockerKind::Volumes => ProviderKind::DockerVolumes,
        },
        ProviderQuery::Principals(x) => match x {
            PrincipalNode::Users => ProviderKind::DsclUsers,
            PrincipalNode::Groups => ProviderKind::DsclGroups,
        },
        ProviderQuery::Kubernetes(x) => match x {
            K8sKind::Resources => ProviderKind::K8sResources,
            K8sKind::Pods => ProviderKind::K8sPods,
            K8sKind::Namespaces => ProviderKind::K8sNamespaces,
            K8sKind::Contexts => ProviderKind::K8sContexts,
            K8sKind::Nodes => ProviderKind::K8sNodes,
            K8sKind::Services => ProviderKind::K8sServices,
        },
        ProviderQuery::MakefileTargets => ProviderKind::MakefileTargets,
        ProviderQuery::MambaEnvs => ProviderKind::MambaEnvs,
        ProviderQuery::Multipass(x) => match x {
            MultipassInstanceFilter::All => ProviderKind::MultipassList,
            MultipassInstanceFilter::NotDeleted => ProviderKind::MultipassListNotDeleted,
            MultipassInstanceFilter::Deleted => ProviderKind::MultipassListDeleted,
            MultipassInstanceFilter::Running => ProviderKind::MultipassListRunning,
            MultipassInstanceFilter::Stopped => ProviderKind::MultipassListStopped,
        },
        ProviderQuery::NpmScripts => ProviderKind::NpmScripts,
        ProviderQuery::Npm(x) => match x {
            NpmDependencyMode::Dependencies => ProviderKind::NpmDependencies,
            NpmDependencyMode::DevDependencies => ProviderKind::NpmDevDependencies,
            NpmDependencyMode::AllDependencies => ProviderKind::NpmAllDependencies,
        },
        ProviderQuery::Pandoc(x) => match x {
            PandocFormats::Input => ProviderKind::PandocInputFormats,
            PandocFormats::Output => ProviderKind::PandocOutputFormats,
        },
        ProviderQuery::Tmux(x) => match x {
            TmuxQuery::Sessions => ProviderKind::TmuxSessions,
            TmuxQuery::Windows => ProviderKind::TmuxWindows,
            TmuxQuery::Panes => ProviderKind::TmuxPanes,
            TmuxQuery::Clients => ProviderKind::TmuxClients,
        },
        ProviderQuery::Systemd(x) => match x {
            SystemdListing::Units => ProviderKind::SystemdUnits,
            SystemdListing::UserUnits => ProviderKind::SystemdUserUnits,
            SystemdListing::ActiveUnits => ProviderKind::SystemdActiveUnits,
        },
        ProviderQuery::Brew(x) => match x {
            BrewListing::FormulaeInstalled => ProviderKind::BrewFormulaeInstalled,
            BrewListing::CasksInstalled => ProviderKind::BrewCasksInstalled,
            BrewListing::FormulaeSearchable => ProviderKind::BrewFormulaeSearchable,
        },
    }
}

proof fn lemma_kind_of_asked(kind: ProviderKind)
    ensures
        kind_of(asked(kind)) == kind,
{
    match kind {
        ProviderKind::AwsSdk => {},
        ProviderKind::AwsProfileNames => {},
        ProviderKind::AnsibleDocModules => {},
        ProviderKind::ArduinoCliBoards => {},
        ProviderKind::ArduinoCliPorts => {},
        ProviderKind::CargoWorkspaceMembers => {},
        ProviderKind::CargoTargets => {},
        ProviderKind::CargoFeatures => {},
        ProviderKind::DefaultsDomains => {},
        ProviderKind::DockerImages => {},
        ProviderKind::DockerContainers => {},
        ProviderKind::DockerRunningContainers => {},
        ProviderKind::DockerNetworks => {},
        ProviderKind::DockerVolumes => {},
        ProviderKind::DsclUsers => {},
        ProviderKind::DsclGroups => {},
        ProviderKind::K8sResources => {},
        ProviderKind::K8sPods => {},
        ProviderKind::K8sNamespaces => {},
        ProviderKind::K8sContexts => {},
        ProviderKind::K8sNodes => {},
        ProviderKind::K8sServices => {},
        ProviderKind::MakefileTargets => {},
        ProviderKind::MambaEnvs => {},
        ProviderKind::MultipassList => {},
        ProviderKind::NpmScripts => {},
        ProviderKind::NpmDependencies => {},
        ProviderKind::NpmDevDependencies => {},
        ProviderKind::NpmAllDependencies => {},
        ProviderKind::MultipassListNotDeleted => {},
        ProviderKind::MultipassListDeleted => {},
        ProviderKind::MultipassListRunning => {},
        ProviderKind::MultipassListStopped => {},
        ProviderKind::PandocInputFormats => {},
        ProviderKind::PandocOutputFormats => {},
        ProviderKind::TmuxSessions => {},
        ProviderKind::TmuxWindows => {},
        ProviderKind::TmuxPanes => {},
        ProviderKind::TmuxClients => {},
        ProviderKind::SystemdUnits => {},
        ProviderKind::SystemdUserUnits => {},
        ProviderKind::SystemdActiveUnits => {},
        ProviderKind::BrewFormulaeInstalled => {},
        ProviderKind::BrewCasksInstalled => {},
        ProviderKind::BrewFormulaeSearchable => {},
    }
}

proof fn lemma_asked_kind_of(query: ProviderQuery)
    ensures
        asked(kind_of(query)) == query,
{
    match query {
        ProviderQuery::AwsSdk => {},
        ProviderQuery::AwsProfileNames => {},
        ProviderQuery::AnsibleDocModules => {},
        ProviderQuery::Arduino(ArduinoListing::Boards) => {},
        ProviderQuery::Arduino(ArduinoListing::Ports) => {},
        ProviderQuery::CargoWorkspaceMembers => {},
        ProviderQuery::CargoTargets => {},
        ProviderQuery::CargoFeatures => {},
        ProviderQuery::DefaultsDomains => {},
        ProviderQuery::Docker(DockerKind::Images) => {},
        ProviderQuery::Docker(DockerKind::Containers) => {},
        ProviderQuery::Docker(DockerKind::RunningContainers) => {},
        ProviderQuery::Docker(DockerKind::Networks) => {},
        ProviderQuery::Docker(DockerKind::Volumes) => {},
        ProviderQuery::Principals(PrincipalNode::Users) => {},
        ProviderQuery::Principals(PrincipalNode::Groups) => {},
        ProviderQuery::Kubernetes(K8sKind::Resources) => {},
        ProviderQuery::Kubernetes(K8sKind::Pods) => {},
        ProviderQuery::Kubernetes(K8sKind::Namespaces) => {},
        ProviderQuery::Kubernetes(K8sKind::Contexts) => {},
        ProviderQuery::Kubernetes(K8sKind::Nodes) => {},
        ProviderQuery::Kubernetes(K8sKind::Services) => {},
        ProviderQuery::MakefileTargets => {},
        ProviderQuery::MambaEnvs => {},
        ProviderQuery::Multipass(MultipassInstanceFilter::All) => {},
        ProviderQuery::NpmScripts => {},
        ProviderQuery::Npm(NpmDependencyMode::Dependencies) => {},
        ProviderQuery::Npm(NpmDependencyMode::DevDependencies) => {},
        ProviderQuery::Npm(NpmDependencyMode::AllDependencies) => {},
        ProviderQuery::Multipass(MultipassInstanceFilter::NotDeleted) => {},
        ProviderQuery::Multipass(MultipassInstanceFilter::Deleted) => {},
        ProviderQuery::Multipass(MultipassInstanceFilter::Running) => {},
        ProviderQuery::Multipass(MultipassInstanceFilter::Stopped) => {},
        ProviderQuery::Pandoc(PandocFormats::Input) => {},
        ProviderQuery::Pandoc(PandocFormats::Output) => {},
        ProviderQuery::Tmux(TmuxQuery::Sessions) => {},
        ProviderQuery::Tmux(TmuxQuery::Windows) => {},
        ProviderQuery::Tmux(TmuxQuery::Panes) => {},
        ProviderQuery::Tmux(TmuxQuery::Clients) => {},
        ProviderQuery::Systemd(SystemdListing::Units) => {},
        ProviderQuery::Systemd(SystemdListing::UserUnits) => {},
        ProviderQuery::Systemd(SystemdListing::ActiveUnits) => {},
        ProviderQuery::Brew(BrewListing::FormulaeInstalled) => {},
        ProviderQuery::Brew(BrewListing::CasksInstalled) => {},
        ProviderQuery::Brew(BrewListing::FormulaeSearchable) => {},
    }
}

/// Kinds and queries belong together one to one: no two kinds are asked for
/// the same, and nothing is ever asked that no kind stands for.
pub proof fn law_one_query_per_kind(kind: ProviderKind, query: ProviderQuery)
    ensures
        kind_of(asked(kind)) == kind,
        asked(kind_of(query)) == query,
{
    lemma_kind_of_asked(kind);
    lemma_asked_kind_of(query);
}

/// The `type` string that a spec asks a query with.
pub open spec fn query_type(query: ProviderQuery) -> Seq<char> {
    kind::type_text(kind_of(query))
}

/// What a spec asks with its `type` string is what that string names: the kind
/// of the string is asked for the one query with this string.
pub proof fn law_query_type(t: Seq<char>, query: ProviderQuery)
    ensures
        kind::kind_named(t) matches Some(kind) ==> query_type(asked(kind)) == t,
        query_type(query) == t ==> (kind::kind_named(t) matches Some(kind) && asked(kind) == query),
{
    law_one_query_per_kind(kind_of(query), query);
    kind::law_kind_round_trip(kind_of(query), t);
    if let Some(kind) = kind::kind_named(t) {
        law_one_query_per_kind(kind, query);
        kind::law_kind_round_trip(kind, t);
    }
}

/// The name of the provider that answers a query. All listings of Multipass
/// instances come from one provider.
pub open spec fn answering_name(query: ProviderQuery) -> Seq<char> {
    match query {
        ProviderQuery::AwsSdk => providers::aws_sdk::AwsSdk.provider_name(),
        ProviderQuery::AwsProfileNames => providers::aws_profile_names::AwsProfileNames.provider_name(),
        ProviderQuery::AnsibleDocModules => providers::ansible_doc::AnsibleDocModules.provider_name(),
        ProviderQuery::Arduino(ArduinoListing::Boards) => providers::arduino_cli::ArduinoCliBoards.provider_name(),
        ProviderQuery::Arduino(ArduinoListing::Ports) => providers::arduino_cli::ArduinoCliPorts.provider_name(),
        ProviderQuery::CargoWorkspaceMembers => providers::local_project::cargo_workspace::CargoWorkspaceMembers.provider_name(),
        ProviderQuery::CargoTargets => providers::cargo_metadata::CargoTargets.provider_name(),
        ProviderQuery::CargoFeatures => providers::cargo_metadata::CargoFeatures.provider_name(),
        ProviderQuery::DefaultsDomains => providers::macos_defaults::DefaultsDomains.provider_name(),
        ProviderQuery::Docker(DockerKind::Images) => providers::docker::DockerImages.provider_name(),
        ProviderQuery::Docker(DockerKind::Containers) => providers::docker::DockerContainers.provider_name(),
        ProviderQuery::Docker(DockerKind::RunningContainers) => providers::docker::DockerRunningContainers.provider_name(),
        ProviderQuery::Docker(DockerKind::Networks) => providers::docker::DockerNetworks.provider_name(),
        ProviderQuery::Docker(DockerKind::Volumes) => providers::docker::DockerVolumes.provider_name(),
        ProviderQuery::Principals(PrincipalNode::Users) => providers::dscl_principals::DsclUsers.provider_name(),
        ProviderQuery::Principals(PrincipalNode::Groups) => providers::dscl_principals::DsclGroups.provider_name(),
        ProviderQuery::Kubernetes(K8sKind::Resources) => providers::kubectl::K8sResources.provider_name(),
        ProviderQuery::Kubernetes(K8sKind::Pods) => providers::kubectl::K8sPods.provider_name(),
        ProviderQuery::Kubernetes(K8sKind::Namespaces) => providers::kubectl::K8sNamespaces.provider_name(),
        ProviderQuery::Kubernetes(K8sKind::Contexts) => providers::kubectl::K8sContexts.provider_name(),
        ProviderQuery::Kubernetes(K8sKind::Nodes) => providers::kubectl::K8sNodes.provider_name(),
        ProviderQuery::Kubernetes(K8sKind::Services) => providers::kubectl::K8sServices.provider_name(),
        ProviderQuery::MakefileTargets => providers::local_project::makefile::MakefileTargets.provider_name(),
        ProviderQuery::MambaEnvs => providers::mamba::MambaEnvs.provider_name(),
        ProviderQuery::NpmScripts => providers::local_project::npm_scripts::NpmScripts.provider_name(),
        ProviderQuery::Npm(NpmDependencyMode::Dependencies) => providers::npm_local::NpmDependencies.provider_name(),
        ProviderQuery::Npm(NpmDependencyMode::DevDependencies) => providers::npm_local::NpmDevDependencies.provider_name(),
        ProviderQuery::Npm(NpmDependencyMode::AllDependencies) => providers::npm_local::NpmAllDependencies.provider_name(),
        ProviderQuery::Pandoc(PandocFormats::Input) => providers::pandoc::PandocInputFormats.provider_name(),
        ProviderQuery::Pandoc(PandocFormats::Output) => providers::pandoc::PandocOutputFormats.provider_name(),
        ProviderQuery::Tmux(TmuxQuery::Sessions) => providers::tmux_state::TmuxSessions.provider_name(),
        ProviderQuery::Tmux(TmuxQuery::Windows) => providers::tmux_state::TmuxWindows.provider_name(),
        ProviderQuery::Tmux(TmuxQuery::Panes) => providers::tmux_state::TmuxPanes.provider_name(),
        ProviderQuery::Tmux(TmuxQuery::Clients) => providers::tmux_state::TmuxClients.provider_name(),
        ProviderQuery::Systemd(SystemdListing::Units) => providers::systemd_units::SystemdUnits.provider_name(),
        ProviderQuery::Systemd(SystemdListing::UserUnits) => providers::systemd_units::SystemdUserUnits.provider_name(),
        ProviderQuery::Systemd(SystemdListing::ActiveUnits) => providers::systemd_units::SystemdActiveUnits.provider_name(),
        ProviderQuery::Brew(BrewListing::FormulaeInstalled) => providers::brew::BrewFormulaeInstalled.provider_name(),
        ProviderQuery::Brew(BrewListing::CasksInstalled) => providers::brew::BrewCasksInstalled.provider_name(),
        ProviderQuery::Brew(BrewListing::FormulaeSearchable) => providers::brew::BrewFormulaeSearchable.provider_name(),
        ProviderQuery::Multipass(_) => providers::multipass::MultipassList.provider_name(),
    }
}

/// Whether a query is one of the narrower listings that the provider of all
/// Multipass instances answers too.
pub open spec fn is_narrowed(query: ProviderQuery) -> bool {
    query matches ProviderQuery::Multipass(f) && f != MultipassInstanceFilter::All
}

/// The name of the provider that answers for a kind is the `type` string of
/// the kind.
pub proof fn law_provider_names(kind: ProviderKind)
    requires
        !is_narrowed(asked(kind)),
    ensures
        answering_name(asked(kind)) == kind::type_text(kind),
{
}

// ---------------------------------------------------------------------------
// Handing over
// ---------------------------------------------------------------------------
/// What becomes of a request.
#[derive(Debug)]
pub enum Dispatched<T> {
    /// It is answered without asking anyone.
    Answered(Vec<Suggestion>),
    /// The provider was asked, and this is what it gave.
    Asked(T),
}

/// Asks the provider of a kind, for what its kind stands for and in the given
/// context. Where the context's directory is a relative path there are no
/// suggestions, and the provider is not asked.
pub fn resolve<'a, T, F: FnOnce(ProviderQuery, &'a ProviderCtx) -> T>(
    kind: ProviderKind,
    ctx: &'a ProviderCtx,
    generate: F,
) -> (r: Dispatched<T>)
    requires
        context::is_absolute(ctx.cwd@) ==> call_requires(generate, (asked(kind), ctx)),
    ensures
        context::is_absolute(ctx.cwd@) ==> (r matches Dispatched::Asked(t) && call_ensures(
            generate,
            (asked(kind), ctx),
            t,
        )),
        !context::is_absolute(ctx.cwd@) ==> (r matches Dispatched::Answered(v) && v@.len() == 0),
{
    if !path_is_absolute(&ctx.cwd) {
        return Dispatched::Answered(Vec::new());
    }
    Dispatched::Asked(generate(query_of(kind), ctx))
}

} // verus!
