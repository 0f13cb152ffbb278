//! The native providers and the `type` strings by which specs name them.
use crate::text;
use vstd::prelude::*;

verus! {

/// A native provider.
#[derive(Debug, Clone, Copy, PartialEq, Eq, Structural)]
#[non_exhaustive]
pub enum ProviderKind {
    /// IAM listings through the AWS SDK.
    AwsSdk,
    /// Profiles of the shared AWS config and credentials files.
    AwsProfileNames,
    /// Modules that `ansible-doc` lists.
    AnsibleDocModules,
    /// Boards that `arduino-cli` detects.
    ArduinoCliBoards,
    /// Ports on which `arduino-cli` detects a board.
    ArduinoCliPorts,
    /// Packages of the nearest Cargo workspace.
    CargoWorkspaceMembers,
    /// Cargo targets of the kind that the parameters name.
    CargoTargets,
    /// Features of the active Cargo package.
    CargoFeatures,
    /// macOS preference domains.
    DefaultsDomains,
    /// Docker images.
    DockerImages,
    /// Docker containers.
    DockerContainers,
    /// Running Docker containers.
    DockerRunningContainers,
    /// Docker networks.
    DockerNetworks,
    /// Docker volumes.
    DockerVolumes,
    /// macOS users.
    DsclUsers,
    /// macOS groups.
    DsclGroups,
    /// Kubernetes resource types.
    K8sResources,
    /// Kubernetes pods.
    K8sPods,
    /// Kubernetes namespaces.
    K8sNamespaces,
    /// Kubernetes contexts.
    K8sContexts,
    /// Kubernetes nodes.
    K8sNodes,
    /// Kubernetes services.
    K8sServices,
    /// Targets of the nearest makefile.
    MakefileTargets,
    /// Conda environments.
    MambaEnvs,
    /// Multipass instances.
    MultipassList,
    /// Scripts of the nearest `package.json`.
    NpmScripts,
    /// Dependencies of the nearest `package.json`.
    NpmDependencies,
    /// Development dependencies of the nearest `package.json`.
    NpmDevDependencies,
    /// Both kinds of dependencies of the nearest `package.json`.
    NpmAllDependencies,
    /// Multipass instances that are not deleted.
    MultipassListNotDeleted,
    /// Deleted Multipass instances.
    MultipassListDeleted,
    /// Running Multipass instances.
    MultipassListRunning,
    /// Stopped Multipass instances.
    MultipassListStopped,
    /// Formats that pandoc reads.
    PandocInputFormats,
    /// Formats that pandoc writes.
    PandocOutputFormats,
    /// tmux sessions.
    TmuxSessions,
    /// tmux windows.
    TmuxWindows,
    /// tmux panes.
    TmuxPanes,
    /// tmux clients.
    TmuxClients,
    /// systemd units.
    SystemdUnits,
    /// systemd units of the user.
    SystemdUserUnits,
    /// Active systemd units.
    SystemdActiveUnits,
    /// Installed Homebrew formulae.
    BrewFormulaeInstalled,
    /// Installed Homebrew casks.
    BrewCasksInstalled,
    /// Homebrew formulae that a search finds.
    BrewFormulaeSearchable,
}

/// The `type` string of a provider.
pub open spec fn type_text(k: ProviderKind) -> Seq<char> {
    match k {
        ProviderKind::AwsSdk => "aws_sdk"@,
        ProviderKind::AwsProfileNames => "aws_profile_names"@,
        ProviderKind::AnsibleDocModules => "ansible_doc_modules"@,
        ProviderKind::ArduinoCliBoards => "arduino_cli_boards"@,
        ProviderKind::ArduinoCliPorts => "arduino_cli_ports"@,
        ProviderKind::CargoWorkspaceMembers => "cargo_workspace_members"@,
        ProviderKind::CargoTargets => "cargo_targets"@,
        ProviderKind::CargoFeatures => "cargo_features"@,
        ProviderKind::DefaultsDomains => "defaults_domains"@,
        ProviderKind::DockerImages => "docker_images"@,
        ProviderKind::DockerContainers => "docker_containers"@,
        ProviderKind::DockerRunningContainers => "docker_running_containers"@,
        ProviderKind::DockerNetworks => "docker_networks"@,
        ProviderKind::DockerVolumes => "docker_volumes"@,
        ProviderKind::DsclUsers => "dscl_users"@,
        ProviderKind::DsclGroups => "dscl_groups"@,
        ProviderKind::K8sResources => "k8s_resources"@,
        ProviderKind::K8sPods => "k8s_pods"@,
        ProviderKind::K8sNamespaces => "k8s_namespaces"@,
        ProviderKind::K8sContexts => "k8s_contexts"@,
        ProviderKind::K8sNodes => "k8s_nodes"@,
        ProviderKind::K8sServices => "k8s_services"@,
        ProviderKind::MakefileTargets => "makefile_targets"@,
        ProviderKind::MambaEnvs => "mamba_envs"@,
        ProviderKind::MultipassList => "multipass_list"@,
        ProviderKind::NpmScripts => "npm_scripts"@,
        ProviderKind::NpmDependencies => "npm_dependencies"@,
        ProviderKind::NpmDevDependencies => "npm_dev_dependencies"@,
        ProviderKind::NpmAllDependencies => "npm_all_dependencies"@,
        ProviderKind::MultipassListNotDeleted => "multipass_list_not_deleted"@,
        ProviderKind::MultipassListDeleted => "multipass_list_deleted"@,
        ProviderKind::MultipassListRunning => "multipass_list_running"@,
        ProviderKind::MultipassListStopped => "multipass_list_stopped"@,
        ProviderKind::PandocInputFormats => "pandoc_input_formats"@,
        ProviderKind::PandocOutputFormats => "pandoc_output_formats"@,
        ProviderKind::TmuxSessions => "tmux_sessions"@,
        ProviderKind::TmuxWindows => "tmux_windows"@,
        ProviderKind::TmuxPanes => "tmux_panes"@,
        ProviderKind::TmuxClients => "tmux_clients"@,
        ProviderKind::SystemdUnits => "systemd_units"@,
        ProviderKind::SystemdUserUnits => "systemd_user_units"@,
        ProviderKind::SystemdActiveUnits => "systemd_active_units"@,
        ProviderKind::BrewFormulaeInstalled => "brew_formulae_installed"@,
        ProviderKind::BrewCasksInstalled => "brew_casks_installed"@,
        ProviderKind::BrewFormulaeSearchable => "brew_formulae_searchable"@,
    }
}

/// Every provider, in declaration order.
pub open spec fn all_kinds() -> Seq<ProviderKind> {
    seq![
        ProviderKind::AwsSdk,
        ProviderKind::AwsProfileNames,
        ProviderKind::AnsibleDocModules,
        ProviderKind::ArduinoCliBoards,
        ProviderKind::ArduinoCliPorts,
        ProviderKind::CargoWorkspaceMembers,
        ProviderKind::CargoTargets,
        ProviderKind::CargoFeatures,
        ProviderKind::DefaultsDomains,
        ProviderKind::DockerImages,
        ProviderKind::DockerContainers,
        ProviderKind::DockerRunningContainers,
        ProviderKind::DockerNetworks,
        ProviderKind::DockerVolumes,
        ProviderKind::DsclUsers,
        ProviderKind::DsclGroups,
        ProviderKind::K8sResources,
        ProviderKind::K8sPods,
        ProviderKind::K8sNamespaces,
        ProviderKind::K8sContexts,
        ProviderKind::K8sNodes,
        ProviderKind::K8sServices,
        ProviderKind::MakefileTargets,
        ProviderKind::MambaEnvs,
        ProviderKind::MultipassList,
        ProviderKind::NpmScripts,
        ProviderKind::NpmDependencies,
        ProviderKind::NpmDevDependencies,
        ProviderKind::NpmAllDependencies,
        ProviderKind::MultipassListNotDeleted,
        ProviderKind::MultipassListDeleted,
        ProviderKind::MultipassListRunning,
        ProviderKind::MultipassListStopped,
        ProviderKind::PandocInputFormats,
        ProviderKind::PandocOutputFormats,
        ProviderKind::TmuxSessions,
        ProviderKind::TmuxWindows,
        ProviderKind::TmuxPanes,
        ProviderKind::TmuxClients,
        ProviderKind::SystemdUnits,
        ProviderKind::SystemdUserUnits,
        ProviderKind::SystemdActiveUnits,
        ProviderKind::BrewFormulaeInstalled,
        ProviderKind::BrewCasksInstalled,
        ProviderKind::BrewFormulaeSearchable,
    ]
}

/// The place of a provider in the declaration order.
pub open spec fn rank(k: ProviderKind) -> int {
    match k {
        ProviderKind::AwsSdk => 0,
        ProviderKind::AwsProfileNames => 1,
        ProviderKind::AnsibleDocModules => 2,
        ProviderKind::ArduinoCliBoards => 3,
        ProviderKind::ArduinoCliPorts => 4,
        ProviderKind::CargoWorkspaceMembers => 5,
        ProviderKind::CargoTargets => 6,
        ProviderKind::CargoFeatures => 7,
        ProviderKind::DefaultsDomains => 8,
        ProviderKind::DockerImages => 9,
        ProviderKind::DockerContainers => 10,
        ProviderKind::DockerRunningContainers => 11,
        ProviderKind::DockerNetworks => 12,
        ProviderKind::DockerVolumes => 13,
        ProviderKind::DsclUsers => 14,
        ProviderKind::DsclGroups => 15,
        ProviderKind::K8sResources => 16,
        ProviderKind::K8sPods => 17,
        ProviderKind::K8sNamespaces => 18,
        ProviderKind::K8sContexts => 19,
        ProviderKind::K8sNodes => 20,
        ProviderKind::K8sServices => 21,
        ProviderKind::MakefileTargets => 22,
        ProviderKind::MambaEnvs => 23,
        ProviderKind::MultipassList => 24,
        ProviderKind::NpmScripts => 25,
        ProviderKind::NpmDependencies => 26,
        ProviderKind::NpmDevDependencies => 27,
        ProviderKind::NpmAllDependencies => 28,
        ProviderKind::MultipassListNotDeleted => 29,
        ProviderKind::MultipassListDeleted => 30,
        ProviderKind::MultipassListRunning => 31,
        ProviderKind::MultipassListStopped => 32,
        ProviderKind::PandocInputFormats => 33,
        ProviderKind::PandocOutputFormats => 34,
        ProviderKind::TmuxSessions => 35,
        ProviderKind::TmuxWindows => 36,
        ProviderKind::TmuxPanes => 37,
        ProviderKind::TmuxClients => 38,
        ProviderKind::SystemdUnits => 39,
        ProviderKind::SystemdUserUnits => 40,
        ProviderKind::SystemdActiveUnits => 41,
        ProviderKind::BrewFormulaeInstalled => 42,
        ProviderKind::BrewCasksInstalled => 43,
        ProviderKind::BrewFormulaeSearchable => 44,
    }
}

/// Length and two characters, which no two `type` strings share.
spec fn mark_of(s: Seq<char>) -> (nat, char, char) {
    (s.len(), s[4], s[s.len() - 3])
}

spec fn expected(k: ProviderKind) -> (nat, char, char) {
    match k {
        ProviderKind::AwsSdk => (7, 's', 's'),
        ProviderKind::AwsProfileNames => (17, 'p', 'm'),
        ProviderKind::AnsibleDocModules => (19, 'b', 'l'),
        ProviderKind::ArduinoCliBoards => (18, 'i', 'r'),
        ProviderKind::ArduinoCliPorts => (17, 'i', 'r'),
        ProviderKind::CargoWorkspaceMembers => (23, 'o', 'e'),
        ProviderKind::CargoTargets => (13, 'o', 'e'),
        ProviderKind::CargoFeatures => (14, 'o', 'r'),
        ProviderKind::DefaultsDomains => (16, 'u', 'i'),
        ProviderKind::DockerImages => (13, 'e', 'g'),
        ProviderKind::DockerContainers => (17, 'e', 'e'),
        ProviderKind::DockerRunningContainers => (25, 'e', 'e'),
        ProviderKind::DockerNetworks => (15, 'e', 'r'),
        ProviderKind::DockerVolumes => (14, 'e', 'm'),
        ProviderKind::DsclUsers => (10, '_', 'e'),
        ProviderKind::DsclGroups => (11, '_', 'u'),
        ProviderKind::K8sResources => (13, 'r', 'c'),
        ProviderKind::K8sPods => (8, 'p', 'o'),
        ProviderKind::K8sNamespaces => (14, 'n', 'c'),
        ProviderKind::K8sContexts => (12, 'c', 'x'),
        ProviderKind::K8sNodes => (9, 'n', 'd'),
        ProviderKind::K8sServices => (12, 's', 'c'),
        ProviderKind::MakefileTargets => (16, 'f', 'e'),
        ProviderKind::MambaEnvs => (10, 'a', 'n'),
        ProviderKind::MultipassList => (14, 'i', 'i'),
        ProviderKind::NpmScripts => (11, 's', 'p'),
        ProviderKind::NpmDependencies => (16, 'd', 'i'),
        ProviderKind::NpmDevDependencies => (20, 'd', 'i'),
        ProviderKind::NpmAllDependencies => (20, 'a', 'i'),
        ProviderKind::MultipassListNotDeleted => (26, 'i', 't'),
        ProviderKind::MultipassListDeleted => (22, 'i', 't'),
        ProviderKind::MultipassListRunning => (22, 'i', 'i'),
        ProviderKind::MultipassListStopped => (22, 'i', 'p'),
        ProviderKind::PandocInputFormats => (20, 'o', 'a'),
        ProviderKind::PandocOutputFormats => (21, 'o', 'a'),
        ProviderKind::TmuxSessions => (13, '_', 'o'),
        ProviderKind::TmuxWindows => (12, '_', 'o'),
        ProviderKind::TmuxPanes => (10, '_', 'n'),
        ProviderKind::TmuxClients => (12, '_', 'n'),
        ProviderKind::SystemdUnits => (13, 'e', 'i'),
        ProviderKind::SystemdUserUnits => (18, 'e', 'i'),
        ProviderKind::SystemdActiveUnits => (20, 'e', 'i'),
        ProviderKind::BrewFormulaeInstalled => (23, '_', 'l'),
        ProviderKind::BrewCasksInstalled => (20, '_', 'l'),
        ProviderKind::BrewFormulaeSearchable => (24, '_', 'b'),
    }
}

proof fn lemma_expected(k: ProviderKind)
    ensures
        mark_of(type_text(k)) == expected(k),
        type_text(k).len() > 0,
{
    match k {
        ProviderKind::AwsSdk => {
            reveal_strlit("aws_sdk");
        },
        ProviderKind::AwsProfileNames => {
            reveal_strlit("aws_profile_names");
        },
        ProviderKind::AnsibleDocModules => {
            reveal_strlit("ansible_doc_modules");
        },
        ProviderKind::ArduinoCliBoards => {
            reveal_strlit("arduino_cli_boards");
        },
        ProviderKind::ArduinoCliPorts => {
            reveal_strlit("arduino_cli_ports");
        },
        ProviderKind::CargoWorkspaceMembers => {
            reveal_strlit("cargo_workspace_members");
        },
        ProviderKind::CargoTargets => {
            reveal_strlit("cargo_targets");
        },
        ProviderKind::CargoFeatures => {
            reveal_strlit("cargo_features");
        },
        ProviderKind::DefaultsDomains => {
            reveal_strlit("defaults_domains");
        },
        ProviderKind::DockerImages => {
            reveal_strlit("docker_images");
        },
        ProviderKind::DockerContainers => {
            reveal_strlit("docker_containers");
        },
        ProviderKind::DockerRunningContainers => {
            reveal_strlit("docker_running_containers");
        },
        ProviderKind::DockerNetworks => {
            reveal_strlit("docker_networks");
        },
        ProviderKind::DockerVolumes => {
            reveal_strlit("docker_volumes");
        },
        ProviderKind::DsclUsers => {
            reveal_strlit("dscl_users");
        },
        ProviderKind::DsclGroups => {
            reveal_strlit("dscl_groups");
        },
        ProviderKind::K8sResources => {
            reveal_strlit("k8s_resources");
        },
        ProviderKind::K8sPods => {
            reveal_strlit("k8s_pods");
        },
        ProviderKind::K8sNamespaces => {
            reveal_strlit("k8s_namespaces");
        },
        ProviderKind::K8sContexts => {
            reveal_strlit("k8s_contexts");
        },
        ProviderKind::K8sNodes => {
            reveal_strlit("k8s_nodes");
        },
        ProviderKind::K8sServices => {
            reveal_strlit("k8s_services");
        },
        ProviderKind::MakefileTargets => {
            reveal_strlit("makefile_targets");
        },
        ProviderKind::MambaEnvs => {
            reveal_strlit("mamba_envs");
        },
        ProviderKind::MultipassList => {
            reveal_strlit("multipass_list");
        },
        ProviderKind::NpmScripts => {
            reveal_strlit("npm_scripts");
        },
        ProviderKind::NpmDependencies => {
            reveal_strlit("npm_dependencies");
        },
        ProviderKind::NpmDevDependencies => {
            reveal_strlit("npm_dev_dependencies");
        },
        ProviderKind::NpmAllDependencies => {
            reveal_strlit("npm_all_dependencies");
        },
        ProviderKind::MultipassListNotDeleted => {
            reveal_strlit("multipass_list_not_deleted");
        },
        ProviderKind::MultipassListDeleted => {
            reveal_strlit("multipass_list_deleted");
        },
        ProviderKind::MultipassListRunning => {
            reveal_strlit("multipass_list_running");
        },
        ProviderKind::MultipassListStopped => {
            reveal_strlit("multipass_list_stopped");
        },
        ProviderKind::PandocInputFormats => {
            reveal_strlit("pandoc_input_formats");
        },
        ProviderKind::PandocOutputFormats => {
            reveal_strlit("pandoc_output_formats");
        },
        ProviderKind::TmuxSessions => {
            reveal_strlit("tmux_sessions");
        },
        ProviderKind::TmuxWindows => {
            reveal_strlit("tmux_windows");
        },
        ProviderKind::TmuxPanes => {
            reveal_strlit("tmux_panes");
        },
        ProviderKind::TmuxClients => {
            reveal_strlit("tmux_clients");
        },
        ProviderKind::SystemdUnits => {
            reveal_strlit("systemd_units");
        },
        ProviderKind::SystemdUserUnits => {
            reveal_strlit("systemd_user_units");
        },
        ProviderKind::SystemdActiveUnits => {
            reveal_strlit("systemd_active_units");
        },
        ProviderKind::BrewFormulaeInstalled => {
            reveal_strlit("brew_formulae_installed");
        },
        ProviderKind::BrewCasksInstalled => {
            reveal_strlit("brew_casks_installed");
        },
        ProviderKind::BrewFormulaeSearchable => {
            reveal_strlit("brew_formulae_searchable");
        },
    }
}

/// The providers are all listed, each in its place.
pub proof fn lemma_all_kinds(k: ProviderKind)
    ensures
        all_kinds().len() == 45,
        0 <= rank(k) < all_kinds().len(),
        all_kinds()[rank(k)] == k,
{
}

/// No two providers share a `type` string, and none is empty.
pub proof fn law_type_strings_distinct(a: ProviderKind, b: ProviderKind)
    ensures
        type_text(a) == type_text(b) ==> a == b,
        type_text(a).len() > 0,
{
    lemma_expected(a);
    lemma_expected(b);
}

impl ProviderKind {
    /// Every provider, in declaration order.
    pub fn all() -> (r: Vec<ProviderKind>)
        ensures
            r@ == all_kinds(),
    {
        let mut out: Vec<ProviderKind> = Vec::new();
        out.push(ProviderKind::AwsSdk);
        out.push(ProviderKind::AwsProfileNames);
        out.push(ProviderKind::AnsibleDocModules);
        out.push(ProviderKind::ArduinoCliBoards);
        out.push(ProviderKind::ArduinoCliPorts);
        out.push(ProviderKind::CargoWorkspaceMembers);
        out.push(ProviderKind::CargoTargets);
        out.push(ProviderKind::CargoFeatures);
        out.push(ProviderKind::DefaultsDomains);
        out.push(ProviderKind::DockerImages);
        out.push(ProviderKind::DockerContainers);
        out.push(ProviderKind::DockerRunningContainers);
        out.push(ProviderKind::DockerNetworks);
        out.push(ProviderKind::DockerVolumes);
        out.push(ProviderKind::DsclUsers);
        out.push(ProviderKind::DsclGroups);
        out.push(ProviderKind::K8sResources);
        out.push(ProviderKind::K8sPods);
        out.push(ProviderKind::K8sNamespaces);
        out.push(ProviderKind::K8sContexts);
        out.push(ProviderKind::K8sNodes);
        out.push(ProviderKind::K8sServices);
        out.push(ProviderKind::MakefileTargets);
        out.push(ProviderKind::MambaEnvs);
        out.push(ProviderKind::MultipassList);
        out.push(ProviderKind::NpmScripts);
        out.push(ProviderKind::NpmDependencies);
        out.push(ProviderKind::NpmDevDependencies);
        out.push(ProviderKind::NpmAllDependencies);
        out.push(ProviderKind::MultipassListNotDeleted);
        out.push(ProviderKind::MultipassListDeleted);
        out.push(ProviderKind::MultipassListRunning);
        out.push(ProviderKind::MultipassListStopped);
        out.push(ProviderKind::PandocInputFormats);
        out.push(ProviderKind::PandocOutputFormats);
        out.push(ProviderKind::TmuxSessions);
        out.push(ProviderKind::TmuxWindows);
        out.push(ProviderKind::TmuxPanes);
        out.push(ProviderKind::TmuxClients);
        out.push(ProviderKind::SystemdUnits);
        out.push(ProviderKind::SystemdUserUnits);
        out.push(ProviderKind::SystemdActiveUnits);
        out.push(ProviderKind::BrewFormulaeInstalled);
        out.push(ProviderKind::BrewCasksInstalled);
        out.push(ProviderKind::BrewFormulaeSearchable);
        assert(out@ =~= all_kinds());
        out
    }

    /// The `type` string of the provider.
    pub fn type_str(self) -> (r: &'static str)
        ensures
            r@ == type_text(self),
    {
        match self {
            ProviderKind::AwsSdk => "aws_sdk",
            ProviderKind::AwsProfileNames => "aws_profile_names",
            ProviderKind::AnsibleDocModules => "ansible_doc_modules",
            ProviderKind::ArduinoCliBoards => "arduino_cli_boards",
            ProviderKind::ArduinoCliPorts => "arduino_cli_ports",
            ProviderKind::CargoWorkspaceMembers => "cargo_workspace_members",
            ProviderKind::CargoTargets => "cargo_targets",
            ProviderKind::CargoFeatures => "cargo_features",
            ProviderKind::DefaultsDomains => "defaults_domains",
            ProviderKind::DockerImages => "docker_images",
            ProviderKind::DockerContainers => "docker_containers",
            ProviderKind::DockerRunningContainers => "docker_running_containers",
            ProviderKind::DockerNetworks => "docker_networks",
            ProviderKind::DockerVolumes => "docker_volumes",
            ProviderKind::DsclUsers => "dscl_users",
            ProviderKind::DsclGroups => "dscl_groups",
            ProviderKind::K8sResources => "k8s_resources",
            ProviderKind::K8sPods => "k8s_pods",
            ProviderKind::K8sNamespaces => "k8s_namespaces",
            ProviderKind::K8sContexts => "k8s_contexts",
            ProviderKind::K8sNodes => "k8s_nodes",
            ProviderKind::K8sServices => "k8s_services",
            ProviderKind::MakefileTargets => "makefile_targets",
            ProviderKind::MambaEnvs => "mamba_envs",
            ProviderKind::MultipassList => "multipass_list",
            ProviderKind::NpmScripts => "npm_scripts",
            ProviderKind::NpmDependencies => "npm_dependencies",
            ProviderKind::NpmDevDependencies => "npm_dev_dependencies",
            ProviderKind::NpmAllDependencies => "npm_all_dependencies",
            ProviderKind::MultipassListNotDeleted => "multipass_list_not_deleted",
            ProviderKind::MultipassListDeleted => "multipass_list_deleted",
            ProviderKind::MultipassListRunning => "multipass_list_running",
            ProviderKind::MultipassListStopped => "multipass_list_stopped",
            ProviderKind::PandocInputFormats => "pandoc_input_formats",
            ProviderKind::PandocOutputFormats => "pandoc_output_formats",
            ProviderKind::TmuxSessions => "tmux_sessions",
            ProviderKind::TmuxWindows => "tmux_windows",
            ProviderKind::TmuxPanes => "tmux_panes",
            ProviderKind::TmuxClients => "tmux_clients",
            ProviderKind::SystemdUnits => "systemd_units",
            ProviderKind::SystemdUserUnits => "systemd_user_units",
            ProviderKind::SystemdActiveUnits => "systemd_active_units",
            ProviderKind::BrewFormulaeInstalled => "brew_formulae_installed",
            ProviderKind::BrewCasksInstalled => "brew_casks_installed",
            ProviderKind::BrewFormulaeSearchable => "brew_formulae_searchable",
        }
    }
}

/// The provider that `s` names, if it names one.
pub open spec fn kind_named(s: Seq<char>) -> Option<ProviderKind> {
    if exists|k: ProviderKind| #[trigger] type_text(k) == s {
        Some(choose|k: ProviderKind| #[trigger] type_text(k) == s)
    } else {
        None
    }
}

/// A provider is found under its own `type` string, and under no other.
pub proof fn law_kind_round_trip(k: ProviderKind, s: Seq<char>)
    ensures
        kind_named(type_text(k)) == Some(k),
        kind_named(s) == Some(k) <==> s == type_text(k),
{
    assert(type_text(k) == type_text(k));
    let c = choose|c: ProviderKind| #[trigger] type_text(c) == type_text(k);
    law_type_strings_distinct(c, k);
    if kind_named(s) == Some(k) {
        let d = choose|d: ProviderKind| #[trigger] type_text(d) == s;
        assert(type_text(d) == s);
    }
}

/// The provider that a `type` string names.
pub fn kind_from_type_str(type_str: &str) -> (r: Option<ProviderKind>)
    ensures
        r == kind_named(type_str@),
{
    let all = ProviderKind::all();
    let mut i: usize = 0;
    while i < all.len()
        invariant
            i <= all.len(),
            all@ == all_kinds(),
            forall|j: int| 0 <= j < i ==> type_text(#[trigger] all@[j]) != type_str@,
        decreases all.len() - i,
    {
        if text::same(all[i].type_str(), type_str) {
            proof {
                law_kind_round_trip(all@[i as int], type_str@);
            }
            return Some(all[i]);
        }
        i += 1;
    }
    proof {
        assert forall|k: ProviderKind| #[trigger] type_text(k) != type_str@ by {
            lemma_all_kinds(k);
            assert(all@[rank(k)] == k);
        }
    }
    None
}

} // verus!
