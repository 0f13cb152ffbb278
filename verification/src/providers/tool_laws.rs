//! What the listings of smaller tools come to, line by line and row by row, and
//! what the tools are asked.
use crate::providers::arduino_cli;
use crate::providers::arduino_cli::{ArduinoBoardListOutput, DetectedPort, PortView};
use crate::providers::docker;
use crate::providers::docker::DockerKind;
use crate::providers::kubectl;
use crate::providers::kubectl::K8sKind;
use crate::providers::listing;
use crate::providers::mamba;
use crate::providers::multipass;
use crate::providers::multipass::{InstanceView, MultipassInstanceFilter};
use crate::providers::systemd_units;
use crate::providers::systemd_units::SystemdScope;
use crate::providers::util;
use crate::providers::util::CommandEnd;
use crate::text;
use crate::text_laws;
use crate::text_parts;
use crate::types;
use crate::types::{SuggestionKind, SuggestionSource};
use vstd::prelude::*;
use vstd::string::*;

verus! {

// ---------------------------------------------------------------------------
// Arduino
// ---------------------------------------------------------------------------
/// The board of a port is the first that matches there, whatever others do.
pub proof fn law_first_board(p: DetectedPort)
    ensures
        p.matching_boards matches Some(b) ==> b@.len() > 0 ==> p@.board == Some(
            (text::opt_view(b@[0].name), text::opt_view(b@[0].fqbn)),
        ),
        p.matching_boards matches Some(b) ==> b@.len() == 0 ==> p@.board is None,
        p.matching_boards is None ==> p@.board is None,
        p.port matches Some(q) ==> p@.address == text::opt_view(q.address),
        p.port is None ==> p@.address is None,
{
}

/// A board is suggested under its qualified name, told apart by its name and
/// its port. One without a qualified name is not suggested.
pub proof fn law_board(name: Seq<char>, fqbn: Seq<char>, address: Seq<char>, p: PortView)
    ensures
        p.board == Some((Some(name), Some(fqbn))) && p.address == Some(address)
            ==> arduino_cli::board_shown(p) == Some(
            types::provided(fqbn, Some(name + " on port "@ + address)),
        ),
        p.board == Some((None::<Seq<char>>, Some(fqbn))) && p.address is None
            ==> arduino_cli::board_shown(p) == Some(types::provided(fqbn, Some(" on port "@))),
        p.board == Some((Some(name), Some(fqbn))) && p.address is None ==> arduino_cli::board_shown(
            p,
        ) == Some(types::provided(fqbn, Some(name + " on port "@))),
        p.board == Some((Some(name), None::<Seq<char>>)) ==> arduino_cli::board_shown(p) is None,
{
    let e = Seq::<char>::empty();
    assert(name + " on port "@ + e =~= name + " on port "@);
    assert(e + " on port "@ + e =~= " on port "@);
}

/// A port is suggested under its address, if a board matches there, whether
/// or not the board has a qualified name.
pub proof fn law_port(name: Seq<char>, fqbn: Option<Seq<char>>, address: Seq<char>, p: PortView)
    ensures
        p.board == Some((Some(name), fqbn)) && p.address == Some(address)
            ==> arduino_cli::port_shown(p) == Some(
            types::provided(address, Some(name + " port connection"@)),
        ),
        p.board == Some((None::<Seq<char>>, fqbn)) && p.address == Some(address)
            ==> arduino_cli::port_shown(p) == Some(
            types::provided(address, Some(" port connection"@)),
        ),
        p.address is None ==> arduino_cli::port_shown(p) is None,
{
    let e = Seq::<char>::empty();
    assert(e + " port connection"@ =~= " port connection"@);
}

// ---------------------------------------------------------------------------
// Multipass
// ---------------------------------------------------------------------------
/// Each filter wants the instances of its state and no others; one that names
/// no state wants all.
pub proof fn law_instance_wanted(i: InstanceView, state: Seq<char>)
    requires
        i.state == Some(state) || (i.state is None && state.len() == 0),
    ensures
        multipass::wanted(i, MultipassInstanceFilter::All),
        multipass::wanted(i, MultipassInstanceFilter::Deleted) <==> state == "Deleted"@,
        multipass::wanted(i, MultipassInstanceFilter::NotDeleted) <==> state != "Deleted"@,
        multipass::wanted(i, MultipassInstanceFilter::Running) <==> state == "Running"@,
        multipass::wanted(i, MultipassInstanceFilter::Stopped) <==> state == "Stopped"@,
{
    if i.state is None {
        assert(state =~= Seq::empty());
    }
}

/// A wanted instance is suggested under its name; one without a name is not.
pub proof fn law_instance_shown(i: InstanceView, filter: MultipassInstanceFilter)
    ensures
        i.name matches Some(n) ==> multipass::wanted(i, filter) ==> (multipass::instance_shown(
            i,
            filter,
        ) matches Some(s) && s.text == n && s.description == multipass::instance_description(i)
            && s.kind == SuggestionKind::Command && s.source == SuggestionSource::Provider),
        !multipass::wanted(i, filter) ==> multipass::instance_shown(i, filter) is None,
        i.name is None ==> multipass::instance_shown(i, filter) is None,
{
}

/// An instance is described by its release and, in round brackets, its state,
/// as far as they are there.
pub proof fn law_instance_description(i: InstanceView, release: Seq<char>, state: Seq<char>)
    requires
        release.len() > 0,
        state.len() > 0,
    ensures
        i.release == Some(release) && i.state == Some(state) ==> multipass::instance_description(i)
            == Some(release + seq![' ', '('] + state + seq![')']),
        i.release == Some(release) && i.state is None ==> multipass::instance_description(i)
            == Some(release),
        i.release is None && i.state == Some(state) ==> multipass::instance_description(i) == Some(
            seq!['('] + state + seq![')'],
        ),
        i.release is None && i.state is None ==> multipass::instance_description(i) is None,
{
    reveal_strlit(" (");
    reveal_strlit("(");
    reveal_strlit(")");
    assert(" ("@ =~= seq![' ', '(']);
    assert("("@ =~= seq!['(']);
    assert(")"@ =~= seq![')']);
    assert(release + seq![' ', '('] + (state + seq![')']) =~= release + seq![' ', '('] + state
        + seq![')']);
}

/// Instances are suggested one by one, in order.
pub proof fn law_instances_apart(
    a: Seq<InstanceView>,
    i: InstanceView,
    b: Seq<InstanceView>,
    filter: MultipassInstanceFilter,
)
    ensures
        multipass::instances_shown(a + seq![i] + b, filter) == multipass::instances_shown(a, filter)
            + (match multipass::instance_shown(i, filter) {
            Some(s) => seq![s],
            None => Seq::empty(),
        }) + multipass::instances_shown(b, filter),
{
    let f = |x: InstanceView| multipass::instance_shown(x, filter);
    listing::law_picked_apart(a, seq![i], i, f);
    listing::law_picked_apart(a + seq![i], b, i, f);
}

// ---------------------------------------------------------------------------
// Conda environments
// ---------------------------------------------------------------------------
/// A line names the environment of its first word, whatever stands behind it.
/// A comment and a blank line name none.
pub proof fn law_environment_line(front: Seq<char>, w: Seq<char>, rest: Seq<char>)
    requires
        text::is_blank(front),
        w.len() > 0,
        text_laws::solid(w),
        rest.len() == 0 || text::is_white(rest[0]),
    ensures
        w[0] != '#' ==> mamba::env_shown(front + w + rest) == Some(
            types::provided(w, Some("conda environment"@)),
        ),
        w[0] == '#' ==> mamba::env_shown(front + w + rest) is None,
        mamba::env_shown(front) is None,
{
    text_laws::law_first_word(front, w, rest);
    text_laws::law_no_words(front);
}

// ---------------------------------------------------------------------------
// Commands
// ---------------------------------------------------------------------------
/// What a command printed counts exactly if it ended in success.
pub proof fn law_printed(end: CommandEnd)
    ensures
        end matches CommandEnd::Exited { success, stdout } ==> success ==> util::printed(end)
            == Some(stdout@),
        end matches CommandEnd::Exited { success, .. } ==> !success ==> util::printed(end) is None,
        end is NotStarted ==> util::printed(end) is None,
        end is TimedOut ==> util::printed(end) is None,
{
}

/// Blank lines are left out, and all others stay as they are and in order.
pub proof fn law_filled_lines(l: Seq<char>, rest: Seq<char>)
    requires
        !l.contains('\n'),
    ensures
        text::is_blank(l) ==> util::filled_lines(l + seq!['\n'] + rest) == util::filled_lines(rest),
        !text::is_blank(l) ==> util::filled_lines(l + seq!['\n'] + rest) == seq![
            text_laws::unreturned(l),
        ] + util::filled_lines(rest),
        util::filled_lines(Seq::empty()) == Seq::<Seq<char>>::empty(),
{
    let f = |x: Seq<char>| util::unless_blank(x);
    let u = text_laws::unreturned(l);
    text_laws::law_line_ends(l, rest);
    listing::law_picked_apart(seq![u], text::lines(rest), u, f);
    assert(text::is_blank(u) <==> text::is_blank(l)) by {
        if text::is_blank(l) {
            assert forall|i: int| 0 <= i < u.len() implies text::is_white(#[trigger] u[i]) by {
                assert(u[i] == l[i]);
            }
        }
        if text::is_blank(u) {
            assert forall|i: int| 0 <= i < l.len() implies text::is_white(#[trigger] l[i]) by {
                if i < u.len() {
                    assert(u[i] == l[i]);
                } else {
                    text_laws::law_white('\r');
                }
            }
        }
    }
    if text::is_blank(l) {
        assert(Seq::<Seq<char>>::empty() + util::filled_lines(rest) =~= util::filled_lines(rest));
    }
    let e = Seq::<char>::empty();
    assert(!e.contains('\n'));
    text_laws::law_last_line(e);
}

/// Where every line parses, there is one row for each line, made from that
/// line; where one does not, there is no row at all.
pub proof fn law_rows_of_lines<T, F: Fn(&str) -> Option<T>>(
    parse: F,
    lines: Seq<Seq<char>>,
    r: Option<Seq<T>>,
    i: int,
)
    requires
        util::lines_result(parse, lines, r),
        0 <= i < lines.len(),
    ensures
        r matches Some(rows) ==> rows.len() == lines.len() && exists|q: &str|
            q@ == lines[i] && #[trigger] call_ensures(parse, (q,), Some(rows[i])),
        r is None ==> exists|k: int, q: &str|
            0 <= k < lines.len() && q@ == #[trigger] lines[k] && #[trigger] call_ensures(
                parse,
                (q,),
                None,
            ),
{
    match r {
        Some(rows) => {
            assert(util::parsed_as(parse, lines[i], Some(rows[i])));
        },
        None => {
            let before = choose|before: Seq<T>| #[trigger]
                util::rows_parsed(parse, lines, before) && before.len() < lines.len()
                    && util::parsed_as(parse, lines[before.len() as int], None);
            let k = before.len() as int;
            let q = choose|q: &str| q@ == lines[k] && #[trigger] call_ensures(parse, (q,), None);
            assert(q@ == lines[k] && call_ensures(parse, (q,), None));
        },
    }
}

// ---------------------------------------------------------------------------
// Commands
// ---------------------------------------------------------------------------
/// Whether a word is among the arguments.
pub open spec fn given(args: Seq<Seq<char>>, w: Seq<char>) -> bool {
    exists|i: int| 0 <= i < args.len() && #[trigger] args[i] == w
}

/// The ports count alike whether the tool wraps them or not.
pub proof fn law_ports(v: Vec<DetectedPort>)
    ensures
        (ArduinoBoardListOutput::Wrapped { detected_ports: v }).ports() == v@,
        ArduinoBoardListOutput::Flat(v).ports() == v@,
{
}

/// Docker is asked for one JSON document in each line, about what the kind
/// names: all containers, or those that run.
pub proof fn law_docker_command(kind: DockerKind)
    ensures
        ({
            let a = docker::docker_args(kind);
            &&& a.len() >= 3
            &&& a[a.len() - 2] == "--format"@
            &&& a[a.len() - 1] == "{{json .}}"@
            &&& kind == DockerKind::Images ==> a.take(a.len() - 2) == seq!["images"@]
            &&& kind == DockerKind::Containers ==> a.take(a.len() - 2) == seq!["ps"@, "-a"@]
            &&& kind == DockerKind::RunningContainers ==> a.take(a.len() - 2) == seq![
                "ps"@,
                "--filter"@,
                "status=running"@,
            ]
            &&& kind == DockerKind::Networks ==> a.take(a.len() - 2) == seq!["network"@, "ls"@]
            &&& kind == DockerKind::Volumes ==> a.take(a.len() - 2) == seq!["volume"@, "ls"@]
        }),
{
}

/// The cluster is asked for names where a name stands in each line, and for
/// JSON elsewhere. Only the list of resources can be asked for in an older
/// way, which is the same without the choice of output.
pub proof fn law_kubectl_command(kind: K8sKind)
    ensures
        ({
            let a = kubectl::kubectl_args(kind);
            &&& a.len() >= 3
            &&& a[a.len() - 2] == "-o"@
            &&& a[a.len() - 1] == (if kubectl::prints_lines(kind) {
                "name"@
            } else {
                "json"@
            })
            &&& kind == K8sKind::Resources ==> a[0] == "api-resources"@
                && kubectl::kubectl_legacy_args(kind) == Some(a.take(a.len() - 2))
            &&& kind != K8sKind::Resources ==> kubectl::kubectl_legacy_args(kind) is None
            &&& kind == K8sKind::Contexts ==> a.take(2) == seq!["config"@, "get-contexts"@]
            &&& kind == K8sKind::Pods ==> a.take(2) == seq!["get"@, "pods"@]
            &&& kind == K8sKind::Namespaces ==> a.take(2) == seq!["get"@, "namespaces"@]
            &&& kind == K8sKind::Nodes ==> a.take(2) == seq!["get"@, "nodes"@]
            &&& kind == K8sKind::Services ==> a.take(2) == seq!["get"@, "services"@]
            &&& kubectl::prints_lines(kind) <==> kind == K8sKind::Resources || kind
                == K8sKind::Contexts
        }),
{
    let a = kubectl::kubectl_args(kind);
    if kind == K8sKind::Resources {
        assert(a.take(a.len() - 2) =~= seq!["api-resources"@]);
    }
}

/// All units are listed in full, as JSON or as lines without a legend. The
/// units of the user are asked for by one word in front, and nothing else.
pub proof fn law_systemd_command()
    ensures
        systemd_units::systemd_json_args(SystemdScope::User) == seq!["--user"@]
            + systemd_units::systemd_json_args(SystemdScope::System),
        systemd_units::systemd_text_args(SystemdScope::User) == seq!["--user"@]
            + systemd_units::systemd_text_args(SystemdScope::System),
        systemd_units::systemd_json_args(SystemdScope::System)[0] == "list-units"@,
        systemd_units::systemd_text_args(SystemdScope::System)[0] == "list-units"@,
        given(systemd_units::systemd_json_args(SystemdScope::System), "--all"@),
        given(systemd_units::systemd_json_args(SystemdScope::System), "--full"@),
        systemd_units::systemd_json_args(SystemdScope::System).subrange(1, 3) == seq![
            "-o"@,
            "json"@,
        ],
        given(systemd_units::systemd_text_args(SystemdScope::System), "--all"@),
        given(systemd_units::systemd_text_args(SystemdScope::System), "--full"@),
        given(systemd_units::systemd_text_args(SystemdScope::System), "--no-legend"@),
        systemd_units::systemd_json_args(SystemdScope::System).len() == 5,
        systemd_units::systemd_text_args(SystemdScope::System).len() == 4,
{
    let j = systemd_units::systemd_json_args(SystemdScope::System);
    let t = systemd_units::systemd_text_args(SystemdScope::System);
    assert(j[3] == "--all"@ && j[4] == "--full"@);
    assert(t[1] == "--no-legend"@ && t[2] == "--all"@ && t[3] == "--full"@);
}

} // verus!
