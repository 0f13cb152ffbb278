//! tmux sessions, windows, panes and clients, from what `tmux` prints.
use crate::providers::context::{Provider, ProviderCtx};
use crate::providers::listing;
use crate::text;
use crate::text_laws;
use crate::text_map;
use crate::text_parts;
use crate::types;
use crate::types::{provider_value, Suggestion, SuggestionView};
use vstd::prelude::*;

verus! {

/// What is listed.
#[derive(Debug, Clone, Copy, PartialEq, Eq, Structural)]
pub enum TmuxQuery {
    Sessions,
    Windows,
    Panes,
    Clients,
}

/// The arguments of the command that lists.
pub open spec fn tmux_args(query: TmuxQuery) -> Seq<Seq<char>> {
    match query {
        TmuxQuery::Sessions => seq!["list-sessions"@, "-F"@, "#{session_name}\t#{session_windows} windows"@],
        TmuxQuery::Windows => seq!["list-windows"@, "-a"@, "-F"@, "#{session_name}:#{window_index}:#{window_name}\t#{window_panes} panes"@],
        TmuxQuery::Panes => seq!["list-panes"@, "-a"@, "-F"@, "#{session_name}:#{window_index}.#{pane_index}\t#{pane_current_command}"@],
        TmuxQuery::Clients => seq!["list-clients"@, "-F"@, "#{client_name}\t#{session_name}"@],
    }
}

impl TmuxQuery {
    /// The arguments of the command that lists.
    pub fn args(self) -> (r: Vec<String>)
        ensures
            text::views(r@) == tmux_args(self),
    {
        match self {
            TmuxQuery::Sessions => listing::strings3("list-sessions", "-F", "#{session_name}\t#{session_windows} windows"),
            TmuxQuery::Windows => listing::strings4("list-windows", "-a", "-F", "#{session_name}:#{window_index}:#{window_name}\t#{window_panes} panes"),
            TmuxQuery::Panes => listing::strings4("list-panes", "-a", "-F", "#{session_name}:#{window_index}.#{pane_index}\t#{pane_current_command}"),
            TmuxQuery::Clients => listing::strings3("list-clients", "-F", "#{client_name}\t#{session_name}"),
        }
    }
}

/// Whether the shell runs inside tmux. Outside nothing is listed.
pub fn inside_tmux(ctx: &ProviderCtx) -> (r: bool)
    ensures
        r == (text_map::value_of(ctx.env.items(), "TMUX"@) is Some),
{
    ctx.env("TMUX").is_some()
}

/// The suggestion that a line makes: the target, and after a tab what it is.
pub open spec fn target_shown(line: Seq<char>) -> Option<SuggestionView> {
    let (target, rest) = match text::split_first(line, '\t') {
        Some((a, b)) => (text::trimmed(a), text_parts::cleaned(b)),
        None => (text::trimmed(line), None),
    };
    if target.len() == 0 {
        None
    } else {
        Some(types::provided(target, rest))
    }
}

/// What stands before the first tab of a line is the target, and what stands
/// behind it describes it, both without white space around them. A line
/// without a tab is a target alone.
pub proof fn law_target_line(
    front: Seq<char>,
    t: Seq<char>,
    back: Seq<char>,
    rest: Seq<char>,
)
    requires
        text::is_blank(front),
        text::is_blank(back),
        text_laws::tight(t),
        !front.contains('\t'),
        !t.contains('\t'),
        !back.contains('\t'),
    ensures
        target_shown(front + t + back) == Some(types::provided(t, None)),
        target_shown(front + t + back + seq!['\t'] + rest) == Some(
            types::provided(t, text_parts::cleaned(rest)),
        ),
        target_shown(front + seq!['\t'] + rest) is None,
        target_shown(front) is None,
{
    let l = front + t + back;
    assert(!l.contains('\t')) by {
        if l.contains('\t') {
            let k = choose|k: int| 0 <= k < l.len() && l[k] == '\t';
            if k < front.len() {
                assert(front[k] == '\t');
            } else if k < front.len() + t.len() {
                assert(t[k - front.len()] == '\t');
            } else {
                assert(back[k - front.len() - t.len()] == '\t');
            }
        }
    }
    text_laws::law_split(l, '\t', rest);
    text_laws::law_split(front, '\t', rest);
    text_laws::law_trim(front, t, back);
    text_laws::law_trim_blank(front);
}

/// Lines are read one by one, in order.
pub proof fn law_target_lines(l: Seq<char>, rest: Seq<char>)
    requires
        !l.contains('\n'),
    ensures
        listing::picked(text::lines(l + seq!['\n'] + rest), |x: Seq<char>| target_shown(x)) == (
        match target_shown(text_laws::unreturned(l)) {
            Some(s) => seq![s],
            None => Seq::empty(),
        }) + listing::picked(text::lines(rest), |x: Seq<char>| target_shown(x)),
{
    let f = |x: Seq<char>| target_shown(x);
    let u = text_laws::unreturned(l);
    text_laws::law_line_ends(l, rest);
    listing::law_picked_apart(seq![u], text::lines(rest), u, f);
}

fn target_of(line: &String) -> (r: Option<Suggestion>)
    ensures
        listing::opt_shown(r) == target_shown(line@),
{
    let (target, rest) = match text::split_once(line, '\t') {
        Some((a, b)) => (text::trim(&a), text_parts::clean(&b)),
        None => (text::trim(line), None),
    };
    if target.as_str().is_empty() {
        None
    } else {
        Some(provider_value(target, rest))
    }
}

/// The suggestions for what `tmux` printed.
pub fn parse_tmux_state_output(stdout: &str) -> (r: Vec<Suggestion>)
    ensures
        types::shown(r@) == listing::picked(
            text::lines(stdout@),
            |l: Seq<char>| target_shown(l),
        ),
{
    listing::pick_lines(stdout, target_of, Ghost(|l: Seq<char>| target_shown(l)))
}

// ---------------------------------------------------------------------------
// The providers
// ---------------------------------------------------------------------------
/// tmux sessions.
pub struct TmuxSessions;

impl Provider for TmuxSessions {
    open spec fn provider_name(&self) -> Seq<char> {
        "tmux_sessions"@
    }

    fn name(&self) -> (r: &'static str) {
        "tmux_sessions"
    }
}

/// tmux windows.
pub struct TmuxWindows;

impl Provider for TmuxWindows {
    open spec fn provider_name(&self) -> Seq<char> {
        "tmux_windows"@
    }

    fn name(&self) -> (r: &'static str) {
        "tmux_windows"
    }
}

/// tmux panes.
pub struct TmuxPanes;

impl Provider for TmuxPanes {
    open spec fn provider_name(&self) -> Seq<char> {
        "tmux_panes"@
    }

    fn name(&self) -> (r: &'static str) {
        "tmux_panes"
    }
}

/// tmux clients.
pub struct TmuxClients;

impl Provider for TmuxClients {
    open spec fn provider_name(&self) -> Seq<char> {
        "tmux_clients"@
    }

    fn name(&self) -> (r: &'static str) {
        "tmux_clients"
    }
}

} // verus!
