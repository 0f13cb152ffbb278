//! Arduino boards and the ports they are on, from what `arduino-cli` prints
//! as JSON.
use crate::providers::context::Provider;
use crate::providers::listing;
use crate::text;
use crate::text_parts;
use crate::types;
use crate::types::{provider_value, Suggestion, SuggestionView};
use vstd::prelude::*;
use vstd::string::*;

verus! {

/// What is listed.
#[derive(Debug, Clone, Copy, PartialEq, Eq, Structural)]
pub enum ArduinoListing {
    Boards,
    Ports,
}

/// What the command prints: newer tools wrap the list.
#[derive(Debug)]
pub enum ArduinoBoardListOutput {
    Wrapped { detected_ports: Vec<DetectedPort> },
    Flat(Vec<DetectedPort>),
}

/// A port on which something was detected.
#[derive(Debug)]
pub struct DetectedPort {
    pub port: Option<PortInfo>,
    pub matching_boards: Option<Vec<MatchingBoard>>,
}

#[derive(Debug)]
pub struct PortInfo {
    pub address: Option<String>,
}

#[derive(Debug)]
pub struct MatchingBoard {
    pub name: Option<String>,
    pub fqbn: Option<String>,
}

/// The content of a [`DetectedPort`].
#[verifier::ext_equal]
pub struct PortView {
    /// The address of the port, if it is known.
    pub address: Option<Seq<char>>,
    /// Name and qualified name of the first board that matches, if one does.
    pub board: Option<(Option<Seq<char>>, Option<Seq<char>>)>,
}

impl View for DetectedPort {
    type V = PortView;

    open spec fn view(&self) -> PortView {
        PortView {
            address: match self.port {
                Some(p) => text::opt_view(p.address),
                None => None,
            },
            board: match self.matching_boards {
                Some(b) => if b@.len() > 0 {
                    Some((text::opt_view(b@[0].name), text::opt_view(b@[0].fqbn)))
                } else {
                    None
                },
                None => None,
            },
        }
    }
}

impl ArduinoBoardListOutput {
    /// The ports, however they are wrapped.
    pub open spec fn ports(self) -> Seq<DetectedPort> {
        match self {
            ArduinoBoardListOutput::Wrapped { detected_ports } => detected_ports@,
            ArduinoBoardListOutput::Flat(ports) => ports@,
        }
    }

    /// The ports, however they are wrapped.
    pub fn into_ports(self) -> (r: Vec<DetectedPort>)
        ensures
            r@ == self.ports(),
    {
        match self {
            ArduinoBoardListOutput::Wrapped { detected_ports } => detected_ports,
            ArduinoBoardListOutput::Flat(ports) => ports,
        }
    }
}

/// The board that a port suggests: the qualified name of the first one that
/// matches.
pub open spec fn board_shown(p: PortView) -> Option<SuggestionView> {
    match p.board {
        Some((name, Some(fqbn))) => Some(
            types::provided(fqbn, Some(text_parts::or_empty(name) + " on port "@ + text_parts::or_empty(p.address))),
        ),
        _ => None,
    }
}

/// The address that a port suggests, if a board matches there.
pub open spec fn port_shown(p: PortView) -> Option<SuggestionView> {
    match (p.board, p.address) {
        (Some((name, _)), Some(address)) => Some(
            types::provided(address, Some(text_parts::or_empty(name) + " port connection"@)),
        ),
        _ => None,
    }
}

/// A port without a matching board suggests nothing.
pub proof fn law_no_board_no_suggestion(p: PortView)
    requires
        p.board is None,
    ensures
        board_shown(p) is None,
        port_shown(p) is None,
{
}

fn first_board(p: &DetectedPort) -> (r: Option<&MatchingBoard>)
    ensures
        match r {
            Some(b) => p@.board == Some((text::opt_view(b.name), text::opt_view(b.fqbn))),
            None => p@.board is None,
        },
{
    match &p.matching_boards {
        Some(b) => if b.len() > 0 {
            Some(&b[0])
        } else {
            None
        },
        None => None,
    }
}

fn address_of(p: &DetectedPort) -> (r: Option<String>)
    ensures
        text::opt_view(r) == p@.address,
{
    match &p.port {
        Some(port) => text::clone_opt(&port.address),
        None => None,
    }
}

fn board_of(p: &DetectedPort) -> (r: Option<Suggestion>)
    ensures
        listing::opt_shown(r) == board_shown(p@),
{
    match first_board(p) {
        Some(b) => match &b.fqbn {
            Some(fqbn) => {
                let address = text_parts::field(&address_of(p));
                let d = text_parts::concat3(&text_parts::field(&b.name), " on port ", &address);
                Some(provider_value(fqbn.clone(), Some(d)))
            },
            None => None,
        },
        None => None,
    }
}

fn port_of(p: &DetectedPort) -> (r: Option<Suggestion>)
    ensures
        listing::opt_shown(r) == port_shown(p@),
{
    match (first_board(p), address_of(p)) {
        (Some(b), Some(address)) => {
            let mut d = text_parts::field(&b.name);
            d.append(" port connection");
            Some(provider_value(address, Some(d)))
        },
        _ => None,
    }
}

/// The boards that a listing suggests.
pub fn suggestions_from_output(output: ArduinoBoardListOutput) -> (r: Vec<Suggestion>)
    ensures
        types::shown(r@) == listing::picked(
            listing::views_of(output.ports()),
            |p: PortView| board_shown(p),
        ),
{
    listing::pick(&output.into_ports(), board_of, Ghost(|p: PortView| board_shown(p)))
}

/// The ports that a listing suggests.
pub fn ports_from_output(output: ArduinoBoardListOutput) -> (r: Vec<Suggestion>)
    ensures
        types::shown(r@) == listing::picked(
            listing::views_of(output.ports()),
            |p: PortView| port_shown(p),
        ),
{
    listing::pick(&output.into_ports(), port_of, Ghost(|p: PortView| port_shown(p)))
}

/// Boards that `arduino-cli` detects.
pub struct ArduinoCliBoards;

impl Provider for ArduinoCliBoards {
    open spec fn provider_name(&self) -> Seq<char> {
        "arduino_cli_boards"@
    }

    fn name(&self) -> (r: &'static str) {
        "arduino_cli_boards"
    }
}

/// Ports on which `arduino-cli` detects a board.
pub struct ArduinoCliPorts;

impl Provider for ArduinoCliPorts {
    open spec fn provider_name(&self) -> Seq<char> {
        "arduino_cli_ports"@
    }

    fn name(&self) -> (r: &'static str) {
        "arduino_cli_ports"
    }
}

} // verus!
