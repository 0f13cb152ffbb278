//! Conda environments, from what `conda env list` prints.
use crate::providers::context::Provider;
use crate::providers::listing;
use crate::text;
use crate::types;
use crate::types::{provider_value, Suggestion, SuggestionView};
use vstd::prelude::*;
use vstd::string::*;

verus! {

/// The suggestion that a line makes: its first word. Comments and blank lines
/// make none.
pub open spec fn env_shown(line: Seq<char>) -> Option<SuggestionView> {
    let words = text::words(line);
    if words.len() == 0 || (words[0].len() > 0 && words[0][0] == '#') {
        None
    } else {
        Some(types::provided(words[0], Some("conda environment"@)))
    }
}

fn env_of(line: &String) -> (r: Option<Suggestion>)
    ensures
        listing::opt_shown(r) == env_shown(line@),
{
    let words = text::words_of(line);
    assert(text::views(words@).len() == words@.len());
    if words.len() == 0 {
        return None;
    }
    assert(text::views(words@)[0] == words@[0]@);
    let x = text::chars_of(&words[0]);
    if x.len() > 0 && x[0] == '#' {
        None
    } else {
        Some(provider_value(words[0].clone(), Some("conda environment".to_owned())))
    }
}

/// The environments that a listing names.
pub fn parse_env_list(s: &str) -> (r: Vec<Suggestion>)
    ensures
        types::shown(r@) == listing::picked(text::lines(s@), |l: Seq<char>| env_shown(l)),
{
    listing::pick_lines(s, env_of, Ghost(|l: Seq<char>| env_shown(l)))
}

/// Conda environments.
pub struct MambaEnvs;

impl Provider for MambaEnvs {
    open spec fn provider_name(&self) -> Seq<char> {
        "mamba_envs"@
    }

    fn name(&self) -> (r: &'static str) {
        "mamba_envs"
    }
}

} // verus!
