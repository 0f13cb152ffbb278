//! Ansible modules, from what `ansible-doc` prints as JSON.
use crate::providers::context::Provider;
use crate::providers::listing;
use crate::text_map;
use crate::types;
use crate::types::{provider_value, Suggestion};
use std::collections::BTreeMap;
use vstd::prelude::*;

verus! {

/// Module names and their descriptions.
pub type AnsibleDocModuleMap = Vec<(String, String)>;

/// The members of a JSON object whose values are all strings, in the order of
/// their names, or nothing where the bytes are no such object.
pub uninterp spec fn string_members(json: Seq<u8>) -> Option<Seq<(Seq<char>, Seq<char>)>>;

/// The content of a module map.
pub open spec fn opt_pairs(o: Option<AnsibleDocModuleMap>) -> Option<
    Seq<(Seq<char>, Seq<char>)>,
> {
    match o {
        Some(v) => Some(text_map::pair_views(v@)),
        None => None,
    }
}

/// `serde_json::from_slice` into a `BTreeMap` of strings, which is given a
/// name only, but for the order of the keys.
#[verifier::external_body]
fn read_string_members(json: &[u8]) -> (r: Option<AnsibleDocModuleMap>)
    ensures
        opt_pairs(r) == string_members(json@),
        r matches Some(v) ==> text_map::ascending(text_map::pair_views(v@)),
{
    let map = serde_json::from_slice::<BTreeMap<String, String>>(json).ok()?;
    Some(map.into_iter().collect())
}

/// The modules that an output names, in the order of their names. `None` for
/// an output that cannot be read.
pub fn parse_ansible_doc_raw(json: &[u8]) -> (r: Option<AnsibleDocModuleMap>)
    ensures
        opt_pairs(r) == string_members(json@),
        r matches Some(v) ==> text_map::ascending(text_map::pair_views(v@)),
{
    read_string_members(json)
}

/// Modules as suggestions.
pub fn modules_to_suggestions(modules: &AnsibleDocModuleMap) -> (r: Vec<Suggestion>)
    ensures
        types::shown(r@) == listing::pairs_shown(text_map::pair_views(modules@)),
{
    let mut out: Vec<Suggestion> = Vec::new();
    let mut i: usize = 0;
    while i < modules.len()
        invariant
            i <= modules.len(),
            out.len() == i,
            forall|j: int|
                0 <= j < i ==> (#[trigger] out@[j])@ == types::provided(
                    modules@[j].0@,
                    Some(modules@[j].1@),
                ),
        decreases modules.len() - i,
    {
        out.push(provider_value(modules[i].0.clone(), Some(modules[i].1.clone())));
        i += 1;
    }
    assert(types::shown(out@) =~= listing::pairs_shown(text_map::pair_views(modules@)));
    out
}

/// The modules that an output names, as suggestions. Of one that cannot be
/// read there are none.
pub fn ansible_suggestions(stdout: &[u8]) -> (r: Vec<Suggestion>)
    ensures
        types::shown(r@) == (match string_members(stdout@) {
            Some(m) => listing::pairs_shown(m),
            None => Seq::empty(),
        }),
{
    match parse_ansible_doc_raw(stdout) {
        Some(m) => modules_to_suggestions(&m),
        None => {
            let none: Vec<Suggestion> = Vec::new();
            assert(types::shown(none@) =~= Seq::empty());
            none
        },
    }
}

/// Modules that `ansible-doc` lists.
pub struct AnsibleDocModules;

impl Provider for AnsibleDocModules {
    open spec fn provider_name(&self) -> Seq<char> {
        "ansible_doc_modules"@
    }

    fn name(&self) -> (r: &'static str) {
        "ansible_doc_modules"
    }
}

} // verus!
