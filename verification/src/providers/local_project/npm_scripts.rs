//! Scripts of the nearest `package.json`.
use crate::providers::context::Provider;
use crate::providers::paths;
use crate::text;
use crate::types;
use crate::types::{provider_value, Suggestion};
use vstd::prelude::*;
use vstd::string::*;

verus! {

/// One member of the `scripts` object: its key, and its value if that is a
/// string.
#[derive(Debug)]
pub struct ScriptField {
    pub name: String,
    pub command: Option<String>,
}

/// One script.
#[derive(Debug)]
pub struct NpmScriptEntry {
    pub name: String,
    pub command: Option<String>,
}

#[verifier::ext_equal]
pub struct ScriptView {
    pub name: Seq<char>,
    pub command: Option<Seq<char>>,
}

impl View for ScriptField {
    type V = ScriptView;

    open spec fn view(&self) -> ScriptView {
        ScriptView { name: self.name@, command: text::opt_view(self.command) }
    }
}

impl View for NpmScriptEntry {
    type V = ScriptView;

    open spec fn view(&self) -> ScriptView {
        ScriptView { name: self.name@, command: text::opt_view(self.command) }
    }
}

impl Clone for NpmScriptEntry {
    fn clone(&self) -> (r: Self)
        ensures
            r@ == self@,
    {
        NpmScriptEntry { name: self.name.clone(), command: text::clone_opt(&self.command) }
    }
}

pub open spec fn field_views(v: Seq<ScriptField>) -> Seq<ScriptView> {
    v.map_values(|f: ScriptField| f@)
}

pub open spec fn script_views(v: Seq<NpmScriptEntry>) -> Seq<ScriptView> {
    v.map_values(|e: NpmScriptEntry| e@)
}

/// The scripts: the members that are strings, in order, with their commands
/// shortened.
pub open spec fn scripts_of(fields: Seq<ScriptView>) -> Seq<ScriptView>
    decreases fields.len(),
{
    if fields.len() == 0 {
        Seq::empty()
    } else {
        let rest = scripts_of(fields.drop_last());
        match fields.last().command {
            Some(c) => rest.push(
                ScriptView { name: fields.last().name, command: Some(text::shortened(c)) },
            ),
            None => rest,
        }
    }
}

/// The scripts of a `package.json`, given the members of its `scripts`
/// object. `None` stands for a file that cannot be parsed.
pub fn parse_npm_scripts(scripts: &Option<Vec<ScriptField>>) -> (r: Vec<NpmScriptEntry>)
    ensures
        script_views(r@) == (match *scripts {
            Some(fields) => scripts_of(field_views(fields@)),
            None => Seq::empty(),
        }),
{
    let mut out: Vec<NpmScriptEntry> = Vec::new();
    assert(script_views(out@) =~= Seq::empty());
    if let Some(fields) = scripts {
        let ghost all = field_views(fields@);
        let mut i: usize = 0;
        assert(all.take(0) =~= Seq::empty());
        while i < fields.len()
            invariant
                i <= fields.len(),
                all == field_views(fields@),
                script_views(out@) == scripts_of(all.take(i as int)),
            decreases fields.len() - i,
        {
            proof {
                assert(all.take(i + 1).drop_last() =~= all.take(i as int));
                assert(all.take(i + 1).last() == fields@[i as int]@);
            }
            if let Some(c) = &fields[i].command {
                let ghost before = out@;
                let e = NpmScriptEntry {
                    name: fields[i].name.clone(),
                    command: Some(text::truncate_chars(c)),
                };
                out.push(e);
                assert(script_views(out@) =~= script_views(before).push(e@));
            }
            i += 1;
        }
        assert(all.take(all.len() as int) =~= all);
    }
    out
}

/// The nearest `package.json` in `start` and above.
pub fn find_package_json<F: Fn(&str) -> bool>(start: &str, is_file: F) -> (r: Option<String>)
    requires
        forall|q: &str| #[trigger] call_requires(is_file, (q,)),
    ensures
        paths::upward_result(is_file, start@, seq!["package.json"@], text::opt_view(r)),
{
    let mut names: Vec<String> = Vec::new();
    names.push("package.json".to_owned());
    assert(text::views(names@) =~= seq!["package.json"@]);
    paths::find_upward(start, &names, is_file)
}

/// The scripts as suggestions.
pub fn script_suggestions(scripts: &Vec<NpmScriptEntry>) -> (r: Vec<Suggestion>)
    ensures
        types::shown(r@) == script_views(scripts@).map_values(
            |e: ScriptView| types::provided(e.name, e.command),
        ),
{
    let mut out: Vec<Suggestion> = Vec::new();
    let mut i: usize = 0;
    while i < scripts.len()
        invariant
            i <= scripts.len(),
            out.len() == i,
            forall|j: int|
                0 <= j < i ==> (#[trigger] out@[j])@ == types::provided(
                    scripts@[j]@.name,
                    scripts@[j]@.command,
                ),
        decreases scripts.len() - i,
    {
        out.push(provider_value(scripts[i].name.clone(), text::clone_opt(&scripts[i].command)));
        i += 1;
    }
    assert(types::shown(out@) =~= script_views(scripts@).map_values(
        |e: ScriptView| types::provided(e.name, e.command),
    ));
    out
}

/// Scripts of the nearest `package.json`.
pub struct NpmScripts;

impl Provider for NpmScripts {
    open spec fn provider_name(&self) -> Seq<char> {
        "npm_scripts"@
    }

    fn name(&self) -> (r: &'static str) {
        "npm_scripts"
    }
}

} // verus!
