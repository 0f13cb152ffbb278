//! From the text of a spec file to a spec that is fit for use. Decoding the
//! JSON itself is left to a function that the caller hands in.
use crate::specs::guard;
use crate::specs::guard::{
    check_json_depth, sanitize_spec_strings, sanitize_string, MAX_SPEC_JSON_DEPTH,
};
use crate::specs::model::{ArgSpec, CompletionSpec};
use crate::specs::store::SpecSource;
use crate::specs::validate;
use crate::specs::validate::validate_spec_generators;
use crate::text;
use std::sync::Arc;
use vstd::prelude::*;
use vstd::string::*;

verus! {

/// What comes of a text: refused unread when it nests too deeply, and
/// otherwise what `parse` makes of it, cleaned of control characters.
pub open spec fn checked_parse<P: FnOnce(&str) -> Result<CompletionSpec, String>>(
    parse: P,
    contents: Seq<char>,
    r: Result<CompletionSpec, String>,
) -> bool {
    if guard::too_deep(contents, MAX_SPEC_JSON_DEPTH as nat) {
        r matches Err(e) && e@ == guard::depth_message(MAX_SPEC_JSON_DEPTH as nat)
    } else {
        exists|c: &str, out: Result<CompletionSpec, String>|
            c@ == contents && #[trigger] call_ensures(parse, (c,), out) && match out {
                Ok(s) => r matches Ok(t) && t@ == guard::clean_spec(s@),
                Err(e) => r == Err::<CompletionSpec, String>(e),
            }
    }
}

/// Parses a spec. The cap on nesting is checked before `parse` sees the text,
/// and control characters are stripped from what it returns.
pub fn parse_spec_checked_and_sanitized<P: FnOnce(&str) -> Result<CompletionSpec, String>>(
    contents: &str,
    parse: P,
) -> (r: Result<CompletionSpec, String>)
    requires
        call_requires(parse, (contents,)),
    ensures
        checked_parse(parse, contents@, r),
{
    match check_json_depth(contents, MAX_SPEC_JSON_DEPTH) {
        Err(e) => Err(e),
        Ok(_) => {
            let out = parse(contents);
            let ghost o = out;
            assert(call_ensures(parse, (contents,), o));
            match out {
                Err(e) => Err(e),
                Ok(s) => {
                    let mut spec = s;
                    sanitize_spec_strings(&mut spec);
                    Ok(spec)
                },
            }
        },
    }
}

/// What comes of the text of an entry: a spec that is also validated, or a
/// message that says that parsing failed.
pub open spec fn entry_parse<P: FnOnce(&str) -> Result<CompletionSpec, String>>(
    parse: P,
    contents: Seq<char>,
    r: Result<Arc<CompletionSpec>, String>,
) -> bool {
    exists|out: Result<CompletionSpec, String>| #[trigger]
        checked_parse(parse, contents, out) && match out {
            Ok(s) => r matches Ok(t) && (*t)@ == validate::checked_spec(s@),
            Err(e) => r matches Err(m) && m@ == "parse: "@ + e@,
        }
}

/// Reads, parses, cleans and validates the spec behind an entry. Text that is
/// compiled in is not read.
pub fn parse_entry_source<
    R: FnOnce(&String) -> Result<String, String>,
    P: FnOnce(&str) -> Result<CompletionSpec, String>,
>(source: &SpecSource, read: R, parse: P) -> (r: Result<Arc<CompletionSpec>, String>)
    requires
        forall|p: &String| #[trigger] call_requires(read, (p,)),
        forall|c: &str| #[trigger] call_requires(parse, (c,)),
    ensures
        match *source {
            SpecSource::Filesystem(path) => exists|got: Result<String, String>| #[trigger]
                call_ensures(read, (&path,), got) && match got {
                    Ok(contents) => entry_parse(parse, contents@, r),
                    Err(e) => r matches Err(m) && m@ == "read "@ + path@ + ": "@ + e@,
                },
            SpecSource::Embedded(contents) => entry_parse(parse, contents@, r),
        },
{
    match source {
        SpecSource::Filesystem(path) => {
            let got = read(path);
            let ghost g = got;
            assert(call_ensures(read, (path,), g));
            match got {
                Ok(contents) => finish_entry(contents.as_str(), parse),
                Err(e) => {
                    let mut m = "read ".to_owned();
                    m.append(path);
                    m.append(": ");
                    m.append(&e);
                    Err(m)
                },
            }
        },
        SpecSource::Embedded(contents) => finish_entry(contents, parse),
    }
}

fn finish_entry<P: FnOnce(&str) -> Result<CompletionSpec, String>>(contents: &str, parse: P) -> (r:
    Result<Arc<CompletionSpec>, String>)
    requires
        call_requires(parse, (contents,)),
    ensures
        entry_parse(parse, contents@, r),
{
    let out = parse_spec_checked_and_sanitized(contents, parse);
    let ghost o = out;
    assert(checked_parse(parse, contents@, o));
    match out {
        Ok(s) => {
            let mut spec = s;
            let _warnings = validate_spec_generators(&mut spec);
            Ok(Arc::new(spec))
        },
        Err(e) => {
            let mut m = "parse: ".to_owned();
            m.append(&e);
            Err(m)
        },
    }
}

/// The name that a spec declares, without reading more of it than
/// `header_name` does. The name is cleaned as the whole spec would be.
pub fn shallow_parse_name<H: FnOnce(&str) -> Option<String>>(contents: &str, header_name: H) -> (r:
    Option<String>)
    requires
        call_requires(header_name, (contents,)),
    ensures
        if guard::too_deep(contents@, MAX_SPEC_JSON_DEPTH as nat) {
            r is None
        } else {
            exists|out: Option<String>| #[trigger]
                call_ensures(header_name, (contents,), out) && text::opt_view(r)
                    == guard::clean_opt(text::opt_view(out))
        },
{
    match check_json_depth(contents, MAX_SPEC_JSON_DEPTH) {
        Err(_) => None,
        Ok(_) => {
            let out = header_name(contents);
            let ghost o = out;
            assert(call_ensures(header_name, (contents,), o));
            match out {
                Some(s) => {
                    let mut name = s;
                    sanitize_string(&mut name);
                    Some(name)
                },
                None => None,
            }
        },
    }
}

/// The most useful of several templates: `filepaths`, else `folders`, else
/// the first.
pub open spec fn preferred_template(ts: Seq<Seq<char>>) -> Option<Seq<char>> {
    if ts.contains("filepaths"@) {
        Some("filepaths"@)
    } else if ts.contains("folders"@) {
        Some("folders"@)
    } else if ts.len() > 0 {
        Some(ts[0])
    } else {
        None
    }
}

/// The most useful of several templates.
pub fn choose_template(templates: &Vec<String>) -> (r: Option<String>)
    ensures
        text::opt_view(r) == preferred_template(text::views(templates@)),
{
    if text::lists(templates, "filepaths") {
        Some("filepaths".to_owned())
    } else if text::lists(templates, "folders") {
        Some("folders".to_owned())
    } else if templates.len() > 0 {
        assert(text::views(templates@)[0] == templates@[0]@);
        Some(templates[0].clone())
    } else {
        None
    }
}

/// An option's declared arguments as its first and the others.
pub fn split_option_args(args: Vec<ArgSpec>) -> (r: (Option<ArgSpec>, Vec<ArgSpec>))
    ensures
        args.len() == 0 ==> r.0 is None && r.1.len() == 0,
        args.len() > 0 ==> r.0 == Some(args@[0]) && r.1@ == args@.skip(1),
{
    let mut rest = args;
    if rest.len() == 0 {
        (None, rest)
    } else {
        let first = rest.remove(0);
        assert(rest@ =~= args@.skip(1));
        (Some(first), rest)
    }
}

} // verus!
