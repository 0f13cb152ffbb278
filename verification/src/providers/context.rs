//! What a provider is told about the completion request.
use crate::providers::kind::ProviderKind;
use crate::specs::model::share;
use crate::text;
use crate::text_map::TextMap;
use std::collections::hash_map::DefaultHasher;
use std::hash::Hasher;
use std::sync::Arc;
use vstd::prelude::*;
use vstd::std_specs::hash::DefaultHasherAdditionalSpecFns;
use vstd::string::*;

verus! {

/// What every provider is given.
#[derive(Debug)]
pub struct ProviderCtx {
    /// The directory that the shell is in. Local providers look for files in
    /// it and above it, so it has to be an absolute path.
    pub cwd: String,
    /// The shell's environment.
    pub env: Arc<TextMap>,
    /// The word at the cursor.
    pub current_token: String,
    /// Parameters that the spec sets for the provider.
    pub params: Arc<TextMap>,
}

/// Why a context cannot be made.
#[derive(Debug)]
pub enum CtxError {
    /// The directory is not an absolute path.
    RelativeCwd(String),
}

/// A provider with the parameters that the spec sets for it.
#[derive(Debug)]
pub struct ProviderResolution {
    pub kind: ProviderKind,
    pub params: Arc<TextMap>,
}

/// A source of suggestions that specs name by a `type` string.
pub trait Provider {
    spec fn provider_name(&self) -> Seq<char>;

    /// The `type` string of the provider.
    fn name(&self) -> (r: &'static str)
        ensures
            r@ == self.provider_name(),
    ;
}

/// Whether a path starts at the root.
pub open spec fn is_absolute(path: Seq<char>) -> bool {
    path.len() > 0 && path[0] == '/'
}

/// Whether a path starts at the root.
pub fn path_is_absolute(path: &str) -> (r: bool)
    ensures
        r == is_absolute(path@),
{
    let x = text::chars_of(path);
    x.len() > 0 && x[0] == '/'
}

impl CtxError {
    /// The error in words.
    pub fn message(&self) -> (r: String)
        ensures
            r@ == "ProviderCtx requires an absolute cwd, got relative path: "@ + self->RelativeCwd_0@,
    {
        match self {
            CtxError::RelativeCwd(p) => {
                let mut m =
                    "ProviderCtx requires an absolute cwd, got relative path: ".to_owned();
                m.append(p);
                m
            },
        }
    }
}

/// What is fed to the hasher for the parameters: key and value in turn, each
/// closed by a byte that no text holds.
pub open spec fn hash_input(items: Seq<(Seq<char>, Seq<char>)>) -> Seq<Seq<u8>>
    decreases items.len(),
{
    if items.len() == 0 {
        Seq::empty()
    } else {
        hash_input(items.drop_last()) + seq![
            vstd::utf8::encode_utf8(items.last().0),
            seq![0xffu8],
            vstd::utf8::encode_utf8(items.last().1),
            seq![0xffu8],
        ]
    }
}

fn end_mark() -> (r: Vec<u8>)
    ensures
        r@ == seq![0xffu8],
{
    let mut v: Vec<u8> = Vec::new();
    v.push(0xff);
    assert(v@ =~= seq![0xffu8]);
    v
}

impl ProviderCtx {
    /// A context without parameters, unless the directory is a relative path.
    pub fn new(cwd: String, env: Arc<TextMap>, current_token: String) -> (r: Result<
        ProviderCtx,
        CtxError,
    >)
        ensures
            match r {
                Ok(c) => is_absolute(cwd@) && c.cwd == cwd && c.env == env && c.current_token
                    == current_token && c.params.items() == Seq::<(Seq<char>, Seq<char>)>::empty(),
                Err(e) => !is_absolute(cwd@) && e == CtxError::RelativeCwd(cwd),
            },
    {
        if !path_is_absolute(&cwd) {
            return Err(CtxError::RelativeCwd(cwd));
        }
        Ok(ProviderCtx { cwd, env, current_token, params: Arc::new(TextMap::new()) })
    }

    /// The same context with the parameters of a resolution.
    pub fn for_resolution(&self, resolution: &ProviderResolution) -> (r: ProviderCtx)
        ensures
            r.cwd@ == self.cwd@,
            r.env == self.env,
            r.current_token@ == self.current_token@,
            r.params == resolution.params,
    {
        ProviderCtx {
            cwd: self.cwd.clone(),
            env: share(&self.env),
            current_token: self.current_token.clone(),
            params: share(&resolution.params),
        }
    }

    /// A hash of the parameters, good as a cache key within one process: the
    /// same parameters always hash alike.
    pub fn params_hash(&self) -> (r: u64)
        ensures
            r == DefaultHasher::spec_finish(hash_input(self.params.items())),
    {
        let mut hasher = DefaultHasher::new();
        let ghost items = self.params.items();
        let mut i: usize = 0;
        let n: usize = self.params.len();
        let mark = end_mark();
        assert(items.take(0) =~= Seq::empty());
        while i < n
            invariant
                i <= n,
                n == items.len(),
                items == self.params.items(),
                mark@ == seq![0xffu8],
                hasher@ == hash_input(items.take(i as int)),
            decreases n - i,
        {
            let ghost before = hasher@;
            let (k, v) = self.params.pair_at(i);
            hasher.write(k.as_bytes());
            hasher.write(mark.as_slice());
            hasher.write(v.as_bytes());
            hasher.write(mark.as_slice());
            proof {
                assert(items.take(i + 1).drop_last() =~= items.take(i as int));
                assert(items.take(i + 1).last() == items[i as int]);
                assert(hasher@ =~= hash_input(items.take(i + 1)));
            }
            i += 1;
        }
        assert(items.take(items.len() as int) =~= items);
        hasher.finish()
    }

    /// The value of an environment variable.
    pub fn env(&self, name: &str) -> (r: Option<&str>)
        ensures
            match r {
                Some(v) => crate::text_map::value_of(self.env.items(), name@) == Some(v@),
                None => crate::text_map::value_of(self.env.items(), name@) is None,
            },
    {
        self.env.get(name)
    }
}

impl ProviderResolution {
    /// The provider without parameters.
    pub fn from_kind(kind: ProviderKind) -> (r: ProviderResolution)
        ensures
            r.kind == kind,
            r.params.items() == Seq::<(Seq<char>, Seq<char>)>::empty(),
    {
        ProviderResolution { kind, params: Arc::new(TextMap::new()) }
    }
}

} // verus!
