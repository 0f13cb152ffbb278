//! Listings through the AWS SDK: what is asked for, and what becomes of the
//! answer.
use crate::providers::context;
use crate::providers::context::{Provider, ProviderCtx};
use crate::providers::keyed_cache;
use crate::providers::keyed_cache::{get_fresh, CacheKey, KeyedCache, Slot, Timed};
use crate::text;
use crate::text_map;
use crate::text_parts;
use crate::types;
use crate::types::{clone_suggestions, provider_value, Suggestion, SuggestionView};
use std::collections::hash_map::DefaultHasher;
use vstd::prelude::*;
use vstd::std_specs::hash::DefaultHasherAdditionalSpecFns;
use vstd::string::*;

verus! {

/// How long an answer is kept, in milliseconds.
pub const AWS_SDK_CACHE_TTL_MS: u64 = 60000;

// ---------------------------------------------------------------------------
// The request
// ---------------------------------------------------------------------------
/// Whether an operation of a service is offered.
pub open spec fn is_offered(service: Seq<char>, operation: Seq<char>) -> bool {
    service == "iam"@ && (operation == "ListRoles"@ || operation == "ListPolicies"@ || operation
        == "ListUsers"@ || operation == "ListGroups"@)
}

/// Whether an operation of a service is offered.
pub fn is_supported_operation(service: &str, operation: &str) -> (r: bool)
    ensures
        r == is_offered(service@, operation@),
{
    text::same(service, "iam") && (text::same(operation, "ListRoles") || text::same(
        operation,
        "ListPolicies",
    ) || text::same(operation, "ListUsers") || text::same(operation, "ListGroups"))
}

/// The value of a key without white space around it, if anything is left.
pub open spec fn clean_value(items: Seq<(Seq<char>, Seq<char>)>, key: Seq<char>) -> Option<
    Seq<char>,
> {
    match text_map::value_of(items, key) {
        Some(v) => text_parts::cleaned(v),
        None => None,
    }
}

/// A setting: the parameter, or else the first of two variables.
pub open spec fn setting(
    params: Seq<(Seq<char>, Seq<char>)>,
    env: Seq<(Seq<char>, Seq<char>)>,
    param: Seq<char>,
    first: Seq<char>,
    second: Seq<char>,
) -> Option<Seq<char>> {
    if clean_value(params, param) is Some {
        clean_value(params, param)
    } else if clean_value(env, first) is Some {
        clean_value(env, first)
    } else {
        clean_value(env, second)
    }
}

fn clean_opt(value: Option<&str>) -> (r: Option<String>)
    ensures
        text::opt_view(r) == (match value {
            Some(v) => text_parts::cleaned(v@),
            None => None,
        }),
{
    match value {
        Some(v) => text_parts::clean(v),
        None => None,
    }
}

fn param_or_env(ctx: &ProviderCtx, param: &str, first: &str, second: &str) -> (r: Option<String>)
    ensures
        text::opt_view(r) == setting(
            ctx.params.items(),
            ctx.env.items(),
            param@,
            first@,
            second@,
        ),
{
    let a = clean_opt(ctx.params.get(param));
    if a.is_some() {
        return a;
    }
    let b = clean_opt(ctx.env(first));
    if b.is_some() {
        return b;
    }
    clean_opt(ctx.env(second))
}

/// The profile to use.
pub fn aws_profile(ctx: &ProviderCtx) -> (r: Option<String>)
    ensures
        text::opt_view(r) == setting(
            ctx.params.items(),
            ctx.env.items(),
            "profile"@,
            "AWS_PROFILE"@,
            "AWS_DEFAULT_PROFILE"@,
        ),
{
    param_or_env(ctx, "profile", "AWS_PROFILE", "AWS_DEFAULT_PROFILE")
}

/// The region to use.
pub fn aws_region(ctx: &ProviderCtx) -> (r: Option<String>)
    ensures
        text::opt_view(r) == setting(
            ctx.params.items(),
            ctx.env.items(),
            "region"@,
            "AWS_REGION"@,
            "AWS_DEFAULT_REGION"@,
        ),
{
    param_or_env(ctx, "region", "AWS_REGION", "AWS_DEFAULT_REGION")
}

/// What an answer is kept under.
#[derive(Debug, PartialEq, Eq)]
pub struct AwsCacheKey {
    pub service: String,
    pub operation: String,
    pub params_hash: u64,
    pub profile: Option<String>,
    pub region: Option<String>,
}

/// What an answer is kept under: everything that it depends on.
pub fn aws_cache_key(ctx: &ProviderCtx, service: &str, operation: &str) -> (r: AwsCacheKey)
    ensures
        r.service@ == service@,
        r.operation@ == operation@,
        r.params_hash == DefaultHasher::spec_finish(context::hash_input(ctx.params.items())),
        text::opt_view(r.profile) == setting(
            ctx.params.items(),
            ctx.env.items(),
            "profile"@,
            "AWS_PROFILE"@,
            "AWS_DEFAULT_PROFILE"@,
        ),
        text::opt_view(r.region) == setting(
            ctx.params.items(),
            ctx.env.items(),
            "region"@,
            "AWS_REGION"@,
            "AWS_DEFAULT_REGION"@,
        ),
{
    AwsCacheKey {
        service: service.to_owned(),
        operation: operation.to_owned(),
        params_hash: ctx.params_hash(),
        profile: aws_profile(ctx),
        region: aws_region(ctx),
    }
}

fn same_opt(a: &Option<String>, b: &Option<String>) -> (r: bool)
    ensures
        r == (text::opt_view(*a) == text::opt_view(*b)),
{
    match (a, b) {
        (Some(x), Some(y)) => text::same(x, y),
        (None, None) => true,
        _ => false,
    }
}

impl CacheKey for AwsCacheKey {
    type Id = (Seq<char>, Seq<char>, u64, Option<Seq<char>>, Option<Seq<char>>);

    open spec fn id(self) -> (Seq<char>, Seq<char>, u64, Option<Seq<char>>, Option<Seq<char>>) {
        (
            self.service@,
            self.operation@,
            self.params_hash,
            text::opt_view(self.profile),
            text::opt_view(self.region),
        )
    }

    fn is_same(&self, other: &Self) -> (r: bool) {
        text::same(&self.service, &other.service) && text::same(&self.operation, &other.operation)
            && self.params_hash == other.params_hash && same_opt(&self.profile, &other.profile)
            && same_opt(&self.region, &other.region)
    }
}

/// Answers that came lately.
pub type AwsCache = KeyedCache<AwsCacheKey, Timed<Vec<Suggestion>>>;

/// The answer that came lately for a key, if there is one.
pub fn recent_answer(cache: &AwsCache, key: &AwsCacheKey, now: u64) -> (r: Option<Vec<Suggestion>>)
    ensures
        match keyed_cache::fresh_value(cache.items(), key.id(), now, AWS_SDK_CACHE_TTL_MS) {
            Some(v) => r matches Some(x) && types::shown(x@) == types::shown(v@),
            None => r is None,
        },
{
    match get_fresh(cache, key, now, AWS_SDK_CACHE_TTL_MS) {
        Some(v) => Some(clone_suggestions(v)),
        None => None,
    }
}

/// Whether storing suggestions under a key gave the new slots.
pub open spec fn stored_as(
    s: Seq<Slot<AwsCacheKey, Timed<Vec<Suggestion>>>>,
    e: Slot<AwsCacheKey, Timed<Vec<Suggestion>>>,
    key: AwsCacheKey,
    found: Seq<SuggestionView>,
    now: u64,
    after: Seq<Slot<AwsCacheKey, Timed<Vec<Suggestion>>>>,
) -> bool {
    &&& after == keyed_cache::with_slot(s, e)
    &&& e.key == key
    &&& e.value.stored_at == now
    &&& types::shown(e.value.value@) == found
}

/// Keeps an answer. A failure is not kept, so that the next request calls
/// again.
pub fn keep_answer(
    cache: &mut AwsCache,
    key: AwsCacheKey,
    answer: &Result<Vec<Suggestion>, String>,
    now: u64,
)
    ensures
        match *answer {
            Ok(v) => exists|e: Slot<AwsCacheKey, Timed<Vec<Suggestion>>>| #[trigger]
                stored_as(
                    old(cache).items(),
                    e,
                    key,
                    types::shown(v@),
                    now,
                    final(cache).items(),
                ),
            Err(_) => final(cache).items() == old(cache).items(),
        },
{
    if let Ok(v) = answer {
        let value = Timed { stored_at: now, value: clone_suggestions(v) };
        let ghost slot = Slot { key, value };
        let ghost before = cache.items();
        cache.store(key, value);
        assert(stored_as(before, slot, key, types::shown(v@), now, cache.items()));
    }
}

/// An answer that was kept is found for its key until its time has passed,
/// and not after.
pub proof fn law_kept_answer(
    s: Seq<Slot<AwsCacheKey, Timed<Vec<Suggestion>>>>,
    e: Slot<AwsCacheKey, Timed<Vec<Suggestion>>>,
    key: AwsCacheKey,
    found: Seq<SuggestionView>,
    stored_at: u64,
    after: Seq<Slot<AwsCacheKey, Timed<Vec<Suggestion>>>>,
    now: u64,
)
    requires
        stored_as(s, e, key, found, stored_at, after),
    ensures
        match keyed_cache::fresh_value(after, key.id(), now, AWS_SDK_CACHE_TTL_MS) {
            Some(v) => keyed_cache::is_fresh(stored_at, now, AWS_SDK_CACHE_TTL_MS) && types::shown(
                v@,
            ) == found,
            None => !keyed_cache::is_fresh(stored_at, now, AWS_SDK_CACHE_TTL_MS),
        },
{
    keyed_cache::law_stored_value(s, e);
}

/// An operation to call.
#[derive(Debug)]
pub struct AwsRequest {
    pub service: String,
    pub operation: String,
}

/// The service and operation that a request names, if they are offered.
pub open spec fn requested(params: Seq<(Seq<char>, Seq<char>)>) -> Option<
    (Seq<char>, Seq<char>),
> {
    match (text_map::value_of(params, "service"@), text_map::value_of(params, "operation"@)) {
        (Some(s), Some(o)) => if is_offered(s, o) {
            Some((s, o))
        } else {
            None
        },
        _ => None,
    }
}

/// The operation to call. Where none is named, or one that is not offered,
/// nothing is called.
pub fn aws_request(ctx: &ProviderCtx) -> (r: Option<AwsRequest>)
    ensures
        match r {
            Some(q) => requested(ctx.params.items()) == Some((q.service@, q.operation@)),
            None => requested(ctx.params.items()) is None,
        },
{
    match (ctx.params.get("service"), ctx.params.get("operation")) {
        (Some(service), Some(operation)) => if is_supported_operation(service, operation) {
            Some(AwsRequest { service: service.to_owned(), operation: operation.to_owned() })
        } else {
            None
        },
        _ => None,
    }
}

// ---------------------------------------------------------------------------
// The answer
// ---------------------------------------------------------------------------
/// A value of an answer, as far as it can be suggested.
#[derive(Debug)]
pub enum JsonScalar {
    Text(String),
    /// A number as it is written.
    Number(String),
    Bool(bool),
    /// Anything else.
    Other,
}

/// The text that a value is suggested as.
pub open spec fn scalar_text(v: JsonScalar) -> Option<Seq<char>> {
    match v {
        JsonScalar::Text(s) => text_parts::cleaned(s@),
        JsonScalar::Number(n) => Some(n@),
        JsonScalar::Bool(b) => Some(
            if b {
                "true"@
            } else {
                "false"@
            },
        ),
        JsonScalar::Other => None,
    }
}

/// The text that a value is suggested as.
pub fn value_to_string(v: &JsonScalar) -> (r: Option<String>)
    ensures
        text::opt_view(r) == scalar_text(*v),
{
    match v {
        JsonScalar::Text(s) => text_parts::clean(s),
        JsonScalar::Number(n) => Some(n.clone()),
        JsonScalar::Bool(b) => if *b {
            Some("true".to_owned())
        } else {
            Some("false".to_owned())
        },
        JsonScalar::Other => None,
    }
}

/// The suggestions that the first `n` values make, each with the description
/// at the same position.
pub open spec fn values_shown(
    names: Seq<JsonScalar>,
    descriptions: Seq<JsonScalar>,
    n: int,
) -> Seq<SuggestionView>
    decreases n,
{
    if n <= 0 {
        Seq::empty()
    } else {
        let before = values_shown(names, descriptions, n - 1);
        match scalar_text(names[n - 1]) {
            Some(t) => before.push(
                types::provided(
                    t,
                    if n <= descriptions.len() {
                        scalar_text(descriptions[n - 1])
                    } else {
                        None
                    },
                ),
            ),
            None => before,
        }
    }
}

/// The suggestions that values make.
pub fn suggestions_from_values(names: &Vec<JsonScalar>, descriptions: &Vec<JsonScalar>) -> (r: Vec<
    Suggestion,
>)
    ensures
        types::shown(r@) == values_shown(names@, descriptions@, names@.len() as int),
{
    let mut out: Vec<Suggestion> = Vec::new();
    let mut i: usize = 0;
    assert(types::shown(out@) =~= Seq::empty());
    while i < names.len()
        invariant
            i <= names.len(),
            types::shown(out@) == values_shown(names@, descriptions@, i as int),
        decreases names.len() - i,
    {
        if let Some(t) = value_to_string(&names[i]) {
            let d = if i < descriptions.len() {
                value_to_string(&descriptions[i])
            } else {
                None
            };
            let ghost before = out@;
            let s = provider_value(t, d);
            out.push(s);
            assert(types::shown(out@) =~= types::shown(before).push(s@));
        }
        i += 1;
    }
    out
}

/// The values of an optional list.
pub open spec fn opt_values(o: Option<Vec<JsonScalar>>) -> Option<Seq<JsonScalar>> {
    match o {
        Some(v) => Some(v@),
        None => None,
    }
}

/// What looking up a path in an answer gave. A path that is no path gives
/// nothing.
pub open spec fn found_at<F: Fn(&str) -> Option<Vec<JsonScalar>>>(
    lookup: F,
    path: Option<Seq<char>>,
    values: Option<Seq<JsonScalar>>,
) -> bool {
    match path {
        Some(p) => exists|q: &str, got: Option<Vec<JsonScalar>>|
            q@ == p && #[trigger] call_ensures(lookup, (q,), got) && values == opt_values(got),
        None => values is None,
    }
}

fn look_up<F: Fn(&str) -> Option<Vec<JsonScalar>>>(ctx: &ProviderCtx, key: &str, lookup: &F) -> (r:
    Option<Vec<JsonScalar>>)
    requires
        forall|q: &str| #[trigger] call_requires(*lookup, (q,)),
    ensures
        found_at(*lookup, text_map::value_of(ctx.params.items(), key@), opt_values(r)),
{
    match ctx.params.get(key) {
        Some(p) => {
            let got = lookup(p);
            assert(call_ensures(*lookup, (p,), got));
            got
        },
        None => None,
    }
}

/// Whether the suggestions are those for an answer: the values at the path
/// that the parameter `field` names, described by those at the path that
/// `description_field` names. Without a usable first path there are none.
pub open spec fn is_response_shown<F: Fn(&str) -> Option<Vec<JsonScalar>>>(
    lookup: F,
    params: Seq<(Seq<char>, Seq<char>)>,
    found: Seq<SuggestionView>,
) -> bool {
    exists|names: Option<Seq<JsonScalar>>| #[trigger]
        found_at(lookup, text_map::value_of(params, "field"@), names) && match names {
            Some(ns) => exists|ds: Option<Seq<JsonScalar>>| #[trigger]
                found_at(lookup, text_map::value_of(params, "description_field"@), ds) && found
                    == values_shown(
                    ns,
                    match ds {
                        Some(d) => d,
                        None => Seq::empty(),
                    },
                    ns.len() as int,
                ),
            None => found.len() == 0,
        }
}

/// The suggestions for an answer. `lookup` finds values in it.
pub fn suggestions_from_response_json<F: Fn(&str) -> Option<Vec<JsonScalar>>>(
    ctx: &ProviderCtx,
    lookup: &F,
) -> (r: Vec<Suggestion>)
    requires
        forall|q: &str| #[trigger] call_requires(*lookup, (q,)),
    ensures
        is_response_shown(*lookup, ctx.params.items(), types::shown(r@)),
{
    let ghost params = ctx.params.items();
    let names = match look_up(ctx, "field", lookup) {
        Some(n) => n,
        None => {
            let none: Vec<Suggestion> = Vec::new();
            assert(found_at(
                *lookup,
                text_map::value_of(params, "field"@),
                None::<Seq<JsonScalar>>,
            ));
            return none;
        },
    };
    assert(found_at(*lookup, text_map::value_of(params, "field"@), Some(names@)));
    let looked = look_up(ctx, "description_field", lookup);
    let ghost ds = opt_values(looked);
    assert(found_at(*lookup, text_map::value_of(params, "description_field"@), ds));
    let descriptions = match looked {
        Some(d) => d,
        None => Vec::new(),
    };
    let r = suggestions_from_values(&names, &descriptions);
    assert(types::shown(r@) == values_shown(
        names@,
        match ds {
            Some(d) => d,
            None => Seq::empty(),
        },
        names@.len() as int,
    ));
    r
}

// ---------------------------------------------------------------------------
// Failures
// ---------------------------------------------------------------------------
/// Why a call failed.
#[derive(Debug, Clone, Copy, PartialEq, Eq, Structural)]
pub enum AwsSdkErrorKind {
    AuthMissing,
    AuthExpired,
    Network,
    Other,
}

/// A failure in words that help the user.
pub open spec fn failure_text(
    kind: AwsSdkErrorKind,
    service: Seq<char>,
    operation: Seq<char>,
    message: Seq<char>,
) -> Seq<char> {
    match kind {
        AwsSdkErrorKind::AuthMissing | AwsSdkErrorKind::AuthExpired =>
            "AWS credentials unavailable or expired; run `aws sso login` or configure AWS credentials"@,
        AwsSdkErrorKind::Network => "AWS API unreachable ("@ + service + " "@ + operation
            + "); check network connectivity"@,
        AwsSdkErrorKind::Other => "AWS "@ + service + " "@ + operation + " failed: "@ + message,
    }
}

/// A failure in words that help the user.
pub fn failure_message(kind: AwsSdkErrorKind, request: &AwsRequest, message: &str) -> (r: String)
    ensures
        r@ == failure_text(kind, request.service@, request.operation@, message@),
{
    match kind {
        AwsSdkErrorKind::AuthMissing | AwsSdkErrorKind::AuthExpired =>
            "AWS credentials unavailable or expired; run `aws sso login` or configure AWS credentials".to_owned(),
        AwsSdkErrorKind::Network => {
            let mut out = text_parts::concat3("AWS API unreachable (", &request.service, " ");
            out.append(&request.operation);
            out.append("); check network connectivity");
            out
        },
        AwsSdkErrorKind::Other => {
            let mut out = text_parts::concat3("AWS ", &request.service, " ");
            out.append(&request.operation);
            out.append(" failed: ");
            out.append(message);
            out
        },
    }
}

/// How a call ended.
#[derive(Debug)]
pub enum AwsCallEnd {
    /// With an answer.
    Answered,
    /// With an error.
    Failed { kind: AwsSdkErrorKind, message: String },
    /// It took too long.
    TimedOut,
}

/// The result of a call: suggestions for an answer, an error in words for a
/// failure, and nothing where it took too long.
pub fn call_result<F: Fn(&str) -> Option<Vec<JsonScalar>>>(
    ctx: &ProviderCtx,
    request: &AwsRequest,
    end: &AwsCallEnd,
    lookup: &F,
) -> (r: Result<Vec<Suggestion>, String>)
    requires
        forall|q: &str| #[trigger] call_requires(*lookup, (q,)),
    ensures
        match *end {
            AwsCallEnd::Answered => r matches Ok(v) && is_response_shown(
                *lookup,
                ctx.params.items(),
                types::shown(v@),
            ),
            AwsCallEnd::Failed { kind, message } => r matches Err(e) && e@ == failure_text(
                kind,
                request.service@,
                request.operation@,
                message@,
            ),
            AwsCallEnd::TimedOut => r matches Ok(v) && v@.len() == 0,
        },
{
    match end {
        AwsCallEnd::Answered => Ok(suggestions_from_response_json(ctx, lookup)),
        AwsCallEnd::Failed { kind, message } => Err(failure_message(*kind, request, message)),
        AwsCallEnd::TimedOut => Ok(Vec::new()),
    }
}

/// IAM listings through the AWS SDK.
pub struct AwsSdk;

impl Provider for AwsSdk {
    open spec fn provider_name(&self) -> Seq<char> {
        "aws_sdk"@
    }

    fn name(&self) -> (r: &'static str) {
        "aws_sdk"
    }
}

} // verus!
