//! What the caches keep, and for how long.
use crate::providers::context;
use crate::providers::docker;
use crate::providers::keyed_cache;
use crate::providers::keyed_cache::{CacheKey, Slot};
use crate::providers::local_project::fifo;
use crate::providers::local_project::fifo::Kept;
use crate::providers::local_project::mtime_cache;
use crate::providers::local_project::mtime_cache::{FileMeta, ReadValue};
use crate::providers::npm_local;
use crate::providers::npm_local::{NpmCacheEntry, NpmCacheKey, NpmDependencyMode};
use crate::shell_runner;
use crate::shell_runner::ArgvError;
use crate::text;
use crate::text_laws;
use crate::text_map;
use vstd::prelude::*;
use vstd::string::*;

verus! {

// ---------------------------------------------------------------------------
// Time
// ---------------------------------------------------------------------------
/// A value is fresh exactly while less than its time has passed. A clock that
/// runs backwards makes no value stale.
pub proof fn law_freshness(stored_at: u64, now: u64, ttl: u64)
    ensures
        stored_at <= now ==> (keyed_cache::is_fresh(stored_at, now, ttl) <==> now - stored_at
            < ttl),
        now < stored_at && ttl > 0 ==> keyed_cache::is_fresh(stored_at, now, ttl),
        ttl == 0 ==> !keyed_cache::is_fresh(stored_at, now, ttl),
{
}

// ---------------------------------------------------------------------------
// The oldest goes first
// ---------------------------------------------------------------------------
proof fn lemma_position<V>(s: Seq<Kept<V>>, path: Seq<char>, i: int, k: int)
    requires
        0 <= i <= k <= s.len(),
        k < s.len() ==> s[k].path@ == path,
        forall|j: int| i <= j < k ==> (#[trigger] s[j]).path@ != path,
    ensures
        fifo::position_of(s, path, i) == k,
    decreases k - i,
{
    if i < k {
        lemma_position(s, path, i + 1, k);
    }
}

/// A new path goes behind the others. Only where there are 64 already does
/// the oldest go for it.
pub proof fn law_new_path<V>(s: Seq<Kept<V>>, e: Kept<V>)
    requires
        forall|j: int| 0 <= j < s.len() ==> (#[trigger] s[j]).path@ != e.path@,
    ensures
        s.len() < 64 ==> fifo::stored(s, e) == s.push(e),
        s.len() == 64 ==> fifo::stored(s, e) == s.skip(1).push(e),
        fifo::kept_for(s, e.path@) is None,
{
    lemma_position(s, e.path@, 0, s.len() as int);
}

/// A path that is there gives up its old entry, whatever its place, and goes
/// behind the others; none of them goes.
pub proof fn law_known_path<V>(a: Seq<Kept<V>>, x: Kept<V>, b: Seq<Kept<V>>, e: Kept<V>)
    requires
        x.path@ == e.path@,
        forall|j: int| 0 <= j < a.len() ==> (#[trigger] a[j]).path@ != e.path@,
    ensures
        fifo::stored(a + seq![x] + b, e) == (a + b).push(e),
        fifo::kept_for(a + seq![x] + b, e.path@) == Some(x.value),
{
    let s = a + seq![x] + b;
    let n = a.len() as int;
    assert(s[n] == x);
    assert forall|j: int| 0 <= j < n implies (#[trigger] s[j]).path@ != e.path@ by {
        assert(s[j] == a[j]);
    }
    lemma_position(s, e.path@, 0, n);
    assert(s.remove(n) =~= a + b);
}

/// What is kept of a file answers exactly while its time and its size are the
/// same; a file that nothing is kept of is not answered for.
pub proof fn law_file_answers<T>(
    s: Seq<Kept<ReadValue<T>>>,
    e: Kept<ReadValue<T>>,
    path: Seq<char>,
    meta: FileMeta,
)
    requires
        fifo::bounded(s),
    ensures
        mtime_cache::is_hit(fifo::stored(s, e), e.path@, meta) <==> meta.mtime == Some(
            e.value.mtime,
        ) && meta.size == e.value.size,
        (forall|j: int| 0 <= j < s.len() ==> (#[trigger] s[j]).path@ != path)
            ==> !mtime_cache::is_hit(s, path, meta),
{
    fifo::law_stored(s, e);
    if forall|j: int| 0 <= j < s.len() ==> (#[trigger] s[j]).path@ != path {
        lemma_position(s, path, 0, s.len() as int);
    }
}

/// The dependencies that are kept of a file answer exactly while its time and
/// its size are the same.
pub proof fn law_dependencies_answer(
    s: Seq<Slot<NpmCacheKey, NpmCacheEntry>>,
    e: Slot<NpmCacheKey, NpmCacheEntry>,
    meta: FileMeta,
)
    ensures
        npm_local::kept_suggestions(keyed_cache::with_slot(s, e), e.key.id(), meta) is Some
            <==> meta.mtime == Some(e.value.mtime) && meta.size == e.value.size,
        npm_local::kept_suggestions(
            Seq::<Slot<NpmCacheKey, NpmCacheEntry>>::empty(),
            (Seq::<char>::empty(), NpmDependencyMode::Dependencies),
            meta,
        ) is None,
{
    keyed_cache::law_stored_value(s, e);
}

// ---------------------------------------------------------------------------
// Contexts
// ---------------------------------------------------------------------------
proof fn lemma_hash(a: Seq<(Seq<char>, Seq<char>)>, b: Seq<(Seq<char>, Seq<char>)>)
    ensures
        context::hash_input(a + b) == context::hash_input(a) + context::hash_input(b),
    decreases b.len(),
{
    if b.len() == 0 {
        assert(a + b =~= a);
        assert(context::hash_input(a) + context::hash_input(b) =~= context::hash_input(a));
    } else {
        lemma_hash(a, b.drop_last());
        assert((a + b).drop_last() =~= a + b.drop_last());
        assert((a + b).last() == b.last());
        assert(context::hash_input(a + b) =~= context::hash_input(a) + context::hash_input(b));
    }
}

/// Every parameter goes into the hash, key and value in turn, each closed by
/// a byte that stands in no text.
pub proof fn law_hash_input(
    a: Seq<(Seq<char>, Seq<char>)>,
    k: Seq<char>,
    v: Seq<char>,
    b: Seq<(Seq<char>, Seq<char>)>,
)
    ensures
        context::hash_input(a + seq![(k, v)] + b) == context::hash_input(a) + seq![
            vstd::utf8::encode_utf8(k),
            seq![255u8],
            vstd::utf8::encode_utf8(v),
            seq![255u8],
        ] + context::hash_input(b),
        context::hash_input(Seq::empty()).len() == 0,
{
    lemma_hash(a + seq![(k, v)], b);
    lemma_hash(a, seq![(k, v)]);
    let one = seq![(k, v)];
    assert(one.drop_last() =~= Seq::empty());
    assert(context::hash_input(one.drop_last()) =~= Seq::empty());
    assert(context::hash_input(one) =~= seq![
        vstd::utf8::encode_utf8(k),
        seq![255u8],
        vstd::utf8::encode_utf8(v),
        seq![255u8],
    ]);
}

/// A path starts at the root exactly if its first character is a slash.
pub proof fn law_absolute(path: Seq<char>, c: char)
    ensures
        context::is_absolute(seq!['/'] + path),
        c != '/' ==> !context::is_absolute(seq![c] + path),
        !context::is_absolute(Seq::empty()),
{
    assert((seq!['/'] + path)[0] == '/');
    assert((seq![c] + path)[0] == c);
}

/// The tool that a parameter names is run, white space around it aside; a
/// blank one counts as none, and without one it is `docker`.
pub proof fn law_docker_binary(
    params: Seq<(Seq<char>, Seq<char>)>,
    front: Seq<char>,
    name: Seq<char>,
    back: Seq<char>,
)
    requires
        text::is_blank(front),
        text::is_blank(back),
        text_laws::tight(name),
    ensures
        text_map::value_of(params, "binary"@) == Some(front + name + back)
            ==> docker::docker_binary(params) == name,
        text_map::value_of(params, "binary"@) == Some(front) ==> docker::docker_binary(params)
            == "docker"@,
        text_map::value_of(params, "binary"@) is None ==> docker::docker_binary(params)
            == "docker"@,
{
    text_laws::law_trim(front, name, back);
    text_laws::law_trim_blank(front);
}

/// The words of a command are run as they are. A command without words, and
/// one that cannot be cut into words, is refused.
pub proof fn law_argv(
    command: Seq<char>,
    words: Seq<Seq<char>>,
    r: Result<Vec<String>, ArgvError>,
)
    ensures
        shell_runner::argv_result(command, Some(words), r) && words.len() > 0 ==> (r matches Ok(v)
            && text::views(v@) == words),
        shell_runner::argv_result(command, Some(words), r) && words.len() == 0 ==> r is Err && r
            == Err::<Vec<String>, ArgvError>(ArgvError::Empty),
        shell_runner::argv_result(command, None, r) ==> (r matches Err(ArgvError::Unparsed(c))
            && c@ == command),
{
}

} // verus!
