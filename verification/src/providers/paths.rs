//! Slash-separated paths, and the search for a file from a directory upward.
use crate::text;
use vstd::prelude::*;
use vstd::string::*;

verus! {

/// How many directories an upward search looks at, the first one included.
pub const MAX_ANCESTOR_WALK: usize = 32;

/// The path of `name` in `dir`. A name that starts at the root stays as it
/// is.
pub open spec fn joined(dir: Seq<char>, name: Seq<char>) -> Seq<char> {
    if name.len() > 0 && name[0] == '/' {
        name
    } else if dir.len() == 0 || dir.last() == '/' {
        dir + name
    } else {
        dir + seq!['/'] + name
    }
}

/// The path without what adds nothing at its end: slashes and `/.`.
pub open spec fn bare_tail(p: Seq<char>) -> Seq<char>
    decreases p.len(),
{
    if p.len() > 0 && p.last() == '/' {
        bare_tail(p.drop_last())
    } else if p.len() > 1 && p.last() == '.' && p[p.len() - 2] == '/' {
        bare_tail(p.take(p.len() - 2))
    } else {
        p
    }
}

/// The index after the last slash before `n`.
pub open spec fn after_slash(p: Seq<char>, n: int) -> int
    decreases n,
{
    if 0 < n <= p.len() && p[n - 1] != '/' {
        after_slash(p, n - 1)
    } else {
        n
    }
}

/// The directory that holds what the path names. The root and the empty path
/// have none.
pub open spec fn parent(p: Seq<char>) -> Option<Seq<char>> {
    let t = bare_tail(p);
    if t.len() == 0 {
        None
    } else {
        let i = after_slash(t, t.len() as int);
        if i == 0 {
            Some(Seq::empty())
        } else {
            let rest = bare_tail(t.take(i));
            Some(
                if rest.len() == 0 {
                    seq!['/']
                } else {
                    rest
                },
            )
        }
    }
}

/// The directory `k` levels up, if there is one.
pub open spec fn ancestor(start: Seq<char>, k: int) -> Option<Seq<char>>
    decreases k,
{
    if k <= 0 {
        Some(start)
    } else {
        match ancestor(start, k - 1) {
            Some(d) => parent(d),
            None => None,
        }
    }
}

proof fn lemma_after_slash(p: Seq<char>, n: int)
    requires
        0 <= n <= p.len(),
    ensures
        0 <= after_slash(p, n) <= n,
    decreases n,
{
    if 0 < n && p[n - 1] != '/' {
        lemma_after_slash(p, n - 1);
    }
}

/// The path of `name` in `dir`.
pub fn join(dir: &str, name: &str) -> (r: String)
    ensures
        r@ == joined(dir@, name@),
{
    let n = text::chars_of(name);
    if n.len() > 0 && n[0] == '/' {
        return name.to_owned();
    }
    let x = text::chars_of(dir);
    let mut out = dir.to_owned();
    if x.len() > 0 && x[x.len() - 1] != '/' {
        out.push('/');
        assert(out@ =~= dir@ + seq!['/']);
    }
    out.append(name);
    out
}

fn tail_end(x: &Vec<char>, end: usize) -> (r: usize)
    requires
        end <= x.len(),
    ensures
        r <= end,
        x@.take(r as int) == bare_tail(x@.take(end as int)),
{
    let mut n: usize = end;
    let ghost want = bare_tail(x@.take(end as int));
    while (n > 0 && x[n - 1] == '/') || (n > 1 && x[n - 1] == '.' && x[n - 2] == '/')
        invariant
            n <= end <= x.len(),
            want == bare_tail(x@.take(n as int)),
        decreases n,
    {
        let ghost p = x@.take(n as int);
        if x[n - 1] == '/' {
            assert(p.drop_last() =~= x@.take(n - 1));
            n -= 1;
        } else {
            assert(p.take(p.len() - 2) =~= x@.take(n - 2));
            n -= 2;
        }
    }
    n
}

/// The directory that holds what the path names.
pub fn parent_of(path: &str) -> (r: Option<String>)
    ensures
        text::opt_view(r) == parent(path@),
{
    let x = text::chars_of(path);
    assert(x@.take(x@.len() as int) =~= x@);
    let n = tail_end(&x, x.len());
    if n == 0 {
        return None;
    }
    let ghost t = x@.take(n as int);
    let mut i: usize = n;
    while i > 0 && x[i - 1] != '/'
        invariant
            i <= n <= x.len(),
            t == x@.take(n as int),
            after_slash(t, n as int) == after_slash(t, i as int),
        decreases i,
    {
        i -= 1;
    }
    if i == 0 {
        return Some(String::new());
    }
    assert(t.take(i as int) =~= x@.take(i as int));
    let m = tail_end(&x, i);
    if m == 0 {
        let mut root = String::new();
        root.push('/');
        assert(root@ =~= seq!['/']);
        Some(root)
    } else {
        assert(x@.subrange(0, m as int) =~= x@.take(m as int));
        Some(text::string_of(&x, 0, m))
    }
}

/// That `probe` was asked about the path and answered so.
pub open spec fn answered<F: Fn(&str) -> bool>(probe: F, path: Seq<char>, b: bool) -> bool {
    exists|q: &str| q@ == path && #[trigger] call_ensures(probe, (q,), b)
}

/// The `j`-th name in the directory `k` levels up from `start`.
pub open spec fn candidate(
    start: Seq<char>,
    names: Seq<Seq<char>>,
    k: int,
    j: int,
) -> Seq<char> {
    joined(ancestor(start, k)->Some_0, names[j])
}

/// That none of the names exists in the directory `k` levels up.
pub open spec fn absent_at<F: Fn(&str) -> bool>(
    probe: F,
    start: Seq<char>,
    names: Seq<Seq<char>>,
    k: int,
    upto: int,
) -> bool {
    forall|j: int|
        0 <= j < upto ==> answered(probe, #[trigger] candidate(start, names, k, j), false)
}

/// What an upward search finds: the first of the names in the nearest
/// directory that has any of them, within the limit.
pub open spec fn upward_result<F: Fn(&str) -> bool>(
    probe: F,
    start: Seq<char>,
    names: Seq<Seq<char>>,
    r: Option<Seq<char>>,
) -> bool {
    match r {
        Some(p) => exists|k: int, j: int|
            0 <= k < MAX_ANCESTOR_WALK && 0 <= j < names.len() && ancestor(start, k) is Some && p
                == #[trigger] candidate(start, names, k, j) && answered(probe, p, true)
                && absent_at(probe, start, names, k, j) && forall|i: int|
                0 <= i < k ==> #[trigger] absent_at(probe, start, names, i, names.len() as int),
        None => forall|k: int|
            0 <= k < MAX_ANCESTOR_WALK && #[trigger] ancestor(start, k) is Some ==> absent_at(
                probe,
                start,
                names,
                k,
                names.len() as int,
            ),
    }
}

pub proof fn lemma_no_ancestor(start: Seq<char>, k: int, m: int)
    requires
        0 <= k <= m,
        ancestor(start, k) is None,
    ensures
        ancestor(start, m) is None,
    decreases m - k,
{
    if k < m {
        lemma_no_ancestor(start, k, m - 1);
    }
}

/// Looks for one of `names` in `start` and above.
pub fn find_upward<F: Fn(&str) -> bool>(start: &str, names: &Vec<String>, probe: F) -> (r: Option<
    String,
>)
    requires
        forall|q: &str| #[trigger] call_requires(probe, (q,)),
    ensures
        upward_result(probe, start@, text::views(names@), text::opt_view(r)),
{
    let ghost ns = text::views(names@);
    let mut dir = start.to_owned();
    let mut k: usize = 0;
    while k < MAX_ANCESTOR_WALK
        invariant
            k <= MAX_ANCESTOR_WALK,
            ns == text::views(names@),
            forall|q: &str| #[trigger] call_requires(probe, (q,)),
            ancestor(start@, k as int) == Some(dir@),
            forall|i: int|
                0 <= i < k ==> #[trigger] absent_at(probe, start@, ns, i, ns.len() as int),
        decreases MAX_ANCESTOR_WALK - k,
    {
        let mut j: usize = 0;
        while j < names.len()
            invariant
                j <= names.len(),
                k < MAX_ANCESTOR_WALK,
                ns == text::views(names@),
                forall|q: &str| #[trigger] call_requires(probe, (q,)),
                ancestor(start@, k as int) == Some(dir@),
                absent_at(probe, start@, ns, k as int, j as int),
                forall|i: int|
                    0 <= i < k ==> #[trigger] absent_at(probe, start@, ns, i, ns.len() as int),
            decreases names.len() - j,
        {
            let path = join(&dir, &names[j]);
            assert(path@ == candidate(start@, ns, k as int, j as int));
            let q = path.as_str();
            let hit = probe(q);
            assert(call_ensures(probe, (q,), hit));
            assert(answered(probe, path@, hit));
            if hit {
                return Some(path);
            }
            j += 1;
        }
        match parent_of(&dir) {
            Some(d) => {
                dir = d;
            },
            None => {
                proof {
                    assert forall|m: int|
                        0 <= m < MAX_ANCESTOR_WALK && #[trigger] ancestor(
                            start@,
                            m,
                        ) is Some implies absent_at(probe, start@, ns, m, ns.len() as int) by {
                        if m > k {
                            assert(ancestor(start@, k + 1) is None);
                            lemma_no_ancestor(start@, k + 1, m);
                        }
                    }
                }
                return None;
            },
        }
        k += 1;
    }
    None
}

// ---------------------------------------------------------------------------
// Sameness
// ---------------------------------------------------------------------------
/// The pieces that count: not empty, and no `.` but at the very start.
pub open spec fn kept_parts(pieces: Seq<Seq<char>>) -> Seq<Seq<char>>
    decreases pieces.len(),
{
    if pieces.len() == 0 {
        Seq::empty()
    } else {
        let rest = kept_parts(pieces.drop_last());
        let p = pieces.last();
        if p.len() > 0 && (p != "."@ || pieces.len() == 1) {
            rest.push(p)
        } else {
            rest
        }
    }
}

/// The components of a path.
pub open spec fn components(p: Seq<char>) -> Seq<Seq<char>> {
    kept_parts(text::split(p, '/'))
}

/// Whether two paths are the same up to doubled slashes, `.` components and a
/// slash at the end.
pub open spec fn is_same_path(a: Seq<char>, b: Seq<char>) -> bool {
    (a.len() > 0 && a[0] == '/') == (b.len() > 0 && b[0] == '/') && components(a) == components(b)
}

/// The components of a path.
pub fn components_of(p: &str) -> (r: Vec<String>)
    ensures
        text::views(r@) == components(p@),
{
    let pieces = text::split_on(p, '/');
    let ghost all = text::split(p@, '/');
    let mut out: Vec<String> = Vec::new();
    let mut i: usize = 0;
    proof {
        assert(all.take(0) =~= Seq::empty());
        assert(text::views(out@) =~= Seq::empty());
    }
    while i < pieces.len()
        invariant
            i <= pieces.len(),
            all == text::views(pieces@),
            text::views(out@) == kept_parts(all.take(i as int)),
        decreases pieces.len() - i,
    {
        proof {
            assert(all.take(i + 1).drop_last() =~= all.take(i as int));
            assert(all.take(i + 1).last() == pieces@[i as int]@);
        }
        if !pieces[i].as_str().is_empty() && (i == 0 || !text::same(&pieces[i], ".")) {
            let ghost before = out@;
            out.push(pieces[i].clone());
            assert(text::views(out@) =~= text::views(before).push(pieces@[i as int]@));
        }
        i += 1;
    }
    assert(all.take(all.len() as int) =~= all);
    out
}

fn starts_at_root(p: &str) -> (r: bool)
    ensures
        r == (p@.len() > 0 && p@[0] == '/'),
{
    let x = text::chars_of(p);
    x.len() > 0 && x[0] == '/'
}

/// Whether a path is `dir` or lies below it. Everything lies below the empty
/// path.
pub open spec fn is_under(path: Seq<char>, dir: Seq<char>) -> bool {
    let path_root = path.len() > 0 && path[0] == '/';
    let dir_root = dir.len() > 0 && dir[0] == '/';
    components(dir).is_prefix_of(components(path)) && (dir_root == path_root || (!dir_root
        && components(dir).len() == 0))
}

/// How many components a path has, the root included.
pub open spec fn depth(path: Seq<char>) -> nat {
    if path.len() > 0 && path[0] == '/' {
        components(path).len() + 1
    } else {
        components(path).len()
    }
}

/// Whether a path is `dir` or lies below it.
pub fn lies_under(path: &str, dir: &str) -> (r: bool)
    ensures
        r == is_under(path@, dir@),
{
    let x = components_of(path);
    let y = components_of(dir);
    assert(text::views(x@).len() == x@.len() && text::views(y@).len() == y@.len());
    if starts_at_root(dir) != starts_at_root(path) && (starts_at_root(dir) || y.len() > 0) {
        return false;
    }
    if y.len() > x.len() {
        return false;
    }
    let ghost a = components(path@);
    let ghost b = components(dir@);
    let mut i: usize = 0;
    while i < y.len()
        invariant
            i <= y.len() <= x.len(),
            a == text::views(x@),
            b == text::views(y@),
            a == components(path@),
            b == components(dir@),
            forall|j: int| 0 <= j < i ==> #[trigger] b[j] == a[j],
        decreases y.len() - i,
    {
        assert(a[i as int] == x@[i as int]@ && b[i as int] == y@[i as int]@);
        if !text::same(&x[i], &y[i]) {
            assert(a.subrange(0, b.len() as int)[i as int] != b[i as int]);
            return false;
        }
        i += 1;
    }
    assert(b =~= a.subrange(0, b.len() as int));
    true
}

/// How many components a path has, the root included.
pub fn depth_of(path: &str) -> (r: u128)
    ensures
        r == depth(path@),
{
    let n: usize = components_of(path).len();
    if starts_at_root(path) {
        n as u128 + 1
    } else {
        n as u128
    }
}

/// Whether two paths are the same.
pub fn same_path(a: &str, b: &str) -> (r: bool)
    ensures
        r == is_same_path(a@, b@),
{
    if starts_at_root(a) != starts_at_root(b) {
        return false;
    }
    let x = components_of(a);
    let y = components_of(b);
    if x.len() != y.len() {
        assert(text::views(x@).len() != text::views(y@).len());
        return false;
    }
    let mut i: usize = 0;
    while i < x.len()
        invariant
            x.len() == y.len(),
            i <= x.len(),
            text::views(x@) == components(a@),
            text::views(y@) == components(b@),
            forall|j: int| 0 <= j < i ==> (#[trigger] x@[j])@ == y@[j]@,
        decreases x.len() - i,
    {
        if !text::same(&x[i], &y[i]) {
            assert(text::views(x@)[i as int] != text::views(y@)[i as int]);
            return false;
        }
        i += 1;
    }
    assert(text::views(x@) =~= text::views(y@));
    true
}

} // verus!
