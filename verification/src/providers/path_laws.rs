//! What joining, parents and components promise of paths that are put
//! together from parts.
use crate::providers::paths;
use crate::text;
use crate::text_laws;
use vstd::prelude::*;
use vstd::string::*;

verus! {

/// Whether a text can be the name of a file or directory: it is not empty,
/// holds no slash, and is not the dot that stands for the directory itself.
pub open spec fn is_name(n: Seq<char>) -> bool {
    n.len() > 0 && !n.contains('/') && n != seq!['.']
}

/// Whether a path has nothing at its end that adds nothing: no slash and no
/// dot behind a slash.
pub open spec fn ends_in_name(p: Seq<char>) -> bool {
    &&& p.len() > 0
    &&& p[p.len() - 1] != '/'
    &&& !(p.len() > 1 && p[p.len() - 1] == '.' && p[p.len() - 2] == '/')
}

/// A name goes behind the directory and a slash, and behind a slash that is
/// there without another. A path from the root stays as it is, and without a
/// directory the name stands alone.
pub proof fn law_joined(dir: Seq<char>, name: Seq<char>, rest: Seq<char>)
    requires
        name.len() == 0 || name[0] != '/',
    ensures
        dir.len() > 0 && dir[dir.len() - 1] != '/' ==> paths::joined(dir, name) == dir + seq!['/']
            + name,
        paths::joined(dir + seq!['/'], name) == dir + seq!['/'] + name,
        paths::joined(Seq::empty(), name) == name,
        paths::joined(dir, seq!['/'] + rest) == seq!['/'] + rest,
{
    assert((dir + seq!['/']).last() == '/');
    assert(Seq::<char>::empty() + name =~= name);
    assert((seq!['/'] + rest)[0] == '/');
}

proof fn lemma_after_slash(p: Seq<char>, n: int, k: int)
    requires
        0 <= k <= n <= p.len(),
        k > 0 ==> p[k - 1] == '/',
        forall|i: int| k <= i < n ==> p[i] != '/',
    ensures
        paths::after_slash(p, n) == k,
    decreases n - k,
{
    if k < n {
        lemma_after_slash(p, n - 1, k);
    }
}

/// What follows the last slash of a path.
pub proof fn law_last_part(front: Seq<char>, name: Seq<char>)
    requires
        !name.contains('/'),
    ensures
        ({
            let p = front + seq!['/'] + name;
            p.skip(paths::after_slash(p, p.len() as int)) == name
        }),
        name.skip(paths::after_slash(name, name.len() as int)) == name,
{
    let p = front + seq!['/'] + name;
    let k = front.len() as int + 1;
    assert(p[k - 1] == '/');
    assert forall|i: int| k <= i < p.len() implies p[i] != '/' by {
        assert(name.contains(name[i - k]));
    }
    lemma_after_slash(p, p.len() as int, k);
    assert(p.skip(k) =~= name);
    assert forall|i: int| 0 <= i < name.len() implies name[i] != '/' by {
        assert(name.contains(name[i]));
    }
    lemma_after_slash(name, name.len() as int, 0);
    assert(name.skip(0) =~= name);
}

/// A slash, or a slash and a dot, at the end of a path adds nothing to it.
pub proof fn law_bare_tail(p: Seq<char>)
    ensures
        paths::bare_tail(p + seq!['/']) == paths::bare_tail(p),
        paths::bare_tail(p + seq!['/', '.']) == paths::bare_tail(p),
        ends_in_name(p) ==> paths::bare_tail(p) == p,
        paths::bare_tail(Seq::empty()) == Seq::<char>::empty(),
{
    let a = p + seq!['/'];
    assert(a.last() == '/');
    assert(a.drop_last() =~= p);
    let b = p + seq!['/', '.'];
    assert(b.last() == '.');
    assert(b[b.len() - 2] == '/');
    assert(b.take(b.len() - 2) =~= p);
}

proof fn lemma_name_end(p: Seq<char>, name: Seq<char>)
    requires
        is_name(name),
        p.len() == 0 || p[p.len() - 1] == '/',
    ensures
        paths::bare_tail(p + name) == p + name,
        paths::after_slash(p + name, (p + name).len() as int) == p.len(),
{
    let t = p + name;
    let n = name.len() as int;
    assert(t[t.len() - 1] == name[n - 1]);
    assert(name.contains(name[n - 1]));
    if t.len() > 1 && t.last() == '.' && t[t.len() - 2] == '/' {
        if n > 1 {
            assert(t[t.len() - 2] == name[n - 2]);
            assert(name.contains(name[n - 2]));
        } else {
            assert(name =~= seq!['.']);
        }
    }
    if p.len() > 0 {
        assert(t[p.len() - 1] == '/');
    }
    assert forall|i: int| p.len() <= i < t.len() implies t[i] != '/' by {
        assert(name.contains(name[i - p.len()]));
    }
    lemma_after_slash(t, t.len() as int, p.len() as int);
}

/// The parent of a name in a directory is the directory; of a name at the
/// root, the root; of a name alone, the empty path. Slashes behind the name
/// make no difference. The root and the empty path have no parent.
pub proof fn law_parent(dir: Seq<char>, name: Seq<char>)
    requires
        is_name(name),
    ensures
        ends_in_name(dir) ==> paths::parent(dir + seq!['/'] + name) == Some(dir),
        paths::parent(seq!['/'] + name) == Some(seq!['/']),
        paths::parent(name) == Some(Seq::<char>::empty()),
        ends_in_name(dir) ==> paths::parent(dir + seq!['/'] + name + seq!['/']) == Some(dir),
        paths::parent(seq!['/']) is None,
        paths::parent(Seq::empty()) is None,
{
    let s = dir + seq!['/'];
    let t = s + name;
    assert(s[s.len() - 1] == '/');
    lemma_name_end(s, name);
    assert(t.take(s.len() as int) =~= s);
    law_bare_tail(dir);
    law_bare_tail(t);
    let r = seq!['/'];
    lemma_name_end(r, name);
    assert((r + name).take(1) =~= r);
    assert(r.last() == '/');
    assert(r.drop_last() =~= Seq::empty());
    let e = Seq::<char>::empty();
    assert(paths::bare_tail(e) =~= e);
    assert(paths::bare_tail(r) == e);
    lemma_name_end(e, name);
    assert(e + name =~= name);
}

/// The directories above one: none up is itself, and one more up is the
/// parent of those so far.
pub proof fn law_ancestors(dir: Seq<char>, name: Seq<char>, k: int)
    requires
        is_name(name),
        ends_in_name(dir),
        k >= 0,
    ensures
        paths::ancestor(dir, 0) == Some(dir),
        paths::ancestor(dir + seq!['/'] + name, k + 1) == paths::ancestor(dir, k),
    decreases k,
{
    law_parent(dir, name);
    let p = dir + seq!['/'] + name;
    if k == 0 {
        assert(paths::ancestor(p, 0) == Some(p));
    } else {
        law_ancestors(dir, name, k - 1);
    }
}

// ---------------------------------------------------------------------------
// Components
// ---------------------------------------------------------------------------
proof fn lemma_kept(a: Seq<Seq<char>>, p: Seq<char>)
    requires
        a.len() > 0,
    ensures
        paths::kept_parts(a.push(p)) == (if p.len() > 0 && p != seq!['.'] {
            paths::kept_parts(a).push(p)
        } else {
            paths::kept_parts(a)
        }),
{
    reveal_strlit(".");
    assert("."@ =~= seq!['.']);
    assert(a.push(p).drop_last() =~= a);
}

/// A name behind a slash is one component more. A slash alone, doubled or at
/// the end, and a dot behind a slash are none. A name alone is one component.
pub proof fn law_components(p: Seq<char>, name: Seq<char>)
    requires
        is_name(name),
    ensures
        paths::components(p + seq!['/'] + name) == paths::components(p).push(name),
        paths::components(p + seq!['/']) == paths::components(p),
        paths::components(p + seq!['/'] + seq!['.']) == paths::components(p),
        paths::components(name) == seq![name],
        paths::components(Seq::empty()) == Seq::<Seq<char>>::empty(),
{
    let e = Seq::<char>::empty();
    let d = seq!['.'];
    assert(!e.contains('/'));
    assert(!d.contains('/'));
    text_laws::law_split_parted(p, '/', name);
    text_laws::law_split_parted(p, '/', e);
    text_laws::law_split_parted(p, '/', d);
    text_laws::law_split(name, '/', e);
    text_laws::law_split(e, '/', e);
    text_laws::law_split(d, '/', e);
    let a = text::split(p, '/');
    assert(p + seq!['/'] + e =~= p + seq!['/']);
    assert(a + seq![name] =~= a.push(name));
    assert(a + seq![e] =~= a.push(e));
    assert(a + seq![d] =~= a.push(d));
    lemma_kept(a, name);
    lemma_kept(a, e);
    lemma_kept(a, d);
    assert(seq![name].drop_last() =~= Seq::empty());
    assert(paths::kept_parts(seq![name].drop_last()) =~= Seq::empty());
    assert(paths::kept_parts(seq![name]) =~= seq![name]);
    assert(seq![e].drop_last() =~= Seq::empty());
    assert(paths::kept_parts(seq![e].drop_last()) =~= Seq::empty());
    assert(paths::kept_parts(seq![e]) =~= Seq::empty());
}

/// Two paths are the same exactly if both or neither begin at the root and
/// they have the same components. So a slash at the end makes no difference,
/// and a different last name does.
pub proof fn law_same_path(p: Seq<char>, a: Seq<char>, b: Seq<char>)
    requires
        is_name(a),
        is_name(b),
        p.len() > 0,
    ensures
        paths::is_same_path(p, p),
        paths::is_same_path(p + seq!['/'], p),
        paths::is_same_path(p + seq!['/'] + a, p + seq!['/'] + b) <==> a == b,
        p[0] != '/' ==> !paths::is_same_path(seq!['/'] + p, p),
{
    law_components(p, a);
    law_components(p, b);
    assert((p + seq!['/'])[0] == p[0]);
    assert((p + seq!['/'] + a)[0] == p[0]);
    assert((p + seq!['/'] + b)[0] == p[0]);
    assert((seq!['/'] + p)[0] == '/');
    let c = paths::components(p);
    if c.push(a) == c.push(b) {
        assert(c.push(a).last() == c.push(b).last());
    }
}

/// A path lies below another exactly if that one's components begin it and
/// both or neither begin at the root; and everything lies below the empty
/// path.
pub proof fn law_under(p: Seq<char>, a: Seq<char>)
    requires
        is_name(a),
        p.len() > 0,
    ensures
        paths::is_under(p, p),
        paths::is_under(p + seq!['/'] + a, p),
        !paths::is_under(p, p + seq!['/'] + a),
        paths::is_under(p, Seq::empty()),
        paths::depth(p + seq!['/'] + a) == paths::depth(p) + 1,
        paths::depth(seq!['/']) == 1,
{
    law_components(p, a);
    let c = paths::components(p);
    assert((p + seq!['/'] + a)[0] == p[0]);
    assert(c.is_prefix_of(c)) by {
        assert(c =~= c.subrange(0, c.len() as int));
    }
    assert(c.is_prefix_of(c.push(a))) by {
        assert(c =~= c.push(a).subrange(0, c.len() as int));
    }
    let none = Seq::<Seq<char>>::empty();
    assert(none.is_prefix_of(c)) by {
        assert(none =~= c.subrange(0, 0));
    }
    let e = Seq::<char>::empty();
    law_components(e, a);
    assert(e + seq!['/'] =~= seq!['/']);
}

/// Whether the answers of a probe are those of this predicate.
pub open spec fn answers_by<F: Fn(&str) -> bool>(probe: F, there: spec_fn(Seq<char>) -> bool) -> bool {
    forall|q: &str, b: bool| #[trigger] call_ensures(probe, (q,), b) ==> b == there(q@)
}

/// A probe that answers by a predicate says of no path what is not so.
pub proof fn law_answers<F: Fn(&str) -> bool>(
    probe: F,
    there: spec_fn(Seq<char>) -> bool,
    path: Seq<char>,
    b: bool,
)
    requires
        answers_by(probe, there),
        paths::answered(probe, path, b),
    ensures
        b == there(path),
{
    let q = choose|q: &str| q@ == path && #[trigger] call_ensures(probe, (q,), b);
}

/// What an upward search finds exists; in the start and the directories above
/// it, thirty-two in all, no name exists in a nearer directory, nor an earlier
/// name in the same one. A search that finds nothing has seen that none of the
/// names exists in any of them.
pub proof fn law_upward<F: Fn(&str) -> bool>(
    probe: F,
    there: spec_fn(Seq<char>) -> bool,
    start: Seq<char>,
    names: Seq<Seq<char>>,
    r: Option<Seq<char>>,
)
    requires
        answers_by(probe, there),
        paths::upward_result(probe, start, names, r),
    ensures
        r matches Some(p) ==> there(p) && exists|k: int, j: int|
            0 <= k < 32 && 0 <= j < names.len() && paths::ancestor(start, k) is Some && p
                == #[trigger] paths::candidate(start, names, k, j) && (forall|i: int, l: int|
                0 <= i <= k && 0 <= l < names.len() && (i < k || l < j) ==> !there(
                    #[trigger] paths::candidate(start, names, i, l),
                )),
        r is None ==> forall|k: int, j: int|
            0 <= k < 32 && 0 <= j < names.len() && paths::ancestor(start, k) is Some ==> !there(
                #[trigger] paths::candidate(start, names, k, j),
            ),
{
    match r {
        Some(p) => {
            let (k, j) = choose|k: int, j: int|
                0 <= k < paths::MAX_ANCESTOR_WALK && 0 <= j < names.len() && paths::ancestor(
                    start,
                    k,
                ) is Some && p == #[trigger] paths::candidate(start, names, k, j)
                    && paths::answered(probe, p, true) && paths::absent_at(
                    probe,
                    start,
                    names,
                    k,
                    j,
                ) && forall|i: int|
                    0 <= i < k ==> #[trigger] paths::absent_at(
                        probe,
                        start,
                        names,
                        i,
                        names.len() as int,
                    );
            law_answers(probe, there, p, true);
            assert forall|i: int, l: int|
                0 <= i <= k && 0 <= l < names.len() && (i < k || l < j) implies !there(
                #[trigger] paths::candidate(start, names, i, l),
            ) by {
                let c = paths::candidate(start, names, i, l);
                if i < k {
                    assert(paths::absent_at(probe, start, names, i, names.len() as int));
                }
                assert(paths::answered(probe, c, false));
                law_answers(probe, there, c, false);
            }
        },
        None => {
            assert forall|k: int, j: int|
                0 <= k < 32 && 0 <= j < names.len() && paths::ancestor(start, k) is Some implies !there(
                #[trigger] paths::candidate(start, names, k, j),
            ) by {
                let c = paths::candidate(start, names, k, j);
                assert(paths::absent_at(probe, start, names, k, names.len() as int));
                assert(paths::answered(probe, c, false));
                law_answers(probe, there, c, false);
            }
        },
    }
}

} // verus!
