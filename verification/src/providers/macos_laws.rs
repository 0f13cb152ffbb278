//! Which accounts, applications and preference keys a listing names.
use crate::providers::dscl_principals;
use crate::providers::dscl_principals::ChownTokenView;
use crate::providers::listing;
use crate::providers::macos_apps;
use crate::providers::macos_defaults;
use crate::providers::macos_defaults::PlistState;
use crate::providers::path_laws;
use crate::text;
use crate::text_laws;
use crate::text_map;
use crate::text_parts;
use crate::text_parts_laws;
use crate::types;
use vstd::prelude::*;
use vstd::string::*;

verus! {

// ---------------------------------------------------------------------------
// Accounts
// ---------------------------------------------------------------------------
/// A line names the account that stands on it. One that begins with an
/// underscore is named only where system accounts are asked for.
pub proof fn law_principal_line(
    front: Seq<char>,
    t: Seq<char>,
    back: Seq<char>,
    include_system: bool,
)
    requires
        text::is_blank(front),
        text::is_blank(back),
        text_laws::tight(t),
    ensures
        dscl_principals::principal(front + t + back, true) == Some(t),
        t[0] != '_' ==> dscl_principals::principal(front + t + back, include_system) == Some(t),
        t[0] == '_' ==> dscl_principals::principal(front + t + back, false) is None,
        dscl_principals::principal(front, include_system) is None,
{
    text_laws::law_trim(front, t, back);
    text_laws::law_trim_blank(front);
}

/// Lines are read one by one, in order.
pub proof fn law_principal_lines(l: Seq<char>, rest: Seq<char>, include_system: bool)
    requires
        !l.contains('\n'),
    ensures
        dscl_principals::principals(l + seq!['\n'] + rest, include_system) == (
        match dscl_principals::principal(text_laws::unreturned(l), include_system) {
            Some(n) => seq![n],
            None => Seq::empty(),
        }) + dscl_principals::principals(rest, include_system),
{
    let f = |x: Seq<char>| dscl_principals::principal(x, include_system);
    let u = text_laws::unreturned(l);
    text_laws::law_line_ends(l, rest);
    listing::law_picked_apart(seq![u], text::lines(rest), u, f);
}

/// System accounts are asked for by `1` or `true`, in capitals or not, and by
/// nothing else.
pub proof fn law_wants_system(params: Seq<(Seq<char>, Seq<char>)>, v: Seq<char>)
    ensures
        text_map::value_of(params, "include_system"@) == Some(v) ==> (dscl_principals::wants_system(
            params,
        ) <==> v == seq!['1'] || text_parts::same_folded(v, seq!['t', 'r', 'u', 'e'])),
        text_map::value_of(params, "include_system"@) is None ==> !dscl_principals::wants_system(
            params,
        ),
{
    reveal_strlit("1");
    reveal_strlit("true");
    assert("1"@ =~= seq!['1']);
    assert("true"@ =~= seq!['t', 'r', 'u', 'e']);
}

/// An owner argument without a colon is the beginning of a user. Behind a
/// first colon stands the beginning of a group, and before it, if anything,
/// the owner. Further colons belong to the group.
pub proof fn law_chown_token(owner: Seq<char>, group: Seq<char>)
    requires
        !owner.contains(':'),
    ensures
        dscl_principals::chown_token(owner) == (ChownTokenView::OwnerOnly { prefix: owner }),
        dscl_principals::chown_token(seq![':'] + group) == (ChownTokenView::GroupOnly {
            prefix: group,
        }),
        owner.len() > 0 ==> dscl_principals::chown_token(owner + seq![':'] + group) == (
        ChownTokenView::OwnerGroup { owner, group_prefix: group }),
{
    text_laws::law_split(owner, ':', group);
    let e = Seq::<char>::empty();
    assert(!e.contains(':'));
    text_laws::law_split(e, ':', group);
    assert(e + seq![':'] + group =~= seq![':'] + group);
}

/// Every user, or every group, that continues what is typed is suggested, in
/// order; the others are not.
pub proof fn law_chown_shown(
    owner: Seq<char>,
    typed: Seq<char>,
    a: Seq<Seq<char>>,
    more: Seq<char>,
    b: Seq<Seq<char>>,
    others: Seq<Seq<char>>,
)
    requires
        !owner.contains(':'),
        owner.len() > 0,
        !typed.contains(':'),
    ensures
        dscl_principals::chown_shown(typed, a + seq![typed + more] + b, others)
            == dscl_principals::chown_shown(typed, a, others) + seq![
            types::provided(typed + more, Some("user"@)),
        ] + dscl_principals::chown_shown(typed, b, others),
        dscl_principals::chown_shown(seq![':'] + typed, others, a + seq![typed + more] + b)
            == dscl_principals::chown_shown(seq![':'] + typed, others, a) + seq![
            types::provided(seq![':'] + (typed + more), Some("group"@)),
        ] + dscl_principals::chown_shown(seq![':'] + typed, others, b),
        dscl_principals::chown_shown(
            owner + seq![':'] + typed,
            others,
            a + seq![typed + more] + b,
        ) == dscl_principals::chown_shown(owner + seq![':'] + typed, others, a) + seq![
            types::provided(
                owner + seq![':'] + (typed + more),
                Some("user "@ + owner + ", group "@ + (typed + more)),
            ),
        ] + dscl_principals::chown_shown(owner + seq![':'] + typed, others, b),
{
    let n = typed + more;
    assert(typed.is_prefix_of(n)) by {
        assert(n.subrange(0, typed.len() as int) =~= typed);
    }
    reveal_strlit(":");
    assert(":"@ =~= seq![':']);
    law_chown_token(owner, typed);
    law_chown_token(typed, typed);
    let f = |u: Seq<char>| dscl_principals::as_owner(u, typed);
    let g = |u: Seq<char>| dscl_principals::as_group(u, typed);
    let h = |u: Seq<char>| dscl_principals::as_owner_group(u, owner, typed);
    listing::law_picked_apart(a, seq![n], n, f);
    listing::law_picked_apart(a + seq![n], b, n, f);
    listing::law_picked_apart(a, seq![n], n, g);
    listing::law_picked_apart(a + seq![n], b, n, g);
    listing::law_picked_apart(a, seq![n], n, h);
    listing::law_picked_apart(a + seq![n], b, n, h);
}

/// A name that does not continue what is typed is suggested in no place.
pub proof fn law_chown_refused(name: Seq<char>, typed: Seq<char>, owner: Seq<char>)
    requires
        !(exists|more: Seq<char>| name == #[trigger] (typed + more)),
    ensures
        dscl_principals::as_owner(name, typed) is None,
        dscl_principals::as_group(name, typed) is None,
        dscl_principals::as_owner_group(name, owner, typed) is None,
{
    if typed.is_prefix_of(name) {
        let more = name.skip(typed.len() as int);
        assert(name =~= typed + more) by {
            assert forall|i: int| 0 <= i < typed.len() implies name[i] == typed[i] by {
                assert(typed[i] == name.subrange(0, typed.len() as int)[i]);
            }
        }
    }
}

// ---------------------------------------------------------------------------
// Applications
// ---------------------------------------------------------------------------
/// The ending of an application.
pub open spec fn app_ending() -> Seq<char> {
    seq!['.', 'a', 'p', 'p']
}

/// A line that ends in `.app` names an application; its name is what stands
/// between the last slash and the ending. A line with another ending names
/// none.
pub proof fn law_application(front: Seq<char>, dir: Seq<char>, name: Seq<char>, back: Seq<char>)
    requires
        text::is_blank(front),
        text::is_blank(back),
        dir.len() > 0,
        !text::is_white(dir[0]),
        name.len() > 0,
        !name.contains('/'),
    ensures
        ({
            let path = dir + seq!['/'] + (name + app_ending());
            &&& macos_apps::app_path(front + path + back) == Some(path)
            &&& macos_apps::app_name(path) == name
        }),
{
    reveal_strlit(".app");
    let e = app_ending();
    assert(".app"@ =~= e);
    let file = name + e;
    let path = dir + seq!['/'] + file;
    let n = path.len() as int;
    assert(path[0] == dir[0]);
    assert(path[n - 1] == 'p');
    text_laws::law_white('p');
    text_laws::law_trim(front, path, back);
    assert(path.subrange(n - 4, n) =~= e);
    assert(e.is_suffix_of(path));
    assert(!file.contains('/')) by {
        if file.contains('/') {
            let k = choose|k: int| 0 <= k < file.len() && file[k] == '/';
            if k < name.len() {
                assert(name[k] == '/');
            } else {
                assert(e[k - name.len()] == '/');
            }
        }
    }
    path_laws::law_last_part(dir, file);
    assert(file.take(file.len() - 4) =~= name);
}

/// A line without the ending names no application.
pub proof fn law_no_application(front: Seq<char>, t: Seq<char>, back: Seq<char>)
    requires
        text::is_blank(front),
        text::is_blank(back),
        text_laws::tight(t),
        !(exists|s: Seq<char>| t == #[trigger] (s + app_ending())),
    ensures
        macos_apps::app_path(front + t + back) is None,
        macos_apps::app_path(front) is None,
{
    reveal_strlit(".app");
    let e = app_ending();
    assert(".app"@ =~= e);
    text_laws::law_trim(front, t, back);
    text_laws::law_trim_blank(front);
    if e.is_suffix_of(t) {
        let s = t.take(t.len() - 4);
        assert(t =~= s + e) by {
            assert forall|i: int| t.len() - 4 <= i < t.len() implies t[i] == (s + e)[i] by {
                assert(t[i] == e[i - (t.len() - 4)]);
            }
        }
    }
}

/// Lines are read one by one, in order.
pub proof fn law_application_lines(l: Seq<char>, rest: Seq<char>)
    requires
        !l.contains('\n'),
    ensures
        macos_apps::app_paths(l + seq!['\n'] + rest) == (match macos_apps::app_path(
            text_laws::unreturned(l),
        ) {
            Some(p) => seq![p],
            None => Seq::empty(),
        }) + macos_apps::app_paths(rest),
{
    let f = |x: Seq<char>| macos_apps::app_path(x);
    let u = text_laws::unreturned(l);
    text_laws::law_line_ends(l, rest);
    listing::law_picked_apart(seq![u], text::lines(rest), u, f);
}

/// The identifier on a line is what stands behind the first equal sign, or the
/// whole line, without white space and then quotes around it. `(null)` and
/// nothing are no identifier.
pub proof fn law_identifier_line(key: Seq<char>, id: Seq<char>)
    requires
        !key.contains('='),
        !id.contains('='),
        text_laws::tight(id),
        id[0] != '"',
        id[id.len() - 1] != '"',
        id != "(null)"@,
    ensures
        macos_apps::line_id(key + seq!['='] + (seq![' ', '"'] + id + seq!['"'])) == Some(id),
        macos_apps::line_id(key + seq!['='] + (seq![' '] + id)) == Some(id),
        macos_apps::line_id(id) == Some(id),
        macos_apps::line_id(key + seq!['='] + (seq![' '] + "(null)"@)) is None,
        macos_apps::line_id("(null)"@) is None,
{
    let e = Seq::<char>::empty();
    let q = seq!['"'];
    let b = seq![' '];
    text_laws::law_white('"');
    text_laws::law_white(' ');
    assert(text::is_blank(b));
    assert(text::is_blank(e));
    assert(text_parts_laws::made_of(q, '"', '"'));
    assert(text_parts_laws::made_of(e, '"', '"'));
    let quoted = q + id + q;
    assert(quoted[0] == '"');
    assert(quoted[quoted.len() - 1] == '"');
    text_laws::law_split(key, '=', seq![' ', '"'] + id + seq!['"']);
    text_laws::law_trim(b, quoted, e);
    assert(b + quoted + e =~= seq![' ', '"'] + id + seq!['"']);
    text_parts_laws::law_without_ends(q, id, q, '"', '"');
    text_laws::law_split(key, '=', seq![' '] + id);
    text_laws::law_trim(b, id, e);
    assert(b + id + e =~= seq![' '] + id);
    text_parts_laws::law_without_ends(e, id, e, '"', '"');
    assert(e + id + e =~= id);
    text_laws::law_split(id, '=', e);
    text_laws::law_trim_tight(id);
    reveal_strlit("(null)");
    let n = "(null)"@;
    text_laws::law_white('(');
    text_laws::law_white(')');
    assert(!n.contains('=')) by {
        if n.contains('=') {
            let k = choose|k: int| 0 <= k < n.len() && n[k] == '=';
        }
    }
    text_laws::law_split(key, '=', seq![' '] + n);
    text_laws::law_trim(b, n, e);
    assert(b + n + e =~= seq![' '] + n);
    text_parts_laws::law_without_ends(e, n, e, '"', '"');
    assert(e + n + e =~= n);
    text_laws::law_split(n, '=', e);
    text_laws::law_trim_tight(n);
}

/// The identifiers of an output are those that its lines give, every one of
/// them once.
pub proof fn law_identifiers(lines: Seq<Seq<char>>, id: Seq<char>)
    ensures
        macos_apps::ids_of_lines(lines).contains(id) <==> exists|i: int|
            0 <= i < lines.len() && macos_apps::line_id(#[trigger] lines[i]) == Some(id),
        macos_apps::ids_of_lines(lines).no_duplicates(),
    decreases lines.len(),
{
    if lines.len() > 0 {
        let d = lines.drop_last();
        law_identifiers(d, id);
        let w = macos_apps::ids_of_lines(d);
        let all = macos_apps::ids_of_lines(lines);
        if let Some(x) = macos_apps::line_id(lines.last()) {
            law_identifiers(d, x);
            assert(lines[lines.len() - 1] == lines.last());
            if !w.contains(x) {
                assert(w.push(x).contains(id) <==> w.contains(id) || id == x) by {
                    if w.contains(id) {
                        let k = choose|k: int| 0 <= k < w.len() && w[k] == id;
                        assert(w.push(x)[k] == id);
                    }
                    if id == x {
                        assert(w.push(x)[w.len() as int] == id);
                    }
                }
            }
        }
        if exists|i: int| 0 <= i < d.len() && macos_apps::line_id(#[trigger] d[i]) == Some(id) {
            let i = choose|i: int|
                0 <= i < d.len() && macos_apps::line_id(#[trigger] d[i]) == Some(id);
            assert(lines[i] == d[i]);
        }
        if exists|i: int|
            0 <= i < lines.len() && macos_apps::line_id(#[trigger] lines[i]) == Some(id) {
            let i = choose|i: int|
                0 <= i < lines.len() && macos_apps::line_id(#[trigger] lines[i]) == Some(id);
            if i < d.len() {
                assert(d[i] == lines[i]);
            }
        }
    }
}

proof fn lemma_found(
    pairs: Seq<(Seq<char>, Seq<char>)>,
    found: Seq<Seq<char>>,
    path: Seq<char>,
    id: Seq<char>,
)
    ensures
        listing::firsts(macos_apps::with_found(pairs, found, path)).contains(id)
            <==> listing::firsts(pairs).contains(id) || found.contains(id),
    decreases found.len(),
{
    if found.len() > 0 {
        let d = found.drop_last();
        let x = found.last();
        lemma_found(pairs, d, path, id);
        lemma_found(pairs, d, path, x);
        let before = macos_apps::with_found(pairs, d, path);
        assert(found.contains(id) <==> d.contains(id) || id == x) by {
            if d.contains(id) {
                let k = choose|k: int| 0 <= k < d.len() && d[k] == id;
                assert(found[k] == id);
            }
            if id == x {
                assert(found[found.len() - 1] == id);
            }
            if found.contains(id) {
                let k = choose|k: int| 0 <= k < found.len() && found[k] == id;
                if k < d.len() {
                    assert(d[k] == id);
                }
            }
        }
        let fb = listing::firsts(before);
        if !fb.contains(x) {
            assert(listing::firsts(before.push((x, path))) =~= fb.push(x));
            assert(fb.push(x).contains(id) <==> fb.contains(id) || id == x) by {
                if fb.contains(id) {
                    let k = choose|k: int| 0 <= k < fb.len() && fb[k] == id;
                    assert(fb.push(x)[k] == id);
                }
                if id == x {
                    assert(fb.push(x)[fb.len() as int] == id);
                }
            }
        }
    }
}

/// Every identifier of every path that has an output is suggested, and no
/// other.
pub proof fn law_every_identifier(
    found: Seq<Seq<char>>,
    outputs: Seq<Option<Seq<char>>>,
    n: int,
    id: Seq<char>,
)
    requires
        0 <= n <= found.len(),
        n <= outputs.len(),
    ensures
        listing::firsts(macos_apps::assembled_upto(found, outputs, n)).contains(id) <==> exists|
            i: int,
        |
            0 <= i < n && (#[trigger] outputs[i] matches Some(o) && macos_apps::bundle_ids(
                o,
            ).contains(id)),
    decreases n,
{
    if n > 0 {
        law_every_identifier(found, outputs, n - 1, id);
        let before = macos_apps::assembled_upto(found, outputs, n - 1);
        if let Some(o) = outputs[n - 1] {
            lemma_found(before, macos_apps::bundle_ids(o), found[n - 1], id);
        }
    }
}

/// All paths count as far as there are outputs for them.
pub proof fn law_all_paths_count(found: Seq<Seq<char>>, outputs: Seq<Option<Seq<char>>>, id: Seq<char>)
    requires
        found.len() == outputs.len(),
    ensures
        listing::firsts(macos_apps::assembled(found, outputs)).contains(id) <==> exists|i: int|
            0 <= i < outputs.len() && (#[trigger] outputs[i] matches Some(o)
                && macos_apps::bundle_ids(o).contains(id)),
{
    law_every_identifier(found, outputs, found.len() as int, id);
}

/// An identifier is told apart by the path whose output gave it.
pub proof fn law_identifier_path(path: Seq<char>, output: Seq<char>, id: Seq<char>)
    requires
        macos_apps::bundle_ids(output).contains(id),
    ensures
        macos_apps::assembled(seq![path], seq![Some(output)]).contains((id, path)),
{
    let pairs = macos_apps::assembled(seq![path], seq![Some(output)]);
    assert(macos_apps::assembled_upto(seq![path], seq![Some(output)], 0) =~= Seq::empty());
    let e = Seq::<(Seq<char>, Seq<char>)>::empty();
    let ids = macos_apps::bundle_ids(output);
    assert(pairs == macos_apps::with_found(e, ids, path));
    lemma_paths(e, ids, path);
    lemma_found(e, ids, path, id);
    let firsts = listing::firsts(pairs);
    assert(firsts.contains(id));
    let k = choose|k: int| 0 <= k < firsts.len() && firsts[k] == id;
    assert(pairs[k] == (id, path));
}

proof fn lemma_paths(pairs: Seq<(Seq<char>, Seq<char>)>, found: Seq<Seq<char>>, path: Seq<char>)
    requires
        pairs.len() == 0,
    ensures
        forall|k: int|
            0 <= k < macos_apps::with_found(pairs, found, path).len() ==> (
            #[trigger] macos_apps::with_found(pairs, found, path)[k]).1 == path,
    decreases found.len(),
{
    if found.len() > 0 {
        lemma_paths(pairs, found.drop_last(), path);
        let before = macos_apps::with_found(pairs, found.drop_last(), path);
        let all = macos_apps::with_found(pairs, found, path);
        assert forall|k: int| 0 <= k < all.len() implies (#[trigger] all[k]).1 == path by {
            if k < before.len() {
                assert(all[k] == before[k]);
            }
        }
    }
}

// ---------------------------------------------------------------------------
// Preferences
// ---------------------------------------------------------------------------
proof fn lemma_read_apart(st: PlistState, a: Seq<char>, b: Seq<char>)
    ensures
        macos_defaults::plist_read(st, a + b) == macos_defaults::plist_read(
            macos_defaults::plist_read(st, a),
            b,
        ),
    decreases b.len(),
{
    if b.len() == 0 {
        assert(a + b =~= a);
    } else {
        lemma_read_apart(st, a, b.drop_last());
        assert((a + b).drop_last() =~= a + b.drop_last());
        assert((a + b).last() == b.last());
    }
}

proof fn lemma_read_one(st: PlistState, c: char)
    ensures
        macos_defaults::plist_read(st, seq![c]) == macos_defaults::plist_step(st, c),
{
    assert(seq![c].drop_last() =~= Seq::empty());
    assert(macos_defaults::plist_read(st, seq![c].drop_last()) == st);
}

/// Whether a text can stand for a key or a plain value without quotes.
pub open spec fn unmarked(s: Seq<char>) -> bool {
    forall|i: int|
        0 <= i < s.len() ==> #[trigger] s[i] != '"' && s[i] != '{' && s[i] != '(' && s[i] != '}'
            && s[i] != ')' && s[i] != '=' && s[i] != ';'
}

proof fn lemma_read_key(st: PlistState, name: Seq<char>)
    requires
        st.depth == 1,
        !st.in_value,
        !st.in_quote,
        unmarked(name),
        text_laws::solid(name),
    ensures
        macos_defaults::plist_read(st, name) == (PlistState { key: st.key + name, ..st }),
    decreases name.len(),
{
    if name.len() == 0 {
        assert(st.key + name =~= st.key);
    } else {
        let d = name.drop_last();
        assert forall|i: int| 0 <= i < d.len() implies #[trigger] d[i] != '"' && d[i] != '{' && d[i]
            != '(' && d[i] != '}' && d[i] != ')' && d[i] != '=' && d[i] != ';' by {
            assert(d[i] == name[i]);
        }
        assert forall|i: int| 0 <= i < d.len() implies !text::is_white(#[trigger] d[i]) by {
            assert(d[i] == name[i]);
        }
        lemma_read_key(st, d);
        assert(name[name.len() - 1] == name.last());
        assert(!text::is_white(name[name.len() - 1]));
        assert((st.key + d).push(name.last()) =~= st.key + name);
    }
}

proof fn lemma_read_quoted_key(st: PlistState, name: Seq<char>)
    requires
        st.depth == 1,
        !st.in_value,
        st.in_quote,
        !name.contains('"'),
    ensures
        macos_defaults::plist_read(st, name) == (PlistState { key: st.key + name, ..st }),
    decreases name.len(),
{
    if name.len() == 0 {
        assert(st.key + name =~= st.key);
    } else {
        let d = name.drop_last();
        assert(!d.contains('"')) by {
            if d.contains('"') {
                let k = choose|k: int| 0 <= k < d.len() && d[k] == '"';
                assert(name[k] == '"');
            }
        }
        lemma_read_quoted_key(st, d);
        assert(name.contains(name.last())) by {
            assert(name[name.len() - 1] == name.last());
        }
        assert((st.key + d).push(name.last()) =~= st.key + name);
    }
}

proof fn lemma_read_blank(st: PlistState, s: Seq<char>)
    requires
        st.depth == 1,
        !st.in_quote,
        text::is_blank(s),
    ensures
        macos_defaults::plist_read(st, s) == st,
    decreases s.len(),
{
    if s.len() > 0 {
        let d = s.drop_last();
        assert forall|i: int| 0 <= i < d.len() implies text::is_white(#[trigger] d[i]) by {
            assert(d[i] == s[i]);
        }
        lemma_read_blank(st, d);
        assert(text::is_white(s[s.len() - 1]));
        lemma_marks_are_not_white(s[s.len() - 1]);
    }
}

proof fn lemma_marks_are_not_white(c: char)
    requires
        text::is_white(c),
    ensures
        c != '"' && c != '{' && c != '(' && c != '}' && c != ')' && c != '=' && c != ';',
{
    text_laws::law_white(c);
}

proof fn lemma_read_value(st: PlistState, s: Seq<char>)
    requires
        st.depth == 1,
        st.in_value,
        !st.in_quote,
        unmarked(s),
    ensures
        macos_defaults::plist_read(st, s) == st,
    decreases s.len(),
{
    if s.len() > 0 {
        let d = s.drop_last();
        assert forall|i: int| 0 <= i < d.len() implies #[trigger] d[i] != '"' && d[i] != '{' && d[i]
            != '(' && d[i] != '}' && d[i] != ')' && d[i] != '=' && d[i] != ';' by {
            assert(d[i] == s[i]);
        }
        lemma_read_value(st, d);
        assert(s[s.len() - 1] == s.last());
    }
}

/// Whether a reader stands between two entries of the outermost dictionary.
pub open spec fn between_entries(st: PlistState) -> bool {
    st.depth == 1 && !st.in_value && !st.in_quote && st.key.len() == 0
}

/// An entry of the outermost dictionary gives its key, with quotes or
/// without, whatever plain value it has, and the next entry is read in the
/// same way.
pub proof fn law_entry_gives_key(
    st: PlistState,
    indent: Seq<char>,
    name: Seq<char>,
    gap: Seq<char>,
    value: Seq<char>,
)
    requires
        between_entries(st),
        text::is_blank(indent),
        text::is_blank(gap),
        name.len() > 0,
        unmarked(value),
    ensures
        text_laws::solid(name) && unmarked(name) ==> macos_defaults::plist_read(
            st,
            indent + name + gap + seq!['='] + value + seq![';'],
        ) == (PlistState { keys: st.keys.push(name), ..st }),
        text_laws::tight(name) && !name.contains('"') ==> macos_defaults::plist_read(
            st,
            indent + seq!['"'] + name + seq!['"'] + gap + seq!['='] + value + seq![';'],
        ) == (PlistState { keys: st.keys.push(name), ..st }),
{
    let e = Seq::<char>::empty();
    assert(st.key =~= e);
    let named = PlistState { key: name, ..st };
    let valued = PlistState { keys: st.keys.push(name), in_value: true, ..st };
    let done = PlistState { keys: st.keys.push(name), ..st };
    lemma_read_blank(st, indent);
    lemma_read_one(named, '=');
    lemma_read_blank(named, gap);
    lemma_read_value(valued, value);
    lemma_read_one(valued, ';');
    if text_laws::solid(name) && unmarked(name) {
        assert(!text::is_white(name[0]) && !text::is_white(name[name.len() - 1]));
        text_laws::law_trim_tight(name);
        lemma_read_key(st, name);
        assert(e + name =~= name);
        lemma_read_apart(st, indent, name);
        lemma_read_apart(st, indent + name, gap);
        lemma_read_apart(st, indent + name + gap, seq!['=']);
        lemma_read_apart(st, indent + name + gap + seq!['='], value);
        lemma_read_apart(st, indent + name + gap + seq!['='] + value, seq![';']);
    }
    if text_laws::tight(name) && !name.contains('"') {
        text_laws::law_trim_tight(name);
        let open = PlistState { in_quote: true, ..st };
        lemma_read_one(st, '"');
        lemma_read_quoted_key(open, name);
        assert(e + name =~= name);
        let full = PlistState { key: name, ..open };
        lemma_read_one(full, '"');
        let q = seq!['"'];
        lemma_read_apart(st, indent, q);
        lemma_read_apart(st, indent + q, name);
        lemma_read_apart(st, indent + q + name, q);
        lemma_read_apart(st, indent + q + name + q, gap);
        lemma_read_apart(st, indent + q + name + q + gap, seq!['=']);
        lemma_read_apart(st, indent + q + name + q + gap + seq!['='], value);
        lemma_read_apart(st, indent + q + name + q + gap + seq!['='] + value, seq![';']);
    }
}

/// The opening brace leads to the first entry, and texts are read one after
/// another.
pub proof fn law_dictionary_opens(a: Seq<char>, b: Seq<char>)
    ensures
        between_entries(macos_defaults::plist_read(macos_defaults::plist_start(), seq!['{'])),
        macos_defaults::plist_read(macos_defaults::plist_start(), seq!['{']).keys.len() == 0,
        macos_defaults::defaults_keys(a + b) == macos_defaults::plist_read(
            macos_defaults::plist_read(macos_defaults::plist_start(), a),
            b,
        ).keys,
{
    lemma_read_one(macos_defaults::plist_start(), '{');
    lemma_read_apart(macos_defaults::plist_start(), a, b);
}

/// Nothing inside of a nested dictionary or list is a key of the outermost
/// one.
pub proof fn law_nested_values_have_no_keys(st: PlistState, s: Seq<char>)
    requires
        st.depth == 1,
        st.in_value,
        !st.in_quote,
        forall|i: int|
            0 <= i < s.len() ==> #[trigger] s[i] != '"' && s[i] != '{' && s[i] != '(' && s[i] != '}'
                && s[i] != ')',
    ensures
        macos_defaults::plist_read(st, seq!['{'] + s + seq!['}']).keys == st.keys,
        macos_defaults::plist_read(st, seq!['('] + s + seq![')']).keys == st.keys,
        macos_defaults::plist_read(st, seq!['{'] + s + seq!['}']).depth == 1,
        macos_defaults::plist_read(st, seq!['('] + s + seq![')']).depth == 1,
{
    let inner = PlistState { depth: 2, in_value: true, ..st };
    lemma_read_one(st, '{');
    lemma_read_one(st, '(');
    lemma_read_inner(inner, s);
    lemma_read_one(inner, '}');
    lemma_read_one(inner, ')');
    lemma_read_apart(st, seq!['{'], s);
    lemma_read_apart(st, seq!['{'] + s, seq!['}']);
    lemma_read_apart(st, seq!['('], s);
    lemma_read_apart(st, seq!['('] + s, seq![')']);
}

proof fn lemma_read_inner(st: PlistState, s: Seq<char>)
    requires
        st.depth == 2,
        st.in_value,
        !st.in_quote,
        forall|i: int|
            0 <= i < s.len() ==> #[trigger] s[i] != '"' && s[i] != '{' && s[i] != '(' && s[i] != '}'
                && s[i] != ')',
    ensures
        macos_defaults::plist_read(st, s) == st,
    decreases s.len(),
{
    if s.len() > 0 {
        let d = s.drop_last();
        assert forall|i: int| 0 <= i < d.len() implies #[trigger] d[i] != '"' && d[i] != '{' && d[i]
            != '(' && d[i] != '}' && d[i] != ')' by {
            assert(d[i] == s[i]);
        }
        lemma_read_inner(st, d);
        assert(s[s.len() - 1] == s.last());
    }
}

/// The flag for the global domain stands for it, the one for an application
/// for none, and every other word for the domain of that name.
pub proof fn law_domain(raw: Seq<char>)
    ensures
        macos_defaults::domain_of("-globalDomain"@) == Some("NSGlobalDomain"@),
        macos_defaults::domain_of("-app"@) is None,
        raw != "-globalDomain"@ && raw != "-app"@ ==> macos_defaults::domain_of(raw) == Some(raw),
{
    reveal_strlit("-globalDomain");
    reveal_strlit("-app");
    assert("-globalDomain"@.len() != "-app"@.len());
}

/// The domain that is asked for is read from the word before the cursor; with
/// none, none is asked for.
pub proof fn law_requested_domain(params: Seq<(Seq<char>, Seq<char>)>, raw: Seq<char>)
    ensures
        text_map::value_of(params, "prev_arg"@) == Some(raw)
            ==> macos_defaults::requested_domain(params) == macos_defaults::domain_of(raw),
        text_map::value_of(params, "prev_arg"@) is None ==> macos_defaults::requested_domain(
            params,
        ) is None,
{
}

/// A line with nothing behind its equal sign but blanks has no identifier.
pub proof fn law_empty_identifier(key: Seq<char>, blanks: Seq<char>)
    requires
        !key.contains('='),
        text::is_blank(blanks),
    ensures
        macos_apps::line_id(key + seq!['='] + blanks) is None,
{
    text_laws::law_split(key, '=', blanks);
    text_laws::law_trim_blank(blanks);
    let e = Seq::<char>::empty();
    assert(text::trimmed(blanks) =~= e);
    assert(text_parts::without_ends(e, '"', '"').len() == 0);
}

} // verus!
