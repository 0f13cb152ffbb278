//! Which units a listing of systemd names, and how they are shown.
use crate::providers::listing;
use crate::providers::systemd_units;
use crate::providers::systemd_units::{JsonUnitView, SystemdFilter, UnitView};
use crate::sorting;
use crate::text;
use crate::text_laws;
use crate::text_parts;
use crate::text_parts_laws;
use crate::types;
use crate::types::Suggestion;
use vstd::prelude::*;
use vstd::string::*;

verus! {

// ---------------------------------------------------------------------------
// JSON listings
// ---------------------------------------------------------------------------
/// A row is about the unit that it names, whatever else it holds. One without
/// a name, or with a blank one, is about none.
pub proof fn law_json_row(front: Seq<char>, name: Seq<char>, back: Seq<char>, row: JsonUnitView)
    requires
        text::is_blank(front),
        text::is_blank(back),
        text_laws::tight(name),
    ensures
        row.unit == Some(front + name + back) ==> (systemd_units::json_unit(row) matches Some(u)
            && u.unit == name),
        row.unit == Some(front) ==> systemd_units::json_unit(row) is None,
        row.unit is None ==> systemd_units::json_unit(row) is None,
{
    text_laws::law_trim(front, name, back);
    text_laws::law_trim_blank(front);
}

/// The state and the description of a row are taken without white space
/// around them. A state that is not told is unknown; a description that is
/// not told is none.
pub proof fn law_json_fields(front: Seq<char>, t: Seq<char>, back: Seq<char>, row: JsonUnitView)
    requires
        text::is_blank(front),
        text::is_blank(back),
        text_laws::tight(t),
    ensures
        systemd_units::json_unit(row) matches Some(u) ==> row.active == Some(front + t + back)
            ==> u.active == t,
        systemd_units::json_unit(row) matches Some(u) ==> row.active == Some(front) || row.active
            is None ==> u.active == "unknown"@,
        systemd_units::json_unit(row) matches Some(u) ==> row.description == Some(front + t + back)
            ==> u.description == Some(t),
        systemd_units::json_unit(row) matches Some(u) ==> row.description == Some(front)
            || row.description is None ==> u.description is None,
{
    text_laws::law_trim(front, t, back);
    text_laws::law_trim_blank(front);
}

/// Rows are read one by one, in order.
pub proof fn law_json_rows(a: Seq<JsonUnitView>, row: JsonUnitView, b: Seq<JsonUnitView>)
    ensures
        systemd_units::json_units(a + seq![row] + b) == systemd_units::json_units(a) + (
        match systemd_units::json_unit(row) {
            Some(u) => seq![u],
            None => Seq::empty(),
        }) + systemd_units::json_units(b),
{
    let f = |r: JsonUnitView| systemd_units::json_unit(r);
    listing::law_picked_apart(a, seq![row], row, f);
    listing::law_picked_apart(a + seq![row], b, row, f);
}

// ---------------------------------------------------------------------------
// Plain listings
// ---------------------------------------------------------------------------
/// A line is about the unit of its first word, which holds a dot, in the state
/// of its third word; what stands behind the fourth describes it. With a
/// marker in front it is about the same.
pub proof fn law_text_line(line: Seq<char>, w: Seq<Seq<char>>)
    requires
        w.len() >= 4,
        w[0].contains('.'),
        w[0] != seq!['*'],
        w[0] != seq!['\u{25cf}'],
        text::words(line) == w || text::words(line) == seq![seq!['*']] + w || text::words(line)
            == seq![seq!['\u{25cf}']] + w,
    ensures
        systemd_units::text_unit(line) matches Some(u) && u.unit == w[0] && u.active == w[2],
        w.len() == 4 ==> (systemd_units::text_unit(line) matches Some(u) && u.description is None),
        w.len() == 5 ==> (systemd_units::text_unit(line) matches Some(u) && u.description == Some(
            w[4],
        )),
        w.len() > 5 ==> (systemd_units::text_unit(line) matches Some(u) && u.description == Some(
            w[4] + seq![' '] + text_parts::joined(w.skip(5), seq![' ']),
        )),
{
    reveal_strlit("*");
    reveal_strlit("\u{25cf}");
    reveal_strlit(" ");
    assert("*"@ =~= seq!['*']);
    assert("\u{25cf}"@ =~= seq!['\u{25cf}']);
    assert(" "@ =~= seq![' ']);
    let v = text::words(line);
    text_laws::law_words_are_solid(line);
    let u = systemd_units::unmarked(v);
    if v != w {
        assert(v[0] == seq!['*'] || v[0] == seq!['\u{25cf}']);
        assert(v.skip(1) =~= w);
    }
    assert(u == w);
    let off = v.len() - w.len();
    assert(v[off + 2] == w[2]);
    assert(text_laws::tight(w[2]));
    text_laws::law_trim_tight(w[2]);
    if w.len() > 4 {
        assert(v[off + 4] == w[4]);
        assert(text_laws::tight(w[4]));
        assert(w.skip(4) =~= seq![w[4]] + w.skip(5));
        text_parts_laws::law_joined(w[4], w.skip(5), seq![' ']);
        let rest = text_parts::joined(w.skip(4), seq![' ']);
        if w.len() == 5 {
            assert(w.skip(4) =~= seq![w[4]]);
        }
        assert(rest[0] == w[4][0]);
        assert(!text::is_blank(rest)) by {
            if text::is_blank(rest) {
                assert(text::is_white(rest[0]));
            }
        }
    }
}

/// A line with fewer than four words, or whose first word holds no dot, is
/// about no unit.
pub proof fn law_no_unit_line(line: Seq<char>)
    ensures
        text::words(line).len() < 4 ==> systemd_units::text_unit(line) is None,
        text::words(line).len() > 0 && !text::words(line)[0].contains('.') && text::words(line)[0]
            != seq!['*'] && text::words(line)[0] != seq!['\u{25cf}'] ==> systemd_units::text_unit(
            line,
        ) is None,
{
    reveal_strlit("*");
    reveal_strlit("\u{25cf}");
    assert("*"@ =~= seq!['*']);
    assert("\u{25cf}"@ =~= seq!['\u{25cf}']);
}

/// Lines are read one by one, in order.
pub proof fn law_text_lines(l: Seq<char>, rest: Seq<char>)
    requires
        !l.contains('\n'),
    ensures
        systemd_units::text_units(l + seq!['\n'] + rest) == (match systemd_units::text_unit(
            text_laws::unreturned(l),
        ) {
            Some(u) => seq![u],
            None => Seq::empty(),
        }) + systemd_units::text_units(rest),
{
    let f = |x: Seq<char>| systemd_units::text_unit(x);
    let u = text_laws::unreturned(l);
    text_laws::law_line_ends(l, rest);
    listing::law_picked_apart(seq![u], text::lines(rest), u, f);
}

// ---------------------------------------------------------------------------
// Suggestions
// ---------------------------------------------------------------------------
/// A unit is shown under its name. Where only active units are wanted, one is
/// shown exactly if its state is `active`, in capitals or not.
pub proof fn law_unit_shown(u: UnitView)
    ensures
        systemd_units::unit_shown(u, SystemdFilter::All) matches Some(s) && s.text == u.unit,
        text_parts::same_folded(u.active, seq!['a', 'c', 't', 'i', 'v', 'e'])
            ==> systemd_units::unit_shown(u, SystemdFilter::ActiveOnly)
            == systemd_units::unit_shown(u, SystemdFilter::All),
        !text_parts::same_folded(u.active, seq!['a', 'c', 't', 'i', 'v', 'e'])
            ==> systemd_units::unit_shown(u, SystemdFilter::ActiveOnly) is None,
{
    reveal_strlit("active");
    assert("active"@ =~= seq!['a', 'c', 't', 'i', 'v', 'e']);
}

/// A unit is described by its state and, behind a dash, by what it is. A state
/// that passes is called pending, and an empty one unknown; any other stands
/// as it is.
pub proof fn law_unit_description(
    u: UnitView,
    front: Seq<char>,
    d: Seq<char>,
    back: Seq<char>,
)
    requires
        text::is_blank(front),
        text::is_blank(back),
        text_laws::tight(d),
    ensures
        u.description == Some(front + d + back) ==> systemd_units::unit_description(u)
            == systemd_units::state_words(u.active) + seq![' ', '-', ' '] + d,
        u.description == Some(front) || u.description is None ==> systemd_units::unit_description(u)
            == systemd_units::state_words(u.active),
        systemd_units::state_words("activating"@) == "pending activating"@,
        systemd_units::state_words("deactivating"@) == "pending deactivating"@,
        systemd_units::state_words(Seq::empty()) == "unknown"@,
        u.active.len() > 0 && u.active != "activating"@ && u.active != "deactivating"@
            ==> systemd_units::state_words(u.active) == u.active,
{
    reveal_strlit(" - ");
    assert(" - "@ =~= seq![' ', '-', ' ']);
    text_laws::law_trim(front, d, back);
    text_laws::law_trim_blank(front);
    reveal_strlit("activating");
    reveal_strlit("deactivating");
    reveal_strlit("pending ");
    reveal_strlit("pending activating");
    reveal_strlit("pending deactivating");
    assert("pending "@ + "activating"@ =~= "pending activating"@);
    assert("pending "@ + "deactivating"@ =~= "pending deactivating"@);
}

/// Every unit that is wanted is suggested, as often as it is listed, and the
/// suggestions are in order of their names.
pub proof fn law_units_suggested(
    units: Seq<UnitView>,
    filter: SystemdFilter,
    found: Seq<Suggestion>,
    i: int,
)
    requires
        types::shown(found) == systemd_units::units_shown(units, filter),
        0 <= i < units.len(),
    ensures
        types::shown(sorting::sorted(found)).to_multiset() == systemd_units::units_shown(
            units,
            filter,
        ).to_multiset(),
        systemd_units::unit_shown(units[i], filter) matches Some(s) ==> types::shown(
            sorting::sorted(found),
        ).contains(s),
{
    broadcast use vstd::seq_lib::group_to_multiset_ensures;

    let f = |u: UnitView| systemd_units::unit_shown(u, filter);
    sorting::law_sorted(found);
    let g = |s: Suggestion| s@;
    sorting::lemma_mapped(sorting::sorted(found), found, g);
    assert(types::shown(found) =~= found.map_values(g));
    assert(types::shown(sorting::sorted(found)) =~= sorting::sorted(found).map_values(g));
    listing::law_all_picked(units, f);
    if let Some(s) = f(units[i]) {
        assert(systemd_units::units_shown(units, filter).contains(s));
        assert(types::shown(found).to_multiset().contains(s));
    }
}

} // verus!
