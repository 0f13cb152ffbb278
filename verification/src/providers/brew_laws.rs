//! Which names a search of Homebrew prints.
use crate::providers::brew;
use crate::providers::brew::BrewSections;
use crate::text;
use crate::text_laws;
use crate::text_parts;
use crate::types;
use vstd::prelude::*;
use vstd::string::*;

verus! {

// ---------------------------------------------------------------------------
// Headings
// ---------------------------------------------------------------------------
/// Whether a line begins with the arrow of a heading.
pub open spec fn has_arrow(l: Seq<char>) -> bool {
    l.len() >= 3 && l[0] == '=' && l[1] == '=' && l[2] == '>'
}

/// Whether a line ends in a colon.
pub open spec fn has_colon(l: Seq<char>) -> bool {
    l.len() > 0 && l[l.len() - 1] == ':'
}

proof fn lemma_marks(l: Seq<char>)
    ensures
        "==>"@.is_prefix_of(l) <==> has_arrow(l),
        ":"@.is_suffix_of(l) <==> has_colon(l),
{
    reveal_strlit("==>");
    reveal_strlit(":");
    let a = seq!['=', '=', '>'];
    assert("==>"@ =~= a);
    assert(":"@ =~= seq![':']);
    if has_arrow(l) {
        assert(l.subrange(0, 3) =~= a);
    }
    if a.is_prefix_of(l) {
        assert(l[0] == a[0] && l[1] == a[1] && l[2] == a[2]);
    }
    if has_colon(l) {
        assert(l.subrange(l.len() - 1, l.len() as int) =~= seq![':']);
    }
    if seq![':'].is_suffix_of(l) {
        assert(l[l.len() - 1] == seq![':'][0]);
    }
}

/// Where formulae are asked for, a heading with an arrow begins what is read
/// exactly if it is theirs. Where casks are asked for, it is theirs that does,
/// and a heading with a colon counts as well. Where all is asked for, every
/// heading does. A line that is no heading is none.
pub proof fn law_headings(l: Seq<char>)
    ensures
        has_arrow(l) ==> brew::heading(l, BrewSections::Formulae) == Some(l == "==> Formulae"@),
        !has_arrow(l) ==> brew::heading(l, BrewSections::Formulae) is None,
        has_arrow(l) ==> brew::heading(l, BrewSections::Casks) == Some(l == "==> Casks"@),
        !has_arrow(l) && has_colon(l) ==> brew::heading(l, BrewSections::Casks) == Some(
            text_parts::same_folded(l, seq!['C', 'a', 's', 'k', 's', ':']),
        ),
        !has_arrow(l) && !has_colon(l) ==> brew::heading(l, BrewSections::Casks) is None,
        has_arrow(l) || has_colon(l) ==> brew::heading(l, BrewSections::All) == Some(true),
        !has_arrow(l) && !has_colon(l) ==> brew::heading(l, BrewSections::All) is None,
{
    lemma_marks(l);
    reveal_strlit("Casks:");
    assert("Casks:"@ =~= seq!['C', 'a', 's', 'k', 's', ':']);
}

// ---------------------------------------------------------------------------
// Names
// ---------------------------------------------------------------------------
/// Before any heading names are read, unless only casks are asked for.
pub proof fn law_search_start(sections: BrewSections)
    ensures
        brew::search_read(Seq::empty(), sections).names.len() == 0,
        brew::search_read(Seq::empty(), sections).reading <==> sections != BrewSections::Casks,
{
}

/// A line that is no heading, and where formulae are asked for also one that
/// ends in a colon, adds all its words, in order and behind what is
/// there, if its section is read, and nothing if it is not. It changes
/// nothing about what is read.
pub proof fn law_name_line(
    lines: Seq<Seq<char>>,
    front: Seq<char>,
    t: Seq<char>,
    back: Seq<char>,
    sections: BrewSections,
)
    requires
        text::is_blank(front),
        text::is_blank(back),
        text_laws::tight(t),
        !has_arrow(t),
        has_colon(t) ==> sections == BrewSections::Formulae,
    ensures
        ({
            let before = brew::search_read(lines, sections);
            let after = brew::search_read(lines.push(front + t + back), sections);
            &&& after.reading == before.reading
            &&& before.reading ==> after.names == before.names + text::words(t)
            &&& !before.reading ==> after.names == before.names
        }),
{
    let l = front + t + back;
    assert(lines.push(l).drop_last() =~= lines);
    text_laws::law_trim(front, t, back);
    law_headings(t);
}

/// A heading adds no name, and decides what is read from there on, whatever
/// was read before. A blank line changes nothing.
pub proof fn law_heading_line(
    lines: Seq<Seq<char>>,
    front: Seq<char>,
    t: Seq<char>,
    back: Seq<char>,
    sections: BrewSections,
)
    requires
        text::is_blank(front),
        text::is_blank(back),
        text_laws::tight(t),
    ensures
        has_arrow(t) ==> ({
            let after = brew::search_read(lines.push(front + t + back), sections);
            &&& after.names == brew::search_read(lines, sections).names
            &&& after.reading <==> sections == BrewSections::All || (sections
                == BrewSections::Formulae && t == "==> Formulae"@) || (sections
                == BrewSections::Casks && t == "==> Casks"@)
        }),
        !has_arrow(t) && has_colon(t) && sections != BrewSections::Formulae ==> ({
            let after = brew::search_read(lines.push(front + t + back), sections);
            &&& after.names == brew::search_read(lines, sections).names
            &&& after.reading <==> sections == BrewSections::All || text_parts::same_folded(
                t,
                seq!['C', 'a', 's', 'k', 's', ':'],
            )
        }),
        brew::search_read(lines.push(front), sections) == brew::search_read(lines, sections),
{
    let l = front + t + back;
    assert(lines.push(l).drop_last() =~= lines);
    assert(lines.push(front).drop_last() =~= lines);
    text_laws::law_trim(front, t, back);
    text_laws::law_trim_blank(front);
    law_headings(t);
}

// ---------------------------------------------------------------------------
// The limit
// ---------------------------------------------------------------------------
/// As many names are suggested as there are, or as the limit allows, the
/// first ones and in order.
pub proof fn law_limited(names: Seq<Seq<char>>, cap: nat, description: Seq<char>, i: int)
    ensures
        brew::limited(names, cap, description).len() == (if names.len() <= cap {
            names.len()
        } else {
            cap
        }),
        0 <= i < names.len() && i < cap ==> brew::limited(names, cap, description)[i]
            == types::provided(names[i], Some(description)),
{
}

/// The names found in a listing are those of all its lines.
pub proof fn law_found_names(s: Seq<char>, l: Seq<char>, sections: BrewSections)
    requires
        !l.contains('\n'),
        text_laws::tight(l),
        !has_arrow(l),
        !has_colon(l),
        text::lines(s).len() > 0,
    ensures
        brew::found_names(s, sections) == brew::search_read(text::lines(s), sections).names,
        sections != BrewSections::Casks ==> brew::found_names(l, sections) == text::words(l),
{
    text_laws::law_last_line(l);
    law_name_line(Seq::empty(), Seq::empty(), l, Seq::empty(), sections);
    assert(Seq::<char>::empty() + l + Seq::<char>::empty() =~= l);
    assert(text::lines(l) =~= Seq::empty().push(l));
    law_search_start(sections);
    if sections != BrewSections::Casks {
        assert(brew::search_read(Seq::empty(), sections).names =~= Seq::empty());
        assert(Seq::<Seq<char>>::empty() + text::words(l) =~= text::words(l));
    }
}

} // verus!
