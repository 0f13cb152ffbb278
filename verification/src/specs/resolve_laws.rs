//! What resolution promises beyond its definition.
use crate::specs::model::{EntryView, GeneratorView};
use crate::specs::resolve;
use crate::specs::resolve::{Collected, Position};
use crate::specs::validate;
use crate::text;
use vstd::prelude::*;

verus! {

/// No listed value without a name, and none that is hidden, is ever suggested:
/// every suggestion has a text that is not blank.
pub proof fn law_static_suggestions_have_text(es: Seq<EntryView>)
    ensures
        forall|i: int|
            0 <= i < resolve::static_suggestions(es).len() ==> !text::is_blank(
                (#[trigger] resolve::static_suggestions(es)[i]).text,
            ),
    decreases es.len(),
{
    if es.len() > 0 {
        law_static_suggestions_have_text(es.drop_last());
        let head = resolve::static_suggestions(es.drop_last());
        let tail = resolve::entry_suggestions(es.last());
        assert forall|i: int| 0 <= i < resolve::static_suggestions(es).len() implies !text::is_blank(
            (#[trigger] resolve::static_suggestions(es)[i]).text,
        ) by {
            if i < head.len() {
                assert(resolve::static_suggestions(es)[i] == head[i]);
            } else {
                let k = i - head.len();
                assert(resolve::static_suggestions(es)[i] == tail[k]);
                assert(validate::presentable(es.last()));
                match es.last() {
                    EntryView::Plain(s) => {},
                    EntryView::Object(o) => {
                        assert(tail[k].text == o.name[k]);
                    },
                }
            }
        }
    }
}

/// Taking unusable values out of a spec changes nothing of what is suggested.
pub proof fn law_validation_keeps_static_suggestions(es: Seq<EntryView>)
    ensures
        resolve::static_suggestions(es.filter(|e: EntryView| validate::presentable(e)))
            == resolve::static_suggestions(es),
    decreases es.len(),
{
    reveal(Seq::filter);
    let p = |e: EntryView| validate::presentable(e);
    if es.len() > 0 {
        law_validation_keeps_static_suggestions(es.drop_last());
        let kept = es.drop_last().filter(p);
        if p(es.last()) {
            assert(kept.push(es.last()).drop_last() =~= kept);
        } else {
            assert(resolve::static_suggestions(es.drop_last()) + resolve::entry_suggestions(
                es.last(),
            ) =~= resolve::static_suggestions(es.drop_last()));
        }
    }
}

/// A generator that a provider or a native source serves does not also run
/// its script.
pub proof fn law_no_double_dispatch(c: Collected, g: GeneratorView)
    requires
        resolve::handled_by_type(g),
    ensures
        resolve::with_generator(c, g).script == c.script,
{
}

/// From the first positional word on, no word leads below a subcommand.
pub proof fn law_positional_words_stay_put(p: Position, words: Seq<Seq<char>>, i: int)
    ensures
        resolve::walk(p, words, i, true) == p,
    decreases (if i < words.len() { words.len() - i } else { 0 }),
{
    if 0 <= i < words.len() {
        if words[i] == "--"@ {
            law_positional_words_stay_put(p, words, i + 1);
        } else if resolve::is_flag(words[i]) {
            law_positional_words_stay_put(
                p,
                words,
                i + 1 + resolve::taken_by_flag(p, words, i),
            );
        } else {
            law_positional_words_stay_put(p, words, i + 1);
        }
    }
}

} // verus!
