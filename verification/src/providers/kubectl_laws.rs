//! Which Kubernetes objects a listing names, and how they are shown.
use crate::providers::kubectl;
use crate::providers::kubectl::{ItemView, K8sKind};
use crate::providers::listing;
use crate::text;
use crate::text_laws;
use crate::text_parts;
use crate::types;
use vstd::prelude::*;
use vstd::string::*;

verus! {

// ---------------------------------------------------------------------------
// Lines
// ---------------------------------------------------------------------------
/// A line of resource types names the type of its first word, whatever stands
/// behind it. The heading, in capitals or not, and a blank line name none.
pub proof fn law_resource_line(front: Seq<char>, w: Seq<char>, rest: Seq<char>)
    requires
        text::is_blank(front),
        w.len() > 0,
        text_laws::solid(w),
        rest.len() == 0 || text::is_white(rest[0]),
    ensures
        !text_parts::same_folded(w, seq!['N', 'A', 'M', 'E']) ==> kubectl::line_shown(
            front + w + rest,
            K8sKind::Resources,
        ) == Some(types::provided(w, Some("kubernetes resource"@))),
        text_parts::same_folded(w, seq!['N', 'A', 'M', 'E']) ==> kubectl::line_shown(
            front + w + rest,
            K8sKind::Resources,
        ) is None,
        kubectl::line_shown(front, K8sKind::Resources) is None,
{
    reveal_strlit("NAME");
    assert("NAME"@ =~= seq!['N', 'A', 'M', 'E']);
    text_laws::law_no_words(front);
    text_laws::law_first_word(front, w, rest);
}

/// A line of contexts names the context that stands on it, white space around
/// it aside. A blank line names none.
pub proof fn law_context_line(front: Seq<char>, name: Seq<char>, back: Seq<char>)
    requires
        text::is_blank(front),
        text::is_blank(back),
        text_laws::tight(name),
    ensures
        kubectl::line_shown(front + name + back, K8sKind::Contexts) == Some(
            types::provided(name, Some("kubernetes context"@)),
        ),
        kubectl::line_shown(front, K8sKind::Contexts) is None,
{
    text_laws::law_trim(front, name, back);
    text_laws::law_trim_blank(front);
}

/// Only resource types and contexts are printed line by line; everything else
/// is a document of objects.
pub proof fn law_prints_lines(kind: K8sKind)
    ensures
        kubectl::prints_lines(kind) <==> kind == K8sKind::Resources || kind == K8sKind::Contexts,
        kubectl::kubectl_legacy_args(kind) is Some <==> kind == K8sKind::Resources,
{
}

/// Lines are read one by one, in order.
pub proof fn law_lines_apart(l: Seq<char>, rest: Seq<char>, kind: K8sKind)
    requires
        !l.contains('\n'),
    ensures
        listing::picked(
            text::lines(l + seq!['\n'] + rest),
            |x: Seq<char>| kubectl::line_shown(x, kind),
        ) == (match kubectl::line_shown(text_laws::unreturned(l), kind) {
            Some(s) => seq![s],
            None => Seq::empty(),
        }) + listing::picked(text::lines(rest), |x: Seq<char>| kubectl::line_shown(x, kind)),
{
    let f = |x: Seq<char>| kubectl::line_shown(x, kind);
    let u = text_laws::unreturned(l);
    text_laws::law_line_ends(l, rest);
    listing::law_picked_apart(seq![u], text::lines(rest), u, f);
}

// ---------------------------------------------------------------------------
// Objects
// ---------------------------------------------------------------------------
/// A field says what stands between the white space around it, unless that is
/// the mark for a value that is not there. A blank or absent field says
/// nothing.
pub proof fn law_told(front: Seq<char>, t: Seq<char>, back: Seq<char>)
    requires
        text::is_blank(front),
        text::is_blank(back),
        text_laws::tight(t),
    ensures
        t != "<none>"@ ==> kubectl::told(Some(front + t + back)) == Some(t),
        kubectl::told(Some(front + "<none>"@ + back)) is None,
        kubectl::told(Some(front)) is None,
        kubectl::told(None) is None,
{
    reveal_strlit("<none>");
    text_laws::law_trim(front, t, back);
    text_laws::law_trim_blank(front);
    text_laws::law_trim(front, "<none>"@, back);
}

/// Every object with a name is shown under it, whatever its kind and whatever
/// else is known of it; one without a name is not shown.
pub proof fn law_object_shown(item: ItemView, kind: K8sKind)
    ensures
        item.metadata matches Some(m) ==> (kubectl::told(m.0) matches Some(n) ==> (
        kubectl::item_shown(item, kind) matches Some(s) && s.text == n && s.description
            == kubectl::item_description(item, m.1, kind))),
        item.metadata matches Some(m) ==> kubectl::told(m.0) is None ==> kubectl::item_shown(
            item,
            kind,
        ) is None,
        item.metadata is None ==> kubectl::item_shown(item, kind) is None,
{
}

/// A pod is described by its namespace and, in round brackets, its phase.
pub proof fn law_pod_description(item: ItemView, namespace: Option<Seq<char>>, p: Option<Seq<char>>)
    requires
        item.phase == Some(p),
    ensures
        kubectl::told(namespace) matches Some(n) ==> (kubectl::told(p) matches Some(x)
            ==> kubectl::item_description(item, namespace, K8sKind::Pods) == Some(
            n + seq![' ', '('] + x + seq![')'],
        )),
        kubectl::told(namespace) is None ==> kubectl::item_description(
            item,
            namespace,
            K8sKind::Pods,
        ) == kubectl::told(p),
        kubectl::told(p) is None ==> kubectl::item_description(item, namespace, K8sKind::Pods)
            == kubectl::told(namespace),
        kubectl::item_description(item, namespace, K8sKind::Namespaces) == kubectl::told(p),
        kubectl::item_description(item, namespace, K8sKind::Nodes) is None,
{
    reveal_strlit(" (");
    reveal_strlit(")");
    assert(" ("@ =~= seq![' ', '(']);
    assert(")"@ =~= seq![')']);
}

/// Without a status there is no phase to tell.
pub proof fn law_no_status(item: ItemView, namespace: Option<Seq<char>>)
    requires
        item.phase is None,
    ensures
        kubectl::item_description(item, namespace, K8sKind::Pods) == kubectl::told(namespace),
        kubectl::item_description(item, namespace, K8sKind::Namespaces) is None,
{
}

/// A service is described by its namespace, type and address, as far as they
/// are told, in this order and with a space between each two.
pub proof fn law_service_description(
    item: ItemView,
    namespace: Option<Seq<char>>,
    t: Option<Seq<char>>,
    i: Option<Seq<char>>,
    a: Seq<char>,
    b: Seq<char>,
    c: Seq<char>,
)
    requires
        item.service == Some((t, i)),
    ensures
        kubectl::told(namespace) == Some(a) && kubectl::told(t) == Some(b) && kubectl::told(i)
            == Some(c) ==> kubectl::item_description(item, namespace, K8sKind::Services) == Some(
            a + seq![' '] + b + seq![' '] + c,
        ),
        kubectl::told(namespace) is None && kubectl::told(t) == Some(b) && kubectl::told(i)
            == Some(c) ==> kubectl::item_description(item, namespace, K8sKind::Services) == Some(
            b + seq![' '] + c,
        ),
        kubectl::told(namespace) == Some(a) && kubectl::told(t) is None && kubectl::told(i)
            == Some(c) ==> kubectl::item_description(item, namespace, K8sKind::Services) == Some(
            a + seq![' '] + c,
        ),
        kubectl::told(namespace) == Some(a) && kubectl::told(t) == Some(b) && kubectl::told(i)
            is None ==> kubectl::item_description(item, namespace, K8sKind::Services) == Some(
            a + seq![' '] + b,
        ),
        kubectl::told(namespace) is None && kubectl::told(t) is None ==> kubectl::item_description(
            item,
            namespace,
            K8sKind::Services,
        ) == kubectl::told(i),
        kubectl::told(namespace) is None && kubectl::told(i) is None ==> kubectl::item_description(
            item,
            namespace,
            K8sKind::Services,
        ) == kubectl::told(t),
        kubectl::told(t) is None && kubectl::told(i) is None ==> kubectl::item_description(
            item,
            namespace,
            K8sKind::Services,
        ) == kubectl::told(namespace),
{
    reveal_strlit(" ");
    assert(" "@ =~= seq![' ']);
    reveal_with_fuel(text_parts::joined, 3);
    let none = Seq::<Seq<char>>::empty();
    assert(none.push(a).drop_last() =~= none);
    assert(none.push(a).push(b).drop_last() =~= none.push(a));
    assert(none.push(a).push(b).push(c).drop_last() =~= none.push(a).push(b));
    assert(none.push(b).push(c).drop_last() =~= none.push(b));
    assert(none.push(a).push(c).drop_last() =~= none.push(a));
}

/// Objects are shown one by one, in order.
pub proof fn law_objects_apart(a: Seq<ItemView>, item: ItemView, b: Seq<ItemView>, kind: K8sKind)
    ensures
        kubectl::items_shown(a + seq![item] + b, kind) == kubectl::items_shown(a, kind) + (
        match kubectl::item_shown(item, kind) {
            Some(s) => seq![s],
            None => Seq::empty(),
        }) + kubectl::items_shown(b, kind),
{
    let f = |x: ItemView| kubectl::item_shown(x, kind);
    listing::law_picked_apart(a, seq![item], item, f);
    listing::law_picked_apart(a + seq![item], b, item, f);
}

} // verus!
