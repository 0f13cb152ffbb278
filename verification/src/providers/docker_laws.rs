//! What the rows of Docker-like tools come to, field by field.
use crate::providers::docker;
use crate::providers::docker::{DockerKind, DockerRowView};
use crate::providers::listing;
use crate::text;
use crate::text_laws;
use crate::text_parts;
use crate::types::{SuggestionKind, SuggestionSource};
use vstd::prelude::*;
use vstd::string::*;

verus! {

/// A field says what stands between the white space around it, unless that is
/// one of the two marks for a value that is not there. A blank or absent field
/// says nothing.
pub proof fn law_told(front: Seq<char>, t: Seq<char>, back: Seq<char>)
    requires
        text::is_blank(front),
        text::is_blank(back),
        text_laws::tight(t),
    ensures
        t != "<none>"@ && t != "N/A"@ ==> docker::told(Some(front + t + back)) == Some(t),
        docker::told(Some(front + "<none>"@ + back)) is None,
        docker::told(Some(front + "N/A"@ + back)) is None,
        docker::told(Some(front)) is None,
        docker::told(None) is None,
{
    reveal_strlit("<none>");
    reveal_strlit("N/A");
    text_laws::law_trim(front, t, back);
    text_laws::law_trim_blank(front);
    text_laws::law_trim(front, "<none>"@, back);
    text_laws::law_trim(front, "N/A"@, back);
}

/// A volume is suggested under its name, whatever else its row holds; a row
/// without a name suggests none.
pub proof fn law_volume(row: DockerRowView)
    ensures
        docker::row_shown(row, DockerKind::Volumes) is Some <==> (row.name matches Some(n)
            && !text::is_blank(n) && text::trimmed(n) != "<none>"@ && text::trimmed(n) != "N/A"@),
        docker::row_shown(row, DockerKind::Volumes) matches Some(s) ==> (row.name matches Some(n)
            && s.text == text::trimmed(n) && s.kind == SuggestionKind::ProviderValue && s.source
            == SuggestionSource::Provider && s.priority is None),
{
    if let Some(n) = row.name {
        lemma_told(n);
    }
}

/// Where a text is not blank, something is left of it.
proof fn lemma_told(n: Seq<char>)
    ensures
        text::is_blank(n) <==> text::trimmed(n).len() == 0,
{
    if text::is_blank(n) {
        text_laws::law_trim_blank(n);
    } else {
        let (front, back) = text_laws::lemma_trim_parts(n);
    }
}

/// A network is suggested under its name, and one without a name under the
/// list of names, whatever else its row holds.
pub proof fn law_network(row: DockerRowView)
    ensures
        row.name matches Some(n) ==> !text::is_blank(n) && text::trimmed(n) != "<none>"@
            && text::trimmed(n) != "N/A"@ ==> (docker::row_shown(
            row,
            DockerKind::Networks,
        ) matches Some(s) && s.text == text::trimmed(n)),
        row.name is None ==> (row.names matches Some(n) ==> !text::is_blank(n) && text::trimmed(n)
            != "<none>"@ && text::trimmed(n) != "N/A"@ ==> (docker::row_shown(
            row,
            DockerKind::Networks,
        ) matches Some(s) && s.text == text::trimmed(n))),
        docker::told(row.name) is None && docker::told(row.names) is None ==> docker::row_shown(
            row,
            DockerKind::Networks,
        ) is None,
        docker::told(row.name) is None ==> (docker::told(row.names) matches Some(n) ==> (
        docker::row_shown(row, DockerKind::Networks) matches Some(s) && s.text == n)),
{
    if let Some(n) = row.name {
        lemma_told(n);
    }
    if let Some(n) = row.names {
        lemma_told(n);
    }
}

/// An image is suggested as its repository and its tag with a colon between
/// them; without a tag as the repository; and without a repository under its
/// identifier, whatever its tag is.
pub proof fn law_image(row: DockerRowView)
    ensures
        docker::told(row.repository) matches Some(r) ==> (docker::told(row.tag) matches Some(t) ==> (
        docker::row_shown(row, DockerKind::Images) matches Some(s) && s.text == r + seq![':'] + t)),
        docker::told(row.repository) matches Some(r) ==> docker::told(row.tag) is None ==> (
        docker::row_shown(row, DockerKind::Images) matches Some(s) && s.text == r),
        docker::told(row.repository) is None ==> (docker::told(row.id) matches Some(i) ==> (
        docker::row_shown(row, DockerKind::Images) matches Some(s) && s.text == i)),
        docker::told(row.repository) is None && docker::told(row.id) is None ==> docker::row_shown(
            row,
            DockerKind::Images,
        ) is None,
{
    reveal_strlit(":");
    assert(":"@ =~= seq![':']);
}

/// A container is suggested under the first of its names, its name and its
/// identifier that is told.
pub proof fn law_container(row: DockerRowView)
    ensures
        docker::told(row.names) matches Some(n) ==> (docker::row_shown(
            row,
            DockerKind::Containers,
        ) matches Some(s) && s.text == n),
        docker::told(row.names) is None ==> (docker::told(row.name) matches Some(n) ==> (
        docker::row_shown(row, DockerKind::Containers) matches Some(s) && s.text == n)),
        docker::told(row.names) is None && docker::told(row.name) is None ==> (docker::told(
            row.id,
        ) matches Some(n) ==> (docker::row_shown(row, DockerKind::Containers) matches Some(s)
            && s.text == n)),
        docker::told(row.names) is None && docker::told(row.name) is None && docker::told(row.id)
            is None ==> docker::row_shown(row, DockerKind::Containers) is None,
{
}

/// A container whose state is `running`, in capitals or not, or whose status
/// is that or begins with `Up` and a space, is among the running ones just as
/// it is among all. Any other is not.
pub proof fn law_running(row: DockerRowView)
    ensures
        docker::told(row.state) matches Some(s) ==> text_parts::same_folded(
            s,
            seq!['r', 'u', 'n', 'n', 'i', 'n', 'g'],
        ) ==> docker::row_shown(row, DockerKind::RunningContainers) == docker::row_shown(
            row,
            DockerKind::Containers,
        ),
        docker::told(row.status) matches Some(s) ==> text_parts::same_folded(
            s,
            seq!['r', 'u', 'n', 'n', 'i', 'n', 'g'],
        ) ==> docker::row_shown(row, DockerKind::RunningContainers) == docker::row_shown(
            row,
            DockerKind::Containers,
        ),
        docker::told(row.status) matches Some(s) ==> s.len() >= 3 && s[0] == 'U' && s[1] == 'p'
            && s[2] == ' ' ==> docker::row_shown(row, DockerKind::RunningContainers)
            == docker::row_shown(row, DockerKind::Containers),
        docker::row_shown(row, DockerKind::RunningContainers) is Some ==> (docker::told(
            row.state,
        ) matches Some(s) && text_parts::same_folded(s, seq!['r', 'u', 'n', 'n', 'i', 'n', 'g']))
            || (docker::told(row.status) matches Some(s) && (text_parts::same_folded(
            s,
            seq!['r', 'u', 'n', 'n', 'i', 'n', 'g'],
        ) || (s.len() >= 3 && s[0] == 'U' && s[1] == 'p' && s[2] == ' '))),
{
    reveal_strlit("running");
    reveal_strlit("Up ");
    let w = seq!['r', 'u', 'n', 'n', 'i', 'n', 'g'];
    assert("running"@ =~= w);
    if let Some(s) = docker::told(row.status) {
        if s.len() >= 3 && s[0] == 'U' && s[1] == 'p' && s[2] == ' ' {
            assert("Up "@.is_prefix_of(s));
        }
        if "Up "@.is_prefix_of(s) {
            assert(s[0] == "Up "@[0] && s[1] == "Up "@[1] && s[2] == "Up "@[2]);
        }
    }
}

/// What is told of an image: its identifier and its size; of a network its
/// identifier, driver and scope; of a volume its driver, mount point and
/// scope; in this order, with a space between each two, without those that
/// are not told.
pub proof fn law_descriptions(row: DockerRowView, a: Seq<char>, b: Seq<char>, c: Seq<char>)
    ensures
        docker::told(row.id) == Some(a) && docker::told(row.size) == Some(b)
            ==> docker::row_description(row, DockerKind::Images) == Some(a + seq![' '] + b),
        docker::told(row.id) == Some(a) && docker::told(row.size) is None
            ==> docker::row_description(row, DockerKind::Images) == Some(a),
        docker::told(row.id) is None ==> docker::row_description(row, DockerKind::Images)
            == docker::told(row.size),
        docker::told(row.id) == Some(a) && docker::told(row.driver) == Some(b) && docker::told(
            row.scope,
        ) == Some(c) ==> docker::row_description(row, DockerKind::Networks) == Some(
            a + seq![' '] + b + seq![' '] + c,
        ),
        docker::told(row.id) is None && docker::told(row.driver) == Some(b) && docker::told(
            row.scope,
        ) == Some(c) ==> docker::row_description(row, DockerKind::Networks) == Some(
            b + seq![' '] + c,
        ),
        docker::told(row.id) == Some(a) && docker::told(row.driver) is None && docker::told(
            row.scope,
        ) == Some(c) ==> docker::row_description(row, DockerKind::Networks) == Some(
            a + seq![' '] + c,
        ),
        docker::told(row.id) == Some(a) && docker::told(row.driver) == Some(b) && docker::told(
            row.scope,
        ) is None ==> docker::row_description(row, DockerKind::Networks) == Some(
            a + seq![' '] + b,
        ),
        docker::told(row.driver) == Some(a) && docker::told(row.mountpoint) == Some(b)
            && docker::told(row.scope) == Some(c) ==> docker::row_description(
            row,
            DockerKind::Volumes,
        ) == Some(a + seq![' '] + b + seq![' '] + c),
        docker::told(row.driver) is None && docker::told(row.mountpoint) == Some(b)
            && docker::told(row.scope) == Some(c) ==> docker::row_description(
            row,
            DockerKind::Volumes,
        ) == Some(b + seq![' '] + c),
        docker::told(row.driver) == Some(a) && docker::told(row.mountpoint) is None
            && docker::told(row.scope) == Some(c) ==> docker::row_description(
            row,
            DockerKind::Volumes,
        ) == Some(a + seq![' '] + c),
        docker::told(row.driver) == Some(a) && docker::told(row.mountpoint) == Some(b)
            && docker::told(row.scope) is None ==> docker::row_description(
            row,
            DockerKind::Volumes,
        ) == Some(a + seq![' '] + b),
{
    reveal_strlit(" ");
    assert(" "@ =~= seq![' ']);
    reveal_with_fuel(text_parts::joined, 3);
    let none = Seq::<Seq<char>>::empty();
    assert(none.push(a).drop_last() =~= none);
    assert(none.push(a).push(b).drop_last() =~= none.push(a));
    assert(none.push(a).push(b).push(c).drop_last() =~= none.push(a).push(b));
    assert(none.push(b).push(c).drop_last() =~= none.push(b));
    assert(none.push(a).push(c).drop_last() =~= none.push(a));
}

/// Where one field alone is told, it is the description; where none is, there
/// is none.
pub proof fn law_single_descriptions(row: DockerRowView)
    ensures
        docker::told(row.id) is None && docker::told(row.driver) is None ==> docker::row_description(
            row,
            DockerKind::Networks,
        ) == docker::told(row.scope),
        docker::told(row.id) is None && docker::told(row.scope) is None ==> docker::row_description(
            row,
            DockerKind::Networks,
        ) == docker::told(row.driver),
        docker::told(row.driver) is None && docker::told(row.scope) is None
            ==> docker::row_description(row, DockerKind::Networks) == docker::told(row.id),
        docker::told(row.driver) is None && docker::told(row.mountpoint) is None
            ==> docker::row_description(row, DockerKind::Volumes) == docker::told(row.scope),
        docker::told(row.driver) is None && docker::told(row.scope) is None
            ==> docker::row_description(row, DockerKind::Volumes) == docker::told(row.mountpoint),
        docker::told(row.mountpoint) is None && docker::told(row.scope) is None
            ==> docker::row_description(row, DockerKind::Volumes) == docker::told(row.driver),
{
}

/// What is told of a container: its image, and in round brackets its status,
/// or its state where there is no status.
pub proof fn law_container_description(row: DockerRowView, kind: DockerKind)
    requires
        kind == DockerKind::Containers || kind == DockerKind::RunningContainers,
    ensures
        docker::told(row.image) matches Some(i) ==> (docker::told(row.status) matches Some(s)
            ==> docker::row_description(row, kind) == Some(i + seq![' ', '('] + s + seq![')'])),
        docker::told(row.image) matches Some(i) ==> docker::told(row.status) is None ==> (
        docker::told(row.state) matches Some(s) ==> docker::row_description(row, kind) == Some(
            i + seq![' ', '('] + s + seq![')'],
        )),
        docker::told(row.image) matches Some(i) ==> docker::told(row.status) is None
            && docker::told(row.state) is None ==> docker::row_description(row, kind) == Some(i),
        docker::told(row.image) is None && docker::told(row.status) is Some
            ==> docker::row_description(row, kind) == docker::told(row.status),
        docker::told(row.image) is None && docker::told(row.status) is None
            ==> docker::row_description(row, kind) == docker::told(row.state),
{
    reveal_strlit(" (");
    reveal_strlit(")");
    assert(" ("@ =~= seq![' ', '(']);
    assert(")"@ =~= seq![')']);
}

/// The suggestion of a row carries its description, and rows are suggested one
/// by one in the order in which they are printed.
pub proof fn law_rows(a: Seq<DockerRowView>, row: DockerRowView, b: Seq<DockerRowView>, kind: DockerKind)
    ensures
        docker::rows_shown(a + seq![row] + b, kind) == docker::rows_shown(a, kind) + (
        match docker::row_shown(row, kind) {
            Some(s) => seq![s],
            None => Seq::empty(),
        }) + docker::rows_shown(b, kind),
        docker::row_shown(row, kind) matches Some(s) ==> s.description == docker::row_description(
            row,
            kind,
        ),
{
    let f = |r: DockerRowView| docker::row_shown(r, kind);
    listing::law_picked_apart(a, seq![row], row, f);
    listing::law_picked_apart(a + seq![row], b, row, f);
}

} // verus!
