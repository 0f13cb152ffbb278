//! macOS users and groups, and the owner argument of `chown`.
use crate::providers::context::{Provider, ProviderCtx};
use crate::providers::listing;
use crate::text;
use crate::text_map;
use crate::text_parts;
use crate::types;
use crate::types::{provider_value, Suggestion, SuggestionView};
use vstd::prelude::*;
use vstd::string::*;

verus! {

/// Whether system accounts are asked for.
pub open spec fn wants_system(params: Seq<(Seq<char>, Seq<char>)>) -> bool {
    text_map::value_of(params, "include_system"@) matches Some(v) && (v == "1"@
        || text_parts::same_folded(v, "true"@))
}

/// Whether system accounts are asked for.
pub fn include_system_from_ctx(ctx: &ProviderCtx) -> (r: bool)
    ensures
        r == wants_system(ctx.params.items()),
{
    match ctx.params.get("include_system") {
        Some(v) => text::same(v, "1") || text_parts::eq_folded(v, "true"),
        None => false,
    }
}

/// The account that a line names. Those of the system begin with an
/// underscore.
pub open spec fn principal(line: Seq<char>, include_system: bool) -> Option<Seq<char>> {
    let t = text::trimmed(line);
    if t.len() == 0 || (!include_system && t[0] == '_') {
        None
    } else {
        Some(t)
    }
}

/// The accounts that a listing names.
pub open spec fn principals(s: Seq<char>, include_system: bool) -> Seq<Seq<char>> {
    listing::picked(text::lines(s), |l: Seq<char>| principal(l, include_system))
}

/// The accounts that a listing names.
pub fn parse_principals(s: &str, include_system: bool) -> (r: Vec<String>)
    ensures
        text::views(r@) == principals(s@, include_system),
{
    let lines = text::lines_of(s);
    let ghost all = text::lines(s@);
    let ghost f = |l: Seq<char>| principal(l, include_system);
    let mut out: Vec<String> = Vec::new();
    let mut i: usize = 0;
    proof {
        assert(all.take(0) =~= Seq::empty());
        assert(text::views(out@) =~= Seq::empty());
    }
    while i < lines.len()
        invariant
            i <= lines.len(),
            all == text::views(lines@),
            f == (|l: Seq<char>| principal(l, include_system)),
            text::views(out@) == listing::picked(all.take(i as int), f),
        decreases lines.len() - i,
    {
        proof {
            assert(all.take(i + 1).drop_last() =~= all.take(i as int));
            assert(all.take(i + 1).last() == lines@[i as int]@);
        }
        let t = text::trim(&lines[i]);
        let x = text::chars_of(&t);
        if x.len() > 0 && (include_system || x[0] != '_') {
            let ghost before = out@;
            out.push(t);
            assert(text::views(out@) =~= text::views(before).push(t@));
        }
        i += 1;
    }
    assert(all.take(all.len() as int) =~= all);
    out
}

/// The accounts as suggestions, all with one description.
pub fn parse_principals_output(s: &str, include_system: bool, description: &str) -> (r: Vec<
    Suggestion,
>)
    ensures
        types::shown(r@) == principals(s@, include_system).map_values(
            |n: Seq<char>| types::provided(n, Some(description@)),
        ),
{
    let names = parse_principals(s, include_system);
    let mut out: Vec<Suggestion> = Vec::new();
    let mut i: usize = 0;
    while i < names.len()
        invariant
            i <= names.len(),
            out.len() == i,
            forall|j: int|
                0 <= j < i ==> (#[trigger] out@[j])@ == types::provided(
                    names@[j]@,
                    Some(description@),
                ),
        decreases names.len() - i,
    {
        out.push(provider_value(names[i].clone(), Some(description.to_owned())));
        i += 1;
    }
    assert(types::shown(out@) =~= text::views(names@).map_values(
        |n: Seq<char>| types::provided(n, Some(description@)),
    ));
    out
}

// ---------------------------------------------------------------------------
// The owner argument of `chown`
// ---------------------------------------------------------------------------
/// The shape of the owner argument so far.
#[derive(Debug)]
pub enum ChownToken {
    /// No colon yet.
    OwnerOnly { prefix: String },
    /// A colon first: only a group is wanted.
    GroupOnly { prefix: String },
    /// An owner, a colon and the beginning of a group.
    OwnerGroup { owner: String, group_prefix: String },
}

/// The content of a [`ChownToken`].
pub enum ChownTokenView {
    OwnerOnly { prefix: Seq<char> },
    GroupOnly { prefix: Seq<char> },
    OwnerGroup { owner: Seq<char>, group_prefix: Seq<char> },
}

impl View for ChownToken {
    type V = ChownTokenView;

    open spec fn view(&self) -> ChownTokenView {
        match *self {
            ChownToken::OwnerOnly { prefix } => ChownTokenView::OwnerOnly { prefix: prefix@ },
            ChownToken::GroupOnly { prefix } => ChownTokenView::GroupOnly { prefix: prefix@ },
            ChownToken::OwnerGroup { owner, group_prefix } => ChownTokenView::OwnerGroup {
                owner: owner@,
                group_prefix: group_prefix@,
            },
        }
    }
}

/// The shape of the owner argument: what its first colon parts.
pub open spec fn chown_token(token: Seq<char>) -> ChownTokenView {
    match text::split_first(token, ':') {
        Some((owner, group)) => if owner.len() == 0 {
            ChownTokenView::GroupOnly { prefix: group }
        } else {
            ChownTokenView::OwnerGroup { owner, group_prefix: group }
        },
        None => ChownTokenView::OwnerOnly { prefix: token },
    }
}

/// The shape of the owner argument so far.
pub fn classify_chown_token(token: &str) -> (r: ChownToken)
    ensures
        r@ == chown_token(token@),
{
    match text::split_once(token, ':') {
        Some((owner, group)) => if owner.as_str().is_empty() {
            ChownToken::GroupOnly { prefix: group }
        } else {
            ChownToken::OwnerGroup { owner, group_prefix: group }
        },
        None => ChownToken::OwnerOnly { prefix: token.to_owned() },
    }
}

/// A user as the owner argument.
pub open spec fn as_owner(user: Seq<char>, prefix: Seq<char>) -> Option<SuggestionView> {
    if prefix.is_prefix_of(user) {
        Some(types::provided(user, Some("user"@)))
    } else {
        None
    }
}

/// A group as the owner argument, behind a colon.
pub open spec fn as_group(group: Seq<char>, prefix: Seq<char>) -> Option<SuggestionView> {
    if prefix.is_prefix_of(group) {
        Some(types::provided(":"@ + group, Some("group"@)))
    } else {
        None
    }
}

/// A group as the owner argument, behind the owner and a colon.
pub open spec fn as_owner_group(
    group: Seq<char>,
    owner: Seq<char>,
    prefix: Seq<char>,
) -> Option<SuggestionView> {
    if prefix.is_prefix_of(group) {
        Some(
            types::provided(
                owner + ":"@ + group,
                Some("user "@ + owner + ", group "@ + group),
            ),
        )
    } else {
        None
    }
}

/// The suggestions for the owner argument.
pub open spec fn chown_shown(
    token: Seq<char>,
    users: Seq<Seq<char>>,
    groups: Seq<Seq<char>>,
) -> Seq<SuggestionView> {
    match chown_token(token) {
        ChownTokenView::OwnerOnly { prefix } => listing::picked(
            users,
            |u: Seq<char>| as_owner(u, prefix),
        ),
        ChownTokenView::GroupOnly { prefix } => listing::picked(
            groups,
            |g: Seq<char>| as_group(g, prefix),
        ),
        ChownTokenView::OwnerGroup { owner, group_prefix } => listing::picked(
            groups,
            |g: Seq<char>| as_owner_group(g, owner, group_prefix),
        ),
    }
}

/// Every suggestion for the owner argument begins with what is typed.
pub proof fn law_chown_continues(token: Seq<char>, users: Seq<Seq<char>>, groups: Seq<Seq<char>>)
    ensures
        forall|i: int|
            0 <= i < chown_shown(token, users, groups).len() ==> token.is_prefix_of(
                (#[trigger] chown_shown(token, users, groups)[i]).text,
            ),
{
    let r = chown_shown(token, users, groups);
    text::lemma_find_from(token, ':', 0);
    reveal_strlit(":");
    assert forall|i: int| 0 <= i < r.len() implies token.is_prefix_of((#[trigger] r[i]).text) by {
        match chown_token(token) {
            ChownTokenView::OwnerOnly { prefix } => {
                let f = |u: Seq<char>| as_owner(u, prefix);
                listing::law_picked(users, f);
                let j = choose|j: int| 0 <= j < users.len() && f(#[trigger] users[j]) == Some(r[i]);
                assert(as_owner(users[j], prefix) == Some(r[i]));
            },
            ChownTokenView::GroupOnly { prefix } => {
                let f = |g: Seq<char>| as_group(g, prefix);
                listing::law_picked(groups, f);
                let j = choose|j: int|
                    0 <= j < groups.len() && f(#[trigger] groups[j]) == Some(r[i]);
                assert(as_group(groups[j], prefix) == Some(r[i]));
                assert(token =~= ":"@ + prefix);
                assert(prefix =~= groups[j].subrange(0, prefix.len() as int));
                assert(token =~= r[i].text.subrange(0, token.len() as int));
            },
            ChownTokenView::OwnerGroup { owner, group_prefix } => {
                let f = |g: Seq<char>| as_owner_group(g, owner, group_prefix);
                listing::law_picked(groups, f);
                let j = choose|j: int|
                    0 <= j < groups.len() && f(#[trigger] groups[j]) == Some(r[i]);
                assert(as_owner_group(groups[j], owner, group_prefix) == Some(r[i]));
                assert(token =~= owner + ":"@ + group_prefix);
                assert(group_prefix =~= groups[j].subrange(0, group_prefix.len() as int));
                assert(token =~= r[i].text.subrange(0, token.len() as int));
            },
        }
    }
}

/// The suggestions for the owner argument, from the known users and groups.
pub fn chown_owner_group_from_principals(
    token: &str,
    users: &Vec<String>,
    groups: &Vec<String>,
) -> (r: Vec<Suggestion>)
    ensures
        types::shown(r@) == chown_shown(token@, text::views(users@), text::views(groups@)),
{
    assert(listing::views_of(users@) =~= text::views(users@));
    assert(listing::views_of(groups@) =~= text::views(groups@));
    match classify_chown_token(token) {
        ChownToken::OwnerOnly { prefix } => {
            let f = |u: &String| -> (o: Option<Suggestion>)
                ensures
                    listing::opt_shown(o) == as_owner(u@, prefix@),
                {
                    if text::starts_with(u, &prefix) {
                        Some(provider_value(u.clone(), Some("user".to_owned())))
                    } else {
                        None
                    }
                };
            listing::pick(users, f, Ghost(|u: Seq<char>| as_owner(u, prefix@)))
        },
        ChownToken::GroupOnly { prefix } => {
            let f = |g: &String| -> (o: Option<Suggestion>)
                ensures
                    listing::opt_shown(o) == as_group(g@, prefix@),
                {
                    if text::starts_with(g, &prefix) {
                        let mut t = ":".to_owned();
                        t.append(g);
                        Some(provider_value(t, Some("group".to_owned())))
                    } else {
                        None
                    }
                };
            listing::pick(groups, f, Ghost(|g: Seq<char>| as_group(g, prefix@)))
        },
        ChownToken::OwnerGroup { owner, group_prefix } => {
            let f = |g: &String| -> (o: Option<Suggestion>)
                ensures
                    listing::opt_shown(o) == as_owner_group(g@, owner@, group_prefix@),
                {
                    if text::starts_with(g, &group_prefix) {
                        let mut d = "user ".to_owned();
                        d.append(&owner);
                        d.append(", group ");
                        d.append(g);
                        Some(provider_value(text_parts::concat3(&owner, ":", g), Some(d)))
                    } else {
                        None
                    }
                };
            listing::pick(
                groups,
                f,
                Ghost(|g: Seq<char>| as_owner_group(g, owner@, group_prefix@)),
            )
        },
    }
}

/// Which accounts have to be listed for the owner argument.
#[derive(Debug, Clone, Copy, PartialEq, Eq, Structural)]
pub enum PrincipalNode {
    Users,
    Groups,
}

/// Which accounts have to be listed: users before a colon, groups after one,
/// never both.
pub fn chown_node(token: &str) -> (r: PrincipalNode)
    ensures
        r == (if token@.contains(':') {
            PrincipalNode::Groups
        } else {
            PrincipalNode::Users
        }),
{
    if text::contains_char(token, ':') {
        PrincipalNode::Groups
    } else {
        PrincipalNode::Users
    }
}

impl PrincipalNode {
    /// The directory node that is listed.
    pub fn path(self) -> (r: &'static str)
        ensures
            r@ == (match self {
                PrincipalNode::Users => "/Users"@,
                PrincipalNode::Groups => "/Groups"@,
            }),
    {
        match self {
            PrincipalNode::Users => "/Users",
            PrincipalNode::Groups => "/Groups",
        }
    }

    /// What one account of a listing is.
    pub fn description(self) -> (r: &'static str)
        ensures
            r@ == (match self {
                PrincipalNode::Users => "dscl user"@,
                PrincipalNode::Groups => "dscl group"@,
            }),
    {
        match self {
            PrincipalNode::Users => "dscl user",
            PrincipalNode::Groups => "dscl group",
        }
    }
}

/// The suggestions for the owner argument, from the one listing that it
/// needs. Where that failed there is none.
pub fn chown_suggestions(ctx: &ProviderCtx, listing_output: Option<&str>) -> (r: Vec<Suggestion>)
    ensures
        types::shown(r@) == ({
            let names = match listing_output {
                Some(o) => principals(o@, wants_system(ctx.params.items())),
                None => Seq::empty(),
            };
            chown_shown(ctx.current_token@, names, names)
        }),
{
    let names = match listing_output {
        Some(o) => parse_principals(o, include_system_from_ctx(ctx)),
        None => {
            let none: Vec<String> = Vec::new();
            assert(text::views(none@) =~= Seq::empty());
            none
        },
    };
    chown_owner_group_from_principals(&ctx.current_token, &names, &names)
}

// ---------------------------------------------------------------------------
// The providers
// ---------------------------------------------------------------------------
/// macOS users.
pub struct DsclUsers;

impl Provider for DsclUsers {
    open spec fn provider_name(&self) -> Seq<char> {
        "dscl_users"@
    }

    fn name(&self) -> (r: &'static str) {
        "dscl_users"
    }
}

/// macOS groups.
pub struct DsclGroups;

impl Provider for DsclGroups {
    open spec fn provider_name(&self) -> Seq<char> {
        "dscl_groups"@
    }

    fn name(&self) -> (r: &'static str) {
        "dscl_groups"
    }
}

/// The owner argument of `chown`.
pub struct ChownOwnerGroup;

impl Provider for ChownOwnerGroup {
    open spec fn provider_name(&self) -> Seq<char> {
        "chown_owner_group"@
    }

    fn name(&self) -> (r: &'static str) {
        "chown_owner_group"
    }
}

} // verus!
