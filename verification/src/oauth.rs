use crate::webauthn::{parse_url, parsed_urls, spec_parse_url, spec_parsed_urls, url_texts};
use rand::Rng;
use vstd::prelude::*;

verus! {

/// One group-specific value of an OAuth policy: members of `group_id` get
/// `content`; among several, the one with the smallest `index` wins.
pub struct OAuthPolicyContent {
    pub group_id: u128,
    pub group_name: String,
    pub content: String,
    pub index: i32,
}

/// A content entry applies to a user who is a member of its group.
pub open spec fn applies(groups: Seq<u128>, c: OAuthPolicyContent) -> bool {
    groups.contains(c.group_id)
}

/// `k` is the entry chosen for a user in `groups`: it applies, no applying
/// entry has a smaller index, and no earlier applying entry has the same.
pub open spec fn is_chosen_content(
    contents: Seq<OAuthPolicyContent>,
    groups: Seq<u128>,
    k: int,
) -> bool {
    &&& 0 <= k < contents.len()
    &&& applies(groups, contents[k])
    &&& forall|j: int|
        0 <= j < contents.len() && applies(groups, #[trigger] contents[j]) ==> contents[k].index
            <= contents[j].index && (j < k ==> contents[k].index < contents[j].index)
}

/// The value a policy yields for a user in `groups`: the content of the
/// applying entry with the smallest index (the first such), or the policy's
/// default when no entry applies.
pub open spec fn spec_policy_value(
    contents: Seq<OAuthPolicyContent>,
    groups: Seq<u128>,
    default: Seq<char>,
) -> Seq<char> {
    if exists|k: int| is_chosen_content(contents, groups, k) {
        contents[choose|k: int| is_chosen_content(contents, groups, k)].content@
    } else {
        default
    }
}

/// Whether `x` occurs in `v`.
pub fn contains_id(v: &Vec<u128>, x: u128) -> (b: bool)
    ensures
        b == v@.contains(x),
{
    let mut i: usize = 0;
    while i < v.len()
        invariant
            i <= v.len(),
            forall|j: int| 0 <= j < i ==> v@[j] != x,
        decreases v.len() - i,
    {
        if v[i] == x {
            assert(v@[i as int] == x);
            return true;
        }
        i += 1;
    }
    false
}

proof fn lemma_chosen_unique(contents: Seq<OAuthPolicyContent>, groups: Seq<u128>, a: int, b: int)
    requires
        is_chosen_content(contents, groups, a),
        is_chosen_content(contents, groups, b),
    ensures
        a == b,
{
    if a < b {
        assert(applies(groups, contents[a]));
    } else if b < a {
        assert(applies(groups, contents[b]));
    }
}

/// The value a policy yields for a user who is a member of `groups`.
pub fn policy_value(contents: &Vec<OAuthPolicyContent>, groups: &Vec<u128>, default: &String) -> (v:
    String)
    ensures
        v@ == spec_policy_value(contents@, groups@, default@),
{
    let mut best: Option<usize> = None;
    let mut i: usize = 0;
    while i < contents.len()
        invariant
            i <= contents.len(),
            match best {
                Some(k) => k < i && applies(groups@, contents@[k as int]) && forall|j: int|
                    0 <= j < i && applies(groups@, #[trigger] contents@[j]) ==> contents@[k as int].index
                        <= contents@[j].index && (j < k ==> contents@[k as int].index
                        < contents@[j].index),
                None => forall|j: int| 0 <= j < i ==> !applies(groups@, #[trigger] contents@[j]),
            },
        decreases contents.len() - i,
    {
        if contains_id(groups, contents[i].group_id) {
            match best {
                None => {
                    best = Some(i);
                },
                Some(k) => {
                    if contents[i].index < contents[k].index {
                        best = Some(i);
                    }
                },
            }
        }
        i += 1;
    }
    match best {
        Some(k) => {
            proof {
                assert(is_chosen_content(contents@, groups@, k as int));
                let c = choose|c: int| is_chosen_content(contents@, groups@, c);
                lemma_chosen_unique(contents@, groups@, c, k as int);
            }
            contents[k].content.clone()
        },
        None => {
            proof {
                if exists|c: int| is_chosen_content(contents@, groups@, c) {
                    let c = choose|c: int| is_chosen_content(contents@, groups@, c);
                    assert(applies(groups@, contents@[c]));
                }
            }
            default.clone()
        },
    }
}

/// Whether a user may use an OAuth client: granted directly, or through a
/// group that is both granted the client and joined by the user.
pub open spec fn spec_has_user_access(
    client_users: Seq<u128>,
    client_groups: Seq<u128>,
    user_groups: Seq<u128>,
    user: u128,
) -> bool {
    client_users.contains(user) || exists|g: u128| client_groups.contains(g) && user_groups.contains(g)
}

/// Whether `user`, a member of `user_groups`, may use a client granted to
/// `client_users` and `client_groups`.
pub fn has_user_access(
    client_users: &Vec<u128>,
    client_groups: &Vec<u128>,
    user_groups: &Vec<u128>,
    user: u128,
) -> (b: bool)
    ensures
        b == spec_has_user_access(client_users@, client_groups@, user_groups@, user),
{
    if contains_id(client_users, user) {
        return true;
    }
    let mut i: usize = 0;
    while i < client_groups.len()
        invariant
            i <= client_groups.len(),
            forall|j: int| 0 <= j < i ==> !user_groups@.contains(#[trigger] client_groups@[j]),
        decreases client_groups.len() - i,
    {
        if contains_id(user_groups, client_groups[i]) {
            assert(client_groups@.contains(client_groups@[i as int]));
            return true;
        }
        i += 1;
    }
    proof {
        if exists|g: u128| client_groups@.contains(g) && user_groups@.contains(g) {
            let g = choose|g: u128| client_groups@.contains(g) && user_groups@.contains(g);
            let j = choose|j: int| 0 <= j < client_groups@.len() && client_groups@[j] == g;
            assert(!user_groups@.contains(client_groups@[j]));
        }
    }
    false
}

/// Who may use a client: a user granted the client directly may use it, a
/// member of a group granted the client may use it whatever else the
/// client is granted to, and nobody else may.
pub proof fn lemma_user_access_grants(
    client_users: Seq<u128>,
    client_groups: Seq<u128>,
    user_groups: Seq<u128>,
    user: u128,
)
    ensures
        client_users.contains(user) ==> spec_has_user_access(
            client_users,
            client_groups,
            user_groups,
            user,
        ),
        forall|g: u128|
            client_groups.contains(g) && user_groups.contains(g) ==> spec_has_user_access(
                client_users,
                client_groups,
                user_groups,
                user,
            ),
        spec_has_user_access(client_users, client_groups, user_groups, user) ==> client_users.contains(
            user,
        ) || exists|g: u128| client_groups.contains(g) && user_groups.contains(g),
{
}

/// Granting a client to one more user or group never takes access away
/// from anyone.
pub proof fn lemma_more_grants_keep_access(
    client_users: Seq<u128>,
    client_groups: Seq<u128>,
    user_groups: Seq<u128>,
    user: u128,
    other_user: u128,
    other_group: u128,
)
    requires
        spec_has_user_access(client_users, client_groups, user_groups, user),
    ensures
        spec_has_user_access(client_users.push(other_user), client_groups, user_groups, user),
        spec_has_user_access(client_users, client_groups.push(other_group), user_groups, user),
{
    if client_users.contains(user) {
        let k = choose|k: int| 0 <= k < client_users.len() && client_users[k] == user;
        assert(client_users.push(other_user)[k] == user);
    } else {
        let g = choose|g: u128| client_groups.contains(g) && user_groups.contains(g);
        let k = choose|k: int| 0 <= k < client_groups.len() && client_groups[k] == g;
        assert(client_groups.push(other_group)[k] == g);
        assert(client_groups.push(other_group).contains(g));
    }
}

/// The links to add and to remove so that the links `existing` become
/// `mapped`: `mapped` values not yet linked, in order, and linked values
/// no longer mapped, in order.
pub open spec fn spec_relation_diff(existing: Seq<u128>, mapped: Seq<u128>) -> (
    Seq<u128>,
    Seq<u128>,
) {
    (
        mapped.filter(|m: u128| !existing.contains(m)),
        existing.filter(|e: u128| !mapped.contains(e)),
    )
}

/// The links to add and to remove when a relation is set to `mapped`.
pub fn relation_diff(existing: &Vec<u128>, mapped: &Vec<u128>) -> (diff: (Vec<u128>, Vec<u128>))
    ensures
        diff.0@ == spec_relation_diff(existing@, mapped@).0,
        diff.1@ == spec_relation_diff(existing@, mapped@).1,
{
    let mut to_add: Vec<u128> = Vec::new();
    let mut i: usize = 0;
    while i < mapped.len()
        invariant
            i <= mapped.len(),
            to_add@ == mapped@.take(i as int).filter(|m: u128| !existing@.contains(m)),
        decreases mapped.len() - i,
    {
        let m = mapped[i];
        proof {
            reveal(Seq::filter);
            assert(mapped@.take(i + 1).drop_last() =~= mapped@.take(i as int));
            assert(mapped@.take(i + 1).last() == m);
        }
        if !contains_id(existing, m) {
            to_add.push(m);
        }
        i += 1;
    }
    assert(mapped@.take(mapped.len() as int) =~= mapped@);
    let mut to_remove: Vec<u128> = Vec::new();
    let mut i: usize = 0;
    while i < existing.len()
        invariant
            i <= existing.len(),
            to_remove@ == existing@.take(i as int).filter(|e: u128| !mapped@.contains(e)),
        decreases existing.len() - i,
    {
        let e = existing[i];
        proof {
            reveal(Seq::filter);
            assert(existing@.take(i + 1).drop_last() =~= existing@.take(i as int));
            assert(existing@.take(i + 1).last() == e);
        }
        if !contains_id(mapped, e) {
            to_remove.push(e);
        }
        i += 1;
    }
    assert(existing@.take(existing.len() as int) =~= existing@);
    (to_add, to_remove)
}

/// Applying the diff yields exactly the mapped links: a value is linked
/// afterwards (kept and not removed, or added) exactly when it is mapped.
pub proof fn lemma_relation_diff_reaches_mapped(existing: Seq<u128>, mapped: Seq<u128>, x: u128)
    ensures
        ({
            let (to_add, to_remove) = spec_relation_diff(existing, mapped);
            ((existing.contains(x) && !to_remove.contains(x)) || to_add.contains(x))
                <==> mapped.contains(x)
        }),
{
    let pa = |m: u128| !existing.contains(m);
    let pr = |e: u128| !mapped.contains(e);
    let (to_add, to_remove) = spec_relation_diff(existing, mapped);
    if to_add.contains(x) {
        mapped.lemma_filter_contains_rev(pa, x);
    }
    if to_remove.contains(x) {
        let i = choose|i: int| 0 <= i < to_remove.len() && to_remove[i] == x;
        existing.lemma_filter_pred(pr, i);
    }
    if mapped.contains(x) && !existing.contains(x) {
        let i = choose|i: int| 0 <= i < mapped.len() && mapped[i] == x;
        mapped.lemma_filter_contains(pa, i);
    }
    if existing.contains(x) && !mapped.contains(x) {
        let i = choose|i: int| 0 <= i < existing.len() && existing[i] == x;
        existing.lemma_filter_contains(pr, i);
    }
}


/// The names of `perms`.
pub open spec fn names(perms: Seq<String>) -> Seq<Seq<char>> {
    perms.map_values(|p: String| p@)
}

/// An editor may change a permission set from `old` to `new` when every
/// permission that is added or removed is one the editor holds.
pub open spec fn spec_may_change_permissions(
    editor: Seq<String>,
    old: Seq<String>,
    new: Seq<String>,
) -> bool {
    forall|p: Seq<char>|
        names(new).contains(p) != names(old).contains(p) ==> #[trigger] names(editor).contains(p)
}

fn contains_name(v: &Vec<String>, x: &String) -> (b: bool)
    ensures
        b == names(v@).contains(x@),
{
    let mut i: usize = 0;
    while i < v.len()
        invariant
            i <= v.len(),
            forall|j: int| 0 <= j < i ==> v@[j]@ != x@,
        decreases v.len() - i,
    {
        if v[i] == *x {
            assert(names(v@)[i as int] == x@);
            return true;
        }
        i += 1;
    }
    proof {
        if names(v@).contains(x@) {
            let j = choose|j: int| 0 <= j < names(v@).len() && names(v@)[j] == x@;
            assert(v@[j]@ == x@);
        }
    }
    false
}

/// Whether an editor holding `editor` may turn the permissions `old` into
/// `new`: each permission in exactly one of the two must be the editor's.
pub fn may_change_permissions(editor: &Vec<String>, old: &Vec<String>, new: &Vec<String>) -> (b:
    bool)
    ensures
        b == spec_may_change_permissions(editor@, old@, new@),
{
    let mut i: usize = 0;
    while i < new.len()
        invariant
            i <= new.len(),
            forall|j: int|
                0 <= j < i && !names(old@).contains(#[trigger] new@[j]@) ==> names(
                    editor@,
                ).contains(new@[j]@),
        decreases new.len() - i,
    {
        if !contains_name(old, &new[i]) && !contains_name(editor, &new[i]) {
            proof {
                assert(names(new@).contains(new@[i as int]@)) by {
                    assert(names(new@)[i as int] == new@[i as int]@);
                }
            }
            return false;
        }
        i += 1;
    }
    let mut i: usize = 0;
    while i < old.len()
        invariant
            i <= old.len(),
            forall|j: int|
                0 <= j < new.len() && !names(old@).contains(#[trigger] new@[j]@) ==> names(
                    editor@,
                ).contains(new@[j]@),
            forall|j: int|
                0 <= j < i && !names(new@).contains(#[trigger] old@[j]@) ==> names(
                    editor@,
                ).contains(old@[j]@),
        decreases old.len() - i,
    {
        if !contains_name(new, &old[i]) && !contains_name(editor, &old[i]) {
            proof {
                assert(names(old@).contains(old@[i as int]@)) by {
                    assert(names(old@)[i as int] == old@[i as int]@);
                }
            }
            return false;
        }
        i += 1;
    }
    proof {
        assert forall|p: Seq<char>|
            names(new@).contains(p) != names(old@).contains(p) implies #[trigger] names(
            editor@,
        ).contains(p) by {
            if names(new@).contains(p) {
                let j = choose|j: int| 0 <= j < names(new@).len() && names(new@)[j] == p;
                assert(new@[j]@ == p);
            } else {
                let j = choose|j: int| 0 <= j < names(old@).len() && names(old@)[j] == p;
                assert(old@[j]@ == p);
            }
        }
    }
    true
}

/// A user's access level: the highest level among their groups, never
/// below zero.
pub open spec fn spec_access_level(levels: Seq<i32>) -> int
    decreases levels.len(),
{
    if levels.len() == 0 {
        0
    } else {
        let rest = spec_access_level(levels.drop_last());
        if levels.last() > rest {
            levels.last() as int
        } else {
            rest
        }
    }
}

/// The access level of a user whose groups have the levels `levels`.
pub fn access_level(levels: &Vec<i32>) -> (level: i32)
    ensures
        level == spec_access_level(levels@),
        level >= 0,
        forall|i: int| 0 <= i < levels.len() ==> level >= #[trigger] levels@[i],
        level == 0 || levels@.contains(level),
{
    let mut level: i32 = 0;
    let mut i: usize = 0;
    while i < levels.len()
        invariant
            i <= levels.len(),
            level == spec_access_level(levels@.take(i as int)),
            level >= 0,
            forall|j: int| 0 <= j < i ==> level >= #[trigger] levels@[j],
            level == 0 || exists|j: int| 0 <= j < i && levels@[j] == level,
        decreases levels.len() - i,
    {
        proof {
            assert(levels@.take(i + 1).drop_last() =~= levels@.take(i as int));
        }
        if levels[i] > level {
            level = levels[i];
        }
        i += 1;
    }
    assert(levels@.take(levels.len() as int) =~= levels@);
    level
}

/// Why a `group:content` mapping of a policy was refused.
#[derive(Debug, Clone, Copy, PartialEq, Eq, Structural)]
pub enum MappingError {
    /// The mapping holds no `:`.
    InvalidFormat,
    /// The part before the first `:` is not a UUID.
    InvalidGroupId,
}

/// A UUID in any of the textual forms the `uuid` crate accepts, as a
/// 128-bit number; `None` when the text is not a UUID.
pub uninterp spec fn spec_parse_uuid(text: Seq<char>) -> Option<u128>;

/// Parses `text` with `uuid::Uuid::parse_str` and reads the UUID back as a
/// 128-bit number. The contract only names the result: which texts the
/// crate accepts (hyphenated, simple, braced and URN forms, hex digits in
/// either case) is left to that crate.
#[verifier::external_body]
fn parse_uuid(text: &str) -> (id: Option<u128>)
    ensures
        id == spec_parse_uuid(text@),
{
    uuid::Uuid::parse_str(text).ok().map(|u| u.as_u128())
}

/// A policy mapping `group:content` split at its first `:`: the group's id
/// and the content; an error without `:` or with a malformed id.
pub open spec fn spec_parse_policy_mapping(mapping: Seq<char>) -> Result<(u128, Seq<char>), MappingError> {
    if exists|k: int| 0 <= k < mapping.len() && mapping[k] == ':' {
        let k = choose|k: int|
            0 <= k < mapping.len() && mapping[k] == ':' && forall|j: int|
                0 <= j < k ==> mapping[j] != ':';
        match spec_parse_uuid(mapping.take(k)) {
            Some(id) => Ok((id, mapping.skip(k + 1))),
            None => Err(MappingError::InvalidGroupId),
        }
    } else {
        Err(MappingError::InvalidFormat)
    }
}

fn first_colon(s: &str) -> (r: Option<usize>)
    ensures
        match r {
            Some(k) => k < s@.len() && s@[k as int] == ':' && forall|j: int|
                0 <= j < k ==> s@[j] != ':',
            None => forall|j: int| 0 <= j < s@.len() ==> s@[j] != ':',
        },
{
    let n = s.unicode_len();
    let mut k: usize = 0;
    while k < n
        invariant
            k <= n,
            n == s@.len(),
            forall|j: int| 0 <= j < k ==> s@[j] != ':',
        decreases n - k,
    {
        if s.get_char(k) == ':' {
            return Some(k);
        }
        k += 1;
    }
    None
}

/// Parses a `group:content` mapping of an OAuth policy given on the command
/// line.
pub fn parse_policy_mapping(mapping: &str) -> (r: Result<(u128, String), MappingError>)
    ensures
        match r {
            Ok((id, content)) => spec_parse_policy_mapping(mapping@) == Ok::<
                (u128, Seq<char>),
                MappingError,
            >((id, content@)),
            Err(e) => spec_parse_policy_mapping(mapping@) == Err::<(u128, Seq<char>), _>(e),
        },
{
    let n = mapping.unicode_len();
    let k = match first_colon(mapping) {
        Some(k) => k,
        None => {
            return Err(MappingError::InvalidFormat);
        },
    };
    proof {
        let c = choose|c: int|
            0 <= c < mapping@.len() && mapping@[c] == ':' && forall|j: int|
                0 <= j < c ==> mapping@[j] != ':';
        if c < k {
        } else if c > k {
            assert(mapping@[k as int] != ':');
        }
        assert(mapping@.subrange(0, k as int) =~= mapping@.take(k as int));
        assert(mapping@.subrange(k + 1, n as int) =~= mapping@.skip(k + 1));
    }
    let group = mapping.substring_char(0, k);
    let content = mapping.substring_char(k + 1, n);
    match parse_uuid(group) {
        Some(id) => Ok((id, String::from_str(content))),
        None => Err(MappingError::InvalidGroupId),
    }
}

/// The id and name of an OAuth policy, as lists show it.
#[derive(Debug, Clone, PartialEq, Eq)]
pub struct BasicOAuthPolicyInfo {
    pub uuid: String,
    pub name: String,
}

/// An OAuth policy as a token request sees it: the claim it fills, its
/// default value and its group-specific contents.
pub struct PolicyWithContents {
    pub claim: String,
    pub default: String,
    pub contents: Vec<OAuthPolicyContent>,
}

/// The claims a user in `groups` gets from the policies of the requested
/// scopes: one (claim, value) pair per policy, in order; where two policies
/// fill the same claim, the later pair is the one that counts.
pub fn claim_values(policies: &Vec<PolicyWithContents>, groups: &Vec<u128>) -> (r: Vec<
    (String, String),
>)
    ensures
        r@.len() == policies@.len(),
        forall|i: int|
            0 <= i < r@.len() ==> (#[trigger] r@[i]).0@ == policies@[i].claim@ && r@[i].1@
                == spec_policy_value(policies@[i].contents@, groups@, policies@[i].default@),
{
    let mut out: Vec<(String, String)> = Vec::new();
    let mut i: usize = 0;
    while i < policies.len()
        invariant
            i <= policies.len(),
            out@.len() == i,
            forall|k: int|
                0 <= k < i ==> (#[trigger] out@[k]).0@ == policies@[k].claim@ && out@[k].1@
                    == spec_policy_value(policies@[k].contents@, groups@, policies@[k].default@),
        decreases policies.len() - i,
    {
        let p = &policies[i];
        let value = policy_value(&p.contents, groups, &p.default);
        out.push((p.claim.clone(), value));
        i += 1;
    }
    out
}

/// A group as client listings show it.
#[derive(Debug, Clone, PartialEq, Eq)]
pub struct SimpleGroupInfo {
    pub uuid: u128,
    pub name: String,
}

/// A user as client listings show it.
#[derive(Debug, Clone, PartialEq, Eq)]
pub struct SimpleUserInfo {
    pub id: u128,
    pub name: String,
}

/// A scope as client listings show it.
#[derive(Debug, Clone, PartialEq, Eq)]
pub struct SimpleOAuthScopeInfo {
    pub uuid: u128,
    pub scope: String,
    pub name: String,
}

/// A stored OAuth client with the rows related to it.
pub struct ClientRecord {
    pub id: u128,
    pub name: String,
    pub redirect_uri: String,
    pub confidential: bool,
    pub require_pkce: bool,
    pub additional_redirect_uris: Vec<String>,
    pub default_scope: Vec<SimpleOAuthScopeInfo>,
    pub group_access: Vec<SimpleGroupInfo>,
    pub user_access: Vec<SimpleUserInfo>,
}

/// What an administrator sees of an OAuth client.
pub struct OAuthClientInfo {
    pub name: String,
    pub client_id: u128,
    pub redirect_uri: String,
    pub additional_redirect_uris: Vec<String>,
    pub default_scope: Vec<SimpleOAuthScopeInfo>,
    pub group_access: Vec<SimpleGroupInfo>,
    pub user_access: Vec<SimpleUserInfo>,
    pub confidential: bool,
    pub require_pkce: bool,
}

/// The listing of a client: its stored fields, its redirect URI as a URL,
/// the additional redirect URIs that parse, and its scopes, groups and
/// users as stored.
pub open spec fn is_client_info(info: OAuthClientInfo, client: ClientRecord) -> bool {
    &&& info.name == client.name
    &&& info.client_id == client.id
    &&& spec_parse_url(client.redirect_uri@) == Some(info.redirect_uri@)
    &&& url_texts(info.additional_redirect_uris@) == spec_parsed_urls(
        url_texts(client.additional_redirect_uris@),
    )
    &&& info.default_scope == client.default_scope
    &&& info.group_access == client.group_access
    &&& info.user_access == client.user_access
    &&& info.confidential == client.confidential
    &&& info.require_pkce == client.require_pkce
}

/// The listing of a client whose redirect URI parses (it was checked when
/// the client was stored).
pub fn client_info(client: ClientRecord) -> (info: OAuthClientInfo)
    requires
        spec_parse_url(client.redirect_uri@) is Some,
    ensures
        is_client_info(info, client),
{
    let redirect_uri = parse_url(client.redirect_uri.as_str()).unwrap();
    let additional_redirect_uris = parsed_urls(&client.additional_redirect_uris);
    OAuthClientInfo {
        name: client.name,
        client_id: client.id,
        redirect_uri,
        additional_redirect_uris,
        default_scope: client.default_scope,
        group_access: client.group_access,
        user_access: client.user_access,
        confidential: client.confidential,
        require_pkce: client.require_pkce,
    }
}

/// The listing of a client, or `None` when its stored redirect URI does not
/// parse.
pub fn checked_client_info(client: ClientRecord) -> (info: Option<OAuthClientInfo>)
    ensures
        match info {
            Some(i) => is_client_info(i, client),
            None => spec_parse_url(client.redirect_uri@) is None,
        },
{
    match parse_url(client.redirect_uri.as_str()) {
        Some(_) => Some(client_info(client)),
        None => None,
    }
}

/// The listing of all clients, one entry per stored client in order, each
/// as `client_info` gives it (the stored redirect URIs parse, as they were
/// checked when the clients were stored).
pub fn client_infos(clients: Vec<ClientRecord>) -> (infos: Vec<OAuthClientInfo>)
    requires
        forall|i: int| 0 <= i < clients@.len() ==> spec_parse_url(#[trigger] clients@[i].redirect_uri@) is Some,
    ensures
        infos@.len() == clients@.len(),
        forall|i: int| 0 <= i < infos@.len() ==> is_client_info(#[trigger] infos@[i], clients@[i]),
{
    let ghost all = clients@;
    let mut rest = clients;
    let mut infos: Vec<OAuthClientInfo> = Vec::new();
    while rest.len() > 0
        invariant
            infos@.len() + rest@.len() == all.len(),
            rest@ == all.skip(infos@.len() as int),
            forall|i: int| 0 <= i < all.len() ==> spec_parse_url(#[trigger] all[i].redirect_uri@) is Some,
            forall|i: int| 0 <= i < infos@.len() ==> is_client_info(#[trigger] infos@[i], all[i]),
        decreases rest.len(),
    {
        let ghost k = infos@.len() as int;
        assert(rest@[0] == all[k]);
        let c = rest.remove(0);
        assert(rest@ =~= all.skip(k + 1));
        let info = client_info(c);
        infos.push(info);
    }
    infos
}

/// The listing of all clients, or `None` when a stored redirect URI does
/// not parse.
pub fn checked_client_infos(clients: Vec<ClientRecord>) -> (infos: Option<Vec<OAuthClientInfo>>)
    ensures
        match infos {
            Some(v) => v@.len() == clients@.len() && forall|i: int|
                0 <= i < v@.len() ==> is_client_info(#[trigger] v@[i], clients@[i]),
            None => exists|i: int|
                0 <= i < clients@.len() && spec_parse_url(#[trigger] clients@[i].redirect_uri@) is None,
        },
{
    let mut i: usize = 0;
    while i < clients.len()
        invariant
            i <= clients.len(),
            forall|j: int| 0 <= j < i ==> spec_parse_url(#[trigger] clients@[j].redirect_uri@) is Some,
        decreases clients.len() - i,
    {
        if parse_url(clients[i].redirect_uri.as_str()).is_none() {
            assert(spec_parse_url(clients@[i as int].redirect_uri@) is None);
            return None;
        }
        i += 1;
    }
    Some(client_infos(clients))
}

/// Listing all clients and looking one up agree: the entry of a stored
/// client in the listing is exactly what `client_info` gives for it.
pub proof fn lemma_listing_agrees_with_lookup(
    listed: OAuthClientInfo,
    looked_up: OAuthClientInfo,
    client: ClientRecord,
)
    requires
        is_client_info(listed, client),
        is_client_info(looked_up, client),
    ensures
        listed.name == looked_up.name,
        listed.client_id == looked_up.client_id,
        listed.redirect_uri@ == looked_up.redirect_uri@,
        listed.additional_redirect_uris@.map_values(|u: String| u@)
            == looked_up.additional_redirect_uris@.map_values(|u: String| u@),
        listed.default_scope == looked_up.default_scope,
        listed.group_access == looked_up.group_access,
        listed.user_access == looked_up.user_access,
        listed.confidential == looked_up.confidential,
        listed.require_pkce == looked_up.require_pkce,
{
}

/// A stored OAuth policy.
pub struct PolicyRecord {
    pub id: u128,
    pub name: String,
    pub claim: String,
    pub default: String,
}

/// A stored content row of a policy, with the name of its group when the
/// group still exists.
pub struct PolicyContentRow {
    pub policy: u128,
    pub group_id: u128,
    pub group_name: Option<String>,
    pub content: String,
    pub index: i32,
}

/// A policy as administrators see it: its fields and its contents ordered
/// by index.
pub struct OAuthPolicyInfo {
    pub uuid: u128,
    pub name: String,
    pub claim: String,
    pub default: String,
    pub content: Vec<OAuthPolicyContent>,
}

/// A content entry as plain values: group id, group name, content, index.
pub open spec fn content_view(c: OAuthPolicyContent) -> (u128, Seq<char>, Seq<char>, i32) {
    (c.group_id, c.group_name@, c.content@, c.index)
}

/// The content entries of a list, as plain values.
pub open spec fn contents_view(cs: Seq<OAuthPolicyContent>) -> Seq<(u128, Seq<char>, Seq<char>, i32)> {
    cs.map_values(|c: OAuthPolicyContent| content_view(c))
}

/// Whether a row belongs to `policy` and names a group that exists.
pub open spec fn row_of(r: PolicyContentRow, policy: u128) -> bool {
    r.policy == policy && r.group_name is Some
}

/// The contents of `policy` among the stored rows: the rows of the policy
/// whose group exists, as plain values, in stored order.
pub open spec fn policy_rows_view(rows: Seq<PolicyContentRow>, policy: u128) -> Seq<
    (u128, Seq<char>, Seq<char>, i32),
> {
    rows.filter(|r: PolicyContentRow| row_of(r, policy)).map_values(
        |r: PolicyContentRow| (r.group_id, r.group_name->Some_0@, r.content@, r.index),
    )
}

/// Contents ordered by index, smallest first.
pub open spec fn sorted_by_index(cs: Seq<OAuthPolicyContent>) -> bool {
    forall|i: int, j: int| 0 <= i < j < cs.len() ==> cs[i].index <= cs[j].index
}

/// The contents of `policy`: its rows whose group exists, ordered by index
/// (among equal indices in any order).
pub fn policy_contents(rows: &Vec<PolicyContentRow>, policy: u128) -> (cs: Vec<OAuthPolicyContent>)
    ensures
        sorted_by_index(cs@),
        contents_view(cs@).to_multiset() == policy_rows_view(rows@, policy).to_multiset(),
{
    let mut out: Vec<OAuthPolicyContent> = Vec::new();
    let mut i: usize = 0;
    assert(contents_view(out@) =~= Seq::<(u128, Seq<char>, Seq<char>, i32)>::empty());
    assert(rows@.take(0) =~= Seq::<PolicyContentRow>::empty());
    assert(policy_rows_view(rows@.take(0), policy) =~= Seq::<(u128, Seq<char>, Seq<char>, i32)>::empty());
    while i < rows.len()
        invariant
            i <= rows.len(),
            sorted_by_index(out@),
            contents_view(out@).to_multiset() == policy_rows_view(rows@.take(i as int), policy).to_multiset(),
        decreases rows.len() - i,
    {
        let row = &rows[i];
        proof {
            reveal(Seq::filter);
            assert(rows@.take(i + 1).drop_last() =~= rows@.take(i as int));
            assert(rows@.take(i + 1).last() == *row);
        }
        let ghost prev_view = policy_rows_view(rows@.take(i as int), policy);
        if row.policy == policy {
            match &row.group_name {
                Some(name) => {
                    let c = OAuthPolicyContent {
                        group_id: row.group_id,
                        group_name: name.clone(),
                        content: row.content.clone(),
                        index: row.index,
                    };
                    let mut p: usize = 0;
                    while p < out.len() && out[p].index <= c.index
                        invariant
                            p <= out.len(),
                            forall|j: int| 0 <= j < p ==> #[trigger] out@[j].index <= c.index,
                        decreases out.len() - p,
                    {
                        p += 1;
                    }
                    let ghost before = out@;
                    out.insert(p, c);
                    proof {
                        assert forall|a: int, b: int| 0 <= a < b < out@.len() implies out@[a].index
                            <= out@[b].index by {
                            if b < p {
                            } else if b == p {
                            } else if a < p {
                                assert(out@[b] == before[b - 1]);
                                if p < before.len() {
                                    assert(before[p as int].index > c.index);
                                    assert(before[p as int].index <= before[b - 1].index);
                                }
                            } else if a == p {
                                assert(out@[b] == before[b - 1]);
                                assert(before[p as int].index > c.index);
                                assert(before[p as int].index <= before[b - 1].index);
                            } else {
                                assert(out@[a] == before[a - 1]);
                                assert(out@[b] == before[b - 1]);
                            }
                        }
                        assert(contents_view(out@) =~= contents_view(before).insert(
                            p as int,
                            content_view(c),
                        ));
                        assert(policy_rows_view(rows@.take(i + 1), policy) =~= prev_view.push(
                            content_view(c),
                        ));
                        vstd::seq_lib::to_multiset_insert(contents_view(before), p as int, content_view(c));
                        vstd::seq_lib::to_multiset_build(prev_view, content_view(c));
                        assert(contents_view(before).insert(p as int, content_view(c)).to_multiset()
                            == contents_view(before).to_multiset().insert(content_view(c)));
                        assert(prev_view.push(content_view(c)).to_multiset()
                            == prev_view.to_multiset().insert(content_view(c)));
                    }
                },
                None => {
                    proof {
                        assert(policy_rows_view(rows@.take(i + 1), policy) =~= prev_view);
                    }
                },
            }
        } else {
            proof {
                assert(policy_rows_view(rows@.take(i + 1), policy) =~= prev_view);
            }
        }
        i += 1;
    }
    assert(rows@.take(rows.len() as int) =~= rows@);
    out
}

/// Whether `info` shows the stored policy `p`: its fields, and its
/// contents ordered by index, made of exactly the rows of the policy whose
/// group exists.
pub open spec fn is_policy_info(info: OAuthPolicyInfo, p: PolicyRecord, rows: Seq<PolicyContentRow>) -> bool {
    &&& info.uuid == p.id
    &&& info.name@ == p.name@
    &&& info.claim@ == p.claim@
    &&& info.default@ == p.default@
    &&& sorted_by_index(info.content@)
    &&& contents_view(info.content@).to_multiset() == policy_rows_view(rows, p.id).to_multiset()
}

/// A policy as plain values: id, name, claim, default and contents.
pub open spec fn policy_info_view(info: OAuthPolicyInfo) -> (
    u128,
    Seq<char>,
    Seq<char>,
    Seq<char>,
    Seq<(u128, Seq<char>, Seq<char>, i32)>,
) {
    (info.uuid, info.name@, info.claim@, info.default@, contents_view(info.content@))
}

/// The policy `p` with its contents.
fn info_of_policy(p: &PolicyRecord, rows: &Vec<PolicyContentRow>) -> (info: OAuthPolicyInfo)
    ensures
        is_policy_info(info, *p, rows@),
{
    OAuthPolicyInfo {
        uuid: p.id,
        name: p.name.clone(),
        claim: p.claim.clone(),
        default: p.default.clone(),
        content: policy_contents(rows, p.id),
    }
}

/// All policies with their contents, in stored order.
pub fn group_policy_contents(policies: &Vec<PolicyRecord>, rows: &Vec<PolicyContentRow>) -> (infos:
    Vec<OAuthPolicyInfo>)
    ensures
        infos@.len() == policies@.len(),
        forall|k: int| 0 <= k < infos@.len() ==> is_policy_info(#[trigger] infos@[k], policies@[k], rows@),
{
    let mut infos: Vec<OAuthPolicyInfo> = Vec::new();
    let mut k: usize = 0;
    while k < policies.len()
        invariant
            k <= policies.len(),
            infos@.len() == k,
            forall|j: int| 0 <= j < k ==> is_policy_info(#[trigger] infos@[j], policies@[j], rows@),
        decreases policies.len() - k,
    {
        let info = info_of_policy(&policies[k], rows);
        infos.push(info);
        k += 1;
    }
    infos
}

/// The stored policy with id `uuid` with its contents, or `None` when no
/// policy has that id. Of several records with the id (ids are keys, so
/// there are none) the first is shown.
pub fn policy_info(policies: &Vec<PolicyRecord>, rows: &Vec<PolicyContentRow>, uuid: u128) -> (info:
    Option<OAuthPolicyInfo>)
    ensures
        match info {
            None => forall|k: int| 0 <= k < policies@.len() ==> #[trigger] policies@[k].id != uuid,
            Some(i) => exists|k: int|
                0 <= k < policies@.len() && #[trigger] policies@[k].id == uuid && (forall|j: int|
                    0 <= j < k ==> #[trigger] policies@[j].id != uuid) && is_policy_info(
                    i,
                    policies@[k],
                    rows@,
                ),
        },
{
    let mut k: usize = 0;
    while k < policies.len()
        invariant
            k <= policies.len(),
            forall|j: int| 0 <= j < k ==> #[trigger] policies@[j].id != uuid,
        decreases policies.len() - k,
    {
        if policies[k].id == uuid {
            let info = info_of_policy(&policies[k], rows);
            assert(policies@[k as int].id == uuid);
            return Some(info);
        }
        k += 1;
    }
    None
}

/// Content entries ordered by index, as plain values.
pub open spec fn views_sorted(s: Seq<(u128, Seq<char>, Seq<char>, i32)>) -> bool {
    forall|i: int, j: int| 0 <= i < j < s.len() ==> s[i].3 <= s[j].3
}

/// Whether the contents of `policy` among `rows` have pairwise distinct
/// indexes.
pub open spec fn indexes_distinct(rows: Seq<PolicyContentRow>, policy: u128) -> bool {
    let v = policy_rows_view(rows, policy);
    forall|i: int, j: int| 0 <= i < j < v.len() ==> v[i].3 != v[j].3
}

/// Two index-ordered lists with the same entries are the same list when
/// entries of one index are the same entry.
proof fn lemma_sorted_views_equal(
    a: Seq<(u128, Seq<char>, Seq<char>, i32)>,
    b: Seq<(u128, Seq<char>, Seq<char>, i32)>,
)
    requires
        views_sorted(a),
        views_sorted(b),
        a.to_multiset() == b.to_multiset(),
        forall|x: (u128, Seq<char>, Seq<char>, i32), y: (u128, Seq<char>, Seq<char>, i32)|
            a.contains(x) && a.contains(y) && x.3 == y.3 ==> x == y,
    ensures
        a == b,
    decreases a.len(),
{
    a.to_multiset_ensures();
    b.to_multiset_ensures();
    if a.len() == 0 {
        assert(a =~= b);
    } else {
        assert(a.contains(a[0]));
        assert(b.contains(b[0]));
        assert(a.to_multiset().count(a[0]) > 0);
        assert(b.to_multiset().count(b[0]) > 0);
        assert(b.contains(a[0]));
        assert(a.contains(b[0]));
        let i = choose|i: int| 0 <= i < b.len() && b[i] == a[0];
        let j = choose|j: int| 0 <= j < a.len() && a[j] == b[0];
        assert(a[0].3 <= a[j].3);
        assert(b[0].3 <= b[i].3);
        assert(a[0] == b[0]);
        let a1 = a.remove(0);
        let b1 = b.remove(0);
        assert(a1.to_multiset() == a.to_multiset().remove(a[0]));
        assert(b1.to_multiset() == b.to_multiset().remove(b[0]));
        assert forall|x: (u128, Seq<char>, Seq<char>, i32)| a1.contains(x) implies a.contains(x) by {
            let k = choose|k: int| 0 <= k < a1.len() && a1[k] == x;
            assert(a[k + 1] == x);
        }
        assert forall|p: int, q: int| 0 <= p < q < a1.len() implies a1[p].3 <= a1[q].3 by {
            assert(a1[p] == a[p + 1]);
            assert(a1[q] == a[q + 1]);
        }
        assert forall|p: int, q: int| 0 <= p < q < b1.len() implies b1[p].3 <= b1[q].3 by {
            assert(b1[p] == b[p + 1]);
            assert(b1[q] == b[q + 1]);
        }
        lemma_sorted_views_equal(a1, b1);
        assert forall|k: int| 0 <= k < a.len() implies a[k] == b[k] by {
            if k > 0 {
                assert(a[k] == a1[k - 1]);
                assert(b[k] == b1[k - 1]);
            }
        }
        assert(a =~= b);
    }
}

/// The index order of contents carries over to their plain values.
proof fn lemma_contents_views_sorted(cs: Seq<OAuthPolicyContent>)
    requires
        sorted_by_index(cs),
    ensures
        views_sorted(contents_view(cs)),
{
    assert forall|i: int, j: int| 0 <= i < j < contents_view(cs).len() implies contents_view(
        cs,
    )[i].3 <= contents_view(cs)[j].3 by {
        assert(cs[i].index <= cs[j].index);
    }
}

/// Listing all policies and looking one up agree: where the contents of a
/// policy have pairwise distinct indexes (and policy ids are keys), its
/// entry in the listing is exactly what the lookup of its id gives.
pub proof fn lemma_policy_listing_agrees_with_lookup(
    policies: Seq<PolicyRecord>,
    rows: Seq<PolicyContentRow>,
    listed: Seq<OAuthPolicyInfo>,
    k: int,
    looked_up: OAuthPolicyInfo,
)
    requires
        forall|i: int, j: int| 0 <= i < j < policies.len() ==> policies[i].id != policies[j].id,
        listed.len() == policies.len(),
        forall|i: int| 0 <= i < listed.len() ==> is_policy_info(#[trigger] listed[i], policies[i], rows),
        0 <= k < policies.len(),
        exists|m: int|
            0 <= m < policies.len() && #[trigger] policies[m].id == policies[k].id
                && is_policy_info(looked_up, policies[m], rows),
        indexes_distinct(rows, policies[k].id),
    ensures
        policy_info_view(listed[k]) == policy_info_view(looked_up),
{
    let m = choose|m: int|
        0 <= m < policies.len() && #[trigger] policies[m].id == policies[k].id
            && is_policy_info(looked_up, policies[m], rows);
    assert(m == k);
    let a = contents_view(listed[k].content@);
    let b = contents_view(looked_up.content@);
    let v = policy_rows_view(rows, policies[k].id);
    lemma_contents_views_sorted(listed[k].content@);
    lemma_contents_views_sorted(looked_up.content@);
    a.to_multiset_ensures();
    v.to_multiset_ensures();
    assert forall|x: (u128, Seq<char>, Seq<char>, i32), y: (u128, Seq<char>, Seq<char>, i32)|
        a.contains(x) && a.contains(y) && x.3 == y.3 implies x == y by {
        assert(a.to_multiset().count(x) > 0);
        assert(a.to_multiset().count(y) > 0);
        assert(v.contains(x));
        assert(v.contains(y));
        let p = choose|p: int| 0 <= p < v.len() && v[p] == x;
        let q = choose|q: int| 0 <= q < v.len() && v[q] == y;
        if p < q {
            assert(v[p].3 != v[q].3);
        } else if q < p {
            assert(v[q].3 != v[p].3);
        }
    }
    lemma_sorted_views_equal(a, b);
}

/// A byte drawn with `rand::rng()` from `rand::distr::Alphanumeric`, which
/// documents its values as the ASCII letters and digits.
#[verifier::external_body]
fn random_alphanumeric() -> (b: u8)
    ensures
        is_alphanumeric(b as char),
{
    rand::rng().sample(rand::distr::Alphanumeric)
}

/// An ASCII letter or digit.
pub open spec fn is_alphanumeric(c: char) -> bool {
    ('a' <= c <= 'z') || ('A' <= c <= 'Z') || ('0' <= c <= '9')
}

/// A fresh client secret: 32 random ASCII letters and digits.
pub fn generate_client_secret() -> (secret: String)
    ensures
        secret@.len() == 32,
        forall|i: int| 0 <= i < 32 ==> is_alphanumeric(#[trigger] secret@[i]),
{
    let mut chars: Vec<char> = Vec::new();
    let mut i: usize = 0;
    while i < 32
        invariant
            i <= 32,
            chars@.len() == i,
            forall|j: int| 0 <= j < i ==> is_alphanumeric(#[trigger] chars@[j]),
        decreases 32 - i,
    {
        chars.push(random_alphanumeric() as char);
        i += 1;
    }
    crate::email::text_from_chars(chars)
}

} // verus!
