//! Decisions of the administration commands: what each command does, given
//! what the database answered, and the values it derives from its arguments.
use crate::oauth::{contains_id, parse_policy_mapping, spec_parse_policy_mapping, MappingError};
use crate::origins::{comma_entries, comma_list};
use crate::webauthn::{parse_url, spec_parse_url};
use vstd::prelude::*;

verus! {

/// Why an administration command stops before changing anything.
#[derive(Debug, Clone, Copy, PartialEq, Eq, Structural)]
pub enum CommandError {
    /// An entry with the given name already exists.
    AlreadyExists,
    /// No entry has the given name.
    NotFound,
    /// The mapping at this position holds no `:`.
    InvalidMapping(usize),
    /// The group id of the mapping at this position is not a UUID.
    InvalidGroupId(usize),
    /// The group named by the mapping at this position does not exist.
    UnknownGroup(usize),
    /// The policy at this position of the list does not exist.
    UnknownPolicy(usize),
    /// Some of the requested scopes do not exist.
    UnknownScope,
    /// The redirect URI of a new client is not a URL.
    InvalidRedirectUri,
}

/// What a create-or-delete command goes on to do.
#[derive(Debug, Clone, Copy, PartialEq, Eq, Structural)]
pub enum Step {
    /// Create the entry under the given name.
    Create,
    /// Delete the entry with this id.
    Delete(u128),
}

/// A create command needs the name to be free; a delete command needs an
/// entry with that name, which it then deletes.
pub open spec fn name_step(creating: bool, existing: Option<u128>) -> Result<Step, CommandError> {
    if creating {
        match existing {
            Some(_) => Err(CommandError::AlreadyExists),
            None => Ok(Step::Create),
        }
    } else {
        match existing {
            Some(id) => Ok(Step::Delete(id)),
            None => Err(CommandError::NotFound),
        }
    }
}

/// Decides a create-or-delete command from the id found under its name.
pub fn decide_by_name(creating: bool, existing: Option<u128>) -> (r: Result<Step, CommandError>)
    ensures
        r == name_step(creating, existing),
{
    if creating {
        match existing {
            Some(_) => Err(CommandError::AlreadyExists),
            None => Ok(Step::Create),
        }
    } else {
        match existing {
            Some(id) => Ok(Step::Delete(id)),
            None => Err(CommandError::NotFound),
        }
    }
}

/// Creating and deleting user groups.
pub enum GroupCommands {
    Create { name: String },
    Delete { name: String },
}

impl GroupCommands {
    /// Whether the command creates a group.
    pub open spec fn is_create(&self) -> bool {
        self is Create
    }

    /// The name the command works on.
    pub fn name(&self) -> (n: &String)
        ensures
            n == (match self {
                GroupCommands::Create { name } => name,
                GroupCommands::Delete { name } => name,
            }),
    {
        match self {
            GroupCommands::Create { name } => name,
            GroupCommands::Delete { name } => name,
        }
    }

    /// What the command does, given the id of the group with its name.
    pub fn decide(&self, existing: Option<u128>) -> (r: Result<Step, CommandError>)
        ensures
            r == name_step(self.is_create(), existing),
    {
        let creating = match self {
            GroupCommands::Create { .. } => true,
            GroupCommands::Delete { .. } => false,
        };
        decide_by_name(creating, existing)
    }
}

/// Whether `i` is the first position of `ids` whose id is not in `known`.
pub open spec fn first_missing_at(ids: Seq<u128>, known: Seq<u128>, i: int) -> bool {
    &&& 0 <= i < ids.len()
    &&& !known.contains(ids[i])
    &&& forall|j: int| 0 <= j < i ==> known.contains(#[trigger] ids[j])
}

/// The first position of `ids` whose id is not in `known`, if any.
pub fn first_missing(ids: &Vec<u128>, known: &Vec<u128>) -> (r: Option<usize>)
    ensures
        match r {
            Some(i) => first_missing_at(ids@, known@, i as int),
            None => forall|j: int| 0 <= j < ids@.len() ==> known@.contains(#[trigger] ids@[j]),
        },
{
    let mut i: usize = 0;
    while i < ids.len()
        invariant
            i <= ids.len(),
            forall|j: int| 0 <= j < i ==> known@.contains(#[trigger] ids@[j]),
        decreases ids.len() - i,
    {
        if !contains_id(known, ids[i]) {
            return Some(i);
        }
        i += 1;
    }
    None
}

/// Creating and deleting OAuth scopes; a new scope is tied to the given
/// policies, which must all exist.
pub enum OAuthScopeCommands {
    Create { name: String, scope: String, policies: Vec<u128> },
    Delete { name: String },
}

impl OAuthScopeCommands {
    /// The name the command works on.
    pub fn name(&self) -> (n: &String)
        ensures
            n == (match self {
                OAuthScopeCommands::Create { name, .. } => name,
                OAuthScopeCommands::Delete { name } => name,
            }),
    {
        match self {
            OAuthScopeCommands::Create { name, .. } => name,
            OAuthScopeCommands::Delete { name } => name,
        }
    }

    /// What the command does, given the id of the scope with its name and
    /// the ids among its policies that exist. A taken name is reported
    /// before a missing policy, and the first missing policy is named.
    pub fn decide(&self, existing: Option<u128>, known_policies: &Vec<u128>) -> (r: Result<
        Step,
        CommandError,
    >)
        ensures
            match self {
                OAuthScopeCommands::Create { policies, .. } => match r {
                    Ok(s) => s == Step::Create && existing is None && forall|j: int|
                        0 <= j < policies@.len() ==> known_policies@.contains(
                            #[trigger] policies@[j],
                        ),
                    Err(e) => if existing is Some {
                        e == CommandError::AlreadyExists
                    } else {
                        e matches CommandError::UnknownPolicy(i) && first_missing_at(
                            policies@,
                            known_policies@,
                            i as int,
                        )
                    },
                },
                OAuthScopeCommands::Delete { .. } => r == name_step(false, existing),
            },
    {
        match self {
            OAuthScopeCommands::Create { policies, .. } => {
                if existing.is_some() {
                    return Err(CommandError::AlreadyExists);
                }
                match first_missing(policies, known_policies) {
                    Some(i) => Err(CommandError::UnknownPolicy(i)),
                    None => Ok(Step::Create),
                }
            },
            OAuthScopeCommands::Delete { .. } => decide_by_name(false, existing),
        }
    }
}

/// The texts of a list of strings.
pub open spec fn texts(v: Seq<String>) -> Seq<Seq<char>> {
    v.map_values(|s: String| s@)
}

/// A list of (group id, content) pairs with the contents as texts.
pub open spec fn pair_texts(v: Seq<(u128, String)>) -> Seq<(u128, Seq<char>)> {
    v.map_values(|p: (u128, String)| (p.0, p.1@))
}

/// One `group:content` mapping, at position `i`, checked against the
/// groups that exist.
pub open spec fn check_mapping(m: Seq<char>, i: int, known: Seq<u128>) -> Result<
    (u128, Seq<char>),
    CommandError,
> {
    match spec_parse_policy_mapping(m) {
        Ok((id, content)) => if known.contains(id) {
            Ok((id, content))
        } else {
            Err(CommandError::UnknownGroup(i as usize))
        },
        Err(MappingError::InvalidFormat) => Err(CommandError::InvalidMapping(i as usize)),
        Err(MappingError::InvalidGroupId) => Err(CommandError::InvalidGroupId(i as usize)),
    }
}

/// The mappings checked in order: the first refused one decides the error,
/// otherwise every (group id, content) pair in order.
pub open spec fn spec_resolve_mappings(ms: Seq<Seq<char>>, known: Seq<u128>) -> Result<
    Seq<(u128, Seq<char>)>,
    CommandError,
>
    decreases ms.len(),
{
    if ms.len() == 0 {
        Ok(Seq::empty())
    } else {
        match spec_resolve_mappings(ms.drop_last(), known) {
            Err(e) => Err(e),
            Ok(done) => match check_mapping(ms.last(), ms.len() - 1, known) {
                Err(e) => Err(e),
                Ok(x) => Ok(done.push(x)),
            },
        }
    }
}

/// Once a prefix of the mappings is refused, the whole list is refused
/// with the same error.
proof fn lemma_resolve_prefix_err(ms: Seq<Seq<char>>, k: int, known: Seq<u128>)
    requires
        0 <= k <= ms.len(),
        spec_resolve_mappings(ms.take(k), known) is Err,
    ensures
        spec_resolve_mappings(ms, known) == spec_resolve_mappings(ms.take(k), known),
    decreases ms.len(),
{
    if k == ms.len() {
        assert(ms.take(k) =~= ms);
    } else {
        let shorter = ms.drop_last();
        assert(shorter.take(k) =~= ms.take(k));
        lemma_resolve_prefix_err(shorter, k, known);
    }
}

/// Checks the `group:content` mappings of a new policy against the groups
/// that exist.
pub fn resolve_mappings(mappings: &Vec<String>, known_groups: &Vec<u128>) -> (r: Result<
    Vec<(u128, String)>,
    CommandError,
>)
    ensures
        match r {
            Ok(c) => spec_resolve_mappings(texts(mappings@), known_groups@) == Ok::<
                Seq<(u128, Seq<char>)>,
                CommandError,
            >(pair_texts(c@)),
            Err(e) => spec_resolve_mappings(texts(mappings@), known_groups@) == Err::<
                Seq<(u128, Seq<char>)>,
                CommandError,
            >(e),
        },
{
    let ghost ms = texts(mappings@);
    let mut out: Vec<(u128, String)> = Vec::new();
    let mut i: usize = 0;
    assert(ms.take(0) =~= Seq::<Seq<char>>::empty());
    assert(pair_texts(out@) =~= Seq::<(u128, Seq<char>)>::empty());
    while i < mappings.len()
        invariant
            i <= mappings.len(),
            ms == texts(mappings@),
            spec_resolve_mappings(ms.take(i as int), known_groups@) == Ok::<
                Seq<(u128, Seq<char>)>,
                CommandError,
            >(pair_texts(out@)),
        decreases mappings.len() - i,
    {
        let ghost prev = out@;
        let ghost prefix = ms.take(i + 1);
        assert(prefix.drop_last() =~= ms.take(i as int));
        assert(prefix.last() == mappings@[i as int]@);
        match parse_policy_mapping(mappings[i].as_str()) {
            Ok((id, content)) => {
                if !contains_id(known_groups, id) {
                    proof {
                        lemma_resolve_prefix_err(ms, i + 1, known_groups@);
                    }
                    return Err(CommandError::UnknownGroup(i));
                }
                out.push((id, content));
                assert(pair_texts(out@) =~= pair_texts(prev).push((id, content@)));
            },
            Err(MappingError::InvalidFormat) => {
                proof {
                    lemma_resolve_prefix_err(ms, i + 1, known_groups@);
                }
                return Err(CommandError::InvalidMapping(i));
            },
            Err(MappingError::InvalidGroupId) => {
                proof {
                    lemma_resolve_prefix_err(ms, i + 1, known_groups@);
                }
                return Err(CommandError::InvalidGroupId(i));
            },
        }
        i += 1;
    }
    assert(ms.take(mappings.len() as int) =~= ms);
    Ok(out)
}

/// Creating and deleting OAuth policies. A new policy maps groups to the
/// content it yields for their members, each mapping written
/// `group-uuid:content`.
pub enum OAuthPolicyCommands {
    Create { name: String, claim: String, default: String, mappings: Vec<String> },
    Delete { name: String },
}

/// What a policy command goes on to do.
pub enum PolicyStep {
    /// Create the policy and add these (group id, content) pairs to it, in
    /// order.
    Create(Vec<(u128, String)>),
    /// Delete the policy with this id.
    Delete(u128),
}

impl OAuthPolicyCommands {
    /// The name the command works on.
    pub fn name(&self) -> (n: &String)
        ensures
            n == (match self {
                OAuthPolicyCommands::Create { name, .. } => name,
                OAuthPolicyCommands::Delete { name } => name,
            }),
    {
        match self {
            OAuthPolicyCommands::Create { name, .. } => name,
            OAuthPolicyCommands::Delete { name } => name,
        }
    }

    /// What the command does, given the id of the policy with its name and
    /// the ids of the groups that exist among those the mappings name. A
    /// taken name is reported before any mapping is looked at.
    pub fn decide(&self, existing: Option<u128>, known_groups: &Vec<u128>) -> (r: Result<
        PolicyStep,
        CommandError,
    >)
        ensures
            match self {
                OAuthPolicyCommands::Create { mappings, .. } => match r {
                    Ok(PolicyStep::Create(content)) => existing is None && spec_resolve_mappings(
                        texts(mappings@),
                        known_groups@,
                    ) == Ok::<Seq<(u128, Seq<char>)>, CommandError>(pair_texts(content@)),
                    Ok(PolicyStep::Delete(_)) => false,
                    Err(e) => if existing is Some {
                        e == CommandError::AlreadyExists
                    } else {
                        spec_resolve_mappings(texts(mappings@), known_groups@) == Err::<
                            Seq<(u128, Seq<char>)>,
                            CommandError,
                        >(e)
                    },
                },
                OAuthPolicyCommands::Delete { .. } => match r {
                    Ok(PolicyStep::Delete(id)) => existing == Some(id),
                    Ok(PolicyStep::Create(_)) => false,
                    Err(e) => existing is None && e == CommandError::NotFound,
                },
            },
    {
        match self {
            OAuthPolicyCommands::Create { mappings, .. } => {
                if existing.is_some() {
                    return Err(CommandError::AlreadyExists);
                }
                match resolve_mappings(mappings, known_groups) {
                    Ok(content) => Ok(PolicyStep::Create(content)),
                    Err(e) => Err(e),
                }
            },
            OAuthPolicyCommands::Delete { .. } => match existing {
                Some(id) => Ok(PolicyStep::Delete(id)),
                None => Err(CommandError::NotFound),
            },
        }
    }
}

/// Registering and removing OAuth clients. `scope` is the comma-separated
/// list of default scopes; without a pepper the configured default is used.
pub enum OAuthClientCommands {
    Create {
        name: String,
        redirect_uri: String,
        scope: String,
        groups: Vec<u128>,
        require_pkce: bool,
        auth_pepper: Option<String>,
    },
    Delete { name: String },
}

/// What a client command goes on to do.
pub enum ClientStep {
    /// Register the client, confidential or not, with this redirect URI
    /// (the parsed URL), PKCE required or not, hashing its secret with this
    /// pepper, and give it these default scopes.
    Create {
        pepper: String,
        scopes: Vec<String>,
        redirect_uri: String,
        confidential: bool,
        require_pkce: bool,
    },
    /// Remove the client with this id.
    Delete(u128),
}

impl OAuthClientCommands {
    /// The name the command works on.
    pub fn name(&self) -> (n: &String)
        ensures
            n == (match self {
                OAuthClientCommands::Create { name, .. } => name,
                OAuthClientCommands::Delete { name } => name,
            }),
    {
        match self {
            OAuthClientCommands::Create { name, .. } => name,
            OAuthClientCommands::Delete { name } => name,
        }
    }

    /// What the command does, given the id of the client with its name and
    /// the pepper the configuration holds by default.
    pub fn decide(&self, existing: Option<u128>, default_pepper: &String) -> (r: Result<
        ClientStep,
        CommandError,
    >)
        ensures
            match self {
                OAuthClientCommands::Create { scope, auth_pepper, redirect_uri, require_pkce, .. } => match r {
                    Ok(ClientStep::Create { pepper, scopes, redirect_uri: uri, confidential, require_pkce: pkce }) => {
                        &&& existing is None
                        &&& spec_parse_url(redirect_uri@) == Some(uri@)
                        &&& confidential
                        &&& pkce == *require_pkce
                        &&& pepper@ == (match auth_pepper {
                            Some(p) => p@,
                            None => default_pepper@,
                        })
                        &&& texts(scopes@) == comma_entries(scope@)
                    },
                    Ok(ClientStep::Delete(_)) => false,
                    Err(e) => if spec_parse_url(redirect_uri@) is None {
                        e == CommandError::InvalidRedirectUri
                    } else {
                        existing is Some && e == CommandError::AlreadyExists
                    },
                },
                OAuthClientCommands::Delete { .. } => match r {
                    Ok(ClientStep::Delete(id)) => existing == Some(id),
                    Ok(ClientStep::Create { .. }) => false,
                    Err(e) => existing is None && e == CommandError::NotFound,
                },
            },
    {
        match self {
            OAuthClientCommands::Create { scope, auth_pepper, redirect_uri, require_pkce, .. } => {
                let uri = match parse_url(redirect_uri.as_str()) {
                    Some(u) => u,
                    None => {
                        return Err(CommandError::InvalidRedirectUri);
                    },
                };
                if existing.is_some() {
                    return Err(CommandError::AlreadyExists);
                }
                let pepper = match auth_pepper {
                    Some(p) => p.clone(),
                    None => default_pepper.clone(),
                };
                let scopes = comma_list(scope.as_str());
                Ok(
                    ClientStep::Create {
                        pepper,
                        scopes,
                        redirect_uri: uri,
                        confidential: true,
                        require_pkce: *require_pkce,
                    },
                )
            },
            OAuthClientCommands::Delete { .. } => match existing {
                Some(id) => Ok(ClientStep::Delete(id)),
                None => Err(CommandError::NotFound),
            },
        }
    }
}

/// Every requested scope must have been found: the lookup returns one id
/// per scope that exists.
pub fn check_scope_ids(scopes: &Vec<String>, scope_ids: &Vec<u128>) -> (r: Result<(), CommandError>)
    ensures
        r == (if scope_ids.len() == scopes.len() {
            Ok::<(), CommandError>(())
        } else {
            Err(CommandError::UnknownScope)
        }),
{
    if scope_ids.len() != scopes.len() {
        Err(CommandError::UnknownScope)
    } else {
        Ok(())
    }
}

/// Repairing the stored pictures of the astronomy picture of the day.
pub enum ApodCommands {
    /// Makes sure every stored entry has its picture and its preview in the
    /// configured storage.
    FixS3 {
        storage_path: Option<String>,
        s3_bucket: Option<String>,
        s3_region: Option<String>,
        s3_host: Option<String>,
        s3_access_key: Option<String>,
        s3_secret_key: Option<String>,
        s3_force_path_style: bool,
    },
}

/// Where and how pictures are stored: a local path, or an S3 bucket when
/// one is named.
pub struct StorageSettings {
    pub storage_path: String,
    pub s3_bucket: Option<String>,
    pub s3_region: Option<String>,
    pub s3_host: Option<String>,
    pub s3_access_key: Option<String>,
    pub s3_secret_key: Option<String>,
    pub s3_force_path_style: bool,
}

/// A copy of an optional text.
fn copy_text(t: &Option<String>) -> (r: Option<String>)
    ensures
        r == *t,
{
    match t {
        Some(s) => Some(s.clone()),
        None => None,
    }
}

impl ApodCommands {
    /// The storage the command works on: its own options, with the
    /// configured default path when no path is given.
    pub fn storage_settings(&self, default_path: &String) -> (c: StorageSettings)
        ensures
            match self {
                ApodCommands::FixS3 {
                    storage_path,
                    s3_bucket,
                    s3_region,
                    s3_host,
                    s3_access_key,
                    s3_secret_key,
                    s3_force_path_style,
                } => {
                    &&& c.storage_path == (match storage_path {
                        Some(p) => *p,
                        None => *default_path,
                    })
                    &&& c.s3_bucket == *s3_bucket
                    &&& c.s3_region == *s3_region
                    &&& c.s3_host == *s3_host
                    &&& c.s3_access_key == *s3_access_key
                    &&& c.s3_secret_key == *s3_secret_key
                    &&& c.s3_force_path_style == *s3_force_path_style
                },
            },
    {
        match self {
            ApodCommands::FixS3 {
                storage_path,
                s3_bucket,
                s3_region,
                s3_host,
                s3_access_key,
                s3_secret_key,
                s3_force_path_style,
            } => StorageSettings {
                storage_path: match storage_path {
                    Some(p) => p.clone(),
                    None => default_path.clone(),
                },
                s3_bucket: copy_text(s3_bucket),
                s3_region: copy_text(s3_region),
                s3_host: copy_text(s3_host),
                s3_access_key: copy_text(s3_access_key),
                s3_secret_key: copy_text(s3_secret_key),
                s3_force_path_style: *s3_force_path_style,
            },
        }
    }
}

/// The date `year-month-day` written `%Y-%m-%d`, as `chrono` formats a
/// calendar date; `None` when no such date exists.
pub uninterp spec fn spec_iso_date(year: i32, month: u32, day: u32) -> Option<Seq<char>>;

/// A leap year of the Gregorian calendar.
pub open spec fn is_leap_year(year: int) -> bool {
    (year % 4 == 0 && year % 100 != 0) || year % 400 == 0
}

/// The number of days of a month of the Gregorian calendar.
pub open spec fn days_in_month(year: int, month: int) -> int {
    if month == 2 {
        if is_leap_year(year) {
            29
        } else {
            28
        }
    } else if month == 4 || month == 6 || month == 9 || month == 11 {
        30
    } else {
        31
    }
}

/// A day that exists in the Gregorian calendar.
pub open spec fn is_valid_date(year: int, month: int, day: int) -> bool {
    1 <= month <= 12 && 1 <= day <= days_in_month(year, month)
}

/// The decimal digit `n` (0 to 9) as a character.
pub open spec fn digit_char(n: int) -> char {
    (48 + n) as char
}

/// A date of the years 0 to 9999 written `YYYY-MM-DD`, each part padded
/// with zeros.
pub open spec fn iso_text(year: int, month: int, day: int) -> Seq<char> {
    seq![
        digit_char(year / 1000),
        digit_char(year / 100 % 10),
        digit_char(year / 10 % 10),
        digit_char(year % 10),
        '-',
        digit_char(month / 10),
        digit_char(month % 10),
        '-',
        digit_char(day / 10),
        digit_char(day % 10),
    ]
}

/// Builds the date with `chrono::NaiveDate::from_ymd_opt` and formats it
/// with the pattern `%Y-%m-%d`. The contract names the result and states
/// what `chrono` documents for the years 0 to 9999: a date exists exactly
/// when the month and day are valid in the Gregorian calendar, and it is
/// written with a four-digit year and two-digit month and day. How other
/// years are bounded and written is left to `chrono`.
#[verifier::external_body]
fn iso_date(year: i32, month: u32, day: u32) -> (d: Option<String>)
    ensures
        match d {
            Some(t) => spec_iso_date(year, month, day) == Some(t@),
            None => spec_iso_date(year, month, day) is None,
        },
        0 <= year <= 9999 ==> (d is Some <==> is_valid_date(year as int, month as int, day as int)),
        0 <= year <= 9999 ==> (d matches Some(t) ==> t@ == iso_text(year as int, month as int, day as int)),
{
    match chrono::NaiveDate::from_ymd_opt(year, month, day) {
        Some(date) => Some(date.format("%Y-%m-%d").to_string()),
        None => None,
    }
}

/// The names under which the picture of a day and its preview are stored:
/// the date followed by `.webp` and by `_preview.webp`.
pub open spec fn image_names(date: Seq<char>) -> (Seq<char>, Seq<char>) {
    (date + ".webp"@, date + "_preview.webp"@)
}

/// The stored names of the picture of the given day and of its preview;
/// `None` when the day does not exist.
pub fn apod_image_names(year: i32, month: u32, day: u32) -> (r: Option<(String, String)>)
    ensures
        match r {
            Some((normal, preview)) => spec_iso_date(year, month, day) matches Some(d)
                && image_names(d) == (normal@, preview@),
            None => spec_iso_date(year, month, day) is None,
        },
        0 <= year <= 9999 ==> (r is Some <==> is_valid_date(year as int, month as int, day as int)),
        0 <= year <= 9999 ==> (r matches Some((normal, preview)) ==> image_names(
            iso_text(year as int, month as int, day as int),
        ) == (normal@, preview@)),
{
    match iso_date(year, month, day) {
        Some(date) => {
            let normal = date.clone().concat(".webp");
            let preview = date.concat("_preview.webp");
            Some((normal, preview))
        },
        None => None,
    }
}

/// Where the repair of one stored picture stands.
#[derive(Debug, Clone, Copy, PartialEq, Eq, Structural)]
pub enum RepairStage {
    /// Waiting to learn whether the picture is stored.
    CheckingImage,
    /// Waiting for the picture to be fetched from the picture service.
    Fetching,
    /// Waiting to learn whether the preview is stored; `fetched` tells
    /// whether the picture was fetched during this repair.
    CheckingPreview { fetched: bool },
    /// Nothing more to do for this entry.
    Done,
}

/// What the outside world reports back.
#[derive(Debug, Clone, Copy, PartialEq, Eq, Structural)]
pub enum RepairEvent {
    /// Whether the picture is stored.
    ImageStored(bool),
    /// Whether the picture service returned a picture (which was stored).
    ImageFetched(bool),
    /// Whether the preview is stored.
    PreviewStored(bool),
}

/// What to do next.
#[derive(Debug, Clone, Copy, PartialEq, Eq, Structural)]
pub enum RepairAction {
    /// Ask whether the picture is stored.
    CheckImage,
    /// Fetch the picture from the picture service and store it.
    FetchImage,
    /// Ask whether the preview is stored.
    CheckPreview,
    /// Scale the picture down and store it as the preview; the picture is
    /// the one just fetched, or else the stored one.
    MakePreview { from_fetched: bool },
    /// Go on with the next entry.
    Finish,
}

/// The repair of one entry starts by asking whether its picture is stored.
pub open spec fn repair_start() -> (RepairStage, RepairAction) {
    (RepairStage::CheckingImage, RepairAction::CheckImage)
}

/// The repair of one entry as a table from stage and event to the next
/// stage and action; `None` for an event the stage does not wait for.
pub open spec fn spec_repair_step(stage: RepairStage, event: RepairEvent) -> Option<
    (RepairStage, RepairAction),
> {
    match (stage, event) {
        (RepairStage::CheckingImage, RepairEvent::ImageStored(true)) => Some(
            (RepairStage::CheckingPreview { fetched: false }, RepairAction::CheckPreview),
        ),
        (RepairStage::CheckingImage, RepairEvent::ImageStored(false)) => Some(
            (RepairStage::Fetching, RepairAction::FetchImage),
        ),
        (RepairStage::Fetching, RepairEvent::ImageFetched(true)) => Some(
            (RepairStage::CheckingPreview { fetched: true }, RepairAction::CheckPreview),
        ),
        (RepairStage::Fetching, RepairEvent::ImageFetched(false)) => Some(
            (RepairStage::Done, RepairAction::Finish),
        ),
        (RepairStage::CheckingPreview { fetched }, RepairEvent::PreviewStored(true)) => Some(
            (RepairStage::Done, RepairAction::Finish),
        ),
        (RepairStage::CheckingPreview { fetched }, RepairEvent::PreviewStored(false)) => Some(
            (RepairStage::Done, RepairAction::MakePreview { from_fetched: fetched }),
        ),
        _ => None,
    }
}

/// The first stage and action of the repair of one entry.
pub fn start_repair() -> (r: (RepairStage, RepairAction))
    ensures
        r == repair_start(),
{
    (RepairStage::CheckingImage, RepairAction::CheckImage)
}

/// The next stage and action of the repair of one entry.
pub fn repair_step(stage: RepairStage, event: RepairEvent) -> (r: Option<(RepairStage, RepairAction)>)
    ensures
        r == spec_repair_step(stage, event),
{
    match stage {
        RepairStage::CheckingImage => match event {
            RepairEvent::ImageStored(true) => Some(
                (RepairStage::CheckingPreview { fetched: false }, RepairAction::CheckPreview),
            ),
            RepairEvent::ImageStored(false) => Some((RepairStage::Fetching, RepairAction::FetchImage)),
            _ => None,
        },
        RepairStage::Fetching => match event {
            RepairEvent::ImageFetched(true) => Some(
                (RepairStage::CheckingPreview { fetched: true }, RepairAction::CheckPreview),
            ),
            RepairEvent::ImageFetched(false) => Some((RepairStage::Done, RepairAction::Finish)),
            _ => None,
        },
        RepairStage::CheckingPreview { fetched } => match event {
            RepairEvent::PreviewStored(true) => Some((RepairStage::Done, RepairAction::Finish)),
            RepairEvent::PreviewStored(false) => Some(
                (RepairStage::Done, RepairAction::MakePreview { from_fetched: fetched }),
            ),
            _ => None,
        },
        RepairStage::Done => None,
    }
}

/// When a policy's mappings are accepted, the policy gets one content per
/// mapping, in order: the mapping's group and the text after its first
/// `:`, and every such group exists.
pub proof fn lemma_resolved_mappings_pointwise(ms: Seq<Seq<char>>, known: Seq<u128>)
    requires
        spec_resolve_mappings(ms, known) is Ok,
    ensures
        ({
            let c = spec_resolve_mappings(ms, known)->Ok_0;
            &&& c.len() == ms.len()
            &&& forall|i: int|
                0 <= i < ms.len() ==> spec_parse_policy_mapping(#[trigger] ms[i]) == Ok::<
                    (u128, Seq<char>),
                    MappingError,
                >(c[i]) && known.contains(c[i].0)
        }),
    decreases ms.len(),
{
    if ms.len() > 0 {
        let shorter = ms.drop_last();
        lemma_resolved_mappings_pointwise(shorter, known);
        let c = spec_resolve_mappings(ms, known)->Ok_0;
        let d = spec_resolve_mappings(shorter, known)->Ok_0;
        assert forall|i: int| 0 <= i < ms.len() implies spec_parse_policy_mapping(
            #[trigger] ms[i],
        ) == Ok::<(u128, Seq<char>), MappingError>(c[i]) && known.contains(c[i].0) by {
            if i < ms.len() - 1 {
                assert(ms[i] == shorter[i]);
                assert(c[i] == d[i]);
            }
        }
    }
}

/// The stage a repair reaches after the given events, starting at `stage`;
/// `None` once an event arrives that the stage does not wait for.
pub open spec fn repair_run(stage: RepairStage, events: Seq<RepairEvent>) -> Option<RepairStage>
    decreases events.len(),
{
    if events.len() == 0 {
        Some(stage)
    } else {
        match spec_repair_step(stage, events[0]) {
            Some((next, _)) => repair_run(next, events.drop_first()),
            None => None,
        }
    }
}

/// A preview is made only after the storage reported it missing, and it is
/// made from the fetched picture exactly when the picture was fetched
/// during this repair.
pub proof fn lemma_preview_only_when_missing(
    stage: RepairStage,
    event: RepairEvent,
    next: RepairStage,
    from_fetched: bool,
)
    requires
        spec_repair_step(stage, event) == Some(
            (next, RepairAction::MakePreview { from_fetched }),
        ),
    ensures
        event == RepairEvent::PreviewStored(false),
        stage == (RepairStage::CheckingPreview { fetched: from_fetched }),
        next == RepairStage::Done,
{
}

/// The repair of one entry takes at most three answers: no fourth event is
/// ever accepted.
pub proof fn lemma_repair_ends(events: Seq<RepairEvent>)
    requires
        events.len() > 3,
    ensures
        repair_run(repair_start().0, events) is None,
{
    reveal_with_fuel(repair_run, 5);
    let e = events;
    let s0 = RepairStage::CheckingImage;
    match spec_repair_step(s0, e[0]) {
        None => {},
        Some((s1, _)) => {
            let e1 = e.drop_first();
            assert(e1[0] == e[1]);
            match spec_repair_step(s1, e1[0]) {
                None => {},
                Some((s2, _)) => {
                    let e2 = e1.drop_first();
                    assert(e2[0] == e[2]);
                    match spec_repair_step(s2, e2[0]) {
                        None => {},
                        Some((s3, _)) => {
                            let e3 = e2.drop_first();
                            assert(e3[0] == e[3]);
                            assert(s3 == RepairStage::Done);
                            assert(spec_repair_step(s3, e3[0]) is None);
                            assert(repair_run(s3, e3) is None);
                            assert(repair_run(s2, e2) is None);
                            assert(repair_run(s1, e1) is None);
                        },
                    }
                },
            }
        },
    }
}

} // verus!
