use vstd::prelude::*;

verus! {

/// What a share (or the public link) of a note allows.
#[derive(Debug, Clone, Copy, PartialEq, Eq, Structural)]
pub enum NoteShareAccess {
    View,
    Edit,
}

/// A user a note is shared with, and how.
#[derive(Debug, Clone, Copy, PartialEq, Eq, Structural)]
pub struct NoteShareEntry {
    pub user_id: u128,
    pub access: NoteShareAccess,
}

/// A stored note: its id, its owner and what the public link allows.
#[derive(Debug, Clone, Copy, PartialEq, Eq, Structural)]
pub struct NoteRecord {
    pub id: u128,
    pub owner: u128,
    pub public_access: Option<NoteShareAccess>,
}

/// A stored share row: `note` is shared with `user`.
#[derive(Debug, Clone, Copy, PartialEq, Eq, Structural)]
pub struct NoteShareRow {
    pub note: u128,
    pub user: u128,
    pub access: NoteShareAccess,
}

/// How a note shows in a user's note list.
#[derive(Debug, Clone, Copy, PartialEq, Eq, Structural)]
pub struct NoteListFlags {
    pub id: u128,
    pub is_owner: bool,
    pub can_edit: bool,
}

/// Why an ownership transfer was refused.
#[derive(Debug, Clone, Copy, PartialEq, Eq, Structural)]
pub enum TransferError {
    /// The note would be transferred to its current owner.
    SelfTransfer,
    /// The note does not exist.
    NoteNotFound,
    /// The initiator does not own the note.
    Forbidden,
    /// The recipient does not exist.
    UserNotFound,
}

pub open spec fn spec_is_owner(note: Option<NoteRecord>, user: u128) -> bool {
    match note {
        Some(n) => n.owner == user,
        None => false,
    }
}

pub open spec fn public_access_of(note: Option<NoteRecord>) -> Option<NoteShareAccess> {
    match note {
        Some(n) => n.public_access,
        None => None,
    }
}

/// `rows` hold a share of note `note_id` with `user` that grants `access`.
pub open spec fn has_share(
    rows: Seq<NoteShareRow>,
    note_id: u128,
    user: u128,
) -> bool {
    exists|i: int| 0 <= i < rows.len() && #[trigger] rows[i].note == note_id && rows[i].user == user
}

pub open spec fn has_edit_share(rows: Seq<NoteShareRow>, note_id: u128, user: u128) -> bool {
    exists|i: int|
        0 <= i < rows.len() && #[trigger] rows[i].note == note_id && rows[i].user == user
            && rows[i].access == NoteShareAccess::Edit
}

/// A user may open a note when they own it, when it has a public link, or
/// when it is shared with them.
pub open spec fn spec_has_access(
    note_id: u128,
    note: Option<NoteRecord>,
    rows: Seq<NoteShareRow>,
    user: u128,
) -> bool {
    spec_is_owner(note, user) || public_access_of(note) is Some || has_share(rows, note_id, user)
}

/// A user may edit a note when they own it, when it is shared with them for
/// editing, or when its public link allows editing.
pub open spec fn spec_can_edit(
    note_id: u128,
    note: Option<NoteRecord>,
    rows: Seq<NoteShareRow>,
    user: u128,
) -> bool {
    spec_is_owner(note, user) || has_edit_share(rows, note_id, user) || public_access_of(note)
        == Some(NoteShareAccess::Edit)
}

/// Whether `user` owns the note (`None`: the note does not exist).
pub fn is_owner(note: Option<NoteRecord>, user: u128) -> (b: bool)
    ensures
        b == spec_is_owner(note, user),
{
    match note {
        Some(n) => n.owner == user,
        None => false,
    }
}

fn find_share(rows: &Vec<NoteShareRow>, note_id: u128, user: u128, edit_only: bool) -> (b: bool)
    ensures
        b == (if edit_only {
            has_edit_share(rows@, note_id, user)
        } else {
            has_share(rows@, note_id, user)
        }),
{
    let mut i: usize = 0;
    while i < rows.len()
        invariant
            i <= rows.len(),
            forall|k: int|
                0 <= k < i ==> !(#[trigger] rows@[k].note == note_id && rows@[k].user == user && (
                !edit_only || rows@[k].access == NoteShareAccess::Edit)),
        decreases rows.len() - i,
    {
        let row = rows[i];
        if row.note == note_id && row.user == user && (!edit_only || row.access
            == NoteShareAccess::Edit) {
            assert(rows@[i as int] == row);
            return true;
        }
        i += 1;
    }
    false
}

/// Whether `user` may open note `note_id`, given the note (if it exists) and
/// the stored share rows.
pub fn has_access(
    note_id: u128,
    note: Option<NoteRecord>,
    rows: &Vec<NoteShareRow>,
    user: u128,
) -> (b: bool)
    ensures
        b == spec_has_access(note_id, note, rows@, user),
{
    if is_owner(note, user) {
        return true;
    }
    let public = match note {
        Some(n) => n.public_access,
        None => None,
    };
    if public.is_some() {
        return true;
    }
    find_share(rows, note_id, user, false)
}

/// Whether `user` may edit note `note_id`.
pub fn can_edit(
    note_id: u128,
    note: Option<NoteRecord>,
    rows: &Vec<NoteShareRow>,
    user: u128,
) -> (b: bool)
    ensures
        b == spec_can_edit(note_id, note, rows@, user),
{
    if is_owner(note, user) {
        return true;
    }
    if find_share(rows, note_id, user, true) {
        return true;
    }
    match note {
        Some(n) => match n.public_access {
            Some(NoteShareAccess::Edit) => true,
            _ => false,
        },
        None => false,
    }
}


/// The shares that remain when a note owned by `owner` is shared with
/// `shared_with`: the owner never holds a share of their own note.
pub open spec fn spec_shares_without_owner(
    shared_with: Seq<NoteShareEntry>,
    owner: u128,
) -> Seq<NoteShareEntry> {
    shared_with.filter(|s: NoteShareEntry| s.user_id != owner)
}

/// The share entries to store when `note` gets the shares `shared_with`:
/// the given entries in order, without those of the owner.
pub fn shares_without_owner(shared_with: &Vec<NoteShareEntry>, owner: u128) -> (kept: Vec<
    NoteShareEntry,
>)
    ensures
        kept@ == spec_shares_without_owner(shared_with@, owner),
{
    let mut kept: Vec<NoteShareEntry> = Vec::new();
    let mut i: usize = 0;
    while i < shared_with.len()
        invariant
            i <= shared_with.len(),
            kept@ == spec_shares_without_owner(shared_with@.take(i as int), owner),
        decreases shared_with.len() - i,
    {
        let entry = shared_with[i];
        proof {
            reveal(Seq::filter);
            assert(shared_with@.take(i + 1).drop_last() =~= shared_with@.take(i as int));
            assert(shared_with@.take(i + 1).last() == entry);
        }
        if entry.user_id != owner {
            kept.push(entry);
        }
        i += 1;
    }
    assert(shared_with@.take(shared_with.len() as int) =~= shared_with@);
    kept
}

/// `k` is the position of the first entry of `user` in `s`.
pub open spec fn is_first_share(s: Seq<NoteShareEntry>, user: u128, k: int) -> bool {
    &&& 0 <= k < s.len()
    &&& s[k].user_id == user
    &&& forall|j: int| 0 <= j < k ==> #[trigger] s[j].user_id != user
}

/// The shares after the owner of a note hands it from `current_owner` to
/// `new_owner`: the recipient loses any share it had, and the previous owner
/// keeps edit access, through its first existing entry or a new one at the end.
pub open spec fn spec_transfer_shares(
    shares: Seq<NoteShareEntry>,
    current_owner: u128,
    new_owner: u128,
) -> Seq<NoteShareEntry> {
    let kept = spec_shares_without_owner(shares, new_owner);
    let entry = NoteShareEntry { user_id: current_owner, access: NoteShareAccess::Edit };
    if exists|k: int| is_first_share(kept, current_owner, k) {
        kept.update(choose|k: int| is_first_share(kept, current_owner, k), entry)
    } else {
        kept.push(entry)
    }
}

proof fn lemma_first_share_unique(s: Seq<NoteShareEntry>, user: u128, a: int, b: int)
    requires
        is_first_share(s, user, a),
        is_first_share(s, user, b),
    ensures
        a == b,
{
    if a < b {
        assert(s[a].user_id != user);
    } else if b < a {
        assert(s[b].user_id != user);
    }
}

fn first_share_position(s: &Vec<NoteShareEntry>, user: u128) -> (r: Option<usize>)
    ensures
        match r {
            Some(k) => is_first_share(s@, user, k as int),
            None => forall|j: int| 0 <= j < s.len() ==> #[trigger] s@[j].user_id != user,
        },
{
    let mut i: usize = 0;
    while i < s.len()
        invariant
            i <= s.len(),
            forall|j: int| 0 <= j < i ==> #[trigger] s@[j].user_id != user,
        decreases s.len() - i,
    {
        if s[i].user_id == user {
            return Some(i);
        }
        i += 1;
    }
    None
}

/// The decision of an ownership transfer of a note from `current_owner` to
/// `new_owner`: the checks in the order they are made (self transfer,
/// missing note, initiator not the owner, missing recipient) and,
/// when they pass, the share entries the note must hold afterwards. `shares`
/// are the note's current share entries.
pub fn transfer_owner(
    note: Option<NoteRecord>,
    current_owner: u128,
    new_owner: u128,
    new_owner_exists: bool,
    shares: &Vec<NoteShareEntry>,
) -> (res: Result<Vec<NoteShareEntry>, TransferError>)
    ensures
        current_owner == new_owner ==> res == Err::<Vec<NoteShareEntry>, _>(
            TransferError::SelfTransfer,
        ),
        current_owner != new_owner && note is None ==> res == Err::<Vec<NoteShareEntry>, _>(
            TransferError::NoteNotFound,
        ),
        current_owner != new_owner && note is Some && note->Some_0.owner != current_owner ==> res
            == Err::<Vec<NoteShareEntry>, _>(TransferError::Forbidden),
        current_owner != new_owner && note is Some && note->Some_0.owner == current_owner
            && !new_owner_exists ==> res == Err::<Vec<NoteShareEntry>, _>(
            TransferError::UserNotFound,
        ),
        current_owner != new_owner && note is Some && note->Some_0.owner == current_owner
            && new_owner_exists ==> res is Ok && res->Ok_0@ == spec_transfer_shares(
            shares@,
            current_owner,
            new_owner,
        ),
{
    if current_owner == new_owner {
        return Err(TransferError::SelfTransfer);
    }
    let n = match note {
        Some(n) => n,
        None => {
            return Err(TransferError::NoteNotFound);
        },
    };
    if n.owner != current_owner {
        return Err(TransferError::Forbidden);
    }
    if !new_owner_exists {
        return Err(TransferError::UserNotFound);
    }
    let mut kept = shares_without_owner(shares, new_owner);
    let ghost kept0 = kept@;
    let entry = NoteShareEntry { user_id: current_owner, access: NoteShareAccess::Edit };
    match first_share_position(&kept, current_owner) {
        Some(i) => {
            proof {
                let c = choose|k: int| is_first_share(kept0, current_owner, k);
                lemma_first_share_unique(kept0, current_owner, c, i as int);
            }
            kept.set(i, entry);
        },
        None => {
            proof {
                if exists|k: int| is_first_share(kept0, current_owner, k) {
                    let c = choose|k: int| is_first_share(kept0, current_owner, k);
                    assert(kept0[c].user_id != current_owner);
                }
            }
            kept.push(entry);
        },
    }
    Ok(kept)
}


/// The share rows of note `note_id` that the entries `entries` stand for.
pub open spec fn share_rows(note_id: u128, entries: Seq<NoteShareEntry>) -> Seq<NoteShareRow> {
    entries.map_values(|e: NoteShareEntry| NoteShareRow { note: note_id, user: e.user_id, access: e.access })
}

proof fn lemma_kept_contains(shares: Seq<NoteShareEntry>, owner: u128, e: NoteShareEntry)
    ensures
        spec_shares_without_owner(shares, owner).contains(e) <==> (shares.contains(e)
            && e.user_id != owner),
{
    let pred = |s: NoteShareEntry| s.user_id != owner;
    let kept = shares.filter(pred);
    if kept.contains(e) {
        shares.lemma_filter_contains_rev(pred, e);
        let i = choose|i: int| 0 <= i < kept.len() && kept[i] == e;
        shares.lemma_filter_pred(pred, i);
    }
    if shares.contains(e) && e.user_id != owner {
        let i = choose|i: int| 0 <= i < shares.len() && shares[i] == e;
        shares.lemma_filter_contains(pred, i);
    }
}

/// After a transfer the recipient holds no share of the note it now owns.
pub proof fn lemma_transfer_removes_recipient(
    shares: Seq<NoteShareEntry>,
    current_owner: u128,
    new_owner: u128,
)
    requires
        current_owner != new_owner,
    ensures
        forall|i: int|
            0 <= i < spec_transfer_shares(shares, current_owner, new_owner).len()
                ==> #[trigger] spec_transfer_shares(shares, current_owner, new_owner)[i].user_id
                != new_owner,
{
    let kept = spec_shares_without_owner(shares, new_owner);
    let res = spec_transfer_shares(shares, current_owner, new_owner);
    assert forall|i: int| 0 <= i < res.len() implies #[trigger] res[i].user_id != new_owner by {
        if i < kept.len() && res[i] == kept[i] {
            shares.lemma_filter_pred(|s: NoteShareEntry| s.user_id != new_owner, i);
        }
    }
}

/// After a transfer the previous owner holds an edit share of the note.
pub proof fn lemma_transfer_keeps_previous_owner_editing(
    shares: Seq<NoteShareEntry>,
    current_owner: u128,
    new_owner: u128,
)
    ensures
        spec_transfer_shares(shares, current_owner, new_owner).contains(
            NoteShareEntry { user_id: current_owner, access: NoteShareAccess::Edit },
        ),
{
    let kept = spec_shares_without_owner(shares, new_owner);
    let res = spec_transfer_shares(shares, current_owner, new_owner);
    let entry = NoteShareEntry { user_id: current_owner, access: NoteShareAccess::Edit };
    if exists|k: int| is_first_share(kept, current_owner, k) {
        let k = choose|k: int| is_first_share(kept, current_owner, k);
        assert(res[k] == entry);
    } else {
        assert(res[res.len() - 1] == entry);
    }
}

/// A transfer leaves the shares of everyone but the two parties untouched.
pub proof fn lemma_transfer_keeps_bystanders(
    shares: Seq<NoteShareEntry>,
    current_owner: u128,
    new_owner: u128,
    e: NoteShareEntry,
)
    requires
        e.user_id != current_owner,
        e.user_id != new_owner,
    ensures
        spec_transfer_shares(shares, current_owner, new_owner).contains(e) <==> shares.contains(
            e,
        ),
{
    let kept = spec_shares_without_owner(shares, new_owner);
    let res = spec_transfer_shares(shares, current_owner, new_owner);
    let entry = NoteShareEntry { user_id: current_owner, access: NoteShareAccess::Edit };
    lemma_kept_contains(shares, new_owner, e);
    if exists|k: int| is_first_share(kept, current_owner, k) {
        let k = choose|k: int| is_first_share(kept, current_owner, k);
        if res.contains(e) {
            let i = choose|i: int| 0 <= i < res.len() && res[i] == e;
            assert(i != k);
            assert(kept[i] == e);
        }
        if kept.contains(e) {
            let i = choose|i: int| 0 <= i < kept.len() && kept[i] == e;
            assert(i != k);
            assert(res[i] == e);
        }
    } else {
        if res.contains(e) {
            let i = choose|i: int| 0 <= i < res.len() && res[i] == e;
            assert(i < kept.len());
            assert(kept[i] == e);
        }
        if kept.contains(e) {
            let i = choose|i: int| 0 <= i < kept.len() && kept[i] == e;
            assert(res[i] == e);
        }
    }
}

proof fn lemma_rows_share(note_id: u128, entries: Seq<NoteShareEntry>, user: u128)
    ensures
        has_share(share_rows(note_id, entries), note_id, user) <==> exists|a: NoteShareAccess|
            entries.contains(NoteShareEntry { user_id: user, access: a }),
        has_edit_share(share_rows(note_id, entries), note_id, user) <==> entries.contains(
            NoteShareEntry { user_id: user, access: NoteShareAccess::Edit },
        ),
{
    let rows = share_rows(note_id, entries);
    if has_share(rows, note_id, user) {
        let i = choose|i: int| 0 <= i < rows.len() && #[trigger] rows[i].note == note_id && rows[i].user == user;
        assert(entries[i] == NoteShareEntry { user_id: user, access: entries[i].access });
        assert(entries.contains(NoteShareEntry { user_id: user, access: entries[i].access }));
    }
    if exists|a: NoteShareAccess| entries.contains(NoteShareEntry { user_id: user, access: a }) {
        let a = choose|a: NoteShareAccess| entries.contains(NoteShareEntry { user_id: user, access: a });
        let i = choose|i: int| 0 <= i < entries.len() && entries[i] == NoteShareEntry { user_id: user, access: a };
        assert(rows[i].note == note_id && rows[i].user == user);
    }
    if has_edit_share(rows, note_id, user) {
        let i = choose|i: int|
            0 <= i < rows.len() && #[trigger] rows[i].note == note_id && rows[i].user == user
                && rows[i].access == NoteShareAccess::Edit;
        assert(entries[i] == NoteShareEntry { user_id: user, access: NoteShareAccess::Edit });
    }
    if entries.contains(NoteShareEntry { user_id: user, access: NoteShareAccess::Edit }) {
        let i = choose|i: int| 0 <= i < entries.len() && entries[i] == NoteShareEntry { user_id: user, access: NoteShareAccess::Edit };
        assert(rows[i].note == note_id && rows[i].user == user && rows[i].access == NoteShareAccess::Edit);
    }
}

/// What a transfer means for access: the recipient becomes the owner, the
/// previous owner can still edit, and every other user can open and edit the
/// note exactly as before.
pub proof fn lemma_transfer_access(
    note: NoteRecord,
    shares: Seq<NoteShareEntry>,
    current_owner: u128,
    new_owner: u128,
    user: u128,
)
    requires
        note.owner == current_owner,
        current_owner != new_owner,
    ensures
        ({
            let after = NoteRecord { owner: new_owner, ..note };
            let rows_after = share_rows(note.id, spec_transfer_shares(shares, current_owner, new_owner));
            let rows_before = share_rows(note.id, shares);
            &&& spec_is_owner(Some(after), new_owner)
            &&& !spec_is_owner(Some(after), current_owner)
            &&& spec_can_edit(note.id, Some(after), rows_after, current_owner)
            &&& (user != current_owner && user != new_owner) ==> (spec_has_access(
                note.id,
                Some(after),
                rows_after,
                user,
            ) == spec_has_access(note.id, Some(note), rows_before, user) && spec_can_edit(
                note.id,
                Some(after),
                rows_after,
                user,
            ) == spec_can_edit(note.id, Some(note), rows_before, user))
        }),
{
    let res = spec_transfer_shares(shares, current_owner, new_owner);
    lemma_transfer_keeps_previous_owner_editing(shares, current_owner, new_owner);
    lemma_rows_share(note.id, res, current_owner);
    if user != current_owner && user != new_owner {
        lemma_rows_share(note.id, res, user);
        lemma_rows_share(note.id, shares, user);
        lemma_transfer_keeps_bystanders(
            shares,
            current_owner,
            new_owner,
            NoteShareEntry { user_id: user, access: NoteShareAccess::Edit },
        );
        lemma_transfer_keeps_bystanders(
            shares,
            current_owner,
            new_owner,
            NoteShareEntry { user_id: user, access: NoteShareAccess::View },
        );
        if exists|a: NoteShareAccess| res.contains(NoteShareEntry { user_id: user, access: a }) {
            let a = choose|a: NoteShareAccess| res.contains(NoteShareEntry { user_id: user, access: a });
            match a {
                NoteShareAccess::Edit => {},
                NoteShareAccess::View => {},
            }
        }
        if exists|a: NoteShareAccess| shares.contains(NoteShareEntry { user_id: user, access: a }) {
            let a = choose|a: NoteShareAccess| shares.contains(NoteShareEntry { user_id: user, access: a });
            match a {
                NoteShareAccess::Edit => {},
                NoteShareAccess::View => {},
            }
        }
    }
}


/// Whether a note shows in `user`'s note list: owned, shared with them, or
/// publicly linked.
pub open spec fn listed_for(n: NoteRecord, rows: Seq<NoteShareRow>, user: u128) -> bool {
    n.owner == user || has_share(rows, n.id, user) || n.public_access is Some
}

/// The flags a listed note carries, given the share rows that grant edit
/// rights. In the list, edit rights come from ownership or an edit share; a
/// publicly editable link does not count.
pub open spec fn list_flags(n: NoteRecord, rows: Seq<NoteShareRow>, user: u128) -> NoteListFlags {
    NoteListFlags {
        id: n.id,
        is_owner: n.owner == user,
        can_edit: n.owner == user || has_edit_share(rows, n.id, user),
    }
}

/// Whether and with which flags a note shows in `user`'s list: it shows by
/// `rows`, and its edit right comes from `edit_rows`.
pub open spec fn list_choice(rows: Seq<NoteShareRow>, edit_rows: Seq<NoteShareRow>, user: u128) -> spec_fn(
    NoteRecord,
) -> Option<NoteListFlags> {
    |n: NoteRecord|
        if listed_for(n, rows, user) {
            Some(list_flags(n, edit_rows, user))
        } else {
            None
        }
}

/// `user`'s note list: the notes among `notes` that show by `rows`, in
/// order, with flags whose edit right comes from `edit_rows`.
pub open spec fn spec_list_for_user(
    notes: Seq<NoteRecord>,
    rows: Seq<NoteShareRow>,
    edit_rows: Seq<NoteShareRow>,
    user: u128,
) -> Seq<NoteListFlags> {
    notes.filter_map(list_choice(rows, edit_rows, user))
}

/// A stored note together with what listings show of it: its title, its
/// preview and its owner's name.
#[derive(Debug, Clone, PartialEq, Eq)]
pub struct StoredNote {
    pub record: NoteRecord,
    pub title: String,
    pub preview: String,
    pub owner_name: String,
}

/// What a user sees of a note in their list or when opening it.
#[derive(Debug, Clone, PartialEq, Eq)]
pub struct NoteInfo {
    pub id: u128,
    pub title: String,
    pub preview: String,
    pub owner: u128,
    pub owner_name: String,
    /// The users the note is shared with, with their names and how, in the
    /// order of the stored share rows.
    pub shared_with: Vec<SharedUserInfo>,
    pub public_access: Option<NoteShareAccess>,
    pub is_owner: bool,
    pub can_edit: bool,
}

/// The records of stored notes.
pub open spec fn records(notes: Seq<StoredNote>) -> Seq<NoteRecord> {
    notes.map_values(|n: StoredNote| n.record)
}

/// A stored share row together with the name of the user it names; `None`
/// when that user's row no longer exists.
#[derive(Debug, Clone, PartialEq, Eq)]
pub struct SharedRow {
    pub row: NoteShareRow,
    pub user_name: Option<String>,
}

/// A user a note is shared with, as listings show it.
#[derive(Debug, Clone, PartialEq, Eq)]
pub struct SharedUserInfo {
    pub id: u128,
    pub name: String,
    pub access: NoteShareAccess,
}

/// The plain share rows of joined rows.
pub open spec fn plain_rows(shares: Seq<SharedRow>) -> Seq<NoteShareRow> {
    shares.map_values(|s: SharedRow| s.row)
}

/// The share rows whose user exists, in order.
pub open spec fn named_rows(shares: Seq<SharedRow>) -> Seq<NoteShareRow> {
    plain_rows(shares.filter(|s: SharedRow| s.user_name is Some))
}

/// The users note `note_id` is shared with: its share rows whose user
/// exists, in order, as (user, name, access).
pub open spec fn shared_with_of(shares: Seq<SharedRow>, note_id: u128) -> Seq<
    (u128, Seq<char>, NoteShareAccess),
> {
    shares.filter(|s: SharedRow| s.row.note == note_id && s.user_name is Some).map_values(
        |s: SharedRow| (s.row.user, s.user_name->Some_0@, s.row.access),
    )
}

/// Shared users as plain values.
pub open spec fn shared_view(v: Seq<SharedUserInfo>) -> Seq<(u128, Seq<char>, NoteShareAccess)> {
    v.map_values(|u: SharedUserInfo| (u.id, u.name@, u.access))
}

/// `info` is what `user` sees of note `n`, given the joined share rows and whether
/// they may edit it.
pub open spec fn is_note_info(
    info: NoteInfo,
    n: StoredNote,
    shares: Seq<SharedRow>,
    user: u128,
    can_edit: bool,
) -> bool {
    &&& info.id == n.record.id
    &&& info.title@ == n.title@
    &&& info.preview@ == n.preview@
    &&& info.owner == n.record.owner
    &&& info.owner_name@ == n.owner_name@
    &&& shared_view(info.shared_with@) == shared_with_of(shares, n.record.id)
    &&& info.public_access == n.record.public_access
    &&& info.is_owner == (n.record.owner == user)
    &&& info.can_edit == can_edit
}

/// The flags of a list of note infos.
pub open spec fn info_flags(list: Seq<NoteInfo>) -> Seq<NoteListFlags> {
    list.map_values(
        |i: NoteInfo| NoteListFlags { id: i.id, is_owner: i.is_owner, can_edit: i.can_edit },
    )
}

/// The positions, in order, of the notes `user` sees in their list.
pub open spec fn listed_positions(notes: Seq<NoteRecord>, rows: Seq<NoteShareRow>, user: u128) -> Seq<
    int,
>
    decreases notes.len(),
{
    if notes.len() == 0 {
        Seq::empty()
    } else {
        let p = listed_positions(notes.drop_last(), rows, user);
        if listed_for(notes.last(), rows, user) {
            p.push(notes.len() - 1)
        } else {
            p
        }
    }
}

proof fn lemma_positions_bounded(notes: Seq<NoteRecord>, rows: Seq<NoteShareRow>, user: u128)
    ensures
        forall|k: int|
            0 <= k < listed_positions(notes, rows, user).len() ==> 0 <= #[trigger] listed_positions(
                notes,
                rows,
                user,
            )[k] < notes.len(),
    decreases notes.len(),
{
    if notes.len() > 0 {
        let shorter = notes.drop_last();
        lemma_positions_bounded(shorter, rows, user);
        let p = listed_positions(shorter, rows, user);
        let q = listed_positions(notes, rows, user);
        assert forall|k: int| 0 <= k < q.len() implies 0 <= #[trigger] q[k] < notes.len() by {
            if k < p.len() {
                assert(q[k] == p[k]);
            }
        }
    }
}

/// The share entries of note `note_id`, in the order of the rows.
pub fn shared_with(shares: &Vec<SharedRow>, note_id: u128) -> (users: Vec<SharedUserInfo>)
    ensures
        shared_view(users@) == shared_with_of(shares@, note_id),
{
    let mut out: Vec<SharedUserInfo> = Vec::new();
    let mut i: usize = 0;
    assert(shared_view(out@) =~= Seq::<(u128, Seq<char>, NoteShareAccess)>::empty());
    assert(shares@.take(0) =~= Seq::<SharedRow>::empty());
    while i < shares.len()
        invariant
            i <= shares.len(),
            shared_view(out@) == shared_with_of(shares@.take(i as int), note_id),
        decreases shares.len() - i,
    {
        let s = &shares[i];
        let ghost prev = shared_view(out@);
        proof {
            reveal(Seq::filter);
            assert(shares@.take(i + 1).drop_last() =~= shares@.take(i as int));
            assert(shares@.take(i + 1).last() == *s);
        }
        if s.row.note == note_id {
            match &s.user_name {
                Some(name) => {
                    let ghost before = out@;
                    let u = SharedUserInfo { id: s.row.user, name: name.clone(), access: s.row.access };
                    out.push(u);
                    proof {
                        let v = (s.row.user, name@, s.row.access);
                        assert(s.user_name == Some(*name));
                        assert(shared_with_of(shares@.take(i + 1), note_id) =~= prev.push(v));
                        assert(shared_view(out@) =~= shared_view(before).push(v));
                    }
                },
                None => {
                    assert(shared_view(out@) =~= shared_with_of(shares@.take(i + 1), note_id));
                },
            }
        } else {
            assert(shared_view(out@) =~= shared_with_of(shares@.take(i + 1), note_id));
        }
        i += 1;
    }
    assert(shares@.take(shares.len() as int) =~= shares@);
    out
}

/// The plain share rows of the joined rows, in order.
pub fn share_rows_of(shares: &Vec<SharedRow>) -> (rows: Vec<NoteShareRow>)
    ensures
        rows@ == plain_rows(shares@),
{
    let mut rows: Vec<NoteShareRow> = Vec::new();
    let mut i: usize = 0;
    while i < shares.len()
        invariant
            i <= shares.len(),
            rows@ == plain_rows(shares@.take(i as int)),
        decreases shares.len() - i,
    {
        rows.push(shares[i].row);
        assert(plain_rows(shares@.take(i + 1)) =~= plain_rows(shares@.take(i as int)).push(
            shares@[i as int].row,
        ));
        i += 1;
    }
    assert(shares@.take(shares.len() as int) =~= shares@);
    rows
}

/// The plain share rows of the joined rows whose user exists, in order.
pub fn named_share_rows(shares: &Vec<SharedRow>) -> (rows: Vec<NoteShareRow>)
    ensures
        rows@ == named_rows(shares@),
{
    let mut rows: Vec<NoteShareRow> = Vec::new();
    let mut i: usize = 0;
    assert(shares@.take(0) =~= Seq::<SharedRow>::empty());
    assert(named_rows(shares@.take(0)) =~= Seq::<NoteShareRow>::empty());
    while i < shares.len()
        invariant
            i <= shares.len(),
            rows@ == named_rows(shares@.take(i as int)),
        decreases shares.len() - i,
    {
        let s = &shares[i];
        proof {
            reveal(Seq::filter);
            assert(shares@.take(i + 1).drop_last() =~= shares@.take(i as int));
            assert(shares@.take(i + 1).last() == *s);
        }
        let ghost prev = rows@;
        if s.user_name.is_some() {
            rows.push(s.row);
            assert(named_rows(shares@.take(i + 1)) =~= prev.push(s.row));
        } else {
            assert(named_rows(shares@.take(i + 1)) =~= prev);
        }
        i += 1;
    }
    assert(shares@.take(shares.len() as int) =~= shares@);
    rows
}

/// What `user` sees of stored note `n`, with the given edit right.
fn note_info(n: &StoredNote, shares: &Vec<SharedRow>, user: u128, can_edit: bool) -> (info: NoteInfo)
    ensures
        is_note_info(info, *n, shares@, user, can_edit),
{
    NoteInfo {
        id: n.record.id,
        title: n.title.clone(),
        preview: n.preview.clone(),
        owner: n.record.owner,
        owner_name: n.owner_name.clone(),
        shared_with: shared_with(shares, n.record.id),
        public_access: n.record.public_access,
        is_owner: n.record.owner == user,
        can_edit,
    }
}

/// The notes `user` sees in their list: those they own, those shared with
/// them and those with a public link, in order, each with its title,
/// preview, owner, shares and public access, and the ownership and edit
/// flags.
pub fn list_for_user(notes: &Vec<StoredNote>, shares: &Vec<SharedRow>, user: u128) -> (list: Vec<
    NoteInfo,
>)
    ensures
        info_flags(list@) == spec_list_for_user(
            records(notes@),
            plain_rows(shares@),
            named_rows(shares@),
            user,
        ),
        list@.len() == listed_positions(records(notes@), plain_rows(shares@), user).len(),
        forall|k: int|
            #![trigger list@[k]]
            0 <= k < list@.len() ==> {
                let p = listed_positions(records(notes@), plain_rows(shares@), user)[k];
                &&& 0 <= p < notes@.len()
                &&& is_note_info(
                    list@[k],
                    notes@[p],
                    shares@,
                    user,
                    list_flags(notes@[p].record, named_rows(shares@), user).can_edit,
                )
            },
{
    let rows = share_rows_of(shares);
    let named = named_share_rows(shares);
    let ghost recs = records(notes@);
    let mut list: Vec<NoteInfo> = Vec::new();
    let mut i: usize = 0;
    assert(recs.take(0) =~= Seq::<NoteRecord>::empty());
    assert(info_flags(list@) =~= Seq::<NoteListFlags>::empty());
    while i < notes.len()
        invariant
            i <= notes.len(),
            recs == records(notes@),
            rows@ == plain_rows(shares@),
            named@ == named_rows(shares@),
            info_flags(list@) == recs.take(i as int).filter_map(list_choice(rows@, named@, user)),
            list@.len() == listed_positions(recs.take(i as int), rows@, user).len(),
            forall|k: int|
                #![trigger list@[k]]
                0 <= k < list@.len() ==> {
                    let p = listed_positions(recs.take(i as int), rows@, user)[k];
                    is_note_info(
                        list@[k],
                        notes@[p],
                        shares@,
                        user,
                        list_flags(notes@[p].record, named@, user).can_edit,
                    )
                },
        decreases notes.len() - i,
    {
        let n = &notes[i];
        assert(*n == notes@[i as int]);
        assert(recs[i as int] == n.record);
        let ghost prev = list@;
        let ghost prev_pos = listed_positions(recs.take(i as int), rows@, user);
        proof {
            reveal(Seq::filter_map);
            assert(recs.take(i + 1).drop_last() =~= recs.take(i as int));
            assert(recs.take(i + 1).last() == n.record);
        }
        let owned = n.record.owner == user;
        if owned || find_share(&rows, n.record.id, user, false) || n.record.public_access.is_some() {
            let edit = owned || find_share(&named, n.record.id, user, true);
            let info = note_info(n, shares, user, edit);
            assert(edit == list_flags(notes@[i as int].record, named@, user).can_edit);
            list.push(info);
            proof {
                assert(info_flags(list@) =~= info_flags(prev).push(
                    NoteListFlags { id: info.id, is_owner: info.is_owner, can_edit: info.can_edit },
                ));
                let pos = listed_positions(recs.take(i + 1), rows@, user);
                assert(pos == prev_pos.push(i as int));
                assert forall|k: int| #![trigger list@[k]] 0 <= k < list@.len() implies {
                    let p = pos[k];
                    is_note_info(
                        list@[k],
                        notes@[p],
                        shares@,
                        user,
                        list_flags(notes@[p].record, named@, user).can_edit,
                    )
                } by {
                    if k < prev.len() {
                        assert(list@[k] == prev[k]);
                        assert(pos[k] == prev_pos[k]);
                    } else {
                        assert(pos[k] == i);
                    }
                }
            }
        } else {
            proof {
                let pos = listed_positions(recs.take(i + 1), rows@, user);
                assert(pos == prev_pos);
                assert forall|k: int| #![trigger list@[k]] 0 <= k < list@.len() implies {
                    let p = pos[k];
                    is_note_info(
                        list@[k],
                        notes@[p],
                        shares@,
                        user,
                        list_flags(notes@[p].record, named@, user).can_edit,
                    )
                } by {
                    assert(pos[k] == prev_pos[k]);
                }
            }
        }
        i += 1;
    }
    assert(recs.take(notes.len() as int) =~= recs);
    assert(listed_positions(recs.take(notes.len() as int), rows@, user) == listed_positions(
        recs,
        rows@,
        user,
    ));
    proof {
        lemma_positions_bounded(recs, rows@, user);
    }
    list
}

/// What `user` sees when opening a stored note; `None` when the note does
/// not exist.
pub fn info(note: Option<&StoredNote>, shares: &Vec<SharedRow>, user: u128) -> (r: Option<NoteInfo>)
    ensures
        match note {
            None => r is None,
            Some(n) => r matches Some(i) && is_note_info(
                i,
                *n,
                shares@,
                user,
                spec_can_edit(n.record.id, Some(n.record), plain_rows(shares@), user),
            ),
        },
{
    match note {
        None => None,
        Some(n) => {
            let rows = share_rows_of(shares);
            let owned = n.record.owner == user;
            let edit = owned || can_edit(n.record.id, Some(n.record), &rows, user);
            Some(note_info(n, shares, user, edit))
        },
    }
}

/// The public view of a note reachable through its public link.
#[derive(Debug, Clone, PartialEq, Eq)]
pub struct NoteInfoPublic {
    pub id: u128,
    pub title: String,
    pub owner: u128,
    pub owner_name: String,
    pub can_edit: bool,
}

/// The public view of a note: only for a note with a public link, editable
/// exactly when the link allows editing.
pub fn info_public(note: Option<&StoredNote>) -> (r: Option<NoteInfoPublic>)
    ensures
        match note {
            Some(n) => match n.record.public_access {
                Some(access) => r matches Some(i) && {
                    &&& i.id == n.record.id
                    &&& i.title@ == n.title@
                    &&& i.owner == n.record.owner
                    &&& i.owner_name@ == n.owner_name@
                    &&& i.can_edit == (access == NoteShareAccess::Edit)
                },
                None => r is None,
            },
            None => r is None,
        },
{
    match note {
        None => None,
        Some(n) => match n.record.public_access {
            None => None,
            Some(access) => {
                let edit = match access {
                    NoteShareAccess::Edit => true,
                    NoteShareAccess::View => false,
                };
                Some(
                    NoteInfoPublic {
                        id: n.record.id,
                        title: n.title.clone(),
                        owner: n.record.owner,
                        owner_name: n.owner_name.clone(),
                        can_edit: edit,
                    },
                )
            },
        },
    }
}

/// A user may create another note while they own fewer notes than the
/// configured maximum per user.
pub fn may_create_note(owned: u64, max_per_user: u32) -> (ok: bool)
    ensures
        ok == (owned < max_per_user),
{
    owned < max_per_user as u64
}

proof fn lemma_filter_map_keeps(
    s: Seq<NoteRecord>,
    f: spec_fn(NoteRecord) -> Option<NoteListFlags>,
    t: NoteRecord,
    b: NoteListFlags,
)
    requires
        s.contains(t),
        f(t) == Some(b),
    ensures
        s.filter_map(f).contains(b),
    decreases s.len(),
{
    reveal(Seq::filter_map);
    let rest = s.drop_last();
    if s.last() == t {
        assert(s.filter_map(f) == rest.filter_map(f) + seq![b]);
        assert((rest.filter_map(f) + seq![b])[rest.filter_map(f).len() as int] == b);
    } else {
        let i = choose|i: int| 0 <= i < s.len() && s[i] == t;
        assert(i < s.len() - 1);
        assert(rest[i] == t);
        lemma_filter_map_keeps(rest, f, t, b);
        let j = choose|j: int| 0 <= j < rest.filter_map(f).len() && rest.filter_map(f)[j] == b;
        match f(s.last()) {
            Some(x) => {
                assert((rest.filter_map(f) + seq![x])[j] == b);
            },
            None => {},
        }
    }
}

/// A user's note list shows exactly the notes they may open: each such
/// note appears with its flags (the edit right coming from `edit_rows`),
/// and every entry belongs to such a note.
pub proof fn lemma_list_shows_accessible_notes(
    notes: Seq<NoteRecord>,
    rows: Seq<NoteShareRow>,
    edit_rows: Seq<NoteShareRow>,
    user: u128,
)
    ensures
        forall|n: NoteRecord|
            #![trigger notes.contains(n)]
            notes.contains(n) && spec_has_access(n.id, Some(n), rows, user)
                ==> spec_list_for_user(notes, rows, edit_rows, user).contains(
                list_flags(n, edit_rows, user),
            ),
        forall|e: NoteListFlags|
            #![trigger spec_list_for_user(notes, rows, edit_rows, user).contains(e)]
            spec_list_for_user(notes, rows, edit_rows, user).contains(e) ==> exists|n: NoteRecord|
                #![trigger notes.contains(n)]
                notes.contains(n) && spec_has_access(n.id, Some(n), rows, user) && e == list_flags(
                    n,
                    edit_rows,
                    user,
                ),
{
    let f = list_choice(rows, edit_rows, user);
    assert forall|n: NoteRecord|
        #![trigger notes.contains(n)]
        notes.contains(n) && spec_has_access(n.id, Some(n), rows, user) implies spec_list_for_user(
        notes,
        rows,
        edit_rows,
        user,
    ).contains(list_flags(n, edit_rows, user)) by {
        lemma_filter_map_keeps(notes, f, n, list_flags(n, edit_rows, user));
    }
    assert forall|e: NoteListFlags|
        #![trigger spec_list_for_user(notes, rows, edit_rows, user).contains(e)]
        spec_list_for_user(notes, rows, edit_rows, user).contains(e) implies exists|n: NoteRecord|
        #![trigger notes.contains(n)]
        notes.contains(n) && spec_has_access(n.id, Some(n), rows, user) && e == list_flags(
            n,
            edit_rows,
            user,
        ) by {
        notes.lemma_filter_map_contains(f, e);
        let n = choose|n: NoteRecord| #[trigger] notes.contains(n) && f(n) == Some(e);
        assert(notes.contains(n));
    }
}

} // verus!
