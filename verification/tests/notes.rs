use positron::notes::{
    can_edit, may_create_note, has_access, info, info_public, is_owner, list_for_user, shares_without_owner,
    transfer_owner, NoteInfoPublic, NoteRecord, SharedRow, SharedUserInfo, StoredNote, NoteShareAccess, NoteShareEntry,
    NoteShareRow, TransferError,
};

const OWNER: u128 = 1;
const ALICE: u128 = 2;
const BOB: u128 = 3;
const EVE: u128 = 4;

fn note(id: u128, public: Option<NoteShareAccess>) -> NoteRecord {
    NoteRecord { id, owner: OWNER, public_access: public }
}

fn row(note: u128, user: u128, access: NoteShareAccess) -> NoteShareRow {
    NoteShareRow { note, user, access }
}

fn entry(user_id: u128, access: NoteShareAccess) -> NoteShareEntry {
    NoteShareEntry { user_id, access }
}

#[test]
fn owner_has_access_and_can_edit() {
    let n = note(10, None);
    assert!(is_owner(Some(n), OWNER));
    assert!(!is_owner(Some(n), ALICE));
    assert!(!is_owner(None, OWNER));
    assert!(has_access(10, Some(n), &vec![], OWNER));
    assert!(can_edit(10, Some(n), &vec![], OWNER));
}

#[test]
fn view_share_grants_access_but_not_edit() {
    let n = note(10, None);
    let rows = vec![row(10, ALICE, NoteShareAccess::View), row(11, BOB, NoteShareAccess::Edit)];
    assert!(has_access(10, Some(n), &rows, ALICE));
    assert!(!can_edit(10, Some(n), &rows, ALICE));
    // a share of another note grants nothing here
    assert!(!has_access(10, Some(n), &rows, BOB));
}

#[test]
fn edit_share_grants_edit() {
    let n = note(10, None);
    let rows = vec![row(10, ALICE, NoteShareAccess::Edit)];
    assert!(can_edit(10, Some(n), &rows, ALICE));
}

#[test]
fn public_link_grants_access_and_edit_only_when_editable() {
    let viewable = note(10, Some(NoteShareAccess::View));
    assert!(has_access(10, Some(viewable), &vec![], EVE));
    assert!(!can_edit(10, Some(viewable), &vec![], EVE));
    let editable = note(10, Some(NoteShareAccess::Edit));
    assert!(can_edit(10, Some(editable), &vec![], EVE));
}

fn shared(row: NoteShareRow, name: Option<&str>) -> SharedRow {
    SharedRow { row, user_name: name.map(|n| n.to_string()) }
}

fn user(id: u128, name: &str, access: NoteShareAccess) -> SharedUserInfo {
    SharedUserInfo { id, name: name.into(), access }
}

fn stored(record: NoteRecord, title: &str, owner_name: &str) -> StoredNote {
    StoredNote { record, title: title.into(), preview: format!("{title} preview"), owner_name: owner_name.into() }
}

#[test]
fn info_some_and_none() {
    assert!(!has_access(10, None, &vec![], OWNER));
    assert!(!can_edit(10, None, &vec![], OWNER));
    assert_eq!(info(None, &vec![], OWNER), None);
    assert_eq!(info_public(None), None);

    // a note shared with ALICE for viewing, opened by its owner and by ALICE
    let n = stored(note(10, None), "Title", "owner");
    let rows = vec![
        shared(row(10, ALICE, NoteShareAccess::View), Some("alice")),
        // a share whose user row is gone is not shown
        shared(row(10, BOB, NoteShareAccess::Edit), None),
    ];
    let i = info(Some(&n), &rows, OWNER).unwrap();
    assert_eq!(i.title, "Title");
    assert_eq!(i.preview, "Title preview");
    assert_eq!(i.owner, OWNER);
    assert_eq!(i.owner_name, "owner");
    assert!(i.is_owner && i.can_edit);
    assert_eq!(i.shared_with, vec![user(ALICE, "alice", NoteShareAccess::View)]);
    assert_eq!(i.public_access, None);
    let j = info(Some(&n), &rows, ALICE).unwrap();
    assert!(!j.is_owner && !j.can_edit);
}

#[test]
fn list_for_user_returns_owned_and_shared_with_flags() {
    // OWNER owns "Owned", shared with ALICE for editing; ALICE owns "Shared",
    // shared with OWNER for viewing
    let notes = vec![
        stored(note(10, None), "Owned", "owner"),
        stored(NoteRecord { id: 11, owner: ALICE, public_access: None }, "Shared", "alice"),
        stored(NoteRecord { id: 12, owner: ALICE, public_access: None }, "Private", "alice"),
    ];
    let rows = vec![
        shared(row(10, ALICE, NoteShareAccess::Edit), Some("alice")),
        shared(row(11, OWNER, NoteShareAccess::View), Some("owner")),
    ];
    let list = list_for_user(&notes, &rows, OWNER);
    assert_eq!(list.len(), 2);
    assert!(list[0].is_owner && list[0].can_edit);
    assert_eq!(list[0].owner, OWNER);
    assert_eq!(list[0].title, "Owned");
    assert_eq!(list[0].shared_with, vec![user(ALICE, "alice", NoteShareAccess::Edit)]);
    assert!(!list[1].is_owner && !list[1].can_edit);
    assert_eq!(list[1].owner, ALICE);
    assert_eq!(list[1].owner_name, "alice");
    assert_eq!(list[1].shared_with, vec![user(OWNER, "owner", NoteShareAccess::View)]);
}

#[test]
fn list_for_user_keeps_order_and_flags() {
    let notes = vec![
        stored(NoteRecord { id: 10, owner: ALICE, public_access: None }, "a", "alice"),
        stored(note(11, None), "b", "owner"),
        stored(note(12, Some(NoteShareAccess::View)), "c", "owner"),
        stored(note(13, None), "d", "owner"),
    ];
    let rows = vec![shared(row(11, ALICE, NoteShareAccess::Edit), Some("alice"))];
    let list = list_for_user(&notes, &rows, ALICE);
    let flags: Vec<(u128, bool, bool)> = list.iter().map(|i| (i.id, i.is_owner, i.can_edit)).collect();
    assert_eq!(flags, vec![(10, true, true), (11, false, true), (12, false, false)]);
    assert_eq!(list[2].public_access, Some(NoteShareAccess::View));
}

#[test]
fn list_for_user_ignores_editable_public_link_for_edit_flag() {
    let notes = vec![stored(note(12, Some(NoteShareAccess::Edit)), "t", "owner")];
    let list = list_for_user(&notes, &vec![], ALICE);
    assert_eq!(list.len(), 1);
    assert!(!list[0].is_owner && !list[0].can_edit);
}

#[test]
fn info_reports_ownership_and_edit() {
    let n = stored(note(10, Some(NoteShareAccess::Edit)), "t", "owner");
    let i = info(Some(&n), &vec![], EVE).unwrap();
    assert!(!i.is_owner && i.can_edit);
    let i = info(Some(&n), &vec![], OWNER).unwrap();
    assert!(i.is_owner && i.can_edit);
}

#[test]
fn info_public_only_for_public_notes() {
    assert_eq!(info_public(Some(&stored(note(10, None), "t", "owner"))), None);
    assert_eq!(
        info_public(Some(&stored(note(10, Some(NoteShareAccess::View)), "t", "owner"))),
        Some(NoteInfoPublic { id: 10, title: "t".into(), owner: OWNER, owner_name: "owner".into(), can_edit: false })
    );
    assert_eq!(
        info_public(Some(&stored(note(10, Some(NoteShareAccess::Edit)), "t", "owner")))
            .map(|p| p.can_edit),
        Some(true)
    );
}

#[test]
fn stored_shares_drop_the_owner() {
    let shares = vec![
        entry(ALICE, NoteShareAccess::View),
        entry(OWNER, NoteShareAccess::Edit),
        entry(BOB, NoteShareAccess::Edit),
    ];
    assert_eq!(
        shares_without_owner(&shares, OWNER),
        vec![entry(ALICE, NoteShareAccess::View), entry(BOB, NoteShareAccess::Edit)]
    );
}

#[test]
fn transfer_owner_rejects_self_transfer() {
    let r = transfer_owner(Some(note(10, None)), OWNER, OWNER, true, &vec![]);
    assert_eq!(r, Err(TransferError::SelfTransfer));
}

#[test]
fn transfer_owner_fails_for_missing_note() {
    assert_eq!(transfer_owner(None, OWNER, ALICE, true, &vec![]), Err(TransferError::NoteNotFound));
}

#[test]
fn transfer_owner_rejects_non_owner_initiator() {
    let r = transfer_owner(Some(note(10, None)), ALICE, BOB, true, &vec![]);
    assert_eq!(r, Err(TransferError::Forbidden));
}

#[test]
fn transfer_owner_fails_for_missing_recipient() {
    let r = transfer_owner(Some(note(10, None)), OWNER, ALICE, false, &vec![]);
    assert_eq!(r, Err(TransferError::UserNotFound));
}

#[test]
fn transfer_owner_removes_recipient_from_shares() {
    let shares = vec![entry(ALICE, NoteShareAccess::View), entry(BOB, NoteShareAccess::View)];
    let r = transfer_owner(Some(note(10, None)), OWNER, ALICE, true, &shares).unwrap();
    assert_eq!(r, vec![entry(BOB, NoteShareAccess::View), entry(OWNER, NoteShareAccess::Edit)]);
}

#[test]
fn transfer_owner_upgrades_previous_owner_share_to_edit() {
    let shares = vec![entry(OWNER, NoteShareAccess::View), entry(BOB, NoteShareAccess::View)];
    let r = transfer_owner(Some(note(10, None)), OWNER, ALICE, true, &shares).unwrap();
    assert_eq!(r, vec![entry(OWNER, NoteShareAccess::Edit), entry(BOB, NoteShareAccess::View)]);
}

#[test]
fn note_limit_allows_creation_below_the_maximum() {
    assert!(may_create_note(19, 20));
    assert!(!may_create_note(20, 20));
    assert!(!may_create_note(0, 0));
}

#[test]
fn list_for_user_empty_when_no_notes() {
    assert!(list_for_user(&vec![], &vec![], ALICE).is_empty());
}

#[test]
fn list_for_user_edit_flag_counts_only_shares_of_existing_users() {
    // EVE's edit share of note 10 lists the note, but her user row is gone:
    // the list shows no share and grants no edit right, while opening the
    // note checks the share rows themselves
    let notes = vec![stored(note(10, None), "t", "owner")];
    let rows = vec![shared(row(10, EVE, NoteShareAccess::Edit), None)];
    let list = list_for_user(&notes, &rows, EVE);
    assert_eq!(list.len(), 1);
    assert!(!list[0].is_owner && !list[0].can_edit);
    assert!(list[0].shared_with.is_empty());
    assert!(info(Some(&notes[0]), &rows, EVE).unwrap().can_edit);
}
