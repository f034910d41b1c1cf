use positron::cli::{
    apod_image_names, check_scope_ids, decide_by_name, first_missing, repair_step,
    resolve_mappings, start_repair, ApodCommands, ClientStep, CommandError, GroupCommands,
    OAuthClientCommands, OAuthPolicyCommands, OAuthScopeCommands, PolicyStep, RepairAction,
    RepairEvent, RepairStage, Step,
};

const GROUP: &str = "67e55044-10b1-426f-9247-bb680e5fe0c8";
const GROUP_ID: u128 = 0x67e55044_10b1_426f_9247_bb680e5fe0c8;

#[test]
fn create_then_duplicate_then_delete() {
    let cmd = GroupCommands::Create { name: "admins".into() };
    assert_eq!(cmd.name(), "admins");
    assert_eq!(cmd.decide(None), Ok(Step::Create));
    // creating the same group again fails
    assert_eq!(cmd.decide(Some(5)), Err(CommandError::AlreadyExists));
    assert_eq!(GroupCommands::Delete { name: "admins".into() }.decide(Some(5)), Ok(Step::Delete(5)));
}

#[test]
fn delete_missing_group_errors() {
    let cmd = GroupCommands::Delete { name: "admins".into() };
    assert_eq!(cmd.decide(Some(5)), Ok(Step::Delete(5)));
    assert_eq!(cmd.decide(None), Err(CommandError::NotFound));
}

#[test]
fn decide_by_name_table() {
    assert_eq!(decide_by_name(true, None), Ok(Step::Create));
    assert_eq!(decide_by_name(true, Some(1)), Err(CommandError::AlreadyExists));
    assert_eq!(decide_by_name(false, Some(1)), Ok(Step::Delete(1)));
    assert_eq!(decide_by_name(false, None), Err(CommandError::NotFound));
}

#[test]
fn first_missing_finds_the_first_unknown_id() {
    assert_eq!(first_missing(&vec![1, 2, 3, 4], &vec![1, 2]), Some(2));
    assert_eq!(first_missing(&vec![1, 2], &vec![2, 1]), None);
    assert_eq!(first_missing(&vec![], &vec![]), None);
}

#[test]
fn oauth_scope_create_success_and_duplicate() {
    let cmd = OAuthScopeCommands::Create { name: "S".into(), scope: "s".into(), policies: vec![7, 8] };
    assert_eq!(cmd.decide(Some(1), &vec![]), Err(CommandError::AlreadyExists));
    assert_eq!(cmd.decide(None, &vec![7]), Err(CommandError::UnknownPolicy(1)));
    assert_eq!(cmd.decide(None, &vec![8, 7]), Ok(Step::Create));
    let none = OAuthScopeCommands::Create { name: "S".into(), scope: "s".into(), policies: vec![] };
    assert_eq!(none.decide(None, &vec![]), Ok(Step::Create));
}

#[test]
fn oauth_scope_delete_existing_and_missing() {
    let cmd = OAuthScopeCommands::Delete { name: "S".into() };
    assert_eq!(cmd.name(), "S");
    assert_eq!(cmd.decide(Some(3), &vec![]), Ok(Step::Delete(3)));
    assert_eq!(cmd.decide(None, &vec![]), Err(CommandError::NotFound));
}

#[test]
fn mappings_resolve_in_order() {
    let mappings = vec![format!("{GROUP}:admin"), format!("{GROUP}:a:b")];
    let content = resolve_mappings(&mappings, &vec![GROUP_ID]).unwrap();
    assert_eq!(content, vec![(GROUP_ID, "admin".to_string()), (GROUP_ID, "a:b".to_string())]);
}

#[test]
fn create_rejects_bad_mapping_format() {
    let mappings = vec![format!("{GROUP}:ok"), "no-colon".to_string()];
    assert_eq!(resolve_mappings(&mappings, &vec![GROUP_ID]), Err(CommandError::InvalidMapping(1)));
}

#[test]
fn mapping_with_bad_uuid_is_refused() {
    let mappings = vec!["not-a-uuid:x".to_string()];
    assert_eq!(resolve_mappings(&mappings, &vec![]), Err(CommandError::InvalidGroupId(0)));
}

#[test]
fn create_rejects_unknown_group() {
    let mappings = vec![format!("{GROUP}:x")];
    assert_eq!(resolve_mappings(&mappings, &vec![]), Err(CommandError::UnknownGroup(0)));
}

#[test]
fn first_failing_mapping_decides() {
    let mappings = vec![format!("{GROUP}:x"), "no-colon".to_string()];
    assert_eq!(resolve_mappings(&mappings, &vec![]), Err(CommandError::UnknownGroup(0)));
}

#[test]
fn create_success_with_mapping_and_duplicate() {
    let cmd = OAuthPolicyCommands::Create {
        name: "Role".into(),
        claim: "claim".into(),
        default: "def".into(),
        mappings: vec![format!("{GROUP}:admin")],
    };
    assert_eq!(cmd.name(), "Role");
    match cmd.decide(None, &vec![GROUP_ID]) {
        Ok(PolicyStep::Create(content)) => assert_eq!(content, vec![(GROUP_ID, "admin".to_string())]),
        _ => panic!("expected a create step"),
    }
    assert!(matches!(cmd.decide(Some(1), &vec![GROUP_ID]), Err(CommandError::AlreadyExists)));
}

#[test]
fn oauth_policy_delete_existing_and_missing() {
    let cmd = OAuthPolicyCommands::Delete { name: "P".into() };
    assert!(matches!(cmd.decide(Some(4), &vec![]), Ok(PolicyStep::Delete(4))));
    assert!(matches!(cmd.decide(None, &vec![]), Err(CommandError::NotFound)));
}

fn client(scope: &str, pepper: Option<&str>) -> OAuthClientCommands {
    OAuthClientCommands::Create {
        name: "App".into(),
        redirect_uri: "https://app.example.com/cb".into(),
        scope: scope.into(),
        groups: vec![],
        require_pkce: false,
        auth_pepper: pepper.map(|p| p.to_string()),
    }
}

#[test]
fn oauth_client_create_success_and_duplicate() {
    match client(" openid, profile,, ", Some("pepper")).decide(None, &"default".to_string()) {
        Ok(ClientStep::Create { pepper, scopes, redirect_uri, confidential, require_pkce }) => {
            assert_eq!(pepper, "pepper");
            assert_eq!(redirect_uri, "https://app.example.com/cb");
            assert!(confidential);
            assert!(!require_pkce);
            assert_eq!(scopes, vec!["openid".to_string(), "profile".to_string()]);
        },
        _ => panic!("expected a create step"),
    }
    match client("openid", None).decide(None, &"default".to_string()) {
        Ok(ClientStep::Create { pepper, .. }) => assert_eq!(pepper, "default"),
        _ => panic!("expected a create step"),
    }
    assert!(matches!(
        client("openid", None).decide(Some(1), &"d".to_string()),
        Err(CommandError::AlreadyExists)
    ));
}

#[test]
fn oauth_client_delete_existing_and_missing() {
    let del = OAuthClientCommands::Delete { name: "App".into() };
    assert_eq!(del.name(), "App");
    assert!(matches!(del.decide(Some(2), &"d".to_string()), Ok(ClientStep::Delete(2))));
    assert!(matches!(del.decide(None, &"d".to_string()), Err(CommandError::NotFound)));
}

#[test]
fn create_with_unknown_scope_errors() {
    let scopes = vec!["openid".to_string(), "profile".to_string()];
    assert_eq!(check_scope_ids(&scopes, &vec![1, 2]), Ok(()));
    assert_eq!(check_scope_ids(&scopes, &vec![1]), Err(CommandError::UnknownScope));
}

fn fix_s3(storage_path: Option<String>) -> ApodCommands {
    ApodCommands::FixS3 {
        storage_path,
        s3_bucket: Some("bucket".into()),
        s3_region: None,
        s3_host: None,
        s3_access_key: None,
        s3_secret_key: None,
        s3_force_path_style: true,
    }
}

#[test]
fn storage_settings_fall_back_to_default_path() {
    let s = fix_s3(None).storage_settings(&"/data".to_string());
    assert_eq!(s.storage_path, "/data");
    assert_eq!(s.s3_bucket, Some("bucket".to_string()));
    assert_eq!(s.s3_region, None);
    assert!(s.s3_force_path_style);
    let s = fix_s3(Some("/tmp/x".into())).storage_settings(&"/data".to_string());
    assert_eq!(s.storage_path, "/tmp/x");
}

#[test]
fn apod_image_names_follow_the_date() {
    assert_eq!(
        apod_image_names(2024, 6, 1),
        Some(("2024-06-01.webp".to_string(), "2024-06-01_preview.webp".to_string()))
    );
    assert_eq!(apod_image_names(2023, 2, 29), None);
}

#[test]
fn repair_of_a_stored_picture_with_stored_preview() {
    let (stage, action) = start_repair();
    assert_eq!(action, RepairAction::CheckImage);
    let (stage, action) = repair_step(stage, RepairEvent::ImageStored(true)).unwrap();
    assert_eq!(action, RepairAction::CheckPreview);
    let (stage, action) = repair_step(stage, RepairEvent::PreviewStored(true)).unwrap();
    assert_eq!((stage, action), (RepairStage::Done, RepairAction::Finish));
}

#[test]
fn repair_fetches_missing_picture_and_makes_preview_from_it() {
    let (stage, _) = start_repair();
    let (stage, action) = repair_step(stage, RepairEvent::ImageStored(false)).unwrap();
    assert_eq!(action, RepairAction::FetchImage);
    let (stage, action) = repair_step(stage, RepairEvent::ImageFetched(true)).unwrap();
    assert_eq!(action, RepairAction::CheckPreview);
    let (stage, action) = repair_step(stage, RepairEvent::PreviewStored(false)).unwrap();
    assert_eq!(action, RepairAction::MakePreview { from_fetched: true });
    assert_eq!(stage, RepairStage::Done);
    assert_eq!(repair_step(stage, RepairEvent::PreviewStored(false)), None);
}

#[test]
fn repair_skips_entry_when_picture_cannot_be_fetched() {
    let (stage, _) = repair_step(RepairStage::CheckingImage, RepairEvent::ImageStored(false)).unwrap();
    assert_eq!(
        repair_step(stage, RepairEvent::ImageFetched(false)),
        Some((RepairStage::Done, RepairAction::Finish))
    );
}

#[test]
fn repair_makes_preview_from_stored_picture() {
    let (stage, _) = repair_step(RepairStage::CheckingImage, RepairEvent::ImageStored(true)).unwrap();
    assert_eq!(
        repair_step(stage, RepairEvent::PreviewStored(false)),
        Some((RepairStage::Done, RepairAction::MakePreview { from_fetched: false }))
    );
    assert_eq!(repair_step(RepairStage::CheckingImage, RepairEvent::PreviewStored(true)), None);
}

#[test]
fn create_with_empty_scope_succeeds() {
    match client("", None).decide(None, &"d".to_string()) {
        Ok(ClientStep::Create { scopes, .. }) => {
            assert!(scopes.is_empty());
            assert_eq!(check_scope_ids(&scopes, &vec![]), Ok(()));
        },
        _ => panic!("expected a create step"),
    }
}

#[test]
fn create_with_missing_policy_errors() {
    let cmd = OAuthScopeCommands::Create { name: "S".into(), scope: "s".into(), policies: vec![11] };
    assert_eq!(cmd.decide(None, &vec![]), Err(CommandError::UnknownPolicy(0)));
}

#[test]
fn create_with_existing_policy_succeeds() {
    let cmd = OAuthScopeCommands::Create { name: "S".into(), scope: "s".into(), policies: vec![11] };
    assert_eq!(cmd.decide(None, &vec![11]), Ok(Step::Create));
}

#[test]
fn client_create_needs_a_url_as_redirect_uri() {
    let cmd = OAuthClientCommands::Create {
        name: "App".into(),
        redirect_uri: "not a url".into(),
        scope: "openid".into(),
        groups: vec![],
        require_pkce: true,
        auth_pepper: None,
    };
    // checked before the name
    assert!(matches!(cmd.decide(Some(1), &"d".to_string()), Err(CommandError::InvalidRedirectUri)));
    let cmd = OAuthClientCommands::Create {
        name: "App".into(),
        redirect_uri: "HTTPS://App.Example.com".into(),
        scope: "openid".into(),
        groups: vec![],
        require_pkce: true,
        auth_pepper: None,
    };
    match cmd.decide(None, &"d".to_string()) {
        Ok(ClientStep::Create { redirect_uri, require_pkce, .. }) => {
            assert_eq!(redirect_uri, "https://app.example.com/");
            assert!(require_pkce);
        },
        _ => panic!("expected a create step"),
    }
}
