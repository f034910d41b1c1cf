use positron::oauth::{
    group_policy_contents, policy_contents, policy_info, PolicyContentRow, PolicyRecord,
    checked_client_info, checked_client_infos, client_info, client_infos, ClientRecord, SimpleGroupInfo, SimpleOAuthScopeInfo,
    SimpleUserInfo, access_level, claim_values, contains_id, generate_client_secret, has_user_access, may_change_permissions,
    parse_policy_mapping, policy_value, relation_diff, BasicOAuthPolicyInfo, MappingError,
    OAuthPolicyContent, PolicyWithContents,
};

fn content(group_id: u128, text: &str, index: i32) -> OAuthPolicyContent {
    OAuthPolicyContent { group_id, group_name: format!("g{group_id}"), content: text.into(), index }
}

#[test]
fn policy_value_picks_smallest_index_among_users_groups() {
    let contents = vec![content(1, "one", 5), content(2, "two", 1), content(3, "three", 0)];
    assert_eq!(policy_value(&contents, &vec![1, 2], &"def".to_string()), "two");
    assert_eq!(policy_value(&contents, &vec![1], &"def".to_string()), "one");
    assert_eq!(policy_value(&contents, &vec![9], &"def".to_string()), "def");
}

#[test]
fn policy_value_ties_go_to_the_first_entry() {
    let contents = vec![content(1, "first", 2), content(2, "second", 2)];
    assert_eq!(policy_value(&contents, &vec![1, 2], &"def".to_string()), "first");
}

#[test]
fn claim_values_one_pair_per_policy() {
    let policies = vec![
        PolicyWithContents { claim: "role".into(), default: "user".into(), contents: vec![content(1, "admin", 0)] },
        PolicyWithContents { claim: "tier".into(), default: "free".into(), contents: vec![] },
    ];
    assert_eq!(
        claim_values(&policies, &vec![1]),
        vec![("role".to_string(), "admin".to_string()), ("tier".to_string(), "free".to_string())]
    );
    assert_eq!(claim_values(&policies, &vec![])[0].1, "user");
}

#[test]
fn user_access_by_user_or_shared_group() {
    assert!(has_user_access(&vec![5], &vec![], &vec![], 5));
    assert!(has_user_access(&vec![], &vec![1, 2], &vec![3, 2], 5));
    assert!(!has_user_access(&vec![6], &vec![1], &vec![2], 5));
}

#[test]
fn relation_diff_adds_and_removes_in_order() {
    let (add, remove) = relation_diff(&vec![1, 2, 3], &vec![3, 4, 1, 5]);
    assert_eq!(add, vec![4, 5]);
    assert_eq!(remove, vec![2]);
    let (add, remove) = relation_diff(&vec![], &vec![]);
    assert!(add.is_empty() && remove.is_empty());
}

#[test]
fn permission_changes_need_the_changed_permissions() {
    let s = |v: &[&str]| v.iter().map(|x| x.to_string()).collect::<Vec<String>>();
    assert!(may_change_permissions(&s(&["a", "b"]), &s(&["a", "c"]), &s(&["b", "c"])));
    assert!(!may_change_permissions(&s(&["a"]), &s(&["a", "c"]), &s(&["a"])));
    assert!(may_change_permissions(&s(&[]), &s(&["x"]), &s(&["x"])));
}

#[test]
fn access_level_is_highest_and_never_negative() {
    assert_eq!(access_level(&vec![]), 0);
    assert_eq!(access_level(&vec![-5, -1]), 0);
    assert_eq!(access_level(&vec![3, 10, 7]), 10);
}

#[test]
fn contains_id_works() {
    assert!(contains_id(&vec![1, 2], 2));
    assert!(!contains_id(&vec![1, 2], 3));
}

#[test]
fn policy_mapping_splits_at_first_colon() {
    let id = uuid::Uuid::parse_str("67e55044-10b1-426f-9247-bb680e5fe0c8").unwrap().as_u128();
    assert_eq!(
        parse_policy_mapping("67e55044-10b1-426f-9247-bb680e5fe0c8:a:b"),
        Ok((id, "a:b".to_string()))
    );
    assert_eq!(
        parse_policy_mapping("67E55044-10B1-426F-9247-BB680E5FE0C8:"),
        Ok((id, "".to_string()))
    );
    assert_eq!(parse_policy_mapping("no-colon"), Err(MappingError::InvalidFormat));
    assert_eq!(parse_policy_mapping("xyz:content"), Err(MappingError::InvalidGroupId));
}

#[test]
fn basic_policy_info_holds_id_and_name() {
    let info = BasicOAuthPolicyInfo { uuid: "u".into(), name: "n".into() };
    assert_eq!(info.clone(), info);
}

fn record(redirect_uri: &str) -> ClientRecord {
    ClientRecord {
        id: 77,
        name: "App".into(),
        redirect_uri: redirect_uri.into(),
        confidential: true,
        require_pkce: false,
        additional_redirect_uris: vec!["https://b.example/cb".into(), "not a url".into(), "HTTPS://C.EXAMPLE".into()],
        default_scope: vec![SimpleOAuthScopeInfo { uuid: 1, scope: "openid".into(), name: "Openid".into() }],
        group_access: vec![SimpleGroupInfo { uuid: 2, name: "admins".into() }],
        user_access: vec![SimpleUserInfo { id: 3, name: "alice".into() }],
    }
}

#[test]
fn client_info_lists_parsed_uris_and_relations() {
    let info = client_info(record("https://app.example.com/cb"));
    assert_eq!(info.name, "App");
    assert_eq!(info.client_id, 77);
    assert_eq!(info.redirect_uri, "https://app.example.com/cb");
    assert_eq!(info.additional_redirect_uris, vec!["https://b.example/cb".to_string(), "https://c.example/".to_string()]);
    assert_eq!(info.default_scope[0].scope, "openid");
    assert_eq!(info.group_access, vec![SimpleGroupInfo { uuid: 2, name: "admins".into() }]);
    assert_eq!(info.user_access[0].id, 3);
    assert!(info.confidential);
    assert!(!info.require_pkce);
}

#[test]
fn checked_client_info_refuses_unparsable_redirect_uri() {
    assert!(checked_client_info(record("no url")).is_none());
    assert!(checked_client_info(record("https://x.example")).is_some());
}

#[test]
fn client_secrets_are_32_letters_and_digits() {
    let a = generate_client_secret();
    let b = generate_client_secret();
    assert_eq!(a.len(), 32);
    assert!(a.chars().all(|c| c.is_ascii_alphanumeric()));
    assert_ne!(a, b);
}

#[test]
fn listing_gives_one_entry_per_client_in_order() {
    let mut second = record("https://second.example/cb");
    second.id = 78;
    let infos = client_infos(vec![record("https://app.example.com/cb"), second]);
    assert_eq!(infos.len(), 2);
    assert_eq!(infos[0].client_id, 77);
    assert_eq!(infos[1].client_id, 78);
    assert_eq!(infos[1].redirect_uri, "https://second.example/cb");
    assert!(checked_client_infos(vec![record("https://a.example"), record("bad")]).is_none());
    assert_eq!(checked_client_infos(vec![record("https://a.example")]).unwrap().len(), 1);
}

fn content_row(policy: u128, group_id: u128, group: Option<&str>, text: &str, index: i32) -> PolicyContentRow {
    PolicyContentRow { policy, group_id, group_name: group.map(|g| g.to_string()), content: text.into(), index }
}

#[test]
fn policy_contents_are_ordered_by_index_and_skip_missing_groups() {
    let rows = vec![
        content_row(1, 10, Some("a"), "ten", 5),
        content_row(2, 11, Some("b"), "other policy", 0),
        content_row(1, 12, Some("c"), "twelve", 1),
        content_row(1, 13, None, "gone", 0),
        content_row(1, 14, Some("d"), "fourteen", 3),
    ];
    let cs = policy_contents(&rows, 1);
    let got: Vec<(u128, String, i32)> = cs.iter().map(|c| (c.group_id, c.content.clone(), c.index)).collect();
    assert_eq!(got, vec![(12, "twelve".to_string(), 1), (14, "fourteen".to_string(), 3), (10, "ten".to_string(), 5)]);
    assert_eq!(cs[0].group_name, "c");
}

#[test]
fn policies_are_listed_with_their_contents() {
    let policies = vec![
        PolicyRecord { id: 1, name: "Role".into(), claim: "role".into(), default: "user".into() },
        PolicyRecord { id: 3, name: "Empty".into(), claim: "e".into(), default: "d".into() },
    ];
    let rows = vec![content_row(1, 10, Some("a"), "admin", 0)];
    let infos = group_policy_contents(&policies, &rows);
    assert_eq!(infos.len(), 2);
    assert_eq!(infos[0].uuid, 1);
    assert_eq!(infos[0].claim, "role");
    assert_eq!(infos[0].content.len(), 1);
    assert_eq!(infos[0].content[0].content, "admin");
    assert!(infos[1].content.is_empty());
}

#[test]
fn policy_lookup_agrees_with_listing() {
    let policies = vec![
        PolicyRecord { id: 1, name: "Role".into(), claim: "role".into(), default: "user".into() },
        PolicyRecord { id: 2, name: "Tier".into(), claim: "tier".into(), default: "free".into() },
    ];
    let rows = vec![
        content_row(2, 10, Some("a"), "gold", 2),
        content_row(1, 11, Some("b"), "admin", 0),
        content_row(2, 12, Some("c"), "silver", 1),
        content_row(2, 13, None, "gone", 0),
    ];
    let listed = group_policy_contents(&policies, &rows);
    let looked_up = policy_info(&policies, &rows, 2).unwrap();
    assert_eq!(looked_up.uuid, 2);
    assert_eq!(looked_up.name, "Tier");
    let texts: Vec<String> = looked_up.content.iter().map(|c| c.content.clone()).collect();
    assert_eq!(texts, vec!["silver".to_string(), "gold".to_string()]);
    let listed_texts: Vec<String> = listed[1].content.iter().map(|c| c.content.clone()).collect();
    assert_eq!(listed_texts, texts);
    assert!(policy_info(&policies, &rows, 9).is_none());
}
