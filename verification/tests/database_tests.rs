use scim::clock::Timestamp;
use scim::database::{Database, DbEmail, DbError, DbGroupMember};

fn add_user(db: &mut Database, name: &str) -> String {
    db.create_user(None, name.to_string(), None, None, None, None, vec![], true)
        .unwrap()
        .id
}

#[test]
fn test_create_and_get_user() {
    let mut db = Database::new();
    let user = db
        .create_user(
            None,
            "bob".to_string(),
            Some("Bob Smith".to_string()),
            Some("Smith".to_string()),
            Some("Bob".to_string()),
            Some("Bob Smith".to_string()),
            vec![],
            true,
        )
        .unwrap();

    assert_eq!(user.user_name, "bob");

    let found = db.get_user(&user.id).unwrap();
    assert_eq!(found.user_name, "bob");
}

#[test]
fn test_unique_username() {
    let mut db = Database::new();
    db.create_user(None, "bob".to_string(), None, None, None, None, vec![], true)
        .unwrap();

    let result = db.create_user(
        None,
        "Bob".to_string(),
        None,
        None,
        None,
        None,
        vec![],
        true,
    );

    assert!(matches!(result, Err(DbError::UserAlreadyExists(_))));
}

#[test]
fn test_group_referential_integrity() {
    let mut db = Database::new();
    let user1 = db
        .create_user(None, "user1".to_string(), None, None, None, None, vec![], true)
        .unwrap();
    let user2 = db
        .create_user(None, "user2".to_string(), None, None, None, None, vec![], true)
        .unwrap();

    let group = db
        .create_group(
            "Admins".to_string(),
            vec![
                DbGroupMember { value: user1.id.clone(), display: None },
                DbGroupMember { value: user2.id.clone(), display: None },
            ],
        )
        .unwrap();

    assert_eq!(group.members.len(), 2);

    db.delete_user(&user1.id).unwrap();

    let updated_group = db.get_group(&group.id).unwrap();
    assert_eq!(updated_group.members.len(), 1);
    assert_eq!(updated_group.members[0].value, user2.id);
}

#[test]
fn created_user_keeps_fields_and_gets_fresh_id() {
    let mut db = Database::new();
    let emails = vec![DbEmail {
        value: "a@example.com".to_string(),
        email_type: Some("work".to_string()),
        primary: true,
    }];
    let u = db
        .create_user(
            Some("ext-1".to_string()),
            "alice".to_string(),
            Some("Alice A".to_string()),
            Some("A".to_string()),
            Some("Alice".to_string()),
            None,
            emails,
            false,
        )
        .unwrap();
    assert_eq!(u.id.len(), 36);
    for (i, c) in u.id.chars().enumerate() {
        if i == 8 || i == 13 || i == 18 || i == 23 {
            assert_eq!(c, '-');
        } else {
            assert!(c.is_ascii_hexdigit() && !c.is_ascii_uppercase());
        }
    }
    assert_eq!(u.external_id.as_deref(), Some("ext-1"));
    assert_eq!(u.emails.len(), 1);
    assert_eq!(u.emails[0].value, "a@example.com");
    assert!(u.emails[0].primary);
    assert!(!u.active);
    assert_eq!(u.created, u.last_modified);
    assert_eq!(db.get_stats(), (1, 0));
}

#[test]
fn get_missing_user_and_group_is_none() {
    let db = Database::new();
    assert!(db.get_user("nope").is_none());
    assert!(db.get_group("nope").is_none());
}

#[test]
fn update_user_checks_existence_and_names() {
    let mut db = Database::new();
    let a = add_user(&mut db, "alice");
    add_user(&mut db, "bob");

    let missing = db.update_user("nope", None, "x".to_string(), None, None, None, None, vec![], true);
    assert_eq!(missing.err(), Some(DbError::UserNotFound("nope".to_string())));

    let clash = db.update_user(&a, None, "BOB".to_string(), None, None, None, None, vec![], true);
    assert_eq!(clash.err(), Some(DbError::UserAlreadyExists("BOB".to_string())));

    // a change of case only of one's own name is allowed
    let before = db.get_user(&a).unwrap();
    let same = db
        .update_user(&a, None, "ALICE".to_string(), None, None, None, Some("Al".to_string()), vec![], true)
        .unwrap();
    assert_eq!(same.id, a);
    assert_eq!(same.user_name, "ALICE");
    assert_eq!(same.created, before.created);
    assert_eq!(db.get_user(&a).unwrap().display_name.as_deref(), Some("Al"));
}

#[test]
fn update_user_refreshes_member_names() {
    let mut db = Database::new();
    let a = add_user(&mut db, "alice");
    let b = add_user(&mut db, "bob");
    let g = db
        .create_group(
            "Team".to_string(),
            vec![
                DbGroupMember { value: a.clone(), display: Some("old".to_string()) },
                DbGroupMember { value: b.clone(), display: None },
            ],
        )
        .unwrap();
    assert_eq!(g.members[0].display.as_deref(), Some("old"));
    assert_eq!(g.members[1].display.as_deref(), Some("bob"));

    db.update_user(&a, None, "alice2".to_string(), None, None, None, None, vec![], true)
        .unwrap();
    let g2 = db.get_group(&g.id).unwrap();
    assert_eq!(g2.members[0].display.as_deref(), Some("alice2"));
    assert_eq!(g2.members[1].display.as_deref(), Some("bob"));
    assert_eq!(g2.last_modified, g.last_modified);

    db.update_user(&a, None, "alice2".to_string(), None, None, None, Some("Alice Two".to_string()), vec![], true)
        .unwrap();
    let g3 = db.get_group(&g.id).unwrap();
    assert_eq!(g3.members[0].display.as_deref(), Some("Alice Two"));
}

#[test]
fn delete_user_errors_when_missing() {
    let mut db = Database::new();
    assert_eq!(db.delete_user("x"), Err(DbError::UserNotFound("x".to_string())));
    let a = add_user(&mut db, "alice");
    assert_eq!(db.delete_user(&a), Ok(()));
    assert!(db.get_user(&a).is_none());
    assert_eq!(db.delete_user(&a), Err(DbError::UserNotFound(a.clone())));
}

#[test]
fn group_names_unique_ignoring_case() {
    let mut db = Database::new();
    let g = db.create_group("Admins".to_string(), vec![]).unwrap();
    let again = db.create_group("ADMINS".to_string(), vec![]);
    assert_eq!(again.err(), Some(DbError::GroupAlreadyExists("ADMINS".to_string())));
    let other = db.create_group("Ops".to_string(), vec![]).unwrap();
    let clash = db.update_group(&other.id, "admins".to_string(), vec![]);
    assert_eq!(clash.err(), Some(DbError::GroupAlreadyExists("admins".to_string())));
    let renamed = db.update_group(&g.id, "AdMiNs".to_string(), vec![]).unwrap();
    assert_eq!(renamed.display_name, "AdMiNs");
    assert_eq!(renamed.created, g.created);
    let missing = db.update_group("nope", "x".to_string(), vec![]);
    assert_eq!(missing.err(), Some(DbError::GroupNotFound("nope".to_string())));
}

#[test]
fn group_members_hydrated_from_users() {
    let mut db = Database::new();
    let a = db
        .create_user(None, "alice".to_string(), None, None, None, Some("Alice".to_string()), vec![], true)
        .unwrap()
        .id;
    let g = db
        .create_group(
            "G".to_string(),
            vec![
                DbGroupMember { value: a.clone(), display: None },
                DbGroupMember { value: "ghost".to_string(), display: None },
                DbGroupMember { value: a.clone(), display: Some("kept".to_string()) },
            ],
        )
        .unwrap();
    assert_eq!(g.members[0].display.as_deref(), Some("Alice"));
    assert_eq!(g.members[1].display, None);
    assert_eq!(g.members[2].display.as_deref(), Some("kept"));
}

#[test]
fn delete_group_and_user_groups() {
    let mut db = Database::new();
    let a = add_user(&mut db, "alice");
    let g1 = db
        .create_group("One".to_string(), vec![DbGroupMember { value: a.clone(), display: None }])
        .unwrap();
    let _g2 = db.create_group("Two".to_string(), vec![]).unwrap();
    let g3 = db
        .create_group("Three".to_string(), vec![DbGroupMember { value: a.clone(), display: None }])
        .unwrap();
    let mine: Vec<String> = db.get_user_groups(&a).into_iter().map(|g| g.id).collect();
    assert_eq!(mine, vec![g1.id.clone(), g3.id.clone()]);
    assert_eq!(db.delete_group(&g1.id), Ok(()));
    assert_eq!(db.delete_group(&g1.id), Err(DbError::GroupNotFound(g1.id.clone())));
    let mine: Vec<String> = db.get_user_groups(&a).into_iter().map(|g| g.id).collect();
    assert_eq!(mine, vec![g3.id.clone()]);
    assert_eq!(db.get_stats(), (1, 2));
}

#[test]
fn delete_user_keeps_other_groups() {
    let mut db = Database::new();
    let a = add_user(&mut db, "alice");
    let g = db.create_group("Empty".to_string(), vec![]).unwrap();
    db.delete_user(&a).unwrap();
    let g2 = db.get_group(&g.id).unwrap();
    assert_eq!(g2.created, g.created);
    assert!(g2.members.is_empty());
    assert_eq!(g2.display_name, "Empty");
}

#[test]
fn clear_all_empties_store() {
    let mut db = Database::new();
    add_user(&mut db, "alice");
    db.create_group("G".to_string(), vec![]).unwrap();
    assert_eq!(db.get_stats(), (1, 1));
    db.clear_all();
    assert_eq!(db.get_stats(), (0, 0));
    // names become free again
    assert!(db.create_user(None, "alice".to_string(), None, None, None, None, vec![], true).is_ok());
}

#[test]
fn list_users_sorted_filtered_and_paged() {
    let mut db = Database::new();
    for n in ["carol", "alice", "Bob", "dave", "alicia"] {
        add_user(&mut db, n);
    }
    let (all, total) = db.list_users(None, 1, 100);
    assert_eq!(total, 5);
    let names: Vec<&str> = all.iter().map(|u| u.user_name.as_str()).collect();
    // String order: upper case before lower case
    assert_eq!(names, vec!["Bob", "alice", "alicia", "carol", "dave"]);

    let (page, total) = db.list_users(None, 2, 2);
    assert_eq!(total, 5);
    let names: Vec<&str> = page.iter().map(|u| u.user_name.as_str()).collect();
    assert_eq!(names, vec!["alice", "alicia"]);

    let (page, _) = db.list_users(None, 0, 1);
    assert_eq!(page[0].user_name, "Bob");

    let (page, total) = db.list_users(None, 10, 5);
    assert_eq!(total, 5);
    assert!(page.is_empty());

    let (page, total) = db.list_users(Some("userName co \"ALI\"".to_string()), 1, 20);
    assert_eq!(total, 2);
    assert_eq!(page.len(), 2);

    let (page, total) = db.list_users(Some("username eq BOB".to_string()), 1, 20);
    assert_eq!(total, 1);
    assert_eq!(page[0].user_name, "Bob");

    let (_, total) = db.list_users(Some("title eq x".to_string()), 1, 20);
    assert_eq!(total, 5);

    let (_, total) = db.list_users(Some("garbage".to_string()), 1, 20);
    assert_eq!(total, 5);

    let (page, total) = db.list_users(Some("userName eq alice".to_string()), 1, 0);
    assert_eq!(total, 1);
    assert!(page.is_empty());
}

#[test]
fn list_users_by_external_id() {
    let mut db = Database::new();
    db.create_user(Some("E-7".to_string()), "x".to_string(), None, None, None, None, vec![], true)
        .unwrap();
    db.create_user(None, "y".to_string(), None, None, None, None, vec![], true)
        .unwrap();
    let (page, total) = db.list_users(Some("externalId eq 'e-7'".to_string()), 1, 20);
    assert_eq!(total, 1);
    assert_eq!(page[0].user_name, "x");
    let (page, total) = db.list_users(Some("externalId eq \"\"".to_string()), 1, 20);
    assert_eq!(total, 1);
    assert_eq!(page[0].user_name, "y");
}

#[test]
fn list_groups_sorted_filtered_and_paged() {
    let mut db = Database::new();
    for n in ["Sales", "admins", "Engineering"] {
        db.create_group(n.to_string(), vec![]).unwrap();
    }
    let (all, total) = db.list_groups(None, 1, 20);
    assert_eq!(total, 3);
    let names: Vec<&str> = all.iter().map(|g| g.display_name.as_str()).collect();
    assert_eq!(names, vec!["Engineering", "Sales", "admins"]);
    let (page, total) = db.list_groups(Some("displayName co \"IN\"".to_string()), 1, 20);
    assert_eq!(total, 2);
    let names: Vec<&str> = page.iter().map(|g| g.display_name.as_str()).collect();
    assert_eq!(names, vec!["Engineering", "admins"]);
    let (page, total) = db.list_groups(Some("DISPLAYNAME EQ sales".to_string()), 1, 20);
    assert_eq!(total, 1);
    assert_eq!(page[0].display_name, "Sales");
    let (page, _) = db.list_groups(None, 3, 20);
    assert_eq!(page.len(), 1);
    assert_eq!(page[0].display_name, "admins");
}

#[test]
fn db_error_messages() {
    assert_eq!(
        DbError::UserAlreadyExists("bob".to_string()).message(),
        "User with userName 'bob' already exists"
    );
    assert_eq!(DbError::UserNotFound("7".to_string()).message(), "User not found with ID '7'");
    assert_eq!(DbError::GroupNotFound("9".to_string()).message(), "Group not found with ID '9'");
    assert_eq!(
        DbError::GroupAlreadyExists("G".to_string()).message(),
        "Group with displayName 'G' already exists"
    );
}

#[test]
fn unfiltered_listing_counts_every_stored_resource() {
    let mut db = Database::new();
    for n in ["a", "b", "c"] {
        add_user(&mut db, n);
    }
    db.create_group("x".to_string(), vec![]).unwrap();
    db.create_group("y".to_string(), vec![]).unwrap();
    let (_, users) = db.list_users(None, 1, 1);
    let (_, groups) = db.list_groups(None, 1, 1);
    assert_eq!((users, groups), db.get_stats());
    // two listings of the same store agree
    let first: Vec<String> = db.list_users(None, 1, 10).0.into_iter().map(|u| u.id).collect();
    let second: Vec<String> = db.list_users(None, 1, 10).0.into_iter().map(|u| u.id).collect();
    assert_eq!(first, second);
}

#[test]
fn timed_updates_and_deletes_stamp_the_given_instant() {
    let mut db = Database::new();
    let uid = add_user(&mut db, "carol");
    let kept = add_user(&mut db, "dave");
    let g = db
        .create_group(
            "Ops".to_string(),
            vec![
                DbGroupMember { value: uid.clone(), display: None },
                DbGroupMember { value: kept.clone(), display: None },
            ],
        )
        .unwrap();
    let created = db.get_user(&uid).unwrap().created;
    let t1 = Timestamp::from_unix(1_700_000_000, 5).unwrap();
    let u = db
        .update_user_at(
            &uid,
            t1,
            None,
            "carol2".to_string(),
            None,
            None,
            None,
            None,
            vec![],
            false,
        )
        .unwrap();
    assert_eq!(u.last_modified, t1);
    assert_eq!(u.created, created);
    assert_eq!(db.get_user(&uid).unwrap().last_modified, t1);

    let t2 = Timestamp::from_unix(1_700_000_100, 0).unwrap();
    let ng = db
        .update_group_at(
            &g.id,
            t2,
            "Ops2".to_string(),
            vec![DbGroupMember { value: uid.clone(), display: None }],
        )
        .unwrap();
    assert_eq!(ng.last_modified, t2);
    assert_eq!(ng.created, g.created);
    assert_eq!(ng.members[0].display.as_deref(), Some("carol2"));

    let missing = db.update_group_at("nope", t2, "X".to_string(), vec![]);
    assert!(matches!(missing, Err(DbError::GroupNotFound(_))));

    let t3 = Timestamp::from_unix(1_700_000_200, 7).unwrap();
    db.delete_user_at(&uid, t3).unwrap();
    let after = db.get_group(&g.id).unwrap();
    assert_eq!(after.last_modified, t3);
    assert!(after.members.is_empty());
    assert!(matches!(db.delete_user_at(&uid, t3), Err(DbError::UserNotFound(_))));
}
