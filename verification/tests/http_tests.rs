use scim::clock::Timestamp;
use scim::database::{Database, DbEmail, DbError, DbGroup, DbGroupMember, DbUser};
use scim::http_server::{
    auth_middleware, create_group, create_user, db_group_to_scim, db_user_to_scim, decimal_string,
    delete_group, delete_user, get_base_url, get_group, get_groups, get_user, get_users,
    handle_db_error, update_group, update_user, ScimQuery,
};
use scim::scim_schemas::{
    ScimEmail, ScimError, ScimGroup, ScimGroupMember, ScimName, ScimUser, ERROR_SCHEMA,
    GROUP_SCHEMA, LIST_RESPONSE_SCHEMA, USER_SCHEMA,
};
use scim::settings::Settings;

fn settings() -> Settings {
    Settings {
        http_host: "127.0.0.1".to_string(),
        http_port: 8080,
        grpc_host: "127.0.0.1".to_string(),
        grpc_port: 50051,
        auth_token: "secret".to_string(),
    }
}

fn payload(name: &str) -> ScimUser {
    ScimUser {
        schemas: vec![USER_SCHEMA.to_string()],
        id: None,
        external_id: None,
        user_name: name.to_string(),
        name: None,
        display_name: None,
        emails: None,
        active: None,
        groups: None,
        meta: None,
    }
}

#[test]
fn base_url_and_numbers() {
    assert_eq!(get_base_url(&settings()), "http://127.0.0.1:8080");
    assert_eq!(decimal_string(0), "0");
    assert_eq!(decimal_string(65535), "65535");
    assert_eq!(decimal_string(10), "10");
}

#[test]
fn scim_error_new() {
    let e = ScimError::new("404", None, Some("x".to_string()));
    assert_eq!(e.schemas, vec![ERROR_SCHEMA.to_string()]);
    assert_eq!(e.status, "404");
    assert_eq!(e.scim_type, None);
    assert_eq!(e.detail.as_deref(), Some("x"));
}

#[test]
fn db_errors_map_to_responses() {
    let r = handle_db_error(DbError::UserNotFound("u1".to_string()));
    assert_eq!(r.0, 404);
    assert_eq!(r.1.status, "404");
    assert_eq!(r.1.detail.as_deref(), Some("User not found: u1"));
    assert_eq!(r.1.scim_type, None);
    let r = handle_db_error(DbError::GroupNotFound("g1".to_string()));
    assert_eq!(r.0, 404);
    assert_eq!(r.1.detail.as_deref(), Some("Group not found: g1"));
    let r = handle_db_error(DbError::UserAlreadyExists("bob".to_string()));
    assert_eq!(r.0, 409);
    assert_eq!(r.1.status, "409");
    assert_eq!(r.1.scim_type.as_deref(), Some("uniqueness"));
    assert_eq!(r.1.detail.as_deref(), Some("Username already exists: bob"));
    let r = handle_db_error(DbError::GroupAlreadyExists("G".to_string()));
    assert_eq!(r.0, 409);
    assert_eq!(r.1.detail.as_deref(), Some("Group name already exists: G"));
}

#[test]
fn user_to_scim_shape() {
    let t = Timestamp::from_unix(1516991409, 453_000_000).unwrap();
    let user = DbUser {
        id: "u1".to_string(),
        external_id: Some("e".to_string()),
        user_name: "bob".to_string(),
        formatted_name: Some("Bob B".to_string()),
        family_name: None,
        given_name: Some("Bob".to_string()),
        display_name: None,
        emails: vec![DbEmail { value: "b@x".to_string(), email_type: None, primary: false }],
        active: true,
        created: t,
        last_modified: t,
    };
    let group = DbGroup {
        id: "g1".to_string(),
        display_name: "Team".to_string(),
        members: vec![],
        created: t,
        last_modified: t,
    };
    let s = db_user_to_scim(user, "http://h:1", vec![group]);
    assert_eq!(s.schemas, vec![USER_SCHEMA.to_string()]);
    assert_eq!(s.id.as_deref(), Some("u1"));
    assert_eq!(s.external_id.as_deref(), Some("e"));
    let name = s.name.unwrap();
    assert_eq!(name.formatted.as_deref(), Some("Bob B"));
    assert_eq!(name.family_name, None);
    let emails = s.emails.unwrap();
    assert_eq!(emails[0].value, "b@x");
    assert_eq!(emails[0].primary, Some(false));
    assert_eq!(s.active, Some(true));
    let groups = s.groups.unwrap();
    assert_eq!(groups[0].value, "g1");
    assert_eq!(groups[0].reference, "http://h:1/scim/v2/Groups/g1");
    assert_eq!(groups[0].display.as_deref(), Some("Team"));
    let meta = s.meta.unwrap();
    assert_eq!(meta.resource_type, "User");
    assert_eq!(meta.created, "2018-01-26T18:30:09Z");
    assert_eq!(meta.last_modified, "2018-01-26T18:30:09Z");
    assert_eq!(meta.location, "http://h:1/scim/v2/Users/u1");
    assert_eq!(meta.version, None);
}

#[test]
fn user_without_groups_has_none() {
    let t = Timestamp::from_unix(0, 0).unwrap();
    let user = DbUser {
        id: "u".to_string(),
        external_id: None,
        user_name: "n".to_string(),
        formatted_name: None,
        family_name: None,
        given_name: None,
        display_name: None,
        emails: vec![],
        active: false,
        created: t,
        last_modified: t,
    };
    let s = db_user_to_scim(user, "b", vec![]);
    assert!(s.groups.is_none());
    assert_eq!(s.emails.unwrap().len(), 0);
    assert_eq!(s.meta.unwrap().created, "1970-01-01T00:00:00Z");
}

#[test]
fn group_to_scim_shape() {
    let t = Timestamp::from_unix(86400, 0).unwrap();
    let g = DbGroup {
        id: "g".to_string(),
        display_name: "Ops".to_string(),
        members: vec![
            DbGroupMember { value: "u1".to_string(), display: Some("A".to_string()) },
            DbGroupMember { value: "u2".to_string(), display: None },
        ],
        created: t,
        last_modified: t,
    };
    let s = db_group_to_scim(g, "http://h");
    assert_eq!(s.schemas, vec![GROUP_SCHEMA.to_string()]);
    let ms = s.members.unwrap();
    assert_eq!(ms[0].reference.as_deref(), Some("http://h/scim/v2/Users/u1"));
    assert_eq!(ms[0].display.as_deref(), Some("A"));
    assert_eq!(ms[1].display, None);
    let meta = s.meta.unwrap();
    assert_eq!(meta.resource_type, "Group");
    assert_eq!(meta.created, "1970-01-02T00:00:00Z");
    assert_eq!(meta.location, "http://h/scim/v2/Groups/g");

    let empty = DbGroup {
        id: "e".to_string(),
        display_name: "E".to_string(),
        members: vec![],
        created: t,
        last_modified: t,
    };
    assert!(db_group_to_scim(empty, "x").members.is_none());
}

#[test]
fn timestamp_range() {
    assert!(Timestamp::from_unix(-1, 0).is_none());
    assert!(Timestamp::from_unix(0, 1_000_000_000).is_none());
    assert!(Timestamp::from_unix(8210266876799, 999_999_999).is_some());
    assert!(Timestamp::from_unix(8210266876800, 0).is_none());
}

#[test]
fn auth_requires_exact_bearer_token() {
    let s = settings();
    assert!(auth_middleware(Some("Bearer secret"), &s).is_ok());
    assert!(auth_middleware(Some("Bearer secret2"), &s).is_err());
    assert!(auth_middleware(Some("bearer secret"), &s).is_err());
    assert!(auth_middleware(Some("secret"), &s).is_err());
    let e = auth_middleware(None, &s).unwrap_err();
    assert_eq!(e.0, 401);
    assert_eq!(e.1.status, "401");
    assert_eq!(
        e.1.detail.as_deref(),
        Some("Unauthorized: Invalid or missing Bearer token")
    );
}

#[test]
fn user_endpoints() {
    let s = settings();
    let mut db = Database::new();
    let mut p = payload("alice");
    p.emails = Some(vec![ScimEmail { value: "a@x".to_string(), email_type: None, primary: None }]);
    p.name = Some(ScimName { formatted: None, family_name: Some("A".to_string()), given_name: None });
    let created = create_user(&mut db, &s, p).unwrap();
    assert_eq!(created.0, 201);
    let id = created.1.id.clone().unwrap();
    assert_eq!(created.1.active, Some(true));
    assert_eq!(created.1.emails.as_ref().unwrap()[0].primary, Some(false));
    assert!(created.1.groups.is_none());
    assert_eq!(
        created.1.meta.as_ref().unwrap().location,
        format!("http://127.0.0.1:8080/scim/v2/Users/{}", id)
    );

    let dup = create_user(&mut db, &s, payload("ALICE")).unwrap_err();
    assert_eq!(dup.0, 409);

    let g = create_group(
        &mut db,
        &s,
        ScimGroup {
            schemas: vec![],
            id: None,
            display_name: "Team".to_string(),
            members: Some(vec![ScimGroupMember { value: id.clone(), reference: None, display: None }]),
            meta: None,
        },
    )
    .unwrap();
    assert_eq!(g.0, 201);
    assert_eq!(g.1.members.as_ref().unwrap()[0].display.as_deref(), Some("alice"));

    let got = get_user(&db, &s, id.clone()).unwrap();
    assert_eq!(got.0, 200);
    assert_eq!(got.1.groups.as_ref().unwrap()[0].display.as_deref(), Some("Team"));
    let missing = get_user(&db, &s, "nope".to_string()).unwrap_err();
    assert_eq!(missing.0, 404);
    assert_eq!(missing.1.detail.as_deref(), Some("User not found: nope"));

    let mut upd = payload("alice");
    upd.active = Some(false);
    let updated = update_user(&mut db, &s, id.clone(), upd).unwrap();
    assert_eq!(updated.0, 200);
    assert_eq!(updated.1.active, Some(false));
    assert!(updated.1.groups.is_some());
    assert_eq!(update_user(&mut db, &s, "nope".to_string(), payload("z")).unwrap_err().0, 404);

    let list = get_users(&db, &s, ScimQuery { filter: None, start_index: None, count: None });
    assert_eq!(list.0, 200);
    assert_eq!(list.1.schemas, vec![LIST_RESPONSE_SCHEMA.to_string()]);
    assert_eq!(list.1.total_results, 1);
    assert_eq!(list.1.items_per_page, 1);
    assert_eq!(list.1.start_index, 1);
    assert!(list.1.resources[0].groups.is_some());

    assert_eq!(delete_user(&mut db, id.clone()).ok(), Some(204));
    assert_eq!(delete_user(&mut db, id.clone()).unwrap_err().0, 404);
}

#[test]
fn group_endpoints() {
    let s = settings();
    let mut db = Database::new();
    let mk = |n: &str| ScimGroup {
        schemas: vec![],
        id: None,
        display_name: n.to_string(),
        members: None,
        meta: None,
    };
    let g = create_group(&mut db, &s, mk("Ops")).unwrap();
    let id = g.1.id.clone().unwrap();
    assert!(g.1.members.is_none());
    assert_eq!(create_group(&mut db, &s, mk("OPS")).unwrap_err().0, 409);
    create_group(&mut db, &s, mk("Dev")).unwrap();
    let got = get_group(&db, &s, id.clone()).unwrap();
    assert_eq!(got.1.display_name, "Ops");
    assert_eq!(get_group(&db, &s, "x".to_string()).unwrap_err().0, 404);
    let upd = update_group(&mut db, &s, id.clone(), mk("Operations")).unwrap();
    assert_eq!(upd.0, 200);
    assert_eq!(upd.1.display_name, "Operations");
    assert_eq!(update_group(&mut db, &s, id.clone(), mk("dev")).unwrap_err().0, 409);
    let list = get_groups(&db, &s, ScimQuery { filter: None, start_index: Some(2), count: Some(1) });
    assert_eq!(list.1.total_results, 2);
    assert_eq!(list.1.items_per_page, 1);
    assert_eq!(list.1.start_index, 2);
    assert_eq!(list.1.resources[0].display_name, "Operations");
    assert_eq!(delete_group(&mut db, id.clone()).ok(), Some(204));
    assert_eq!(delete_group(&mut db, id).unwrap_err().1.detail.is_some(), true);
}

#[test]
fn settings_overrides() {
    let s = settings().apply_overrides(None, Some(9000), Some("0.0.0.0".to_string()), None, None);
    assert_eq!(s.http_host, "127.0.0.1");
    assert_eq!(s.http_port, 9000);
    assert_eq!(s.grpc_host, "0.0.0.0");
    assert_eq!(s.grpc_port, 50051);
    assert_eq!(s.auth_token, "secret");
}
