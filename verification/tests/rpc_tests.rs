use scim::client::{client_request, ClientCommand, ControlRequest};
use scim::database::{Database, DbError};
use scim::grpc_server::{map_db_error, ScimControlService};
use scim::proto::{
    ClearAllRequest, Code, CreateGroupRequest, CreateUserRequest, DeleteGroupRequest,
    DeleteUserRequest, Email, GetGroupRequest, GetUserRequest, GroupMember, ListGroupsRequest,
    ListUsersRequest, Name, StatsRequest, UpdateGroupRequest, UpdateUserRequest,
};

fn create_req(name: &str) -> CreateUserRequest {
    CreateUserRequest {
        user_name: name.to_string(),
        emails: vec![Email { value: "m@x".to_string(), email_type: "work".to_string(), primary: true }],
        display_name: String::new(),
        active: true,
        external_id: String::new(),
        name: None,
    }
}

#[test]
fn rpc_status_for_store_errors() {
    let s = map_db_error(DbError::UserNotFound("1".to_string()));
    assert_eq!(s.code, Code::NotFound);
    assert_eq!(s.message, "User not found: 1");
    let s = map_db_error(DbError::GroupNotFound("2".to_string()));
    assert_eq!(s.code, Code::NotFound);
    assert_eq!(s.message, "Group not found: 2");
    let s = map_db_error(DbError::UserAlreadyExists("bob".to_string()));
    assert_eq!(s.code, Code::AlreadyExists);
    assert_eq!(s.message, "User with username 'bob' already exists");
    let s = map_db_error(DbError::GroupAlreadyExists("G".to_string()));
    assert_eq!(s.code, Code::AlreadyExists);
    assert_eq!(s.message, "Group with displayName 'G' already exists");
}

#[test]
fn rpc_user_calls() {
    let mut svc = ScimControlService::new(Database::new());
    let u = svc.create_user(create_req("alice")).unwrap().user.unwrap();
    assert_eq!(u.user_name, "alice");
    assert_eq!(u.external_id, "");
    assert_eq!(u.display_name, "");
    let name = u.name.as_ref().unwrap();
    assert_eq!(name.formatted, "");
    assert_eq!(u.emails[0].email_type, "work");
    assert!(u.emails[0].primary);
    let stored = svc.db.get_user(&u.id).unwrap();
    assert_eq!(stored.external_id, None);
    assert_eq!(stored.display_name, None);
    assert_eq!(stored.formatted_name.as_deref(), Some(""));

    let err = svc.create_user(create_req("ALICE")).unwrap_err();
    assert_eq!(err.code, Code::AlreadyExists);

    let got = svc.get_user(GetUserRequest { id: u.id.clone() }).unwrap().user.unwrap();
    assert_eq!(got.id, u.id);
    assert_eq!(svc.get_user(GetUserRequest { id: "x".to_string() }).unwrap_err().code, Code::NotFound);

    let upd = svc
        .update_user(UpdateUserRequest {
            id: u.id.clone(),
            user_name: "alice".to_string(),
            emails: vec![],
            display_name: "Alice".to_string(),
            active: false,
            external_id: "E".to_string(),
            name: Some(Name {
                formatted: "A L".to_string(),
                family_name: "L".to_string(),
                given_name: "A".to_string(),
            }),
        })
        .unwrap()
        .user
        .unwrap();
    assert_eq!(upd.display_name, "Alice");
    assert_eq!(upd.external_id, "E");
    assert!(!upd.active);
    assert_eq!(upd.name.unwrap().given_name, "A");

    let list = svc
        .list_users(ListUsersRequest { filter: String::new(), start_index: 0, count: -3 })
        .unwrap();
    assert_eq!(list.total_results, 1);
    assert_eq!(list.items_per_page, 20);
    assert_eq!(list.start_index, 1);
    assert_eq!(list.users.len(), 1);

    let d = svc.delete_user(DeleteUserRequest { id: u.id.clone() }).unwrap();
    assert!(d.success);
    assert_eq!(d.message, "User deleted successfully");
    assert_eq!(svc.delete_user(DeleteUserRequest { id: u.id }).unwrap_err().code, Code::NotFound);
}

#[test]
fn rpc_group_calls() {
    let mut svc = ScimControlService::new(Database::new());
    let u = svc.create_user(create_req("bob")).unwrap().user.unwrap();
    let g = svc
        .create_group(CreateGroupRequest {
            display_name: "Team".to_string(),
            members: vec![
                GroupMember { value: u.id.clone(), reference: String::new(), display: String::new() },
                GroupMember { value: "ghost".to_string(), reference: "r".to_string(), display: String::new() },
            ],
        })
        .unwrap()
        .group
        .unwrap();
    assert_eq!(g.members[0].display, "bob");
    assert_eq!(g.members[1].display, "");
    assert_eq!(g.members[1].reference, "");
    assert_eq!(
        svc.create_group(CreateGroupRequest { display_name: "team".to_string(), members: vec![] })
            .unwrap_err()
            .code,
        Code::AlreadyExists
    );
    let got = svc.get_group(GetGroupRequest { id: g.id.clone() }).unwrap().group.unwrap();
    assert_eq!(got.display_name, "Team");
    let upd = svc
        .update_group(UpdateGroupRequest { id: g.id.clone(), display_name: "Crew".to_string(), members: vec![] })
        .unwrap()
        .group
        .unwrap();
    assert_eq!(upd.display_name, "Crew");
    assert!(upd.members.is_empty());
    let list = svc
        .list_groups(ListGroupsRequest { filter: "displayName eq crew".to_string(), start_index: 1, count: 5 })
        .unwrap();
    assert_eq!(list.total_results, 1);
    assert_eq!(list.items_per_page, 5);
    let stats = svc.get_stats(StatsRequest {}).unwrap();
    assert_eq!((stats.total_users, stats.total_groups), (1, 1));
    let d = svc.delete_group(DeleteGroupRequest { id: g.id.clone() }).unwrap();
    assert_eq!(d.message, "Group deleted successfully");
    assert!(svc.clear_all(ClearAllRequest {}).unwrap().success);
    let stats = svc.get_stats(StatsRequest {}).unwrap();
    assert_eq!((stats.total_users, stats.total_groups), (0, 0));
}

#[test]
fn client_builds_requests() {
    let r = client_request(ClientCommand::CreateUser {
        username: "bob".to_string(),
        email: vec!["b@x".to_string(), "c@x".to_string()],
        display_name: None,
        active: true,
        external_id: Some("e".to_string()),
        given_name: Some("Bob".to_string()),
        family_name: Some("Smith".to_string()),
    });
    match r {
        ControlRequest::CreateUser(q) => {
            assert_eq!(q.user_name, "bob");
            assert_eq!(q.emails.len(), 2);
            assert_eq!(q.emails[1].value, "c@x");
            assert_eq!(q.emails[0].email_type, "work");
            assert!(!q.emails[0].primary);
            assert_eq!(q.display_name, "");
            assert_eq!(q.external_id, "e");
            let n = q.name.unwrap();
            assert_eq!(n.formatted, "Bob Smith");
            assert_eq!(n.family_name, "Smith");
            assert_eq!(n.given_name, "Bob");
        }
        other => panic!("unexpected {:?}", other),
    }
    let r = client_request(ClientCommand::UpdateUser {
        id: "1".to_string(),
        username: "u".to_string(),
        email: vec![],
        display_name: Some("D".to_string()),
        active: false,
        external_id: None,
        given_name: None,
        family_name: Some("F".to_string()),
    });
    match r {
        ControlRequest::UpdateUser(q) => {
            assert_eq!(q.id, "1");
            assert_eq!(q.display_name, "D");
            assert_eq!(q.name.unwrap().formatted, "F");
        }
        other => panic!("unexpected {:?}", other),
    }
    match client_request(ClientCommand::ListUsers { filter: None, start_index: 3, count: 7 }) {
        ControlRequest::ListUsers(q) => {
            assert_eq!(q.filter, "");
            assert_eq!((q.start_index, q.count), (3, 7));
        }
        other => panic!("unexpected {:?}", other),
    }
    match client_request(ClientCommand::CreateGroup { name: "G".to_string(), member: vec!["a".to_string()] }) {
        ControlRequest::CreateGroup(q) => {
            assert_eq!(q.display_name, "G");
            assert_eq!(q.members[0].value, "a");
            assert_eq!(q.members[0].display, "");
        }
        other => panic!("unexpected {:?}", other),
    }
    assert!(matches!(client_request(ClientCommand::Stats), ControlRequest::Stats(_)));
    assert!(matches!(client_request(ClientCommand::ClearAll), ControlRequest::ClearAll(_)));
    assert!(matches!(
        client_request(ClientCommand::DeleteGroup { id: "x".to_string() }),
        ControlRequest::DeleteGroup(_)
    ));
}

#[test]
fn rpc_user_changes_reach_groups() {
    let mut svc = ScimControlService::new(Database::new());
    let u = svc.create_user(create_req("carol")).unwrap().user.unwrap();
    let other = svc.create_user(create_req("dan")).unwrap().user.unwrap();
    let g = svc
        .create_group(CreateGroupRequest {
            display_name: "Ops".to_string(),
            members: vec![
                GroupMember { value: u.id.clone(), reference: String::new(), display: String::new() },
                GroupMember { value: other.id.clone(), reference: String::new(), display: String::new() },
            ],
        })
        .unwrap()
        .group
        .unwrap();
    svc.update_user(UpdateUserRequest {
        id: u.id.clone(),
        user_name: "carol".to_string(),
        emails: vec![],
        display_name: "Carol C".to_string(),
        active: true,
        external_id: String::new(),
        name: None,
    })
    .unwrap();
    let stored = svc.db.get_group(&g.id).unwrap();
    assert_eq!(stored.members[0].display.as_deref(), Some("Carol C"));
    assert_eq!(stored.members[1].display.as_deref(), Some("dan"));

    svc.delete_user(DeleteUserRequest { id: u.id.clone() }).unwrap();
    let stored = svc.db.get_group(&g.id).unwrap();
    assert_eq!(stored.members.len(), 1);
    assert_eq!(stored.members[0].value, other.id);

    svc.delete_group(DeleteGroupRequest { id: g.id.clone() }).unwrap();
    assert!(svc.db.get_user(&other.id).is_some());
    assert!(svc.db.get_group(&g.id).is_none());
}
