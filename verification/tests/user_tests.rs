use dashmap::DashMap;
use metadata_bridge::error::RobustMQError;
use metadata_bridge::query::Queryable;
use metadata_bridge::user::{
    list_users, user_create, user_create_request, user_delete, user_delete_request, user_list,
    user_rows, CreateUserReq, DeleteUserReq, MqttUser, UserListReq, UserListRow,
};

fn user(name: &str, password: &str, is_superuser: bool) -> MqttUser {
    MqttUser { username: name.to_string(), password: password.to_string(), is_superuser }
}

fn row(name: &str, is_superuser: bool) -> UserListRow {
    UserListRow { username: name.to_string(), is_superuser }
}

fn request(page: u32, limit: u32) -> UserListReq {
    UserListReq {
        page,
        limit,
        sort_field: None,
        sort_by: None,
        filter_field: None,
        filter_values: None,
        exact_match: None,
    }
}

fn staff() -> Vec<MqttUser> {
    vec![
        user("carol", "pw3", false),
        user("alice", "pw1", false),
        user("bob", "pw2", true),
        user("alicia", "pw4", true),
    ]
}

#[test]
fn rows_show_name_and_rank_and_nothing_else() {
    let rows = user_rows(vec![user("alice", "pw1", false), user("bob", "pw2", true)]);
    assert_eq!(rows, vec![row("alice", false), row("bob", true)]);
    let shown = format!("{:?}", rows);
    assert!(!shown.contains("pw1"));
    assert!(!shown.contains("pw2"));
    assert!(!shown.contains("password"));
}

#[test]
fn rows_of_no_users_are_no_rows() {
    assert!(user_rows(Vec::new()).is_empty());
}

#[test]
fn users_that_differ_in_passwords_only_are_listed_alike() {
    let mut others = staff();
    for (i, other) in others.iter_mut().enumerate() {
        other.password = format!("changed-{}", i);
    }
    let mut asked = request(1, 3);
    asked.sort_field = Some("username".to_string());
    let one = list_users(asked.clone(), staff()).data();
    let two = list_users(asked, others).data();
    assert_eq!(one, two);
}

#[test]
fn a_row_resolves_its_username_only() {
    let shown = row("alice", true);
    assert_eq!(shown.get_field_str("username"), Some("alice".to_string()));
    assert_eq!(shown.get_field_str("is_superuser"), None);
    assert_eq!(shown.get_field_str("password"), None);
    assert_eq!(shown.get_field_str("Username"), None);
    assert_eq!(shown.get_field_str(""), None);
}

#[test]
fn a_plain_request_lists_the_users_as_they_come() {
    let reply = list_users(request(1, 10), staff());
    assert_eq!(reply.code(), 0);
    let page = reply.data();
    assert_eq!(
        page.data,
        vec![row("carol", false), row("alice", false), row("bob", true), row("alicia", true)]
    );
    assert_eq!(page.total_count, 4);
}

#[test]
fn a_request_is_filtered_sorted_and_paged() {
    let mut asked = request(1, 1);
    asked.filter_field = Some("username".to_string());
    asked.filter_values = Some(vec!["ali".to_string()]);
    asked.sort_field = Some("username".to_string());
    asked.sort_by = Some("desc".to_string());
    let page = list_users(asked.clone(), staff()).data();
    assert_eq!(page.data, vec![row("alicia", true)]);
    assert_eq!(page.total_count, 2);
    asked.page = 2;
    let page = list_users(asked.clone(), staff()).data();
    assert_eq!(page.data, vec![row("alice", false)]);
    assert_eq!(page.total_count, 2);
    asked.page = 3;
    let page = list_users(asked.clone(), staff()).data();
    assert!(page.data.is_empty());
    assert_eq!(page.total_count, 2);
    asked.page = 1;
    asked.exact_match = Some(true);
    let page = list_users(asked, staff()).data();
    assert!(page.data.is_empty());
    assert_eq!(page.total_count, 0);
}

#[test]
fn the_total_does_not_depend_on_the_page() {
    for page in 0..5u32 {
        for limit in 0..6u32 {
            let mut asked = request(page, limit);
            asked.filter_field = Some("username".to_string());
            asked.filter_values = Some(vec!["a".to_string()]);
            let shown = list_users(asked, staff()).data();
            assert_eq!(shown.total_count, 3);
            let expected = if page == 0 {
                0
            } else {
                (limit as usize).min(3usize.saturating_sub((page as usize - 1) * limit as usize))
            };
            assert_eq!(shown.data.len(), expected);
        }
    }
}

#[test]
fn a_map_of_users_is_listed_by_name() {
    let users: DashMap<String, MqttUser> = DashMap::new();
    for one in staff() {
        users.insert(one.username.clone(), one);
    }
    let mut asked = request(1, 3);
    asked.sort_field = Some("username".to_string());
    let reply = user_list(asked, Ok(users));
    let reply = match reply {
        Ok(reply) => reply,
        Err(_) => panic!("a map of users is listed"),
    };
    assert_eq!(reply.code(), 0);
    let page = reply.data();
    assert_eq!(page.data, vec![row("alice", false), row("alicia", true), row("bob", true)]);
    assert_eq!(page.total_count, 4);
}

#[test]
fn a_map_of_users_is_listed_whole_without_a_sort_field() {
    let users: DashMap<String, MqttUser> = DashMap::new();
    for one in staff() {
        users.insert(one.username.clone(), one);
    }
    let reply = match user_list(request(1, 10), Ok(users)) {
        Ok(reply) => reply,
        Err(_) => panic!("a map of users is listed"),
    };
    let page = reply.data();
    assert_eq!(page.total_count, 4);
    let mut names: Vec<String> = page.data.iter().map(|r| r.username.clone()).collect();
    names.sort();
    assert_eq!(names, vec!["alice", "alicia", "bob", "carol"]);
}

#[test]
fn an_empty_map_of_users_gives_an_empty_page() {
    let users: DashMap<String, MqttUser> = DashMap::new();
    let reply = match user_list(request(1, 10), Ok(users)) {
        Ok(reply) => reply,
        Err(_) => panic!("an empty map is listed"),
    };
    let page = reply.data();
    assert!(page.data.is_empty());
    assert_eq!(page.total_count, 0);
}

#[test]
fn a_directory_that_fails_is_answered_by_its_message() {
    let failed = RobustMQError::CommonError("directory is down".to_string());
    match user_list(request(1, 10), Err(failed)) {
        Ok(_) => panic!("no listing without users"),
        Err(reply) => {
            assert_eq!(reply.code(), 100);
            assert!(!reply.is_ok());
            assert_eq!(reply.data(), "directory is down");
        }
    }
}

#[test]
fn a_request_for_creation_names_the_user_to_save() {
    let asked = CreateUserReq {
        username: "dave".to_string(),
        password: "secret".to_string(),
        is_superuser: true,
    };
    assert_eq!(user_create_request(asked), user("dave", "secret", true));
}

#[test]
fn a_request_for_deletion_names_the_user_to_delete() {
    let asked = DeleteUserReq { username: "dave".to_string() };
    assert_eq!(user_delete_request(asked), "dave");
}

#[test]
fn a_mutation_that_went_through_is_answered_by_success() {
    let reply = user_create(Ok(()));
    assert_eq!(reply.code(), 0);
    assert_eq!(reply.data(), "success");
    let reply = user_delete(Ok(()));
    assert_eq!(reply.code(), 0);
    assert_eq!(reply.data(), "success");
}

#[test]
fn a_mutation_that_failed_is_answered_by_the_message() {
    let reply = user_create(Err(RobustMQError::CommonError("user exists".to_string())));
    assert_eq!(reply.code(), 100);
    assert_eq!(reply.data(), "user exists");
    let reply = user_delete(Err(RobustMQError::CommonError("no such user".to_string())));
    assert_eq!(reply.code(), 100);
    assert_eq!(reply.data(), "no such user");
}

#[test]
fn an_error_reads_as_its_message() {
    assert_eq!(RobustMQError::CommonError("plain".to_string()).to_string(), "plain");
    assert_eq!(RobustMQError::CommonError(String::new()).to_string(), "");
}
