use quicftp::user::{hash_password, verify_password, Permission, UserError, UsersFile};

#[test]
fn test_password_hash_and_verify() {
    let password = "test_password_123";
    let hash = hash_password(password).unwrap();
    assert!(verify_password(password, &hash).unwrap());
    assert!(!verify_password("wrong_password", &hash).unwrap());
}

#[test]
fn test_add_and_find_user() {
    let mut users = UsersFile { users: Vec::new() };
    users
        .add_user(
            "alice".to_string(),
            "password123",
            "/home/alice".to_string(),
            vec![Permission::Read, Permission::Write],
        )
        .unwrap();

    assert!(users.find_user("alice").is_some());
    assert!(users.find_user("bob").is_none());
}

#[test]
fn test_duplicate_user() {
    let mut users = UsersFile { users: Vec::new() };
    users
        .add_user(
            "alice".to_string(),
            "pass1",
            "/home/alice".to_string(),
            vec![Permission::Read],
        )
        .unwrap();

    let result = users.add_user(
        "alice".to_string(),
        "pass2",
        "/home/alice2".to_string(),
        vec![Permission::Read],
    );
    assert!(result.is_err());
}

#[test]
fn duplicate_user_error_and_store_unchanged() {
    let mut users = UsersFile { users: Vec::new() };
    users.add_user("alice".to_string(), "p", "/a".to_string(), vec![]).unwrap();
    let err = users
        .add_user("alice".to_string(), "q", "/b".to_string(), vec![])
        .unwrap_err();
    assert!(matches!(&err, UserError::AlreadyExists(n) if n == "alice"));
    assert_eq!(err.message(), "User 'alice' already exists");
    assert_eq!(users.users.len(), 1);
    assert_eq!(users.users[0].home_dir, "/a");
}

#[test]
fn added_user_is_found_with_its_record() {
    let mut users = UsersFile { users: Vec::new() };
    users.add_user("a".to_string(), "pa", "/ha".to_string(), vec![Permission::Read]).unwrap();
    users.add_user("b".to_string(), "pb", "/hb".to_string(), vec![Permission::Write]).unwrap();
    let b = users.find_user("b").unwrap();
    assert_eq!(b.username, "b");
    assert_eq!(b.home_dir, "/hb");
    assert_eq!(b.permissions, vec![Permission::Write]);
    assert!(verify_password("pb", &b.password_hash).unwrap());
    assert!(!verify_password("pa", &b.password_hash).unwrap());
}

#[test]
fn remove_user_then_not_found() {
    let mut users = UsersFile { users: Vec::new() };
    users.add_user("a".to_string(), "pa", "/ha".to_string(), vec![]).unwrap();
    users.add_user("b".to_string(), "pb", "/hb".to_string(), vec![]).unwrap();
    users.add_user("c".to_string(), "pc", "/hc".to_string(), vec![]).unwrap();
    assert!(users.remove_user("b"));
    assert!(users.find_user("b").is_none());
    let names: Vec<&str> = users.users.iter().map(|u| u.username.as_str()).collect();
    assert_eq!(names, vec!["a", "c"]);
    assert!(!users.remove_user("b"));
    assert_eq!(users.users.len(), 2);
}

#[test]
fn find_user_returns_the_first_of_a_name() {
    let mut users = UsersFile { users: Vec::new() };
    users.add_user("x".to_string(), "p", "/first".to_string(), vec![]).unwrap();
    let mut other = UsersFile { users: Vec::new() };
    other.add_user("x".to_string(), "p", "/second".to_string(), vec![]).unwrap();
    users.users.append(&mut other.users);
    assert_eq!(users.find_user("x").unwrap().home_dir, "/first");
    assert!(users.remove_user("x"));
    assert!(users.users.is_empty());
}

#[test]
fn change_password_of_existing_and_missing_user() {
    let mut users = UsersFile { users: Vec::new() };
    users.add_user("a".to_string(), "old", "/ha".to_string(), vec![]).unwrap();
    assert_eq!(users.change_password("a", "new").unwrap(), true);
    let a = users.find_user("a").unwrap();
    assert!(verify_password("new", &a.password_hash).unwrap());
    assert!(!verify_password("old", &a.password_hash).unwrap());
    assert_eq!(users.change_password("zz", "new").unwrap(), false);
}

#[test]
fn verify_rejects_malformed_hash() {
    let r = verify_password("pw", "not a phc string");
    assert!(matches!(&r, Err(UserError::InvalidHash(_))));
    assert!(r.unwrap_err().message().starts_with("Invalid password hash: "));
}

#[test]
fn hashes_are_salted() {
    let h1 = hash_password("same").unwrap();
    let h2 = hash_password("same").unwrap();
    assert_ne!(h1, h2);
    assert!(h1.starts_with("$argon2id$"));
}
