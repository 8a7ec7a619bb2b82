use quicftp::admin::{default_home_dir, describe_user, permissions_from_names};
use quicftp::config::{default_port, ServerConfig};
use quicftp::user::{Permission, User};

#[test]
fn default_config_values() {
    let c = ServerConfig::default();
    assert_eq!(c.host, "0.0.0.0");
    assert_eq!(c.port, 5000);
    assert_eq!(c.cert_path, "config/cert.pem");
    assert_eq!(c.key_path, "config/key.pem");
    assert_eq!(c.users_path, "config/users.toml");
    assert_eq!(c.root_dir, "./ftp_root");
    assert!(c.auto_generate_cert);
    assert_eq!(c.max_connections, 100);
    assert_eq!(default_port(), 5000);
}

#[test]
fn new_users_get_a_home_under_ftp_root() {
    assert_eq!(default_home_dir("alice"), "./ftp_root/alice");
    assert_eq!(default_home_dir(""), "./ftp_root/");
}

#[test]
fn permission_names() {
    let names = vec!["read".to_string(), "write".to_string(), "exec".to_string(), "WRITE".to_string()];
    assert_eq!(
        permissions_from_names(&names),
        vec![Permission::Read, Permission::Write, Permission::Read, Permission::Read]
    );
    assert!(permissions_from_names(&Vec::new()).is_empty());
}

#[test]
fn user_lines() {
    let u = User {
        username: "alice".to_string(),
        password_hash: "h".to_string(),
        home_dir: "./ftp_root/alice".to_string(),
        permissions: vec![Permission::Read, Permission::Write],
    };
    assert_eq!(describe_user(&u), "  alice (home: ./ftp_root/alice, permissions: read, write)");
    let v = User { permissions: vec![], ..u };
    assert_eq!(describe_user(&v), "  alice (home: ./ftp_root/alice, permissions: )");
}
