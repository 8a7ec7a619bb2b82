//! The server's user management commands: defaults for new users and how
//! the configured users are shown.
use vstd::prelude::*;

use crate::text::same_text;
use crate::user::{Permission, User};

verus! {

/// The home directory given to a new user when none is named:
/// `./ftp_root/<username>`.
pub fn default_home_dir(username: &str) -> (h: String)
    ensures
        h@ == "./ftp_root/"@ + username@,
{
    let mut h = String::from_str("./ftp_root/");
    h.append(username);
    h
}

/// The permission a name stands for: `write` for writing, anything else
/// for reading.
pub open spec fn permission_named(name: Seq<char>) -> Permission {
    if name == "write"@ {
        Permission::Write
    } else {
        Permission::Read
    }
}

/// The permissions that a list of names stands for.
pub fn permissions_from_names(names: &Vec<String>) -> (perms: Vec<Permission>)
    ensures
        perms@.len() == names@.len(),
        forall|i: int| 0 <= i < names@.len() ==> #[trigger] perms@[i] == permission_named(names@[i]@),
{
    let mut perms: Vec<Permission> = Vec::new();
    let mut i: usize = 0;
    while i < names.len()
        invariant
            i <= names@.len(),
            perms@.len() == i,
            forall|j: int| 0 <= j < i ==> #[trigger] perms@[j] == permission_named(names@[j]@),
        decreases names@.len() - i,
    {
        let p = if same_text(names[i].as_str(), "write") {
            Permission::Write
        } else {
            Permission::Read
        };
        perms.push(p);
        i = i + 1;
    }
    perms
}

/// The name of a permission.
pub open spec fn permission_text(p: Permission) -> Seq<char> {
    match p {
        Permission::Read => "read"@,
        Permission::Write => "write"@,
    }
}

/// The names of `perms` joined with `, `.
pub open spec fn permissions_text(perms: Seq<Permission>) -> Seq<char>
    decreases perms.len(),
{
    if perms.len() == 0 {
        seq![]
    } else if perms.len() == 1 {
        permission_text(perms[0])
    } else {
        permissions_text(perms.drop_last()) + ", "@ + permission_text(perms.last())
    }
}

/// The line that lists a user:
/// `  <name> (home: <home>, permissions: <perm>, <perm>...)`.
pub open spec fn user_line(name: Seq<char>, home: Seq<char>, perms: Seq<Permission>) -> Seq<char> {
    "  "@ + name + " (home: "@ + home + ", permissions: "@ + permissions_text(perms) + ")"@
}

/// The line that lists `user`.
pub fn describe_user(user: &User) -> (line: String)
    ensures
        line@ == user_line(user.username@, user.home_dir@, user.permissions@),
{
    let mut line = String::from_str("  ");
    line.append(user.username.as_str());
    line.append(" (home: ");
    line.append(user.home_dir.as_str());
    line.append(", permissions: ");
    let ghost before = line@;
    let perms = &user.permissions;
    let mut i: usize = 0;
    while i < perms.len()
        invariant
            i <= perms@.len(),
            line@ == before + permissions_text(perms@.take(i as int)),
        decreases perms@.len() - i,
    {
        if i > 0 {
            line.append(", ");
        }
        match perms[i] {
            Permission::Read => line.append("read"),
            Permission::Write => line.append("write"),
        }
        proof {
            let t = perms@.take(i + 1);
            assert(t.drop_last() =~= perms@.take(i as int));
            assert(t.last() == perms@[i as int]);
            if i == 0 {
                assert(perms@.take(0) =~= Seq::<Permission>::empty());
                assert(permissions_text(t) == permission_text(t[0]));
            }
        }
        i = i + 1;
        assert(line@ =~= before + permissions_text(perms@.take(i as int)));
    }
    assert(perms@.take(perms@.len() as int) =~= perms@);
    line.append(")");
    line
}

} // verus!
