//! The server's command-line administration: the tables it prints and
//! the answers to user and token commands.

use vstd::prelude::*;
use crate::models::User;
use crate::text::{int_to_decimal, owned, push_char, push_i64_decimal, push_str};

verus! {

/// `s` padded with spaces on the right to `width` characters (as `{:<w}`
/// formats it); longer text is left as it is.
pub open spec fn pad_right(s: Seq<char>, width: nat) -> Seq<char> {
    if s.len() >= width {
        s
    } else {
        s + Seq::new((width - s.len()) as nat, |i: int| ' ')
    }
}

/// `true` or `false`, as `{}` shows a `bool`.
pub open spec fn bool_text(b: bool) -> Seq<char> {
    if b {
        "true"@
    } else {
        "false"@
    }
}

/// `n` copies of `c`.
pub open spec fn repeat_char(c: char, n: nat) -> Seq<char> {
    Seq::new(n, |i: int| c)
}

fn push_padded(s: &mut String, t: &str, width: usize)
    ensures
        final(s)@ == old(s)@ + pad_right(t@, width as nat),
{
    let ghost start = s@;
    push_str(s, t);
    let n = crate::text::chars_of(t).len();
    let mut k: usize = n;
    while k < width
        invariant
            n == t@.len(),
            n <= k <= width || (k == n && n >= width),
            s@ == start + t@ + Seq::new((k - n) as nat, |i: int| ' '),
        decreases width - k,
    {
        let ghost before = s@;
        push_char(s, ' ');
        proof {
            assert(Seq::new((k + 1 - n) as nat, |i: int| ' ') =~= Seq::new(
                (k - n) as nat,
                |i: int| ' ',
            ).push(' '));
            assert(s@ =~= start + t@ + Seq::new((k + 1 - n) as nat, |i: int| ' '));
        }
        k += 1;
    }
    proof {
        if n >= width {
            assert(Seq::new((k - n) as nat, |i: int| ' ') =~= Seq::<char>::empty());
            assert(s@ =~= start + t@);
        } else {
            assert(s@ =~= start + pad_right(t@, width as nat));
        }
    }
}

fn bool_str(b: bool) -> (s: &'static str)
    ensures
        s@ == bool_text(b),
{
    if b {
        "true"
    } else {
        "false"
    }
}

fn push_repeat(s: &mut String, c: char, n: usize)
    ensures
        final(s)@ == old(s)@ + repeat_char(c, n as nat),
{
    let ghost start = s@;
    let mut k: usize = 0;
    while k < n
        invariant
            k <= n,
            s@ == start + repeat_char(c, k as nat),
        decreases n - k,
    {
        push_char(s, c);
        proof {
            assert(repeat_char(c, (k + 1) as nat) =~= repeat_char(c, k as nat).push(c));
        }
        k += 1;
    }
}

/// A row of the user table.
pub open spec fn user_row(id: Seq<char>, name: Seq<char>, admin: Seq<char>, created: Seq<char>) -> Seq<
    char,
> {
    pad_right(id, 6) + " "@ + pad_right(name, 30) + " "@ + pad_right(admin, 8) + " "@ + created
        + "\n"@
}

/// The user rows, in order.
pub open spec fn user_rows(users: Seq<User>) -> Seq<char>
    decreases users.len(),
{
    if users.len() == 0 {
        Seq::empty()
    } else {
        user_rows(users.drop_last()) + user_row(
            int_to_decimal(users.last().id as int),
            users.last().name@,
            bool_text(users.last().is_admin),
            users.last().created@,
        )
    }
}

/// What `user list` prints: a header, a rule of 60 dashes, one row per user.
pub open spec fn user_table_spec(users: Seq<User>) -> Seq<char> {
    user_row("ID"@, "Name"@, "Admin"@, "Created"@) + repeat_char('-', 60) + "\n"@ + user_rows(
        users,
    )
}

fn push_user_row(s: &mut String, id: &str, name: &str, admin: &str, created: &str)
    ensures
        final(s)@ == old(s)@ + user_row(id@, name@, admin@, created@),
{
    let ghost start = s@;
    push_padded(s, id, 6);
    push_str(s, " ");
    push_padded(s, name, 30);
    push_str(s, " ");
    push_padded(s, admin, 8);
    push_str(s, " ");
    push_str(s, created);
    push_str(s, "\n");
    proof {
        assert(s@ =~= start + user_row(id@, name@, admin@, created@));
    }
}

/// The table `user list` prints.
pub fn user_table(users: &Vec<User>) -> (s: String)
    ensures
        s@ == user_table_spec(users@),
{
    let mut s = String::new();
    push_user_row(&mut s, "ID", "Name", "Admin", "Created");
    push_repeat(&mut s, '-', 60);
    push_str(&mut s, "\n");
    let ghost head = s@;
    let mut i: usize = 0;
    proof {
        assert(users@.take(0) =~= Seq::<User>::empty());
        assert(s@ =~= head + user_rows(users@.take(0)));
    }
    while i < users.len()
        invariant
            i <= users.len(),
            head == user_row("ID"@, "Name"@, "Admin"@, "Created"@) + repeat_char('-', 60)
                + "\n"@,
            s@ == head + user_rows(users@.take(i as int)),
        decreases users.len() - i,
    {
        let u = &users[i];
        let mut id = String::new();
        push_i64_decimal(&mut id, u.id as i64);
        push_user_row(&mut s, id.as_str(), u.name.as_str(), bool_str(u.is_admin), u.created.as_str());
        proof {
            assert(users@.take(i as int + 1).drop_last() =~= users@.take(i as int));
            assert(s@ =~= head + user_rows(users@.take(i as int + 1)));
        }
        i += 1;
    }
    proof {
        assert(users@.take(users@.len() as int) =~= users@);
    }
    s
}

/// A token as `token list` shows it; `created` is already formatted as
/// `%Y-%m-%d %H:%M`.
#[derive(Debug, Clone)]
pub struct TokenListRow {
    pub id: i32,
    pub user_name: Option<String>,
    pub is_system: bool,
    pub created: String,
    pub description: Option<String>,
}

/// A row of the token table: the user's name or `-`, the description or
/// nothing.
pub open spec fn token_row_spec(r: TokenListRow) -> Seq<char> {
    pad_right(int_to_decimal(r.id as int), 6) + " "@ + pad_right(
        match r.user_name {
            Some(n) => n@,
            None => "-"@,
        },
        20,
    ) + " "@ + pad_right(bool_text(r.is_system), 8) + " "@ + pad_right(r.created@, 20) + " "@
        + match r.description {
        Some(d) => d@,
        None => Seq::empty(),
    } + "\n"@
}

/// The token rows, in order.
pub open spec fn token_rows(rows: Seq<TokenListRow>) -> Seq<char>
    decreases rows.len(),
{
    if rows.len() == 0 {
        Seq::empty()
    } else {
        token_rows(rows.drop_last()) + token_row_spec(rows.last())
    }
}

/// The header of the token table.
pub open spec fn token_header() -> Seq<char> {
    pad_right("ID"@, 6) + " "@ + pad_right("User"@, 20) + " "@ + pad_right("System"@, 8) + " "@
        + pad_right("Created"@, 20) + " "@ + "Description"@ + "\n"@
}

/// What `token list` prints: a header, a rule of 80 dashes, one row per token.
pub open spec fn token_table_spec(rows: Seq<TokenListRow>) -> Seq<char> {
    token_header() + repeat_char('-', 80) + "\n"@ + token_rows(rows)
}

fn push_token_row(s: &mut String, r: &TokenListRow)
    ensures
        final(s)@ == old(s)@ + token_row_spec(*r),
{
    let ghost start = s@;
    let mut id = String::new();
    push_i64_decimal(&mut id, r.id as i64);
    push_padded(s, id.as_str(), 6);
    push_str(s, " ");
    match &r.user_name {
        Some(n) => push_padded(s, n.as_str(), 20),
        None => push_padded(s, "-", 20),
    }
    push_str(s, " ");
    push_padded(s, bool_str(r.is_system), 8);
    push_str(s, " ");
    push_padded(s, r.created.as_str(), 20);
    push_str(s, " ");
    match &r.description {
        Some(d) => push_str(s, d.as_str()),
        None => {},
    }
    push_str(s, "\n");
    proof {
        assert(s@ =~= start + token_row_spec(*r));
    }
}

/// The table `token list` prints.
pub fn token_table(rows: &Vec<TokenListRow>) -> (s: String)
    ensures
        s@ == token_table_spec(rows@),
{
    let mut s = String::new();
    push_padded(&mut s, "ID", 6);
    push_str(&mut s, " ");
    push_padded(&mut s, "User", 20);
    push_str(&mut s, " ");
    push_padded(&mut s, "System", 8);
    push_str(&mut s, " ");
    push_padded(&mut s, "Created", 20);
    push_str(&mut s, " ");
    push_str(&mut s, "Description");
    push_str(&mut s, "\n");
    proof {
        assert(s@ =~= token_header());
    }
    push_repeat(&mut s, '-', 80);
    push_str(&mut s, "\n");
    let ghost head = s@;
    let mut i: usize = 0;
    proof {
        assert(rows@.take(0) =~= Seq::<TokenListRow>::empty());
        assert(s@ =~= head + token_rows(rows@.take(0)));
    }
    while i < rows.len()
        invariant
            i <= rows.len(),
            head == token_header() + repeat_char('-', 80) + "\n"@,
            s@ == head + token_rows(rows@.take(i as int)),
        decreases rows.len() - i,
    {
        push_token_row(&mut s, &rows[i]);
        proof {
            assert(rows@.take(i as int + 1).drop_last() =~= rows@.take(i as int));
            assert(s@ =~= head + token_rows(rows@.take(i as int + 1)));
        }
        i += 1;
    }
    proof {
        assert(rows@.take(rows@.len() as int) =~= rows@);
    }
    s
}

/// What `user create` prints for the new user.
pub fn user_created_message(u: &User) -> (s: String)
    ensures
        s@ == "Created user '"@ + u.name@ + "' (id: "@ + int_to_decimal(u.id as int) + ", admin: "@
            + bool_text(u.is_admin) + ")"@,
{
    let mut s = owned("Created user '");
    push_str(&mut s, u.name.as_str());
    push_str(&mut s, "' (id: ");
    push_i64_decimal(&mut s, u.id as i64);
    push_str(&mut s, ", admin: ");
    push_str(&mut s, bool_str(u.is_admin));
    push_str(&mut s, ")");
    s
}

/// A change made to a user by name.
#[derive(Debug, Clone, Copy, PartialEq, Eq)]
pub enum UserChange {
    Delete,
    Promote,
    Demote,
}

/// The answer to a user change that touched `rows` rows: the confirmation,
/// or (the command then exits with status 1) that the user was not found.
pub open spec fn user_change_spec(change: UserChange, name: Seq<char>, rows: nat) -> Result<
    Seq<char>,
    Seq<char>,
> {
    if rows == 0 {
        Err("User '"@ + name + "' not found"@)
    } else {
        Ok(
            match change {
                UserChange::Delete => "Deleted user '"@ + name + "'"@,
                UserChange::Promote => "Promoted '"@ + name + "' to admin"@,
                UserChange::Demote => "Demoted '"@ + name + "' from admin"@,
            },
        )
    }
}

/// The answer to a user change.
pub fn user_change_message(change: UserChange, name: &str, rows: usize) -> (r: Result<String, String>)
    ensures
        match user_change_spec(change, name@, rows as nat) {
            Ok(m) => r matches Ok(s) && s@ == m,
            Err(m) => r matches Err(s) && s@ == m,
        },
{
    if rows == 0 {
        let mut s = owned("User '");
        push_str(&mut s, name);
        push_str(&mut s, "' not found");
        return Err(s);
    }
    let s = match change {
        UserChange::Delete => {
            let mut s = owned("Deleted user '");
            push_str(&mut s, name);
            push_str(&mut s, "'");
            s
        },
        UserChange::Promote => {
            let mut s = owned("Promoted '");
            push_str(&mut s, name);
            push_str(&mut s, "' to admin");
            s
        },
        UserChange::Demote => {
            let mut s = owned("Demoted '");
            push_str(&mut s, name);
            push_str(&mut s, "' from admin");
            s
        },
    };
    Ok(s)
}

/// `token create` needs exactly one of `--user` and `--system`.
pub fn check_token_target(user: Option<&str>, system: bool) -> (r: Result<(), String>)
    ensures
        (user is Some && system) ==> (r matches Err(m) && m@
            == "Cannot specify both --user and --system"@),
        (user is None && !system) ==> (r matches Err(m) && m@
            == "Must specify either --user or --system"@),
        (user is Some) != system ==> r is Ok,
{
    if user.is_some() && system {
        return Err(owned("Cannot specify both --user and --system"));
    }
    if user.is_none() && !system {
        return Err(owned("Must specify either --user or --system"));
    }
    Ok(())
}

/// The error when the user named for a token does not exist.
pub fn unknown_user_message(name: &str) -> (s: String)
    ensures
        s@ == "User '"@ + name@ + "' not found"@,
{
    let mut s = owned("User '");
    push_str(&mut s, name);
    push_str(&mut s, "' not found");
    s
}

/// What `token create` prints: the id, the raw token, and that it cannot be
/// recovered.
pub fn token_created_message(id: i32, raw_token: &str) -> (s: String)
    ensures
        s@ == "Created token (id: "@ + int_to_decimal(id as int) + ")\nToken: "@ + raw_token@
            + "\n\nSave this token - it cannot be recovered!"@,
{
    let mut s = owned("Created token (id: ");
    push_i64_decimal(&mut s, id as i64);
    push_str(&mut s, ")\nToken: ");
    push_str(&mut s, raw_token);
    push_str(&mut s, "\n\nSave this token - it cannot be recovered!");
    s
}

/// The answer to `token revoke` after `rows` rows were deleted.
pub fn revoke_message(id: i32, rows: usize) -> (r: Result<String, String>)
    ensures
        rows > 0 ==> (r matches Ok(s) && s@ == "Revoked token "@ + int_to_decimal(id as int)),
        rows == 0 ==> (r matches Err(s) && s@ == "Token "@ + int_to_decimal(id as int)
            + " not found"@),
{
    if rows > 0 {
        let mut s = owned("Revoked token ");
        push_i64_decimal(&mut s, id as i64);
        Ok(s)
    } else {
        let mut s = owned("Token ");
        push_i64_decimal(&mut s, id as i64);
        push_str(&mut s, " not found");
        Err(s)
    }
}

} // verus!
