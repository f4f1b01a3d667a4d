//! User accounts and the table that holds them.
//!
//! The table is a model of the account repository, kept in memory: it
//! assigns ids, keeps ids and usernames unique, and answers every change to
//! a row that is not there with `RowNotFound`. It knows nothing of
//! permissions. It assigns the ids one after the other and spends none on
//! an insert that it refuses; a database may skip ids there. Nothing in
//! this crate depends on which ids are skipped, only on that no id is
//! assigned twice and that the first one is 1.

use vstd::prelude::*;
use crate::outcome::DbError;

verus! {

/// A user account as contracts see it.
pub struct UserView {
    pub id: int,
    pub username: Seq<char>,
    pub pw_hash: Seq<char>,
    pub orig: bool,
    pub manage_links: bool,
    pub manage_users: bool,
    pub disabled: bool,
}

/// A user account.
#[derive(Debug)]
pub struct User {
    /// Assigned by the table at creation; never changes.
    pub id: i32,
    /// Unique among all users; compared exactly.
    pub username: String,
    /// The password hash in PHC string format.
    pub pw_hash: String,
    /// Whether this is the original user, the first ever created.
    pub orig: bool,
    pub manage_links: bool,
    pub manage_users: bool,
    /// A disabled user keeps its row but can hold no session.
    pub disabled: bool,
}

impl View for User {
    type V = UserView;

    open spec fn view(&self) -> UserView {
        UserView {
            id: self.id as int,
            username: self.username@,
            pw_hash: self.pw_hash@,
            orig: self.orig,
            manage_links: self.manage_links,
            manage_users: self.manage_users,
            disabled: self.disabled,
        }
    }
}

impl Clone for User {
    fn clone(&self) -> (r: User)
        ensures
            r@ == self@,
    {
        User {
            id: self.id,
            username: self.username.clone(),
            pw_hash: self.pw_hash.clone(),
            orig: self.orig,
            manage_links: self.manage_links,
            manage_users: self.manage_users,
            disabled: self.disabled,
        }
    }
}

/// A user that is yet to be inserted, as contracts see it.
pub struct InsertableUserView {
    pub username: Seq<char>,
    pub pw_hash: Seq<char>,
    pub orig: bool,
    pub manage_links: bool,
    pub manage_users: bool,
}

/// A user that is yet to be inserted: the table assigns the id, and a new
/// user is never disabled.
#[derive(Debug)]
pub struct InsertableUser {
    pub username: String,
    pub pw_hash: String,
    pub orig: bool,
    pub manage_links: bool,
    pub manage_users: bool,
}

impl View for InsertableUser {
    type V = InsertableUserView;

    open spec fn view(&self) -> InsertableUserView {
        InsertableUserView {
            username: self.username@,
            pw_hash: self.pw_hash@,
            orig: self.orig,
            manage_links: self.manage_links,
            manage_users: self.manage_users,
        }
    }
}

/// The row that inserting `user` under `id` creates.
pub open spec fn new_row(user: InsertableUserView, id: int) -> UserView {
    UserView {
        id,
        username: user.username,
        pw_hash: user.pw_hash,
        orig: user.orig,
        manage_links: user.manage_links,
        manage_users: user.manage_users,
        disabled: false,
    }
}

/// Some row has this id.
pub open spec fn has_id(rows: Seq<UserView>, id: int) -> bool {
    exists|i: int| 0 <= i < rows.len() && (#[trigger] rows[i]).id == id
}

/// The position of a row with this id, where there is one.
pub open spec fn index_of_id(rows: Seq<UserView>, id: int) -> int {
    choose|i: int| 0 <= i < rows.len() && (#[trigger] rows[i]).id == id
}

/// Some row has this username.
pub open spec fn has_name(rows: Seq<UserView>, name: Seq<char>) -> bool {
    exists|i: int| 0 <= i < rows.len() && (#[trigger] rows[i]).username == name
}

/// The position of a row with this username, where there is one.
pub open spec fn index_of_name(rows: Seq<UserView>, name: Seq<char>) -> int {
    choose|i: int| 0 <= i < rows.len() && (#[trigger] rows[i]).username == name
}

/// What looking for the row with this id answers.
pub open spec fn lookup_id(rows: Seq<UserView>, id: int) -> Result<UserView, DbError> {
    if has_id(rows, id) {
        Ok(rows[index_of_id(rows, id)])
    } else {
        Err(DbError::RowNotFound)
    }
}

/// What looking for the row with this username answers.
pub open spec fn lookup_name(rows: Seq<UserView>, name: Seq<char>) -> Result<UserView, DbError> {
    if has_name(rows, name) {
        Ok(rows[index_of_name(rows, name)])
    } else {
        Err(DbError::RowNotFound)
    }
}

/// The answer of a lookup as contracts see it.
pub open spec fn found_view(found: Result<User, DbError>) -> Result<UserView, DbError> {
    match found {
        Ok(user) => Ok(user@),
        Err(e) => Err(e),
    }
}

/// Some row other than the one with id `id` has this username.
pub open spec fn name_taken_by_other(rows: Seq<UserView>, id: int, name: Seq<char>) -> bool {
    exists|i: int|
        0 <= i < rows.len() && (#[trigger] rows[i]).username == name && rows[i].id != id
}

/// What the table guarantees of its rows: `issued` ids have been assigned so
/// far, every row carries one of them, and no id and no username occurs
/// twice.
pub open spec fn well_formed(rows: Seq<UserView>, issued: int) -> bool {
    &&& 0 <= issued <= i32::MAX
    &&& rows.len() <= issued
    &&& forall|i: int| 0 <= i < rows.len() ==> 1 <= (#[trigger] rows[i]).id <= issued
    &&& forall|i: int, j: int|
        0 <= i < j < rows.len() ==> (#[trigger] rows[i]).id != (#[trigger] rows[j]).id
    &&& forall|i: int, j: int|
        0 <= i < j < rows.len() ==> (#[trigger] rows[i]).username != (
        #[trigger] rows[j]).username
}

/// The rule of the original user, on top of the table's own guarantees:
/// the original user is the one that got the first id ever assigned, and
/// once that user exists it is never removed.
pub open spec fn guarded(rows: Seq<UserView>, issued: int) -> bool {
    &&& well_formed(rows, issued)
    &&& forall|i: int| 0 <= i < rows.len() ==> ((#[trigger] rows[i]).orig <==> rows[i].id == 1)
    &&& issued > 0 ==> has_id(rows, 1)
}

/// What `User::insert` answers on a table in this state.
pub open spec fn insert_result(rows: Seq<UserView>, issued: int, user: InsertableUserView)
    -> Result<i32, DbError> {
    if has_name(rows, user.username) {
        Err(DbError::UniqueViolation)
    } else if issued >= i32::MAX {
        Err(DbError::Database)
    } else {
        Ok((issued + 1) as i32)
    }
}

/// The rows after `User::insert` on a table in this state.
pub open spec fn rows_after_insert(rows: Seq<UserView>, issued: int, user: InsertableUserView)
    -> Seq<UserView> {
    if insert_result(rows, issued, user) is Ok {
        rows.push(new_row(user, issued + 1))
    } else {
        rows
    }
}

/// The number of ids assigned after `User::insert` on a table in this
/// state.
pub open spec fn issued_after_insert(rows: Seq<UserView>, issued: int, user: InsertableUserView)
    -> int {
    if insert_result(rows, issued, user) is Ok {
        issued + 1
    } else {
        issued
    }
}

/// What `User::update_username` answers on a table with these rows.
pub open spec fn rename_result(rows: Seq<UserView>, id: int, name: Seq<char>) -> Result<
    (),
    DbError,
> {
    if !has_id(rows, id) {
        Err(DbError::RowNotFound)
    } else if name_taken_by_other(rows, id, name) {
        Err(DbError::UniqueViolation)
    } else {
        Ok(())
    }
}

/// The rows after `User::update_username` on a table with these rows.
pub open spec fn rows_after_rename(rows: Seq<UserView>, id: int, name: Seq<char>) -> Seq<
    UserView,
> {
    if rename_result(rows, id, name) is Ok {
        rows.update(index_of_id(rows, id), rows[index_of_id(rows, id)].with_username(name))
    } else {
        rows
    }
}

/// The views of a sequence of users, in order.
pub open spec fn views_of(users: Seq<User>) -> Seq<UserView> {
    users.map_values(|u: User| u@)
}

/// The table of user accounts.
pub struct UserTable {
    rows: Vec<User>,
    issued: i32,
}

impl UserTable {
    /// The rows, oldest first.
    pub closed spec fn rows(&self) -> Seq<UserView> {
        views_of(self.rows@)
    }

    /// How many ids the table has assigned so far. The next user gets
    /// `issued() + 1`.
    pub closed spec fn issued(&self) -> int {
        self.issued as int
    }

    /// The table's own guarantees hold.
    pub open spec fn wf(&self) -> bool {
        well_formed(self.rows(), self.issued())
    }

    /// The table's own guarantees and the rule of the original user hold.
    pub open spec fn guarded(&self) -> bool {
        guarded(self.rows(), self.issued())
    }

    /// An empty table that has assigned no id yet.
    pub fn new() -> (t: UserTable)
        ensures
            t.wf(),
            t.guarded(),
            t.rows() == Seq::<UserView>::empty(),
            t.issued() == 0,
    {
        let t = UserTable { rows: Vec::new(), issued: 0 };
        assert(t.rows() =~= Seq::<UserView>::empty());
        t
    }

    fn find_id(&self, id: i32) -> (r: Option<usize>)
        ensures
            match r {
                Some(k) => k < self.rows().len() && self.rows()[k as int].id == id,
                None => !has_id(self.rows(), id as int),
            },
    {
        let mut k: usize = 0;
        while k < self.rows.len()
            invariant
                k <= self.rows.len(),
                forall|i: int| 0 <= i < k ==> (#[trigger] self.rows()[i]).id != id,
            decreases self.rows.len() - k,
        {
            if self.rows[k].id == id {
                return Some(k);
            }
            k = k + 1;
        }
        None
    }

    fn find_name(&self, name: &str) -> (r: Option<usize>)
        ensures
            match r {
                Some(k) => k < self.rows().len() && self.rows()[k as int].username == name@,
                None => !has_name(self.rows(), name@),
            },
    {
        let mut k: usize = 0;
        while k < self.rows.len()
            invariant
                k <= self.rows.len(),
                forall|i: int| 0 <= i < k ==> (#[trigger] self.rows()[i]).username != name@,
            decreases self.rows.len() - k,
        {
            if crate::text::same_text(self.rows[k].username.as_str(), name) {
                return Some(k);
            }
            k = k + 1;
        }
        None
    }
}

impl UserView {
    pub open spec fn with_disabled(self, disabled: bool) -> UserView {
        UserView { disabled, ..self }
    }

    pub open spec fn with_permissions(self, manage_links: bool, manage_users: bool) -> UserView {
        UserView { manage_links, manage_users, ..self }
    }

    pub open spec fn with_username(self, username: Seq<char>) -> UserView {
        UserView { username, ..self }
    }

    pub open spec fn with_pw_hash(self, pw_hash: Seq<char>) -> UserView {
        UserView { pw_hash, ..self }
    }
}

impl UserTable {
    fn put(&mut self, k: usize, row: User)
        requires
            k < old(self).rows().len(),
        ensures
            final(self).rows() == old(self).rows().update(k as int, row@),
            final(self).issued() == old(self).issued(),
    {
        self.rows.set(k, row);
        assert(self.rows() =~= old(self).rows().update(k as int, row@));
    }
}

impl User {
    /// How many users there are.
    pub fn count(conn: &UserTable) -> (r: Result<i64, DbError>)
        requires
            conn.wf(),
        ensures
            r == Ok::<i64, DbError>(conn.rows().len() as i64),
    {
        Ok(conn.rows.len() as i64)
    }

    /// The user with this id.
    pub fn get(id: i32, conn: &UserTable) -> (r: Result<User, DbError>)
        requires
            conn.wf(),
        ensures
            found_view(r) == lookup_id(conn.rows(), id as int),
    {
        match conn.find_id(id) {
            Some(k) => {
                proof {
                    lemma_index_of_id(conn.rows(), conn.issued(), k as int);
                }
                Ok(conn.rows[k].clone())
            },
            None => Err(DbError::RowNotFound),
        }
    }

    /// The user with this username.
    pub fn get_by_name(name: &str, conn: &UserTable) -> (r: Result<User, DbError>)
        requires
            conn.wf(),
        ensures
            found_view(r) == lookup_name(conn.rows(), name@),
    {
        match conn.find_name(name) {
            Some(k) => {
                proof {
                    lemma_index_of_name(conn.rows(), conn.issued(), k as int);
                }
                Ok(conn.rows[k].clone())
            },
            None => Err(DbError::RowNotFound),
        }
    }

    /// All users, oldest first.
    pub fn all(conn: &UserTable) -> (r: Result<Vec<User>, DbError>)
        ensures
            r matches Ok(users) && views_of(users@) == conn.rows(),
    {
        let mut users: Vec<User> = Vec::new();
        let mut k: usize = 0;
        while k < conn.rows.len()
            invariant
                k <= conn.rows.len(),
                views_of(users@) == conn.rows().subrange(0, k as int),
            decreases conn.rows.len() - k,
        {
            let ghost before = users@;
            users.push(conn.rows[k].clone());
            assert(views_of(users@) =~= views_of(before).push(conn.rows()[k as int]));
            assert(views_of(users@) =~= conn.rows().subrange(0, k + 1));
            k = k + 1;
        }
        assert(conn.rows().subrange(0, k as int) =~= conn.rows());
        Ok(users)
    }

    /// Adds a user and returns the id that the table assigned: the number of
    /// ids assigned so far, plus one. A username that is in use is refused
    /// with `UniqueViolation`; a table that has run out of ids answers
    /// `Database`. A refused insert changes nothing.
    pub fn insert(user: InsertableUser, conn: &mut UserTable) -> (r: Result<i32, DbError>)
        requires
            old(conn).wf(),
        ensures
            final(conn).wf(),
            r == insert_result(old(conn).rows(), old(conn).issued(), user@),
            final(conn).rows() == rows_after_insert(old(conn).rows(), old(conn).issued(), user@),
            final(conn).issued() == issued_after_insert(
                old(conn).rows(),
                old(conn).issued(),
                user@,
            ),
    {
        if conn.find_name(user.username.as_str()).is_some() {
            return Err(DbError::UniqueViolation);
        }
        if conn.issued == i32::MAX {
            return Err(DbError::Database);
        }
        let id: i32 = conn.issued + 1;
        let row = User {
            id,
            username: user.username,
            pw_hash: user.pw_hash,
            orig: user.orig,
            manage_links: user.manage_links,
            manage_users: user.manage_users,
            disabled: false,
        };
        conn.rows.push(row);
        conn.issued = id;
        assert(conn.rows() =~= old(conn).rows().push(new_row(user@, id as int)));
        Ok(id)
    }

    /// Removes the user with this id. The other rows keep their order.
    pub fn delete(id: i32, conn: &mut UserTable) -> (r: Result<(), DbError>)
        requires
            old(conn).wf(),
        ensures
            final(conn).wf(),
            final(conn).issued() == old(conn).issued(),
            match r {
                Ok(_) => has_id(old(conn).rows(), id as int) && final(conn).rows() == old(
                    conn,
                ).rows().remove(index_of_id(old(conn).rows(), id as int)),
                Err(e) => e == DbError::RowNotFound && !has_id(old(conn).rows(), id as int)
                    && final(conn).rows() == old(conn).rows(),
            },
    {
        match conn.find_id(id) {
            Some(k) => {
                proof {
                    lemma_index_of_id(conn.rows(), conn.issued(), k as int);
                }
                conn.rows.remove(k);
                assert(conn.rows() =~= old(conn).rows().remove(k as int));
                Ok(())
            },
            None => Err(DbError::RowNotFound),
        }
    }

    /// Marks the user with this id as disabled.
    pub fn disable(id: i32, conn: &mut UserTable) -> (r: Result<(), DbError>)
        requires
            old(conn).wf(),
        ensures
            final(conn).wf(),
            final(conn).issued() == old(conn).issued(),
            match r {
                Ok(_) => has_id(old(conn).rows(), id as int) && final(conn).rows() == old(
                    conn,
                ).rows().update(
                    index_of_id(old(conn).rows(), id as int),
                    old(conn).rows()[index_of_id(old(conn).rows(), id as int)].with_disabled(
                        true,
                    ),
                ),
                Err(e) => e == DbError::RowNotFound && !has_id(old(conn).rows(), id as int)
                    && final(conn).rows() == old(conn).rows(),
            },
    {
        match conn.find_id(id) {
            Some(k) => {
                proof {
                    lemma_index_of_id(conn.rows(), conn.issued(), k as int);
                }
                let mut row = conn.rows[k].clone();
                row.disabled = true;
                conn.put(k, row);
                Ok(())
            },
            None => Err(DbError::RowNotFound),
        }
    }

    /// Marks the user with this id as not disabled.
    pub fn enable(id: i32, conn: &mut UserTable) -> (r: Result<(), DbError>)
        requires
            old(conn).wf(),
        ensures
            final(conn).wf(),
            final(conn).issued() == old(conn).issued(),
            match r {
                Ok(_) => has_id(old(conn).rows(), id as int) && final(conn).rows() == old(
                    conn,
                ).rows().update(
                    index_of_id(old(conn).rows(), id as int),
                    old(conn).rows()[index_of_id(old(conn).rows(), id as int)].with_disabled(
                        false,
                    ),
                ),
                Err(e) => e == DbError::RowNotFound && !has_id(old(conn).rows(), id as int)
                    && final(conn).rows() == old(conn).rows(),
            },
    {
        match conn.find_id(id) {
            Some(k) => {
                proof {
                    lemma_index_of_id(conn.rows(), conn.issued(), k as int);
                }
                let mut row = conn.rows[k].clone();
                row.disabled = false;
                conn.put(k, row);
                Ok(())
            },
            None => Err(DbError::RowNotFound),
        }
    }

    /// Sets both capability flags of the user with this id.
    pub fn update_permissions(
        id: i32,
        manage_links: bool,
        manage_users: bool,
        conn: &mut UserTable,
    ) -> (r: Result<(), DbError>)
        requires
            old(conn).wf(),
        ensures
            final(conn).wf(),
            final(conn).issued() == old(conn).issued(),
            match r {
                Ok(_) => has_id(old(conn).rows(), id as int) && final(conn).rows() == old(
                    conn,
                ).rows().update(
                    index_of_id(old(conn).rows(), id as int),
                    old(conn).rows()[index_of_id(
                        old(conn).rows(),
                        id as int,
                    )].with_permissions(manage_links, manage_users),
                ),
                Err(e) => e == DbError::RowNotFound && !has_id(old(conn).rows(), id as int)
                    && final(conn).rows() == old(conn).rows(),
            },
    {
        match conn.find_id(id) {
            Some(k) => {
                proof {
                    lemma_index_of_id(conn.rows(), conn.issued(), k as int);
                }
                let mut row = conn.rows[k].clone();
                row.manage_links = manage_links;
                row.manage_users = manage_users;
                conn.put(k, row);
                Ok(())
            },
            None => Err(DbError::RowNotFound),
        }
    }

    /// Renames the user with this id. A name that another user holds is
    /// refused with `UniqueViolation`; a user may be given the name it has.
    pub fn update_username(id: i32, new_name: &str, conn: &mut UserTable) -> (r: Result<
        (),
        DbError,
    >)
        requires
            old(conn).wf(),
        ensures
            final(conn).wf(),
            final(conn).issued() == old(conn).issued(),
            r == rename_result(old(conn).rows(), id as int, new_name@),
            final(conn).rows() == rows_after_rename(old(conn).rows(), id as int, new_name@),
    {
        match conn.find_id(id) {
            Some(k) => {
                proof {
                    lemma_index_of_id(conn.rows(), conn.issued(), k as int);
                }
                match conn.find_name(new_name) {
                    Some(j) => {
                        if j != k {
                            assert(conn.rows()[j as int].id != id) by {
                                if j < k {
                                    assert(conn.rows()[j as int].id != conn.rows()[k as int].id);
                                } else {
                                    assert(conn.rows()[k as int].id != conn.rows()[j as int].id);
                                }
                            }
                            return Err(DbError::UniqueViolation);
                        }
                        assert(!name_taken_by_other(conn.rows(), id as int, new_name@)) by {
                            assert forall|i: int|
                                0 <= i < conn.rows().len() && (#[trigger] conn.rows()[i]).username
                                    == new_name@ implies conn.rows()[i].id == id by {
                                if i < k {
                                    assert(conn.rows()[i].username != conn.rows()[k as int].username);
                                } else if k < i {
                                    assert(conn.rows()[k as int].username != conn.rows()[i].username);
                                }
                            }
                        }
                    },
                    None => {},
                }
                let mut row = conn.rows[k].clone();
                row.username = new_name.to_owned();
                conn.put(k, row);
                Ok(())
            },
            None => Err(DbError::RowNotFound),
        }
    }

    /// Replaces the password hash of the user with this id.
    pub fn update_password(id: i32, new_pw_hash: &str, conn: &mut UserTable) -> (r: Result<
        (),
        DbError,
    >)
        requires
            old(conn).wf(),
        ensures
            final(conn).wf(),
            final(conn).issued() == old(conn).issued(),
            match r {
                Ok(_) => has_id(old(conn).rows(), id as int) && final(conn).rows() == old(
                    conn,
                ).rows().update(
                    index_of_id(old(conn).rows(), id as int),
                    old(conn).rows()[index_of_id(old(conn).rows(), id as int)].with_pw_hash(
                        new_pw_hash@,
                    ),
                ),
                Err(e) => e == DbError::RowNotFound && !has_id(old(conn).rows(), id as int)
                    && final(conn).rows() == old(conn).rows(),
            },
    {
        match conn.find_id(id) {
            Some(k) => {
                proof {
                    lemma_index_of_id(conn.rows(), conn.issued(), k as int);
                }
                let mut row = conn.rows[k].clone();
                row.pw_hash = new_pw_hash.to_owned();
                conn.put(k, row);
                Ok(())
            },
            None => Err(DbError::RowNotFound),
        }
    }
}

/// In a well-formed table the row with a given id is the only one.
pub proof fn lemma_index_of_id(rows: Seq<UserView>, issued: int, k: int)
    requires
        well_formed(rows, issued),
        0 <= k < rows.len(),
    ensures
        has_id(rows, rows[k].id),
        index_of_id(rows, rows[k].id) == k,
{
    let id = rows[k].id;
    let c = index_of_id(rows, id);
    assert(0 <= c < rows.len() && rows[c].id == id);
    if c < k {
        assert(rows[c].id != rows[k].id);
    } else if k < c {
        assert(rows[k].id != rows[c].id);
    }
}

/// In a well-formed table the row with a given username is the only one.
pub proof fn lemma_index_of_name(rows: Seq<UserView>, issued: int, k: int)
    requires
        well_formed(rows, issued),
        0 <= k < rows.len(),
    ensures
        has_name(rows, rows[k].username),
        index_of_name(rows, rows[k].username) == k,
{
    let name = rows[k].username;
    let c = index_of_name(rows, name);
    assert(0 <= c < rows.len() && rows[c].username == name);
    if c < k {
        assert(rows[c].username != rows[k].username);
    } else if k < c {
        assert(rows[k].username != rows[c].username);
    }
}

/// There is at most one original user, and it is the user that got the
/// first id ever assigned.
pub proof fn lemma_original_is_unique(rows: Seq<UserView>, issued: int)
    requires
        guarded(rows, issued),
    ensures
        forall|i: int, j: int|
            0 <= i < rows.len() && 0 <= j < rows.len() && (#[trigger] rows[i]).orig && (
            #[trigger] rows[j]).orig ==> i == j,
        forall|i: int| 0 <= i < rows.len() && (#[trigger] rows[i]).orig ==> rows[i].id == 1,
        rows.len() == 0 <==> issued == 0,
{
    assert forall|i: int, j: int|
        0 <= i < rows.len() && 0 <= j < rows.len() && (#[trigger] rows[i]).orig && (
        #[trigger] rows[j]).orig implies i == j by {
        if i < j {
            assert(rows[i].id != rows[j].id);
        } else if j < i {
            assert(rows[j].id != rows[i].id);
        }
    }
    if issued > 0 {
        assert(has_id(rows, 1));
    }
}

/// In a well-formed table no other row holds the name of a row.
pub proof fn lemma_own_name_is_free(rows: Seq<UserView>, issued: int, k: int)
    requires
        well_formed(rows, issued),
        0 <= k < rows.len(),
    ensures
        !name_taken_by_other(rows, rows[k].id, rows[k].username),
{
    assert forall|i: int|
        0 <= i < rows.len() && (#[trigger] rows[i]).username == rows[k].username implies rows[i].id
        == rows[k].id by {
        if i < k {
            assert(rows[i].username != rows[k].username);
        } else if k < i {
            assert(rows[k].username != rows[i].username);
        }
    }
}

/// Changing a row in place, without touching its id or whether it is the
/// original user, and without giving it a name that another row holds,
/// keeps what the table guarantees and the rule of the original user.
pub proof fn lemma_update_keeps(rows: Seq<UserView>, issued: int, k: int, row: UserView)
    requires
        well_formed(rows, issued),
        0 <= k < rows.len(),
        row.id == rows[k].id,
        row.orig == rows[k].orig,
        !name_taken_by_other(rows, row.id, row.username),
    ensures
        well_formed(rows.update(k, row), issued),
        guarded(rows, issued) ==> guarded(rows.update(k, row), issued),
        index_of_id(rows.update(k, row), row.id) == k,
        has_id(rows.update(k, row), row.id),
{
    let after = rows.update(k, row);
    assert forall|i: int, j: int| 0 <= i < j < after.len() implies (#[trigger] after[i]).id != (
    #[trigger] after[j]).id by {
        assert(rows[i].id != rows[j].id);
    }
    assert forall|i: int, j: int| 0 <= i < j < after.len() implies (#[trigger] after[i]).username
        != (#[trigger] after[j]).username by {
        assert(rows[i].id != rows[j].id);
        assert(rows[i].username != rows[j].username);
        if i == k {
            assert(rows[j].username != row.username || rows[j].id == row.id);
        } else if j == k {
            assert(rows[i].username != row.username || rows[i].id == row.id);
        }
    }
    assert forall|i: int| 0 <= i < after.len() implies 1 <= (#[trigger] after[i]).id <= issued by {
        assert(1 <= rows[i].id <= issued);
    }
    assert(after[k].id == row.id);
    lemma_index_of_id(after, issued, k);
    if guarded(rows, issued) {
        assert forall|i: int| 0 <= i < after.len() implies ((#[trigger] after[i]).orig
            <==> after[i].id == 1) by {
            assert(rows[i].orig <==> rows[i].id == 1);
        }
        if issued > 0 {
            let w = index_of_id(rows, 1);
            assert(after[w].id == 1);
        }
    }
}

/// Removing a row keeps what the table guarantees; removing one that is
/// not the original user keeps the rule of the original user too.
pub proof fn lemma_remove_keeps(rows: Seq<UserView>, issued: int, k: int)
    requires
        well_formed(rows, issued),
        0 <= k < rows.len(),
    ensures
        well_formed(rows.remove(k), issued),
        !has_id(rows.remove(k), rows[k].id),
        guarded(rows, issued) && !rows[k].orig ==> guarded(rows.remove(k), issued),
{
    let after = rows.remove(k);
    assert forall|i: int| 0 <= i < after.len() implies (#[trigger] after[i]) == rows[if i < k {
        i
    } else {
        i + 1
    }] by {}
    assert forall|i: int, j: int| 0 <= i < j < after.len() implies (#[trigger] after[i]).id != (
    #[trigger] after[j]).id && after[i].username != after[j].username by {
        let a = if i < k {
            i
        } else {
            i + 1
        };
        let b = if j < k {
            j
        } else {
            j + 1
        };
        assert(rows[a].id != rows[b].id);
        assert(rows[a].username != rows[b].username);
    }
    assert forall|i: int| 0 <= i < after.len() implies 1 <= (#[trigger] after[i]).id <= issued
        && after[i].id != rows[k].id by {
        let a = if i < k {
            i
        } else {
            i + 1
        };
        assert(1 <= rows[a].id <= issued);
        if a < k {
            assert(rows[a].id != rows[k].id);
        } else {
            assert(rows[k].id != rows[a].id);
        }
    }
    if guarded(rows, issued) && !rows[k].orig {
        assert forall|i: int| 0 <= i < after.len() implies ((#[trigger] after[i]).orig
            <==> after[i].id == 1) by {
            let a = if i < k {
                i
            } else {
                i + 1
            };
            assert(rows[a].orig <==> rows[a].id == 1);
        }
        if issued > 0 {
            let w = index_of_id(rows, 1);
            assert(rows[w].id == 1);
            assert(rows[k].id != 1);
            let v = if w < k {
                w
            } else {
                w - 1
            };
            assert(after[v].id == 1);
        }
    }
}

/// Adding a user under the next id keeps what the table guarantees. It
/// keeps the rule of the original user where the new user is the original
/// one exactly if the table has assigned no id before.
pub proof fn lemma_insert_keeps(rows: Seq<UserView>, issued: int, user: InsertableUserView)
    requires
        well_formed(rows, issued),
        insert_result(rows, issued, user) is Ok,
    ensures
        well_formed(rows.push(new_row(user, issued + 1)), issued + 1),
        guarded(rows, issued) && (user.orig <==> issued == 0) ==> guarded(
            rows.push(new_row(user, issued + 1)),
            issued + 1,
        ),
{
    let row = new_row(user, issued + 1);
    let after = rows.push(row);
    assert forall|i: int| 0 <= i < after.len() implies 1 <= (#[trigger] after[i]).id <= issued
        + 1 by {
        if i < rows.len() {
            assert(1 <= rows[i].id <= issued);
        }
    }
    assert forall|i: int, j: int| 0 <= i < j < after.len() implies (#[trigger] after[i]).id != (
    #[trigger] after[j]).id && after[i].username != after[j].username by {
        assert(1 <= rows[i].id <= issued);
        if j < rows.len() {
            assert(rows[i].id != rows[j].id);
            assert(rows[i].username != rows[j].username);
        } else {
            assert(rows[i].username != user.username);
        }
    }
    if guarded(rows, issued) && (user.orig <==> issued == 0) {
        assert forall|i: int| 0 <= i < after.len() implies ((#[trigger] after[i]).orig
            <==> after[i].id == 1) by {
            if i < rows.len() {
                assert(rows[i].orig <==> rows[i].id == 1);
            }
        }
        if issued > 0 {
            let w = index_of_id(rows, 1);
            assert(after[w].id == 1);
        } else {
            assert(after[rows.len() as int].id == 1);
        }
    }
}

} // verus!
