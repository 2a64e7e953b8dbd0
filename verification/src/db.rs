//! The data access port of the core, realized by an in-memory store
//! with a precise mathematical view.
//!
//! The store owns two tables: user rows, unique by id and by username,
//! and refresh-token rows, unique by token string. Its view is a pair
//! of maps — user id to record, token string to owning user — and every
//! operation says exactly how it moves those maps, so the rotation
//! protocol above can be proved against them.

use vstd::prelude::*;

use crate::errors::AppError;

verus! {

/// A stored user row.
pub struct UserRow {
    pub id: u128,
    pub username: String,
    pub password: String,
    pub created_at: u64,
}

/// A stored refresh-token row.
pub struct TokenRow {
    pub id: u128,
    pub refresh_token: String,
    pub user_id: u128,
    pub created_at: u64,
}

/// A user row as mathematical values.
pub struct UserView {
    pub username: Seq<char>,
    pub password: Seq<char>,
    pub created_at: int,
}

/// The user table as a map from id to record.
pub open spec fn users_map_of(rows: Seq<UserRow>) -> Map<int, UserView>
    decreases rows.len(),
{
    if rows.len() == 0 {
        Map::empty()
    } else {
        users_map_of(rows.drop_last()).insert(
            rows.last().id as int,
            UserView {
                username: rows.last().username@,
                password: rows.last().password@,
                created_at: rows.last().created_at as int,
            },
        )
    }
}

/// The token table as a map from token string to owning user id.
pub open spec fn tokens_map_of(rows: Seq<TokenRow>) -> Map<Seq<char>, int>
    decreases rows.len(),
{
    if rows.len() == 0 {
        Map::empty()
    } else {
        tokens_map_of(rows.drop_last()).insert(
            rows.last().refresh_token@,
            rows.last().user_id as int,
        )
    }
}

/// No two token rows share a token string.
pub open spec fn distinct_tokens(rows: Seq<TokenRow>) -> bool {
    forall|i: int, j: int|
        0 <= i < j < rows.len() ==> rows[i].refresh_token@ != rows[j].refresh_token@
}

/// No two user rows share an id or a username.
pub open spec fn distinct_users(rows: Seq<UserRow>) -> bool {
    &&& forall|i: int, j: int| 0 <= i < j < rows.len() ==> rows[i].id != rows[j].id
    &&& forall|i: int, j: int| 0 <= i < j < rows.len() ==> rows[i].username@ != rows[j].username@
}

/// The token map with every token of one user taken out.
pub open spec fn tokens_without_user(m: Map<Seq<char>, int>, user_id: int) -> Map<Seq<char>, int> {
    Map::new(|k: Seq<char>| m.dom().contains(k) && m[k] != user_id, |k: Seq<char>| m[k])
}

proof fn lemma_tokens_map_push(rows: Seq<TokenRow>, r: TokenRow)
    ensures
        tokens_map_of(rows.push(r)) == tokens_map_of(rows).insert(
            r.refresh_token@,
            r.user_id as int,
        ),
{
    assert(rows.push(r).drop_last() =~= rows);
    assert(rows.push(r).last() == r);
}

proof fn lemma_users_map_push(rows: Seq<UserRow>, r: UserRow)
    ensures
        users_map_of(rows.push(r)) == users_map_of(rows).insert(
            r.id as int,
            UserView { username: r.username@, password: r.password@, created_at: r.created_at as int },
        ),
{
    assert(rows.push(r).drop_last() =~= rows);
    assert(rows.push(r).last() == r);
}

/// Every row's token is a key, and every key comes from a row.
proof fn lemma_tokens_map_covers(rows: Seq<TokenRow>)
    ensures
        forall|i: int|
            #![trigger rows[i]]
            0 <= i < rows.len() ==> tokens_map_of(rows).contains_key(rows[i].refresh_token@),
        forall|k: Seq<char>|
            #[trigger] tokens_map_of(rows).contains_key(k) ==> exists|i: int|
                0 <= i < rows.len() && #[trigger] rows[i].refresh_token@ == k,
    decreases rows.len(),
{
    if rows.len() > 0 {
        let s0 = rows.drop_last();
        lemma_tokens_map_covers(s0);
        assert forall|i: int| #![trigger rows[i]] 0 <= i < rows.len() implies tokens_map_of(
            rows,
        ).contains_key(rows[i].refresh_token@) by {
            if i < rows.len() - 1 {
                assert(s0[i] == rows[i]);
                assert(tokens_map_of(s0).contains_key(s0[i].refresh_token@));
            }
        }
        assert forall|k: Seq<char>| #[trigger] tokens_map_of(rows).contains_key(k) implies exists|
            i: int,
        | 0 <= i < rows.len() && #[trigger] rows[i].refresh_token@ == k by {
            if k == rows.last().refresh_token@ {
                assert(rows[rows.len() - 1].refresh_token@ == k);
            } else {
                assert(tokens_map_of(s0).contains_key(k));
                let i = choose|i: int| 0 <= i < s0.len() && #[trigger] s0[i].refresh_token@ == k;
                assert(rows[i].refresh_token@ == k);
            }
        }
    }
}

/// With distinct tokens, each key maps to its row's user.
proof fn lemma_tokens_map_values(rows: Seq<TokenRow>)
    requires
        distinct_tokens(rows),
    ensures
        forall|i: int|
            #![trigger rows[i]]
            0 <= i < rows.len() ==> tokens_map_of(rows).contains_key(rows[i].refresh_token@)
                && tokens_map_of(rows)[rows[i].refresh_token@] == rows[i].user_id as int,
    decreases rows.len(),
{
    lemma_tokens_map_covers(rows);
    if rows.len() > 0 {
        let s0 = rows.drop_last();
        assert(distinct_tokens(s0)) by {
            assert forall|i: int, j: int|
                0 <= i < j < s0.len() implies s0[i].refresh_token@ != s0[j].refresh_token@ by {
                assert(s0[i] == rows[i]);
                assert(s0[j] == rows[j]);
            }
        }
        lemma_tokens_map_values(s0);
        assert forall|i: int| #![trigger rows[i]] 0 <= i < rows.len() implies tokens_map_of(
            rows,
        ).contains_key(rows[i].refresh_token@) && tokens_map_of(rows)[rows[i].refresh_token@]
            == rows[i].user_id as int by {
            if i < rows.len() - 1 {
                assert(s0[i] == rows[i]);
                assert(tokens_map_of(s0).contains_key(s0[i].refresh_token@) && tokens_map_of(s0)[
                    s0[i].refresh_token@] == s0[i].user_id as int);
                assert(rows[i].refresh_token@ != rows[rows.len() - 1].refresh_token@);
            }
        }
    }
}

proof fn lemma_users_map_covers(rows: Seq<UserRow>)
    ensures
        forall|i: int|
            #![trigger rows[i]]
            0 <= i < rows.len() ==> users_map_of(rows).contains_key(rows[i].id as int),
        forall|k: int|
            #[trigger] users_map_of(rows).contains_key(k) ==> exists|i: int|
                0 <= i < rows.len() && #[trigger] rows[i].id as int == k,
    decreases rows.len(),
{
    if rows.len() > 0 {
        let s0 = rows.drop_last();
        lemma_users_map_covers(s0);
        assert forall|i: int| #![trigger rows[i]] 0 <= i < rows.len() implies users_map_of(
            rows,
        ).contains_key(rows[i].id as int) by {
            if i < rows.len() - 1 {
                assert(s0[i] == rows[i]);
                assert(users_map_of(s0).contains_key(s0[i].id as int));
            }
        }
        assert forall|k: int| #[trigger] users_map_of(rows).contains_key(k) implies exists|i: int|
            0 <= i < rows.len() && #[trigger] rows[i].id as int == k by {
            if k == rows.last().id as int {
                assert(rows[rows.len() - 1].id as int == k);
            } else {
                assert(users_map_of(s0).contains_key(k));
                let i = choose|i: int| 0 <= i < s0.len() && #[trigger] s0[i].id as int == k;
                assert(rows[i].id as int == k);
            }
        }
    }
}

/// With distinct ids, each key maps to its row's record.
proof fn lemma_users_map_values(rows: Seq<UserRow>)
    requires
        distinct_users(rows),
    ensures
        forall|i: int|
            #![trigger rows[i]]
            0 <= i < rows.len() ==> users_map_of(rows).contains_key(rows[i].id as int)
                && users_map_of(rows)[rows[i].id as int] == (UserView {
                username: rows[i].username@,
                password: rows[i].password@,
                created_at: rows[i].created_at as int,
            }),
    decreases rows.len(),
{
    lemma_users_map_covers(rows);
    if rows.len() > 0 {
        let s0 = rows.drop_last();
        assert(distinct_users(s0)) by {
            assert forall|i: int, j: int|
                0 <= i < j < s0.len() implies s0[i].id != s0[j].id && s0[i].username@ != s0[
                j].username@ by {
                assert(s0[i] == rows[i]);
                assert(s0[j] == rows[j]);
            }
        }
        lemma_users_map_values(s0);
        assert forall|i: int| #![trigger rows[i]] 0 <= i < rows.len() implies users_map_of(
            rows,
        ).contains_key(rows[i].id as int) && users_map_of(rows)[rows[i].id as int] == (UserView {
            username: rows[i].username@,
            password: rows[i].password@,
            created_at: rows[i].created_at as int,
        }) by {
            if i < rows.len() - 1 {
                assert(s0[i] == rows[i]);
                assert(users_map_of(s0).contains_key(s0[i].id as int) && users_map_of(s0)[s0[
                    i].id as int] == (UserView {
                    username: s0[i].username@,
                    password: s0[i].password@,
                    created_at: s0[i].created_at as int,
                }));
                assert(rows[i].id != rows[rows.len() - 1].id);
            }
        }
    }
}

/// Removing one row removes exactly its key.
proof fn lemma_tokens_map_remove(rows: Seq<TokenRow>, i: int)
    requires
        distinct_tokens(rows),
        0 <= i < rows.len(),
    ensures
        tokens_map_of(rows.remove(i)) == tokens_map_of(rows).remove(rows[i].refresh_token@),
    decreases rows.len(),
{
    lemma_tokens_map_covers(rows.drop_last());
    if i == rows.len() - 1 {
        assert(rows.remove(i) =~= rows.drop_last());
        assert(!tokens_map_of(rows.drop_last()).contains_key(rows[i].refresh_token@)) by {
            if tokens_map_of(rows.drop_last()).contains_key(rows[i].refresh_token@) {
                let j = choose|j: int|
                    0 <= j < rows.drop_last().len() && rows.drop_last()[j].refresh_token@
                        == rows[i].refresh_token@;
                assert(rows[j].refresh_token@ == rows[i].refresh_token@);
            }
        }
        assert(tokens_map_of(rows.remove(i)) =~= tokens_map_of(rows).remove(
            rows[i].refresh_token@,
        ));
    } else {
        let s0 = rows.drop_last();
        assert(distinct_tokens(s0)) by {
            assert forall|a: int, b: int|
                0 <= a < b < s0.len() implies s0[a].refresh_token@ != s0[b].refresh_token@ by {
                assert(s0[a] == rows[a]);
                assert(s0[b] == rows[b]);
            }
        }
        lemma_tokens_map_remove(s0, i);
        assert(rows.remove(i).drop_last() =~= s0.remove(i));
        assert(rows.remove(i).last() == rows.last());
        assert(rows[i].refresh_token@ != rows.last().refresh_token@);
        assert(tokens_map_of(rows.remove(i)) =~= tokens_map_of(rows).remove(
            rows[i].refresh_token@,
        ));
    }
}

/// Two stored users never share a username: what the registration
/// constraint maintains, exported for the callers that authenticate.
pub proof fn lemma_unique_usernames(db: InMemoryDb)
    requires
        db.wf(),
    ensures
        forall|a: int, b: int|
            db.users().contains_key(a) && db.users().contains_key(b) && a != b
                ==> #[trigger] db.users()[a].username != #[trigger] db.users()[b].username,
{
    lemma_users_map_covers(db.users@);
    lemma_users_map_values(db.users@);
    assert forall|a: int, b: int|
        db.users().contains_key(a) && db.users().contains_key(b) && a != b implies #[trigger] db.users()[a].username != #[trigger] db.users()[b].username by {
        assert(users_map_of(db.users@).contains_key(a));
        assert(users_map_of(db.users@).contains_key(b));
        let i = choose|i: int| 0 <= i < db.users@.len() && #[trigger] db.users@[i].id as int == a;
        let j = choose|j: int| 0 <= j < db.users@.len() && #[trigger] db.users@[j].id as int == b;
        assert(db.users()[a].username == db.users@[i].username@);
        assert(db.users()[b].username == db.users@[j].username@);
    }
}

/// The in-memory data access port: the store every use case reads and
/// mutates, exact down to its map view.
pub struct InMemoryDb {
    users: Vec<UserRow>,
    user_tokens: Vec<TokenRow>,
}

impl InMemoryDb {
    /// Both tables obey their uniqueness constraints.
    pub closed spec fn wf(self) -> bool {
        &&& distinct_users(self.users@)
        &&& distinct_tokens(self.user_tokens@)
    }

    /// The user table: id to record.
    pub closed spec fn users(self) -> Map<int, UserView> {
        users_map_of(self.users@)
    }

    /// The token table: token string to owning user id.
    pub closed spec fn tokens(self) -> Map<Seq<char>, int> {
        tokens_map_of(self.user_tokens@)
    }

    /// An empty store.
    pub fn new() -> (db: InMemoryDb)
        ensures
            db.wf(),
            db.users() == Map::<int, UserView>::empty(),
            db.tokens() == Map::<Seq<char>, int>::empty(),
    {
        InMemoryDb { users: Vec::new(), user_tokens: Vec::new() }
    }

    /// Looks a user up by username, yielding id and password hash.
    #[verifier::loop_isolation(false)]
    pub fn find_user_by_username(&self, username: &String) -> (r: Option<(u128, String)>)
        requires
            self.wf(),
        ensures
            match r {
                Some((id, pwd)) => {
                    &&& self.users().contains_key(id as int)
                    &&& self.users()[id as int].username == username@
                    &&& self.users()[id as int].password == pwd@
                },
                None => forall|uid: int|
                    self.users().contains_key(uid) ==> self.users()[uid].username != username@,
            },
    {
        proof {
            lemma_users_map_values(self.users@);
            lemma_users_map_covers(self.users@);
        }
        let n = self.users.len();
        let mut i: usize = 0;
        while i < n
            invariant
                n == self.users@.len(),
                i <= n,
                self.wf(),
                forall|j: int| 0 <= j < i ==> self.users@[j].username@ != username@,
            decreases n - i,
        {
            if self.users[i].username == *username {
                proof {
                    assert(users_map_of(self.users@).contains_key(
                        self.users@[i as int].id as int,
                    ));
                    assert(users_map_of(self.users@)[self.users@[i as int].id as int]
                        == (UserView {
                        username: self.users@[i as int].username@,
                        password: self.users@[i as int].password@,
                        created_at: self.users@[i as int].created_at as int,
                    }));
                }
                return Some((self.users[i].id, self.users[i].password.clone()));
            }
            i += 1;
        }
        proof {
            assert forall|uid: int| self.users().contains_key(uid) implies self.users()[uid].username != username@ by {
                assert(users_map_of(self.users@).contains_key(uid));
                let j = choose|j: int|
                    0 <= j < self.users@.len() && #[trigger] self.users@[j].id as int == uid;
                assert(self.users@[j].username@ != username@);
                assert(users_map_of(self.users@)[uid].username == self.users@[j].username@);
            }
        }
        None
    }

    /// Whether a user with this id exists.
    #[verifier::loop_isolation(false)]
    pub fn contains_user(&self, id: u128) -> (r: bool)
        requires
            self.wf(),
        ensures
            r == self.users().contains_key(id as int),
    {
        proof {
            lemma_users_map_covers(self.users@);
        }
        let n = self.users.len();
        let mut i: usize = 0;
        while i < n
            invariant
                n == self.users@.len(),
                i <= n,
                self.wf(),
                forall|j: int| 0 <= j < i ==> self.users@[j].id != id,
            decreases n - i,
        {
            if self.users[i].id == id {
                proof {
                    assert(users_map_of(self.users@).contains_key(
                        self.users@[i as int].id as int,
                    ));
                }
                return true;
            }
            i += 1;
        }
        proof {
            if self.users().contains_key(id as int) {
                assert(users_map_of(self.users@).contains_key(id as int));
                let j = choose|j: int|
                    0 <= j < self.users@.len() && #[trigger] self.users@[j].id as int == id as int;
                assert(self.users@[j].id != id);
            }
        }
        false
    }

    /// Inserts a user row; fails, changing nothing, exactly when the id
    /// or the username is already taken.
    #[verifier::loop_isolation(false)]
    pub fn insert_user(&mut self, id: u128, username: String, password: String, created_at: u64)
        -> (r: Result<(), AppError>)
        requires
            old(self).wf(),
        ensures
            final(self).wf(),
            match r {
                Ok(()) => {
                    &&& !old(self).users().contains_key(id as int)
                    &&& forall|uid: int|
                        old(self).users().contains_key(uid) ==> old(self).users()[uid].username
                            != username@
                    &&& final(self).users() == old(self).users().insert(
                        id as int,
                        UserView {
                            username: username@,
                            password: password@,
                            created_at: created_at as int,
                        },
                    )
                    &&& final(self).tokens() == old(self).tokens()
                },
                Err(e) => {
                    &&& e matches AppError::DbError(_)
                    &&& (old(self).users().contains_key(id as int) || exists|uid: int|
                        old(self).users().contains_key(uid) && old(self).users()[uid].username
                            == username@)
                    &&& final(self).users() == old(self).users()
                    &&& final(self).tokens() == old(self).tokens()
                },
            },
    {
        proof {
            lemma_users_map_values(self.users@);
            lemma_users_map_covers(self.users@);
        }
        let n = self.users.len();
        let mut i: usize = 0;
        while i < n
            invariant
                n == self.users@.len(),
                i <= n,
                self.wf(),
                *self == *old(self),
                forall|j: int|
                    0 <= j < i ==> self.users@[j].id != id && self.users@[j].username@
                        != username@,
            decreases n - i,
        {
            if self.users[i].id == id || self.users[i].username == username {
                proof {
                    assert(users_map_of(self.users@).contains_key(
                        self.users@[i as int].id as int,
                    ));
                    assert(users_map_of(self.users@)[self.users@[i as int].id as int].username
                        == self.users@[i as int].username@);
                }
                return Err(AppError::DbError("unique constraint violation".to_owned()));
            }
            i += 1;
        }
        proof {
            if self.users().contains_key(id as int) {
                assert(users_map_of(self.users@).contains_key(id as int));
                let j = choose|j: int|
                    0 <= j < self.users@.len() && #[trigger] self.users@[j].id as int == id as int;
                assert(self.users@[j].id != id);
            }
            assert forall|uid: int| self.users().contains_key(uid) implies self.users()[uid].username != username@ by {
                assert(users_map_of(self.users@).contains_key(uid));
                let j = choose|j: int|
                    0 <= j < self.users@.len() && #[trigger] self.users@[j].id as int == uid;
                assert(self.users@[j].username@ != username@);
                assert(users_map_of(self.users@)[uid].username == self.users@[j].username@);
            }
            lemma_users_map_push(
                self.users@,
                UserRow { id, username: username, password: password, created_at },
            );
        }
        let ghost old_rows = self.users@;
        let row = UserRow { id, username, password, created_at };
        self.users.push(row);
        proof {
            assert forall|a: int, b: int|
                0 <= a < b < self.users@.len() implies self.users@[a].id != self.users@[b].id
                && self.users@[a].username@ != self.users@[b].username@ by {
                if b < self.users@.len() - 1 {
                    assert(self.users@[a] == old_rows[a]);
                    assert(self.users@[b] == old_rows[b]);
                } else {
                    assert(self.users@[a] == old_rows[a]);
                }
            }
        }
        Ok(())
    }

    /// Looks a refresh token up, yielding the owning user id.
    #[verifier::loop_isolation(false)]
    pub fn find_token(&self, token: &String) -> (r: Option<u128>)
        requires
            self.wf(),
        ensures
            match r {
                Some(uid) => self.tokens().contains_key(token@) && self.tokens()[token@]
                    == uid as int,
                None => !self.tokens().contains_key(token@),
            },
    {
        proof {
            lemma_tokens_map_values(self.user_tokens@);
            lemma_tokens_map_covers(self.user_tokens@);
        }
        let n = self.user_tokens.len();
        let mut i: usize = 0;
        while i < n
            invariant
                n == self.user_tokens@.len(),
                i <= n,
                self.wf(),
                forall|j: int| 0 <= j < i ==> self.user_tokens@[j].refresh_token@ != token@,
            decreases n - i,
        {
            if self.user_tokens[i].refresh_token == *token {
                proof {
                    assert(tokens_map_of(self.user_tokens@).contains_key(
                        self.user_tokens@[i as int].refresh_token@,
                    ));
                    assert(tokens_map_of(self.user_tokens@)[self.user_tokens@[
                        i as int].refresh_token@] == self.user_tokens@[i as int].user_id as int);
                }
                return Some(self.user_tokens[i].user_id);
            }
            i += 1;
        }
        proof {
            if self.tokens().contains_key(token@) {
                assert(tokens_map_of(self.user_tokens@).contains_key(token@));
                let j = choose|j: int|
                    0 <= j < self.user_tokens@.len() && #[trigger] self.user_tokens@[
                        j].refresh_token@ == token@;
                assert(self.user_tokens@[j].refresh_token@ != token@);
            }
        }
        None
    }

    /// Inserts a refresh-token row; fails, changing nothing, exactly
    /// when the token string is already stored.
    #[verifier::loop_isolation(false)]
    pub fn insert_token(&mut self, id: u128, token: String, user_id: u128, created_at: u64) -> (r:
        Result<(), AppError>)
        requires
            old(self).wf(),
        ensures
            final(self).wf(),
            match r {
                Ok(()) => {
                    &&& !old(self).tokens().contains_key(token@)
                    &&& final(self).tokens() == old(self).tokens().insert(
                        token@,
                        user_id as int,
                    )
                    &&& final(self).users() == old(self).users()
                },
                Err(e) => {
                    &&& e matches AppError::DbError(_)
                    &&& old(self).tokens().contains_key(token@)
                    &&& final(self).tokens() == old(self).tokens()
                    &&& final(self).users() == old(self).users()
                },
            },
    {
        proof {
            lemma_tokens_map_values(self.user_tokens@);
            lemma_tokens_map_covers(self.user_tokens@);
        }
        let n = self.user_tokens.len();
        let mut i: usize = 0;
        while i < n
            invariant
                n == self.user_tokens@.len(),
                i <= n,
                self.wf(),
                *self == *old(self),
                forall|j: int| 0 <= j < i ==> self.user_tokens@[j].refresh_token@ != token@,
            decreases n - i,
        {
            if self.user_tokens[i].refresh_token == token {
                proof {
                    assert(tokens_map_of(self.user_tokens@).contains_key(
                        self.user_tokens@[i as int].refresh_token@,
                    ));
                }
                return Err(AppError::DbError("unique constraint violation".to_owned()));
            }
            i += 1;
        }
        proof {
            if self.tokens().contains_key(token@) {
                assert(tokens_map_of(self.user_tokens@).contains_key(token@));
                let j = choose|j: int|
                    0 <= j < self.user_tokens@.len() && #[trigger] self.user_tokens@[
                        j].refresh_token@ == token@;
                assert(self.user_tokens@[j].refresh_token@ != token@);
            }
            lemma_tokens_map_push(
                self.user_tokens@,
                TokenRow { id, refresh_token: token, user_id, created_at },
            );
        }
        let ghost old_rows = self.user_tokens@;
        let row = TokenRow { id, refresh_token: token, user_id, created_at };
        self.user_tokens.push(row);
        proof {
            assert forall|a: int, b: int|
                0 <= a < b < self.user_tokens@.len() implies self.user_tokens@[a].refresh_token@
                != self.user_tokens@[b].refresh_token@ by {
                if b < self.user_tokens@.len() - 1 {
                    assert(self.user_tokens@[a] == old_rows[a]);
                    assert(self.user_tokens@[b] == old_rows[b]);
                } else {
                    assert(self.user_tokens@[a] == old_rows[a]);
                }
            }
        }
        Ok(())
    }

    /// Deletes the row holding this token; a no-op when none does.
    #[verifier::loop_isolation(false)]
    pub fn delete_token(&mut self, token: &String)
        requires
            old(self).wf(),
        ensures
            final(self).wf(),
            final(self).tokens() == old(self).tokens().remove(token@),
            final(self).users() == old(self).users(),
    {
        proof {
            lemma_tokens_map_covers(self.user_tokens@);
        }
        let n = self.user_tokens.len();
        let mut i: usize = 0;
        while i < n
            invariant
                n == self.user_tokens@.len(),
                i <= n,
                self.wf(),
                *self == *old(self),
                forall|j: int| 0 <= j < i ==> self.user_tokens@[j].refresh_token@ != token@,
            decreases n - i,
        {
            if self.user_tokens[i].refresh_token == *token {
                let ghost old_rows = self.user_tokens@;
                proof {
                    lemma_tokens_map_remove(self.user_tokens@, i as int);
                }
                self.user_tokens.remove(i);
                proof {
                    assert forall|a: int, b: int|
                        0 <= a < b < self.user_tokens@.len() implies self.user_tokens@[a].refresh_token@ != self.user_tokens@[b].refresh_token@ by {
                        let a0 = if a < i as int {
                            a
                        } else {
                            a + 1
                        };
                        let b0 = if b < i as int {
                            b
                        } else {
                            b + 1
                        };
                        assert(self.user_tokens@[a] == old_rows[a0]);
                        assert(self.user_tokens@[b] == old_rows[b0]);
                    }
                }
                return ;
            }
            i += 1;
        }
        proof {
            if self.tokens().contains_key(token@) {
                assert(tokens_map_of(self.user_tokens@).contains_key(token@));
                let j = choose|j: int|
                    0 <= j < self.user_tokens@.len() && #[trigger] self.user_tokens@[
                        j].refresh_token@ == token@;
                assert(self.user_tokens@[j].refresh_token@ != token@);
            }
            assert(tokens_map_of(self.user_tokens@) =~= tokens_map_of(self.user_tokens@).remove(
                token@,
            ));
        }
    }

    /// Deletes every token row of one user: the cascading revocation.
    #[verifier::loop_isolation(false)]
    pub fn delete_tokens_for_user(&mut self, user_id: u128)
        requires
            old(self).wf(),
        ensures
            final(self).wf(),
            final(self).tokens() == tokens_without_user(old(self).tokens(), user_id as int),
            final(self).users() == old(self).users(),
    {
        let n = self.user_tokens.len();
        let mut kept: Vec<TokenRow> = Vec::new();
        let mut i: usize = 0;
        proof {
            lemma_tokens_map_values(self.user_tokens@);
        }
        while i < n
            invariant
                n == self.user_tokens@.len(),
                i <= n,
                self.wf(),
                distinct_tokens(kept@),
                tokens_map_of(kept@) == tokens_without_user(
                    tokens_map_of(self.user_tokens@.take(i as int)),
                    user_id as int,
                ),
                forall|j: int| #![trigger kept@[j]]
                    0 <= j < kept@.len() ==> exists|l: int|
                        0 <= l < i && kept@[j] == #[trigger] self.user_tokens@[l],
            decreases n - i,
        {
            let ghost prefix = self.user_tokens@.take(i as int);
            proof {
                assert(self.user_tokens@.take(i as int + 1).drop_last() =~= prefix);
                assert(self.user_tokens@.take(i as int + 1).last() == self.user_tokens@[i as int]);
                assert(tokens_map_of(self.user_tokens@.take(i as int + 1)) == tokens_map_of(
                    prefix,
                ).insert(
                    self.user_tokens@[i as int].refresh_token@,
                    self.user_tokens@[i as int].user_id as int,
                ));
            }
            let keep = self.user_tokens[i].user_id != user_id;
            if keep {
                let ghost old_kept = kept@;
                let row = TokenRow {
                    id: self.user_tokens[i].id,
                    refresh_token: self.user_tokens[i].refresh_token.clone(),
                    user_id: self.user_tokens[i].user_id,
                    created_at: self.user_tokens[i].created_at,
                };
                proof {
                    lemma_tokens_map_push(kept@, row);
                }
                kept.push(row);
                proof {
                    assert forall|a: int, b: int|
                        0 <= a < b < kept@.len() implies kept@[a].refresh_token@ != kept@[b].refresh_token@ by {
                        assert(kept@[a] == old_kept[a]);
                        if b < kept@.len() - 1 {
                            assert(kept@[b] == old_kept[b]);
                        } else {
                            let la = choose|l: int|
                                0 <= l < i && old_kept[a] == #[trigger] self.user_tokens@[l];
                            assert(kept@[b] == row);
                            assert(self.user_tokens@[la].refresh_token@ != self.user_tokens@[i as int].refresh_token@);
                        }
                    }
                    assert(tokens_map_of(kept@) =~= tokens_without_user(
                        tokens_map_of(self.user_tokens@.take(i as int + 1)),
                        user_id as int,
                    ));
                    assert forall|j: int| #![trigger kept@[j]] 0 <= j < kept@.len() implies exists|
                        l: int,
                    |
                        0 <= l < i + 1 && kept@[j] == #[trigger] self.user_tokens@[l] by {
                        if j < kept@.len() - 1 {
                            assert(kept@[j] == old_kept[j]);
                            let l = choose|l: int|
                                0 <= l < i && old_kept[j] == #[trigger] self.user_tokens@[l];
                            assert(kept@[j] == self.user_tokens@[l]);
                        } else {
                            assert(kept@[j] == self.user_tokens@[i as int]);
                        }
                    }
                }
            } else {
                proof {
                    assert(!tokens_map_of(prefix).contains_key(
                        self.user_tokens@[i as int].refresh_token@,
                    )) by {
                        lemma_tokens_map_covers(prefix);
                        if tokens_map_of(prefix).contains_key(
                            self.user_tokens@[i as int].refresh_token@,
                        ) {
                            let j = choose|j: int|
                                0 <= j < prefix.len() && prefix[j].refresh_token@
                                    == self.user_tokens@[i as int].refresh_token@;
                            assert(prefix[j] == self.user_tokens@[j]);
                        }
                    }
                    assert(tokens_map_of(kept@) =~= tokens_without_user(
                        tokens_map_of(self.user_tokens@.take(i as int + 1)),
                        user_id as int,
                    ));
                }
            }
            i += 1;
        }
        proof {
            assert(self.user_tokens@.take(n as int) =~= self.user_tokens@);
        }
        self.user_tokens = kept;
    }
}

} // verus!
