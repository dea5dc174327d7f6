//! The ledger client's logical contract: a record store of prepaid users and
//! their usage-log history. The store itself is remote and reached over plain
//! CRUD round trips; this model states exactly what each round trip decides
//! and changes, and the gateway's handlers are verified against it.

use vstd::prelude::*;

use crate::types::{AppError, PII};

verus! {

/// A customer record: a caller-chosen unique key, a prepaid credit balance,
/// and the record identifier the ledger assigned.
#[derive(Debug)]
pub struct User {
    pub api_key: String,
    pub balance: i32,
    pub id: Option<usize>,
}

impl User {
    /// An exact copy of the record.
    pub fn duplicate(&self) -> (u: User)
        ensures
            u == *self,
    {
        User { api_key: self.api_key.clone(), balance: self.balance, id: self.id }
    }
}

/// One usage-log entry: what was queried, against which service, at what
/// cost. Write-once and append-only.
#[derive(Debug)]
pub struct APIUsage {
    pub category: String,
    pub service: String,
    pub pii_type: PII,
    pub pii: String,
    pub cost: i32,
    pub id: Option<usize>,
}

impl APIUsage {
    /// An exact copy of the entry.
    pub fn duplicate(&self) -> (u: APIUsage)
        ensures
            u == *self,
    {
        APIUsage {
            category: self.category.clone(),
            service: self.service.clone(),
            pii_type: self.pii_type,
            pii: self.pii.clone(),
            cost: self.cost,
            id: self.id,
        }
    }
}

/// A usage-log entry as stored: linked to the user that incurred it.
#[derive(Debug)]
pub struct LogRecord {
    pub user_api_key: String,
    pub entry: APIUsage,
}

/// The index of the first user holding the key.
pub open spec fn spec_find_index(users: Seq<User>, key: Seq<char>) -> Option<int>
    decreases users.len(),
{
    if users.len() == 0 {
        None
    } else if users[0].api_key@ == key {
        Some(0int)
    } else {
        match spec_find_index(users.drop_first(), key) {
            Some(i) => Some(i + 1),
            None => None,
        }
    }
}

/// The first user holding the key.
pub open spec fn spec_find_user(users: Seq<User>, key: Seq<char>) -> Option<User> {
    match spec_find_index(users, key) {
        Some(i) => Some(users[i]),
        None => None,
    }
}

/// Whether some user holds the key.
pub open spec fn spec_user_exists(users: Seq<User>, key: Seq<char>) -> bool {
    spec_find_index(users, key) is Some
}

/// What the found index means: it is the first position holding the key, and
/// `None` means no position holds it.
pub proof fn lemma_find_index_characterization(users: Seq<User>, key: Seq<char>)
    ensures
        match spec_find_index(users, key) {
            Some(i) => 0 <= i < users.len() && users[i].api_key@ == key && forall|j: int|
                0 <= j < i ==> #[trigger] users[j].api_key@ != key,
            None => forall|j: int| 0 <= j < users.len() ==> #[trigger] users[j].api_key@ != key,
        },
    decreases users.len(),
{
    if users.len() > 0 {
        lemma_find_index_characterization(users.drop_first(), key);
        assert(forall|j: int|
            1 <= j < users.len() ==> #[trigger] users[j].api_key@ == users.drop_first()[j
                - 1].api_key@);
    }
}

/// Conversely, the first position holding the key is the found index.
pub proof fn lemma_find_index_first(users: Seq<User>, key: Seq<char>, i: int)
    requires
        0 <= i < users.len(),
        users[i].api_key@ == key,
        forall|j: int| 0 <= j < i ==> #[trigger] users[j].api_key@ != key,
    ensures
        spec_find_index(users, key) == Some(i),
    decreases users.len(),
{
    if i > 0 {
        assert(forall|j: int|
            0 <= j < i - 1 ==> #[trigger] users.drop_first()[j].api_key@ == users[j
                + 1].api_key@);
        lemma_find_index_first(users.drop_first(), key, i - 1);
    }
}

/// The ledger's contents: the user records and the usage-log history.
#[derive(Debug)]
pub struct NocoDB {
    pub users: Vec<User>,
    pub logs: Vec<LogRecord>,
}

impl NocoDB {
    /// The store's invariant: no balance is negative, and each key names at
    /// most one user.
    pub open spec fn wf(&self) -> bool {
        &&& forall|i: int| 0 <= i < self.users@.len() ==> #[trigger] self.users@[i].balance >= 0
        &&& forall|i: int, j: int|
            0 <= i < j < self.users@.len() ==> self.users@[i].api_key@ != self.users@[
                j
            ].api_key@
    }

    /// An empty store.
    pub fn new() -> (db: NocoDB)
        ensures
            db.wf(),
            db.users@ =~= Seq::<User>::empty(),
            db.logs@ =~= Seq::<LogRecord>::empty(),
    {
        NocoDB { users: Vec::new(), logs: Vec::new() }
    }

    /// All user records.
    pub fn get_users(&self) -> (r: &Vec<User>)
        ensures
            r == &self.users,
    {
        &self.users
    }

    /// The index of the first user holding the key, if any.
    fn find_index(&self, user_api_key: &String) -> (r: Option<usize>)
        ensures
            match r {
                Some(i) => spec_find_index(self.users@, user_api_key@) == Some(i as int),
                None => spec_find_index(self.users@, user_api_key@) is None,
            },
    {
        let n = self.users.len();
        let mut i: usize = 0;
        while i < n
            invariant
                n == self.users@.len(),
                i <= n,
                forall|j: int| 0 <= j < i ==> #[trigger] self.users@[j].api_key@ != user_api_key@,
            decreases n - i,
        {
            if crate::text::str_equal(&self.users[i].api_key, user_api_key.as_str()) {
                proof {
                    lemma_find_index_first(self.users@, user_api_key@, i as int);
                }
                return Some(i);
            }
            i = i + 1;
        }
        proof {
            lemma_find_index_characterization(self.users@, user_api_key@);
        }
        None
    }

    /// Fetch a user by key. Fails with `UnknownUser`, and only with it,
    /// exactly when no record holds the key.
    pub fn get_user(&self, user_api_key: String) -> (r: Result<User, AppError>)
        ensures
            match r {
                Ok(u) => spec_find_user(self.users@, user_api_key@) == Some(u),
                Err(e) => e == AppError::UnknownUser && !spec_user_exists(
                    self.users@,
                    user_api_key@,
                ),
            },
    {
        match self.find_index(&user_api_key) {
            Some(i) => {
                proof {
                    lemma_find_index_characterization(self.users@, user_api_key@);
                }
                Ok(self.users[i].duplicate())
            },
            None => Err(AppError::UnknownUser),
        }
    }

    /// Create a user. Fails with `LedgerError`, and only with it, exactly
    /// when the key already names a record, and then mutates nothing; on
    /// success the record is appended with a ledger-assigned identifier.
    pub fn create_user(&mut self, user: User) -> (r: Result<User, AppError>)
        requires
            old(self).wf(),
            user.balance >= 0,
        ensures
            final (self).wf(),
            final (self).logs@ == old(self).logs@,
            match r {
                Ok(u) => {
                    &&& !spec_user_exists(old(self).users@, user.api_key@)
                    &&& u.api_key@ == user.api_key@
                    &&& u.balance == user.balance
                    &&& u.id == Some(old(self).users@.len() as usize)
                    &&& final (self).users@ == old(self).users@.push(u)
                },
                Err(e) => {
                    &&& e == AppError::LedgerError
                    &&& spec_user_exists(old(self).users@, user.api_key@)
                    &&& *final (self) == *old(self)
                },
            },
    {
        match self.find_index(&user.api_key) {
            Some(_) => Err(AppError::LedgerError),
            None => {
                proof {
                    lemma_find_index_characterization(self.users@, user.api_key@);
                }
                let id = self.users.len();
                let created = User {
                    api_key: user.api_key,
                    balance: user.balance,
                    id: Some(id),
                };
                let returned = created.duplicate();
                self.users.push(created);
                proof {
                    assert forall|i: int, j: int|
                        0 <= i < j < self.users@.len() implies self.users@[i].api_key@
                        != self.users@[j].api_key@ by {
                        if j == self.users@.len() - 1 {
                            assert(self.users@[i] == old(self).users@[i]);
                        }
                    }
                }
                Ok(returned)
            },
        }
    }

    /// What a balance offset leaves: the ledger floors the result at zero.
    pub open spec fn spec_offset(balance: int, amount: int) -> int {
        if balance + amount >= 0 {
            balance + amount
        } else {
            0
        }
    }

    /// Offset a user's balance, flooring at zero. Fails with `UnknownUser`,
    /// and only with it, exactly when no record holds the key, and then
    /// mutates nothing.
    pub fn offset_balance(&mut self, user_api_key: String, amount: i32) -> (r: Result<
        User,
        AppError,
    >)
        requires
            old(self).wf(),
            match spec_find_user(old(self).users@, user_api_key@) {
                Some(u) => u.balance + amount <= i32::MAX,
                None => true,
            },
        ensures
            final (self).wf(),
            final (self).logs@ == old(self).logs@,
            match r {
                Ok(u) => {
                    &&& spec_user_exists(old(self).users@, user_api_key@)
                    &&& {
                        let i = spec_find_index(old(self).users@, user_api_key@)->Some_0;
                        let before = old(self).users@[i];
                        &&& u.api_key@ == before.api_key@
                        &&& u.id == before.id
                        &&& u.balance == Self::spec_offset(before.balance as int, amount as int)
                        &&& final (self).users@ == old(self).users@.update(i, u)
                    }
                },
                Err(e) => {
                    &&& e == AppError::UnknownUser
                    &&& !spec_user_exists(old(self).users@, user_api_key@)
                    &&& *final (self) == *old(self)
                },
            },
    {
        match self.find_index(&user_api_key) {
            None => Err(AppError::UnknownUser),
            Some(i) => {
                proof {
                    lemma_find_index_characterization(self.users@, user_api_key@);
                }
                let before = &self.users[i];
                let mut new_balance: i32 = 0;
                if amount >= 0 {
                    new_balance = before.balance + amount;
                } else if before.balance + amount >= 0 {
                    new_balance = before.balance + amount;
                }
                let updated = User {
                    api_key: before.api_key.clone(),
                    balance: new_balance,
                    id: before.id,
                };
                let returned = updated.duplicate();
                self.users.set(i, updated);
                proof {
                    assert forall|a: int, b: int|
                        0 <= a < b < self.users@.len() implies self.users@[a].api_key@
                        != self.users@[b].api_key@ by {
                        assert(old(self).users@[a].api_key@ != old(self).users@[b].api_key@);
                    }
                }
                Ok(returned)
            },
        }
    }

    /// Append a usage-log entry linked to the user that incurred it. Fails
    /// with `UnknownUser`, and only with it, exactly when no record holds
    /// the key, and then mutates nothing.
    pub fn create_api_usage_log(&mut self, api_usage_log: APIUsage, user_api_key: String) -> (r:
        Result<(), AppError>)
        requires
            old(self).wf(),
        ensures
            final (self).wf(),
            final (self).users@ == old(self).users@,
            match r {
                Ok(_) => {
                    &&& spec_user_exists(old(self).users@, user_api_key@)
                    &&& final (self).logs@.len() == old(self).logs@.len() + 1
                    &&& {
                        let added = final (self).logs@.last();
                        &&& final (self).logs@ == old(self).logs@.push(added)
                        &&& added.user_api_key@ == user_api_key@
                        &&& added.entry.category@ == api_usage_log.category@
                        &&& added.entry.service@ == api_usage_log.service@
                        &&& added.entry.pii_type == api_usage_log.pii_type
                        &&& added.entry.pii@ == api_usage_log.pii@
                        &&& added.entry.cost == api_usage_log.cost
                        &&& added.entry.id == Some(old(self).logs@.len() as usize)
                    }
                },
                Err(e) => {
                    &&& e == AppError::UnknownUser
                    &&& !spec_user_exists(old(self).users@, user_api_key@)
                    &&& *final (self) == *old(self)
                },
            },
    {
        match self.find_index(&user_api_key) {
            None => Err(AppError::UnknownUser),
            Some(_) => {
                let id = self.logs.len();
                let mut entry = api_usage_log;
                entry.id = Some(id);
                self.logs.push(LogRecord { user_api_key, entry });
                Ok(())
            },
        }
    }
}

/// The balance a sequence of offsets leaves, each floored at zero as the
/// ledger applies it.
pub open spec fn spec_apply_offsets(balance: int, amounts: Seq<int>) -> int
    decreases amounts.len(),
{
    if amounts.len() == 0 {
        balance
    } else {
        spec_apply_offsets(NocoDB::spec_offset(balance, amounts[0]), amounts.drop_first())
    }
}

/// However concurrent debits and credits interleave at the ledger, a balance
/// that starts non-negative never ends negative: every order of applying any
/// offsets leaves a non-negative balance.
pub proof fn lemma_balance_never_negative(balance: int, amounts: Seq<int>)
    requires
        balance >= 0,
    ensures
        spec_apply_offsets(balance, amounts) >= 0,
    decreases amounts.len(),
{
    if amounts.len() > 0 {
        lemma_balance_never_negative(
            NocoDB::spec_offset(balance, amounts[0]),
            amounts.drop_first(),
        );
    }
}

/// A debit of `cost` from balance `b` leaves exactly `max(0, b - cost)`.
pub proof fn lemma_debit_floor(balance: int, cost: int)
    ensures
        NocoDB::spec_offset(balance, -cost) == if balance - cost >= 0 {
            balance - cost
        } else {
            0
        },
{
}

} // verus!
