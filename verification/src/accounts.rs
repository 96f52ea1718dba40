//! The account registry: a name to password-hash map whose only
//! invariant is name uniqueness. Passwords are hashed on the client
//! before transit, so the registry only ever stores and compares
//! strings.

use vstd::prelude::*;

use crate::types::{CreateInfo, LoginInfo};

verus! {

/// The outcome of an account-creation request.
#[derive(Clone, Copy, Debug, PartialEq, Eq, Structural)]
pub enum CreateOutcome {
    Created,
    AlreadyExists,
}

/// The outcome of a login request.
#[derive(Clone, Copy, Debug, PartialEq, Eq, Structural)]
pub enum AuthOutcome {
    Success,
    WrongPassword,
    NotFound,
}

/// The password hash bound to a name in an association list, scanning
/// front to back; names are unique, so at most one entry can match.
pub open spec fn password_of(m: Seq<(String, String)>, name: Seq<char>) -> Option<Seq<char>>
    decreases m.len(),
{
    if m.len() == 0 {
        None
    } else if m[0].0@ == name {
        Some(m[0].1@)
    } else {
        password_of(m.drop_first(), name)
    }
}

/// Entries that cannot match may be skipped without changing the lookup.
proof fn lemma_password_of_skip(m: Seq<(String, String)>, name: Seq<char>, i: int)
    requires
        0 <= i <= m.len(),
        forall|j: int| 0 <= j < i ==> m[j].0@ != name,
    ensures
        password_of(m, name) == password_of(m.skip(i), name),
    decreases i,
{
    if i > 0 {
        lemma_password_of_skip(m.drop_first(), name, i - 1);
        assert(m.drop_first().skip(i - 1) =~= m.skip(i));
    } else {
        assert(m.skip(0) =~= m);
    }
}

/// A fresh name appended to the list binds it and leaves every other
/// name's lookup alone.
proof fn lemma_password_of_push_other(m: Seq<(String, String)>, e: (String, String), name: Seq<char>)
    requires
        name != e.0@,
    ensures
        password_of(m.push(e), name) == password_of(m, name),
    decreases m.len(),
{
    let p = m.push(e);
    if m.len() == 0 {
        assert(p[0] == e);
        assert(p.drop_first() =~= Seq::<(String, String)>::empty());
        assert(password_of(p, name) == password_of(p.drop_first(), name));
    } else {
        assert(p[0] == m[0]);
        if p[0].0@ != name {
            assert(p.drop_first() =~= m.drop_first().push(e));
            lemma_password_of_push_other(m.drop_first(), e, name);
            assert(password_of(p, name) == password_of(p.drop_first(), name));
            assert(password_of(m, name) == password_of(m.drop_first(), name));
        } else {
            assert(password_of(p, name) == Some(p[0].1@));
            assert(password_of(m, name) == Some(m[0].1@));
        }
    }
}

/// The server-side account registry.
pub struct AccountRegistry {
    accounts: Vec<(String, String)>,
}

impl AccountRegistry {
    /// Names are unique: no two entries share one.
    pub closed spec fn wf(self) -> bool {
        forall|k: int, l: int|
            0 <= k < l < self.accounts@.len() ==> self.accounts@[k].0@ != self.accounts@[l].0@
    }

    /// The password hash bound to a name, if the account exists.
    pub closed spec fn spec_password(self, name: Seq<char>) -> Option<Seq<char>> {
        password_of(self.accounts@, name)
    }

    /// How many accounts exist.
    pub closed spec fn spec_len(self) -> nat {
        self.accounts@.len()
    }

    /// An empty registry.
    pub fn new() -> (s: Self)
        ensures
            s.wf(),
            s.spec_len() == 0,
            forall|name: Seq<char>| s.spec_password(name) is None,
    {
        AccountRegistry { accounts: Vec::new() }
    }

    /// Find the position of a name, front to back.
    fn find_name(&self, name: &String) -> (r: Option<usize>)
        ensures
            r matches Some(p) ==> p < self.accounts@.len() && self.accounts@[p as int].0@ == name@
                && forall|j: int| 0 <= j < p ==> self.accounts@[j].0@ != name@,
            r is None ==> forall|j: int| 0 <= j < self.accounts@.len() ==> self.accounts@[j].0@
                != name@,
    {
        let n = self.accounts.len();
        let mut i: usize = 0;
        while i < n
            invariant
                n == self.accounts@.len(),
                i <= n,
                forall|j: int| 0 <= j < i ==> self.accounts@[j].0@ != name@,
            decreases n - i,
        {
            if self.accounts[i].0.eq(name) {
                return Some(i);
            }
            i = i + 1;
        }
        None
    }

    /// Create an account: insert the (name, password hash) pair if the
    /// name is free, report `AlreadyExists` and change nothing if it is
    /// taken.
    pub fn create(&mut self, info: CreateInfo) -> (r: CreateOutcome)
        requires
            old(self).wf(),
        ensures
            final(self).wf(),
            old(self).spec_password(info.name@) is Some ==> r == CreateOutcome::AlreadyExists
                && *final(self) == *old(self),
            old(self).spec_password(info.name@) is None ==> r == CreateOutcome::Created && final(self).spec_password(info.name@) == Some(info.password@) && forall|n: Seq<char>|
                n != info.name@ ==> final(self).spec_password(n) == old(self).spec_password(n),
    {
        let ghost pre = self.accounts@;
        match self.find_name(&info.name) {
            Some(p) => {
                proof {
                    lemma_password_of_skip(pre, info.name@, p as int);
                    assert(pre.skip(p as int)[0] == pre[p as int]);
                }
                CreateOutcome::AlreadyExists
            },
            None => {
                let CreateInfo { name, password } = info;
                self.accounts.push((name, password));
                proof {
                    let n = pre.len() as int;
                    let m = self.accounts@;
                    lemma_password_of_skip(pre, info.name@, n);
                    assert(pre.skip(n).len() == 0);
                    lemma_password_of_skip(m, m[n].0@, n);
                    assert(m.skip(n)[0] == m[n]);
                    assert(password_of(m.skip(n), m[n].0@) == Some(m[n].1@));
                    assert forall|other: Seq<char>| other != m[n].0@ implies password_of(m, other)
                        == password_of(pre, other) by {
                        lemma_password_of_push_other(pre, m[n], other);
                        assert(m =~= pre.push(m[n]));
                    }
                }
                CreateOutcome::Created
            },
        }
    }

    /// Authenticate a login: `NotFound` for an unknown name,
    /// `WrongPassword` when the stored hash differs, `Success` when it
    /// matches.
    pub fn authenticate(&self, info: &LoginInfo) -> (r: AuthOutcome)
        requires
            self.wf(),
        ensures
            self.spec_password(info.name@) is None ==> r == AuthOutcome::NotFound,
            self.spec_password(info.name@) matches Some(p) ==> (p == info.password@ ==> r
                == AuthOutcome::Success) && (p != info.password@ ==> r
                == AuthOutcome::WrongPassword),
    {
        match self.find_name(&info.name) {
            None => {
                proof {
                    lemma_password_of_skip(
                        self.accounts@,
                        info.name@,
                        self.accounts@.len() as int,
                    );
                }
                AuthOutcome::NotFound
            },
            Some(p) => {
                proof {
                    lemma_password_of_skip(self.accounts@, info.name@, p as int);
                    assert(self.accounts@.skip(p as int)[0] == self.accounts@[p as int]);
                }
                if self.accounts[p].1.eq(&info.password) {
                    AuthOutcome::Success
                } else {
                    AuthOutcome::WrongPassword
                }
            },
        }
    }
}

} // verus!
