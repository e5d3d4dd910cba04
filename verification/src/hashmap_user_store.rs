//! In-memory credential store: a vector of identity records whose model is
//! a map from address to stored secret and second-factor flag, the latest
//! entry for an address winning.

use vstd::prelude::*;

use crate::data_stores::{UserStore, UserStoreError};
use crate::user::{Email, Password, User};

verus! {

/// The identity map held in `s`: address to secret and second-factor
/// flag, later entries replacing earlier ones.
pub closed spec fn user_map(s: Seq<User>) -> Map<Seq<char>, (Seq<char>, bool)>
    decreases s.len(),
{
    if s.len() == 0 {
        Map::empty()
    } else {
        user_map(s.drop_last()).insert(s.last().email@, (s.last().password@, s.last().requires_2fa))
    }
}

proof fn lemma_user_map_push(s: Seq<User>, u: User)
    ensures
        user_map(s.push(u)) == user_map(s).insert(u.email@, (u.password@, u.requires_2fa)),
{
    assert(s.push(u).drop_last() =~= s);
    assert(s.push(u).last() == u);
}

/// In-memory user store; one identity per address, enforced at insertion.
#[derive(Debug)]
pub struct HashmapUserStore {
    users: Vec<User>,
}

impl HashmapUserStore {
    pub fn new() -> (r: Self)
        ensures
            r.users() == Map::<Seq<char>, (Seq<char>, bool)>::empty(),
    {
        Self { users: Vec::new() }
    }
}

impl Default for HashmapUserStore {
    fn default() -> (r: Self)
        ensures
            r.users() == Map::<Seq<char>, (Seq<char>, bool)>::empty(),
    {
        Self::new()
    }
}

impl UserStore for HashmapUserStore {
    closed spec fn users(&self) -> Map<Seq<char>, (Seq<char>, bool)> {
        user_map(self.users@)
    }

    fn add_user(&mut self, user: User) -> (r: Result<(), UserStoreError>) {
        match self.get_user(&user.email) {
            Ok(_) => Err(UserStoreError::UserAlreadyExists),
            Err(_) => {
                proof {
                    lemma_user_map_push(self.users@, user);
                }
                self.users.push(user);
                Ok(())
            },
        }
    }

    fn get_user(&self, email: &Email) -> (r: Result<User, UserStoreError>) {
        let ghost s = self.users@;
        let ghost k = email@;
        let mut i: usize = self.users.len();
        proof {
            assert(s.take(s.len() as int) =~= s);
        }
        // Scan from the end: the model keeps the latest entry for a key.
        loop
            invariant
                i <= s.len(),
                s == self.users@,
                k == email@,
                user_map(s).contains_key(k) == user_map(s.take(i as int)).contains_key(k),
                user_map(s).contains_key(k) ==> user_map(s.take(i as int))[k] == user_map(s)[k],
            decreases i,
        {
            if i == 0 {
                proof {
                    assert(s.take(0) =~= Seq::<User>::empty());
                }
                return Err(UserStoreError::UserNotFound);
            }
            i -= 1;
            proof {
                assert(s.take(i + 1).drop_last() =~= s.take(i as int));
                assert(s.take(i + 1).last() == s[i as int]);
            }
            if self.users[i].email == *email {
                return Ok(self.users[i].clone());
            }
        }
    }

    fn validate_user(&self, email: &Email, password: &Password) -> (r: Result<
        (),
        UserStoreError,
    >) {
        match self.get_user(email) {
            Ok(user) => {
                if user.password == *password {
                    Ok(())
                } else {
                    Err(UserStoreError::InvalidCredentials)
                }
            },
            Err(_) => Err(UserStoreError::UserNotFound),
        }
    }
}

} // verus!
