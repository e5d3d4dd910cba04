//! In-memory challenge store: a vector of `(address, id, code)` entries
//! whose model is a map from address to the challenge pair, the latest
//! entry for an address winning.

use vstd::prelude::*;

use crate::data_stores::{LoginAttemptId, TwoFACode, TwoFACodeStore, TwoFACodeStoreError};
use crate::user::Email;

verus! {

/// The challenge map held in `s`: address to `(id, code)`, later entries
/// replacing earlier ones.
pub closed spec fn code_map(s: Seq<(Email, LoginAttemptId, TwoFACode)>) -> Map<
    Seq<char>,
    (Seq<char>, Seq<char>),
>
    decreases s.len(),
{
    if s.len() == 0 {
        Map::empty()
    } else {
        code_map(s.drop_last()).insert(s.last().0@, (s.last().1@, s.last().2@))
    }
}

proof fn lemma_code_map_push(s: Seq<(Email, LoginAttemptId, TwoFACode)>, e: (Email, LoginAttemptId, TwoFACode))
    ensures
        code_map(s.push(e)) == code_map(s).insert(e.0@, (e.1@, e.2@)),
{
    assert(s.push(e).drop_last() =~= s);
    assert(s.push(e).last() == e);
}

/// In-memory challenge store: at most one active challenge per address.
#[derive(Debug)]
pub struct HashmapTwoFACodeStore {
    codes: Vec<(Email, LoginAttemptId, TwoFACode)>,
}

impl HashmapTwoFACodeStore {
    pub fn new() -> (r: Self)
        ensures
            r.codes() == Map::<Seq<char>, (Seq<char>, Seq<char>)>::empty(),
    {
        Self { codes: Vec::new() }
    }
}

impl Default for HashmapTwoFACodeStore {
    fn default() -> (r: Self)
        ensures
            r.codes() == Map::<Seq<char>, (Seq<char>, Seq<char>)>::empty(),
    {
        Self::new()
    }
}

impl TwoFACodeStore for HashmapTwoFACodeStore {
    closed spec fn codes(&self) -> Map<Seq<char>, (Seq<char>, Seq<char>)> {
        code_map(self.codes@)
    }

    fn add_code(
        &mut self,
        email: Email,
        login_attempt_id: LoginAttemptId,
        code: TwoFACode,
    ) -> (r: Result<(), TwoFACodeStoreError>) {
        proof {
            lemma_code_map_push(self.codes@, (email, login_attempt_id, code));
        }
        self.codes.push((email, login_attempt_id, code));
        Ok(())
    }

    fn remove_code(&mut self, email: &Email) -> (r: Result<(), TwoFACodeStoreError>) {
        let ghost s = self.codes@;
        let ghost k = email@;
        let mut kept: Vec<(Email, LoginAttemptId, TwoFACode)> = Vec::new();
        let mut found = false;
        let mut i: usize = 0;
        while i < self.codes.len()
            invariant
                i <= s.len(),
                s == self.codes@,
                k == email@,
                found == code_map(s.take(i as int)).contains_key(k),
                code_map(kept@) == code_map(s.take(i as int)).remove(k),
            decreases s.len() - i,
        {
            let entry = &self.codes[i];
            proof {
                assert(s.take(i + 1).drop_last() =~= s.take(i as int));
                assert(s.take(i + 1).last() == s[i as int]);
            }
            if entry.0 == *email {
                proof {
                    assert(code_map(s.take(i as int)).insert(k, (s[i as int].1@, s[i as int].2@)).remove(
                        k,
                    ) =~= code_map(s.take(i as int)).remove(k));
                }
                found = true;
            } else {
                proof {
                    lemma_code_map_push(kept@, s[i as int]);
                    assert(code_map(s.take(i as int)).insert(
                        s[i as int].0@,
                        (s[i as int].1@, s[i as int].2@),
                    ).remove(k) =~= code_map(s.take(i as int)).remove(k).insert(
                        s[i as int].0@,
                        (s[i as int].1@, s[i as int].2@),
                    ));
                }
                kept.push((entry.0.clone(), entry.1.clone(), entry.2.clone()));
            }
            i += 1;
        }
        proof {
            assert(s.take(s.len() as int) =~= s);
        }
        if found {
            self.codes = kept;
            Ok(())
        } else {
            proof {
                assert(code_map(s).remove(k) =~= code_map(s));
            }
            Err(TwoFACodeStoreError::LoginAttemptIdNotFound)
        }
    }

    fn get_code(&self, email: &Email) -> (r: Result<
        (LoginAttemptId, TwoFACode),
        TwoFACodeStoreError,
    >) {
        let ghost s = self.codes@;
        let ghost k = email@;
        let mut i: usize = self.codes.len();
        proof {
            assert(s.take(s.len() as int) =~= s);
        }
        // Scan from the end: the model keeps the latest entry for a key.
        loop
            invariant
                i <= s.len(),
                s == self.codes@,
                k == email@,
                code_map(s).contains_key(k) == code_map(s.take(i as int)).contains_key(k),
                code_map(s).contains_key(k) ==> code_map(s.take(i as int))[k] == code_map(s)[k],
            decreases i,
        {
            if i == 0 {
                proof {
                    assert(s.take(0) =~= Seq::<(Email, LoginAttemptId, TwoFACode)>::empty());
                }
                return Err(TwoFACodeStoreError::LoginAttemptIdNotFound);
            }
            i -= 1;
            proof {
                assert(s.take(i + 1).drop_last() =~= s.take(i as int));
                assert(s.take(i + 1).last() == s[i as int]);
            }
            if self.codes[i].0 == *email {
                return Ok((self.codes[i].1.clone(), self.codes[i].2.clone()));
            }
        }
    }
}

} // verus!
