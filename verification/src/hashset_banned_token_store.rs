//! In-memory revocation set: a vector of raw token strings whose model is
//! the set of their character sequences.

use vstd::prelude::*;

use crate::data_stores::{BannedTokenStore, BannedTokenStoreError};

verus! {

/// The set of token strings held in `s`.
pub closed spec fn token_set(s: Seq<String>) -> Set<Seq<char>>
    decreases s.len(),
{
    if s.len() == 0 {
        Set::empty()
    } else {
        token_set(s.drop_last()).insert(s.last()@)
    }
}

proof fn lemma_token_set_push(s: Seq<String>, t: String)
    ensures
        token_set(s.push(t)) == token_set(s).insert(t@),
{
    assert(s.push(t).drop_last() =~= s);
    assert(s.push(t).last() == t);
}

proof fn lemma_token_set_contains(s: Seq<String>, t: Seq<char>)
    ensures
        token_set(s).contains(t) <==> exists|i: int| 0 <= i < s.len() && s[i]@ == t,
    decreases s.len(),
{
    if s.len() > 0 {
        lemma_token_set_contains(s.drop_last(), t);
        if s.last()@ == t {
            assert(s[s.len() - 1]@ == t);
        } else if token_set(s).contains(t) {
            let i = choose|i: int| 0 <= i < s.drop_last().len() && s.drop_last()[i]@ == t;
            assert(s[i]@ == t);
        } else if exists|i: int| 0 <= i < s.len() && s[i]@ == t {
            let i = choose|i: int| 0 <= i < s.len() && s[i]@ == t;
            assert(s.drop_last()[i]@ == t);
        }
    }
}

/// In-memory banned-token store; the revocation set is append-only.
#[derive(Debug)]
pub struct HashsetBannedTokenStore {
    tokens: Vec<String>,
}

impl HashsetBannedTokenStore {
    pub fn new() -> (r: Self)
        ensures
            r.tokens() == Set::<Seq<char>>::empty(),
    {
        Self { tokens: Vec::new() }
    }
}

impl Default for HashsetBannedTokenStore {
    fn default() -> (r: Self)
        ensures
            r.tokens() == Set::<Seq<char>>::empty(),
    {
        Self::new()
    }
}

impl BannedTokenStore for HashsetBannedTokenStore {
    closed spec fn tokens(&self) -> Set<Seq<char>> {
        token_set(self.tokens@)
    }

    fn add_token(&mut self, token: String) -> (r: Result<(), BannedTokenStoreError>) {
        proof {
            lemma_token_set_push(self.tokens@, token);
        }
        self.tokens.push(token);
        Ok(())
    }

    fn is_banned_token(&self, token: &str) -> (r: Result<bool, BannedTokenStoreError>) {
        let t = token.to_owned();
        proof {
            lemma_token_set_contains(self.tokens@, token@);
        }
        let mut i: usize = 0;
        while i < self.tokens.len()
            invariant
                i <= self.tokens@.len(),
                t@ == token@,
                forall|j: int| 0 <= j < i ==> self.tokens@[j]@ != token@,
                token_set(self.tokens@).contains(token@) <==> exists|k: int|
                    0 <= k < self.tokens@.len() && self.tokens@[k]@ == token@,
            decreases self.tokens@.len() - i,
        {
            if self.tokens[i] == t {
                return Ok(true);
            }
            i += 1;
        }
        Ok(false)
    }
}

} // verus!
