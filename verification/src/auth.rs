//! Authentication: tokens, and the objects each token gives access to.
//!
//! Tokens are the decimal texts of a counter, so that each new token differs
//! from the ones before it until the counter wraps around.

use std::collections::HashSet;
use vstd::hash_map::StringHashMap;
use vstd::prelude::*;
use vstd::std_specs::hash::spec_hash_keys_iter;
use vstd::std_specs::iter::IteratorSpec;

use crate::paths::{decimal_string, digit_char, spec_decimal};

verus! {

broadcast use vstd::std_specs::hash::group_hash_axioms;

/// Why an authentication request was refused.
#[derive(Clone, Copy, Debug, PartialEq, Eq, Structural)]
pub enum Error {
    Error,
    /// The token is unknown.
    InvalidCredentials,
}

/// Model of the authenticator: the next token number, and the objects each
/// token gives access to.
pub struct AuthModel {
    pub counter: usize,
    pub perms: Map<Seq<char>, Set<u128>>,
}

/// Tokens and the objects they give access to, held in memory.
pub struct LocalAuthenticator {
    counter: usize,
    map: StringHashMap<HashSet<u128>>,
}

impl View for LocalAuthenticator {
    type V = AuthModel;

    closed spec fn view(&self) -> AuthModel {
        AuthModel { counter: self.counter, perms: self.map@.map_values(|s: HashSet<u128>| s@) }
    }
}

/// A copy of a set of identifiers.
fn copy_set(s: &HashSet<u128>) -> (r: HashSet<u128>)
    ensures
        r@ == s@,
{
    let mut r: HashSet<u128> = HashSet::new();
    let ghost all = spec_hash_keys_iter(s).remaining().unref();
    for x in it: s.iter()
        invariant
            it.seq().unref() == all,
            all.to_set() == s@,
            r@ == all.take(it.index() as int).to_set(),
    {
        let ghost prev = all.take(it.index() as int);
        let ghost next = all.take(it.index() + 1);
        r.insert(*x);
        proof {
            assert(next == prev.push(all[it.index() as int]));
            assert(*x == all[it.index() as int]);
            assert forall|y: u128| next.to_set().contains(y) <==> (prev.to_set().contains(y) || y == *x) by {
                if next.contains(y) && !prev.contains(y) {
                    let k = choose|k: int| 0 <= k < next.len() && next[k] == y;
                    if k < prev.len() {
                        assert(prev[k] == y);
                    }
                }
                if prev.contains(y) {
                    let k = choose|k: int| 0 <= k < prev.len() && prev[k] == y;
                    assert(next[k] == y);
                }
                if y == *x {
                    assert(next[prev.len() as int] == y);
                }
            }
            assert(r@ =~= next.to_set());
        }
    }
    proof {
        assert(all.take(all.len() as int) == all);
    }
    r
}

impl LocalAuthenticator {
    /// An authenticator without tokens.
    pub fn new() -> (r: LocalAuthenticator)
        ensures
            r@.counter == 0,
            r@.perms == Map::<Seq<char>, Set<u128>>::empty(),
    {
        let r = LocalAuthenticator { counter: 0, map: StringHashMap::new() };
        proof {
            assert(r@.perms =~= Map::<Seq<char>, Set<u128>>::empty());
        }
        r
    }

    /// Creates a token that gives access to nothing yet, and returns it: the
    /// decimal text of the counter, which then moves on by one.
    pub fn new_token(&mut self) -> (r: String)
        ensures
            r@ == spec_decimal(old(self)@.counter as nat),
            final(self)@.counter == if old(self)@.counter == usize::MAX {
                0
            } else {
                old(self)@.counter + 1
            },
            final(self)@.perms == old(self)@.perms.insert(r@, Set::<u128>::empty()),
    {
        let id = self.counter;
        self.counter = self.counter.wrapping_add(1);
        let token = decimal_string(id as u64);
        let key = token.clone();
        let ghost before = self.map@;
        self.map.insert(key, HashSet::new());
        proof {
            assert(self@.perms =~= before.map_values(|s: HashSet<u128>| s@).insert(
                token@,
                Set::<u128>::empty(),
            ));
        }
        token
    }

    /// Deletes a token.
    pub fn delete_token(&mut self, token: &str) -> (r: Result<(), Error>)
        ensures
            match r {
                Ok(()) => old(self)@.perms.contains_key(token@) && final(self)@ == (AuthModel {
                    perms: old(self)@.perms.remove(token@),
                    ..old(self)@
                }),
                Err(e) => e == Error::InvalidCredentials && !old(self)@.perms.contains_key(token@)
                    && final(self)@ == old(self)@,
            },
    {
        if self.map.contains_key(token) {
            self.map.remove(token);
            proof {
                assert(self@.perms =~= old(self)@.perms.remove(token@));
            }
            Ok(())
        } else {
            Err(Error::InvalidCredentials)
        }
    }

    /// Gives a token access to an object.
    pub fn add(&mut self, token: &str, obj: u128) -> (r: Result<(), Error>)
        ensures
            match r {
                Ok(()) => old(self)@.perms.contains_key(token@) && final(self)@ == (AuthModel {
                    perms: old(self)@.perms.insert(token@, old(self)@.perms[token@].insert(obj)),
                    ..old(self)@
                }),
                Err(e) => e == Error::InvalidCredentials && !old(self)@.perms.contains_key(token@)
                    && final(self)@ == old(self)@,
            },
    {
        let mut set = match self.map.get(token) {
            Some(s) => copy_set(s),
            None => {
                return Err(Error::InvalidCredentials);
            },
        };
        set.insert(obj);
        let ghost before = self.map@;
        self.map.insert(String::from_str(token), set);
        proof {
            assert(self@.perms =~= old(self)@.perms.insert(
                token@,
                old(self)@.perms[token@].insert(obj),
            ));
        }
        Ok(())
    }

    /// Takes from a token the access to an object, and tells whether it had it.
    pub fn remove(&mut self, token: &str, obj: u128) -> (r: Result<bool, Error>)
        ensures
            match r {
                Ok(had) => {
                    &&& old(self)@.perms.contains_key(token@)
                    &&& had == old(self)@.perms[token@].contains(obj)
                    &&& final(self)@ == (AuthModel {
                        perms: old(self)@.perms.insert(token@, old(self)@.perms[token@].remove(obj)),
                        ..old(self)@
                    })
                },
                Err(e) => e == Error::InvalidCredentials && !old(self)@.perms.contains_key(token@)
                    && final(self)@ == old(self)@,
            },
    {
        let mut set = match self.map.get(token) {
            Some(s) => copy_set(s),
            None => {
                return Err(Error::InvalidCredentials);
            },
        };
        let had = set.remove(&obj);
        self.map.insert(String::from_str(token), set);
        proof {
            assert(self@.perms =~= old(self)@.perms.insert(
                token@,
                old(self)@.perms[token@].remove(obj),
            ));
        }
        Ok(had)
    }

    /// The token was handed out and not deleted since.
    pub fn is_valid(&self, token: &str) -> (r: Result<bool, Error>)
        ensures
            r == Ok::<bool, Error>(self@.perms.contains_key(token@)),
    {
        Ok(self.map.contains_key(token))
    }

    /// The token gives access to the object; false for an unknown token.
    pub fn check(&self, token: &str, obj: u128) -> (r: Result<bool, Error>)
        ensures
            r == Ok::<bool, Error>(self@.perms.contains_key(token@) && self@.perms[token@].contains(obj)),
    {
        match self.map.get(token) {
            Some(s) => Ok(s.contains(&obj)),
            None => Ok(false),
        }
    }
}

proof fn lemma_decimal_len(n: nat)
    ensures
        spec_decimal(n).len() >= 1,
        n >= 10 ==> spec_decimal(n).len() >= 2,
    decreases n,
{
    if n >= 10 {
        lemma_decimal_len(n / 10);
    }
}

/// Different numbers have different decimal texts, so every token the counter
/// gives before it wraps around is new.
pub proof fn law_decimal_is_injective(a: nat, b: nat)
    requires
        spec_decimal(a) == spec_decimal(b),
    ensures
        a == b,
    decreases a,
{
    lemma_decimal_len(a);
    lemma_decimal_len(b);
    if a < 10 && b < 10 {
        assert(spec_decimal(a)[0] == digit_char(a));
        assert(spec_decimal(b)[0] == digit_char(b));
    } else if a >= 10 && b >= 10 {
        let da = spec_decimal(a);
        assert(da.last() == digit_char(a % 10));
        assert(spec_decimal(b).last() == digit_char(b % 10));
        assert(da.drop_last() == spec_decimal(a / 10));
        assert(spec_decimal(b).drop_last() == spec_decimal(b / 10));
        law_decimal_is_injective(a / 10, b / 10);
    }
}

/// A token that was deleted gives access to nothing; an object added to a
/// token is accessible through it until it is removed.
pub proof fn law_token_permissions(m: Map<Seq<char>, Set<u128>>, token: Seq<char>, obj: u128)
    requires
        m.contains_key(token),
    ensures
        ({
            let added = m.insert(token, m[token].insert(obj));
            let removed = added.insert(token, added[token].remove(obj));
            &&& added[token].contains(obj)
            &&& !removed[token].contains(obj)
            &&& !m.remove(token).contains_key(token)
        }),
{
}

} // verus!
