//! A store that hands out a token for each item put in; the item is taken out
//! again with its token. Meant for data kept with a request until its
//! response comes in.
use crate::unique_key::UniqueKey;
use std::collections::HashMap;
use vstd::prelude::*;

verus! {

broadcast use vstd::std_specs::hash::group_hash_axioms;

/// The token for an item: its number, and the map that handed it out.
/// Tokens are neither `Clone` nor `Copy`: a token is passed along, stored and
/// finally returned, never copied.
#[derive(Debug)]
pub struct Token(u64, UniqueKey);

impl Token {
    /// The number of the token.
    pub closed spec fn number(&self) -> u64 {
        self.0
    }

    /// The map that handed out the token.
    pub closed spec fn owner(&self) -> UniqueKey {
        self.1
    }
}

/// The items of a token map, by token number, and the number the next token
/// gets.
pub struct TokenMap<T> {
    token_id: UniqueKey,
    next_token: u64,
    map: HashMap<u64, T>,
}

impl<T> TokenMap<T> {
    /// The items held, by token number.
    pub closed spec fn items(&self) -> Map<u64, T> {
        self.map@
    }

    /// The identity tokens of this map carry.
    pub closed spec fn owner(&self) -> UniqueKey {
        self.token_id
    }

    /// The number the next token gets.
    pub closed spec fn next_number(&self) -> u64 {
        self.next_token
    }

    /// Every item held has a number below the next one.
    pub closed spec fn wf(&self) -> bool {
        forall|k: u64| #[trigger] self.map@.contains_key(k) ==> k < self.next_token
    }

    /// An empty map.
    pub fn new() -> (r: TokenMap<T>)
        ensures
            r.wf(),
            r.items() == Map::<u64, T>::empty(),
            r.next_number() == 0,
    {
        TokenMap { token_id: UniqueKey::new(), next_token: 0, map: HashMap::new() }
    }

    /// Stores `item` and returns its token, numbered by the next free number.
    pub fn insert(&mut self, item: T) -> (r: Token)
        requires
            old(self).wf(),
            old(self).next_number() < u64::MAX,
        ensures
            final(self).wf(),
            r.owner() == old(self).owner(),
            final(self).owner() == old(self).owner(),
            r.number() == old(self).next_number(),
            !old(self).items().contains_key(r.number()),
            final(self).items() == old(self).items().insert(r.number(), item),
            final(self).next_number() == old(self).next_number() + 1,
    {
        let mut token = self.next_token;
        while self.map.contains_key(&token)
            invariant
                self.wf(),
                self.next_token == token,
                self.map@ == old(self).map@,
                self.next_token == old(self).next_token,
                self.token_id == old(self).token_id,
                old(self).next_token < u64::MAX,
            decreases u64::MAX - token,
        {
            // Every number in use is below the next one, so this is never reached.
            assert(self.map@.contains_key(token) && token < self.next_token);
            token += 1;
        }
        self.next_token = token + 1;
        self.map.insert(token, item);
        Token(token, self.token_id)
    }

    /// Takes the item of `token` out, if it is still there.
    pub fn remove(&mut self, token: Token) -> (r: Option<T>)
        requires
            old(self).wf(),
            token.owner() == old(self).owner(),
        ensures
            final(self).wf(),
            final(self).owner() == old(self).owner(),
            final(self).next_number() == old(self).next_number(),
            final(self).items() == old(self).items().remove(token.number()),
            match r {
                Some(v) => old(self).items().contains_key(token.number()) && v == old(self).items()[token.number()],
                None => !old(self).items().contains_key(token.number()),
            },
    {
        self.map.remove(&token.0)
    }
}

/// A token map hands out each number at most once while the item is held:
/// after `insert`, removing with the token gives the item back.
pub proof fn lemma_insert_then_remove<T>(m: Map<u64, T>, k: u64, item: T)
    requires
        !m.contains_key(k),
    ensures
        m.insert(k, item).remove(k) == m,
        m.insert(k, item)[k] == item,
{
    assert(m.insert(k, item).remove(k) =~= m);
}

/// A call on a token map: storing an item, or removing with a token number.
pub enum TokenOp<T> {
    Insert(T),
    Remove(u64),
}

/// The items and the next number after a sequence of calls, as `insert`
/// and `remove` state them.
pub open spec fn apply_token_ops<T>(items: Map<u64, T>, next: u64, ops: Seq<TokenOp<T>>) -> (Map<u64, T>, u64)
    decreases ops.len(),
{
    if ops.len() == 0 {
        (items, next)
    } else {
        match ops[0] {
            TokenOp::Insert(t) => apply_token_ops(items.insert(next, t), (next + 1) as u64, ops.drop_first()),
            TokenOp::Remove(n) => apply_token_ops(items.remove(n), next, ops.drop_first()),
        }
    }
}

/// An item stays in a token map under its number through any calls that do
/// not remove it: later insertions get other numbers.
pub proof fn lemma_item_kept<T>(items: Map<u64, T>, next: u64, ops: Seq<TokenOp<T>>, k: u64)
    requires
        forall|n: u64| #[trigger] items.contains_key(n) ==> n < next,
        items.contains_key(k),
        next + ops.len() < u64::MAX,
        forall|i: int| 0 <= i < ops.len() ==> #[trigger] ops[i] != TokenOp::<T>::Remove(k),
    ensures
        apply_token_ops(items, next, ops).0.contains_key(k),
        apply_token_ops(items, next, ops).0[k] == items[k],
    decreases ops.len(),
{
    if ops.len() > 0 {
        let rest = ops.drop_first();
        assert forall|i: int| 0 <= i < rest.len() implies #[trigger] rest[i] != TokenOp::<T>::Remove(k) by {
            assert(rest[i] == ops[i + 1]);
        }
        assert(ops[0] != TokenOp::<T>::Remove(k));
        match ops[0] {
            TokenOp::Insert(t) => {
                let m = items.insert(next, t);
                assert forall|n: u64| #[trigger] m.contains_key(n) implies n < (next + 1) as u64 by {
                    if n != next {
                        assert(items.contains_key(n));
                    }
                }
                lemma_item_kept(m, (next + 1) as u64, rest, k);
            },
            TokenOp::Remove(n) => {
                lemma_item_kept(items.remove(n), next, rest, k);
            },
        }
    }
}

} // verus!
