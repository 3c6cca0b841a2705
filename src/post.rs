use vstd::prelude::*;

use crate::fees::decimal;
use crate::fees::decimal_string;

verus! {

/// The kind of reaction an account leaves on a post.
#[derive(PartialEq, Eq, Structural, Clone, Copy, Debug)]
pub enum Reaction {
    Like,
    Dislike,
    Flag,
}

/// One account's reaction on a post, and when it was left.
#[derive(Debug)]
pub struct AccountReaction {
    pub reaction: Reaction,
    pub created_timestamp: u64,
    pub account: String,
}

/// An advertisement that a post may carry.
#[derive(Debug)]
pub struct Ad {
    pub text: String,
    pub url: String,
    pub account: String,
}

/// A message in a thread. `reactions` holds at most one entry per account,
/// in the order in which the accounts first reacted.
#[derive(Debug)]
pub struct Post {
    pub id: String,
    pub text: String,
    pub tags: Vec<String>,
    pub account: String,
    pub cid: Option<String>,
    pub ad: Option<Ad>,
    pub created_timestamp: u64,
    pub reactions: Vec<AccountReaction>,
}

/// A post as the queries hand it out: its reactions as a list.
#[derive(Debug)]
pub struct JsonPost {
    pub id: String,
    pub text: String,
    pub tags: Vec<String>,
    pub account: String,
    pub cid: Option<String>,
    pub ad: Option<Ad>,
    pub created_timestamp: u64,
    pub reactions: Vec<AccountReaction>,
}

/// No two reactions in `rs` belong to the same account.
pub open spec fn reactions_unique(rs: Seq<AccountReaction>) -> bool {
    forall|i: int, j: int|
        0 <= i < rs.len() && 0 <= j < rs.len() && i != j ==> rs[i].account@ != rs[j].account@
}

/// Some reaction in `rs` belongs to `account`.
pub open spec fn has_reaction(rs: Seq<AccountReaction>, account: Seq<char>) -> bool {
    exists|i: int| 0 <= i < rs.len() && rs[i].account@ == account
}

/// The id of a post that `account` writes at time `ts`.
pub open spec fn post_id(account: Seq<char>, ts: nat) -> Seq<char> {
    account + seq!['-'] + decimal(ts)
}

/// `r` is a reaction of kind `kind` left by `account` at time `now`.
pub open spec fn is_reaction(r: AccountReaction, account: Seq<char>, kind: Reaction, now: u64) -> bool {
    r.account@ == account && r.reaction == kind && r.created_timestamp == now
}

/// `a` and `b` agree in everything but their reactions.
pub open spec fn same_but_reactions(a: Post, b: Post) -> bool {
    &&& a.id == b.id
    &&& a.text == b.text
    &&& a.tags == b.tags
    &&& a.account == b.account
    &&& a.cid == b.cid
    &&& a.ad == b.ad
    &&& a.created_timestamp == b.created_timestamp
}

/// `after` is `before` once `account` has reacted with `kind` at `now`: an
/// earlier reaction of that account is replaced where it stood, otherwise the
/// new one is added last.
pub open spec fn reacted(before: Post, after: Post, account: Seq<char>, kind: Reaction, now: u64) -> bool {
    let old_rs = before.reactions@;
    let new_rs = after.reactions@;
    &&& same_but_reactions(before, after)
    &&& forall|i: int|
        0 <= i < old_rs.len() && old_rs[i].account@ == account ==> {
            &&& new_rs.len() == old_rs.len()
            &&& is_reaction(new_rs[i], account, kind, now)
            &&& forall|k: int| 0 <= k < old_rs.len() && k != i ==> new_rs[k] == old_rs[k]
        }
    &&& !has_reaction(old_rs, account) ==> {
        &&& new_rs.len() == old_rs.len() + 1
        &&& new_rs.subrange(0, old_rs.len() as int) == old_rs
        &&& is_reaction(new_rs.last(), account, kind, now)
    }
}

/// `j` shows `p`: the same fields, no ad, and the reactions in the post's order.
pub open spec fn shows_post(j: JsonPost, p: Post) -> bool {
    &&& j.id == p.id
    &&& j.text == p.text
    &&& j.tags@ == p.tags@
    &&& j.account == p.account
    &&& j.cid == p.cid
    &&& j.ad is None
    &&& j.created_timestamp == p.created_timestamp
    &&& j.reactions@ == p.reactions@
}

/// Relies on `String + &str` (`Add` for `String`): the characters of `b`
/// after those of `a`.
#[verifier::external_body]
pub(crate) fn concat(a: String, b: &str) -> (r: String)
    ensures
        r@ == a@ + b@,
{
    a + b
}

/// The id of a post by `account` at time `ts`: the account, a dash, and the
/// time in decimal.
pub fn make_post_id(account: &String, ts: u64) -> (r: String)
    ensures
        r@ == post_id(account@, ts as nat),
{
    proof {
        reveal_strlit("-");
    }
    let with_dash = concat(account.clone(), "-");
    let digits = decimal_string(ts as u128);
    concat(with_dash, digits.as_str())
}

pub fn clone_opt_string(o: &Option<String>) -> (r: Option<String>)
    ensures
        r == *o,
{
    match o {
        Some(s) => Some(s.clone()),
        None => None,
    }
}

pub fn clone_strings(v: &Vec<String>) -> (r: Vec<String>)
    ensures
        r@ == v@,
{
    let mut r: Vec<String> = Vec::new();
    let mut i: usize = 0;
    while i < v.len()
        invariant
            i <= v@.len(),
            r@ == v@.subrange(0, i as int),
        decreases v@.len() - i,
    {
        r.push(v[i].clone());
        i += 1;
    }
    assert(r@ =~= v@);
    r
}

impl AccountReaction {
    pub fn copy(&self) -> (r: AccountReaction)
        ensures
            r == *self,
    {
        AccountReaction {
            reaction: self.reaction,
            created_timestamp: self.created_timestamp,
            account: self.account.clone(),
        }
    }
}

pub fn clone_reactions(v: &Vec<AccountReaction>) -> (r: Vec<AccountReaction>)
    ensures
        r@ == v@,
{
    let mut r: Vec<AccountReaction> = Vec::new();
    let mut i: usize = 0;
    while i < v.len()
        invariant
            i <= v@.len(),
            r@ == v@.subrange(0, i as int),
        decreases v@.len() - i,
    {
        r.push(v[i].copy());
        i += 1;
    }
    assert(r@ =~= v@);
    r
}

/// The position of `account`'s reaction in `rs`, if it has one.
pub fn find_reaction(rs: &Vec<AccountReaction>, account: &String) -> (r: Option<usize>)
    ensures
        match r {
            Some(i) => i < rs@.len() && rs@[i as int].account@ == account@,
            None => !has_reaction(rs@, account@),
        },
{
    let mut i: usize = 0;
    while i < rs.len()
        invariant
            i <= rs@.len(),
            forall|k: int| 0 <= k < i ==> rs@[k].account@ != account@,
        decreases rs@.len() - i,
    {
        if rs[i].account == *account {
            return Some(i);
        }
        i += 1;
    }
    None
}

impl Post {
    /// A fresh post by `account` at time `now`: no tags, no ad, no reactions.
    pub fn new(account: String, now: u64, text: String, cid: Option<String>) -> (r: Post)
        ensures
            r.id@ == post_id(account@, now as nat),
            r.account == account,
            r.text == text,
            r.cid == cid,
            r.created_timestamp == now,
            r.tags@.len() == 0,
            r.ad is None,
            r.reactions@.len() == 0,
    {
        let id = make_post_id(&account, now);
        Post {
            id,
            text,
            tags: Vec::new(),
            account,
            cid,
            ad: None,
            created_timestamp: now,
            reactions: Vec::new(),
        }
    }

    pub open spec fn wf(&self) -> bool {
        reactions_unique(self.reactions@)
    }

    pub fn to_json_post(&self) -> (r: JsonPost)
        ensures
            shows_post(r, *self),
    {
        JsonPost {
            id: self.id.clone(),
            text: self.text.clone(),
            tags: clone_strings(&self.tags),
            account: self.account.clone(),
            cid: clone_opt_string(&self.cid),
            ad: None,
            created_timestamp: self.created_timestamp,
            reactions: clone_reactions(&self.reactions),
        }
    }

    /// Gives `account` the reaction `kind` at time `now`: its earlier reaction,
    /// if any, is replaced in place; otherwise the new one goes last.
    pub fn set_reaction(&mut self, account: &String, kind: Reaction, now: u64)
        requires
            old(self).wf(),
        ensures
            final(self).wf(),
            reacted(*old(self), *final(self), account@, kind, now),
    {
        let fresh = AccountReaction { reaction: kind, created_timestamp: now, account: account.clone() };
        match find_reaction(&self.reactions, account) {
            Some(i) => {
                self.reactions[i] = fresh;
                assert(forall|k: int|
                    0 <= k < self.reactions@.len() && k != i ==> self.reactions@[k].account@
                        != account@);
            },
            None => {
                self.reactions.push(fresh);
                assert(self.reactions@.subrange(0, self.reactions@.len() - 1) =~= old(
                    self,
                ).reactions@);
            },
        }
    }

    /// Takes away `account`'s reaction; `false`, with nothing changed, where
    /// it has none.
    pub fn remove_reaction(&mut self, account: &String) -> (r: bool)
        requires
            old(self).wf(),
        ensures
            final(self).wf(),
            r == has_reaction(old(self).reactions@, account@),
            same_but_reactions(*old(self), *final(self)),
            !r ==> final(self).reactions == old(self).reactions,
            r ==> exists|i: int|
                0 <= i < old(self).reactions@.len() && old(self).reactions@[i].account@ == account@
                    && final(self).reactions@ == old(self).reactions@.remove(i),
            !has_reaction(final(self).reactions@, account@),
    {
        match find_reaction(&self.reactions, account) {
            Some(i) => {
                let ghost before = self.reactions@;
                self.reactions.remove(i);
                assert(forall|k: int|
                    0 <= k < self.reactions@.len() ==> #[trigger] self.reactions@[k] == before[if k
                        < i {
                        k
                    } else {
                        k + 1
                    }]);
                true
            },
            None => false,
        }
    }
}

} // verus!
