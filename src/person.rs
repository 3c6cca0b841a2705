use vstd::prelude::*;

use crate::post::clone_opt_string;
use crate::post::clone_strings;

verus! {

/// A member of the social graph: a profile, an inbox of friend requests
/// (requester and optional message, in order of arrival, one per requester)
/// and the set of confirmed friends.
#[derive(Debug)]
pub struct Person {
    pub account: String,
    pub text: Option<String>,
    pub cid: Option<String>,
    pub created_timestamp: u64,
    pub friend_requests: Vec<(String, Option<String>)>,
    pub friends: Vec<String>,
}

/// A person as the queries hand it out.
#[derive(Debug)]
pub struct JsonPerson {
    pub account: String,
    pub text: Option<String>,
    pub cid: Option<String>,
    pub created_timestamp: u64,
    pub friends: Vec<String>,
}

/// A pending friend request as the queries hand it out.
#[derive(Debug)]
pub struct JsonFriendRequest {
    pub account: String,
    pub message: Option<String>,
}

/// No requester occurs twice in `rs`.
pub open spec fn requests_unique(rs: Seq<(String, Option<String>)>) -> bool {
    forall|i: int, j: int|
        0 <= i < rs.len() && 0 <= j < rs.len() && i != j ==> rs[i].0@ != rs[j].0@
}

/// `from` has a request pending in `rs`.
pub open spec fn has_request(rs: Seq<(String, Option<String>)>, from: Seq<char>) -> bool {
    exists|i: int| 0 <= i < rs.len() && rs[i].0@ == from
}

/// No account occurs twice in `fs`.
pub open spec fn accounts_unique(fs: Seq<String>) -> bool {
    forall|i: int, j: int| 0 <= i < fs.len() && 0 <= j < fs.len() && i != j ==> fs[i]@ != fs[j]@
}

/// `who` occurs in `fs`.
pub open spec fn has_account(fs: Seq<String>, who: Seq<char>) -> bool {
    exists|i: int| 0 <= i < fs.len() && fs[i]@ == who
}

/// `fs` with `who` added last, unless it is there already.
pub open spec fn with_account(fs: Seq<String>, who: String) -> Seq<String> {
    if has_account(fs, who@) {
        fs
    } else {
        fs.push(who)
    }
}

/// `after` is `before` with `from`'s request, if any, taken out; the others
/// keep their order.
pub open spec fn request_removed(
    before: Seq<(String, Option<String>)>,
    after: Seq<(String, Option<String>)>,
    from: Seq<char>,
) -> bool {
    &&& forall|i: int| 0 <= i < before.len() && before[i].0@ == from ==> after == before.remove(i)
    &&& !has_request(before, from) ==> after == before
}

/// `after` is `before` once `from` has asked with `message`: an earlier request
/// of `from` gets the new message where it stands, otherwise the request goes last.
pub open spec fn request_put(
    before: Seq<(String, Option<String>)>,
    after: Seq<(String, Option<String>)>,
    from: String,
    message: Option<String>,
) -> bool {
    &&& forall|i: int|
        0 <= i < before.len() && before[i].0@ == from@ ==> after == before.update(
            i,
            (before[i].0, message),
        )
    &&& !has_request(before, from@) ==> after == before.push((from, message))
}

/// `j` shows `p`.
pub open spec fn shows_person(j: JsonPerson, p: Person) -> bool {
    &&& j.account == p.account
    &&& j.text == p.text
    &&& j.cid == p.cid
    &&& j.created_timestamp == p.created_timestamp
    &&& j.friends@ == p.friends@
}

/// `a` and `b` are the same account, created at the same time.
pub open spec fn same_identity(a: Person, b: Person) -> bool {
    a.account == b.account && a.created_timestamp == b.created_timestamp
}

/// The position of `from`'s request in `rs`, if there is one.
pub fn find_request(rs: &Vec<(String, Option<String>)>, from: &String) -> (r: Option<usize>)
    ensures
        match r {
            Some(i) => i < rs@.len() && rs@[i as int].0@ == from@,
            None => !has_request(rs@, from@),
        },
{
    let mut i: usize = 0;
    while i < rs.len()
        invariant
            i <= rs@.len(),
            forall|k: int| 0 <= k < i ==> rs@[k].0@ != from@,
        decreases rs@.len() - i,
    {
        if rs[i].0 == *from {
            return Some(i);
        }
        i += 1;
    }
    None
}

/// Whether `who` occurs in `fs`.
pub fn contains_account(fs: &Vec<String>, who: &String) -> (r: bool)
    ensures
        r == has_account(fs@, who@),
{
    let mut i: usize = 0;
    while i < fs.len()
        invariant
            i <= fs@.len(),
            forall|k: int| 0 <= k < i ==> fs@[k]@ != who@,
        decreases fs@.len() - i,
    {
        if fs[i] == *who {
            return true;
        }
        i += 1;
    }
    false
}

impl Person {
    /// A new person, created at `now`, with no requests and no friends.
    pub fn new(account: String, now: u64, text: Option<String>, cid: Option<String>) -> (r: Person)
        ensures
            r.wf(),
            r.account == account,
            r.text == text,
            r.cid == cid,
            r.created_timestamp == now,
            r.friend_requests@.len() == 0,
            r.friends@.len() == 0,
    {
        Person {
            account,
            text,
            cid,
            created_timestamp: now,
            friend_requests: Vec::new(),
            friends: Vec::new(),
        }
    }

    pub open spec fn wf(&self) -> bool {
        requests_unique(self.friend_requests@) && accounts_unique(self.friends@)
    }

    pub fn to_json_person(&self) -> (r: JsonPerson)
        ensures
            shows_person(r, *self),
    {
        JsonPerson {
            account: self.account.clone(),
            text: clone_opt_string(&self.text),
            cid: clone_opt_string(&self.cid),
            created_timestamp: self.created_timestamp,
            friends: clone_strings(&self.friends),
        }
    }

    /// Records a request from `from` with `message`, replacing an earlier one.
    pub fn put_request(&mut self, from: &String, message: Option<String>)
        requires
            old(self).wf(),
        ensures
            final(self).wf(),
            same_identity(*old(self), *final(self)),
            final(self).text == old(self).text,
            final(self).cid == old(self).cid,
            final(self).friends == old(self).friends,
            request_put(old(self).friend_requests@, final(self).friend_requests@, *from, message),
    {
        match find_request(&self.friend_requests, from) {
            Some(i) => {
                self.friend_requests[i].1 = message;
                assert(forall|k: int|
                    0 <= k < self.friend_requests@.len() && k != i ==> self.friend_requests@[k].0@
                        != from@);
            },
            None => {
                self.friend_requests.push((from.clone(), message));
            },
        }
    }

    /// Drops the request from `from`, where there is one.
    pub fn remove_request(&mut self, from: &String)
        requires
            old(self).wf(),
        ensures
            final(self).wf(),
            same_identity(*old(self), *final(self)),
            final(self).text == old(self).text,
            final(self).cid == old(self).cid,
            final(self).friends == old(self).friends,
            request_removed(old(self).friend_requests@, final(self).friend_requests@, from@),
    {
        match find_request(&self.friend_requests, from) {
            Some(i) => {
                let ghost before = self.friend_requests@;
                self.friend_requests.remove(i);
                assert(forall|k: int|
                    0 <= k < before.len() && k != i ==> before[k].0@ != from@);
                assert(forall|k: int|
                    0 <= k < self.friend_requests@.len() ==> #[trigger] self.friend_requests@[k]
                        == before[if k < i {
                        k
                    } else {
                        k + 1
                    }]);
            },
            None => {},
        }
    }

    /// Adds `who` to the friends, unless it is there already.
    pub fn add_friend(&mut self, who: &String)
        requires
            old(self).wf(),
        ensures
            final(self).wf(),
            same_identity(*old(self), *final(self)),
            final(self).text == old(self).text,
            final(self).cid == old(self).cid,
            final(self).friend_requests == old(self).friend_requests,
            final(self).friends@ == with_account(old(self).friends@, *who),
    {
        if !contains_account(&self.friends, who) {
            self.friends.push(who.clone());
        }
    }
}

} // verus!
