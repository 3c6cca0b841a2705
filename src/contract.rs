use vstd::prelude::*;

use crate::error::ContractError;
use crate::fees::apply_fee;
use crate::fees::fee_outcome;
use crate::fees::Fees;
use crate::page::backward_index;
use crate::page::forward_index;
use crate::page::window;
use crate::page::window_len;
use crate::person::has_account;
use crate::person::request_put;
use crate::person::request_removed;
use crate::person::same_identity;
use crate::person::shows_person;
use crate::person::with_account;
use crate::person::JsonFriendRequest;
use crate::person::JsonPerson;
use crate::person::Person;
use crate::post::find_reaction;
use crate::post::has_reaction;
use crate::post::post_id;
use crate::post::reacted;
use crate::post::same_but_reactions;
use crate::post::shows_post;
use crate::post::JsonPost;
use crate::post::Post;
use crate::post::Reaction;

verus! {

/// Names of the stored collections.
#[derive(Clone, Copy, Debug, PartialEq, Eq, Structural)]
pub enum StorageKeys {
    Posts,
    Categories,
    AccountReactions,
    People,
}

/// A named thread and its posts, in order of insertion, one per id.
#[derive(Debug)]
pub struct Thread {
    pub name: String,
    pub posts: Vec<Post>,
}

/// A thread as the listing hands it out: its name and how many posts it holds.
#[derive(Debug)]
pub struct JsonThreadMetadata {
    pub name: String,
    pub size: u64,
}

/// The whole state: threads and people in order of insertion, the fees, and
/// the one account that may change fees and delete threads and posts.
#[derive(Debug)]
pub struct Contract {
    pub threads: Vec<Thread>,
    pub people: Vec<Person>,
    pub fees: Fees,
    pub operator: String,
}

/// The amount that each fee starts at.
pub const DEFAULT_FEE: u128 = 10_000_000_000_000_000_000_000;

/// Thread `i` of `ts` is named `name`.
pub open spec fn thread_at(ts: Seq<Thread>, name: Seq<char>, i: int) -> bool {
    0 <= i < ts.len() && ts[i].name@ == name
}

pub open spec fn has_thread(ts: Seq<Thread>, name: Seq<char>) -> bool {
    exists|i: int| thread_at(ts, name, i)
}

/// Post `i` of `ps` has id `id`.
pub open spec fn post_at(ps: Seq<Post>, id: Seq<char>, i: int) -> bool {
    0 <= i < ps.len() && ps[i].id@ == id
}

pub open spec fn has_post(ps: Seq<Post>, id: Seq<char>) -> bool {
    exists|i: int| post_at(ps, id, i)
}

/// Person `i` of `ps` is the account `account`.
pub open spec fn person_at(ps: Seq<Person>, account: Seq<char>, i: int) -> bool {
    0 <= i < ps.len() && ps[i].account@ == account
}

pub open spec fn has_person(ps: Seq<Person>, account: Seq<char>) -> bool {
    exists|i: int| person_at(ps, account, i)
}

impl Thread {
    pub open spec fn wf(&self) -> bool {
        &&& forall|i: int, j: int|
            0 <= i < self.posts@.len() && 0 <= j < self.posts@.len() && i != j
                ==> self.posts@[i].id@ != self.posts@[j].id@
        &&& forall|i: int| 0 <= i < self.posts@.len() ==> #[trigger] self.posts@[i].wf()
    }
}

impl Contract {
    /// Thread names are unique, post ids unique within a thread, accounts
    /// unique among people, and each thread, post and person well formed.
    pub open spec fn wf(&self) -> bool {
        &&& forall|i: int, j: int|
            0 <= i < self.threads@.len() && 0 <= j < self.threads@.len() && i != j
                ==> self.threads@[i].name@ != self.threads@[j].name@
        &&& forall|i: int| 0 <= i < self.threads@.len() ==> #[trigger] self.threads@[i].wf()
        &&& forall|i: int, j: int|
            0 <= i < self.people@.len() && 0 <= j < self.people@.len() && i != j
                ==> self.people@[i].account@ != self.people@[j].account@
        &&& forall|i: int| 0 <= i < self.people@.len() ==> #[trigger] self.people@[i].wf()
        &&& friends_known(self.people@)
        &&& friends_symmetric(self.people@)
    }

    /// Only `threads` may differ between `self` and `other`.
    pub open spec fn same_but_threads(&self, other: Contract) -> bool {
        self.people == other.people && self.fees == other.fees && self.operator == other.operator
    }

    /// Only `people` may differ between `self` and `other`.
    pub open spec fn same_but_people(&self, other: Contract) -> bool {
        self.threads == other.threads && self.fees == other.fees && self.operator == other.operator
    }
}

/// Every friend of every person is itself a person.
pub open spec fn friends_known(ps: Seq<Person>) -> bool {
    forall|i: int, k: int|
        0 <= i < ps.len() && 0 <= k < ps[i].friends@.len() ==> has_person(
            ps,
            #[trigger] ps[i].friends@[k]@,
        )
}

/// Friendship goes both ways: `j` is among `i`'s friends exactly when `i` is
/// among `j`'s.
pub open spec fn friends_symmetric(ps: Seq<Person>) -> bool {
    forall|i: int, j: int|
        0 <= i < ps.len() && 0 <= j < ps.len() && #[trigger] has_account(
            ps[i].friends@,
            ps[j].account@,
        ) ==> has_account(ps[j].friends@, ps[i].account@)
}

/// `after` is `before` with thread `i` replaced by one of the same name.
pub open spec fn threads_but(before: Seq<Thread>, after: Seq<Thread>, i: int) -> bool {
    &&& after.len() == before.len()
    &&& after[i].name == before[i].name
    &&& forall|k: int| 0 <= k < before.len() && k != i ==> after[k] == before[k]
}

/// `after` is `before` with post `j` replaced by one of the same id.
pub open spec fn posts_but(before: Seq<Post>, after: Seq<Post>, j: int) -> bool {
    &&& after.len() == before.len()
    &&& forall|k: int| 0 <= k < before.len() && k != j ==> after[k] == before[k]
}

/// `after` is `before` with person `i` replaced by one of the same identity.
pub open spec fn people_but(
    before: Seq<Person>,
    after: Seq<Person>,
    i: int,
) -> bool {
    &&& after.len() == before.len()
    &&& same_identity(before[i], after[i])
    &&& forall|k: int| 0 <= k < before.len() && k != i ==> after[k] == before[k]
}

/// The position of the thread named `name`, if there is one.
pub fn find_thread(ts: &Vec<Thread>, name: &String) -> (r: Option<usize>)
    ensures
        match r {
            Some(i) => thread_at(ts@, name@, i as int),
            None => !has_thread(ts@, name@),
        },
{
    let mut i: usize = 0;
    while i < ts.len()
        invariant
            i <= ts@.len(),
            forall|k: int| 0 <= k < i ==> ts@[k].name@ != name@,
        decreases ts@.len() - i,
    {
        if ts[i].name == *name {
            return Some(i);
        }
        i += 1;
    }
    None
}

/// The position of the post with id `id`, if there is one.
pub fn find_post(ps: &Vec<Post>, id: &String) -> (r: Option<usize>)
    ensures
        match r {
            Some(i) => post_at(ps@, id@, i as int),
            None => !has_post(ps@, id@),
        },
{
    let mut i: usize = 0;
    while i < ps.len()
        invariant
            i <= ps@.len(),
            forall|k: int| 0 <= k < i ==> ps@[k].id@ != id@,
        decreases ps@.len() - i,
    {
        if ps[i].id == *id {
            return Some(i);
        }
        i += 1;
    }
    None
}

/// The position of the person `account`, if there is one.
pub fn find_person(ps: &Vec<Person>, account: &String) -> (r: Option<usize>)
    ensures
        match r {
            Some(i) => person_at(ps@, account@, i as int),
            None => !has_person(ps@, account@),
        },
{
    let mut i: usize = 0;
    while i < ps.len()
        invariant
            i <= ps@.len(),
            forall|k: int| 0 <= k < i ==> ps@[k].account@ != account@,
        decreases ps@.len() - i,
    {
        if ps[i].account == *account {
            return Some(i);
        }
        i += 1;
    }
    None
}

impl Contract {
    /// An empty store run by `operator`, with every fee at its default.
    pub fn new(operator: String) -> (r: Contract)
        ensures
            r.wf(),
            r.threads@.len() == 0,
            r.people@.len() == 0,
            r.fees == (Fees {
                post_fee: DEFAULT_FEE,
                thread_fee: DEFAULT_FEE,
                profile_fee: DEFAULT_FEE,
                friend_fee: DEFAULT_FEE,
            }),
            r.operator == operator,
    {
        Contract {
            threads: Vec::new(),
            people: Vec::new(),
            fees: Fees {
                post_fee: DEFAULT_FEE,
                thread_fee: DEFAULT_FEE,
                profile_fee: DEFAULT_FEE,
                friend_fee: DEFAULT_FEE,
            },
            operator,
        }
    }

    /// Replaces all four fees; only the operator may.
    pub fn set_fees(&mut self, caller: &String, fees: Fees) -> (r: Result<(), ContractError>)
        ensures
            caller@ != old(self).operator@ ==> r == Err::<(), _>(ContractError::Unauthorized)
                && *final(self) == *old(self),
            caller@ == old(self).operator@ ==> r is Ok && final(self).fees == fees
                && final(self).threads == old(self).threads && final(self).people == old(self).people && final(self).operator == old(self).operator,
    {
        if *caller != self.operator {
            return Err(ContractError::Unauthorized);
        }
        self.fees = fees;
        Ok(())
    }

    /// Removes the thread `thread_name` and its posts; only the operator may.
    /// A thread that does not exist is left absent, with success.
    pub fn delete_thread(&mut self, caller: &String, thread_name: &String) -> (r: Result<
        (),
        ContractError,
    >)
        requires
            old(self).wf(),
        ensures
            final(self).wf(),
            caller@ != old(self).operator@ ==> r == Err::<(), _>(ContractError::Unauthorized)
                && *final(self) == *old(self),
            caller@ == old(self).operator@ ==> {
                &&& r is Ok
                &&& final(self).same_but_threads(*old(self))
                &&& forall|i: int|
                    thread_at(old(self).threads@, thread_name@, i) ==> final(self).threads@ == old(self).threads@.remove(i)
                &&& !has_thread(old(self).threads@, thread_name@) ==> final(self).threads
                    == old(self).threads
            },
    {
        if *caller != self.operator {
            return Err(ContractError::Unauthorized);
        }
        match find_thread(&self.threads, thread_name) {
            Some(i) => {
                let ghost before = self.threads@;
                self.threads.remove(i);
                assert(forall|k: int|
                    0 <= k < self.threads@.len() ==> #[trigger] self.threads@[k] == before[if k
                        < i {
                        k
                    } else {
                        k + 1
                    }]);
            },
            None => {},
        }
        Ok(())
    }

    /// Removes the post `post_id` from the thread `thread_name`; only the
    /// operator may. The thread must exist; a post that does not is left absent.
    pub fn delete_post(&mut self, caller: &String, thread_name: &String, post_id: &String) -> (r:
        Result<(), ContractError>)
        requires
            old(self).wf(),
        ensures
            final(self).wf(),
            caller@ != old(self).operator@ ==> r == Err::<(), _>(ContractError::Unauthorized)
                && *final(self) == *old(self),
            caller@ == old(self).operator@ && !has_thread(old(self).threads@, thread_name@) ==> r
                == Err::<(), _>(ContractError::NotFound) && *final(self) == *old(self),
            caller@ == old(self).operator@ && has_thread(old(self).threads@, thread_name@) ==> {
                &&& r is Ok
                &&& final(self).same_but_threads(*old(self))
                &&& forall|i: int|
                    thread_at(old(self).threads@, thread_name@, i) ==> {
                        let before = old(self).threads@[i].posts@;
                        let after = final(self).threads@[i].posts@;
                        &&& threads_but(old(self).threads@, final(self).threads@, i)
                        &&& forall|j: int| post_at(before, post_id@, j) ==> after == before.remove(j)
                        &&& !has_post(before, post_id@) ==> after == before
                    }
            },
    {
        if *caller != self.operator {
            return Err(ContractError::Unauthorized);
        }
        match find_thread(&self.threads, thread_name) {
            Some(i) => {
                match find_post(&self.threads[i].posts, post_id) {
                    Some(j) => {
                        assert(old(self).threads@[i as int].wf());
                        let ghost before = self.threads@[i as int].posts@;
                        self.threads[i].posts.remove(j);
                        let ghost after = self.threads@[i as int].posts@;
                        assert(forall|k: int|
                            0 <= k < after.len() ==> #[trigger] after[k] == before[if k < j {
                                k
                            } else {
                                k + 1
                            }]);
                        assert(forall|k: int|
                            0 <= k < after.len() ==> #[trigger] after[k].wf()) by {
                            assert(forall|k: int| 0 <= k < before.len() ==> #[trigger] before[k].wf());
                        }
                        assert(forall|a: int, b: int|
                            0 <= a < after.len() && 0 <= b < after.len() && a != b
                                ==> #[trigger] after[a].id@ != #[trigger] after[b].id@) by {
                            assert(forall|a: int, b: int|
                                0 <= a < before.len() && 0 <= b < before.len() && a != b
                                    ==> before[a].id@ != before[b].id@);
                        }
                        assert(self.threads@[i as int].wf());
                        assert(forall|k: int|
                            0 <= k < self.threads@.len() ==> #[trigger] self.threads@[k].wf());
                    },
                    None => {},
                }
                Ok(())
            },
            None => Err(ContractError::NotFound),
        }
    }

    /// Opens an empty thread named `thread_name`, charged the thread fee.
    pub fn add_thread(&mut self, attached: u128, thread_name: String) -> (r: Result<
        String,
        ContractError,
    >)
        requires
            old(self).wf(),
        ensures
            final(self).wf(),
            thread_added(*old(self), *final(self), attached, thread_name, r),
    {
        match apply_fee(self.fees.thread_fee, attached) {
            Err(e) => {
                return Err(e);
            },
            Ok(()) => {},
        }
        match find_thread(&self.threads, &thread_name) {
            Some(_) => Err(ContractError::AlreadyExists),
            None => {
                let name = thread_name.clone();
                self.threads.push(Thread { name: thread_name, posts: Vec::new() });
                assert(self.threads@.last().name@ == name@);
                assert(self.threads@.len() == old(self).threads@.len() + 1);
                assert(forall|k: int|
                    0 <= k < old(self).threads@.len() ==> self.threads@[k] == old(self).threads@[k]);
                assert forall|k: int| 0 <= k < old(self).threads@.len() implies old(self).threads@[k].name@ != name@ by {
                    assert(!thread_at(old(self).threads@, thread_name@, k));
                }
                assert(self.threads@.last().wf());
                assert(forall|k: int|
                    0 <= k < self.threads@.len() ==> #[trigger] self.threads@[k].wf());
                assert(self.threads@.subrange(0, self.threads@.len() - 1) =~= old(self).threads@);
                assert(thread_at(self.threads@, name@, self.threads@.len() - 1));
                Ok(name)
            },
        }
    }

    /// The pending requests to `account`, read forward from `from_index`.
    pub fn get_friend_requests(&self, account: &String, from_index: u64, limit: u64) -> (r: Result<
        Vec<JsonFriendRequest>,
        ContractError,
    >)
        requires
            self.wf(),
        ensures
            r is Ok <==> has_person(self.people@, account@),
            !has_person(self.people@, account@) ==> r == Err::<Vec<JsonFriendRequest>, _>(
                ContractError::NotFound,
            ),
            forall|i: int|
                person_at(self.people@, account@, i) ==> {
                    let rs = self.people@[i].friend_requests@;
                    &&& r is Ok
                    &&& r->Ok_0@.len() == window_len(from_index as nat, limit as nat, rs.len())
                    &&& forall|k: int|
                        0 <= k < r->Ok_0@.len() ==> r->Ok_0@[k].account == rs[forward_index(
                            from_index as nat,
                            k,
                        )].0 && r->Ok_0@[k].message == rs[forward_index(from_index as nat, k)].1
                },
    {
        let i = match find_person(&self.people, account) {
            Some(i) => i,
            None => {
                return Err(ContractError::NotFound);
            },
        };
        let rs = &self.people[i].friend_requests;
        let n: usize = rs.len();
        let (start, end) = window(from_index, limit, n as u64);
        let mut out: Vec<JsonFriendRequest> = Vec::new();
        if start >= end {
            return Ok(out);
        }
        let mut idx: u64 = start;
        while idx < end
            invariant
                start == from_index,
                end as nat == crate::page::window_end(from_index as nat, limit as nat, rs@.len()),
                start <= idx <= end <= rs@.len(),
                rs@.len() == n,
                out@.len() == idx - start,
                forall|k: int|
                    0 <= k < out@.len() ==> out@[k].account == rs@[start + k].0 && out@[k].message
                        == rs@[start + k].1,
            decreases end - idx,
        {
            let at: usize = idx as usize;
            let entry = &rs[at];
            let request = JsonFriendRequest {
                account: entry.0.clone(),
                message: crate::post::clone_opt_string(&entry.1),
            };
            let ghost prev = out@;
            out.push(request);
            assert(out@ == prev.push(request));
            assert(request.account == rs@[idx as int].0);
            assert(request.message == rs@[idx as int].1);
            idx += 1;
        }
        proof {
            assert(forall|k: int| person_at(self.people@, account@, k) ==> k == i);
        }
        Ok(out)
    }

    /// Leaves a request from `caller` to `to_account`, with an optional
    /// message, charged the friend fee; replaces an earlier request of `caller`.
    pub fn send_friend_request(
        &mut self,
        caller: &String,
        attached: u128,
        to_account: &String,
        message: Option<String>,
    ) -> (r: Result<(), ContractError>)
        requires
            old(self).wf(),
        ensures
            final(self).wf(),
            request_sent(*old(self), *final(self), *caller, attached, to_account@, message, r),
    {
        let fee = apply_fee(self.fees.friend_fee, attached);
        if fee.is_err() {
            return fee;
        }
        let i = match find_person(&self.people, to_account) {
            Some(i) => i,
            None => {
                return Err(ContractError::NotFound);
            },
        };
        assert(old(self).people@[i as int].wf());
        self.people[i].put_request(caller, message);
        proof {
            lemma_people_update(old(self).people@, self.people@, i as int);
            lemma_social_one(old(self).people@, self.people@, i as int);
        }
        Ok(())
    }

    /// `caller` accepts the request of `from_account`, charged the friend fee:
    /// the request goes, and each becomes a friend of the other.
    pub fn accept_friend_request(&mut self, caller: &String, attached: u128, from_account: &String) -> (r:
        Result<(), ContractError>)
        requires
            old(self).wf(),
        ensures
            final(self).wf(),
            request_accepted(*old(self), *final(self), *caller, attached, *from_account, r),
    {
        let fee = apply_fee(self.fees.friend_fee, attached);
        if fee.is_err() {
            return fee;
        }
        let i = match find_person(&self.people, caller) {
            Some(i) => i,
            None => {
                return Err(ContractError::NotFound);
            },
        };
        let j = match find_person(&self.people, from_account) {
            Some(j) => j,
            None => {
                return Err(ContractError::NotFound);
            },
        };
        assert(old(self).people@[i as int].wf());
        assert(old(self).people@[j as int].wf());
        self.people[i].remove_request(from_account);
        self.people[i].add_friend(from_account);
        let ghost mid = self.people@;
        proof {
            lemma_people_update(old(self).people@, mid, i as int);
        }
        assert(mid[j as int].wf());
        self.people[j].add_friend(caller);
        proof {
            lemma_people_update(mid, self.people@, j as int);
            assert(forall|k: int| 0 <= k < mid.len() && k != j ==> self.people@[k] == mid[k]);
            assert(forall|k: int| 0 <= k < mid.len() && k != i ==> mid[k] == old(self).people@[k]);
            lemma_social_accept(old(self).people@, self.people@, i as int, j as int, *from_account, *caller);
            assert(forall|k: int| person_at(old(self).people@, caller@, k) ==> k == i);
            assert(forall|k: int| person_at(old(self).people@, from_account@, k) ==> k == j);
        }
        Ok(())
    }

    /// `caller` turns down the request of `from_account`, if there is one.
    pub fn reject_friend_request(&mut self, caller: &String, from_account: &String) -> (r: Result<
        (),
        ContractError,
    >)
        requires
            old(self).wf(),
        ensures
            final(self).wf(),
            !has_person(old(self).people@, caller@) ==> r == Err::<(), _>(ContractError::NotFound)
                && *final(self) == *old(self),
            has_person(old(self).people@, caller@) ==> {
                &&& r is Ok
                &&& final(self).same_but_people(*old(self))
                &&& forall|i: int|
                    person_at(old(self).people@, caller@, i) ==> {
                        let before = old(self).people@[i];
                        let after = final(self).people@[i];
                        &&& people_but(old(self).people@, final(self).people@, i)
                        &&& after.text == before.text && after.cid == before.cid
                        &&& after.friends == before.friends
                        &&& request_removed(before.friend_requests@, after.friend_requests@, from_account@)
                    }
            },
    {
        let i = match find_person(&self.people, caller) {
            Some(i) => i,
            None => {
                return Err(ContractError::NotFound);
            },
        };
        assert(old(self).people@[i as int].wf());
        self.people[i].remove_request(from_account);
        proof {
            lemma_people_update(old(self).people@, self.people@, i as int);
            lemma_social_one(old(self).people@, self.people@, i as int);
        }
        Ok(())
    }

    /// The profile of `account`, if it has one.
    pub fn get_person(&self, account: &String) -> (r: Option<JsonPerson>)
        requires
            self.wf(),
        ensures
            r is None <==> !has_person(self.people@, account@),
            forall|i: int|
                person_at(self.people@, account@, i) ==> r is Some && shows_person(
                    r->Some_0,
                    self.people@[i],
                ),
    {
        match find_person(&self.people, account) {
            Some(i) => {
                proof {
                    assert(forall|k: int| person_at(self.people@, account@, k) ==> k == i);
                }
                Some(self.people[i].to_json_person())
            },
            None => None,
        }
    }

    pub fn get_fees(&self) -> (r: crate::fees::JsonFees)
        ensures
            r.post_fee@ == crate::fees::decimal(self.fees.post_fee as nat),
            r.thread_fee@ == crate::fees::decimal(self.fees.thread_fee as nat),
            r.profile_fee@ == crate::fees::decimal(self.fees.profile_fee as nat),
            r.friend_fee@ == crate::fees::decimal(self.fees.friend_fee as nat),
    {
        self.fees.to_json_fees()
    }
}


impl Contract {
    /// Writes `caller`'s profile: an existing person gets the new text and
    /// content id in place; otherwise a person is created at `now`.
    pub fn put_person(&mut self, caller: &String, now: u64, text: Option<String>, cid: Option<
        String,
    >) -> (r: JsonPerson)
        requires
            old(self).wf(),
        ensures
            final(self).wf(),
            final(self).same_but_people(*old(self)),
            has_person(final(self).people@, caller@),
            forall|i: int|
                person_at(old(self).people@, caller@, i) ==> {
                    let before = old(self).people@[i];
                    let after = final(self).people@[i];
                    &&& people_but(old(self).people@, final(self).people@, i)
                    &&& after.text == text && after.cid == cid
                    &&& after.friends == before.friends
                    &&& after.friend_requests == before.friend_requests
                    &&& shows_person(r, after)
                },
            !has_person(old(self).people@, caller@) ==> {
                let added = final(self).people@.last();
                &&& final(self).people@.len() == old(self).people@.len() + 1
                &&& final(self).people@.subrange(0, old(self).people@.len() as int) == old(self).people@
                &&& added.account == *caller && added.text == text && added.cid == cid
                &&& added.created_timestamp == now
                &&& added.friend_requests@.len() == 0 && added.friends@.len() == 0
                &&& shows_person(r, added)
            },
    {
        match find_person(&self.people, caller) {
            Some(i) => {
                assert(old(self).people@[i as int].wf());
                self.people[i].text = text;
                self.people[i].cid = cid;
                proof {
                    lemma_people_update(old(self).people@, self.people@, i as int);
                    lemma_social_one(old(self).people@, self.people@, i as int);
                    assert(forall|k: int| person_at(old(self).people@, caller@, k) ==> k == i);
                }
                assert(person_at(self.people@, caller@, i as int));
                self.people[i].to_json_person()
            },
            None => {
                let person = Person::new(caller.clone(), now, text, cid);
                let shown = person.to_json_person();
                self.people.push(person);
                assert forall|k: int| 0 <= k < old(self).people@.len() implies old(
                    self).people@[k].account@ != caller@ by {
                    assert(!person_at(old(self).people@, caller@, k));
                }
                assert(self.people@.subrange(0, self.people@.len() - 1) =~= old(self).people@);
                assert(forall|k: int| 0 <= k < self.people@.len() ==> #[trigger] self.people@[k].wf());
                assert(self.people@ == old(self).people@.push(self.people@.last()));
                proof {
                    lemma_social_push(old(self).people@, self.people@.last());
                    assert(person_at(self.people@, caller@, self.people@.len() - 1));
                }
                shown
            },
        }
    }

    /// Adds a post by `caller` at `now` to the thread `thread_name`, charged the
    /// post fee. Its id is made from the caller and the time; a post with the
    /// same id is replaced where it stands.
    pub fn add_post(
        &mut self,
        caller: &String,
        now: u64,
        attached: u128,
        thread_name: &String,
        text: String,
        cid: Option<String>,
    ) -> (r: Result<(), ContractError>)
        requires
            old(self).wf(),
        ensures
            final(self).wf(),
            attached < old(self).fees.post_fee ==> r == fee_outcome(old(self).fees.post_fee, attached)
                && *final(self) == *old(self),
            attached >= old(self).fees.post_fee && !has_thread(old(self).threads@, thread_name@) ==> r
                == Err::<(), _>(ContractError::NotFound) && *final(self) == *old(self),
            has_thread(final(self).threads@, thread_name@) == has_thread(old(self).threads@, thread_name@),
            attached >= old(self).fees.post_fee && has_thread(old(self).threads@, thread_name@) ==> {
                &&& r is Ok
                &&& final(self).same_but_threads(*old(self))
                &&& forall|i: int|
                    thread_at(old(self).threads@, thread_name@, i) ==> {
                        let before = old(self).threads@[i].posts@;
                        let after = final(self).threads@[i].posts@;
                        let id = post_id(caller@, now as nat);
                        &&& threads_but(old(self).threads@, final(self).threads@, i)
                        &&& forall|j: int|
                            post_at(before, id, j) ==> posts_but(before, after, j) && is_new_post(
                                after[j],
                                *caller,
                                now,
                                text,
                                cid,
                            )
                        &&& !has_post(before, id) ==> after.len() == before.len() + 1
                            && after.subrange(0, before.len() as int) == before && is_new_post(
                            after.last(),
                            *caller,
                            now,
                            text,
                            cid,
                        )
                    }
            },
    {
        let fee = apply_fee(self.fees.post_fee, attached);
        if fee.is_err() {
            return fee;
        }
        let i = match find_thread(&self.threads, thread_name) {
            Some(i) => i,
            None => {
                return Err(ContractError::NotFound);
            },
        };
        assert(old(self).threads@[i as int].wf());
        let post = Post::new(caller.clone(), now, text, cid);
        let ghost before = self.threads@[i as int].posts@;
        match find_post(&self.threads[i].posts, &post.id) {
            Some(j) => {
                self.threads[i].posts[j] = post;
                let ghost after = self.threads@[i as int].posts@;
                assert forall|a: int, b: int|
                    0 <= a < after.len() && 0 <= b < after.len() && a != b implies after[a].id@
                    != after[b].id@ by {
                    assert(before[a].id@ != before[b].id@ || a == b);
                }
                assert(forall|k: int| 0 <= k < after.len() ==> #[trigger] after[k].wf());
                proof {
                    assert(forall|k: int|
                        post_at(before, post_id(caller@, now as nat), k) ==> k == j);
                }
            },
            None => {
                let ghost id = post.id@;
                self.threads[i].posts.push(post);
                let ghost after = self.threads@[i as int].posts@;
                assert forall|k: int| 0 <= k < before.len() implies before[k].id@ != id by {
                    assert(!post_at(before, id, k));
                }
                assert(after.subrange(0, before.len() as int) =~= before);
                assert(forall|k: int| 0 <= k < after.len() ==> #[trigger] after[k].wf());
            },
        }
        proof {
            lemma_threads_update(old(self).threads@, self.threads@, i as int);
            assert(forall|k: int| thread_at(old(self).threads@, thread_name@, k) ==> k == i);
            assert(thread_at(self.threads@, thread_name@, i as int));
        }
        Ok(())
    }

    /// `caller` reacts with `reaction` at `now` on the post `post_id` of the
    /// thread `thread_name`, replacing its earlier reaction there.
    pub fn react_to_post(
        &mut self,
        caller: &String,
        now: u64,
        thread_name: &String,
        post_id: &String,
        reaction: Reaction,
    ) -> (r: Result<(), ContractError>)
        requires
            old(self).wf(),
        ensures
            final(self).wf(),
            !post_exists(old(self).threads@, thread_name@, post_id@) ==> r == Err::<(), _>(
                ContractError::NotFound,
            ) && *final(self) == *old(self),
            post_exists(old(self).threads@, thread_name@, post_id@) ==> {
                &&& r is Ok
                &&& final(self).same_but_threads(*old(self))
                &&& forall|i: int, j: int|
                    thread_at(old(self).threads@, thread_name@, i) && post_at(
                        old(self).threads@[i].posts@,
                        post_id@,
                        j,
                    ) ==> {
                        &&& threads_but(old(self).threads@, final(self).threads@, i)
                        &&& posts_but(old(self).threads@[i].posts@, final(self).threads@[i].posts@, j)
                        &&& reacted(
                            old(self).threads@[i].posts@[j],
                            final(self).threads@[i].posts@[j],
                            caller@,
                            reaction,
                            now,
                        )
                    }
            },
    {
        let (i, j) = match self.locate_post(thread_name, post_id) {
            Some(found) => found,
            None => {
                return Err(ContractError::NotFound);
            },
        };
        assert(old(self).threads@[i as int].wf());
        assert(old(self).threads@[i as int].posts@[j as int].wf());
        let ghost before = self.threads@[i as int].posts@;
        self.threads[i].posts[j].set_reaction(caller, reaction, now);
        proof {
            let after = self.threads@[i as int].posts@;
            assert forall|a: int, b: int|
                0 <= a < after.len() && 0 <= b < after.len() && a != b implies after[a].id@
                != after[b].id@ by {
                assert(before[a].id@ != before[b].id@ || a == b);
            }
            assert(forall|k: int| 0 <= k < after.len() ==> #[trigger] after[k].wf());
            lemma_threads_update(old(self).threads@, self.threads@, i as int);
        }
        Ok(())
    }

    /// `caller` takes back its reaction on the post `post_id` of the thread
    /// `thread_name`.
    pub fn unreact_to_post(&mut self, caller: &String, thread_name: &String, post_id: &String) -> (r:
        Result<(), ContractError>)
        requires
            old(self).wf(),
        ensures
            final(self).wf(),
            !post_exists(old(self).threads@, thread_name@, post_id@) ==> r == Err::<(), _>(
                ContractError::NotFound,
            ) && *final(self) == *old(self),
            forall|i: int, j: int|
                thread_at(old(self).threads@, thread_name@, i) && post_at(
                    old(self).threads@[i].posts@,
                    post_id@,
                    j,
                ) ==> {
                    let before = old(self).threads@[i].posts@[j];
                    let after = final(self).threads@[i].posts@[j];
                    &&& !has_reaction(before.reactions@, caller@) ==> r == Err::<(), _>(
                        ContractError::NoReaction,
                    ) && *final(self) == *old(self)
                    &&& has_reaction(before.reactions@, caller@) ==> {
                        &&& r is Ok
                        &&& final(self).same_but_threads(*old(self))
                        &&& threads_but(old(self).threads@, final(self).threads@, i)
                        &&& posts_but(old(self).threads@[i].posts@, final(self).threads@[i].posts@, j)
                        &&& same_but_reactions(before, after)
                        &&& exists|k: int|
                            0 <= k < before.reactions@.len() && before.reactions@[k].account@
                                == caller@ && after.reactions@ == before.reactions@.remove(k)
                    }
                },
    {
        let (i, j) = match self.locate_post(thread_name, post_id) {
            Some(found) => found,
            None => {
                return Err(ContractError::NotFound);
            },
        };
        assert(old(self).threads@[i as int].wf());
        assert(old(self).threads@[i as int].posts@[j as int].wf());
        match find_reaction(&self.threads[i].posts[j].reactions, caller) {
            None => {
                proof {
                    assert(forall|a: int, b: int|
                        thread_at(old(self).threads@, thread_name@, a) && post_at(
                            old(self).threads@[a].posts@,
                            post_id@,
                            b,
                        ) ==> a == i && b == j);
                }
                return Err(ContractError::NoReaction);
            },
            Some(_) => {},
        }
        let ghost before = self.threads@[i as int].posts@;
        let removed = self.threads[i].posts[j].remove_reaction(caller);
        proof {
            let after = self.threads@[i as int].posts@;
            assert forall|a: int, b: int|
                0 <= a < after.len() && 0 <= b < after.len() && a != b implies after[a].id@
                != after[b].id@ by {
                assert(before[a].id@ != before[b].id@ || a == b);
            }
            assert(forall|k: int| 0 <= k < after.len() ==> #[trigger] after[k].wf());
            lemma_threads_update(old(self).threads@, self.threads@, i as int);
            assert(forall|a: int, b: int|
                thread_at(old(self).threads@, thread_name@, a) && post_at(
                    old(self).threads@[a].posts@,
                    post_id@,
                    b,
                ) ==> a == i && b == j);
        }
        Ok(())
    }

    /// Where the post `post_id` of the thread `thread_name` stands.
    pub fn locate_post(&self, thread_name: &String, post_id: &String) -> (r: Option<(usize, usize)>)
        requires
            self.wf(),
        ensures
            r is None <==> !post_exists(self.threads@, thread_name@, post_id@),
            r matches Some((i, j)) ==> thread_at(self.threads@, thread_name@, i as int) && post_at(
                self.threads@[i as int].posts@,
                post_id@,
                j as int,
            ),
    {
        match find_thread(&self.threads, thread_name) {
            Some(i) => {
                proof {
                    assert(forall|k: int| thread_at(self.threads@, thread_name@, k) ==> k == i);
                }
                match find_post(&self.threads[i].posts, post_id) {
                    Some(j) => Some((i, j)),
                    None => None,
                }
            },
            None => None,
        }
    }
}

impl Contract {
    /// The people of the window `(from_index, limit)`, newest index first.
    pub fn get_people(&self, from_index: u64, limit: u64) -> (r: Vec<JsonPerson>)
        ensures
            r@.len() == window_len(from_index as nat, limit as nat, self.people@.len()),
            forall|k: int|
                0 <= k < r@.len() ==> shows_person(
                    r@[k],
                    self.people@[backward_index(
                        from_index as nat,
                        limit as nat,
                        self.people@.len(),
                        k,
                    )],
                ),
    {
        let ps = &self.people;
        let n: usize = ps.len();
        let (start, end) = window(from_index, limit, n as u64);
        let mut out: Vec<JsonPerson> = Vec::new();
        if start >= end {
            return out;
        }
        let mut idx: u64 = end;
        while idx > start
            invariant
                start == from_index,
                end as nat == crate::page::window_end(from_index as nat, limit as nat, ps@.len()),
                start <= idx <= end <= ps@.len(),
                ps@.len() == n,
                out@.len() == end - idx,
                forall|k: int| 0 <= k < out@.len() ==> shows_person(out@[k], ps@[end - 1 - k]),
            decreases idx,
        {
            idx -= 1;
            let at: usize = idx as usize;
            let shown = ps[at].to_json_person();
            out.push(shown);
        }
        out
    }

    /// The threads of the window `(from_index, limit)`, newest index first,
    /// each with its name and number of posts.
    pub fn get_threads(&self, from_index: u64, limit: u64) -> (r: Vec<JsonThreadMetadata>)
        ensures
            r@.len() == window_len(from_index as nat, limit as nat, self.threads@.len()),
            forall|k: int|
                0 <= k < r@.len() ==> {
                    let t = self.threads@[backward_index(
                        from_index as nat,
                        limit as nat,
                        self.threads@.len(),
                        k,
                    )];
                    #[trigger] r@[k].name == t.name && r@[k].size == t.posts@.len()
                },
    {
        let ts = &self.threads;
        let n: usize = ts.len();
        let (start, end) = window(from_index, limit, n as u64);
        let mut out: Vec<JsonThreadMetadata> = Vec::new();
        if start >= end {
            return out;
        }
        let mut idx: u64 = end;
        while idx > start
            invariant
                start == from_index,
                end as nat == crate::page::window_end(from_index as nat, limit as nat, ts@.len()),
                start <= idx <= end <= ts@.len(),
                ts@.len() == n,
                out@.len() == end - idx,
                forall|k: int|
                    0 <= k < out@.len() ==> out@[k].name == ts@[end - 1 - k].name && out@[k].size
                        == ts@[end - 1 - k].posts@.len(),
            decreases idx,
        {
            idx -= 1;
            let at: usize = idx as usize;
            let t = &ts[at];
            let size: usize = t.posts.len();
            out.push(JsonThreadMetadata { name: t.name.clone(), size: size as u64 });
        }
        out
    }

    /// The posts of the thread `thread_name` in the window `(from_index, limit)`,
    /// newest index first.
    pub fn get_thread(&self, thread_name: &String, from_index: u64, limit: u64) -> (r: Result<
        Vec<JsonPost>,
        ContractError,
    >)
        requires
            self.wf(),
        ensures
            r is Ok <==> has_thread(self.threads@, thread_name@),
            !has_thread(self.threads@, thread_name@) ==> r == Err::<Vec<JsonPost>, _>(
                ContractError::NotFound,
            ),
            forall|i: int|
                thread_at(self.threads@, thread_name@, i) ==> {
                    let ps = self.threads@[i].posts@;
                    &&& r is Ok
                    &&& r->Ok_0@.len() == window_len(from_index as nat, limit as nat, ps.len())
                    &&& forall|k: int|
                        0 <= k < r->Ok_0@.len() ==> shows_post(
                            r->Ok_0@[k],
                            ps[backward_index(from_index as nat, limit as nat, ps.len(), k)],
                        )
                },
    {
        let i = match find_thread(&self.threads, thread_name) {
            Some(i) => i,
            None => {
                return Err(ContractError::NotFound);
            },
        };
        proof {
            assert(forall|k: int| thread_at(self.threads@, thread_name@, k) ==> k == i);
        }
        let ps = &self.threads[i].posts;
        let n: usize = ps.len();
        let (start, end) = window(from_index, limit, n as u64);
        let mut out: Vec<JsonPost> = Vec::new();
        if start >= end {
            return Ok(out);
        }
        let mut idx: u64 = end;
        while idx > start
            invariant
                start == from_index,
                end as nat == crate::page::window_end(from_index as nat, limit as nat, ps@.len()),
                start <= idx <= end <= ps@.len(),
                ps@.len() == n,
                out@.len() == end - idx,
                forall|k: int| 0 <= k < out@.len() ==> shows_post(out@[k], ps@[end - 1 - k]),
            decreases idx,
        {
            idx -= 1;
            let at: usize = idx as usize;
            let shown = ps[at].to_json_post();
            out.push(shown);
        }
        Ok(out)
    }
}

/// What `add_thread` does: `r` and `after` as they follow from `before`.
pub open spec fn thread_added(
    before: Contract,
    after: Contract,
    attached: u128,
    thread_name: String,
    r: Result<String, ContractError>,
) -> bool {
    let fee = before.fees.thread_fee;
    &&& attached >= fee ==> has_thread(after.threads@, thread_name@)
    &&& attached < fee ==> r == Err::<String, _>(
        ContractError::InsufficientFee { required: fee, refund: attached },
    ) && after == before
    &&& attached >= fee && has_thread(before.threads@, thread_name@) ==> r == Err::<String, _>(
        ContractError::AlreadyExists,
    ) && after == before
    &&& attached >= fee && !has_thread(before.threads@, thread_name@) ==> {
        &&& r == Ok::<String, ContractError>(thread_name)
        &&& after.same_but_threads(before)
        &&& after.threads@.len() == before.threads@.len() + 1
        &&& after.threads@.subrange(0, before.threads@.len() as int) == before.threads@
        &&& after.threads@.last().name == thread_name
        &&& after.threads@.last().posts@.len() == 0
    }
}

/// What `send_friend_request` does: `r` and `after` as they follow from `before`.
pub open spec fn request_sent(
    before: Contract,
    after: Contract,
    caller: String,
    attached: u128,
    to_account: Seq<char>,
    message: Option<String>,
    r: Result<(), ContractError>,
) -> bool {
    let fee = before.fees.friend_fee;
    &&& attached < fee ==> r == fee_outcome(fee, attached) && after == before
    &&& attached >= fee && !has_person(before.people@, to_account) ==> r == Err::<(), _>(
        ContractError::NotFound,
    ) && after == before
    &&& attached >= fee && has_person(before.people@, to_account) ==> {
        &&& r is Ok
        &&& after.same_but_people(before)
        &&& forall|i: int|
            person_at(before.people@, to_account, i) ==> {
                let p = before.people@[i];
                let q = after.people@[i];
                &&& people_but(before.people@, after.people@, i)
                &&& q.text == p.text && q.cid == p.cid
                &&& q.friends == p.friends
                &&& request_put(p.friend_requests@, q.friend_requests@, caller, message)
            }
    }
}

/// What `accept_friend_request` does: `r` and `after` as they follow from `before`.
pub open spec fn request_accepted(
    before: Contract,
    after: Contract,
    caller: String,
    attached: u128,
    from_account: String,
    r: Result<(), ContractError>,
) -> bool {
    let fee = before.fees.friend_fee;
    let both = has_person(before.people@, caller@) && has_person(before.people@, from_account@);
    &&& attached < fee ==> r == fee_outcome(fee, attached) && after == before
    &&& attached >= fee && !both ==> r == Err::<(), _>(ContractError::NotFound) && after == before
    &&& attached >= fee && both ==> {
        &&& r is Ok
        &&& after.same_but_people(before)
        &&& after.people@.len() == before.people@.len()
        &&& forall|i: int, j: int|
            person_at(before.people@, caller@, i) && person_at(before.people@, from_account@, j)
                ==> {
                let me0 = before.people@[i];
                let them0 = before.people@[j];
                let me = after.people@[i];
                let them = after.people@[j];
                &&& forall|k: int|
                    0 <= k < before.people@.len() && k != i && k != j ==> after.people@[k]
                        == before.people@[k]
                &&& same_identity(me0, me) && same_identity(them0, them)
                &&& me.text == me0.text && me.cid == me0.cid
                &&& them.text == them0.text && them.cid == them0.cid
                &&& request_removed(me0.friend_requests@, me.friend_requests@, from_account@)
                &&& i != j ==> them.friend_requests == them0.friend_requests
                &&& i != j ==> me.friends@ == with_account(me0.friends@, from_account)
                &&& i != j ==> them.friends@ == with_account(them0.friends@, caller)
                &&& i == j ==> me.friends@ == with_account(
                    with_account(me0.friends@, from_account),
                    caller,
                )
            }
    }
}

/// `p` is the post that `account` writes at `now` with `text` and `cid`:
/// fresh, with no tags, no ad and no reactions.
pub open spec fn is_new_post(p: Post, account: String, now: u64, text: String, cid: Option<String>) -> bool {
    &&& p.id@ == post_id(account@, now as nat)
    &&& p.account == account
    &&& p.text == text
    &&& p.cid == cid
    &&& p.created_timestamp == now
    &&& p.tags@.len() == 0
    &&& p.ad is None
    &&& p.reactions@.len() == 0
}

/// The thread `name` exists and holds a post with id `id`.
pub open spec fn post_exists(ts: Seq<Thread>, name: Seq<char>, id: Seq<char>) -> bool {
    exists|i: int| thread_at(ts, name, i) && has_post(ts[i].posts@, id)
}

/// Replacing thread `i` by a well-formed one of the same name keeps the
/// threads well formed.
pub proof fn lemma_threads_update(before: Seq<Thread>, after: Seq<Thread>, i: int)
    requires
        0 <= i < before.len(),
        threads_but(before, after, i),
        after[i].wf(),
        forall|a: int, b: int|
            0 <= a < before.len() && 0 <= b < before.len() && a != b ==> before[a].name@
                != before[b].name@,
        forall|k: int| 0 <= k < before.len() ==> #[trigger] before[k].wf(),
    ensures
        forall|a: int, b: int|
            0 <= a < after.len() && 0 <= b < after.len() && a != b ==> after[a].name@
                != after[b].name@,
        forall|k: int| 0 <= k < after.len() ==> #[trigger] after[k].wf(),
        forall|k: int| 0 <= k < after.len() ==> #[trigger] after[k].name == before[k].name,
{
    assert forall|k: int| 0 <= k < after.len() implies #[trigger] after[k].name
        == before[k].name by {
        if k != i {
            assert(after[k] == before[k]);
        }
    }
}

/// Replacing person `i` by one of the same identity that is well formed keeps
/// the people well formed.
pub proof fn lemma_people_update(before: Seq<Person>, after: Seq<Person>, i: int)
    requires
        0 <= i < before.len(),
        people_but(before, after, i),
        after[i].wf(),
        forall|a: int, b: int|
            0 <= a < before.len() && 0 <= b < before.len() && a != b ==> before[a].account@
                != before[b].account@,
        forall|k: int| 0 <= k < before.len() ==> #[trigger] before[k].wf(),
    ensures
        forall|a: int, b: int|
            0 <= a < after.len() && 0 <= b < after.len() && a != b ==> after[a].account@
                != after[b].account@,
        forall|k: int| 0 <= k < after.len() ==> #[trigger] after[k].wf(),
        forall|k: int| 0 <= k < after.len() ==> #[trigger] after[k].account == before[k].account,
{
    assert forall|k: int| 0 <= k < after.len() implies #[trigger] after[k].account
        == before[k].account by {
        if k != i {
            assert(after[k] == before[k]);
        }
    }
}

/// Where no account and no friend list changes, the friendships stay known
/// and symmetric.
pub proof fn lemma_social_same(before: Seq<Person>, after: Seq<Person>)
    requires
        after.len() == before.len(),
        forall|k: int|
            #![trigger after[k]]
            0 <= k < before.len() ==> after[k].account == before[k].account && after[k].friends
                == before[k].friends,
        friends_known(before),
        friends_symmetric(before),
    ensures
        friends_known(after),
        friends_symmetric(after),
{
    assert forall|i: int, k: int|
        0 <= i < after.len() && 0 <= k < after[i].friends@.len() implies has_person(
        after,
        #[trigger] after[i].friends@[k]@,
    ) by {
        assert(after[i].friends == before[i].friends);
        assert(has_person(before, before[i].friends@[k]@));
        let m = choose|m: int| person_at(before, before[i].friends@[k]@, m);
        assert(after[m].account == before[m].account);
        assert(person_at(after, after[i].friends@[k]@, m));
    }
    assert forall|i: int, j: int|
        0 <= i < after.len() && 0 <= j < after.len() && #[trigger] has_account(
            after[i].friends@,
            after[j].account@,
        ) implies has_account(after[j].friends@, after[i].account@) by {
        assert(after[i].friends == before[i].friends && after[i].account == before[i].account);
        assert(after[j].friends == before[j].friends && after[j].account == before[j].account);
        assert(has_account(before[i].friends@, before[j].account@));
    }
}

/// Adding a person with no friends, under an account not yet taken, keeps the
/// friendships known and symmetric.
pub proof fn lemma_social_push(before: Seq<Person>, added: Person)
    requires
        added.friends@.len() == 0,
        !has_person(before, added.account@),
        friends_known(before),
        friends_symmetric(before),
    ensures
        friends_known(before.push(added)),
        friends_symmetric(before.push(added)),
{
    let after = before.push(added);
    let n = before.len() as int;
    assert forall|i: int, k: int|
        0 <= i < after.len() && 0 <= k < after[i].friends@.len() implies has_person(
        after,
        #[trigger] after[i].friends@[k]@,
    ) by {
        assert(i < n);
        assert(after[i] == before[i]);
        assert(has_person(before, before[i].friends@[k]@));
        let m = choose|m: int| person_at(before, before[i].friends@[k]@, m);
        assert(person_at(after, after[i].friends@[k]@, m));
    }
    assert forall|i: int, j: int|
        0 <= i < after.len() && 0 <= j < after.len() && #[trigger] has_account(
            after[i].friends@,
            after[j].account@,
        ) implies has_account(after[j].friends@, after[i].account@) by {
        if i == n {
            assert(after[i] == added);
        } else {
            assert(after[i] == before[i]);
            if j == n {
                let k = choose|k: int|
                    0 <= k < before[i].friends@.len() && before[i].friends@[k]@ == added.account@;
                assert(has_person(before, before[i].friends@[k]@));
            } else {
                assert(after[j] == before[j]);
                assert(has_account(before[i].friends@, before[j].account@));
            }
        }
    }
}

/// An account is in a list with `who` added exactly when it is `who` or was
/// in the list already.
pub proof fn lemma_with_account(fs: Seq<String>, who: String, x: Seq<char>)
    ensures
        has_account(with_account(fs, who), x) <==> (has_account(fs, x) || x == who@),
{
    if !has_account(fs, who@) {
        let after = fs.push(who);
        if x == who@ {
            assert(after[fs.len() as int] == who);
        }
        if has_account(fs, x) {
            let k = choose|k: int| 0 <= k < fs.len() && fs[k]@ == x;
            assert(after[k] == fs[k]);
        }
        if has_account(after, x) {
            let k = choose|k: int| 0 <= k < after.len() && after[k]@ == x;
            if k < fs.len() {
                assert(after[k] == fs[k]);
            }
        }
    }
}

/// Accepting a request between the persons at `i` and `j` adds each to the
/// other's friends and nothing else; the friendships stay known and symmetric.
pub proof fn lemma_social_accept(before: Seq<Person>, after: Seq<Person>, i: int, j: int, from: String, caller: String)
    requires
        0 <= i < before.len(),
        0 <= j < before.len(),
        after.len() == before.len(),
        from@ == before[j].account@,
        caller@ == before[i].account@,
        forall|k: int| #![trigger after[k]] 0 <= k < before.len() ==> after[k].account == before[k].account,
        forall|k: int| #![trigger after[k]] 0 <= k < before.len() && k != i && k != j ==> after[k] == before[k],
        i != j ==> after[i].friends@ == with_account(before[i].friends@, from),
        i != j ==> after[j].friends@ == with_account(before[j].friends@, caller),
        i == j ==> after[i].friends@ == with_account(with_account(before[i].friends@, from), caller),
        forall|a: int, b: int|
            0 <= a < before.len() && 0 <= b < before.len() && a != b ==> before[a].account@
                != before[b].account@,
        friends_known(before),
        friends_symmetric(before),
    ensures
        friends_known(after),
        friends_symmetric(after),
{
    assert forall|p: int, x: Seq<char>| 0 <= p < after.len() implies #[trigger] has_account(after[p].friends@, x)
        == (has_account(before[p].friends@, x) || (p == i && x == from@) || (p == j && x == caller@)) by {
        if p == i && i == j {
            lemma_with_account(before[i].friends@, from, x);
            lemma_with_account(with_account(before[i].friends@, from), caller, x);
        } else if p == i {
            lemma_with_account(before[i].friends@, from, x);
        } else if p == j {
            lemma_with_account(before[j].friends@, caller, x);
        } else {
            assert(after[p] == before[p]);
        }
    }
    assert forall|p: int, k: int|
        0 <= p < after.len() && 0 <= k < after[p].friends@.len() implies has_person(
        after,
        #[trigger] after[p].friends@[k]@,
    ) by {
        let x = after[p].friends@[k]@;
        assert(has_account(after[p].friends@, x));
        if has_account(before[p].friends@, x) {
            let m = choose|m: int| 0 <= m < before[p].friends@.len() && before[p].friends@[m]@ == x;
            assert(has_person(before, before[p].friends@[m]@));
            let q = choose|q: int| person_at(before, x, q);
            assert(after[q].account == before[q].account);
            assert(person_at(after, x, q));
        } else if p == i && x == from@ {
            assert(after[j].account == before[j].account);
            assert(person_at(after, x, j));
        } else {
            assert(after[i].account == before[i].account);
            assert(person_at(after, x, i));
        }
    }
    assert forall|p: int, q: int|
        0 <= p < after.len() && 0 <= q < after.len() && #[trigger] has_account(
            after[p].friends@,
            after[q].account@,
        ) implies has_account(after[q].friends@, after[p].account@) by {
        assert(after[p].account == before[p].account);
        assert(after[q].account == before[q].account);
        assert(has_account(after[q].friends@, after[p].account@) == (has_account(
            before[q].friends@,
            after[p].account@,
        ) || (q == i && after[p].account@ == from@) || (q == j && after[p].account@ == caller@)));
        if has_account(before[p].friends@, before[q].account@) {
        } else if p == i && before[q].account@ == from@ {
            assert(q == j);
        } else {
            assert(p == j && before[q].account@ == caller@);
            assert(q == i);
        }
    }
}

/// Replacing the person at `i` by one with the same account and the same
/// friends keeps the friendships known and symmetric.
pub proof fn lemma_social_one(before: Seq<Person>, after: Seq<Person>, i: int)
    requires
        0 <= i < before.len(),
        people_but(before, after, i),
        after[i].friends == before[i].friends,
        friends_known(before),
        friends_symmetric(before),
    ensures
        friends_known(after),
        friends_symmetric(after),
{
    assert forall|k: int| #![trigger after[k]] 0 <= k < before.len() implies after[k].account
        == before[k].account && after[k].friends == before[k].friends by {
        if k != i {
            assert(after[k] == before[k]);
        }
    }
    lemma_social_same(before, after);
}

} // verus!
