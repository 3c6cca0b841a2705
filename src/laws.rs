use vstd::prelude::*;

use crate::contract::has_person;
use crate::contract::has_thread;
use crate::contract::person_at;
use crate::contract::request_accepted;
use crate::contract::request_sent;
use crate::contract::thread_added;
use crate::contract::thread_at;
use crate::contract::Contract;
use crate::error::ContractError;
use crate::fees::fee_outcome;
use crate::page::backward_index;
use crate::page::forward_index;
use crate::page::window_len;
use crate::person::has_account;
use crate::person::has_request;
use crate::person::request_removed;
use crate::person::requests_unique;
use crate::person::with_account;
use crate::post::reacted;
use crate::post::Post;
use crate::post::Reaction;

verus! {

/// Any amount below the fee is refused, naming the fee and refunding the whole
/// amount; any amount at or above it passes.
pub proof fn law_fee_gate(fee: u128, attached: u128)
    ensures
        attached < fee ==> fee_outcome(fee, attached) == Err::<(), _>(
            ContractError::InsufficientFee { required: fee, refund: attached },
        ),
        attached >= fee ==> fee_outcome(fee, attached) == Ok::<(), ContractError>(()),
{
}

/// Creating a thread under the same name twice, paid in full both times: the
/// second call fails with `AlreadyExists`, changes nothing, and exactly one
/// thread bears the name.
pub proof fn law_thread_unique(
    c0: Contract,
    c1: Contract,
    c2: Contract,
    a1: u128,
    a2: u128,
    name: String,
    r1: Result<String, ContractError>,
    r2: Result<String, ContractError>,
)
    requires
        c0.wf(),
        c1.wf(),
        thread_added(c0, c1, a1, name, r1),
        thread_added(c1, c2, a2, name, r2),
        a1 >= c0.fees.thread_fee,
        a2 >= c1.fees.thread_fee,
    ensures
        r2 == Err::<String, _>(ContractError::AlreadyExists),
        c2 == c1,
        has_thread(c2.threads@, name@),
        forall|i: int, j: int|
            thread_at(c2.threads@, name@, i) && thread_at(c2.threads@, name@, j) ==> i == j,
{
    if !has_thread(c0.threads@, name@) {
        assert(thread_at(c1.threads@, name@, c1.threads@.len() - 1));
    }
}

/// A request of `a` to `b` that `b` accepts, both paid in full, leaves `a` and
/// `b` each in the other's friends and no request of `a` pending with `b`.
pub proof fn law_friendship_symmetric(
    c0: Contract,
    c1: Contract,
    c2: Contract,
    a: String,
    b: String,
    message: Option<String>,
    a1: u128,
    a2: u128,
    r1: Result<(), ContractError>,
    r2: Result<(), ContractError>,
)
    requires
        c0.wf(),
        c1.wf(),
        c2.wf(),
        has_person(c0.people@, a@),
        has_person(c0.people@, b@),
        a1 >= c0.fees.friend_fee,
        request_sent(c0, c1, a, a1, b@, message, r1),
        a2 >= c1.fees.friend_fee,
        request_accepted(c1, c2, b, a2, a, r2),
    ensures
        r2 is Ok,
        forall|i: int| person_at(c2.people@, a@, i) ==> has_account(c2.people@[i].friends@, b@),
        forall|j: int|
            person_at(c2.people@, b@, j) ==> has_account(c2.people@[j].friends@, a@) && !has_request(
                c2.people@[j].friend_requests@,
                a@,
            ),
{
    let ib = choose|i: int| person_at(c0.people@, b@, i);
    let ia = choose|i: int| person_at(c0.people@, a@, i);
    assert(c1.people@[ib].account == c0.people@[ib].account);
    assert(c1.people@[ia].account == c0.people@[ia].account) by {
        if ia != ib {
            assert(c1.people@[ia] == c0.people@[ia]);
        }
    }
    assert(person_at(c1.people@, b@, ib));
    assert(person_at(c1.people@, a@, ia));
    let me0 = c1.people@[ib];
    let them0 = c1.people@[ia];
    assert(me0.wf());
    assert(has_person(c1.people@, b@) && has_person(c1.people@, a@));
    assert(c2.people@[ib].account == me0.account);
    assert(c2.people@[ia].account == them0.account);
    lemma_removed_absent(me0.friend_requests@, c2.people@[ib].friend_requests@, a@);
    lemma_with_account_has(me0.friends@, a);
    lemma_with_account_has(them0.friends@, b);
    if ia == ib {
        lemma_with_account_has(with_account(me0.friends@, a), b);
        lemma_with_account_keeps(with_account(me0.friends@, a), b, a@);
    }
    assert forall|i: int| person_at(c2.people@, a@, i) implies i == ia by {
        if i != ia {
            assert(c2.people@[i].account@ != c2.people@[ia].account@);
        }
    }
    assert forall|j: int| person_at(c2.people@, b@, j) implies j == ib by {
        if j != ib {
            assert(c2.people@[j].account@ != c2.people@[ib].account@);
        }
    }
}

/// Once a request of `from` is taken out of a list without repeats, none of
/// `from` is left.
pub proof fn lemma_removed_absent(
    before: Seq<(String, Option<String>)>,
    after: Seq<(String, Option<String>)>,
    from: Seq<char>,
)
    requires
        requests_unique(before),
        request_removed(before, after, from),
    ensures
        !has_request(after, from),
{
    if has_request(before, from) {
        let i = choose|i: int| 0 <= i < before.len() && before[i].0@ == from;
        assert(after == before.remove(i));
        assert forall|k: int| 0 <= k < after.len() implies after[k].0@ != from by {
            if k < i {
                assert(after[k] == before[k]);
            } else {
                assert(after[k] == before[k + 1]);
            }
        }
    }
}

/// After adding `who`, the list holds it.
pub proof fn lemma_with_account_has(fs: Seq<String>, who: String)
    ensures
        has_account(with_account(fs, who), who@),
{
    if !has_account(fs, who@) {
        assert(with_account(fs, who)[fs.len() as int] == who);
    }
}

/// Adding an account keeps every account already there.
pub proof fn lemma_with_account_keeps(fs: Seq<String>, who: String, x: Seq<char>)
    requires
        has_account(fs, x),
    ensures
        has_account(with_account(fs, who), x),
{
    let k = choose|k: int| 0 <= k < fs.len() && fs[k]@ == x;
    if !has_account(fs, who@) {
        assert(with_account(fs, who)[k] == fs[k]);
    }
}

/// Reacting twice as the same account on the same post leaves exactly one
/// reaction of that account, of the second kind.
pub proof fn law_reaction_exclusive(
    p0: Post,
    p1: Post,
    p2: Post,
    account: Seq<char>,
    first: Reaction,
    second: Reaction,
    t1: u64,
    t2: u64,
)
    requires
        p0.wf(),
        p1.wf(),
        p2.wf(),
        reacted(p0, p1, account, first, t1),
        reacted(p1, p2, account, second, t2),
    ensures
        exists|k: int|
            0 <= k < p2.reactions@.len() && p2.reactions@[k].account@ == account
                && p2.reactions@[k].reaction == second,
        forall|k1: int, k2: int|
            0 <= k1 < p2.reactions@.len() && 0 <= k2 < p2.reactions@.len()
                && p2.reactions@[k1].account@ == account && p2.reactions@[k2].account@ == account
                ==> k1 == k2,
{
    let rs1 = p1.reactions@;
    let rs2 = p2.reactions@;
    let k: int = if crate::post::has_reaction(p0.reactions@, account) {
        choose|i: int| 0 <= i < p0.reactions@.len() && p0.reactions@[i].account@ == account
    } else {
        p0.reactions@.len() as int
    };
    assert(0 <= k < rs1.len() && rs1[k].account@ == account);
    assert(rs2[k].account@ == account && rs2[k].reaction == second);
}

/// A window that starts at the end of a collection is empty; one from the
/// start that reaches past the end holds every item, read forward in order and
/// backward from the last.
pub proof fn law_window_bounds(n: nat, limit: nat)
    ensures
        window_len(n, limit, n) == 0,
        window_len(0, n + 5, n) == n,
        forall|k: int| 0 <= k < n ==> #[trigger] forward_index(0, k) == k,
        forall|k: int| 0 <= k < n ==> #[trigger] backward_index(0, n + 5, n, k) == n - 1 - k,
{
}

/// Over a collection of `n` items, the window `(0, n)` holds all of them:
/// read backward it gives the last inserted first, read forward the first.
pub proof fn law_window_directions(n: nat)
    ensures
        window_len(0, n, n) == n,
        forall|k: int| 0 <= k < n ==> #[trigger] backward_index(0, n, n, k) == n - 1 - k,
        forall|k: int| 0 <= k < n ==> #[trigger] forward_index(0, k) == k,
{
}

} // verus!
