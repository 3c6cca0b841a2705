use forum_contract::contract::{Contract, DEFAULT_FEE};
use forum_contract::error::ContractError;
use forum_contract::fees::Fees;
use forum_contract::page::window;
use forum_contract::post::Reaction;

const OPERATOR: &str = "alice_near";
const SIGNER: &str = "bob_near";
const THREAD: &str = "test_cat";

fn s(x: &str) -> String {
    x.to_string()
}

fn fresh() -> Contract {
    Contract::new(s(OPERATOR))
}

fn with_thread() -> Contract {
    let mut c = fresh();
    c.add_thread(DEFAULT_FEE, s(THREAD)).unwrap();
    c
}

#[test]
fn test_add_post() {
    let text = String::from("test message");
    let cid = String::from("abcdefg");
    let mut contract = with_thread();
    contract
        .add_post(&s(SIGNER), 0, DEFAULT_FEE, &s(THREAD), text.to_string(), Some(cid))
        .unwrap();
    let posts = contract.get_thread(&s(THREAD), 0, 1).unwrap();
    assert_eq!(text, posts.get(0).unwrap().text);
}

#[test]
fn test_react_to_post() {
    let text = String::from("test message");
    let cid = String::from("abcdefg");
    let mut contract = with_thread();
    contract
        .add_post(&s(SIGNER), 0, DEFAULT_FEE, &s(THREAD), text.to_string(), Some(cid.to_string()))
        .unwrap();
    let get_thread_result = contract.get_thread(&s(THREAD), 0, 1).unwrap();
    let post = get_thread_result.get(0).unwrap();
    contract
        .react_to_post(&s(SIGNER), 0, &s(THREAD), &post.id, Reaction::Like)
        .unwrap();
    let after = contract.get_thread(&s(THREAD), 0, 1).unwrap();
    let found = after[0]
        .reactions
        .iter()
        .find(|r| r.account == SIGNER)
        .expect("Test account not found");
    assert_eq!(Reaction::Like, found.reaction);
}

#[test]
fn post_id_is_account_dash_time() {
    let mut c = with_thread();
    c.add_post(&s(SIGNER), 1234567, DEFAULT_FEE, &s(THREAD), s("hi"), None).unwrap();
    let posts = c.get_thread(&s(THREAD), 0, 10).unwrap();
    assert_eq!(posts[0].id, "bob_near-1234567");
    assert_eq!(posts[0].created_timestamp, 1234567);
    assert!(posts[0].tags.is_empty());
    assert!(posts[0].ad.is_none());
}

#[test]
fn fees_as_decimal_strings() {
    let c = fresh();
    let f = c.get_fees();
    assert_eq!(f.post_fee, "10000000000000000000000");
    assert_eq!(f.thread_fee, "10000000000000000000000");
    let zero = Fees { post_fee: 0, thread_fee: 7, profile_fee: 120, friend_fee: u128::MAX };
    let j = zero.to_json_fees();
    assert_eq!(j.post_fee, "0");
    assert_eq!(j.thread_fee, "7");
    assert_eq!(j.profile_fee, "120");
    assert_eq!(j.friend_fee, "340282366920938463463374607431768211455");
}

#[test]
fn underpaid_thread_is_refunded_and_changes_nothing() {
    let mut c = fresh();
    let r = c.add_thread(DEFAULT_FEE - 1, s(THREAD));
    assert_eq!(
        r,
        Err(ContractError::InsufficientFee { required: DEFAULT_FEE, refund: DEFAULT_FEE - 1 })
    );
    assert!(c.get_threads(0, 10).is_empty());
}

#[test]
fn underpaid_post_and_friend_actions_fail() {
    let mut c = with_thread();
    c.put_person(&s("a"), 1, None, None);
    c.put_person(&s("b"), 2, None, None);
    let r = c.add_post(&s("a"), 5, 3, &s(THREAD), s("x"), None);
    assert_eq!(r, Err(ContractError::InsufficientFee { required: DEFAULT_FEE, refund: 3 }));
    assert!(c.get_thread(&s(THREAD), 0, 10).unwrap().is_empty());
    let r = c.send_friend_request(&s("a"), 0, &s("b"), None);
    assert_eq!(r, Err(ContractError::InsufficientFee { required: DEFAULT_FEE, refund: 0 }));
    assert!(c.get_friend_requests(&s("b"), 0, 10).unwrap().is_empty());
    let r = c.accept_friend_request(&s("b"), 9, &s("a"));
    assert_eq!(r, Err(ContractError::InsufficientFee { required: DEFAULT_FEE, refund: 9 }));
    assert!(c.get_person(&s("b")).unwrap().friends.is_empty());
}

#[test]
fn overpaying_is_accepted() {
    let mut c = fresh();
    assert_eq!(c.add_thread(DEFAULT_FEE + 1, s(THREAD)), Ok(s(THREAD)));
}

#[test]
fn thread_created_twice_fails() {
    let mut c = fresh();
    assert_eq!(c.add_thread(DEFAULT_FEE, s(THREAD)), Ok(s(THREAD)));
    assert_eq!(c.add_thread(DEFAULT_FEE, s(THREAD)), Err(ContractError::AlreadyExists));
    let threads = c.get_threads(0, 10);
    assert_eq!(threads.len(), 1);
    assert_eq!(threads[0].name, THREAD);
    assert_eq!(threads[0].size, 0);
}

#[test]
fn friendship_is_symmetric() {
    let mut c = fresh();
    c.put_person(&s("a"), 1, Some(s("hello")), None);
    c.put_person(&s("b"), 2, None, Some(s("cid")));
    c.send_friend_request(&s("a"), DEFAULT_FEE, &s("b"), Some(s("hi"))).unwrap();
    let pending = c.get_friend_requests(&s("b"), 0, 10).unwrap();
    assert_eq!(pending.len(), 1);
    assert_eq!(pending[0].account, "a");
    assert_eq!(pending[0].message, Some(s("hi")));
    c.accept_friend_request(&s("b"), DEFAULT_FEE, &s("a")).unwrap();
    assert_eq!(c.get_person(&s("a")).unwrap().friends, vec![s("b")]);
    assert_eq!(c.get_person(&s("b")).unwrap().friends, vec![s("a")]);
    assert!(c.get_friend_requests(&s("b"), 0, 10).unwrap().is_empty());
}

#[test]
fn friend_request_to_unknown_person_fails() {
    let mut c = fresh();
    c.put_person(&s("a"), 1, None, None);
    assert_eq!(
        c.send_friend_request(&s("a"), DEFAULT_FEE, &s("nobody"), None),
        Err(ContractError::NotFound)
    );
    assert_eq!(
        c.accept_friend_request(&s("a"), DEFAULT_FEE, &s("nobody")),
        Err(ContractError::NotFound)
    );
    assert_eq!(c.reject_friend_request(&s("nobody"), &s("a")), Err(ContractError::NotFound));
    assert_eq!(c.get_friend_requests(&s("nobody"), 0, 1).err(), Some(ContractError::NotFound));
}

#[test]
fn repeated_request_replaces_message() {
    let mut c = fresh();
    c.put_person(&s("a"), 1, None, None);
    c.put_person(&s("b"), 1, None, None);
    c.send_friend_request(&s("a"), DEFAULT_FEE, &s("b"), Some(s("one"))).unwrap();
    c.send_friend_request(&s("a"), DEFAULT_FEE, &s("b"), Some(s("two"))).unwrap();
    let pending = c.get_friend_requests(&s("b"), 0, 10).unwrap();
    assert_eq!(pending.len(), 1);
    assert_eq!(pending[0].message, Some(s("two")));
}

#[test]
fn reject_removes_request_only() {
    let mut c = fresh();
    c.put_person(&s("a"), 1, None, None);
    c.put_person(&s("b"), 1, None, None);
    c.send_friend_request(&s("a"), DEFAULT_FEE, &s("b"), None).unwrap();
    assert_eq!(c.reject_friend_request(&s("b"), &s("a")), Ok(()));
    assert!(c.get_friend_requests(&s("b"), 0, 10).unwrap().is_empty());
    assert!(c.get_person(&s("b")).unwrap().friends.is_empty());
    assert_eq!(c.reject_friend_request(&s("b"), &s("a")), Ok(()));
}

#[test]
fn reacting_twice_keeps_one_reaction() {
    let mut c = with_thread();
    c.add_post(&s("a"), 3, DEFAULT_FEE, &s(THREAD), s("x"), None).unwrap();
    let id = c.get_thread(&s(THREAD), 0, 1).unwrap()[0].id.clone();
    c.react_to_post(&s("b"), 4, &s(THREAD), &id, Reaction::Like).unwrap();
    c.react_to_post(&s("b"), 5, &s(THREAD), &id, Reaction::Dislike).unwrap();
    let post = &c.get_thread(&s(THREAD), 0, 1).unwrap()[0];
    assert_eq!(post.reactions.len(), 1);
    assert_eq!(post.reactions[0].reaction, Reaction::Dislike);
    assert_eq!(post.reactions[0].account, "b");
    assert_eq!(post.reactions[0].created_timestamp, 5);
}

#[test]
fn unreact_cases() {
    let mut c = with_thread();
    c.add_post(&s("a"), 3, DEFAULT_FEE, &s(THREAD), s("x"), None).unwrap();
    let id = c.get_thread(&s(THREAD), 0, 1).unwrap()[0].id.clone();
    assert_eq!(c.unreact_to_post(&s("b"), &s(THREAD), &id), Err(ContractError::NoReaction));
    c.react_to_post(&s("b"), 4, &s(THREAD), &id, Reaction::Flag).unwrap();
    assert_eq!(c.unreact_to_post(&s("b"), &s(THREAD), &id), Ok(()));
    assert!(c.get_thread(&s(THREAD), 0, 1).unwrap()[0].reactions.is_empty());
    assert_eq!(c.unreact_to_post(&s("b"), &s(THREAD), &s("nope")), Err(ContractError::NotFound));
    assert_eq!(
        c.react_to_post(&s("b"), 4, &s("other"), &id, Reaction::Like),
        Err(ContractError::NotFound)
    );
}

#[test]
fn window_edges() {
    assert_eq!(window(3, 10, 3), (3, 3));
    assert_eq!(window(0, 8, 3), (0, 3));
    assert_eq!(window(1, 1, 3), (1, 2));
    assert_eq!(window(5, u64::MAX, 3), (5, 3));
    assert_eq!(window(2, u64::MAX, 10), (2, 10));
}

#[test]
fn pagination_is_bounded() {
    let mut c = fresh();
    for (i, name) in ["p1", "p2", "p3"].iter().enumerate() {
        c.put_person(&s(name), i as u64, None, None);
    }
    assert!(c.get_people(3, 100).is_empty());
    assert_eq!(c.get_people(0, 8).len(), 3);
    assert!(c.get_people(0, 0).is_empty());
    assert_eq!(c.get_people(1, u64::MAX).len(), 2);
}

#[test]
fn thread_listing_is_newest_first() {
    let mut c = with_thread();
    for t in [1u64, 2, 3] {
        c.add_post(&s("a"), t, DEFAULT_FEE, &s(THREAD), format!("P{}", t), None).unwrap();
    }
    let posts = c.get_thread(&s(THREAD), 0, 3).unwrap();
    let texts: Vec<&str> = posts.iter().map(|p| p.text.as_str()).collect();
    assert_eq!(texts, vec!["P3", "P2", "P1"]);
    let middle = c.get_thread(&s(THREAD), 1, 1).unwrap();
    assert_eq!(middle[0].text, "P2");
}

#[test]
fn friend_requests_are_read_forward() {
    let mut c = fresh();
    for name in ["t", "r1", "r2"] {
        c.put_person(&s(name), 0, None, None);
    }
    c.send_friend_request(&s("r1"), DEFAULT_FEE, &s("t"), None).unwrap();
    c.send_friend_request(&s("r2"), DEFAULT_FEE, &s("t"), None).unwrap();
    let reqs = c.get_friend_requests(&s("t"), 0, 2).unwrap();
    assert_eq!(reqs[0].account, "r1");
    assert_eq!(reqs[1].account, "r2");
}

#[test]
fn people_and_threads_newest_first() {
    let mut c = fresh();
    c.put_person(&s("x"), 1, None, None);
    c.put_person(&s("y"), 2, None, None);
    let people = c.get_people(0, 2);
    assert_eq!(people[0].account, "y");
    assert_eq!(people[1].account, "x");
    c.add_thread(DEFAULT_FEE, s("first")).unwrap();
    c.add_thread(DEFAULT_FEE, s("second")).unwrap();
    let threads = c.get_threads(0, 5);
    assert_eq!(threads[0].name, "second");
    assert_eq!(threads[1].name, "first");
}

#[test]
fn operator_only_operations() {
    let mut c = with_thread();
    c.add_post(&s("a"), 1, DEFAULT_FEE, &s(THREAD), s("x"), None).unwrap();
    let fees = Fees { post_fee: 1, thread_fee: 2, profile_fee: 3, friend_fee: 4 };
    assert_eq!(c.set_fees(&s(SIGNER), fees), Err(ContractError::Unauthorized));
    assert_eq!(c.get_fees().thread_fee, "10000000000000000000000");
    assert_eq!(c.delete_thread(&s(SIGNER), &s(THREAD)), Err(ContractError::Unauthorized));
    assert_eq!(
        c.delete_post(&s(SIGNER), &s(THREAD), &s("a-1")),
        Err(ContractError::Unauthorized)
    );
    assert_eq!(c.get_thread(&s(THREAD), 0, 5).unwrap().len(), 1);
    assert_eq!(c.set_fees(&s(OPERATOR), fees), Ok(()));
    assert_eq!(c.get_fees().friend_fee, "4");
}

#[test]
fn operator_deletes() {
    let mut c = with_thread();
    c.add_post(&s("a"), 1, 2, &s(THREAD), s("x"), None).ok();
    c.add_post(&s("a"), 1, DEFAULT_FEE, &s(THREAD), s("x"), None).unwrap();
    assert_eq!(c.delete_post(&s(OPERATOR), &s("missing"), &s("a-1")), Err(ContractError::NotFound));
    assert_eq!(c.delete_post(&s(OPERATOR), &s(THREAD), &s("nope")), Ok(()));
    assert_eq!(c.delete_post(&s(OPERATOR), &s(THREAD), &s("a-1")), Ok(()));
    assert!(c.get_thread(&s(THREAD), 0, 5).unwrap().is_empty());
    assert_eq!(c.delete_thread(&s(OPERATOR), &s(THREAD)), Ok(()));
    assert_eq!(c.get_thread(&s(THREAD), 0, 5).err(), Some(ContractError::NotFound));
    assert_eq!(c.delete_thread(&s(OPERATOR), &s(THREAD)), Ok(()));
}

#[test]
fn same_author_same_time_replaces_post() {
    let mut c = with_thread();
    c.add_post(&s("a"), 1, DEFAULT_FEE, &s(THREAD), s("old"), None).unwrap();
    c.add_post(&s("a"), 1, DEFAULT_FEE, &s(THREAD), s("new"), None).unwrap();
    let posts = c.get_thread(&s(THREAD), 0, 5).unwrap();
    assert_eq!(posts.len(), 1);
    assert_eq!(posts[0].text, "new");
}

#[test]
fn profile_written_in_place() {
    let mut c = fresh();
    let first = c.put_person(&s("a"), 10, Some(s("t1")), None);
    assert_eq!(first.created_timestamp, 10);
    let second = c.put_person(&s("a"), 20, None, Some(s("c")));
    assert_eq!(second.created_timestamp, 10);
    assert_eq!(second.text, None);
    assert_eq!(second.cid, Some(s("c")));
    assert_eq!(c.get_people(0, 10).len(), 1);
    assert!(c.get_person(&s("z")).is_none());
}
