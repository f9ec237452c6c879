//! Waiting: what to do after each look at something that takes its time.

use crate::text;
use vstd::prelude::*;
use vstd::string::*;

verus! {

/// The pause between two looks, in milliseconds.
pub const PAUSE_MILLIS: u64 = 100;

/// How long a node that was told to end is waited for, in milliseconds.
pub const TEARDOWN_MILLIS: u64 = 2_000;

/// How often a starting node is looked at.
pub const ATTEMPTS: u32 = 300;

/// What to do after a look at a condition.
#[derive(Debug, Clone, Copy, PartialEq, Eq, Structural)]
pub enum Poll {
    /// The condition holds.
    Ready,
    /// The time is over.
    Expired,
    /// Look again after a pause.
    Again,
}

/// What to do after a look at a condition: it counts first whether it holds, then the time.
pub open spec fn polled(holds: bool, elapsed: u128, timeout: u128) -> Poll {
    if holds {
        Poll::Ready
    } else if elapsed >= timeout {
        Poll::Expired
    } else {
        Poll::Again
    }
}

/// Decides what to do after a look at a condition. The times are in nanoseconds.
pub fn poll(holds: bool, elapsed: u128, timeout: u128) -> (r: Poll)
    ensures
        r == polled(holds, elapsed, timeout),
        r == Poll::Ready <==> holds,
        r == Poll::Expired <==> !holds && elapsed >= timeout,
        r == Poll::Again <==> !holds && elapsed < timeout,
{
    if holds {
        Poll::Ready
    } else if elapsed >= timeout {
        Poll::Expired
    } else {
        Poll::Again
    }
}

/// The message of a wait that ran out of time.
pub open spec fn expired_text(timeout: Seq<char>) -> Seq<char> {
    "assert_eventually timed out after "@ + timeout
}

/// The message of a node that wrote no token.
pub open spec fn no_token_text(path: Seq<char>) -> Seq<char> {
    "no api.token at "@ + path
}

/// The message of a wait that ran out of time, given how its time is shown.
pub fn expired_message(timeout: &str) -> (r: String)
    ensures
        r@ == "assert_eventually timed out after "@ + timeout@,
        r@ == expired_text(timeout@),
{
    "assert_eventually timed out after ".to_owned().concat(timeout)
}

/// The message of a node that wrote no token, given how the path of its token file is shown.
pub fn no_token_message(path: &str) -> (r: String)
    ensures
        r@ == "no api.token at "@ + path@,
        r@ == no_token_text(path@),
{
    "no api.token at ".to_owned().concat(path)
}

/// The message of a node whose API did not become healthy.
pub fn not_healthy_message() -> (r: &'static str)
    ensures
        r@ == "node API not healthy"@,
{
    "node API not healthy"
}

/// What came of a look at a starting node.
#[derive(Debug)]
pub enum Attempt<T> {
    /// What was waited for.
    Got(T),
    /// Nothing yet: pause, then look again, after so many looks.
    Retry(u32),
    /// Nothing, and this was the last look.
    Spent,
}

/// How many looks come after `made` looks and one more in vain; `None` where it was the last one.
pub open spec fn next_attempt(made: u32) -> Option<u32> {
    if made < ATTEMPTS - 1 {
        Some((made + 1) as u32)
    } else {
        None
    }
}

/// A look in vain.
fn in_vain<T>(made: u32) -> (r: Attempt<T>)
    ensures
        match next_attempt(made) {
            Some(n) => r == Attempt::<T>::Retry(n),
            None => r == Attempt::<T>::Spent,
        },
{
    if made < ATTEMPTS - 1 {
        Attempt::Retry(made + 1)
    } else {
        Attempt::Spent
    }
}

/// A text holds a token: not all of it is white space.
pub open spec fn holds_token(s: Seq<char>) -> bool {
    !text::all_white(s, 0, s.len() as int)
}

/// The token in the text of a token file: the text without the white space around it.
pub fn token_of(content: &str) -> (r: String)
    ensures
        text::trimmed(content@, r@),
        (r@.len() > 0) == holds_token(content@),
{
    let token: String = text::trim(content);
    proof {
        let (a, b) = choose|a: int, b: int|
            {
                &&& 0 <= a <= b <= content@.len()
                &&& token@ == #[trigger] content@.subrange(a, b)
                &&& text::all_white(content@, 0, a)
                &&& text::all_white(content@, b, content@.len() as int)
                &&& a < b ==> !text::white(content@[a]) && !text::white(content@[b - 1])
            };
        if a < b {
            assert(!text::white(content@[a]));
        } else {
            assert(text::all_white(content@, 0, content@.len() as int));
        }
    }
    token
}

/// `r` is what comes of the `made + 1`st look at the token file of a node, given its text where it
/// could be read.
pub open spec fn is_token_attempt(made: u32, content: Option<Seq<char>>, r: Attempt<String>) -> bool {
    match r {
        Attempt::Got(token) => content matches Some(s) && holds_token(s) && text::trimmed(s, token@),
        Attempt::Retry(n) => !(content matches Some(s) && holds_token(s)) && next_attempt(made)
            == Some(n),
        Attempt::Spent => !(content matches Some(s) && holds_token(s)) && next_attempt(made) is None,
    }
}

/// What comes of the `made + 1`st look at the health of a node, given what the node said where it
/// could be asked.
pub open spec fn health_after(made: u32, healthy: Option<bool>) -> Attempt<()> {
    if healthy == Some(true) {
        Attempt::Got(())
    } else {
        match next_attempt(made) {
            Some(n) => Attempt::Retry(n),
            None => Attempt::Spent,
        }
    }
}

/// Decides what came of the `made + 1`st look at the token file of a node, given its text where it
/// could be read.
pub fn token_attempt(made: u32, content: Option<String>) -> (r: Attempt<String>)
    ensures
        match text::opt(content) {
            Some(s) if holds_token(s) => r matches Attempt::Got(token) && token@.len() > 0
                && text::trimmed(s, token@),
            _ => match next_attempt(made) {
                Some(n) => r == Attempt::<String>::Retry(n),
                None => r == Attempt::<String>::Spent,
            },
        },
        is_token_attempt(made, text::opt(content), r),
{
    if let Some(s) = content {
        let token: String = token_of(s.as_str());
        if !token.as_str().is_empty() {
            return Attempt::Got(token);
        }
    }
    in_vain(made)
}

/// Decides what came of the `made + 1`st look at the health of a node, given what the node said
/// where it could be asked.
pub fn health_attempt(made: u32, healthy: Option<bool>) -> (r: Attempt<()>)
    ensures
        if healthy == Some(true) {
            r == Attempt::Got(())
        } else {
            match next_attempt(made) {
                Some(n) => r == Attempt::<()>::Retry(n),
                None => r == Attempt::<()>::Spent,
            }
        },
        r == health_after(made, healthy),
{
    if healthy.unwrap_or(false) {
        Attempt::Got(())
    } else {
        in_vain(made)
    }
}

/// How many looks there are after `made` of them, when all are in vain.
pub open spec fn looks_left(made: u32) -> nat
    decreases ATTEMPTS - made,
{
    match next_attempt(made) {
        Some(n) => 1 + looks_left(n),
        None => 1,
    }
}

/// So many looks are left, down from any number made.
proof fn lemma_looks_left(made: u32)
    requires
        made < ATTEMPTS,
    ensures
        looks_left(made) == ATTEMPTS - made,
    decreases ATTEMPTS - made,
{
    if made < ATTEMPTS - 1 {
        lemma_looks_left((made + 1) as u32);
    }
}

/// A node has 30 seconds to come up: in vain it is looked at a fixed number of times, with a pause
/// after each.
pub proof fn law_waits_thirty_seconds()
    ensures
        looks_left(0) == ATTEMPTS,
        looks_left(0) * PAUSE_MILLIS == 30_000,
{
    lemma_looks_left(0);
}

/// A wait is over with success just where the condition holds, and without it just where the
/// condition does not hold and the time is over; else it goes on.
pub proof fn law_a_wait_is_ready_where_the_condition_holds(
    holds: bool,
    elapsed: u128,
    timeout: u128,
)
    ensures
        polled(holds, elapsed, timeout) == Poll::Ready <==> holds,
        polled(holds, elapsed, timeout) == Poll::Expired <==> !holds && elapsed >= timeout,
        polled(holds, elapsed, timeout) == Poll::Again <==> !holds && elapsed < timeout,
{
}

/// A wait that is over stays over: the more time has gone by, the less is left of it, and a
/// condition that holds ends it at any time.
pub proof fn law_time_only_ends_a_wait(holds: bool, elapsed: u128, later: u128, timeout: u128)
    requires
        elapsed <= later,
    ensures
        polled(holds, elapsed, timeout) != Poll::Again ==> polled(holds, later, timeout) == polled(
            holds,
            elapsed,
            timeout,
        ),
        polled(true, later, timeout) == Poll::Ready,
        polled(holds, timeout, timeout) != Poll::Again,
{
}

/// A condition that holds is never reported as out of time, however late it is looked at.
pub proof fn law_holding_beats_the_clock(elapsed: u128, timeout: u128)
    ensures
        polled(true, elapsed, timeout) == Poll::Ready,
        polled(false, elapsed, timeout) == Poll::Expired <==> elapsed >= timeout,
{
}

/// A look at the health of a node is the last one just where the node says that it is healthy, or
/// where it was the three-hundredth; any other is followed by one more.
pub proof fn law_only_a_healthy_node_is_up(made: u32, healthy: Option<bool>)
    ensures
        health_after(made, healthy) is Got <==> healthy == Some(true),
        health_after(made, healthy) is Spent <==> healthy != Some(true) && made >= 299,
        health_after(made, healthy) matches Attempt::Retry(n) ==> n == made + 1,
{
}

/// A look at the token file of a node finds a token just where a character stands in it that is no
/// white space, and the token is the text without the white space around it. It is the last look
/// where it finds one, or where it was the three-hundredth; any other is followed by one more.
pub proof fn law_a_token_is_found_where_one_is_written(
    made: u32,
    content: Option<Seq<char>>,
    r: Attempt<String>,
)
    requires
        is_token_attempt(made, content, r),
    ensures
        r is Got <==> content is Some && exists|i: int|
            0 <= i < content->0.len() && !text::white(#[trigger] content->0[i]),
        r matches Attempt::Got(token) ==> text::trimmed(content->0, token@) && token@.len() > 0,
        r is Spent ==> made >= 299,
        r matches Attempt::Retry(n) ==> n == made + 1 && made < 299,
{
    if r is Got {
        let s = content->0;
        let token = r->Got_0@;
        let i = choose|i: int| 0 <= i < s.len() && !text::white(#[trigger] s[i]);
        let (a, b) = choose|a: int, b: int|
            {
                &&& 0 <= a <= b <= s.len()
                &&& token == #[trigger] s.subrange(a, b)
                &&& text::all_white(s, 0, a)
                &&& text::all_white(s, b, s.len() as int)
                &&& a < b ==> !text::white(s[a]) && !text::white(s[b - 1])
            };
        if a == b {
            assert(text::white(s[i]));
        }
    }
}

/// The looks go up one by one, from none to the last, and are a tenth of a second apart; a node that
/// was told to end has two seconds.
pub proof fn law_looks_go_up_one_by_one(made: u32)
    ensures
        next_attempt(made) is Some <==> made < 299,
        next_attempt(made) matches Some(n) ==> n == made + 1,
        PAUSE_MILLIS == 100,
        TEARDOWN_MILLIS == 2_000,
{
}

/// The message of a wait in vain says what was waited for and ends with the time or the path that
/// it was waited for, whatever that is.
pub proof fn law_messages_of_a_wait(s: Seq<char>)
    ensures
        "assert_eventually timed out after "@.is_prefix_of(expired_text(s)),
        expired_text(s).skip("assert_eventually timed out after "@.len() as int) == s,
        "no api.token at "@.is_prefix_of(no_token_text(s)),
        no_token_text(s).skip("no api.token at "@.len() as int) == s,
{
    let a = "assert_eventually timed out after "@;
    let b = "no api.token at "@;
    assert(a =~= expired_text(s).subrange(0, a.len() as int));
    assert(expired_text(s).skip(a.len() as int) =~= s);
    assert(b =~= no_token_text(s).subrange(0, b.len() as int));
    assert(no_token_text(s).skip(b.len() as int) =~= s);
}

} // verus!
