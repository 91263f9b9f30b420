//! Decisions taken while connections are set up: which accepted stream
//! carries which channel, and how many clients to keep accepting.

use vstd::prelude::*;

use crate::errors::{ConnectionError, ConnectionErrorKind};

verus! {

/// Every token names a channel below `n`.
pub open spec fn tokens_in_range(tokens: Seq<u32>, n: int) -> bool {
    forall|i: int| 0 <= i < tokens.len() ==> #[trigger] tokens[i] < n
}

/// No two tokens are the same.
pub open spec fn tokens_distinct(tokens: Seq<u32>) -> bool {
    forall|i: int, j: int| 0 <= i < j < tokens.len() ==> #[trigger] tokens[i] != #[trigger] tokens[j]
}

/// Binds the incoming streams of one connection to their channels. The
/// stream accepted `i`-th announced channel `tokens[i]`; the result holds,
/// for each channel `c`, the position of the stream that announced it. Every
/// channel below the number of streams must be announced exactly once.
pub fn bind_incoming(tokens: &Vec<u32>) -> (r: Result<Vec<usize>, ConnectionError>)
    requires
        tokens.len() <= u32::MAX,
    ensures
        r matches Err(e) ==> e.kind == ConnectionErrorKind::UnexpectedChannel
            || e.kind == ConnectionErrorKind::DuplicateChannel,
        (r matches Err(e) && e.kind == ConnectionErrorKind::UnexpectedChannel)
            <==> !tokens_in_range(tokens@, tokens@.len() as int),
        (r matches Err(e) && e.kind == ConnectionErrorKind::DuplicateChannel)
            <==> (tokens_in_range(tokens@, tokens@.len() as int) && !tokens_distinct(tokens@)),
        r matches Ok(order) ==> {
            &&& order@.len() == tokens@.len()
            &&& forall|c: int| 0 <= c < order@.len() ==> {
                &&& #[trigger] order@[c] < tokens@.len()
                &&& tokens@[order@[c] as int] == c
            }
        },
{
    let n = tokens.len();
    let mut i: usize = 0;
    while i < n
        invariant
            n == tokens.len(),
            i <= n,
            forall|k: int| 0 <= k < i ==> #[trigger] tokens@[k] < n,
        decreases n - i,
    {
        if tokens[i] as usize >= n {
            return Err(ConnectionError::new(ConnectionErrorKind::UnexpectedChannel));
        }
        i = i + 1;
    }
    let mut order: Vec<usize> = Vec::new();
    let mut seen: Vec<bool> = Vec::new();
    let mut k: usize = 0;
    while k < n
        invariant
            n == tokens.len(),
            k <= n,
            order@.len() == k,
            seen@.len() == k,
            forall|c: int| 0 <= c < k ==> !#[trigger] seen@[c] && order@[c] == 0,
        decreases n - k,
    {
        order.push(0);
        seen.push(false);
        k = k + 1;
    }
    let mut j: usize = 0;
    while j < n
        invariant
            n == tokens.len(),
            j <= n,
            order@.len() == n,
            seen@.len() == n,
            tokens_in_range(tokens@, n as int),
            forall|a: int, b: int| 0 <= a < b < j ==> #[trigger] tokens@[a] != #[trigger] tokens@[b],
            forall|c: int| 0 <= c < n ==> (#[trigger] seen@[c] <==> exists|a: int| 0 <= a < j && tokens@[a] == c),
            forall|c: int| 0 <= c < n && #[trigger] seen@[c] ==> order@[c] < j && tokens@[order@[c] as int] == c,
        decreases n - j,
    {
        let c = tokens[j] as usize;
        if seen[c] {
            proof {
                let a = choose|a: int| 0 <= a < j && tokens@[a] == c;
                assert(tokens@[a] == tokens@[j as int]);
            }
            return Err(ConnectionError::new(ConnectionErrorKind::DuplicateChannel));
        }
        let ghost seen_before = seen@;
        seen.set(c, true);
        order.set(c, j);
        proof {
            assert forall|cc: int| 0 <= cc < n implies (#[trigger] seen@[cc] <==> exists|a: int|
                0 <= a < j + 1 && tokens@[a] == cc) by {
                if cc == c {
                    assert(tokens@[j as int] == cc);
                } else if seen@[cc] {
                    let a = choose|a: int| 0 <= a < j && tokens@[a] == cc;
                    assert(0 <= a < j + 1 && tokens@[a] == cc);
                }
            }
            assert forall|a: int, b: int| 0 <= a < b < j + 1 implies #[trigger] tokens@[a] != #[trigger] tokens@[b] by {
                if b == j && tokens@[a] == tokens@[b] {
                    assert(0 <= a < j && tokens@[a] == c);
                    assert(seen_before[c as int]);
                }
            }
        }
        j = j + 1;
    }
    proof {
        assert forall|c: int| 0 <= c < order@.len() implies #[trigger] order@[c] < tokens@.len() && tokens@[order@[c] as int] == c by {
            lemma_all_announced(tokens@, c);
            assert(seen@[c]);
        }
    }
    Ok(order)
}

/// `n` distinct tokens, each below `n`, announce every channel below `n`.
proof fn lemma_all_announced(tokens: Seq<u32>, c: int)
    requires
        tokens_in_range(tokens, tokens.len() as int),
        tokens_distinct(tokens),
        0 <= c < tokens.len(),
    ensures
        exists|a: int| 0 <= a < tokens.len() && tokens[a] == c,
{
    if !exists|a: int| 0 <= a < tokens.len() && tokens[a] == c {
        let n = tokens.len() as int;
        let ints = tokens.map_values(|t: u32| t as int);
        assert(ints.no_duplicates()) by {
            assert forall|i: int, j: int| 0 <= i < ints.len() && 0 <= j < ints.len() && i != j implies ints[i]
                != ints[j] by {
                if i < j {
                    assert(tokens[i] != tokens[j]);
                } else {
                    assert(tokens[j] != tokens[i]);
                }
            }
        }
        ints.unique_seq_to_set();
        let full = vstd::set_lib::set_int_range(0, n).remove(c);
        vstd::set_lib::lemma_int_range(0, n);
        assert forall|x: int| ints.to_set().contains(x) implies full.contains(x) by {
            let i = choose|i: int| 0 <= i < ints.len() && ints[i] == x;
            assert(tokens[i] < n);
            assert(tokens[i] != c);
        }
        vstd::set_lib::lemma_len_subset(ints.to_set(), full);
        assert(false);
    }
}

/// Whether a server keeps accepting clients after the ones it waited for.
#[derive(Debug, Clone, Copy, PartialEq, Eq, Structural)]
pub enum AcceptPlan {
    /// Accept no more.
    NoMore,
    /// Accept clients for as long as the server runs.
    Unbounded,
    /// Accept this many more.
    Count(u32),
}

/// After waiting for `wait_for_clients` clients, a server that expects
/// `expected_num_clients` in all accepts the rest in the background; one that
/// expects no set number accepts for as long as it runs.
pub fn background_accepts(wait_for_clients: u32, expected_num_clients: Option<u32>) -> (r: AcceptPlan)
    ensures
        r == match expected_num_clients {
            None => AcceptPlan::Unbounded,
            Some(e) => if e > wait_for_clients {
                AcceptPlan::Count((e - wait_for_clients) as u32)
            } else {
                AcceptPlan::NoMore
            },
        },
{
    match expected_num_clients {
        None => AcceptPlan::Unbounded,
        Some(e) => if e > wait_for_clients {
            AcceptPlan::Count(e - wait_for_clients)
        } else {
            AcceptPlan::NoMore
        },
    }
}

} // verus!
