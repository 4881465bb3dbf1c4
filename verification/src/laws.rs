//! Laws of the ledger that span more than one operation.
//!
//! Each proof function here states, over the same spec-level transitions the
//! operation contracts are phrased with, a property that no single contract
//! spells out on its own.

use vstd::prelude::*;
use crate::lookup::{KeyedView, entry_for, first_idx, has_key, lemma_first_idx,
    lemma_first_idx_same_keys};
use crate::task_manager::{credit_user, page, sat_add64};
use crate::user::UserV;

verus! {

/// The user store after `n` accepted chunk submissions have each credited
/// one reward unit to the user stored under `k` — the state
/// `submit_computed_chunk` leaves the users in when called `n` times with
/// chunks assigned to that user.
pub open spec fn credit_n(s: Seq<UserV>, k: Seq<char>, n: nat) -> Seq<UserV>
    decreases n,
{
    if n == 0 {
        s
    } else {
        credit_user(credit_n(s, k, (n - 1) as nat), k, 1)
    }
}

/// Reward accounting: `n` accepted chunk submissions attributed to the same
/// registered user raise exactly that user's reward balance by exactly `n`,
/// as long as the balance stays below the saturation cap; every other entry
/// of the store, and every other field of the credited entry, is untouched.
pub proof fn lemma_reward_accounting(s: Seq<UserV>, k: Seq<char>, n: nat)
    requires
        has_key(s, k),
        entry_for(s, k).rewards + n <= u64::MAX,
    ensures
        credit_n(s, k, n).len() == s.len(),
        forall|j: int|
            0 <= j < s.len() && j != first_idx(s, k) ==> credit_n(s, k, n)[j] == s[j],
        credit_n(s, k, n)[first_idx(s, k)] == (UserV {
            rewards: (entry_for(s, k).rewards + n) as u64,
            ..s[first_idx(s, k)]
        }),
    decreases n,
{
    lemma_first_idx(s, k);
    let i = first_idx(s, k);
    if n == 0 {
        assert(credit_n(s, k, 0)[i] =~= (UserV { rewards: s[i].rewards, ..s[i] }));
    } else {
        lemma_reward_accounting(s, k, (n - 1) as nat);
        let t = credit_n(s, k, (n - 1) as nat);
        assert(forall|j: int| 0 <= j < s.len() ==> t[j].id == s[j].id);
        lemma_first_idx_same_keys(s, t, k);
        assert(first_idx(t, k) == i);
        assert(t[i].rewards == entry_for(s, k).rewards + n - 1);
        assert(sat_add64(t[i].rewards, 1) == entry_for(s, k).rewards + n);
        assert(credit_n(s, k, n) == t.update(
            i,
            UserV {
                id: t[i].id,
                resources: t[i].resources,
                rewards: sat_add64(t[i].rewards, 1),
                rate_limit_tokens: t[i].rate_limit_tokens,
            },
        ));
        assert(credit_n(s, k, n)[i] =~= (UserV {
            rewards: (entry_for(s, k).rewards + n) as u64,
            ..s[i]
        }));
    }
}

/// Pagination: a page of a deterministically ordered sequence is exactly
/// its slice `[offset, offset + limit)`, clipped to the end of the
/// sequence; an offset at or past the end, or a limit of zero, yields the
/// empty page, and neither is an error.
pub proof fn lemma_page_is_slice<T>(s: Seq<T>, offset: int, limit: int)
    requires
        0 <= offset,
        0 <= limit,
    ensures
        offset >= s.len() ==> page(s, offset, limit) == Seq::<T>::empty(),
        limit == 0 ==> page(s, offset, limit) == Seq::<T>::empty(),
        offset + limit <= s.len() ==> page(s, offset, limit) == s.subrange(
            offset,
            offset + limit,
        ),
        offset < s.len() && offset + limit > s.len() ==> page(s, offset, limit) == s.subrange(
            offset,
            s.len() as int,
        ),
        page(s, offset, limit).len() == if offset >= s.len() {
            0
        } else if offset + limit <= s.len() {
            limit
        } else {
            s.len() - offset
        },
{
    if offset >= s.len() {
    } else if limit == 0 {
        assert(page(s, offset, limit) =~= Seq::<T>::empty());
    }
    if offset + limit <= s.len() && offset >= s.len() {
        assert(page(s, offset, limit) =~= s.subrange(offset, offset + limit));
    }
}

} // verus!
