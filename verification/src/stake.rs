//! Sums over a borrower's vouches, and the facts about them that the
//! lending rules rely on.

use vstd::prelude::*;
use crate::types::{AccountId, VouchRecord};

verus! {

/// Largest total stake that may back a single borrower.  Keeping totals
/// at or below half of `i128::MAX` leaves room for doubling a total and
/// for adding a yield share to any single stake.
pub const MAX_BORROWER_STAKE: i128 = 0x3fff_ffff_ffff_ffff_ffff_ffff_ffff_ffff;

/// Sum of all stakes in `vs`, whatever their token.
pub open spec fn total_staked(vs: Seq<VouchRecord>) -> int
    decreases vs.len(),
{
    if vs.len() == 0 {
        0
    } else {
        total_staked(vs.drop_last()) + vs.last().stake
    }
}

/// Sum of the stakes in `vs` denominated in `token`.
pub open spec fn token_stake(vs: Seq<VouchRecord>, token: AccountId) -> int
    decreases vs.len(),
{
    if vs.len() == 0 {
        0
    } else {
        token_stake(vs.drop_last(), token) + (if vs.last().token == token {
            vs.last().stake as int
        } else {
            0
        })
    }
}

/// Sum of the stakes in `vs` denominated in `token` and labelled `sector`.
pub open spec fn sector_stake(vs: Seq<VouchRecord>, token: AccountId, sector: Seq<char>) -> int
    decreases vs.len(),
{
    if vs.len() == 0 {
        0
    } else {
        sector_stake(vs.drop_last(), token, sector) + (if vs.last().token == token
            && vs.last().sector@ == sector {
            vs.last().stake as int
        } else {
            0
        })
    }
}

/// Every stake in `vs` is strictly positive.
pub open spec fn stakes_positive(vs: Seq<VouchRecord>) -> bool {
    forall|i: int| 0 <= i < vs.len() ==> #[trigger] vs[i].stake > 0
}

/// The stakes of `vs` are positive and their total stays within the cap.
pub open spec fn stakes_bounded(vs: Seq<VouchRecord>) -> bool {
    &&& stakes_positive(vs)
    &&& total_staked(vs) <= MAX_BORROWER_STAKE
}

/// No single sector contributes more than half of the stake in `token`.
pub open spec fn sectors_diversified(vs: Seq<VouchRecord>, token: AccountId) -> bool {
    forall|i: int|
        0 <= i < vs.len() && vs[i].token == token ==> 2 * sector_stake(vs, token, #[trigger] vs[i].sector@)
            <= token_stake(vs, token)
}

pub proof fn lemma_sums_nonneg(vs: Seq<VouchRecord>, token: AccountId, sector: Seq<char>)
    requires
        stakes_positive(vs),
    ensures
        0 <= sector_stake(vs, token, sector) <= token_stake(vs, token) <= total_staked(vs),
    decreases vs.len(),
{
    if vs.len() > 0 {
        assert(vs.last().stake > 0) by {
            assert(vs[vs.len() - 1].stake > 0);
        }
        lemma_sums_nonneg(vs.drop_last(), token, sector);
    }
}

pub proof fn lemma_total_prefix(vs: Seq<VouchRecord>, i: int)
    requires
        stakes_positive(vs),
        0 <= i <= vs.len(),
    ensures
        0 <= total_staked(vs.take(i)) <= total_staked(vs),
    decreases vs.len(),
{
    if i == vs.len() {
        assert(vs.take(i) =~= vs);
        lemma_sums_nonneg(vs, AccountId(0), Seq::empty());
    } else {
        assert(vs.last().stake > 0) by {
            assert(vs[vs.len() - 1].stake > 0);
        }
        assert(vs.drop_last().take(i) =~= vs.take(i));
        lemma_total_prefix(vs.drop_last(), i);
    }
}

/// A single stake in `token` is at most the total stake in `token`.
pub proof fn lemma_stake_le_token_stake(vs: Seq<VouchRecord>, token: AccountId, i: int)
    requires
        stakes_positive(vs),
        0 <= i < vs.len(),
        vs[i].token == token,
    ensures
        vs[i].stake <= token_stake(vs, token),
    decreases vs.len(),
{
    lemma_sums_nonneg(vs.drop_last(), token, Seq::empty());
    if i < vs.len() - 1 {
        assert(vs.drop_last()[i] == vs[i]);
        lemma_stake_le_token_stake(vs.drop_last(), token, i);
        assert(vs.last().stake > 0) by {
            assert(vs[vs.len() - 1].stake > 0);
        }
    }
}

/// A single stake is at most the total stake.
pub proof fn lemma_stake_le_total(vs: Seq<VouchRecord>, i: int)
    requires
        stakes_positive(vs),
        0 <= i < vs.len(),
    ensures
        vs[i].stake <= total_staked(vs),
    decreases vs.len(),
{
    lemma_sums_nonneg(vs.drop_last(), AccountId(0), Seq::empty());
    if i < vs.len() - 1 {
        assert(vs.drop_last()[i] == vs[i]);
        lemma_stake_le_total(vs.drop_last(), i);
        assert(vs.last().stake > 0) by {
            assert(vs[vs.len() - 1].stake > 0);
        }
    }
}

/// Replacing one vouch changes the total by the difference of the stakes.
pub proof fn lemma_total_update(vs: Seq<VouchRecord>, k: int, r: VouchRecord)
    requires
        0 <= k < vs.len(),
    ensures
        total_staked(vs.update(k, r)) == total_staked(vs) - vs[k].stake + r.stake,
    decreases vs.len(),
{
    if k == vs.len() - 1 {
        assert(vs.update(k, r).drop_last() =~= vs.drop_last());
    } else {
        assert(vs.update(k, r).drop_last() =~= vs.drop_last().update(k, r));
        lemma_total_update(vs.drop_last(), k, r);
    }
}

/// Removing one vouch takes its stake off the total.
pub proof fn lemma_total_remove(vs: Seq<VouchRecord>, k: int)
    requires
        0 <= k < vs.len(),
    ensures
        total_staked(vs.remove(k)) == total_staked(vs) - vs[k].stake,
    decreases vs.len(),
{
    if k == vs.len() - 1 {
        assert(vs.remove(k) =~= vs.drop_last());
    } else {
        assert(vs.remove(k).drop_last() =~= vs.drop_last().remove(k));
        lemma_total_remove(vs.drop_last(), k);
    }
}

/// Appending one vouch adds its stake to the total.
pub proof fn lemma_total_push(vs: Seq<VouchRecord>, r: VouchRecord)
    ensures
        total_staked(vs.push(r)) == total_staked(vs) + r.stake,
{
    assert(vs.push(r).drop_last() =~= vs);
}

/// Extending a prefix by one element adds that element's contribution.
pub proof fn lemma_take_step(vs: Seq<VouchRecord>, i: int)
    requires
        0 <= i < vs.len(),
    ensures
        vs.take(i + 1).drop_last() == vs.take(i),
        vs.take(i + 1).last() == vs[i],
{
    assert(vs.take(i + 1).drop_last() =~= vs.take(i));
}

} // verus!
