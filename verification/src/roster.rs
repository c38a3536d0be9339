//! Finalizer roster maintenance: apportioning block rewards among the
//! finalizers, applying staking commands, and the sorted roster handed to the
//! BFT engine.
use crate::fat_pointer::{bytes_equal, total_voting_power, MalPublicKey2, MalValidator};
use vstd::prelude::*;

verus! {

/// Reward, in stake units, shared among the finalizers for each newly
/// finalized PoW block.
pub const POS_TOTAL_REWARD: u64 = 6000;

/// Whether `i` is, among the first `n` finalizers, the first one holding the
/// largest non-zero voting power.
pub open spec fn is_max_upto(f: Seq<MalValidator>, n: int, i: int) -> bool {
    &&& 0 <= i < n <= f.len()
    &&& f[i].voting_power > 0
    &&& forall|j: int| 0 <= j < n ==> #[trigger] f[j].voting_power <= f[i].voting_power
    &&& forall|j: int| 0 <= j < i ==> #[trigger] f[j].voting_power < f[i].voting_power
}

/// The finalizer that receives the rounding remainder of a reward: the first
/// one holding the largest non-zero voting power.
pub open spec fn max_finalizer(f: Seq<MalValidator>) -> int {
    choose|i: int| #[trigger] is_max_upto(f, f.len() as int, i)
}

/// A finalizer's proportional share of `reward`, rounded down.
pub open spec fn reward_share(power: u64, reward: u64, total: int) -> int {
    (power * reward) / total
}

/// Sum of the rounded-down shares of the first `n` finalizers.
pub open spec fn shares_sum(f: Seq<MalValidator>, reward: u64, total: int, n: int) -> int
    decreases n,
{
    if n <= 0 {
        0
    } else {
        shares_sum(f, reward, total, n - 1) + reward_share(f[n - 1].voting_power, reward, total)
    }
}

/// Voting power of finalizer `i` after `reward` is apportioned: each finalizer
/// gains its rounded-down share, and the first finalizer with the largest
/// stake also gains everything the rounding left over. Nothing changes when
/// no finalizer has stake.
pub open spec fn apportioned_power(f: Seq<MalValidator>, reward: u64, i: int) -> int {
    let total = total_voting_power(f);
    let share = reward_share(f[i].voting_power, reward, total);
    if total == 0 {
        f[i].voting_power as int
    } else if i == max_finalizer(f) {
        f[i].voting_power + share + (reward - shares_sum(f, reward, total, f.len() as int))
    } else {
        f[i].voting_power + share
    }
}

/// The roster after `reward` is apportioned.
pub open spec fn apportioned(f: Seq<MalValidator>, reward: u64) -> Seq<MalValidator> {
    Seq::new(
        f.len(),
        |i: int|
            MalValidator {
                address: f[i].address,
                public_key: f[i].public_key,
                voting_power: apportioned_power(f, reward, i) as u64,
            },
    )
}

/// The roster's total stake, and every apportioned stake, fit in a `u64`.
pub open spec fn apportioning_fits(f: Seq<MalValidator>, reward: u64) -> bool {
    &&& total_voting_power(f) <= u64::MAX
    &&& forall|i: int| 0 <= i < f.len() ==> #[trigger] apportioned_power(f, reward, i) <= u64::MAX
}

proof fn lemma_total_prefix_step(f: Seq<MalValidator>, n: int)
    requires
        0 <= n < f.len(),
    ensures
        total_voting_power(f.subrange(0, n + 1)) == total_voting_power(f.subrange(0, n))
            + f[n].voting_power,
{
    assert(f.subrange(0, n + 1).drop_last() == f.subrange(0, n));
}

proof fn lemma_total_prefix_le(f: Seq<MalValidator>, n: int)
    requires
        0 <= n <= f.len(),
    ensures
        0 <= total_voting_power(f.subrange(0, n)) <= total_voting_power(f),
        forall|j: int| 0 <= j < n ==> #[trigger] f[j].voting_power <= total_voting_power(f),
    decreases f.len() - n,
{
    if n < f.len() {
        lemma_total_prefix_le(f, n + 1);
        lemma_total_prefix_step(f, n);
        lemma_total_nonneg(f, n);
        assert forall|j: int| 0 <= j < n implies #[trigger] f[j].voting_power <= total_voting_power(
            f,
        ) by {
            lemma_total_prefix_le(f, n + 1);
        }
    } else {
        assert(f.subrange(0, n) == f);
        lemma_total_nonneg(f, n);
        assert forall|j: int| 0 <= j < n implies #[trigger] f[j].voting_power <= total_voting_power(
            f,
        ) by {
            lemma_member_le_prefix_total(f, j, n);
        }
    }
}

proof fn lemma_total_nonneg(f: Seq<MalValidator>, n: int)
    requires
        0 <= n <= f.len(),
    ensures
        total_voting_power(f.subrange(0, n)) >= 0,
    decreases n,
{
    if n > 0 {
        lemma_total_nonneg(f, n - 1);
        lemma_total_prefix_step(f, n - 1);
    }
}

proof fn lemma_member_le_prefix_total(f: Seq<MalValidator>, j: int, n: int)
    requires
        0 <= j < n <= f.len(),
    ensures
        f[j].voting_power <= total_voting_power(f.subrange(0, n)),
    decreases n,
{
    lemma_total_prefix_step(f, n - 1);
    lemma_total_nonneg(f, n - 1);
    if j < n - 1 {
        lemma_member_le_prefix_total(f, j, n - 1);
    }
}

proof fn lemma_max_finalizer_unique(f: Seq<MalValidator>, m: int)
    requires
        is_max_upto(f, f.len() as int, m),
    ensures
        max_finalizer(f) == m,
{
    let k = max_finalizer(f);
    assert(is_max_upto(f, f.len() as int, k));
    if k < m {
        assert(f[k].voting_power < f[m].voting_power);
    } else if m < k {
        assert(f[m].voting_power < f[k].voting_power);
    }
}

proof fn lemma_shares_nonneg_monotone(f: Seq<MalValidator>, reward: u64, total: int, n: int, k: int)
    requires
        total > 0,
        0 <= n <= k <= f.len(),
    ensures
        0 <= shares_sum(f, reward, total, n) <= shares_sum(f, reward, total, k),
    decreases k,
{
    if k > n {
        lemma_shares_nonneg_monotone(f, reward, total, n, k - 1);
        let p = f[k - 1].voting_power;
        assert(reward_share(p, reward, total) >= 0) by (nonlinear_arith)
            requires
                total > 0,
                p >= 0,
                reward >= 0,
        ;
    } else if n > 0 {
        lemma_shares_nonneg_monotone(f, reward, total, n - 1, n - 1);
        let p = f[n - 1].voting_power;
        assert(reward_share(p, reward, total) >= 0) by (nonlinear_arith)
            requires
                total > 0,
                p >= 0,
                reward >= 0,
        ;
    }
}

proof fn lemma_shares_bound(f: Seq<MalValidator>, reward: u64, total: int, n: int)
    requires
        total > 0,
        0 <= n <= f.len(),
    ensures
        total * shares_sum(f, reward, total, n) <= reward * total_voting_power(f.subrange(0, n)),
    decreases n,
{
    if n > 0 {
        lemma_shares_bound(f, reward, total, n - 1);
        lemma_total_prefix_step(f, n - 1);
        let p = f[n - 1].voting_power;
        let s = shares_sum(f, reward, total, n - 1);
        let t = total_voting_power(f.subrange(0, n - 1));
        let q = reward_share(p, reward, total);
        assert(total * q <= p * reward) by (nonlinear_arith)
            requires
                total > 0,
                q == (p * reward) / total,
                p >= 0,
                reward >= 0,
        ;
        assert(total * (s + q) <= reward * (t + p)) by (nonlinear_arith)
            requires
                total * s <= reward * t,
                total * q <= p * reward,
        ;
    }
}

/// The rounded-down shares never add up to more than the reward.
proof fn lemma_shares_at_most_reward(f: Seq<MalValidator>, reward: u64)
    requires
        total_voting_power(f) > 0,
    ensures
        shares_sum(f, reward, total_voting_power(f), f.len() as int) <= reward,
{
    let total = total_voting_power(f);
    lemma_shares_bound(f, reward, total, f.len() as int);
    assert(f.subrange(0, f.len() as int) == f);
    let s = shares_sum(f, reward, total, f.len() as int);
    assert(s <= reward) by (nonlinear_arith)
        requires
            total > 0,
            total * s <= reward * total,
    ;
}

/// The roster's total stake is positive exactly when a member with the
/// largest non-zero stake exists.
proof fn lemma_max_finalizer_exists(f: Seq<MalValidator>, n: int)
    requires
        0 <= n <= f.len(),
        total_voting_power(f.subrange(0, n)) > 0,
    ensures
        exists|i: int| #[trigger] is_max_upto(f, n, i),
    decreases n,
{
    lemma_total_prefix_step(f, n - 1);
    let p = f[n - 1].voting_power;
    if total_voting_power(f.subrange(0, n - 1)) > 0 {
        lemma_max_finalizer_exists(f, n - 1);
        let m = choose|i: int| #[trigger] is_max_upto(f, n - 1, i);
        if f[m].voting_power < p {
            assert(is_max_upto(f, n, n - 1));
        } else {
            assert(is_max_upto(f, n, m));
        }
    } else {
        lemma_total_nonneg(f, n - 1);
        assert forall|j: int| 0 <= j < n - 1 implies #[trigger] f[j].voting_power == 0 by {
            lemma_member_le_prefix_total(f, j, n - 1);
        }
        assert(is_max_upto(f, n, n - 1));
    }
}

/// Share `total_reward` among the finalizers in proportion to their voting
/// power, rounding each share down; the first finalizer with the largest
/// stake receives what the rounding left over, so the whole reward is handed
/// out. A roster without stake is left unchanged.
pub fn apportion_finalizer_rewards(finalizers: &mut Vec<MalValidator>, total_reward: u64)
    requires
        apportioning_fits(old(finalizers)@, total_reward),
    ensures
        final(finalizers)@ == apportioned(old(finalizers)@, total_reward),
{
    let ghost f = finalizers@;
    let len = finalizers.len();
    let mut total: u64 = 0;
    let mut max_i: Option<usize> = None;
    let mut i: usize = 0;
    while i < len
        invariant
            0 <= i <= len,
            len == f.len(),
            finalizers@ == f,
            total_voting_power(f) <= u64::MAX,
            total == total_voting_power(f.subrange(0, i as int)),
            match max_i {
                None => forall|j: int| 0 <= j < i ==> #[trigger] f[j].voting_power == 0,
                Some(m) => is_max_upto(f, i as int, m as int),
            },
        decreases len - i,
    {
        proof {
            lemma_total_prefix_step(f, i as int);
            lemma_total_prefix_le(f, i + 1);
        }
        let p = finalizers[i].voting_power;
        if p != 0 {
            let replace = match max_i {
                None => true,
                Some(m) => finalizers[m].voting_power < p,
            };
            if replace {
                max_i = Some(i);
            }
        }
        total = total + p;
        i = i + 1;
    }
    proof {
        assert(f.subrange(0, len as int) == f);
    }
    let m = match max_i {
        None => {
            proof {
                lemma_total_nonneg(f, 0);
                assert forall|j: int| 0 <= j < f.len() implies #[trigger] f[j].voting_power == 0 by {}
                lemma_total_is_zero(f, len as int);
                assert(finalizers@ == apportioned(f, total_reward));
            }
            return ;
        },
        Some(m) => m,
    };
    let ghost t = total as int;
    let ghost s = shares_sum(f, total_reward, t, f.len() as int);
    proof {
        lemma_member_le_prefix_total(f, m as int, len as int);
        lemma_max_finalizer_unique(f, m as int);
        lemma_shares_at_most_reward(f, total_reward);
        lemma_total_prefix_le(f, f.len() as int);
    }
    let mut sum_reward: u64 = 0;
    let mut k: usize = 0;
    while k < len
        invariant
            0 <= k <= len,
            len == f.len(),
            m < len,
            t == total == total_voting_power(f),
            t > 0,
            max_finalizer(f) == m,
            s == shares_sum(f, total_reward, t, f.len() as int),
            s <= total_reward,
            apportioning_fits(f, total_reward),
            forall|j: int| 0 <= j < f.len() ==> #[trigger] f[j].voting_power <= t,
            finalizers@.len() == len,
            forall|j: int|
                0 <= j < k ==> (#[trigger] finalizers@[j]).voting_power == f[j].voting_power + if j
                    == m {
                    0
                } else {
                    reward_share(f[j].voting_power, total_reward, t)
                },
            forall|j: int|
                0 <= j < len ==> (#[trigger] finalizers@[j]).public_key == f[j].public_key
                    && finalizers@[j].address == f[j].address,
            forall|j: int| k <= j < len ==> #[trigger] finalizers@[j] == f[j],
            sum_reward == shares_sum(f, total_reward, t, k as int) - if m < k {
                reward_share(f[m as int].voting_power, total_reward, t)
            } else {
                0
            },
        decreases len - k,
    {
        let ghost share = reward_share(f[k as int].voting_power, total_reward, t);
        proof {
            lemma_shares_nonneg_monotone(f, total_reward, t, k + 1, f.len() as int);
            lemma_shares_nonneg_monotone(f, total_reward, t, k as int, k as int);
            let p = f[k as int].voting_power;
            assert(0 <= share <= total_reward) by (nonlinear_arith)
                requires
                    t > 0,
                    p <= t,
                    share == (p * total_reward) / t,
                    p >= 0,
                    total_reward >= 0,
            ;
            if m < k {
                let pm = f[m as int].voting_power;
                assert(reward_share(pm, total_reward, t) >= 0) by (nonlinear_arith)
                    requires
                        t > 0,
                        pm >= 0,
                        total_reward >= 0,
                ;
            }
        }
        let v = finalizers[k];
        if v.voting_power == 0 || k == m {
            proof {
                if v.voting_power == 0 {
                    assert(share == 0) by (nonlinear_arith)
                        requires
                            t > 0,
                            share == (0 * total_reward) / t,
                    ;
                }
            }
        } else {
            proof {
                lemma_mul_u64_fits(v.voting_power, total_reward);
            }
            let mul: u128 = (v.voting_power as u128) * (total_reward as u128);
            let reward = (mul / (total as u128)) as u64;
            assert(reward == share);
            assert(apportioned_power(f, total_reward, k as int) <= u64::MAX);
            sum_reward = sum_reward + reward;
            let updated = MalValidator {
                address: v.address,
                public_key: v.public_key,
                voting_power: v.voting_power + reward,
            };
            finalizers.set(k, updated);
        }
        k = k + 1;
    }
    let mut v = finalizers[m];
    let ghost share_m = reward_share(f[m as int].voting_power, total_reward, t);
    proof {
        lemma_mul_u64_fits(v.voting_power, total_reward);
    }
    let mul: u128 = (v.voting_power as u128) * (total_reward as u128);
    let reward = (mul / (total as u128)) as u64;
    let rem_reward = total_reward - sum_reward;
    // The largest finalizer's proportional share is always covered by what
    // remains; any rounding difference is in its favour.
    assert(reward <= rem_reward);
    assert(apportioned_power(f, total_reward, m as int) <= u64::MAX);
    v.voting_power = v.voting_power + rem_reward;
    finalizers.set(m, v);
    proof {
        assert(finalizers@ =~= apportioned(f, total_reward));
    }
}

proof fn lemma_apportioned_prefix_total(f: Seq<MalValidator>, reward: u64, n: int)
    requires
        apportioning_fits(f, reward),
        total_voting_power(f) > 0,
        is_max_upto(f, f.len() as int, max_finalizer(f)),
        shares_sum(f, reward, total_voting_power(f), f.len() as int) <= reward,
        0 <= n <= f.len(),
    ensures
        total_voting_power(apportioned(f, reward).subrange(0, n)) == total_voting_power(
            f.subrange(0, n),
        ) + shares_sum(f, reward, total_voting_power(f), n) + if max_finalizer(f) < n {
            reward - shares_sum(f, reward, total_voting_power(f), f.len() as int)
        } else {
            0
        },
    decreases n,
{
    if n > 0 {
        let g = apportioned(f, reward);
        lemma_apportioned_prefix_total(f, reward, n - 1);
        lemma_total_prefix_step(f, n - 1);
        lemma_total_prefix_step(g, n - 1);
        let t = total_voting_power(f);
        lemma_total_prefix_le(f, f.len() as int);
        let p = f[n - 1].voting_power;
        assert(reward_share(p, reward, t) >= 0) by (nonlinear_arith)
            requires
                t > 0,
                p >= 0,
                reward >= 0,
        ;
        assert(apportioned_power(f, reward, n - 1) <= u64::MAX);
    }
}

/// Apportioning hands out exactly the whole reward when the roster has stake:
/// the total stake grows by the reward. A roster without stake is unchanged.
pub proof fn lemma_apportioning_hands_out_whole_reward(f: Seq<MalValidator>, reward: u64)
    requires
        apportioning_fits(f, reward),
    ensures
        total_voting_power(f) > 0 ==> total_voting_power(apportioned(f, reward))
            == total_voting_power(f) + reward,
        total_voting_power(f) == 0 ==> apportioned(f, reward) == f,
{
    let g = apportioned(f, reward);
    if total_voting_power(f) > 0 {
        assert(f.subrange(0, f.len() as int) == f);
        lemma_max_finalizer_exists(f, f.len() as int);
        let m = choose|i: int| #[trigger] is_max_upto(f, f.len() as int, i);
        lemma_max_finalizer_unique(f, m);
        lemma_shares_at_most_reward(f, reward);
        lemma_apportioned_prefix_total(f, reward, f.len() as int);
        assert(g.subrange(0, g.len() as int) == g);
    } else {
        lemma_total_nonneg(f, f.len() as int);
        assert(f.subrange(0, f.len() as int) == f);
        assert forall|i: int| 0 <= i < f.len() implies #[trigger] g[i] == f[i] by {
            assert(apportioned_power(f, reward, i) == f[i].voting_power);
        }
        assert(g =~= f);
    }
}

/// Nobody loses stake by apportioning, finalizers without stake gain nothing,
/// and the first finalizer with the largest stake gains at least its
/// proportional share.
pub proof fn lemma_apportioning_shares(f: Seq<MalValidator>, reward: u64)
    requires
        apportioning_fits(f, reward),
        total_voting_power(f) > 0,
    ensures
        forall|i: int|
            0 <= i < f.len() ==> (#[trigger] apportioned(f, reward)[i]).voting_power
                >= f[i].voting_power,
        forall|i: int|
            0 <= i < f.len() && f[i].voting_power == 0 ==> #[trigger] apportioned(f, reward)[i]
                == f[i],
        is_max_upto(f, f.len() as int, max_finalizer(f)),
        apportioned(f, reward)[max_finalizer(f)].voting_power - f[max_finalizer(f)].voting_power
            >= reward_share(f[max_finalizer(f)].voting_power, reward, total_voting_power(f)),
{
    let t = total_voting_power(f);
    assert(f.subrange(0, f.len() as int) == f);
    lemma_max_finalizer_exists(f, f.len() as int);
    let m = choose|i: int| #[trigger] is_max_upto(f, f.len() as int, i);
    lemma_max_finalizer_unique(f, m);
    lemma_shares_at_most_reward(f, reward);
    assert forall|i: int| 0 <= i < f.len() implies (#[trigger] apportioned(f, reward)[i]).voting_power
        >= f[i].voting_power && (f[i].voting_power == 0 ==> apportioned(f, reward)[i] == f[i]) by {
        let p = f[i].voting_power;
        assert(reward_share(p, reward, t) >= 0) by (nonlinear_arith)
            requires
                t > 0,
                p >= 0,
                reward >= 0,
        ;
        if p == 0 {
            assert(reward_share(p, reward, t) == 0) by (nonlinear_arith)
                requires
                    t > 0,
                    p == 0,
            ;
        }
        assert(apportioned_power(f, reward, i) <= u64::MAX);
    }
}

/// Apportioning a reward over a roster with stake: every finalizer other
/// than the first with the largest stake gains exactly its rounded-down share
/// `power * reward / total`, the first largest gains the rest of the reward,
/// which is at least its own share, finalizers keep their keys, and the total
/// stake grows by exactly the reward.
pub proof fn lemma_apportioning_exact_shares(f: Seq<MalValidator>, reward: u64)
    requires
        apportioning_fits(f, reward),
        total_voting_power(f) > 0,
    ensures
        apportioned(f, reward).len() == f.len(),
        0 <= max_finalizer(f) < f.len(),
        forall|i: int|
            0 <= i < f.len() && i != max_finalizer(f) ==> (#[trigger] apportioned(f, reward)[i]).voting_power
                == f[i].voting_power + reward_share(f[i].voting_power, reward, total_voting_power(f)),
        apportioned(f, reward)[max_finalizer(f)].voting_power == f[max_finalizer(f)].voting_power
            + reward - shares_sum(f, reward, total_voting_power(f), f.len() as int) + reward_share(
            f[max_finalizer(f)].voting_power,
            reward,
            total_voting_power(f),
        ),
        apportioned(f, reward)[max_finalizer(f)].voting_power - f[max_finalizer(f)].voting_power
            >= reward_share(f[max_finalizer(f)].voting_power, reward, total_voting_power(f)),
        forall|i: int|
            0 <= i < f.len() ==> (#[trigger] apportioned(f, reward)[i]).public_key == f[i].public_key
                && apportioned(f, reward)[i].address == f[i].address,
        total_voting_power(apportioned(f, reward)) == total_voting_power(f) + reward,
{
    lemma_apportioning_shares(f, reward);
    lemma_apportioning_hands_out_whole_reward(f, reward);
    let m = max_finalizer(f);
    assert(0 <= m < f.len()) by {
        assert(is_max_upto(f, f.len() as int, m));
    }
    assert(apportioned_power(f, reward, m) <= u64::MAX);
    lemma_shares_at_most_reward(f, reward);
    let t = total_voting_power(f);
    let pm = f[m].voting_power;
    assert(reward_share(pm, reward, t) >= 0) by (nonlinear_arith)
        requires
            t > 0,
            pm >= 0,
            reward >= 0,
    ;
    assert(apportioned(f, reward)[m].voting_power == apportioned_power(f, reward, m));
    assert forall|i: int| 0 <= i < f.len() && i != m implies (#[trigger] apportioned(
        f,
        reward,
    )[i]).voting_power == f[i].voting_power + reward_share(
        f[i].voting_power,
        reward,
        total_voting_power(f),
    ) by {
        assert(apportioned_power(f, reward, i) <= u64::MAX);
    }
}

/// The names finalizers were registered under, by public key. Each key
/// occurs once: that is the type's invariant ([FinalizerNames::keys_distinct]),
/// kept by every method.
pub struct FinalizerNames {
    entries: Vec<([u8; 32], String)>,
}

/// The map that a list of (key, name) entries stands for.
pub open spec fn names_map(entries: Seq<([u8; 32], String)>) -> Map<Seq<u8>, Seq<char>>
    decreases entries.len(),
{
    if entries.len() == 0 {
        Map::empty()
    } else {
        names_map(entries.drop_last()).insert(entries.last().0@, entries.last().1@)
    }
}

/// No key occurs twice among the entries.
pub open spec fn entry_keys_distinct(entries: Seq<([u8; 32], String)>) -> bool {
    forall|i: int, j: int|
        0 <= i < j < entries.len() ==> (#[trigger] entries[i]).0@ != (#[trigger] entries[j]).0@
}

impl View for FinalizerNames {
    type V = Map<Seq<u8>, Seq<char>>;

    closed spec fn view(&self) -> Map<Seq<u8>, Seq<char>> {
        names_map(self.entries@)
    }
}

proof fn lemma_names_map_lookup(entries: Seq<([u8; 32], String)>, k: Seq<u8>)
    requires
        entry_keys_distinct(entries),
    ensures
        names_map(entries).contains_key(k) <==> exists|i: int|
            0 <= i < entries.len() && (#[trigger] entries[i]).0@ == k,
        forall|i: int|
            0 <= i < entries.len() && (#[trigger] entries[i]).0@ == k ==> names_map(entries)[k]
                == entries[i].1@,
    decreases entries.len(),
{
    if entries.len() > 0 {
        let init = entries.drop_last();
        assert(entry_keys_distinct(init)) by {
            assert forall|i: int, j: int| 0 <= i < j < init.len() implies (#[trigger] init[i]).0@
                != (#[trigger] init[j]).0@ by {
                assert(init[i] == entries[i] && init[j] == entries[j]);
            }
        }
        lemma_names_map_lookup(init, k);
        if names_map(entries).contains_key(k) {
            if entries.last().0@ == k {
                assert(entries[entries.len() - 1].0@ == k);
            } else {
                let i = choose|i: int| 0 <= i < init.len() && (#[trigger] init[i]).0@ == k;
                assert(entries[i] == init[i]);
            }
        }
        if exists|i: int| 0 <= i < entries.len() && (#[trigger] entries[i]).0@ == k {
            let i = choose|i: int| 0 <= i < entries.len() && (#[trigger] entries[i]).0@ == k;
            if i < entries.len() - 1 {
                assert(init[i] == entries[i]);
            }
        }
        assert forall|i: int|
            0 <= i < entries.len() && (#[trigger] entries[i]).0@ == k implies names_map(entries)[k]
                == entries[i].1@ by {
            if i < entries.len() - 1 {
                assert(init[i] == entries[i]);
            }
        }
    }
}

proof fn lemma_names_map_update(entries: Seq<([u8; 32], String)>, i: int, e: ([u8; 32], String))
    requires
        entry_keys_distinct(entries),
        0 <= i < entries.len(),
        entries[i].0@ == e.0@,
    ensures
        names_map(entries.update(i, e)) == names_map(entries).insert(e.0@, e.1@),
        entry_keys_distinct(entries.update(i, e)),
{
    let updated = entries.update(i, e);
    assert(entry_keys_distinct(updated)) by {
        assert forall|a: int, b: int| 0 <= a < b < updated.len() implies (
        #[trigger] updated[a]).0@ != (#[trigger] updated[b]).0@ by {
            assert(entries[a].0@ != entries[b].0@);
        }
    }
    lemma_names_map_lookup(entries, e.0@);
    assert forall|k: Seq<u8>| #![auto] names_map(updated).contains_key(k) <==> names_map(
        entries,
    ).insert(e.0@, e.1@).contains_key(k) by {
        lemma_names_map_lookup(entries, k);
        lemma_names_map_lookup(updated, k);
        if exists|j: int| 0 <= j < entries.len() && (#[trigger] entries[j]).0@ == k {
            let j = choose|j: int| 0 <= j < entries.len() && (#[trigger] entries[j]).0@ == k;
            assert(updated[j].0@ == k);
        }
        if exists|j: int| 0 <= j < updated.len() && (#[trigger] updated[j]).0@ == k {
            let j = choose|j: int| 0 <= j < updated.len() && (#[trigger] updated[j]).0@ == k;
            if j != i {
                assert(entries[j].0@ == k);
            }
        }
    }
    assert forall|k: Seq<u8>| #![auto] names_map(updated).contains_key(k) implies names_map(
        updated,
    )[k] == names_map(entries).insert(e.0@, e.1@)[k] by {
        lemma_names_map_lookup(entries, k);
        lemma_names_map_lookup(updated, k);
        let j = choose|j: int| 0 <= j < updated.len() && (#[trigger] updated[j]).0@ == k;
        if j == i {
            assert(updated[i].0@ == e.0@);
        } else {
            assert(entries[j] == updated[j]);
            assert(entries[j].0@ != e.0@);
        }
    }
    assert(names_map(updated) =~= names_map(entries).insert(e.0@, e.1@));
}

impl FinalizerNames {
    /// No public key is registered twice: the table holds one name per key.
    #[verifier::type_invariant]
    pub closed spec fn keys_distinct(self) -> bool {
        entry_keys_distinct(self.entries@)
    }

    /// No names registered yet.
    pub fn new() -> (r: FinalizerNames)
        ensures
            r@ == Map::<Seq<u8>, Seq<char>>::empty(),
    {
        let r = FinalizerNames { entries: Vec::new() };
        proof {
            assert(r.entries@.len() == 0);
        }
        r
    }

    /// Register `name` for `key`, replacing any earlier name.
    pub fn insert(&mut self, key: [u8; 32], name: String)
        ensures
            final(self)@ == old(self)@.insert(key@, name@),
    {
        proof {
            use_type_invariant(&*self);
        }
        let mut i: usize = 0;
        while i < self.entries.len()
            invariant
                0 <= i <= self.entries@.len(),
                entry_keys_distinct(self.entries@),
                self.entries@ == old(self).entries@,
                forall|j: int| 0 <= j < i ==> (#[trigger] self.entries@[j]).0@ != key@,
            decreases self.entries@.len() - i,
        {
            if bytes_equal(&self.entries[i].0, &key) {
                let ghost before = self.entries@;
                proof {
                    lemma_names_map_update(before, i as int, (key, name));
                }
                let mut entries = Vec::new();
                std::mem::swap(&mut entries, &mut self.entries);
                entries.set(i, (key, name));
                self.entries = entries;
                return ;
            }
            i = i + 1;
        }
        let ghost before = self.entries@;
        let mut entries = Vec::new();
        std::mem::swap(&mut entries, &mut self.entries);
        entries.push((key, name));
        proof {
            assert(entries@.drop_last() == before);
            assert(entry_keys_distinct(entries@)) by {
                assert forall|a: int, b: int| 0 <= a < b < entries@.len() implies (
                #[trigger] entries@[a]).0@ != (#[trigger] entries@[b]).0@ by {
                    if b == entries@.len() - 1 {
                        assert(before[a] == entries@[a]);
                    } else {
                        assert(before[a] == entries@[a] && before[b] == entries@[b]);
                    }
                }
            }
        }
        self.entries = entries;
    }

    /// The name registered for `key`, if any.
    pub fn get(&self, key: &[u8; 32]) -> (r: Option<&String>)
        ensures
            match r {
                Some(name) => self@.contains_key(key@) && name@ == self@[key@],
                None => !self@.contains_key(key@),
            },
    {
        proof {
            use_type_invariant(self);
            lemma_names_map_lookup(self.entries@, key@);
        }
        let mut i: usize = 0;
        while i < self.entries.len()
            invariant
                0 <= i <= self.entries@.len(),
                entry_keys_distinct(self.entries@),
                forall|j: int| 0 <= j < i ==> (#[trigger] self.entries@[j]).0@ != key@,
            decreases self.entries@.len() - i,
        {
            if bytes_equal(&self.entries[i].0, key) {
                proof {
                    lemma_names_map_lookup(self.entries@, key@);
                }
                return Some(&self.entries[i].1);
            }
            i = i + 1;
        }
        None
    }
}

/// What a staking command does to the roster.
#[derive(Clone, Copy, Debug, PartialEq, Eq, Structural)]
pub enum StakingActionKind {
    /// Add stake to the target, creating it if absent.
    Add,
    /// Subtract stake from the target.
    Sub,
    /// Lower the target's stake to the given value.
    Clear,
    /// Move stake from the source to the target.
    Move,
    /// Lower the source's stake to the given value, moving the difference to
    /// the target.
    MoveClear,
}

/// A staking command carried by a PoW transaction.
#[derive(Clone, Debug, PartialEq, Eq)]
pub struct StakingAction {
    /// The kind of command.
    pub kind: StakingActionKind,
    /// The amount the command names.
    pub val: u64,
    /// The finalizer that receives stake, or loses it for `Sub` and `Clear`.
    pub target: [u8; 32],
    /// The finalizer that stake moves away from, for `Move` and `MoveClear`.
    pub source: [u8; 32],
    /// Human-readable name of the target.
    pub insecure_target_name: String,
    /// Human-readable name of the source.
    pub insecure_source_name: String,
}

/// Whether the command adds stake to its target.
pub open spec fn action_adds(kind: StakingActionKind) -> bool {
    kind == StakingActionKind::Add || kind == StakingActionKind::Move || kind
        == StakingActionKind::MoveClear
}

/// Whether the command names the value to lower stake to, rather than the
/// amount to subtract.
pub open spec fn action_clears(kind: StakingActionKind) -> bool {
    kind == StakingActionKind::Clear || kind == StakingActionKind::MoveClear
}

/// The finalizer whose stake the command lowers, if any.
pub open spec fn action_sub_key(a: StakingAction) -> Option<Seq<u8>> {
    match a.kind {
        StakingActionKind::Add => None,
        StakingActionKind::Sub | StakingActionKind::Clear => Some(a.target@),
        StakingActionKind::Move | StakingActionKind::MoveClear => Some(a.source@),
    }
}

/// Whether `i` is the first roster member with public key `key`.
pub open spec fn is_first_with_key(roster: Seq<MalValidator>, key: Seq<u8>, i: int) -> bool {
    &&& 0 <= i < roster.len()
    &&& roster[i].public_key@ == key
    &&& forall|j: int| 0 <= j < i ==> (#[trigger] roster[j]).public_key@ != key
}

/// The first roster member with public key `key`, if any.
pub open spec fn key_index(roster: Seq<MalValidator>, key: Seq<u8>) -> Option<int> {
    if exists|i: int| #[trigger] is_first_with_key(roster, key, i) {
        Some(choose|i: int| #[trigger] is_first_with_key(roster, key, i))
    } else {
        None
    }
}

/// The roster after the subtracting part of a command, with the amount that
/// moves on to the target; `None` when the command is invalid: its source is
/// absent, or holds less than the command's value.
pub open spec fn roster_after_sub(roster: Seq<MalValidator>, a: StakingAction) -> Option<
    (Seq<MalValidator>, u64),
> {
    match action_sub_key(a) {
        None => Some((roster, a.val)),
        Some(key) => match key_index(roster, key) {
            None => None,
            Some(i) => if roster[i].voting_power < a.val {
                None
            } else {
                let amount = if action_clears(a.kind) {
                    (roster[i].voting_power - a.val) as u64
                } else {
                    a.val
                };
                Some(
                    (
                        roster.update(
                            i,
                            MalValidator {
                                voting_power: (roster[i].voting_power - amount) as u64,
                                ..roster[i]
                            },
                        ),
                        amount,
                    ),
                )
            },
        },
    }
}

/// The roster after `amount` is added to the member `key`, appended as a new
/// member when absent.
pub open spec fn roster_after_add(roster: Seq<MalValidator>, key: [u8; 32], amount: u64) -> Seq<
    MalValidator,
> {
    match key_index(roster, key@) {
        Some(i) => roster.update(
            i,
            MalValidator { voting_power: (roster[i].voting_power + amount) as u64, ..roster[i] },
        ),
        None => roster.push(
            MalValidator { address: MalPublicKey2(key), public_key: key, voting_power: amount },
        ),
    }
}

/// The roster after a staking command, or `None` when the command is invalid.
pub open spec fn roster_after_action(roster: Seq<MalValidator>, a: StakingAction) -> Option<
    Seq<MalValidator>,
> {
    match roster_after_sub(roster, a) {
        None => None,
        Some((r, amount)) => Some(
            if action_adds(a.kind) {
                roster_after_add(r, a.target, amount)
            } else {
                r
            },
        ),
    }
}

/// Whether a valid command appends its target as a new roster member.
pub open spec fn action_appends(roster: Seq<MalValidator>, a: StakingAction) -> bool {
    match roster_after_sub(roster, a) {
        None => false,
        Some((r, _)) => action_adds(a.kind) && key_index(r, a.target@) is None,
    }
}

/// The stake added to an existing member fits in a `u64`.
pub open spec fn action_fits(roster: Seq<MalValidator>, a: StakingAction) -> bool {
    match roster_after_sub(roster, a) {
        None => true,
        Some((r, amount)) => action_adds(a.kind) ==> match key_index(r, a.target@) {
            Some(i) => r[i].voting_power + amount <= u64::MAX,
            None => true,
        },
    }
}

proof fn lemma_key_index_first(roster: Seq<MalValidator>, key: Seq<u8>, i: int)
    requires
        is_first_with_key(roster, key, i),
    ensures
        key_index(roster, key) == Some(i),
{
    let k = choose|k: int| #[trigger] is_first_with_key(roster, key, k);
    assert(is_first_with_key(roster, key, k));
    if k < i {
        assert(roster[k].public_key@ != key);
    } else if i < k {
        assert(roster[i].public_key@ != key);
    }
}

/// The first roster member with public key `key`.
fn find_member(roster: &Vec<MalValidator>, key: &[u8; 32]) -> (r: Option<usize>)
    ensures
        match r {
            Some(i) => key_index(roster@, key@) == Some(i as int),
            None => key_index(roster@, key@) is None,
        },
{
    let mut i: usize = 0;
    while i < roster.len()
        invariant
            0 <= i <= roster@.len(),
            forall|j: int| 0 <= j < i ==> (#[trigger] roster@[j]).public_key@ != key@,
        decreases roster@.len() - i,
    {
        if bytes_equal(&roster[i].public_key, key) {
            proof {
                lemma_key_index_first(roster@, key@, i as int);
            }
            return Some(i);
        }
        i = i + 1;
    }
    None
}

/// Apply a staking command to the roster: lower the stake of its source (or
/// its target, for `Sub` and `Clear`), then add the moved amount to its target,
/// registering a new target under its name. Returns 1 for an applied command
/// and 0, changing nothing, for an invalid one.
pub fn update_roster_for_cmd(
    roster: &mut Vec<MalValidator>,
    names: &mut FinalizerNames,
    action: &StakingAction,
) -> (r: usize)
    requires
        action_fits(old(roster)@, *action),
    ensures
        match roster_after_action(old(roster)@, *action) {
            None => r == 0 && final(roster)@ == old(roster)@ && final(names)@ == old(names)@,
            Some(new_roster) => r == 1 && final(roster)@ == new_roster && final(names)@ == if action_appends(
                old(roster)@,
                *action,
            ) {
                old(names)@.insert(action.target@, action.insecure_target_name@)
            } else {
                old(names)@
            },
        },
{
    let has_add = match action.kind {
        StakingActionKind::Add | StakingActionKind::Move | StakingActionKind::MoveClear => true,
        _ => false,
    };
    let is_clear = match action.kind {
        StakingActionKind::Clear | StakingActionKind::MoveClear => true,
        _ => false,
    };
    let sub_key = match action.kind {
        StakingActionKind::Add => None,
        StakingActionKind::Sub | StakingActionKind::Clear => Some(action.target),
        StakingActionKind::Move | StakingActionKind::MoveClear => Some(action.source),
    };
    let mut amount = action.val;
    if let Some(key) = sub_key {
        let i = match find_member(roster, &key) {
            None => {
                return 0;
            },
            Some(i) => i,
        };
        let member = roster[i];
        if member.voting_power < action.val {
            return 0;
        }
        if is_clear {
            amount = member.voting_power - action.val;
        }
        roster.set(
            i,
            MalValidator {
                address: member.address,
                public_key: member.public_key,
                voting_power: member.voting_power - amount,
            },
        );
    }
    if has_add {
        match find_member(roster, &action.target) {
            Some(i) => {
                let member = roster[i];
                roster.set(
                    i,
                    MalValidator {
                        address: member.address,
                        public_key: member.public_key,
                        voting_power: member.voting_power + amount,
                    },
                );
            },
            None => {
                roster.push(MalValidator::new(action.target, amount));
                names.insert(action.target, action.insecure_target_name.clone());
            },
        }
    }
    proof {
        if let Some((r, _)) = roster_after_sub(old(roster)@, *action) {
            if action_adds(action.kind) {
                assert(roster@ =~= roster_after_add(r, action.target, amount));
            } else {
                assert(roster@ =~= r);
            }
        }
    }
    1
}

/// The roster after applying the commands in order, skipping invalid ones.
pub open spec fn roster_after_actions(roster: Seq<MalValidator>, actions: Seq<StakingAction>) -> Seq<
    MalValidator,
>
    decreases actions.len(),
{
    if actions.len() == 0 {
        roster
    } else {
        let r = roster_after_actions(roster, actions.drop_last());
        match roster_after_action(r, actions.last()) {
            None => r,
            Some(n) => n,
        }
    }
}

/// The names after applying the commands in order.
pub open spec fn names_after_actions(
    roster: Seq<MalValidator>,
    names: Map<Seq<u8>, Seq<char>>,
    actions: Seq<StakingAction>,
) -> Map<Seq<u8>, Seq<char>>
    decreases actions.len(),
{
    if actions.len() == 0 {
        names
    } else {
        let n = names_after_actions(roster, names, actions.drop_last());
        let a = actions.last();
        if action_appends(roster_after_actions(roster, actions.drop_last()), a) {
            n.insert(a.target@, a.insecure_target_name@)
        } else {
            n
        }
    }
}

/// How many of the commands, applied in order, are valid.
pub open spec fn applied_actions(roster: Seq<MalValidator>, actions: Seq<StakingAction>) -> int
    decreases actions.len(),
{
    if actions.len() == 0 {
        0
    } else {
        applied_actions(roster, actions.drop_last()) + if roster_after_action(
            roster_after_actions(roster, actions.drop_last()),
            actions.last(),
        ) is Some {
            1int
        } else {
            0int
        }
    }
}

/// Every command, applied in order, adds only stake that fits in a `u64`.
pub open spec fn actions_fit(roster: Seq<MalValidator>, actions: Seq<StakingAction>) -> bool
    decreases actions.len(),
{
    if actions.len() == 0 {
        true
    } else {
        actions_fit(roster, actions.drop_last()) && action_fits(
            roster_after_actions(roster, actions.drop_last()),
            actions.last(),
        )
    }
}

proof fn lemma_actions_fit_prefix(roster: Seq<MalValidator>, actions: Seq<StakingAction>, n: int)
    requires
        actions_fit(roster, actions),
        0 <= n <= actions.len(),
    ensures
        actions_fit(roster, actions.subrange(0, n)),
    decreases actions.len() - n,
{
    if n < actions.len() {
        lemma_actions_fit_prefix(roster, actions, n + 1);
        assert(actions.subrange(0, n + 1).drop_last() == actions.subrange(0, n));
    } else {
        assert(actions.subrange(0, n) == actions);
    }
}

/// Apply the staking commands of a PoW block's transactions, in order, and
/// return how many were valid.
pub fn update_roster_for_block(
    roster: &mut Vec<MalValidator>,
    names: &mut FinalizerNames,
    staking_actions: &[StakingAction],
) -> (r: usize)
    requires
        actions_fit(old(roster)@, staking_actions@),
    ensures
        final(roster)@ == roster_after_actions(old(roster)@, staking_actions@),
        final(names)@ == names_after_actions(old(roster)@, old(names)@, staking_actions@),
        r == applied_actions(old(roster)@, staking_actions@),
{
    let ghost roster0 = roster@;
    let ghost names0 = names@;
    let ghost actions = staking_actions@;
    let mut cmd_c: usize = 0;
    let mut i: usize = 0;
    while i < staking_actions.len()
        invariant
            0 <= i <= actions.len(),
            actions == staking_actions@,
            actions_fit(roster0, actions),
            roster@ == roster_after_actions(roster0, actions.subrange(0, i as int)),
            names@ == names_after_actions(roster0, names0, actions.subrange(0, i as int)),
            cmd_c == applied_actions(roster0, actions.subrange(0, i as int)),
            cmd_c <= i,
        decreases actions.len() - i,
    {
        proof {
            let next = actions.subrange(0, i + 1);
            assert(next.drop_last() == actions.subrange(0, i as int));
            assert(next.last() == actions[i as int]);
            lemma_actions_fit_prefix(roster0, actions, i + 1);
        }
        let applied = update_roster_for_cmd(roster, names, &staking_actions[i]);
        cmd_c = cmd_c + applied;
        i = i + 1;
    }
    proof {
        assert(actions.subrange(0, actions.len() as int) == actions);
    }
    cmd_c
}

proof fn lemma_total_update(s: Seq<MalValidator>, i: int, v: MalValidator)
    requires
        0 <= i < s.len(),
    ensures
        total_voting_power(s.update(i, v)) == total_voting_power(s) - s[i].voting_power
            + v.voting_power,
    decreases s.len(),
{
    let u = s.update(i, v);
    if i == s.len() - 1 {
        assert(u.drop_last() == s.drop_last());
    } else {
        lemma_total_update(s.drop_last(), i, v);
        assert(u.drop_last() == s.drop_last().update(i, v));
    }
}

/// Moving stake between finalizers keeps the roster's total stake; adding
/// stake raises it by the command's value; subtracting lowers it by that
/// value; and clearing leaves the cleared finalizer holding exactly the
/// command's value.
pub proof fn lemma_staking_action_stake_accounting(roster: Seq<MalValidator>, a: StakingAction)
    requires
        action_fits(roster, a),
        roster_after_action(roster, a) is Some,
    ensures
        ({
            let after = roster_after_action(roster, a)->Some_0;
            &&& (a.kind == StakingActionKind::Move || a.kind == StakingActionKind::MoveClear)
                ==> total_voting_power(after) == total_voting_power(roster)
            &&& a.kind == StakingActionKind::Add ==> total_voting_power(after)
                == total_voting_power(roster) + a.val
            &&& a.kind == StakingActionKind::Sub ==> total_voting_power(after)
                == total_voting_power(roster) - a.val
            &&& a.kind == StakingActionKind::Clear ==> after[key_index(roster, a.target@)->Some_0].voting_power
                == a.val
        }),
{
    let (r, amount) = roster_after_sub(roster, a)->Some_0;
    match action_sub_key(a) {
        None => {},
        Some(key) => {
            let i = key_index(roster, key)->Some_0;
            assert(is_first_with_key(roster, key, i));
            lemma_total_update(
                roster,
                i,
                MalValidator { voting_power: (roster[i].voting_power - amount) as u64, ..roster[i] },
            );
        },
    }
    if action_adds(a.kind) {
        match key_index(r, a.target@) {
            Some(j) => {
                assert(is_first_with_key(r, a.target@, j));
                lemma_total_update(
                    r,
                    j,
                    MalValidator { voting_power: (r[j].voting_power + amount) as u64, ..r[j] },
                );
            },
            None => {
                let pushed = r.push(
                    MalValidator {
                        address: MalPublicKey2(a.target),
                        public_key: a.target,
                        voting_power: amount,
                    },
                );
                assert(pushed.drop_last() == r);
            },
        }
    }
}

/// A roster member as the BFT engine sees it, with the running total of the
/// stake of the members up to and including it.
#[derive(Clone, Copy, Debug, PartialEq, Eq)]
pub struct SortedRosterMember {
    /// The member's public key.
    pub pub_key: [u8; 32],
    /// The member's stake.
    pub stake: u64,
    /// Total stake of the members up to and including this one.
    pub cumulative_stake: u64,
}

/// `r` is the roster `vals` in the BFT engine's form: the same members,
/// ordered by stake then public key, both descending, each with the running
/// total of stake up to and including it.
pub open spec fn is_sorted_roster_of(r: Seq<SortedRosterMember>, vals: Seq<MalValidator>) -> bool {
    &&& r.map_values(|m: SortedRosterMember| without_cumulative(m)).to_multiset() == vals.map_values(
        |v: MalValidator| unsorted_member(v),
    ).to_multiset()
    &&& forall|i: int, j: int| 0 <= i < j < r.len() ==> ranks_before(r[i], r[j])
    &&& forall|i: int|
        0 <= i < r.len() ==> (#[trigger] r[i]).cumulative_stake == stake_sum(r.subrange(0, i + 1))
}

/// Lexicographic order on byte strings of equal length.
pub open spec fn bytes_lt(a: Seq<u8>, b: Seq<u8>) -> bool
    decreases a.len(),
{
    if a.len() == 0 || b.len() == 0 {
        false
    } else if a[0] != b[0] {
        a[0] < b[0]
    } else {
        bytes_lt(a.drop_first(), b.drop_first())
    }
}

/// Whether `a` comes no later than `b` in the roster order: by stake, then by
/// public key, both descending.
pub open spec fn ranks_before(a: SortedRosterMember, b: SortedRosterMember) -> bool {
    a.stake > b.stake || (a.stake == b.stake && !bytes_lt(a.pub_key@, b.pub_key@))
}

/// A roster member with its running total not yet filled in.
pub open spec fn unsorted_member(v: MalValidator) -> SortedRosterMember {
    SortedRosterMember { pub_key: v.public_key, stake: v.voting_power, cumulative_stake: 0 }
}

/// A roster member with its running total cleared.
pub open spec fn without_cumulative(m: SortedRosterMember) -> SortedRosterMember {
    SortedRosterMember { cumulative_stake: 0, ..m }
}

/// Total stake of the members.
pub open spec fn stake_sum(s: Seq<SortedRosterMember>) -> int
    decreases s.len(),
{
    if s.len() == 0 {
        0
    } else {
        stake_sum(s.drop_last()) + s.last().stake
    }
}

proof fn lemma_bytes_lt_order(a: Seq<u8>, b: Seq<u8>, c: Seq<u8>)
    requires
        a.len() == b.len() == c.len(),
    ensures
        !bytes_lt(a, a),
        bytes_lt(a, b) ==> !bytes_lt(b, a),
        a != b ==> bytes_lt(a, b) || bytes_lt(b, a),
        bytes_lt(a, b) && bytes_lt(b, c) ==> bytes_lt(a, c),
    decreases a.len(),
{
    if a.len() > 0 {
        lemma_bytes_lt_order(a.drop_first(), b.drop_first(), c.drop_first());
        if a != b && a[0] == b[0] {
            assert(a.drop_first() != b.drop_first()) by {
                if a.drop_first() == b.drop_first() {
                    assert forall|k: int| 0 <= k < a.len() implies a[k] == b[k] by {
                        if k > 0 {
                            assert(a[k] == a.drop_first()[k - 1]);
                            assert(b[k] == b.drop_first()[k - 1]);
                        }
                    }
                    assert(a =~= b);
                }
            }
        }
    } else {
        assert(a =~= b);
    }
}

proof fn lemma_ranks_before_order(a: SortedRosterMember, b: SortedRosterMember, c: SortedRosterMember)
    ensures
        ranks_before(a, a),
        ranks_before(a, b) || ranks_before(b, a),
        ranks_before(a, b) && ranks_before(b, c) ==> ranks_before(a, c),
{
    lemma_bytes_lt_order(a.pub_key@, b.pub_key@, c.pub_key@);
    lemma_bytes_lt_order(c.pub_key@, b.pub_key@, a.pub_key@);
    lemma_bytes_lt_order(a.pub_key@, c.pub_key@, b.pub_key@);
    if a.pub_key@ == b.pub_key@ {
        assert(a.pub_key@ == b.pub_key@);
    }
}

/// Whether `a` sorts strictly before `b` in byte order.
fn key_less(a: &[u8; 32], b: &[u8; 32]) -> (r: bool)
    ensures
        r == bytes_lt(a@, b@),
{
    proof {
        assert(a@.subrange(0, 32) == a@);
        assert(b@.subrange(0, 32) == b@);
    }
    let mut k: usize = 0;
    while k < 32
        invariant
            0 <= k <= 32,
            a@.len() == 32,
            b@.len() == 32,
            bytes_lt(a@, b@) == bytes_lt(a@.subrange(k as int, 32), b@.subrange(k as int, 32)),
        decreases 32 - k,
    {
        let x = a[k];
        let y = b[k];
        proof {
            let sa = a@.subrange(k as int, 32);
            let sb = b@.subrange(k as int, 32);
            assert(sa[0] == x && sb[0] == y);
            assert(sa.drop_first() == a@.subrange(k + 1, 32));
            assert(sb.drop_first() == b@.subrange(k + 1, 32));
        }
        if x != y {
            return x < y;
        }
        k = k + 1;
    }
    false
}

/// Whether `a` comes no later than `b` in the roster order.
fn ranks_before_exec(a: &SortedRosterMember, b: &SortedRosterMember) -> (r: bool)
    ensures
        r == ranks_before(*a, *b),
{
    a.stake > b.stake || (a.stake == b.stake && !key_less(&a.pub_key, &b.pub_key))
}

proof fn lemma_stake_sum_insert(s: Seq<SortedRosterMember>, i: int, x: SortedRosterMember)
    requires
        0 <= i <= s.len(),
    ensures
        stake_sum(s.insert(i, x)) == stake_sum(s) + x.stake,
    decreases s.len(),
{
    let t = s.insert(i, x);
    if i == s.len() {
        assert(t.drop_last() == s);
    } else {
        lemma_stake_sum_insert(s.drop_last(), i, x);
        assert(t.drop_last() == s.drop_last().insert(i, x));
    }
}

proof fn lemma_stake_sum_prefix(s: Seq<SortedRosterMember>, n: int)
    requires
        0 <= n <= s.len(),
    ensures
        0 <= stake_sum(s.subrange(0, n)) <= stake_sum(s),
    decreases s.len() - n,
{
    if n < s.len() {
        lemma_stake_sum_prefix(s, n + 1);
        assert(s.subrange(0, n + 1).drop_last() == s.subrange(0, n));
        lemma_stake_sum_nonneg(s.subrange(0, n));
    } else {
        assert(s.subrange(0, n) == s);
        lemma_stake_sum_nonneg(s);
    }
}

proof fn lemma_stake_sum_nonneg(s: Seq<SortedRosterMember>)
    ensures
        stake_sum(s) >= 0,
    decreases s.len(),
{
    if s.len() > 0 {
        lemma_stake_sum_nonneg(s.drop_last());
    }
}

proof fn lemma_unsorted_total(vals: Seq<MalValidator>, n: int)
    requires
        0 <= n <= vals.len(),
    ensures
        stake_sum(vals.subrange(0, n).map_values(|v: MalValidator| unsorted_member(v)))
            == total_voting_power(vals.subrange(0, n)),
    decreases n,
{
    if n > 0 {
        lemma_unsorted_total(vals, n - 1);
        let m = vals.subrange(0, n).map_values(|v: MalValidator| unsorted_member(v));
        assert(m.drop_last() == vals.subrange(0, n - 1).map_values(
            |v: MalValidator| unsorted_member(v),
        ));
        assert(vals.subrange(0, n).drop_last() == vals.subrange(0, n - 1));
    }
}

/// The roster in the form the BFT engine expects: members ordered by stake,
/// then public key, both descending, each carrying the total stake of the
/// members up to and including it.
pub fn tenderlink_roster_from_internal(vals: &[MalValidator]) -> (r: Vec<SortedRosterMember>)
    requires
        total_voting_power(vals@) <= u64::MAX,
    ensures
        is_sorted_roster_of(r@, vals@),
        r@.len() == vals@.len(),
        r@.len() > 0 ==> r@[r@.len() - 1].cumulative_stake == total_voting_power(vals@),
{
    let ghost unsorted = vals@.map_values(|v: MalValidator| unsorted_member(v));
    let mut ret: Vec<SortedRosterMember> = Vec::new();
    proof {
        assert(ret@ =~= unsorted.subrange(0, 0));
        assert(vals@.subrange(0, 0) =~= Seq::<MalValidator>::empty());
    }
    let mut i: usize = 0;
    while i < vals.len()
        invariant
            0 <= i <= vals@.len(),
            unsorted == vals@.map_values(|v: MalValidator| unsorted_member(v)),
            ret@.len() == i,
            ret@.to_multiset() == unsorted.subrange(0, i as int).to_multiset(),
            forall|a: int, b: int| 0 <= a < b < ret@.len() ==> ranks_before(ret@[a], ret@[b]),
            forall|a: int| 0 <= a < ret@.len() ==> (#[trigger] ret@[a]).cumulative_stake == 0,
            stake_sum(ret@) == total_voting_power(vals@.subrange(0, i as int)),
        decreases vals@.len() - i,
    {
        let v = vals[i];
        let m = SortedRosterMember { pub_key: v.public_key, stake: v.voting_power, cumulative_stake: 0 };
        let mut pos: usize = 0;
        while pos < ret.len() && ranks_before_exec(&ret[pos], &m)
            invariant
                0 <= pos <= ret@.len(),
                forall|a: int| 0 <= a < pos ==> ranks_before(#[trigger] ret@[a], m),
            decreases ret@.len() - pos,
        {
            pos = pos + 1;
        }
        let ghost old_ret = ret@;
        proof {
            assert forall|a: int| pos <= a < old_ret.len() implies ranks_before(
                m,
                #[trigger] old_ret[a],
            ) by {
                lemma_ranks_before_order(old_ret[pos as int], m, old_ret[a]);
                lemma_ranks_before_order(m, old_ret[pos as int], old_ret[a]);
                if a > pos {
                    assert(ranks_before(old_ret[pos as int], old_ret[a]));
                }
            }
        }
        ret.insert(pos, m);
        proof {
            assert(unsorted[i as int] == m);
            assert(unsorted.subrange(0, i + 1) == unsorted.subrange(0, i as int).push(m));
            vstd::seq_lib::to_multiset_insert(old_ret, pos as int, m);
            vstd::seq_lib::to_multiset_build(unsorted.subrange(0, i as int), m);
            lemma_stake_sum_insert(old_ret, pos as int, m);
            lemma_total_prefix_step(vals@, i as int);
            assert forall|a: int, b: int| 0 <= a < b < ret@.len() implies ranks_before(
                ret@[a],
                ret@[b],
            ) by {
                if b < pos {
                } else if b == pos {
                    assert(ret@[a] == old_ret[a]);
                } else if a < pos {
                    assert(ret@[b] == old_ret[b - 1]);
                    lemma_ranks_before_order(old_ret[a], m, old_ret[b - 1]);
                } else if a == pos {
                    assert(ret@[b] == old_ret[b - 1]);
                } else {
                    assert(ret@[a] == old_ret[a - 1] && ret@[b] == old_ret[b - 1]);
                }
            }
        }
        i = i + 1;
    }
    proof {
        assert(unsorted.subrange(0, vals@.len() as int) == unsorted);
        assert(vals@.subrange(0, vals@.len() as int) == vals@);
    }
    let ghost sorted = ret@;
    let mut cumulative_stake: u64 = 0;
    let mut k: usize = 0;
    while k < ret.len()
        invariant
            0 <= k <= ret@.len(),
            ret@.len() == sorted.len(),
            stake_sum(sorted) <= u64::MAX,
            forall|a: int, b: int| 0 <= a < b < sorted.len() ==> ranks_before(sorted[a], sorted[b]),
            cumulative_stake == stake_sum(sorted.subrange(0, k as int)),
            forall|a: int| 0 <= a < ret@.len() ==> #[trigger] without_cumulative(ret@[a]) == sorted[a],
            forall|a: int|
                0 <= a < k ==> (#[trigger] ret@[a]).cumulative_stake == stake_sum(
                    sorted.subrange(0, a + 1),
                ),
        decreases ret@.len() - k,
    {
        proof {
            lemma_stake_sum_prefix(sorted, k + 1);
            assert(sorted.subrange(0, k + 1).drop_last() == sorted.subrange(0, k as int));
            assert(sorted.subrange(0, k + 1).last() == sorted[k as int]);
            assert(without_cumulative(ret@[k as int]) == sorted[k as int]);
        }
        let mut m = ret[k];
        cumulative_stake = cumulative_stake + m.stake;
        m.cumulative_stake = cumulative_stake;
        ret.set(k, m);
        k = k + 1;
    }
    proof {
        assert(ret@.map_values(|m: SortedRosterMember| without_cumulative(m)) =~= sorted);
        assert forall|a: int, b: int| 0 <= a < b < ret@.len() implies ranks_before(
            ret@[a],
            ret@[b],
        ) by {
            assert(without_cumulative(ret@[a]) == sorted[a]);
            assert(without_cumulative(ret@[b]) == sorted[b]);
            assert(ranks_before(sorted[a], sorted[b]));
        }
        if ret@.len() > 0 {
            assert(sorted.subrange(0, ret@.len() as int) == sorted);
        }
        assert forall|a: int| 0 <= a < ret@.len() implies (#[trigger] ret@[a]).cumulative_stake
            == stake_sum(ret@.subrange(0, a + 1)) by {
            assert(ret@.subrange(0, a + 1).map_values(|m: SortedRosterMember| without_cumulative(m))
                == sorted.subrange(0, a + 1));
            lemma_stake_sum_without_cumulative(ret@.subrange(0, a + 1));
        }
    }
    ret
}

proof fn lemma_sorted_members_unique(s1: Seq<SortedRosterMember>, s2: Seq<SortedRosterMember>)
    requires
        s1.to_multiset() == s2.to_multiset(),
        forall|i: int, j: int| 0 <= i < j < s1.len() ==> ranks_before(s1[i], s1[j]),
        forall|i: int, j: int| 0 <= i < j < s2.len() ==> ranks_before(s2[i], s2[j]),
        forall|i: int| 0 <= i < s1.len() ==> (#[trigger] s1[i]).cumulative_stake == 0,
        forall|i: int| 0 <= i < s2.len() ==> (#[trigger] s2[i]).cumulative_stake == 0,
    ensures
        s1 == s2,
    decreases s1.len(),
{
    broadcast use vstd::seq_lib::group_to_multiset_ensures;

    vstd::seq_lib::to_multiset_len(s1);
    vstd::seq_lib::to_multiset_len(s2);
    if s1.len() == 0 {
        assert(s1 =~= s2);
    } else {
        let a = s1[0];
        let b = s2[0];
        assert(s1.to_multiset().count(a) > 0);
        assert(s2.contains(a));
        let j = choose|j: int| 0 <= j < s2.len() && s2[j] == a;
        assert(s1.contains(b)) by {
            assert(s2.to_multiset().count(b) > 0);
        }
        let i = choose|i: int| 0 <= i < s1.len() && s1[i] == b;
        lemma_ranks_before_order(a, b, a);
        if j > 0 {
            assert(ranks_before(s2[0], s2[j]));
        }
        if i > 0 {
            assert(ranks_before(s1[0], s1[i]));
        }
        lemma_bytes_lt_order(a.pub_key@, b.pub_key@, a.pub_key@);
        assert(a.pub_key =~= b.pub_key);
        assert(a == b);
        let t1 = s1.drop_first();
        let t2 = s2.drop_first();
        assert(s1.remove(0) == t1);
        assert(s2.remove(0) == t2);
        assert(t1.to_multiset() == t2.to_multiset());
        assert forall|x: int, y: int| 0 <= x < y < t1.len() implies ranks_before(t1[x], t1[y]) by {
            assert(ranks_before(s1[x + 1], s1[y + 1]));
        }
        assert forall|x: int, y: int| 0 <= x < y < t2.len() implies ranks_before(t2[x], t2[y]) by {
            assert(ranks_before(s2[x + 1], s2[y + 1]));
        }
        assert forall|x: int| 0 <= x < t1.len() implies (#[trigger] t1[x]).cumulative_stake == 0 by {
            assert(s1[x + 1].cumulative_stake == 0);
        }
        assert forall|x: int| 0 <= x < t2.len() implies (#[trigger] t2[x]).cumulative_stake == 0 by {
            assert(s2[x + 1].cumulative_stake == 0);
        }
        lemma_sorted_members_unique(t1, t2);
        assert(s1 =~= s2) by {
            assert forall|x: int| 0 <= x < s1.len() implies s1[x] == s2[x] by {
                if x > 0 {
                    assert(s1[x] == t1[x - 1] && s2[x] == t2[x - 1]);
                }
            }
        }
    }
}

/// The roster handed to the BFT engine depends only on its members, not on
/// the order in which they were learned: rosters of the same members sort to
/// the same list, running totals included.
pub proof fn lemma_sorted_roster_order_independent(
    vals1: Seq<MalValidator>,
    vals2: Seq<MalValidator>,
    r1: Seq<SortedRosterMember>,
    r2: Seq<SortedRosterMember>,
)
    requires
        vals1.map_values(|v: MalValidator| unsorted_member(v)).to_multiset() == vals2.map_values(
            |v: MalValidator| unsorted_member(v),
        ).to_multiset(),
        is_sorted_roster_of(r1, vals1),
        is_sorted_roster_of(r2, vals2),
    ensures
        r1 == r2,
{
    let s1 = r1.map_values(|m: SortedRosterMember| without_cumulative(m));
    let s2 = r2.map_values(|m: SortedRosterMember| without_cumulative(m));
    assert forall|i: int, j: int| 0 <= i < j < s1.len() implies ranks_before(s1[i], s1[j]) by {
        assert(ranks_before(r1[i], r1[j]));
    }
    assert forall|i: int, j: int| 0 <= i < j < s2.len() implies ranks_before(s2[i], s2[j]) by {
        assert(ranks_before(r2[i], r2[j]));
    }
    assert forall|i: int| 0 <= i < s1.len() implies (#[trigger] s1[i]).cumulative_stake == 0 by {
        assert(s1[i] == without_cumulative(r1[i]));
    }
    assert forall|i: int| 0 <= i < s2.len() implies (#[trigger] s2[i]).cumulative_stake == 0 by {
        assert(s2[i] == without_cumulative(r2[i]));
    }
    lemma_sorted_members_unique(s1, s2);
    assert(s1.len() == r1.len() && s2.len() == r2.len());
    assert forall|i: int| 0 <= i < r1.len() implies r1[i] == r2[i] by {
        assert(s1[i] == s2[i]);
        assert(r1.subrange(0, i + 1).map_values(|m: SortedRosterMember| without_cumulative(m))
            == s1.subrange(0, i + 1));
        assert(r2.subrange(0, i + 1).map_values(|m: SortedRosterMember| without_cumulative(m))
            == s2.subrange(0, i + 1));
        lemma_stake_sum_without_cumulative(r1.subrange(0, i + 1));
        lemma_stake_sum_without_cumulative(r2.subrange(0, i + 1));
        assert(r1[i].cumulative_stake == r2[i].cumulative_stake);
    }
    assert(r1 =~= r2);
}

proof fn lemma_stake_sum_without_cumulative(s: Seq<SortedRosterMember>)
    ensures
        stake_sum(s.map_values(|m: SortedRosterMember| without_cumulative(m))) == stake_sum(s),
    decreases s.len(),
{
    if s.len() > 0 {
        lemma_stake_sum_without_cumulative(s.drop_last());
        assert(s.map_values(|m: SortedRosterMember| without_cumulative(m)).drop_last() == s.drop_last().map_values(
            |m: SortedRosterMember| without_cumulative(m),
        ));
    }
}

/// Sum of the values the commands name.
pub open spec fn actions_value_sum(actions: Seq<StakingAction>) -> int
    decreases actions.len(),
{
    if actions.len() == 0 {
        0
    } else {
        actions_value_sum(actions.drop_last()) + actions.last().val
    }
}

proof fn lemma_member_le_total(f: Seq<MalValidator>, j: int)
    requires
        0 <= j < f.len(),
    ensures
        f[j].voting_power <= total_voting_power(f),
        total_voting_power(f) >= 0,
{
    assert(f.subrange(0, f.len() as int) == f);
    lemma_member_le_prefix_total(f, j, f.len() as int);
}

proof fn lemma_share_le_sum(f: Seq<MalValidator>, reward: u64, total: int, i: int)
    requires
        total > 0,
        0 <= i < f.len(),
    ensures
        reward_share(f[i].voting_power, reward, total) <= shares_sum(f, reward, total, f.len() as int),
{
    lemma_shares_nonneg_monotone(f, reward, total, i, i);
    lemma_shares_nonneg_monotone(f, reward, total, i + 1, f.len() as int);
}

/// With room for the reward above the roster's total stake, apportioning
/// fits in a `u64` and raises the total stake by at most the reward.
pub proof fn lemma_apportioning_fits_under_bound(f: Seq<MalValidator>, reward: u64)
    requires
        total_voting_power(f) + reward <= u64::MAX,
    ensures
        apportioning_fits(f, reward),
        total_voting_power(apportioned(f, reward)) <= total_voting_power(f) + reward,
{
    let t = total_voting_power(f);
    assert(f.subrange(0, f.len() as int) == f);
    lemma_total_nonneg(f, f.len() as int);
    if t > 0 {
        lemma_shares_at_most_reward(f, reward);
        assert forall|i: int| 0 <= i < f.len() implies #[trigger] apportioned_power(f, reward, i)
            <= t + reward by {
            lemma_member_le_total(f, i);
            lemma_share_le_sum(f, reward, t, i);
            let p = f[i].voting_power;
            assert(reward_share(p, reward, t) >= 0) by (nonlinear_arith)
                requires
                    t > 0,
                    p >= 0,
                    reward >= 0,
            ;
        }
    } else {
        assert forall|i: int| 0 <= i < f.len() implies #[trigger] apportioned_power(f, reward, i)
            <= t + reward by {
            lemma_member_le_total(f, i);
        }
    }
    lemma_apportioning_hands_out_whole_reward(f, reward);
}

/// With room for its value above the roster's total stake, a command fits in
/// a `u64` and raises the total stake by at most its value.
pub proof fn lemma_action_fits_under_bound(roster: Seq<MalValidator>, a: StakingAction)
    requires
        total_voting_power(roster) + a.val <= u64::MAX,
    ensures
        action_fits(roster, a),
        roster_after_action(roster, a) matches Some(after) ==> total_voting_power(after)
            <= total_voting_power(roster) + a.val,
{
    lemma_total_nonneg(roster, roster.len() as int);
    assert(roster.subrange(0, roster.len() as int) == roster);
    if let Some((r, amount)) = roster_after_sub(roster, a) {
        match action_sub_key(a) {
            None => {},
            Some(key) => {
                let i = key_index(roster, key)->Some_0;
                assert(is_first_with_key(roster, key, i));
                lemma_total_update(
                    roster,
                    i,
                    MalValidator {
                        voting_power: (roster[i].voting_power - amount) as u64,
                        ..roster[i]
                    },
                );
            },
        }
        assert(total_voting_power(r) + amount <= total_voting_power(roster) + a.val);
        if action_adds(a.kind) {
            match key_index(r, a.target@) {
                Some(j) => {
                    assert(is_first_with_key(r, a.target@, j));
                    lemma_member_le_total(r, j);
                    lemma_total_update(
                        r,
                        j,
                        MalValidator { voting_power: (r[j].voting_power + amount) as u64, ..r[j] },
                    );
                },
                None => {
                    let pushed = r.push(
                        MalValidator {
                            address: MalPublicKey2(a.target),
                            public_key: a.target,
                            voting_power: amount,
                        },
                    );
                    assert(pushed.drop_last() == r);
                },
            }
        }
    }
}

/// With room for the commands' values above the roster's total stake, the
/// commands fit in a `u64` and raise the total stake by at most those values.
pub proof fn lemma_actions_fit_under_bound(roster: Seq<MalValidator>, actions: Seq<StakingAction>)
    requires
        total_voting_power(roster) + actions_value_sum(actions) <= u64::MAX,
    ensures
        actions_fit(roster, actions),
        total_voting_power(roster_after_actions(roster, actions)) <= total_voting_power(roster)
            + actions_value_sum(actions),
    decreases actions.len(),
{
    if actions.len() > 0 {
        let init = actions.drop_last();
        lemma_actions_value_sum_nonneg(init);
        lemma_actions_fit_under_bound(roster, init);
        let r = roster_after_actions(roster, init);
        lemma_action_fits_under_bound(r, actions.last());
    }
}

proof fn lemma_actions_value_sum_nonneg(actions: Seq<StakingAction>)
    ensures
        actions_value_sum(actions) >= 0,
    decreases actions.len(),
{
    if actions.len() > 0 {
        lemma_actions_value_sum_nonneg(actions.drop_last());
    }
}

/// A sufficient check that the commands fit: the roster's total stake plus
/// the commands' values fit in a `u64`.
pub fn staking_actions_fit_check(roster: &[MalValidator], actions: &[StakingAction]) -> (r: bool)
    ensures
        r ==> actions_fit(roster@, actions@),
        r == (total_voting_power(roster@) + actions_value_sum(actions@) <= u64::MAX),
{
    let mut sum: u128 = 0;
    let mut i: usize = 0;
    while i < roster.len()
        invariant
            0 <= i <= roster@.len(),
            sum == total_voting_power(roster@.subrange(0, i as int)),
            sum <= u64::MAX,
        decreases roster@.len() - i,
    {
        proof {
            lemma_total_prefix_step(roster@, i as int);
        }
        sum = sum + roster[i].voting_power as u128;
        if sum > u64::MAX as u128 {
            proof {
                lemma_total_prefix_le(roster@, i + 1);
                lemma_actions_value_sum_nonneg(actions@);
            }
            return false;
        }
        i = i + 1;
    }
    proof {
        assert(roster@.subrange(0, roster@.len() as int) == roster@);
    }
    let mut k: usize = 0;
    while k < actions.len()
        invariant
            0 <= k <= actions@.len(),
            sum == total_voting_power(roster@) + actions_value_sum(actions@.subrange(0, k as int)),
            sum <= u64::MAX,
        decreases actions@.len() - k,
    {
        proof {
            assert(actions@.subrange(0, k + 1).drop_last() == actions@.subrange(0, k as int));
        }
        sum = sum + actions[k].val as u128;
        if sum > u64::MAX as u128 {
            proof {
                lemma_actions_value_sum_prefix(actions@, k + 1);
            }
            return false;
        }
        k = k + 1;
    }
    proof {
        assert(actions@.subrange(0, actions@.len() as int) == actions@);
        if total_voting_power(roster@) + actions_value_sum(actions@) <= u64::MAX {
            lemma_actions_fit_under_bound(roster@, actions@);
        }
    }
    true
}

proof fn lemma_actions_value_sum_prefix(actions: Seq<StakingAction>, n: int)
    requires
        0 <= n <= actions.len(),
    ensures
        actions_value_sum(actions.subrange(0, n)) <= actions_value_sum(actions),
    decreases actions.len() - n,
{
    if n < actions.len() {
        lemma_actions_value_sum_prefix(actions, n + 1);
        assert(actions.subrange(0, n + 1).drop_last() == actions.subrange(0, n));
    } else {
        assert(actions.subrange(0, n) == actions);
    }
}

/// The roster's total stake, when it fits in a `u64`.
pub fn total_stake(roster: &[MalValidator]) -> (r: Option<u64>)
    ensures
        match r {
            Some(t) => t == total_voting_power(roster@),
            None => total_voting_power(roster@) > u64::MAX,
        },
{
    let mut sum: u64 = 0;
    let mut i: usize = 0;
    while i < roster.len()
        invariant
            0 <= i <= roster@.len(),
            sum == total_voting_power(roster@.subrange(0, i as int)),
        decreases roster@.len() - i,
    {
        proof {
            lemma_total_prefix_step(roster@, i as int);
        }
        let p = roster[i].voting_power;
        if sum > u64::MAX - p {
            proof {
                lemma_total_prefix_le(roster@, i + 1);
            }
            return None;
        }
        sum = sum + p;
        i = i + 1;
    }
    proof {
        assert(roster@.subrange(0, roster@.len() as int) == roster@);
    }
    Some(sum)
}

proof fn lemma_mul_u64_fits(a: u64, b: u64)
    ensures
        a * b <= u128::MAX,
{
    assert(a * b <= u64::MAX * u64::MAX) by (nonlinear_arith)
        requires
            a <= u64::MAX,
            b <= u64::MAX,
    ;
}

proof fn lemma_total_is_zero(f: Seq<MalValidator>, n: int)
    requires
        0 <= n <= f.len(),
        forall|j: int| 0 <= j < f.len() ==> #[trigger] f[j].voting_power == 0,
    ensures
        total_voting_power(f.subrange(0, n)) == 0,
    decreases n,
{
    if n > 0 {
        lemma_total_is_zero(f, n - 1);
        lemma_total_prefix_step(f, n - 1);
    }
}

} // verus!
