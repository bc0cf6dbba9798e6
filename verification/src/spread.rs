//! The referral forest and the commission accrual engine.
//!
//! Each account carries at most one referral edge, set at first contact and
//! never re-parented afterwards; only its `last_height` moves. On every
//! value-moving event of a linked account, commission accrues to the edge's
//! referrer in proportion to the elapsed whole minutes and the account's
//! free balance at that moment.

use vstd::prelude::*;

verus! {

use crate::types::{
    AccountId,
    Balance,
    BlockNumber,
    Error,
    ExistenceRequirement,
    Spread,
    BLOCK_SECONDS,
    acct_with_free,
    clamp_u128,
    sat_add,
    sat_add_u128,
};
use crate::store::{find_key, find_pair_key, lemma_key_at, lemma_push_fresh, lemma_update_value};
use crate::ledger::{Ledger, accounts_unchanged_except};

/// Every referral edge but the one of `who` reads the same in both
/// ledgers.
pub open spec fn spreads_unchanged_except(post: Ledger, pre: Ledger, who: AccountId) -> bool {
    forall|a: AccountId|
        a != who ==> post.has_spread(a) == pre.has_spread(a) && (pre.has_spread(a)
            ==> post.spread_of(a) == pre.spread_of(a))
}

/// Every commission entry but the one of `(referrer, referee)` reads the
/// same in both ledgers.
pub open spec fn commission_unchanged_except(
    post: Ledger,
    pre: Ledger,
    referrer: AccountId,
    referee: AccountId,
) -> bool {
    forall|x: AccountId, y: AccountId|
        !(x == referrer && y == referee) ==> #[trigger] post.commission_of(x, y)
            == pre.commission_of(x, y) && post.has_commission(x, y) == pre.has_commission(x, y)
}

/// No referral edge changes its referrer between the two ledgers, and no
/// edge is lost: the referral forest only grows and `from` is immutable.
pub open spec fn spreads_preserved(post: Ledger, pre: Ledger) -> bool {
    forall|a: AccountId|
        pre.has_spread(a) ==> post.has_spread(a) && #[trigger] post.spread_of(a).from
            == pre.spread_of(a).from
}

/// The whole elapsed minutes between two heights, at the nominal block
/// time: blocks below a minute's worth accrue nothing.
pub open spec fn rate_units(prev: BlockNumber, now: BlockNumber) -> int
    recommends
        prev <= now,
{
    ((now - prev) * BLOCK_SECONDS) / 60
}

/// The commission that accrues for `who` over an elapsed interval: whole
/// elapsed minutes times the free balance.
pub open spec fn spec_accrual(free: Balance, prev: BlockNumber, now: BlockNumber) -> int {
    rate_units(prev, now) * free
}

/// The sum of the commission owed to `referrer` over a sequence of
/// entries.
pub open spec fn sum_commission_for(
    s: Seq<((AccountId, AccountId), u128)>,
    referrer: AccountId,
) -> int
    decreases s.len(),
{
    if s.len() == 0 {
        0
    } else {
        sum_commission_for(s.drop_last(), referrer) + (if s.last().0.0 == referrer {
            s.last().1 as int
        } else {
            0
        })
    }
}

/// The commission sum is never negative.
pub proof fn lemma_sum_commission_nonneg(s: Seq<((AccountId, AccountId), u128)>, referrer: AccountId)
    ensures
        sum_commission_for(s, referrer) >= 0,
    decreases s.len(),
{
    if s.len() > 0 {
        lemma_sum_commission_nonneg(s.drop_last(), referrer);
    }
}

/// One step of summing: the prefix one longer adds the entry at `i`.
pub proof fn lemma_sum_commission_step(
    s: Seq<((AccountId, AccountId), u128)>,
    referrer: AccountId,
    i: int,
)
    requires
        0 <= i < s.len(),
    ensures
        sum_commission_for(s.take(i + 1), referrer) == sum_commission_for(s.take(i), referrer) + (
        if s[i].0.0 == referrer {
            s[i].1 as int
        } else {
            0
        }),
{
    assert(s.take(i + 1).drop_last() =~= s.take(i));
    assert(s.take(i + 1).last() == s[i]);
}

impl Ledger {
    /// The commission owed to `referrer` summed over all its referees,
    /// clamped to the `u128` domain.
    pub open spec fn spec_commission_total(self, referrer: AccountId) -> int {
        clamp_u128(sum_commission_for(self.commission@, referrer))
    }

    /// Sums the commission owed to `referrer` over all entries, clamped to
    /// the `u128` domain.
    pub fn commission_total(&self, referrer: AccountId) -> (r: u128)
        ensures
            r as int == self.spec_commission_total(referrer),
    {
        let s = &self.commission;
        let mut total: u128 = 0;
        let mut i: usize = 0;
        proof {
            assert(s@.take(0) =~= Seq::<((AccountId, AccountId), u128)>::empty());
        }
        while i < s.len()
            invariant
                i <= s@.len(),
                total as int == clamp_u128(sum_commission_for(s@.take(i as int), referrer)),
            decreases s@.len() - i,
        {
            proof {
                lemma_sum_commission_step(s@, referrer, i as int);
                lemma_sum_commission_nonneg(s@.take(i as int), referrer);
            }
            let entry = &s[i];
            if entry.0.0 == referrer {
                total = if total <= u128::MAX - entry.1 {
                    total + entry.1
                } else {
                    u128::MAX
                };
            }
            i = i + 1;
        }
        proof {
            assert(s@.take(s@.len() as int) =~= s@);
        }
        total
    }

    /// Links `who` to `referrer` at `height` only if no edge exists yet;
    /// an existing edge is left exactly as it is, whatever the arguments.
    pub fn link_if_absent(&mut self, who: AccountId, referrer: Option<AccountId>, height: BlockNumber)
        requires
            old(self).wf(),
        ensures
            final(self).wf(),
            final(self).existential_deposit == old(self).existential_deposit,
            final(self).total_issuance == old(self).total_issuance,
            final(self).accounts == old(self).accounts,
            final(self).locks == old(self).locks,
            final(self).commission == old(self).commission,
            old(self).has_spread(who) ==> final(self).spreads == old(self).spreads,
            !old(self).has_spread(who) ==> final(self).has_spread(who) && final(self).spread_of(
                who,
            ).from == referrer && final(self).spread_of(who).last_height == height,
            spreads_unchanged_except(*final(self), *old(self), who),
            spreads_preserved(*final(self), *old(self)),
    {
        let ghost pre = *self;
        match find_key(&self.spreads, who) {
            Some(_) => {},
            None => {
                proof {
                    lemma_push_fresh(pre.spreads@, who, Spread { from: referrer, last_height: height });
                }
                self.spreads.push((who, Spread { from: referrer, last_height: height }));
            },
        }
    }

    /// Moves the accrual clock of `who` to `height` and returns the
    /// account's referrer; the referrer itself never changes.
    pub fn touch(&mut self, who: AccountId, height: BlockNumber) -> (r: Option<AccountId>)
        requires
            old(self).wf(),
            old(self).has_spread(who),
        ensures
            final(self).wf(),
            final(self).existential_deposit == old(self).existential_deposit,
            final(self).total_issuance == old(self).total_issuance,
            final(self).accounts == old(self).accounts,
            final(self).locks == old(self).locks,
            final(self).commission == old(self).commission,
            r == old(self).spread_of(who).from,
            final(self).has_spread(who),
            final(self).spread_of(who).from == old(self).spread_of(who).from,
            final(self).spread_of(who).last_height == height,
            spreads_unchanged_except(*final(self), *old(self), who),
            spreads_preserved(*final(self), *old(self)),
    {
        let ghost pre = *self;
        match find_key(&self.spreads, who) {
            Some(i) => {
                proof {
                    lemma_key_at(pre.spreads@, who, i as int);
                    lemma_update_value(pre.spreads@, i as int, Spread {
                        from: pre.spreads@[i as int].1.from,
                        last_height: height,
                    });
                }
                let from = self.spreads[i].1.from;
                self.spreads[i] = (who, Spread { from, last_height: height });
                from
            },
            None => {
                proof {
                    assert(false);
                }
                None
            },
        }
    }

    /// The referral edge of `who`, if one exists.
    pub fn spread_info(&self, who: AccountId) -> (r: Option<Spread>)
        requires
            self.wf(),
        ensures
            r is Some <==> self.has_spread(who),
            r matches Some(sp) ==> sp == self.spread_of(who),
    {
        match find_key(&self.spreads, who) {
            Some(i) => {
                proof {
                    lemma_key_at(self.spreads@, who, i as int);
                }
                Some(self.spreads[i].1)
            },
            None => None,
        }
    }

    /// The commission owed to `referrer` for the single referee, zero if
    /// no entry exists.
    pub fn commission_owed(&self, referrer: AccountId, referee: AccountId) -> (r: u128)
        requires
            self.wf(),
        ensures
            r == self.commission_of(referrer, referee),
    {
        match find_pair_key(&self.commission, (referrer, referee)) {
            Some(i) => {
                proof {
                    lemma_key_at(self.commission@, (referrer, referee), i as int);
                }
                self.commission[i].1
            },
            None => 0,
        }
    }

    /// The account has a referral edge.
    pub fn is_linked(&self, who: AccountId) -> (r: bool)
        ensures
            r == self.has_spread(who),
    {
        find_key(&self.spreads, who).is_some()
    }

    /// Writes the commission entry for the `(referrer, referee)` pair to
    /// exactly `value`, replacing whatever was there.
    fn commission_set(&mut self, referrer: AccountId, referee: AccountId, value: u128)
        requires
            old(self).wf(),
        ensures
            final(self).wf(),
            final(self).existential_deposit == old(self).existential_deposit,
            final(self).total_issuance == old(self).total_issuance,
            final(self).accounts == old(self).accounts,
            final(self).locks == old(self).locks,
            final(self).spreads == old(self).spreads,
            final(self).has_commission(referrer, referee),
            final(self).commission_of(referrer, referee) == value,
            commission_unchanged_except(*final(self), *old(self), referrer, referee),
    {
        let ghost pre = *self;
        let key = (referrer, referee);
        match find_pair_key(&self.commission, key) {
            Some(i) => {
                proof {
                    lemma_key_at(pre.commission@, key, i as int);
                    lemma_update_value(pre.commission@, i as int, value);
                    assert(pre.commission@.update(i as int, (pre.commission@[i as int].0, value))
                        =~= pre.commission@.update(i as int, (key, value)));
                }
                self.commission[i] = (key, value);
            },
            None => {
                proof {
                    lemma_push_fresh(pre.commission@, key, value);
                }
                self.commission.push((key, value));
            },
        }
    }

    /// Accrues `fee + extra` onto the commission entry for the pair,
    /// clamped to the `u128` domain; a zero sum writes nothing at all.
    fn commission_accrue(&mut self, referrer: AccountId, referee: AccountId, fee: u128, extra: u128)
        requires
            old(self).wf(),
        ensures
            final(self).wf(),
            final(self).existential_deposit == old(self).existential_deposit,
            final(self).total_issuance == old(self).total_issuance,
            final(self).accounts == old(self).accounts,
            final(self).locks == old(self).locks,
            final(self).spreads == old(self).spreads,
            fee == 0 && extra == 0 ==> *final(self) == *old(self),
            fee > 0 || extra > 0 ==> {
                &&& final(self).has_commission(referrer, referee)
                &&& final(self).commission_of(referrer, referee) as int == clamp_u128(
                    old(self).commission_of(referrer, referee) + fee + extra,
                )
                &&& commission_unchanged_except(*final(self), *old(self), referrer, referee)
            },
    {
        if fee == 0 && extra == 0 {
            return ;
        }
        let ghost pre = *self;
        let key = (referrer, referee);
        match find_pair_key(&self.commission, key) {
            Some(i) => {
                let existing = self.commission[i].1;
                let v = sat_add_u128(sat_add_u128(existing, fee), extra);
                proof {
                    lemma_key_at(pre.commission@, key, i as int);
                    lemma_update_value(pre.commission@, i as int, v);
                    assert(pre.commission@.update(i as int, (pre.commission@[i as int].0, v))
                        =~= pre.commission@.update(i as int, (key, v)));
                }
                self.commission[i] = (key, v);
            },
            None => {
                let v = sat_add_u128(fee, extra);
                proof {
                    lemma_push_fresh(pre.commission@, key, v);
                }
                self.commission.push((key, v));
            },
        }
    }
}

/// What an accrual leaves in the commission ledger: nothing for a root
/// account; for a linked one, the elapsed-minutes-times-balance fee plus
/// the extra score added onto the `(referrer, who)` entry, provided the
/// sum is positive. `free_used` is the free balance the fee was computed
/// from.
pub open spec fn spec_accrue_post(
    pre: Ledger,
    post: Ledger,
    who: AccountId,
    now: BlockNumber,
    extra: u128,
    free_used: Balance,
) -> bool {
    match pre.spread_of(who).from {
        None => post.commission == pre.commission,
        Some(referrer) => {
            let fee = spec_accrual(free_used, pre.spread_of(who).last_height, now);
            if fee + extra > 0 {
                &&& post.has_commission(referrer, who)
                &&& post.commission_of(referrer, who) as int == clamp_u128(
                    pre.commission_of(referrer, who) + fee + extra,
                )
                &&& commission_unchanged_except(post, pre, referrer, who)
            } else {
                post.commission == pre.commission
            }
        },
    }
}

impl Ledger {
    /// Settles the commission owed for `who` up to `current_block`: moves
    /// the accrual clock and, if `who` has a referrer, adds the elapsed
    /// whole minutes times the current free balance, plus `more_score`,
    /// onto the referrer's entry for `who`. The caller must have checked
    /// that a referral edge exists.
    pub fn spread_retun(&mut self, who: AccountId, current_block: BlockNumber, more_score: u128) -> (r:
        bool)
        requires
            old(self).wf(),
            old(self).has_spread(who),
            old(self).spread_of(who).last_height <= current_block,
        ensures
            final(self).wf(),
            r == true,
            final(self).existential_deposit == old(self).existential_deposit,
            final(self).total_issuance == old(self).total_issuance,
            final(self).accounts == old(self).accounts,
            final(self).locks == old(self).locks,
            final(self).has_spread(who),
            final(self).spread_of(who).from == old(self).spread_of(who).from,
            final(self).spread_of(who).last_height == current_block,
            spreads_unchanged_except(*final(self), *old(self), who),
            spreads_preserved(*final(self), *old(self)),
            spec_accrue_post(
                *old(self),
                *final(self),
                who,
                current_block,
                more_score,
                old(self).account_of(who).free,
            ),
    {
        let ghost pre = *self;
        let last_height = match self.spread_info(who) {
            Some(sp) => sp.last_height,
            None => 0,
        };
        let referrer_opt = self.touch(who, current_block);
        let ghost mid = *self;
        match referrer_opt {
            None => true,
            Some(referrer) => {
                let balance = self.free_balance(who) as u128;
                let elapsed = current_block - last_height;
                let secs = BLOCK_SECONDS as u128;
                proof {
                    assert(secs == 3);
                }
                let rate = (elapsed as u128) * secs / 60;
                proof {
                    assert(rate as int == rate_units(last_height, current_block));
                    lemma_rate_fee_fits(rate as int, balance as int);
                }
                let fee = rate * balance;
                proof {
                    assert(fee as int == spec_accrual(
                        pre.account_of(who).free,
                        pre.spread_of(who).last_height,
                        current_block,
                    ));
                }
                self.commission_accrue(referrer, who, fee, more_score);
                proof {
                    assert(mid.commission@ == pre.commission@);
                    if fee > 0 || more_score > 0 {
                        assert forall|x: AccountId, y: AccountId|
                            !(x == referrer && y == who) implies #[trigger] self.commission_of(
                            x,
                            y,
                        ) == pre.commission_of(x, y) && self.has_commission(x, y)
                            == pre.has_commission(x, y) by {
                            assert(self.commission_of(x, y) == mid.commission_of(x, y));
                            assert(self.has_commission(x, y) == mid.has_commission(x, y));
                        }
                    }
                }
                true
            },
        }
    }
}

/// What a spread transfer with a recognised referrer leaves behind when
/// the transfer checks pass: the destination is linked at first contact
/// (with a zeroed commission entry for the pair) or has its accrual
/// flushed, the source has its accrual flushed if it is linked, and then
/// the funds move.
pub open spec fn spec_spread_transfer_post(
    pre: Ledger,
    post: Ledger,
    from: AccountId,
    to: AccountId,
    referrer: AccountId,
    value: Balance,
    height: BlockNumber,
) -> bool {
    let linked_to = pre.has_spread(to);
    let to_edge = pre.spread_of(to);
    let fee_t = spec_accrual(pre.account_of(to).free, to_edge.last_height, height);
    let linked_from = pre.has_spread(from);
    let from_edge = pre.spread_of(from);
    let fee_f = spec_accrual(pre.account_of(from).free, from_edge.last_height, height);
    &&& post.has_spread(to)
    &&& post.spread_of(to).from == (if linked_to {
        to_edge.from
    } else {
        Some(referrer)
    })
    &&& post.spread_of(to).last_height == height
    &&& (from != to ==> post.has_spread(from) == linked_from)
    &&& (from != to && linked_from ==> post.spread_of(from).from == from_edge.from
        && post.spread_of(from).last_height == height)
    &&& (forall|a: AccountId|
        a != to && a != from ==> post.has_spread(a) == pre.has_spread(a) && (pre.has_spread(a)
            ==> #[trigger] post.spread_of(a) == pre.spread_of(a)))
    &&& spreads_preserved(post, pre)
    &&& (forall|x: AccountId, y: AccountId|
        y != to && y != from ==> #[trigger] post.commission_of(x, y) == pre.commission_of(x, y)
            && post.has_commission(x, y) == pre.has_commission(x, y))
    &&& (forall|x: AccountId|
        #![trigger post.commission_of(x, to)]
        {
            if !linked_to {
                &&& post.commission_of(x, to) == (if x == referrer {
                    0u128
                } else {
                    pre.commission_of(x, to)
                })
                &&& post.has_commission(x, to) == (x == referrer || pre.has_commission(x, to))
            } else {
                match to_edge.from {
                    Some(tr) => {
                        &&& post.commission_of(x, to) as int == (if x == tr && fee_t > 0 {
                            clamp_u128(pre.commission_of(x, to) + fee_t)
                        } else {
                            pre.commission_of(x, to) as int
                        })
                        &&& post.has_commission(x, to) == ((x == tr && fee_t > 0)
                            || pre.has_commission(x, to))
                    },
                    None => {
                        &&& post.commission_of(x, to) == pre.commission_of(x, to)
                        &&& post.has_commission(x, to) == pre.has_commission(x, to)
                    },
                }
            }
        })
    &&& (from != to ==> (forall|x: AccountId|
        #![trigger post.commission_of(x, from)]
        {
            if linked_from {
                match from_edge.from {
                    Some(fr) => {
                        &&& post.commission_of(x, from) as int == (if x == fr && fee_f > 0 {
                            clamp_u128(pre.commission_of(x, from) + fee_f)
                        } else {
                            pre.commission_of(x, from) as int
                        })
                        &&& post.has_commission(x, from) == ((x == fr && fee_f > 0)
                            || pre.has_commission(x, from))
                    },
                    None => {
                        &&& post.commission_of(x, from) == pre.commission_of(x, from)
                        &&& post.has_commission(x, from) == pre.has_commission(x, from)
                    },
                }
            } else {
                &&& post.commission_of(x, from) == pre.commission_of(x, from)
                &&& post.has_commission(x, from) == pre.has_commission(x, from)
            }
        }))
    &&& (value > 0 && from != to ==> crate::currency::spec_transfer_post(
        pre,
        post,
        from,
        to,
        value,
    ))
    &&& (value == 0 || from == to ==> post.accounts == pre.accounts && post.total_issuance
        == pre.total_issuance)
}

impl Ledger {
    /// A transfer that drives the referral scheme. A referrer that is
    /// itself unlinked makes the whole call a silent no-op that still
    /// reports success: no funds move at all. Otherwise the destination is
    /// linked to the referrer at its first contact; an already linked
    /// destination keeps its edge (the referrer argument is ignored) and
    /// has its accrual flushed instead, as has a linked source; then the
    /// funds move as a plain transfer with death allowed.
    pub fn spread_transfer(
        &mut self,
        from: AccountId,
        to: AccountId,
        referrer: AccountId,
        value: Balance,
        height: BlockNumber,
    ) -> (r: Result<(), Error>)
        requires
            old(self).wf(),
            old(self).has_spread(to) ==> old(self).spread_of(to).last_height <= height,
            old(self).has_spread(from) ==> old(self).spread_of(from).last_height <= height,
        ensures
            final(self).wf(),
            final(self).locks == old(self).locks,
            final(self).existential_deposit == old(self).existential_deposit,
            !old(self).has_spread(referrer) ==> r is Ok && *final(self) == *old(self),
            old(self).has_spread(referrer) ==> {
                let e = old(self).spec_transfer_error(
                    from,
                    to,
                    value,
                    ExistenceRequirement::AllowDeath,
                );
                &&& (r is Ok <==> e is None)
                &&& (r matches Err(err) ==> Some(err) == e && *final(self) == *old(self))
            },
            old(self).has_spread(referrer) && r is Ok ==> spec_spread_transfer_post(
                *old(self),
                *final(self),
                from,
                to,
                referrer,
                value,
                height,
            ),
    {
        let ghost pre = *self;
        if !self.is_linked(referrer) {
            return Ok(());
        }
        match self.transfer_error(from, to, value, ExistenceRequirement::AllowDeath) {
            Some(e) => {
                return Err(e);
            },
            None => {},
        }
        let to_linked = self.is_linked(to);
        if !to_linked {
            self.link_if_absent(to, Some(referrer), height);
        } else {
            let _ = self.spread_retun(to, height, 0);
        }
        let ghost m = *self;
        if !to_linked {
            self.commission_set(referrer, to, 0);
        }
        let ghost mid1 = *self;
        proof {
            if !pre.has_spread(to) {
                mid1.lemma_spreads_congruent(m);
                m.lemma_commission_congruent(pre);
                assert forall|x: AccountId, y: AccountId| !(x == referrer && y == to) implies
                    #[trigger] mid1.commission_of(x, y) == pre.commission_of(x, y)
                        && mid1.has_commission(x, y) == pre.has_commission(x, y) by {
                    assert(mid1.commission_of(x, y) == m.commission_of(x, y));
                    assert(mid1.has_commission(x, y) == m.has_commission(x, y));
                    assert(m.commission_of(x, y) == pre.commission_of(x, y));
                    assert(m.has_commission(x, y) == pre.has_commission(x, y));
                }
                assert(spreads_unchanged_except(mid1, pre, to));
                assert(spreads_preserved(mid1, pre));
            }
            mid1.lemma_accounts_congruent(pre);
            mid1.lemma_locks_congruent(pre);
        }
        if self.is_linked(from) {
            proof {
                if from != to {
                    assert(mid1.spread_of(from) == pre.spread_of(from));
                }
            }
            let _ = self.spread_retun(from, height, 0);
        }
        let ghost mid2 = *self;
        proof {
            mid2.lemma_accounts_congruent(pre);
            mid2.lemma_locks_congruent(pre);
            assert(mid2.spec_transfer_error(from, to, value, ExistenceRequirement::AllowDeath)
                == pre.spec_transfer_error(from, to, value, ExistenceRequirement::AllowDeath));
        }
        let r = self.transfer_balances(from, to, value, ExistenceRequirement::AllowDeath);
        proof {
            assert(r is Ok);
            final_spread_transfer_proof(pre, mid1, mid2, *self, from, to, referrer, value, height);
        }
        r
    }
}

/// Chains the three steps of a spread transfer (destination side, source
/// side, balance move) into the single post-state statement.
proof fn final_spread_transfer_proof(
    pre: Ledger,
    mid1: Ledger,
    mid2: Ledger,
    post: Ledger,
    from: AccountId,
    to: AccountId,
    referrer: AccountId,
    value: Balance,
    height: BlockNumber,
)
    requires
        pre.wf(),
        pre.has_spread(referrer),
        pre.spec_transfer_error(from, to, value, ExistenceRequirement::AllowDeath) is None,
        pre.has_spread(to) ==> pre.spread_of(to).last_height <= height,
        pre.has_spread(from) ==> pre.spread_of(from).last_height <= height,
        mid1.accounts == pre.accounts,
        mid1.locks == pre.locks,
        mid1.total_issuance == pre.total_issuance,
        mid1.existential_deposit == pre.existential_deposit,
        // destination side
        mid1.has_spread(to),
        mid1.spread_of(to).from == (if pre.has_spread(to) {
            pre.spread_of(to).from
        } else {
            Some(referrer)
        }),
        mid1.spread_of(to).last_height == height,
        spreads_unchanged_except(mid1, pre, to),
        spreads_preserved(mid1, pre),
        !pre.has_spread(to) ==> mid1.has_commission(referrer, to) && mid1.commission_of(
            referrer,
            to,
        ) == 0 && commission_unchanged_except(mid1, pre, referrer, to),
        pre.has_spread(to) ==> spec_accrue_post(
            pre,
            mid1,
            to,
            height,
            0,
            pre.account_of(to).free,
        ),
        // source side
        mid2.accounts == pre.accounts,
        mid2.locks == pre.locks,
        mid2.total_issuance == pre.total_issuance,
        mid2.existential_deposit == pre.existential_deposit,
        mid1.has_spread(from) ==> {
            &&& mid2.has_spread(from)
            &&& mid2.spread_of(from).from == mid1.spread_of(from).from
            &&& mid2.spread_of(from).last_height == height
            &&& spreads_unchanged_except(mid2, mid1, from)
            &&& spreads_preserved(mid2, mid1)
            &&& spec_accrue_post(mid1, mid2, from, height, 0, mid1.account_of(from).free)
        },
        !mid1.has_spread(from) ==> mid2 == mid1,
        // balance move
        post.existential_deposit == mid2.existential_deposit,
        post.locks == mid2.locks,
        post.spreads == mid2.spreads,
        post.commission == mid2.commission,
        value > 0 && from != to ==> crate::currency::spec_transfer_post(
            mid2,
            post,
            from,
            to,
            value,
        ),
        value == 0 || from == to ==> post == mid2,
    ensures
        spec_spread_transfer_post(pre, post, from, to, referrer, value, height),
{
    let linked_to = pre.has_spread(to);
    let to_edge = pre.spread_of(to);
    let fee_t = spec_accrual(pre.account_of(to).free, to_edge.last_height, height);
    let linked_from = pre.has_spread(from);
    let from_edge = pre.spread_of(from);
    let fee_f = spec_accrual(pre.account_of(from).free, from_edge.last_height, height);
    let fee_mid = spec_accrual(
        mid1.account_of(from).free,
        mid1.spread_of(from).last_height,
        height,
    );
    mid1.lemma_accounts_congruent(pre);
    mid2.lemma_accounts_congruent(pre);
    post.lemma_spreads_congruent(mid2);
    post.lemma_commission_congruent(mid2);
    // the accrual amounts are never negative
    if linked_to {
        vstd::arithmetic::div_mod::lemma_div_pos_is_pos(
            (height - to_edge.last_height) * BLOCK_SECONDS,
            60,
        );
        vstd::arithmetic::mul::lemma_mul_nonnegative(
            rate_units(to_edge.last_height, height),
            pre.account_of(to).free as int,
        );
    }
    if mid1.has_spread(from) {
        vstd::arithmetic::div_mod::lemma_div_pos_is_pos(
            (height - mid1.spread_of(from).last_height) * BLOCK_SECONDS,
            60,
        );
        vstd::arithmetic::mul::lemma_mul_nonnegative(
            rate_units(mid1.spread_of(from).last_height, height),
            mid1.account_of(from).free as int,
        );
    }
    if mid1.has_spread(from) && from == to {
        assert(mid1.spread_of(from).last_height == height);
        assert(rate_units(height, height) == 0);
        assert(fee_mid == 0) by {
            vstd::arithmetic::mul::lemma_mul_by_zero_is_zero(mid1.account_of(from).free as int);
        }
    }
    if mid1.has_spread(from) && from != to {
        assert(mid1.spread_of(from) == pre.spread_of(from));
        assert(fee_mid == fee_f);
    }
    // pointwise commission equality across the source-side step
    if !mid1.has_spread(from) || fee_mid <= 0 || mid1.spread_of(from).from is None {
        if mid1.has_spread(from) {
            match mid1.spread_of(from).from {
                None => {
                    mid2.lemma_commission_congruent(mid1);
                },
                Some(_) => {
                    if fee_mid <= 0 {
                        mid2.lemma_commission_congruent(mid1);
                    }
                },
            }
        }
    }
    // pointwise commission equality across the destination-side step
    if linked_to {
        match to_edge.from {
            None => {
                mid1.lemma_commission_congruent(pre);
            },
            Some(_) => {
                if fee_t <= 0 {
                    mid1.lemma_commission_congruent(pre);
                }
            },
        }
    }
    // entries whose referee is neither endpoint never move
    assert forall|x: AccountId, y: AccountId| y != to && y != from implies
        #[trigger] post.commission_of(x, y) == pre.commission_of(x, y) && post.has_commission(
        x,
        y,
    ) == pre.has_commission(x, y) by {
        assert(post.commission_of(x, y) == mid2.commission_of(x, y));
        assert(post.has_commission(x, y) == mid2.has_commission(x, y));
        assert(mid2.commission_of(x, y) == mid1.commission_of(x, y));
        assert(mid2.has_commission(x, y) == mid1.has_commission(x, y));
        assert(mid1.commission_of(x, y) == pre.commission_of(x, y));
        assert(mid1.has_commission(x, y) == pre.has_commission(x, y));
    }
    // entries whose referee is the destination
    assert forall|x: AccountId| ({
        if !linked_to {
            &&& post.commission_of(x, to) == (if x == referrer {
                0u128
            } else {
                pre.commission_of(x, to)
            })
            &&& post.has_commission(x, to) == (x == referrer || pre.has_commission(x, to))
        } else {
            match to_edge.from {
                Some(tr) => {
                    &&& post.commission_of(x, to) as int == (if x == tr && fee_t > 0 {
                        clamp_u128(pre.commission_of(x, to) + fee_t)
                    } else {
                        pre.commission_of(x, to) as int
                    })
                    &&& post.has_commission(x, to) == ((x == tr && fee_t > 0)
                        || pre.has_commission(x, to))
                },
                None => {
                    &&& post.commission_of(x, to) == pre.commission_of(x, to)
                    &&& post.has_commission(x, to) == pre.has_commission(x, to)
                },
            }
        }
    }) by {
        assert(post.commission_of(x, to) == mid2.commission_of(x, to));
        assert(post.has_commission(x, to) == mid2.has_commission(x, to));
        if from != to {
            assert(mid2.commission_of(x, to) == mid1.commission_of(x, to));
            assert(mid2.has_commission(x, to) == mid1.has_commission(x, to));
        } else {
            assert(mid2.commission_of(x, to) == mid1.commission_of(x, to));
            assert(mid2.has_commission(x, to) == mid1.has_commission(x, to));
        }
    }
    // entries whose referee is the source
    if from != to {
        assert forall|x: AccountId| ({
            if linked_from {
                match from_edge.from {
                    Some(fr) => {
                        &&& post.commission_of(x, from) as int == (if x == fr && fee_f > 0 {
                            clamp_u128(pre.commission_of(x, from) + fee_f)
                        } else {
                            pre.commission_of(x, from) as int
                        })
                        &&& post.has_commission(x, from) == ((x == fr && fee_f > 0)
                            || pre.has_commission(x, from))
                    },
                    None => {
                        &&& post.commission_of(x, from) == pre.commission_of(x, from)
                        &&& post.has_commission(x, from) == pre.has_commission(x, from)
                    },
                }
            } else {
                &&& post.commission_of(x, from) == pre.commission_of(x, from)
                &&& post.has_commission(x, from) == pre.has_commission(x, from)
            }
        }) by {
            assert(post.commission_of(x, from) == mid2.commission_of(x, from));
            assert(post.has_commission(x, from) == mid2.has_commission(x, from));
            assert(mid1.commission_of(x, from) == pre.commission_of(x, from));
            assert(mid1.has_commission(x, from) == pre.has_commission(x, from));
            assert(mid1.has_spread(from) == linked_from);
        }
    }
    // the balance move seen from the initial state
    if value > 0 && from != to {
        assert(crate::currency::spec_transfer_post(pre, post, from, to, value));
    } else {
        mid2.lemma_accounts_congruent(post);
    }
}

/// Taking `p` percent of a total, rounded down, splits exactly into the
/// hundreds quotient times `p` plus the percentage of the remainder.
pub proof fn lemma_pct(total: int, p: int)
    requires
        total >= 0,
        0 < p,
    ensures
        (total / 100) * p + ((total % 100) * p) / 100 == (total * p) / 100,
{
    let q = total / 100;
    let r = total % 100;
    vstd::arithmetic::div_mod::lemma_fundamental_div_mod(total, 100);
    assert(total == 100 * q + r);
    assert(total * p == (q * p) * 100 + r * p) by (nonlinear_arith)
        requires
            total == 100 * q + r,
    ;
    vstd::arithmetic::mul::lemma_mul_nonnegative(r, p);
    vstd::arithmetic::mul::lemma_mul_nonnegative(q, p);
    vstd::arithmetic::div_mod::lemma_hoist_over_denominator(r * p, q * p, 100);
}

/// What a commission withdrawal with a positive owed total leaves behind:
/// sixty percent minted into the withdrawer's own free balance where that
/// is possible, the remaining forty percent rolled up into the upstream
/// referrer's accrual if the withdrawer is linked, and the withdrawn
/// entries themselves untouched.
pub open spec fn spec_commission_withdraw_post(
    pre: Ledger,
    post: Ledger,
    who: AccountId,
    height: BlockNumber,
) -> bool {
    let total = pre.spec_commission_total(who);
    let t60 = total * 60 / 100;
    let t40 = total * 40 / 100;
    let a = pre.account_of(who);
    let deposited = t60 <= Balance::MAX && pre.has_account(who) && a.free + t60 <= Balance::MAX;
    let mid_free = if deposited {
        (a.free + t60) as Balance
    } else {
        a.free
    };
    &&& (if deposited {
        &&& post.has_account(who)
        &&& post.account_of(who) == acct_with_free(a, mid_free)
        &&& post.total_issuance as int == sat_add(pre.total_issuance as int, t60)
        &&& post.sum_of_totals() == pre.sum_of_totals() + t60
    } else {
        &&& post.accounts == pre.accounts
        &&& post.total_issuance == pre.total_issuance
    })
    &&& accounts_unchanged_except(post, pre, who)
    &&& (if pre.has_spread(who) {
        &&& post.has_spread(who)
        &&& post.spread_of(who).from == pre.spread_of(who).from
        &&& post.spread_of(who).last_height == height
        &&& spreads_unchanged_except(post, pre, who)
        &&& spec_accrue_post(pre, post, who, height, t40 as u128, mid_free)
    } else {
        &&& post.spreads == pre.spreads
        &&& post.commission == pre.commission
    })
    &&& spreads_preserved(post, pre)
}

impl Ledger {
    /// Withdraws the commission owed to `who`: of the summed entries,
    /// sixty percent is minted into `who`'s own free balance (where the
    /// account exists and the amounts fit), and forty percent is rolled
    /// up as extra score into the upstream referrer's accrual, if `who`
    /// itself is linked. Never fails; a zero owed total is a no-op. The
    /// summed entries themselves are left as they are.
    pub fn spread_return(&mut self, who: AccountId, height: BlockNumber)
        requires
            old(self).wf(),
            old(self).has_spread(who) ==> old(self).spread_of(who).last_height <= height,
        ensures
            final(self).wf(),
            final(self).locks == old(self).locks,
            final(self).existential_deposit == old(self).existential_deposit,
            old(self).spec_commission_total(who) == 0 ==> *final(self) == *old(self),
            old(self).spec_commission_total(who) > 0 ==> spec_commission_withdraw_post(
                *old(self),
                *final(self),
                who,
                height,
            ),
    {
        let ghost pre = *self;
        let total = self.commission_total(who);
        if total == 0 {
            return ;
        }
        let q = total / 100;
        let r = total % 100;
        proof {
            lemma_pct(total as int, 60);
            lemma_pct(total as int, 40);
            assert(q <= u128::MAX / 100);
            vstd::arithmetic::mul::lemma_mul_upper_bound(
                q as int,
                (u128::MAX / 100) as int,
                60,
                60,
            );
            vstd::arithmetic::mul::lemma_mul_upper_bound(
                q as int,
                (u128::MAX / 100) as int,
                40,
                40,
            );
        }
        let t60 = q * 60 + r * 60 / 100;
        let t40 = q * 40 + r * 40 / 100;
        proof {
            assert(t60 as int == pre.spec_commission_total(who) * 60 / 100);
            assert(t40 as int == pre.spec_commission_total(who) * 40 / 100);
        }
        if t60 <= Balance::MAX as u128 {
            let amount = t60 as Balance;
            match self.deposit_into_existing(who, amount) {
                Ok(reward) => {
                    self.consume_positive(reward);
                },
                Err(_) => {},
            }
        }
        let ghost mid = *self;
        proof {
            mid.lemma_spreads_congruent(pre);
            mid.lemma_commission_congruent(pre);
        }
        if self.is_linked(who) {
            let _ = self.spread_retun(who, height, t40);
            proof {
                commission_withdraw_linked_proof(pre, mid, *self, who, height, t40);
            }
        }
    }
}

/// Chains the reward deposit and the roll-up accrual of a commission
/// withdrawal into the single post-state statement for a linked account.
proof fn commission_withdraw_linked_proof(
    pre: Ledger,
    mid: Ledger,
    post: Ledger,
    who: AccountId,
    height: BlockNumber,
    t40: u128,
)
    requires
        pre.has_spread(who),
        mid.spreads == pre.spreads,
        mid.commission == pre.commission,
        post.has_spread(who),
        post.spread_of(who).from == mid.spread_of(who).from,
        post.spread_of(who).last_height == height,
        spreads_unchanged_except(post, mid, who),
        spreads_preserved(post, mid),
        spec_accrue_post(mid, post, who, height, t40, mid.account_of(who).free),
    ensures
        post.spread_of(who).from == pre.spread_of(who).from,
        spreads_unchanged_except(post, pre, who),
        spreads_preserved(post, pre),
        spec_accrue_post(pre, post, who, height, t40, mid.account_of(who).free),
{
    mid.lemma_spreads_congruent(pre);
    mid.lemma_commission_congruent(pre);
    assert forall|a: AccountId|
        a != who implies post.has_spread(a) == pre.has_spread(a) && (pre.has_spread(a)
        ==> post.spread_of(a) == pre.spread_of(a)) by {
        assert(post.has_spread(a) == mid.has_spread(a));
        assert(mid.has_spread(a) == pre.has_spread(a));
    }
    assert forall|a: AccountId| pre.has_spread(a) implies post.has_spread(a)
        && #[trigger] post.spread_of(a).from == pre.spread_of(a).from by {
        assert(mid.has_spread(a));
    }
    match pre.spread_of(who).from {
        None => {
            assert(mid.spread_of(who).from is None);
            assert(post.commission == pre.commission);
        },
        Some(referrer) => {
            let fee = spec_accrual(mid.account_of(who).free, pre.spread_of(who).last_height, height);
            assert(mid.spread_of(who) == pre.spread_of(who));
            if fee + t40 > 0 {
                assert(post.has_commission(referrer, who));
                assert(post.commission_of(referrer, who) as int == clamp_u128(
                    pre.commission_of(referrer, who) + fee + t40,
                ));
                assert forall|x: AccountId, y: AccountId|
                    !(x == referrer && y == who) implies #[trigger] post.commission_of(x, y)
                    == pre.commission_of(x, y) && post.has_commission(x, y) == pre.has_commission(
                    x,
                    y,
                ) by {
                    assert(post.commission_of(x, y) == mid.commission_of(x, y));
                    assert(post.has_commission(x, y) == mid.has_commission(x, y));
                }
            } else {
                assert(post.commission == pre.commission);
            }
        },
    }
}

/// A fee of whole elapsed minutes times a free balance stays inside the
/// `u128` domain: the rate fits in the blocks-to-minutes range and the
/// balance in the `Balance` domain.
pub proof fn lemma_rate_fee_fits(rate: int, balance: int)
    requires
        0 <= rate <= (3 * (Balance::MAX as int)) / 60,
        0 <= balance <= Balance::MAX,
    ensures
        rate * balance <= u128::MAX,
{
    vstd::arithmetic::mul::lemma_mul_upper_bound(
        rate,
        (3 * (Balance::MAX as int)) / 60,
        balance,
        Balance::MAX as int,
    );
}

} // verus!
