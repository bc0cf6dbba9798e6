//! The laws of the ledger, stated once and proved from the operations'
//! contracts: conservation of issuance, dust elimination, the
//! immutability of referral edges and the suppression of sub-minute
//! accrual.

use vstd::prelude::*;

verus! {

use crate::types::{AccountId, Balance, BlockNumber, BLOCK_SECONDS, total_int};
use crate::ledger::Ledger;
use crate::ledger::spec_dust;
use crate::spread::{rate_units, spec_accrual, spec_accrue_post, spreads_preserved};
use crate::currency::spec_transfer_post;

/// The conservation equation: the total issuance equals the sum of
/// `free + reserved` over all existing accounts plus the outstanding
/// imbalance, where each unconsumed negative token counts its amount
/// positively and each unconsumed positive token negatively.
pub open spec fn conserved(l: Ledger, outstanding: int) -> bool {
    l.total_issuance == l.sum_of_totals() + outstanding
}

/// Conservation holds for every sequence of operations because it holds
/// of every single step: whenever the issuance moves exactly as far as
/// the account sum plus the change in outstanding tokens — which is what
/// each operation's contract states — the equation carries over.
pub proof fn lemma_conservation_preserved(
    pre: Ledger,
    post: Ledger,
    outstanding_pre: int,
    outstanding_post: int,
)
    requires
        conserved(pre, outstanding_pre),
        post.total_issuance - pre.total_issuance == (post.sum_of_totals() - pre.sum_of_totals()) + (
        outstanding_post - outstanding_pre),
    ensures
        conserved(post, outstanding_post),
{
}

/// Conservation across a successful transfer: no token is handed out; the
/// only issuance movement is the dust swept off a dying source, which
/// leaves the account sum in the same step.
pub proof fn lemma_transfer_conserves(
    pre: Ledger,
    post: Ledger,
    from: AccountId,
    to: AccountId,
    value: Balance,
    outstanding: int,
)
    requires
        conserved(pre, outstanding),
        spec_transfer_post(pre, post, from, to, value),
        spec_dust(
            crate::types::acct_with_free(
                pre.account_of(from),
                (pre.account_of(from).free - value) as Balance,
            ),
            pre.existential_deposit,
        ) <= pre.total_issuance,
    ensures
        conserved(post, outstanding),
{
}

/// Conservation across a withdrawal whose negative token is then
/// consumed: the funds leave the account sum when the withdrawal runs and
/// leave the issuance when the token is consumed.
pub proof fn lemma_withdraw_conserves(
    pre: Ledger,
    mid: Ledger,
    post: Ledger,
    value: Balance,
    dust: int,
    outstanding: int,
)
    requires
        conserved(pre, outstanding),
        0 <= dust <= pre.total_issuance,
        mid.sum_of_totals() == pre.sum_of_totals() - value - dust,
        mid.total_issuance == pre.total_issuance - dust,
        value <= mid.total_issuance,
        post.sum_of_totals() == mid.sum_of_totals(),
        post.total_issuance == mid.total_issuance - value,
    ensures
        conserved(mid, outstanding + value),
        conserved(post, outstanding),
{
}

/// Conservation across a deposit whose positive token is then consumed:
/// the funds enter the account sum at the deposit and enter the issuance
/// when the token is consumed.
pub proof fn lemma_deposit_conserves(
    pre: Ledger,
    mid: Ledger,
    post: Ledger,
    value: Balance,
    outstanding: int,
)
    requires
        conserved(pre, outstanding),
        mid.sum_of_totals() == pre.sum_of_totals() + value,
        mid.total_issuance == pre.total_issuance,
        mid.total_issuance + value <= Balance::MAX,
        post.sum_of_totals() == mid.sum_of_totals(),
        post.total_issuance == mid.total_issuance + value,
    ensures
        conserved(mid, outstanding - value),
        conserved(post, outstanding),
{
}

/// Dust elimination: after any operation the ledger is well-formed, and
/// in a well-formed ledger every account's total is either zero (the
/// account does not exist) or at least the existential deposit — never
/// strictly in between.
pub proof fn lemma_dust_elimination(l: Ledger, who: AccountId)
    requires
        l.wf(),
    ensures
        total_int(l.account_of(who)) == 0 || total_int(l.account_of(who))
            >= l.existential_deposit,
{
    if l.has_account(who) {
        l.lemma_account_wf(who);
    }
}

/// Referral immutability: every mutating operation of the ledger ensures
/// `spreads_preserved`, so once an account is linked, its stored referrer
/// never changes again, whatever later calls pass.
pub proof fn lemma_referral_immutable(pre: Ledger, post: Ledger, who: AccountId)
    requires
        pre.has_spread(who),
        spreads_preserved(post, pre),
    ensures
        post.has_spread(who),
        post.spread_of(who).from == pre.spread_of(who).from,
{
}

/// Accrual suppression: a second accrual within the same minute-
/// equivalent window (elapsed blocks times the block time below sixty
/// seconds) adds nothing to the commission ledger when no extra score is
/// handed in, because the rate truncates to zero whole minutes.
pub proof fn lemma_accrual_suppressed(
    pre: Ledger,
    post: Ledger,
    who: AccountId,
    now: BlockNumber,
)
    requires
        pre.has_spread(who),
        pre.spread_of(who).last_height <= now,
        (now - pre.spread_of(who).last_height) * BLOCK_SECONDS < 60,
        spec_accrue_post(pre, post, who, now, 0, pre.account_of(who).free),
    ensures
        post.commission == pre.commission,
{
    let prev = pre.spread_of(who).last_height;
    assert(rate_units(prev, now) == 0) by {
        vstd::arithmetic::div_mod::lemma_basic_div((now - prev) * BLOCK_SECONDS, 60);
    }
    assert(spec_accrual(pre.account_of(who).free, prev, now) == 0) by {
        vstd::arithmetic::mul::lemma_mul_by_zero_is_zero(pre.account_of(who).free as int);
    }
}

} // verus!
