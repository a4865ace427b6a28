//! The reward ledger: a single-writer state machine over per-account reward
//! records and per-era volume totals.
//!
//! Rotation is lazy and per-account: there is no global era-close sweep.  An
//! account's pending volume is converted into confirmed reward the next time
//! the account is touched after its era has closed, against that era's frozen
//! total.  Every mutating operation either applies completely or leaves the
//! ledger exactly as it was.

use std::collections::HashMap;
use vstd::prelude::*;

verus! {

broadcast use vstd::std_specs::hash::group_hash_axioms;

use crate::arith::award_spec;
use crate::arith::compute_award;
use crate::arith::lemma_award_le_budget;

/// The ways a ledger operation can fail.
#[derive(Clone, Copy, Debug, PartialEq, Eq, Structural)]
pub enum Error {
    /// A checked addition on a balance or a volume would exceed the numeric
    /// range; the operation aborts with no state change.
    Overflow,
    /// A rotation found pending volume recorded against an era whose total is
    /// zero: the accumulate-before-rotate ordering was broken.
    DivideByZero,
    /// A claim found no record after rotation; unreachable, kept as a guard.
    RewardNotFound,
}

/// One account's standing: the reward already confirmed and withdrawable, and
/// the volume still pending in the era the record was last updated for.
#[derive(Clone, Copy, Debug, PartialEq, Eq, Structural)]
pub struct Reward {
    /// Reward finalized and withdrawable; only a claim resets it.
    pub confirmed: u128,
    /// Volume accrued in the account's open era, not yet converted to reward.
    pub pending_vol: u128,
    /// The era-start tick this record was last updated for.
    pub last_modify: u64,
}

/// The all-zero record a fresh account starts from.
pub open spec fn zero_reward() -> Reward {
    Reward { confirmed: 0, pending_vol: 0, last_modify: 0 }
}

impl Default for Reward {
    fn default() -> (r: Reward)
        ensures
            r == zero_reward(),
    {
        Reward { confirmed: 0, pending_vol: 0, last_modify: 0 }
    }
}

/// The whole ledger as the contracts see it.
#[verifier::ext_equal]
pub ghost struct LedgerView {
    /// Length of an era, in ticks; positive by configuration.
    pub era_duration: u64,
    /// The fixed reward budget distributed per era.
    pub rewards_per_era: u128,
    /// Total volume contributed by all accounts, per era-start tick.
    pub volumes: Map<u64, u128>,
    /// The per-account reward records.
    pub rewards: Map<u64, Reward>,
}

/// The start tick of the era that contains tick `t`.
pub open spec fn era_start_of(d: u64, t: u64) -> u64
    recommends
        d > 0,
{
    (t - (t % d)) as u64
}

/// The record the ledger holds for `who`: a missing account reads as the
/// all-zero record.
pub open spec fn reward_of(s: LedgerView, who: u64) -> Reward {
    if s.rewards.contains_key(who) {
        s.rewards[who]
    } else {
        zero_reward()
    }
}

/// The total volume the ledger holds for the era starting at `era`: a missing
/// era reads as zero.
pub open spec fn total_of(s: LedgerView, era: u64) -> u128 {
    if s.volumes.contains_key(era) {
        s.volumes[era]
    } else {
        0
    }
}

/// The ledger with `who`'s record set to `r`.
pub open spec fn with_reward(s: LedgerView, who: u64, r: Reward) -> LedgerView {
    LedgerView {
        era_duration: s.era_duration,
        rewards_per_era: s.rewards_per_era,
        volumes: s.volumes,
        rewards: s.rewards.insert(who, r),
    }
}

/// What rotating one record to era `at` with `vol` incoming volume yields,
/// given the frozen total `era_total` of the record's own era and the per-era
/// budget.  Within the still-open era the volume only accumulates; across an
/// era boundary any pending volume is first converted into confirmed reward
/// by its proportional share of the budget, rounded down.
pub open spec fn rotate_record_spec(
    r: Reward,
    at: u64,
    vol: u128,
    era_total: u128,
    budget: u128,
) -> Result<Reward, Error> {
    if at == r.last_modify {
        if r.pending_vol + vol <= u128::MAX {
            Ok(
                Reward {
                    confirmed: r.confirmed,
                    pending_vol: (r.pending_vol + vol) as u128,
                    last_modify: r.last_modify,
                },
            )
        } else {
            Err(Error::Overflow)
        }
    } else if r.pending_vol == 0 {
        Ok(Reward { confirmed: r.confirmed, pending_vol: vol, last_modify: at })
    } else if era_total == 0 {
        Err(Error::DivideByZero)
    } else {
        let a = award_spec(r.pending_vol as int, era_total as int, budget as int);
        if r.confirmed + a <= u128::MAX {
            Ok(Reward { confirmed: (r.confirmed + a) as u128, pending_vol: vol, last_modify: at })
        } else {
            Err(Error::Overflow)
        }
    }
}

/// What rotating `who`'s record in ledger `s` yields.
pub open spec fn rotate_outcome(s: LedgerView, at: u64, vol: u128, who: u64) -> Result<
    Reward,
    Error,
> {
    let r = reward_of(s, who);
    rotate_record_spec(r, at, vol, total_of(s, r.last_modify), s.rewards_per_era)
}

/// What a claim at tick `at` yields: the amount withdrawn and the ledger left
/// behind.  The record is first rotated up to the current era with no new
/// volume; a zero confirmed balance is returned as zero with the rotation
/// alone applied; otherwise the confirmed amount is withdrawn and the record
/// is kept only while volume is still pending.
pub open spec fn claim_outcome(s: LedgerView, who: u64, at: u64) -> Result<
    (u128, LedgerView),
    Error,
> {
    let era = era_start_of(s.era_duration, at);
    match rotate_outcome(s, era, 0, who) {
        Ok(nr) => {
            if nr.confirmed == 0 {
                Ok((0u128, with_reward(s, who, nr)))
            } else if nr.pending_vol > 0 {
                Ok(
                    (
                        nr.confirmed,
                        with_reward(
                            s,
                            who,
                            Reward {
                                confirmed: 0,
                                pending_vol: nr.pending_vol,
                                last_modify: nr.last_modify,
                            },
                        ),
                    ),
                )
            } else {
                Ok(
                    (
                        nr.confirmed,
                        LedgerView {
                            era_duration: s.era_duration,
                            rewards_per_era: s.rewards_per_era,
                            volumes: s.volumes,
                            rewards: s.rewards.remove(who),
                        },
                    ),
                )
            }
        },
        Err(e) => Err(e),
    }
}

/// What recording a trade yields: zero volume is a no-op; otherwise the trade
/// is accumulated into the total of the era that `at` falls in and the
/// trader's record is rotated to that era with the same volume.  Either both
/// updates apply or, on failure, neither does.
pub open spec fn save_trading_outcome(s: LedgerView, trader: u64, vol: u128, at: u64) -> Result<
    LedgerView,
    Error,
> {
    if vol == 0 {
        Ok(s)
    } else {
        let era = era_start_of(s.era_duration, at);
        if total_of(s, era) + vol > u128::MAX {
            Err(Error::Overflow)
        } else {
            let s1 = LedgerView {
                era_duration: s.era_duration,
                rewards_per_era: s.rewards_per_era,
                volumes: s.volumes.insert(era, (total_of(s, era) + vol) as u128),
                rewards: s.rewards,
            };
            match rotate_outcome(s1, era, vol, trader) {
                Ok(nr) => Ok(with_reward(s1, trader, nr)),
                Err(e) => Err(e),
            }
        }
    }
}

/// The reward ledger and its configuration.
pub struct Pallet {
    duration: u64,
    budget: u128,
    volume_map: HashMap<u64, u128>,
    reward_map: HashMap<u64, Reward>,
}

impl View for Pallet {
    type V = LedgerView;

    closed spec fn view(&self) -> LedgerView {
        LedgerView {
            era_duration: self.duration,
            rewards_per_era: self.budget,
            volumes: self.volume_map@,
            rewards: self.reward_map@,
        }
    }
}

/// One account record rotated by `rotate_record_spec`, computed.
fn rotate_record(r: &Reward, at: u64, vol: u128, era_total: u128, budget: u128) -> (out: Result<
    Reward,
    Error,
>)
    ensures
        out == rotate_record_spec(*r, at, vol, era_total, budget),
{
    if at == r.last_modify {
        if vol <= u128::MAX - r.pending_vol {
            Ok(
                Reward {
                    confirmed: r.confirmed,
                    pending_vol: r.pending_vol + vol,
                    last_modify: r.last_modify,
                },
            )
        } else {
            Err(Error::Overflow)
        }
    } else if r.pending_vol == 0 {
        Ok(Reward { confirmed: r.confirmed, pending_vol: vol, last_modify: at })
    } else if era_total == 0 {
        Err(Error::DivideByZero)
    } else {
        let a = compute_award(r.pending_vol, era_total, budget);
        if a <= u128::MAX - r.confirmed {
            Ok(Reward { confirmed: r.confirmed + a, pending_vol: vol, last_modify: at })
        } else {
            Err(Error::Overflow)
        }
    }
}

impl Pallet {
    /// The configuration is well-formed: eras have positive length.
    pub open spec fn wf(&self) -> bool {
        self@.era_duration > 0
    }

    /// A fresh, empty ledger.  Eras must have positive length; constructing
    /// the ledger with a zero era duration is a configuration error.
    pub fn new(era_duration: u64, rewards_per_era: u128) -> (p: Pallet)
        requires
            0 < era_duration,
        ensures
            p.wf(),
            p@ == (LedgerView {
                era_duration,
                rewards_per_era,
                volumes: Map::<u64, u128>::empty(),
                rewards: Map::<u64, Reward>::empty(),
            }),
    {
        Pallet {
            duration: era_duration,
            budget: rewards_per_era,
            volume_map: HashMap::new(),
            reward_map: HashMap::new(),
        }
    }

    /// The configured length of an era, in ticks.
    pub fn era_duration(&self) -> (r: u64)
        ensures
            r == self@.era_duration,
    {
        self.duration
    }

    /// The configured reward budget of one era.
    pub fn rewards_per_era(&self) -> (r: u128)
        ensures
            r == self@.rewards_per_era,
    {
        self.budget
    }

    /// The start tick of the era containing tick `at`.
    pub fn era_start(&self, at: u64) -> (r: u64)
        requires
            self.wf(),
        ensures
            r == era_start_of(self@.era_duration, at),
    {
        proof {
            assert(at % self.duration <= at) by (nonlinear_arith)
                requires
                    self.duration > 0,
            ;
        }
        at - at % self.duration
    }

    /// The record held for `who`; a missing account reads as all-zero.
    pub fn rewards(&self, who: u64) -> (r: Reward)
        ensures
            r == reward_of(self@, who),
    {
        match self.reward_map.get(&who) {
            Some(r) => *r,
            None => Reward::default(),
        }
    }

    /// The confirmed, withdrawable balance of `who`: a read-only snapshot,
    /// possibly stale until the account's next rotation.
    pub fn acked_reward(&self, who: u64) -> (r: u128)
        ensures
            r == reward_of(self@, who).confirmed,
    {
        self.rewards(who).confirmed
    }

    /// The recorded total volume of the era starting exactly at `era`; a
    /// missing era reads as zero.
    pub fn volumes(&self, era: u64) -> (r: u128)
        ensures
            r == total_of(self@, era),
    {
        match self.volume_map.get(&era) {
            Some(v) => *v,
            None => 0,
        }
    }

    /// The recorded total volume of the era containing tick `at`.
    pub fn total_volume(&self, at: u64) -> (r: u128)
        requires
            self.wf(),
        ensures
            r == total_of(self@, era_start_of(self@.era_duration, at)),
    {
        let era = self.era_start(at);
        self.volumes(era)
    }

    /// Rotates `who`'s record to era-start tick `at`, adding `vol` new
    /// volume, and returns the up-to-date confirmed balance.  On failure the
    /// ledger is left exactly as it was.
    pub fn rotate_reward(&mut self, at: u64, vol: u128, account: u64) -> (out: Result<u128, Error>)
        requires
            old(self).wf(),
        ensures
            final(self).wf(),
            match rotate_outcome(old(self)@, at, vol, account) {
                Ok(nr) => out == Ok::<u128, Error>(nr.confirmed) && final(self)@ == with_reward(
                    old(self)@,
                    account,
                    nr,
                ),
                Err(e) => out == Err::<u128, Error>(e) && final(self)@ == old(self)@,
            },
    {
        let rec = self.rewards(account);
        let tot = self.volumes(rec.last_modify);
        match rotate_record(&rec, at, vol, tot, self.budget) {
            Ok(nr) => {
                self.reward_map.insert(account, nr);
                Ok(nr.confirmed)
            },
            Err(e) => Err(e),
        }
    }

    /// Records a trade: accumulates `vol` into the total of the era that `at`
    /// falls in, then rotates the trader's record to that era with the same
    /// volume.  Zero volume is a no-op.  On failure neither update is
    /// applied.
    pub fn save_trading(&mut self, trader: u64, vol: u128, at: u64) -> (out: Result<(), Error>)
        requires
            old(self).wf(),
        ensures
            final(self).wf(),
            match save_trading_outcome(old(self)@, trader, vol, at) {
                Ok(s1) => out == Ok::<(), Error>(()) && final(self)@ == s1,
                Err(e) => out == Err::<(), Error>(e) && final(self)@ == old(self)@,
            },
    {
        if vol == 0 {
            return Ok(());
        }
        let era = self.era_start(at);
        let cur = self.volumes(era);
        if vol > u128::MAX - cur {
            return Err(Error::Overflow);
        }
        let new_total = cur + vol;
        let rec = self.rewards(trader);
        // the total the rotation reads, as it stands after the accumulate
        let tot = if rec.last_modify == era {
            new_total
        } else {
            self.volumes(rec.last_modify)
        };
        match rotate_record(&rec, era, vol, tot, self.budget) {
            Ok(nr) => {
                self.volume_map.insert(era, new_total);
                self.reward_map.insert(trader, nr);
                Ok(())
            },
            Err(e) => Err(e),
        }
    }

    /// Withdraws `who`'s confirmed balance as of tick `at`: the record is
    /// first rotated up to the current era, the confirmed amount is zeroed
    /// and returned, and the record is dropped once nothing is pending.  A
    /// zero balance is returned as zero with no withdrawal.  On failure the
    /// ledger is left exactly as it was.  The caller is expected to credit
    /// the returned amount to the account in the external balance store, and
    /// to do so atomically with this call.
    pub fn claim_reward(&mut self, who: u64, at: u64) -> (out: Result<u128, Error>)
        requires
            old(self).wf(),
        ensures
            final(self).wf(),
            match claim_outcome(old(self)@, who, at) {
                Ok(p) => out == Ok::<u128, Error>(p.0) && final(self)@ == p.1,
                Err(e) => out == Err::<u128, Error>(e) && final(self)@ == old(self)@,
            },
            out != Err::<u128, Error>(Error::RewardNotFound),
    {
        let era = self.era_start(at);
        let rec = self.rewards(who);
        let tot = self.volumes(rec.last_modify);
        match rotate_record(&rec, era, 0, tot, self.budget) {
            Err(e) => Err(e),
            Ok(nr) => {
                // the rotation commits on its own, whether or not anything
                // is withdrawn below
                self.reward_map.insert(who, nr);
                if nr.confirmed == 0 {
                    return Ok(0);
                }
                // defensive guard: a claim needs a record to zero; the
                // rotation above has just materialized it, so this cannot
                // fail
                if !self.reward_map.contains_key(&who) {
                    return Err(Error::RewardNotFound);
                }
                let amount = nr.confirmed;
                if nr.pending_vol > 0 {
                    let kept = Reward {
                        confirmed: 0,
                        pending_vol: nr.pending_vol,
                        last_modify: nr.last_modify,
                    };
                    self.reward_map.insert(who, kept);
                    proof {
                        assert(self.reward_map@ =~= old(self)@.rewards.insert(who, kept));
                    }
                } else {
                    self.reward_map.remove(&who);
                    proof {
                        assert(self.reward_map@ =~= old(self)@.rewards.remove(who));
                    }
                }
                Ok(amount)
            },
        }
    }
}

/// Rotating within the account's open era only accumulates pending volume:
/// the confirmed balance is never recomputed, however often the rotation is
/// repeated, and the only possible failure is overflow of the pending figure.
pub proof fn lemma_same_era_rotate_accumulates(
    r: Reward,
    at: u64,
    vol: u128,
    era_total: u128,
    budget: u128,
)
    requires
        at == r.last_modify,
    ensures
        match rotate_record_spec(r, at, vol, era_total, budget) {
            Ok(nr) => nr.confirmed == r.confirmed && nr.pending_vol == r.pending_vol + vol
                && nr.last_modify == r.last_modify,
            Err(e) => e == Error::Overflow && r.pending_vol + vol > u128::MAX,
        },
{
}

/// An account with nothing pending crosses an era boundary silently: the
/// rotation succeeds and awards nothing, whatever the closed era's total was.
pub proof fn lemma_stale_account_skip(
    r: Reward,
    at: u64,
    vol: u128,
    era_total: u128,
    budget: u128,
)
    requires
        at != r.last_modify,
        r.pending_vol == 0,
    ensures
        rotate_record_spec(r, at, vol, era_total, budget) == Ok::<Reward, Error>(
            Reward { confirmed: r.confirmed, pending_vol: vol, last_modify: at },
        ),
{
}

/// A trade whose volume would push the trader's pending figure past the
/// numeric maximum fails with `Overflow`; by `save_trading`'s contract the
/// ledger, the pending volume in particular, is then left unchanged.
pub proof fn lemma_record_volume_overflow_guard(s: LedgerView, trader: u64, vol: u128, at: u64)
    requires
        vol > 0,
        reward_of(s, trader).last_modify == era_start_of(s.era_duration, at),
        reward_of(s, trader).pending_vol + vol > u128::MAX,
    ensures
        save_trading_outcome(s, trader, vol, at) == Err::<LedgerView, Error>(Error::Overflow),
{
}

/// Within an open era, one recorded trade moves the era's total and the
/// trader's pending volume by exactly the trade's volume and leaves the
/// confirmed balance alone: volume is conserved between the aggregator and
/// the ledger.
pub proof fn lemma_trade_conserves_volume(s: LedgerView, trader: u64, vol: u128, at: u64)
    requires
        vol > 0,
        reward_of(s, trader).last_modify == era_start_of(s.era_duration, at),
        save_trading_outcome(s, trader, vol, at) is Ok,
    ensures
        ({
            let s1 = save_trading_outcome(s, trader, vol, at)->Ok_0;
            let era = era_start_of(s.era_duration, at);
            &&& total_of(s1, era) == total_of(s, era) + vol
            &&& reward_of(s1, trader).pending_vol == reward_of(s, trader).pending_vol + vol
            &&& reward_of(s1, trader).confirmed == reward_of(s, trader).confirmed
        }),
{
}

/// Every account's pending volume is covered by the recorded total of the
/// era it is pending for.  This is the accumulate-before-rotate ordering the
/// rotation algorithm relies on: `save_trading` establishes and preserves it,
/// and under it the inconsistency error `DivideByZero` is unreachable.
pub open spec fn volume_consistent(s: LedgerView) -> bool {
    forall|a: u64|
        (#[trigger] reward_of(s, a)).pending_vol <= total_of(s, reward_of(s, a).last_modify)
}

/// A ledger with no records yet is volume-consistent.
pub proof fn lemma_empty_ledger_consistent(s: LedgerView)
    requires
        s.rewards == Map::<u64, Reward>::empty(),
    ensures
        volume_consistent(s),
{
    assert forall|a: u64|
        (#[trigger] reward_of(s, a)).pending_vol <= total_of(
            s,
            reward_of(s, a).last_modify,
        ) by {
        assert(!s.rewards.contains_key(a));
    }
}

/// Recording a trade preserves volume consistency: the trader's new pending
/// volume is accumulated into its era's total first.
pub proof fn lemma_save_trading_preserves_consistency(
    s: LedgerView,
    trader: u64,
    vol: u128,
    at: u64,
)
    requires
        volume_consistent(s),
        save_trading_outcome(s, trader, vol, at) is Ok,
    ensures
        volume_consistent(save_trading_outcome(s, trader, vol, at)->Ok_0),
{
    let s2 = save_trading_outcome(s, trader, vol, at)->Ok_0;
    if vol != 0 {
        let era = era_start_of(s.era_duration, at);
        let nt = (total_of(s, era) + vol) as u128;
        assert forall|a: u64|
            (#[trigger] reward_of(s2, a)).pending_vol <= total_of(
                s2,
                reward_of(s2, a).last_modify,
            ) by {
            let r = reward_of(s, a);
            assert(r.pending_vol <= total_of(s, r.last_modify));
            if a != trader {
                assert(reward_of(s2, a) == r);
            }
        }
    }
}

/// A claim preserves volume consistency: it converts or keeps pending volume
/// but never grows it, and leaves the era totals alone.
pub proof fn lemma_claim_preserves_consistency(s: LedgerView, who: u64, at: u64)
    requires
        volume_consistent(s),
        claim_outcome(s, who, at) is Ok,
    ensures
        volume_consistent(claim_outcome(s, who, at)->Ok_0.1),
{
    let s2 = claim_outcome(s, who, at)->Ok_0.1;
    assert forall|a: u64|
        (#[trigger] reward_of(s2, a)).pending_vol <= total_of(
            s2,
            reward_of(s2, a).last_modify,
        ) by {
        let r = reward_of(s, a);
        assert(r.pending_vol <= total_of(s, r.last_modify));
        if a != who {
            assert(reward_of(s2, a) == r);
        }
    }
}

/// In a volume-consistent ledger no operation ever reports the broken
/// accumulate-before-rotate ordering: `DivideByZero` is unreachable.
pub proof fn lemma_no_divide_by_zero(s: LedgerView, at: u64, vol: u128, who: u64)
    requires
        volume_consistent(s),
    ensures
        rotate_outcome(s, at, vol, who) != Err::<Reward, Error>(Error::DivideByZero),
        claim_outcome(s, who, at) != Err::<(u128, LedgerView), Error>(Error::DivideByZero),
        save_trading_outcome(s, who, vol, at) != Err::<LedgerView, Error>(Error::DivideByZero),
{
    let r = reward_of(s, who);
    assert(r.pending_vol <= total_of(s, r.last_modify));
}

/// Claiming with a zero confirmed balance in the account's open era withdraws
/// nothing and leaves the ledger exactly as it was.
pub proof fn lemma_zero_claim_is_noop(s: LedgerView, who: u64, at: u64)
    requires
        s.rewards.contains_key(who),
        s.rewards[who].last_modify == era_start_of(s.era_duration, at),
        s.rewards[who].confirmed == 0,
    ensures
        claim_outcome(s, who, at) == Ok::<(u128, LedgerView), Error>((0u128, s)),
{
    let era = era_start_of(s.era_duration, at);
    let r = reward_of(s, who);
    assert(rotate_outcome(s, era, 0, who) == Ok::<Reward, Error>(r));
    assert(s.rewards.insert(who, r) =~= s.rewards);
    assert(with_reward(s, who, r) =~= s);
}

/// No double claim: after a claim that withdrew a positive amount, an
/// immediate second claim at the same tick succeeds and withdraws zero.
pub proof fn lemma_no_double_claim(s: LedgerView, who: u64, at: u64)
    requires
        claim_outcome(s, who, at) is Ok,
        claim_outcome(s, who, at)->Ok_0.0 > 0,
    ensures
        claim_outcome(claim_outcome(s, who, at)->Ok_0.1, who, at) is Ok,
        claim_outcome(claim_outcome(s, who, at)->Ok_0.1, who, at)->Ok_0.0 == 0,
{
    let s1 = claim_outcome(s, who, at)->Ok_0.1;
    let era = era_start_of(s.era_duration, at);
    let nr = rotate_outcome(s, era, 0, who)->Ok_0;
    let r1 = reward_of(s1, who);
    assert(r1.confirmed == 0);
    if s1.rewards.contains_key(who) {
        assert(r1.last_modify == era && r1.pending_vol == nr.pending_vol);
    }
}

/// Round trip: a claim leaves the confirmed balance at zero, and the balance
/// a later rotation confirms is exactly the fresh award earned by the volume
/// still pending after the claim — an amount once claimed never reappears.
pub proof fn lemma_claim_round_trip(s: LedgerView, who: u64, at: u64, at2: u64, vol: u128)
    requires
        claim_outcome(s, who, at) is Ok,
    ensures
        ({
            let s1 = claim_outcome(s, who, at)->Ok_0.1;
            let r1 = reward_of(s1, who);
            &&& r1.confirmed == 0
            &&& match rotate_outcome(s1, at2, vol, who) {
                Ok(nr) => nr.confirmed == if at2 != r1.last_modify && r1.pending_vol > 0 {
                    award_spec(
                        r1.pending_vol as int,
                        total_of(s1, r1.last_modify) as int,
                        s1.rewards_per_era as int,
                    )
                } else {
                    0int
                },
                Err(_) => true,
            }
        }),
{
    let s1 = claim_outcome(s, who, at)->Ok_0.1;
    let r1 = reward_of(s1, who);
    assert(r1.confirmed == 0);
    if at2 != r1.last_modify && r1.pending_vol > 0 && total_of(s1, r1.last_modify) > 0 {
        lemma_award_le_budget(
            r1.pending_vol as int,
            total_of(s1, r1.last_modify) as int,
            s1.rewards_per_era as int,
        );
    }
}

} // verus!
