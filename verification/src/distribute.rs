use vstd::prelude::*;

use crate::asset::AssetRefV;
use crate::error::ContractError;
use crate::instr::{bears_payload, view_instrs, Instruction, InstructionV};
use crate::math::{lemma_div_nonneg, lemma_div_superadd, lemma_fraction_le_whole, mul_ratio};
use crate::state::{
    require_admin, require_sufficient_balance, sum_weights, sum_weights_upto, total_weight,
    view_targets, weights_in_range, wf_targets, DistributeTargetV, TreasuryState, TreasuryStateV,
};
use vstd::arithmetic::div_mod::{lemma_div_is_ordered, lemma_div_multiples_vanish};
use vstd::arithmetic::mul::{lemma_mul_inequality, lemma_mul_is_commutative};

verus! {

/// The share the pure weight formula assigns a target:
/// `floor(amount * weight / total)`.
pub open spec fn base_share(amount: int, weight: int, total: int) -> int {
    amount * weight / total
}

/// The sum of the base shares of the first `k` targets.
pub open spec fn sum_base_upto(
    amount: int,
    ts: Seq<DistributeTargetV>,
    total: int,
    k: int,
) -> int
    decreases k,
{
    if k <= 0 {
        0
    } else {
        sum_base_upto(amount, ts, total, k - 1) + base_share(amount, ts[k - 1].weight, total)
    }
}

/// What floor division dropped from the base shares. It is handed out one
/// unit at a time to the targets in table order, so that the final shares
/// sum exactly to the amount.
pub open spec fn spec_remainder(amount: int, ts: Seq<DistributeTargetV>) -> int {
    amount - sum_base_upto(amount, ts, sum_weights(ts), ts.len() as int)
}

/// The exact amount target `i` receives: its base share, plus one remainder
/// unit when the target stands early enough in the table.
pub open spec fn final_share(amount: int, ts: Seq<DistributeTargetV>, i: int) -> int {
    base_share(amount, ts[i].weight, sum_weights(ts)) + if i < spec_remainder(amount, ts) {
        1int
    } else {
        0int
    }
}

/// The instruction a single target with a positive share yields: a plain
/// transfer, or one that carries the configured callback payload.
pub open spec fn instr_for(primary: AssetRefV, t: DistributeTargetV, share: int) -> InstructionV {
    match t.msg_hook {
        Some(payload) => InstructionV::TransferWithPayload {
            asset: primary,
            recipient: t.addr,
            amount: share,
            payload,
        },
        None => InstructionV::Transfer { asset: primary, recipient: t.addr, amount: share },
    }
}

/// The instructions of the targets from index `i` on, in table order: one
/// transfer per target with a positive final share; a target with share zero
/// yields nothing.
pub open spec fn distribute_instrs_from(
    primary: AssetRefV,
    ts: Seq<DistributeTargetV>,
    amount: int,
    i: int,
) -> Seq<InstructionV>
    decreases ts.len() - i,
{
    if i < 0 || i >= ts.len() {
        Seq::empty()
    } else {
        let rest = distribute_instrs_from(primary, ts, amount, i + 1);
        if final_share(amount, ts, i) > 0 {
            seq![instr_for(primary, ts[i], final_share(amount, ts, i))] + rest
        } else {
            rest
        }
    }
}

/// The full instruction batch of one distribution call.
pub open spec fn distribute_instrs(s: TreasuryStateV, amount: int) -> Seq<InstructionV> {
    distribute_instrs_from(s.primary_asset, s.targets, amount, 0)
}

/// Prefix sums of weights grow with the prefix (weights are non-negative).
proof fn lemma_sum_weights_mono(ts: Seq<DistributeTargetV>, k1: int, k2: int)
    requires
        weights_in_range(ts),
        0 <= k1 <= k2 <= ts.len(),
    ensures
        sum_weights_upto(ts, k1) <= sum_weights_upto(ts, k2),
    decreases k2,
{
    if k1 < k2 {
        lemma_sum_weights_mono(ts, k1, k2 - 1);
    }
}

/// Each single weight is at most the total weight.
proof fn lemma_weight_le_total(ts: Seq<DistributeTargetV>, i: int)
    requires
        weights_in_range(ts),
        0 <= i < ts.len(),
    ensures
        ts[i].weight <= sum_weights(ts),
{
    lemma_sum_weights_mono(ts, 0, i);
    lemma_sum_weights_mono(ts, i + 1, ts.len() as int);
}

/// A prefix of the base shares allots at most the weighted fraction of the
/// amount, and never a negative total.
proof fn lemma_sum_base_le_fraction(amount: int, ts: Seq<DistributeTargetV>, total: int, k: int)
    requires
        0 <= amount,
        0 < total,
        weights_in_range(ts),
        0 <= k <= ts.len(),
    ensures
        0 <= sum_base_upto(amount, ts, total, k),
        sum_base_upto(amount, ts, total, k) <= amount * sum_weights_upto(ts, k) / total,
    decreases k,
{
    if k > 0 {
        lemma_sum_base_le_fraction(amount, ts, total, k - 1);
        let w = ts[k - 1].weight;
        let sw = sum_weights_upto(ts, k - 1);
        lemma_sum_weights_mono(ts, 0, k - 1);
        lemma_mul_inequality(0, w, amount);
        lemma_mul_inequality(0, sw, amount);
        assert(0 * amount == 0);
        lemma_mul_is_commutative(w, amount);
        lemma_mul_is_commutative(sw, amount);
        lemma_div_nonneg(amount * w, total);
        lemma_div_superadd(amount * sw, amount * w, total);
        assert(amount * sw + amount * w == amount * (sw + w)) by {
            vstd::arithmetic::mul::lemma_mul_is_distributive_add(amount, sw, w);
        }
    }
}

/// The base shares of a prefix never over-allot: their total stays within
/// the amount.
proof fn lemma_sum_base_le_amount(amount: int, ts: Seq<DistributeTargetV>, k: int)
    requires
        0 <= amount,
        weights_in_range(ts),
        sum_weights(ts) > 0,
        0 <= k <= ts.len(),
    ensures
        0 <= sum_base_upto(amount, ts, sum_weights(ts), k),
        sum_base_upto(amount, ts, sum_weights(ts), k) <= amount,
{
    let total = sum_weights(ts);
    lemma_sum_base_le_fraction(amount, ts, total, k);
    lemma_sum_weights_mono(ts, 0, k);
    lemma_sum_weights_mono(ts, k, ts.len() as int);
    lemma_fraction_le_whole(amount, sum_weights_upto(ts, k), total);
}

/// The base shares of the whole table miss the amount by less than the
/// number of targets.
proof fn lemma_sum_base_ge(amount: int, ts: Seq<DistributeTargetV>, total: int, k: int)
    requires
        0 <= amount,
        0 < total,
        weights_in_range(ts),
        1 <= k <= ts.len(),
    ensures
        sum_base_upto(amount, ts, total, k) >= amount * sum_weights_upto(ts, k) / total - (k - 1),
    decreases k,
{
    if k > 1 {
        lemma_sum_base_ge(amount, ts, total, k - 1);
        let w = ts[k - 1].weight;
        let sw = sum_weights_upto(ts, k - 1);
        lemma_sum_weights_mono(ts, 0, k - 1);
        lemma_mul_inequality(0, w, amount);
        lemma_mul_inequality(0, sw, amount);
        assert(0 * amount == 0);
        lemma_mul_is_commutative(w, amount);
        lemma_mul_is_commutative(sw, amount);
        lemma_div_superadd(amount * sw, amount * w, total);
        assert(amount * sw + amount * w == amount * (sw + w)) by {
            vstd::arithmetic::mul::lemma_mul_is_distributive_add(amount, sw, w);
        }
    } else {
        assert(sum_weights_upto(ts, 0) == 0);
        assert(sum_base_upto(amount, ts, total, 0) == 0);
    }
}

/// The remainder of a distribution is non-negative and strictly smaller than
/// the number of targets.
pub proof fn lemma_remainder_bounds(amount: int, ts: Seq<DistributeTargetV>)
    requires
        0 <= amount,
        wf_targets(ts),
    ensures
        0 <= spec_remainder(amount, ts),
        spec_remainder(amount, ts) < ts.len(),
{
    let total = sum_weights(ts);
    let n = ts.len() as int;
    lemma_sum_base_le_amount(amount, ts, n);
    lemma_sum_base_ge(amount, ts, total, n);
    lemma_mul_inequality(0, total, amount);
    assert(0 * amount == 0);
    lemma_mul_is_commutative(total, amount);
    lemma_div_multiples_vanish(amount, total);
    lemma_mul_is_commutative(total, amount);
    assert(amount * sum_weights_upto(ts, n) / total == amount);
}

/// Every base share stays within the total allotted by the whole table.
proof fn lemma_base_share_le_sum(amount: int, ts: Seq<DistributeTargetV>, i: int)
    requires
        0 <= amount,
        wf_targets(ts),
        0 <= i < ts.len(),
    ensures
        0 <= base_share(amount, ts[i].weight, sum_weights(ts)),
        base_share(amount, ts[i].weight, sum_weights(ts)) <= sum_base_upto(
            amount,
            ts,
            sum_weights(ts),
            ts.len() as int,
        ),
    decreases ts.len() - i,
{
    let total = sum_weights(ts);
    lemma_mul_inequality(0, ts[i].weight, amount);
    assert(0 * amount == 0);
    lemma_mul_is_commutative(ts[i].weight, amount);
    lemma_div_nonneg(amount * ts[i].weight, total);
    lemma_sum_base_le_amount(amount, ts, i);
    assert(sum_base_upto(amount, ts, total, i + 1) == sum_base_upto(amount, ts, total, i)
        + base_share(amount, ts[i].weight, total));
    lemma_sum_base_mono(amount, ts, total, i + 1, ts.len() as int);
}

/// Prefix sums of base shares grow with the prefix.
proof fn lemma_sum_base_mono(amount: int, ts: Seq<DistributeTargetV>, total: int, k1: int, k2: int)
    requires
        0 <= amount,
        0 < total,
        weights_in_range(ts),
        0 <= k1 <= k2 <= ts.len(),
    ensures
        sum_base_upto(amount, ts, total, k1) <= sum_base_upto(amount, ts, total, k2),
    decreases k2,
{
    if k1 < k2 {
        lemma_sum_base_mono(amount, ts, total, k1, k2 - 1);
        let w = ts[k2 - 1].weight;
        lemma_mul_inequality(0, w, amount);
        assert(0 * amount == 0);
        lemma_mul_is_commutative(w, amount);
        lemma_div_nonneg(amount * w, total);
    }
}

/// The sum of the final shares of the first `k` targets.
pub open spec fn sum_final_upto(amount: int, ts: Seq<DistributeTargetV>, k: int) -> int
    decreases k,
{
    if k <= 0 {
        0
    } else {
        sum_final_upto(amount, ts, k - 1) + final_share(amount, ts, k - 1)
    }
}

/// The sum of all final shares of a distribution.
pub open spec fn sum_final_shares(amount: int, ts: Seq<DistributeTargetV>) -> int {
    sum_final_upto(amount, ts, ts.len() as int)
}

/// A prefix of the final shares sums to the base shares plus the remainder
/// units handed out within the prefix.
proof fn lemma_sum_final_split(amount: int, ts: Seq<DistributeTargetV>, k: int)
    requires
        0 <= amount,
        wf_targets(ts),
        0 <= k <= ts.len(),
    ensures
        sum_final_upto(amount, ts, k) == sum_base_upto(amount, ts, sum_weights(ts), k) + (
        if spec_remainder(amount, ts) <= k {
            spec_remainder(amount, ts)
        } else {
            k
        }),
    decreases k,
{
    lemma_remainder_bounds(amount, ts);
    if k > 0 {
        lemma_sum_final_split(amount, ts, k - 1);
    }
}

/// CONSERVATION: the final shares of a well-formed table sum exactly to the
/// distributed amount, whatever the weights are.
pub proof fn lemma_distribute_conservation(amount: int, ts: Seq<DistributeTargetV>)
    requires
        0 <= amount,
        wf_targets(ts),
    ensures
        sum_final_shares(amount, ts) == amount,
{
    lemma_remainder_bounds(amount, ts);
    lemma_sum_final_split(amount, ts, ts.len() as int);
}

/// MONOTONIC WEIGHTING: a target with at least the weight of another
/// receives at least the other's base share.
pub proof fn lemma_base_share_monotone(amount: int, ts: Seq<DistributeTargetV>, i: int, j: int)
    requires
        0 <= amount,
        wf_targets(ts),
        0 <= i < ts.len(),
        0 <= j < ts.len(),
        ts[j].weight <= ts[i].weight,
    ensures
        base_share(amount, ts[j].weight, sum_weights(ts)) <= base_share(
            amount,
            ts[i].weight,
            sum_weights(ts),
        ),
{
    let total = sum_weights(ts);
    lemma_mul_inequality(ts[j].weight, ts[i].weight, amount);
    lemma_mul_is_commutative(ts[j].weight, amount);
    lemma_mul_is_commutative(ts[i].weight, amount);
    lemma_div_is_ordered(amount * ts[j].weight, amount * ts[i].weight, total);
}

/// MONOTONIC WEIGHTING, full shares: among two targets where the heavier one
/// stands no later in the table, the heavier one receives at least as much.
pub proof fn lemma_final_share_monotone(amount: int, ts: Seq<DistributeTargetV>, i: int, j: int)
    requires
        0 <= amount,
        wf_targets(ts),
        0 <= i <= j < ts.len(),
        ts[j].weight <= ts[i].weight,
    ensures
        final_share(amount, ts, j) <= final_share(amount, ts, i),
{
    lemma_base_share_monotone(amount, ts, i, j);
}

/// The amount an instruction moves.
pub open spec fn amount_of(i: InstructionV) -> int {
    match i {
        InstructionV::Transfer { amount, .. } => amount,
        InstructionV::TransferWithPayload { amount, .. } => amount,
        InstructionV::Swap { amount, .. } => amount,
    }
}

/// The total amount a batch moves.
pub open spec fn sum_instr_amounts(s: Seq<InstructionV>) -> int
    decreases s.len(),
{
    if s.len() == 0 {
        0
    } else {
        amount_of(s[0]) + sum_instr_amounts(s.skip(1))
    }
}

/// The sum of the final shares of the targets from index `i` on.
pub open spec fn sum_final_from(amount: int, ts: Seq<DistributeTargetV>, i: int) -> int
    decreases ts.len() - i,
{
    if i < 0 || i >= ts.len() {
        0
    } else {
        final_share(amount, ts, i) + sum_final_from(amount, ts, i + 1)
    }
}

/// The batch from index `i` on moves exactly the final shares of the targets
/// from `i` on: a target whose share is zero contributes no instruction and
/// nothing to the total.
proof fn lemma_batch_moves_final_shares(
    primary: AssetRefV,
    ts: Seq<DistributeTargetV>,
    amount: int,
    i: int,
)
    requires
        0 <= amount,
        wf_targets(ts),
        0 <= i,
    ensures
        sum_instr_amounts(distribute_instrs_from(primary, ts, amount, i)) == sum_final_from(
            amount,
            ts,
            i,
        ),
    decreases ts.len() - i,
{
    if i < ts.len() {
        lemma_batch_moves_final_shares(primary, ts, amount, i + 1);
        let rest = distribute_instrs_from(primary, ts, amount, i + 1);
        if final_share(amount, ts, i) > 0 {
            let e = instr_for(primary, ts[i], final_share(amount, ts, i));
            let whole = seq![e] + rest;
            assert(whole.skip(1) =~= rest);
            assert(amount_of(e) == final_share(amount, ts, i));
        } else {
            lemma_base_share_le_sum(amount, ts, i);
            lemma_remainder_bounds(amount, ts);
            assert(final_share(amount, ts, i) == 0);
        }
    }
}

/// A prefix sum and the matching suffix sum of the final shares together
/// make the whole.
proof fn lemma_final_prefix_suffix(amount: int, ts: Seq<DistributeTargetV>, k: int)
    requires
        0 <= k <= ts.len(),
    ensures
        sum_final_upto(amount, ts, k) + sum_final_from(amount, ts, k) == sum_final_shares(
            amount,
            ts,
        ),
    decreases ts.len() - k,
{
    if k < ts.len() {
        lemma_final_prefix_suffix(amount, ts, k + 1);
    }
}

/// CONSERVATION over the emitted batch: the amounts carried by the
/// instructions of a distribution sum exactly to the distributed amount.
pub proof fn lemma_batch_conservation(s: TreasuryStateV, amount: int)
    requires
        0 <= amount,
        wf_targets(s.targets),
    ensures
        sum_instr_amounts(distribute_instrs(s, amount)) == amount,
{
    lemma_batch_moves_final_shares(s.primary_asset, s.targets, amount, 0);
    lemma_final_prefix_suffix(amount, s.targets, 0);
    lemma_distribute_conservation(amount, s.targets);
}

/// The number of payload-bearing instructions of a batch.
pub open spec fn count_payload_instrs(s: Seq<InstructionV>) -> int
    decreases s.len(),
{
    if s.len() == 0 {
        0
    } else {
        (if bears_payload(s[0]) {
            1int
        } else {
            0int
        }) + count_payload_instrs(s.skip(1))
    }
}

/// The number of targets from index `i` on that have a callback configured
/// and a positive final share.
pub open spec fn count_callback_targets_from(
    amount: int,
    ts: Seq<DistributeTargetV>,
    i: int,
) -> int
    decreases ts.len() - i,
{
    if i < 0 || i >= ts.len() {
        0
    } else {
        (if ts[i].msg_hook is Some && final_share(amount, ts, i) > 0 {
            1int
        } else {
            0int
        }) + count_callback_targets_from(amount, ts, i + 1)
    }
}

/// The number of targets from index `i` on with a positive final share.
pub open spec fn count_positive_targets_from(
    amount: int,
    ts: Seq<DistributeTargetV>,
    i: int,
) -> int
    decreases ts.len() - i,
{
    if i < 0 || i >= ts.len() {
        0
    } else {
        (if final_share(amount, ts, i) > 0 {
            1int
        } else {
            0int
        }) + count_positive_targets_from(amount, ts, i + 1)
    }
}

/// A distribution batch from index `i` on holds one payload-bearing
/// instruction per callback-configured target with a positive share, and one
/// instruction per positive-share target.
proof fn lemma_callback_firing_from(
    primary: AssetRefV,
    ts: Seq<DistributeTargetV>,
    amount: int,
    i: int,
)
    requires
        0 <= i,
    ensures
        count_payload_instrs(distribute_instrs_from(primary, ts, amount, i))
            == count_callback_targets_from(amount, ts, i),
        distribute_instrs_from(primary, ts, amount, i).len() == count_positive_targets_from(
            amount,
            ts,
            i,
        ),
    decreases ts.len() - i,
{
    if i < ts.len() {
        lemma_callback_firing_from(primary, ts, amount, i + 1);
        let rest = distribute_instrs_from(primary, ts, amount, i + 1);
        if final_share(amount, ts, i) > 0 {
            let e = instr_for(primary, ts[i], final_share(amount, ts, i));
            let whole = seq![e] + rest;
            assert(whole.skip(1) =~= rest);
            assert(bears_payload(e) <==> ts[i].msg_hook is Some);
        }
    }
}

/// CALLBACK FIRING: a distribution batch holds exactly one payload-bearing
/// instruction per target that has a callback configured and a positive
/// share, and exactly one instruction per target with a positive share; a
/// target with share zero yields no instruction at all.
pub proof fn lemma_callback_firing(s: TreasuryStateV, amount: int)
    ensures
        count_payload_instrs(distribute_instrs(s, amount)) == count_callback_targets_from(
            amount,
            s.targets,
            0,
        ),
        distribute_instrs(s, amount).len() == count_positive_targets_from(amount, s.targets, 0),
{
    lemma_callback_firing_from(s.primary_asset, s.targets, amount, 0);
}

/// Computes the distribution batch for `amount` of the primary asset.
///
/// Fails with `Unauthorized` unless the caller is the admin; then with
/// `ExceedContractBalance` exactly when more is requested than the observed
/// balance; then with `InvalidConfiguration` when the target table has no
/// positive total weight. Otherwise it succeeds and returns, in table order,
/// one transfer per target with a positive final share, carrying the
/// target's callback payload when one is configured.
pub fn distribute(state: &TreasuryState, caller: &String, amount: u128, balance: u128) -> (r:
    Result<Vec<Instruction>, ContractError>)
    requires
        amount >= 1,
    ensures
        r is Ok <==> (caller@ == state@.admin && amount <= balance && wf_targets(state@.targets)),
        r is Ok ==> view_instrs(r->Ok_0@) == distribute_instrs(state@, amount as int),
        (caller@ != state@.admin) <==> r == Err::<Vec<Instruction>, ContractError>(
            ContractError::Unauthorized,
        ),
        (caller@ == state@.admin && amount > balance) <==> r == Err::<
            Vec<Instruction>,
            ContractError,
        >(ContractError::ExceedContractBalance),
        (caller@ == state@.admin && amount <= balance && !wf_targets(state@.targets)) <==> r
            == Err::<Vec<Instruction>, ContractError>(ContractError::InvalidConfiguration),
{
    let ghost vts = view_targets(state.targets@);
    proof {
        assert forall|k: int| 0 <= k < vts.len() implies 0 <= #[trigger] vts[k].weight
            <= u64::MAX by {
            assert(vts[k] == state.targets@[k]@);
        }
    }
    if let Err(e) = require_admin(state, caller) {
        return Err(e);
    }
    if let Err(e) = require_sufficient_balance(amount, balance) {
        return Err(e);
    }
    let total = total_weight(&state.targets);
    if total == 0 {
        return Err(ContractError::InvalidConfiguration);
    }
    let ghost am = amount as int;
    let n = state.targets.len();
    assert(n > 0) by {
        if vts.len() == 0 {
            assert(sum_weights(vts) == 0);
        }
    }

    // First pass: the base share of every target, and their running total.
    let mut shares: Vec<u128> = Vec::new();
    let mut allotted: u128 = 0;
    let mut i: usize = 0;
    while i < n
        invariant
            0 <= i <= n,
            n == state.targets@.len(),
            vts == view_targets(state.targets@),
            vts.len() == n,
            weights_in_range(vts),
            total == sum_weights(vts),
            total > 0,
            am == amount as int,
            shares@.len() == i,
            forall|k: int|
                0 <= k < i ==> shares@[k] == base_share(am, vts[k].weight, total as int),
            allotted == sum_base_upto(am, vts, total as int, i as int),
            allotted <= amount,
        decreases n - i,
    {
        proof {
            lemma_weight_le_total(vts, i as int);
            assert(vts[i as int] == state.targets@[i as int]@);
        }
        let w = state.targets[i].weight;
        let s = mul_ratio(amount, w as u128, total);
        shares.push(s);
        proof {
            lemma_sum_base_le_amount(am, vts, i as int + 1);
        }
        allotted = allotted + s;
        i = i + 1;
    }

    // The remainder floor division dropped; handed out a unit at a time.
    proof {
        lemma_remainder_bounds(am, vts);
    }
    let remainder: u128 = amount - allotted;

    // Second pass: one instruction per target with a positive final share.
    let mut out: Vec<Instruction> = Vec::new();
    let mut i: usize = 0;
    while i < n
        invariant
            0 <= i <= n,
            n == state.targets@.len(),
            vts == view_targets(state.targets@),
            vts.len() == n,
            weights_in_range(vts),
            total == sum_weights(vts),
            total > 0,
            am == amount as int,
            amount >= 1,
            shares@.len() == n,
            forall|k: int|
                0 <= k < n ==> shares@[k] == base_share(am, vts[k].weight, total as int),
            remainder == spec_remainder(am, vts),
            remainder < n,
            vts == state@.targets,
            view_instrs(out@) + distribute_instrs_from(state@.primary_asset, vts, am, i as int)
                == distribute_instrs(state@, am),
        decreases n - i,
    {
        proof {
            lemma_base_share_le_sum(am, vts, i as int);
            lemma_remainder_bounds(am, vts);
            assert(vts[i as int] == state.targets@[i as int]@);
        }
        let base = shares[i];
        let extra: u128 = if (i as u128) < remainder {
            1
        } else {
            0
        };
        let share = base + extra;
        assert(share as int == final_share(am, vts, i as int));
        let ghost prev = out@;
        if share > 0 {
            let t = &state.targets[i];
            let ins = match &t.msg_hook {
                Some(payload) => Instruction::TransferWithPayload {
                    asset: state.primary_asset.clone(),
                    recipient: t.addr.clone(),
                    amount: share,
                    payload: copy_bytes(payload),
                },
                None => Instruction::Transfer {
                    asset: state.primary_asset.clone(),
                    recipient: t.addr.clone(),
                    amount: share,
                },
            };
            assert(ins@ == instr_for(state@.primary_asset, vts[i as int], share as int));
            out.push(ins);
            proof {
                assert(view_instrs(out@) =~= view_instrs(prev) + seq![ins@]);
                assert((view_instrs(prev) + seq![ins@]) + distribute_instrs_from(
                    state@.primary_asset,
                    vts,
                    am,
                    i as int + 1,
                ) =~= view_instrs(prev) + (seq![ins@] + distribute_instrs_from(
                    state@.primary_asset,
                    vts,
                    am,
                    i as int + 1,
                )));
            }
        }
        i = i + 1;
    }
    proof {
        assert(distribute_instrs_from(state@.primary_asset, vts, am, n as int) =~= Seq::empty());
        assert(view_instrs(out@) + Seq::<InstructionV>::empty() =~= view_instrs(out@));
    }
    Ok(out)
}

/// Copies an opaque payload byte for byte.
fn copy_bytes(v: &Vec<u8>) -> (r: Vec<u8>)
    ensures
        r@ == v@,
{
    let mut r: Vec<u8> = Vec::new();
    let mut i: usize = 0;
    while i < v.len()
        invariant
            0 <= i <= v@.len(),
            r@ == v@.take(i as int),
        decreases v@.len() - i,
    {
        r.push(v[i]);
        proof {
            assert(r@ =~= v@.take(i as int + 1));
        }
        i = i + 1;
    }
    proof {
        assert(v@.take(v@.len() as int) =~= v@);
    }
    r
}

} // verus!
