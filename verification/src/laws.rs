use vstd::prelude::*;
use crate::state::{
    AgentAccount, Deposit, Withdraw, sum_deposits, count_active, lemma_contrib_le_sum,
};
use crate::arena::{
    Arena, has_position, position_index, has_vault, deposit_err, deposit_post,
    withdraw_err, withdraw_post,
};
use crate::math::{share_of, lemma_share_le_value};
use vstd::arithmetic::div_mod::lemma_div_multiples_vanish;

verus! {

/// In every well-formed state the ledger and the aggregates agree: an
/// agent's recorded total equals the sum of outstanding principal over its
/// positions, and its investor count equals the number of its positions
/// holding principal above zero.
pub proof fn lemma_aggregates_match_ledger(s: Arena, a: int)
    requires
        s.wf(),
        0 <= a < s.agents@.len(),
    ensures
        s.agents@[a].total_deposited as int == sum_deposits(s.positions@, a as u64),
        s.agents@[a].investor_count as int == count_active(s.positions@, a as u64),
{
}

/// An agent's aggregate value and total principal are never negative:
/// both are unsigned and every operation floors them at zero.
pub proof fn lemma_aggregates_nonnegative(agent: AgentAccount)
    ensures
        agent.current_value as int >= 0,
        agent.total_deposited as int >= 0,
{
}

/// A position holding principal implies its agent's pool is nonempty, so
/// the share computation's divisor is positive in every well-formed state:
/// the residual-drift guard (total principal zero while a position still
/// holds value) can never fire on a reachable state.
pub proof fn lemma_position_implies_pool_nonempty(s: Arena, k: int)
    requires
        s.wf(),
        0 <= k < s.positions@.len(),
        s.positions@[k].deposited > 0,
    ensures
        s.agents@[s.positions@[k].agent as int].total_deposited > 0,
{
    lemma_contrib_le_sum(s.positions@, k, s.positions@[k].agent);
}

/// No over-payment: for any request within the position's outstanding
/// principal, the proportional share never exceeds the agent's current
/// value, so a withdrawal can never drain more than the pool is worth.
pub proof fn lemma_share_no_overpayment(s: Arena, ctx: Withdraw, amount: u64)
    requires
        s.wf(),
        (ctx.agent as int) < s.agents@.len(),
        has_position(s.positions@, ctx.agent, ctx.investor),
        amount <= s.positions@[position_index(
            s.positions@,
            ctx.agent,
            ctx.investor,
        )].deposited,
        s.agents@[ctx.agent as int].total_deposited > 0,
    ensures
        share_of(
            amount,
            s.agents@[ctx.agent as int].current_value,
            s.agents@[ctx.agent as int].total_deposited,
        ) <= s.agents@[ctx.agent as int].current_value as int,
{
    let pj = position_index(s.positions@, ctx.agent, ctx.investor);
    assert(0 <= pj < s.positions@.len() && s.positions@[pj].agent == ctx.agent
        && s.positions@[pj].investor == ctx.investor);
    lemma_contrib_le_sum(s.positions@, pj, ctx.agent);
    lemma_share_le_value(
        amount,
        s.agents@[ctx.agent as int].current_value,
        s.agents@[ctx.agent as int].total_deposited,
    );
}

/// Withdrawing a position's entire outstanding principal zeroes the
/// position and decrements the agent's investor count by exactly one.
pub proof fn lemma_full_withdraw_clears_position(
    s0: Arena,
    s1: Arena,
    ctx: Withdraw,
    amount: u64,
    vault_balance: u64,
    min_reserve: u64,
)
    requires
        s0.wf(),
        withdraw_err(s0, ctx, amount, vault_balance, min_reserve) is None,
        withdraw_post(s0, s1, ctx, amount),
        amount == s0.positions@[position_index(
            s0.positions@,
            ctx.agent,
            ctx.investor,
        )].deposited,
    ensures
        s1.positions@[position_index(s0.positions@, ctx.agent, ctx.investor)].deposited == 0,
        s1.agents@[ctx.agent as int].investor_count as int == s0.agents@[ctx.agent
            as int].investor_count as int - 1,
{
    let pj = position_index(s0.positions@, ctx.agent, ctx.investor);
    assert(0 <= pj < s0.positions@.len() && s0.positions@[pj].agent == ctx.agent
        && s0.positions@[pj].investor == ctx.investor);
    lemma_contrib_le_sum(s0.positions@, pj, ctx.agent);
}

/// Round trip: a withdrawal immediately followed by a deposit of the same
/// amount by the same investor, with no intervening trade, restores the
/// prior total principal and position principal whenever the pool's current
/// value equals its total principal (the deposit is owed success, so it is
/// part of the conclusion). The agent must still accept deposits, so a
/// halted agent is excluded.
pub proof fn lemma_withdraw_deposit_round_trip(
    s0: Arena,
    s1: Arena,
    s2: Arena,
    ctx_w: Withdraw,
    ctx_d: Deposit,
    amount: u64,
    vault_balance: u64,
    min_reserve: u64,
    now: i64,
)
    requires
        s0.wf(),
        ctx_d.agent == ctx_w.agent,
        ctx_d.investor == ctx_w.investor,
        s0.agents@[ctx_w.agent as int].is_active,
        s0.agents@[ctx_w.agent as int].current_value == s0.agents@[ctx_w.agent
            as int].total_deposited,
        withdraw_err(s0, ctx_w, amount, vault_balance, min_reserve) is None,
        withdraw_post(s0, s1, ctx_w, amount),
        deposit_err(s1, ctx_d, amount) is None ==> deposit_post(s1, s2, ctx_d, amount, now),
    ensures
        deposit_err(s1, ctx_d, amount) is None,
        s2.agents@[ctx_w.agent as int].total_deposited == s0.agents@[ctx_w.agent
            as int].total_deposited,
        s2.positions@[position_index(s0.positions@, ctx_w.agent, ctx_w.investor)].deposited
            == s0.positions@[position_index(
            s0.positions@,
            ctx_w.agent,
            ctx_w.investor,
        )].deposited,
{
    let av = ctx_w.agent;
    let ai = ctx_w.agent as int;
    let agent0 = s0.agents@[ai];
    let pj = position_index(s0.positions@, av, ctx_w.investor);
    assert(0 <= pj < s0.positions@.len() && s0.positions@[pj].agent == av
        && s0.positions@[pj].investor == ctx_w.investor);
    lemma_contrib_le_sum(s0.positions@, pj, av);

    // When value equals principal the share is exactly the amount.
    let share = share_of(amount, agent0.current_value, agent0.total_deposited);
    let td = agent0.total_deposited as int;
    lemma_div_multiples_vanish(amount as int, td);
    assert(amount as int * agent0.current_value as int == td * amount);
    assert(share == amount as int);

    // The position record survives the withdrawal at the same index.
    let pos1 = s1.positions@[pj];
    assert(pos1.agent == av && pos1.investor == ctx_w.investor);
    assert(has_position(s1.positions@, av, ctx_w.investor));
    let pj1 = position_index(s1.positions@, av, ctx_w.investor);
    assert(0 <= pj1 < s1.positions@.len() && s1.positions@[pj1].agent == av
        && s1.positions@[pj1].investor == ctx_w.investor);
    assert(s0.positions@[pj1].agent == av && s0.positions@[pj1].investor == ctx_w.investor);
    assert(pj1 == pj);

    // The vault binding is untouched by the withdrawal.
    assert(has_vault(s1.vaults@, av));

    // Every checked addition of the deposit lands back at a value the
    // state held before the withdrawal, so none can overflow.
    assert(deposit_err(s1, ctx_d, amount) is None);
}

} // verus!
