use vstd::prelude::*;

verus! {

/// A registered trading pool: its single owning identity, its immutable
/// configuration, and its aggregate accounting state. Identities are the
/// plain values the host's credential layer resolves callers to.
pub struct AgentAccount {
    /// Identity permitted to record trades and halt the agent. Immutable.
    pub authority: u64,
    /// Display name, at most 32 characters. Immutable.
    pub name: String,
    /// Strategy description, at most 64 characters. Immutable.
    pub strategy: String,
    /// Skill tags, at most 8. Immutable.
    pub skills: Vec<String>,
    /// Risk appetite on a 0..=10 scale. Immutable.
    pub risk_tolerance: u8,
    /// Maximum tolerated drawdown, in basis points (<= 10000). Immutable.
    pub max_drawdown_bps: u16,
    /// Maximum single-trade size, in basis points (<= 5000). Immutable.
    pub max_trade_size_bps: u16,
    /// Creator's fee, in basis points (<= 3000). Immutable.
    pub creator_fee_bps: u16,
    /// Sum of outstanding principal over all of this agent's positions.
    pub total_deposited: u64,
    /// Mark-to-market aggregate value; saturates at zero under losses.
    pub current_value: u64,
    /// Cumulative signed profit and loss, saturating at the i64 bounds.
    pub total_pnl: i64,
    /// Number of trades recorded.
    pub trade_count: u64,
    /// Number of positions with outstanding principal greater than zero.
    pub investor_count: u32,
    /// One-way flag: true at registration, false forever once halted.
    pub is_active: bool,
    /// Host-supplied timestamp of registration.
    pub created_at: i64,
}

/// One investor's outstanding principal claim against one agent.
#[derive(Clone, Copy, Debug, PartialEq, Eq, Structural)]
pub struct InvestorPosition {
    /// The investing identity.
    pub investor: u64,
    /// The agent the claim is against.
    pub agent: u64,
    /// Outstanding principal for this investor.
    pub deposited: u64,
    /// Host-supplied timestamp of the most recent deposit.
    pub last_deposit_at: i64,
}

/// The escrow record bound to exactly one agent for its lifetime. The
/// transferable value itself lives with the host, which moves it and reads
/// its balance; this record only fixes the binding, so that each agent has
/// at most one escrow and deposits have somewhere to land.
#[derive(Clone, Copy, Debug, PartialEq, Eq, Structural)]
pub struct VaultAccount {
    /// The agent this escrow belongs to.
    pub agent: u64,
}

/// The notification produced by each recorded trade, consumed only by
/// external observers; it has no further ledger effect.
#[derive(Clone, Debug, PartialEq, Eq)]
pub struct TradeRecorded {
    /// The agent the trade was posted against.
    pub agent: u64,
    /// Signed profit or loss of the trade.
    pub pnl: i64,
    /// Which skill the trade exercised.
    pub skill_used: String,
    /// Host-side reference to the underlying transaction.
    pub tx_signature: String,
    /// Ordinal of this trade (the agent's trade count after recording).
    pub trade_number: u64,
    /// Host-supplied timestamp of the recording.
    pub timestamp: i64,
}

/// Accounts involved in a registration: the creator becomes the authority.
#[derive(Clone, Copy, Debug, PartialEq, Eq, Structural)]
pub struct RegisterAgent {
    /// Identity registering the agent; recorded as its authority.
    pub creator: u64,
}

/// Accounts involved in binding a fresh vault to an agent.
#[derive(Clone, Copy, Debug, PartialEq, Eq, Structural)]
pub struct InitializeVault {
    /// The agent to bind the vault to.
    pub agent: u64,
    /// The caller; must equal the agent's authority.
    pub authority: u64,
}

/// Accounts involved in a deposit.
#[derive(Clone, Copy, Debug, PartialEq, Eq, Structural)]
pub struct Deposit {
    /// The agent deposited into.
    pub agent: u64,
    /// The depositing identity.
    pub investor: u64,
}

/// Accounts involved in a withdrawal.
#[derive(Clone, Copy, Debug, PartialEq, Eq, Structural)]
pub struct Withdraw {
    /// The agent withdrawn from.
    pub agent: u64,
    /// The withdrawing identity.
    pub investor: u64,
}

/// Accounts involved in recording a trade.
#[derive(Clone, Copy, Debug, PartialEq, Eq, Structural)]
pub struct RecordTrade {
    /// The agent the trade is posted against.
    pub agent: u64,
    /// The caller; must equal the agent's authority.
    pub authority: u64,
}

/// Accounts involved in halting an agent.
#[derive(Clone, Copy, Debug, PartialEq, Eq, Structural)]
pub struct HaltAgent {
    /// The agent to halt.
    pub agent: u64,
    /// The caller; must equal the agent's authority.
    pub authority: u64,
}

/// What one position contributes to an agent's total outstanding principal.
pub open spec fn position_contrib(p: InvestorPosition, agent: u64) -> int {
    if p.agent == agent {
        p.deposited as int
    } else {
        0
    }
}

/// Sum of outstanding principal over the positions belonging to one agent.
pub open spec fn sum_deposits(ps: Seq<InvestorPosition>, agent: u64) -> int
    decreases ps.len(),
{
    if ps.len() == 0 {
        0
    } else {
        sum_deposits(ps.drop_last(), agent) + position_contrib(ps.last(), agent)
    }
}

/// Whether one position counts toward an agent's investor count.
pub open spec fn active_contrib(p: InvestorPosition, agent: u64) -> int {
    if p.agent == agent && p.deposited > 0 {
        1
    } else {
        0
    }
}

/// Number of positions of one agent with outstanding principal above zero.
pub open spec fn count_active(ps: Seq<InvestorPosition>, agent: u64) -> int
    decreases ps.len(),
{
    if ps.len() == 0 {
        0
    } else {
        count_active(ps.drop_last(), agent) + active_contrib(ps.last(), agent)
    }
}

/// Appending a position grows the sum by exactly its contribution.
pub proof fn lemma_sum_push(ps: Seq<InvestorPosition>, p: InvestorPosition, agent: u64)
    ensures
        sum_deposits(ps.push(p), agent) == sum_deposits(ps, agent) + position_contrib(p, agent),
        count_active(ps.push(p), agent) == count_active(ps, agent) + active_contrib(p, agent),
{
    assert(ps.push(p).drop_last() =~= ps);
    assert(ps.push(p).last() == p);
}

/// Replacing the position at one index changes the sum by exactly the
/// difference of the two contributions.
pub proof fn lemma_sum_update(ps: Seq<InvestorPosition>, j: int, p: InvestorPosition, agent: u64)
    requires
        0 <= j < ps.len(),
    ensures
        sum_deposits(ps.update(j, p), agent) == sum_deposits(ps, agent)
            - position_contrib(ps[j], agent) + position_contrib(p, agent),
        count_active(ps.update(j, p), agent) == count_active(ps, agent)
            - active_contrib(ps[j], agent) + active_contrib(p, agent),
    decreases ps.len(),
{
    let ps2 = ps.update(j, p);
    if j == ps.len() - 1 {
        assert(ps2.drop_last() =~= ps.drop_last());
        assert(ps2.last() == p);
    } else {
        assert(ps2.drop_last() =~= ps.drop_last().update(j, p));
        assert(ps2.last() == ps.last());
        lemma_sum_update(ps.drop_last(), j, p, agent);
    }
}

/// Sums and counts over positions are never negative.
pub proof fn lemma_sum_nonneg(ps: Seq<InvestorPosition>, agent: u64)
    ensures
        sum_deposits(ps, agent) >= 0,
        count_active(ps, agent) >= 0,
    decreases ps.len(),
{
    if ps.len() > 0 {
        lemma_sum_nonneg(ps.drop_last(), agent);
    }
}

/// One position's principal never exceeds its agent's total, and an agent
/// with a nonzero position has at least one active investor.
pub proof fn lemma_contrib_le_sum(ps: Seq<InvestorPosition>, j: int, agent: u64)
    requires
        0 <= j < ps.len(),
        ps[j].agent == agent,
    ensures
        ps[j].deposited as int <= sum_deposits(ps, agent),
        ps[j].deposited > 0 ==> count_active(ps, agent) >= 1,
    decreases ps.len(),
{
    lemma_sum_nonneg(ps.drop_last(), agent);
    if j == ps.len() - 1 {
        assert(ps.last() == ps[j]);
    } else {
        assert(ps.drop_last()[j] == ps[j]);
        lemma_contrib_le_sum(ps.drop_last(), j, agent);
    }
}

/// An agent that no position names has zero summed principal and no
/// active investors.
pub proof fn lemma_sum_absent(ps: Seq<InvestorPosition>, agent: u64)
    requires
        forall|k: int| 0 <= k < ps.len() ==> (#[trigger] ps[k]).agent != agent,
    ensures
        sum_deposits(ps, agent) == 0,
        count_active(ps, agent) == 0,
    decreases ps.len(),
{
    if ps.len() > 0 {
        assert(forall|k: int|
            0 <= k < ps.drop_last().len() ==> (#[trigger] ps.drop_last()[k]).agent != agent);
        lemma_sum_absent(ps.drop_last(), agent);
    }
}

} // verus!
