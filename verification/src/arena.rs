use vstd::prelude::*;
use crate::errors::ArenaError;
use crate::state::{
    AgentAccount, InvestorPosition, VaultAccount, TradeRecorded,
    RegisterAgent, InitializeVault, Deposit, Withdraw, RecordTrade, HaltAgent,
    sum_deposits, count_active,
    lemma_sum_push, lemma_sum_update, lemma_contrib_le_sum, lemma_sum_absent,
};
use crate::math::{share_of, value_after_pnl, pnl_after, compute_share, apply_pnl, accumulate_pnl};
use crate::validate::{registration_error, validate_registration};

verus! {

/// Whether some position records principal of `investor` against `agent`.
pub open spec fn has_position(ps: Seq<InvestorPosition>, agent: u64, investor: u64) -> bool {
    exists|k: int|
        0 <= k < ps.len() && (#[trigger] ps[k]).agent == agent && ps[k].investor == investor
}

/// The index of the position of `investor` against `agent`; meaningful only
/// when `has_position` holds, and unique when positions are keyed uniquely.
pub open spec fn position_index(ps: Seq<InvestorPosition>, agent: u64, investor: u64) -> int {
    choose|k: int|
        0 <= k < ps.len() && (#[trigger] ps[k]).agent == agent && ps[k].investor == investor
}

/// Whether a vault has been bound to `agent`.
pub open spec fn has_vault(vs: Seq<VaultAccount>, agent: u64) -> bool {
    exists|v: int| 0 <= v < vs.len() && (#[trigger] vs[v]).agent == agent
}

/// The index of the vault bound to `agent`; meaningful only when `has_vault`
/// holds, and unique when each agent has at most one vault.
pub open spec fn vault_index(vs: Seq<VaultAccount>, agent: u64) -> int {
    choose|v: int| 0 <= v < vs.len() && (#[trigger] vs[v]).agent == agent
}

/// Whether `creator` has already registered an agent called `name`.
pub open spec fn duplicate_exists(agents: Seq<AgentAccount>, creator: u64, name: Seq<char>) -> bool {
    exists|i: int|
        0 <= i < agents.len() && (#[trigger] agents[i]).authority == creator
            && agents[i].name@ == name
}

/// An agent's immutable configuration satisfies every registration bound.
pub open spec fn valid_config(agent: AgentAccount) -> bool {
    registration_error(
        agent.name@,
        agent.strategy@,
        agent.skills@.len(),
        agent.risk_tolerance,
        agent.max_drawdown_bps,
        agent.max_trade_size_bps,
        agent.creator_fee_bps,
    ) is None
}

/// The error a deposit fails with, or `None` when it succeeds: a zero
/// amount, then a missing agent, then a halted agent, then a missing vault,
/// then any ledger addition that would exceed its integer width.
pub open spec fn deposit_err(pre: Arena, ctx: Deposit, amount: u64) -> Option<ArenaError> {
    let a = ctx.agent as int;
    if amount == 0 {
        Some(ArenaError::ZeroAmount)
    } else if !(a < pre.agents@.len()) {
        Some(ArenaError::NotFound)
    } else if !pre.agents@[a].is_active {
        Some(ArenaError::AgentInactive)
    } else if !has_vault(pre.vaults@, ctx.agent) {
        Some(ArenaError::NotFound)
    } else {
        let agent = pre.agents@[a];
        let pos_amt = if has_position(pre.positions@, ctx.agent, ctx.investor) {
            pre.positions@[position_index(pre.positions@, ctx.agent, ctx.investor)].deposited as int
        } else {
            0
        };
        if (agent.total_deposited as int + amount as int) > (u64::MAX as int)
            || (agent.current_value as int + amount as int) > (u64::MAX as int)
            || (pos_amt + amount as int) > (u64::MAX as int)
            || (pos_amt == 0 && (agent.investor_count as int + 1) > (u32::MAX as int)) {
            Some(ArenaError::MathOverflow)
        } else {
            None
        }
    }
}

/// How a successful deposit transforms the state: the investor's position
/// grows by the amount (created fresh on a first deposit), the agent's
/// total principal and current value grow by the amount, and the investor
/// count grows by one exactly when the position had no outstanding
/// principal. The amount itself is moved into the escrow by the host.
pub open spec fn deposit_post(pre: Arena, post: Arena, ctx: Deposit, amount: u64, now: i64) -> bool {
    let a = ctx.agent as int;
    let agent = pre.agents@[a];
    let existing = has_position(pre.positions@, ctx.agent, ctx.investor);
    let pj = position_index(pre.positions@, ctx.agent, ctx.investor);
    let pos_amt = if existing {
        pre.positions@[pj].deposited as int
    } else {
        0
    };
    &&& post.positions@ == if existing {
        pre.positions@.update(
            pj,
            (InvestorPosition {
                deposited: (pos_amt + amount) as u64,
                last_deposit_at: now,
                ..pre.positions@[pj]
            }),
        )
    } else {
        pre.positions@.push(
            (InvestorPosition {
                investor: ctx.investor,
                agent: ctx.agent,
                deposited: amount,
                last_deposit_at: now,
            }),
        )
    }
    &&& post.agents@ == pre.agents@.update(
        a,
        (AgentAccount {
            total_deposited: (agent.total_deposited + amount) as u64,
            current_value: (agent.current_value + amount) as u64,
            investor_count: if pos_amt == 0 {
                (agent.investor_count + 1) as u32
            } else {
                agent.investor_count
            },
            ..agent
        }),
    )
    &&& post.vaults == pre.vaults
}

/// The error a withdrawal fails with, or `None` when it succeeds: a zero
/// amount, then a missing agent, position or vault, then a request beyond
/// the position's principal, then an empty pool (guarding the division),
/// then a payout the escrow cannot cover above its reserve floor.
/// `vault_balance` is the escrow's transferable value and `min_reserve` the
/// persistence floor, both read from the host at the time of the call.
pub open spec fn withdraw_err(
    pre: Arena,
    ctx: Withdraw,
    amount: u64,
    vault_balance: u64,
    min_reserve: u64,
) -> Option<ArenaError> {
    let a = ctx.agent as int;
    if amount == 0 {
        Some(ArenaError::ZeroAmount)
    } else if !(a < pre.agents@.len()) {
        Some(ArenaError::NotFound)
    } else if !has_position(pre.positions@, ctx.agent, ctx.investor) {
        Some(ArenaError::NotFound)
    } else if !has_vault(pre.vaults@, ctx.agent) {
        Some(ArenaError::NotFound)
    } else {
        let agent = pre.agents@[a];
        let pos = pre.positions@[position_index(pre.positions@, ctx.agent, ctx.investor)];
        if pos.deposited < amount {
            Some(ArenaError::InsufficientFunds)
        } else if agent.total_deposited == 0 {
            Some(ArenaError::InsufficientFunds)
        } else {
            let share = share_of(amount, agent.current_value, agent.total_deposited);
            if (vault_balance as int) < share + (min_reserve as int) {
                Some(ArenaError::InsufficientFunds)
            } else {
                None
            }
        }
    }
}

/// How a successful withdrawal transforms the state: the position and the
/// agent's total principal shrink by the requested amount, the proportional
/// share leaves the agent's current value (saturating at zero), and the
/// investor count drops by one exactly when the position's principal
/// returns to zero. The share itself is paid out of the escrow by the host.
pub open spec fn withdraw_post(pre: Arena, post: Arena, ctx: Withdraw, amount: u64) -> bool {
    let a = ctx.agent as int;
    let agent = pre.agents@[a];
    let pj = position_index(pre.positions@, ctx.agent, ctx.investor);
    let pos = pre.positions@[pj];
    let share = share_of(amount, agent.current_value, agent.total_deposited);
    let new_dep = (pos.deposited - amount) as u64;
    &&& post.positions@ == pre.positions@.update(
        pj,
        (InvestorPosition { deposited: new_dep, ..pos }),
    )
    &&& post.agents@ == pre.agents@.update(
        a,
        (AgentAccount {
            total_deposited: (agent.total_deposited - amount) as u64,
            current_value: if share <= agent.current_value as int {
                (agent.current_value as int - share) as u64
            } else {
                0
            },
            investor_count: if new_dep == 0 {
                if agent.investor_count > 0 {
                    (agent.investor_count - 1) as u32
                } else {
                    0
                }
            } else {
                agent.investor_count
            },
            ..agent
        }),
    )
    &&& post.vaults == pre.vaults
}

/// The whole pool system: every registered agent, every outstanding
/// position, and every escrow binding. Agents are addressed by their index;
/// positions by (agent, investor); vaults by agent — the deterministic
/// addressing the host relies on.
pub struct Arena {
    /// Every registered agent, addressed by index.
    pub agents: Vec<AgentAccount>,
    /// Every position ever created, keyed by (agent, investor); a position
    /// whose principal has returned to zero stays, logically cleared.
    pub positions: Vec<InvestorPosition>,
    /// At most one escrow vault per agent.
    pub vaults: Vec<VaultAccount>,
}

impl Arena {
    /// Every position points at a registered agent.
    pub open spec fn positions_in_range(self) -> bool {
        forall|k: int|
            0 <= k < self.positions@.len()
                ==> ((#[trigger] self.positions@[k]).agent as int) < self.agents@.len()
    }

    /// No two positions share the (agent, investor) key.
    pub open spec fn positions_unique(self) -> bool {
        forall|k1: int, k2: int|
            0 <= k1 < k2 < self.positions@.len()
                ==> !((#[trigger] self.positions@[k1]).agent == (#[trigger] self.positions@[k2]).agent
                    && self.positions@[k1].investor == self.positions@[k2].investor)
    }

    /// Each agent's aggregates agree with its positions: the recorded total
    /// equals the sum of outstanding principal, and the investor count
    /// equals the number of positions with principal above zero.
    pub open spec fn totals_match(self) -> bool {
        forall|a: int|
            0 <= a < self.agents@.len()
                ==> (#[trigger] self.agents@[a]).total_deposited as int
                        == sum_deposits(self.positions@, a as u64)
                    && self.agents@[a].investor_count as int
                        == count_active(self.positions@, a as u64)
    }

    /// Every vault belongs to a registered agent, and no agent has two.
    pub open spec fn vaults_wf(self) -> bool {
        &&& forall|v: int|
            0 <= v < self.vaults@.len()
                ==> ((#[trigger] self.vaults@[v]).agent as int) < self.agents@.len()
        &&& forall|v1: int, v2: int|
            0 <= v1 < v2 < self.vaults@.len()
                ==> (#[trigger] self.vaults@[v1]).agent != (#[trigger] self.vaults@[v2]).agent
    }

    /// Every registered agent carries a configuration that passed validation.
    pub open spec fn configs_valid(self) -> bool {
        forall|a: int|
            0 <= a < self.agents@.len() ==> valid_config(#[trigger] self.agents@[a])
    }

    /// Well-formedness: holds of the empty system and is preserved by every
    /// operation, so it holds of every reachable state.
    pub open spec fn wf(self) -> bool {
        &&& self.positions_in_range()
        &&& self.positions_unique()
        &&& self.totals_match()
        &&& self.vaults_wf()
        &&& self.configs_valid()
    }

    /// An empty pool system.
    pub fn new() -> (arena: Arena)
        ensures
            arena.wf(),
            arena.agents@.len() == 0,
            arena.positions@.len() == 0,
            arena.vaults@.len() == 0,
    {
        Arena { agents: Vec::new(), positions: Vec::new(), vaults: Vec::new() }
    }

    /// Finds the position of `investor` against `agent`, if one exists.
    fn find_position(&self, agent: u64, investor: u64) -> (r: Option<usize>)
        requires
            self.positions_unique(),
        ensures
            match r {
                Some(j) => has_position(self.positions@, agent, investor)
                    && j < self.positions@.len()
                    && j as int == position_index(self.positions@, agent, investor)
                    && self.positions@[j as int].agent == agent
                    && self.positions@[j as int].investor == investor,
                None => !has_position(self.positions@, agent, investor),
            },
    {
        let n = self.positions.len();
        let mut i: usize = 0;
        while i < n
            invariant
                n == self.positions@.len(),
                i <= n,
                self.positions_unique(),
                forall|k: int|
                    0 <= k < i ==> !((#[trigger] self.positions@[k]).agent == agent
                        && self.positions@[k].investor == investor),
            decreases n - i,
        {
            if self.positions[i].agent == agent && self.positions[i].investor == investor {
                proof {
                    assert(has_position(self.positions@, agent, investor));
                    let k = position_index(self.positions@, agent, investor);
                    assert(self.positions@[k].agent == agent
                        && self.positions@[k].investor == investor);
                    assert(k == i as int);
                }
                return Some(i);
            }
            i += 1;
        }
        None
    }

    /// Finds the vault bound to `agent`, if one exists.
    fn find_vault(&self, agent: u64) -> (r: Option<usize>)
        requires
            self.vaults_wf(),
        ensures
            match r {
                Some(v) => has_vault(self.vaults@, agent)
                    && v < self.vaults@.len()
                    && v as int == vault_index(self.vaults@, agent)
                    && self.vaults@[v as int].agent == agent,
                None => !has_vault(self.vaults@, agent),
            },
    {
        let n = self.vaults.len();
        let mut i: usize = 0;
        while i < n
            invariant
                n == self.vaults@.len(),
                i <= n,
                self.vaults_wf(),
                forall|k: int| 0 <= k < i ==> (#[trigger] self.vaults@[k]).agent != agent,
            decreases n - i,
        {
            if self.vaults[i].agent == agent {
                proof {
                    assert(has_vault(self.vaults@, agent));
                    let k = vault_index(self.vaults@, agent);
                    assert(self.vaults@[k].agent == agent);
                    assert(k == i as int);
                }
                return Some(i);
            }
            i += 1;
        }
        None
    }

    /// Registers a new agent: validates every configuration bound in order,
    /// refuses a duplicate (creator, name), and appends an agent with zeroed
    /// aggregates, active, owned by the creator. Returns the new agent's id.
    pub fn register_agent(
        &mut self,
        ctx: RegisterAgent,
        name: String,
        strategy: String,
        skills: Vec<String>,
        risk_tolerance: u8,
        max_drawdown_bps: u16,
        max_trade_size_bps: u16,
        creator_fee_bps: u16,
        now: i64,
    ) -> (r: Result<u64, ArenaError>)
        requires
            old(self).wf(),
        ensures
            final(self).wf(),
            final(self).positions == old(self).positions,
            final(self).vaults == old(self).vaults,
            ({
                let verdict = registration_error(
                    name@,
                    strategy@,
                    skills@.len(),
                    risk_tolerance,
                    max_drawdown_bps,
                    max_trade_size_bps,
                    creator_fee_bps,
                );
                match r {
                    Ok(id) => verdict is None
                        && !duplicate_exists(old(self).agents@, ctx.creator, name@)
                        && id as int == old(self).agents@.len()
                        && final(self).agents@ == old(self).agents@.push(
                            (AgentAccount {
                                authority: ctx.creator,
                                name,
                                strategy,
                                skills,
                                risk_tolerance,
                                max_drawdown_bps,
                                max_trade_size_bps,
                                creator_fee_bps,
                                total_deposited: 0,
                                current_value: 0,
                                total_pnl: 0,
                                trade_count: 0,
                                investor_count: 0,
                                is_active: true,
                                created_at: now,
                            }),
                        ),
                    Err(e) => final(self).agents == old(self).agents && (match verdict {
                        Some(v) => e == v,
                        None => duplicate_exists(old(self).agents@, ctx.creator, name@)
                            && e == ArenaError::AlreadyExists,
                    }),
                }
            }),
    {
        match validate_registration(
            &name,
            &strategy,
            &skills,
            risk_tolerance,
            max_drawdown_bps,
            max_trade_size_bps,
            creator_fee_bps,
        ) {
            Ok(()) => {}
            Err(e) => {
                return Err(e);
            }
        }
        let n = self.agents.len();
        let mut i: usize = 0;
        while i < n
            invariant
                *self == *old(self),
                old(self).wf(),
                registration_error(
                    name@,
                    strategy@,
                    skills@.len(),
                    risk_tolerance,
                    max_drawdown_bps,
                    max_trade_size_bps,
                    creator_fee_bps,
                ) is None,
                n == self.agents@.len(),
                i <= n,
                forall|k: int|
                    0 <= k < i ==> !((#[trigger] self.agents@[k]).authority == ctx.creator
                        && self.agents@[k].name@ == name@),
            decreases n - i,
        {
            if self.agents[i].authority == ctx.creator && self.agents[i].name == name {
                proof {
                    assert((#[trigger] self.agents@[i as int]).authority == ctx.creator
                        && self.agents@[i as int].name@ == name@);
                    assert(duplicate_exists(self.agents@, ctx.creator, name@));
                }
                return Err(ArenaError::AlreadyExists);
            }
            i += 1;
        }
        let id = self.agents.len() as u64;
        let agent = AgentAccount {
            authority: ctx.creator,
            name,
            strategy,
            skills,
            risk_tolerance,
            max_drawdown_bps,
            max_trade_size_bps,
            creator_fee_bps,
            total_deposited: 0,
            current_value: 0,
            total_pnl: 0,
            trade_count: 0,
            investor_count: 0,
            is_active: true,
            created_at: now,
        };
        self.agents.push(agent);
        proof {
            let pre = *old(self);
            let ps = self.positions@;
            assert forall|a: int| 0 <= a < self.agents@.len() implies
                (#[trigger] self.agents@[a]).total_deposited as int == sum_deposits(ps, a as u64)
                    && self.agents@[a].investor_count as int == count_active(ps, a as u64) by {
                if a == pre.agents@.len() {
                    assert(forall|k: int|
                        0 <= k < ps.len() ==> ((#[trigger] ps[k]).agent as int) < a);
                    assert(forall|k: int| 0 <= k < ps.len() ==> (#[trigger] ps[k]).agent != a as u64);
                    lemma_sum_absent(ps, a as u64);
                } else {
                    assert(self.agents@[a] == pre.agents@[a]);
                }
            }
        }
        Ok(id)
    }

    /// Binds a fresh escrow vault to an agent, once, at the authority's
    /// request; the host creates and funds the escrow itself. Returns the
    /// vault's id.
    pub fn initialize_vault(&mut self, ctx: InitializeVault) -> (r: Result<u64, ArenaError>)
        requires
            old(self).wf(),
        ensures
            final(self).wf(),
            final(self).agents == old(self).agents,
            final(self).positions == old(self).positions,
            match r {
                Ok(id) => (ctx.agent as int) < old(self).agents@.len()
                    && ctx.authority == old(self).agents@[ctx.agent as int].authority
                    && !has_vault(old(self).vaults@, ctx.agent)
                    && id as int == old(self).vaults@.len()
                    && final(self).vaults@ == old(self).vaults@.push(
                        (VaultAccount { agent: ctx.agent }),
                    ),
                Err(e) => final(self).vaults == old(self).vaults && if !((ctx.agent as int)
                    < old(self).agents@.len()) {
                    e == ArenaError::NotFound
                } else if ctx.authority != old(self).agents@[ctx.agent as int].authority {
                    e == ArenaError::Unauthorized
                } else {
                    has_vault(old(self).vaults@, ctx.agent) && e == ArenaError::AlreadyExists
                },
            },
    {
        if ctx.agent >= self.agents.len() as u64 {
            return Err(ArenaError::NotFound);
        }
        let a = ctx.agent as usize;
        if ctx.authority != self.agents[a].authority {
            return Err(ArenaError::Unauthorized);
        }
        if let Some(_v) = self.find_vault(ctx.agent) {
            return Err(ArenaError::AlreadyExists);
        }
        let id = self.vaults.len() as u64;
        let vault = VaultAccount { agent: ctx.agent };
        self.vaults.push(vault);
        Ok(id)
    }

    /// Permanently halts an agent at its authority's request: no further
    /// deposits are accepted; withdrawals remain permitted.
    pub fn halt_agent(&mut self, ctx: HaltAgent) -> (r: Result<(), ArenaError>)
        requires
            old(self).wf(),
        ensures
            final(self).wf(),
            final(self).positions == old(self).positions,
            final(self).vaults == old(self).vaults,
            match r {
                Ok(()) => (ctx.agent as int) < old(self).agents@.len()
                    && ctx.authority == old(self).agents@[ctx.agent as int].authority
                    && final(self).agents@ == old(self).agents@.update(
                        ctx.agent as int,
                        (AgentAccount { is_active: false, ..old(self).agents@[ctx.agent as int] }),
                    ),
                Err(e) => final(self).agents == old(self).agents && if !((ctx.agent as int)
                    < old(self).agents@.len()) {
                    e == ArenaError::NotFound
                } else {
                    ctx.authority != old(self).agents@[ctx.agent as int].authority
                        && e == ArenaError::Unauthorized
                },
            },
    {
        if ctx.agent >= self.agents.len() as u64 {
            return Err(ArenaError::NotFound);
        }
        let a = ctx.agent as usize;
        if ctx.authority != self.agents[a].authority {
            return Err(ArenaError::Unauthorized);
        }
        self.agents[a].is_active = false;
        proof {
            let pre = *old(self);
            assert forall|a2: int| 0 <= a2 < self.agents@.len() implies
                (#[trigger] self.agents@[a2]).total_deposited as int
                    == sum_deposits(self.positions@, a2 as u64)
                    && self.agents@[a2].investor_count as int
                        == count_active(self.positions@, a2 as u64) by {
                assert(pre.agents@[a2].total_deposited as int
                    == sum_deposits(pre.positions@, a2 as u64));
            }
        }
        Ok(())
    }

    /// Records one trade outcome at the authority's request: counts the
    /// trade, folds the signed PnL into the cumulative total and the
    /// aggregate value (both saturating), and returns the notification the
    /// host delivers to observers. No position is touched: each investor's
    /// claim is revalued lazily, at withdrawal.
    pub fn record_trade(
        &mut self,
        ctx: RecordTrade,
        pnl: i64,
        skill_used: String,
        tx_signature: String,
        now: i64,
    ) -> (r: Result<TradeRecorded, ArenaError>)
        requires
            old(self).wf(),
        ensures
            final(self).wf(),
            final(self).positions == old(self).positions,
            final(self).vaults == old(self).vaults,
            match r {
                Ok(ev) => (ctx.agent as int) < old(self).agents@.len()
                    && ctx.authority == old(self).agents@[ctx.agent as int].authority
                    && old(self).agents@[ctx.agent as int].trade_count < u64::MAX
                    && final(self).agents@ == old(self).agents@.update(
                        ctx.agent as int,
                        (AgentAccount {
                            trade_count: (old(self).agents@[ctx.agent as int].trade_count
                                + 1) as u64,
                            total_pnl: pnl_after(
                                old(self).agents@[ctx.agent as int].total_pnl,
                                pnl,
                            ),
                            current_value: value_after_pnl(
                                old(self).agents@[ctx.agent as int].current_value,
                                pnl,
                            ),
                            ..old(self).agents@[ctx.agent as int]
                        }),
                    )
                    && ev.agent == ctx.agent
                    && ev.pnl == pnl
                    && ev.skill_used == skill_used
                    && ev.tx_signature == tx_signature
                    && ev.trade_number as int == old(self).agents@[ctx.agent as int].trade_count
                        + 1
                    && ev.timestamp == now,
                Err(e) => final(self).agents == old(self).agents && if !((ctx.agent as int)
                    < old(self).agents@.len()) {
                    e == ArenaError::NotFound
                } else if ctx.authority != old(self).agents@[ctx.agent as int].authority {
                    e == ArenaError::Unauthorized
                } else {
                    old(self).agents@[ctx.agent as int].trade_count == u64::MAX
                        && e == ArenaError::MathOverflow
                },
            },
    {
        if ctx.agent >= self.agents.len() as u64 {
            return Err(ArenaError::NotFound);
        }
        let a = ctx.agent as usize;
        if ctx.authority != self.agents[a].authority {
            return Err(ArenaError::Unauthorized);
        }
        let trade_number = match self.agents[a].trade_count.checked_add(1) {
            Some(v) => v,
            None => {
                return Err(ArenaError::MathOverflow);
            }
        };
        let new_total_pnl = accumulate_pnl(self.agents[a].total_pnl, pnl);
        let new_value = apply_pnl(self.agents[a].current_value, pnl);
        self.agents[a].trade_count = trade_number;
        self.agents[a].total_pnl = new_total_pnl;
        self.agents[a].current_value = new_value;
        proof {
            let pre = *old(self);
            assert(self.agents@ =~= pre.agents@.update(
                ctx.agent as int,
                (AgentAccount {
                    trade_count: trade_number,
                    total_pnl: new_total_pnl,
                    current_value: new_value,
                    ..pre.agents@[ctx.agent as int]
                }),
            ));
            assert forall|a2: int| 0 <= a2 < self.agents@.len() implies
                (#[trigger] self.agents@[a2]).total_deposited as int
                    == sum_deposits(self.positions@, a2 as u64)
                    && self.agents@[a2].investor_count as int
                        == count_active(self.positions@, a2 as u64) by {
                assert(pre.agents@[a2].total_deposited as int
                    == sum_deposits(pre.positions@, a2 as u64));
            }
        }
        Ok(TradeRecorded { agent: ctx.agent, pnl, skill_used, tx_signature, trade_number, timestamp: now })
    }

    /// Accepts a deposit into an active agent with a bound vault: the
    /// position and the agent's aggregates grow by the amount, atomically,
    /// while the host moves the amount itself from the investor into the
    /// escrow. Every addition is checked; on overflow nothing mutates.
    pub fn deposit(&mut self, ctx: Deposit, amount: u64, now: i64) -> (r: Result<
        (),
        ArenaError,
    >)
        requires
            old(self).wf(),
        ensures
            final(self).wf(),
            match r {
                Ok(()) => deposit_err(*old(self), ctx, amount) is None
                    && deposit_post(*old(self), *final(self), ctx, amount, now),
                Err(e) => deposit_err(*old(self), ctx, amount) == Some(e)
                    && *final(self) == *old(self),
            },
    {
        if amount == 0 {
            return Err(ArenaError::ZeroAmount);
        }
        if ctx.agent >= self.agents.len() as u64 {
            return Err(ArenaError::NotFound);
        }
        let a = ctx.agent as usize;
        if !self.agents[a].is_active {
            return Err(ArenaError::AgentInactive);
        }
        let vi = match self.find_vault(ctx.agent) {
            Some(v) => v,
            None => {
                return Err(ArenaError::NotFound);
            }
        };
        let found = self.find_position(ctx.agent, ctx.investor);
        let pos_amt: u64 = match found {
            Some(j) => self.positions[j].deposited,
            None => 0,
        };
        let new_td = match self.agents[a].total_deposited.checked_add(amount) {
            Some(v) => v,
            None => {
                return Err(ArenaError::MathOverflow);
            }
        };
        let new_cv = match self.agents[a].current_value.checked_add(amount) {
            Some(v) => v,
            None => {
                return Err(ArenaError::MathOverflow);
            }
        };
        let new_pos_amt = match pos_amt.checked_add(amount) {
            Some(v) => v,
            None => {
                return Err(ArenaError::MathOverflow);
            }
        };
        let new_ic: u32 = if pos_amt == 0 {
            match self.agents[a].investor_count.checked_add(1) {
                Some(v) => v,
                None => {
                    return Err(ArenaError::MathOverflow);
                }
            }
        } else {
            self.agents[a].investor_count
        };
        match found {
            Some(j) => {
                self.positions[j].deposited = new_pos_amt;
                self.positions[j].last_deposit_at = now;
            }
            None => {
                self.positions.push(
                    InvestorPosition {
                        investor: ctx.investor,
                        agent: ctx.agent,
                        deposited: amount,
                        last_deposit_at: now,
                    },
                );
            }
        }
        self.agents[a].total_deposited = new_td;
        self.agents[a].current_value = new_cv;
        self.agents[a].investor_count = new_ic;
        proof {
            let pre = *old(self);
            let av = ctx.agent;
            let ai = ctx.agent as int;
            let ps0 = pre.positions@;
            let ps1 = self.positions@;
            let target_agent = AgentAccount {
                total_deposited: new_td,
                current_value: new_cv,
                investor_count: new_ic,
                ..pre.agents@[ai]
            };
            assert(self.agents@ =~= pre.agents@.update(ai, target_agent));
            if found is Some {
                let pj = position_index(ps0, av, ctx.investor);
                let updated = InvestorPosition {
                    deposited: new_pos_amt,
                    last_deposit_at: now,
                    ..ps0[pj]
                };
                assert(ps1 =~= ps0.update(pj, updated));
                assert forall|a2: int| 0 <= a2 < self.agents@.len() implies
                    (#[trigger] self.agents@[a2]).total_deposited as int
                        == sum_deposits(ps1, a2 as u64)
                        && self.agents@[a2].investor_count as int
                            == count_active(ps1, a2 as u64) by {
                    lemma_sum_update(ps0, pj, updated, a2 as u64);
                    assert(pre.agents@[a2].total_deposited as int
                        == sum_deposits(ps0, a2 as u64));
                }
                assert(self.positions_unique()) by {
                    assert(forall|k: int|
                        0 <= k < ps1.len() ==> (#[trigger] ps1[k]).agent == ps0[k].agent
                            && ps1[k].investor == ps0[k].investor);
                }
            } else {
                let updated = InvestorPosition {
                    investor: ctx.investor,
                    agent: av,
                    deposited: amount,
                    last_deposit_at: now,
                };
                assert(ps1 =~= ps0.push(updated));
                assert forall|a2: int| 0 <= a2 < self.agents@.len() implies
                    (#[trigger] self.agents@[a2]).total_deposited as int
                        == sum_deposits(ps1, a2 as u64)
                        && self.agents@[a2].investor_count as int
                            == count_active(ps1, a2 as u64) by {
                    lemma_sum_push(ps0, updated, a2 as u64);
                    assert(pre.agents@[a2].total_deposited as int
                        == sum_deposits(ps0, a2 as u64));
                }
            }
        }
        Ok(())
    }

    /// Pays out a withdrawal: converts the principal-denominated request
    /// into a value-denominated share via the exact proportional formula,
    /// refuses any payout that would leave the escrow below the host's
    /// reserve floor, and shrinks position and aggregates atomically.
    /// `vault_balance` is the escrow's transferable value and `min_reserve`
    /// the persistence floor, both read from the host. Returns the share
    /// the host must move from the escrow to the investor.
    pub fn withdraw(
        &mut self,
        ctx: Withdraw,
        amount: u64,
        vault_balance: u64,
        min_reserve: u64,
    ) -> (r: Result<u64, ArenaError>)
        requires
            old(self).wf(),
        ensures
            final(self).wf(),
            match r {
                Ok(share) => withdraw_err(*old(self), ctx, amount, vault_balance, min_reserve)
                    is None
                    && share as int == share_of(
                        amount,
                        old(self).agents@[ctx.agent as int].current_value,
                        old(self).agents@[ctx.agent as int].total_deposited,
                    )
                    && share <= old(self).agents@[ctx.agent as int].current_value
                    && vault_balance - share >= min_reserve
                    && withdraw_post(*old(self), *final(self), ctx, amount),
                Err(e) => withdraw_err(*old(self), ctx, amount, vault_balance, min_reserve)
                    == Some(e) && *final(self) == *old(self),
            },
    {
        if amount == 0 {
            return Err(ArenaError::ZeroAmount);
        }
        if ctx.agent >= self.agents.len() as u64 {
            return Err(ArenaError::NotFound);
        }
        let a = ctx.agent as usize;
        let j = match self.find_position(ctx.agent, ctx.investor) {
            Some(j) => j,
            None => {
                return Err(ArenaError::NotFound);
            }
        };
        let vi = match self.find_vault(ctx.agent) {
            Some(v) => v,
            None => {
                return Err(ArenaError::NotFound);
            }
        };
        let pos_amt = self.positions[j].deposited;
        if pos_amt < amount {
            return Err(ArenaError::InsufficientFunds);
        }
        let td = self.agents[a].total_deposited;
        if td == 0 {
            return Err(ArenaError::InsufficientFunds);
        }
        let cv = self.agents[a].current_value;
        proof {
            lemma_contrib_le_sum(self.positions@, j as int, ctx.agent);
        }
        let share = compute_share(amount, cv, td);
        if vault_balance < share {
            return Err(ArenaError::InsufficientFunds);
        }
        if vault_balance - share < min_reserve {
            return Err(ArenaError::InsufficientFunds);
        }
        let new_dep = pos_amt - amount;
        self.positions[j].deposited = new_dep;
        self.agents[a].total_deposited = td - amount;
        self.agents[a].current_value = cv - share;
        if new_dep == 0 {
            let ic = self.agents[a].investor_count;
            self.agents[a].investor_count = if ic > 0 {
                ic - 1
            } else {
                0
            };
        }
        proof {
            let pre = *old(self);
            let av = ctx.agent;
            let ai = ctx.agent as int;
            let ps0 = pre.positions@;
            let ps1 = self.positions@;
            let pj = j as int;
            let updated = InvestorPosition { deposited: new_dep, ..ps0[pj] };
            lemma_contrib_le_sum(ps0, pj, av);
            let target_agent = AgentAccount {
                total_deposited: (td - amount) as u64,
                current_value: (cv - share) as u64,
                investor_count: if new_dep == 0 {
                    (pre.agents@[ai].investor_count - 1) as u32
                } else {
                    pre.agents@[ai].investor_count
                },
                ..pre.agents@[ai]
            };
            assert(ps1 =~= ps0.update(pj, updated));
            assert(self.agents@ =~= pre.agents@.update(ai, target_agent));
            assert forall|a2: int| 0 <= a2 < self.agents@.len() implies
                (#[trigger] self.agents@[a2]).total_deposited as int
                    == sum_deposits(ps1, a2 as u64)
                    && self.agents@[a2].investor_count as int
                        == count_active(ps1, a2 as u64) by {
                lemma_sum_update(ps0, pj, updated, a2 as u64);
                assert(pre.agents@[a2].total_deposited as int == sum_deposits(ps0, a2 as u64));
            }
            assert(self.positions_unique()) by {
                assert(forall|k: int|
                    0 <= k < ps1.len() ==> (#[trigger] ps1[k]).agent == ps0[k].agent
                        && ps1[k].investor == ps0[k].investor);
            }
        }
        Ok(share)
    }
}

} // verus!
