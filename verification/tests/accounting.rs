use arena::arena::Arena;
use arena::errors::ArenaError;
use arena::math::compute_share;
use arena::state::{Deposit, HaltAgent, InitializeVault, RecordTrade, RegisterAgent, Withdraw};

const RESERVE: u64 = 1000;

/// A fresh arena with one registered agent (authority 7) and its vault.
fn fresh() -> Arena {
    let mut s = Arena::new();
    s.register_agent(
        RegisterAgent { creator: 7 },
        String::from("Alpha"),
        String::from("mean-reversion"),
        vec![String::from("momentum")],
        5,
        2000,
        1000,
        500,
        42,
    )
    .unwrap();
    s.initialize_vault(InitializeVault { agent: 0, authority: 7 }).unwrap();
    s
}

#[test]
fn deposit_on_fresh_agent() {
    let mut s = fresh();
    let r = s.deposit(Deposit { agent: 0, investor: 3 }, 1_000_000, 43);
    assert_eq!(r, Ok(()));
    assert_eq!(s.agents[0].total_deposited, 1_000_000);
    assert_eq!(s.agents[0].current_value, 1_000_000);
    assert_eq!(s.agents[0].investor_count, 1);
    assert_eq!(s.positions.len(), 1);
    assert_eq!(s.positions[0].investor, 3);
    assert_eq!(s.positions[0].agent, 0);
    assert_eq!(s.positions[0].deposited, 1_000_000);
    assert_eq!(s.positions[0].last_deposit_at, 43);
}

#[test]
fn deposit_zero_amount_rejected() {
    let mut s = fresh();
    let r = s.deposit(Deposit { agent: 0, investor: 3 }, 0, 43);
    assert_eq!(r, Err(ArenaError::ZeroAmount));
    assert_eq!(s.agents[0].total_deposited, 0);
}

#[test]
fn deposit_on_missing_agent_or_vault() {
    let mut s = fresh();
    let r = s.deposit(Deposit { agent: 5, investor: 3 }, 10, 43);
    assert_eq!(r, Err(ArenaError::NotFound));
    // A second agent without a vault cannot take deposits.
    s.register_agent(
        RegisterAgent { creator: 7 },
        String::from("Beta"),
        String::new(),
        Vec::new(),
        0,
        0,
        0,
        0,
        0,
    )
    .unwrap();
    let r2 = s.deposit(Deposit { agent: 1, investor: 3 }, 10, 43);
    assert_eq!(r2, Err(ArenaError::NotFound));
}

#[test]
fn deposit_on_halted_agent_leaves_state_unchanged() {
    let mut s = fresh();
    s.deposit(Deposit { agent: 0, investor: 3 }, 500, 43).unwrap();
    s.halt_agent(HaltAgent { agent: 0, authority: 7 }).unwrap();
    let r = s.deposit(Deposit { agent: 0, investor: 3 }, 500, 44);
    assert_eq!(r, Err(ArenaError::AgentInactive));
    assert_eq!(s.agents[0].total_deposited, 500);
    assert_eq!(s.agents[0].current_value, 500);
    assert_eq!(s.agents[0].investor_count, 1);
    assert_eq!(s.positions[0].deposited, 500);
    assert_eq!(s.positions[0].last_deposit_at, 43);
}

#[test]
fn deposit_overflow_is_rejected_without_mutation() {
    let mut s = fresh();
    s.deposit(Deposit { agent: 0, investor: 3 }, u64::MAX, 43).unwrap();
    let r = s.deposit(Deposit { agent: 0, investor: 4 }, 1, 44);
    assert_eq!(r, Err(ArenaError::MathOverflow));
    assert_eq!(s.agents[0].total_deposited, u64::MAX);
    assert_eq!(s.agents[0].investor_count, 1);
    assert_eq!(s.positions.len(), 1);
}

#[test]
fn second_deposit_grows_position_not_count() {
    let mut s = fresh();
    s.deposit(Deposit { agent: 0, investor: 3 }, 100, 43).unwrap();
    s.deposit(Deposit { agent: 0, investor: 3 }, 50, 44).unwrap();
    assert_eq!(s.agents[0].total_deposited, 150);
    assert_eq!(s.agents[0].investor_count, 1);
    assert_eq!(s.positions.len(), 1);
    assert_eq!(s.positions[0].deposited, 150);
    assert_eq!(s.positions[0].last_deposit_at, 44);
    s.deposit(Deposit { agent: 0, investor: 9 }, 25, 45).unwrap();
    assert_eq!(s.agents[0].investor_count, 2);
    assert_eq!(s.agents[0].total_deposited, 175);
}

#[test]
fn record_trade_updates_aggregates_and_emits() {
    let mut s = fresh();
    s.deposit(Deposit { agent: 0, investor: 3 }, 1_000_000, 43).unwrap();
    let ev = s
        .record_trade(
            RecordTrade { agent: 0, authority: 7 },
            200_000,
            String::from("momentum"),
            String::from("sig-1"),
            44,
        )
        .unwrap();
    assert_eq!(s.agents[0].current_value, 1_200_000);
    assert_eq!(s.agents[0].total_pnl, 200_000);
    assert_eq!(s.agents[0].trade_count, 1);
    assert_eq!(s.agents[0].total_deposited, 1_000_000);
    assert_eq!(ev.agent, 0);
    assert_eq!(ev.pnl, 200_000);
    assert_eq!(ev.skill_used, "momentum");
    assert_eq!(ev.tx_signature, "sig-1");
    assert_eq!(ev.trade_number, 1);
    assert_eq!(ev.timestamp, 44);
}

#[test]
fn record_trade_requires_authority() {
    let mut s = fresh();
    let r = s.record_trade(
        RecordTrade { agent: 0, authority: 8 },
        1,
        String::new(),
        String::new(),
        44,
    );
    assert_eq!(r, Err(ArenaError::Unauthorized));
    assert_eq!(s.agents[0].trade_count, 0);
    let missing = s.record_trade(
        RecordTrade { agent: 9, authority: 7 },
        1,
        String::new(),
        String::new(),
        44,
    );
    assert_eq!(missing, Err(ArenaError::NotFound));
}

#[test]
fn record_trade_loss_floors_value_at_zero() {
    let mut s = fresh();
    s.deposit(Deposit { agent: 0, investor: 3 }, 1_000, 43).unwrap();
    s.record_trade(RecordTrade { agent: 0, authority: 7 }, -5_000, String::new(), String::new(), 44)
        .unwrap();
    assert_eq!(s.agents[0].current_value, 0);
    assert_eq!(s.agents[0].total_pnl, -5_000);
    assert_eq!(s.agents[0].total_deposited, 1_000);
}

#[test]
fn record_trade_pnl_saturates_at_i64_bounds() {
    let mut s = fresh();
    s.record_trade(RecordTrade { agent: 0, authority: 7 }, i64::MAX, String::new(), String::new(), 1)
        .unwrap();
    s.record_trade(RecordTrade { agent: 0, authority: 7 }, i64::MAX, String::new(), String::new(), 2)
        .unwrap();
    assert_eq!(s.agents[0].total_pnl, i64::MAX);
    s.record_trade(RecordTrade { agent: 0, authority: 7 }, i64::MIN, String::new(), String::new(), 3)
        .unwrap();
    s.record_trade(RecordTrade { agent: 0, authority: 7 }, i64::MIN, String::new(), String::new(), 4)
        .unwrap();
    s.record_trade(RecordTrade { agent: 0, authority: 7 }, i64::MIN, String::new(), String::new(), 5)
        .unwrap();
    assert_eq!(s.agents[0].total_pnl, i64::MIN);
    assert_eq!(s.agents[0].trade_count, 5);
    assert_eq!(s.agents[0].current_value, 0);
}

#[test]
fn withdraw_after_gain_pays_proportional_share() {
    let mut s = fresh();
    s.deposit(Deposit { agent: 0, investor: 3 }, 1_000_000, 43).unwrap();
    s.record_trade(RecordTrade { agent: 0, authority: 7 }, 200_000, String::new(), String::new(), 44)
        .unwrap();
    // The escrow holds the reserve, the deposit, and the trade's proceeds.
    let vault_balance = RESERVE + 1_000_000 + 200_000;
    let share = s
        .withdraw(Withdraw { agent: 0, investor: 3 }, 1_000_000, vault_balance, RESERVE)
        .unwrap();
    assert_eq!(share, 1_200_000);
    assert_eq!(s.positions[0].deposited, 0);
    assert_eq!(s.agents[0].investor_count, 0);
    assert_eq!(s.agents[0].total_deposited, 0);
    assert_eq!(s.agents[0].current_value, 0);
}

#[test]
fn withdraw_after_loss_pays_reduced_share() {
    let mut s = fresh();
    s.deposit(Deposit { agent: 0, investor: 3 }, 1_000, 43).unwrap();
    s.record_trade(RecordTrade { agent: 0, authority: 7 }, -500, String::new(), String::new(), 44)
        .unwrap();
    let share = s
        .withdraw(Withdraw { agent: 0, investor: 3 }, 1_000, RESERVE + 1_000, RESERVE)
        .unwrap();
    assert_eq!(share, 500);
    assert_eq!(s.agents[0].total_deposited, 0);
    assert_eq!(s.agents[0].current_value, 0);
}

#[test]
fn withdraw_share_rounds_down() {
    let mut s = fresh();
    s.deposit(Deposit { agent: 0, investor: 3 }, 1, 43).unwrap();
    s.deposit(Deposit { agent: 0, investor: 9 }, 2, 43).unwrap();
    s.record_trade(RecordTrade { agent: 0, authority: 7 }, 1, String::new(), String::new(), 44)
        .unwrap();
    // share = floor(1 * 4 / 3) = 1
    let share = s.withdraw(Withdraw { agent: 0, investor: 3 }, 1, RESERVE + 4, RESERVE).unwrap();
    assert_eq!(share, 1);
    assert_eq!(s.agents[0].total_deposited, 2);
    assert_eq!(s.agents[0].current_value, 3);
    assert_eq!(s.agents[0].investor_count, 1);
}

#[test]
fn withdraw_more_than_deposited_rejected() {
    let mut s = fresh();
    s.deposit(Deposit { agent: 0, investor: 3 }, 100, 43).unwrap();
    let r = s.withdraw(Withdraw { agent: 0, investor: 3 }, 101, RESERVE + 100, RESERVE);
    assert_eq!(r, Err(ArenaError::InsufficientFunds));
    assert_eq!(s.positions[0].deposited, 100);
}

#[test]
fn withdraw_without_position_rejected() {
    let mut s = fresh();
    s.deposit(Deposit { agent: 0, investor: 3 }, 100, 43).unwrap();
    let r = s.withdraw(Withdraw { agent: 0, investor: 4 }, 1, RESERVE + 100, RESERVE);
    assert_eq!(r, Err(ArenaError::NotFound));
    let r2 = s.withdraw(Withdraw { agent: 2, investor: 3 }, 1, RESERVE + 100, RESERVE);
    assert_eq!(r2, Err(ArenaError::NotFound));
}

#[test]
fn withdraw_zero_amount_rejected() {
    let mut s = fresh();
    s.deposit(Deposit { agent: 0, investor: 3 }, 100, 43).unwrap();
    let r = s.withdraw(Withdraw { agent: 0, investor: 3 }, 0, RESERVE + 100, RESERVE);
    assert_eq!(r, Err(ArenaError::ZeroAmount));
}

#[test]
fn withdraw_protects_reserve_floor() {
    let mut s = fresh();
    s.deposit(Deposit { agent: 0, investor: 3 }, 100, 43).unwrap();
    // Paying 100 out of 150 would leave the escrow under the reserve of 1000.
    let r = s.withdraw(Withdraw { agent: 0, investor: 3 }, 100, 150, RESERVE);
    assert_eq!(r, Err(ArenaError::InsufficientFunds));
    assert_eq!(s.positions[0].deposited, 100);
    assert_eq!(s.agents[0].total_deposited, 100);
    // With the escrow exactly covering share plus reserve it succeeds.
    let share = s.withdraw(Withdraw { agent: 0, investor: 3 }, 100, RESERVE + 100, RESERVE).unwrap();
    assert_eq!(share, 100);
}

#[test]
fn withdraw_full_amount_zeroes_position_and_count() {
    let mut s = fresh();
    s.deposit(Deposit { agent: 0, investor: 3 }, 700, 43).unwrap();
    s.deposit(Deposit { agent: 0, investor: 9 }, 300, 43).unwrap();
    assert_eq!(s.agents[0].investor_count, 2);
    let share = s.withdraw(Withdraw { agent: 0, investor: 3 }, 700, RESERVE + 1_000, RESERVE).unwrap();
    assert_eq!(share, 700);
    assert_eq!(s.positions[0].deposited, 0);
    assert_eq!(s.agents[0].investor_count, 1);
    assert_eq!(s.agents[0].total_deposited, 300);
}

#[test]
fn withdrawals_allowed_after_halt() {
    let mut s = fresh();
    s.deposit(Deposit { agent: 0, investor: 3 }, 100, 43).unwrap();
    s.halt_agent(HaltAgent { agent: 0, authority: 7 }).unwrap();
    let share = s.withdraw(Withdraw { agent: 0, investor: 3 }, 100, RESERVE + 100, RESERVE).unwrap();
    assert_eq!(share, 100);
}

#[test]
fn withdraw_then_deposit_round_trip_restores_ledger() {
    let mut s = fresh();
    s.deposit(Deposit { agent: 0, investor: 3 }, 800, 43).unwrap();
    s.deposit(Deposit { agent: 0, investor: 9 }, 200, 43).unwrap();
    // current_value == total_deposited: no trade recorded.
    let share = s.withdraw(Withdraw { agent: 0, investor: 3 }, 300, RESERVE + 1_000, RESERVE).unwrap();
    assert_eq!(share, 300);
    s.deposit(Deposit { agent: 0, investor: 3 }, 300, 44).unwrap();
    assert_eq!(s.agents[0].total_deposited, 1_000);
    assert_eq!(s.agents[0].current_value, 1_000);
    assert_eq!(s.positions[0].deposited, 800);
    assert_eq!(s.agents[0].investor_count, 2);
}

#[test]
fn deposit_reviving_cleared_position_counts_again() {
    let mut s = fresh();
    s.deposit(Deposit { agent: 0, investor: 3 }, 100, 43).unwrap();
    s.withdraw(Withdraw { agent: 0, investor: 3 }, 100, RESERVE + 100, RESERVE).unwrap();
    assert_eq!(s.agents[0].investor_count, 0);
    s.deposit(Deposit { agent: 0, investor: 3 }, 50, 44).unwrap();
    assert_eq!(s.agents[0].investor_count, 1);
    assert_eq!(s.positions.len(), 1);
    assert_eq!(s.positions[0].deposited, 50);
}

#[test]
fn compute_share_is_exact_at_full_width() {
    // The multiply runs in 128 bits: no overflow even at the extremes.
    assert_eq!(compute_share(u64::MAX, u64::MAX, u64::MAX), u64::MAX);
    assert_eq!(compute_share(1, u64::MAX, u64::MAX), 1);
    assert_eq!(compute_share(0, 12345, 77), 0);
    assert_eq!(compute_share(1_000_000, 1_200_000, 1_000_000), 1_200_000);
}

#[test]
fn operations_on_distinct_agents_are_independent() {
    let mut s = fresh();
    s.register_agent(
        RegisterAgent { creator: 8 },
        String::from("Beta"),
        String::new(),
        Vec::new(),
        0,
        0,
        0,
        0,
        0,
    )
    .unwrap();
    s.initialize_vault(InitializeVault { agent: 1, authority: 8 }).unwrap();
    s.deposit(Deposit { agent: 0, investor: 3 }, 100, 43).unwrap();
    s.deposit(Deposit { agent: 1, investor: 3 }, 999, 43).unwrap();
    assert_eq!(s.agents[0].total_deposited, 100);
    assert_eq!(s.agents[1].total_deposited, 999);
    s.withdraw(Withdraw { agent: 1, investor: 3 }, 999, RESERVE + 999, RESERVE).unwrap();
    assert_eq!(s.agents[0].total_deposited, 100);
    assert_eq!(s.agents[1].total_deposited, 0);
    assert_eq!(s.positions[0].deposited, 100);
}
