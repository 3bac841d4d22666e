use court_coordinator::court::CourtState;
use court_coordinator::error::{CourtContractError, PaymentError};
use court_coordinator::payment::BorshableCoin;
use court_coordinator::proposed_msg::ProposedCourtMsg;
use court_coordinator::status::{TransactionProposalExecutionStatus, TransactionProposalStatus};
use court_coordinator::user::{CourtUserVoteInfo, CourtUserVoteStatus};

const ADMIN_ACCOUNT: &str = "sei1admin0000000000000000000000000000000";
const CONTRACT_ACCOUNT: &str = "sei1court0000000000000000000000000000000";
const VOTES_DENOM: &str = "factory/sei1court0000000000000000000000000000000/votes";
const SHARES_HOLDER_ACCOUNT_1: &str = "sei1holder100000000000000000000000000000";
const SHARES_HOLDER_ACCOUNT_2: &str = "sei1holder200000000000000000000000000000";
const RANDOM_ACCOUNT_1: &str = "sei1random100000000000000000000000000000";
const RANDOM_ACCOUNT_2: &str = "sei1random200000000000000000000000000000";
const RANDOM_ACCOUNT_5: &str = "sei1random500000000000000000000000000000";
const START_MS: u64 = 1_571_797_419_879;

struct Env {
    court: CourtState,
    now_ms: u64,
}

fn s(x: &str) -> String {
    x.to_string()
}

fn coins(amount: u128, denom: &str) -> Vec<BorshableCoin> {
    vec![BorshableCoin { denom: s(denom), amount }]
}

fn no_funds() -> Vec<BorshableCoin> {
    vec![]
}

fn instantiate_with(funds: &Vec<BorshableCoin>, admin: &str, supply: u128) -> Result<CourtState, CourtContractError> {
    CourtState::new(
        funds,
        s(admin),
        s(CONTRACT_ACCOUNT),
        s(VOTES_DENOM),
        supply,
        10,
        20,
        50,
        7200,
        3600,
        START_MS,
    )
}

fn new_env_and_instantiate() -> Env {
    let court = instantiate_with(&no_funds(), ADMIN_ACCOUNT, 1000000).unwrap();
    Env { court, now_ms: START_MS }
}

fn send_coin_msg() -> ProposedCourtMsg {
    ProposedCourtMsg::SendCoin { to: s(RANDOM_ACCOUNT_1), denom: s("usei"), amount: 1337 }
}

fn execute_stake_votes(env: &mut Env, sender: &str, amount: u128) {
    let before = env.court.stake_of(&s(sender));
    let total = env.court.stake(s(sender), &coins(amount, VOTES_DENOM)).unwrap();
    assert_eq!(total, before + amount);
    assert_eq!(env.court.stake_of(&s(sender)), before + amount);
}

fn execute_stake_exact_amount(env: &mut Env, sender: &str, amount: u128) {
    let mut previous = env.court.stake_of(&s(sender));
    if previous > amount {
        env.court.unstake(s(sender), &no_funds()).unwrap();
        previous = 0;
    }
    if amount > previous {
        env.court.stake(s(sender), &coins(amount - previous, VOTES_DENOM)).unwrap();
    }
    assert_eq!(env.court.stake_of(&s(sender)), amount);
}

fn execute_propose_transaction(env: &mut Env, sender: &str, msgs: Vec<ProposedCourtMsg>, expiry_time_seconds: u32) -> u32 {
    let expected_id = env.court.proposal_amount();
    let id = env
        .court
        .propose_transaction(s(sender), &no_funds(), msgs, expiry_time_seconds, env.now_ms)
        .unwrap();
    assert_eq!(id, expected_id);
    id
}

fn execute_vote(env: &mut Env, sender: &str, id: u32, vote: CourtUserVoteStatus) {
    let staked = env.court.stake_of(&s(sender));
    let counted = env.court.vote(s(sender), &no_funds(), id, vote, env.now_ms).unwrap();
    assert_eq!(counted, staked);
    assert_eq!(env.court.user_vote(id, &s(sender)), CourtUserVoteInfo { active_votes: staked, vote });
}

fn execute_deactivate_votes(env: &mut Env, voter: &str) {
    env.court
        .deactivate_votes(s(RANDOM_ACCOUNT_5), &no_funds(), Some(s(voter)), None, env.now_ms)
        .unwrap();
}

fn status(env: &Env, id: u32) -> TransactionProposalStatus {
    env.court.proposal_status(id, env.now_ms).unwrap()
}

fn advance_time_to_vote_end(env: &mut Env, id: u32) {
    let expiry = env.court.proposal(id).unwrap().expiry_timestamp_ms;
    if env.now_ms < expiry {
        env.now_ms = expiry;
    }
}

fn advance_time_to_execution_expiry(env: &mut Env, id: u32) {
    let expiry = env.court.proposal(id).unwrap().expiry_timestamp_ms;
    let window = env.court.config().execution_expiry_time_seconds as u64 * 1000;
    if env.now_ms < expiry + window + 1 {
        env.now_ms = expiry + window + 1;
    }
}

fn is_payment_error(r: &Result<impl std::fmt::Debug, CourtContractError>) -> bool {
    matches!(r, Err(CourtContractError::PaymentError(_)))
}

fn unexpected(expected: TransactionProposalStatus, actual: TransactionProposalStatus) -> CourtContractError {
    CourtContractError::UnexpectedProposalStatus { expected, actual }
}

// ---- instantiation ----

#[test]
fn instantiate() {
    let r = instantiate_with(&coins(1337, "usei"), ADMIN_ACCOUNT, 1000000);
    assert!(matches!(r, Err(CourtContractError::PaymentError(PaymentError::NonPayable))));
    let court = CourtState::new(
        &no_funds(),
        s(RANDOM_ACCOUNT_2),
        s(CONTRACT_ACCOUNT),
        s(VOTES_DENOM),
        1404438,
        27,
        20,
        28,
        3428,
        2506,
        START_MS,
    )
    .unwrap();
    let config = court.config();
    assert!(config.allow_new_proposals);
    assert_eq!(config.minimum_vote_proposal_percent, 27);
    assert_eq!(config.minimum_vote_turnout_percent, 20);
    assert_eq!(config.minimum_vote_pass_percent, 28);
    assert_eq!(config.max_proposal_expiry_time_seconds, 3428);
    assert_eq!(config.execution_expiry_time_seconds, 2506);
    assert_eq!(config.last_config_change_timestamp_ms, START_MS);
    assert_eq!(config.admin, RANDOM_ACCOUNT_2);
    assert_eq!(court.total_supply(), 1404438);
    assert_eq!(court.votes_denom(), VOTES_DENOM);
}

#[test]
fn instantiate_rejects_unsafe_supply() {
    let largest_safe = u128::MAX / 10000;
    assert!(instantiate_with(&no_funds(), ADMIN_ACCOUNT, largest_safe).is_ok());
    assert_eq!(
        instantiate_with(&no_funds(), ADMIN_ACCOUNT, largest_safe + 1).err(),
        Some(CourtContractError::TooManyVotesToMint)
    );
}

// ---- administrator ----

#[test]
fn admin_change_admin_authorized_check() {
    let mut env = new_env_and_instantiate();
    let r = env.court.change_admin(&s(RANDOM_ACCOUNT_1), &no_funds(), s(RANDOM_ACCOUNT_2));
    assert_eq!(r, Err(CourtContractError::Unauthorized));
    assert_eq!(env.court.config().admin, ADMIN_ACCOUNT);
}

#[test]
fn cannot_be_self_while_voting_disabled() {
    let mut env = new_env_and_instantiate();
    env.court.allow_new_proposals(&s(ADMIN_ACCOUNT), &no_funds(), false).unwrap();
    let r = env.court.change_admin(&s(ADMIN_ACCOUNT), &no_funds(), s(CONTRACT_ACCOUNT));
    assert_eq!(r, Err(CourtContractError::WouldLockupContract));
    env.court.allow_new_proposals(&s(ADMIN_ACCOUNT), &no_funds(), true).unwrap();
    env.court.change_admin(&s(ADMIN_ACCOUNT), &no_funds(), s(CONTRACT_ACCOUNT)).unwrap();
    assert_eq!(env.court.config().admin, CONTRACT_ACCOUNT);
}

#[test]
fn new_guy_can_do_things() {
    let mut env = new_env_and_instantiate();
    env.court.change_admin(&s(ADMIN_ACCOUNT), &no_funds(), s(RANDOM_ACCOUNT_1)).unwrap();
    assert_eq!(
        env.court.mint_shares(&s(ADMIN_ACCOUNT), &no_funds(), 69),
        Err(CourtContractError::Unauthorized)
    );
    env.court.mint_shares(&s(RANDOM_ACCOUNT_1), &no_funds(), 69).unwrap();
    assert_eq!(env.court.total_supply(), 1000069);
}

#[test]
fn admin_change_admin_unfunded_check() {
    let mut env = new_env_and_instantiate();
    let r = env.court.change_admin(&s(ADMIN_ACCOUNT), &coins(1, "usei"), s(RANDOM_ACCOUNT_2));
    assert_eq!(r, Err(CourtContractError::PaymentError(PaymentError::NonPayable)));
    env.court.change_admin(&s(ADMIN_ACCOUNT), &no_funds(), s(RANDOM_ACCOUNT_2)).unwrap();
}

fn change_nothing(env: &mut Env, sender: &str, funds: &Vec<BorshableCoin>) -> Result<(), CourtContractError> {
    env.court.change_config(&s(sender), funds, None, None, None, None, None, env.now_ms)
}

#[test]
fn admin_change_config_unfunded_check() {
    let mut env = new_env_and_instantiate();
    let r = change_nothing(&mut env, ADMIN_ACCOUNT, &coins(1, "usei"));
    assert_eq!(r, Err(CourtContractError::PaymentError(PaymentError::NonPayable)));
    change_nothing(&mut env, ADMIN_ACCOUNT, &no_funds()).unwrap();
}

#[test]
fn admin_change_config_authorized_check() {
    let mut env = new_env_and_instantiate();
    assert_eq!(change_nothing(&mut env, RANDOM_ACCOUNT_1, &no_funds()), Err(CourtContractError::Unauthorized));
}

#[test]
fn correct() {
    let mut env = new_env_and_instantiate();
    env.now_ms += 69_000;
    change_nothing(&mut env, ADMIN_ACCOUNT, &no_funds()).unwrap();
    let config = env.court.config();
    assert!(config.allow_new_proposals);
    assert_eq!(config.minimum_vote_proposal_percent, 10);
    assert_eq!(config.minimum_vote_turnout_percent, 20);
    assert_eq!(config.minimum_vote_pass_percent, 50);
    assert_eq!(config.max_proposal_expiry_time_seconds, 7200);
    assert_eq!(config.execution_expiry_time_seconds, 3600);
    assert_eq!(config.last_config_change_timestamp_ms, START_MS + 69_000);
    let now = env.now_ms;
    env.court
        .change_config(&s(ADMIN_ACCOUNT), &no_funds(), Some(11), Some(21), Some(51), Some(7201), Some(3601), now)
        .unwrap();
    let config = env.court.config();
    assert_eq!(config.minimum_vote_proposal_percent, 11);
    assert_eq!(config.minimum_vote_turnout_percent, 21);
    assert_eq!(config.minimum_vote_pass_percent, 51);
    assert_eq!(config.max_proposal_expiry_time_seconds, 7201);
    assert_eq!(config.execution_expiry_time_seconds, 3601);
}

#[test]
fn only_when_no_pending_proposals() {
    let mut env = new_env_and_instantiate();
    assert_eq!(env.court.total_supply(), 1000000);
    execute_stake_votes(&mut env, SHARES_HOLDER_ACCOUNT_1, 100000);
    execute_propose_transaction(&mut env, SHARES_HOLDER_ACCOUNT_1, vec![send_coin_msg()], 1200);
    assert_eq!(change_nothing(&mut env, ADMIN_ACCOUNT, &no_funds()), Err(CourtContractError::VotesActive));
    env.now_ms += 69 * 24 * 3600 * 1000;
    execute_deactivate_votes(&mut env, SHARES_HOLDER_ACCOUNT_1);
    change_nothing(&mut env, ADMIN_ACCOUNT, &no_funds()).unwrap();
}

#[test]
fn admin_disallow_new_proposals_unfunded_check() {
    let mut env = new_env_and_instantiate();
    let r = env.court.allow_new_proposals(&s(ADMIN_ACCOUNT), &coins(1, "usei"), false);
    assert_eq!(r, Err(CourtContractError::PaymentError(PaymentError::NonPayable)));
}

#[test]
fn admin_disallow_new_proposals_authorized_check() {
    let mut env = new_env_and_instantiate();
    let r = env.court.allow_new_proposals(&s(RANDOM_ACCOUNT_1), &no_funds(), false);
    assert_eq!(r, Err(CourtContractError::Unauthorized));
    assert!(env.court.config().allow_new_proposals());
}

#[test]
fn cant_be_self() {
    let mut env = new_env_and_instantiate();
    env.court.change_admin(&s(ADMIN_ACCOUNT), &no_funds(), s(CONTRACT_ACCOUNT)).unwrap();
    let r = env.court.allow_new_proposals(&s(CONTRACT_ACCOUNT), &no_funds(), false);
    assert_eq!(r, Err(CourtContractError::WouldLockupContract));
    env.court.allow_new_proposals(&s(CONTRACT_ACCOUNT), &no_funds(), true).unwrap();
}

#[test]
fn blocks_proposals() {
    let mut env = Env {
        court: CourtState::new(
            &no_funds(),
            s(ADMIN_ACCOUNT),
            s(CONTRACT_ACCOUNT),
            s(VOTES_DENOM),
            1000000,
            10,
            10,
            50,
            86400,
            3600,
            START_MS,
        )
        .unwrap(),
        now_ms: START_MS,
    };
    env.court.allow_new_proposals(&s(ADMIN_ACCOUNT), &no_funds(), false).unwrap();
    execute_stake_votes(&mut env, SHARES_HOLDER_ACCOUNT_1, 200000);
    let r = env.court.propose_transaction(
        s(SHARES_HOLDER_ACCOUNT_1),
        &no_funds(),
        vec![ProposedCourtMsg::SendCoin { to: s(RANDOM_ACCOUNT_1), denom: s("usei"), amount: 31337 }],
        3600,
        env.now_ms,
    );
    assert_eq!(r, Err(CourtContractError::NewProposalsNotAllowed));
}

#[test]
fn admin_mint_shares_unfunded_check() {
    let mut env = new_env_and_instantiate();
    let r = env.court.mint_shares(&s(ADMIN_ACCOUNT), &coins(31337, "usei"), 31337);
    assert_eq!(r, Err(CourtContractError::PaymentError(PaymentError::NonPayable)));
    assert_eq!(env.court.total_supply(), 1000000);
}

#[test]
fn admin_mint_shares_authorized_check() {
    let mut env = new_env_and_instantiate();
    let r = env.court.mint_shares(&s(RANDOM_ACCOUNT_1), &no_funds(), 31337);
    assert_eq!(r, Err(CourtContractError::Unauthorized));
    assert_eq!(env.court.total_supply(), 1000000);
}

#[test]
fn minted_check() {
    let mut env = new_env_and_instantiate();
    assert_eq!(env.court.total_supply(), 1000000u128);
    assert_eq!(env.court.mint_shares(&s(ADMIN_ACCOUNT), &no_funds(), 31337), Ok(1031337));
    assert_eq!(env.court.total_supply(), 1031337u128);
}

#[test]
fn mint_shares_rejects_unsafe_supply() {
    let mut env = new_env_and_instantiate();
    let too_many = u128::MAX / 10000 - 1000000 + 1;
    assert_eq!(
        env.court.mint_shares(&s(ADMIN_ACCOUNT), &no_funds(), too_many),
        Err(CourtContractError::TooManyVotesToMint)
    );
    assert_eq!(env.court.total_supply(), 1000000);
    assert_eq!(env.court.mint_shares(&s(ADMIN_ACCOUNT), &no_funds(), too_many - 1), Ok(u128::MAX / 10000));
}

// ---- deactivation ----

#[test]
fn deactivate_votes_unfunded_check() {
    let mut env = new_env_and_instantiate();
    let r = env.court.deactivate_votes(s(SHARES_HOLDER_ACCOUNT_1), &coins(500000, "usei"), None, None, env.now_ms);
    assert_eq!(r, Err(CourtContractError::PaymentError(PaymentError::NonPayable)));
}

#[test]
fn deactivates_senders_votes() {
    let mut env = new_env_and_instantiate();
    execute_stake_votes(&mut env, SHARES_HOLDER_ACCOUNT_1, 500000);
    execute_propose_transaction(&mut env, SHARES_HOLDER_ACCOUNT_1, vec![send_coin_msg()], 420);
    advance_time_to_execution_expiry(&mut env, 0);
    let now = env.now_ms;
    env.court.deactivate_votes(s(SHARES_HOLDER_ACCOUNT_1), &no_funds(), None, None, now).unwrap();
    assert!(!env.court.user_has_active_votes(&s(SHARES_HOLDER_ACCOUNT_1)));
    assert_eq!(env.court.unstake(s(SHARES_HOLDER_ACCOUNT_1), &no_funds()), Ok(500000));
}

#[test]
fn permissionless() {
    let mut env = new_env_and_instantiate();
    execute_stake_votes(&mut env, SHARES_HOLDER_ACCOUNT_1, 500000);
    execute_propose_transaction(&mut env, SHARES_HOLDER_ACCOUNT_1, vec![send_coin_msg()], 420);
    advance_time_to_execution_expiry(&mut env, 0);
    let now = env.now_ms;
    env.court
        .deactivate_votes(s(RANDOM_ACCOUNT_2), &no_funds(), Some(s(SHARES_HOLDER_ACCOUNT_1)), None, now)
        .unwrap();
    assert_eq!(env.court.unstake(s(SHARES_HOLDER_ACCOUNT_1), &no_funds()), Ok(500000));
}

#[test]
fn non_finalized_proposal_check() {
    let mut env = new_env_and_instantiate();
    execute_stake_votes(&mut env, SHARES_HOLDER_ACCOUNT_1, 500000);
    execute_propose_transaction(&mut env, SHARES_HOLDER_ACCOUNT_1, vec![send_coin_msg()], 420);
    let now = env.now_ms;
    let r = env.court.deactivate_votes(s(SHARES_HOLDER_ACCOUNT_1), &no_funds(), None, None, now);
    assert_eq!(r, Err(CourtContractError::ProposalNotFinalized(0)));
    assert!(env.court.user_has_active_votes(&s(SHARES_HOLDER_ACCOUNT_1)));
}

#[test]
fn deactivate_respects_limit_in_proposal_order() {
    let mut env = new_env_and_instantiate();
    execute_stake_votes(&mut env, SHARES_HOLDER_ACCOUNT_1, 100000);
    for _ in 0..3 {
        execute_propose_transaction(&mut env, SHARES_HOLDER_ACCOUNT_1, vec![send_coin_msg()], 420);
    }
    advance_time_to_vote_end(&mut env, 2);
    let now = env.now_ms;
    env.court
        .deactivate_votes(s(RANDOM_ACCOUNT_5), &no_funds(), Some(s(SHARES_HOLDER_ACCOUNT_1)), Some(2), now)
        .unwrap();
    assert_eq!(env.court.user_active_proposals(&s(SHARES_HOLDER_ACCOUNT_1)), vec![2]);
    assert_eq!(env.court.user_vote(0, &s(SHARES_HOLDER_ACCOUNT_1)).active_votes, 0);
    assert_eq!(env.court.user_vote(2, &s(SHARES_HOLDER_ACCOUNT_1)).active_votes, 100000);
    assert_eq!(env.court.unstake(s(SHARES_HOLDER_ACCOUNT_1), &no_funds()), Err(CourtContractError::VotesActive));
    execute_deactivate_votes(&mut env, SHARES_HOLDER_ACCOUNT_1);
    assert_eq!(env.court.unstake(s(SHARES_HOLDER_ACCOUNT_1), &no_funds()), Ok(100000));
}

// ---- execution ----

fn execute_create_guaranteed_passing_proposal(env: &mut Env, msgs: Vec<ProposedCourtMsg>, secs: u32, voter_for: &str) -> u32 {
    let supply = env.court.total_supply();
    let pass = env.court.config().minimum_vote_pass_percent as u128;
    execute_stake_exact_amount(env, voter_for, (supply * pass).div_ceil(100));
    execute_propose_transaction(env, voter_for, msgs, secs)
}

#[test]
fn execute_proposal_unfunded_check() {
    let mut env = new_env_and_instantiate();
    let id = execute_create_guaranteed_passing_proposal(&mut env, vec![send_coin_msg()], 420, SHARES_HOLDER_ACCOUNT_1);
    let now = env.now_ms;
    let r = env.court.execute_proposal(&coins(1337, "usei"), id, now);
    assert!(is_payment_error(&r));
    assert_eq!(status(&env, id), TransactionProposalStatus::Passed);
}

#[test]
fn permissionless_execution_check() {
    let mut env = new_env_and_instantiate();
    let id = execute_create_guaranteed_passing_proposal(&mut env, vec![send_coin_msg()], 420, SHARES_HOLDER_ACCOUNT_1);
    assert_eq!(status(&env, id), TransactionProposalStatus::Passed);
    let now = env.now_ms;
    env.court.execute_proposal(&no_funds(), id, now).unwrap();
    assert_eq!(status(&env, id), TransactionProposalStatus::Executed);
    assert_eq!(
        env.court.proposal(id).unwrap().execution_status(),
        TransactionProposalExecutionStatus::Executed
    );
    assert_eq!(env.court.proposal_messages(id).unwrap(), &vec![send_coin_msg()]);
}

#[test]
fn mint_proposals_work() {
    let mut env = new_env_and_instantiate();
    let new_token_supply = env.court.total_supply() + 1337;
    let id = execute_create_guaranteed_passing_proposal(
        &mut env,
        vec![ProposedCourtMsg::TokenfactoryMint { tokens: BorshableCoin { denom: s(VOTES_DENOM), amount: 1337 } }],
        420,
        SHARES_HOLDER_ACCOUNT_1,
    );
    assert_eq!(status(&env, id), TransactionProposalStatus::Passed);
    let now = env.now_ms;
    env.court.execute_proposal(&no_funds(), id, now).unwrap();
    assert_eq!(env.court.total_supply(), new_token_supply);
}

#[test]
fn mint_of_other_denom_leaves_supply() {
    let mut env = new_env_and_instantiate();
    let id = execute_create_guaranteed_passing_proposal(
        &mut env,
        vec![ProposedCourtMsg::TokenfactoryMint { tokens: BorshableCoin { denom: s("factory/other/votes"), amount: 1337 } }],
        420,
        SHARES_HOLDER_ACCOUNT_1,
    );
    let now = env.now_ms;
    env.court.execute_proposal(&no_funds(), id, now).unwrap();
    assert_eq!(env.court.total_supply(), 1000000);
}

#[test]
fn prevent_mint_proposal_overflow() {
    let mut env = new_env_and_instantiate();
    let tokens_to_mint = u128::MAX.div_ceil(10000).saturating_sub(env.court.total_supply()) + 1;
    let id = execute_create_guaranteed_passing_proposal(
        &mut env,
        vec![ProposedCourtMsg::TokenfactoryMint { tokens: BorshableCoin { denom: s(VOTES_DENOM), amount: tokens_to_mint } }],
        420,
        SHARES_HOLDER_ACCOUNT_1,
    );
    assert_eq!(status(&env, id), TransactionProposalStatus::Passed);
    let now = env.now_ms;
    assert_eq!(env.court.execute_proposal(&no_funds(), id, now), Err(CourtContractError::TooManyVotesToMint));
    assert_eq!(status(&env, id), TransactionProposalStatus::Passed);
    advance_time_to_execution_expiry(&mut env, id);
    execute_deactivate_votes(&mut env, SHARES_HOLDER_ACCOUNT_1);
}

#[test]
fn execute_twice_fails_without_effect() {
    let mut env = new_env_and_instantiate();
    let id = execute_create_guaranteed_passing_proposal(
        &mut env,
        vec![ProposedCourtMsg::TokenfactoryMint { tokens: BorshableCoin { denom: s(VOTES_DENOM), amount: 5 } }],
        420,
        SHARES_HOLDER_ACCOUNT_1,
    );
    let now = env.now_ms;
    env.court.execute_proposal(&no_funds(), id, now).unwrap();
    assert_eq!(env.court.total_supply(), 1000005);
    assert_eq!(
        env.court.execute_proposal(&no_funds(), id, now),
        Err(unexpected(TransactionProposalStatus::Passed, TransactionProposalStatus::Executed))
    );
    assert_eq!(env.court.total_supply(), 1000005);
    assert_eq!(status(&env, id), TransactionProposalStatus::Executed);
}

#[test]
fn execute_unknown_proposal() {
    let mut env = new_env_and_instantiate();
    let now = env.now_ms;
    assert_eq!(env.court.execute_proposal(&no_funds(), 3, now), Err(CourtContractError::ProposalNotFound(3)));
}

// ---- proposals ----

#[test]
fn user_propose_transaction_unfunded_check() {
    let mut env = new_env_and_instantiate();
    execute_stake_votes(&mut env, SHARES_HOLDER_ACCOUNT_1, 500000);
    let now = env.now_ms;
    let r = env.court.propose_transaction(s(SHARES_HOLDER_ACCOUNT_1), &coins(1337, "usei"), vec![send_coin_msg()], 86400, now);
    assert!(is_payment_error(&r));
    assert_eq!(env.court.proposal_amount(), 0);
}

#[test]
fn non_empty_check() {
    let mut env = new_env_and_instantiate();
    execute_stake_votes(&mut env, SHARES_HOLDER_ACCOUNT_1, 500000);
    let now = env.now_ms;
    let r = env.court.propose_transaction(s(SHARES_HOLDER_ACCOUNT_1), &no_funds(), vec![], 86400, now);
    assert_eq!(r, Err(CourtContractError::EmptyProposal));
}

#[test]
fn expire_time_check() {
    let mut env = new_env_and_instantiate();
    assert_eq!(env.court.config().minimum_vote_proposal_percent, 10);
    assert_eq!(env.court.config().max_proposal_expiry_time_seconds, 7200);
    assert_eq!(env.court.total_supply(), 1000000);
    execute_stake_votes(&mut env, SHARES_HOLDER_ACCOUNT_1, 500000);
    let now = env.now_ms;
    let r = env.court.propose_transaction(s(SHARES_HOLDER_ACCOUNT_1), &no_funds(), vec![send_coin_msg()], 7201, now);
    assert_eq!(r, Err(CourtContractError::ProposalLivesTooLong));
    execute_propose_transaction(&mut env, SHARES_HOLDER_ACCOUNT_1, vec![send_coin_msg()], 7200);
}

#[test]
fn minimum_vote_check() {
    let mut env = new_env_and_instantiate();
    assert_eq!(env.court.config().minimum_vote_proposal_percent, 10);
    assert_eq!(env.court.config().max_proposal_expiry_time_seconds, 7200);
    assert_eq!(env.court.total_supply(), 1000000);
    execute_stake_votes(&mut env, SHARES_HOLDER_ACCOUNT_1, 99999);
    let now = env.now_ms;
    let r = env.court.propose_transaction(s(SHARES_HOLDER_ACCOUNT_1), &no_funds(), vec![send_coin_msg()], 1200, now);
    assert_eq!(r, Err(CourtContractError::InsufficientVotesForProposal));
    execute_stake_votes(&mut env, SHARES_HOLDER_ACCOUNT_1, 1);
    execute_propose_transaction(&mut env, SHARES_HOLDER_ACCOUNT_1, vec![send_coin_msg()], 1200);

    let info = env.court.proposal(0).unwrap();
    assert_eq!(info.proposer, SHARES_HOLDER_ACCOUNT_1);
    assert_eq!(info.votes_for, 100000);
    assert_eq!(info.votes_against, 0);
    assert_eq!(info.votes_abstain, 0);
    assert_eq!(info.execution_status, TransactionProposalExecutionStatus::NotExecuted);
    assert_eq!(info.expiry_timestamp_ms, START_MS + 1200 * 1000);
    assert_eq!(status(&env, 0), TransactionProposalStatus::Pending);
    assert_eq!(env.court.proposal_messages(0).unwrap(), &vec![send_coin_msg()]);
    assert_eq!(env.court.proposal_amount(), 1);
    assert_eq!(env.court.user_active_proposals(&s(SHARES_HOLDER_ACCOUNT_1)), vec![0]);
    assert_eq!(env.court.user_active_proposals(&s(SHARES_HOLDER_ACCOUNT_2)), Vec::<u32>::new());
    assert_eq!(
        env.court.user_vote(0, &s(SHARES_HOLDER_ACCOUNT_1)),
        CourtUserVoteInfo { active_votes: 100000, vote: CourtUserVoteStatus::Approve }
    );
    assert_eq!(
        env.court.user_vote(0, &s(SHARES_HOLDER_ACCOUNT_2)),
        CourtUserVoteInfo { active_votes: 0, vote: CourtUserVoteStatus::Abstain }
    );
    assert_eq!(
        env.court.user_vote(1, &s(SHARES_HOLDER_ACCOUNT_1)),
        CourtUserVoteInfo { active_votes: 0, vote: CourtUserVoteStatus::Abstain }
    );
}

#[test]
fn proposal_pages() {
    let mut env = new_env_and_instantiate();
    execute_stake_votes(&mut env, SHARES_HOLDER_ACCOUNT_1, 100000);
    for _ in 0..4 {
        execute_propose_transaction(&mut env, SHARES_HOLDER_ACCOUNT_1, vec![send_coin_msg()], 1200);
    }
    assert_eq!(env.court.proposal_ids(None, None, false), vec![0, 1, 2, 3]);
    assert_eq!(env.court.proposal_ids(None, None, true), vec![3, 2, 1, 0]);
    assert_eq!(env.court.proposal_ids(Some(1), Some(2), false), vec![1, 2]);
    assert_eq!(env.court.proposal_ids(Some(1), Some(2), true), vec![2, 1]);
    assert_eq!(env.court.proposal_ids(Some(9), None, false), Vec::<u32>::new());
}

#[test]
fn user_vote_only_shares_check() {
    let mut env = new_env_and_instantiate();
    execute_stake_votes(&mut env, SHARES_HOLDER_ACCOUNT_1, 100000);
    execute_propose_transaction(&mut env, SHARES_HOLDER_ACCOUNT_1, vec![send_coin_msg()], 1200);
    let now = env.now_ms;
    let r = env.court.vote(s(SHARES_HOLDER_ACCOUNT_2), &no_funds(), 0, CourtUserVoteStatus::Approve, now);
    assert_eq!(r, Err(CourtContractError::NoStakedVotes));
}

// ---- staking ----

#[test]
fn correct_tokens_check() {
    let mut env = new_env_and_instantiate();
    let who = s(SHARES_HOLDER_ACCOUNT_1);
    assert_eq!(env.court.stake(who.clone(), &no_funds()), Err(CourtContractError::PaymentError(PaymentError::NoFunds)));
    assert_eq!(
        env.court.stake(who.clone(), &coins(1, "usei")),
        Err(CourtContractError::PaymentError(PaymentError::MissingDenom(s(VOTES_DENOM))))
    );
    let two = vec![
        BorshableCoin { denom: s(VOTES_DENOM), amount: 1 },
        BorshableCoin { denom: s("usei"), amount: 1 },
    ];
    assert_eq!(env.court.stake(who.clone(), &two), Err(CourtContractError::PaymentError(PaymentError::MultipleDenoms)));
    assert_eq!(env.court.stake(who.clone(), &coins(0, VOTES_DENOM)), Err(CourtContractError::PaymentError(PaymentError::NoFunds)));
    assert_eq!(env.court.stake_of(&who), 0);
    assert_eq!(env.court.stake(who.clone(), &coins(7, VOTES_DENOM)), Ok(7));
}

#[test]
fn info_updated() {
    let mut env = new_env_and_instantiate();
    assert_eq!(env.court.stake(s(RANDOM_ACCOUNT_1), &coins(31337, VOTES_DENOM)), Ok(31337));
    assert_eq!(env.court.stake_of(&s(RANDOM_ACCOUNT_1)), 31337);
    assert_eq!(env.court.stake(s(RANDOM_ACCOUNT_1), &coins(8663, VOTES_DENOM)), Ok(40000));
    assert_eq!(env.court.stake_of(&s(RANDOM_ACCOUNT_1)), 40000);
    assert_eq!(env.court.stake_of(&s(RANDOM_ACCOUNT_2)), 0);
}

#[test]
fn stake_overflow_is_an_error() {
    let mut env = new_env_and_instantiate();
    env.court.stake(s(RANDOM_ACCOUNT_1), &coins(u128::MAX, VOTES_DENOM)).unwrap();
    assert_eq!(env.court.stake(s(RANDOM_ACCOUNT_1), &coins(1, VOTES_DENOM)), Err(CourtContractError::Overflow));
    assert_eq!(env.court.stake_of(&s(RANDOM_ACCOUNT_1)), u128::MAX);
}

#[test]
fn user_unstake_votes_unfunded_check() {
    let mut env = new_env_and_instantiate();
    execute_stake_votes(&mut env, RANDOM_ACCOUNT_1, 5);
    let r = env.court.unstake(s(RANDOM_ACCOUNT_1), &coins(5, VOTES_DENOM));
    assert!(is_payment_error(&r));
    assert_eq!(env.court.stake_of(&s(RANDOM_ACCOUNT_1)), 5);
}

#[test]
fn user_unstake_votes_must_have_staked_check() {
    let mut env = new_env_and_instantiate();
    assert_eq!(env.court.unstake(s(RANDOM_ACCOUNT_1), &no_funds()), Err(CourtContractError::NoStakedVotes));
}

#[test]
fn user_unstake_votes_only_when_not_in_pending_proposals() {
    let mut env = new_env_and_instantiate();
    execute_stake_votes(&mut env, SHARES_HOLDER_ACCOUNT_1, 100000);
    execute_propose_transaction(&mut env, SHARES_HOLDER_ACCOUNT_1, vec![send_coin_msg()], 1200);
    assert_eq!(env.court.unstake(s(SHARES_HOLDER_ACCOUNT_1), &no_funds()), Err(CourtContractError::VotesActive));
    assert_eq!(env.court.stake_of(&s(SHARES_HOLDER_ACCOUNT_1)), 100000);
    advance_time_to_vote_end(&mut env, 0);
    execute_deactivate_votes(&mut env, SHARES_HOLDER_ACCOUNT_1);
    assert_eq!(env.court.unstake(s(SHARES_HOLDER_ACCOUNT_1), &no_funds()), Ok(100000));
}

#[test]
fn user_unstake_votes_tokens_actually_returned() {
    let mut env = new_env_and_instantiate();
    execute_stake_votes(&mut env, RANDOM_ACCOUNT_1, 2147);
    execute_stake_votes(&mut env, RANDOM_ACCOUNT_1, 2563);
    assert_eq!(env.court.stake_of(&s(RANDOM_ACCOUNT_1)), 4710);
    assert_eq!(env.court.unstake(s(RANDOM_ACCOUNT_1), &no_funds()), Ok(4710));
    assert_eq!(env.court.stake_of(&s(RANDOM_ACCOUNT_1)), 0);
    execute_stake_votes(&mut env, RANDOM_ACCOUNT_1, 567);
    execute_stake_votes(&mut env, RANDOM_ACCOUNT_1, 2531);
    assert_eq!(env.court.unstake(s(RANDOM_ACCOUNT_1), &no_funds()), Ok(3098));
    assert_eq!(env.court.stake_of(&s(RANDOM_ACCOUNT_1)), 0);
}

// ---- voting ----

#[test]
fn user_vote_unfunded_check() {
    let mut env = new_env_and_instantiate();
    execute_stake_votes(&mut env, SHARES_HOLDER_ACCOUNT_1, 140000);
    execute_stake_votes(&mut env, SHARES_HOLDER_ACCOUNT_2, 110000);
    execute_propose_transaction(&mut env, SHARES_HOLDER_ACCOUNT_1, vec![send_coin_msg()], 1200);
    let now = env.now_ms;
    let r = env.court.vote(s(SHARES_HOLDER_ACCOUNT_2), &coins(1337, "usei"), 0, CourtUserVoteStatus::Oppose, now);
    assert!(is_payment_error(&r));
    execute_vote(&mut env, SHARES_HOLDER_ACCOUNT_2, 0, CourtUserVoteStatus::Oppose);
    execute_propose_transaction(&mut env, SHARES_HOLDER_ACCOUNT_1, vec![send_coin_msg()], 1200);
    let r = env.court.vote(s(SHARES_HOLDER_ACCOUNT_2), &coins(1337, "usei"), 1, CourtUserVoteStatus::Oppose, now);
    assert!(is_payment_error(&r));
    execute_vote(&mut env, SHARES_HOLDER_ACCOUNT_2, 1, CourtUserVoteStatus::Oppose);
}

#[test]
fn vote_on_proposals_which_exist() {
    let mut env = new_env_and_instantiate();
    execute_stake_votes(&mut env, SHARES_HOLDER_ACCOUNT_1, 140000);
    execute_stake_votes(&mut env, SHARES_HOLDER_ACCOUNT_2, 110000);
    let now = env.now_ms;
    for id in [0u32, 1, 69420] {
        let r = env.court.vote(s(SHARES_HOLDER_ACCOUNT_2), &no_funds(), id, CourtUserVoteStatus::Oppose, now);
        assert_eq!(r, Err(CourtContractError::ProposalNotFound(id)));
    }
    execute_propose_transaction(&mut env, SHARES_HOLDER_ACCOUNT_1, vec![send_coin_msg()], 1200);
    execute_vote(&mut env, SHARES_HOLDER_ACCOUNT_2, 0, CourtUserVoteStatus::Oppose);
    let r = env.court.vote(s(SHARES_HOLDER_ACCOUNT_2), &no_funds(), 1, CourtUserVoteStatus::Oppose, now);
    assert_eq!(r, Err(CourtContractError::ProposalNotFound(1)));
    execute_propose_transaction(&mut env, SHARES_HOLDER_ACCOUNT_1, vec![send_coin_msg()], 1200);
    execute_vote(&mut env, SHARES_HOLDER_ACCOUNT_2, 1, CourtUserVoteStatus::Oppose);
    let r = env.court.vote(s(SHARES_HOLDER_ACCOUNT_2), &no_funds(), 2, CourtUserVoteStatus::Oppose, now);
    assert_eq!(r, Err(CourtContractError::ProposalNotFound(2)));
}

#[test]
fn cannot_vote_past_expiry() {
    let mut env = new_env_and_instantiate();
    execute_stake_votes(&mut env, SHARES_HOLDER_ACCOUNT_1, 140000);
    execute_stake_votes(&mut env, SHARES_HOLDER_ACCOUNT_2, 110000);
    execute_propose_transaction(&mut env, SHARES_HOLDER_ACCOUNT_1, vec![send_coin_msg()], 1200);
    env.now_ms += 1200 * 1000;
    let now = env.now_ms;
    let r = env.court.vote(s(SHARES_HOLDER_ACCOUNT_2), &no_funds(), 0, CourtUserVoteStatus::Oppose, now);
    assert!(matches!(
        r,
        Err(CourtContractError::UnexpectedProposalStatus { expected: TransactionProposalStatus::Pending, .. })
    ));
    env.now_ms -= 1000;
    execute_vote(&mut env, SHARES_HOLDER_ACCOUNT_2, 0, CourtUserVoteStatus::Oppose);
    execute_stake_votes(&mut env, SHARES_HOLDER_ACCOUNT_1, 100000);
    execute_propose_transaction(&mut env, SHARES_HOLDER_ACCOUNT_1, vec![send_coin_msg()], 6200);
    env.now_ms += 6200 * 1000;
    let now = env.now_ms;
    let r = env.court.vote(s(SHARES_HOLDER_ACCOUNT_2), &no_funds(), 1, CourtUserVoteStatus::Oppose, now);
    assert!(matches!(
        r,
        Err(CourtContractError::UnexpectedProposalStatus { expected: TransactionProposalStatus::Pending, .. })
    ));
}

/// A config under which two holders of 14% and 11% of the supply cannot
/// settle a proposal early: the turnout threshold is 30%.
fn new_env_high_turnout() -> Env {
    let court = CourtState::new(
        &no_funds(),
        s(ADMIN_ACCOUNT),
        s(CONTRACT_ACCOUNT),
        s(VOTES_DENOM),
        1000000,
        10,
        30,
        50,
        7200,
        3600,
        START_MS,
    )
    .unwrap();
    Env { court, now_ms: START_MS }
}

fn tallies(env: &Env, id: u32) -> (u128, u128, u128) {
    let p = env.court.proposal(id).unwrap();
    (p.votes_for, p.votes_against, p.votes_abstain)
}

#[test]
fn vote_moves_weight_between_tallies() {
    let mut env = new_env_high_turnout();
    execute_stake_votes(&mut env, SHARES_HOLDER_ACCOUNT_1, 140000);
    execute_stake_votes(&mut env, SHARES_HOLDER_ACCOUNT_2, 110000);
    execute_propose_transaction(&mut env, SHARES_HOLDER_ACCOUNT_1, vec![send_coin_msg()], 1200);
    execute_vote(&mut env, SHARES_HOLDER_ACCOUNT_2, 0, CourtUserVoteStatus::Oppose);
    assert_eq!(tallies(&env, 0), (140000, 110000, 0));
    execute_vote(&mut env, SHARES_HOLDER_ACCOUNT_2, 0, CourtUserVoteStatus::Abstain);
    assert_eq!(tallies(&env, 0), (140000, 0, 110000));
    execute_vote(&mut env, SHARES_HOLDER_ACCOUNT_2, 0, CourtUserVoteStatus::Approve);
    assert_eq!(tallies(&env, 0), (250000, 0, 0));
    let now = env.now_ms;
    let r = env.court.vote(s(SHARES_HOLDER_ACCOUNT_2), &no_funds(), 0, CourtUserVoteStatus::Approve, now);
    assert_eq!(r, Err(CourtContractError::AlreadyVoted));
    execute_vote(&mut env, SHARES_HOLDER_ACCOUNT_1, 0, CourtUserVoteStatus::Oppose);
    assert_eq!(tallies(&env, 0), (110000, 140000, 0));
    assert_eq!(status(&env, 0), TransactionProposalStatus::Pending);
}

#[test]
fn revote_counts_increased_stake() {
    let mut env = new_env_high_turnout();
    execute_stake_votes(&mut env, SHARES_HOLDER_ACCOUNT_1, 140000);
    execute_stake_votes(&mut env, SHARES_HOLDER_ACCOUNT_2, 110000);
    execute_propose_transaction(&mut env, SHARES_HOLDER_ACCOUNT_1, vec![send_coin_msg()], 1200);
    execute_vote(&mut env, SHARES_HOLDER_ACCOUNT_2, 0, CourtUserVoteStatus::Oppose);
    execute_stake_votes(&mut env, SHARES_HOLDER_ACCOUNT_2, 10000);
    assert_eq!(tallies(&env, 0), (140000, 110000, 0));
    execute_vote(&mut env, SHARES_HOLDER_ACCOUNT_2, 0, CourtUserVoteStatus::Oppose);
    assert_eq!(tallies(&env, 0), (140000, 120000, 0));
    let (f, a, b) = tallies(&env, 0);
    let weights = env.court.user_vote(0, &s(SHARES_HOLDER_ACCOUNT_1)).active_votes
        + env.court.user_vote(0, &s(SHARES_HOLDER_ACCOUNT_2)).active_votes;
    assert_eq!(f + a + b, weights);
}

// ---- statuses ----

#[test]
fn proposal_threshold_at_exact_percentage() {
    let mut env = new_env_and_instantiate();
    assert_eq!(env.court.total_supply(), 1000000);
    execute_stake_votes(&mut env, SHARES_HOLDER_ACCOUNT_1, 99999);
    let now = env.now_ms;
    let r = env.court.propose_transaction(s(SHARES_HOLDER_ACCOUNT_1), &no_funds(), vec![send_coin_msg()], 1200, now);
    assert_eq!(r, Err(CourtContractError::InsufficientVotesForProposal));
    execute_stake_votes(&mut env, SHARES_HOLDER_ACCOUNT_1, 1);
    assert_eq!(execute_propose_transaction(&mut env, SHARES_HOLDER_ACCOUNT_1, vec![send_coin_msg()], 1200), 0);
    assert_eq!(tallies(&env, 0), (100000, 0, 0));
}

#[test]
fn abstentions_count_towards_turnout() {
    let court = CourtState::new(
        &no_funds(),
        s(ADMIN_ACCOUNT),
        s(CONTRACT_ACCOUNT),
        s(VOTES_DENOM),
        1000000,
        0,
        20,
        50,
        7200,
        3600,
        START_MS,
    )
    .unwrap();
    let mut env = Env { court, now_ms: START_MS };
    execute_stake_votes(&mut env, SHARES_HOLDER_ACCOUNT_2, 1);
    execute_stake_votes(&mut env, SHARES_HOLDER_ACCOUNT_1, 999999);
    execute_propose_transaction(&mut env, SHARES_HOLDER_ACCOUNT_2, vec![send_coin_msg()], 420);
    assert_eq!(status(&env, 0), TransactionProposalStatus::Pending);
    execute_vote(&mut env, SHARES_HOLDER_ACCOUNT_1, 0, CourtUserVoteStatus::Abstain);
    assert_eq!(tallies(&env, 0), (1, 0, 999999));
    advance_time_to_vote_end(&mut env, 0);
    assert_eq!(status(&env, 0), TransactionProposalStatus::Passed);
    let now = env.now_ms;
    env.court.execute_proposal(&no_funds(), 0, now).unwrap();
}

#[test]
fn only_abstentions_cannot_pass() {
    let court = CourtState::new(
        &no_funds(),
        s(ADMIN_ACCOUNT),
        s(CONTRACT_ACCOUNT),
        s(VOTES_DENOM),
        1000000,
        0,
        20,
        50,
        7200,
        3600,
        START_MS,
    )
    .unwrap();
    let mut env = Env { court, now_ms: START_MS };
    execute_stake_votes(&mut env, SHARES_HOLDER_ACCOUNT_1, 200000);
    execute_propose_transaction(&mut env, SHARES_HOLDER_ACCOUNT_1, vec![send_coin_msg()], 420);
    assert_eq!(status(&env, 0), TransactionProposalStatus::Passed);
    let mut env2 = new_env_high_turnout();
    execute_stake_votes(&mut env2, SHARES_HOLDER_ACCOUNT_1, 200000);
    execute_propose_transaction(&mut env2, SHARES_HOLDER_ACCOUNT_1, vec![send_coin_msg()], 420);
    execute_vote(&mut env2, SHARES_HOLDER_ACCOUNT_1, 0, CourtUserVoteStatus::Abstain);
    advance_time_to_vote_end(&mut env2, 0);
    assert_eq!(status(&env2, 0), TransactionProposalStatus::Rejected);
    let now = env2.now_ms;
    assert_eq!(
        env2.court.execute_proposal(&no_funds(), 0, now),
        Err(unexpected(TransactionProposalStatus::Passed, TransactionProposalStatus::Rejected))
    );
}

#[test]
fn early_pass_closes_voting() {
    let mut env = new_env_and_instantiate();
    execute_stake_votes(&mut env, SHARES_HOLDER_ACCOUNT_1, 140000);
    execute_stake_votes(&mut env, SHARES_HOLDER_ACCOUNT_2, 110000);
    execute_stake_votes(&mut env, RANDOM_ACCOUNT_1, 5);
    execute_propose_transaction(&mut env, SHARES_HOLDER_ACCOUNT_1, vec![send_coin_msg()], 1200);
    assert_eq!(status(&env, 0), TransactionProposalStatus::Pending);
    execute_vote(&mut env, SHARES_HOLDER_ACCOUNT_2, 0, CourtUserVoteStatus::Oppose);
    assert!(env.now_ms < env.court.proposal(0).unwrap().expiry_timestamp_ms);
    assert_eq!(status(&env, 0), TransactionProposalStatus::Passed);
    let now = env.now_ms;
    let r = env.court.vote(s(RANDOM_ACCOUNT_1), &no_funds(), 0, CourtUserVoteStatus::Oppose, now);
    assert_eq!(r, Err(unexpected(TransactionProposalStatus::Pending, TransactionProposalStatus::Passed)));
}

#[test]
fn passed_proposal_expires_unexecuted() {
    let mut env = new_env_and_instantiate();
    execute_stake_votes(&mut env, SHARES_HOLDER_ACCOUNT_1, 500000);
    execute_propose_transaction(&mut env, SHARES_HOLDER_ACCOUNT_1, vec![send_coin_msg()], 420);
    let expiry = env.court.proposal(0).unwrap().expiry_timestamp_ms;
    env.now_ms = expiry + 3600 * 1000;
    assert_eq!(status(&env, 0), TransactionProposalStatus::Passed);
    env.now_ms += 1;
    assert_eq!(status(&env, 0), TransactionProposalStatus::ExecutionExpired);
    assert!(status(&env, 0).is_finalized());
    let now = env.now_ms;
    assert_eq!(
        env.court.execute_proposal(&no_funds(), 0, now),
        Err(unexpected(TransactionProposalStatus::Passed, TransactionProposalStatus::ExecutionExpired))
    );
    execute_deactivate_votes(&mut env, SHARES_HOLDER_ACCOUNT_1);
    assert!(!env.court.user_has_active_votes(&s(SHARES_HOLDER_ACCOUNT_1)));
}

#[test]
fn config_change_rejects_expired_proposals() {
    let mut env = new_env_and_instantiate();
    execute_stake_votes(&mut env, SHARES_HOLDER_ACCOUNT_1, 500000);
    execute_propose_transaction(&mut env, SHARES_HOLDER_ACCOUNT_1, vec![send_coin_msg()], 420);
    advance_time_to_execution_expiry(&mut env, 0);
    execute_deactivate_votes(&mut env, SHARES_HOLDER_ACCOUNT_1);
    assert_eq!(status(&env, 0), TransactionProposalStatus::ExecutionExpired);
    change_nothing(&mut env, ADMIN_ACCOUNT, &no_funds()).unwrap();
    assert_eq!(status(&env, 0), TransactionProposalStatus::Rejected);
}

#[test]
fn status_is_repeatable() {
    let mut env = new_env_and_instantiate();
    execute_stake_votes(&mut env, SHARES_HOLDER_ACCOUNT_1, 150000);
    execute_propose_transaction(&mut env, SHARES_HOLDER_ACCOUNT_1, vec![send_coin_msg()], 600);
    let p = env.court.proposal(0).unwrap();
    let config = env.court.config();
    for now in [START_MS, START_MS + 600_000, START_MS + 10_000_000] {
        let first = p.status(now, 1000000, config);
        assert_eq!(p.status(now, 1000000, config), first);
    }
    assert_eq!(p.status(START_MS, 1000000, config), TransactionProposalStatus::Pending);
    assert_eq!(p.status(START_MS + 600_000, 1000000, config), TransactionProposalStatus::Rejected);
    assert_eq!(p.status(START_MS, 700000, config), TransactionProposalStatus::Passed);
}

#[test]
fn status_names() {
    assert_eq!(TransactionProposalStatus::Pending.as_str(), "pending");
    assert_eq!(TransactionProposalStatus::ExecutionExpired.as_str(), "execution_expired");
    assert_eq!(
        TransactionProposalStatus::Executed.enforce_status(TransactionProposalStatus::Passed),
        Err(unexpected(TransactionProposalStatus::Passed, TransactionProposalStatus::Executed))
    );
    assert_eq!(TransactionProposalStatus::Passed.enforce_status(TransactionProposalStatus::Passed), Ok(()));
}

#[test]
fn multiple() {
    let mut env = new_env_and_instantiate();
    assert_eq!(env.court.config().minimum_vote_proposal_percent, 10);
    assert_eq!(env.court.config().max_proposal_expiry_time_seconds, 7200);
    assert_eq!(env.court.total_supply(), 1000000);
    execute_stake_votes(&mut env, SHARES_HOLDER_ACCOUNT_1, 100000);
    execute_stake_votes(&mut env, SHARES_HOLDER_ACCOUNT_2, 150000);
    let send = |to: &str, amount: u128| ProposedCourtMsg::SendCoin { to: s(to), denom: s("usei"), amount };
    execute_propose_transaction(&mut env, SHARES_HOLDER_ACCOUNT_1, vec![send(RANDOM_ACCOUNT_1, 1337)], 1200);
    execute_propose_transaction(&mut env, SHARES_HOLDER_ACCOUNT_1, vec![send(RANDOM_ACCOUNT_5, 1338)], 1300);
    execute_propose_transaction(&mut env, SHARES_HOLDER_ACCOUNT_2, vec![send(RANDOM_ACCOUNT_2, 1339)], 1400);

    let expected = [
        (SHARES_HOLDER_ACCOUNT_1, 100000u128, 1200u64, send(RANDOM_ACCOUNT_1, 1337)),
        (SHARES_HOLDER_ACCOUNT_1, 100000u128, 1300u64, send(RANDOM_ACCOUNT_5, 1338)),
        (SHARES_HOLDER_ACCOUNT_2, 150000u128, 1400u64, send(RANDOM_ACCOUNT_2, 1339)),
    ];
    for (id, (proposer, votes, secs, msg)) in expected.iter().enumerate() {
        let id = id as u32;
        let info = env.court.proposal(id).unwrap();
        assert_eq!(info.proposer, *proposer);
        assert_eq!((info.votes_for, info.votes_against, info.votes_abstain), (*votes, 0, 0));
        assert_eq!(info.execution_status, TransactionProposalExecutionStatus::NotExecuted);
        assert_eq!(info.expiry_timestamp_ms, START_MS + secs * 1000);
        assert_eq!(status(&env, id), TransactionProposalStatus::Pending);
        assert_eq!(env.court.proposal_messages(id).unwrap(), &vec![msg.clone()]);
        let voters = env.court.proposal_voters(id, None, None);
        assert_eq!(voters.len(), 1);
        assert_eq!(voters[0].user, *proposer);
        assert_eq!(voters[0].info, CourtUserVoteInfo { active_votes: *votes, vote: CourtUserVoteStatus::Approve });
    }

    assert_eq!(env.court.proposal_ids(None, None, false), vec![0, 1, 2]);
    assert_eq!(env.court.proposal_ids(Some(1), Some(1), false), vec![1]);
    assert_eq!(env.court.proposal_ids(None, None, true), vec![2, 1, 0]);
    assert_eq!(env.court.proposal_ids(Some(2), None, true), vec![0]);
    assert_eq!(env.court.proposal_amount(), 3);

    let h1 = s(SHARES_HOLDER_ACCOUNT_1);
    let h2 = s(SHARES_HOLDER_ACCOUNT_2);
    assert_eq!(env.court.user_active_proposals_page(&h1, None, None, false), vec![0, 1]);
    assert_eq!(env.court.user_active_proposals_page(&h2, None, None, false), vec![2]);
    assert_eq!(env.court.user_active_proposals_page(&h1, None, Some(1), false), vec![0]);
    assert_eq!(env.court.user_active_proposals_page(&h1, None, Some(1), true), vec![1]);
    assert_eq!(env.court.user_active_proposals_page(&h1, Some(1), None, false), vec![1]);
    assert_eq!(env.court.user_active_proposals_page(&h1, Some(1), None, true), vec![0]);

    assert_eq!(
        env.court.users_with_active_proposals(None, None, false),
        vec![(h1.clone(), 0), (h1.clone(), 1), (h2.clone(), 2)]
    );
    assert_eq!(
        env.court.users_with_active_proposals(None, None, true),
        vec![(h2.clone(), 2), (h1.clone(), 1), (h1.clone(), 0)]
    );
    assert_eq!(env.court.users_with_active_proposals(None, Some(1), false), vec![(h1.clone(), 0)]);
    assert_eq!(
        env.court.users_with_active_proposals(Some((h1.clone(), 0)), None, false),
        vec![(h1.clone(), 1), (h2.clone(), 2)]
    );
    assert_eq!(env.court.users_with_active_proposals(Some((h2.clone(), 2)), Some(1), true), vec![(h1.clone(), 1)]);

    let vote = |active_votes: u128, vote: CourtUserVoteStatus| CourtUserVoteInfo { active_votes, vote };
    assert_eq!(env.court.user_vote(0, &h1), vote(100000, CourtUserVoteStatus::Approve));
    assert_eq!(env.court.user_vote(0, &h2), vote(0, CourtUserVoteStatus::Abstain));
    assert_eq!(env.court.user_vote(1, &h1), vote(100000, CourtUserVoteStatus::Approve));
    assert_eq!(env.court.user_vote(1, &h2), vote(0, CourtUserVoteStatus::Abstain));
    assert_eq!(env.court.user_vote(2, &h1), vote(0, CourtUserVoteStatus::Abstain));
    assert_eq!(env.court.user_vote(2, &h2), vote(150000, CourtUserVoteStatus::Approve));
}

#[test]
fn proposal_voters_pages() {
    let mut env = new_env_high_turnout();
    execute_stake_votes(&mut env, SHARES_HOLDER_ACCOUNT_1, 100000);
    execute_stake_votes(&mut env, SHARES_HOLDER_ACCOUNT_2, 20000);
    execute_stake_votes(&mut env, RANDOM_ACCOUNT_1, 30000);
    execute_propose_transaction(&mut env, SHARES_HOLDER_ACCOUNT_1, vec![send_coin_msg()], 1200);
    execute_vote(&mut env, SHARES_HOLDER_ACCOUNT_2, 0, CourtUserVoteStatus::Oppose);
    execute_vote(&mut env, RANDOM_ACCOUNT_1, 0, CourtUserVoteStatus::Abstain);
    let users = |v: Vec<court_coordinator::user::VoteEntry>| v.into_iter().map(|e| e.user).collect::<Vec<_>>();
    assert_eq!(
        users(env.court.proposal_voters(0, None, None)),
        vec![s(SHARES_HOLDER_ACCOUNT_1), s(SHARES_HOLDER_ACCOUNT_2), s(RANDOM_ACCOUNT_1)]
    );
    let h1 = s(SHARES_HOLDER_ACCOUNT_1);
    assert_eq!(users(env.court.proposal_voters(0, Some(&h1), Some(1))), vec![s(SHARES_HOLDER_ACCOUNT_2)]);
    assert_eq!(users(env.court.proposal_voters(0, Some(&s(RANDOM_ACCOUNT_5)), None)), Vec::<String>::new());
    assert_eq!(users(env.court.proposal_voters(7, None, None)), Vec::<String>::new());
}

#[test]
fn counted_votes_never_exceed_supply() {
    let mut env = new_env_and_instantiate();
    execute_stake_votes(&mut env, SHARES_HOLDER_ACCOUNT_1, 2000000);
    let now = env.now_ms;
    let r = env.court.propose_transaction(s(SHARES_HOLDER_ACCOUNT_1), &no_funds(), vec![send_coin_msg()], 1200, now);
    assert_eq!(r, Err(CourtContractError::VotesExceedSupply));
    execute_stake_votes(&mut env, SHARES_HOLDER_ACCOUNT_2, 100000);
    execute_propose_transaction(&mut env, SHARES_HOLDER_ACCOUNT_2, vec![send_coin_msg()], 1200);
    let r = env.court.vote(s(SHARES_HOLDER_ACCOUNT_1), &no_funds(), 0, CourtUserVoteStatus::Oppose, now);
    assert_eq!(r, Err(CourtContractError::VotesExceedSupply));
    assert_eq!(tallies(&env, 0), (100000, 0, 0));
}

#[test]
fn expiry_past_the_clock_range_is_an_error() {
    let mut env = new_env_and_instantiate();
    execute_stake_votes(&mut env, SHARES_HOLDER_ACCOUNT_1, 100000);
    let r = env.court.propose_transaction(s(SHARES_HOLDER_ACCOUNT_1), &no_funds(), vec![send_coin_msg()], 1200, u64::MAX - 1000);
    assert_eq!(r, Err(CourtContractError::Overflow));
    assert_eq!(env.court.proposal_amount(), 0);
}
