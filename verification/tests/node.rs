use devchain::app_state::{AppState, StepError, RAID_LABEL};
use devchain::challenges::all_challenges::{FibonacciChallenge, WebAppRaidChallenge};
use devchain::challenges::challenge_trait::Challenge;
use devchain::challenges::verification::{Verification, VerificationOracle};
use devchain::core_types::blockchain::{Block, Blockchain, LedgerError};
use devchain::oracle::verdict::{FailureKind, VerificationResult};
use devchain::vm::executor::Executor;

fn node_with(dev: &str) -> AppState {
    let mut state = AppState::new();
    state.ensure_profile(dev);
    state
}

fn settled(v: Verification) -> VerificationResult {
    match v {
        Verification::Settled { verdict } => verdict,
        Verification::Sandbox { job } => panic!("unexpected sandbox job for {}", job.language),
    }
}

#[test]
fn fresh_node_has_a_genesis_block_and_nobody_on_record() {
    let state = AppState::new();
    assert_eq!(state.blockchain.chain.len(), 1);
    assert!(state.blockchain.validate());
    assert!(state.profiles.is_empty());
    assert!(state.guilds.is_empty());
    assert_eq!(state.find_profile("dev"), None);
}

#[test]
fn ensure_profile_adds_a_profile_once() {
    let mut state = AppState::new();
    state.ensure_profile("dev");
    state.ensure_profile("other");
    state.ensure_profile("dev");
    assert_eq!(state.profiles.len(), 2);
    assert_eq!(state.find_profile("dev"), Some(0));
    assert_eq!(state.find_profile("other"), Some(1));
    assert_eq!(state.profiles[0].level, 1);
}

#[test]
fn solo_submission_needs_an_offered_language_and_a_known_developer() {
    let state = node_with("dev");
    let challenge = FibonacciChallenge::new();
    let refused = state.prepare_solo("dev", &challenge, "Cobol", "x");
    assert_eq!(refused.map(|s| s.code), Err(StepError::UnsupportedLanguage));
    let refused = state.prepare_solo("nobody", &challenge, "Go", "x");
    assert_eq!(refused.map(|s| s.code), Err(StepError::UnknownDeveloper));
    let refused = state.prepare_solo("nobody", &challenge, "Cobol", "x");
    assert_eq!(refused.map(|s| s.code), Err(StepError::UnsupportedLanguage));
    let solution = state.prepare_solo("dev", &challenge, "Go", "package main").expect("prepared");
    assert_eq!(solution.challenge_id, "fibonacci");
    assert_eq!(solution.language, "Go");
    assert_eq!(solution.code, "package main");
    assert_eq!(solution.author, "dev");
}

#[test]
fn accepted_solo_submission_is_mined_and_rewarded() {
    let mut state = node_with("dev");
    let challenge = FibonacciChallenge::new();
    let solution = state.prepare_solo("dev", &challenge, "Python", "code").expect("prepared");
    let verdict = VerificationResult::accept();
    let notice = state.settle("dev", challenge.reward_xp(), "Python", solution, "dev", &verdict);
    let (index, hash) = notice.expect("settled").expect("mined");
    assert_eq!(index, 1);
    assert_eq!(state.blockchain.chain.len(), 2);
    assert_eq!(hash, state.blockchain.chain[1].hash);
    assert_eq!(state.blockchain.chain[1].proof.author, "dev");
    assert_eq!(state.blockchain.chain[1].transactions[0].recipient, "dev");
    assert_eq!(state.blockchain.chain[1].transactions[0].amount, 100);
    assert!(state.blockchain.validate());
    assert_eq!((state.profiles[0].xp, state.profiles[0].level), (50, 2));
    assert_eq!(state.profiles[0].solved_languages, vec!["Python".to_string()]);
}

#[test]
fn rejected_submission_changes_nothing() {
    let mut state = node_with("dev");
    let challenge = FibonacciChallenge::new();
    let solution = state.prepare_solo("dev", &challenge, "Python", "code").expect("prepared");
    let verdict = VerificationResult::reject(FailureKind::RuntimeFailure, "exit 1");
    let notice = state.settle("dev", 150, "Python", solution, "dev", &verdict);
    assert_eq!(notice, Ok(None));
    assert_eq!(state.blockchain.chain.len(), 1);
    assert_eq!((state.profiles[0].xp, state.profiles[0].level), (0, 1));
    assert!(state.profiles[0].solved_languages.is_empty());
}

#[test]
fn settle_refuses_unknown_developer_overflow_and_invalid_chain() {
    let challenge = FibonacciChallenge::new();
    let verdict = VerificationResult::accept();

    let mut state = node_with("dev");
    let solution = state.prepare_solo("dev", &challenge, "Go", "x").expect("prepared");
    let notice = state.settle("nobody", 150, "Go", solution, "nobody", &verdict);
    assert_eq!(notice, Err(StepError::UnknownDeveloper));
    assert_eq!(state.blockchain.chain.len(), 1);

    let mut state = node_with("dev");
    state.profiles[0].xp = u32::MAX - 10;
    let solution = state.prepare_solo("dev", &challenge, "Go", "x").expect("prepared");
    let notice = state.settle("dev", 150, "Go", solution, "dev", &verdict);
    assert_eq!(notice, Err(StepError::ExperienceOverflow));
    assert_eq!(state.blockchain.chain.len(), 1);
    assert_eq!(state.profiles[0].xp, u32::MAX - 10);

    let mut state = node_with("dev");
    state.blockchain.chain[0].hash = "00".to_string();
    let solution = state.prepare_solo("dev", &challenge, "Go", "x").expect("prepared");
    let notice = state.settle("dev", 150, "Go", solution, "dev", &verdict);
    assert_eq!(notice, Err(StepError::ChainIntegrityError));
    assert_eq!(state.blockchain.chain.len(), 1);
    assert_eq!(state.profiles[0].xp, 0);
}

#[test]
fn guild_is_founded_once_per_developer() {
    let mut state = node_with("dev");
    assert_eq!(state.found_guild("nobody", "Rust Aces"), Err(StepError::UnknownDeveloper));
    assert_eq!(state.found_guild("dev", "Rust Aces"), Ok("rust-aces".to_string()));
    assert_eq!(state.profiles[0].guild_id.as_deref(), Some("rust-aces"));
    assert_eq!(state.guilds.len(), 1);
    assert_eq!(state.guilds[0].id, "rust-aces");
    assert_eq!(state.guilds[0].name, "Rust Aces");
    assert_eq!(state.guilds[0].members, vec!["dev".to_string()]);
    assert_eq!(state.found_guild("dev", "Other"), Err(StepError::AlreadyInGuild));
    assert_eq!(state.guilds.len(), 1);
}

#[test]
fn guild_with_a_known_identifier_is_replaced() {
    let mut state = node_with("dev");
    state.ensure_profile("eve");
    assert_eq!(state.found_guild("dev", "Rust Aces"), Ok("rust-aces".to_string()));
    assert_eq!(state.found_guild("eve", "RUST ACES"), Ok("rust-aces".to_string()));
    assert_eq!(state.guilds.len(), 1);
    assert_eq!(state.guilds[0].name, "RUST ACES");
    assert_eq!(state.guilds[0].members, vec!["eve".to_string()]);
}

#[test]
fn raid_needs_a_guild() {
    let mut state = node_with("dev");
    let raid = WebAppRaidChallenge::new();
    let refused = state.prepare_raid("dev", &raid, "f", "b");
    assert_eq!(refused.map(|e| e.beneficiary), Err(StepError::NoGuild));
    let refused = state.prepare_raid("nobody", &raid, "f", "b");
    assert_eq!(refused.map(|e| e.beneficiary), Err(StepError::UnknownDeveloper));
    state.found_guild("dev", "Rust Aces").expect("founded");
    let entry = state.prepare_raid("dev", &raid, "f", "b").expect("prepared");
    assert_eq!(entry.beneficiary, "rust-aces");
    assert_eq!(entry.solution.challenge_id, "web-app-raid");
    assert_eq!(entry.solution.language, "WebApp (JS/Python)");
    assert_eq!(entry.solution.code, "--FRONTEND--\nf\n--BACKEND--\nb");
    assert_eq!(entry.solution.author, "rust-aces");
    assert_eq!(entry.submissions.len(), 2);
    assert_eq!(entry.submissions[0].role, "frontend");
    assert_eq!(entry.submissions[0].solution.language, "JavaScript");
    assert_eq!(entry.submissions[0].solution.challenge_id, "webapp_frontend");
    assert_eq!(entry.submissions[0].solution.code, "f");
    assert_eq!(entry.submissions[0].solution.author, "dev");
    assert_eq!(entry.submissions[1].role, "backend");
    assert_eq!(entry.submissions[1].solution.language, "Python");
    assert_eq!(entry.submissions[1].solution.challenge_id, "webapp_backend");
    assert_eq!(entry.submissions[1].solution.code, "b");
}

#[test]
fn accepted_raid_is_mined_for_the_guild() {
    let mut state = node_with("dev");
    state.found_guild("dev", "Rust Aces").expect("founded");
    let raid = WebAppRaidChallenge::new();
    let entry = state
        .prepare_raid(
            "dev",
            &raid,
            "document.getElementById('btn').innerHTML='Hello, DevChain!';",
            "return {'status':'ok'}",
        )
        .expect("prepared");
    let verdicts: Vec<VerificationResult> = VerificationOracle::verify_raid(&raid, &entry.submissions)
        .into_iter()
        .map(settled)
        .collect();
    let verdict = VerificationOracle::conclude_raid(&verdicts);
    assert!(verdict.accepted);
    let beneficiary = entry.beneficiary.clone();
    let notice =
        state.settle("dev", raid.reward_xp(), RAID_LABEL, entry.solution, &beneficiary, &verdict);
    assert_eq!(notice.map(|n| n.map(|(i, _)| i)), Ok(Some(1)));
    assert_eq!(state.blockchain.chain[1].transactions[0].recipient, "rust-aces");
    assert_eq!(state.blockchain.chain[1].proof.author, "rust-aces");
    assert_eq!((state.profiles[0].xp, state.profiles[0].level), (25, 4));
    assert_eq!(state.profiles[0].solved_languages, vec!["Raid".to_string()]);
}

#[test]
fn failed_raid_appends_no_block() {
    let mut state = node_with("dev");
    state.found_guild("dev", "Rust Aces").expect("founded");
    let raid = WebAppRaidChallenge::new();
    let entry = state
        .prepare_raid(
            "dev",
            &raid,
            "document.getElementById('btn').innerHTML='Hello, DevChain!';",
            "return {}",
        )
        .expect("prepared");
    let verdicts: Vec<VerificationResult> = VerificationOracle::verify_raid(&raid, &entry.submissions)
        .into_iter()
        .map(settled)
        .collect();
    let verdict = VerificationOracle::conclude_raid(&verdicts);
    assert!(!verdict.accepted);
    let beneficiary = entry.beneficiary.clone();
    let notice = state.settle("dev", 500, RAID_LABEL, entry.solution, &beneficiary, &verdict);
    assert_eq!(notice, Ok(None));
    assert_eq!(state.blockchain.chain.len(), 1);
    assert_eq!(state.profiles[0].xp, 0);
}

#[test]
fn restored_state_must_have_a_valid_chain() {
    let ledger = Blockchain::genesis_at(3);
    let chain: Vec<Block> = ledger.chain.iter().map(|b| b.clone()).collect();
    let state = AppState::restore(chain, Vec::new(), Vec::new(), Vec::new()).expect("valid");
    assert_eq!(state.blockchain.chain.len(), 1);

    let mut chain: Vec<Block> = ledger.chain.iter().map(|b| b.clone()).collect();
    chain[0].timestamp = 4;
    let refused = AppState::restore(chain, Vec::new(), Vec::new(), Vec::new());
    assert_eq!(refused.map(|s| s.profiles.len()), Err(LedgerError::ChainIntegrityError));
}

#[test]
fn executor_finds_the_solution_of_a_block() {
    let mut state = node_with("dev");
    let challenge = FibonacciChallenge::new();
    let solution = state.prepare_solo("dev", &challenge, "Go", "package main").expect("prepared");
    state.settle("dev", 150, "Go", solution, "dev", &VerificationResult::accept()).expect("settled");
    let found = Executor::run_from_ledger(&state.blockchain, 1).expect("block 1");
    assert_eq!(found.index, 1);
    assert_eq!(found.author, "dev");
    assert_eq!(found.language, "Go");
    assert_eq!(found.code, "package main");
    let genesis = Executor::run_from_ledger(&state.blockchain, 0).expect("block 0");
    assert_eq!(genesis.author, "system");
    assert_eq!(genesis.code, "genesis_proof");
    assert!(Executor::run_from_ledger(&state.blockchain, 2).is_none());
}

fn distinct(names: &[String]) -> bool {
    names.iter().enumerate().all(|(i, a)| names.iter().skip(i + 1).all(|b| a != b))
}

#[test]
fn records_keep_their_keys_unique() {
    let mut state = AppState::new();
    for dev in ["dev", "eve", "dev", "bob", "eve"] {
        state.ensure_profile(dev);
    }
    let _ = state.found_guild("dev", "Rust Aces");
    let _ = state.found_guild("eve", "rust aces");
    let _ = state.found_guild("bob", "Gophers");
    let challenge = FibonacciChallenge::new();
    for language in ["Go", "Rust", "Go", "Java", "Rust"] {
        let solution = state.prepare_solo("dev", &challenge, language, "x").expect("prepared");
        state
            .settle("dev", 150, language, solution, "dev", &VerificationResult::accept())
            .expect("settled");
    }
    let ids: Vec<String> = state.profiles.iter().map(|p| p.developer_id.clone()).collect();
    assert_eq!(ids, vec!["dev".to_string(), "eve".to_string(), "bob".to_string()]);
    assert!(distinct(&ids));
    let guilds: Vec<String> = state.guilds.iter().map(|g| g.id.clone()).collect();
    assert_eq!(guilds, vec!["rust-aces".to_string(), "gophers".to_string()]);
    assert!(distinct(&guilds));
    let dev = &state.profiles[0];
    assert_eq!(
        dev.solved_languages,
        vec!["Go".to_string(), "Rust".to_string(), "Java".to_string()]
    );
    assert_eq!(dev.badges.len(), 1);
    assert!(dev.has_badge(devchain::gamification::badges::Badge::Polyglot));
    assert!(state.blockchain.validate());
    assert_eq!(state.blockchain.chain.len(), 6);
}
