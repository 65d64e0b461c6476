use devchain::challenges::all_challenges::{
    holds_language, resolve, BackendRaidPart, CatalogChallenge, FibonacciChallenge,
    FrontendRaidPart, RaidPart, RaidPartChallenge, WebAppRaidChallenge,
};
use devchain::challenges::challenge_trait::{Challenge, ChallengeSolution};
use devchain::challenges::language_table::LanguageTable;

#[test]
fn fibonacci_identity_and_reward() {
    let challenge = FibonacciChallenge::new();
    assert_eq!(challenge.id(), "fibonacci");
    assert_eq!(challenge.title(), "Algorithmic Challenge: Fibonacci Number");
    assert_eq!(
        challenge.description(),
        "Write a function named 'solve' that returns the nth Fibonacci number."
    );
    assert_eq!(challenge.reward_xp(), 150);
}

#[test]
fn fibonacci_is_offered_in_ten_languages() {
    let challenge = FibonacciChallenge::new();
    assert_eq!(
        challenge.languages(),
        vec![
            "Python", "JavaScript", "Rust", "Go", "Java", "Cpp", "CSharp", "Swift", "Kotlin",
            "TypeScript"
        ]
    );
}

#[test]
fn fibonacci_has_solution_and_test_for_each_language() {
    let challenge = FibonacciChallenge::new();
    for language in challenge.languages() {
        assert!(challenge.get_solution_for(language).is_some(), "{}", language);
        assert!(challenge.get_test_for(language).is_some(), "{}", language);
    }
}

#[test]
fn fibonacci_python_artifacts_are_the_catalog_texts() {
    let challenge = FibonacciChallenge::new();
    assert_eq!(
        challenge.get_solution_for("Python").as_deref(),
        Some("def solve(n):\n  a, b = 0, 1\n  for _ in range(n):\n    a, b = b, a + b\n  return a")
    );
    assert_eq!(
        challenge.get_test_for("Python").as_deref(),
        Some("from solution import solve\nassert solve(10) == 55\nassert solve(0) == 0\nprint('Tests passed!')")
    );
    assert_eq!(
        challenge.get_test_for("Kotlin").as_deref(),
        Some("fun main() {\n    assert(solve(10) == 55L)\n    assert(solve(0) == 0L)\n    println(\"Tests passed!\")\n}")
    );
}

#[test]
fn fibonacci_has_nothing_for_an_unknown_language() {
    let challenge = FibonacciChallenge::new();
    assert_eq!(challenge.get_solution_for("Cobol"), None);
    assert_eq!(challenge.get_test_for("Cobol"), None);
    assert_eq!(challenge.get_solution_for("python"), None);
    assert_eq!(challenge.get_solution_for(""), None);
}

#[test]
fn frontend_part_is_javascript_without_harness() {
    let part = FrontendRaidPart::new();
    assert_eq!(part.id(), "webapp_frontend");
    assert_eq!(part.title(), "Raid Part: Frontend");
    assert_eq!(part.description(), "Write JS to change button text to 'Hello, DevChain!'");
    assert_eq!(part.languages(), vec!["JavaScript"]);
    assert_eq!(
        part.get_solution_for("JavaScript").as_deref(),
        Some("document.getElementById('btn').innerHTML = 'Hello, DevChain!';")
    );
    assert_eq!(part.get_solution_for("Python"), None);
    assert_eq!(part.get_test_for("JavaScript"), None);
    assert_eq!(part.reward_xp(), 200);
}

#[test]
fn backend_part_is_python_without_harness() {
    let part = BackendRaidPart::new();
    assert_eq!(part.id(), "webapp_backend");
    assert_eq!(part.title(), "Raid Part: Backend");
    assert_eq!(part.description(), "Write a Python function that returns a JSON status.");
    assert_eq!(part.languages(), vec!["Python"]);
    assert_eq!(part.get_solution_for("Python").as_deref(), Some("return {'status': 'ok'}"));
    assert_eq!(part.get_solution_for("JavaScript"), None);
    assert_eq!(part.get_test_for("Python"), None);
    assert_eq!(part.reward_xp(), 200);
}

#[test]
fn raid_has_a_frontend_and_a_backend_role() {
    let raid = WebAppRaidChallenge::new();
    assert_eq!(raid.parts().len(), 2);
    assert_eq!(raid.sub_challenges[0].role, "frontend");
    assert_eq!(raid.sub_challenges[1].role, "backend");
    assert_eq!(raid.part("frontend").map(|c| c.id()), Some("webapp_frontend"));
    assert_eq!(raid.part("backend").map(|c| c.id()), Some("webapp_backend"));
    assert!(raid.part("database").is_none());
    assert!(matches!(raid.part("frontend"), Some(RaidPartChallenge::Frontend(_))));
    assert!(matches!(raid.part("backend"), Some(RaidPartChallenge::Backend(_))));
}

#[test]
fn raid_languages_are_the_union_of_its_parts() {
    let raid = WebAppRaidChallenge::new();
    assert_eq!(raid.languages(), vec!["JavaScript", "Python"]);
}

#[test]
fn raid_languages_list_a_shared_language_once() {
    let mut raid = WebAppRaidChallenge::new();
    raid.sub_challenges.push(RaidPart {
        role: "scripts".to_string(),
        challenge: RaidPartChallenge::Backend(BackendRaidPart::new()),
    });
    assert_eq!(raid.languages(), vec!["JavaScript", "Python"]);
    raid.sub_challenges.clear();
    assert!(raid.languages().is_empty());
}

#[test]
fn raid_reward_is_a_fixed_bonus_not_the_sum_of_parts() {
    let raid = WebAppRaidChallenge::new();
    assert_eq!(raid.id(), "web-app-raid");
    assert_eq!(raid.reward_xp(), 500);
    let sum: u32 = raid.parts().iter().map(|p| p.challenge.reward_xp()).sum();
    assert_eq!(sum, 400);
    assert_eq!(raid.get_solution_for("Python"), None);
    assert_eq!(raid.get_test_for("Python"), None);
}

#[test]
fn language_table_overwrites_and_keeps_first_order() {
    let mut table = LanguageTable::new();
    assert_eq!(table.len(), 0);
    table.insert("Go", "one");
    table.insert("Rust", "two");
    table.insert("Go", "three");
    assert_eq!(table.len(), 2);
    assert_eq!(table.languages(), vec!["Go", "Rust"]);
    assert_eq!(table.get("Go").as_deref(), Some("three"));
    assert_eq!(table.get("Rust").as_deref(), Some("two"));
    assert_eq!(table.get("Java"), None);
    assert!(table.contains_key("Rust"));
    assert!(!table.contains_key("rust"));
}

#[test]
fn holds_language_finds_exact_names_only() {
    let names = vec!["Go", "Rust"];
    assert!(holds_language(&names, "Rust"));
    assert!(!holds_language(&names, "rust"));
    assert!(!holds_language(&Vec::new(), "Rust"));
}

#[test]
fn solution_clone_keeps_every_field() {
    let solution = ChallengeSolution {
        challenge_id: "fibonacci".to_string(),
        language: "Go".to_string(),
        code: "package main".to_string(),
        author: "carol".to_string(),
    };
    let copy = solution.clone();
    assert_eq!(copy.challenge_id, "fibonacci");
    assert_eq!(copy.language, "Go");
    assert_eq!(copy.code, "package main");
    assert_eq!(copy.author, "carol");
}

#[test]
fn catalog_resolves_challenges_by_identifier() {
    let solo = resolve("fibonacci").expect("fibonacci");
    assert!(matches!(solo, CatalogChallenge::Solo(_)));
    assert_eq!(solo.id(), "fibonacci");
    assert_eq!(solo.reward_xp(), 150);
    assert_eq!(solo.languages().len(), 10);
    let raid = resolve("web-app-raid").expect("web-app-raid");
    assert!(matches!(raid, CatalogChallenge::Composite(_)));
    assert_eq!(raid.id(), "web-app-raid");
    assert_eq!(raid.reward_xp(), 500);
    assert_eq!(raid.languages(), vec!["JavaScript", "Python"]);
    assert!(resolve("webapp_raid").is_none());
    assert!(resolve("genesis").is_none());
    assert!(resolve("").is_none());
}

#[test]
fn resolved_raid_has_the_catalog_parts() {
    match resolve("web-app-raid") {
        Some(CatalogChallenge::Composite(raid)) => {
            assert_eq!(raid.sub_challenges.len(), 2);
            assert_eq!(raid.sub_challenges[0].role, "frontend");
            assert_eq!(raid.sub_challenges[1].role, "backend");
            assert_eq!(
                raid.sub_challenges[0].challenge.get_solution_for("JavaScript").as_deref(),
                Some("document.getElementById('btn').innerHTML = 'Hello, DevChain!';")
            );
            assert_eq!(
                raid.sub_challenges[1].challenge.get_solution_for("Python").as_deref(),
                Some("return {'status': 'ok'}")
            );
        }
        _ => panic!("the raid is in the catalog"),
    }
}
