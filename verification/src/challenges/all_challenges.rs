//! The challenges on offer: one solo challenge in ten languages, and one raid
//! made of a frontend part and a backend part.

use vstd::prelude::*;

use crate::challenges::challenge_trait::{texts, Challenge};
use crate::challenges::language_table::{keys_of, lemma_absent, lookup, put, LanguageTable};
use crate::text::same_text;

verus! {
// The names of the languages.
pub const PYTHON: &'static str = "Python";
pub const JAVASCRIPT: &'static str = "JavaScript";
pub const RUST: &'static str = "Rust";
pub const GO: &'static str = "Go";
pub const JAVA: &'static str = "Java";
pub const CPP: &'static str = "Cpp";
pub const CSHARP: &'static str = "CSharp";
pub const SWIFT: &'static str = "Swift";
pub const KOTLIN: &'static str = "Kotlin";
pub const TYPESCRIPT: &'static str = "TypeScript";

// The reference solutions of the solo challenge.
pub const PYTHON_SOLUTION: &'static str = "def solve(n):\n  a, b = 0, 1\n  for _ in range(n):\n    a, b = b, a + b\n  return a";

pub const JAVASCRIPT_SOLUTION: &'static str = "function solve(n) {\n  let a = 0, b = 1;\n  for (let i = 0; i < n; i++) {\n    [a, b] = [b, a + b];\n  }\n  return a;\n}\nmodule.exports = { solve };";

pub const RUST_SOLUTION: &'static str = "fn solve(n: u32) -> u64 {\n    let mut a: u64 = 0;\n    let mut b: u64 = 1;\n    for _ in 0..n {\n        let temp = a;\n        a = b;\n        b = temp + b;\n    }\n    a\n}";

pub const GO_SOLUTION: &'static str = "package main\n\nfunc solve(n uint) uint64 {\n\tvar a, b uint64 = 0, 1\n\tfor i := uint(0); i < n; i++ {\n\t\ta, b = b, a+b\n\t}\n\treturn a\n}";

pub const JAVA_SOLUTION: &'static str = "class Solution {\n    public static long solve(int n) {\n        long a = 0, b = 1;\n        for (int i = 0; i < n; i++) {\n            long temp = a;\n            a = b;\n            b = temp + b;\n        }\n        return a;\n    }\n}";

pub const CPP_SOLUTION: &'static str = "#include <cstdint>\n\nint64_t solve(int n) {\n    int64_t a = 0, b = 1;\n    for (int i = 0; i < n; ++i) {\n        int64_t temp = a;\n        a = b;\n        b = temp + b;\n    }\n    return a;\n}";

pub const CSHARP_SOLUTION: &'static str = "public class Solution {\n    public static long Solve(int n) {\n        long a = 0, b = 1;\n        for (int i = 0; i < n; i++) {\n            long temp = a;\n            a = b;\n            b = temp + b;\n        }\n        return a;\n    }\n}";

pub const SWIFT_SOLUTION: &'static str = "func solve(_ n: Int) -> UInt64 {\n    var a: UInt64 = 0\n    var b: UInt64 = 1\n    for _ in 0..<n {\n        let temp = a\n        a = b\n        b = temp + b\n    }\n    return a\n}";

pub const KOTLIN_SOLUTION: &'static str = "fun solve(n: Int): Long {\n    var a = 0L\n    var b = 1L\n    for (i in 0 until n) {\n        val temp = a\n        a = b\n        b = temp + a\n    }\n    return a\n}";

pub const TYPESCRIPT_SOLUTION: &'static str = "export function solve(n: number): number {\n  let a = 0, b = 1;\n  for (let i = 0; i < n; i++) {\n    [a, b] = [b, a + b];\n  }\n  return a;\n}";

// The test harnesses of the solo challenge.
pub const PYTHON_TEST: &'static str = "from solution import solve\nassert solve(10) == 55\nassert solve(0) == 0\nprint('Tests passed!')";

pub const JAVASCRIPT_TEST: &'static str = "const { solve } = require('./solution.js');\nconst assert = require('assert');\nassert.strictEqual(solve(10), 55);\nassert.strictEqual(solve(0), 0);\nconsole.log('Tests passed!');";

pub const RUST_TEST: &'static str = "fn main() {\n    assert_eq!(solve(10), 55);\n    assert_eq!(solve(0), 0);\n    println!(\"Tests passed!\");\n}";

pub const GO_TEST: &'static str = "package main\n\nimport \"fmt\"\n\nfunc main() {\n    if solve(10) != 55 {\n        panic(\"Test failed for n=10\")\n    }\n    if solve(0) != 0 {\n        panic(\"Test failed for n=0\")\n    }\n    fmt.Println(\"Tests passed!\")\n}";

pub const JAVA_TEST: &'static str = "public class Main {\n    public static void main(String[] args) {\n        assert Solution.solve(10) == 55;\n        assert Solution.solve(0) == 0;\n        System.out.println(\"Tests passed!\");\n    }\n}";

pub const CPP_TEST: &'static str = "#include <iostream>\n#include <cassert>\n\nint64_t solve(int n);\n\nint main() {\n    assert(solve(10) == 55);\n    assert(solve(0) == 0);\n    std::cout << \"Tests passed!\" << std::endl;\n    return 0;\n}";

pub const CSHARP_TEST: &'static str = "using System;\n\npublic class Program {\n    public static void Main(string[] args) {\n        if (Solution.Solve(10) != 55) throw new Exception();\n        if (Solution.Solve(0) != 0) throw new Exception();\n        Console.WriteLine(\"Tests passed!\");\n    }\n}";

pub const SWIFT_TEST: &'static str = "import Foundation\n\nassert(solve(10) == 55)\nassert(solve(0) == 0)\nprint(\"Tests passed!\")";

pub const KOTLIN_TEST: &'static str = "fun main() {\n    assert(solve(10) == 55L)\n    assert(solve(0) == 0L)\n    println(\"Tests passed!\")\n}";

pub const TYPESCRIPT_TEST: &'static str = "import { solve } from './solution';\nimport * as assert from 'assert';\n\nassert.strictEqual(solve(10), 55);\nassert.strictEqual(solve(0), 0);\nconsole.log('Tests passed!');";

// The solo challenge.
pub const FIBONACCI_ID: &'static str = "fibonacci";

pub const FIBONACCI_TITLE: &'static str = "Algorithmic Challenge: Fibonacci Number";

pub const FIBONACCI_DESCRIPTION: &'static str =
    "Write a function named 'solve' that returns the nth Fibonacci number.";

pub const FIBONACCI_REWARD: u32 = 150;

/// The ten languages of the solo challenge, in catalog order.
pub open spec fn fibonacci_languages() -> Seq<Seq<char>> {
    seq![PYTHON@, JAVASCRIPT@, RUST@, GO@, JAVA@, CPP@, CSHARP@, SWIFT@, KOTLIN@, TYPESCRIPT@]
}

/// The reference solutions of the solo challenge.
pub open spec fn fibonacci_solutions() -> Seq<(Seq<char>, Seq<char>)> {
    seq![
        (PYTHON@, PYTHON_SOLUTION@),
        (JAVASCRIPT@, JAVASCRIPT_SOLUTION@),
        (RUST@, RUST_SOLUTION@),
        (GO@, GO_SOLUTION@),
        (JAVA@, JAVA_SOLUTION@),
        (CPP@, CPP_SOLUTION@),
        (CSHARP@, CSHARP_SOLUTION@),
        (SWIFT@, SWIFT_SOLUTION@),
        (KOTLIN@, KOTLIN_SOLUTION@),
        (TYPESCRIPT@, TYPESCRIPT_SOLUTION@),
    ]
}

/// The test harnesses of the solo challenge.
pub open spec fn fibonacci_tests() -> Seq<(Seq<char>, Seq<char>)> {
    seq![
        (PYTHON@, PYTHON_TEST@),
        (JAVASCRIPT@, JAVASCRIPT_TEST@),
        (RUST@, RUST_TEST@),
        (GO@, GO_TEST@),
        (JAVA@, JAVA_TEST@),
        (CPP@, CPP_TEST@),
        (CSHARP@, CSHARP_TEST@),
        (SWIFT@, SWIFT_TEST@),
        (KOTLIN@, KOTLIN_TEST@),
        (TYPESCRIPT@, TYPESCRIPT_TEST@),
    ]
}

/// The ten language names differ from one another.
pub proof fn lemma_languages_distinct()
    ensures
        fibonacci_languages().no_duplicates(),
{
    reveal_strlit("Python");
    reveal_strlit("JavaScript");
    reveal_strlit("Rust");
    reveal_strlit("Go");
    reveal_strlit("Java");
    reveal_strlit("Cpp");
    reveal_strlit("CSharp");
    reveal_strlit("Swift");
    reveal_strlit("Kotlin");
    reveal_strlit("TypeScript");
    let names = fibonacci_languages();
    assert(names[0][0] == 'P' && names[6][0] == 'C' && names[8][0] == 'K');
    assert(names[1][0] == 'J' && names[9][0] == 'T');
    assert(names[2][0] == 'R' && names[4][0] == 'J');
    assert forall|i: int, j: int| 0 <= i < names.len() && 0 <= j < names.len() && i != j implies names[i]
        != names[j] by {
        if names[i].len() == names[j].len() {
            assert(names[i][0] != names[j][0]);
        }
    }
}

/// A row whose key is not in the table yet is added at the end.
pub proof fn lemma_fresh_row(pairs: Seq<(Seq<char>, Seq<char>)>, key: Seq<char>, value: Seq<char>)
    requires
        forall|j: int| 0 <= j < pairs.len() ==> (#[trigger] pairs[j]).0 != key,
    ensures
        put(pairs, key, value) == pairs.push((key, value)),
{
    lemma_absent(pairs, key);
}

/// The solo challenge: the nth Fibonacci number, with a reference solution
/// and a test harness in each of ten languages.
pub struct FibonacciChallenge {
    solutions: LanguageTable,
    tests: LanguageTable,
}

impl FibonacciChallenge {
    /// The reference solutions on file, by language.
    pub closed spec fn solutions_model(&self) -> Seq<(Seq<char>, Seq<char>)> {
        self.solutions@
    }

    /// The test harnesses on file, by language.
    pub closed spec fn tests_model(&self) -> Seq<(Seq<char>, Seq<char>)> {
        self.tests@
    }

    /// The challenge with its catalog data.
    pub fn new() -> (r: Self)
        ensures
            r.solutions_model() == fibonacci_solutions(),
            r.tests_model() == fibonacci_tests(),
    {
        let mut solutions = LanguageTable::new();
        let mut tests = LanguageTable::new();
        proof {
            lemma_languages_distinct();
        }
        proof {
            lemma_fresh_row(solutions@, PYTHON@, PYTHON_SOLUTION@);
            lemma_fresh_row(tests@, PYTHON@, PYTHON_TEST@);
        }
        solutions.insert(PYTHON, PYTHON_SOLUTION);
        tests.insert(PYTHON, PYTHON_TEST);
        proof {
            lemma_fresh_row(solutions@, JAVASCRIPT@, JAVASCRIPT_SOLUTION@);
            lemma_fresh_row(tests@, JAVASCRIPT@, JAVASCRIPT_TEST@);
        }
        solutions.insert(JAVASCRIPT, JAVASCRIPT_SOLUTION);
        tests.insert(JAVASCRIPT, JAVASCRIPT_TEST);
        proof {
            lemma_fresh_row(solutions@, RUST@, RUST_SOLUTION@);
            lemma_fresh_row(tests@, RUST@, RUST_TEST@);
        }
        solutions.insert(RUST, RUST_SOLUTION);
        tests.insert(RUST, RUST_TEST);
        proof {
            lemma_fresh_row(solutions@, GO@, GO_SOLUTION@);
            lemma_fresh_row(tests@, GO@, GO_TEST@);
        }
        solutions.insert(GO, GO_SOLUTION);
        tests.insert(GO, GO_TEST);
        proof {
            lemma_fresh_row(solutions@, JAVA@, JAVA_SOLUTION@);
            lemma_fresh_row(tests@, JAVA@, JAVA_TEST@);
        }
        solutions.insert(JAVA, JAVA_SOLUTION);
        tests.insert(JAVA, JAVA_TEST);
        proof {
            lemma_fresh_row(solutions@, CPP@, CPP_SOLUTION@);
            lemma_fresh_row(tests@, CPP@, CPP_TEST@);
        }
        solutions.insert(CPP, CPP_SOLUTION);
        tests.insert(CPP, CPP_TEST);
        proof {
            lemma_fresh_row(solutions@, CSHARP@, CSHARP_SOLUTION@);
            lemma_fresh_row(tests@, CSHARP@, CSHARP_TEST@);
        }
        solutions.insert(CSHARP, CSHARP_SOLUTION);
        tests.insert(CSHARP, CSHARP_TEST);
        proof {
            lemma_fresh_row(solutions@, SWIFT@, SWIFT_SOLUTION@);
            lemma_fresh_row(tests@, SWIFT@, SWIFT_TEST@);
        }
        solutions.insert(SWIFT, SWIFT_SOLUTION);
        tests.insert(SWIFT, SWIFT_TEST);
        proof {
            lemma_fresh_row(solutions@, KOTLIN@, KOTLIN_SOLUTION@);
            lemma_fresh_row(tests@, KOTLIN@, KOTLIN_TEST@);
        }
        solutions.insert(KOTLIN, KOTLIN_SOLUTION);
        tests.insert(KOTLIN, KOTLIN_TEST);
        proof {
            lemma_fresh_row(solutions@, TYPESCRIPT@, TYPESCRIPT_SOLUTION@);
            lemma_fresh_row(tests@, TYPESCRIPT@, TYPESCRIPT_TEST@);
        }
        solutions.insert(TYPESCRIPT, TYPESCRIPT_SOLUTION);
        tests.insert(TYPESCRIPT, TYPESCRIPT_TEST);

        FibonacciChallenge { solutions, tests }
    }
}

impl Challenge for FibonacciChallenge {
    open spec fn spec_id(&self) -> Seq<char> {
        FIBONACCI_ID@
    }

    open spec fn spec_title(&self) -> Seq<char> {
        FIBONACCI_TITLE@
    }

    open spec fn spec_description(&self) -> Seq<char> {
        FIBONACCI_DESCRIPTION@
    }

    open spec fn spec_languages(&self) -> Seq<Seq<char>> {
        keys_of(self.solutions_model())
    }

    open spec fn spec_solution_for(&self, lang: Seq<char>) -> Option<Seq<char>> {
        lookup(self.solutions_model(), lang)
    }

    open spec fn spec_test_for(&self, lang: Seq<char>) -> Option<Seq<char>> {
        lookup(self.tests_model(), lang)
    }

    open spec fn spec_reward(&self) -> u32 {
        FIBONACCI_REWARD
    }

    fn id(&self) -> (r: &str) {
        FIBONACCI_ID
    }

    fn title(&self) -> (r: &str) {
        FIBONACCI_TITLE
    }

    fn description(&self) -> (r: &str) {
        FIBONACCI_DESCRIPTION
    }

    fn languages(&self) -> (r: Vec<&str>) {
        self.solutions.languages()
    }

    fn get_solution_for(&self, lang: &str) -> (r: Option<String>) {
        self.solutions.get(lang)
    }

    fn get_test_for(&self, lang: &str) -> (r: Option<String>) {
        self.tests.get(lang)
    }

    fn reward_xp(&self) -> (r: u32) {
        FIBONACCI_REWARD
    }
}

// The parts of the raid.
pub const FRONTEND_ID: &'static str = "webapp_frontend";

pub const FRONTEND_TITLE: &'static str = "Raid Part: Frontend";

pub const FRONTEND_DESCRIPTION: &'static str =
    "Write JS to change button text to 'Hello, DevChain!'";

pub const FRONTEND_SOLUTION: &'static str =
    "document.getElementById('btn').innerHTML = 'Hello, DevChain!';";

pub const BACKEND_ID: &'static str = "webapp_backend";

pub const BACKEND_TITLE: &'static str = "Raid Part: Backend";

pub const BACKEND_DESCRIPTION: &'static str =
    "Write a Python function that returns a JSON status.";

pub const BACKEND_SOLUTION: &'static str = "return {'status': 'ok'}";

pub const RAID_PART_REWARD: u32 = 200;

/// The frontend part of the raid: a snippet in JavaScript, judged against its
/// reference only.
pub struct FrontendRaidPart {
    solutions: LanguageTable,
}

impl FrontendRaidPart {
    /// The reference solutions on file, by language.
    pub closed spec fn solutions_model(&self) -> Seq<(Seq<char>, Seq<char>)> {
        self.solutions@
    }

    /// The part with its catalog data.
    pub fn new() -> (r: Self)
        ensures
            r.solutions_model() == seq![(JAVASCRIPT@, FRONTEND_SOLUTION@)],
    {
        let mut solutions = LanguageTable::new();
        proof {
            lemma_fresh_row(solutions@, JAVASCRIPT@, FRONTEND_SOLUTION@);
        }
        solutions.insert(JAVASCRIPT, FRONTEND_SOLUTION);
        FrontendRaidPart { solutions }
    }
}

impl Challenge for FrontendRaidPart {
    open spec fn spec_id(&self) -> Seq<char> {
        FRONTEND_ID@
    }

    open spec fn spec_title(&self) -> Seq<char> {
        FRONTEND_TITLE@
    }

    open spec fn spec_description(&self) -> Seq<char> {
        FRONTEND_DESCRIPTION@
    }

    open spec fn spec_languages(&self) -> Seq<Seq<char>> {
        keys_of(self.solutions_model())
    }

    open spec fn spec_solution_for(&self, lang: Seq<char>) -> Option<Seq<char>> {
        lookup(self.solutions_model(), lang)
    }

    open spec fn spec_test_for(&self, lang: Seq<char>) -> Option<Seq<char>> {
        None
    }

    open spec fn spec_reward(&self) -> u32 {
        RAID_PART_REWARD
    }

    fn id(&self) -> (r: &str) {
        FRONTEND_ID
    }

    fn title(&self) -> (r: &str) {
        FRONTEND_TITLE
    }

    fn description(&self) -> (r: &str) {
        FRONTEND_DESCRIPTION
    }

    fn languages(&self) -> (r: Vec<&str>) {
        self.solutions.languages()
    }

    fn get_solution_for(&self, lang: &str) -> (r: Option<String>) {
        self.solutions.get(lang)
    }

    fn get_test_for(&self, _lang: &str) -> (r: Option<String>) {
        None
    }

    fn reward_xp(&self) -> (r: u32) {
        RAID_PART_REWARD
    }
}

/// The backend part of the raid: a snippet in Python, judged against its
/// reference only.
pub struct BackendRaidPart {
    solutions: LanguageTable,
}

impl BackendRaidPart {
    /// The reference solutions on file, by language.
    pub closed spec fn solutions_model(&self) -> Seq<(Seq<char>, Seq<char>)> {
        self.solutions@
    }

    /// The part with its catalog data.
    pub fn new() -> (r: Self)
        ensures
            r.solutions_model() == seq![(PYTHON@, BACKEND_SOLUTION@)],
    {
        let mut solutions = LanguageTable::new();
        proof {
            lemma_fresh_row(solutions@, PYTHON@, BACKEND_SOLUTION@);
        }
        solutions.insert(PYTHON, BACKEND_SOLUTION);
        BackendRaidPart { solutions }
    }
}

impl Challenge for BackendRaidPart {
    open spec fn spec_id(&self) -> Seq<char> {
        BACKEND_ID@
    }

    open spec fn spec_title(&self) -> Seq<char> {
        BACKEND_TITLE@
    }

    open spec fn spec_description(&self) -> Seq<char> {
        BACKEND_DESCRIPTION@
    }

    open spec fn spec_languages(&self) -> Seq<Seq<char>> {
        keys_of(self.solutions_model())
    }

    open spec fn spec_solution_for(&self, lang: Seq<char>) -> Option<Seq<char>> {
        lookup(self.solutions_model(), lang)
    }

    open spec fn spec_test_for(&self, lang: Seq<char>) -> Option<Seq<char>> {
        None
    }

    open spec fn spec_reward(&self) -> u32 {
        RAID_PART_REWARD
    }

    fn id(&self) -> (r: &str) {
        BACKEND_ID
    }

    fn title(&self) -> (r: &str) {
        BACKEND_TITLE
    }

    fn description(&self) -> (r: &str) {
        BACKEND_DESCRIPTION
    }

    fn languages(&self) -> (r: Vec<&str>) {
        self.solutions.languages()
    }

    fn get_solution_for(&self, lang: &str) -> (r: Option<String>) {
        self.solutions.get(lang)
    }

    fn get_test_for(&self, _lang: &str) -> (r: Option<String>) {
        None
    }

    fn reward_xp(&self) -> (r: u32) {
        RAID_PART_REWARD
    }
}

/// A part of a raid: one of the challenges that a role can be asked to solve.
pub enum RaidPartChallenge {
    Frontend(FrontendRaidPart),
    Backend(BackendRaidPart),
}

impl Challenge for RaidPartChallenge {
    open spec fn spec_id(&self) -> Seq<char> {
        match self {
            RaidPartChallenge::Frontend(c) => c.spec_id(),
            RaidPartChallenge::Backend(c) => c.spec_id(),
        }
    }

    open spec fn spec_title(&self) -> Seq<char> {
        match self {
            RaidPartChallenge::Frontend(c) => c.spec_title(),
            RaidPartChallenge::Backend(c) => c.spec_title(),
        }
    }

    open spec fn spec_description(&self) -> Seq<char> {
        match self {
            RaidPartChallenge::Frontend(c) => c.spec_description(),
            RaidPartChallenge::Backend(c) => c.spec_description(),
        }
    }

    open spec fn spec_languages(&self) -> Seq<Seq<char>> {
        match self {
            RaidPartChallenge::Frontend(c) => c.spec_languages(),
            RaidPartChallenge::Backend(c) => c.spec_languages(),
        }
    }

    open spec fn spec_solution_for(&self, lang: Seq<char>) -> Option<Seq<char>> {
        match self {
            RaidPartChallenge::Frontend(c) => c.spec_solution_for(lang),
            RaidPartChallenge::Backend(c) => c.spec_solution_for(lang),
        }
    }

    open spec fn spec_test_for(&self, lang: Seq<char>) -> Option<Seq<char>> {
        match self {
            RaidPartChallenge::Frontend(c) => c.spec_test_for(lang),
            RaidPartChallenge::Backend(c) => c.spec_test_for(lang),
        }
    }

    open spec fn spec_reward(&self) -> u32 {
        match self {
            RaidPartChallenge::Frontend(c) => c.spec_reward(),
            RaidPartChallenge::Backend(c) => c.spec_reward(),
        }
    }

    fn id(&self) -> (r: &str) {
        match self {
            RaidPartChallenge::Frontend(c) => c.id(),
            RaidPartChallenge::Backend(c) => c.id(),
        }
    }

    fn title(&self) -> (r: &str) {
        match self {
            RaidPartChallenge::Frontend(c) => c.title(),
            RaidPartChallenge::Backend(c) => c.title(),
        }
    }

    fn description(&self) -> (r: &str) {
        match self {
            RaidPartChallenge::Frontend(c) => c.description(),
            RaidPartChallenge::Backend(c) => c.description(),
        }
    }

    fn languages(&self) -> (r: Vec<&str>) {
        match self {
            RaidPartChallenge::Frontend(c) => c.languages(),
            RaidPartChallenge::Backend(c) => c.languages(),
        }
    }

    fn get_solution_for(&self, lang: &str) -> (r: Option<String>) {
        match self {
            RaidPartChallenge::Frontend(c) => c.get_solution_for(lang),
            RaidPartChallenge::Backend(c) => c.get_solution_for(lang),
        }
    }

    fn get_test_for(&self, lang: &str) -> (r: Option<String>) {
        match self {
            RaidPartChallenge::Frontend(c) => c.get_test_for(lang),
            RaidPartChallenge::Backend(c) => c.get_test_for(lang),
        }
    }

    fn reward_xp(&self) -> (r: u32) {
        match self {
            RaidPartChallenge::Frontend(c) => c.reward_xp(),
            RaidPartChallenge::Backend(c) => c.reward_xp(),
        }
    }
}

/// A role of a raid and the challenge that the role has to solve.
pub struct RaidPart {
    pub role: String,
    pub challenge: RaidPartChallenge,
}

// The raid.
pub const RAID_ID: &'static str = "web-app-raid";

pub const RAID_TITLE: &'static str = "Raid Challenge: Web App";

pub const RAID_DESCRIPTION: &'static str =
    "A Web App needs to be built! It requires a frontend and a backend.";

pub const RAID_REWARD: u32 = 500;

pub const ROLE_FRONTEND: &'static str = "frontend";

pub const ROLE_BACKEND: &'static str = "backend";

/// `acc` followed by the languages of `more` that `acc` does not hold yet,
/// each once.
pub open spec fn merge_languages(acc: Seq<Seq<char>>, more: Seq<Seq<char>>) -> Seq<Seq<char>>
    decreases more.len(),
{
    if more.len() == 0 {
        acc
    } else {
        let merged = merge_languages(acc, more.drop_last());
        if merged.contains(more.last()) {
            merged
        } else {
            merged.push(more.last())
        }
    }
}

/// The languages of all parts, each once, in order of first appearance.
pub open spec fn raid_languages(parts: Seq<RaidPart>) -> Seq<Seq<char>>
    decreases parts.len(),
{
    if parts.len() == 0 {
        Seq::empty()
    } else {
        merge_languages(raid_languages(parts.drop_last()), parts.last().challenge.spec_languages())
    }
}

/// Merging adds exactly the languages of `more`, and adds no language twice.
pub proof fn lemma_merge_languages(acc: Seq<Seq<char>>, more: Seq<Seq<char>>)
    ensures
        forall|l: Seq<char>|
            merge_languages(acc, more).contains(l) <==> acc.contains(l) || more.contains(l),
        acc.no_duplicates() ==> merge_languages(acc, more).no_duplicates(),
    decreases more.len(),
{
    if more.len() > 0 {
        let front = more.drop_last();
        let merged = merge_languages(acc, front);
        let result = merge_languages(acc, more);
        lemma_merge_languages(acc, front);
        assert forall|l: Seq<char>| result.contains(l) <==> acc.contains(l) || more.contains(
            l,
        ) by {
            if more.contains(l) {
                let i = choose|i: int| 0 <= i < more.len() && more[i] == l;
                if i < front.len() {
                    assert(front[i] == l);
                }
            }
            if front.contains(l) {
                let i = choose|i: int| 0 <= i < front.len() && front[i] == l;
                assert(front[i] == l);
            }
            if !merged.contains(more.last()) {
                assert(result[merged.len() as int] == more.last());
                if merged.contains(l) {
                    let i = choose|i: int| 0 <= i < merged.len() && merged[i] == l;
                    assert(result[i] == l);
                }
                if result.contains(l) {
                    let i = choose|i: int| 0 <= i < result.len() && result[i] == l;
                    assert(result[i] == l);
                }
            }
        }
    }
}

/// The raid's languages are the union of its parts' languages: a language is
/// among them exactly when some part offers it, and none is listed twice.
pub proof fn lemma_raid_languages_union(parts: Seq<RaidPart>)
    ensures
        forall|l: Seq<char>|
            raid_languages(parts).contains(l) <==> exists|i: int|
                0 <= i < parts.len() && (#[trigger] parts[i]).challenge.spec_languages().contains(l),
        raid_languages(parts).no_duplicates(),
    decreases parts.len(),
{
    if parts.len() > 0 {
        let front = parts.drop_last();
        let last = parts.last().challenge.spec_languages();
        lemma_raid_languages_union(front);
        lemma_merge_languages(raid_languages(front), last);
        assert forall|l: Seq<char>|
            raid_languages(parts).contains(l) <==> exists|i: int|
                0 <= i < parts.len() && (#[trigger] parts[i]).challenge.spec_languages().contains(
                    l,
                ) by {
            if raid_languages(front).contains(l) {
                let i = choose|i: int|
                    0 <= i < front.len() && (#[trigger] front[i]).challenge.spec_languages().contains(l);
            }
            if exists|i: int|
                0 <= i < parts.len() && (#[trigger] parts[i]).challenge.spec_languages().contains(l) {
                let i = choose|i: int|
                    0 <= i < parts.len() && (#[trigger] parts[i]).challenge.spec_languages().contains(l);
                if i < front.len() {
                    assert(front[i] == parts[i]);
                }
            }
        }
    }
}

/// Tells whether `name` is among `names`.
pub fn holds_language(names: &Vec<&str>, name: &str) -> (b: bool)
    ensures
        b == texts(names@).contains(name@),
{
    let mut i: usize = 0;
    while i < names.len()
        invariant
            i <= names@.len(),
            forall|k: int| 0 <= k < i ==> texts(names@)[k] != name@,
        decreases names@.len() - i,
    {
        if same_text(names[i], name) {
            assert(texts(names@)[i as int] == name@);
            return true;
        }
        i += 1;
    }
    false
}

/// The raid: a web application whose frontend and backend are solved by
/// different roles. It holds no reference artifacts of its own; it is judged
/// part by part.
pub struct WebAppRaidChallenge {
    pub sub_challenges: Vec<RaidPart>,
}

/// The part of `role` is the one at row `i`: the first under that name.
pub open spec fn is_part(parts: Seq<RaidPart>, role: Seq<char>, i: int) -> bool {
    &&& 0 <= i < parts.len()
    &&& parts[i].role@ == role
    &&& forall|j: int| 0 <= j < i ==> (#[trigger] parts[j]).role@ != role
}

/// The raid of the catalog: the role `frontend` with the frontend part and
/// its JavaScript reference, then the role `backend` with the backend part
/// and its Python reference.
pub open spec fn is_web_app_raid(raid: WebAppRaidChallenge) -> bool {
    &&& raid.sub_challenges@.len() == 2
    &&& raid.sub_challenges@[0].role@ == ROLE_FRONTEND@
    &&& raid.sub_challenges@[0].challenge matches RaidPartChallenge::Frontend(c)
        && c.solutions_model() == seq![(JAVASCRIPT@, FRONTEND_SOLUTION@)]
    &&& raid.sub_challenges@[1].role@ == ROLE_BACKEND@
    &&& raid.sub_challenges@[1].challenge matches RaidPartChallenge::Backend(c)
        && c.solutions_model() == seq![(PYTHON@, BACKEND_SOLUTION@)]
}

/// The roles of the parts, in order.
pub open spec fn roles_of(parts: Seq<RaidPart>) -> Seq<Seq<char>> {
    Seq::new(parts.len(), |i: int| parts[i].role@)
}

impl WebAppRaidChallenge {
    /// Well-formedness: no role has two parts.
    pub open spec fn wf(&self) -> bool {
        roles_of(self.sub_challenges@).no_duplicates()
    }

    /// The raid with its two parts, the frontend first.
    pub fn new() -> (r: Self)
        ensures
            is_web_app_raid(r),
            r.wf(),
    {
        proof {
            reveal_strlit("frontend");
            reveal_strlit("backend");
            assert(ROLE_FRONTEND@[0] != ROLE_BACKEND@[0]);
        }
        let mut sub_challenges: Vec<RaidPart> = Vec::new();
        sub_challenges.push(
            RaidPart {
                role: String::from_str(ROLE_FRONTEND),
                challenge: RaidPartChallenge::Frontend(FrontendRaidPart::new()),
            },
        );
        sub_challenges.push(
            RaidPart {
                role: String::from_str(ROLE_BACKEND),
                challenge: RaidPartChallenge::Backend(BackendRaidPart::new()),
            },
        );
        WebAppRaidChallenge { sub_challenges }
    }

    /// The parts of the raid, by role.
    pub fn parts(&self) -> (r: &Vec<RaidPart>)
        ensures
            r == &self.sub_challenges,
    {
        &self.sub_challenges
    }

    /// The challenge that `role` has to solve, if the raid has such a role.
    pub fn part(&self, role: &str) -> (r: Option<&RaidPartChallenge>)
        ensures
            match r {
                Some(c) => exists|i: int|
                    is_part(self.sub_challenges@, role@, i) && *c == self.sub_challenges@[i].challenge,
                None => forall|j: int|
                    0 <= j < self.sub_challenges@.len() ==> (#[trigger] self.sub_challenges@[j]).role@
                        != role@,
            },
    {
        let mut i: usize = 0;
        while i < self.sub_challenges.len()
            invariant
                i <= self.sub_challenges@.len(),
                forall|j: int| 0 <= j < i ==> (#[trigger] self.sub_challenges@[j]).role@ != role@,
            decreases self.sub_challenges@.len() - i,
        {
            if same_text(self.sub_challenges[i].role.as_str(), role) {
                assert(is_part(self.sub_challenges@, role@, i as int));
                return Some(&self.sub_challenges[i].challenge);
            }
            i += 1;
        }
        None
    }
}

impl Challenge for WebAppRaidChallenge {
    open spec fn spec_id(&self) -> Seq<char> {
        RAID_ID@
    }

    open spec fn spec_title(&self) -> Seq<char> {
        RAID_TITLE@
    }

    open spec fn spec_description(&self) -> Seq<char> {
        RAID_DESCRIPTION@
    }

    open spec fn spec_languages(&self) -> Seq<Seq<char>> {
        raid_languages(self.sub_challenges@)
    }

    open spec fn spec_solution_for(&self, lang: Seq<char>) -> Option<Seq<char>> {
        None
    }

    open spec fn spec_test_for(&self, lang: Seq<char>) -> Option<Seq<char>> {
        None
    }

    open spec fn spec_reward(&self) -> u32 {
        RAID_REWARD
    }

    fn id(&self) -> (r: &str) {
        RAID_ID
    }

    fn title(&self) -> (r: &str) {
        RAID_TITLE
    }

    fn description(&self) -> (r: &str) {
        RAID_DESCRIPTION
    }

    fn languages(&self) -> (r: Vec<&str>) {
        let mut out: Vec<&str> = Vec::new();
        let mut i: usize = 0;
        while i < self.sub_challenges.len()
            invariant
                i <= self.sub_challenges@.len(),
                texts(out@) == raid_languages(self.sub_challenges@.take(i as int)),
            decreases self.sub_challenges@.len() - i,
        {
            let more = self.sub_challenges[i].challenge.languages();
            let ghost base = texts(out@);
            let ghost offered = texts(more@);
            let mut k: usize = 0;
            while k < more.len()
                invariant
                    k <= more@.len(),
                    offered == texts(more@),
                    texts(out@) == merge_languages(base, offered.take(k as int)),
                decreases more@.len() - k,
            {
                if !holds_language(&out, more[k]) {
                    out.push(more[k]);
                }
                proof {
                    let grown = offered.take(k + 1);
                    assert(grown.drop_last() =~= offered.take(k as int));
                }
                k += 1;
            }
            proof {
                assert(offered.take(more@.len() as int) =~= offered);
                let grown = self.sub_challenges@.take(i + 1);
                assert(grown.drop_last() =~= self.sub_challenges@.take(i as int));
            }
            i += 1;
        }
        assert(self.sub_challenges@.take(self.sub_challenges@.len() as int) =~= self.sub_challenges@);
        out
    }

    fn get_solution_for(&self, _lang: &str) -> (r: Option<String>) {
        None
    }

    fn get_test_for(&self, _lang: &str) -> (r: Option<String>) {
        None
    }

    fn reward_xp(&self) -> (r: u32) {
        RAID_REWARD
    }
}

/// A challenge of the catalog: the solo challenge or the raid.
pub enum CatalogChallenge {
    Solo(FibonacciChallenge),
    Composite(WebAppRaidChallenge),
}

impl Challenge for CatalogChallenge {
    open spec fn spec_id(&self) -> Seq<char> {
        match self {
            CatalogChallenge::Solo(c) => c.spec_id(),
            CatalogChallenge::Composite(c) => c.spec_id(),
        }
    }

    open spec fn spec_title(&self) -> Seq<char> {
        match self {
            CatalogChallenge::Solo(c) => c.spec_title(),
            CatalogChallenge::Composite(c) => c.spec_title(),
        }
    }

    open spec fn spec_description(&self) -> Seq<char> {
        match self {
            CatalogChallenge::Solo(c) => c.spec_description(),
            CatalogChallenge::Composite(c) => c.spec_description(),
        }
    }

    open spec fn spec_languages(&self) -> Seq<Seq<char>> {
        match self {
            CatalogChallenge::Solo(c) => c.spec_languages(),
            CatalogChallenge::Composite(c) => c.spec_languages(),
        }
    }

    open spec fn spec_solution_for(&self, lang: Seq<char>) -> Option<Seq<char>> {
        match self {
            CatalogChallenge::Solo(c) => c.spec_solution_for(lang),
            CatalogChallenge::Composite(c) => c.spec_solution_for(lang),
        }
    }

    open spec fn spec_test_for(&self, lang: Seq<char>) -> Option<Seq<char>> {
        match self {
            CatalogChallenge::Solo(c) => c.spec_test_for(lang),
            CatalogChallenge::Composite(c) => c.spec_test_for(lang),
        }
    }

    open spec fn spec_reward(&self) -> u32 {
        match self {
            CatalogChallenge::Solo(c) => c.spec_reward(),
            CatalogChallenge::Composite(c) => c.spec_reward(),
        }
    }

    fn id(&self) -> (r: &str) {
        match self {
            CatalogChallenge::Solo(c) => c.id(),
            CatalogChallenge::Composite(c) => c.id(),
        }
    }

    fn title(&self) -> (r: &str) {
        match self {
            CatalogChallenge::Solo(c) => c.title(),
            CatalogChallenge::Composite(c) => c.title(),
        }
    }

    fn description(&self) -> (r: &str) {
        match self {
            CatalogChallenge::Solo(c) => c.description(),
            CatalogChallenge::Composite(c) => c.description(),
        }
    }

    fn languages(&self) -> (r: Vec<&str>) {
        match self {
            CatalogChallenge::Solo(c) => c.languages(),
            CatalogChallenge::Composite(c) => c.languages(),
        }
    }

    fn get_solution_for(&self, lang: &str) -> (r: Option<String>) {
        match self {
            CatalogChallenge::Solo(c) => c.get_solution_for(lang),
            CatalogChallenge::Composite(c) => c.get_solution_for(lang),
        }
    }

    fn get_test_for(&self, lang: &str) -> (r: Option<String>) {
        match self {
            CatalogChallenge::Solo(c) => c.get_test_for(lang),
            CatalogChallenge::Composite(c) => c.get_test_for(lang),
        }
    }

    fn reward_xp(&self) -> (r: u32) {
        match self {
            CatalogChallenge::Solo(c) => c.reward_xp(),
            CatalogChallenge::Composite(c) => c.reward_xp(),
        }
    }
}

/// Looks a challenge up in the catalog by its identifier: `fibonacci` is the
/// solo challenge, `web-app-raid` the raid, and there is no other.
pub fn resolve(challenge_id: &str) -> (r: Option<CatalogChallenge>)
    ensures
        challenge_id@ == FIBONACCI_ID@ ==> (r matches Some(CatalogChallenge::Solo(c))
            && c.solutions_model() == fibonacci_solutions() && c.tests_model() == fibonacci_tests()),
        challenge_id@ != FIBONACCI_ID@ && challenge_id@ == RAID_ID@ ==> (r matches Some(
            CatalogChallenge::Composite(c),
        ) && is_web_app_raid(c) && c.wf()),
        challenge_id@ != FIBONACCI_ID@ && challenge_id@ != RAID_ID@ ==> r is None,
        r matches Some(c) ==> c.spec_id() == challenge_id@,
{
    if same_text(challenge_id, FIBONACCI_ID) {
        Some(CatalogChallenge::Solo(FibonacciChallenge::new()))
    } else if same_text(challenge_id, RAID_ID) {
        Some(CatalogChallenge::Composite(WebAppRaidChallenge::new()))
    } else {
        None
    }
}

} // verus!
