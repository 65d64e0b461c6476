//! The sandbox runner: for each supported language a build recipe, and the
//! protocol by which one attempt is set up, built, run and torn down. The
//! library decides each step; the caller carries it out and reports back.

use uuid::Uuid;
use vstd::prelude::*;

use crate::challenges::all_challenges::{
    CPP, CSHARP, GO, JAVA, JAVASCRIPT, KOTLIN, PYTHON, RUST, SWIFT, TYPESCRIPT,
};
use crate::oracle::verdict::{accepted, rejected, FailureKind, VerdictView, VerificationResult};
use crate::text::same_text;

verus! {

// The build manifests, one for each language.
pub const PYTHON_MANIFEST: &'static str =
    "FROM python:3.9-slim\nWORKDIR /app\nCOPY . .\nCMD [\"python\", \"run_tests.py\"]";

pub const JAVASCRIPT_MANIFEST: &'static str =
    "FROM node:16-slim\nWORKDIR /app\nCOPY . .\nCMD [\"node\", \"run_tests.js\"]";

pub const RUST_MANIFEST: &'static str =
    "FROM rust:1.79 as builder\nWORKDIR /app\nCOPY . .\nRUN cargo build --release\n\nFROM debian:buster-slim\nCOPY --from=builder /app/target/release/solution .\nCMD [\"./solution\"]";

pub const GO_MANIFEST: &'static str =
    "FROM golang:1.22 as builder\nWORKDIR /app\nCOPY . .\nRUN go build -o solution .\n\nFROM gcr.io/distroless/static-debian11\nCOPY --from=builder /app/solution .\nCMD [\"./solution\"]";

pub const JAVA_MANIFEST: &'static str =
    "FROM openjdk:11\nWORKDIR /app\nCOPY . .\nRUN javac Main.java\nCMD [\"java\", \"Main\"]";

pub const CPP_MANIFEST: &'static str =
    "FROM gcc:latest\nWORKDIR /app\nCOPY . .\nRUN g++ -o solution main.cpp\nCMD [\"./solution\"]";

pub const CSHARP_MANIFEST: &'static str =
    "FROM mcr.microsoft.com/dotnet/sdk:6.0\nWORKDIR /app\nCOPY . .\nRUN dotnet build\nCMD [\"dotnet\", \"run\"]";

pub const SWIFT_MANIFEST: &'static str =
    "FROM swift:5.10\nWORKDIR /app\nCOPY . .\nRUN swiftc main.swift -o solution\nCMD [\"./solution\"]";

pub const KOTLIN_MANIFEST: &'static str =
    "FROM openjdk:11\nWORKDIR /app\nCOPY . .\nRUN kotlinc Main.kt -include-runtime -d solution.jar\nCMD [\"java\", \"-jar\", \"solution.jar\"]";

pub const TYPESCRIPT_MANIFEST: &'static str =
    "FROM node:16-slim\nWORKDIR /app\nRUN npm install -g typescript ts-node\nCOPY . .\nCMD [\"ts-node\", \"run_tests.ts\"]";

/// The name under which a recipe's build manifest is written.
pub const MANIFEST_FILE: &'static str = "Dockerfile";

/// How a submission in one language is built and run: the build manifest,
/// which names the build and run commands, and the files that take the
/// solution and the test harness. Where both names are the same, the
/// harness calls the solution within one compilation unit.
#[derive(Clone, Copy, Debug)]
pub struct BuildRecipe {
    pub language: &'static str,
    pub manifest: &'static str,
    pub solution_file: &'static str,
    pub test_file: &'static str,
}

/// The mathematical content of a [`BuildRecipe`].
pub ghost struct RecipeView {
    pub language: Seq<char>,
    pub manifest: Seq<char>,
    pub solution_file: Seq<char>,
    pub test_file: Seq<char>,
}

impl View for BuildRecipe {
    type V = RecipeView;

    open spec fn view(&self) -> RecipeView {
        RecipeView {
            language: self.language@,
            manifest: self.manifest@,
            solution_file: self.solution_file@,
            test_file: self.test_file@,
        }
    }
}

/// The contents of a list of recipes, in order.
pub open spec fn recipe_views(rows: Seq<BuildRecipe>) -> Seq<RecipeView> {
    Seq::new(rows.len(), |i: int| rows[i]@)
}

/// The recipe table: one row for each supported language.
pub open spec fn recipes() -> Seq<RecipeView> {
    seq![
        RecipeView {
            language: PYTHON@,
            manifest: PYTHON_MANIFEST@,
            solution_file: "solution.py"@,
            test_file: "run_tests.py"@,
        },
        RecipeView {
            language: JAVASCRIPT@,
            manifest: JAVASCRIPT_MANIFEST@,
            solution_file: "solution.js"@,
            test_file: "run_tests.js"@,
        },
        RecipeView {
            language: RUST@,
            manifest: RUST_MANIFEST@,
            solution_file: "main.rs"@,
            test_file: "main.rs"@,
        },
        RecipeView {
            language: GO@,
            manifest: GO_MANIFEST@,
            solution_file: "main.go"@,
            test_file: "main.go"@,
        },
        RecipeView {
            language: JAVA@,
            manifest: JAVA_MANIFEST@,
            solution_file: "Main.java"@,
            test_file: "Main.java"@,
        },
        RecipeView {
            language: CPP@,
            manifest: CPP_MANIFEST@,
            solution_file: "main.cpp"@,
            test_file: "main.cpp"@,
        },
        RecipeView {
            language: CSHARP@,
            manifest: CSHARP_MANIFEST@,
            solution_file: "Program.cs"@,
            test_file: "Program.cs"@,
        },
        RecipeView {
            language: SWIFT@,
            manifest: SWIFT_MANIFEST@,
            solution_file: "main.swift"@,
            test_file: "main.swift"@,
        },
        RecipeView {
            language: KOTLIN@,
            manifest: KOTLIN_MANIFEST@,
            solution_file: "Main.kt"@,
            test_file: "Main.kt"@,
        },
        RecipeView {
            language: TYPESCRIPT@,
            manifest: TYPESCRIPT_MANIFEST@,
            solution_file: "solution.ts"@,
            test_file: "run_tests.ts"@,
        },
    ]
}

/// The recipe table.
pub fn recipe_table() -> (r: Vec<BuildRecipe>)
    ensures
        recipe_views(r@) == recipes(),
{
    let mut rows: Vec<BuildRecipe> = Vec::new();
    rows.push(
        BuildRecipe {
            language: PYTHON,
            manifest: PYTHON_MANIFEST,
            solution_file: "solution.py",
            test_file: "run_tests.py",
        },
    );
    rows.push(
        BuildRecipe {
            language: JAVASCRIPT,
            manifest: JAVASCRIPT_MANIFEST,
            solution_file: "solution.js",
            test_file: "run_tests.js",
        },
    );
    rows.push(
        BuildRecipe {
            language: RUST,
            manifest: RUST_MANIFEST,
            solution_file: "main.rs",
            test_file: "main.rs",
        },
    );
    rows.push(
        BuildRecipe {
            language: GO,
            manifest: GO_MANIFEST,
            solution_file: "main.go",
            test_file: "main.go",
        },
    );
    rows.push(
        BuildRecipe {
            language: JAVA,
            manifest: JAVA_MANIFEST,
            solution_file: "Main.java",
            test_file: "Main.java",
        },
    );
    rows.push(
        BuildRecipe {
            language: CPP,
            manifest: CPP_MANIFEST,
            solution_file: "main.cpp",
            test_file: "main.cpp",
        },
    );
    rows.push(
        BuildRecipe {
            language: CSHARP,
            manifest: CSHARP_MANIFEST,
            solution_file: "Program.cs",
            test_file: "Program.cs",
        },
    );
    rows.push(
        BuildRecipe {
            language: SWIFT,
            manifest: SWIFT_MANIFEST,
            solution_file: "main.swift",
            test_file: "main.swift",
        },
    );
    rows.push(
        BuildRecipe {
            language: KOTLIN,
            manifest: KOTLIN_MANIFEST,
            solution_file: "Main.kt",
            test_file: "Main.kt",
        },
    );
    rows.push(
        BuildRecipe {
            language: TYPESCRIPT,
            manifest: TYPESCRIPT_MANIFEST,
            solution_file: "solution.ts",
            test_file: "run_tests.ts",
        },
    );
    rows
}

/// Row `i` is the first row of the table for `language`.
pub open spec fn is_recipe_row(table: Seq<RecipeView>, language: Seq<char>, i: int) -> bool {
    &&& 0 <= i < table.len()
    &&& table[i].language == language
    &&& forall|j: int| 0 <= j < i ==> (#[trigger] table[j]).language != language
}

/// The sandbox has a recipe for `language`.
pub open spec fn supported(language: Seq<char>) -> bool {
    exists|i: int| is_recipe_row(recipes(), language, i)
}

/// The recipe for `language`. Meaningful where `supported` holds.
pub open spec fn recipe_of(language: Seq<char>) -> RecipeView {
    recipes()[choose|i: int| is_recipe_row(recipes(), language, i)]
}

/// A file of the build context.
#[derive(Debug)]
pub struct SourceFile {
    pub name: String,
    pub content: String,
}

/// The names and contents of a list of files, in order.
pub open spec fn file_views(files: Seq<SourceFile>) -> Seq<(Seq<char>, Seq<char>)> {
    Seq::new(files.len(), |i: int| (files[i].name@, files[i].content@))
}

/// Solution and harness in one compilation unit: the solution, a blank line,
/// the harness.
pub open spec fn unit_text(solution: Seq<char>, test: Seq<char>) -> Seq<char> {
    solution + "\n\n"@ + test
}

/// The files of the build context: the manifest, then the solution, which
/// holds the harness too where the recipe puts both in one file, and
/// otherwise the harness in a file of its own.
pub open spec fn context_files(recipe: RecipeView, solution: Seq<char>, test: Seq<char>) -> Seq<
    (Seq<char>, Seq<char>),
> {
    if recipe.solution_file == recipe.test_file {
        seq![
            (MANIFEST_FILE@, recipe.manifest),
            (recipe.solution_file, unit_text(solution, test)),
        ]
    } else {
        seq![
            (MANIFEST_FILE@, recipe.manifest),
            (recipe.solution_file, solution),
            (recipe.test_file, test),
        ]
    }
}

/// The prefix of every image tag.
pub const IMAGE_PREFIX: &'static str = "devchain-test-";

/// The seconds allowed for one test run.
pub const RUN_TIMEOUT_SECS: u64 = 30;

// The diagnostics of the sandbox's own rejections.
pub const UNSUPPORTED_DIAGNOSTIC: &'static str = "no build recipe for this language";

pub const OUT_OF_TURN_DIAGNOSTIC: &'static str = "the sandbox reported an event out of turn";

pub const NONZERO_DIAGNOSTIC: &'static str = "the test run exited with a non-zero status";

pub const TIMEOUT_DIAGNOSTIC: &'static str = "the test run exceeded the time limit";

/// The image tag of the attempt that was given `token`.
pub open spec fn image_tag_of(token: Seq<char>) -> Seq<char> {
    IMAGE_PREFIX@ + token
}

/// `Uuid::new_v4` rendered by `to_string`: a random identifier in its
/// hyphenated form, which is 36 characters long. Nothing else is known of it.
#[verifier::external_body]
fn fresh_token() -> (r: String)
    ensures
        r@.len() == 36,
{
    Uuid::new_v4().to_string()
}

/// The sandbox runner.
pub struct DockerOracle;

impl DockerOracle {
    /// The recipe for `language`, if the sandbox supports it.
    pub fn recipe_for(language: &str) -> (r: Option<BuildRecipe>)
        ensures
            supported(language@) ==> r is Some && r->0@ == recipe_of(language@),
            !supported(language@) ==> r is None,
    {
        let table = recipe_table();
        let mut i: usize = 0;
        while i < table.len()
            invariant
                i <= table@.len(),
                recipe_views(table@) == recipes(),
                forall|j: int| 0 <= j < i ==> (#[trigger] recipes()[j]).language != language@,
            decreases table@.len() - i,
        {
            if same_text(table[i].language, language) {
                proof {
                    lemma_recipe_row(language@, i as int);
                }
                return Some(table[i]);
            }
            i += 1;
        }
        proof {
            if supported(language@) {
                let k = choose|k: int| is_recipe_row(recipes(), language@, k);
                assert(is_recipe_row(recipes(), language@, k));
            }
        }
        None
    }
}

/// A language is found first at one row only.
pub proof fn lemma_recipe_row(language: Seq<char>, i: int)
    requires
        is_recipe_row(recipes(), language, i),
    ensures
        supported(language),
        recipe_of(language) == recipes()[i],
{
    let k = choose|k: int| is_recipe_row(recipes(), language, k);
    assert(is_recipe_row(recipes(), language, k));
}

/// Where one sandboxed attempt stands. From `Materializing` to `Running` the
/// attempt may hold a build context and an image under `image_tag`; in
/// `Releasing` it waits for them to be removed; in `Finished` it holds
/// nothing.
#[derive(Debug)]
pub enum SandboxRun {
    Materializing { image_tag: String },
    Building { image_tag: String },
    Running { image_tag: String },
    Releasing { verdict: VerificationResult },
    Finished { verdict: VerificationResult },
}

/// What the caller reports after carrying out an action.
#[derive(Debug)]
pub enum SandboxEvent {
    /// The build context was written.
    ContextReady,
    /// The build context could not be created or written.
    ContextFailed { diagnostic: String },
    /// The image was built.
    BuildSucceeded,
    /// The build tool failed, or could not be started; `diagnostic` is what
    /// it printed.
    BuildFailed { diagnostic: String },
    /// The test run ended by itself with this exit status.
    RunExited { code: i32 },
    /// The test run was stopped because it took too long.
    RunTimedOut,
    /// The build context and the image were removed.
    Released,
}

/// What the caller has to do next.
#[derive(Debug)]
pub enum SandboxAction {
    /// Create a disposable directory and write these files into it.
    Materialize { files: Vec<SourceFile> },
    /// Build an image from the directory under this tag.
    Build { image_tag: String },
    /// Run the image without network access, for at most this many seconds.
    Run { image_tag: String, timeout_secs: u64 },
    /// Remove the directory and the image of this tag, whether or not they
    /// exist.
    Release { image_tag: String },
    /// The attempt is over: this is its verdict.
    Report { verdict: VerificationResult },
}

/// The mathematical content of a [`SandboxRun`].
pub ghost enum RunView {
    Materializing { image_tag: Seq<char> },
    Building { image_tag: Seq<char> },
    Running { image_tag: Seq<char> },
    Releasing { verdict: VerdictView },
    Finished { verdict: VerdictView },
}

/// The mathematical content of a [`SandboxEvent`].
pub ghost enum EventView {
    ContextReady,
    ContextFailed { diagnostic: Seq<char> },
    BuildSucceeded,
    BuildFailed { diagnostic: Seq<char> },
    RunExited { code: int },
    RunTimedOut,
    Released,
}

/// The mathematical content of a [`SandboxAction`].
pub ghost enum ActionView {
    Materialize { files: Seq<(Seq<char>, Seq<char>)> },
    Build { image_tag: Seq<char> },
    Run { image_tag: Seq<char>, timeout_secs: nat },
    Release { image_tag: Seq<char> },
    Report { verdict: VerdictView },
}

impl View for SandboxRun {
    type V = RunView;

    open spec fn view(&self) -> RunView {
        match self {
            SandboxRun::Materializing { image_tag } => RunView::Materializing {
                image_tag: image_tag@,
            },
            SandboxRun::Building { image_tag } => RunView::Building { image_tag: image_tag@ },
            SandboxRun::Running { image_tag } => RunView::Running { image_tag: image_tag@ },
            SandboxRun::Releasing { verdict } => RunView::Releasing { verdict: verdict@ },
            SandboxRun::Finished { verdict } => RunView::Finished { verdict: verdict@ },
        }
    }
}

impl View for SandboxEvent {
    type V = EventView;

    open spec fn view(&self) -> EventView {
        match self {
            SandboxEvent::ContextReady => EventView::ContextReady,
            SandboxEvent::ContextFailed { diagnostic } => EventView::ContextFailed {
                diagnostic: diagnostic@,
            },
            SandboxEvent::BuildSucceeded => EventView::BuildSucceeded,
            SandboxEvent::BuildFailed { diagnostic } => EventView::BuildFailed {
                diagnostic: diagnostic@,
            },
            SandboxEvent::RunExited { code } => EventView::RunExited { code: *code as int },
            SandboxEvent::RunTimedOut => EventView::RunTimedOut,
            SandboxEvent::Released => EventView::Released,
        }
    }
}

impl View for SandboxAction {
    type V = ActionView;

    open spec fn view(&self) -> ActionView {
        match self {
            SandboxAction::Materialize { files } => ActionView::Materialize {
                files: file_views(files@),
            },
            SandboxAction::Build { image_tag } => ActionView::Build { image_tag: image_tag@ },
            SandboxAction::Run { image_tag, timeout_secs } => ActionView::Run {
                image_tag: image_tag@,
                timeout_secs: *timeout_secs as nat,
            },
            SandboxAction::Release { image_tag } => ActionView::Release { image_tag: image_tag@ },
            SandboxAction::Report { verdict } => ActionView::Report { verdict: verdict@ },
        }
    }
}

/// The first step of an attempt that was given `token`: a supported language
/// has its build context written; any other is rejected at once.
pub open spec fn begin(
    language: Seq<char>,
    solution: Seq<char>,
    test: Seq<char>,
    token: Seq<char>,
) -> (RunView, ActionView) {
    if supported(language) {
        (
            RunView::Materializing { image_tag: image_tag_of(token) },
            ActionView::Materialize { files: context_files(recipe_of(language), solution, test) },
        )
    } else {
        let verdict = rejected(FailureKind::UnsupportedLanguage, UNSUPPORTED_DIAGNOSTIC@);
        (RunView::Finished { verdict }, ActionView::Report { verdict })
    }
}

/// The attempt stops with `verdict`: what it may hold is released first.
pub open spec fn wind_down(image_tag: Seq<char>, verdict: VerdictView) -> (RunView, ActionView) {
    (RunView::Releasing { verdict }, ActionView::Release { image_tag })
}

/// The step that follows `event`.
///
/// The context is written, then the image is built, then it is run; a zero
/// exit status accepts. A failure to write the context or to build rejects
/// with `BuildFailure` and the reported diagnostic, a non-zero exit status
/// with `RuntimeFailure`, a timeout with `TimeoutExceeded`; an event that
/// does not answer the action last asked for counts as a failure of that
/// action. Whatever ends the attempt, a release is asked for before the
/// verdict is reported.
pub open spec fn next(run: RunView, event: EventView) -> (RunView, ActionView) {
    match run {
        RunView::Materializing { image_tag } => match event {
            EventView::ContextReady => (
                RunView::Building { image_tag },
                ActionView::Build { image_tag },
            ),
            EventView::ContextFailed { diagnostic } => wind_down(
                image_tag,
                rejected(FailureKind::BuildFailure, diagnostic),
            ),
            _ => wind_down(image_tag, rejected(FailureKind::BuildFailure, OUT_OF_TURN_DIAGNOSTIC@)),
        },
        RunView::Building { image_tag } => match event {
            EventView::BuildSucceeded => (
                RunView::Running { image_tag },
                ActionView::Run { image_tag, timeout_secs: RUN_TIMEOUT_SECS as nat },
            ),
            EventView::BuildFailed { diagnostic } => wind_down(
                image_tag,
                rejected(FailureKind::BuildFailure, diagnostic),
            ),
            _ => wind_down(image_tag, rejected(FailureKind::BuildFailure, OUT_OF_TURN_DIAGNOSTIC@)),
        },
        RunView::Running { image_tag } => match event {
            EventView::RunExited { code } => if code == 0 {
                wind_down(image_tag, accepted())
            } else {
                wind_down(image_tag, rejected(FailureKind::RuntimeFailure, NONZERO_DIAGNOSTIC@))
            },
            EventView::RunTimedOut => wind_down(
                image_tag,
                rejected(FailureKind::TimeoutExceeded, TIMEOUT_DIAGNOSTIC@),
            ),
            _ => wind_down(
                image_tag,
                rejected(FailureKind::RuntimeFailure, OUT_OF_TURN_DIAGNOSTIC@),
            ),
        },
        RunView::Releasing { verdict } => (
            RunView::Finished { verdict },
            ActionView::Report { verdict },
        ),
        RunView::Finished { verdict } => (
            RunView::Finished { verdict },
            ActionView::Report { verdict },
        ),
    }
}

fn stop(image_tag: String, verdict: VerificationResult) -> (r: (SandboxRun, SandboxAction))
    ensures
        (r.0@, r.1@) == wind_down(image_tag@, verdict@),
{
    (SandboxRun::Releasing { verdict }, SandboxAction::Release { image_tag })
}

impl DockerOracle {
    /// Begins an attempt. A language without a recipe is rejected at once,
    /// and no identity is drawn for it; an attempt in a supported language
    /// gets a fresh random identity, which keeps concurrent attempts apart.
    /// See [`begin`] for the first step.
    pub fn verify(language: &str, solution_code: &str, test_code: &str) -> (r: (
        SandboxRun,
        SandboxAction,
    ))
        ensures
            !supported(language@) ==> (r.0@, r.1@) == begin(
                language@,
                solution_code@,
                test_code@,
                Seq::empty(),
            ),
            exists|token: Seq<char>|
                token.len() == 36 && (r.0@, r.1@) == begin(
                    language@,
                    solution_code@,
                    test_code@,
                    token,
                ),
    {
        if Self::recipe_for(language).is_none() {
            let rejection = Self::verify_as(language, solution_code, test_code, "");
            proof {
                let unused = Seq::new(36, |i: int| '0');
                assert(unused.len() == 36);
                assert((rejection.0@, rejection.1@) == begin(
                    language@,
                    solution_code@,
                    test_code@,
                    unused,
                ));
            }
            rejection
        } else {
            let token = fresh_token();
            Self::verify_as(language, solution_code, test_code, token.as_str())
        }
    }

    /// Begins an attempt under the identity `token`.
    pub fn verify_as(language: &str, solution_code: &str, test_code: &str, token: &str) -> (r: (
        SandboxRun,
        SandboxAction,
    ))
        ensures
            (r.0@, r.1@) == begin(language@, solution_code@, test_code@, token@),
    {
        match Self::recipe_for(language) {
            None => {
                let verdict = VerificationResult::reject(
                    FailureKind::UnsupportedLanguage,
                    UNSUPPORTED_DIAGNOSTIC,
                );
                let report = verdict.clone();
                (SandboxRun::Finished { verdict }, SandboxAction::Report { verdict: report })
            },
            Some(recipe) => {
                let mut image_tag = String::from_str(IMAGE_PREFIX);
                image_tag.append(token);
                let mut files: Vec<SourceFile> = Vec::new();
                files.push(
                    SourceFile {
                        name: String::from_str(MANIFEST_FILE),
                        content: String::from_str(recipe.manifest),
                    },
                );
                if same_text(recipe.solution_file, recipe.test_file) {
                    let mut unit = String::from_str(solution_code);
                    unit.append("\n\n");
                    unit.append(test_code);
                    files.push(
                        SourceFile { name: String::from_str(recipe.solution_file), content: unit },
                    );
                } else {
                    files.push(
                        SourceFile {
                            name: String::from_str(recipe.solution_file),
                            content: String::from_str(solution_code),
                        },
                    );
                    files.push(
                        SourceFile {
                            name: String::from_str(recipe.test_file),
                            content: String::from_str(test_code),
                        },
                    );
                }
                assert(file_views(files@) =~= context_files(recipe@, solution_code@, test_code@));
                (SandboxRun::Materializing { image_tag }, SandboxAction::Materialize { files })
            },
        }
    }

    /// Takes the attempt one step further. See [`next`].
    pub fn advance(run: SandboxRun, event: SandboxEvent) -> (r: (SandboxRun, SandboxAction))
        ensures
            (r.0@, r.1@) == next(run@, event@),
    {
        match run {
            SandboxRun::Materializing { image_tag } => match event {
                SandboxEvent::ContextReady => {
                    let tag = image_tag.clone();
                    (SandboxRun::Building { image_tag }, SandboxAction::Build { image_tag: tag })
                },
                SandboxEvent::ContextFailed { diagnostic } => stop(
                    image_tag,
                    VerificationResult::reject(FailureKind::BuildFailure, diagnostic.as_str()),
                ),
                _ => stop(
                    image_tag,
                    VerificationResult::reject(FailureKind::BuildFailure, OUT_OF_TURN_DIAGNOSTIC),
                ),
            },
            SandboxRun::Building { image_tag } => match event {
                SandboxEvent::BuildSucceeded => {
                    let tag = image_tag.clone();
                    (
                        SandboxRun::Running { image_tag },
                        SandboxAction::Run { image_tag: tag, timeout_secs: RUN_TIMEOUT_SECS },
                    )
                },
                SandboxEvent::BuildFailed { diagnostic } => stop(
                    image_tag,
                    VerificationResult::reject(FailureKind::BuildFailure, diagnostic.as_str()),
                ),
                _ => stop(
                    image_tag,
                    VerificationResult::reject(FailureKind::BuildFailure, OUT_OF_TURN_DIAGNOSTIC),
                ),
            },
            SandboxRun::Running { image_tag } => match event {
                SandboxEvent::RunExited { code } => {
                    if code == 0 {
                        stop(image_tag, VerificationResult::accept())
                    } else {
                        stop(
                            image_tag,
                            VerificationResult::reject(
                                FailureKind::RuntimeFailure,
                                NONZERO_DIAGNOSTIC,
                            ),
                        )
                    }
                },
                SandboxEvent::RunTimedOut => stop(
                    image_tag,
                    VerificationResult::reject(FailureKind::TimeoutExceeded, TIMEOUT_DIAGNOSTIC),
                ),
                _ => stop(
                    image_tag,
                    VerificationResult::reject(FailureKind::RuntimeFailure, OUT_OF_TURN_DIAGNOSTIC),
                ),
            },
            SandboxRun::Releasing { verdict } => {
                let report = verdict.clone();
                (SandboxRun::Finished { verdict }, SandboxAction::Report { verdict: report })
            },
            SandboxRun::Finished { verdict } => {
                let report = verdict.clone();
                (SandboxRun::Finished { verdict }, SandboxAction::Report { verdict: report })
            },
        }
    }
}

/// The actions asked for, one after each of `events`, starting from `run`.
pub open spec fn actions(run: RunView, events: Seq<EventView>) -> Seq<ActionView>
    decreases events.len(),
{
    if events.len() == 0 {
        Seq::empty()
    } else {
        let step = next(run, events[0]);
        seq![step.1] + actions(step.0, events.drop_first())
    }
}

/// The attempt may hold a build context or an image.
pub open spec fn may_hold_resources(run: RunView) -> bool {
    run is Materializing || run is Building || run is Running
}

/// A language without a recipe is rejected at the first step, whatever the
/// code and the identity of the attempt, and nothing is set up for it.
pub proof fn lemma_unsupported_is_rejected(
    language: Seq<char>,
    solution: Seq<char>,
    test: Seq<char>,
    token: Seq<char>,
)
    requires
        !supported(language),
    ensures
        begin(language, solution, test, token).1 == (ActionView::Report {
            verdict: rejected(FailureKind::UnsupportedLanguage, UNSUPPORTED_DIAGNOSTIC@),
        }),
        begin(language, solution, test, token).0 is Finished,
{
}

/// One action is asked for after each event.
pub proof fn lemma_actions_len(run: RunView, events: Seq<EventView>)
    ensures
        actions(run, events).len() == events.len(),
    decreases events.len(),
{
    if events.len() > 0 {
        lemma_actions_len(next(run, events[0]).0, events.drop_first());
    }
}

/// The image tag under which the attempt may hold resources.
pub open spec fn held_tag(run: RunView) -> Seq<char> {
    match run {
        RunView::Materializing { image_tag } => image_tag,
        RunView::Building { image_tag } => image_tag,
        RunView::Running { image_tag } => image_tag,
        _ => Seq::empty(),
    }
}

/// No verdict is reported before a release: in an attempt that may hold
/// resources, whatever events come in, every `Report` among the actions
/// comes after a `Release` of the attempt's own image tag.
pub proof fn lemma_release_precedes_report(run: RunView, events: Seq<EventView>, k: int)
    requires
        may_hold_resources(run),
        0 <= k < events.len(),
        actions(run, events)[k] is Report,
    ensures
        exists|j: int|
            0 <= j < k && #[trigger] actions(run, events)[j] == (ActionView::Release {
                image_tag: held_tag(run),
            }),
    decreases events.len(),
{
    let step = next(run, events[0]);
    let rest = events.drop_first();
    lemma_actions_len(step.0, rest);
    assert(actions(run, events) =~= seq![step.1] + actions(step.0, rest));
    if k > 0 {
        if may_hold_resources(step.0) {
            assert(held_tag(step.0) == held_tag(run));
            lemma_release_precedes_report(step.0, rest, k - 1);
            let j = choose|j: int|
                0 <= j < k - 1 && #[trigger] actions(step.0, rest)[j] == (ActionView::Release {
                    image_tag: held_tag(step.0),
                });
            assert(actions(run, events)[j + 1] == actions(step.0, rest)[j]);
        } else {
            assert(actions(run, events)[0] == (ActionView::Release { image_tag: held_tag(run) }));
        }
    }
}

/// Every attempt ends with a report. Whatever the first four events are,
/// the action after the fourth is the `Report`, and so is every later one.
pub proof fn lemma_verdict_within_four_events(run: RunView, events: Seq<EventView>, k: int)
    requires
        3 <= k < events.len(),
    ensures
        actions(run, events)[k] is Report,
    decreases k,
{
    let first = next(run, events[0]);
    let e1 = events.drop_first();
    lemma_actions_len(first.0, e1);
    assert(actions(run, events) =~= seq![first.1] + actions(first.0, e1));
    if k > 3 {
        lemma_verdict_within_four_events(first.0, e1, k - 1);
    } else {
        let second = next(first.0, e1[0]);
        let e2 = e1.drop_first();
        lemma_actions_len(second.0, e2);
        assert(actions(first.0, e1) =~= seq![second.1] + actions(second.0, e2));
        let third = next(second.0, e2[0]);
        let e3 = e2.drop_first();
        lemma_actions_len(third.0, e3);
        assert(actions(second.0, e2) =~= seq![third.1] + actions(third.0, e3));
        let fourth = next(third.0, e3[0]);
        assert(actions(third.0, e3) =~= seq![fourth.1] + actions(fourth.0, e3.drop_first()));
        assert(third.0 is Releasing || third.0 is Finished);
    }
}

/// The attempts that may run at one time. An attempt is admitted while a
/// slot is free and gives its slot back when it has reported; one that finds
/// no slot is turned away and may ask again.
pub struct SandboxPool {
    capacity: usize,
    running: usize,
}

impl SandboxPool {
    /// The number of attempts that may run at one time.
    pub closed spec fn spec_capacity(&self) -> nat {
        self.capacity as nat
    }

    /// The number of attempts that hold a slot.
    pub closed spec fn spec_running(&self) -> nat {
        self.running as nat
    }

    #[verifier::type_invariant]
    spec fn within_capacity(&self) -> bool {
        self.running <= self.capacity
    }

    /// A pool of `capacity` free slots.
    pub fn new(capacity: usize) -> (r: Self)
        ensures
            r.spec_capacity() == capacity,
            r.spec_running() == 0,
    {
        SandboxPool { capacity, running: 0 }
    }

    /// The number of attempts that may run at one time.
    pub fn capacity(&self) -> (n: usize)
        ensures
            n == self.spec_capacity(),
    {
        self.capacity
    }

    /// The number of attempts that hold a slot. It never exceeds the
    /// capacity.
    pub fn running(&self) -> (n: usize)
        ensures
            n == self.spec_running(),
            n <= self.spec_capacity(),
    {
        proof {
            use_type_invariant(self);
        }
        self.running
    }

    /// Takes a slot for one attempt, if one is free.
    pub fn try_admit(&mut self) -> (admitted: bool)
        ensures
            admitted == (old(self).spec_running() < old(self).spec_capacity()),
            final(self).spec_capacity() == old(self).spec_capacity(),
            final(self).spec_running() == if admitted {
                old(self).spec_running() + 1
            } else {
                old(self).spec_running()
            },
    {
        proof {
            use_type_invariant(&*self);
        }
        if self.running < self.capacity {
            self.running = self.running + 1;
            true
        } else {
            false
        }
    }

    /// Gives back the slot of an attempt that has reported. With no slot
    /// taken nothing changes.
    pub fn release(&mut self)
        ensures
            final(self).spec_capacity() == old(self).spec_capacity(),
            final(self).spec_running() == if old(self).spec_running() > 0 {
                old(self).spec_running() - 1
            } else {
                0
            },
    {
        proof {
            use_type_invariant(&*self);
        }
        if self.running > 0 {
            self.running = self.running - 1;
        }
    }
}

} // verus!
