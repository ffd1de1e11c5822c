//! The jobs of continuous integration: what each of them is called and what it
//! runs.

use vstd::prelude::*;

verus! {

/// The name that the kebab-case conversion of the `heck` crate gives to `text`.
pub uninterp spec fn kebab_case(text: Seq<char>) -> Seq<char>;

/// `heck::ToKebabCase::to_kebab_case` on a string slice. The conversion depends
/// on the text alone; what it gives is named by [`kebab_case`], and nothing
/// more is claimed of it.
#[verifier::external_body]
fn to_kebab_case(text: &str) -> (r: String)
    ensures
        r@ == kebab_case(text@),
{
    heck::ToKebabCase::to_kebab_case(text)
}

/// The key under which a job is known: the base of its archetype, the edition in
/// kebab case, the system and the architecture, with hyphens between them.
pub open spec fn key_of(base: Seq<char>, edition: Seq<char>, os: Seq<char>, arch: Seq<char>) -> Seq<
    char,
> {
    base + "-"@ + edition + "-"@ + os + "-"@ + arch
}

/// The key of a job from its four parts, where `edition` is in kebab case already.
pub fn key_from_parts(base: &str, edition: &str, os: &str, arch: &str) -> (r: String)
    ensures
        r@ == key_of(base@, edition@, os@, arch@),
{
    let mut key = String::from_str(base);
    key.append("-");
    key.append(edition);
    key.append("-");
    key.append(os);
    key.append("-");
    key.append(arch);
    key
}

/// The key of a job whose archetype has the base `base`, for the edition that is
/// displayed as `edition` and the target that is displayed as `os` and `arch`.
pub fn key(base: &str, edition: &str, os: &str, arch: &str) -> (r: String)
    ensures
        r@ == key_of(base@, kebab_case(edition@), os@, arch@),
{
    let edition = to_kebab_case(edition);
    key_from_parts(base, edition.as_str(), os, arch)
}

/// The arguments to the `run` script that make it call SBT with `command`. The
/// `--` stands in quotes, so that a shell does not take it for its own.
pub fn sbt_command(command: &str) -> (r: String)
    ensures
        r@ == "backend sbt '--' "@ + command@,
{
    let mut line = String::from_str("backend sbt '--' ");
    line.append(command);
    line
}

/// The name of a job that is made for one edition: `title`, and the edition in
/// parentheses.
pub fn edition_job_name(title: &str, edition: &str) -> (r: String)
    ensures
        r@ == title@ + " ("@ + edition@ + ")"@,
{
    let mut name = String::from_str(title);
    name.append(" (");
    name.append(edition);
    name.append(")");
    name
}

/// A label that a runner must carry to be given a job.
#[derive(Clone, Copy, Debug, PartialEq, Eq)]
pub enum RunnerLabel {
    SelfHosted,
    MacOS,
    Linux,
    Windows,
    MacOSLatest,
    LinuxLatest,
    WindowsLatest,
    Engine,
    X64,
    Arm64,
    Benchmark,
    Metarunner,
    MatrixOs,
}

impl RunnerLabel {
    /// The name that the label adds to the name of a job, where the label
    /// stands for a system.
    pub open spec fn suffix(self) -> Option<Seq<char>> {
        match self {
            RunnerLabel::MacOS => Some("MacOS"@),
            RunnerLabel::Linux => Some("Linux"@),
            RunnerLabel::Windows => Some("Windows"@),
            RunnerLabel::MacOSLatest => Some("MacOSLatest"@),
            RunnerLabel::LinuxLatest => Some("LinuxLatest"@),
            RunnerLabel::WindowsLatest => Some("WindowsLatest"@),
            RunnerLabel::SelfHosted
            | RunnerLabel::Engine
            | RunnerLabel::X64
            | RunnerLabel::Arm64
            | RunnerLabel::Benchmark
            | RunnerLabel::Metarunner
            | RunnerLabel::MatrixOs => None,
        }
    }

    /// The labels that a job asks for which runs on this label alone.
    pub fn runs_on(&self) -> (r: Vec<RunnerLabel>)
        ensures
            r@ == seq![*self],
    {
        let mut labels: Vec<RunnerLabel> = Vec::new();
        labels.push(*self);
        labels
    }

    /// The name that the label adds to the name of a job.
    pub fn job_name_suffix(&self) -> (r: Option<String>)
        ensures
            r is Some == self.suffix() is Some,
            r matches Some(name) ==> self.suffix() == Some(name@),
    {
        match self {
            RunnerLabel::MacOS => Some(String::from_str("MacOS")),
            RunnerLabel::Linux => Some(String::from_str("Linux")),
            RunnerLabel::Windows => Some(String::from_str("Windows")),
            RunnerLabel::MacOSLatest => Some(String::from_str("MacOSLatest")),
            RunnerLabel::LinuxLatest => Some(String::from_str("LinuxLatest")),
            RunnerLabel::WindowsLatest => Some(String::from_str("WindowsLatest")),
            RunnerLabel::SelfHosted
            | RunnerLabel::Engine
            | RunnerLabel::X64
            | RunnerLabel::Arm64
            | RunnerLabel::Benchmark
            | RunnerLabel::Metarunner
            | RunnerLabel::MatrixOs => None,
        }
    }
}

/// What is done to the steps of a job beyond running its command.
#[derive(Clone, Copy, Debug, PartialEq, Eq)]
pub enum Customization {
    /// Nothing.
    Plain,
    /// The job cancels the earlier runs of its workflow, and runs no command.
    CancelPreviousRuns,
    /// A reporter of test results follows the command.
    TestReporter,
    /// The variables of the GUI build are exposed to the command.
    GuiVariables,
    /// The runner is cleaned as a release asks for.
    ReleaseCleaning,
    /// The secrets for the runtime's container registry are exposed.
    RuntimeDeployment,
    /// The steps of packaging stand around the command.
    Packaging,
}

/// The plan of a job: its name, the arguments to the `run` script, and what is
/// done to its steps.
#[derive(Debug, PartialEq, Eq)]
pub struct JobPlan {
    pub name: String,
    pub command_line: Option<String>,
    pub customization: Customization,
}

/// The model of a [`JobPlan`].
pub struct JobPlanView {
    pub name: Seq<char>,
    pub command_line: Option<Seq<char>>,
    pub customization: Customization,
}

impl JobPlan {
    /// The model of the plan.
    pub open spec fn view(&self) -> JobPlanView {
        JobPlanView {
            name: self.name@,
            command_line: match self.command_line {
                Some(line) => Some(line@),
                None => None,
            },
            customization: self.customization,
        }
    }

    /// The plan of a job that runs `command_line`.
    pub fn new(name: &str, command_line: &str, customization: Customization) -> (r: JobPlan)
        ensures
            r@ == (JobPlanView {
                name: name@,
                command_line: Some(command_line@),
                customization,
            }),
    {
        JobPlan {
            name: String::from_str(name),
            command_line: Some(String::from_str(command_line)),
            customization,
        }
    }
}

/// The plan of a job that runs `command_line` and nothing else.
pub fn plain_job(name: &str, command_line: &str) -> (r: JobPlan)
    ensures
        r@ == (JobPlanView {
            name: name@,
            command_line: Some(command_line@),
            customization: Customization::Plain,
        }),
{
    JobPlan::new(name, command_line, Customization::Plain)
}

/// The archetype of a job of continuous integration.
#[derive(Clone, Copy, Debug)]
pub struct CancelWorkflow;

impl CancelWorkflow {
    /// The plan of the job.
    pub fn job(&self) -> (r: JobPlan)
        ensures
            r@ == (JobPlanView {
                name: "Cancel Previous Runs"@,
                command_line: None,
                customization: Customization::CancelPreviousRuns,
            }),
    {
        JobPlan {
            name: String::from_str("Cancel Previous Runs"),
            command_line: None,
            customization: Customization::CancelPreviousRuns,
        }
    }
}

/// The archetype of a job of continuous integration.
#[derive(Clone, Copy, Debug)]
pub struct VerifyLicensePackages;

impl VerifyLicensePackages {
    /// The plan of the job.
    pub fn job(&self) -> (r: JobPlan)
        ensures
            r@ == (JobPlanView {
                name: "Verify License Packages"@,
                command_line: Some("backend sbt '--' "@ + "verifyLicensePackages"@),
                customization: Customization::Plain,
            }),
    {
        let command = sbt_command("verifyLicensePackages");
        plain_job("Verify License Packages", command.as_str())
    }
}

/// The archetype of a job of continuous integration.
#[derive(Clone, Copy, Debug)]
pub struct Lint;

impl Lint {
    /// The plan of the job.
    pub fn job(&self) -> (r: JobPlan)
        ensures
            r@ == (JobPlanView {
                name: "Lint"@,
                command_line: Some("lint"@),
                customization: Customization::Plain,
            }),
    {
        plain_job("Lint", "lint")
    }
}

/// The archetype of a job of continuous integration.
#[derive(Clone, Copy, Debug)]
pub struct NativeTest;

impl NativeTest {
    /// The plan of the job.
    pub fn job(&self) -> (r: JobPlan)
        ensures
            r@ == (JobPlanView {
                name: "Native Rust tests"@,
                command_line: Some("wasm test --no-wasm"@),
                customization: Customization::Plain,
            }),
    {
        plain_job("Native Rust tests", "wasm test --no-wasm")
    }
}

/// The archetype of a job of continuous integration.
#[derive(Clone, Copy, Debug)]
pub struct GuiTest;

impl GuiTest {
    /// The plan of the job.
    pub fn job(&self) -> (r: JobPlan)
        ensures
            r@ == (JobPlanView {
                name: "GUI tests"@,
                command_line: Some("gui test"@),
                customization: Customization::Plain,
            }),
    {
        plain_job("GUI tests", "gui test")
    }
}

/// The archetype of a job of continuous integration.
#[derive(Clone, Copy, Debug)]
pub struct NewGuiBuild;

impl NewGuiBuild {
    /// The plan of the job.
    pub fn job(&self) -> (r: JobPlan)
        ensures
            r@ == (JobPlanView {
                name: "GUI build"@,
                command_line: Some("gui build"@),
                customization: Customization::GuiVariables,
            }),
    {
        JobPlan::new("GUI build", "gui build", Customization::GuiVariables)
    }
}

/// The archetype of a job of continuous integration.
#[derive(Clone, Copy, Debug)]
pub struct WasmTest;

impl WasmTest {
    /// The plan of the job.
    pub fn job(&self) -> (r: JobPlan)
        ensures
            r@ == (JobPlanView {
                name: "WASM tests"@,
                command_line: Some("wasm test --no-native"@),
                customization: Customization::Plain,
            }),
    {
        plain_job("WASM tests", "wasm test --no-native")
    }
}

/// The archetype of a job of continuous integration.
#[derive(Clone, Copy, Debug)]
pub struct BuildBackend;

impl BuildBackend {
    /// The plan of the job.
    pub fn job(&self) -> (r: JobPlan)
        ensures
            r@ == (JobPlanView {
                name: "Build Backend"@,
                command_line: Some("backend get"@),
                customization: Customization::Plain,
            }),
    {
        plain_job("Build Backend", "backend get")
    }
}

/// The archetype of a job of continuous integration.
#[derive(Clone, Copy, Debug)]
pub struct UploadBackend;

impl UploadBackend {
    /// The plan of the job.
    pub fn job(&self) -> (r: JobPlan)
        ensures
            r@ == (JobPlanView {
                name: "Upload Backend"@,
                command_line: Some("backend upload"@),
                customization: Customization::ReleaseCleaning,
            }),
    {
        JobPlan::new("Upload Backend", "backend upload", Customization::ReleaseCleaning)
    }
}

/// The archetype of a job of continuous integration.
#[derive(Clone, Copy, Debug)]
pub struct DeployRuntime;

impl DeployRuntime {
    /// The plan of the job.
    pub fn job(&self) -> (r: JobPlan)
        ensures
            r@ == (JobPlanView {
                name: "Upload Runtime to ECR"@,
                command_line: Some("release deploy-runtime"@),
                customization: Customization::RuntimeDeployment,
            }),
    {
        JobPlan::new(
            "Upload Runtime to ECR",
            "release deploy-runtime",
            Customization::RuntimeDeployment,
        )
    }
}

/// The archetype of a job of continuous integration.
#[derive(Clone, Copy, Debug)]
pub struct PackageIde;

impl PackageIde {
    /// The plan of the job.
    pub fn job(&self) -> (r: JobPlan)
        ensures
            r@ == (JobPlanView {
                name: "Package New IDE"@,
                command_line: Some(
                    "ide build --backend-source current-ci-run --gui-upload-artifact false"@,
                ),
                customization: Customization::Packaging,
            }),
    {
        JobPlan::new(
            "Package New IDE",
            "ide build --backend-source current-ci-run --gui-upload-artifact false",
            Customization::Packaging,
        )
    }
}

/// A step of a job, as far as the plans speak of it: its name and what it runs.
#[derive(Debug, PartialEq, Eq)]
pub struct Step {
    pub name: Option<String>,
    pub run: Option<String>,
}

/// The model of a [`Step`].
pub struct StepView {
    pub name: Option<Seq<char>>,
    pub run: Option<Seq<char>>,
}

impl Step {
    /// The model of the step.
    pub open spec fn view(&self) -> StepView {
        StepView {
            name: match self.name {
                Some(name) => Some(name@),
                None => None,
            },
            run: match self.run {
                Some(run) => Some(run@),
                None => None,
            },
        }
    }

    /// The models of the steps of a sequence, in order.
    pub open spec fn views(steps: Seq<Step>) -> Seq<StepView> {
        Seq::new(steps.len(), |i: int| steps[i]@)
    }

    /// A step that is called `name` and runs `run`.
    pub fn named(name: &str, run: &str) -> (r: Step)
        ensures
            r@ == (StepView { name: Some(name@), run: Some(run@) }),
    {
        Step { name: Some(String::from_str(name)), run: Some(String::from_str(run)) }
    }
}

/// The steps that bring the Electron Builder to the version that macOS needs.
pub open spec fn electron_builder_bump() -> Seq<StepView> {
    seq![
        StepView { name: Some("NPM install"@), run: Some("npm install"@) },
        StepView {
            name: Some("Uninstall old Electron Builder"@),
            run: Some("npm uninstall --save --workspace enso electron-builder"@),
        },
        StepView {
            name: Some("Install new Electron Builder"@),
            run: Some("npm install --save-dev --workspace enso electron-builder@24.6.4"@),
        },
    ]
}

/// The steps that bring the Electron Builder to the version that macOS needs.
pub fn bump_electron_builder() -> (r: Vec<Step>)
    ensures
        Step::views(r@) == electron_builder_bump(),
{
    let mut steps: Vec<Step> = Vec::new();
    steps.push(Step::named("NPM install", "npm install"));
    steps.push(
        Step::named(
            "Uninstall old Electron Builder",
            "npm uninstall --save --workspace enso electron-builder",
        ),
    );
    steps.push(
        Step::named(
            "Install new Electron Builder",
            "npm install --save-dev --workspace enso electron-builder@24.6.4",
        ),
    );
    assert(Step::views(steps@) =~= electron_builder_bump());
    steps
}

/// The steps of packaging around `step`: on macOS the Electron Builder is
/// brought to its version first.
pub fn prepare_packaging_steps(on_macos: bool, step: Step) -> (r: Vec<Step>)
    ensures
        Step::views(r@) == (if on_macos {
            electron_builder_bump()
        } else {
            Seq::empty()
        }).push(step@),
{
    let mut steps: Vec<Step> = if on_macos {
        bump_electron_builder()
    } else {
        Vec::new()
    };
    let ghost before = Step::views(steps@);
    steps.push(step);
    assert(Step::views(steps@) =~= before.push(step@));
    assert(!on_macos ==> before =~= Seq::<StepView>::empty());
    steps
}

} // verus!
