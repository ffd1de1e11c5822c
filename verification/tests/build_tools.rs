use enso_parser::ci;
use enso_parser::future::{try_collect, AsyncPolicy};
use enso_parser::install::{decimal_text, Icon, PlainOpenCommand};

#[test]
fn sbt_command_quotes_the_separator() {
    assert_eq!(ci::sbt_command("verifyLicensePackages"), "backend sbt '--' verifyLicensePackages");
    assert_eq!(ci::sbt_command(""), "backend sbt '--' ");
}

#[test]
fn plans_of_the_plain_jobs() {
    let lint = ci::Lint.job();
    assert_eq!(lint.name, "Lint");
    assert_eq!(lint.command_line.as_deref(), Some("lint"));
    assert_eq!(lint.customization, ci::Customization::Plain);
    let native = ci::NativeTest.job();
    assert_eq!(native.name, "Native Rust tests");
    assert_eq!(native.command_line.as_deref(), Some("wasm test --no-wasm"));
    let gui = ci::GuiTest.job();
    assert_eq!(gui.name, "GUI tests");
    assert_eq!(gui.command_line.as_deref(), Some("gui test"));
    let wasm = ci::WasmTest.job();
    assert_eq!(wasm.name, "WASM tests");
    assert_eq!(wasm.command_line.as_deref(), Some("wasm test --no-native"));
    let backend = ci::BuildBackend.job();
    assert_eq!(backend.name, "Build Backend");
    assert_eq!(backend.command_line.as_deref(), Some("backend get"));
    assert_eq!(backend.customization, ci::Customization::Plain);
}

#[test]
fn plans_of_the_customized_jobs() {
    let cancel = ci::CancelWorkflow.job();
    assert_eq!(cancel.name, "Cancel Previous Runs");
    assert_eq!(cancel.command_line, None);
    assert_eq!(cancel.customization, ci::Customization::CancelPreviousRuns);
    let license = ci::VerifyLicensePackages.job();
    assert_eq!(license.name, "Verify License Packages");
    assert_eq!(license.command_line.as_deref(), Some("backend sbt '--' verifyLicensePackages"));
    let gui = ci::NewGuiBuild.job();
    assert_eq!(gui.name, "GUI build");
    assert_eq!(gui.command_line.as_deref(), Some("gui build"));
    assert_eq!(gui.customization, ci::Customization::GuiVariables);
    let upload = ci::UploadBackend.job();
    assert_eq!(upload.name, "Upload Backend");
    assert_eq!(upload.command_line.as_deref(), Some("backend upload"));
    assert_eq!(upload.customization, ci::Customization::ReleaseCleaning);
    let deploy = ci::DeployRuntime.job();
    assert_eq!(deploy.name, "Upload Runtime to ECR");
    assert_eq!(deploy.command_line.as_deref(), Some("release deploy-runtime"));
    assert_eq!(deploy.customization, ci::Customization::RuntimeDeployment);
    let package = ci::PackageIde.job();
    assert_eq!(package.name, "Package New IDE");
    assert_eq!(
        package.command_line.as_deref(),
        Some("ide build --backend-source current-ci-run --gui-upload-artifact false")
    );
    assert_eq!(package.customization, ci::Customization::Packaging);
}

#[test]
fn job_names_of_the_runner_labels() {
    assert_eq!(ci::RunnerLabel::MacOS.job_name_suffix().as_deref(), Some("MacOS"));
    assert_eq!(ci::RunnerLabel::Linux.job_name_suffix().as_deref(), Some("Linux"));
    assert_eq!(ci::RunnerLabel::Windows.job_name_suffix().as_deref(), Some("Windows"));
    assert_eq!(ci::RunnerLabel::MacOSLatest.job_name_suffix().as_deref(), Some("MacOSLatest"));
    assert_eq!(ci::RunnerLabel::LinuxLatest.job_name_suffix().as_deref(), Some("LinuxLatest"));
    assert_eq!(ci::RunnerLabel::WindowsLatest.job_name_suffix().as_deref(), Some("WindowsLatest"));
    assert_eq!(ci::RunnerLabel::SelfHosted.job_name_suffix(), None);
    assert_eq!(ci::RunnerLabel::Arm64.job_name_suffix(), None);
    assert_eq!(ci::RunnerLabel::MatrixOs.job_name_suffix(), None);
    assert_eq!(ci::RunnerLabel::Linux.runs_on(), vec![ci::RunnerLabel::Linux]);
}

#[test]
fn key_holds_the_edition_in_kebab_case() {
    assert_eq!(
        ci::key("jvm-tests", "GraalVM Community", "linux", "x86_64"),
        "jvm-tests-graal-vm-community-linux-x86_64"
    );
    assert_eq!(
        ci::key("engine", "Enterprise", "macos", "aarch64"),
        "engine-enterprise-macos-aarch64",
    );
    assert_eq!(ci::key_from_parts("a", "B c", "d", "e"), "a-B c-d-e");
}

#[test]
fn job_name_for_an_edition() {
    assert_eq!(ci::edition_job_name("JVM Tests", "Community"), "JVM Tests (Community)");
    assert_eq!(ci::edition_job_name("Engine", "Enterprise"), "Engine (Enterprise)");
}

#[test]
fn packaging_steps_bump_the_builder_on_macos_only() {
    let bump = ci::bump_electron_builder();
    assert_eq!(bump.len(), 3);
    assert_eq!(bump[0], ci::Step::named("NPM install", "npm install"));
    assert_eq!(
        bump[1],
        ci::Step::named(
            "Uninstall old Electron Builder",
            "npm uninstall --save --workspace enso electron-builder"
        )
    );
    assert_eq!(
        bump[2],
        ci::Step::named(
            "Install new Electron Builder",
            "npm install --save-dev --workspace enso electron-builder@24.6.4"
        )
    );
    let step = || ci::Step::named("Package", "ide build");
    let on_macos = ci::prepare_packaging_steps(true, step());
    assert_eq!(on_macos.len(), 4);
    assert_eq!(on_macos[0], bump[0]);
    assert_eq!(on_macos[3], step());
    let elsewhere = ci::prepare_packaging_steps(false, step());
    assert_eq!(elsewhere, vec![step()]);
}

#[test]
fn results_are_collected_until_the_first_error() {
    let all: Vec<Result<u32, String>> = vec![Ok(1), Ok(2), Ok(3)];
    assert_eq!(try_collect(all), Ok(vec![1, 2, 3]));
    let some: Vec<Result<u32, String>> =
        vec![Ok(1), Err("first".to_string()), Ok(3), Err("second".to_string())];
    assert_eq!(try_collect(some), Err("first".to_string()));
    let none: Vec<Result<u32, String>> = vec![];
    assert_eq!(try_collect(none), Ok(vec![]));
}

#[test]
fn policies_of_running_tasks() {
    assert!(!AsyncPolicy::Sequential.is_parallel());
    assert!(AsyncPolicy::FutureParallelism.is_parallel());
    assert!(AsyncPolicy::TaskParallelism.is_parallel());
}

#[test]
fn numbers_in_decimal() {
    assert_eq!(decimal_text(0), "0");
    assert_eq!(decimal_text(7), "7");
    assert_eq!(decimal_text(10), "10");
    assert_eq!(decimal_text(4096), "4096");
    assert_eq!(decimal_text(u32::MAX), "4294967295");
}

#[test]
fn registry_value_of_an_icon() {
    let icon = Icon::new("C:\\Program Files\\Enso\\enso.exe".to_string());
    assert_eq!(icon.icon_index, 0);
    assert_eq!(icon.to_reg_value(), "\"C:\\Program Files\\Enso\\enso.exe\",0");
    let other = Icon { executable_path: "a.dll".to_string(), icon_index: 12 };
    assert_eq!(other.to_reg_value(), "\"a.dll\",12");
}

#[test]
fn registry_value_of_an_open_command() {
    let command = PlainOpenCommand::new("C:\\Enso\\enso.exe".to_string());
    assert_eq!(command.executable_path, "C:\\Enso\\enso.exe");
    assert_eq!(command.to_reg_value(), "\"C:\\Enso\\enso.exe\" \"%1\"");
}
