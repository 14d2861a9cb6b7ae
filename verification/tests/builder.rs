use rs_script::builder::{
    build_outcome, build_steps, cargo_build_args, completion_message, dash_line,
    debug_print_config, edited_source, execution_mode, expression_source, first_build_action,
    has_main, main_method_count, next_build_action, script_dir_plan, script_state,
    source_preparation, stdin_source, strip_shebang, BuildAction, BuildStep, DynamicSource,
    ExecutionMode, ScriptDirPlan, ScriptState, SourcePreparation,
};
use rs_script::cmd_args::BuildRunError;
use rs_script::proc_flags::ProcFlags;

fn flags(bits: u32) -> ProcFlags {
    ProcFlags::from_bits_retain(bits)
}

#[test]
fn mode_prefers_repl_then_dynamic_sources() {
    assert_eq!(execution_mode(&flags(ProcFlags::REPL | ProcFlags::EXPR), true), ExecutionMode::Repl);
    assert_eq!(
        execution_mode(&flags(ProcFlags::EXPR | ProcFlags::STDIN), true),
        ExecutionMode::Dynamic(DynamicSource::Expression)
    );
    assert_eq!(execution_mode(&flags(ProcFlags::STDIN), true), ExecutionMode::Dynamic(DynamicSource::Edit));
    assert_eq!(execution_mode(&flags(ProcFlags::STDIN), false), ExecutionMode::Dynamic(DynamicSource::Stdin));
    assert_eq!(execution_mode(&flags(ProcFlags::ALL), false), ExecutionMode::Script);
}

#[test]
fn script_directory_plans() {
    assert_eq!(
        script_dir_plan(&ExecutionMode::Repl, &Some("demo.rs".to_string())),
        ScriptDirPlan::ReplScript { stem: "demo".to_string() }
    );
    assert_eq!(
        script_dir_plan(&ExecutionMode::Repl, &Some("x.rs.rs".to_string())),
        ScriptDirPlan::ReplScript { stem: "x.rs".to_string() }
    );
    assert_eq!(script_dir_plan(&ExecutionMode::Repl, &None), ScriptDirPlan::NewRepl);
    assert_eq!(
        script_dir_plan(&ExecutionMode::Dynamic(DynamicSource::Stdin), &None),
        ScriptDirPlan::Dynamic
    );
    assert_eq!(
        script_dir_plan(&ExecutionMode::Dynamic(DynamicSource::Expression), &Some("e".to_string())),
        ScriptDirPlan::Dynamic
    );
    assert_eq!(
        script_dir_plan(&ExecutionMode::Script, &Some("a/b.rs".to_string())),
        ScriptDirPlan::ScriptParent { script: "a/b.rs".to_string() }
    );
}

#[test]
fn script_states() {
    let dir = "/tmp/dir".to_string();
    assert_eq!(
        script_state(&Some("x.rs".to_string()), &ExecutionMode::Repl, &None, "temp.rs", dir.clone()),
        ScriptState::Named { script: "x.rs".to_string(), script_dir_path: dir.clone() }
    );
    assert_eq!(
        script_state(&Some("y.rs".to_string()), &ExecutionMode::Script, &None, "temp.rs", dir.clone()),
        ScriptState::Named { script: "y.rs".to_string(), script_dir_path: dir.clone() }
    );
    assert_eq!(
        script_state(&None, &ExecutionMode::Repl, &Some("/r/repl_1.rs".to_string()), "temp.rs", dir.clone()),
        ScriptState::NamedEmpty { script: "/r/repl_1.rs".to_string(), script_dir_path: dir.clone() }
    );
    assert_eq!(
        script_state(&None, &ExecutionMode::Dynamic(DynamicSource::Expression), &None, "temp.rs", dir.clone()),
        ScriptState::NamedEmpty { script: "temp.rs".to_string(), script_dir_path: dir }
    );
}

#[test]
fn dynamic_sources() {
    assert_eq!(expression_source(&Some("5 + 6".to_string())), Ok("5 + 6".to_string()));
    assert_eq!(
        expression_source(&None),
        Err(BuildRunError::Command("Missing expression for --expr option".to_string()))
    );
    let lines = vec!["let x = 1;".to_string(), "x + 1".to_string()];
    assert_eq!(edited_source(&lines), "let x = 1;\nx + 1");
    assert_eq!(stdin_source("1 + 2".to_string()), "1 + 2\n");
}

#[test]
fn shebang_is_stripped() {
    assert_eq!(strip_shebang("#!/usr/bin/env rs-script\nfn main() {}"), "fn main() {}");
    assert_eq!(strip_shebang("fn main() {}"), "fn main() {}");
    assert_eq!(strip_shebang("#!a\nb\nc"), "b\nc");
    assert_eq!(strip_shebang("#!\n"), "");
    assert_eq!(strip_shebang("no shebang\n#!x"), "no shebang\n#!x");
}

#[test]
fn main_methods_are_counted() {
    assert_eq!(main_method_count("fn main() {}", None), Some(1));
    assert_eq!(main_method_count("async fn main ( ) {}\n  fn main() {}", None), Some(2));
    assert_eq!(main_method_count("println!(\"hi\");", None), Some(0));
    assert_eq!(main_method_count("let fn_main = 1; fn main() {}", None), Some(0));
    assert_eq!(main_method_count("anything", Some(3)), Some(3));
}

#[test]
fn main_method_decision() {
    assert_eq!(has_main(0, false), Ok(false));
    assert_eq!(has_main(1, false), Ok(true));
    assert_eq!(has_main(2, true), Ok(true));
    assert_eq!(
        has_main(2, false),
        Err(BuildRunError::Command(
            "2 main methods found, only one allowed by default. Specify --multimain option to allow more"
                .to_string()
        ))
    );
}

#[test]
fn source_preparations() {
    assert_eq!(source_preparation(true, "{ fn main() {} }", true), SourcePreparation::StripBraces);
    assert_eq!(source_preparation(true, "fn main() {}", true), SourcePreparation::AsIs);
    assert_eq!(source_preparation(false, "1 + 1", true), SourcePreparation::WrapExpression);
    assert_eq!(source_preparation(false, "for i in 0..3 {}", false), SourcePreparation::WrapSource);
}

#[test]
fn steps_of_a_build() {
    assert_eq!(
        build_steps(true, true, &flags(ProcFlags::RUN)),
        vec![BuildStep::Generate, BuildStep::Build, BuildStep::Run]
    );
    assert_eq!(
        build_steps(false, false, &flags(ProcFlags::GENERATE)),
        vec![BuildStep::SkipGeneration, BuildStep::SkipBuild]
    );
}

#[test]
fn cargo_arguments() {
    assert_eq!(
        cargo_build_args("/t/Cargo.toml", &flags(0)),
        vec!["build", "--manifest-path", "/t/Cargo.toml"]
    );
    assert_eq!(
        cargo_build_args("/t/Cargo.toml", &flags(ProcFlags::QUIET)),
        vec!["build", "--manifest-path", "/t/Cargo.toml", "--quiet"]
    );
}

#[test]
fn build_results_and_messages() {
    assert_eq!(build_outcome(true), Ok(()));
    assert_eq!(build_outcome(false), Err(BuildRunError::Command("Build failed".to_string())));
    assert_eq!(dash_line(5), "-----");
    assert_eq!(dash_line(0), "");
    assert_eq!(completion_message("rs-script", "demo.rs"), "rs-script completed processing script demo.rs");
    assert_eq!(
        debug_print_config("rs-script", "0.1.0", "rs_repl"),
        vec!["PACKAGE_NAME=rs-script", "VERSION=0.1.0", "REPL_SUBDIR=rs_repl"]
    );
}

fn outcome_of(failing: Option<usize>, index: usize) -> Result<(), BuildRunError> {
    if failing == Some(index) {
        Err(BuildRunError::Command(format!("step {index} failed")))
    } else {
        Ok(())
    }
}

fn drive_steps(steps: &Vec<BuildStep>, failing: Option<usize>) -> (Vec<BuildStep>, Result<(), BuildRunError>) {
    let mut performed = Vec::new();
    let mut action = first_build_action(steps);
    let mut done = 0;
    loop {
        match action {
            BuildAction::Perform(step) => {
                performed.push(step);
                action = next_build_action(steps, done, outcome_of(failing, done));
                done += 1;
            }
            BuildAction::Finish(result) => return (performed, result),
        }
    }
}

#[test]
fn actions_of_a_build() {
    let steps = build_steps(true, false, &flags(ProcFlags::RUN));
    assert_eq!(first_build_action(&steps), BuildAction::Perform(BuildStep::Generate));
    assert_eq!(first_build_action(&Vec::new()), BuildAction::Finish(Ok(())));
    assert_eq!(next_build_action(&steps, 0, Ok(())), BuildAction::Perform(BuildStep::SkipBuild));
    assert_eq!(next_build_action(&steps, 1, Ok(())), BuildAction::Perform(BuildStep::Run));
    assert_eq!(next_build_action(&steps, 2, Ok(())), BuildAction::Finish(Ok(())));
    assert_eq!(
        next_build_action(&steps, 0, Err(BuildRunError::Command("Build failed".to_string()))),
        BuildAction::Finish(Err(BuildRunError::Command("Build failed".to_string())))
    );
}

#[test]
fn first_failure_stops_the_build() {
    let steps = build_steps(true, true, &flags(ProcFlags::RUN));
    assert_eq!(drive_steps(&steps, None), (steps.clone(), Ok(())));
    assert_eq!(
        drive_steps(&steps, Some(1)),
        (
            vec![BuildStep::Generate, BuildStep::Build],
            Err(BuildRunError::Command("step 1 failed".to_string()))
        )
    );
    assert_eq!(
        drive_steps(&steps, Some(0)),
        (vec![BuildStep::Generate], Err(BuildRunError::Command("step 0 failed".to_string())))
    );
}
