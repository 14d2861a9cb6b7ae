//! The decisions of building and running a script: which mode a run takes,
//! where its source lives, how the source is prepared, which steps run, and
//! the commands and messages of those steps.
use vstd::prelude::*;
use crate::cmd_args::BuildRunError;
use crate::proc_flags::{ProcFlags, has_flag};
use crate::text::{
    append_decimal, decimal, ends_with, has_no, join_strings, join_with, starts_with,
    str_starts_with, strip_suffix,
};

verus! {

/// The file suffix of a Rust script.
pub const RS_SUFFIX: &'static str = ".rs";

// ---------------------------------------------------------------------------
// The mode of a run
// ---------------------------------------------------------------------------

/// Where the source of a dynamic run comes from.
#[derive(Clone, Debug, PartialEq, Eq)]
pub enum DynamicSource {
    /// The expression given on the command line.
    Expression,
    /// Lines typed into the editor.
    Edit,
    /// Standard input.
    Stdin,
}

/// How a run proceeds.
#[derive(Clone, Debug, PartialEq, Eq)]
pub enum ExecutionMode {
    /// Read-eval-print loop.
    Repl,
    /// A source made up at run time.
    Dynamic(DynamicSource),
    /// A script file prepared beforehand.
    Script,
}

/// The mode for the given flags; `is_edit` tells whether the source is to be
/// typed into the editor.
pub open spec fn spec_execution_mode(flags: u32, is_edit: bool) -> ExecutionMode {
    if has_flag(flags, ProcFlags::REPL) {
        ExecutionMode::Repl
    } else if has_flag(flags, ProcFlags::EXPR) {
        ExecutionMode::Dynamic(DynamicSource::Expression)
    } else if is_edit {
        ExecutionMode::Dynamic(DynamicSource::Edit)
    } else if has_flag(flags, ProcFlags::STDIN) {
        ExecutionMode::Dynamic(DynamicSource::Stdin)
    } else {
        ExecutionMode::Script
    }
}

/// Chooses how a run proceeds: the REPL first, then a dynamic source (an
/// expression, then the editor, then standard input), else a script file.
pub fn execution_mode(proc_flags: &ProcFlags, is_edit: bool) -> (r: ExecutionMode)
    ensures
        r == spec_execution_mode(proc_flags@, is_edit),
        has_flag(proc_flags@, ProcFlags::REPL) ==> r == ExecutionMode::Repl,
        !has_flag(proc_flags@, ProcFlags::REPL) && has_flag(proc_flags@, ProcFlags::EXPR)
            ==> r == ExecutionMode::Dynamic(DynamicSource::Expression),
        !has_flag(proc_flags@, ProcFlags::REPL) && !has_flag(proc_flags@, ProcFlags::EXPR) && is_edit
            ==> r == ExecutionMode::Dynamic(DynamicSource::Edit),
        !has_flag(proc_flags@, ProcFlags::REPL) && !has_flag(proc_flags@, ProcFlags::EXPR) && !is_edit
            && has_flag(proc_flags@, ProcFlags::STDIN) ==> r == ExecutionMode::Dynamic(DynamicSource::Stdin),
        !has_flag(proc_flags@, ProcFlags::REPL) && !has_flag(proc_flags@, ProcFlags::EXPR) && !is_edit
            && !has_flag(proc_flags@, ProcFlags::STDIN) ==> r == ExecutionMode::Script,
{
    if proc_flags.contains(ProcFlags::REPL) {
        ExecutionMode::Repl
    } else if proc_flags.contains(ProcFlags::EXPR) {
        ExecutionMode::Dynamic(DynamicSource::Expression)
    } else if is_edit {
        ExecutionMode::Dynamic(DynamicSource::Edit)
    } else if proc_flags.contains(ProcFlags::STDIN) {
        ExecutionMode::Dynamic(DynamicSource::Stdin)
    } else {
        ExecutionMode::Script
    }
}

/// The REPL flag decides alone; without it an expression comes first, then
/// the editor, then standard input; with none of them the run is a script
/// file. Only these three flags and the editor choice matter.
pub proof fn lemma_execution_mode_by_flags(flags: u32, is_edit: bool)
    ensures
        has_flag(flags, ProcFlags::REPL) ==> spec_execution_mode(flags, is_edit) == ExecutionMode::Repl,
        !has_flag(flags, ProcFlags::REPL) && has_flag(flags, ProcFlags::EXPR)
            ==> spec_execution_mode(flags, is_edit) == ExecutionMode::Dynamic(DynamicSource::Expression),
        !has_flag(flags, ProcFlags::REPL) && !has_flag(flags, ProcFlags::EXPR) && is_edit
            ==> spec_execution_mode(flags, is_edit) == ExecutionMode::Dynamic(DynamicSource::Edit),
        !has_flag(flags, ProcFlags::REPL) && !has_flag(flags, ProcFlags::EXPR) && !is_edit
            && has_flag(flags, ProcFlags::STDIN)
            ==> spec_execution_mode(flags, is_edit) == ExecutionMode::Dynamic(DynamicSource::Stdin),
        !has_flag(flags, ProcFlags::REPL) && !has_flag(flags, ProcFlags::EXPR) && !is_edit
            && !has_flag(flags, ProcFlags::STDIN) ==> spec_execution_mode(flags, is_edit) == ExecutionMode::Script,
{
}

// ---------------------------------------------------------------------------
// Where the script lives
// ---------------------------------------------------------------------------

/// Where the directory of the script is found.
#[derive(Clone, Debug, PartialEq, Eq)]
pub enum ScriptDirPlan {
    /// In the REPL, a named script: the working directory joined with the
    /// script's name without its suffix.
    ReplScript { stem: String },
    /// In the REPL without a script: the directory of the new REPL source file.
    NewRepl,
    /// A dynamic source: the directory for dynamic sources.
    Dynamic,
    /// A script file: the directory that holds it.
    ScriptParent { script: String },
}

/// Chooses where the script's directory is found.
///
/// A named script in the REPL must end in `.rs`, and a script run needs a
/// script: the caller checks both before the call, as a run ends without a
/// directory otherwise.
pub fn script_dir_plan(mode: &ExecutionMode, script: &Option<String>) -> (r: ScriptDirPlan)
    requires
        (*mode == ExecutionMode::Repl && script.is_some()) ==> ends_with(script.unwrap()@, RS_SUFFIX@),
        *mode == ExecutionMode::Script ==> script.is_some(),
    ensures
        match (mode, script) {
            (ExecutionMode::Repl, Some(s)) =>
                r matches ScriptDirPlan::ReplScript { stem } && stem@ == s@.take(s@.len() - RS_SUFFIX@.len()),
            (ExecutionMode::Repl, None) => r == ScriptDirPlan::NewRepl,
            (ExecutionMode::Dynamic(_), _) => r == ScriptDirPlan::Dynamic,
            (ExecutionMode::Script, Some(s)) => r matches ScriptDirPlan::ScriptParent { script } && script@ == s@,
            (ExecutionMode::Script, None) => false,
        },
{
    match mode {
        ExecutionMode::Repl => match script {
            Some(s) => match strip_suffix(s.as_str(), RS_SUFFIX) {
                Some(stem) => ScriptDirPlan::ReplScript { stem },
                None => {
                    proof {
                        assert(false);
                    }
                    ScriptDirPlan::NewRepl
                },
            },
            None => ScriptDirPlan::NewRepl,
        },
        ExecutionMode::Dynamic(_) => ScriptDirPlan::Dynamic,
        ExecutionMode::Script => match script {
            Some(s) => ScriptDirPlan::ScriptParent { script: s.clone() },
            None => {
                proof {
                    assert(false);
                }
                ScriptDirPlan::Dynamic
            },
        },
    }
}

/// The script of a run and the directory that holds it.
#[derive(Clone, Debug, PartialEq, Eq)]
pub enum ScriptState {
    /// A script that has a name but no source yet.
    NamedEmpty { script: String, script_dir_path: String },
    /// A script named on the command line.
    Named { script: String, script_dir_path: String },
}

/// Names the script of a run: the script of the command line if there is
/// one; else, in the REPL, the new REPL source file; else, for a dynamic
/// source, the temporary script.
///
/// Without a script of the command line, the run is the REPL, which has
/// created its new source file, or a dynamic one.
pub fn script_state(
    script: &Option<String>,
    mode: &ExecutionMode,
    repl_source_path: &Option<String>,
    temp_script_name: &str,
    script_dir_path: String,
) -> (r: ScriptState)
    requires
        script.is_none() ==> *mode != ExecutionMode::Script,
        (script.is_none() && *mode == ExecutionMode::Repl) ==> repl_source_path.is_some(),
    ensures
        match script {
            Some(s) => r matches ScriptState::Named { script: n, script_dir_path: d }
                && n@ == s@ && d@ == script_dir_path@,
            None => match (mode, repl_source_path) {
                (ExecutionMode::Repl, Some(p)) => r matches ScriptState::NamedEmpty { script: n, script_dir_path: d }
                    && n@ == p@ && d@ == script_dir_path@,
                (ExecutionMode::Dynamic(_), _) => r matches ScriptState::NamedEmpty { script: n, script_dir_path: d }
                    && n@ == temp_script_name@ && d@ == script_dir_path@,
                _ => false,
            },
        },
{
    match script {
        Some(s) => ScriptState::Named { script: s.clone(), script_dir_path },
        None => match mode {
            ExecutionMode::Repl => match repl_source_path {
                Some(p) => ScriptState::NamedEmpty { script: p.clone(), script_dir_path },
                None => {
                    proof {
                        assert(false);
                    }
                    ScriptState::Named { script: String::new(), script_dir_path }
                },
            },
            ExecutionMode::Dynamic(_) => ScriptState::NamedEmpty {
                script: String::from_str(temp_script_name),
                script_dir_path,
            },
            ExecutionMode::Script => {
                proof {
                    assert(false);
                }
                ScriptState::Named { script: String::new(), script_dir_path }
            },
        },
    }
}

// ---------------------------------------------------------------------------
// Dynamic sources
// ---------------------------------------------------------------------------

pub open spec fn missing_expression_message() -> Seq<char> {
    "Missing expression for --expr option"@
}

/// The source of an expression run: the expression itself.
pub fn expression_source(expression: &Option<String>) -> (r: Result<String, BuildRunError>)
    ensures
        match expression {
            Some(e) => r matches Ok(s) && s@ == e@,
            None => r matches Err(BuildRunError::Command(m)) && m@ == missing_expression_message(),
        },
{
    match expression {
        Some(e) => Ok(e.clone()),
        None => Err(BuildRunError::Command(String::from_str("Missing expression for --expr option"))),
    }
}

/// The source of an editor run: the lines joined by line feeds.
pub fn edited_source(lines: &Vec<String>) -> (r: String)
    ensures
        r@ == join_with(lines@.map_values(|l: String| l@), seq!['\n']),
{
    let nl = "\n";
    proof {
        reveal_strlit("\n");
        assert(nl@ =~= seq!['\n']);
    }
    join_strings(lines, nl)
}

/// The source of a standard-input run: the text read, then a line feed.
pub fn stdin_source(text: String) -> (r: String)
    ensures
        r@ == text@ + seq!['\n'],
{
    let mut r = text;
    r.append("\n");
    proof {
        reveal_strlit("\n");
    }
    r
}

// ---------------------------------------------------------------------------
// Preparing the source
// ---------------------------------------------------------------------------

/// Whether `s` starts with a shebang.
pub open spec fn has_shebang(s: Seq<char>) -> bool {
    starts_with(s, seq!['#', '!'])
}

/// `source` without a leading shebang line: after a shebang, the text
/// after the first line feed.
///
/// A source that starts with a shebang has a line feed to end it; the
/// caller checks that before the call, as the script cannot be prepared
/// otherwise.
pub fn strip_shebang(source: &str) -> (r: String)
    requires
        has_shebang(source@) ==> !has_no(source@, '\n'),
    ensures
        !has_shebang(source@) ==> r@ == source@,
        has_shebang(source@) ==> exists|k: int| 0 <= k < source@.len() && source@[k] == '\n'
            && has_no(#[trigger] source@.take(k), '\n') && r@ == source@.skip(k + 1),
{
    let bang = "#!";
    proof {
        reveal_strlit("#!");
        assert(bang@ =~= seq!['#', '!']);
    }
    if !str_starts_with(source, bang) {
        return String::from_str(source);
    }
    let n = source.unicode_len();
    let mut k: usize = 0;
    while k < n
        invariant
            n == source@.len(),
            k <= n,
            has_shebang(source@),
            !has_no(source@, '\n'),
            has_no(source@.take(k as int), '\n'),
        decreases n - k,
    {
        if source.get_char(k) == '\n' {
            let t = String::from_str(source.substring_char(k + 1, n));
            assert(source@.subrange(k + 1, n as int) =~= source@.skip(k + 1));
            return t;
        }
        assert(has_no(source@.take(k + 1), '\n')) by {
            assert forall|j: int| 0 <= j < k + 1 implies #[trigger] source@.take(k + 1)[j] != '\n' by {
                if j < k {
                    assert(source@.take(k + 1)[j] == source@.take(k as int)[j]);
                }
            }
        }
        k = k + 1;
    }
    assert(source@.take(n as int) =~= source@);
    proof {
        assert(false);
    }
    String::new()
}

/// The pattern of a `main` function in source text that could not be parsed.
pub open spec fn main_fn_pattern() -> Seq<char> {
    "(?m)^\\s*(async\\s+)?fn\\s+main\\s*\\(\\s*\\)"@
}

/// The number of non-overlapping matches of the regular expression
/// `pattern` in `haystack`, as the `regex` crate finds them; `None` when the
/// pattern is not a valid regular expression.
pub uninterp spec fn regex_find_count(pattern: Seq<char>, haystack: Seq<char>) -> Option<usize>;

/// Compiles `pattern` with `regex::Regex::new` and counts the matches that
/// `Regex::find_iter` yields in `haystack`; `None` when the pattern does not
/// compile. Only that the result is this count is claimed.
#[verifier::external_body]
fn regex_match_count(pattern: &str, haystack: &str) -> (r: Option<usize>)
    ensures
        r == regex_find_count(pattern@, haystack@),
{
    match regex::Regex::new(pattern) {
        Ok(re) => Some(re.find_iter(haystack).count()),
        Err(_) => None,
    }
}

/// The number of `main` functions of a source: as the syntax tree counts
/// them when there is one, else the matches of the `main` pattern in the
/// text; `None` when the pattern does not compile.
pub fn main_method_count(source: &str, syntax_tree_count: Option<usize>) -> (r: Option<usize>)
    ensures
        match syntax_tree_count {
            Some(n) => r == Some(n),
            None => r == regex_find_count(main_fn_pattern(), source@),
        },
{
    match syntax_tree_count {
        Some(n) => Some(n),
        None => regex_match_count("(?m)^\\s*(async\\s+)?fn\\s+main\\s*\\(\\s*\\)", source),
    }
}

/// The message for a source with more than one `main` function.
pub open spec fn many_mains_message(count: nat) -> Seq<char> {
    decimal(count) + " main methods found, only one allowed by default. Specify --multimain option to allow more"@
}

/// Whether the source has its own `main` function: none means no, one means
/// yes, more are allowed only with `multimain`.
///
/// More than one without `multimain` ends the run: the error holds the
/// message that the caller writes to standard error before it exits with
/// status 1, and it is never handed on as the result of the run.
pub fn has_main(main_methods: usize, multimain: bool) -> (r: Result<bool, BuildRunError>)
    ensures
        main_methods == 0 ==> (r matches Ok(b) && !b),
        main_methods == 1 ==> (r matches Ok(b) && b),
        main_methods > 1 && multimain ==> (r matches Ok(b) && b),
        main_methods > 1 && !multimain ==> (r matches Err(BuildRunError::Command(m))
            && m@ == many_mains_message(main_methods as nat)),
{
    if main_methods == 0 {
        Ok(false)
    } else if main_methods == 1 {
        Ok(true)
    } else if multimain {
        Ok(true)
    } else {
        let mut m = String::new();
        append_decimal(&mut m, main_methods);
        m.append(" main methods found, only one allowed by default. Specify --multimain option to allow more");
        Err(BuildRunError::Command(m))
    }
}

/// How the source is turned into the program that is generated.
#[derive(Clone, Debug, PartialEq, Eq)]
pub enum SourcePreparation {
    /// The source is used as it is.
    AsIs,
    /// The braces that enclose the source are stripped.
    StripBraces,
    /// The expression of the syntax tree is wrapped to print its value.
    WrapExpression,
    /// The source is wrapped as a snippet.
    WrapSource,
}

/// Chooses how the source is prepared: a source with its own `main` is used
/// as it is, less enclosing braces; any other source is wrapped, as the
/// printed value of its expression when it has a syntax tree.
pub fn source_preparation(has_main: bool, source: &str, has_syntax_tree: bool) -> (r: SourcePreparation)
    ensures
        has_main && starts_with(source@, seq!['{']) ==> r == SourcePreparation::StripBraces,
        has_main && !starts_with(source@, seq!['{']) ==> r == SourcePreparation::AsIs,
        !has_main && has_syntax_tree ==> r == SourcePreparation::WrapExpression,
        !has_main && !has_syntax_tree ==> r == SourcePreparation::WrapSource,
{
    let brace = "{";
    proof {
        reveal_strlit("{");
        assert(brace@ =~= seq!['{']);
    }
    if has_main {
        if str_starts_with(source, brace) {
            SourcePreparation::StripBraces
        } else {
            SourcePreparation::AsIs
        }
    } else if has_syntax_tree {
        SourcePreparation::WrapExpression
    } else {
        SourcePreparation::WrapSource
    }
}

// ---------------------------------------------------------------------------
// The steps of a build-and-run
// ---------------------------------------------------------------------------

/// One step of generating, building and running a script.
#[derive(Clone, Copy, Debug, PartialEq, Eq)]
pub enum BuildStep {
    /// Generate the source and manifest.
    Generate,
    /// Report that generation is not needed.
    SkipGeneration,
    /// Build with cargo.
    Build,
    /// Report that the build is not needed.
    SkipBuild,
    /// Run the built program.
    Run,
}

pub open spec fn spec_build_steps(must_gen: bool, must_build: bool, run: bool) -> Seq<BuildStep> {
    seq![
        if must_gen { BuildStep::Generate } else { BuildStep::SkipGeneration },
        if must_build { BuildStep::Build } else { BuildStep::SkipBuild },
    ] + if run { seq![BuildStep::Run] } else { Seq::<BuildStep>::empty() }
}

/// The steps in order: generation or its skipping, the build or its
/// skipping, then the run when the flags ask for it.
pub fn build_steps(must_gen: bool, must_build: bool, proc_flags: &ProcFlags) -> (r: Vec<BuildStep>)
    ensures
        r@ == spec_build_steps(must_gen, must_build, has_flag(proc_flags@, ProcFlags::RUN)),
        r@.len() == (if has_flag(proc_flags@, ProcFlags::RUN) { 3int } else { 2int }),
        r@[0] == (if must_gen { BuildStep::Generate } else { BuildStep::SkipGeneration }),
        r@[1] == (if must_build { BuildStep::Build } else { BuildStep::SkipBuild }),
        (r@.last() == BuildStep::Run) <==> has_flag(proc_flags@, ProcFlags::RUN),
{
    let mut steps: Vec<BuildStep> = Vec::new();
    steps.push(if must_gen { BuildStep::Generate } else { BuildStep::SkipGeneration });
    steps.push(if must_build { BuildStep::Build } else { BuildStep::SkipBuild });
    if proc_flags.contains(ProcFlags::RUN) {
        steps.push(BuildStep::Run);
    }
    assert(steps@ =~= spec_build_steps(must_gen, must_build, has_flag(proc_flags@, ProcFlags::RUN)));
    steps
}

/// Generation comes first, done or skipped by `must_gen`, then the build,
/// done or skipped by `must_build`; the run comes last, and exactly when it
/// is asked for, whether or not anything was generated or built.
pub proof fn lemma_build_steps_order(must_gen: bool, must_build: bool, run: bool)
    ensures
        ({
            let steps = spec_build_steps(must_gen, must_build, run);
            &&& steps.len() == (if run { 3int } else { 2int })
            &&& steps[0] == (if must_gen { BuildStep::Generate } else { BuildStep::SkipGeneration })
            &&& steps[1] == (if must_build { BuildStep::Build } else { BuildStep::SkipBuild })
            &&& (steps.last() == BuildStep::Run) <==> run
            &&& steps.contains(BuildStep::Run) <==> run
            &&& steps.contains(BuildStep::Generate) <==> must_gen
            &&& steps.contains(BuildStep::Build) <==> must_build
        }),
{
    let steps = spec_build_steps(must_gen, must_build, run);
    if run {
        assert(steps[2] == BuildStep::Run);
    }
    if steps.contains(BuildStep::Run) {
        let k = choose|k: int| 0 <= k < steps.len() && steps[k] == BuildStep::Run;
        assert(k == 2);
    }
    if steps.contains(BuildStep::Generate) {
        let k = choose|k: int| 0 <= k < steps.len() && steps[k] == BuildStep::Generate;
    }
    if must_gen {
        assert(steps[0] == BuildStep::Generate);
    }
    if steps.contains(BuildStep::Build) {
        let k = choose|k: int| 0 <= k < steps.len() && steps[k] == BuildStep::Build;
    }
    if must_build {
        assert(steps[1] == BuildStep::Build);
    }
}

/// What comes next in a build-and-run: a step to perform, or the end with
/// its result.
#[derive(Debug, PartialEq, Eq)]
pub enum BuildAction {
    /// Perform this step and report its outcome.
    Perform(BuildStep),
    /// The build-and-run is over, with this result.
    Finish(Result<(), BuildRunError>),
}

pub open spec fn spec_first_build_action(steps: Seq<BuildStep>) -> BuildAction {
    if steps.len() == 0 {
        BuildAction::Finish(Ok(()))
    } else {
        BuildAction::Perform(steps[0])
    }
}

pub open spec fn spec_next_build_action(
    steps: Seq<BuildStep>,
    done: int,
    outcome: Result<(), BuildRunError>,
) -> BuildAction {
    match outcome {
        Err(e) => BuildAction::Finish(Err(e)),
        Ok(_) => if done + 1 < steps.len() {
            BuildAction::Perform(steps[done + 1])
        } else {
            BuildAction::Finish(Ok(()))
        },
    }
}

/// The first action of a build-and-run: its first step, or the end when
/// there is none.
pub fn first_build_action(steps: &Vec<BuildStep>) -> (r: BuildAction)
    ensures
        r == spec_first_build_action(steps@),
        steps@.len() == 0 ==> r == BuildAction::Finish(Ok(())),
        steps@.len() > 0 ==> r == BuildAction::Perform(steps@[0]),
{
    if steps.len() == 0 {
        BuildAction::Finish(Ok(()))
    } else {
        BuildAction::Perform(steps[0])
    }
}

/// The action after step `done` gave `outcome`: a failure ends the
/// build-and-run with its error; a success goes on to the next step, or
/// ends it with success after the last.
pub fn next_build_action(steps: &Vec<BuildStep>, done: usize, outcome: Result<(), BuildRunError>) -> (r: BuildAction)
    requires
        done < steps.len(),
    ensures
        r == spec_next_build_action(steps@, done as int, outcome),
        outcome is Err ==> r == BuildAction::Finish(outcome),
        outcome is Ok && done + 1 < steps@.len() ==> r == BuildAction::Perform(steps@[done + 1]),
        outcome is Ok && done + 1 == steps@.len() ==> r == BuildAction::Finish(Ok(())),
{
    match outcome {
        Err(e) => BuildAction::Finish(Err(e)),
        Ok(()) => if done + 1 < steps.len() {
            BuildAction::Perform(steps[done + 1])
        } else {
            BuildAction::Finish(Ok(()))
        },
    }
}

/// The steps performed and the result when the build-and-run goes on from
/// step `i`, which is `s`, with `outcomes[j]` the outcome of step `j`.
pub open spec fn drive_from(
    steps: Seq<BuildStep>,
    outcomes: Seq<Result<(), BuildRunError>>,
    s: BuildStep,
    i: nat,
) -> (Seq<BuildStep>, Result<(), BuildRunError>)
    decreases steps.len() - i,
{
    if i >= steps.len() {
        (seq![s], Ok(()))
    } else {
        match spec_next_build_action(steps, i as int, outcomes[i as int]) {
            BuildAction::Finish(r) => (seq![s], r),
            BuildAction::Perform(t) => {
                let rest = drive_from(steps, outcomes, t, i + 1);
                (seq![s] + rest.0, rest.1)
            },
        }
    }
}

/// The steps performed and the result of a build-and-run driven by
/// [`first_build_action`] and [`next_build_action`], when step `j` has the
/// outcome `outcomes[j]`.
pub open spec fn drive(
    steps: Seq<BuildStep>,
    outcomes: Seq<Result<(), BuildRunError>>,
) -> (Seq<BuildStep>, Result<(), BuildRunError>) {
    match spec_first_build_action(steps) {
        BuildAction::Finish(r) => (Seq::<BuildStep>::empty(), r),
        BuildAction::Perform(s) => drive_from(steps, outcomes, s, 0),
    }
}

proof fn lemma_drive_from(steps: Seq<BuildStep>, outcomes: Seq<Result<(), BuildRunError>>, i: nat)
    requires
        i < steps.len(),
        outcomes.len() >= steps.len(),
    ensures
        ({
            let (p, r) = drive_from(steps, outcomes, steps[i as int], i);
            &&& (r is Ok) <==> (forall|j: int| i <= j < steps.len() ==> #[trigger] outcomes[j] is Ok)
            &&& r is Ok ==> p == steps.skip(i as int)
            &&& r is Err ==> exists|k: int| #![trigger outcomes[k]]
                i <= k < steps.len() && outcomes[k] == r
                && (forall|j: int| i <= j < k ==> #[trigger] outcomes[j] is Ok)
                && p == steps.subrange(i as int, k + 1)
        }),
    decreases steps.len() - i,
{
    let (p, r) = drive_from(steps, outcomes, steps[i as int], i);
    match outcomes[i as int] {
        Err(e) => {
            assert(p =~= steps.subrange(i as int, i + 1 as int));
        },
        Ok(_) => {
            if i + 1 < steps.len() {
                lemma_drive_from(steps, outcomes, i + 1);
                let (p1, r1) = drive_from(steps, outcomes, steps[i + 1 as int], i + 1);
                assert(p == seq![steps[i as int]] + p1);
                if r is Ok {
                    assert(p =~= steps.skip(i as int));
                } else {
                    let k = choose|k: int| #![trigger outcomes[k]]
                        i + 1 <= k < steps.len() && outcomes[k] == r1
                        && (forall|j: int| i + 1 <= j < k ==> #[trigger] outcomes[j] is Ok)
                        && p1 == steps.subrange(i + 1 as int, k + 1);
                    assert(p =~= steps.subrange(i as int, k + 1));
                    assert(forall|j: int| i <= j < k ==> #[trigger] outcomes[j] is Ok);
                }
            } else {
                assert(p =~= steps.skip(i as int));
            }
        },
    }
}

/// A build-and-run performs its steps in order and stops at the first that
/// fails: its result is success exactly when every step succeeds, and then
/// every step was performed; else it is the error of the first step that
/// failed, and no step after it was performed.
pub proof fn lemma_first_failure_stops(steps: Seq<BuildStep>, outcomes: Seq<Result<(), BuildRunError>>)
    requires
        outcomes.len() >= steps.len(),
    ensures
        ({
            let (p, r) = drive(steps, outcomes);
            &&& (r is Ok) <==> (forall|j: int| 0 <= j < steps.len() ==> #[trigger] outcomes[j] is Ok)
            &&& r is Ok ==> p == steps
            &&& r is Err ==> exists|k: int| #![trigger outcomes[k]]
                0 <= k < steps.len() && outcomes[k] == r
                && (forall|j: int| 0 <= j < k ==> #[trigger] outcomes[j] is Ok)
                && p == steps.take(k + 1)
        }),
{
    if steps.len() > 0 {
        lemma_drive_from(steps, outcomes, 0);
        assert(steps.skip(0) =~= steps);
        let (p, r) = drive(steps, outcomes);
        if r is Err {
            let k = choose|k: int| #![trigger outcomes[k]]
                0 <= k < steps.len() && outcomes[k] == r
                && (forall|j: int| 0 <= j < k ==> #[trigger] outcomes[j] is Ok)
                && p == steps.subrange(0, k + 1);
            assert(steps.subrange(0, k + 1) =~= steps.take(k + 1));
        }
    }
}

/// The arguments of the cargo command that builds the script.
pub open spec fn spec_cargo_build_args(cargo_toml_path: Seq<char>, quiet: bool) -> Seq<Seq<char>> {
    seq!["build"@, "--manifest-path"@, cargo_toml_path] + if quiet {
        seq!["--quiet"@]
    } else {
        Seq::<Seq<char>>::empty()
    }
}

/// The arguments of `cargo` for the build: `build --manifest-path <path>`,
/// with `--quiet` when the flags ask for quiet output.
pub fn cargo_build_args(cargo_toml_path: &str, proc_flags: &ProcFlags) -> (r: Vec<String>)
    ensures
        r@.map_values(|a: String| a@) == spec_cargo_build_args(
            cargo_toml_path@,
            has_flag(proc_flags@, ProcFlags::QUIET),
        ),
        r@.len() == (if has_flag(proc_flags@, ProcFlags::QUIET) { 4int } else { 3int }),
        r@[0]@ == "build"@,
        r@[1]@ == "--manifest-path"@,
        r@[2]@ == cargo_toml_path@,
        has_flag(proc_flags@, ProcFlags::QUIET) ==> r@[3]@ == "--quiet"@,
{
    let mut args: Vec<String> = Vec::new();
    args.push(String::from_str("build"));
    args.push(String::from_str("--manifest-path"));
    args.push(String::from_str(cargo_toml_path));
    if proc_flags.contains(ProcFlags::QUIET) {
        args.push(String::from_str("--quiet"));
    }
    assert(args@.map_values(|a: String| a@) =~= spec_cargo_build_args(
        cargo_toml_path@,
        has_flag(proc_flags@, ProcFlags::QUIET),
    ));
    args
}

pub open spec fn build_failed_message() -> Seq<char> {
    "Build failed"@
}

/// The outcome of the build from the success of the cargo process.
pub fn build_outcome(success: bool) -> (r: Result<(), BuildRunError>)
    ensures
        success ==> r is Ok,
        !success ==> (r matches Err(BuildRunError::Command(m)) && m@ == build_failed_message()),
{
    if success {
        Ok(())
    } else {
        Err(BuildRunError::Command(String::from_str("Build failed")))
    }
}

/// A line of `len` dashes, written above and below the output of a run.
pub fn dash_line(len: usize) -> (r: String)
    ensures
        r@ == Seq::new(len as nat, |i: int| '-'),
{
    let dash = "-";
    proof {
        reveal_strlit("-");
        assert(dash@ =~= seq!['-']);
    }
    let mut r = String::new();
    let mut i: usize = 0;
    while i < len
        invariant
            i <= len,
            dash@ == seq!['-'],
            r@ == Seq::new(i as nat, |j: int| '-'),
        decreases len - i,
    {
        r.append(dash);
        i = i + 1;
        assert(r@ =~= Seq::new(i as nat, |j: int| '-'));
    }
    r
}

/// The message at the end of processing a script.
pub fn completion_message(package_name: &str, source_name: &str) -> (r: String)
    ensures
        r@ == package_name@ + " completed processing script "@ + source_name@,
{
    let mut r = String::from_str(package_name);
    r.append(" completed processing script ");
    r.append(source_name);
    r
}

/// The configuration lines written when debugging.
pub fn debug_print_config(package_name: &str, version: &str, repl_subdir: &str) -> (r: Vec<String>)
    ensures
        r@.map_values(|l: String| l@) == seq![
            "PACKAGE_NAME="@ + package_name@,
            "VERSION="@ + version@,
            "REPL_SUBDIR="@ + repl_subdir@,
        ],
{
    let mut lines: Vec<String> = Vec::new();
    let mut a = String::from_str("PACKAGE_NAME=");
    a.append(package_name);
    lines.push(a);
    let mut b = String::from_str("VERSION=");
    b.append(version);
    lines.push(b);
    let mut c = String::from_str("REPL_SUBDIR=");
    c.append(repl_subdir);
    lines.push(c);
    assert(lines@.map_values(|l: String| l@) =~= seq![
        "PACKAGE_NAME="@ + package_name@,
        "VERSION="@ + version@,
        "REPL_SUBDIR="@ + repl_subdir@,
    ]);
    lines
}

} // verus!
