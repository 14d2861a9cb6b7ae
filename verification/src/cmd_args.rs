//! Command-line options and the processing flags derived from them.
use vstd::prelude::*;
use crate::proc_flags::{ProcFlags, has_flag};
use crate::flags_text::{lemma_flags_text_roundtrip, parse_flags_text};

verus! {

/// Command-line options as parsed from the arguments.
#[derive(Clone, Debug, PartialEq, Eq)]
pub struct Cli {
    /// The script to run.
    pub script: Option<String>,
    /// The arguments for the script.
    pub args: Vec<String>,
    /// Verbose mode.
    pub verbose: bool,
    /// Display timings.
    pub timings: bool,
    /// Generate Rust source and individual Cargo.toml if the compiled file is stale.
    pub generate: bool,
    /// Build the script if the compiled file is stale.
    pub build: bool,
    /// Force generation and build even if the compiled file is not stale.
    pub force: bool,
    /// Carry out generation and build steps (if necessary or forced) and run.
    pub all: bool,
    /// Run the compiled script if available.
    pub run: bool,
    /// REPL mode.
    pub repl: bool,
    /// An expression to evaluate.
    pub expression: Option<String>,
    /// Read the script from standard input.
    pub stdin: bool,
    /// Quiet mode.
    pub quiet: bool,
}

/// Errors of the build-and-run process.
#[derive(Clone, Debug, PartialEq, Eq)]
pub enum BuildRunError {
    /// A command failed or could not be carried out.
    Command(String),
    /// A text could not be converted.
    FromStr(String),
}

/// The condition under which each named flag is set by [`get_proc_flags`].
pub open spec fn flags_condition(options: &Cli, flag: u32) -> bool {
    let is_expr = options.expression is Some;
    if flag == ProcFlags::GENERATE {
        options.generate || options.force || options.all || is_expr
    } else if flag == ProcFlags::BUILD {
        options.build || options.force || options.all || is_expr
    } else if flag == ProcFlags::FORCE {
        options.force
    } else if flag == ProcFlags::RUN {
        options.run || options.all
    } else if flag == ProcFlags::ALL {
        options.all || (options.generate && options.build && options.run)
    } else if flag == ProcFlags::VERBOSE {
        options.verbose
    } else if flag == ProcFlags::TIMINGS {
        options.timings
    } else if flag == ProcFlags::REPL {
        options.repl
    } else if flag == ProcFlags::EXPR {
        is_expr
    } else if flag == ProcFlags::STDIN {
        options.stdin
    } else {
        options.quiet
    }
}

/// Sets up the processing flags from the command-line options.
pub fn get_proc_flags(options: &Cli) -> (r: Result<ProcFlags, BuildRunError>)
    ensures
        r is Ok,
        r matches Ok(f) ==> {
            &&& has_flag(f@, ProcFlags::GENERATE) == flags_condition(options, ProcFlags::GENERATE)
            &&& has_flag(f@, ProcFlags::BUILD) == flags_condition(options, ProcFlags::BUILD)
            &&& has_flag(f@, ProcFlags::FORCE) == flags_condition(options, ProcFlags::FORCE)
            &&& has_flag(f@, ProcFlags::RUN) == flags_condition(options, ProcFlags::RUN)
            &&& has_flag(f@, ProcFlags::ALL) == flags_condition(options, ProcFlags::ALL)
            &&& has_flag(f@, ProcFlags::VERBOSE) == flags_condition(options, ProcFlags::VERBOSE)
            &&& has_flag(f@, ProcFlags::TIMINGS) == flags_condition(options, ProcFlags::TIMINGS)
            &&& has_flag(f@, ProcFlags::REPL) == flags_condition(options, ProcFlags::REPL)
            &&& has_flag(f@, ProcFlags::EXPR) == flags_condition(options, ProcFlags::EXPR)
            &&& has_flag(f@, ProcFlags::STDIN) == flags_condition(options, ProcFlags::STDIN)
            &&& has_flag(f@, ProcFlags::QUIET) == flags_condition(options, ProcFlags::QUIET)
            &&& f@ & !ProcFlags::NAMED == 0
        },
        r matches Ok(f) ==> {
            let is_expr = options.expression is Some;
            &&& has_flag(f@, ProcFlags::GENERATE) == (options.generate || options.force || options.all || is_expr)
            &&& has_flag(f@, ProcFlags::BUILD) == (options.build || options.force || options.all || is_expr)
            &&& has_flag(f@, ProcFlags::FORCE) == options.force
            &&& has_flag(f@, ProcFlags::RUN) == (options.run || options.all)
            &&& has_flag(f@, ProcFlags::ALL) == (options.all || (options.generate && options.build && options.run))
            &&& has_flag(f@, ProcFlags::VERBOSE) == options.verbose
            &&& has_flag(f@, ProcFlags::TIMINGS) == options.timings
            &&& has_flag(f@, ProcFlags::REPL) == options.repl
            &&& has_flag(f@, ProcFlags::EXPR) == is_expr
            &&& has_flag(f@, ProcFlags::STDIN) == options.stdin
            &&& has_flag(f@, ProcFlags::QUIET) == options.quiet
        },
{
    let is_expr = options.expression.is_some();
    let mut proc_flags = ProcFlags::empty();
    let ghost b0 = proc_flags@;
    proc_flags.set(ProcFlags::GENERATE, options.generate || options.force || options.all || is_expr);
    let ghost b1 = proc_flags@;
    proc_flags.set(ProcFlags::BUILD, options.build || options.force || options.all || is_expr);
    let ghost b2 = proc_flags@;
    proc_flags.set(ProcFlags::FORCE, options.force);
    let ghost b3 = proc_flags@;
    proc_flags.set(ProcFlags::QUIET, options.quiet);
    let ghost b4 = proc_flags@;
    proc_flags.set(ProcFlags::VERBOSE, options.verbose);
    let ghost b5 = proc_flags@;
    proc_flags.set(ProcFlags::TIMINGS, options.timings);
    let ghost b6 = proc_flags@;
    proc_flags.set(ProcFlags::RUN, options.run || options.all);
    let ghost b7 = proc_flags@;
    proc_flags.set(ProcFlags::ALL, options.all);
    let ghost b8 = proc_flags@;
    if !(proc_flags.contains(ProcFlags::ALL)) {
        proc_flags.set(ProcFlags::ALL, options.generate && options.build && options.run);
    }
    let ghost b9 = proc_flags@;
    proc_flags.set(ProcFlags::REPL, options.repl);
    let ghost b10 = proc_flags@;
    proc_flags.set(ProcFlags::EXPR, is_expr);
    let ghost b11 = proc_flags@;
    proc_flags.set(ProcFlags::STDIN, options.stdin);
    let ghost b12 = proc_flags@;
    let ghost g = options.generate;
    let ghost bu = options.build;
    let ghost fo = options.force;
    let ghost al = options.all;
    let ghost ru = options.run;
    let ghost qu = options.quiet;
    let ghost ve = options.verbose;
    let ghost ti = options.timings;
    let ghost re = options.repl;
    let ghost st = options.stdin;
    let ghost ex = is_expr;
    assert({
        &&& (b12 & 1 == 1) == (g || fo || al || ex)
        &&& (b12 & 2 == 2) == (bu || fo || al || ex)
        &&& (b12 & 4 == 4) == fo
        &&& (b12 & 8 == 8) == (ru || al)
        &&& (b12 & 16 == 16) == (al || (g && bu && ru))
        &&& (b12 & 32 == 32) == ve
        &&& (b12 & 64 == 64) == ti
        &&& (b12 & 128 == 128) == re
        &&& (b12 & 256 == 256) == ex
        &&& (b12 & 512 == 512) == st
        &&& (b12 & 1024 == 1024) == qu
        &&& b12 & !2047u32 == 0
    }) by (bit_vector)
        requires
            b0 == 0,
            b1 == (if g || fo || al || ex { b0 | 1 } else { b0 & !1u32 }),
            b2 == (if bu || fo || al || ex { b1 | 2 } else { b1 & !2u32 }),
            b3 == (if fo { b2 | 4 } else { b2 & !4u32 }),
            b4 == (if qu { b3 | 1024 } else { b3 & !1024u32 }),
            b5 == (if ve { b4 | 32 } else { b4 & !32u32 }),
            b6 == (if ti { b5 | 64 } else { b5 & !64u32 }),
            b7 == (if ru || al { b6 | 8 } else { b6 & !8u32 }),
            b8 == (if al { b7 | 16 } else { b7 & !16u32 }),
            b9 == (if b8 & 16 == 16 { b8 } else if g && bu && ru { b8 | 16 } else { b8 & !16u32 }),
            b10 == (if re { b9 | 128 } else { b9 & !128u32 }),
            b11 == (if ex { b10 | 256 } else { b10 & !256u32 }),
            b12 == (if st { b11 | 512 } else { b11 & !512u32 }),
    ;
    // The text form of the flags must read back as the same flags.
    let formatted = proc_flags.to_flags_string();
    let parsed = match ProcFlags::parse_flags(formatted.as_str()) {
        Ok(parsed) => parsed,
        Err(e) => {
            proof {
                lemma_flags_text_roundtrip(proc_flags@);
            }
            return Err(BuildRunError::FromStr(e.message()));
        },
    };
    proof {
        lemma_flags_text_roundtrip(proc_flags@);
    }
    assert(parsed@ == proc_flags@);
    Ok(proc_flags)
}

/// Each flag follows its own options: the stage flags follow their options
/// and the options that imply them (FORCE, ALL and an expression imply
/// generation and build; ALL implies the run; generation, build and run
/// together make ALL), and every other flag follows its option alone.
pub proof fn lemma_flags_follow_options(options: &Cli)
    ensures
        ({
            let is_expr = options.expression is Some;
            &&& flags_condition(options, ProcFlags::GENERATE) == (options.generate || options.force || options.all || is_expr)
            &&& flags_condition(options, ProcFlags::BUILD) == (options.build || options.force || options.all || is_expr)
            &&& flags_condition(options, ProcFlags::FORCE) == options.force
            &&& flags_condition(options, ProcFlags::RUN) == (options.run || options.all)
            &&& flags_condition(options, ProcFlags::ALL) == (options.all || (options.generate && options.build
                && options.run))
            &&& flags_condition(options, ProcFlags::VERBOSE) == options.verbose
            &&& flags_condition(options, ProcFlags::TIMINGS) == options.timings
            &&& flags_condition(options, ProcFlags::REPL) == options.repl
            &&& flags_condition(options, ProcFlags::EXPR) == is_expr
            &&& flags_condition(options, ProcFlags::STDIN) == options.stdin
            &&& flags_condition(options, ProcFlags::QUIET) == options.quiet
        }),
{
}

/// The flags that stand for whole stages imply the stages: ALL implies
/// generation, build and run; FORCE and EXPR imply generation and build.
pub proof fn lemma_flag_implications(options: &Cli)
    ensures
        flags_condition(options, ProcFlags::ALL) ==> {
            &&& flags_condition(options, ProcFlags::GENERATE)
            &&& flags_condition(options, ProcFlags::BUILD)
            &&& flags_condition(options, ProcFlags::RUN)
        },
        flags_condition(options, ProcFlags::FORCE) ==> {
            &&& flags_condition(options, ProcFlags::GENERATE)
            &&& flags_condition(options, ProcFlags::BUILD)
        },
        flags_condition(options, ProcFlags::EXPR) ==> {
            &&& flags_condition(options, ProcFlags::GENERATE)
            &&& flags_condition(options, ProcFlags::BUILD)
        },
{
}

} // verus!
