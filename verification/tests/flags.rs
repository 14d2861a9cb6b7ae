use rs_script::cmd_args::{get_proc_flags, BuildRunError, Cli};
use rs_script::flags_text::FlagsParseError;
use rs_script::proc_flags::ProcFlags;

fn options() -> Cli {
    Cli {
        script: None,
        args: Vec::new(),
        verbose: false,
        timings: false,
        generate: false,
        build: false,
        force: false,
        all: false,
        run: false,
        repl: false,
        expression: None,
        stdin: false,
        quiet: false,
    }
}

fn names(flags: &ProcFlags) -> String {
    flags.to_flags_string()
}

#[test]
fn default_options_generate_build_and_run() {
    let mut o = options();
    o.all = true;
    let flags = get_proc_flags(&o).unwrap();
    assert_eq!(names(&flags), "GENERATE | BUILD | RUN | ALL");
    assert!(flags.contains(ProcFlags::GENERATE));
    assert!(flags.contains(ProcFlags::ALL));
    assert!(!flags.contains(ProcFlags::REPL));
}

#[test]
fn no_options_give_no_flags() {
    let flags = get_proc_flags(&options()).unwrap();
    assert!(flags.is_empty());
    assert_eq!(names(&flags), "");
}

#[test]
fn expression_implies_generate_and_build() {
    let mut o = options();
    o.expression = Some("1 + 1".to_string());
    o.quiet = true;
    let flags = get_proc_flags(&o).unwrap();
    assert_eq!(flags.bits(), ProcFlags::GENERATE | ProcFlags::BUILD | ProcFlags::EXPR | ProcFlags::QUIET);
    assert_eq!(names(&flags), "GENERATE | BUILD | EXPR | QUIET");
}

#[test]
fn generate_build_and_run_together_set_all() {
    let mut o = options();
    o.generate = true;
    o.build = true;
    o.run = true;
    let flags = get_proc_flags(&o).unwrap();
    assert!(flags.contains(ProcFlags::ALL));
    let mut o = options();
    o.generate = true;
    o.run = true;
    let flags = get_proc_flags(&o).unwrap();
    assert!(!flags.contains(ProcFlags::ALL));
    assert_eq!(names(&flags), "GENERATE | RUN");
}

#[test]
fn force_generates_and_builds() {
    let mut o = options();
    o.force = true;
    o.verbose = true;
    o.timings = true;
    o.repl = true;
    o.stdin = true;
    let flags = get_proc_flags(&o).unwrap();
    assert_eq!(names(&flags), "GENERATE | BUILD | FORCE | VERBOSE | TIMINGS | REPL | STDIN");
}

#[test]
fn set_insert_remove() {
    let mut f = ProcFlags::empty();
    f.set(ProcFlags::RUN, true);
    f.insert(ProcFlags::QUIET);
    assert_eq!(f.bits(), 8 | 1024);
    f.set(ProcFlags::RUN, false);
    assert_eq!(f.bits(), 1024);
    f.remove(ProcFlags::QUIET);
    assert!(f.is_empty());
    assert!(ProcFlags::from_bits_retain(3).equals(&ProcFlags::from_bits_retain(3)));
}

#[test]
fn text_form_writes_unnamed_bits_in_hex() {
    let f = ProcFlags::from_bits_retain(1 | 0x800 | 0x1000);
    assert_eq!(f.to_flags_string(), "GENERATE | 0x1800");
    let g = ProcFlags::from_bits_retain(0xffff_f800);
    assert_eq!(g.to_flags_string(), "0xfffff800");
    let all = ProcFlags::from_bits_retain(ProcFlags::NAMED);
    assert_eq!(
        all.to_flags_string(),
        "GENERATE | BUILD | FORCE | RUN | ALL | VERBOSE | TIMINGS | REPL | EXPR | STDIN | QUIET"
    );
}

#[test]
fn text_form_reads_back() {
    for bits in [0u32, 1, 2, 5, 16, 1024, 2047, 2048, 0x1801, 0xdead_beef, u32::MAX] {
        let f = ProcFlags::from_bits_retain(bits);
        let back = ProcFlags::parse_flags(&f.to_flags_string()).unwrap();
        assert_eq!(back.bits(), bits);
    }
}

#[test]
fn parse_accepts_spaces_and_hex() {
    assert_eq!(ProcFlags::parse_flags(" BUILD|0x10 ").unwrap().bits(), 2 | 16);
    assert_eq!(ProcFlags::parse_flags("   ").unwrap().bits(), 0);
    assert_eq!(ProcFlags::parse_flags("").unwrap().bits(), 0);
    assert_eq!(ProcFlags::parse_flags("0x+1F").unwrap().bits(), 0x1f);
    assert_eq!(ProcFlags::parse_flags("RUN |\tRUN").unwrap().bits(), 8);
}

#[test]
fn parse_errors() {
    assert_eq!(ProcFlags::parse_flags("RUN||ALL").err(), Some(FlagsParseError::EmptyFlag));
    assert_eq!(ProcFlags::parse_flags("RUN | ").err(), Some(FlagsParseError::EmptyFlag));
    assert_eq!(
        ProcFlags::parse_flags("RUN | run").err(),
        Some(FlagsParseError::InvalidNamedFlag("run".to_string()))
    );
    assert_eq!(
        ProcFlags::parse_flags("0xzz").err(),
        Some(FlagsParseError::InvalidHexFlag("zz".to_string()))
    );
    assert_eq!(
        ProcFlags::parse_flags("0x1ffffffff").err(),
        Some(FlagsParseError::InvalidHexFlag("1ffffffff".to_string()))
    );
    assert_eq!(ProcFlags::parse_flags("0x").err(), Some(FlagsParseError::InvalidHexFlag(String::new())));
    assert_eq!(ProcFlags::parse_flags("0x+").err(), Some(FlagsParseError::InvalidHexFlag("+".to_string())));
}

#[test]
fn parse_error_messages() {
    assert_eq!(FlagsParseError::EmptyFlag.message(), "encountered empty flag");
    assert_eq!(
        FlagsParseError::InvalidNamedFlag("X".to_string()).message(),
        "unrecognized named flag `X`"
    );
    assert_eq!(FlagsParseError::InvalidHexFlag("zz".to_string()).message(), "invalid hex flag `zz`");
    let e = BuildRunError::FromStr(FlagsParseError::EmptyFlag.message());
    assert_eq!(e, BuildRunError::FromStr("encountered empty flag".to_string()));
}
