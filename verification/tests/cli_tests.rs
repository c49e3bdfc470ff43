use squeeze::cli::{output_dir, checked_output_path, WouldOverwrite, next_val, output_file_name, output_path, parse_args, parse_u32, str_eq, ArgError, CliArgs, Command};
use squeeze::encode::Encoder;

fn args(list: &[&str]) -> Vec<String> {
    list.iter().map(|s| s.to_string()).collect()
}

fn parse(list: &[&str]) -> Result<Command, ArgError> {
    let argv = args(list);
    let ok: Vec<bool> = argv.iter().map(|s| s.parse::<f64>().is_ok()).collect();
    parse_args(&argv, &ok)
}

fn run(list: &[&str]) -> CliArgs {
    match parse(list) {
        Ok(Command::Run(a)) => a,
        other => panic!("expected settings, got {other:?}"),
    }
}

#[test]
fn defaults_with_one_input() {
    let a = run(&["clip.mp4"]);
    assert_eq!(a.inputs, vec!["clip.mp4".to_string()]);
    assert_eq!(a.max_mb, None);
    assert_eq!(a.encoder, Encoder::Auto);
    assert_eq!(a.passes, 3);
    assert_eq!(a.suffix, "_discord");
    assert_eq!(a.outdir, None);
    assert!(!a.keep_fps);
    assert!(!a.no_audio);
}

#[test]
fn all_options() {
    let a = run(&[
        "--max-mb", "8.5", "--encoder", "x264", "--passes", "+5", "--suffix", "_small", "-o", "out",
        "--keep-fps", "--no-audio", "a.mp4", "-", "b.mkv",
    ]);
    assert_eq!(a.inputs, args(&["a.mp4", "-", "b.mkv"]));
    assert_eq!(a.max_mb.as_deref(), Some("8.5"));
    assert_eq!(a.encoder, Encoder::X264);
    assert_eq!(a.passes, 5);
    assert_eq!(a.suffix, "_small");
    assert_eq!(a.outdir.as_deref(), Some("out"));
    assert!(a.keep_fps && a.no_audio);
}

#[test]
fn later_settings_override_earlier() {
    let a = run(&["--encoder", "nvenc", "x.mp4", "--encoder", "openh264", "--outdir", "d1", "--outdir", "d2", "--max-mb", "1", "--max-mb", "50"]);
    assert_eq!(a.encoder, Encoder::OpenH264);
    assert_eq!(a.outdir.as_deref(), Some("d2"));
    assert_eq!(a.max_mb.as_deref(), Some("50"));
}

#[test]
fn help_wins_when_reached_first() {
    assert!(matches!(parse(&["-h"]), Ok(Command::Help)));
    assert!(matches!(parse(&["a.mp4", "--help", "--bogus"]), Ok(Command::Help)));
    assert!(matches!(parse(&["--bogus", "--help"]), Err(ArgError::UnknownOption(o)) if o == "--bogus"));
}

#[test]
fn missing_values_name_the_flag() {
    for (flag, name) in [("--max-mb", "--max-mb"), ("--encoder", "--encoder"), ("--passes", "--passes"), ("--suffix", "--suffix"), ("-o", "--outdir"), ("--outdir", "--outdir")] {
        match parse(&["a.mp4", flag]) {
            Err(ArgError::MissingValue(f)) => assert_eq!(f, name),
            other => panic!("{flag}: {other:?}"),
        }
    }
}

#[test]
fn bad_values() {
    assert!(matches!(parse(&["--max-mb", "ten", "a.mp4"]), Err(ArgError::BadMaxMb(v)) if v == "ten"));
    assert!(matches!(parse(&["--encoder", "hevc", "a.mp4"]), Err(ArgError::UnknownEncoder(e)) if e == "hevc"));
    assert!(matches!(parse(&["--encoder", "X264", "a.mp4"]), Err(ArgError::UnknownEncoder(_))));
    assert!(matches!(parse(&["--passes", "two", "a.mp4"]), Err(ArgError::BadPasses(v)) if v == "two"));
    assert!(matches!(parse(&["--passes", "-1", "a.mp4"]), Err(ArgError::BadPasses(_))));
    assert!(matches!(parse(&["--passes", "0", "a.mp4"]), Err(ArgError::ZeroPasses)));
    assert!(matches!(parse(&["-x", "a.mp4"]), Err(ArgError::UnknownOption(o)) if o == "-x"));
}

#[test]
fn first_problem_is_reported() {
    assert!(matches!(parse(&["--max-mb", "abc", "--passes", "x"]), Err(ArgError::BadMaxMb(_))));
    assert!(matches!(parse(&["--passes", "x", "--max-mb", "abc"]), Err(ArgError::BadPasses(_))));
    assert!(matches!(parse(&["--passes", "0"]), Err(ArgError::NoInputs)));
}

#[test]
fn no_inputs() {
    assert!(matches!(parse(&[]), Err(ArgError::NoInputs)));
    assert!(matches!(parse(&["--keep-fps"]), Err(ArgError::NoInputs)));
}

#[test]
fn a_value_may_look_like_an_option() {
    let a = run(&["--suffix", "-lite", "a.mp4"]);
    assert_eq!(a.suffix, "-lite");
}

#[test]
fn u32_reading() {
    assert_eq!(parse_u32("0"), Some(0));
    assert_eq!(parse_u32("3"), Some(3));
    assert_eq!(parse_u32("+7"), Some(7));
    assert_eq!(parse_u32("007"), Some(7));
    assert_eq!(parse_u32("4294967295"), Some(u32::MAX));
    assert_eq!(parse_u32("4294967296"), None);
    assert_eq!(parse_u32("99999999999999999999"), None);
    assert_eq!(parse_u32(""), None);
    assert_eq!(parse_u32("+"), None);
    assert_eq!(parse_u32("-1"), None);
    assert_eq!(parse_u32("-0"), None);
    assert_eq!(parse_u32(" 1"), None);
    assert_eq!(parse_u32("1x"), None);
    assert_eq!(parse_u32("١"), None);
    for s in ["0", "12", "+4", "4294967295", "4294967296", "", "+", "-3", "1.0", "++1"] {
        assert_eq!(parse_u32(s), s.parse::<u32>().ok(), "{s}");
    }
}

#[test]
fn string_equality() {
    assert!(str_eq("--help", "--help"));
    assert!(!str_eq("--help", "--hel"));
    assert!(!str_eq("a", "b"));
    assert!(str_eq("", ""));
}

#[test]
fn next_value() {
    let argv = args(&["--suffix", "_x"]);
    assert_eq!(next_val(&argv, 1, "--suffix").unwrap(), "_x");
    match next_val(&argv, 2, "--suffix") {
        Err(ArgError::MissingValue(f)) => assert_eq!(f, "--suffix"),
        other => panic!("{other:?}"),
    }
}

#[test]
fn output_names() {
    assert_eq!(output_file_name(Some("clip".to_string()), "_discord"), "clip_discord.mp4");
    assert_eq!(output_file_name(None, "_discord"), "output_discord.mp4");
    assert_eq!(output_file_name(Some("a".to_string()), ""), "a.mp4");
}

#[test]
fn output_paths() {
    let sep = std::path::MAIN_SEPARATOR;
    assert_eq!(output_path("clips/clip1.mp4", "_discord", None), format!("clips{sep}clip1_discord.mp4"));
    assert_eq!(output_path("clip1.mp4", "_discord", None), "clip1_discord.mp4");
    assert_eq!(output_path("clips/clip1.mp4", "_d", Some("out")), format!("out{sep}clip1_d.mp4"));
    assert_eq!(output_path("archive.tar.gz", "_x", None), "archive.tar_x.mp4");
    assert_eq!(output_path(".hidden", "", None), ".hidden.mp4");
    assert_eq!(output_path("/", "_x", None), format!(".{sep}output_x.mp4"));
}

#[test]
fn error_messages() {
    assert_eq!(ArgError::MissingValue("--suffix".to_string()).message(), "--suffix needs a value");
    assert_eq!(ArgError::BadMaxMb("x".to_string()).message(), "--max-mb must be a number");
    assert_eq!(ArgError::UnknownEncoder("hevc".to_string()).message(), "unknown --encoder 'hevc' (auto|nvenc|x264|openh264)");
    assert_eq!(ArgError::BadPasses("x".to_string()).message(), "--passes must be an integer");
    assert_eq!(ArgError::UnknownOption("-q".to_string()).message(), "unknown option '-q' (try --help)");
    assert_eq!(ArgError::NoInputs.message(), "no input files given");
    assert_eq!(ArgError::ZeroPasses.message(), "--passes must be >= 1");
}

#[test]
fn never_overwrites_the_source() {
    assert_eq!(checked_output_path("a.mp4", "", None), Err(WouldOverwrite));
    assert_eq!(checked_output_path("clips/a.mp4", "", Some("clips")), Err(WouldOverwrite));
    assert_eq!(checked_output_path("clips/a.mp4", "", Some("clips/")), Err(WouldOverwrite));
    assert_eq!(checked_output_path("a.mp4", "_discord", None), Ok("a_discord.mp4".to_string()));
    assert_eq!(checked_output_path("a.mp4", "", Some("out")).unwrap(), format!("out{}a.mp4", std::path::MAIN_SEPARATOR));
}

#[test]
fn output_directory_choice() {
    assert_eq!(output_dir(Some("clips".to_string()), Some("out")), "out");
    assert_eq!(output_dir(Some("clips".to_string()), None), "clips");
    assert_eq!(output_dir(Some(String::new()), None), "");
    assert_eq!(output_dir(None, None), ".");
    assert_eq!(output_dir(None, Some("")), "");
}
