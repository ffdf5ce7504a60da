use mixtape::args::{Args, ArgsError};

#[test]
fn test_args_parsing() {
    let args = Args::try_parse_from(&["mixtape", "input.mp4", "output.mp3", "--force"]).unwrap();
    assert_eq!(args.files[0], "input.mp4");
    assert_eq!(args.files[1], "output.mp3");
    assert!(args.force);
    assert!(!args.dry_run);
}

#[test]
fn ffmpeg_test_dry_run_mode() {
    let args = Args::try_parse_from(&["mixtape", "input.mp4", "output.mp3", "--dry-run"]).unwrap();
    assert_eq!(args.files[0], "input.mp4");
    assert_eq!(args.files[1], "output.mp3");
    assert!(args.dry_run);
}

#[test]
fn test_mismatched_file_pairs() {
    let args = Args::try_parse_from(&["mixtape", "input1.mp4"]).unwrap();
    assert_eq!(args.files.len() % 2, 1, "Should have an odd number of file arguments");
}

#[test]
fn test_dry_run_output() {
    let args = Args::try_parse_from(&["mixtape", "input.mp4", "output.mp3", "--dry-run"]).unwrap();
    assert!(args.dry_run, "Dry-run mode should be enabled");
}

#[test]
fn short_flags_and_options_value() {
    let args =
        Args::try_parse_from(&["mixtape", "-f", "a.mp4", "-d", "-o", "-b:a 192k", "b.mp3"]).unwrap();
    assert_eq!(args.files, vec!["a.mp4".to_string(), "b.mp3".to_string()]);
    assert!(args.force);
    assert!(args.dry_run);
    assert_eq!(args.options, Some("-b:a 192k".to_string()));
}

#[test]
fn long_options_value_may_start_with_hyphen() {
    let args = Args::try_parse_from(&[
        "mixtape",
        "input.mp4",
        "output.mp3",
        "--options",
        "-b:a 192k",
        "--dry-run",
    ])
    .unwrap();
    assert_eq!(args.options, Some("-b:a 192k".to_string()));
    assert!(args.dry_run);
    assert!(!args.force);
}

#[test]
fn no_files_is_refused() {
    assert!(matches!(Args::try_parse_from(&["mixtape"]), Err(ArgsError::MissingFiles)));
    assert!(matches!(Args::try_parse_from(&["mixtape", "--force"]), Err(ArgsError::MissingFiles)));
    assert!(matches!(Args::try_parse_from(&[]), Err(ArgsError::MissingFiles)));
}

#[test]
fn unknown_option_is_refused() {
    match Args::try_parse_from(&["mixtape", "a.mp4", "--loud"]) {
        Err(ArgsError::UnknownArgument(a)) => assert_eq!(a, "--loud"),
        other => panic!("unexpected {:?}", other.err()),
    }
}

#[test]
fn options_without_value_is_refused() {
    match Args::try_parse_from(&["mixtape", "a.mp4", "b.mp3", "--options"]) {
        Err(ArgsError::MissingValue(a)) => assert_eq!(a, "--options"),
        other => panic!("unexpected {:?}", other.err()),
    }
}

#[test]
fn help_and_version_are_reported() {
    assert!(matches!(Args::try_parse_from(&["mixtape", "--help"]), Err(ArgsError::HelpRequested)));
    assert!(matches!(Args::try_parse_from(&["mixtape", "a", "-h"]), Err(ArgsError::HelpRequested)));
    assert!(matches!(
        Args::try_parse_from(&["mixtape", "--version"]),
        Err(ArgsError::VersionRequested)
    ));
    assert!(matches!(Args::try_parse_from(&["mixtape", "-V"]), Err(ArgsError::VersionRequested)));
}

#[test]
fn double_dash_makes_the_rest_files() {
    let args = Args::try_parse_from(&["mixtape", "--", "-x.mp4", "--force"]).unwrap();
    assert_eq!(args.files, vec!["-x.mp4".to_string(), "--force".to_string()]);
    assert!(!args.force);
    let single = Args::try_parse_from(&["mixtape", "-", "out.mp3"]).unwrap();
    assert_eq!(single.files, vec!["-".to_string(), "out.mp3".to_string()]);
}
