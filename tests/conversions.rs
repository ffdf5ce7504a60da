use mixtape::args::Args;
use mixtape::ffmpeg::{
    dry_run_line, encoder_args, is_progress_line, pair_files, JobEnd, JobStart, Outcome, Session,
    UsageError, PROGRESS_SCALE,
};
use mixtape::ffmpeg::Job;
use mixtape::text::{join_with, push_decimal, split_words};

fn strings(v: &[&str]) -> Vec<String> {
    v.iter().map(|s| s.to_string()).collect()
}

fn config(files: &[&str], dry_run: bool, options: Option<&str>) -> Args {
    Args {
        files: strings(files),
        force: false,
        dry_run,
        options: options.map(|o| o.to_string()),
    }
}

#[test]
fn odd_file_list_is_refused_before_any_job() {
    let args = config(&["a.mp4", "a.mp3", "b.mp4"], false, None);
    assert!(matches!(Session::with_threads(&args, 4), Err(UsageError::MismatchedPairs)));
    assert!(matches!(Session::start(&args), Err(UsageError::MismatchedPairs)));
    assert!(pair_files(&strings(&["one.mp4"])).is_err());
}

#[test]
fn pairs_follow_argument_order() {
    let jobs = pair_files(&strings(&["b.mp4", "b.mp3", "a.mp4", "a.mp3"])).unwrap();
    assert_eq!(jobs.len(), 2);
    assert_eq!((jobs[0].input.as_str(), jobs[0].output.as_str()), ("b.mp4", "b.mp3"));
    assert_eq!((jobs[1].input.as_str(), jobs[1].output.as_str()), ("a.mp4", "a.mp3"));
    assert!(pair_files(&Vec::new()).unwrap().is_empty());
}

#[test]
fn encoder_arguments_are_exact() {
    let job = Job { input: "in.mp4".to_string(), output: "out.mp3".to_string() };
    let plain = encoder_args(&job, 8, &None);
    assert_eq!(plain, strings(&["-i", "in.mp4", "-threads", "8", "out.mp3"]));
    let extra = encoder_args(&job, 120, &Some("  -b:a\t192k \n-vn ".to_string()));
    assert_eq!(
        extra,
        strings(&["-i", "in.mp4", "-threads", "120", "-b:a", "192k", "-vn", "out.mp3"])
    );
    let blank = encoder_args(&job, 1, &Some("   ".to_string()));
    assert_eq!(blank, strings(&["-i", "in.mp4", "-threads", "1", "out.mp3"]));
}

#[test]
fn dry_run_line_shows_options_verbatim() {
    let job = Job { input: "input.mp4".to_string(), output: "output.mp3".to_string() };
    let args = encoder_args(&job, 4, &Some("-b:a 192k".to_string()));
    let line = dry_run_line(&args);
    assert_eq!(
        line,
        "Dry-run mode: Simulated FFmpeg command: ffmpeg -i input.mp4 -threads 4 -b:a 192k output.mp3"
    );
    assert!(line.contains("-b:a 192k"));
}

#[test]
fn decimal_and_join_and_words() {
    let mut s = String::from("n=");
    push_decimal(&mut s, 0);
    push_decimal(&mut s, 1);
    push_decimal(&mut s, 9075);
    assert_eq!(s, "n=019075");
    let mut big = String::new();
    push_decimal(&mut big, usize::MAX);
    assert_eq!(big, usize::MAX.to_string());
    assert_eq!(join_with(&strings(&["a", "bc", ""]), ", "), "a, bc, ");
    assert_eq!(join_with(&Vec::new(), " "), "");
    assert_eq!(split_words("\u{3000}x\u{a0}y  z\u{2009}"), strings(&["x", "y", "z"]));
    assert!(split_words("").is_empty());
}

#[test]
fn progress_lines_are_those_with_the_marker() {
    assert!(is_progress_line("frame=10 fps=25.0 time=00:00:10 bitrate=128k"));
    assert!(is_progress_line("xxframe="));
    assert!(!is_progress_line("frame 10"));
    assert!(!is_progress_line("FRAME=10"));
    assert!(!is_progress_line(""));
    assert_eq!(PROGRESS_SCALE, 100);
}

#[test]
fn dry_run_prints_first_pair_then_ends() {
    let args = config(&["clip1.mp4", "clip1.mp3", "clip2.mp4", "clip2.mp3"], true, None);
    let mut s = Session::with_threads(&args, 2).unwrap();
    assert_eq!(s.pending_input(), Some("clip1.mp4".to_string()));
    match s.begin_job(true) {
        JobStart::Simulate { line } => assert_eq!(
            line,
            "Dry-run mode: Simulated FFmpeg command: ffmpeg -i clip1.mp4 -threads 2 clip1.mp3"
        ),
        _ => panic!("expected a simulated command"),
    }
    assert!(s.is_over());
    assert_eq!(s.exit_code(), 0);
    assert_eq!(s.pending_input(), None);
    assert!(!s.running);
}

#[test]
fn missing_input_is_logged_once_and_run_goes_on() {
    let args = config(&["fake_file.mp4", "out.mp3", "real.mp4", "real.mp3"], false, None);
    let mut s = Session::with_threads(&args, 3).unwrap();
    match s.begin_job(false) {
        JobStart::MissingInput { console, record } => {
            assert_eq!(record, "Input file 'fake_file.mp4' does not exist.");
            assert_eq!(console, "Error: Input file 'fake_file.mp4' does not exist.");
        }
        _ => panic!("expected a missing input"),
    }
    assert!(!s.is_over());
    assert_eq!(s.pending_input(), Some("real.mp4".to_string()));
    match s.begin_job(true) {
        JobStart::Launch { announce, args } => {
            assert_eq!(announce, "Converting real.mp4 -> real.mp3 using 3 CPU cores");
            assert_eq!(args, strings(&["-i", "real.mp4", "-threads", "3", "real.mp3"]));
        }
        _ => panic!("expected a launch"),
    }
}

#[test]
fn unsupported_format_is_skipped() {
    let args = config(&["in.txt", "out.mp3", "in.mp4", "out.xyz"], false, None);
    let mut s = Session::with_threads(&args, 1).unwrap();
    for _ in 0..2 {
        match s.begin_job(true) {
            JobStart::UnsupportedFormat { console, record } => {
                assert_eq!(console, "Error: Unsupported file format.");
                assert_eq!(record, "Unsupported file format detected.");
            }
            _ => panic!("expected an unsupported format"),
        }
    }
    assert!(s.is_over());
    assert_eq!(s.exit_code(), 0);
}

#[test]
fn failed_encoder_ends_the_run_with_status_one() {
    let args = config(&["a.mp4", "a.mp3", "b.mp4", "b.mp3"], false, None);
    let mut s = Session::with_threads(&args, 2).unwrap();
    assert!(matches!(s.begin_job(true), JobStart::Launch { .. }));
    let end = s.finish_job(&Outcome::Exited { success: false, status: "exit status: 1".to_string() });
    match end {
        JobEnd::Failed { console, record } => {
            assert_eq!(console, "Conversion failed with status: exit status: 1");
            assert_eq!(record, "FFmpeg process failed with status: exit status: 1");
        }
        _ => panic!("expected a failure"),
    }
    assert!(s.is_over());
    assert_eq!(s.exit_code(), 1);
    assert_eq!(s.pending_input(), None);
}

#[test]
fn spawn_error_skips_the_job() {
    let args = config(&["a.mp4", "a.mp3", "b.mp4", "b.mp3"], false, None);
    let mut s = Session::with_threads(&args, 2).unwrap();
    assert!(matches!(s.begin_job(true), JobStart::Launch { .. }));
    match s.finish_job(&Outcome::SpawnFailed { reason: "No such file".to_string() }) {
        JobEnd::SpawnError { console, record } => {
            assert_eq!(console, "Error executing FFmpeg: No such file");
            assert_eq!(record, "Error executing FFmpeg: No such file");
        }
        _ => panic!("expected a spawn error"),
    }
    assert!(!s.is_over());
    assert_eq!(s.pending_input(), Some("b.mp4".to_string()));
}

#[test]
fn every_pair_is_launched_in_order() {
    let args = config(&["x.mkv", "x.mp4", "y.wav", "y.flac", "z.png", "z.webp"], false, Some("-y"));
    let mut s = Session::with_threads(&args, 6).unwrap();
    let mut launched = Vec::new();
    while let Some(input) = s.pending_input() {
        match s.begin_job(true) {
            JobStart::Launch { args, .. } => launched.push((input, args)),
            _ => panic!("expected a launch"),
        }
        match s.finish_job(&Outcome::Exited { success: true, status: "exit status: 0".to_string() }) {
            JobEnd::Converted { record } => assert!(record.starts_with("Successfully converted '")),
            _ => panic!("expected a conversion"),
        }
    }
    assert!(s.is_over());
    assert_eq!(s.exit_code(), 0);
    assert_eq!(launched.len(), 3);
    assert_eq!(launched[0].0, "x.mkv");
    assert_eq!(launched[1].1, strings(&["-i", "y.wav", "-threads", "6", "-y", "y.flac"]));
    assert_eq!(launched[2].0, "z.png");
}

#[test]
fn converted_record_names_both_paths() {
    let args = config(&["in.mov", "out.avi"], false, None);
    let mut s = Session::with_threads(&args, 1).unwrap();
    assert!(matches!(s.begin_job(true), JobStart::Launch { .. }));
    match s.finish_job(&Outcome::Exited { success: true, status: String::new() }) {
        JobEnd::Converted { record } => {
            assert_eq!(record, "Successfully converted 'in.mov' to 'out.avi'.")
        }
        _ => panic!("expected a conversion"),
    }
    assert!(s.is_over());
}

#[test]
fn start_hands_the_encoder_at_least_one_thread() {
    let args = config(&["a.mp4", "a.mp3"], false, None);
    let mut s = Session::start(&args).unwrap();
    assert!(s.threads >= 1);
    match s.begin_job(true) {
        JobStart::Launch { args, .. } => {
            assert_eq!(args[2], "-threads");
            assert_eq!(args[3], s.threads.to_string());
            assert!(args[3] != "0");
        }
        _ => panic!("expected a launch"),
    }
}
