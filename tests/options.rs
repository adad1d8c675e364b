use writer2::program_options::{LogLevel, ProgramOptions, ProgramOptionsErr};
use writer2::site::{plan_entry, EntryAction};

#[test]
fn missing_input_directory_is_an_error() {
    let r = ProgramOptions::from_args(None, Some("out".to_string()), 0, false, false);
    assert!(matches!(r, Err(ProgramOptionsErr::MissingInputDirectory)));
}

#[test]
fn verbosity_above_three_is_an_error() {
    let r = ProgramOptions::from_args(Some("in".to_string()), None, 4, false, false);
    assert!(matches!(r, Err(ProgramOptionsErr::BadVerbosity)));
}

#[test]
fn output_directory_defaults_to_input() {
    let o = match ProgramOptions::from_args(Some("in".to_string()), None, 3, true, true) {
        Ok(o) => o,
        Err(_) => panic!("options refused"),
    };
    assert_eq!(o.input_dir, "in");
    assert_eq!(o.output_dir, "in");
    assert_eq!(o.verbosity, 3);
    assert!(!o.persist);
    assert!(o.simple);
    assert_eq!(o.log_level(), LogLevel::Info);
}

#[test]
fn log_levels_by_verbosity() {
    let level = |v: usize| match ProgramOptions::from_args(
        Some("i".to_string()),
        Some("o".to_string()),
        v,
        false,
        false,
    ) {
        Ok(o) => {
            assert_eq!(o.output_dir, "o");
            assert!(o.persist);
            o.log_level()
        },
        Err(_) => panic!("options refused"),
    };
    assert_eq!(level(0), LogLevel::Error);
    assert_eq!(level(1), LogLevel::Error);
    assert_eq!(level(2), LogLevel::Warn);
    assert_eq!(level(3), LogLevel::Info);
}

#[test]
fn markdown_files_become_html_pages() {
    match plan_entry(false, "posts/a.b/hello.md") {
        EntryAction::Convert(p) => assert_eq!(p, "posts/a.b/hello.html"),
        _ => panic!("not converted"),
    }
}

#[test]
fn other_entries() {
    assert!(matches!(plan_entry(true, "posts"), EntryAction::Descend));
    assert!(matches!(plan_entry(true, "x.md"), EntryAction::Descend));
    assert!(matches!(plan_entry(false, "img/logo.png"), EntryAction::Copy));
    assert!(matches!(plan_entry(false, "notes.markdown"), EntryAction::Copy));
    assert!(matches!(plan_entry(false, "LICENSE"), EntryAction::Copy));
    assert!(matches!(plan_entry(false, "dir/.hidden"), EntryAction::Copy));
}
