use sudel::config::{config_path, data_root, default_passes, parse_config, Config, ReadOutcome};
use sudel::logging::{append_log, append_message, log_path};
use sudel::paths::{LocalPath, PathPart, Platform};

fn path(parts: &[&str]) -> LocalPath {
    let mut v = vec![PathPart::RootDir];
    for p in parts {
        v.push(PathPart::Normal(p.as_bytes().to_vec()));
    }
    LocalPath { parts: v }
}

fn names(p: &LocalPath) -> Vec<String> {
    p.parts
        .iter()
        .map(|c| match c {
            PathPart::Normal(s) => String::from_utf8_lossy(s).into_owned(),
            PathPart::Prefix(p) => format!("prefix:{p:?}"),
            PathPart::RootDir => "/".to_string(),
            PathPart::CurDir => ".".to_string(),
            PathPart::ParentDir => "..".to_string(),
        })
        .collect()
}

#[test]
fn default_pass_count_is_three() {
    assert_eq!(default_passes(), 3);
}

#[test]
fn parses_simple_passes_line() {
    assert_eq!(parse_config("passes=5\n").agent_passes, Some(5));
    assert_eq!(parse_config("passes=5").agent_passes, Some(5));
}

#[test]
fn trims_keys_and_values_and_skips_comments() {
    let text = "# saved by SuDel\n\n   passes =  7  \r\nother=1\n";
    assert_eq!(parse_config(text).agent_passes, Some(7));
    assert_eq!(parse_config("#passes=4\n").agent_passes, None);
    assert_eq!(parse_config("  # passes=4").agent_passes, None);
}

#[test]
fn zero_negative_and_garbage_values_clear_the_count() {
    assert_eq!(parse_config("passes=0").agent_passes, None);
    assert_eq!(parse_config("passes=-3").agent_passes, None);
    assert_eq!(parse_config("passes=abc").agent_passes, None);
    assert_eq!(parse_config("passes=").agent_passes, None);
    assert_eq!(parse_config("passes=+").agent_passes, None);
    assert_eq!(parse_config("passes=4\npasses=x").agent_passes, None);
}

#[test]
fn plus_sign_and_leading_zeros_are_accepted() {
    assert_eq!(parse_config("passes=+9").agent_passes, Some(9));
    assert_eq!(parse_config("passes=0012").agent_passes, Some(12));
}

#[test]
fn overflowing_value_is_rejected() {
    assert_eq!(
        parse_config("passes=99999999999999999999999999").agent_passes,
        None
    );
    let max = format!("passes={}", usize::MAX);
    assert_eq!(parse_config(&max).agent_passes, Some(usize::MAX));
}

#[test]
fn last_passes_line_wins() {
    assert_eq!(parse_config("passes=2\npasses=8\n").agent_passes, Some(8));
    assert_eq!(parse_config("passes=2\nnoise\n").agent_passes, Some(2));
}

#[test]
fn lines_without_equals_or_other_keys_are_ignored() {
    assert_eq!(parse_config("passes 5\n").agent_passes, None);
    assert_eq!(parse_config("pass=5\n").agent_passes, None);
    assert_eq!(parse_config("passes=5=6\n").agent_passes, None);
    assert_eq!(parse_config("").agent_passes, None);
}

#[test]
fn saved_contents_are_read_back() {
    for n in [1usize, 5, 10, 123456, usize::MAX] {
        let text = Config::save_agent_passes(n);
        assert_eq!(text, format!("passes={n}\n"));
        assert_eq!(parse_config(&text).agent_passes, Some(n));
    }
    assert_eq!(parse_config(&Config::save_agent_passes(0)).agent_passes, None);
}

#[test]
fn load_outcomes() {
    let c = Config::load(ReadOutcome::Contents("passes=4".to_string())).unwrap();
    assert_eq!(c.agent_passes, Some(4));
    let c = Config::load(ReadOutcome::NotFound).unwrap();
    assert_eq!(c.agent_passes, None);
    let e = Config::load(ReadOutcome::Failed("permission denied".to_string())).unwrap_err();
    assert_eq!(e, "permission denied");
}

#[test]
fn data_and_config_paths_per_platform() {
    let home = path(&["home", "ann"]);
    let d = data_root(Platform::Other, Some(home.duplicate())).unwrap();
    assert_eq!(names(&d), ["/", "home", "ann", ".config", "SuDel"]);
    let d = data_root(Platform::MacOs, Some(home.duplicate())).unwrap();
    assert_eq!(
        names(&d),
        ["/", "home", "ann", "Library", "Application Support", "SuDel"]
    );
    let appdata = path(&["Users", "ann", "AppData", "Roaming"]);
    let c = config_path(Platform::Windows, Some(appdata)).unwrap();
    assert_eq!(
        names(&c),
        ["/", "Users", "ann", "AppData", "Roaming", "SuDel", "config", "sudel.conf"]
    );
}

#[test]
fn unset_root_is_an_error() {
    assert_eq!(
        config_path(Platform::Windows, None).unwrap_err(),
        "APPDATA is not set"
    );
    assert_eq!(config_path(Platform::MacOs, None).unwrap_err(), "HOME is not set");
    assert_eq!(log_path(Platform::Other, None).unwrap_err(), "HOME is not set");
}

#[test]
fn log_file_per_platform() {
    let home = path(&["home", "ann"]);
    let l = log_path(Platform::MacOs, Some(home.duplicate())).unwrap();
    assert_eq!(names(&l), ["/", "home", "ann", ".sudel.log"]);
    let l = log_path(Platform::Windows, Some(home)).unwrap();
    assert_eq!(names(&l), ["/", "home", "ann", "SuDel.log"]);
}

#[test]
fn log_entries_have_timestamp_and_newline() {
    assert_eq!(
        append_message(1700000000, "AGENT starting"),
        "[1700000000] AGENT starting\n"
    );
    assert_eq!(append_message(0, ""), "[0] \n");
    assert_eq!(
        append_log(42, "SHRED", "/tmp/a b.txt", "OK"),
        "[42] SHRED /tmp/a b.txt OK\n"
    );
}
