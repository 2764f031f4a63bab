use organize_fs::classify::{
    classify, extension_key, modification_month, month_name, month_or_now, year_name, Mode, YearMonth,
};
use organize_fs::collision::{resolve_name, variant_name, ResolveError, MAX_SUFFIX};
use organize_fs::plan::{plan_file, Action, Config, FileRecord, SkipReason};
use organize_fs::run::{
    check_root, destructive_from_flags, parse_ext_list, settle, ConfigError, Event, Failure,
    Outcome, RunOutcome,
};
use organize_fs::text::is_hidden;
use organize_fs::walk::{enters, max_depth, visits, Entry};

fn names(v: &[&str]) -> Vec<String> {
    v.iter().map(|s| s.to_string()).collect()
}

fn config(mode: Mode, destructive: bool) -> Config {
    Config { mode, recursive: true, allow: Vec::new(), min_size: 0, destructive }
}

fn record(path: &[&str], size: u64) -> FileRecord {
    FileRecord { path: names(path), size, modified: None }
}

const NOV_5_2023_NOON_UTC: i64 = 1_699_185_600;

#[test]
fn hidden_names() {
    assert!(is_hidden(".git"));
    assert!(is_hidden("."));
    assert!(!is_hidden("photo.jpg"));
    assert!(!is_hidden(""));
    assert!(!enters(".cache"));
    assert!(enters("docs"));
}

#[test]
fn extension_keys() {
    assert_eq!(extension_key("photo.JPG"), "jpg");
    assert_eq!(extension_key("archive.tar.gz"), "gz");
    assert_eq!(extension_key("README"), "no_extension");
    assert_eq!(extension_key(".profile"), "no_extension");
    assert_eq!(extension_key("notes."), "no_extension");
    assert_eq!(extension_key("Straße.ÄÖ"), "äö");
}

#[test]
fn year_and_month_names() {
    assert_eq!(year_name(2023), "2023");
    assert_eq!(year_name(5), "0005");
    assert_eq!(year_name(0), "0000");
    assert_eq!(year_name(-1), "-0001");
    assert_eq!(year_name(12345), "+12345");
    assert_eq!(month_name(3), "03");
    assert_eq!(month_name(11), "11");
}

#[test]
fn classify_by_extension_and_month() {
    let ym = YearMonth { year: 2024, month: 3 };
    assert_eq!(classify(Mode::Extension, "a.PNG", ym), names(&["png"]));
    assert_eq!(classify(Mode::Mtime, "a.PNG", ym), names(&["2024", "03"]));
}

#[test]
fn modification_month_in_local_time() {
    let ym = modification_month(Some(NOV_5_2023_NOON_UTC));
    assert_eq!(ym, YearMonth { year: 2023, month: 11 });
    let now = modification_month(None);
    assert!(now.month >= 1 && now.month <= 12);
    assert!(now.year >= 2024);
    let far = modification_month(Some(i64::MAX));
    assert!(far.month >= 1 && far.month <= 12);
}

#[test]
fn fallback_month_only_when_unconverted() {
    let file = YearMonth { year: 2023, month: 11 };
    let now = YearMonth { year: 2026, month: 10 };
    assert_eq!(month_or_now(Some(file), now), file);
    assert_eq!(month_or_now(None, now), now);
}

#[test]
fn allow_list_trims_unicode_white_space() {
    assert_eq!(parse_ext_list("\u{3000}JPG\t,\u{a0}png\u{2009}"), names(&["jpg", "png"]));
    assert_eq!(parse_ext_list(" \n , \u{85}"), Vec::<String>::new());
}

#[test]
fn variant_names() {
    assert_eq!(variant_name("a.txt", 1), "a (1).txt");
    assert_eq!(variant_name("notes", 3), "notes (3)");
    assert_eq!(variant_name("a.b.c", 12), "a.b (12).c");
    assert_eq!(variant_name(".profile", 2), ".profile (2)");
    assert_eq!(variant_name("notes.", 1), "notes (1).");
}

#[test]
fn free_name_is_kept() {
    assert_eq!(resolve_name("a.txt", &names(&["b.txt"])), Ok("a.txt".to_string()));
    assert_eq!(resolve_name("a.txt", &Vec::new()), Ok("a.txt".to_string()));
}

#[test]
fn collision_takes_first_free_variant() {
    assert_eq!(resolve_name("a.txt", &names(&["a.txt"])), Ok("a (1).txt".to_string()));
    assert_eq!(
        resolve_name("a.txt", &names(&["a (1).txt", "a.txt"])),
        Ok("a (2).txt".to_string())
    );
    assert_eq!(
        resolve_name("a.txt", &names(&["a.txt", "a (2).txt"])),
        Ok("a (1).txt".to_string())
    );
}

#[test]
fn collision_search_is_bounded() {
    let mut taken = vec!["z".to_string()];
    for i in 1..=MAX_SUFFIX {
        taken.push(format!("z ({})", i));
    }
    taken.reverse();
    assert_eq!(resolve_name("z", &taken), Err(ResolveError::Exhausted));
    taken.remove(0);
    assert_eq!(resolve_name("z", &taken), Ok(format!("z ({})", MAX_SUFFIX)));
}

#[test]
fn photo_goes_to_lowercase_extension_bucket() {
    let action = plan_file(
        &config(Mode::Extension, true),
        &record(&["photo.JPG"], 10),
        YearMonth { year: 2020, month: 1 },
        &Vec::new(),
    );
    assert_eq!(action, Action::Relocate { dir: names(&["jpg"]), name: "photo.JPG".to_string() });
}

#[test]
fn file_goes_to_year_and_month_bucket() {
    let mut rec = record(&["sub", "report.pdf"], 10);
    rec.modified = Some(NOV_5_2023_NOON_UTC);
    let ym = modification_month(rec.modified);
    let action = plan_file(&config(Mode::Mtime, true), &rec, ym, &Vec::new());
    assert_eq!(
        action,
        Action::Relocate { dir: names(&["2023", "11"]), name: "report.pdf".to_string() }
    );
}

#[test]
fn collision_renames_within_bucket() {
    let cfg = config(Mode::Extension, true);
    let ym = YearMonth { year: 2020, month: 1 };
    let a = record(&["a.txt"], 1);
    assert_eq!(
        plan_file(&cfg, &a, ym, &names(&["a.txt"])),
        Action::Relocate { dir: names(&["txt"]), name: "a (1).txt".to_string() }
    );
    assert_eq!(
        plan_file(&cfg, &a, ym, &names(&["a.txt", "a (1).txt"])),
        Action::Relocate { dir: names(&["txt"]), name: "a (2).txt".to_string() }
    );
}

#[test]
fn small_files_are_skipped() {
    let mut cfg = config(Mode::Extension, true);
    cfg.min_size = 100;
    let ym = YearMonth { year: 2020, month: 1 };
    assert_eq!(
        plan_file(&cfg, &record(&["big.bin"], 99), ym, &Vec::new()),
        Action::Skip(SkipReason::TooSmall)
    );
    assert_eq!(
        plan_file(&cfg, &record(&["big.bin"], 100), ym, &Vec::new()),
        Action::Relocate { dir: names(&["bin"]), name: "big.bin".to_string() }
    );
}

#[test]
fn allow_list_filters_by_extension_key() {
    let mut cfg = config(Mode::Extension, true);
    cfg.allow = names(&["png", "no_extension"]);
    let ym = YearMonth { year: 2020, month: 1 };
    assert_eq!(
        plan_file(&cfg, &record(&["x.JPG"], 1), ym, &Vec::new()),
        Action::Skip(SkipReason::NotAllowed)
    );
    assert_eq!(
        plan_file(&cfg, &record(&["x.PNG"], 1), ym, &Vec::new()),
        Action::Relocate { dir: names(&["png"]), name: "x.PNG".to_string() }
    );
    assert_eq!(
        plan_file(&cfg, &record(&["Makefile"], 1), ym, &Vec::new()),
        Action::Relocate { dir: names(&["no_extension"]), name: "Makefile".to_string() }
    );
    cfg.mode = Mode::Mtime;
    assert_eq!(
        plan_file(&cfg, &record(&["x.jpg"], 1), ym, &Vec::new()),
        Action::Skip(SkipReason::NotAllowed)
    );
}

#[test]
fn preview_run_never_relocates() {
    let ym = YearMonth { year: 2020, month: 1 };
    assert_eq!(
        plan_file(&config(Mode::Extension, false), &record(&["photo.JPG"], 10), ym, &Vec::new()),
        Action::Preview { dir: names(&["jpg"]), name: "photo.JPG".to_string() }
    );
}

#[test]
fn second_run_moves_nothing() {
    let cfg = config(Mode::Extension, true);
    let ym = YearMonth { year: 2021, month: 7 };
    assert_eq!(
        plan_file(&cfg, &record(&["jpg", "photo.JPG"], 10), ym, &names(&["photo.JPG"])),
        Action::Skip(SkipReason::AlreadyPlaced)
    );
    assert_eq!(
        plan_file(&cfg, &record(&["txt", "a (1).txt"], 1), ym, &names(&["a.txt", "a (1).txt"])),
        Action::Skip(SkipReason::AlreadyPlaced)
    );
    let mcfg = config(Mode::Mtime, true);
    assert_eq!(
        plan_file(&mcfg, &record(&["2021", "07", "x"], 1), ym, &Vec::new()),
        Action::Skip(SkipReason::AlreadyPlaced)
    );
}

#[test]
fn exhausted_bucket_fails_the_file() {
    let mut taken = vec!["q".to_string()];
    for i in 1..=MAX_SUFFIX {
        taken.push(format!("q ({})", i));
    }
    taken.reverse();
    let action = plan_file(
        &config(Mode::Extension, true),
        &record(&["q"], 1),
        YearMonth { year: 2020, month: 1 },
        &taken,
    );
    assert_eq!(action, Action::Exhausted);
}

fn entry(path: &[&str], is_dir: bool) -> Entry {
    Entry { path: names(path), is_dir }
}

#[test]
fn hidden_folders_are_never_visited() {
    assert!(!visits(&entry(&[".git", "config.txt"], false), true));
    assert!(!visits(&entry(&["a", ".hidden", "b", "c.txt"], false), true));
    assert!(!visits(&entry(&[".env"], false), true));
    assert!(visits(&entry(&["a", "b", "c.txt"], false), true));
}

#[test]
fn flat_walk_visits_only_direct_children() {
    assert!(visits(&entry(&["top.txt"], false), false));
    assert!(!visits(&entry(&["sub", "deep.txt"], false), false));
    assert!(visits(&entry(&["sub", "deep.txt"], false), true));
    assert_eq!(max_depth(false), 1);
    assert_eq!(max_depth(true), usize::MAX);
}

#[test]
fn folders_and_root_are_not_files() {
    assert!(!visits(&entry(&[], false), true));
    assert!(!visits(&entry(&[], true), true));
    assert!(!visits(&entry(&["sub"], true), true));
}

#[test]
fn safety_flags() {
    assert_eq!(destructive_from_flags(true, true), Err(ConfigError::ConflictingFlags));
    assert_eq!(destructive_from_flags(false, false), Ok(false));
    assert_eq!(destructive_from_flags(true, false), Ok(false));
    assert_eq!(destructive_from_flags(false, true), Ok(true));
}

#[test]
fn root_checks() {
    assert_eq!(check_root(false, false), Err(ConfigError::MissingRoot));
    assert_eq!(check_root(true, false), Err(ConfigError::NotADirectory));
    assert_eq!(check_root(true, true), Ok(()));
}

#[test]
fn allow_list_parsing() {
    assert_eq!(parse_ext_list(" JPG, png,,  ,Mp4 "), names(&["jpg", "png", "mp4"]));
    assert_eq!(parse_ext_list(""), Vec::<String>::new());
    assert_eq!(parse_ext_list("tar.GZ"), names(&["tar.gz"]));
}

#[test]
fn settling_actions() {
    let dir = names(&["jpg"]);
    let name = "p.jpg".to_string();
    assert_eq!(
        settle(Action::Skip(SkipReason::AlreadyPlaced), Err("unused".to_string())),
        Outcome::Skipped(SkipReason::AlreadyPlaced)
    );
    assert_eq!(settle(Action::Exhausted, Ok(())), Outcome::Failed(Failure::Exhausted));
    assert_eq!(
        settle(Action::Preview { dir: dir.clone(), name: name.clone() }, Ok(())),
        Outcome::Simulated { dir: dir.clone(), name: name.clone() }
    );
    assert_eq!(
        settle(Action::Relocate { dir: dir.clone(), name: name.clone() }, Ok(())),
        Outcome::Moved { dir: dir.clone(), name: name.clone() }
    );
    assert_eq!(
        settle(Action::Relocate { dir, name }, Err("denied".to_string())),
        Outcome::Failed(Failure::Io("denied".to_string()))
    );
}

#[test]
fn tally_counts_each_kind() {
    let mut tally = RunOutcome::new();
    assert!(tally.succeeded());
    let path = names(&["a.txt"]);
    tally.record(Event { path: path.clone(), outcome: Outcome::Skipped(SkipReason::TooSmall) });
    tally.record(Event {
        path: path.clone(),
        outcome: Outcome::Moved { dir: names(&["txt"]), name: "a.txt".to_string() },
    });
    tally.record(Event { path: path.clone(), outcome: Outcome::Failed(Failure::Exhausted) });
    tally.record(Event {
        path,
        outcome: Outcome::Simulated { dir: names(&["txt"]), name: "a.txt".to_string() },
    });
    assert_eq!(tally.processed, 4);
    assert_eq!(tally.skipped, 1);
    assert_eq!(tally.moved, 1);
    assert_eq!(tally.failed, 1);
    assert_eq!(tally.simulated, 1);
    assert_eq!(tally.events.len(), 4);
    assert!(!tally.succeeded());
}
