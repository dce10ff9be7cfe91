use media_sync::config::Config;
use media_sync::input::{contains_text, split_entries, split_trimmed, trim_text};
use media_sync::local::{local_files, local_mismatches, LocalEntry};
use media_sync::error::SyncError;
use media_sync::profile::{default_profile, Profile, ProfileManager};
use media_sync::session::{DownloaderApp, Source, StartRefusal};

fn manager(keys: &[(&str, &str)]) -> ProfileManager {
    let profiles = keys
        .iter()
        .map(|(n, k)| Profile { name: n.to_string(), api_key: k.to_string() })
        .collect();
    ProfileManager::with_profiles(profiles, Config::at("/cfg".to_string()))
}

#[test]
fn settings_files_live_in_the_settings_directory() {
    let c = Config::at("/home/u/.config/downloader".to_string());
    let p = c.get_config_file_path();
    assert!(p.starts_with("/home/u/.config/downloader"));
    assert!(p.ends_with("profiles.json"));
    assert!(p.len() > "/home/u/.config/downloader".len() + "profiles.json".len() - 1);
    let k = c.get_cookies_file_path();
    assert!(k.ends_with("cookies.json"));
    assert!(k.starts_with("/home/u/.config/downloader"));
}

#[test]
fn profiles_add_select_and_delete() {
    let mut pm = ProfileManager::with_profiles(vec![default_profile()], Config::at("/cfg".to_string()));
    assert_eq!(pm.current_profile().name, "Добавить");
    pm.add_profile("shop".to_string());
    assert_eq!(pm.selected_index, 1);
    assert_eq!(pm.current_profile().name, "shop");
    assert_eq!(pm.current_profile().api_key, "");
    pm.current_profile_mut().api_key = "k-123".to_string();
    assert_eq!(pm.profiles[1].api_key, "k-123");
    pm.delete_profile(1);
    assert_eq!(pm.profiles.len(), 1);
    assert_eq!(pm.selected_index, 0);
    pm.delete_profile(0);
    assert!(pm.profiles.is_empty());
    assert_eq!(pm.selected_index, 0);
}

#[test]
fn deleting_before_the_selection_keeps_the_index() {
    let mut pm = manager(&[("a", "1"), ("b", "2"), ("c", "3")]);
    pm.selected_index = 1;
    pm.delete_profile(0);
    assert_eq!(pm.selected_index, 1);
    assert_eq!(pm.current_profile().name, "c");
}

#[test]
fn entries_are_trimmed_and_empty_ones_dropped() {
    assert_eq!(split_entries(" a1 \n\n b2\r\n  \nc3", '\n'), vec!["a1", "b2", "c3"]);
    assert_eq!(split_entries("", '\n'), Vec::<String>::new());
    assert_eq!(split_entries("x, y ,,z,", ','), vec!["x", "y", "z"]);
    assert_eq!(split_trimmed("x, y ,,z,", ','), vec!["x", "y", "", "z", ""]);
    assert_eq!(trim_text("\t hi there \u{3000}"), "hi there");
    assert_eq!(trim_text("   "), "");
    assert!(contains_text("https://disk.yandex.ru/d/abc", "disk.yandex.ru/d/"));
    assert!(!contains_text("https://example.com/d/abc", "disk.yandex.ru/d/"));
    assert!(contains_text("abc", ""));
}

#[test]
fn local_walk_keeps_matching_media_files_in_order() {
    let e = |path: &str, name: &str, is_file: bool| LocalEntry {
        path: path.to_string(),
        file_name: name.to_string(),
        is_file,
    };
    let entries = vec![
        e("/src", "src", false),
        e("/src/ABC_2.JPG", "ABC_2.JPG", true),
        e("/src/abc.txt", "abc.txt", true),
        e("/src/sub", "sub", false),
        e("/src/sub/abc.png", "abc.png", true),
        e("/src/sub/abcd.png", "abcd.png", true),
        e("/src/sub/zzz.png", "zzz.png", true),
    ];
    let codes = vec!["abc".to_string()];
    let files = local_files(true, &entries, &codes).unwrap();
    let got: Vec<(&str, &str, u32)> =
        files.iter().map(|f| (f.path.as_str(), f.articul.as_str(), f.photo_number)).collect();
    assert_eq!(got, vec![("/src/ABC_2.JPG", "abc", 2), ("/src/sub/abc.png", "abc", 1)]);
    assert!(matches!(local_files(false, &entries, &codes), Err(SyncError::Enumeration)));
}

fn form(pm: ProfileManager) -> DownloaderApp {
    let mut app = DownloaderApp::new(pm);
    app.urls = "https://disk.yandex.ru/d/one, https://disk.yandex.ru/d/two".to_string();
    app.file_names = "abc\n def \n".to_string();
    app
}

#[test]
fn remote_run_plan() {
    let app = form(manager(&[("p", "key")]));
    let plan = app.plan_run(false, false).unwrap();
    assert_eq!(plan.codes, vec!["abc", "def"]);
    assert_eq!(plan.api_key, "key");
    match plan.source {
        Source::Remote { roots } => {
            assert_eq!(roots, vec!["https://disk.yandex.ru/d/one", "https://disk.yandex.ru/d/two"])
        }
        other => panic!("unexpected {:?}", other),
    }
}

#[test]
fn run_start_refusals() {
    let mut app = form(manager(&[("p", "key")]));
    app.urls = "https://disk.yandex.ru/d/one, https://example.com/x".to_string();
    assert!(matches!(app.plan_run(false, false), Err(StartRefusal::NotShareLink)));
    app.urls = "https://disk.yandex.ru/d/one,".to_string();
    assert!(matches!(app.plan_run(false, false), Err(StartRefusal::NotShareLink)));

    app.use_local_path = true;
    app.single_file_path = "/x/abc_1.jpg".to_string();
    assert!(matches!(app.plan_run(false, true), Err(StartRefusal::NotAFile)));
    app.single_file_path = "/x/abc_1.txt".to_string();
    assert!(matches!(app.plan_run(true, true), Err(StartRefusal::NotMedia)));
    app.single_file_path = "/x/abc_1.jpg".to_string();
    assert!(matches!(app.plan_run(true, false).unwrap().source, Source::SingleFile { .. }));

    app.single_file_path = String::new();
    app.local_source_path = "/photos".to_string();
    assert!(matches!(app.plan_run(true, false), Err(StartRefusal::NotADirectory)));
    match app.plan_run(false, true).unwrap().source {
        Source::LocalDir { path } => assert_eq!(path, "/photos"),
        other => panic!("unexpected {:?}", other),
    }

    let mut keyless = form(manager(&[("p", "")]));
    assert!(matches!(keyless.plan_run(false, false), Err(StartRefusal::NoApiKey)));
    keyless.profile_manager = manager(&[]);
    assert!(matches!(keyless.plan_run(false, false), Err(StartRefusal::NoApiKey)));

    let mut empty = form(manager(&[("p", "key")]));
    empty.file_names = " \n \n".to_string();
    assert!(matches!(empty.plan_run(false, false), Err(StartRefusal::NoCodes)));
}

#[test]
fn only_one_run_at_a_time() {
    let mut app = form(manager(&[("p", "key")]));
    let plan = app.start_run(false, false).unwrap();
    assert_eq!(app.run.total(), Some(plan.codes.len()));
    assert!(app.run.is_running());
    assert!(matches!(app.start_run(false, false), Err(StartRefusal::AlreadyRunning)));
    app.run.record("abc", false);
    app.run.record("def", true);
    app.run.finish();
    app.take_failed_as_input();
    assert_eq!(app.file_names, "abc");
    assert!(app.start_run(false, false).is_ok());
    app.run.record("abc", true);
    app.run.finish();
    app.take_failed_as_input();
    assert_eq!(app.file_names, "");
}

#[test]
fn refused_start_is_logged() {
    let mut app = form(manager(&[("p", "")]));
    assert!(matches!(app.start_run(false, false), Err(StartRefusal::NoApiKey)));
    assert!(!app.run.is_running());
    assert_eq!(app.run.logs().len(), 1);
    assert_eq!(app.run.logs()[0], "run not started: the profile has no API key");
    let mut app = form(manager(&[("p", "key")]));
    app.start_run(false, false).unwrap();
    assert!(matches!(app.start_run(false, false), Err(StartRefusal::AlreadyRunning)));
    assert_eq!(app.run.logs().last().unwrap(), "run not started: a run is already going on");
}

#[test]
fn local_walk_reports_wrong_shape_files() {
    let e = |path: &str, name: &str| LocalEntry { path: path.to_string(), file_name: name.to_string(), is_file: true };
    let entries = vec![e("/s/ABC0012.png", "ABC0012.png"), e("/s/XYZ9.png", "XYZ9.png"), e("/s/abc001.png", "abc001.png")];
    let m = local_mismatches(&entries, &vec!["abc001".to_string()]);
    assert_eq!(m.len(), 1);
    assert_eq!((m[0].path.as_str(), m[0].code.as_str()), ("/s/ABC0012.png", "abc001"));
}

#[test]
fn new_form_has_an_empty_run() {
    let app = DownloaderApp::new(manager(&[("p", "key")]));
    assert_eq!(app.run.processed(), 0);
    assert_eq!(app.run.uploaded(), 0);
    assert!(app.run.failed_codes().is_empty());
    assert!(app.run.logs().is_empty());
    assert_eq!(app.run.total(), None);
}
