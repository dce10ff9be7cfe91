use media_sync::classify::FileInfo;
use media_sync::error::SyncError;
use media_sync::listing::{join_child, ListedItem, PageOutcome, Traversal, WalkState};
use media_sync::urls::{download_url, listing_url};

fn file(name: &str) -> ListedItem {
    ListedItem { name: name.to_string(), item_type: "file".to_string() }
}

fn dir(name: &str) -> ListedItem {
    ListedItem { name: name.to_string(), item_type: "dir".to_string() }
}

fn strings(list: &[&str]) -> Vec<String> {
    list.iter().map(|s| s.to_string()).collect()
}

/// Serves pages from a fixed tree and records every request made.
fn run_walk(
    t: &mut Traversal,
    serve: &dyn Fn(&str, &str, u64) -> PageOutcome,
) -> Vec<(String, String, u64)> {
    let mut asked = Vec::new();
    let mut guard = 0;
    while let Some(req) = t.next_request() {
        asked.push((req.root.clone(), req.path.clone(), req.offset));
        t.on_page(serve(&req.root, &req.path, req.offset));
        guard += 1;
        assert!(guard < 1000);
    }
    asked
}

#[test]
fn walk_stops_before_an_unvisited_directory_once_all_codes_are_found() {
    let mut t = Traversal::new(strings(&["share"]), strings(&["abc"]), "/".to_string());
    let serve = |_root: &str, path: &str, offset: u64| -> PageOutcome {
        match (path, offset) {
            ("/", 0) => PageOutcome::Items(vec![dir("first"), dir("big")]),
            ("/", _) => PageOutcome::Items(vec![]),
            ("/first", 0) => PageOutcome::Items(vec![file("abc_1.jpg"), file("abc_2.jpg")]),
            ("/first", _) => PageOutcome::Items(vec![]),
            ("/big", _) => PageOutcome::Items((0..100).map(|i| file(&format!("zzz_{}.jpg", i))).collect()),
            _ => PageOutcome::Status(404),
        }
    };
    let asked = run_walk(&mut t, &serve);
    assert!(asked.iter().all(|(_, p, _)| p != "/big"));
    assert_eq!(asked.len(), 3);
    assert_eq!(t.walk_state(), WalkState::Finished);
    let files: Vec<FileInfo> = t.into_result().unwrap();
    assert_eq!(files.len(), 2);
    assert_eq!(files[0].path, "/first/abc_1.jpg");
    assert_eq!(files[1].photo_number, 2);
    assert_eq!(files[0].articul, "abc");
}

#[test]
fn pages_until_empty_then_descends_in_listing_order() {
    let mut t = Traversal::new(strings(&["share"]), strings(&["abc", "def"]), "/".to_string());
    let serve = |_root: &str, path: &str, offset: u64| -> PageOutcome {
        match (path, offset) {
            ("/", 0) => PageOutcome::Items(vec![dir("a"), file("ABC.png"), file("readme.txt")]),
            ("/", 100) => PageOutcome::Items(vec![dir("b"), file("abcx.png")]),
            ("/", _) => PageOutcome::Items(vec![]),
            ("/a", 0) => PageOutcome::Items(vec![file("abc-2.png")]),
            ("/a", _) => PageOutcome::Items(vec![]),
            ("/b", 0) => PageOutcome::Items(vec![file("def_5.mov")]),
            ("/b", _) => PageOutcome::Items(vec![]),
            _ => PageOutcome::Status(404),
        }
    };
    let asked = run_walk(&mut t, &serve);
    let paths: Vec<(String, u64)> = asked.iter().map(|(_, p, o)| (p.clone(), *o)).collect();
    assert_eq!(
        paths,
        vec![
            ("/".to_string(), 0),
            ("/".to_string(), 100),
            ("/".to_string(), 200),
            ("/a".to_string(), 0),
            ("/a".to_string(), 100),
            ("/b".to_string(), 0),
        ]
    );
    let files = t.into_result().unwrap();
    let names: Vec<&str> = files.iter().map(|f| f.name.as_str()).collect();
    assert_eq!(names, vec!["ABC.png", "abc-2.png", "def_5.mov"]);
    assert_eq!(files[1].path, "/a/abc-2.png");
}

#[test]
fn missing_responses_are_retried_three_times() {
    let mut t = Traversal::new(strings(&["share"]), strings(&["abc"]), "/".to_string());
    let first = t.next_request().unwrap();
    assert_eq!(first.wait_millis, 0);
    t.on_page(PageOutcome::Transport);
    let again = t.next_request().unwrap();
    assert_eq!((again.path.as_str(), again.offset, again.wait_millis), ("/", 0, 5000));
    t.on_page(PageOutcome::Transport);
    assert!(t.next_request().is_some());
    t.on_page(PageOutcome::Transport);
    assert!(t.next_request().is_none());
    assert_eq!(t.walk_state(), WalkState::Failed);
    assert!(matches!(t.into_result(), Err(SyncError::Enumeration)));
}

#[test]
fn failing_top_directory_fails_the_walk() {
    let mut t = Traversal::new(strings(&["share"]), strings(&["abc"]), "/".to_string());
    t.on_page(PageOutcome::Status(500));
    assert_eq!(t.walk_state(), WalkState::Failed);
    let mut t = Traversal::new(strings(&["share"]), strings(&["abc"]), "/".to_string());
    t.on_page(PageOutcome::Malformed);
    assert_eq!(t.walk_state(), WalkState::Failed);
}

#[test]
fn failing_subdirectory_is_skipped() {
    let mut t = Traversal::new(strings(&["share"]), strings(&["abc", "zzz"]), "/".to_string());
    let serve = |_root: &str, path: &str, offset: u64| -> PageOutcome {
        match (path, offset) {
            ("/", 0) => PageOutcome::Items(vec![dir("bad"), dir("good")]),
            ("/", _) => PageOutcome::Items(vec![]),
            ("/bad", _) => PageOutcome::Status(403),
            ("/good", 0) => PageOutcome::Items(vec![file("abc_1.jpg")]),
            ("/good", _) => PageOutcome::Items(vec![]),
            _ => PageOutcome::Status(404),
        }
    };
    run_walk(&mut t, &serve);
    let files = t.into_result().unwrap();
    assert_eq!(files.len(), 1);
    assert_eq!(files[0].path, "/good/abc_1.jpg");
}

#[test]
fn later_shares_are_walked_until_all_codes_are_found() {
    let mut t = Traversal::new(strings(&["one", "two", "three"]), strings(&["abc", "def"]), "/".to_string());
    let serve = |root: &str, _path: &str, offset: u64| -> PageOutcome {
        match (root, offset) {
            ("one", 0) => PageOutcome::Items(vec![file("abc_1.jpg")]),
            ("two", 0) => PageOutcome::Items(vec![file("def_1.jpg")]),
            ("three", 0) => PageOutcome::Items(vec![file("abc_9.jpg")]),
            _ => PageOutcome::Items(vec![]),
        }
    };
    let asked = run_walk(&mut t, &serve);
    assert!(asked.iter().all(|(r, _, _)| r != "three"));
    let files = t.into_result().unwrap();
    assert_eq!(files.len(), 2);
    assert_eq!(files[1].articul, "def");
}

#[test]
fn nothing_to_walk_without_shares_or_codes() {
    let t = Traversal::new(vec![], strings(&["abc"]), "/".to_string());
    assert!(t.next_request().is_none());
    assert!(t.into_result().unwrap().is_empty());
    let t = Traversal::new(strings(&["share"]), vec![], "/".to_string());
    assert!(t.next_request().is_none());
}

#[test]
fn child_paths() {
    assert_eq!(join_child("/", "a.jpg"), "/a.jpg");
    assert_eq!(join_child("/dir", "a.jpg"), "/dir/a.jpg");
}

#[test]
fn listing_and_download_addresses() {
    assert_eq!(
        listing_url("https://disk.yandex.ru/d/Ab-1", "/", 100, 200),
        "https://cloud-api.yandex.net/v1/disk/public/resources?public_key=https%3A%2F%2Fdisk.yandex.ru%2Fd%2FAb-1&path=%2F&fields=_embedded.items,name,type&limit=100&offset=200"
    );
    assert_eq!(
        download_url("key", "/a b/c.jpg"),
        "https://cloud-api.yandex.net/v1/disk/public/resources/download?public_key=key&path=%2Fa%20b%2Fc.jpg"
    );
}

#[test]
fn page_request_address() {
    let mut t = Traversal::new(strings(&["k"]), strings(&["abc"]), "/".to_string());
    t.on_page(PageOutcome::Items(vec![file("other.jpg")]));
    let req = t.next_request().unwrap();
    assert_eq!(req.offset, 100);
    assert_eq!(req.wait_millis, 500);
    assert_eq!(
        req.url(),
        "https://cloud-api.yandex.net/v1/disk/public/resources?public_key=k&path=%2F&fields=_embedded.items,name,type&limit=100&offset=100"
    );
}

#[test]
fn wrong_shape_files_are_reported_apart_from_unmatched_ones() {
    let mut t = Traversal::new(strings(&["share"]), strings(&["abc001"]), "/".to_string());
    t.on_page(PageOutcome::Items(vec![file("ABC0012.png"), file("XYZ9.png"), file("abc001_1.png")]));
    let m = t.mismatched();
    assert_eq!(m.len(), 1);
    assert_eq!(m[0].name, "ABC0012.png");
    assert_eq!(m[0].path, "/ABC0012.png");
    assert_eq!(m[0].code, "abc001");
    let files = t.into_result().unwrap();
    assert_eq!(files.len(), 1);
    assert_eq!(files[0].name, "abc001_1.png");
}

#[test]
fn failed_subdirectory_drops_its_files_and_moves_to_the_next_sibling() {
    let mut t = Traversal::new(strings(&["share"]), strings(&["abc", "zzz"]), "/".to_string());
    t.on_page(PageOutcome::Items(vec![dir("bad"), dir("good"), file("abc_1.jpg")]));
    t.on_page(PageOutcome::Items(vec![]));
    assert_eq!(t.next_request().unwrap().path, "/bad");
    t.on_page(PageOutcome::Items(vec![file("abc_2.jpg")]));
    t.on_page(PageOutcome::Transport);
    t.on_page(PageOutcome::Transport);
    t.on_page(PageOutcome::Transport);
    assert_eq!(t.walk_state(), WalkState::Listing);
    let req = t.next_request().unwrap();
    assert_eq!((req.path.as_str(), req.offset), ("/good", 0));
    t.on_page(PageOutcome::Items(vec![]));
    assert_eq!(t.walk_state(), WalkState::Finished);
    let paths: Vec<String> = t.into_result().unwrap().into_iter().map(|f| f.path).collect();
    assert_eq!(paths, vec!["/abc_1.jpg".to_string()]);
}
