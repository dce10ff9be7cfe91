use media_sync::classify::FileInfo;
use media_sync::error::SyncError;
use media_sync::links::{LinkResolution, LinkResponse};
use media_sync::orchestrate::{plan_code, CodePlan};
use media_sync::product::{card_query, pick_product, SearchResponse};
use media_sync::run::RunState;
use media_sync::upload::{
    cleanup_file, files_for_code, local_file_url, local_urls, media_output, validate_urls,
    BatchBuilder, SendResult, Upload,
    UploadState,
};

fn strings(list: &[&str]) -> Vec<String> {
    list.iter().map(|s| s.to_string()).collect()
}

fn info(name: &str, code: &str, photo: u32) -> FileInfo {
    FileInfo {
        name: name.to_string(),
        path: format!("/d/{}", name),
        articul: code.to_string(),
        photo_number: photo,
    }
}

#[test]
fn unsupported_scheme_is_refused_before_sending() {
    assert_eq!(validate_urls(&strings(&["ftp://x"])), Err(SyncError::Validation));
    assert_eq!(
        validate_urls(&strings(&["https://a", "ftp://x", "http://b"])),
        Err(SyncError::Validation)
    );
    assert_eq!(validate_urls(&strings(&["http://a", "https://b", "file:///c"])), Ok(()));
    assert_eq!(validate_urls(&vec![]), Ok(()));
}

#[test]
fn rate_limited_twice_then_accepted() {
    let mut run = RunState::new();
    run.start(1).unwrap();
    let mut up = Upload::new();
    let mut delayed = 0;
    for reply in [SendResult::Status(429), SendResult::Status(429), SendResult::Status(200)] {
        up.on_reply(reply, &mut run);
        if let UploadState::Sending { wait_millis } = up.state {
            assert_eq!(wait_millis, 60000);
            delayed += 1;
        }
    }
    assert_eq!(delayed, 2);
    assert_eq!(up.state, UploadState::Succeeded);
    assert_eq!(up.sent, 3);
    assert_eq!(run.uploaded(), 1);
}

#[test]
fn rate_limited_three_times_fails_without_a_fourth_send() {
    let mut run = RunState::new();
    let mut up = Upload::new();
    up.on_reply(SendResult::Status(429), &mut run);
    up.on_reply(SendResult::Status(429), &mut run);
    up.on_reply(SendResult::Status(429), &mut run);
    assert_eq!(up.sent, 3);
    assert_eq!(up.state, UploadState::Failed { error: SyncError::Api { status: 429 } });
    assert_eq!(run.uploaded(), 0);
}

#[test]
fn other_status_fails_at_once() {
    let mut run = RunState::new();
    let mut up = Upload::new();
    up.on_reply(SendResult::Status(400), &mut run);
    assert_eq!(up.sent, 1);
    assert_eq!(up.state, UploadState::Failed { error: SyncError::Api { status: 400 } });
}

#[test]
fn missing_responses_exhaust_the_attempts() {
    let mut run = RunState::new();
    let mut up = Upload::new();
    up.on_reply(SendResult::Transport, &mut run);
    assert_eq!(up.state, UploadState::Sending { wait_millis: 60000 });
    up.on_reply(SendResult::Transport, &mut run);
    up.on_reply(SendResult::Transport, &mut run);
    assert_eq!(up.state, UploadState::Failed { error: SyncError::Transport });
}

#[test]
fn product_is_the_first_card() {
    assert_eq!(pick_product(&SearchResponse::Cards(vec![77, 12])), Ok(77));
    assert_eq!(pick_product(&SearchResponse::Cards(vec![])), Err(SyncError::NotFound));
    assert_eq!(pick_product(&SearchResponse::Status(401)), Err(SyncError::Api { status: 401 }));
    assert_eq!(pick_product(&SearchResponse::Malformed), Err(SyncError::Protocol));
    assert_eq!(pick_product(&SearchResponse::Transport), Err(SyncError::Transport));
}

#[test]
fn search_query_for_a_code() {
    let q = card_query("ABC-1");
    assert_eq!(q.limit, 100);
    assert_eq!(q.with_photo, -1);
    assert_eq!(q.text_search, "ABC-1");
    assert!(!q.ascending);
}

#[test]
fn link_search_passes_over_unauthorized_shares() {
    let mut l = LinkResolution::new(strings(&["one", "two"]), "/a.jpg".to_string());
    let q = l.next_request().unwrap();
    assert!(q.url.contains("public_key=one"));
    l.on_response(LinkResponse::Status(401));
    let q = l.next_request().unwrap();
    assert!(q.url.contains("public_key=two"));
    assert_eq!(q.wait_millis, 0);
    l.on_response(LinkResponse::Link("https://direct/a".to_string()));
    assert!(l.next_request().is_none());
    assert_eq!(l.into_result(), Ok("https://direct/a".to_string()));
}

#[test]
fn link_search_retries_then_gives_up() {
    let mut l = LinkResolution::new(strings(&["one", "two"]), "/a.jpg".to_string());
    let mut asked = Vec::new();
    while let Some(q) = l.next_request() {
        asked.push((q.url.contains("public_key=one"), q.wait_millis));
        l.on_response(if asked.len() % 2 == 0 { LinkResponse::Transport } else { LinkResponse::Status(500) });
    }
    assert_eq!(asked, vec![(true, 0), (true, 5000), (true, 5000), (false, 0), (false, 5000), (false, 5000)]);
    assert_eq!(l.into_result(), Err(SyncError::Resolution));
}

#[test]
fn batches_and_local_addresses() {
    assert_eq!(local_file_url("/tmp/a.jpg"), "file:///tmp/a.jpg");
    assert!(matches!(media_output(5, vec![]), Err(SyncError::NotFound)));
    let m = media_output(5, strings(&["http://a"])).unwrap();
    assert_eq!(m.nm_id, 5);
    assert_eq!(m.data, strings(&["http://a"]));
    let files = vec![info("a.jpg", "a", 1), info("b.jpg", "b", 2)];
    assert_eq!(local_urls(&files), strings(&["file:///d/a.jpg", "file:///d/b.jpg"]));
}

#[test]
fn files_of_one_code_keep_their_order() {
    let files = vec![info("a_2.jpg", "a", 2), info("b.jpg", "b", 1), info("a_1.jpg", "a", 1)];
    let mine = files_for_code(&files, "a");
    let names: Vec<&str> = mine.iter().map(|f| f.name.as_str()).collect();
    assert_eq!(names, vec!["a_2.jpg", "a_1.jpg"]);
    assert!(files_for_code(&files, "c").is_empty());
}

#[test]
fn code_plans() {
    let files = vec![info("a_2.jpg", "a", 2), info("b.jpg", "b", 1)];
    assert!(matches!(plan_code(Err(SyncError::NotFound), &files, "a"), CodePlan::Skip { error: SyncError::NotFound }));
    assert!(matches!(plan_code(Ok(9), &files, "c"), CodePlan::Skip { error: SyncError::NotFound }));
    match plan_code(Ok(9), &files, "a") {
        CodePlan::Upload { nm_id, files } => {
            assert_eq!(nm_id, 9);
            assert_eq!(files.len(), 1);
            assert_eq!(files[0].name, "a_2.jpg");
        }
        other => panic!("unexpected {:?}", other),
    }
}

#[test]
fn remote_files_cannot_be_cleaned_up() {
    assert_eq!(cleanup_file("file:///tmp/a.jpg"), Ok(()));
    assert_eq!(cleanup_file("https://downloader.disk.yandex.ru/a"), Err(SyncError::Unsupported));
    assert_eq!(cleanup_file("/tmp/a.jpg"), Err(SyncError::Unsupported));
}

#[test]
fn batch_gathers_links_in_file_order() {
    let files = vec![info("a_1.jpg", "a", 1), info("a_2.jpg", "a", 2)];
    let mut b = BatchBuilder::new(7, &files);
    assert_eq!(b.next_path(), Some("/d/a_1.jpg".to_string()));
    b.on_link(Ok("https://x/1".to_string()));
    assert_eq!(b.next_path(), Some("/d/a_2.jpg".to_string()));
    b.on_link(Ok("https://x/2".to_string()));
    assert_eq!(b.next_path(), None);
    let m = b.into_output().unwrap();
    assert_eq!(m.nm_id, 7);
    assert_eq!(m.data, strings(&["https://x/1", "https://x/2"]));
}

#[test]
fn batch_stops_at_the_first_missing_link() {
    let files = vec![info("a_1.jpg", "a", 1), info("a_2.jpg", "a", 2)];
    let mut b = BatchBuilder::new(7, &files);
    b.on_link(Err(SyncError::Resolution));
    assert_eq!(b.next_path(), None);
    assert!(matches!(b.into_output(), Err(SyncError::Resolution)));
    let b = BatchBuilder::new(7, &vec![]);
    assert_eq!(b.next_path(), None);
    assert!(matches!(b.into_output(), Err(SyncError::NotFound)));
}
