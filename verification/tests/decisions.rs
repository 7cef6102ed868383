use copy_manga_downloader::text::decimal_string;
use copy_manga_downloader::download::{chapter_list_lines, chapter_range, selected_chapters, start_in_range, update_details};
use copy_manga_downloader::flow::{
    exit_requested, home_choice, line_step, menu_action, next_attempt, page_step, AttemptDecision, HomeChoice,
    LineStep, MenuAction, PageAction, PageEvent, SEARCH_ATTEMPTS,
};
use copy_manga_downloader::numbers::{parse_i32, parse_usize};
use copy_manga_downloader::secrets::{extract_chapter_secrets, extract_page_secrets, SecretError};
use copy_manga_downloader::types::{ChapterContents, ChapterDetails};
use copy_manga_downloader::updates::{contains_name, manga_update, new_chapters, scan_lookup, scan_start, ScanRecord, ScanStep, UpdateScan};

fn chapter(name: &str) -> ChapterContents {
    ChapterContents { chapter_name: name.to_string(), chapter_uuid: format!("id-{name}"), len: 0, pages_url: vec![] }
}

fn names(cs: &[ChapterContents]) -> Vec<String> {
    cs.iter().map(|c| c.chapter_name.clone()).collect()
}

#[test]
fn page_secrets_found() {
    let html = r#"<script>var  ccz = 'k3y'; </script><input id="dnt" type="hidden" value="7">"#;
    assert_eq!(extract_page_secrets(html), Ok(("k3y".to_string(), "7".to_string())));
    let no_dnt = "var ccz='abc'";
    assert_eq!(extract_page_secrets(no_dnt), Ok(("abc".to_string(), "3".to_string())));
    assert_eq!(extract_page_secrets("var ccz = ''"), Err(SecretError::MissingPageKey));
}

#[test]
fn chapter_secrets_found() {
    let html = "var cct = 'key'; var contentKey = 'cipher';";
    assert_eq!(extract_chapter_secrets(html), Ok(("key".to_string(), "cipher".to_string())));
    assert_eq!(extract_chapter_secrets("var contentKey = 'c'"), Err(SecretError::MissingChapterKey));
    assert_eq!(extract_chapter_secrets("var cct = 'k'"), Err(SecretError::MissingContentKey));
}

#[test]
fn number_parsing() {
    assert_eq!(parse_usize("12"), Some(12));
    assert_eq!(parse_usize("+7"), Some(7));
    assert_eq!(parse_usize("007"), Some(7));
    assert_eq!(parse_usize("-1"), None);
    assert_eq!(parse_usize(""), None);
    assert_eq!(parse_usize("+"), None);
    assert_eq!(parse_usize("1a"), None);
    assert_eq!(parse_usize("18446744073709551616"), None);
    assert_eq!(parse_usize("18446744073709551615"), Some(usize::MAX));
    assert_eq!(parse_i32("-2147483648"), Some(i32::MIN));
    assert_eq!(parse_i32("2147483647"), Some(i32::MAX));
    assert_eq!(parse_i32("2147483648"), None);
    assert_eq!(parse_i32("-0"), Some(0));
    assert_eq!(parse_i32("+4"), Some(4));
    assert_eq!(parse_i32("-"), None);
    assert_eq!(parse_i32("4 "), None);
}

#[test]
fn new_chapters_are_the_missing_ones() {
    let online = vec![chapter("1"), chapter("2"), chapter("3")];
    let local = vec!["2".to_string(), "other".to_string()];
    assert_eq!(names(&new_chapters(&online, &local)), vec!["1", "3"]);
    assert_eq!(names(&new_chapters(&online, &vec![])), vec!["1", "2", "3"]);
    assert!(contains_name(&local, &"2".to_string()));
    assert!(!contains_name(&local, &"3".to_string()));
}

#[test]
fn nothing_new_after_downloading_the_update() {
    let online = vec![chapter("1"), chapter("2"), chapter("3")];
    let mut local = vec!["2".to_string()];
    let fresh = new_chapters(&online, &local);
    local.extend(names(&fresh));
    assert!(new_chapters(&online, &local).is_empty());
}

#[test]
fn manga_update_only_when_something_is_new() {
    let online = ChapterDetails { name: "T".into(), path_word: "t".into(), chapters: vec![chapter("1"), chapter("2")] };
    let update = manga_update(&"T".to_string(), &"t".to_string(), &online, &vec!["1".to_string()]).unwrap();
    assert_eq!(update.name, "T");
    assert_eq!(update.path_word, "t");
    assert_eq!(names(&update.online_chapters), vec!["1", "2"]);
    assert_eq!(names(&update.new_chapters), vec!["2"]);
    assert!(manga_update(&"T".to_string(), &"t".to_string(), &online, &vec!["1".to_string(), "2".to_string()]).is_none());
    let (to_download, snapshot) = update_details(&update);
    assert_eq!(names(&to_download.chapters), vec!["2"]);
    assert_eq!(names(&snapshot.chapters), vec!["1", "2"]);
    assert_eq!(snapshot.path_word, "t");
}

#[test]
fn ranges_and_selection() {
    assert!(start_in_range(1, 3));
    assert!(!start_in_range(0, 3));
    assert!(!start_in_range(4, 3));
    assert_eq!(chapter_range(1, 3, 3), Some((0, 2)));
    assert_eq!(chapter_range(2, 2, 3), Some((1, 1)));
    assert_eq!(chapter_range(3, 2, 3), None);
    assert_eq!(chapter_range(1, 4, 3), None);
    let chapters = vec![chapter("a"), chapter("b"), chapter("c")];
    assert_eq!(names(&selected_chapters(&chapters, 1, 2)), vec!["b", "c"]);
    assert_eq!(names(&selected_chapters(&chapters, 0, 0)), vec!["a"]);
}

#[test]
fn chapter_list_is_numbered_from_one() {
    let details = ChapterDetails { name: "T".into(), path_word: "t".into(), chapters: vec![chapter("第1话"), chapter("第2话")] };
    assert_eq!(chapter_list_lines(&details), vec!["1:第1话", "2:第2话", "该漫画共2话"]);
}

#[test]
fn console_decisions() {
    assert_eq!(line_step(None), LineStep::Stop);
    assert_eq!(line_step(Some("  \n")), LineStep::AskAgain);
    assert_eq!(line_step(Some(" 妙 \n")), LineStep::Accept("妙".to_string()));
    assert_eq!(menu_action(Some(1)), MenuAction::Search);
    assert_eq!(menu_action(Some(2)), MenuAction::CheckUpdates);
    assert_eq!(menu_action(Some(3)), MenuAction::Quit);
    assert_eq!(menu_action(Some(4)), MenuAction::Invalid);
    assert_eq!(menu_action(None), MenuAction::Invalid);
    assert!(!exit_requested(1));
    assert!(exit_requested(2));
    assert_eq!(home_choice(1), HomeChoice::Search);
    assert_eq!(home_choice(2), HomeChoice::ViewDownloads);
    assert_eq!(home_choice(3), HomeChoice::CheckUpdates);
    assert_eq!(home_choice(4), HomeChoice::Exit);
    assert_eq!(home_choice(-1), HomeChoice::Invalid);
}

#[test]
fn retry_decisions() {
    assert_eq!(next_attempt(0, SEARCH_ATTEMPTS, false), AttemptDecision::Attempt);
    assert_eq!(next_attempt(4, SEARCH_ATTEMPTS, false), AttemptDecision::Attempt);
    assert_eq!(next_attempt(5, SEARCH_ATTEMPTS, false), AttemptDecision::GiveUp);
    assert_eq!(next_attempt(2, SEARCH_ATTEMPTS, true), AttemptDecision::Cancelled);
    let mut sent = 0;
    while next_attempt(sent, SEARCH_ATTEMPTS, false) == AttemptDecision::Attempt {
        sent += 1;
    }
    assert_eq!(sent, 5);
}

#[test]
fn page_failure_reported_once() {
    let (had, action) = page_step(false, PageEvent::BadStatus);
    assert!(had);
    assert_eq!(action, PageAction::RetryLater { announce_failure: true });
    let (had, action) = page_step(had, PageEvent::RequestFailed);
    assert_eq!(action, PageAction::RetryLater { announce_failure: false });
    assert_eq!(page_step(had, PageEvent::Finished).1, PageAction::Done { announce_recovery: true });
    assert_eq!(page_step(false, PageEvent::Finished).1, PageAction::Done { announce_recovery: false });
    assert_eq!(page_step(false, PageEvent::Interrupted).1, PageAction::DiscardAndStop);
    assert_eq!(page_step(false, PageEvent::Cancelled).1, PageAction::Stop);
    assert_eq!(page_step(true, PageEvent::Cancelled).1, PageAction::DiscardAndStop);
}

#[test]
fn listed_numbers_read_back() {
    for n in [0usize, 1, 9, 10, 99, 1203, usize::MAX] {
        assert_eq!(parse_usize(&decimal_string(n)), Some(n));
    }
}

#[test]
fn accepted_range_selects_the_numbered_chapters() {
    let chapters = vec![chapter("1"), chapter("2"), chapter("3"), chapter("4")];
    let (b, e) = chapter_range(2, 3, chapters.len()).unwrap();
    assert_eq!(names(&selected_chapters(&chapters, b, e)), vec!["2", "3"]);
    let (b, e) = chapter_range(4, 4, chapters.len()).unwrap();
    assert_eq!(names(&selected_chapters(&chapters, b, e)), vec!["4"]);
}

#[test]
fn update_scan_decisions() {
    let recorded = Some("t".to_string());
    assert_eq!(scan_start(true, &recorded), ScanStep::Abandon);
    assert_eq!(scan_start(false, &recorded), ScanStep::Fetch("t".to_string()));
    assert_eq!(scan_start(false, &None), ScanStep::LookUp);
    assert_eq!(scan_lookup(None), ScanStep::Skip);
    assert_eq!(scan_lookup(Some("u".to_string())), ScanStep::Fetch("u".to_string()));

    let online = ChapterDetails { name: "T".into(), path_word: "t".into(), chapters: vec![chapter("1"), chapter("2")] };
    let mut scan = UpdateScan::new();
    assert_eq!(scan.record(&"T".to_string(), &"t".to_string(), Some(&online), &vec!["1".to_string()]), ScanRecord::NewChapters);
    assert_eq!(
        scan.record(&"U".to_string(), &"u".to_string(), Some(&online), &vec!["1".to_string(), "2".to_string()]),
        ScanRecord::NothingNew
    );
    assert_eq!(scan.updates.len(), 1);
    assert_eq!(names(&scan.updates[0].new_chapters), vec!["2"]);
    assert_eq!(scan.record(&"V".to_string(), &"v".to_string(), None, &vec![]), ScanRecord::Abandon);
    assert_eq!(scan.updates.len(), 1);
    let kept = UpdateScan { updates: scan.updates.clone() };
    assert_eq!(kept.finish(false).len(), 1);
    assert!(scan.finish(true).is_empty());
}
