use copy_manga_downloader::storage::{
    chapter_folder_path, details_location, metadata_file_name, page_file_path, sanitize_file_name,
};
use copy_manga_downloader::site::{normalize_path_word, chapter_api_url, chapter_page_url, comic_page_url, search_api_url, search_params};
use copy_manga_downloader::text::{concat_text, decimal_string, strip_leading_char, strip_trailing_char, trim_text};
use copy_manga_downloader::types::ErrorLog;

#[test]
fn trim_and_strip() {
    assert_eq!(trim_text("  a b \t\n"), "a b");
    assert_eq!(trim_text("\u{3000}全角\u{3000}"), "全角");
    assert_eq!(trim_text("   "), "");
    assert_eq!(strip_leading_char("//a/b", '/'), "a/b");
    assert_eq!(strip_trailing_char("https://x//", '/'), "https://x");
    assert_eq!(concat_text("ab", "cd"), "abcd");
    assert_eq!(decimal_string(0), "0");
    assert_eq!(decimal_string(1203), "1203");
}

#[test]
fn sanitize_file_name_cases() {
    assert_eq!(sanitize_file_name("  /妙不可言: 第1话?  "), "妙不可言__第1话_");
    assert_eq!(sanitize_file_name("a-b_c.d"), "a-b_c_d");
    assert_eq!(sanitize_file_name(""), "chapter_details");
    assert_eq!(sanitize_file_name("  ///  "), "chapter_details");
    assert_eq!(sanitize_file_name("/x/y"), "x_y");
    assert_eq!(sanitize_file_name("   "), "chapter_details");
    for name in ["  /妙不可言: 第1话?  ", "", "a b", "-_-"] {
        let once = sanitize_file_name(name);
        assert_eq!(sanitize_file_name(&once), once);
    }
}

#[test]
fn save_location_follows_name() {
    let loc = details_location("妙不可言");
    assert_eq!(loc.dir_name, "妙不可言");
    assert_eq!(loc.file_name, "妙不可言.json");
    assert_eq!(metadata_file_name("妙不可言"), loc.file_name);
    let blank = details_location("   ");
    assert_eq!(blank.dir_name, "chapter_details");
    assert_eq!(blank.file_name, "chapter_details.json");
    let odd = details_location("a b");
    assert_eq!(odd.dir_name, "a b");
    assert_eq!(odd.file_name, "a_b.json");
}

#[test]
fn saved_catalogue_is_found_again() {
    for name in ["妙不可言", "a b", "x/y", "", "  "] {
        let loc = details_location(name);
        assert_eq!(metadata_file_name(&loc.dir_name), loc.file_name);
    }
}

#[test]
fn download_paths() {
    assert_eq!(chapter_folder_path("T", "第1话"), "./download/T/第1话");
    assert_eq!(page_file_path("T", "第1话", 0), "./download/T/第1话/1.webp");
    assert_eq!(page_file_path("T", "c", 41), "./download/T/c/42.webp");
}

#[test]
fn site_addresses() {
    assert_eq!(comic_page_url("https://x.club//", " /abc "), "https://x.club/comic/abc");
    assert_eq!(comic_page_url("https://x.club", "https://x.club/comic/abc"), "https://x.club/comic/abc");
    assert_eq!(chapter_api_url("https://x.club/", " https://x.club/comic/abc\n"), "https://x.club/comicdetail/abc/chapters");
    assert_eq!(normalize_path_word("https://other.site/comic/abc"), "abc");
    assert_eq!(normalize_path_word("/abc"), "abc");
    assert_eq!(normalize_path_word("comics"), "comics");
    assert_eq!(chapter_api_url("https://x.club", "abc"), "https://x.club/comicdetail/abc/chapters");
    assert_eq!(chapter_page_url("https://x.club/", "abc", " u-1 "), "https://x.club/comic/abc/chapter/u-1");
    assert_eq!(chapter_page_url("https://x.club", " //a/comic/b ", "u"), "https://x.club/comic/a/comic/b/chapter/u");
    assert_eq!(search_api_url("https://x.club"), "https://x.club/api/kb/web/searchci/comics");
    let params = search_params("妙", 12);
    let expected: Vec<(String, String)> = vec![
        ("offset".into(), "0".into()),
        ("platform".into(), "2".into()),
        ("limit".into(), "12".into()),
        ("q".into(), "妙".into()),
        ("q_type".into(), "".into()),
    ];
    assert_eq!(params, expected);
    assert_eq!(search_params("k", 20)[2].1, "20");
}

#[test]
fn error_log_text() {
    let log = ErrorLog { chapter_title: "第1话".to_string(), error_message: "超时".to_string() };
    assert_eq!(log.display_text(), "章节: 第1话, \n 错误信息: 超时\n");
}
