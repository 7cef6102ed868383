use copy_manga_downloader::catalogue::{
    chapter_api_results, chapter_with_pages, extract_chapter_contents, find_path_word, no_chapters_listed,
    outline_details, page_urls, path_word_from_metadata, ReplyError,
};
use copy_manga_downloader::json::JsonValue;
use copy_manga_downloader::types::{Author, ManGa_item};

fn s(text: &str) -> JsonValue {
    JsonValue::Str(text.to_string())
}

fn obj(members: Vec<(&str, JsonValue)>) -> JsonValue {
    JsonValue::Object(members.into_iter().map(|(k, v)| (k.to_string(), v)).collect())
}

fn catalogue(groups: Vec<(&str, JsonValue)>) -> JsonValue {
    obj(vec![("groups", obj(groups))])
}

#[test]
fn extracts_chapter_name_and_uuid() {
    let details = catalogue(vec![(
        "default",
        obj(vec![(
            "chapters",
            JsonValue::Array(vec![
                obj(vec![("id", s("uuid-01")), ("name", s("第01话"))]),
                obj(vec![("id", s("uuid-02")), ("name", s("第02话"))]),
            ]),
        )]),
    )]);

    let chapters = extract_chapter_contents(&details);

    assert_eq!(chapters.len(), 2);
    assert_eq!(chapters[0].chapter_name, "第01话");
    assert_eq!(chapters[0].chapter_uuid, "uuid-01");
    assert_eq!(chapters[1].chapter_uuid, "uuid-02");
}

#[test]
fn extraction_walks_groups_in_order_and_skips_incomplete_entries() {
    let details = catalogue(vec![
        (
            "default",
            obj(vec![(
                "chapters",
                JsonValue::Array(vec![
                    obj(vec![("id", s("a")), ("name", s("one"))]),
                    obj(vec![("name", s("no id"))]),
                    obj(vec![("id", JsonValue::Number(Some(3))), ("name", s("numeric id"))]),
                ]),
            )]),
        ),
        ("tankobon", obj(vec![("chapters", s("not a list"))])),
        (
            "other",
            obj(vec![("chapters", JsonValue::Array(vec![obj(vec![("id", s("b")), ("name", s("two"))])]))]),
        ),
    ]);
    let chapters = extract_chapter_contents(&details);
    assert_eq!(chapters.len(), 2);
    assert_eq!(chapters[0].chapter_name, "one");
    assert_eq!(chapters[1].chapter_name, "two");
    assert_eq!(chapters[1].chapter_uuid, "b");
    assert_eq!(chapters[0].len, 0);
    assert!(chapters[0].pages_url.is_empty());
    assert!(!no_chapters_listed(&details));
}

#[test]
fn extraction_without_groups_is_empty() {
    assert!(extract_chapter_contents(&JsonValue::Null).is_empty());
    assert!(extract_chapter_contents(&obj(vec![("groups", JsonValue::Array(vec![]))])).is_empty());
    assert!(no_chapters_listed(&JsonValue::Null));
}

#[test]
fn empty_catalogue_lists_no_chapters() {
    let details = catalogue(vec![
        ("default", obj(vec![("chapters", JsonValue::Array(vec![]))])),
        ("other", obj(vec![])),
    ]);
    assert!(no_chapters_listed(&details));
    assert!(extract_chapter_contents(&details).is_empty());
}

#[test]
fn api_results_requires_code_200() {
    let ok = obj(vec![("code", JsonValue::Number(Some(200))), ("results", s("cipher"))]);
    assert_eq!(chapter_api_results(&ok), Ok("cipher".to_string()));
    let refused = obj(vec![("code", JsonValue::Number(Some(210))), ("results", s("cipher"))]);
    assert_eq!(chapter_api_results(&refused), Err(ReplyError::StatusNotOk));
    let text_code = obj(vec![("code", s("200")), ("results", s("cipher"))]);
    assert_eq!(chapter_api_results(&text_code), Err(ReplyError::StatusNotOk));
    let missing = obj(vec![("code", JsonValue::Number(Some(200)))]);
    assert_eq!(chapter_api_results(&missing), Err(ReplyError::MissingResults));
    let not_text = obj(vec![("code", JsonValue::Number(Some(200))), ("results", JsonValue::Bool(true))]);
    assert_eq!(chapter_api_results(&not_text), Err(ReplyError::MissingResults));
}

#[test]
fn page_urls_keeps_string_urls_in_order() {
    let payload = JsonValue::Array(vec![
        obj(vec![("url", s("https://img/1.webp"))]),
        obj(vec![("other", s("x"))]),
        obj(vec![("url", s("https://img/2.webp"))]),
    ]);
    assert_eq!(
        page_urls(&payload),
        Ok(vec!["https://img/1.webp".to_string(), "https://img/2.webp".to_string()])
    );
    assert_eq!(page_urls(&obj(vec![])), Err(ReplyError::NotAList));
}

#[test]
fn path_word_from_metadata_is_trimmed_and_non_blank() {
    assert_eq!(path_word_from_metadata(&obj(vec![("path_word", s("  miaobukeyan \n"))])), Some("miaobukeyan".to_string()));
    assert_eq!(path_word_from_metadata(&obj(vec![("path_word", s("   "))])), None);
    assert_eq!(path_word_from_metadata(&obj(vec![("name", s("x"))])), None);
    assert_eq!(path_word_from_metadata(&JsonValue::Array(vec![])), None);
}

fn item(name: &str, path_word: &str) -> ManGa_item {
    ManGa_item {
        name: name.to_string(),
        path_word: path_word.to_string(),
        cover: String::new(),
        author: vec![Author { name: "a".to_string(), alias: None, path_word: "a".to_string() }],
    }
}

#[test]
fn find_path_word_takes_first_exact_name() {
    let list = vec![item("妙不可言2", "x"), item("妙不可言", "miaobukeyan"), item("妙不可言", "second")];
    assert_eq!(find_path_word(&list, "妙不可言"), Some("miaobukeyan".to_string()));
    assert_eq!(find_path_word(&list, "妙不可"), None);
}

#[test]
fn outline_and_chapter_builders() {
    let details = catalogue(vec![(
        "default",
        obj(vec![("chapters", JsonValue::Array(vec![obj(vec![("id", s("u1")), ("name", s("n1"))])]))]),
    )]);
    let outline = outline_details("Title", "title_word", &details);
    assert_eq!(outline.name, "Title");
    assert_eq!(outline.path_word, "title_word");
    assert_eq!(outline.chapters.len(), 1);
    let chapter = chapter_with_pages("n1", "u1", vec!["p1".to_string(), "p2".to_string()]);
    assert_eq!(chapter.len, 2);
    assert_eq!(chapter.pages_url.len(), 2);
}
