use vstd::prelude::*;
use crate::text::concat_text;

verus! {

/// A chapter as the downloader first described it: its number, its page URL,
/// its title and the links of its images.
#[derive(Debug, Clone, Default, PartialEq, Eq)]
pub struct Chapter {
    pub number: usize,
    pub url: String,
    pub title: String,
    pub pages_url: Vec<String>,
    pub len: usize,
}

/// The reply of the site's search endpoint.
#[derive(Debug, Clone, PartialEq, Eq)]
pub struct Response {
    pub code: i32,
    pub message: String,
    pub results: SearchResult,
}

/// The list of comics a search found.
#[derive(Debug, Clone, PartialEq, Eq)]
pub struct SearchResult {
    pub list: Vec<ManGa_item>,
}

/// One comic in a search reply.
#[allow(non_camel_case_types)]
#[derive(Debug, Clone, PartialEq, Eq)]
pub struct ManGa_item {
    pub name: String,
    pub path_word: String,
    pub cover: String,
    pub author: Vec<Author>,
}

/// An author of a comic in a search reply.
#[derive(Debug, Clone, PartialEq, Eq)]
pub struct Author {
    pub name: String,
    pub alias: Option<String>,
    pub path_word: String,
}

/// A chapter whose download failed, with the reason.
#[derive(Debug, Clone, PartialEq, Eq)]
pub struct ErrorLog {
    pub chapter_title: String,
    pub error_message: String,
}

/// The text an error log is shown as.
pub open spec fn error_log_text(title: Seq<char>, message: Seq<char>) -> Seq<char> {
    "章节: "@ + title + ", \n 错误信息: "@ + message + "\n"@
}

impl ErrorLog {
    /// The log as it is shown: `章节: <title>, \n 错误信息: <message>\n`.
    pub fn display_text(&self) -> (res: String)
        ensures
            res@ == error_log_text(self.chapter_title@, self.error_message@),
    {
        let a = concat_text("章节: ", self.chapter_title.as_str());
        let b = concat_text(a.as_str(), ", \n 错误信息: ");
        let c = concat_text(b.as_str(), self.error_message.as_str());
        concat_text(c.as_str(), "\n")
    }
}

/// The settings file's contents.
#[derive(Debug, Clone, PartialEq, Eq)]
pub struct Config {
    pub base_website: String,
}

/// A comic's chapter catalogue: its name, its identifier on the site and its chapters.
#[derive(Debug, Clone, PartialEq, Eq)]
pub struct ChapterDetails {
    pub name: String,
    pub path_word: String,
    pub chapters: Vec<ChapterContents>,
}

/// One chapter: its name, its identifier, the number of its pages and their image links.
#[derive(Debug, Clone, PartialEq, Eq)]
pub struct ChapterContents {
    pub chapter_name: String,
    pub chapter_uuid: String,
    pub len: usize,
    pub pages_url: Vec<String>,
}

/// What a chapter holds, as plain values.
pub struct ChapterView {
    pub name: Seq<char>,
    pub uuid: Seq<char>,
    pub len: usize,
    pub pages: Seq<Seq<char>>,
}

/// The texts of a list of strings.
pub open spec fn texts(v: Seq<String>) -> Seq<Seq<char>> {
    v.map_values(|s: String| s@)
}

impl View for ChapterContents {
    type V = ChapterView;

    open spec fn view(&self) -> ChapterView {
        ChapterView {
            name: self.chapter_name@,
            uuid: self.chapter_uuid@,
            len: self.len,
            pages: texts(self.pages_url@),
        }
    }
}

/// What a list of chapters holds, chapter by chapter.
pub open spec fn chapters_view(v: Seq<ChapterContents>) -> Seq<ChapterView> {
    v.map_values(|c: ChapterContents| c@)
}

impl ChapterContents {
    /// A copy of the chapter, holding what it holds.
    pub fn duplicate(&self) -> (res: ChapterContents)
        ensures
            res@ == self@,
    {
        let pages = self.pages_url.clone();
        assert(pages@ =~= self.pages_url@);
        ChapterContents {
            chapter_name: self.chapter_name.clone(),
            chapter_uuid: self.chapter_uuid.clone(),
            len: self.len,
            pages_url: pages,
        }
    }
}

/// A copy of a list of chapters, holding what it holds, chapter by chapter.
pub fn duplicate_chapters(chapters: &Vec<ChapterContents>) -> (res: Vec<ChapterContents>)
    ensures
        chapters_view(res@) == chapters_view(chapters@),
{
    let mut res: Vec<ChapterContents> = Vec::new();
    let mut i: usize = 0;
    while i < chapters.len()
        invariant
            i <= chapters.len(),
            res@.len() == i,
            forall|k: int| 0 <= k < i ==> (#[trigger] res@[k])@ == chapters@[k]@,
        decreases chapters.len() - i,
    {
        res.push(chapters[i].duplicate());
        i = i + 1;
    }
    assert(chapters_view(res@) =~= chapters_view(chapters@));
    res
}

/// A comic found in the download folder: its folder name, the site identifier
/// recorded beside it (if any) and the names of its chapter folders.
#[derive(Debug, Clone, PartialEq, Eq)]
pub struct LocalManga {
    pub name: String,
    pub path_word: Option<String>,
    pub chapter_names: Vec<String>,
}

/// A comic with chapters on the site that are not downloaded yet.
#[derive(Debug, Clone, PartialEq, Eq)]
pub struct MangaUpdate {
    pub name: String,
    pub path_word: String,
    pub online_chapters: Vec<ChapterContents>,
    pub new_chapters: Vec<ChapterContents>,
}

/// Why a download session ended: it finished, or the user cancelled it.
#[derive(Debug, Clone, Copy, PartialEq, Eq)]
pub enum RunOutcome {
    Completed,
    Cancelled,
}

/// What waiting for a line of input gave: a line, or a cancellation.
#[derive(Debug, Clone, PartialEq, Eq)]
pub enum InputOutcome {
    Line(String),
    Cancelled,
}

} // verus!
