use vstd::prelude::*;
use crate::text::{concat_text, decimal, decimal_string};
use crate::types::{ChapterContents, ChapterDetails, MangaUpdate, chapters_view, duplicate_chapters};

verus! {

/// Whether a first chapter number (counted from 1) names one of `count` chapters.
pub fn start_in_range(begin: usize, count: usize) -> (res: bool)
    ensures
        res == (1 <= begin && begin <= count),
{
    1 <= begin && begin <= count
}

/// Checks a range of chapter numbers entered by the user (counted from 1, both ends
/// included) against `count` chapters; gives the range counted from 0 where
/// `begin <= end <= count`.
pub fn chapter_range(begin: usize, end: usize, count: usize) -> (res: Option<(usize, usize)>)
    requires
        begin >= 1,
    ensures
        match res {
            Some((b, e)) => begin <= end <= count && b == begin - 1 && e == end - 1,
            None => !(begin <= end && end <= count),
        },
{
    if end < begin || end > count {
        None
    } else {
        Some((begin - 1, end - 1))
    }
}

/// A range the user's input is accepted for can always be downloaded: it selects at
/// least one chapter and lies within the list.
pub proof fn lemma_accepted_range_downloadable(begin: usize, end: usize, count: usize, b: usize, e: usize)
    requires
        begin >= 1,
        begin <= end <= count,
        b == begin - 1,
        e == end - 1,
    ensures
        b <= e < count,
        e - b + 1 == end - begin + 1,
{
}

/// The chapters from `begin` to `end`, both included (counted from 0).
pub fn selected_chapters(chapters: &Vec<ChapterContents>, begin: usize, end: usize) -> (res: Vec<ChapterContents>)
    requires
        end < chapters.len(),
        begin <= end + 1,
    ensures
        chapters_view(res@) == chapters_view(chapters@.subrange(begin as int, end + 1)),
{
    let mut res: Vec<ChapterContents> = Vec::new();
    let mut i: usize = begin;
    while i <= end
        invariant
            begin <= i <= end + 1,
            end < chapters.len(),
            res@.len() == i - begin,
            forall|k: int| 0 <= k < i - begin ==> (#[trigger] res@[k])@ == chapters@[begin + k]@,
        decreases end + 1 - i,
    {
        res.push(chapters[i].duplicate());
        i = i + 1;
    }
    assert(chapters_view(res@) =~= chapters_view(chapters@.subrange(begin as int, end + 1)));
    res
}

/// What an update downloads (the new chapters) and what it records (the whole online
/// catalogue), both under the comic's name and identifier.
pub fn update_details(update: &MangaUpdate) -> (res: (ChapterDetails, ChapterDetails))
    ensures
        res.0.name@ == update.name@,
        res.0.path_word@ == update.path_word@,
        chapters_view(res.0.chapters@) == chapters_view(update.new_chapters@),
        res.1.name@ == update.name@,
        res.1.path_word@ == update.path_word@,
        chapters_view(res.1.chapters@) == chapters_view(update.online_chapters@),
{
    let to_download = ChapterDetails {
        name: update.name.clone(),
        path_word: update.path_word.clone(),
        chapters: duplicate_chapters(&update.new_chapters),
    };
    let snapshot = ChapterDetails {
        name: update.name.clone(),
        path_word: update.path_word.clone(),
        chapters: duplicate_chapters(&update.online_chapters),
    };
    (to_download, snapshot)
}


/// The line a chapter is listed with: `<number>:<name>`, numbered from 1.
pub open spec fn listing_line(index: nat, name: Seq<char>) -> Seq<char> {
    decimal(index + 1) + ":"@ + name
}

/// The lines a comic's chapter list is shown with: one `<number>:<name>` line per
/// chapter, numbered from 1, then `该漫画共<count>话`.
pub fn chapter_list_lines(details: &ChapterDetails) -> (res: Vec<String>)
    requires
        details.chapters@.len() < usize::MAX,
    ensures
        res@.len() == details.chapters@.len() + 1,
        forall|i: int| 0 <= i < details.chapters@.len() ==> (#[trigger] res@[i])@ == listing_line(
            i as nat,
            details.chapters@[i].chapter_name@,
        ),
        res@[details.chapters@.len() as int]@ == "该漫画共"@ + decimal(details.chapters@.len() as nat) + "话"@,
{
    let mut lines: Vec<String> = Vec::new();
    let n = details.chapters.len();
    let mut i: usize = 0;
    while i < n
        invariant
            i <= n == details.chapters@.len(),
            n < usize::MAX,
            lines@.len() == i,
            forall|k: int| 0 <= k < i ==> (#[trigger] lines@[k])@ == listing_line(
                k as nat,
                details.chapters@[k].chapter_name@,
            ),
        decreases n - i,
    {
        let number = decimal_string(i + 1);
        let a = concat_text(number.as_str(), ":");
        let line = concat_text(a.as_str(), details.chapters[i].chapter_name.as_str());
        lines.push(line);
        i = i + 1;
    }
    let count = decimal_string(n);
    let a = concat_text("该漫画共", count.as_str());
    lines.push(concat_text(a.as_str(), "话"));
    lines
}

} // verus!
