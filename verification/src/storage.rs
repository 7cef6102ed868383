use vstd::prelude::*;
use crate::text::{trim_start, trim_end, unicode_white_space, concat_text, decimal, decimal_string, chars_of, is_alphanumeric, strip_leading, strip_leading_char, string_from_chars, trim, trim_text, unicode_alphanumeric};

verus! {

/// A character kept in a file name as it is, or replaced by `_`.
pub open spec fn sanitized_char(c: char) -> char {
    if unicode_alphanumeric(c) || c == '-' || c == '_' {
        c
    } else {
        '_'
    }
}

/// The name trimmed, without leading `/`, and with every character that is not
/// alphanumeric, `-` or `_` replaced by `_`.
pub open spec fn file_stem(value: Seq<char>) -> Seq<char> {
    strip_leading(trim(value), '/').map_values(|c: char| sanitized_char(c))
}

/// The file-name stem of `value`; `chapter_details` where nothing is left of it.
pub open spec fn spec_sanitize_file_name(value: Seq<char>) -> Seq<char> {
    if file_stem(value).len() == 0 {
        "chapter_details"@
    } else {
        file_stem(value)
    }
}

/// A character that may stand in a sanitized file name.
pub open spec fn file_name_char(c: char) -> bool {
    unicode_alphanumeric(c) || c == '-' || c == '_'
}

/// Turns a title into a file-name stem: trims it, drops leading `/`, replaces every
/// character other than alphanumerics, `-` and `_` by `_`; an empty stem becomes
/// `chapter_details`.
pub fn sanitize_file_name(value: &str) -> (res: String)
    ensures
        res@ == spec_sanitize_file_name(value@),
        res@.len() > 0,
        file_stem(value@).len() > 0 ==> forall|i: int| 0 <= i < res@.len() ==> file_name_char(#[trigger] res@[i]),
{
    let trimmed = trim_text(value);
    let stripped = strip_leading_char(trimmed.as_str(), '/');
    let chars = chars_of(stripped.as_str());
    let ghost src = strip_leading(trim(value@), '/');
    let mut out: Vec<char> = Vec::new();
    let mut i: usize = 0;
    while i < chars.len()
        invariant
            chars@ == src,
            i <= chars.len(),
            out@ == src.take(i as int).map_values(|c: char| sanitized_char(c)),
        decreases chars.len() - i,
    {
        let c = chars[i];
        let keep = is_alphanumeric(c) || c == '-' || c == '_';
        if keep {
            out.push(c);
        } else {
            out.push('_');
        }
        i = i + 1;
        assert(out@ =~= src.take(i as int).map_values(|c: char| sanitized_char(c)));
    }
    assert(src.take(chars.len() as int) =~= src);
    if out.len() == 0 {
        proof {
            reveal_strlit("chapter_details");
        }
        String::from_str("chapter_details")
    } else {
        string_from_chars(&out)
    }
}


/// The folder, under `download`, where a comic's catalogue is saved: the comic's name,
/// or its file-name stem where the name is blank.
pub open spec fn details_dir(name: Seq<char>) -> Seq<char> {
    if trim(name).len() == 0 {
        spec_sanitize_file_name(name)
    } else {
        name
    }
}

/// The file a comic's catalogue is saved in, and read back from: `<stem>.json`.
pub open spec fn metadata_file(name: Seq<char>) -> Seq<char> {
    spec_sanitize_file_name(name) + ".json"@
}

/// Where a comic's catalogue is saved, relative to the `download` folder.
pub struct SaveLocation {
    pub dir_name: String,
    pub file_name: String,
}

/// The name of the file that holds a comic's saved catalogue.
pub fn metadata_file_name(name: &str) -> (res: String)
    ensures
        res@ == metadata_file(name@),
{
    let stem = sanitize_file_name(name);
    concat_text(stem.as_str(), ".json")
}

/// Where `save_chapter_details` puts a comic's catalogue: the folder named after the
/// comic (the stem where the name is blank) and the file `<stem>.json`.
pub fn details_location(name: &str) -> (res: SaveLocation)
    ensures
        res.dir_name@ == details_dir(name@),
        res.file_name@ == metadata_file(name@),
{
    let stem = sanitize_file_name(name);
    let blank = trim_text(name);
    let dir_name = if blank.as_str().is_empty() {
        String::from_str(stem.as_str())
    } else {
        String::from_str(name)
    };
    let file_name = concat_text(stem.as_str(), ".json");
    SaveLocation { dir_name, file_name }
}

/// The folder a chapter's images go to: `./download/<title>/<chapter>`.
pub open spec fn chapter_folder(title: Seq<char>, chapter: Seq<char>) -> Seq<char> {
    "./download/"@ + title + "/"@ + chapter
}

/// The file of the page at `index` (counted from 0) of a chapter:
/// `./download/<title>/<chapter>/<index + 1>.webp`.
pub open spec fn page_file(title: Seq<char>, chapter: Seq<char>, index: nat) -> Seq<char> {
    chapter_folder(title, chapter) + "/"@ + decimal(index + 1) + ".webp"@
}

/// The folder a chapter's images go to.
pub fn chapter_folder_path(title: &str, chapter: &str) -> (res: String)
    ensures
        res@ == chapter_folder(title@, chapter@),
{
    let a = concat_text("./download/", title);
    let b = concat_text(a.as_str(), "/");
    concat_text(b.as_str(), chapter)
}

/// The file the page at `index` of a chapter is written to.
pub fn page_file_path(title: &str, chapter: &str, index: usize) -> (res: String)
    requires
        index < usize::MAX,
    ensures
        res@ == page_file(title@, chapter@, index as nat),
{
    let folder = chapter_folder_path(title, chapter);
    let a = concat_text(folder.as_str(), "/");
    let number = decimal_string(index + 1);
    let b = concat_text(a.as_str(), number.as_str());
    concat_text(b.as_str(), ".webp")
}

/// A character that sanitizing leaves alone and that trimming and stripping `/`
/// never remove.
pub open spec fn settled_char(c: char) -> bool {
    file_name_char(c) && !unicode_white_space(c) && c != '/'
}

proof fn lemma_sanitized_char_settled(c: char)
    ensures
        settled_char(sanitized_char(c)),
{
}

proof fn lemma_settled_text_fixed(r: Seq<char>)
    requires
        r.len() > 0,
        forall|i: int| 0 <= i < r.len() ==> settled_char(#[trigger] r[i]),
    ensures
        spec_sanitize_file_name(r) == r,
{
    assert(!unicode_white_space(r[0]));
    assert(trim_start(r) == r);
    assert(!unicode_white_space(r.last()));
    assert(trim_end(r) == r);
    assert(strip_leading(r, '/') == r);
    assert(r.map_values(|c: char| sanitized_char(c)) =~= r);
}

/// Sanitizing a file name a second time changes nothing.
pub proof fn lemma_sanitize_idempotent(value: Seq<char>)
    ensures
        spec_sanitize_file_name(spec_sanitize_file_name(value)) == spec_sanitize_file_name(value),
{
    let r = spec_sanitize_file_name(value);
    if file_stem(value).len() == 0 {
        reveal_strlit("chapter_details");
    } else {
        let src = strip_leading(trim(value), '/');
        assert forall|i: int| 0 <= i < r.len() implies settled_char(#[trigger] r[i]) by {
            lemma_sanitized_char_settled(src[i]);
        }
    }
    lemma_settled_text_fixed(r);
}

/// A blank name's catalogue is saved under `chapter_details`.
pub proof fn lemma_blank_name_location(name: Seq<char>)
    requires
        trim(name).len() == 0,
    ensures
        details_dir(name) == "chapter_details"@,
{
    assert(strip_leading(trim(name), '/').len() == 0);
}

/// A comic's catalogue is found again when its folder is scanned: the folder it is
/// saved in, read back as a comic name, gives the very file name it was saved
/// under. For a name that is not blank that folder is `download/<name>`, the one its
/// chapters are downloaded to.
pub proof fn lemma_saved_catalogue_is_found(name: Seq<char>, chapter: Seq<char>)
    ensures
        metadata_file(details_dir(name)) == metadata_file(name),
        trim(name).len() > 0 ==> chapter_folder(name, chapter) == "./download/"@ + details_dir(name) + "/"@ + chapter,
{
    if trim(name).len() == 0 {
        lemma_sanitize_idempotent(name);
    }
}

} // verus!
