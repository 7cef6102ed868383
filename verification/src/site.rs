use vstd::prelude::*;
use crate::text::{chars_of, string_from_chars, trim_start, trim_end, unicode_white_space, concat_text, decimal, decimal_string, strip_leading, strip_leading_char, strip_trailing, strip_trailing_char, trim, trim_text};

verus! {

/// The site's address without trailing `/`.
pub open spec fn site_base(base: Seq<char>) -> Seq<char> {
    strip_trailing(base, '/')
}

/// The text `/comic/` that precedes a comic's identifier in its page address.
pub open spec fn comic_marker() -> Seq<char> {
    seq!['/', 'c', 'o', 'm', 'i', 'c', '/']
}

/// Whether `/comic/` starts at index `i` of `s`.
pub open spec fn marker_at(s: Seq<char>, i: int) -> bool {
    0 <= i && i + 7 <= s.len() && s.subrange(i, i + 7) == comic_marker()
}

/// Whether `s` holds `/comic/` somewhere.
pub open spec fn has_marker(s: Seq<char>) -> bool {
    exists|i: int| marker_at(s, i)
}

/// Where the last `/comic/` in `s` starts.
pub open spec fn last_marker(s: Seq<char>) -> int {
    choose|i: int| marker_at(s, i) && forall|j: int| i < j ==> !marker_at(s, j)
}

/// The identifier part of a comic given by identifier or by page address: what follows
/// the last `/comic/` where there is one, the whole text otherwise.
pub open spec fn identifier_part(s: Seq<char>) -> Seq<char> {
    if has_marker(s) {
        s.skip(last_marker(s) + 7)
    } else {
        s
    }
}

/// A comic's identifier, given either as the identifier itself or as the comic's full
/// page address: trimmed, cut after the last `/comic/`, and without leading `/`.
pub open spec fn clean_path_word(path_word: Seq<char>) -> Seq<char> {
    strip_leading(identifier_part(trim(path_word)), '/')
}

fn marker_at_exec(v: &Vec<char>, i: usize) -> (res: bool)
    requires
        i + 7 <= v.len(),
    ensures
        res == marker_at(v@, i as int),
{
    let found = v[i] == '/' && v[i + 1] == 'c' && v[i + 2] == 'o' && v[i + 3] == 'm' && v[i + 4] == 'i'
        && v[i + 5] == 'c' && v[i + 6] == '/';
    let ghost sub = v@.subrange(i as int, i + 7);
    if found {
        assert(sub =~= comic_marker());
    } else {
        proof {
            if sub == comic_marker() {
                assert(sub[0] == v@[i as int]);
                assert(sub[1] == v@[i + 1]);
                assert(sub[2] == v@[i + 2]);
                assert(sub[3] == v@[i + 3]);
                assert(sub[4] == v@[i + 4]);
                assert(sub[5] == v@[i + 5]);
                assert(sub[6] == v@[i + 6]);
            }
        }
    }
    found
}

proof fn lemma_last_marker_is(s: Seq<char>, i: int)
    requires
        marker_at(s, i),
        forall|j: int| i < j ==> !marker_at(s, j),
    ensures
        has_marker(s),
        last_marker(s) == i,
{
    let k = last_marker(s);
    assert(marker_at(s, k) && forall|j: int| k < j ==> !marker_at(s, j));
    if k < i {
        assert(!marker_at(s, i));
    }
    if i < k {
        assert(!marker_at(s, k));
    }
}

/// Where the identifier part of `v` starts.
fn identifier_start(v: &Vec<char>) -> (res: usize)
    ensures
        res <= v.len(),
        v@.skip(res as int) == identifier_part(v@),
{
    if v.len() < 7 {
        assert(!has_marker(v@));
        assert(v@.skip(0) =~= v@);
        return 0;
    }
    let mut i: usize = v.len() - 7;
    loop
        invariant
            i + 7 <= v.len(),
            forall|j: int| i < j ==> !marker_at(v@, j),
        decreases i,
    {
        if marker_at_exec(v, i) {
            proof {
                lemma_last_marker_is(v@, i as int);
            }
            return i + 7;
        }
        if i == 0 {
            assert forall|j: int| !marker_at(v@, j) by {
                if j < 0 {
                }
            }
            assert(!has_marker(v@));
            assert(v@.skip(0) =~= v@);
            return 0;
        }
        i = i - 1;
    }
}

/// Normalises a comic identifier, given as the identifier or as the comic's page
/// address: trims it, keeps what follows the last `/comic/`, drops leading `/`.
pub fn normalize_path_word(path_word: &str) -> (res: String)
    ensures
        res@ == clean_path_word(path_word@),
{
    let t = trim_text(path_word);
    let v = chars_of(t.as_str());
    let start = identifier_start(&v);
    let mut part: Vec<char> = Vec::new();
    let mut k: usize = start;
    while k < v.len()
        invariant
            start <= k <= v.len(),
            part@ == v@.subrange(start as int, k as int),
        decreases v.len() - k,
    {
        part.push(v[k]);
        k = k + 1;
        assert(part@ =~= v@.subrange(start as int, k as int));
    }
    assert(part@ =~= v@.skip(start as int));
    let ident = string_from_chars(&part);
    strip_leading_char(ident.as_str(), '/')
}

proof fn lemma_trim_keeps(s: Seq<char>)
    requires
        s.len() > 0,
        !unicode_white_space(s[0]),
        !unicode_white_space(s.last()),
    ensures
        trim(s) == s,
{
    assert(trim_start(s) == s);
    assert(trim_end(s) == s);
}

proof fn lemma_no_marker_without_slash(w: Seq<char>)
    requires
        !w.contains('/'),
    ensures
        !has_marker(w),
{
    assert forall|j: int| !marker_at(w, j) by {
        if marker_at(w, j) {
            assert(w.subrange(j, j + 7)[0] == '/');
            assert(w[j] == '/');
        }
    }
}

proof fn lemma_address_identifier_part(prefix: Seq<char>, w: Seq<char>)
    requires
        !w.contains('/'),
    ensures
        identifier_part(prefix + comic_marker() + w) == w,
{
    let s = prefix + comic_marker() + w;
    let p = prefix.len() as int;
    assert(s.subrange(p, p + 7) =~= comic_marker());
    assert forall|j: int| p < j implies !marker_at(s, j) by {
        if marker_at(s, j) {
            assert(s.subrange(j, j + 7)[6] == '/');
            assert(s[j + 6] == w[j + 6 - p - 7]);
        }
    }
    lemma_last_marker_is(s, p);
    assert(s.skip(p + 7) =~= w);
}

/// A comic given by its full page address `<prefix>/comic/<w>` is the comic `w`: the
/// identifier kept is `w`, and the page and catalogue addresses are those of `w`.
pub proof fn lemma_page_address_identifier(base: Seq<char>, prefix: Seq<char>, w: Seq<char>)
    requires
        w.len() > 0,
        !w.contains('/'),
        !unicode_white_space(w[0]),
        !unicode_white_space(w.last()),
        prefix.len() > 0 ==> !unicode_white_space(prefix[0]),
    ensures
        clean_path_word(prefix + comic_marker() + w) == w,
        clean_path_word(w) == w,
        comic_page(base, prefix + comic_marker() + w) == comic_page(base, w),
        chapter_api(base, prefix + comic_marker() + w) == chapter_api(base, w),
{
    let s = prefix + comic_marker() + w;
    assert(!unicode_white_space(s[0])) by {
        if prefix.len() == 0 {
            assert(s[0] == '/');
        } else {
            assert(s[0] == prefix[0]);
        }
    }
    assert(s.last() == w.last());
    lemma_trim_keeps(s);
    lemma_address_identifier_part(prefix, w);
    lemma_trim_keeps(w);
    lemma_no_marker_without_slash(w);
    assert(strip_leading(w, '/') == w) by {
        if w[0] == '/' {
            assert(w.contains('/'));
        }
    }
}

/// The site's address without trailing `/`.
pub fn normalize_base(base: &str) -> (res: String)
    ensures
        res@ == site_base(base@),
{
    strip_trailing_char(base, '/')
}

/// The address of a comic's page: `<base>/comic/<path_word>`.
pub open spec fn comic_page(base: Seq<char>, path_word: Seq<char>) -> Seq<char> {
    site_base(base) + "/comic/"@ + clean_path_word(path_word)
}

/// The address of a comic's page, with the address and the identifier normalised.
pub fn comic_page_url(base: &str, path_word: &str) -> (res: String)
    ensures
        res@ == comic_page(base@, path_word@),
{
    let b = normalize_base(base);
    let p = normalize_path_word(path_word);
    let a = concat_text(b.as_str(), "/comic/");
    concat_text(a.as_str(), p.as_str())
}

/// The address of a comic's chapter catalogue: `<base>/comicdetail/<path_word>/chapters`.
pub open spec fn chapter_api(base: Seq<char>, path_word: Seq<char>) -> Seq<char> {
    site_base(base) + "/comicdetail/"@ + clean_path_word(path_word) + "/chapters"@
}

/// The address of a comic's chapter catalogue, with the address and the identifier normalised.
pub fn chapter_api_url(base: &str, path_word: &str) -> (res: String)
    ensures
        res@ == chapter_api(base@, path_word@),
{
    let b = normalize_base(base);
    let p = normalize_path_word(path_word);
    let a = concat_text(b.as_str(), "/comicdetail/");
    let c = concat_text(a.as_str(), p.as_str());
    concat_text(c.as_str(), "/chapters")
}

/// The address of a chapter's reading page: `<base>/comic/<path_word>/chapter/<uuid>`.
/// Here the identifier is the comic's identifier proper: trimmed and without leading
/// `/`, with no page address cut down.
pub open spec fn chapter_page(base: Seq<char>, path_word: Seq<char>, uuid: Seq<char>) -> Seq<char> {
    site_base(base) + "/comic/"@ + strip_leading(trim(path_word), '/') + "/chapter/"@ + trim(uuid)
}

/// The address of a chapter's reading page, with the address, the identifier (trimmed,
/// without leading `/`) and the chapter identifier normalised.
pub fn chapter_page_url(base: &str, path_word: &str, uuid: &str) -> (res: String)
    ensures
        res@ == chapter_page(base@, path_word@, uuid@),
{
    let b = normalize_base(base);
    let t = trim_text(path_word);
    let p = strip_leading_char(t.as_str(), '/');
    let u = trim_text(uuid);
    let a = concat_text(b.as_str(), "/comic/");
    let c = concat_text(a.as_str(), p.as_str());
    let d = concat_text(c.as_str(), "/chapter/");
    concat_text(d.as_str(), u.as_str())
}

/// The address of the search endpoint under `base`.
pub open spec fn search_api(base: Seq<char>) -> Seq<char> {
    base + "/api/kb/web/searchci/comics"@
}

/// The address of the search endpoint under `base` (taken as it is).
pub fn search_api_url(base: &str) -> (res: String)
    ensures
        res@ == search_api(base@),
{
    concat_text(base, "/api/kb/web/searchci/comics")
}

/// The query of a search for `keyword` returning at most `limit` comics, as
/// (name, value) pairs in order.
pub open spec fn search_query(keyword: Seq<char>, limit: nat) -> Seq<(Seq<char>, Seq<char>)> {
    seq![
        ("offset"@, "0"@),
        ("platform"@, "2"@),
        ("limit"@, decimal(limit)),
        ("q"@, keyword),
        ("q_type"@, ""@),
    ]
}

/// The query of a search for `keyword` returning at most `limit` comics.
pub fn search_params(keyword: &str, limit: usize) -> (res: Vec<(String, String)>)
    ensures
        res@.len() == 5,
        forall|i: int| 0 <= i < 5 ==> (#[trigger] res@[i]).0@ == search_query(keyword@, limit as nat)[i].0
            && res@[i].1@ == search_query(keyword@, limit as nat)[i].1,
{
    let mut v: Vec<(String, String)> = Vec::new();
    v.push((String::from_str("offset"), String::from_str("0")));
    v.push((String::from_str("platform"), String::from_str("2")));
    v.push((String::from_str("limit"), decimal_string(limit)));
    v.push((String::from_str("q"), String::from_str(keyword)));
    v.push((String::from_str("q_type"), String::from_str("")));
    v
}

} // verus!
