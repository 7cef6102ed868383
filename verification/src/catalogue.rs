use vstd::prelude::*;
use crate::json::{JsonValue, json_get, json_str, json_array, member_str, member_array, member_object, json_i64};
use crate::types::{ChapterContents, ChapterDetails, ChapterView, ManGa_item, chapters_view, texts};
use crate::text::{trim, trim_text};

verus! {

/// The name and identifier of one chapter entry, where both are strings.
pub open spec fn chapter_entry(c: JsonValue) -> Seq<(Seq<char>, Seq<char>)> {
    match (member_str(c, "name"@), member_str(c, "id"@)) {
        (Some(name), Some(id)) => seq![(name, id)],
        _ => seq![],
    }
}

/// The named chapters of a list of chapter entries, in order.
pub open spec fn listed_chapters(cs: Seq<JsonValue>) -> Seq<(Seq<char>, Seq<char>)>
    decreases cs.len(),
{
    if cs.len() == 0 {
        seq![]
    } else {
        listed_chapters(cs.drop_last()) + chapter_entry(cs.last())
    }
}

/// The named chapters of one group: those of its `chapters` array, if it has one.
pub open spec fn group_entries(g: JsonValue) -> Seq<(Seq<char>, Seq<char>)> {
    match member_array(g, "chapters"@) {
        Some(cs) => listed_chapters(cs),
        None => seq![],
    }
}

/// The named chapters of the groups, group after group.
pub open spec fn listed_groups(gs: Seq<(String, JsonValue)>) -> Seq<(Seq<char>, Seq<char>)>
    decreases gs.len(),
{
    if gs.len() == 0 {
        seq![]
    } else {
        listed_groups(gs.drop_last()) + group_entries(gs.last().1)
    }
}

/// The (name, identifier) pairs of the chapters a decrypted catalogue lists: for each
/// member of its `groups` object, each entry of that member's `chapters` array that
/// has a string `name` and a string `id`.
pub open spec fn catalogue_entries(payload: JsonValue) -> Seq<(Seq<char>, Seq<char>)> {
    match member_object(payload, "groups"@) {
        Some(gs) => listed_groups(gs),
        None => seq![],
    }
}

/// A listed chapter before its pages are known.
pub open spec fn entry_chapter(e: (Seq<char>, Seq<char>)) -> ChapterView {
    ChapterView { name: e.0, uuid: e.1, len: 0, pages: seq![] }
}

/// The number of entries in one group's `chapters` array (0 where it has none).
pub open spec fn group_size(g: JsonValue) -> nat {
    match member_array(g, "chapters"@) {
        Some(cs) => cs.len(),
        None => 0,
    }
}

/// The number of chapter entries over the groups.
pub open spec fn groups_size(gs: Seq<(String, JsonValue)>) -> nat
    decreases gs.len(),
{
    if gs.len() == 0 {
        0
    } else {
        groups_size(gs.drop_last()) + group_size(gs.last().1)
    }
}

/// The number of chapter entries a decrypted catalogue holds, over all groups.
pub open spec fn catalogue_size(payload: JsonValue) -> nat {
    match member_object(payload, "groups"@) {
        Some(gs) => groups_size(gs),
        None => 0,
    }
}

fn push_listed(cs: &Vec<JsonValue>, out: &mut Vec<ChapterContents>)
    ensures
        chapters_view(final(out)@) == chapters_view(old(out)@) + listed_chapters(cs@).map_values(
            |e: (Seq<char>, Seq<char>)| entry_chapter(e),
        ),
{
    let mut i: usize = 0;
    let ghost start = chapters_view(out@);
    while i < cs.len()
        invariant
            i <= cs.len(),
            chapters_view(out@) == start + listed_chapters(cs@.take(i as int)).map_values(
                |e: (Seq<char>, Seq<char>)| entry_chapter(e),
            ),
        decreases cs.len() - i,
    {
        let c = &cs[i];
        let ghost before = chapters_view(out@);
        assert(cs@.take(i + 1).drop_last() =~= cs@.take(i as int));
        assert(cs@.take(i + 1).last() == cs@[i as int]);
        let name = match c.get("name") {
            Some(v) => v.as_str(),
            None => None,
        };
        let id = match c.get("id") {
            Some(v) => v.as_str(),
            None => None,
        };
        match (name, id) {
            (Some(n), Some(u)) => {
                out.push(ChapterContents {
                    chapter_name: n.clone(),
                    chapter_uuid: u.clone(),
                    len: 0,
                    pages_url: Vec::new(),
                });
                let ghost added = out@[out@.len() - 1];
                assert(crate::types::texts(added.pages_url@) =~= Seq::<Seq<char>>::empty());
                assert(added@ == entry_chapter((n@, u@)));
                assert(chapters_view(out@) =~= before.push(entry_chapter((n@, u@))));
            },
            _ => {
                assert(chapters_view(out@) =~= before);
            },
        }
        i = i + 1;
        assert(chapters_view(out@) =~= start + listed_chapters(cs@.take(i as int)).map_values(
            |e: (Seq<char>, Seq<char>)| entry_chapter(e),
        ));
    }
    assert(cs@.take(cs.len() as int) =~= cs@);
}

/// The chapters listed in a decrypted catalogue, each with its name and identifier
/// and no pages yet (`len` 0).
pub fn extract_chapter_contents(details: &JsonValue) -> (res: Vec<ChapterContents>)
    ensures
        chapters_view(res@) == catalogue_entries(*details).map_values(
            |e: (Seq<char>, Seq<char>)| entry_chapter(e),
        ),
{
    let mut chapters: Vec<ChapterContents> = Vec::new();
    let groups = match details.get("groups") {
        Some(g) => match g.as_object() {
            Some(m) => m,
            None => {
                assert(chapters_view(chapters@) =~= Seq::<ChapterView>::empty());
                return chapters;
            },
        },
        None => {
            assert(chapters_view(chapters@) =~= Seq::<ChapterView>::empty());
            return chapters;
        },
    };
    let mut gi: usize = 0;
    assert(chapters_view(chapters@) =~= listed_groups(groups@.take(0)).map_values(
        |e: (Seq<char>, Seq<char>)| entry_chapter(e),
    ));
    while gi < groups.len()
        invariant
            gi <= groups.len(),
            member_object(*details, "groups"@) == Some(groups@),
            chapters_view(chapters@) == listed_groups(groups@.take(gi as int)).map_values(
                |e: (Seq<char>, Seq<char>)| entry_chapter(e),
            ),
        decreases groups.len() - gi,
    {
        let group = &groups[gi].1;
        assert(groups@.take(gi + 1).drop_last() =~= groups@.take(gi as int));
        assert(groups@.take(gi + 1).last() == groups@[gi as int]);
        let ghost before = chapters_view(chapters@);
        let list = match group.get("chapters") {
            Some(v) => v.as_array(),
            None => None,
        };
        match list {
            Some(cs) => {
                push_listed(cs, &mut chapters);
            },
            None => {},
        }
        gi = gi + 1;
        assert(chapters_view(chapters@) =~= listed_groups(groups@.take(gi as int)).map_values(
            |e: (Seq<char>, Seq<char>)| entry_chapter(e),
        ));
    }
    assert(groups@.take(groups.len() as int) =~= groups@);
    chapters
}


/// Whether the catalogue lists no chapter entry at all (the site answered, but with
/// an empty list).
pub fn no_chapters_listed(payload: &JsonValue) -> (res: bool)
    ensures
        res == (catalogue_size(*payload) == 0),
{
    let groups = match payload.get("groups") {
        Some(g) => match g.as_object() {
            Some(m) => m,
            None => {
                return true;
            },
        },
        None => {
            return true;
        },
    };
    let mut gi: usize = 0;
    while gi < groups.len()
        invariant
            gi <= groups.len(),
            member_object(*payload, "groups"@) == Some(groups@),
            groups_size(groups@.take(gi as int)) == 0,
        decreases groups.len() - gi,
    {
        let group = &groups[gi].1;
        assert(groups@.take(gi + 1).drop_last() =~= groups@.take(gi as int));
        assert(groups@.take(gi + 1).last() == groups@[gi as int]);
        let list = match group.get("chapters") {
            Some(v) => v.as_array(),
            None => None,
        };
        match list {
            Some(cs) => {
                if cs.len() > 0 {
                    proof {
                        lemma_groups_size_prefix(groups@, gi as int + 1);
                    }
                    return false;
                }
            },
            None => {},
        }
        gi = gi + 1;
    }
    assert(groups@.take(groups.len() as int) =~= groups@);
    true
}

/// The size over a prefix of the groups never exceeds the size over all of them.
proof fn lemma_groups_size_prefix(gs: Seq<(String, JsonValue)>, k: int)
    requires
        0 <= k <= gs.len(),
    ensures
        groups_size(gs.take(k)) <= groups_size(gs),
    decreases gs.len() - k,
{
    if k == gs.len() {
        assert(gs.take(k) =~= gs);
    } else {
        lemma_groups_size_prefix(gs, k + 1);
        assert(gs.take(k + 1).drop_last() =~= gs.take(k));
    }
}

proof fn lemma_listed_chapters_len(cs: Seq<JsonValue>)
    ensures
        listed_chapters(cs).len() <= cs.len(),
    decreases cs.len(),
{
    if cs.len() > 0 {
        lemma_listed_chapters_len(cs.drop_last());
    }
}

proof fn lemma_listed_groups_len(gs: Seq<(String, JsonValue)>)
    ensures
        listed_groups(gs).len() <= groups_size(gs),
    decreases gs.len(),
{
    if gs.len() > 0 {
        lemma_listed_groups_len(gs.drop_last());
        match member_array(gs.last().1, "chapters"@) {
            Some(cs) => lemma_listed_chapters_len(cs),
            None => {},
        }
    }
}

/// A catalogue never yields more chapters than it holds entries; in particular,
/// when it holds none (the case reported as an empty list), no chapter is extracted.
pub proof fn lemma_extracted_within_listed(payload: JsonValue)
    ensures
        catalogue_entries(payload).len() <= catalogue_size(payload),
        catalogue_size(payload) == 0 ==> catalogue_entries(payload).len() == 0,
{
    match member_object(payload, "groups"@) {
        Some(gs) => lemma_listed_groups_len(gs),
        None => {},
    }
}

/// Why a reply of the site was not usable.
#[derive(Debug, Clone, Copy, PartialEq, Eq)]
pub enum ReplyError {
    /// The catalogue reply's `code` is not the number 200.
    StatusNotOk,
    /// The catalogue reply has no string `results`.
    MissingResults,
    /// The decrypted page list is not an array.
    NotAList,
}

/// What the catalogue endpoint's reply yields: its encrypted `results` text when its
/// `code` is 200.
pub open spec fn api_results(body: JsonValue) -> Result<Seq<char>, ReplyError> {
    if (match json_get(body, "code"@) {
        Some(c) => json_i64(c),
        None => None,
    }) != Some(200i64) {
        Err(ReplyError::StatusNotOk)
    } else {
        match member_str(body, "results"@) {
            Some(r) => Ok(r),
            None => Err(ReplyError::MissingResults),
        }
    }
}

/// Checks the catalogue endpoint's reply (`code` must be 200) and takes out its
/// encrypted `results` text.
pub fn chapter_api_results(body: &JsonValue) -> (res: Result<String, ReplyError>)
    ensures
        match res {
            Ok(r) => api_results(*body) == Ok::<Seq<char>, ReplyError>(r@),
            Err(e) => api_results(*body) == Err::<Seq<char>, ReplyError>(e),
        },
{
    let code = match body.get("code") {
        Some(c) => c.as_i64(),
        None => None,
    };
    match code {
        Some(200) => {},
        _ => {
            return Err(ReplyError::StatusNotOk);
        },
    }
    match body.get("results") {
        Some(r) => match r.as_str() {
            Some(text) => Ok(text.clone()),
            None => Err(ReplyError::MissingResults),
        },
        None => Err(ReplyError::MissingResults),
    }
}

/// The string `url` members of the items, in order; items without one are skipped.
pub open spec fn listed_urls(items: Seq<JsonValue>) -> Seq<Seq<char>>
    decreases items.len(),
{
    if items.len() == 0 {
        seq![]
    } else {
        match member_str(items.last(), "url"@) {
            Some(u) => listed_urls(items.drop_last()).push(u),
            None => listed_urls(items.drop_last()),
        }
    }
}

/// The image links of a decrypted chapter: the payload must be an array, and each of
/// its items with a string `url` gives one link, in order.
pub fn page_urls(payload: &JsonValue) -> (res: Result<Vec<String>, ReplyError>)
    ensures
        match res {
            Ok(urls) => json_array(*payload) matches Some(items) && texts(urls@) == listed_urls(items),
            Err(e) => json_array(*payload) is None && e == ReplyError::NotAList,
        },
{
    let items = match payload.as_array() {
        Some(a) => a,
        None => {
            return Err(ReplyError::NotAList);
        },
    };
    let mut urls: Vec<String> = Vec::new();
    let mut i: usize = 0;
    while i < items.len()
        invariant
            i <= items.len(),
            json_array(*payload) == Some(items@),
            texts(urls@) == listed_urls(items@.take(i as int)),
        decreases items.len() - i,
    {
        assert(items@.take(i + 1).drop_last() =~= items@.take(i as int));
        assert(items@.take(i + 1).last() == items@[i as int]);
        let url = match items[i].get("url") {
            Some(v) => v.as_str(),
            None => None,
        };
        match url {
            Some(u) => {
                urls.push(u.clone());
            },
            None => {},
        }
        i = i + 1;
        assert(texts(urls@) =~= listed_urls(items@.take(i as int)));
    }
    assert(items@.take(items.len() as int) =~= items@);
    Ok(urls)
}

/// The site identifier recorded in a comic's saved catalogue: its `path_word`
/// string, trimmed, where that is not empty.
pub open spec fn recorded_path_word(v: JsonValue) -> Option<Seq<char>> {
    match member_str(v, "path_word"@) {
        Some(p) => if trim(p).len() > 0 {
            Some(trim(p))
        } else {
            None
        },
        None => None,
    }
}

/// A saved catalogue whose `path_word` member is the string `p` yields `p` trimmed,
/// where that is not blank, as its recorded identifier (the reading half of saving a
/// comic's catalogue and finding its identifier again).
pub proof fn lemma_recorded_path_word_read_back(v: JsonValue, p: String)
    requires
        json_get(v, "path_word"@) == Some(JsonValue::Str(p)),
    ensures
        trim(p@).len() > 0 ==> recorded_path_word(v) == Some(trim(p@)),
        trim(p@).len() == 0 ==> recorded_path_word(v) is None,
{
}

/// Reads the site identifier out of a comic's saved catalogue.
pub fn path_word_from_metadata(v: &JsonValue) -> (res: Option<String>)
    ensures
        match res {
            Some(p) => recorded_path_word(*v) == Some(p@),
            None => recorded_path_word(*v) is None,
        },
{
    let word = match v.get("path_word") {
        Some(p) => p.as_str(),
        None => None,
    };
    match word {
        Some(p) => {
            let t = trim_text(p.as_str());
            if !t.as_str().is_empty() {
                Some(t)
            } else {
                None
            }
        },
        None => None,
    }
}

/// The identifier of the first comic in `list` whose name is exactly `name`.
pub open spec fn first_named(list: Seq<ManGa_item>, name: Seq<char>) -> Option<Seq<char>>
    decreases list.len(),
{
    if list.len() == 0 {
        None
    } else if list[0].name@ == name {
        Some(list[0].path_word@)
    } else {
        first_named(list.drop_first(), name)
    }
}

/// Finds, among search results, the identifier of the comic named exactly `name`.
pub fn find_path_word(list: &Vec<ManGa_item>, name: &str) -> (res: Option<String>)
    ensures
        match res {
            Some(p) => first_named(list@, name@) == Some(p@),
            None => first_named(list@, name@) is None,
        },
{
    let wanted = String::from_str(name);
    let mut i: usize = 0;
    assert(list@.skip(0) =~= list@);
    while i < list.len()
        invariant
            i <= list.len(),
            wanted@ == name@,
            first_named(list@, name@) == first_named(list@.skip(i as int), name@),
        decreases list.len() - i,
    {
        assert(list@.skip(i as int).drop_first() =~= list@.skip(i + 1));
        assert(list@.skip(i as int)[0] == list@[i as int]);
        if list[i].name == wanted {
            return Some(list[i].path_word.clone());
        }
        i = i + 1;
    }
    None
}

/// The catalogue of a comic: its name, its identifier and the chapters the decrypted
/// catalogue lists.
pub fn outline_details(name: &str, path_word: &str, payload: &JsonValue) -> (res: ChapterDetails)
    ensures
        res.name@ == name@,
        res.path_word@ == path_word@,
        chapters_view(res.chapters@) == catalogue_entries(*payload).map_values(
            |e: (Seq<char>, Seq<char>)| entry_chapter(e),
        ),
{
    ChapterDetails {
        name: String::from_str(name),
        path_word: String::from_str(path_word),
        chapters: extract_chapter_contents(payload),
    }
}

/// A chapter with its pages: the number of pages is the number of links.
pub fn chapter_with_pages(chapter_name: &str, chapter_uuid: &str, pages_url: Vec<String>) -> (res: ChapterContents)
    ensures
        res.chapter_name@ == chapter_name@,
        res.chapter_uuid@ == chapter_uuid@,
        res.pages_url@ == pages_url@,
        res.len == pages_url@.len(),
{
    let len = pages_url.len();
    ChapterContents {
        chapter_name: String::from_str(chapter_name),
        chapter_uuid: String::from_str(chapter_uuid),
        len,
        pages_url,
    }
}


/// Whether a chapter entry has a string `name` and a string `id`.
pub open spec fn complete_entry(c: JsonValue) -> bool {
    member_str(c, "name"@) is Some && member_str(c, "id"@) is Some
}

/// Listing chapter entries works piece by piece: the chapters of two runs of entries
/// one after the other are those of the first run, then those of the second.
pub proof fn lemma_listed_chapters_concat(a: Seq<JsonValue>, b: Seq<JsonValue>)
    ensures
        listed_chapters(a + b) == listed_chapters(a) + listed_chapters(b),
    decreases b.len(),
{
    if b.len() == 0 {
        assert(a + b =~= a);
        assert(listed_chapters(a) + listed_chapters(b) =~= listed_chapters(a));
    } else {
        assert((a + b).drop_last() =~= a + b.drop_last());
        assert((a + b).last() == b.last());
        lemma_listed_chapters_concat(a, b.drop_last());
        assert(listed_chapters(a + b) =~= listed_chapters(a) + listed_chapters(b));
    }
}

/// One entry gives its (name, identifier) when it has both as strings, and nothing
/// otherwise.
pub proof fn lemma_listed_chapters_single(c: JsonValue)
    ensures
        complete_entry(c) ==> listed_chapters(seq![c]) == seq![(member_str(c, "name"@)->0, member_str(c, "id"@)->0)],
        !complete_entry(c) ==> listed_chapters(seq![c]).len() == 0,
{
    assert(seq![c].drop_last() =~= Seq::<JsonValue>::empty());
    assert(seq![c].last() == c);
    assert(listed_chapters(Seq::<JsonValue>::empty()) =~= Seq::<(Seq<char>, Seq<char>)>::empty());
    assert(listed_chapters(seq![c]) =~= chapter_entry(c));
}

/// A run of entries that all have a string name and id lists every one of them, in
/// order: as many chapters as entries, the k-th being the k-th entry's name and id.
pub proof fn lemma_complete_entries_all_listed(cs: Seq<JsonValue>)
    requires
        forall|k: int| 0 <= k < cs.len() ==> complete_entry(#[trigger] cs[k]),
    ensures
        listed_chapters(cs).len() == cs.len(),
        forall|k: int| 0 <= k < cs.len() ==> #[trigger] listed_chapters(cs)[k] == (
            member_str(cs[k], "name"@)->0,
            member_str(cs[k], "id"@)->0,
        ),
    decreases cs.len(),
{
    if cs.len() > 0 {
        let rest = cs.drop_last();
        assert forall|k: int| 0 <= k < rest.len() implies complete_entry(#[trigger] rest[k]) by {
            assert(rest[k] == cs[k]);
        }
        lemma_complete_entries_all_listed(rest);
        assert(complete_entry(cs[cs.len() - 1]));
        assert forall|k: int| 0 <= k < cs.len() implies #[trigger] listed_chapters(cs)[k] == (
            member_str(cs[k], "name"@)->0,
            member_str(cs[k], "id"@)->0,
        ) by {
            if k < rest.len() {
                assert(rest[k] == cs[k]);
            }
        }
    }
}

/// Listing groups works piece by piece: the chapters of two runs of groups are those
/// of the first run, then those of the second.
pub proof fn lemma_listed_groups_concat(a: Seq<(String, JsonValue)>, b: Seq<(String, JsonValue)>)
    ensures
        listed_groups(a + b) == listed_groups(a) + listed_groups(b),
    decreases b.len(),
{
    if b.len() == 0 {
        assert(a + b =~= a);
        assert(listed_groups(a) + listed_groups(b) =~= listed_groups(a));
    } else {
        assert((a + b).drop_last() =~= a + b.drop_last());
        assert((a + b).last() == b.last());
        lemma_listed_groups_concat(a, b.drop_last());
        assert(listed_groups(a + b) =~= listed_groups(a) + listed_groups(b));
    }
}

/// One group gives the chapters of its `chapters` array, and nothing where it has none.
pub proof fn lemma_listed_groups_single(g: (String, JsonValue))
    ensures
        listed_groups(seq![g]) == match member_array(g.1, "chapters"@) {
            Some(cs) => listed_chapters(cs),
            None => Seq::<(Seq<char>, Seq<char>)>::empty(),
        },
{
    assert(seq![g].drop_last() =~= Seq::<(String, JsonValue)>::empty());
    assert(seq![g].last() == g);
    assert(listed_groups(Seq::<(String, JsonValue)>::empty()) =~= Seq::<(Seq<char>, Seq<char>)>::empty());
    assert(listed_groups(seq![g]) =~= group_entries(g.1));
}

/// A catalogue with one group whose `chapters` entries all have a string name and id
/// yields every one of those chapters, in order, and nothing else.
pub proof fn lemma_single_group_catalogue(payload: JsonValue, g: (String, JsonValue), cs: Seq<JsonValue>)
    requires
        member_object(payload, "groups"@) == Some(seq![g]),
        member_array(g.1, "chapters"@) == Some(cs),
        forall|k: int| 0 <= k < cs.len() ==> complete_entry(#[trigger] cs[k]),
    ensures
        catalogue_entries(payload).len() == cs.len(),
        forall|k: int| 0 <= k < cs.len() ==> #[trigger] catalogue_entries(payload)[k] == (
            member_str(cs[k], "name"@)->0,
            member_str(cs[k], "id"@)->0,
        ),
{
    lemma_listed_groups_single(g);
    lemma_complete_entries_all_listed(cs);
}

/// Collecting links works piece by piece: the links of two runs of items are those of
/// the first run, then those of the second.
pub proof fn lemma_listed_urls_concat(a: Seq<JsonValue>, b: Seq<JsonValue>)
    ensures
        listed_urls(a + b) == listed_urls(a) + listed_urls(b),
    decreases b.len(),
{
    if b.len() == 0 {
        assert(a + b =~= a);
        assert(listed_urls(a) + listed_urls(b) =~= listed_urls(a));
    } else {
        assert((a + b).drop_last() =~= a + b.drop_last());
        assert((a + b).last() == b.last());
        lemma_listed_urls_concat(a, b.drop_last());
        assert(listed_urls(a + b) =~= listed_urls(a) + listed_urls(b));
    }
}

/// One item gives its `url` when that is a string, and nothing otherwise.
pub proof fn lemma_listed_urls_single(item: JsonValue)
    ensures
        listed_urls(seq![item]) == match member_str(item, "url"@) {
            Some(u) => seq![u],
            None => Seq::<Seq<char>>::empty(),
        },
{
    assert(seq![item].drop_last() =~= Seq::<JsonValue>::empty());
    assert(listed_urls(Seq::<JsonValue>::empty()) =~= Seq::<Seq<char>>::empty());
    assert(listed_urls(seq![item]) =~= match member_str(item, "url"@) {
        Some(u) => seq![u],
        None => Seq::<Seq<char>>::empty(),
    });
}

/// When every item of a chapter's page list has a string `url`, every page is kept:
/// as many links as items, the k-th link being the k-th item's url.
pub proof fn lemma_all_pages_listed(items: Seq<JsonValue>)
    requires
        forall|k: int| 0 <= k < items.len() ==> member_str(#[trigger] items[k], "url"@) is Some,
    ensures
        listed_urls(items).len() == items.len(),
        forall|k: int| 0 <= k < items.len() ==> #[trigger] listed_urls(items)[k] == member_str(items[k], "url"@)->0,
    decreases items.len(),
{
    if items.len() > 0 {
        let rest = items.drop_last();
        assert forall|k: int| 0 <= k < rest.len() implies member_str(#[trigger] rest[k], "url"@) is Some by {
            assert(rest[k] == items[k]);
        }
        lemma_all_pages_listed(rest);
        assert(member_str(items[items.len() - 1], "url"@) is Some);
        assert forall|k: int| 0 <= k < items.len() implies #[trigger] listed_urls(items)[k] == member_str(items[k], "url"@)->0 by {
            if k < rest.len() {
                assert(rest[k] == items[k]);
            }
        }
    }
}

/// The identifier found for a name belongs to the first comic whose name is exactly
/// that name; where no comic has exactly that name, none is found.
pub proof fn lemma_first_named_exact(list: Seq<ManGa_item>, name: Seq<char>)
    ensures
        match first_named(list, name) {
            Some(p) => exists|i: int| {
                &&& 0 <= i < list.len()
                &&& #[trigger] list[i].name@ == name
                &&& p == list[i].path_word@
                &&& forall|j: int| 0 <= j < i ==> list[j].name@ != name
            },
            None => forall|i: int| 0 <= i < list.len() ==> list[i].name@ != name,
        },
    decreases list.len(),
{
    if list.len() > 0 {
        let rest = list.drop_first();
        lemma_first_named_exact(rest, name);
        if list[0].name@ == name {
            assert(list[0].name@ == name);
        } else {
            match first_named(rest, name) {
                Some(p) => {
                    let i = choose|i: int| {
                        &&& 0 <= i < rest.len()
                        &&& #[trigger] rest[i].name@ == name
                        &&& p == rest[i].path_word@
                        &&& forall|j: int| 0 <= j < i ==> rest[j].name@ != name
                    };
                    assert(list[i + 1] == rest[i]);
                    assert forall|j: int| 0 <= j < i + 1 implies list[j].name@ != name by {
                        if j > 0 {
                            assert(list[j] == rest[j - 1]);
                        }
                    }
                    assert(list[i + 1].name@ == name);
                },
                None => {
                    assert forall|i: int| 0 <= i < list.len() implies list[i].name@ != name by {
                        if i > 0 {
                            assert(list[i] == rest[i - 1]);
                        }
                    }
                },
            }
        }
    }
}

} // verus!
