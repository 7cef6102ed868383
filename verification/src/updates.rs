use vstd::prelude::*;
use crate::types::{ChapterContents, ChapterDetails, ChapterView, MangaUpdate, chapters_view, duplicate_chapters, texts};

verus! {

/// The online chapters whose names are not among the local chapter names, in their
/// online order.
pub open spec fn fresh_chapters(online: Seq<ChapterView>, local: Seq<Seq<char>>) -> Seq<ChapterView>
    decreases online.len(),
{
    if online.len() == 0 {
        seq![]
    } else if local.contains(online.last().name) {
        fresh_chapters(online.drop_last(), local)
    } else {
        fresh_chapters(online.drop_last(), local).push(online.last())
    }
}

/// Whether `name` is one of `names`.
pub fn contains_name(names: &Vec<String>, name: &String) -> (res: bool)
    ensures
        res == texts(names@).contains(name@),
{
    let mut i: usize = 0;
    while i < names.len()
        invariant
            i <= names.len(),
            forall|k: int| 0 <= k < i ==> names@[k]@ != name@,
        decreases names.len() - i,
    {
        if names[i] == *name {
            assert(texts(names@)[i as int] == name@);
            return true;
        }
        i = i + 1;
    }
    proof {
        if texts(names@).contains(name@) {
            let k = choose|k: int| 0 <= k < texts(names@).len() && texts(names@)[k] == name@;
            assert(names@[k]@ == name@);
        }
    }
    false
}

/// The online chapters not downloaded yet: those whose names are not among the
/// local chapter folders, in their online order.
pub fn new_chapters(online: &Vec<ChapterContents>, local_names: &Vec<String>) -> (res: Vec<ChapterContents>)
    ensures
        chapters_view(res@) == fresh_chapters(chapters_view(online@), texts(local_names@)),
{
    let ghost local = texts(local_names@);
    let mut res: Vec<ChapterContents> = Vec::new();
    let mut i: usize = 0;
    while i < online.len()
        invariant
            i <= online.len(),
            local == texts(local_names@),
            chapters_view(res@) == fresh_chapters(chapters_view(online@.take(i as int)), local),
        decreases online.len() - i,
    {
        let ghost before = chapters_view(res@);
        assert(chapters_view(online@.take(i + 1)).drop_last() =~= chapters_view(online@.take(i as int)));
        assert(chapters_view(online@.take(i + 1)).last() == online@[i as int]@);
        if !contains_name(local_names, &online[i].chapter_name) {
            res.push(online[i].duplicate());
            assert(chapters_view(res@) =~= before.push(online@[i as int]@));
        } else {
            assert(chapters_view(res@) =~= before);
        }
        i = i + 1;
    }
    assert(online@.take(online.len() as int) =~= online@);
    res
}

/// A chapter is reported new exactly when it is online and its name is not local.
pub proof fn lemma_fresh_chapters_exact(online: Seq<ChapterView>, local: Seq<Seq<char>>, c: ChapterView)
    ensures
        fresh_chapters(online, local).contains(c) <==> (online.contains(c) && !local.contains(c.name)),
    decreases online.len(),
{
    if online.len() > 0 {
        let rest = online.drop_last();
        lemma_fresh_chapters_exact(rest, local, c);
        assert(online =~= rest.push(online.last()));
        if online.contains(c) && !rest.contains(c) {
            let k = choose|k: int| 0 <= k < online.len() && online[k] == c;
            if k < rest.len() {
                assert(rest[k] == c);
            }
        }
        if rest.contains(c) {
            let k = choose|k: int| 0 <= k < rest.len() && rest[k] == c;
            assert(online[k] == c);
        }
        if !local.contains(online.last().name) {
            let f = fresh_chapters(rest, local);
            if f.push(online.last()).contains(c) && !f.contains(c) {
                let k = choose|k: int| 0 <= k < f.len() + 1 && f.push(online.last())[k] == c;
                if k < f.len() {
                    assert(f[k] == c);
                }
            }
            if f.contains(c) {
                let k = choose|k: int| 0 <= k < f.len() && f[k] == c;
                assert(f.push(online.last())[k] == c);
            }
            assert(f.push(online.last())[f.len() as int] == online.last());
        }
    }
}

/// The names of a list of chapters.
pub open spec fn chapter_names(cs: Seq<ChapterView>) -> Seq<Seq<char>> {
    cs.map_values(|c: ChapterView| c.name)
}

/// Once every reported chapter is downloaded (its folder added to the local ones),
/// checking again reports nothing new.
pub proof fn lemma_no_update_after_download(online: Seq<ChapterView>, local: Seq<Seq<char>>)
    ensures
        fresh_chapters(online, local + chapter_names(fresh_chapters(online, local))).len() == 0,
{
    let reported = fresh_chapters(online, local);
    let after = local + chapter_names(reported);
    let again = fresh_chapters(online, after);
    if again.len() > 0 {
        let c = again[0];
        assert(again.contains(c));
        lemma_fresh_chapters_exact(online, after, c);
        lemma_fresh_chapters_exact(online, local, c);
        if local.contains(c.name) {
            let k = choose|k: int| 0 <= k < local.len() && local[k] == c.name;
            assert(after[k] == c.name);
        } else {
            assert(reported.contains(c));
            let k = choose|k: int| 0 <= k < reported.len() && reported[k] == c;
            assert(after[local.len() + k] == c.name);
        }
    }
}

/// With no chapter downloaded yet, every online chapter is new.
pub proof fn lemma_all_new_without_local(online: Seq<ChapterView>)
    ensures
        fresh_chapters(online, seq![]) == online,
    decreases online.len(),
{
    if online.len() > 0 {
        lemma_all_new_without_local(online.drop_last());
        assert(online.drop_last().push(online.last()) =~= online);
    }
}

/// The update a comic gets: its new chapters beside the whole online catalogue, or
/// nothing when no chapter is new.
pub fn manga_update(name: &String, path_word: &String, online: &ChapterDetails, local_names: &Vec<String>) -> (res: Option<MangaUpdate>)
    ensures
        match res {
            Some(u) => {
                &&& fresh_chapters(chapters_view(online.chapters@), texts(local_names@)).len() > 0
                &&& update_of(u, name@, path_word@, chapters_view(online.chapters@), texts(local_names@))
            },
            None => fresh_chapters(chapters_view(online.chapters@), texts(local_names@)).len() == 0,
        },
{
    let fresh = new_chapters(&online.chapters, local_names);
    if fresh.len() == 0 {
        None
    } else {
        Some(MangaUpdate {
            name: name.clone(),
            path_word: path_word.clone(),
            online_chapters: duplicate_chapters(&online.chapters),
            new_chapters: fresh,
        })
    }
}


/// What the update check does next for one comic.
#[derive(Debug, Clone, PartialEq, Eq)]
pub enum ScanStep {
    /// The user cancelled: the check ends and reports no update at all.
    Abandon,
    /// No identifier is recorded beside the comic: search the site for it by name.
    LookUp,
    /// The search found no comic of exactly that name: go on with the next comic.
    Skip,
    /// Fetch the comic's catalogue under this identifier.
    Fetch(String),
}

/// The first decision for a comic: stop if the user cancelled, else use the recorded
/// identifier, or search for one where none is recorded.
pub fn scan_start(cancelled: bool, recorded: &Option<String>) -> (res: ScanStep)
    ensures
        cancelled ==> res == ScanStep::Abandon,
        !cancelled ==> match recorded {
            Some(p) => res matches ScanStep::Fetch(q) && q@ == p@,
            None => res == ScanStep::LookUp,
        },
{
    if cancelled {
        return ScanStep::Abandon;
    }
    match recorded {
        Some(p) => ScanStep::Fetch(p.clone()),
        None => ScanStep::LookUp,
    }
}

/// The decision after searching for a comic's identifier: skip the comic where none
/// matched, else fetch under the identifier found.
pub fn scan_lookup(found: Option<String>) -> (res: ScanStep)
    ensures
        match found {
            Some(p) => res matches ScanStep::Fetch(q) && q@ == p@,
            None => res == ScanStep::Skip,
        },
{
    match found {
        Some(p) => ScanStep::Fetch(p),
        None => ScanStep::Skip,
    }
}

/// `u` is the update of the comic `name` (identifier `path_word`) whose online
/// chapters are `online` and whose local chapter folders are `local`.
pub open spec fn update_of(
    u: MangaUpdate,
    name: Seq<char>,
    path_word: Seq<char>,
    online: Seq<ChapterView>,
    local: Seq<Seq<char>>,
) -> bool {
    &&& u.name@ == name
    &&& u.path_word@ == path_word
    &&& chapters_view(u.online_chapters@) == online
    &&& chapters_view(u.new_chapters@) == fresh_chapters(online, local)
}

/// What recording a fetched catalogue led to.
#[derive(Debug, Clone, Copy, PartialEq, Eq)]
pub enum ScanRecord {
    /// The fetch was cancelled: the check ends and reports no update at all.
    Abandon,
    /// The comic has new chapters; its update was added.
    NewChapters,
    /// The comic has no new chapter.
    NothingNew,
}

/// The updates found so far by the update check, comic after comic.
pub struct UpdateScan {
    pub updates: Vec<MangaUpdate>,
}

impl UpdateScan {
    /// A check that has found nothing yet.
    pub fn new() -> (res: UpdateScan)
        ensures
            res.updates@.len() == 0,
    {
        UpdateScan { updates: Vec::new() }
    }

    /// Records the catalogue fetched for a comic (`None` where the fetch was
    /// cancelled): adds the comic's update when it has new chapters.
    pub fn record(
        &mut self,
        name: &String,
        path_word: &String,
        online: Option<&ChapterDetails>,
        local_names: &Vec<String>,
    ) -> (res: ScanRecord)
        ensures
            match online {
                None => res == ScanRecord::Abandon && final(self).updates@ == old(self).updates@,
                Some(d) => if fresh_chapters(chapters_view(d.chapters@), texts(local_names@)).len() > 0 {
                    &&& res == ScanRecord::NewChapters
                    &&& final(self).updates@.len() == old(self).updates@.len() + 1
                    &&& final(self).updates@.take(old(self).updates@.len() as int) == old(self).updates@
                    &&& update_of(
                        final(self).updates@.last(),
                        name@,
                        path_word@,
                        chapters_view(d.chapters@),
                        texts(local_names@),
                    )
                } else {
                    res == ScanRecord::NothingNew && final(self).updates@ == old(self).updates@
                },
            },
    {
        match online {
            None => ScanRecord::Abandon,
            Some(d) => match manga_update(name, path_word, d, local_names) {
                Some(u) => {
                    let ghost before = self.updates@;
                    self.updates.push(u);
                    assert(self.updates@.take(before.len() as int) =~= before);
                    ScanRecord::NewChapters
                },
                None => ScanRecord::NothingNew,
            },
        }
    }

    /// The check's result: the updates found, or none at all where it was abandoned.
    pub fn finish(self, abandoned: bool) -> (res: Vec<MangaUpdate>)
        ensures
            abandoned ==> res@.len() == 0,
            !abandoned ==> res@ == self.updates@,
    {
        if abandoned {
            Vec::new()
        } else {
            self.updates
        }
    }
}

} // verus!
