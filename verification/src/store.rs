use vstd::prelude::*;
use crate::structs::{chapter_same_key, Chapter, ChapterV, Server};
use vstd::multiset::Multiset;
use crate::strutil::str_eq;

verus! {

/// Why a store operation failed.
#[derive(Debug, Clone, Copy, PartialEq, Eq, Structural)]
pub enum StoreError {
    /// The destination is unknown or its feed channel has not been set.
    NotConfigured,
}

/// One registered destination's stored state: its feed channel, its
/// last-announced watermark, and the announce-in-progress flag.
pub struct ServerRecord {
    pub identifier: String,
    pub feed_channel: Option<String>,
    pub last_announced_at: Option<i64>,
    pub is_announcing: bool,
}

/// The mathematical value of a destination record.
pub struct ServerRecordV {
    pub identifier: Seq<char>,
    pub feed_channel: Option<Seq<char>>,
    pub last_announced_at: Option<int>,
    pub is_announcing: bool,
}

impl View for ServerRecord {
    type V = ServerRecordV;

    open spec fn view(&self) -> ServerRecordV {
        ServerRecordV {
            identifier: self.identifier@,
            feed_channel: match self.feed_channel {
                Some(c) => Some(c@),
                None => None,
            },
            last_announced_at: match self.last_announced_at {
                Some(t) => Some(t as int),
                None => None,
            },
            is_announcing: self.is_announcing,
        }
    }
}

impl DeepView for ServerRecord {
    type V = ServerRecordV;

    open spec fn deep_view(&self) -> ServerRecordV {
        self.view()
    }
}

/// The store: every discovered chapter, and every registered destination.
/// An in-memory table with the semantics the core relies on: chapter rows
/// unique under the (manga, title, number) triple, destination rows unique
/// under their identifier.
pub struct Store {
    pub chapters: Vec<Chapter>,
    pub servers: Vec<ServerRecord>,
}

/// Some stored chapter already carries this chapter's dedup triple.
pub open spec fn spec_has_key(chs: Seq<ChapterV>, c: ChapterV) -> bool {
    exists|i: int| 0 <= i < chs.len() && chapter_same_key(#[trigger] chs[i], c)
}

/// The first record of a destination, if any.
pub open spec fn spec_get_server(ss: Seq<ServerRecordV>, id: Seq<char>) -> Option<ServerRecordV>
    decreases ss.len(),
{
    if ss.len() == 0 {
        None
    } else if ss.first().identifier == id {
        Some(ss.first())
    } else {
        spec_get_server(ss.drop_first(), id)
    }
}

impl Store {
    /// The store's invariant: dedup triples unique among chapters,
    /// identifiers unique among destinations.
    pub open spec fn wf(&self) -> bool {
        &&& forall|i: int, j: int|
            0 <= i < j < self.chapters@.len() ==> !chapter_same_key(
                #[trigger] self.chapters.deep_view()[i],
                #[trigger] self.chapters.deep_view()[j],
            )
        &&& forall|i: int, j: int|
            0 <= i < j < self.servers@.len() ==> (#[trigger] self.servers.deep_view()[i]).identifier
                != (#[trigger] self.servers.deep_view()[j]).identifier
    }

    /// An empty store.
    pub fn new() -> (r: Store)
        ensures
            r.wf(),
            r.chapters@.len() == 0,
            r.servers@.len() == 0,
    {
        Store { chapters: Vec::new(), servers: Vec::new() }
    }
}

proof fn lemma_get_server_at(ss: Seq<ServerRecordV>, id: Seq<char>, k: int)
    requires
        0 <= k < ss.len(),
        forall|j: int| 0 <= j < k ==> (#[trigger] ss[j]).identifier != id,
        ss[k].identifier == id,
    ensures
        spec_get_server(ss, id) == Some(ss[k]),
    decreases ss.len(),
{
    if k > 0 {
        let rest = ss.drop_first();
        assert(forall|j: int| 0 <= j < k - 1 ==> (#[trigger] rest[j]).identifier != id);
        lemma_get_server_at(rest, id, k - 1);
    }
}

proof fn lemma_get_server_none(ss: Seq<ServerRecordV>, id: Seq<char>)
    requires
        forall|j: int| 0 <= j < ss.len() ==> (#[trigger] ss[j]).identifier != id,
    ensures
        spec_get_server(ss, id) is None,
    decreases ss.len(),
{
    if ss.len() > 0 {
        lemma_get_server_none(ss.drop_first(), id);
    }
}

/// Updating the first record of a destination changes that destination's
/// lookup and no other's.
proof fn lemma_get_server_update(ss: Seq<ServerRecordV>, i: int, r2: ServerRecordV, id2: Seq<char>)
    requires
        0 <= i < ss.len(),
        r2.identifier == ss[i].identifier,
        forall|j: int| 0 <= j < i ==> (#[trigger] ss[j]).identifier != ss[i].identifier,
    ensures
        spec_get_server(ss.update(i, r2), id2) == if id2 == ss[i].identifier {
            Some(r2)
        } else {
            spec_get_server(ss, id2)
        },
    decreases ss.len(),
{
    if i == 0 {
        assert(ss.update(0, r2).drop_first() =~= ss.drop_first());
    } else {
        assert(ss.update(i, r2).drop_first() =~= ss.drop_first().update(i - 1, r2));
        lemma_get_server_update(ss.drop_first(), i - 1, r2, id2);
    }
}

/// A pushed record with a fresh identifier changes that identifier's
/// lookup and no other's.
proof fn lemma_get_server_push(ss: Seq<ServerRecordV>, r2: ServerRecordV, id2: Seq<char>)
    requires
        forall|j: int| 0 <= j < ss.len() ==> (#[trigger] ss[j]).identifier != r2.identifier,
    ensures
        spec_get_server(ss.push(r2), id2) == if id2 == r2.identifier {
            Some(r2)
        } else {
            spec_get_server(ss, id2)
        },
    decreases ss.len(),
{
    if ss.len() == 0 {
        assert(ss.push(r2).drop_first() =~= Seq::<ServerRecordV>::empty());
    } else {
        assert(ss.push(r2).drop_first() =~= ss.drop_first().push(r2));
        lemma_get_server_push(ss.drop_first(), r2, id2);
    }
}

impl Store {
    /// Index of the destination's record; `None` when it is unknown.
    fn find_server(&self, guild_id: &str) -> (r: Option<usize>)
        ensures
            match r {
                Some(i) => {
                    &&& i < self.servers@.len()
                    &&& self.servers.deep_view()[i as int].identifier == guild_id@
                    &&& spec_get_server(self.servers.deep_view(), guild_id@) == Some(
                        self.servers.deep_view()[i as int],
                    )
                    &&& forall|j: int|
                        0 <= j < i ==> (#[trigger] self.servers.deep_view()[j]).identifier
                            != guild_id@
                },
                None => spec_get_server(self.servers.deep_view(), guild_id@) is None,
            },
    {
        let n = self.servers.len();
        let mut i: usize = 0;
        while i < n
            invariant
                n == self.servers@.len(),
                i <= n,
                forall|j: int|
                    0 <= j < i ==> (#[trigger] self.servers.deep_view()[j]).identifier
                        != guild_id@,
            decreases n - i,
        {
            if str_eq(self.servers[i].identifier.as_str(), guild_id) {
                proof {
                    lemma_get_server_at(self.servers.deep_view(), guild_id@, i as int);
                }
                return Some(i);
            }
            proof {
                assert(self.servers.deep_view()[i as int].identifier != guild_id@);
            }
            i = i + 1;
        }
        proof {
            lemma_get_server_none(self.servers.deep_view(), guild_id@);
        }
        None
    }

    /// Whether a chapter's dedup triple is already stored.
    fn has_chapter_key(&self, c: &Chapter) -> (r: bool)
        ensures
            r == spec_has_key(self.chapters.deep_view(), c@),
    {
        let n = self.chapters.len();
        let mut i: usize = 0;
        while i < n
            invariant
                n == self.chapters@.len(),
                i <= n,
                forall|j: int|
                    0 <= j < i ==> !chapter_same_key(#[trigger] self.chapters.deep_view()[j], c@),
            decreases n - i,
        {
            let row = &self.chapters[i];
            if str_eq(row.manga.as_str(), c.manga.as_str()) && str_eq(
                row.title.as_str(),
                c.title.as_str(),
            ) && str_eq(row.number.as_str(), c.number.as_str()) {
                assert(chapter_same_key(self.chapters.deep_view()[i as int], c@));
                return true;
            }
            proof {
                assert(!chapter_same_key(self.chapters.deep_view()[i as int], c@));
            }
            i = i + 1;
        }
        false
    }
}

/// Saving one chapter: nothing when its triple is present, else a new row
/// stamped with the persistence time.
pub open spec fn spec_save_one(chs: Seq<ChapterV>, c: ChapterV, logged_at: int) -> Seq<ChapterV> {
    if spec_has_key(chs, c) {
        chs
    } else {
        chs.push(ChapterV { logged_at: Some(logged_at), ..c })
    }
}

/// Saving a batch, first chapter first.
pub open spec fn spec_save(chs: Seq<ChapterV>, news: Seq<ChapterV>, logged_at: int) -> Seq<
    ChapterV,
>
    decreases news.len(),
{
    if news.len() == 0 {
        chs
    } else {
        spec_save_one(spec_save(chs, news.drop_last(), logged_at), news.last(), logged_at)
    }
}

impl Store {
    /// Saves a batch of chapters, skipping every chapter whose
    /// (manga, title, number) triple is already stored; new rows are
    /// stamped with `logged_at` as their persistence time. Destinations
    /// are untouched. Never fails; the `Result` is the store interface's
    /// shape.
    pub fn save_chapters(&mut self, chapters: &[Chapter], logged_at: i64) -> (r: Result<
        (),
        StoreError,
    >)
        requires
            old(self).wf(),
        ensures
            final(self).wf(),
            r is Ok,
            final(self).servers == old(self).servers,
            final(self).chapters.deep_view() == spec_save(
                old(self).chapters.deep_view(),
                chapters.deep_view(),
                logged_at as int,
            ),
    {
        let n = chapters.len();
        let mut i: usize = 0;
        proof {
            assert(chapters.deep_view().subrange(0, 0) =~= Seq::<ChapterV>::empty());
        }
        while i < n
            invariant
                n == chapters@.len(),
                chapters.deep_view().len() == n,
                i <= n,
                self.wf(),
                self.servers == old(self).servers,
                self.chapters.deep_view() == spec_save(
                    old(self).chapters.deep_view(),
                    chapters.deep_view().subrange(0, i as int),
                    logged_at as int,
                ),
            decreases n - i,
        {
            proof {
                assert(chapters.deep_view().subrange(0, i + 1).drop_last()
                    =~= chapters.deep_view().subrange(0, i as int));
                assert(chapters.deep_view().subrange(0, i + 1).last()
                    == chapters.deep_view()[i as int]);
                assert(chapters.deep_view()[i as int] == chapters@[i as int]@);
            }
            let c = &chapters[i];
            if !self.has_chapter_key(c) {
                let ghost pre = self.chapters.deep_view();
                let mut row = c.duplicate();
                row.logged_at = Some(logged_at);
                proof {
                    assert(row@ == ChapterV { logged_at: Some(logged_at as int), ..c@ });
                }
                self.chapters.push(row);
                proof {
                    assert(self.chapters.deep_view() =~= pre.push(
                        ChapterV { logged_at: Some(logged_at as int), ..c@ },
                    ));
                    assert forall|a: int, b: int|
                        0 <= a < b < self.chapters@.len() implies !chapter_same_key(
                        self.chapters.deep_view()[a],
                        self.chapters.deep_view()[b],
                    ) by {
                        if b == self.chapters@.len() - 1 {
                            assert(!spec_has_key(pre, c@));
                            assert(!chapter_same_key(pre[a], c@));
                        }
                    }
                }
            }
            i = i + 1;
        }
        proof {
            assert(chapters.deep_view().subrange(0, n as int) =~= chapters.deep_view());
        }
        Ok(())
    }
}

/// A chapter whose triple is present stays present through any further
/// save.
proof fn lemma_has_key_after_save(chs: Seq<ChapterV>, news: Seq<ChapterV>, logged_at: int, c: ChapterV)
    requires
        spec_has_key(chs, c),
    ensures
        spec_has_key(spec_save(chs, news, logged_at), c),
    decreases news.len(),
{
    if news.len() > 0 {
        lemma_has_key_after_save(chs, news.drop_last(), logged_at, c);
        let mid = spec_save(chs, news.drop_last(), logged_at);
        if !spec_has_key(mid, news.last()) {
            let w = choose|i: int| 0 <= i < mid.len() && chapter_same_key(mid[i], c);
            assert(chapter_same_key(mid.push(
                ChapterV { logged_at: Some(logged_at), ..news.last() },
            )[w], c));
        }
    }
}

/// After a batch is saved, every chapter of the batch has its triple
/// stored.
proof fn lemma_save_covers(chs: Seq<ChapterV>, news: Seq<ChapterV>, logged_at: int, j: int)
    requires
        0 <= j < news.len(),
    ensures
        spec_has_key(spec_save(chs, news, logged_at), news[j]),
    decreases news.len(),
{
    let mid = spec_save(chs, news.drop_last(), logged_at);
    if j == news.len() - 1 {
        if spec_has_key(mid, news.last()) {
            let w = choose|i: int| 0 <= i < mid.len() && chapter_same_key(mid[i], news.last());
            assert(spec_save(chs, news, logged_at) == mid);
            assert(chapter_same_key(mid[w], news[j]));
        } else {
            let fin = mid.push(ChapterV { logged_at: Some(logged_at), ..news.last() });
            assert(chapter_same_key(fin[fin.len() - 1], news[j]));
        }
    } else {
        lemma_save_covers(chs, news.drop_last(), logged_at, j);
        let s1 = seq![news.last()];
        lemma_has_key_after_save(mid, s1, logged_at, news[j]);
        assert(s1.drop_last() =~= Seq::<ChapterV>::empty());
        assert(spec_save(mid, s1.drop_last(), logged_at) == mid);
        assert(spec_save(mid, s1, logged_at) == spec_save_one(mid, news.last(), logged_at));
    }
}

/// Saving chapters whose triples are all present changes nothing.
proof fn lemma_save_all_present(chs: Seq<ChapterV>, news: Seq<ChapterV>, logged_at: int)
    requires
        forall|j: int| 0 <= j < news.len() ==> spec_has_key(chs, #[trigger] news[j]),
    ensures
        spec_save(chs, news, logged_at) == chs,
    decreases news.len(),
{
    if news.len() > 0 {
        lemma_save_all_present(chs, news.drop_last(), logged_at);
    }
}

/// A chapter is due for a destination when its announcement time is past
/// the destination's watermark and not in the future.
pub open spec fn spec_due_at(c: ChapterV, watermark: int, now: int) -> bool {
    watermark < c.announced_at <= now
}

/// The stored chapters due for a destination, in storage order.
pub open spec fn spec_due(chs: Seq<ChapterV>, watermark: int, now: int) -> Seq<ChapterV>
    decreases chs.len(),
{
    if chs.len() == 0 {
        Seq::empty()
    } else {
        let init = spec_due(chs.drop_last(), watermark, now);
        if spec_due_at(chs.last(), watermark, now) {
            init.push(chs.last())
        } else {
            init
        }
    }
}

/// Chapter dates never decrease along the sequence.
pub open spec fn spec_sorted_by_date(s: Seq<ChapterV>) -> bool {
    forall|i: int, j: int| 0 <= i < j < s.len() ==> (#[trigger] s[i]).date <= (#[trigger] s[j]).date
}

/// Inserting anywhere adds exactly that element to the multiset.
proof fn lemma_insert_multiset(s: Seq<ChapterV>, i: int, v: ChapterV)
    requires
        0 <= i <= s.len(),
    ensures
        s.insert(i, v).to_multiset() == s.to_multiset().insert(v),
{
    broadcast use vstd::seq_lib::group_to_multiset_ensures;

    let big = s.insert(i, v);
    assert(big.remove(i) =~= s);
    assert(big[i] == v);
    assert(big.remove(i).to_multiset() =~= big.to_multiset().remove(big[i]));
    assert(big.to_multiset().count(v) > 0) by {
        assert(big.contains(v));
    }
    assert(big.to_multiset() =~= s.to_multiset().insert(v));
}

/// Sorts chapters by date, non-decreasing; a permutation of the input.
pub fn sort_chapters_by_date(chapters: Vec<Chapter>) -> (r: Vec<Chapter>)
    ensures
        r.deep_view().to_multiset() == chapters.deep_view().to_multiset(),
        spec_sorted_by_date(r.deep_view()),
{
    broadcast use vstd::seq_lib::group_to_multiset_ensures;

    let ghost orig = chapters.deep_view();
    let mut rest = chapters;
    let mut out: Vec<Chapter> = Vec::new();
    proof {
        assert(out.deep_view() =~= Seq::<ChapterV>::empty());
        assert(out.deep_view().to_multiset().add(rest.deep_view().to_multiset())
            =~= orig.to_multiset());
    }
    while rest.len() > 0
        invariant
            spec_sorted_by_date(out.deep_view()),
            out.deep_view().to_multiset().add(rest.deep_view().to_multiset())
                == orig.to_multiset(),
        decreases rest.len(),
    {
        broadcast use vstd::seq_lib::group_to_multiset_ensures;

        let ghost pre_rest = rest.deep_view();
        let c = match rest.pop() {
            Some(c) => c,
            None => {
                proof {
                    assert(false);
                }
                Chapter {
                    manga: String::new(),
                    number: String::new(),
                    title: String::new(),
                    date: 0,
                    url: String::new(),
                    logged_at: None,
                    announced_at: 0,
                }
            },
        };
        proof {
            assert(rest.deep_view() =~= pre_rest.drop_last());
            assert(pre_rest.remove(pre_rest.len() - 1) =~= pre_rest.drop_last());
            assert(pre_rest.drop_last().to_multiset() =~= pre_rest.to_multiset().remove(c@));
        }
        let n = out.len();
        let mut pos: usize = 0;
        while pos < n && out[pos].date <= c.date
            invariant
                n == out@.len(),
                pos <= n,
                out.deep_view().len() == n,
                forall|j: int| 0 <= j < pos ==> (#[trigger] out.deep_view()[j]).date <= c@.date,
            decreases n - pos,
        {
            proof {
                assert(out.deep_view()[pos as int].date == out@[pos as int].date);
            }
            pos = pos + 1;
        }
        let ghost pre_out = out.deep_view();
        let ghost cv = c@;
        let ghost p = pos as int;
        out.insert(pos, c);
        proof {
            assert(out.deep_view() =~= pre_out.insert(p, cv));
            lemma_insert_multiset(pre_out, p, cv);
            let cur = out.deep_view();
            assert(p < cur.len() && cur[p] == cv);
            assert forall|a: int, b: int| 0 <= a < b < cur.len() implies (#[trigger] cur[a]).date
                <= (#[trigger] cur[b]).date by {
                if a < p && b < p {
                    assert(cur[a] == pre_out[a] && cur[b] == pre_out[b]);
                } else if a < p && b == p {
                    assert(cur[a] == pre_out[a]);
                } else if a < p && b > p {
                    assert(cur[a] == pre_out[a] && cur[b] == pre_out[b - 1]);
                } else if a == p && b > p {
                    assert(cur[b] == pre_out[b - 1]);
                    assert(p < pre_out.len() ==> pre_out[p].date > cv.date);
                    assert(pre_out[b - 1].date >= pre_out[p].date);
                } else {
                    assert(cur[a] == pre_out[a - 1] && cur[b] == pre_out[b - 1]);
                }
            }
            assert(cur.to_multiset().add(rest.deep_view().to_multiset()) =~= orig.to_multiset());
        }
    }
    proof {
        assert(rest.deep_view() =~= Seq::<ChapterV>::empty());
        assert(rest.deep_view().to_multiset() =~= Multiset::<ChapterV>::empty());
        assert(out.deep_view().to_multiset().add(Multiset::<ChapterV>::empty())
            =~= out.deep_view().to_multiset());
    }
    out
}

impl Store {
    /// The destination as a `Server` value; fails when it is unknown or
    /// its feed channel has not been set.
    pub fn get_server(&self, guild_id: &str) -> (r: Result<Server, StoreError>)
        ensures
            match r {
                Ok(s) => {
                    &&& spec_get_server(self.servers.deep_view(), guild_id@) matches Some(rec)
                        && rec.feed_channel == Some(s.feed_channel_identifier@)
                    &&& s.identifier@ == guild_id@
                },
                Err(e) => {
                    &&& !(spec_get_server(self.servers.deep_view(), guild_id@) matches Some(rec)
                        && rec.feed_channel is Some)
                    &&& e == StoreError::NotConfigured
                },
            },
    {
        match self.get_feed_channel(guild_id) {
            Ok(channel) => Ok(
                Server {
                    identifier: String::from_str(guild_id),
                    feed_channel_identifier: channel,
                },
            ),
            Err(e) => Err(e),
        }
    }

    /// Every registered destination as a `Server` value; fails when any
    /// registered destination has no feed channel set.
    pub fn get_servers(&self) -> (r: Result<Vec<Server>, StoreError>)
        ensures
            match r {
                Ok(v) => {
                    &&& v@.len() == self.servers@.len()
                    &&& forall|i: int|
                        0 <= i < v@.len() ==> {
                            &&& (#[trigger] v@[i]).identifier@ == self.servers.deep_view()[i].identifier
                            &&& self.servers.deep_view()[i].feed_channel == Some(
                                v@[i].feed_channel_identifier@,
                            )
                        }
                },
                Err(e) => {
                    &&& exists|i: int|
                        0 <= i < self.servers@.len() && (#[trigger] self.servers.deep_view()[i]).feed_channel is None
                    &&& e == StoreError::NotConfigured
                },
            },
    {
        let n = self.servers.len();
        let mut out: Vec<Server> = Vec::new();
        let mut i: usize = 0;
        while i < n
            invariant
                n == self.servers@.len(),
                i <= n,
                out@.len() == i,
                forall|j: int|
                    0 <= j < i ==> {
                        &&& (#[trigger] out@[j]).identifier@ == self.servers.deep_view()[j].identifier
                        &&& self.servers.deep_view()[j].feed_channel == Some(
                            out@[j].feed_channel_identifier@,
                        )
                    },
            decreases n - i,
        {
            let rec = &self.servers[i];
            match &rec.feed_channel {
                Some(channel) => {
                    out.push(
                        Server {
                            identifier: rec.identifier.clone(),
                            feed_channel_identifier: channel.clone(),
                        },
                    );
                },
                None => {
                    proof {
                        assert(self.servers.deep_view()[i as int].feed_channel is None);
                    }
                    return Err(StoreError::NotConfigured);
                },
            }
            i = i + 1;
        }
        Ok(out)
    }

    /// The destination's feed channel; fails when the destination is
    /// unknown or the channel has not been set.
    pub fn get_feed_channel(&self, guild_id: &str) -> (r: Result<String, StoreError>)
        ensures
            match r {
                Ok(c) => spec_get_server(self.servers.deep_view(), guild_id@) matches Some(rec)
                    && rec.feed_channel == Some(c@),
                Err(e) => {
                    &&& !(spec_get_server(self.servers.deep_view(), guild_id@) matches Some(rec)
                        && rec.feed_channel is Some)
                    &&& e == StoreError::NotConfigured
                },
            },
    {
        match self.find_server(guild_id) {
            Some(i) => match &self.servers[i].feed_channel {
                Some(c) => Ok(c.clone()),
                None => Err(StoreError::NotConfigured),
            },
            None => Err(StoreError::NotConfigured),
        }
    }

    /// Sets the destination's feed channel, registering the destination
    /// on first contact with its watermark at `now` and its announce flag
    /// clear. Chapters and other destinations are untouched.
    pub fn set_feed_channel(&mut self, guild_id: &str, channel_id: &str, now: i64) -> (r: Result<
        (),
        StoreError,
    >)
        requires
            old(self).wf(),
        ensures
            final(self).wf(),
            r is Ok,
            final(self).chapters == old(self).chapters,
            match spec_get_server(old(self).servers.deep_view(), guild_id@) {
                Some(rec) => spec_get_server(final(self).servers.deep_view(), guild_id@) == Some(
                    ServerRecordV { feed_channel: Some(channel_id@), ..rec },
                ),
                None => spec_get_server(final(self).servers.deep_view(), guild_id@) == Some(
                    ServerRecordV {
                        identifier: guild_id@,
                        feed_channel: Some(channel_id@),
                        last_announced_at: Some(now as int),
                        is_announcing: false,
                    },
                ),
            },
            forall|other: Seq<char>|
                other != guild_id@ ==> #[trigger] spec_get_server(
                    final(self).servers.deep_view(),
                    other,
                ) == spec_get_server(old(self).servers.deep_view(), other),
    {
        let ghost pre = self.servers.deep_view();
        match self.find_server(guild_id) {
            Some(i) => {
                let rec = &self.servers[i];
                let updated = ServerRecord {
                    identifier: rec.identifier.clone(),
                    feed_channel: Some(String::from_str(channel_id)),
                    last_announced_at: rec.last_announced_at,
                    is_announcing: rec.is_announcing,
                };
                let ghost upv = updated@;
                self.servers.set(i, updated);
                proof {
                    assert(self.servers.deep_view() =~= pre.update(i as int, upv));
                    lemma_get_server_update(pre, i as int, upv, guild_id@);
                    assert forall|other: Seq<char>| other != guild_id@ implies #[trigger] spec_get_server(
                        self.servers.deep_view(),
                        other,
                    ) == spec_get_server(pre, other) by {
                        lemma_get_server_update(pre, i as int, upv, other);
                    }
                }
            },
            None => {
                let fresh = ServerRecord {
                    identifier: String::from_str(guild_id),
                    feed_channel: Some(String::from_str(channel_id)),
                    last_announced_at: Some(now),
                    is_announcing: false,
                };
                let ghost fv = fresh@;
                proof {
                    lemma_get_server_none_converse(pre, guild_id@);
                }
                self.servers.push(fresh);
                proof {
                    assert(self.servers.deep_view() =~= pre.push(fv));
                    lemma_get_server_push(pre, fv, guild_id@);
                    assert forall|other: Seq<char>| other != guild_id@ implies #[trigger] spec_get_server(
                        self.servers.deep_view(),
                        other,
                    ) == spec_get_server(pre, other) by {
                        lemma_get_server_push(pre, fv, other);
                    }
                }
            },
        }
        Ok(())
    }

    /// The destination's last-announced watermark; fails when the
    /// destination is unknown or no watermark has been recorded.
    pub fn get_last_announced_time(&self, guild_id: &str) -> (r: Result<i64, StoreError>)
        ensures
            match r {
                Ok(t) => spec_get_server(self.servers.deep_view(), guild_id@) matches Some(rec)
                    && rec.last_announced_at == Some(t as int),
                Err(e) => {
                    &&& !(spec_get_server(self.servers.deep_view(), guild_id@) matches Some(rec)
                        && rec.last_announced_at is Some)
                    &&& e == StoreError::NotConfigured
                },
            },
    {
        match self.find_server(guild_id) {
            Some(i) => match self.servers[i].last_announced_at {
                Some(t) => Ok(t),
                None => Err(StoreError::NotConfigured),
            },
            None => Err(StoreError::NotConfigured),
        }
    }

    /// Advances the destination's watermark; fails, changing nothing,
    /// when the destination is unknown.
    pub fn set_last_announced_time(&mut self, guild_id: &str, last_announced_at: i64) -> (r:
        Result<(), StoreError>)
        requires
            old(self).wf(),
        ensures
            final(self).wf(),
            final(self).chapters == old(self).chapters,
            match r {
                Ok(()) => {
                    &&& spec_get_server(old(self).servers.deep_view(), guild_id@) matches Some(rec)
                        && spec_get_server(final(self).servers.deep_view(), guild_id@) == Some(
                        ServerRecordV { last_announced_at: Some(last_announced_at as int), ..rec },
                    )
                    &&& forall|other: Seq<char>|
                        other != guild_id@ ==> #[trigger] spec_get_server(
                            final(self).servers.deep_view(),
                            other,
                        ) == spec_get_server(old(self).servers.deep_view(), other)
                },
                Err(e) => {
                    &&& spec_get_server(old(self).servers.deep_view(), guild_id@) is None
                    &&& *final(self) == *old(self)
                    &&& e == StoreError::NotConfigured
                },
            },
    {
        let ghost pre = self.servers.deep_view();
        match self.find_server(guild_id) {
            Some(i) => {
                let rec = &self.servers[i];
                let updated = ServerRecord {
                    identifier: rec.identifier.clone(),
                    feed_channel: match &rec.feed_channel {
                        Some(c) => Some(c.clone()),
                        None => None,
                    },
                    last_announced_at: Some(last_announced_at),
                    is_announcing: rec.is_announcing,
                };
                let ghost upv = updated@;
                self.servers.set(i, updated);
                proof {
                    assert(self.servers.deep_view() =~= pre.update(i as int, upv));
                    lemma_get_server_update(pre, i as int, upv, guild_id@);
                    assert forall|other: Seq<char>| other != guild_id@ implies #[trigger] spec_get_server(
                        self.servers.deep_view(),
                        other,
                    ) == spec_get_server(pre, other) by {
                        lemma_get_server_update(pre, i as int, upv, other);
                    }
                }
                Ok(())
            },
            None => Err(StoreError::NotConfigured),
        }
    }

    /// The destination's announce-in-progress flag; fails when the
    /// destination is unknown.
    pub fn get_announcing_server_flag(&self, guild_id: &str) -> (r: Result<bool, StoreError>)
        ensures
            match r {
                Ok(b) => spec_get_server(self.servers.deep_view(), guild_id@) matches Some(rec)
                    && rec.is_announcing == b,
                Err(e) => {
                    &&& spec_get_server(self.servers.deep_view(), guild_id@) is None
                    &&& e == StoreError::NotConfigured
                },
            },
    {
        match self.find_server(guild_id) {
            Some(i) => Ok(self.servers[i].is_announcing),
            None => Err(StoreError::NotConfigured),
        }
    }

    /// Sets the destination's announce-in-progress flag; fails, changing
    /// nothing, when the destination is unknown.
    pub fn set_announcing_server_flag(&mut self, guild_id: &str, announcing: bool) -> (r: Result<
        (),
        StoreError,
    >)
        requires
            old(self).wf(),
        ensures
            final(self).wf(),
            final(self).chapters == old(self).chapters,
            match r {
                Ok(()) => {
                    &&& spec_get_server(old(self).servers.deep_view(), guild_id@) matches Some(rec)
                        && spec_get_server(final(self).servers.deep_view(), guild_id@) == Some(
                        ServerRecordV { is_announcing: announcing, ..rec },
                    )
                    &&& forall|other: Seq<char>|
                        other != guild_id@ ==> #[trigger] spec_get_server(
                            final(self).servers.deep_view(),
                            other,
                        ) == spec_get_server(old(self).servers.deep_view(), other)
                },
                Err(e) => {
                    &&& spec_get_server(old(self).servers.deep_view(), guild_id@) is None
                    &&& *final(self) == *old(self)
                    &&& e == StoreError::NotConfigured
                },
            },
    {
        let ghost pre = self.servers.deep_view();
        match self.find_server(guild_id) {
            Some(i) => {
                let rec = &self.servers[i];
                let updated = ServerRecord {
                    identifier: rec.identifier.clone(),
                    feed_channel: match &rec.feed_channel {
                        Some(c) => Some(c.clone()),
                        None => None,
                    },
                    last_announced_at: rec.last_announced_at,
                    is_announcing: announcing,
                };
                let ghost upv = updated@;
                self.servers.set(i, updated);
                proof {
                    assert(self.servers.deep_view() =~= pre.update(i as int, upv));
                    lemma_get_server_update(pre, i as int, upv, guild_id@);
                    assert forall|other: Seq<char>| other != guild_id@ implies #[trigger] spec_get_server(
                        self.servers.deep_view(),
                        other,
                    ) == spec_get_server(pre, other) by {
                        lemma_get_server_update(pre, i as int, upv, other);
                    }
                }
                Ok(())
            },
            None => Err(StoreError::NotConfigured),
        }
    }

    /// The chapters not yet announced to the destination and due by `now`:
    /// those with `watermark < announced_at <= now`, date-ascending.
    /// Fails when the destination is unknown or has no watermark.
    pub fn get_unnanounced_chapters(&self, guild_id: &str, now: i64) -> (r: Result<
        Vec<Chapter>,
        StoreError,
    >)
        ensures
            match r {
                Ok(v) => {
                    &&& spec_get_server(self.servers.deep_view(), guild_id@) matches Some(rec)
                        && rec.last_announced_at matches Some(wm) && v.deep_view().to_multiset()
                        == spec_due(self.chapters.deep_view(), wm, now as int).to_multiset()
                    &&& spec_sorted_by_date(v.deep_view())
                },
                Err(e) => {
                    &&& !(spec_get_server(self.servers.deep_view(), guild_id@) matches Some(rec)
                        && rec.last_announced_at is Some)
                    &&& e == StoreError::NotConfigured
                },
            },
    {
        let watermark = match self.get_last_announced_time(guild_id) {
            Ok(t) => t,
            Err(e) => {
                return Err(e);
            },
        };
        let n = self.chapters.len();
        let mut due: Vec<Chapter> = Vec::new();
        let mut i: usize = 0;
        proof {
            assert(self.chapters.deep_view().subrange(0, 0) =~= Seq::<ChapterV>::empty());
        }
        while i < n
            invariant
                n == self.chapters@.len(),
                self.chapters.deep_view().len() == n,
                i <= n,
                due.deep_view() == spec_due(
                    self.chapters.deep_view().subrange(0, i as int),
                    watermark as int,
                    now as int,
                ),
            decreases n - i,
        {
            proof {
                assert(self.chapters.deep_view().subrange(0, i + 1).drop_last()
                    =~= self.chapters.deep_view().subrange(0, i as int));
                assert(self.chapters.deep_view().subrange(0, i + 1).last()
                    == self.chapters.deep_view()[i as int]);
            }
            let c = &self.chapters[i];
            if watermark < c.announced_at && c.announced_at <= now {
                let ghost pre = due.deep_view();
                let row = c.duplicate();
                let ghost rv = row@;
                due.push(row);
                proof {
                    assert(due.deep_view() =~= pre.push(rv));
                }
            }
            i = i + 1;
        }
        proof {
            assert(self.chapters.deep_view().subrange(0, n as int) =~= self.chapters.deep_view());
        }
        Ok(sort_chapters_by_date(due))
    }
}

/// When a destination's lookup is empty, no record carries its
/// identifier.
proof fn lemma_get_server_none_converse(ss: Seq<ServerRecordV>, id: Seq<char>)
    requires
        spec_get_server(ss, id) is None,
    ensures
        forall|j: int| 0 <= j < ss.len() ==> (#[trigger] ss[j]).identifier != id,
    decreases ss.len(),
{
    if ss.len() > 0 {
        lemma_get_server_none_converse(ss.drop_first(), id);
        assert forall|j: int| 0 <= j < ss.len() implies (#[trigger] ss[j]).identifier != id by {
            if j > 0 {
                assert(ss[j] == ss.drop_first()[j - 1]);
            }
        }
    }
}

/// Saving the same batch twice stores what saving it once stores: the
/// second save finds every triple present and adds no row, so an
/// identical (manga, title, number) triple yields exactly one stored row.
pub proof fn lemma_save_twice(
    chs: Seq<ChapterV>,
    news: Seq<ChapterV>,
    logged_at1: int,
    logged_at2: int,
)
    ensures
        spec_save(spec_save(chs, news, logged_at1), news, logged_at2) == spec_save(
            chs,
            news,
            logged_at1,
        ),
{
    let once = spec_save(chs, news, logged_at1);
    assert forall|j: int| 0 <= j < news.len() implies spec_has_key(once, #[trigger] news[j]) by {
        lemma_save_covers(chs, news, logged_at1, j);
    }
    lemma_save_all_present(once, news, logged_at2);
}

} // verus!
