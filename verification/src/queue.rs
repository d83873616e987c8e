//! The request queue as a mathematical value, the operations on it, and what
//! holds of them.

use crate::request::{new_request, BackendSongView, RequestView};
use vstd::prelude::*;

verus! {

/// The rows of the store in the order of their insertion, and the id that the
/// next inserted row will get.
pub struct Queue {
    pub rows: Seq<RequestView>,
    pub next_id: int,
}

/// `b` is `a` as it may look later: the same request, played if `a` was.
pub open spec fn same_request_later(a: RequestView, b: RequestView) -> bool {
    &&& b == RequestView { played: b.played, ..a }
    &&& a.played ==> b.played
}

impl Queue {
    /// The queue that holds nothing yet.
    pub open spec fn empty() -> Queue {
        Queue { rows: Seq::empty(), next_id: 1 }
    }

    /// Ids are positive, grow along the rows and lie below `next_id`; no two
    /// rows share an external key.
    pub open spec fn wf(self) -> bool {
        &&& 1 <= self.next_id <= i64::MAX + 1
        &&& forall|i: int| 0 <= i < self.rows.len() ==> 1 <= (#[trigger] self.rows[i]).id < self.next_id
        &&& forall|i: int, j: int|
            0 <= i < j < self.rows.len() ==> (#[trigger] self.rows[i]).id < (#[trigger] self.rows[j]).id
        &&& forall|i: int, j: int|
            0 <= i < j < self.rows.len() ==> (#[trigger] self.rows[i]).external_key != (
            #[trigger] self.rows[j]).external_key
    }

    /// No id is left to hand out.
    pub open spec fn is_full(self) -> bool {
        self.next_id > i64::MAX
    }

    /// Some row carries the external key `key`.
    pub open spec fn has_key(self, key: Seq<char>) -> bool {
        exists|i: int| 0 <= i < self.rows.len() && (#[trigger] self.rows[i]).external_key == key
    }

    /// Some row carries the id `id`.
    pub open spec fn has_id(self, id: int) -> bool {
        exists|i: int| 0 <= i < self.rows.len() && (#[trigger] self.rows[i]).id == id
    }

    /// The rows that carry the external key `key`.
    pub open spec fn rows_with_key(self, key: Seq<char>) -> Seq<RequestView> {
        self.rows.filter(|r: RequestView| r.external_key == key)
    }

    /// How many rows, played or not, `submitter` has.
    pub open spec fn count_by_submitter(self, submitter: Seq<char>) -> nat {
        self.rows.filter(|r: RequestView| r.submitter == submitter).len()
    }

    /// The queue after `song` was offered with `rank`: one more row, unless a
    /// row carries the song's key already or no id is left.
    pub open spec fn insert_if_absent(self, song: BackendSongView, rank: nat) -> Queue {
        if self.has_key(song.uuid) || self.is_full() {
            self
        } else {
            Queue {
                rows: self.rows.push(new_request(self.next_id, song, rank)),
                next_id: self.next_id + 1,
            }
        }
    }

    /// The queue after the request `id` was played.
    pub open spec fn mark_played(self, id: int) -> Queue {
        Queue {
            rows: self.rows.map_values(
                |r: RequestView|
                    if r.id == id {
                        RequestView { played: true, ..r }
                    } else {
                        r
                    },
            ),
            next_id: self.next_id,
        }
    }

    /// No row is left to play.
    pub open spec fn all_played(self) -> bool {
        forall|i: int| 0 <= i < self.rows.len() ==> (#[trigger] self.rows[i]).played
    }

    /// `r` may play next: it is unplayed, and no unplayed row has a lower rank.
    pub open spec fn eligible(self, r: RequestView) -> bool {
        &&& !r.played
        &&& forall|i: int|
            0 <= i < self.rows.len() && !(#[trigger] self.rows[i]).played ==> r.rank
                <= self.rows[i].rank
    }

    /// The rows that may play next, in the order of the store.
    pub open spec fn candidates(self) -> Seq<RequestView> {
        self.rows.filter(|r: RequestView| self.eligible(r))
    }

    /// The queue after one feed item was merged: the item is offered with the
    /// rank that follows the number of rows its submitter has at that moment.
    pub open spec fn sync_one(self, song: BackendSongView) -> Queue {
        self.insert_if_absent(song, self.count_by_submitter(song.mail) + 1)
    }

    /// The queue after the feed items were merged one by one, first to last.
    pub open spec fn sync(self, songs: Seq<BackendSongView>) -> Queue
        decreases songs.len(),
    {
        if songs.len() == 0 {
            self
        } else {
            self.sync(songs.drop_last()).sync_one(songs.last())
        }
    }

    /// Merging `songs` one by one never meets a new item with no id left.
    pub open spec fn sync_fits(self, songs: Seq<BackendSongView>) -> bool
        decreases songs.len(),
    {
        if songs.len() == 0 {
            true
        } else {
            let before = self.sync(songs.drop_last());
            &&& self.sync_fits(songs.drop_last())
            &&& before.has_key(songs.last().uuid) || !before.is_full()
        }
    }

    /// `later` may come of `self` through the operations on the queue: no row
    /// has left or moved, each is the request it was, none has gone back from
    /// played to unplayed, and no id is handed out again.
    pub open spec fn evolves_to(self, later: Queue) -> bool {
        &&& self.rows.len() <= later.rows.len()
        &&& self.next_id <= later.next_id
        &&& forall|i: int|
            0 <= i < self.rows.len() ==> same_request_later(
                #[trigger] self.rows[i],
                later.rows[i],
            )
    }
}

/// Offering a song keeps the queue well formed.
pub proof fn lemma_insert_if_absent_wf(q: Queue, song: BackendSongView, rank: nat)
    requires
        q.wf(),
    ensures
        q.insert_if_absent(song, rank).wf(),
{
    let after = q.insert_if_absent(song, rank);
    if !(q.has_key(song.uuid) || q.is_full()) {
        assert forall|i: int, j: int| 0 <= i < j < after.rows.len() implies (
        #[trigger] after.rows[i]).external_key != (#[trigger] after.rows[j]).external_key by {
            if j == q.rows.len() {
                assert(q.rows[i].external_key != song.uuid);
            } else {
                assert(q.rows[i].external_key != q.rows[j].external_key);
            }
        }
        assert forall|i: int, j: int| 0 <= i < j < after.rows.len() implies (
        #[trigger] after.rows[i]).id < (#[trigger] after.rows[j]).id by {
            if j == q.rows.len() {
                assert(q.rows[i].id < q.next_id);
            } else {
                assert(q.rows[i].id < q.rows[j].id);
            }
        }
        assert forall|i: int| 0 <= i < after.rows.len() implies 1 <= (
        #[trigger] after.rows[i]).id < after.next_id by {
            if i < q.rows.len() {
                assert(1 <= q.rows[i].id < q.next_id);
            }
        }
    }
}

/// Marking a request played keeps the queue well formed.
pub proof fn lemma_mark_played_wf(q: Queue, id: int)
    requires
        q.wf(),
    ensures
        q.mark_played(id).wf(),
{
    let after = q.mark_played(id);
    assert forall|i: int| 0 <= i < after.rows.len() implies 1 <= (#[trigger] after.rows[i]).id
        < after.next_id by {
        assert(1 <= q.rows[i].id < q.next_id);
    }
    assert forall|i: int, j: int| 0 <= i < j < after.rows.len() implies (
    #[trigger] after.rows[i]).id < (#[trigger] after.rows[j]).id by {
        assert(q.rows[i].id < q.rows[j].id);
    }
    assert forall|i: int, j: int| 0 <= i < j < after.rows.len() implies (
    #[trigger] after.rows[i]).external_key != (#[trigger] after.rows[j]).external_key by {
        assert(q.rows[i].external_key != q.rows[j].external_key);
    }
}

/// Merging a feed keeps the queue well formed.
pub proof fn lemma_sync_wf(q: Queue, songs: Seq<BackendSongView>)
    requires
        q.wf(),
    ensures
        q.sync(songs).wf(),
    decreases songs.len(),
{
    if songs.len() > 0 {
        lemma_sync_wf(q, songs.drop_last());
        let before = q.sync(songs.drop_last());
        lemma_insert_if_absent_wf(
            before,
            songs.last(),
            before.count_by_submitter(songs.last().mail) + 1,
        );
    }
}

/// Every queue may come of itself, and what may come of a queue that may come
/// of another may come of that other.
pub proof fn lemma_evolves_to_is_a_preorder(a: Queue, b: Queue, c: Queue)
    ensures
        a.evolves_to(a),
        a.evolves_to(b) && b.evolves_to(c) ==> a.evolves_to(c),
{
    if a.evolves_to(b) && b.evolves_to(c) {
        assert forall|i: int| 0 <= i < a.rows.len() implies same_request_later(
            #[trigger] a.rows[i],
            c.rows[i],
        ) by {
            assert(same_request_later(a.rows[i], b.rows[i]));
            assert(same_request_later(b.rows[i], c.rows[i]));
        }
    }
}

/// Offering a song changes no row that was there.
pub proof fn lemma_insert_if_absent_evolves(q: Queue, song: BackendSongView, rank: nat)
    ensures
        q.evolves_to(q.insert_if_absent(song, rank)),
{
}

/// Marking a request played changes nothing on any row but `played`, and that
/// only from unplayed to played.
pub proof fn lemma_mark_played_evolves(q: Queue, id: int)
    ensures
        q.evolves_to(q.mark_played(id)),
{
}

/// Merging a feed changes no row that was there.
pub proof fn lemma_sync_evolves(q: Queue, songs: Seq<BackendSongView>)
    ensures
        q.evolves_to(q.sync(songs)),
    decreases songs.len(),
{
    if songs.len() > 0 {
        lemma_sync_evolves(q, songs.drop_last());
        let before = q.sync(songs.drop_last());
        lemma_insert_if_absent_evolves(
            before,
            songs.last(),
            before.count_by_submitter(songs.last().mail) + 1,
        );
        lemma_evolves_to_is_a_preorder(q, before, q.sync(songs));
    }
}

/// A request that was played stays played, under its id, rank and key,
/// whatever the queue goes through: offering songs, merging feeds, marking
/// requests played, in any number and order.
pub proof fn lemma_played_stays_played(before: Queue, after: Queue, i: int)
    requires
        before.evolves_to(after),
        0 <= i < before.rows.len(),
        before.rows[i].played,
    ensures
        i < after.rows.len(),
        after.rows[i].played,
        after.rows[i] == before.rows[i],
{
    assert(same_request_later(before.rows[i], after.rows[i]));
}

/// What marking a request played does: the row of that id is played
/// afterwards, every other row is as it was, and the queue is the same queue
/// where no row has that id.
pub proof fn lemma_mark_played_effect(q: Queue, id: int)
    ensures
        q.mark_played(id).rows.len() == q.rows.len(),
        forall|i: int|
            0 <= i < q.rows.len() && q.rows[i].id == id ==> (#[trigger] q.mark_played(
                id,
            ).rows[i]) == (RequestView { played: true, ..q.rows[i] }),
        forall|i: int|
            0 <= i < q.rows.len() && q.rows[i].id != id ==> (#[trigger] q.mark_played(
                id,
            ).rows[i]) == q.rows[i],
        !q.has_id(id) ==> q.mark_played(id) == q,
        q.mark_played(id).mark_played(id) == q.mark_played(id),
{
    let once = q.mark_played(id);
    if !q.has_id(id) {
        assert(once.rows =~= q.rows);
    }
    assert(once.mark_played(id).rows =~= once.rows);
}

/// In a well-formed queue a key is carried by one row or by none.
pub proof fn lemma_rows_with_key(q: Queue, key: Seq<char>)
    requires
        q.wf(),
    ensures
        q.rows_with_key(key).len() == if q.has_key(key) {
            1nat
        } else {
            0nat
        },
    decreases q.rows.len(),
{
    reveal(Seq::filter);
    if q.rows.len() > 0 {
        let shorter = Queue { rows: q.rows.drop_last(), next_id: q.next_id };
        assert(shorter.wf()) by {
            assert forall|i: int| 0 <= i < shorter.rows.len() implies 1 <= (
            #[trigger] shorter.rows[i]).id < shorter.next_id by {
                assert(1 <= q.rows[i].id < q.next_id);
            }
            assert forall|i: int, j: int| 0 <= i < j < shorter.rows.len() implies (
            #[trigger] shorter.rows[i]).id < (#[trigger] shorter.rows[j]).id by {
                assert(q.rows[i].id < q.rows[j].id);
            }
            assert forall|i: int, j: int| 0 <= i < j < shorter.rows.len() implies (
            #[trigger] shorter.rows[i]).external_key != (
            #[trigger] shorter.rows[j]).external_key by {
                assert(q.rows[i].external_key != q.rows[j].external_key);
            }
        }
        lemma_rows_with_key(shorter, key);
        let last = q.rows.len() - 1;
        if q.rows[last].external_key == key {
            assert(q.has_key(key));
            if shorter.has_key(key) {
                let i = choose|i: int|
                    0 <= i < shorter.rows.len() && (#[trigger] shorter.rows[i]).external_key
                        == key;
                assert(q.rows[i].external_key != q.rows[last].external_key);
            }
        } else {
            if shorter.has_key(key) {
                let i = choose|i: int|
                    0 <= i < shorter.rows.len() && (#[trigger] shorter.rows[i]).external_key
                        == key;
                assert(q.rows[i].external_key == key);
            }
            if q.has_key(key) {
                let i = choose|i: int|
                    0 <= i < q.rows.len() && (#[trigger] q.rows[i]).external_key == key;
                assert(shorter.rows[i].external_key == key);
            }
        }
    }
}

/// Offering a song whose key was offered just before changes nothing,
/// whatever else the two songs say and whatever the ranks.
pub proof fn lemma_insert_if_absent_twice(
    q: Queue,
    first: BackendSongView,
    first_rank: nat,
    second: BackendSongView,
    second_rank: nat,
)
    requires
        first.uuid == second.uuid,
    ensures
        q.insert_if_absent(first, first_rank).insert_if_absent(second, second_rank)
            == q.insert_if_absent(first, first_rank),
{
    let once = q.insert_if_absent(first, first_rank);
    if !(q.has_key(first.uuid) || q.is_full()) {
        assert(once.rows[q.rows.len() as int].external_key == second.uuid);
    }
}

/// After a song was offered to a well-formed queue, once or twice, exactly
/// one row carries its key. Left out is only the queue that neither holds
/// the key nor has an id left for it.
pub proof fn lemma_insert_if_absent_one_row(
    q: Queue,
    first: BackendSongView,
    first_rank: nat,
    second: BackendSongView,
    second_rank: nat,
)
    requires
        q.wf(),
        q.has_key(first.uuid) || !q.is_full(),
        first.uuid == second.uuid,
    ensures
        q.insert_if_absent(first, first_rank).rows_with_key(first.uuid).len() == 1,
        q.insert_if_absent(first, first_rank).insert_if_absent(
            second,
            second_rank,
        ).rows_with_key(first.uuid).len() == 1,
{
    let once = q.insert_if_absent(first, first_rank);
    lemma_insert_if_absent_twice(q, first, first_rank, second, second_rank);
    lemma_insert_if_absent_wf(q, first, first_rank);
    lemma_rows_with_key(once, first.uuid);
    if !q.has_key(first.uuid) {
        assert(once.rows[q.rows.len() as int].external_key == first.uuid);
    } else {
        assert(once.has_key(first.uuid));
    }
}

/// The rows that may play next are rows of the queue, unplayed, and of the
/// lowest rank that any unplayed row has; every such row is among them; and
/// there is none exactly when every row is played.
pub proof fn lemma_candidates(q: Queue)
    ensures
        forall|r: RequestView| #[trigger]
            q.candidates().contains(r) <==> q.rows.contains(r) && q.eligible(r),
        forall|r: RequestView, i: int|
            #![trigger q.candidates().contains(r), q.rows[i]]
            q.candidates().contains(r) && 0 <= i < q.rows.len() && !q.rows[i].played ==> !r.played
                && r.rank <= q.rows[i].rank,
        forall|r: RequestView, s: RequestView|
            #![trigger q.candidates().contains(r), q.candidates().contains(s)]
            q.candidates().contains(r) && q.candidates().contains(s) ==> r.rank == s.rank,
        q.candidates().len() == 0 <==> q.all_played(),
{
    let pred = |r: RequestView| q.eligible(r);
    broadcast use vstd::seq_lib::group_filter_ensures;

    assert forall|r: RequestView| #[trigger]
        q.candidates().contains(r) <==> q.rows.contains(r) && q.eligible(r) by {
        if q.candidates().contains(r) {
            q.rows.lemma_filter_contains_rev(pred, r);
            let k = choose|k: int| 0 <= k < q.candidates().len() && q.candidates()[k] == r;
            q.rows.lemma_filter_pred(pred, k);
        }
        if q.rows.contains(r) && q.eligible(r) {
            let k = choose|k: int| 0 <= k < q.rows.len() && q.rows[k] == r;
            q.rows.lemma_filter_contains(pred, k);
        }
    }
    assert forall|r: RequestView, s: RequestView|
        #![trigger q.candidates().contains(r), q.candidates().contains(s)]
        q.candidates().contains(r) && q.candidates().contains(s) implies r.rank == s.rank by {
        let k = choose|k: int| 0 <= k < q.rows.len() && q.rows[k] == r;
        let l = choose|l: int| 0 <= l < q.rows.len() && q.rows[l] == s;
        assert(!q.rows[k].played && !q.rows[l].played);
    }
    if q.candidates().len() == 0 {
        if !q.all_played() {
            let n = q.rows.len() as int;
            lemma_lowest_unplayed(q, n);
            let m = choose|m: int| #[trigger] is_lowest_unplayed(q, n, m);
            assert(q.eligible(q.rows[m]));
            q.rows.lemma_filter_contains(pred, m);
        }
    }
    if q.all_played() {
        if q.candidates().len() > 0 {
            let r = q.candidates()[0];
            assert(q.candidates().contains(r));
            let k = choose|k: int| 0 <= k < q.rows.len() && q.rows[k] == r;
            assert(q.rows[k].played);
        }
    }
}

/// Row `m` is unplayed and of the lowest rank among the unplayed rows before
/// position `n`.
pub open spec fn is_lowest_unplayed(q: Queue, n: int, m: int) -> bool {
    &&& 0 <= m < n
    &&& !q.rows[m].played
    &&& forall|i: int| 0 <= i < n && !(#[trigger] q.rows[i]).played ==> q.rows[m].rank <= q.rows[i].rank
}

/// Among the first `n` rows, if one is unplayed then one is unplayed and of
/// the lowest rank.
pub proof fn lemma_lowest_unplayed(q: Queue, n: int)
    requires
        0 <= n <= q.rows.len(),
    ensures
        (exists|i: int| 0 <= i < n && !(#[trigger] q.rows[i]).played) ==> exists|m: int| #[trigger]
            is_lowest_unplayed(q, n, m),
    decreases n,
{
    if n > 0 {
        let p = n - 1;
        lemma_lowest_unplayed(q, p);
        if exists|i: int| 0 <= i < n && !(#[trigger] q.rows[i]).played {
            if exists|i: int| 0 <= i < p && !(#[trigger] q.rows[i]).played {
                let m = choose|m: int| #[trigger] is_lowest_unplayed(q, p, m);
                if q.rows[n - 1].played || q.rows[m].rank <= q.rows[n - 1].rank {
                    assert(is_lowest_unplayed(q, n, m));
                } else {
                    assert(is_lowest_unplayed(q, n, n - 1));
                }
            } else {
                assert(!q.rows[n - 1].played);
                assert(is_lowest_unplayed(q, n, n - 1));
            }
        }
    }
}

/// How many of `songs` come from `mail`.
pub open spec fn songs_from(songs: Seq<BackendSongView>, mail: Seq<char>) -> nat {
    songs.filter(|s: BackendSongView| s.mail == mail).len()
}

/// Item `i` of `songs` becomes a row when the feed is merged into `q`: at its
/// turn no row carries its key and an id is left.
pub open spec fn becomes_row(q: Queue, songs: Seq<BackendSongView>, i: int) -> bool {
    let before = q.sync(songs.take(i));
    !before.has_key(songs[i].uuid) && !before.is_full()
}

/// Merging a feed leaves every row that was there as it was, played or not,
/// and only adds rows behind them.
pub proof fn lemma_sync_keeps_rows(q: Queue, songs: Seq<BackendSongView>)
    ensures
        q.rows.is_prefix_of(q.sync(songs).rows),
    decreases songs.len(),
{
    if songs.len() > 0 {
        lemma_sync_keeps_rows(q, songs.drop_last());
    }
}

/// Merging one feed after another is merging the two as one.
pub proof fn lemma_sync_concat(q: Queue, a: Seq<BackendSongView>, b: Seq<BackendSongView>)
    ensures
        q.sync(a + b) == q.sync(a).sync(b),
    decreases b.len(),
{
    if b.len() == 0 {
        assert(a + b =~= a);
    } else {
        lemma_sync_concat(q, a, b.drop_last());
        assert((a + b).drop_last() =~= a + b.drop_last());
        assert((a + b).last() == b.last());
    }
}

/// Merging the first `n` items and then the rest is merging them all.
pub proof fn lemma_sync_split(q: Queue, songs: Seq<BackendSongView>, n: int)
    requires
        0 <= n <= songs.len(),
    ensures
        q.sync(songs) == q.sync(songs.take(n)).sync(songs.skip(n)),
        q.sync(songs.take(n)).rows.is_prefix_of(q.sync(songs).rows),
{
    assert(songs.take(n) + songs.skip(n) =~= songs);
    lemma_sync_concat(q, songs.take(n), songs.skip(n));
    lemma_sync_keeps_rows(q.sync(songs.take(n)), songs.skip(n));
}

/// Merging one item more is merging the items before it and then that item.
pub proof fn lemma_sync_next(q: Queue, songs: Seq<BackendSongView>, n: int)
    requires
        0 <= n < songs.len(),
    ensures
        q.sync(songs.take(n + 1)) == q.sync(songs.take(n)).sync_one(songs[n]),
{
    assert(songs.take(n + 1).drop_last() =~= songs.take(n));
    assert(songs.take(n + 1).last() == songs[n]);
}

/// Where each of the first `n` items that come from `mail` becomes a row,
/// `mail` has after them the rows it had and one more for each of them.
pub proof fn lemma_sync_count(q: Queue, songs: Seq<BackendSongView>, mail: Seq<char>, n: int)
    requires
        0 <= n <= songs.len(),
        forall|i: int| 0 <= i < n && songs[i].mail == mail ==> #[trigger] becomes_row(q, songs, i),
    ensures
        q.sync(songs.take(n)).count_by_submitter(mail) == q.count_by_submitter(mail) + songs_from(
            songs.take(n),
            mail,
        ),
    decreases n,
{
    reveal(Seq::filter);
    if n == 0 {
        assert(songs.take(0) =~= Seq::<BackendSongView>::empty());
    } else {
        let p = n - 1;
        lemma_sync_count(q, songs, mail, p);
        lemma_sync_next(q, songs, p);
        let before = q.sync(songs.take(p));
        let song = songs[p];
        assert(songs.take(n) =~= songs.take(p).push(song));
        songs.take(p).lemma_filter_push(song, |s: BackendSongView| s.mail == mail);
        if song.mail == mail {
            assert(becomes_row(q, songs, p));
        }
        if !(before.has_key(song.uuid) || before.is_full()) {
            before.rows.lemma_filter_push(
                new_request(before.next_id, song, before.count_by_submitter(song.mail) + 1),
                |r: RequestView| r.submitter == mail,
            );
        }
    }
}

/// The rank of a merged item: where item `j` of a feed, and each item of the
/// same submitter before it, becomes a row, the row of item `j` has the rank
/// that follows the number of rows the submitter had before the feed and the
/// number of items the submitter has in the feed up to and with item `j`.
/// Put shortly: the k-th item of a submitter gets the rank `count before + k`.
pub proof fn lemma_sync_rank(q: Queue, songs: Seq<BackendSongView>, j: int)
    requires
        0 <= j < songs.len(),
        forall|i: int|
            0 <= i <= j && songs[i].mail == songs[j].mail ==> #[trigger] becomes_row(q, songs, i),
    ensures
        ({
            let at = q.sync(songs.take(j)).rows.len() as int;
            let row = q.sync(songs).rows[at];
            &&& at < q.sync(songs).rows.len()
            &&& row.external_key == songs[j].uuid
            &&& row.submitter == songs[j].mail
            &&& row.song_name == songs[j].song_name
            &&& row.artist_name == songs[j].artist_name
            &&& !row.played
            &&& row.rank == q.count_by_submitter(songs[j].mail) + songs_from(
                songs.take(j + 1),
                songs[j].mail,
            )
        }),
{
    let mail = songs[j].mail;
    let before = q.sync(songs.take(j));
    let with_j = q.sync(songs.take(j + 1));
    lemma_sync_count(q, songs, mail, j);
    lemma_sync_next(q, songs, j);
    assert(becomes_row(q, songs, j));
    reveal(Seq::filter);
    assert(songs.take(j + 1) =~= songs.take(j).push(songs[j]));
    songs.take(j).lemma_filter_push(songs[j], |s: BackendSongView| s.mail == mail);
    lemma_sync_split(q, songs, j + 1);
    let at = before.rows.len() as int;
    assert(with_j.rows[at] == q.sync(songs).rows[at]);
}

/// Merging the first `n` items hands out `n` ids at most, and the keys it
/// leaves in the queue are those that were there and those of the items.
pub proof fn lemma_sync_keys(q: Queue, songs: Seq<BackendSongView>, n: int)
    requires
        0 <= n <= songs.len(),
    ensures
        q.sync(songs.take(n)).next_id <= q.next_id + n,
        forall|key: Seq<char>| #[trigger]
            q.sync(songs.take(n)).has_key(key) ==> q.has_key(key) || exists|i: int|
                0 <= i < n && (#[trigger] songs[i]).uuid == key,
    decreases n,
{
    if n == 0 {
        assert(songs.take(0) =~= Seq::<BackendSongView>::empty());
    } else {
        let p = n - 1;
        lemma_sync_keys(q, songs, p);
        lemma_sync_next(q, songs, p);
        let before = q.sync(songs.take(p));
        let after = q.sync(songs.take(n));
        assert forall|key: Seq<char>| #[trigger] after.has_key(key) implies q.has_key(key)
            || exists|i: int| 0 <= i < n && (#[trigger] songs[i]).uuid == key by {
            let k = choose|k: int| 0 <= k < after.rows.len() && (#[trigger] after.rows[k]).external_key == key;
            if k < before.rows.len() {
                assert(before.rows[k].external_key == key);
                assert(before.has_key(key));
                if !q.has_key(key) {
                    let i = choose|i: int| 0 <= i < p && (#[trigger] songs[i]).uuid == key;
                    assert(0 <= i < n && songs[i].uuid == key);
                }
            } else {
                assert(songs[p].uuid == key);
            }
        }
    }
}

/// The rank of a merged item, for a feed of new songs: where no key of the
/// feed is in the queue or twice in the feed, and the queue has an id left
/// for each item, every item becomes a row, and the k-th item of a submitter
/// gets the rank `count before + k`.
pub proof fn lemma_sync_rank_of_new_songs(q: Queue, songs: Seq<BackendSongView>, j: int)
    requires
        0 <= j < songs.len(),
        q.next_id + songs.len() <= i64::MAX + 1,
        forall|i: int| 0 <= i < songs.len() ==> !q.has_key((#[trigger] songs[i]).uuid),
        forall|i: int, k: int|
            0 <= i < k < songs.len() ==> (#[trigger] songs[i]).uuid != (#[trigger] songs[k]).uuid,
    ensures
        ({
            let at = q.rows.len() + j;
            let row = q.sync(songs).rows[at];
            &&& q.sync(songs).rows.len() == q.rows.len() + songs.len()
            &&& row.external_key == songs[j].uuid
            &&& row.rank == q.count_by_submitter(songs[j].mail) + songs_from(
                songs.take(j + 1),
                songs[j].mail,
            )
        }),
{
    assert forall|i: int| 0 <= i < songs.len() implies #[trigger] becomes_row(q, songs, i) by {
        lemma_sync_keys(q, songs, i);
        let before = q.sync(songs.take(i));
        if before.has_key(songs[i].uuid) {
            assert(!q.has_key(songs[i].uuid));
            let k = choose|k: int| 0 <= k < i && (#[trigger] songs[k]).uuid == songs[i].uuid;
            assert(songs[k].uuid != songs[i].uuid);
        }
    }
    lemma_sync_rank(q, songs, j);
    lemma_sync_grows_by_rows(q, songs, j);
    lemma_sync_grows_by_rows(q, songs, songs.len() as int);
    assert(songs.take(songs.len() as int) =~= songs);
}

/// Where each of the first `n` items becomes a row, the queue has `n` rows
/// more after them.
pub proof fn lemma_sync_grows_by_rows(q: Queue, songs: Seq<BackendSongView>, n: int)
    requires
        0 <= n <= songs.len(),
        forall|i: int| 0 <= i < n ==> #[trigger] becomes_row(q, songs, i),
    ensures
        q.sync(songs.take(n)).rows.len() == q.rows.len() + n,
    decreases n,
{
    if n == 0 {
        assert(songs.take(0) =~= Seq::<BackendSongView>::empty());
    } else {
        let p = n - 1;
        lemma_sync_grows_by_rows(q, songs, p);
        lemma_sync_next(q, songs, p);
        assert(becomes_row(q, songs, p));
    }
}

/// A queue in which each of `songs` finds its key, or no id left, is not
/// changed by merging them.
pub proof fn lemma_sync_of_known_songs(q: Queue, songs: Seq<BackendSongView>)
    requires
        forall|i: int| 0 <= i < songs.len() ==> q.has_key((#[trigger] songs[i]).uuid) || q.is_full(),
    ensures
        q.sync(songs) == q,
    decreases songs.len(),
{
    if songs.len() > 0 {
        let rest = songs.drop_last();
        assert forall|i: int| 0 <= i < rest.len() implies q.has_key((#[trigger] rest[i]).uuid)
            || q.is_full() by {
            assert(rest[i] == songs[i]);
        }
        lemma_sync_of_known_songs(q, rest);
        assert(q.has_key(songs[songs.len() - 1].uuid) || q.is_full());
    }
}

/// After a feed was merged, each of its items finds its key in the queue, or
/// no id left.
pub proof fn lemma_sync_makes_songs_known(q: Queue, songs: Seq<BackendSongView>)
    ensures
        forall|i: int|
            0 <= i < songs.len() ==> q.sync(songs).has_key((#[trigger] songs[i]).uuid) || q.sync(
                songs,
            ).is_full(),
    decreases songs.len(),
{
    if songs.len() > 0 {
        let rest = songs.drop_last();
        let last = songs.last();
        let before = q.sync(rest);
        let after = q.sync(songs);
        lemma_sync_makes_songs_known(q, rest);
        assert forall|i: int| 0 <= i < songs.len() implies after.has_key((#[trigger] songs[i]).uuid)
            || after.is_full() by {
            if i < rest.len() {
                assert(rest[i] == songs[i]);
                if before.has_key(songs[i].uuid) {
                    let k = choose|k: int|
                        0 <= k < before.rows.len() && (#[trigger] before.rows[k]).external_key
                            == songs[i].uuid;
                    assert(after.rows[k].external_key == songs[i].uuid);
                }
            } else {
                if before.has_key(last.uuid) {
                } else if !before.is_full() {
                    assert(after.rows[before.rows.len() as int].external_key == last.uuid);
                }
            }
        }
    }
}

/// Merging a feed a second time changes nothing: the rows, their ranks and
/// the next id are those that the first merge left.
pub proof fn lemma_sync_twice(q: Queue, songs: Seq<BackendSongView>)
    ensures
        q.sync(songs).sync(songs) == q.sync(songs),
{
    lemma_sync_makes_songs_known(q, songs);
    lemma_sync_of_known_songs(q.sync(songs), songs);
}

/// Where merging a feed never meets a new item with no id left, merging its
/// first `n` items does not either.
pub proof fn lemma_sync_fits_prefix(q: Queue, songs: Seq<BackendSongView>, n: int)
    requires
        0 <= n <= songs.len(),
        q.sync_fits(songs),
    ensures
        q.sync_fits(songs.take(n)),
    decreases songs.len(),
{
    if n == songs.len() {
        assert(songs.take(n) =~= songs);
    } else {
        lemma_sync_fits_prefix(q, songs.drop_last(), n);
        assert(songs.drop_last().take(n) =~= songs.take(n));
    }
}

/// With no id left, merging a feed changes nothing.
pub proof fn lemma_sync_when_full(q: Queue, songs: Seq<BackendSongView>)
    requires
        q.is_full(),
    ensures
        q.sync(songs) == q,
{
    lemma_sync_of_known_songs(q, songs);
}

} // verus!
