//! The request store: the rows of the queue, kept in the order of their
//! insertion, with the operations that the player performs on them.

use crate::queue::{
    lemma_insert_if_absent_evolves, lemma_insert_if_absent_wf, lemma_mark_played_effect,
    lemma_mark_played_evolves, lemma_mark_played_wf, Queue,
};
use crate::request::{new_request, request_views, BackendSong, Request, RequestView};
use vstd::prelude::*;
use vstd::string::StringExecFns;

verus! {

/// Why the store turned an operation down.
#[derive(Clone, Copy, Debug, PartialEq, Eq, Structural)]
pub enum StoreError {
    /// No id is left for a new row.
    Full,
    /// No row has the id that was named.
    NotFound,
    /// Rows handed in have an id below 1, or ids that do not grow.
    InvalidId,
    /// Rows handed in share an external key.
    DuplicateKey,
}

/// The rows of the queue and the id that the next new row gets.
pub struct RequestStore {
    rows: Vec<Request>,
    next_id: u64,
}

impl View for RequestStore {
    type V = Queue;

    closed spec fn view(&self) -> Queue {
        Queue { rows: request_views(self.rows@), next_id: self.next_id as int }
    }
}

/// The ids of `rows` are positive and grow from each row to the next.
pub open spec fn ids_grow(rows: Seq<RequestView>) -> bool {
    &&& forall|i: int| 0 <= i < rows.len() ==> 1 <= (#[trigger] rows[i]).id
    &&& forall|i: int, j: int|
        0 <= i < j < rows.len() ==> (#[trigger] rows[i]).id < (#[trigger] rows[j]).id
}

/// No two of `rows` share an external key.
pub open spec fn keys_differ(rows: Seq<RequestView>) -> bool {
    forall|i: int, j: int|
        0 <= i < j < rows.len() ==> (#[trigger] rows[i]).external_key != (
        #[trigger] rows[j]).external_key
}

/// The id that follows the ids of `rows`: one more than the last, or 1.
pub open spec fn id_after(rows: Seq<RequestView>) -> int {
    if rows.len() == 0 {
        1
    } else {
        rows.last().id + 1
    }
}

/// A well-formed queue has fewer rows than `next_id` says: the row at
/// position `i` has an id of `i + 1` at least.
pub proof fn lemma_rows_below_next_id(q: Queue)
    requires
        q.wf(),
    ensures
        q.rows.len() < q.next_id,
        forall|i: int| 0 <= i < q.rows.len() ==> i < (#[trigger] q.rows[i]).id,
{
    assert forall|i: int| 0 <= i < q.rows.len() implies i < (#[trigger] q.rows[i]).id by {
        lemma_id_above_position(q, i);
    }
    if q.rows.len() > 0 {
        let last = q.rows.len() - 1;
        assert(last < q.rows[last].id);
        assert(q.rows[last].id < q.next_id);
    }
}

proof fn lemma_id_above_position(q: Queue, i: int)
    requires
        q.wf(),
        0 <= i < q.rows.len(),
    ensures
        i < q.rows[i].id,
    decreases i,
{
    if i == 0 {
        assert(1 <= q.rows[0].id);
    } else {
        lemma_id_above_position(q, i - 1);
        assert(q.rows[i - 1].id < q.rows[i].id);
    }
}

impl RequestStore {
    /// The store's invariant: that of the queue it holds.
    pub open spec fn wf(&self) -> bool {
        self@.wf()
    }

    /// A store without rows, whose first row will get the id 1.
    pub fn new() -> (s: RequestStore)
        ensures
            s@ == Queue::empty(),
            s.wf(),
    {
        let s = RequestStore { rows: Vec::new(), next_id: 1 };
        assert(s@.rows =~= Queue::empty().rows);
        s
    }

    /// A store of the rows that were kept elsewhere. The rows must come in the
    /// order of their ids, which must be positive, and no two may share an
    /// external key; the next id follows the last row's.
    pub fn from_rows(rows: Vec<Request>) -> (r: Result<RequestStore, StoreError>)
        ensures
            r is Ok <==> ids_grow(request_views(rows@)) && keys_differ(request_views(rows@)),
            r matches Ok(s) ==> s.wf() && s@.rows == request_views(rows@) && s@.next_id
                == id_after(request_views(rows@)),
            r matches Err(e) ==> (e == StoreError::InvalidId <==> !ids_grow(request_views(rows@)))
                && (e == StoreError::DuplicateKey <==> ids_grow(request_views(rows@))),
    {
        let ghost views = request_views(rows@);
        let n = rows.len();
        let mut i: usize = 0;
        while i < n
            invariant
                n == rows.len(),
                i <= n,
                views == request_views(rows@),
                forall|k: int| 0 <= k < i ==> 1 <= (#[trigger] views[k]).id,
                forall|k: int| 0 < k < i ==> views[k - 1].id < (#[trigger] views[k]).id,
            decreases n - i,
        {
            if rows[i].id < 1 {
                assert(views[i as int].id < 1);
                return Err(StoreError::InvalidId);
            }
            if i > 0 && rows[i - 1].id >= rows[i].id {
                assert(views[i - 1].id >= views[i as int].id);
                return Err(StoreError::InvalidId);
            }
            i = i + 1;
        }
        assert(ids_grow(views)) by {
            assert forall|a: int, b: int| 0 <= a < b < views.len() implies (#[trigger] views[a]).id
                < (#[trigger] views[b]).id by {
                lemma_steps_grow(views, a, b);
            }
        }
        let mut j: usize = 0;
        while j < n
            invariant
                n == rows.len(),
                j <= n,
                views == request_views(rows@),
                ids_grow(views),
                forall|a: int, b: int|
                    0 <= a < b < j ==> (#[trigger] views[a]).external_key != (
                    #[trigger] views[b]).external_key,
            decreases n - j,
        {
            let mut k: usize = 0;
            while k < j
                invariant
                    n == rows.len(),
                    k <= j < n,
                    views == request_views(rows@),
                    ids_grow(views),
                    forall|a: int|
                        0 <= a < k ==> (#[trigger] views[a]).external_key != views[j as int].external_key,
                decreases j - k,
            {
                if rows[k].external_key == rows[j].external_key {
                    assert(views[k as int].external_key == views[j as int].external_key);
                    return Err(StoreError::DuplicateKey);
                }
                k = k + 1;
            }
            j = j + 1;
        }
        let next_id: u64 = if n == 0 {
            1
        } else {
            assert(1 <= views[n - 1].id);
            rows[n - 1].id as u64 + 1
        };
        let s = RequestStore { rows, next_id };
        assert(s@.rows == views);
        assert(s@.wf()) by {
            assert forall|a: int| 0 <= a < views.len() implies 1 <= (#[trigger] views[a]).id
                < s@.next_id by {
                if a < n - 1 {
                    assert(views[a].id < views[n - 1].id);
                }
            }
        }
        Ok(s)
    }

    /// The number of rows.
    pub fn len(&self) -> (n: usize)
        ensures
            n == self@.rows.len(),
    {
        self.rows.len()
    }

    /// Whether the store has no row.
    pub fn is_empty(&self) -> (b: bool)
        ensures
            b == (self@.rows.len() == 0),
    {
        self.rows.len() == 0
    }

    /// The rows, in the order of their insertion.
    pub fn rows(&self) -> (rows: &Vec<Request>)
        ensures
            request_views(rows@) == self@.rows,
    {
        &self.rows
    }

    /// Whether no id is left for a new row.
    pub fn is_full(&self) -> (b: bool)
        ensures
            b == self@.is_full(),
    {
        self.next_id > i64::MAX as u64
    }

    /// Whether some row carries the external key `key`.
    pub fn contains_key(&self, key: &str) -> (b: bool)
        ensures
            b == self@.has_key(key@),
    {
        let wanted = String::from_str(key);
        let mut i: usize = 0;
        while i < self.rows.len()
            invariant
                i <= self.rows.len(),
                wanted@ == key@,
                forall|k: int| 0 <= k < i ==> (#[trigger] self@.rows[k]).external_key != key@,
            decreases self.rows.len() - i,
        {
            if self.rows[i].external_key == wanted {
                assert(self@.rows[i as int].external_key == key@);
                return true;
            }
            i = i + 1;
        }
        false
    }

    /// The number of rows, played or not, that `submitter` has.
    pub fn count_by_submitter(&self, submitter: &str) -> (n: usize)
        ensures
            n == self@.count_by_submitter(submitter@),
    {
        let wanted = String::from_str(submitter);
        let ghost pred = |r: RequestView| r.submitter == submitter@;
        let mut n: usize = 0;
        let mut i: usize = 0;
        assert(self@.rows.take(0).filter(pred).len() == 0) by {
            reveal(Seq::filter);
        }
        while i < self.rows.len()
            invariant
                i <= self.rows.len(),
                wanted@ == submitter@,
                pred == |r: RequestView| r.submitter == submitter@,
                n == self@.rows.take(i as int).filter(pred).len(),
                n <= i,
            decreases self.rows.len() - i,
        {
            proof {
                assert(self@.rows.take(i + 1) =~= self@.rows.take(i as int).push(self@.rows[i as int]));
                self@.rows.take(i as int).lemma_filter_push(self@.rows[i as int], pred);
            }
            if self.rows[i].submitter == wanted {
                n = n + 1;
            }
            i = i + 1;
        }
        assert(self@.rows.take(i as int) =~= self@.rows);
        n
    }

    /// Offers a song to the store with the rank it is to get. Where no row
    /// carries the song's key and an id is left, the song becomes the last
    /// row, unplayed, under the next id, which is returned. Where a row
    /// carries the key already, nothing changes and nothing is returned.
    /// Where no id is left for a new song, nothing changes either and the
    /// store reports that it is full.
    pub fn insert_if_absent(&mut self, song: &BackendSong, rank: u64) -> (r: Result<
        Option<i64>,
        StoreError,
    >)
        requires
            old(self).wf(),
        ensures
            final(self).wf(),
            final(self)@ == old(self)@.insert_if_absent(song@, rank as nat),
            old(self)@.evolves_to(final(self)@),
            old(self)@.has_key(song.uuid@) <==> r == Ok::<Option<i64>, StoreError>(None),
            !old(self)@.has_key(song.uuid@) && old(self)@.is_full() <==> r == Err::<
                Option<i64>,
                StoreError,
            >(StoreError::Full),
            !old(self)@.has_key(song.uuid@) && !old(self)@.is_full() <==> r == Ok::<
                Option<i64>,
                StoreError,
            >(Some(old(self)@.next_id as i64)),
    {
        proof {
            lemma_insert_if_absent_wf(self@, song@, rank as nat);
            lemma_insert_if_absent_evolves(self@, song@, rank as nat);
        }
        if self.contains_key(song.uuid.as_str()) {
            return Ok(None);
        }
        if self.next_id > i64::MAX as u64 {
            return Err(StoreError::Full);
        }
        let id: i64 = self.next_id as i64;
        let row = Request {
            id,
            submitter: song.mail.clone(),
            song_name: song.song_name.clone(),
            artist_name: song.artist_name.clone(),
            external_key: song.uuid.clone(),
            played: false,
            rank,
        };
        assert(row@ == new_request(self@.next_id, song@, rank as nat));
        self.rows.push(row);
        self.next_id = self.next_id + 1;
        assert(self@.rows =~= old(self)@.rows.push(new_request(old(self)@.next_id, song@, rank as nat)));
        Ok(Some(id))
    }

    /// Marks the request `id` as played. A request that was played already
    /// stays so. Where no row has that id, nothing changes and the store
    /// reports that it found none.
    pub fn mark_played(&mut self, id: i64) -> (r: Result<(), StoreError>)
        requires
            old(self).wf(),
        ensures
            final(self).wf(),
            final(self)@ == old(self)@.mark_played(id as int),
            old(self)@.evolves_to(final(self)@),
            r is Ok <==> old(self)@.has_id(id as int),
            r is Err ==> r == Err::<(), StoreError>(StoreError::NotFound) && final(self)@ == old(
                self,
            )@,
    {
        proof {
            lemma_mark_played_wf(self@, id as int);
            lemma_mark_played_effect(self@, id as int);
            lemma_mark_played_evolves(self@, id as int);
        }
        let mut i: usize = 0;
        while i < self.rows.len()
            invariant
                i <= self.rows.len(),
                *self == *old(self),
                self.wf(),
                forall|k: int| 0 <= k < i ==> (#[trigger] self@.rows[k]).id != id,
            decreases self.rows.len() - i,
        {
            if self.rows[i].id == id {
                let mut row = self.rows[i].clone();
                row.played = true;
                self.rows.set(i, row);
                proof {
                    let ghost before = old(self)@;
                    let ghost after = before.mark_played(id as int);
                    assert(before.rows[i as int].id == id);
                    assert forall|k: int| 0 <= k < before.rows.len() implies (
                    #[trigger] self@.rows[k]) == after.rows[k] by {
                        if k != i {
                            if k < i {
                                assert(before.rows[k].id < before.rows[i as int].id);
                            } else {
                                assert(before.rows[i as int].id < before.rows[k].id);
                            }
                        }
                    }
                    assert(self@.rows =~= after.rows);
                    assert(before.has_id(id as int));
                }
                return Ok(());
            }
            i = i + 1;
        }
        Err(StoreError::NotFound)
    }

    /// The rows that may play next: every unplayed row whose rank is the
    /// lowest among the unplayed rows, in the order of the store. There is
    /// none exactly when every row is played.
    pub fn candidates_for_next(&self) -> (out: Vec<Request>)
        ensures
            request_views(out@) == self@.candidates(),
    {
        let ghost q = self@;
        let ghost pred = |r: RequestView| q.eligible(r);
        let n = self.rows.len();
        let mut lowest: Option<u64> = None;
        let mut i: usize = 0;
        while i < n
            invariant
                n == self.rows.len(),
                i <= n,
                q == self@,
                lowest is None ==> forall|k: int| 0 <= k < i ==> (#[trigger] q.rows[k]).played,
                lowest matches Some(m) ==> (exists|k: int|
                    0 <= k < i && !(#[trigger] q.rows[k]).played && q.rows[k].rank == m) && (forall|
                    k: int,
                | 0 <= k < i && !(#[trigger] q.rows[k]).played ==> m <= q.rows[k].rank),
            decreases n - i,
        {
            if !self.rows[i].played {
                let rank = self.rows[i].rank;
                assert(!q.rows[i as int].played && q.rows[i as int].rank == rank);
                match lowest {
                    Some(m) => {
                        if rank < m {
                            lowest = Some(rank);
                        }
                    },
                    None => {
                        lowest = Some(rank);
                    },
                }
            }
            i = i + 1;
        }
        let mut out: Vec<Request> = Vec::new();
        assert(request_views(out@) =~= q.rows.take(0).filter(pred)) by {
            reveal(Seq::filter);
        }
        let mut j: usize = 0;
        while j < n
            invariant
                n == self.rows.len(),
                j <= n,
                q == self@,
                pred == |r: RequestView| q.eligible(r),
                lowest is None ==> forall|k: int| 0 <= k < n ==> (#[trigger] q.rows[k]).played,
                lowest matches Some(m) ==> forall|k: int|
                    0 <= k < n && !(#[trigger] q.rows[k]).played ==> m <= q.rows[k].rank,
                lowest matches Some(m) ==> exists|k: int|
                    0 <= k < n && !(#[trigger] q.rows[k]).played && q.rows[k].rank == m,
                request_views(out@) == q.rows.take(j as int).filter(pred),
            decreases n - j,
        {
            let keep = match lowest {
                Some(m) => !self.rows[j].played && self.rows[j].rank == m,
                None => false,
            };
            proof {
                let row = q.rows[j as int];
                assert(q.rows.take(j + 1) =~= q.rows.take(j as int).push(row));
                q.rows.take(j as int).lemma_filter_push(row, pred);
                if lowest is None {
                    assert(row.played);
                } else {
                    let m = lowest->0;
                    if !row.played && row.rank != m {
                        let k = choose|k: int|
                            0 <= k < n && !(#[trigger] q.rows[k]).played && q.rows[k].rank == m;
                        assert(!q.eligible(row));
                    }
                }
                assert(keep == q.eligible(row));
            }
            if keep {
                let ghost kept = out@;
                let copy = self.rows[j].clone();
                out.push(copy);
                assert(request_views(out@) =~= request_views(kept).push(q.rows[j as int]));
            }
            j = j + 1;
        }
        assert(q.rows.take(n as int) =~= q.rows);
        out
    }
}

/// Ids that grow from each row to the next grow from any row to any later one.
proof fn lemma_steps_grow(views: Seq<RequestView>, a: int, b: int)
    requires
        0 <= a < b < views.len(),
        forall|k: int| 0 < k < views.len() ==> views[k - 1].id < (#[trigger] views[k]).id,
    ensures
        views[a].id < views[b].id,
    decreases b - a,
{
    if a + 1 < b {
        lemma_steps_grow(views, a, b - 1);
    }
}

} // verus!
