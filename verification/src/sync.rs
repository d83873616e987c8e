//! Merging the backend feed into the store.

use crate::queue::{
    lemma_sync_evolves, lemma_sync_fits_prefix, lemma_sync_next, lemma_sync_split,
    lemma_sync_when_full,
};
use crate::request::{song_views, BackendSong, RequestView};
use crate::store::{lemma_rows_below_next_id, RequestStore, StoreError};
use vstd::prelude::*;

verus! {

/// Merges the songs of the feed into the store, in the order in which they
/// came. Each song is offered with the rank that follows the number of rows
/// its submitter has at that moment, rows of earlier songs of the same feed
/// included; a song whose key the store holds already is passed over.
///
/// Returns the number of rows added. Where a new song finds no id left, the
/// merge ends there and reports the store full; the songs before it stay
/// merged.
pub fn sync_backend(store: &mut RequestStore, songs: &Vec<BackendSong>) -> (r: Result<
    usize,
    StoreError,
>)
    requires
        old(store).wf(),
    ensures
        final(store).wf(),
        final(store)@ == old(store)@.sync(song_views(songs@)),
        old(store)@.evolves_to(final(store)@),
        r is Ok <==> old(store)@.sync_fits(song_views(songs@)),
        r matches Ok(added) ==> added == final(store)@.rows.len() - old(store)@.rows.len(),
        r matches Err(e) ==> e == StoreError::Full,
{
    let ghost start = store@;
    let ghost feed = song_views(songs@);
    let mut added: usize = 0;
    let mut i: usize = 0;
    proof {
        lemma_sync_evolves(start, feed);
        assert(feed.take(0) =~= Seq::empty());
    }
    while i < songs.len()
        invariant
            i <= songs.len(),
            start == old(store)@,
            start.wf(),
            start.evolves_to(start.sync(feed)),
            feed == song_views(songs@),
            store.wf(),
            store@ == start.sync(feed.take(i as int)),
            start.sync_fits(feed.take(i as int)),
            added <= i,
            added == store@.rows.len() - start.rows.len(),
        decreases songs.len() - i,
    {
        let song = &songs[i];
        let ghost before = store@;
        proof {
            lemma_rows_below_next_id(before);
            before.rows.lemma_filter_len(|r: RequestView| r.submitter == song.mail@);
            lemma_sync_next(start, feed, i as int);
            assert(feed.take(i + 1).drop_last() =~= feed.take(i as int));
            assert(feed[i as int] == song@);
        }
        let count = store.count_by_submitter(song.mail.as_str());
        let rank: u64 = count as u64 + 1;
        match store.insert_if_absent(song, rank) {
            Ok(Some(_)) => {
                added = added + 1;
            },
            Ok(None) => {},
            Err(e) => {
                proof {
                    lemma_sync_split(start, feed, i as int);
                    lemma_sync_when_full(before, feed.skip(i as int));
                    if start.sync_fits(feed) {
                        lemma_sync_fits_prefix(start, feed, i + 1);
                    }
                }
                return Err(e);
            },
        }
        i = i + 1;
    }
    assert(feed.take(i as int) =~= feed);
    Ok(added)
}

} // verus!
