//! The now-playing bookkeeping: a bounded queue of recently seen songs.
//! The player itself is asked over the network by the binary; what comes
//! back is remembered here.

use vstd::prelude::*;

verus! {

/// What a bounded append leaves in the queue: the item at the back, and
/// only the newest `max - 1` older items kept before it.
pub open spec fn bounded_push<T>(q: Seq<T>, max: int, item: T) -> Seq<T> {
    if q.len() < max {
        q.push(item)
    } else {
        q.skip(q.len() - (max - 1)).push(item)
    }
}

/// A queue keeping at most `max` items, the oldest leaving first.
pub struct Queue<T> {
    pub max: usize,
    pub queue: Vec<T>,
}

impl<T> Queue<T> {
    /// An empty queue that will keep at most `max` items.
    pub fn with_size(max: usize) -> (r: Queue<T>)
        requires
            max > 0,
        ensures
            r.max == max,
            r.queue@.len() == 0,
    {
        Queue { max, queue: Vec::new() }
    }

    /// Appends an item, dropping the oldest until the bound is kept.
    pub fn push(&mut self, item: T)
        requires
            old(self).max > 0,
        ensures
            final(self).max == old(self).max,
            final(self).queue@ == bounded_push(
                old(self).queue@,
                old(self).max as int,
                item,
            ),
            final(self).queue@.len() <= old(self).max,
    {
        let ghost orig = self.queue@;
        proof {
            assert(orig.skip(0) =~= orig);
        }
        while self.queue.len() >= self.max
            invariant
                self.max == old(self).max,
                self.max > 0,
                self.queue@.len() <= orig.len(),
                self.queue@ == orig.skip(orig.len() - self.queue@.len()),
                orig.len() < self.max ==> self.queue@ == orig,
                orig.len() >= self.max ==> self.queue@.len() >= self.max - 1,
            decreases self.queue@.len(),
        {
            let ghost before = self.queue@;
            self.queue.remove(0);
            proof {
                assert(self.queue@ =~= before.drop_first());
                assert(orig.skip(orig.len() - before.len()).drop_first() =~= orig.skip(
                    orig.len() - (before.len() - 1),
                ));
            }
        }
        self.queue.push(item);
        proof {
            if orig.len() < self.max {
                assert(orig.skip(orig.len() - orig.len()) == orig.skip(0));
            }
        }
    }

    /// The song before the current one; with a single item, that item.
    pub fn previous(&self) -> (r: Option<&T>)
        ensures
            match r {
                Some(v) => self.queue@.len() >= 1 && *v == (if self.queue@.len() >= 2 {
                    self.queue@[self.queue@.len() - 2]
                } else {
                    self.queue@[0]
                }),
                None => self.queue@.len() == 0,
            },
    {
        if self.queue.len() >= 2 {
            Some(&self.queue[self.queue.len() - 2])
        } else {
            self.last()
        }
    }

    /// The most recently seen item.
    pub fn last(&self) -> (r: Option<&T>)
        ensures
            match r {
                Some(v) => self.queue@.len() >= 1 && *v == self.queue@.last(),
                None => self.queue@.len() == 0,
            },
    {
        if self.queue.len() == 0 {
            None
        } else {
            Some(&self.queue[self.queue.len() - 1])
        }
    }
}

/// One song as the bot remembers it: the player's track id and the
/// displayable artist, title and link.
pub struct Song {
    pub id: Vec<u8>,
    pub artist: Vec<u8>,
    pub title: Vec<u8>,
    pub link: Vec<u8>,
}

/// Remembers a freshly observed song: appended only when its track id
/// differs from the last one seen, as the player watcher decides each
/// poll.
pub fn note_song(seen: &mut Queue<Song>, song: Song)
    requires
        old(seen).max > 0,
    ensures
        final(seen).max == old(seen).max,
        old(seen).queue@.len() > 0 && old(seen).queue@.last().id@ == song.id@
            ==> final(seen).queue@ == old(seen).queue@,
        !(old(seen).queue@.len() > 0 && old(seen).queue@.last().id@ == song.id@)
            ==> final(seen).queue@ == bounded_push(
                old(seen).queue@,
                old(seen).max as int,
                song,
            ),
{
    let same = match seen.last() {
        Some(last) => crate::text::bytes_eq(last.id.as_slice(), song.id.as_slice()),
        None => false,
    };
    if !same {
        seen.push(song);
    }
}

} // verus!
