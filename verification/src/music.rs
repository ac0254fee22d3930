use vstd::prelude::*;
use std::collections::VecDeque;

verus! {

broadcast use vstd::std_specs::vecdeque::group_vec_dequeue_axioms;

/// What the audio side is to do after a change of song: the song to stop,
/// if one was playing, and the song to start, if the queue held one.
/// Songs are named by their index among the loaded sources.
#[derive(Clone, Copy, Debug, PartialEq, Eq, Structural)]
pub struct MusicAction {
    pub stop: Option<usize>,
    pub start: Option<usize>,
}

/// The playlist logic of the music player: the song that plays, the queue
/// of songs that wait, and the wave for which the current song was chosen.
/// A stopped song goes back to the end of the queue, so no song is lost.
pub struct MusicPlayer {
    current_song: Option<usize>,
    playlist: VecDeque<usize>,
    wave: u32,
}

/// All songs of a player in the order in which they will play: the queue,
/// then the song that plays now.
pub open spec fn all_songs(current: Option<usize>, queue: Seq<usize>) -> Seq<usize> {
    match current {
        Some(c) => queue.push(c),
        None => queue,
    }
}

impl MusicPlayer {
    pub closed spec fn current(&self) -> Option<usize> {
        self.current_song
    }

    pub closed spec fn queue(&self) -> Seq<usize> {
        self.playlist@
    }

    pub closed spec fn wave_spec(&self) -> u32 {
        self.wave
    }

    /// Every song the player knows, in the order in which they will play.
    pub open spec fn songs(&self) -> Seq<usize> {
        all_songs(self.current(), self.queue())
    }

    /// A player with the given queue, playing nothing yet, at wave 0.
    pub fn new(playlist: VecDeque<usize>) -> (r: Self)
        ensures
            r.current() is None,
            r.queue() == playlist@,
            r.wave_spec() == 0,
    {
        MusicPlayer { current_song: None, playlist, wave: 0 }
    }

    /// The song that plays now, if any.
    pub fn current_song(&self) -> (r: Option<usize>)
        ensures
            r == self.current(),
    {
        self.current_song
    }

    /// The songs that wait, in order.
    pub fn playlist(&self) -> (r: Vec<usize>)
        ensures
            r@ == self.queue(),
    {
        let mut out: Vec<usize> = Vec::new();
        let n = self.playlist.len();
        let mut i: usize = 0;
        while i < n
            invariant
                n == self.playlist@.len(),
                i <= n,
                out@ == self.playlist@.subrange(0, i as int),
            decreases n - i,
        {
            out.push(self.playlist[i]);
            i = i + 1;
        }
        assert(out@ == self.playlist@.subrange(0, n as int));
        out
    }

    /// The wave for which the current song was chosen.
    pub fn wave(&self) -> (r: u32)
        ensures
            r == self.wave_spec(),
    {
        self.wave
    }

    /// Stops the song that plays, if one does, and puts it back at the end of
    /// the queue. Returns the song to stop.
    pub fn stop(&mut self) -> (r: Option<usize>)
        ensures
            r == old(self).current(),
            final(self).current() is None,
            final(self).queue() == old(self).songs(),
            final(self).songs() == old(self).songs(),
            final(self).wave_spec() == old(self).wave_spec(),
    {
        match self.current_song.take() {
            Some(song) => {
                self.playlist.push_back(song);
                Some(song)
            },
            None => None,
        }
    }

    /// Stops the song that plays and starts the first of the queue. The songs
    /// rotate: the first of the queue (the stopped song counted at its end)
    /// now plays, and the rest wait in the same order.
    pub fn next_song(&mut self) -> (r: MusicAction)
        ensures
            r.stop == old(self).current(),
            old(self).songs().len() == 0 ==> r.start is None && final(self).current() is None
                && final(self).queue().len() == 0,
            old(self).songs().len() > 0 ==> r.start == Some(old(self).songs()[0])
                && final(self).current() == r.start
                && final(self).queue() == old(self).songs().drop_first(),
            final(self).songs().to_multiset() == old(self).songs().to_multiset(),
            final(self).wave_spec() == old(self).wave_spec(),
    {
        let stopped = self.stop();
        let started = self.playlist.pop_front();
        self.current_song = started;
        proof {
            if old(self).songs().len() > 0 {
                lemma_rotation_keeps_songs(old(self).songs());
            }
        }
        MusicAction { stop: stopped, start: started }
    }

    /// Called each frame with the current wave: while a song plays, a new wave
    /// changes the song. Returns what to stop and start, if anything changed.
    pub fn check_song(&mut self, wave: u32) -> (r: Option<MusicAction>)
        ensures
            (old(self).current() is Some && old(self).wave_spec() != wave) ==> {
                &&& r is Some
                &&& r->0.stop == old(self).current()
                &&& r->0.start == Some(old(self).songs()[0])
                &&& final(self).current() == r->0.start
                &&& final(self).queue() == old(self).songs().drop_first()
                &&& final(self).songs().to_multiset() == old(self).songs().to_multiset()
                &&& final(self).wave_spec() == wave
            },
            !(old(self).current() is Some && old(self).wave_spec() != wave) ==> {
                &&& r is None
                &&& final(self).current() == old(self).current()
                &&& final(self).queue() == old(self).queue()
                &&& final(self).wave_spec() == old(self).wave_spec()
            },
    {
        if self.current_song.is_some() && self.wave != wave {
            self.wave = wave;
            Some(self.next_song())
        } else {
            None
        }
    }
}

/// Moving the first song of a non-empty list to its end keeps the songs.
proof fn lemma_rotation_keeps_songs(before: Seq<usize>)
    requires
        before.len() > 0,
    ensures
        (before.drop_first().push(before[0])).to_multiset() == before.to_multiset(),
{
    broadcast use vstd::seq_lib::lemma_multiset_commutative;
    let first = before[0];
    assert(before =~= seq![first] + before.drop_first());
    assert(before.drop_first().push(first) =~= before.drop_first() + seq![first]);
    vstd::seq_lib::lemma_seq_union_to_multiset_commutative(seq![first], before.drop_first());
}

} // verus!
