//! The play queue behind the audio output. One consumer pulls tracks in the
//! order they were appended; `stop` empties the queue and raises a flag that
//! the playing track polls, and the next `append` lowers it again.

use vstd::prelude::*;
use std::collections::VecDeque;
use crate::task::NowPlaying;

verus! {

/// Length of the silence played while the queue is empty, in milliseconds.
pub const SILENCE_MILLIS: u64 = 500;

/// Sample rate of the silence filler.
pub const SILENCE_RATE: u32 = 44100;

/// Channel count of the silence filler.
pub const SILENCE_CHANNELS: u16 = 1;

/// How often a playing track polls the stop flag, in milliseconds.
pub const STOP_POLL_MILLIS: u64 = 420;

/// Frame length reported when the track gives no hint.
pub const DEFAULT_FRAME_LEN: usize = 512;

/// The queue's contents and the stop flag.
pub ghost struct SinkView<T> {
    pub queue: Seq<T>,
    pub stopped: bool,
}

pub open spec fn append_view<T>(v: SinkView<T>, t: T) -> SinkView<T> {
    SinkView { queue: v.queue.push(t), stopped: false }
}

pub open spec fn stop_view<T>(v: SinkView<T>) -> SinkView<T> {
    SinkView { queue: Seq::empty(), stopped: true }
}

/// The track that the consumer takes next, if any.
pub open spec fn popped<T>(v: SinkView<T>) -> Option<T> {
    if v.queue.len() == 0 {
        None
    } else {
        Some(v.queue[0])
    }
}

pub open spec fn pop_view<T>(v: SinkView<T>) -> SinkView<T> {
    if v.queue.len() == 0 {
        v
    } else {
        SinkView { queue: v.queue.drop_first(), stopped: v.stopped }
    }
}

/// The track that the consumer takes at its `n`-th pull from now, with no
/// `stop` in between.
pub open spec fn popped_at<T>(v: SinkView<T>, n: nat) -> Option<T>
    decreases n,
{
    if n == 0 {
        popped(v)
    } else {
        popped_at(pop_view(v), (n - 1) as nat)
    }
}

/// The shared state of the sink: queued tracks and the stop flag.
pub struct SinkState<T> {
    queue: VecDeque<T>,
    stopped: bool,
}

impl<T> View for SinkState<T> {
    type V = SinkView<T>;

    closed spec fn view(&self) -> SinkView<T> {
        SinkView { queue: self.queue@, stopped: self.stopped }
    }
}

impl<T> SinkState<T> {
    pub fn new() -> (r: SinkState<T>)
        ensures
            r@.queue.len() == 0,
            !r@.stopped,
    {
        SinkState { queue: VecDeque::new(), stopped: false }
    }

    /// Queues a track at the back and resumes playback.
    pub fn append(&mut self, t: T)
        ensures
            final(self)@ == append_view(old(self)@, t),
    {
        self.stopped = false;
        self.queue.push_back(t);
    }

    /// Drops every queued track and asks the playing one to end.
    pub fn stop(&mut self)
        ensures
            final(self)@ == stop_view(old(self)@),
    {
        self.queue.clear();
        self.stopped = true;
        assert(self@.queue =~= Seq::<T>::empty());
    }

    /// Takes the next track; `None` where the queue is empty, and the consumer
    /// then plays silence.
    pub fn next_track(&mut self) -> (r: Option<T>)
        ensures
            r == popped(old(self)@),
            final(self)@ == pop_view(old(self)@),
    {
        let r = self.queue.pop_front();
        proof {
            if old(self)@.queue.len() > 0 {
                assert(self@.queue =~= old(self)@.queue.drop_first());
            }
        }
        r
    }

    /// Whether the playing track has been asked to end.
    pub fn is_stopped(&self) -> (r: bool)
        ensures
            r == self@.stopped,
    {
        self.stopped
    }

    pub fn queue_len(&self) -> (r: usize)
        ensures
            r == self@.queue.len(),
    {
        self.queue.len()
    }
}

/// The frame length that the output reports: the track's own where it gives
/// a non-zero one, else the lower bound of its remaining samples where that is
/// non-zero, else a default. It is never zero.
pub fn frame_len(track_frame: Option<usize>, remaining_lower: usize) -> (r: usize)
    ensures
        r > 0,
        r == match track_frame {
            Some(n) if n > 0 => n,
            _ => if remaining_lower > 0 {
                remaining_lower
            } else {
                DEFAULT_FRAME_LEN
            },
        },
{
    match track_frame {
        Some(n) if n > 0 => n,
        _ => if remaining_lower > 0 {
            remaining_lower
        } else {
            DEFAULT_FRAME_LEN
        },
    }
}

/// What is published when a new track starts: `None` where nothing changes
/// (silence follows silence), `Some(None)` where silence follows a named
/// track, and the new track's name where it has one.
pub fn now_playing_change(prev: &Option<NowPlaying>, next_name: &Option<String>) -> (r: Option<
    Option<NowPlaying>,
>)
    ensures
        match (prev, next_name) {
            (None, None) => r is None,
            (Some(_), None) => r == Some(Option::<NowPlaying>::None),
            (_, Some(n)) => r matches Some(Some(np)) && np.name@ == n@,
        },
{
    match next_name {
        Some(n) => Some(Some(NowPlaying { name: n.clone() })),
        None => match prev {
            Some(_) => Some(None),
            None => None,
        },
    }
}

/// Every track appended is taken by the consumer after those queued before
/// it, whatever is appended later, as long as no `stop` comes first.
pub proof fn lemma_appended_track_plays<T>(v: SinkView<T>, t: T, later: Seq<T>)
    ensures
        popped_at(
            SinkView { queue: append_view(v, t).queue + later, stopped: false },
            v.queue.len(),
        ) == Some(t),
    decreases v.queue.len(),
{
    let w = SinkView { queue: append_view(v, t).queue + later, stopped: false };
    if v.queue.len() > 0 {
        let v2 = SinkView { queue: v.queue.drop_first(), stopped: v.stopped };
        lemma_appended_track_plays(v2, t, later);
        assert(pop_view(w).queue =~= append_view(v2, t).queue + later);
    }
}

/// After `stop`, an `append` resumes playback, and the appended track is
/// the next one taken.
pub proof fn lemma_stop_then_append<T>(v: SinkView<T>, t: T)
    ensures
        !append_view(stop_view(v), t).stopped,
        popped(append_view(stop_view(v), t)) == Some(t),
{
}

} // verus!
