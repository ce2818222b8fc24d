//! Transport state of a loaded track and the lookup of its pre-computed
//! feature frames.

use vstd::prelude::*;

verus! {

/// Where playback of the loaded file stands. Positions are in samples of the
/// file's mono PCM; `finished` is set when playback ran off the end.
pub struct PlaybackState {
    pub position_samples: u64,
    pub playing: bool,
    pub finished: bool,
}

impl Default for PlaybackState {
    fn default() -> (r: Self)
        ensures
            r.position_samples == 0,
            !r.playing,
            !r.finished,
    {
        PlaybackState { position_samples: 0, playing: false, finished: false }
    }
}

impl PlaybackState {
    /// Pressing play: a finished track restarts from the beginning.
    pub open spec fn spec_play(self) -> PlaybackState {
        if self.finished {
            PlaybackState { position_samples: 0, playing: true, finished: false }
        } else {
            PlaybackState { playing: true, ..self }
        }
    }

    pub open spec fn spec_pause(self) -> PlaybackState {
        PlaybackState { playing: false, ..self }
    }

    /// Seeking to a sample, clamped to the track length `len`.
    pub open spec fn spec_seek(self, target: u64, len: u64) -> PlaybackState {
        PlaybackState {
            position_samples: if target < len { target } else { len },
            finished: false,
            ..self
        }
    }

    /// Moving the play head to `new_pos` after an output callback: running
    /// past the end parks the head at `len` and stops playback.
    pub open spec fn spec_advance(self, new_pos: u64, len: u64) -> PlaybackState {
        if new_pos >= len {
            PlaybackState { position_samples: len, playing: false, finished: true }
        } else {
            PlaybackState { position_samples: new_pos, ..self }
        }
    }

    /// Whether the output callback produces sound.
    pub open spec fn spec_audible(self) -> bool {
        self.playing && !self.finished
    }

    pub fn play(&mut self)
        ensures
            *final(self) == old(self).spec_play(),
            final(self).playing,
            !final(self).finished,
            old(self).finished ==> final(self).position_samples == 0,
            !old(self).finished ==> final(self).position_samples == old(self).position_samples,
    {
        if self.finished {
            self.position_samples = 0;
            self.finished = false;
        }
        self.playing = true;
    }

    pub fn pause(&mut self)
        ensures
            *final(self) == old(self).spec_pause(),
            !final(self).playing,
            final(self).finished == old(self).finished,
            final(self).position_samples == old(self).position_samples,
    {
        self.playing = false;
    }

    /// Seek to sample `target` of a track of `len` samples.
    pub fn seek(&mut self, target: u64, len: u64)
        ensures
            *final(self) == old(self).spec_seek(target, len),
            final(self).position_samples <= len,
            final(self).position_samples == (if target < len { target } else { len }),
            final(self).playing == old(self).playing,
            !final(self).finished,
    {
        self.position_samples = if target < len { target } else { len };
        self.finished = false;
    }

    /// Move the play head to `new_pos` in a track of `len` samples.
    pub fn advance(&mut self, new_pos: u64, len: u64)
        ensures
            *final(self) == old(self).spec_advance(new_pos, len),
            final(self).position_samples <= len,
            final(self).finished <==> (new_pos >= len || old(self).finished),
            new_pos >= len ==> final(self).position_samples == len && !final(self).playing,
            new_pos < len ==> final(self).position_samples == new_pos && final(self).playing
                == old(self).playing && final(self).finished == old(self).finished,
    {
        if new_pos >= len {
            self.position_samples = len;
            self.finished = true;
            self.playing = false;
        } else {
            self.position_samples = new_pos;
        }
    }

    pub fn is_audible(&self) -> (r: bool)
        ensures
            r == self.spec_audible(),
    {
        self.playing && !self.finished
    }
}

/// Pressing play after the track ran off its end starts it again from the
/// first sample.
pub proof fn lemma_play_after_end_restarts(s: PlaybackState, new_pos: u64, len: u64)
    requires
        new_pos >= len,
    ensures
        s.spec_advance(new_pos, len).spec_play() == (PlaybackState {
            position_samples: 0,
            playing: true,
            finished: false,
        }),
{
}

/// The play head never leaves the track: from a position within `len`,
/// every transport operation keeps it within `len`.
pub proof fn lemma_position_stays_in_track(s: PlaybackState, target: u64, new_pos: u64, len: u64)
    requires
        s.position_samples <= len,
    ensures
        s.spec_play().position_samples <= len,
        s.spec_pause().position_samples <= len,
        s.spec_seek(target, len).position_samples <= len,
        s.spec_advance(new_pos, len).position_samples <= len,
{
}

/// Pausing only stops the output: the play head and the finished flag
/// stay, so pausing and playing again mid-track resumes where it stopped.
pub proof fn lemma_pause_then_play_resumes(s: PlaybackState)
    ensures
        !s.spec_pause().playing,
        s.spec_pause().position_samples == s.position_samples,
        s.spec_pause().finished == s.finished,
        !s.finished ==> s.spec_pause().spec_play() == (PlaybackState { playing: true, ..s }),
        !s.finished ==> s.spec_pause().spec_play().position_samples == s.position_samples,
{
}

/// Seeking moves only the play head, to the target clamped to the track,
/// and clears the finished flag; whether the track is playing is kept, so
/// seeking during playback keeps playing from the new position.
pub proof fn lemma_seek_keeps_playing(s: PlaybackState, target: u64, len: u64)
    ensures
        s.spec_seek(target, len).playing == s.playing,
        !s.spec_seek(target, len).finished,
        target <= len ==> s.spec_seek(target, len).position_samples == target,
        target > len ==> s.spec_seek(target, len).position_samples == len,
        s.playing ==> s.spec_seek(target, len).spec_audible(),
{
}

/// Pressing play never moves the head of an unfinished track, and always
/// leaves the track audible.
pub proof fn lemma_play_resumes_in_place(s: PlaybackState)
    ensures
        !s.finished ==> s.spec_play().position_samples == s.position_samples,
        s.spec_play().spec_audible(),
{
}

/// Moving the head inside the track changes only the position; reaching or
/// passing the end parks the head exactly at the end, stopped and finished.
pub proof fn lemma_advance_parks_at_end(s: PlaybackState, new_pos: u64, len: u64)
    ensures
        new_pos < len ==> s.spec_advance(new_pos, len) == (PlaybackState {
            position_samples: new_pos,
            ..s
        }),
        new_pos >= len ==> s.spec_advance(new_pos, len).position_samples == len,
        new_pos >= len ==> !s.spec_advance(new_pos, len).playing,
        new_pos >= len ==> s.spec_advance(new_pos, len).finished,
        s.spec_audible() <==> (s.playing && !s.finished),
{
}

/// An index inside the sequence is kept; one past its end becomes the last
/// index; the lookup for a sample is the frame `sample / hop` it falls in,
/// or the last frame for samples past the analysed audio.
pub proof fn lemma_clamp_index_keeps_valid(i: usize, len: usize, sample: usize, hop: usize)
    requires
        hop > 0,
    ensures
        i < len ==> spec_clamp_index(i, len) == i,
        i >= len && len > 0 ==> spec_clamp_index(i, len) == len - 1,
        sample / hop < len ==> spec_feature_index(sample, hop, len) == sample / hop,
        sample / hop >= len && len > 0 ==> spec_feature_index(sample, hop, len) == len - 1,
{
}

/// A finished track is silent until play or a seek.
pub proof fn lemma_finished_is_silent(s: PlaybackState, new_pos: u64, len: u64)
    requires
        new_pos >= len,
    ensures
        !s.spec_advance(new_pos, len).spec_audible(),
        s.spec_advance(new_pos, len).spec_seek(0, len).position_samples == 0,
{
}

/// `i` clamped to the last valid index of a sequence of `len` items (0 when
/// the sequence is empty).
pub open spec fn spec_clamp_index(i: usize, len: usize) -> usize {
    if len == 0 {
        0
    } else if i < len {
        i
    } else {
        (len - 1) as usize
    }
}

pub fn clamp_index(i: usize, len: usize) -> (r: usize)
    ensures
        r == spec_clamp_index(i, len),
        len > 0 ==> r < len,
        r <= i,
{
    let last = len.saturating_sub(1);
    if i < last {
        i
    } else {
        last
    }
}

/// Index of the feature frame that covers sample `sample` when one frame is
/// computed every `hop` samples and `count` frames exist.
pub open spec fn spec_feature_index(sample: usize, hop: usize, count: usize) -> usize {
    spec_clamp_index(sample / hop, count)
}

pub fn feature_index(sample: usize, hop: usize, count: usize) -> (r: usize)
    requires
        hop > 0,
    ensures
        r == spec_feature_index(sample, hop, count),
        count > 0 ==> r < count,
{
    clamp_index(sample / hop, count)
}

} // verus!
