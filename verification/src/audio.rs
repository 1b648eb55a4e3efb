//! The audio source behind the visualizer: either the latest block captured
//! from a live device, or a decoded file that is played back against a clock.
//!
//! Time is a count of nanoseconds read from a monotonic clock by the caller.

use vstd::arithmetic::div_mod::{lemma_add_mod_noop, lemma_mod_self_0, lemma_small_mod};
use vstd::prelude::*;

verus! {

/// Where the samples come from.
pub enum AudioSource<T> {
    /// A capture device; its blocks arrive through `AudioInput::store_captured`.
    LiveInput,
    /// A fully decoded file and its sample rate in samples per second.
    FileInput { samples: Vec<T>, sample_rate: u32 },
}

/// One audio source and the state of reading from it.
pub struct AudioInput<T> {
    samples: Vec<T>,
    source: AudioSource<T>,
    file_position: usize,
    last_update: u64,
}

/// Nanoseconds from `last` to `now`; zero where the clock did not advance.
pub open spec fn elapsed_nanos(last: u64, now: u64) -> nat {
    if now >= last {
        (now - last) as nat
    } else {
        0
    }
}

/// How many whole samples play in `elapsed` nanoseconds at `rate` samples per
/// second.
pub open spec fn samples_due(elapsed: nat, rate: nat) -> nat {
    (elapsed * rate) / 1_000_000_000
}

/// Where a window of `count` samples that starts at `pos` ends in a file of
/// `len` samples: it never runs past the end.
pub open spec fn window_end(pos: nat, count: nat, len: nat) -> nat {
    if pos + count <= len {
        pos + count
    } else {
        len
    }
}

/// The read position after `count` samples have played from `pos`, wrapping
/// round a file of `len` samples.
pub open spec fn next_position(pos: nat, count: nat, len: nat) -> nat {
    if len == 0 {
        0
    } else {
        (pos + count) % len
    }
}

/// The samples that a poll hands out: from `pos` to the window's end.
pub open spec fn file_window<T>(file: Seq<T>, pos: nat, count: nat) -> Seq<T>
    recommends
        pos <= file.len(),
{
    file.subrange(pos as int, window_end(pos, count, file.len()) as int)
}

/// The number of samples that play between two clock readings.
pub fn samples_elapsed(last: u64, now: u64, sample_rate: u32) -> (count: u128)
    ensures
        count == samples_due(elapsed_nanos(last, now), sample_rate as nat),
        count <= 0xffff_ffff_ffff_ffff * 0xffff_ffff,
{
    let elapsed: u64 = if now >= last {
        now - last
    } else {
        0
    };
    assert(elapsed as nat * sample_rate as nat <= 0xffff_ffff_ffff_ffff * 0xffff_ffff)
        by (nonlinear_arith)
        requires
            elapsed <= 0xffff_ffff_ffff_ffff,
            sample_rate <= 0xffff_ffff,
    ;
    (elapsed as u128 * sample_rate as u128) / 1_000_000_000
}

/// A copy of `src[start..end]`.
pub fn copy_range<T: Copy>(src: &[T], start: usize, end: usize) -> (out: Vec<T>)
    requires
        start <= end <= src@.len(),
    ensures
        out@ == src@.subrange(start as int, end as int),
{
    let mut out: Vec<T> = Vec::new();
    let mut i: usize = start;
    while i < end
        invariant
            start <= i <= end <= src@.len(),
            out@ == src@.subrange(start as int, i as int),
        decreases end - i,
    {
        out.push(src[i]);
        i = i + 1;
        assert(out@ =~= src@.subrange(start as int, i as int));
    }
    out
}

impl<T: Copy> AudioInput<T> {
    /// Whether the source is a capture device.
    pub closed spec fn is_live(&self) -> bool {
        self.source is LiveInput
    }

    /// The latest captured block; empty until one has been stored.
    pub closed spec fn buffer(&self) -> Seq<T> {
        self.samples@
    }

    /// The decoded file; empty for a live source.
    pub closed spec fn file(&self) -> Seq<T> {
        match self.source {
            AudioSource::LiveInput => Seq::empty(),
            AudioSource::FileInput { samples, .. } => samples@,
        }
    }

    /// The file's sample rate; zero for a live source.
    pub closed spec fn rate(&self) -> nat {
        match self.source {
            AudioSource::LiveInput => 0,
            AudioSource::FileInput { sample_rate, .. } => sample_rate as nat,
        }
    }

    /// The read position in the file.
    pub closed spec fn position(&self) -> nat {
        self.file_position as nat
    }

    /// The clock reading of the last poll.
    pub closed spec fn last_poll(&self) -> u64 {
        self.last_update
    }

    /// The read position lies inside the file, or is zero where the file is
    /// empty or the source is live.
    pub open spec fn wf(&self) -> bool {
        if self.file().len() == 0 {
            self.position() == 0
        } else {
            self.position() < self.file().len()
        }
    }

    /// What a poll at `now` returns: for a live source the latest block, for
    /// a file the samples that played since the last poll, cut at the file's
    /// end.
    pub open spec fn snapshot(&self, now: u64) -> Seq<T> {
        if self.is_live() {
            self.buffer()
        } else {
            file_window(
                self.file(),
                self.position(),
                samples_due(elapsed_nanos(self.last_poll(), now), self.rate()),
            )
        }
    }

    /// `next` is this input after a poll at `now`: a live source is
    /// untouched; a file source has moved its position and taken `now` as the
    /// time of its last poll.
    pub open spec fn polled(&self, now: u64, next: Self) -> bool {
        &&& next.is_live() == self.is_live()
        &&& next.buffer() == self.buffer()
        &&& next.file() == self.file()
        &&& next.rate() == self.rate()
        &&& if self.is_live() {
            next.position() == self.position() && next.last_poll() == self.last_poll()
        } else {
            &&& next.last_poll() == now
            &&& next.position() == next_position(
                self.position(),
                samples_due(elapsed_nanos(self.last_poll(), now), self.rate()),
                self.file().len(),
            )
        }
    }

    /// An input over `source` whose playback clock starts at `now`, with the
    /// read position at the start and no captured block yet.
    pub fn new(source: AudioSource<T>, now: u64) -> (input: Self)
        ensures
            input.wf(),
            input.is_live() == (source is LiveInput),
            input.buffer() == Seq::<T>::empty(),
            input.position() == 0,
            input.last_poll() == now,
            match source {
                AudioSource::LiveInput => input.file() == Seq::<T>::empty() && input.rate() == 0,
                AudioSource::FileInput { samples, sample_rate } => input.file() == samples@
                    && input.rate() == sample_rate,
            },
    {
        AudioInput { samples: Vec::new(), source, file_position: 0, last_update: now }
    }

    /// Replaces the captured block with `data`: the latest block wins and
    /// nothing of the one before it stays.
    pub fn store_captured(&mut self, data: &[T])
        requires
            old(self).wf(),
        ensures
            final(self).wf(),
            final(self).buffer() == data@,
            final(self).is_live() == old(self).is_live(),
            final(self).file() == old(self).file(),
            final(self).rate() == old(self).rate(),
            final(self).position() == old(self).position(),
            final(self).last_poll() == old(self).last_poll(),
    {
        self.samples = copy_range(data, 0, data.len());
        assert(data@.subrange(0, data@.len() as int) =~= data@);
    }

    /// Polls the source at clock reading `now`.
    ///
    /// A live source returns a copy of the latest captured block and changes
    /// nothing. A file source returns the samples that played since the last
    /// poll, starting at the read position and stopping at the file's end,
    /// then moves the position on by that count modulo the file's length and
    /// records `now`. An empty file always gives an empty window.
    pub fn get_samples(&mut self, now: u64) -> (window: Vec<T>)
        requires
            old(self).wf(),
        ensures
            final(self).wf(),
            window@ == old(self).snapshot(now),
            old(self).polled(now, *final(self)),
    {
        match &self.source {
            AudioSource::LiveInput => {
                let window = copy_range(self.samples.as_slice(), 0, self.samples.len());
                assert(self.samples@.subrange(0, self.samples@.len() as int) =~= self.samples@);
                window
            },
            AudioSource::FileInput { samples, sample_rate } => {
                let due: u128 = samples_elapsed(self.last_update, now, *sample_rate);
                let len: usize = samples.len();
                let start: usize = self.file_position;
                let reach: u128 = start as u128 + due;
                let end: usize = if reach <= len as u128 {
                    reach as usize
                } else {
                    len
                };
                let next: usize = if len == 0 {
                    0
                } else {
                    (reach % (len as u128)) as usize
                };
                let window = copy_range(samples.as_slice(), start, end);
                self.last_update = now;
                self.file_position = next;
                window
            },
        }
    }

    /// Whether the invariant that `wf` states holds.
    pub fn is_well_formed(&self) -> (ok: bool)
        ensures
            ok == self.wf(),
    {
        match &self.source {
            AudioSource::LiveInput => self.file_position == 0,
            AudioSource::FileInput { samples, .. } => if samples.len() == 0 {
                self.file_position == 0
            } else {
                self.file_position < samples.len()
            },
        }
    }

    /// The current read position in the file.
    pub fn file_position(&self) -> (pos: usize)
        ensures
            pos == self.position(),
    {
        self.file_position
    }
}

/// Two polls of a live source with no block stored in between return the
/// same samples, whatever the clock says.
pub proof fn lemma_live_snapshot_repeats<T: Copy>(
    first: AudioInput<T>,
    second: AudioInput<T>,
    t1: u64,
    t2: u64,
)
    requires
        first.is_live(),
        first.polled(t1, second),
    ensures
        second.snapshot(t2) == first.snapshot(t1),
{
}

/// An empty file plays nothing: every poll returns an empty window and
/// leaves the read position at zero.
pub proof fn lemma_empty_file_plays_nothing<T: Copy>(
    input: AudioInput<T>,
    next: AudioInput<T>,
    now: u64,
)
    requires
        input.wf(),
        !input.is_live(),
        input.file().len() == 0,
        input.polled(now, next),
    ensures
        input.snapshot(now) == Seq::<T>::empty(),
        next.position() == 0,
        next.wf(),
{
    assert(input.snapshot(now) =~= Seq::<T>::empty());
}

/// A poll leaves the read position inside the file.
pub proof fn lemma_position_stays_in_file(pos: nat, count: nat, len: nat)
    requires
        len > 0,
    ensures
        next_position(pos, count, len) < len,
{
}

/// The sum of the sample counts of a run of polls.
pub open spec fn total(counts: Seq<nat>) -> nat
    decreases counts.len(),
{
    if counts.len() == 0 {
        0
    } else {
        counts[0] + total(counts.drop_first())
    }
}

/// The read position after a run of polls, one sample count for each poll.
pub open spec fn position_after(pos: nat, counts: Seq<nat>, len: nat) -> nat
    decreases counts.len(),
{
    if counts.len() == 0 {
        pos
    } else {
        position_after(next_position(pos, counts[0], len), counts.drop_first(), len)
    }
}

/// All that a run of polls hands out, window after window.
pub open spec fn played<T>(file: Seq<T>, pos: nat, counts: Seq<nat>) -> Seq<T>
    decreases counts.len(),
{
    if counts.len() == 0 {
        Seq::empty()
    } else {
        file_window(file, pos, counts[0]) + played(
            file,
            next_position(pos, counts[0], file.len()),
            counts.drop_first(),
        )
    }
}

/// After any run of polls the read position is the start position plus all
/// the samples due, modulo the file's length: it never leaves the file.
pub proof fn lemma_position_after_polls(pos: nat, counts: Seq<nat>, len: nat)
    requires
        len > 0,
        pos < len,
    ensures
        position_after(pos, counts, len) == (pos + total(counts)) % len,
        position_after(pos, counts, len) < len,
    decreases counts.len(),
{
    if counts.len() == 0 {
        lemma_small_mod(pos, len);
    } else {
        let step = next_position(pos, counts[0], len);
        let rest = counts.drop_first();
        lemma_position_after_polls(step, rest, len);
        lemma_add_mod_noop((pos + counts[0]) as int, total(rest) as int, len as int);
        lemma_small_mod(step, len);
        lemma_add_mod_noop(step as int, total(rest) as int, len as int);
    }
}

/// Polls that together stay inside the file hand out one contiguous stretch
/// of it: every sample from the start position on, once and in order.
pub proof fn lemma_polls_cover_range<T>(file: Seq<T>, pos: nat, counts: Seq<nat>)
    requires
        pos + total(counts) <= file.len(),
    ensures
        played(file, pos, counts) == file.subrange(pos as int, (pos + total(counts)) as int),
    decreases counts.len(),
{
    let len = file.len();
    if counts.len() == 0 {
        assert(played(file, pos, counts) =~= file.subrange(pos as int, pos as int));
    } else {
        let rest = counts.drop_first();
        let step = next_position(pos, counts[0], len);
        if pos + counts[0] < len {
            lemma_small_mod(pos + counts[0], len);
        } else if len > 0 {
            lemma_mod_self_0(len as int);
        }
        lemma_polls_cover_range(file, step, rest);
        assert(played(file, pos, counts) =~= file.subrange(
            pos as int,
            (pos + total(counts)) as int,
        ));
    }
}

/// Polls from the start of the file whose counts add up to its length hand
/// out the whole file exactly once and leave the read position at the start.
pub proof fn lemma_full_cycle<T>(file: Seq<T>, counts: Seq<nat>)
    requires
        total(counts) == file.len(),
    ensures
        played(file, 0, counts) == file,
        position_after(0, counts, file.len()) == 0,
{
    lemma_polls_cover_range(file, 0, counts);
    assert(file.subrange(0, file.len() as int) =~= file);
    if file.len() > 0 {
        lemma_position_after_polls(0, counts, file.len());
        lemma_mod_self_0(file.len() as int);
    } else {
        lemma_empty_file_position(counts);
    }
}

/// In an empty file the read position stays at zero.
pub proof fn lemma_empty_file_position(counts: Seq<nat>)
    ensures
        position_after(0, counts, 0) == 0,
    decreases counts.len(),
{
    if counts.len() > 0 {
        lemma_empty_file_position(counts.drop_first());
    }
}

} // verus!
