//! Conversion of the song's tick span into seconds: the tempo map is
//! sorted by tick (stably, so the later of two entries at one tick wins
//! from that tick on), and the span is integrated piecewise, spans
//! before the first entry at the default 120 BPM.

use vstd::arithmetic::div_mod::lemma_div_nonincreasing;
use vstd::arithmetic::mul::{lemma_mul_inequality, lemma_mul_nonnegative, lemma_mul_upper_bound};
use vstd::prelude::*;
use crate::moonsong::{MoonError, MoonNote, MoonTempo, MoonTrack, Moonsong, TrackEvent};

verus! {

/// Microseconds per quarter note at the default tempo of 120 BPM.
pub const DEFAULT_MICROS_PER_BEAT: u32 = 500_000;

/// Whether the tempo entries are ordered by ascending tick.
pub open spec fn sorted_by_time(ts: Seq<MoonTempo>) -> bool {
    forall|i: int, j: int|
        0 <= i <= j < ts.len() ==> #[trigger] ts[i].time <= #[trigger] ts[j].time
}

/// `x` inserted into `s` after every entry whose tick does not exceed
/// `x`'s tick: the insertion step of a stable sort by tick.
pub open spec fn insert_by_time(s: Seq<MoonTempo>, x: MoonTempo) -> Seq<MoonTempo>
    decreases s.len(),
{
    if s.len() == 0 {
        seq![x]
    } else if s.last().time <= x.time {
        s.push(x)
    } else {
        insert_by_time(s.drop_last(), x).push(s.last())
    }
}

/// The entries of `s` in ascending tick order; entries with equal ticks
/// keep their relative order (a stable sort by tick).
pub open spec fn sort_by_time(s: Seq<MoonTempo>) -> Seq<MoonTempo>
    decreases s.len(),
{
    if s.len() == 0 {
        Seq::empty()
    } else {
        insert_by_time(sort_by_time(s.drop_last()), s.last())
    }
}

proof fn lemma_insert_by_time_len(s: Seq<MoonTempo>, x: MoonTempo)
    ensures
        insert_by_time(s, x).len() == s.len() + 1,
    decreases s.len(),
{
    if s.len() > 0 && !(s.last().time <= x.time) {
        lemma_insert_by_time_len(s.drop_last(), x);
    }
}

proof fn lemma_sort_by_time_len(s: Seq<MoonTempo>)
    ensures
        sort_by_time(s).len() == s.len(),
    decreases s.len(),
{
    if s.len() > 0 {
        lemma_sort_by_time_len(s.drop_last());
        lemma_insert_by_time_len(sort_by_time(s.drop_last()), s.last());
    }
}

proof fn lemma_insert_by_time_bound(s: Seq<MoonTempo>, x: MoonTempo, b: u32)
    requires
        forall|i: int| 0 <= i < s.len() ==> (#[trigger] s[i].time) <= b,
        x.time <= b,
    ensures
        forall|i: int|
            0 <= i < insert_by_time(s, x).len() ==> (#[trigger] insert_by_time(s, x)[i].time) <= b,
    decreases s.len(),
{
    if s.len() > 0 && !(s.last().time <= x.time) {
        assert forall|i: int| 0 <= i < s.drop_last().len() implies (#[trigger] s.drop_last()[
            i
        ].time) <= b by {
            assert(s[i].time <= b);
        }
        lemma_insert_by_time_bound(s.drop_last(), x, b);
        lemma_insert_by_time_len(s.drop_last(), x);
    }
}

proof fn lemma_insert_by_time_sorted(s: Seq<MoonTempo>, x: MoonTempo)
    requires
        sorted_by_time(s),
    ensures
        sorted_by_time(insert_by_time(s, x)),
    decreases s.len(),
{
    if s.len() == 0 {
    } else if s.last().time <= x.time {
        assert forall|i: int, j: int| 0 <= i <= j < s.push(x).len() implies #[trigger] s.push(
            x,
        )[i].time <= #[trigger] s.push(x)[j].time by {
            if j < s.len() {
            } else {
                if i < s.len() {
                    assert(s[i].time <= s.last().time);
                }
            }
        }
    } else {
        assert(sorted_by_time(s.drop_last())) by {
            assert forall|i: int, j: int| 0 <= i <= j < s.drop_last().len() implies #[trigger] s
                .drop_last()[i].time <= #[trigger] s.drop_last()[j].time by {
                assert(s[i].time <= s[j].time);
            }
        }
        lemma_insert_by_time_sorted(s.drop_last(), x);
        lemma_insert_by_time_len(s.drop_last(), x);
        let r0 = insert_by_time(s.drop_last(), x);
        let r = r0.push(s.last());
        assert forall|i: int| 0 <= i < s.drop_last().len() implies (#[trigger] s.drop_last()[
            i
        ].time) <= s.last().time by {
            assert(s[i].time <= s.last().time);
        }
        lemma_insert_by_time_bound(s.drop_last(), x, s.last().time);
        assert forall|i: int, j: int| 0 <= i <= j < r.len() implies #[trigger] r[i].time
            <= #[trigger] r[j].time by {
            if j < r0.len() {
                assert(r0[i].time <= r0[j].time);
            } else if i < r0.len() {
                assert(r0[i].time <= s.last().time);
            }
        }
    }
}

/// The stable sort's result is ordered by ascending tick.
pub proof fn lemma_sort_by_time_sorted(s: Seq<MoonTempo>)
    ensures
        sorted_by_time(sort_by_time(s)),
    decreases s.len(),
{
    if s.len() > 0 {
        lemma_sort_by_time_sorted(s.drop_last());
        lemma_insert_by_time_sorted(sort_by_time(s.drop_last()), s.last());
    }
}

/// Sorting a sequence that is already ordered by tick changes nothing.
pub proof fn lemma_sort_by_time_of_sorted(s: Seq<MoonTempo>)
    requires
        sorted_by_time(s),
    ensures
        sort_by_time(s) == s,
    decreases s.len(),
{
    if s.len() > 0 {
        assert(sorted_by_time(s.drop_last())) by {
            assert forall|i: int, j: int| 0 <= i <= j < s.drop_last().len() implies #[trigger] s
                .drop_last()[i].time <= #[trigger] s.drop_last()[j].time by {
                assert(s[i].time <= s[j].time);
            }
        }
        lemma_sort_by_time_of_sorted(s.drop_last());
        let p = s.drop_last();
        if p.len() == 0 {
            assert(insert_by_time(p, s.last()) =~= s);
        } else {
            assert(p.last().time <= s.last().time) by {
                assert(s[p.len() - 1].time <= s[s.len() - 1].time);
            }
            assert(p.push(s.last()) =~= s);
        }
    }
}

/// Law: sorting the tempo map is idempotent, so re-running the duration
/// computation on an unmodified song integrates over the same tempo map
/// and yields the same duration.
pub proof fn lemma_duration_idempotent(ts: Seq<MoonTempo>, resolution: int, last: int)
    ensures
        sort_by_time(sort_by_time(ts)) == sort_by_time(ts),
        duration_seconds(sort_by_time(sort_by_time(ts)), resolution, last) == duration_seconds(
            sort_by_time(ts),
            resolution,
            last,
        ),
{
    lemma_sort_by_time_sorted(ts);
    lemma_sort_by_time_of_sorted(sort_by_time(ts));
}

/// Inserting `x` at the first position whose entry's tick exceeds
/// `x`'s tick is exactly the stable insertion step.
proof fn lemma_insert_by_time_at(s: Seq<MoonTempo>, x: MoonTempo, j: int)
    requires
        0 <= j <= s.len(),
        forall|k: int| 0 <= k < j ==> (#[trigger] s[k].time) <= x.time,
        forall|k: int| j <= k < s.len() ==> (#[trigger] s[k].time) > x.time,
    ensures
        insert_by_time(s, x) == s.insert(j, x),
    decreases s.len(),
{
    if s.len() == 0 {
        assert(insert_by_time(s, x) =~= s.insert(0, x));
    } else if s.last().time <= x.time {
        assert(j == s.len()) by {
            if j < s.len() {
                assert(s[s.len() - 1].time > x.time);
            }
        }
        assert(s.push(x) =~= s.insert(s.len() as int, x));
    } else {
        let p = s.drop_last();
        assert(j < s.len()) by {
            if j == s.len() {
                assert(s[s.len() - 1].time <= x.time);
            }
        }
        assert forall|k: int| 0 <= k < j implies (#[trigger] p[k].time) <= x.time by {
            assert(s[k].time <= x.time);
        }
        assert forall|k: int| j <= k < p.len() implies (#[trigger] p[k].time) > x.time by {
            assert(s[k].time > x.time);
        }
        lemma_insert_by_time_at(p, x, j);
        lemma_insert_by_time_len(p, x);
        assert(insert_by_time(p, x).push(s.last()) =~= s.insert(j, x));
    }
}

/// Sorts the tempo entries in place by ascending tick; entries with
/// equal ticks keep their relative order.
fn sort_tempo_changes(v: &mut Vec<MoonTempo>)
    ensures
        final(v)@ == sort_by_time(old(v)@),
{
    let n = v.len();
    let mut sorted_entries: Vec<MoonTempo> = Vec::new();
    let mut i: usize = 0;
    while i < n
        invariant
            i <= n,
            n == v@.len(),
            v@ == old(v)@,
            sorted_entries@ == sort_by_time(v@.take(i as int)),
        decreases n - i,
    {
        let x = v[i];
        let mut j: usize = sorted_entries.len();
        while j > 0 && sorted_entries[j - 1].time > x.time
            invariant
                j <= sorted_entries@.len(),
                forall|k: int|
                    j <= k < sorted_entries@.len() ==> (#[trigger] sorted_entries@[k].time)
                        > x.time,
            decreases j,
    {
            j = j - 1;
        }
        proof {
            lemma_sort_by_time_sorted(v@.take(i as int));
            assert forall|k: int| 0 <= k < j implies (#[trigger] sorted_entries@[k].time)
                <= x.time by {
                assert(sorted_entries@[k].time <= sorted_entries@[j - 1].time);
            }
            lemma_insert_by_time_at(sorted_entries@, x, j as int);
            assert(v@.take(i + 1).drop_last() =~= v@.take(i as int));
            assert(v@.take(i + 1).last() == v@[i as int]);
        }
        sorted_entries.insert(j, x);
        i = i + 1;
    }
    proof {
        assert(v@.take(n as int) =~= v@);
    }
    *v = sorted_entries;
}

/// Absolute tick where tempo segment `i` ends: the next entry's tick,
/// or the song's last tick for the final segment.
pub open spec fn segment_end(ts: Seq<MoonTempo>, i: int, last: int) -> int {
    if i + 1 < ts.len() {
        ts[i + 1].time as int
    } else {
        last
    }
}

/// Microsecond weight of tempo segment `i`: its tick span times its
/// microseconds per quarter note; non-positive spans contribute zero.
pub open spec fn segment_micros(ts: Seq<MoonTempo>, i: int, last: int) -> int {
    let start = ts[i].time as int;
    let end = segment_end(ts, i, last);
    if end > start {
        (end - start) * (ts[i].micros_per_beat as int)
    } else {
        0
    }
}

/// Sum of the microsecond weights of tempo segments `0..n`.
pub open spec fn segments_micros(ts: Seq<MoonTempo>, n: int, last: int) -> int
    decreases n,
{
    if n <= 0 {
        0
    } else {
        segments_micros(ts, n - 1, last) + segment_micros(ts, n - 1, last)
    }
}

/// Microsecond weight of the span before the first tempo entry (of the
/// whole span when there is none), integrated at the default 120 BPM.
pub open spec fn leading_micros(ts: Seq<MoonTempo>, last: int) -> int {
    if ts.len() == 0 {
        if last > 0 {
            last * (DEFAULT_MICROS_PER_BEAT as int)
        } else {
            0
        }
    } else if ts[0].time > 0 {
        (ts[0].time as int) * (DEFAULT_MICROS_PER_BEAT as int)
    } else {
        0
    }
}

/// Total microsecond weight of the song's tick span over the tempo map:
/// the leading span plus every tempo segment.
pub open spec fn total_micros(ts: Seq<MoonTempo>, last: int) -> int {
    leading_micros(ts, last) + segments_micros(ts, ts.len() as int, last)
}

/// The song's duration in whole seconds: the total microsecond weight
/// divided by resolution times one million, rounded up to the next
/// whole second, saturating at `u32::MAX`.
pub open spec fn duration_seconds(ts: Seq<MoonTempo>, resolution: int, last: int) -> int {
    let d = resolution * 1_000_000;
    let t = total_micros(ts, last);
    let q = t / d + if t % d == 0 {
        0int
    } else {
        1int
    };
    if q > u32::MAX as int {
        u32::MAX as int
    } else {
        q
    }
}

/// Law: when the first tempo entry starts after tick 0, the leading
/// span is integrated at the default 120 BPM — its weight does not
/// depend on any entry's declared tempo.
pub proof fn lemma_leading_span_uses_default(ts: Seq<MoonTempo>, last: int)
    requires
        ts.len() > 0,
        ts[0].time > 0,
    ensures
        total_micros(ts, last) == (ts[0].time as int) * (DEFAULT_MICROS_PER_BEAT as int)
            + segments_micros(ts, ts.len() as int, last),
{
}

/// The greatest absolute tick among `notes`; zero when there are none.
pub open spec fn notes_last_tick(notes: Seq<MoonNote>) -> int
    decreases notes.len(),
{
    if notes.len() == 0 {
        0
    } else {
        vstd::math::max(notes_last_tick(notes.drop_last()), notes.last().time as int)
    }
}

/// The greatest absolute tick among every lane of `track`; zero when
/// the track holds no notes.
pub open spec fn track_last_tick(track: MoonTrack) -> int {
    vstd::math::max(
        vstd::math::max(
            vstd::math::max(
                vstd::math::max(
                    notes_last_tick(track.easy.notes@),
                    notes_last_tick(track.medium.notes@),
                ),
                notes_last_tick(track.hard.notes@),
            ),
            notes_last_tick(track.expert.notes@),
        ),
        notes_last_tick(track.undefined.notes@),
    )
}

/// The greatest absolute tick among every lane of every track.
pub open spec fn tracks_last_tick(tracks: Seq<MoonTrack>) -> int
    decreases tracks.len(),
{
    if tracks.len() == 0 {
        0
    } else {
        vstd::math::max(tracks_last_tick(tracks.drop_last()), track_last_tick(tracks.last()))
    }
}

/// The greatest absolute tick among the song's text events.
pub open spec fn events_last_tick(events: Seq<TrackEvent>) -> int
    decreases events.len(),
{
    if events.len() == 0 {
        0
    } else {
        vstd::math::max(events_last_tick(events.drop_last()), events.last().time as int)
    }
}

/// The last occupied tick of the song: the greatest tick among every
/// lane's notes and every text event; zero when none exist.
pub open spec fn song_last_tick(song: Moonsong) -> int {
    vstd::math::max(tracks_last_tick(song.tracks@), events_last_tick(song.events@))
}

fn notes_last_tick_exec(notes: &Vec<MoonNote>) -> (t: u32)
    ensures
        t == notes_last_tick(notes@),
{
    let n = notes.len();
    let mut t: u32 = 0;
    let mut i: usize = 0;
    while i < n
        invariant
            i <= n,
            n == notes@.len(),
            t == notes_last_tick(notes@.take(i as int)),
        decreases n - i,
    {
        proof {
            assert(notes@.take(i + 1).drop_last() =~= notes@.take(i as int));
            assert(notes@.take(i + 1).last() == notes@[i as int]);
        }
        if notes[i].time > t {
            t = notes[i].time;
        }
        i = i + 1;
    }
    proof {
        assert(notes@.take(n as int) =~= notes@);
    }
    t
}

fn track_last_tick_exec(track: &MoonTrack) -> (t: u32)
    ensures
        t == track_last_tick(*track),
{
    let mut t = notes_last_tick_exec(&track.easy.notes);
    let m = notes_last_tick_exec(&track.medium.notes);
    if m > t {
        t = m;
    }
    let h = notes_last_tick_exec(&track.hard.notes);
    if h > t {
        t = h;
    }
    let x = notes_last_tick_exec(&track.expert.notes);
    if x > t {
        t = x;
    }
    let u = notes_last_tick_exec(&track.undefined.notes);
    if u > t {
        t = u;
    }
    t
}

/// Every partial segment sum is non-negative and at most `n` times the
/// largest possible weight of one segment.
proof fn lemma_segments_micros_bound(ts: Seq<MoonTempo>, n: int, last: int)
    requires
        0 <= n <= ts.len(),
        0 <= last <= u32::MAX,
    ensures
        0 <= segments_micros(ts, n, last) <= n * ((u32::MAX as int) * (u32::MAX as int)),
    decreases n,
{
    let m = (u32::MAX as int) * (u32::MAX as int);
    if n > 0 {
        lemma_segments_micros_bound(ts, n - 1, last);
        let start = ts[n - 1].time as int;
        let end = segment_end(ts, n - 1, last);
        if end > start {
            lemma_mul_nonnegative(end - start, ts[n - 1].micros_per_beat as int);
            lemma_mul_upper_bound(
                end - start,
                u32::MAX as int,
                ts[n - 1].micros_per_beat as int,
                u32::MAX as int,
            );
        }
        assert((n - 1) * m + m == n * m) by (nonlinear_arith);
    }
}

/// The leading span's weight is non-negative and at most one full tick
/// range at the default tempo.
proof fn lemma_leading_micros_bound(ts: Seq<MoonTempo>, last: int)
    requires
        0 <= last <= u32::MAX,
    ensures
        0 <= leading_micros(ts, last) <= (u32::MAX as int) * (DEFAULT_MICROS_PER_BEAT as int),
{
    if ts.len() == 0 {
        if last > 0 {
            lemma_mul_nonnegative(last, DEFAULT_MICROS_PER_BEAT as int);
            lemma_mul_upper_bound(
                last,
                u32::MAX as int,
                DEFAULT_MICROS_PER_BEAT as int,
                DEFAULT_MICROS_PER_BEAT as int,
            );
        }
    } else if ts[0].time > 0 {
        lemma_mul_nonnegative(ts[0].time as int, DEFAULT_MICROS_PER_BEAT as int);
        lemma_mul_upper_bound(
            ts[0].time as int,
            u32::MAX as int,
            DEFAULT_MICROS_PER_BEAT as int,
            DEFAULT_MICROS_PER_BEAT as int,
        );
    }
}

impl Moonsong {
    /// The last occupied tick across every lane and every text event.
    fn last_tick(&self) -> (t: u32)
        ensures
            t == song_last_tick(*self),
    {
        let n = self.tracks.len();
        let mut t: u32 = 0;
        let mut i: usize = 0;
        while i < n
            invariant
                i <= n,
                n == self.tracks@.len(),
                t == tracks_last_tick(self.tracks@.take(i as int)),
            decreases n - i,
        {
            proof {
                assert(self.tracks@.take(i + 1).drop_last() =~= self.tracks@.take(i as int));
                assert(self.tracks@.take(i + 1).last() == self.tracks@[i as int]);
            }
            let tt = track_last_tick_exec(&self.tracks[i]);
            if tt > t {
                t = tt;
            }
            i = i + 1;
        }
        proof {
            assert(self.tracks@.take(n as int) =~= self.tracks@);
        }
        let ne = self.events.len();
        let mut j: usize = 0;
        let mut te: u32 = 0;
        while j < ne
            invariant
                j <= ne,
                ne == self.events@.len(),
                te == events_last_tick(self.events@.take(j as int)),
            decreases ne - j,
        {
            proof {
                assert(self.events@.take(j + 1).drop_last() =~= self.events@.take(j as int));
                assert(self.events@.take(j + 1).last() == self.events@[j as int]);
            }
            if self.events[j].time > te {
                te = self.events[j].time;
            }
            j = j + 1;
        }
        proof {
            assert(self.events@.take(ne as int) =~= self.events@);
        }
        if te > t {
            t = te;
        }
        t
    }

    /// Computes the song's duration in whole seconds and stores it.
    ///
    /// Fails with `ZeroResolution` when the song's resolution is zero,
    /// and with `DegenerateTempo` at the first stored tempo entry that
    /// implies no duration per quarter note; in both cases the song is
    /// left unchanged. On success the tempo map is left sorted stably
    /// by tick and the stored duration is the ceiling of the piecewise
    /// integral of the song's tick span over that map.
    pub fn set_time_in_seconds(&mut self) -> (result: Result<(), MoonError>)
        ensures
            match result {
                Ok(_) => {
                    &&& old(self).resolution > 0
                    &&& forall|i: int|
                        0 <= i < old(self).tempo_changes@.len() ==> (#[trigger] old(
                            self,
                        ).tempo_changes@[i].micros_per_beat) != 0
                    &&& final(self).tempo_changes@ == sort_by_time(old(self).tempo_changes@)
                    &&& final(self).time_in_seconds == duration_seconds(
                        sort_by_time(old(self).tempo_changes@),
                        old(self).resolution as int,
                        song_last_tick(*old(self)),
                    )
                    &&& final(self).name == old(self).name
                    &&& final(self).resolution == old(self).resolution
                    &&& final(self).tracks == old(self).tracks
                    &&& final(self).events == old(self).events
                    &&& final(self).warnings == old(self).warnings
                },
                Err(e) => match e {
                    MoonError::ZeroResolution => {
                        &&& old(self).resolution == 0
                        &&& *final(self) == *old(self)
                    },
                    MoonError::DegenerateTempo { tick } => {
                        &&& old(self).resolution > 0
                        &&& *final(self) == *old(self)
                        &&& exists|i: int|
                            {
                                &&& 0 <= i < old(self).tempo_changes@.len()
                                &&& (#[trigger] old(self).tempo_changes@[i]).micros_per_beat == 0
                                &&& (forall|j: int|
                                    0 <= j < i ==> (#[trigger] old(
                                        self,
                                    ).tempo_changes@[j].micros_per_beat) != 0)
                                &&& tick == old(self).tempo_changes@[i].time
                            }
                    },
                },
            },
    {
        if self.resolution == 0 {
            return Err(MoonError::ZeroResolution);
        }
        let n = self.tempo_changes.len();
        let mut i: usize = 0;
        while i < n
            invariant
                i <= n,
                n == self.tempo_changes@.len(),
                *self == *old(self),
                self.resolution > 0,
                forall|j: int|
                    0 <= j < i ==> (#[trigger] self.tempo_changes@[j].micros_per_beat) != 0,
            decreases n - i,
        {
            if self.tempo_changes[i].micros_per_beat == 0 {
                return Err(MoonError::DegenerateTempo { tick: self.tempo_changes[i].time });
            }
            i = i + 1;
        }
        let last_time = self.last_tick();
        sort_tempo_changes(&mut self.tempo_changes);
        let ghost ts = self.tempo_changes@;
        let ghost weight_cap: int = (u32::MAX as int) * (u32::MAX as int);
        let m = self.tempo_changes.len();
        proof {
            lemma_sort_by_time_len(old(self).tempo_changes@);
            lemma_leading_micros_bound(ts, last_time as int);
        }
        let mut acc: u128 = 0;
        if m == 0 {
            acc = (last_time as u128) * (DEFAULT_MICROS_PER_BEAT as u128);
        } else if self.tempo_changes[0].time > 0 {
            acc = (self.tempo_changes[0].time as u128) * (DEFAULT_MICROS_PER_BEAT as u128);
        }
        assert(acc == leading_micros(ts, last_time as int));
        let mut k: usize = 0;
        while k < m
            invariant
                k <= m,
                m == self.tempo_changes@.len(),
                self.tempo_changes@ == ts,
                0 <= last_time <= u32::MAX,
                weight_cap == (u32::MAX as int) * (u32::MAX as int),
                0 <= leading_micros(ts, last_time as int) <= (u32::MAX as int) * (
                DEFAULT_MICROS_PER_BEAT as int),
                acc == leading_micros(ts, last_time as int) + segments_micros(
                    ts,
                    k as int,
                    last_time as int,
                ),
            decreases m - k,
        {
            let start = self.tempo_changes[k].time;
            let end = if k + 1 < m {
                self.tempo_changes[k + 1].time
            } else {
                last_time
            };
            proof {
                lemma_segments_micros_bound(ts, k as int, last_time as int);
                lemma_segments_micros_bound(ts, k + 1, last_time as int);
                assert((k + 1) * weight_cap <= m as int * weight_cap) by {
                    lemma_mul_inequality(k + 1, m as int, weight_cap);
                }
                assert(m as int * weight_cap <= 0xffff_ffff_ffff_ffff * weight_cap) by {
                    lemma_mul_inequality(m as int, 0xffff_ffff_ffff_ffff, weight_cap);
                }
            }
            if end > start {
                let span = (end - start) as u128;
                let weight = span * (self.tempo_changes[k].micros_per_beat as u128);
                proof {
                    lemma_mul_nonnegative(
                        end as int - start as int,
                        ts[k as int].micros_per_beat as int,
                    );
                    lemma_mul_upper_bound(
                        end as int - start as int,
                        u32::MAX as int,
                        ts[k as int].micros_per_beat as int,
                        u32::MAX as int,
                    );
                }
                acc = acc + weight;
            }
            k = k + 1;
        }
        proof {
            lemma_segments_micros_bound(ts, m as int, last_time as int);
            assert(m as int * weight_cap <= 0xffff_ffff_ffff_ffff * weight_cap) by {
                lemma_mul_inequality(m as int, 0xffff_ffff_ffff_ffff, weight_cap);
            }
            lemma_div_nonincreasing(acc as int, (self.resolution as int) * 1_000_000);
            assert(acc == total_micros(ts, last_time as int));
        }
        let divisor = (self.resolution as u128) * 1_000_000u128;
        let quotient = acc / divisor + (if acc % divisor == 0 {
            0u128
        } else {
            1u128
        });
        self.time_in_seconds = if quotient > u32::MAX as u128 {
            u32::MAX
        } else {
            quotient as u32
        };
        Ok(())
    }
}

} // verus!
