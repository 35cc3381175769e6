//! The chart data model: difficulties, notes, lanes, tracks, tempo
//! entries, text events, and the song aggregate.

use vstd::prelude::*;
use crate::midi::MoonTrackName;

verus! {

/// The difficulty buckets a note can fall into, by its MIDI key value.
#[derive(Debug, PartialEq, Eq, Hash, Clone, Copy, Structural)]
pub enum MoonDifficulty {
    Easy,
    Medium,
    Hard,
    Expert,
    UNDEFINED,
}

/// The difficulty bucket of a MIDI key value, by the fixed range table:
/// 60..=71 Easy, 72..=83 Medium, 84..=95 Hard, 96..=107 Expert,
/// anything else UNDEFINED.
pub open spec fn difficulty_of(key_value: u8) -> MoonDifficulty {
    if 60 <= key_value <= 71 {
        MoonDifficulty::Easy
    } else if 72 <= key_value <= 83 {
        MoonDifficulty::Medium
    } else if 84 <= key_value <= 95 {
        MoonDifficulty::Hard
    } else if 96 <= key_value <= 107 {
        MoonDifficulty::Expert
    } else {
        MoonDifficulty::UNDEFINED
    }
}

impl MoonDifficulty {
    /// Classifies a key value into its difficulty bucket.
    pub fn get_difficulty(key_value: &u8) -> (difficulty: Self)
        ensures
            difficulty == difficulty_of(*key_value),
    {
        let k = *key_value;
        if 60 <= k && k <= 71 {
            MoonDifficulty::Easy
        } else if 72 <= k && k <= 83 {
            MoonDifficulty::Medium
        } else if 84 <= k && k <= 95 {
            MoonDifficulty::Hard
        } else if 96 <= k && k <= 107 {
            MoonDifficulty::Expert
        } else {
            MoonDifficulty::UNDEFINED
        }
    }
}

/// One tempo map entry: the tempo in microseconds per quarter note,
/// effective from absolute tick `time`. `delta` is the tick delta the
/// tempo meta-event itself carried.
#[derive(Debug, PartialEq, Eq, Clone, Copy, Structural)]
pub struct MoonTempo {
    pub micros_per_beat: u32,
    pub time: u32,
    pub delta: u32,
}

/// One note-on or note-off entry of a lane, at absolute tick `time`.
/// `note_state` is true for note-on. `delta` is the tick delta the
/// voice event itself carried.
#[derive(Debug, PartialEq, Eq, Clone, Copy, Structural)]
pub struct MoonNote {
    pub key: u8,
    pub note_state: bool,
    pub time: u32,
    pub delta: u32,
}

/// The ordered note stream of one difficulty within one track.
#[derive(Debug)]
pub struct MoonLane {
    pub notes: Vec<MoonNote>,
}

/// How many notes of `notes` have on/off state `state`.
pub open spec fn count_with_state(notes: Seq<MoonNote>, state: bool) -> int
    decreases notes.len(),
{
    if notes.len() == 0 {
        0
    } else {
        count_with_state(notes.drop_last(), state) + if notes.last().note_state == state {
            1int
        } else {
            0int
        }
    }
}

impl MoonLane {
    /// Appends one note entry, in arrival order.
    pub fn add_note(&mut self, key: u8, note_state: bool, delta: u32, time: u32)
        ensures
            final(self).notes@ == old(self).notes@.push(
                MoonNote { key, note_state, time, delta },
            ),
    {
        self.notes.push(MoonNote { key, note_state, time, delta });
    }

    /// How many note-on entries the lane holds.
    pub fn count_on_notes(&self) -> (count: usize)
        ensures
            count == count_with_state(self.notes@, true),
    {
        self.count_with(true)
    }

    /// How many note-off entries the lane holds.
    pub fn count_off_notes(&self) -> (count: usize)
        ensures
            count == count_with_state(self.notes@, false),
    {
        self.count_with(false)
    }

    /// How many note entries the lane holds in all.
    pub fn count_notes(&self) -> (count: usize)
        ensures
            count == self.notes@.len(),
    {
        self.notes.len()
    }

    fn count_with(&self, state: bool) -> (count: usize)
        ensures
            count == count_with_state(self.notes@, state),
    {
        let n = self.notes.len();
        let mut count: usize = 0;
        let mut i: usize = 0;
        while i < n
            invariant
                i <= n,
                n == self.notes@.len(),
                count <= i,
                count == count_with_state(self.notes@.take(i as int), state),
            decreases n - i,
        {
            proof {
                assert(self.notes@.take(i + 1).drop_last() =~= self.notes@.take(i as int));
                assert(self.notes@.take(i + 1).last() == self.notes@[i as int]);
            }
            if self.notes[i].note_state == state {
                count = count + 1;
            }
            i = i + 1;
        }
        proof {
            assert(self.notes@.take(n as int) =~= self.notes@);
        }
        count
    }
}

/// One lyric/marker entry of the song: decoded text at absolute tick
/// `time`. `delta` is the tick delta the meta-event itself carried.
#[derive(Debug)]
pub struct TrackEvent {
    pub name: String,
    pub time: u32,
    pub delta: u32,
}

impl View for TrackEvent {
    type V = (Seq<char>, int, int);

    open spec fn view(&self) -> (Seq<char>, int, int) {
        (self.name@, self.time as int, self.delta as int)
    }
}

/// One instrument track: its role and its five difficulty lanes. All
/// five lanes are always present, even when empty.
#[derive(Debug)]
pub struct MoonTrack {
    pub name: MoonTrackName,
    pub easy: MoonLane,
    pub medium: MoonLane,
    pub hard: MoonLane,
    pub expert: MoonLane,
    pub undefined: MoonLane,
}

/// The lane of `track` for `difficulty`; total over the five buckets.
pub open spec fn lane_of(track: MoonTrack, difficulty: MoonDifficulty) -> MoonLane {
    match difficulty {
        MoonDifficulty::Easy => track.easy,
        MoonDifficulty::Medium => track.medium,
        MoonDifficulty::Hard => track.hard,
        MoonDifficulty::Expert => track.expert,
        MoonDifficulty::UNDEFINED => track.undefined,
    }
}

impl MoonTrack {
    /// A fresh track with the given role and all five lanes empty.
    pub fn new(name: MoonTrackName) -> (track: Self)
        ensures
            track.name == name,
            forall|d: MoonDifficulty| #[trigger] lane_of(track, d).notes@ == Seq::<
                MoonNote,
            >::empty(),
    {
        Self {
            name,
            easy: MoonLane { notes: Vec::new() },
            medium: MoonLane { notes: Vec::new() },
            hard: MoonLane { notes: Vec::new() },
            expert: MoonLane { notes: Vec::new() },
            undefined: MoonLane { notes: Vec::new() },
        }
    }

    /// The lane for the given difficulty.
    pub fn get_difficulty_lane(&self, difficulty: &MoonDifficulty) -> (lane: &MoonLane)
        ensures
            *lane == lane_of(*self, *difficulty),
    {
        match difficulty {
            MoonDifficulty::Easy => &self.easy,
            MoonDifficulty::Medium => &self.medium,
            MoonDifficulty::Hard => &self.hard,
            MoonDifficulty::Expert => &self.expert,
            MoonDifficulty::UNDEFINED => &self.undefined,
        }
    }

    /// Appends one note entry to the lane of the given difficulty,
    /// leaving the other lanes and the track's role unchanged.
    pub fn add_note(&mut self, difficulty: &MoonDifficulty, key: u8, note_state: bool, delta: u32, time: u32)
        ensures
            final(self).name == old(self).name,
            lane_of(*final(self), *difficulty).notes@ == lane_of(*old(self), *difficulty).notes@
                .push(MoonNote { key, note_state, time, delta }),
            forall|d: MoonDifficulty| d != *difficulty ==> #[trigger] lane_of(*final(self), d)
                == lane_of(*old(self), d),
    {
        match difficulty {
            MoonDifficulty::Easy => self.easy.add_note(key, note_state, delta, time),
            MoonDifficulty::Medium => self.medium.add_note(key, note_state, delta, time),
            MoonDifficulty::Hard => self.hard.add_note(key, note_state, delta, time),
            MoonDifficulty::Expert => self.expert.add_note(key, note_state, delta, time),
            MoonDifficulty::UNDEFINED => self.undefined.add_note(key, note_state, delta, time),
        }
    }
}

/// Errors the song-level operations report.
#[derive(Debug, PartialEq, Eq, Clone, Copy, Structural)]
pub enum MoonError {
    /// The song's resolution is zero; no duration can be computed.
    ZeroResolution,
    /// A tempo meta-event at this absolute tick implied no duration per
    /// quarter note, which would corrupt the duration math.
    DegenerateTempo { tick: u32 },
}

/// The song aggregate: name, tick resolution, instrument tracks, text
/// events, tempo map, and the computed duration in whole seconds.
/// `warnings` holds the absolute tick of each lyric event whose text
/// payload failed to decode and was skipped.
#[derive(Debug)]
pub struct Moonsong {
    pub name: String,
    pub resolution: u16,
    pub tracks: Vec<MoonTrack>,
    pub events: Vec<TrackEvent>,
    pub tempo_changes: Vec<MoonTempo>,
    pub time_in_seconds: u32,
    pub warnings: Vec<u32>,
}

impl Moonsong {
    /// A fresh song with the given tick resolution and nothing parsed.
    pub fn new(resolution: u16) -> (song: Self)
        ensures
            song.name@ == Seq::<char>::empty(),
            song.resolution == resolution,
            song.tracks@ == Seq::<MoonTrack>::empty(),
            song.events@ == Seq::<TrackEvent>::empty(),
            song.tempo_changes@ == Seq::<MoonTempo>::empty(),
            song.time_in_seconds == 0,
            song.warnings@ == Seq::<u32>::empty(),
    {
        Self {
            name: String::new(),
            resolution,
            tracks: Vec::new(),
            events: Vec::new(),
            tempo_changes: Vec::new(),
            time_in_seconds: 0,
            warnings: Vec::new(),
        }
    }

    /// Sets the song's name.
    pub fn set_name(&mut self, name: String)
        ensures
            *final(self) == (Moonsong { name, ..*old(self) }),
    {
        self.name = name;
    }

    /// Appends one text event.
    pub fn add_event(&mut self, track: TrackEvent)
        ensures
            final(self).events@ == old(self).events@.push(track),
            *final(self) == (Moonsong { events: final(self).events, ..*old(self) }),
    {
        self.events.push(track);
    }
}

} // verus!
