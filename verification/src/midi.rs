//! The library's own model of a parsed MIDI track: timed events with the
//! meta and voice payloads the chart model reads, and the classification
//! of a track's declared name into a role.

use vstd::prelude::*;
use vstd::string::StringExecFns;
use vstd::utf8::{decode_utf8, valid_utf8};

verus! {

/// The payload of one MIDI track event, reduced to what the chart model
/// reads. Every other meta or voice message is `Other`.
#[derive(Debug)]
pub enum MidiEventKind {
    /// A track-name meta-event carrying the raw name bytes.
    TrackName(Vec<u8>),
    /// A text meta-event carrying raw text bytes.
    Text(Vec<u8>),
    /// An end-of-track meta-event.
    EndOfTrack,
    /// A tempo meta-event: microseconds per quarter note.
    Tempo(u32),
    /// A voice note-on message with its key value.
    NoteOn { key: u8 },
    /// A voice note-off message with its key value.
    NoteOff { key: u8 },
    /// Any event kind the chart model ignores.
    Other,
}

/// One event of a parsed MIDI track: the tick delta since the previous
/// event of the same track, and its payload.
#[derive(Debug)]
pub struct MidiEvent {
    pub delta: u32,
    pub kind: MidiEventKind,
}

/// The instrument roles a named track can carry.
#[derive(Debug, PartialEq, Eq, Hash, Clone, Copy, Structural)]
pub enum MoonTrackName {
    Guitar,
    Bass,
    Drums,
    Vocals,
}

/// The classified purpose of a track, from its declared name.
/// Unrecognized or absent names map to `Unclassified`.
#[derive(Debug, PartialEq, Eq, Clone, Copy, Structural)]
pub enum TrackRole {
    /// The track that carries the tempo map.
    TempoMeta,
    /// The track that carries lyric/marker text events.
    LyricEvents,
    /// A per-instrument note track.
    Instrument(MoonTrackName),
    /// A track this model does not interpret; it is skipped.
    Unclassified,
}

/// Decodes a UTF-8 byte payload to text.
///
/// Relies on str::from_utf8: it succeeds exactly on valid UTF-8 input
/// and yields the text that the bytes encode.
#[verifier::external_body]
pub(crate) fn decode_text<'a>(bytes: &'a [u8]) -> (result: Option<&'a str>)
    ensures
        result is Some <==> valid_utf8(bytes@),
        result matches Some(s) ==> s@ == decode_utf8(bytes@),
{
    match std::str::from_utf8(bytes) {
        Ok(s) => Some(s),
        Err(_) => None,
    }
}

/// The raw name bytes the track declares: the payload of the first
/// track-name meta-event among the events still at the track's start
/// instant (delta zero so far); `None` when no name is declared there.
pub open spec fn track_name_bytes(events: Seq<MidiEvent>) -> Option<Seq<u8>>
    decreases events.len(),
{
    if events.len() == 0 {
        None
    } else if events[0].delta != 0 {
        None
    } else {
        match events[0].kind {
            MidiEventKind::TrackName(bytes) => Some(bytes@),
            _ => track_name_bytes(events.drop_first()),
        }
    }
}

/// The role a declared track name selects: the fixed, exhaustive
/// name-to-role table. Any other name selects `Unclassified`.
pub open spec fn role_of_name(name: Seq<char>) -> TrackRole {
    if name == "TEMPO"@ {
        TrackRole::TempoMeta
    } else if name == "EVENTS"@ {
        TrackRole::LyricEvents
    } else if name == "PART GUITAR"@ {
        TrackRole::Instrument(MoonTrackName::Guitar)
    } else if name == "PART BASS"@ {
        TrackRole::Instrument(MoonTrackName::Bass)
    } else if name == "PART DRUMS"@ {
        TrackRole::Instrument(MoonTrackName::Drums)
    } else if name == "PART VOCALS"@ {
        TrackRole::Instrument(MoonTrackName::Vocals)
    } else {
        TrackRole::Unclassified
    }
}

/// The classified role of a track: the role its declared name selects.
/// A track with no declared name, or whose name bytes are not valid
/// UTF-8, is `Unclassified`.
pub open spec fn track_role(events: Seq<MidiEvent>) -> TrackRole {
    match track_name_bytes(events) {
        None => TrackRole::Unclassified,
        Some(bytes) => if valid_utf8(bytes) {
            role_of_name(decode_utf8(bytes))
        } else {
            TrackRole::Unclassified
        },
    }
}

/// The track's declared name, decoded: the first track-name meta-event
/// among the events at the track's start instant. `None` when no name
/// is declared there or its bytes are not valid UTF-8.
pub fn get_track_name(track: &Vec<MidiEvent>) -> (name: Option<String>)
    ensures
        match (name, track_name_bytes(track@)) {
            (Some(s), Some(bytes)) => valid_utf8(bytes) && s@ == decode_utf8(bytes),
            (None, Some(bytes)) => !valid_utf8(bytes),
            (None, None) => true,
            (Some(_), None) => false,
        },
{
    let n = track.len();
    let mut i: usize = 0;
    proof {
        assert(track@.skip(0) =~= track@);
    }
    while i < n
        invariant
            i <= n,
            n == track@.len(),
            track_name_bytes(track@) == track_name_bytes(track@.skip(i as int)),
            track@.skip(i as int).len() > 0 ==> track@.skip(i as int)[0] == track@[i as int],
        decreases n - i,
    {
        proof {
            assert(track@.skip(i as int)[0] == track@[i as int]);
            assert(track@.skip(i as int).drop_first() =~= track@.skip(i + 1));
        }
        let ev = &track[i];
        if ev.delta != 0 {
            return None;
        }
        match &ev.kind {
            MidiEventKind::TrackName(bytes) => {
                match decode_text(bytes.as_slice()) {
                    Some(s) => {
                        return Some(String::from_str(s));
                    },
                    None => {
                        return None;
                    },
                }
            },
            _ => {},
        }
        i = i + 1;
    }
    proof {
        assert(track@.skip(n as int) =~= Seq::<MidiEvent>::empty());
    }
    None
}

/// The role a decoded track name selects, by the fixed table.
pub fn classify_name(name: &String) -> (role: TrackRole)
    ensures
        role == role_of_name(name@),
{
    let tempo_name = String::from_str("TEMPO");
    if *name == tempo_name {
        return TrackRole::TempoMeta;
    }
    let events_name = String::from_str("EVENTS");
    if *name == events_name {
        return TrackRole::LyricEvents;
    }
    let guitar_name = String::from_str("PART GUITAR");
    if *name == guitar_name {
        return TrackRole::Instrument(MoonTrackName::Guitar);
    }
    let bass_name = String::from_str("PART BASS");
    if *name == bass_name {
        return TrackRole::Instrument(MoonTrackName::Bass);
    }
    let drums_name = String::from_str("PART DRUMS");
    if *name == drums_name {
        return TrackRole::Instrument(MoonTrackName::Drums);
    }
    let vocals_name = String::from_str("PART VOCALS");
    if *name == vocals_name {
        return TrackRole::Instrument(MoonTrackName::Vocals);
    }
    TrackRole::Unclassified
}

/// Classifies a track into its role by its declared name.
pub fn classify_track(track: &Vec<MidiEvent>) -> (role: TrackRole)
    ensures
        role == track_role(track@),
{
    match get_track_name(track) {
        Some(name) => classify_name(&name),
        None => TrackRole::Unclassified,
    }
}

} // verus!
