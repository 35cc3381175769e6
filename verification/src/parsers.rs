//! The per-track parsers: each folds over one track's ordered event
//! stream with a local running absolute tick, and appends what it
//! extracts to the song. A router classifies a track by name and
//! dispatches it; unclassified tracks are skipped.

use vstd::prelude::*;
use vstd::string::StringExecFns;
use vstd::utf8::{decode_utf8, valid_utf8};
use crate::midi::{classify_track, track_role, MidiEvent, MidiEventKind, MoonTrackName, TrackRole};
use crate::moonsong::{
    difficulty_of, lane_of, MoonDifficulty, MoonError, MoonNote, MoonTempo, MoonTrack, Moonsong,
    TrackEvent,
};

verus! {

/// Sum of the tick deltas of `events`: the absolute tick reached after
/// consuming them all.
pub open spec fn sum_deltas(events: Seq<MidiEvent>) -> int
    decreases events.len(),
{
    if events.len() == 0 {
        0
    } else {
        sum_deltas(events.drop_last()) + events.last().delta
    }
}

/// Partial delta sums grow with the prefix: each event contributes a
/// non-negative delta.
proof fn lemma_sum_deltas_monotonic(events: Seq<MidiEvent>, i: int, j: int)
    requires
        0 <= i <= j <= events.len(),
    ensures
        sum_deltas(events.take(i)) <= sum_deltas(events.take(j)),
    decreases j - i,
{
    if i < j {
        lemma_sum_deltas_monotonic(events, i, j - 1);
        assert(events.take(j).drop_last() =~= events.take(j - 1));
    }
}

/// Whether `e` is a tempo meta-event that implies no duration per
/// quarter note.
pub open spec fn is_degenerate_tempo(e: MidiEvent) -> bool {
    e.kind matches MidiEventKind::Tempo(micros) && micros == 0
}

/// The tempo entries a track contributes: one per tempo meta-event,
/// carrying its microseconds per quarter note, at its absolute tick.
pub open spec fn tempo_entries(events: Seq<MidiEvent>) -> Seq<MoonTempo>
    decreases events.len(),
{
    if events.len() == 0 {
        Seq::empty()
    } else {
        let rest = tempo_entries(events.drop_last());
        match events.last().kind {
            MidiEventKind::Tempo(micros) => rest.push(
                MoonTempo {
                    micros_per_beat: micros,
                    time: sum_deltas(events) as u32,
                    delta: events.last().delta,
                },
            ),
            _ => rest,
        }
    }
}

/// Consumes the tempo/meta track: accumulates the absolute tick across
/// its events and appends one tempo map entry per tempo meta-event.
/// Every other event kind is ignored.
///
/// Fails at the first tempo meta-event that implies no duration per
/// quarter note, naming its absolute tick; entries seen before it are
/// kept. Nothing else of the song changes either way.
pub fn parse_tempo(moonsong: &mut Moonsong, track: &Vec<MidiEvent>) -> (result: Result<
    (),
    MoonError,
>)
    requires
        sum_deltas(track@) <= u32::MAX,
    ensures
        final(moonsong).name == old(moonsong).name,
        final(moonsong).resolution == old(moonsong).resolution,
        final(moonsong).tracks == old(moonsong).tracks,
        final(moonsong).events == old(moonsong).events,
        final(moonsong).warnings == old(moonsong).warnings,
        final(moonsong).time_in_seconds == old(moonsong).time_in_seconds,
        match result {
            Ok(_) => {
                &&& forall|i: int|
                    0 <= i < track@.len() ==> !is_degenerate_tempo(#[trigger] track@[i])
                &&& final(moonsong).tempo_changes@ == old(moonsong).tempo_changes@
                    + tempo_entries(track@)
            },
            Err(e) => match e {
                MoonError::DegenerateTempo { tick } => exists|i: int|
                    {
                        &&& 0 <= i < track@.len()
                        &&& is_degenerate_tempo(#[trigger] track@[i])
                        &&& (forall|j: int|
                            0 <= j < i ==> !is_degenerate_tempo(#[trigger] track@[j]))
                        &&& tick == sum_deltas(track@.take(i + 1))
                        &&& final(moonsong).tempo_changes@ == old(moonsong).tempo_changes@
                            + tempo_entries(track@.take(i))
                    },
                _ => false,
            },
        },
{
    let n = track.len();
    let mut tick: u32 = 0;
    let mut i: usize = 0;
    while i < n
        invariant
            i <= n,
            n == track@.len(),
            sum_deltas(track@) <= u32::MAX,
            tick == sum_deltas(track@.take(i as int)),
            moonsong.tempo_changes@ == old(moonsong).tempo_changes@ + tempo_entries(
                track@.take(i as int),
            ),
            forall|j: int| 0 <= j < i ==> !is_degenerate_tempo(#[trigger] track@[j]),
            moonsong.name == old(moonsong).name,
            moonsong.resolution == old(moonsong).resolution,
            moonsong.tracks == old(moonsong).tracks,
            moonsong.events == old(moonsong).events,
            moonsong.warnings == old(moonsong).warnings,
            moonsong.time_in_seconds == old(moonsong).time_in_seconds,
        decreases n - i,
    {
        proof {
            assert(track@.take(i + 1).drop_last() =~= track@.take(i as int));
            assert(track@.take(i + 1).last() == track@[i as int]);
            assert(track@.take(n as int) =~= track@);
            lemma_sum_deltas_monotonic(track@, i + 1, n as int);
        }
        let ev = &track[i];
        tick = tick + ev.delta;
        match &ev.kind {
            MidiEventKind::Tempo(micros) => {
                if *micros == 0 {
                    return Err(MoonError::DegenerateTempo { tick });
                }
                moonsong.tempo_changes.push(
                    MoonTempo { micros_per_beat: *micros, time: tick, delta: ev.delta },
                );
                proof {
                    assert(moonsong.tempo_changes@ =~= old(moonsong).tempo_changes@
                        + tempo_entries(track@.take(i + 1)));
                }
            },
            _ => {},
        }
        i = i + 1;
    }
    proof {
        assert(track@.take(n as int) =~= track@);
    }
    Ok(())
}

/// The text-event entries a track contributes, as views: the decoded
/// text (or the end-of-track sentinel's name) with the event's
/// absolute tick and its own delta. Text events whose payload is not
/// valid UTF-8 contribute nothing here.
pub open spec fn event_entries(events: Seq<MidiEvent>) -> Seq<(Seq<char>, int, int)>
    decreases events.len(),
{
    if events.len() == 0 {
        Seq::empty()
    } else {
        let rest = event_entries(events.drop_last());
        let e = events.last();
        match e.kind {
            MidiEventKind::Text(bytes) => if valid_utf8(bytes@) {
                rest.push((decode_utf8(bytes@), sum_deltas(events), e.delta as int))
            } else {
                rest
            },
            MidiEventKind::EndOfTrack => rest.push(
                ("End of Track"@, sum_deltas(events), e.delta as int),
            ),
            _ => rest,
        }
    }
}

/// The absolute ticks of the text events whose payload is not valid
/// UTF-8; those events are skipped and reported as warnings.
pub open spec fn malformed_ticks(events: Seq<MidiEvent>) -> Seq<u32>
    decreases events.len(),
{
    if events.len() == 0 {
        Seq::empty()
    } else {
        let rest = malformed_ticks(events.drop_last());
        match events.last().kind {
            MidiEventKind::Text(bytes) => if !valid_utf8(bytes@) {
                rest.push(sum_deltas(events) as u32)
            } else {
                rest
            },
            _ => rest,
        }
    }
}

/// The views of a sequence of song text events.
pub open spec fn events_view(events: Seq<TrackEvent>) -> Seq<(Seq<char>, int, int)> {
    events.map_values(|e: TrackEvent| e@)
}

/// Consumes the lyric/marker track: accumulates the absolute tick,
/// appends one song event per text meta-event that decodes, and one
/// sentinel event named "End of Track" per end-of-track meta-event at
/// its tick, so the song's last tick is anchored even without notes.
/// The tick of every text event whose payload fails to decode is
/// recorded as a warning and the event is skipped; the track's other
/// event kinds are ignored. Nothing else of the song changes.
pub fn parse_events(moonsong: &mut Moonsong, track: &Vec<MidiEvent>)
    requires
        sum_deltas(track@) <= u32::MAX,
    ensures
        events_view(final(moonsong).events@) == events_view(old(moonsong).events@)
            + event_entries(track@),
        final(moonsong).warnings@ == old(moonsong).warnings@ + malformed_ticks(track@),
        final(moonsong).name == old(moonsong).name,
        final(moonsong).resolution == old(moonsong).resolution,
        final(moonsong).tracks == old(moonsong).tracks,
        final(moonsong).tempo_changes == old(moonsong).tempo_changes,
        final(moonsong).time_in_seconds == old(moonsong).time_in_seconds,
{
    let n = track.len();
    let mut tick: u32 = 0;
    let mut i: usize = 0;
    while i < n
        invariant
            i <= n,
            n == track@.len(),
            sum_deltas(track@) <= u32::MAX,
            tick == sum_deltas(track@.take(i as int)),
            events_view(moonsong.events@) == events_view(old(moonsong).events@) + event_entries(
                track@.take(i as int),
            ),
            moonsong.warnings@ == old(moonsong).warnings@ + malformed_ticks(
                track@.take(i as int),
            ),
            moonsong.name == old(moonsong).name,
            moonsong.resolution == old(moonsong).resolution,
            moonsong.tracks == old(moonsong).tracks,
            moonsong.tempo_changes == old(moonsong).tempo_changes,
            moonsong.time_in_seconds == old(moonsong).time_in_seconds,
        decreases n - i,
    {
        proof {
            assert(track@.take(i + 1).drop_last() =~= track@.take(i as int));
            assert(track@.take(i + 1).last() == track@[i as int]);
            assert(track@.take(n as int) =~= track@);
            lemma_sum_deltas_monotonic(track@, i + 1, n as int);
        }
        let ev = &track[i];
        tick = tick + ev.delta;
        match &ev.kind {
            MidiEventKind::Text(bytes) => {
                match crate::midi::decode_text(bytes.as_slice()) {
                    Some(text) => {
                        let entry = TrackEvent {
                            name: String::from_str(text),
                            time: tick,
                            delta: ev.delta,
                        };
                        let ghost entry_v = entry@;
                        let ghost prev_events = moonsong.events@;
                        moonsong.add_event(entry);
                        proof {
                            assert(entry_v == (decode_utf8(bytes@), tick as int, ev.delta as int));
                            assert(event_entries(track@.take(i + 1)) == event_entries(
                                track@.take(i as int),
                            ).push(entry_v));
                            assert(events_view(prev_events.push(entry)) =~= events_view(
                                prev_events,
                            ).push(entry_v));
                            assert(events_view(moonsong.events@) =~~= events_view(
                                old(moonsong).events@,
                            ) + event_entries(track@.take(i + 1)));
                        }
                    },
                    None => {
                        moonsong.warnings.push(tick);
                        proof {
                            assert(moonsong.warnings@ =~= old(moonsong).warnings@
                                + malformed_ticks(track@.take(i + 1)));
                        }
                    },
                }
            },
            MidiEventKind::EndOfTrack => {
                let entry = TrackEvent {
                    name: String::from_str("End of Track"),
                    time: tick,
                    delta: ev.delta,
                };
                let ghost entry_v = entry@;
                let ghost prev_events = moonsong.events@;
                moonsong.add_event(entry);
                proof {
                    assert(entry_v == ("End of Track"@, tick as int, ev.delta as int));
                    assert(event_entries(track@.take(i + 1)) == event_entries(
                        track@.take(i as int),
                    ).push(entry_v));
                    assert(events_view(prev_events.push(entry)) =~= events_view(
                        prev_events,
                    ).push(entry_v));
                    assert(events_view(moonsong.events@) =~~= events_view(old(moonsong).events@)
                        + event_entries(track@.take(i + 1)));
                }
            },
            _ => {},
        }
        i = i + 1;
    }
    proof {
        assert(track@.take(n as int) =~= track@);
    }
}

/// The note entry a voice note-on/note-off event contributes at the
/// given absolute tick; `None` for every other event kind.
pub open spec fn note_of(e: MidiEvent, tick: int) -> Option<MoonNote> {
    match e.kind {
        MidiEventKind::NoteOn { key } => Some(
            MoonNote { key, note_state: true, time: tick as u32, delta: e.delta },
        ),
        MidiEventKind::NoteOff { key } => Some(
            MoonNote { key, note_state: false, time: tick as u32, delta: e.delta },
        ),
        _ => None,
    }
}

/// The note stream a track contributes to the lane of `difficulty`:
/// its note-on/note-off events whose key falls in that bucket, in
/// arrival order, each at its absolute tick.
pub open spec fn lane_notes(events: Seq<MidiEvent>, difficulty: MoonDifficulty) -> Seq<MoonNote>
    decreases events.len(),
{
    if events.len() == 0 {
        Seq::empty()
    } else {
        let rest = lane_notes(events.drop_last(), difficulty);
        match note_of(events.last(), sum_deltas(events)) {
            Some(note) => if difficulty_of(note.key) == difficulty {
                rest.push(note)
            } else {
                rest
            },
            None => rest,
        }
    }
}

/// Whether `e` is a voice note-on or note-off event.
pub open spec fn is_note_event(e: MidiEvent) -> bool {
    ||| e.kind matches MidiEventKind::NoteOn { .. }
    ||| e.kind matches MidiEventKind::NoteOff { .. }
}

/// Law: a track without note events contributes an empty note stream
/// to every difficulty lane, so an instrument track with zero note
/// events still yields a track whose five lanes are all present and
/// all empty.
pub proof fn lemma_no_note_events_empty_lanes(events: Seq<MidiEvent>, difficulty: MoonDifficulty)
    requires
        forall|i: int| 0 <= i < events.len() ==> !is_note_event(#[trigger] events[i]),
    ensures
        lane_notes(events, difficulty) == Seq::<MoonNote>::empty(),
    decreases events.len(),
{
    if events.len() > 0 {
        assert(!is_note_event(events[events.len() - 1]));
        assert forall|i: int| 0 <= i < events.drop_last().len() implies !is_note_event(
            #[trigger] events.drop_last()[i],
        ) by {
            assert(!is_note_event(events[i]));
        }
        lemma_no_note_events_empty_lanes(events.drop_last(), difficulty);
    }
}

/// Consumes one instrument track: accumulates the absolute tick,
/// buckets every note-on and note-off by its key value, records them
/// in arrival order, and appends the finished track — always with all
/// five lanes — to the song. Non-note voice events and meta-events are
/// ignored. Nothing else of the song changes.
pub fn parse_notes(moonsong: &mut Moonsong, track_name: MoonTrackName, track: &Vec<MidiEvent>)
    requires
        sum_deltas(track@) <= u32::MAX,
    ensures
        final(moonsong).tracks@ == old(moonsong).tracks@.push(final(moonsong).tracks@.last()),
        final(moonsong).tracks@.last().name == track_name,
        forall|d: MoonDifficulty| #[trigger] lane_of(final(moonsong).tracks@.last(), d).notes@
            == lane_notes(track@, d),
        final(moonsong).name == old(moonsong).name,
        final(moonsong).resolution == old(moonsong).resolution,
        final(moonsong).events == old(moonsong).events,
        final(moonsong).tempo_changes == old(moonsong).tempo_changes,
        final(moonsong).warnings == old(moonsong).warnings,
        final(moonsong).time_in_seconds == old(moonsong).time_in_seconds,
{
    let mut moon_track = MoonTrack::new(track_name);
    let n = track.len();
    let mut tick: u32 = 0;
    let mut i: usize = 0;
    while i < n
        invariant
            i <= n,
            n == track@.len(),
            sum_deltas(track@) <= u32::MAX,
            tick == sum_deltas(track@.take(i as int)),
            moon_track.name == track_name,
            forall|d: MoonDifficulty| #[trigger] lane_of(moon_track, d).notes@ == lane_notes(
                track@.take(i as int),
                d,
            ),
        decreases n - i,
    {
        proof {
            assert(track@.take(i + 1).drop_last() =~= track@.take(i as int));
            assert(track@.take(i + 1).last() == track@[i as int]);
            assert(track@.take(n as int) =~= track@);
            lemma_sum_deltas_monotonic(track@, i + 1, n as int);
        }
        let ev = &track[i];
        tick = tick + ev.delta;
        match &ev.kind {
            MidiEventKind::NoteOn { key } => {
                let difficulty = MoonDifficulty::get_difficulty(key);
                let ghost before = moon_track;
                moon_track.add_note(&difficulty, *key, true, ev.delta, tick);
                proof {
                    assert forall|d: MoonDifficulty| #[trigger] lane_of(moon_track, d).notes@
                        == lane_notes(track@.take(i + 1), d) by {
                        assert(lane_of(before, d).notes@ == lane_notes(track@.take(i as int), d));
                    }
                }
            },
            MidiEventKind::NoteOff { key } => {
                let difficulty = MoonDifficulty::get_difficulty(key);
                let ghost before = moon_track;
                moon_track.add_note(&difficulty, *key, false, ev.delta, tick);
                proof {
                    assert forall|d: MoonDifficulty| #[trigger] lane_of(moon_track, d).notes@
                        == lane_notes(track@.take(i + 1), d) by {
                        assert(lane_of(before, d).notes@ == lane_notes(track@.take(i as int), d));
                    }
                }
            },
            _ => {},
        }
        i = i + 1;
    }
    proof {
        assert(track@.take(n as int) =~= track@);
    }
    moonsong.tracks.push(moon_track);
}

/// Classifies one parsed track by its declared name and routes it:
/// the tempo/meta track feeds the tempo map, the lyric/marker track
/// feeds the song's events, instrument tracks are bucketed into
/// difficulty lanes. A track with an unrecognized or absent name
/// leaves the song entirely untouched and is not an error, so
/// processing can continue with the following tracks.
pub fn parse_track(moonsong: &mut Moonsong, track: &Vec<MidiEvent>) -> (result: Result<
    TrackRole,
    MoonError,
>)
    requires
        sum_deltas(track@) <= u32::MAX,
    ensures
        final(moonsong).name == old(moonsong).name,
        final(moonsong).resolution == old(moonsong).resolution,
        final(moonsong).time_in_seconds == old(moonsong).time_in_seconds,
        result matches Ok(role) ==> role == track_role(track@),
        result is Err ==> track_role(track@) == TrackRole::TempoMeta,
        match track_role(track@) {
            TrackRole::Unclassified => {
                &&& result == Ok::<TrackRole, MoonError>(TrackRole::Unclassified)
                &&& *final(moonsong) == *old(moonsong)
            },
            TrackRole::LyricEvents => {
                &&& result == Ok::<TrackRole, MoonError>(TrackRole::LyricEvents)
                &&& events_view(final(moonsong).events@) == events_view(old(moonsong).events@)
                    + event_entries(track@)
                &&& final(moonsong).warnings@ == old(moonsong).warnings@ + malformed_ticks(track@)
                &&& final(moonsong).tracks == old(moonsong).tracks
                &&& final(moonsong).tempo_changes == old(moonsong).tempo_changes
            },
            TrackRole::Instrument(name) => {
                &&& result == Ok::<TrackRole, MoonError>(TrackRole::Instrument(name))
                &&& final(moonsong).tracks@ == old(moonsong).tracks@.push(
                    final(moonsong).tracks@.last(),
                )
                &&& final(moonsong).tracks@.last().name == name
                &&& forall|d: MoonDifficulty| #[trigger] lane_of(
                    final(moonsong).tracks@.last(),
                    d,
                ).notes@ == lane_notes(track@, d)
                &&& final(moonsong).events == old(moonsong).events
                &&& final(moonsong).tempo_changes == old(moonsong).tempo_changes
                &&& final(moonsong).warnings == old(moonsong).warnings
            },
            TrackRole::TempoMeta => {
                &&& final(moonsong).tracks == old(moonsong).tracks
                &&& final(moonsong).events == old(moonsong).events
                &&& final(moonsong).warnings == old(moonsong).warnings
                &&& match result {
                    Ok(_) => {
                        &&& forall|i: int|
                            0 <= i < track@.len() ==> !is_degenerate_tempo(#[trigger] track@[i])
                        &&& final(moonsong).tempo_changes@ == old(moonsong).tempo_changes@
                            + tempo_entries(track@)
                    },
                    Err(e) => match e {
                        MoonError::DegenerateTempo { tick } => exists|i: int|
                            {
                                &&& 0 <= i < track@.len()
                                &&& is_degenerate_tempo(#[trigger] track@[i])
                                &&& (forall|j: int|
                                    0 <= j < i ==> !is_degenerate_tempo(#[trigger] track@[j]))
                                &&& tick == sum_deltas(track@.take(i + 1))
                                &&& final(moonsong).tempo_changes@ == old(moonsong).tempo_changes@
                                    + tempo_entries(track@.take(i))
                            },
                        _ => false,
                    },
                }
            },
        },
{
    let role = classify_track(track);
    match role {
        TrackRole::TempoMeta => {
            match parse_tempo(moonsong, track) {
                Ok(_) => Ok(TrackRole::TempoMeta),
                Err(e) => Err(e),
            }
        },
        TrackRole::LyricEvents => {
            parse_events(moonsong, track);
            Ok(TrackRole::LyricEvents)
        },
        TrackRole::Instrument(name) => {
            parse_notes(moonsong, name, track);
            Ok(TrackRole::Instrument(name))
        },
        TrackRole::Unclassified => Ok(TrackRole::Unclassified),
    }
}

} // verus!
