use rustly_lane::midi::{
    classify_track, get_track_name, MidiEvent, MidiEventKind, MoonTrackName, TrackRole,
};
use rustly_lane::moonsong::{MoonDifficulty, MoonError, MoonLane, MoonTrack, Moonsong};
use rustly_lane::parsers::{parse_events, parse_notes, parse_tempo, parse_track};

fn ev(delta: u32, kind: MidiEventKind) -> MidiEvent {
    MidiEvent { delta, kind }
}

fn named(name: &[u8]) -> MidiEvent {
    ev(0, MidiEventKind::TrackName(name.to_vec()))
}

#[test]
fn track_name_found_among_start_events() {
    let track = vec![ev(0, MidiEventKind::Other), named(b"PART GUITAR")];
    assert_eq!(get_track_name(&track), Some("PART GUITAR".to_string()));
}

#[test]
fn track_name_after_nonzero_delta_is_ignored() {
    let track = vec![ev(0, MidiEventKind::Other), ev(10, MidiEventKind::TrackName(b"PART GUITAR".to_vec()))];
    assert_eq!(get_track_name(&track), None);
}

#[test]
fn track_name_invalid_utf8_yields_none() {
    let track = vec![ev(0, MidiEventKind::TrackName(vec![0xFF, 0xFE]))];
    assert_eq!(get_track_name(&track), None);
}

#[test]
fn classification_table() {
    assert_eq!(classify_track(&vec![named(b"TEMPO")]), TrackRole::TempoMeta);
    assert_eq!(classify_track(&vec![named(b"EVENTS")]), TrackRole::LyricEvents);
    assert_eq!(
        classify_track(&vec![named(b"PART GUITAR")]),
        TrackRole::Instrument(MoonTrackName::Guitar)
    );
    assert_eq!(
        classify_track(&vec![named(b"PART BASS")]),
        TrackRole::Instrument(MoonTrackName::Bass)
    );
    assert_eq!(
        classify_track(&vec![named(b"PART DRUMS")]),
        TrackRole::Instrument(MoonTrackName::Drums)
    );
    assert_eq!(
        classify_track(&vec![named(b"PART VOCALS")]),
        TrackRole::Instrument(MoonTrackName::Vocals)
    );
    assert_eq!(classify_track(&vec![named(b"JUNK")]), TrackRole::Unclassified);
    assert_eq!(classify_track(&vec![ev(0, MidiEventKind::Other)]), TrackRole::Unclassified);
    assert_eq!(classify_track(&Vec::new()), TrackRole::Unclassified);
}

#[test]
fn tempo_entries_accumulate_ticks() {
    let mut song = Moonsong::new(480);
    let track = vec![
        ev(0, MidiEventKind::Tempo(500_000)),
        ev(480, MidiEventKind::Other),
        ev(480, MidiEventKind::Tempo(250_000)),
    ];
    assert_eq!(parse_tempo(&mut song, &track), Ok(()));
    assert_eq!(song.tempo_changes.len(), 2);
    assert_eq!(song.tempo_changes[0].micros_per_beat, 500_000);
    assert_eq!(song.tempo_changes[0].time, 0);
    assert_eq!(song.tempo_changes[0].delta, 0);
    assert_eq!(song.tempo_changes[1].micros_per_beat, 250_000);
    assert_eq!(song.tempo_changes[1].time, 960);
    assert_eq!(song.tempo_changes[1].delta, 480);
}

#[test]
fn zero_micros_tempo_event_is_an_error() {
    let mut song = Moonsong::new(480);
    let track = vec![
        ev(0, MidiEventKind::Tempo(500_000)),
        ev(100, MidiEventKind::Tempo(0)),
    ];
    assert_eq!(parse_tempo(&mut song, &track), Err(MoonError::DegenerateTempo { tick: 100 }));
    // The entry seen before the degenerate one is kept.
    assert_eq!(song.tempo_changes.len(), 1);
    assert_eq!(song.tempo_changes[0].time, 0);
}

#[test]
fn text_events_are_decoded_at_their_ticks() {
    let mut song = Moonsong::new(480);
    let track = vec![
        ev(0, MidiEventKind::Text(b"verse one".to_vec())),
        ev(240, MidiEventKind::Text(b"chorus".to_vec())),
        ev(240, MidiEventKind::EndOfTrack),
    ];
    parse_events(&mut song, &track);
    assert_eq!(song.events.len(), 3);
    assert_eq!(song.events[0].name, "verse one");
    assert_eq!(song.events[0].time, 0);
    assert_eq!(song.events[1].name, "chorus");
    assert_eq!(song.events[1].time, 240);
    assert_eq!(song.events[2].name, "End of Track");
    assert_eq!(song.events[2].time, 480);
    assert_eq!(song.events[2].delta, 240);
    assert!(song.warnings.is_empty());
}

#[test]
fn malformed_text_event_is_skipped_and_reported() {
    let mut song = Moonsong::new(480);
    let track = vec![
        ev(0, MidiEventKind::Text(b"fine".to_vec())),
        ev(10, MidiEventKind::Text(vec![0xC0, 0x00])),
        ev(5, MidiEventKind::EndOfTrack),
    ];
    parse_events(&mut song, &track);
    assert_eq!(song.events.len(), 2);
    assert_eq!(song.events[0].name, "fine");
    assert_eq!(song.events[1].name, "End of Track");
    assert_eq!(song.events[1].time, 15);
    assert_eq!(song.warnings, vec![10]);
}

#[test]
fn notes_are_bucketed_by_key() {
    let mut song = Moonsong::new(480);
    let track = vec![
        ev(0, MidiEventKind::NoteOn { key: 60 }),
        ev(10, MidiEventKind::NoteOff { key: 60 }),
        ev(10, MidiEventKind::NoteOn { key: 72 }),
        ev(10, MidiEventKind::NoteOn { key: 84 }),
        ev(10, MidiEventKind::NoteOn { key: 96 }),
        ev(10, MidiEventKind::NoteOn { key: 59 }),
        ev(10, MidiEventKind::Other),
    ];
    parse_notes(&mut song, MoonTrackName::Drums, &track);
    assert_eq!(song.tracks.len(), 1);
    let t = &song.tracks[0];
    assert_eq!(t.name, MoonTrackName::Drums);
    assert_eq!(t.easy.count_notes(), 2);
    assert_eq!(t.easy.count_on_notes(), 1);
    assert_eq!(t.easy.count_off_notes(), 1);
    assert_eq!(t.medium.count_notes(), 1);
    assert_eq!(t.hard.count_notes(), 1);
    assert_eq!(t.expert.count_notes(), 1);
    assert_eq!(t.undefined.count_notes(), 1);
    // Absolute ticks accumulate from the per-event deltas.
    assert_eq!(t.easy.notes[0].time, 0);
    assert_eq!(t.easy.notes[1].time, 10);
    assert_eq!(t.medium.notes[0].time, 20);
    assert_eq!(t.undefined.notes[0].key, 59);
    assert_eq!(t.undefined.notes[0].time, 50);
}

#[test]
fn instrument_track_without_notes_has_five_empty_lanes() {
    let mut song = Moonsong::new(480);
    let track = vec![named(b"PART GUITAR"), ev(120, MidiEventKind::EndOfTrack)];
    parse_notes(&mut song, MoonTrackName::Guitar, &track);
    assert_eq!(song.tracks.len(), 1);
    let t = &song.tracks[0];
    for d in [
        MoonDifficulty::Easy,
        MoonDifficulty::Medium,
        MoonDifficulty::Hard,
        MoonDifficulty::Expert,
        MoonDifficulty::UNDEFINED,
    ] {
        assert_eq!(t.get_difficulty_lane(&d).count_notes(), 0);
    }
}

#[test]
fn unclassified_track_is_skipped_and_parsing_continues() {
    let mut song = Moonsong::new(480);
    let junk = vec![
        named(b"T0 METADATA"),
        ev(10, MidiEventKind::NoteOn { key: 60 }),
        ev(10, MidiEventKind::Tempo(500_000)),
        ev(10, MidiEventKind::Text(b"ignored".to_vec())),
    ];
    assert_eq!(parse_track(&mut song, &junk), Ok(TrackRole::Unclassified));
    assert!(song.tracks.is_empty());
    assert!(song.events.is_empty());
    assert!(song.tempo_changes.is_empty());
    assert!(song.warnings.is_empty());
    // A later recognized track is still processed.
    let bass = vec![named(b"PART BASS"), ev(10, MidiEventKind::NoteOn { key: 72 })];
    assert_eq!(parse_track(&mut song, &bass), Ok(TrackRole::Instrument(MoonTrackName::Bass)));
    assert_eq!(song.tracks.len(), 1);
    assert_eq!(song.tracks[0].name, MoonTrackName::Bass);
    assert_eq!(song.tracks[0].medium.count_notes(), 1);
}

#[test]
fn parse_track_routes_by_name() {
    let mut song = Moonsong::new(480);
    let tempo_track = vec![named(b"TEMPO"), ev(0, MidiEventKind::Tempo(500_000))];
    assert_eq!(parse_track(&mut song, &tempo_track), Ok(TrackRole::TempoMeta));
    assert_eq!(song.tempo_changes.len(), 1);
    let events_track = vec![named(b"EVENTS"), ev(480, MidiEventKind::EndOfTrack)];
    assert_eq!(parse_track(&mut song, &events_track), Ok(TrackRole::LyricEvents));
    assert_eq!(song.events.len(), 1);
    assert_eq!(song.events[0].time, 480);
    assert_eq!(song.set_time_in_seconds(), Ok(()));
    assert_eq!(song.time_in_seconds, 1);
}

#[test]
fn parse_track_reports_degenerate_tempo() {
    let mut song = Moonsong::new(480);
    let tempo_track = vec![named(b"TEMPO"), ev(240, MidiEventKind::Tempo(0))];
    assert_eq!(
        parse_track(&mut song, &tempo_track),
        Err(MoonError::DegenerateTempo { tick: 240 })
    );
}

#[test]
fn track_and_lane_builders() {
    let mut t = MoonTrack::new(MoonTrackName::Vocals);
    assert_eq!(t.name, MoonTrackName::Vocals);
    assert_eq!(t.get_difficulty_lane(&MoonDifficulty::Easy).count_notes(), 0);
    t.add_note(&MoonDifficulty::Easy, 61, true, 0, 5);
    assert_eq!(t.easy.count_notes(), 1);
    assert_eq!(t.easy.notes[0].key, 61);
    assert!(t.easy.notes[0].note_state);
    let mut lane = MoonLane { notes: Vec::new() };
    lane.add_note(90, false, 3, 12);
    assert_eq!(lane.count_notes(), 1);
    assert_eq!(lane.count_off_notes(), 1);
    assert_eq!(lane.count_on_notes(), 0);
    assert_eq!(lane.notes[0].time, 12);
    assert_eq!(lane.notes[0].delta, 3);
}

#[test]
fn song_name_and_resolution() {
    let mut song = Moonsong::new(192);
    assert_eq!(song.resolution, 192);
    assert_eq!(song.name, "");
    song.set_name("Eye of the Tiger".to_string());
    assert_eq!(song.name, "Eye of the Tiger");
}
