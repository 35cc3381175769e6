use rustly_lane::midi::{MidiEvent, MidiEventKind, MoonTrackName};
use rustly_lane::moonsong::{MoonError, MoonTempo, Moonsong, TrackEvent};
use rustly_lane::parsers::parse_notes;

fn event_at(time: u32) -> TrackEvent {
    TrackEvent { name: "End of Track".to_string(), time, delta: 0 }
}

#[test]
fn default_tempo_480_ticks_is_one_second() {
    // 480 ticks at resolution 480 and the default 120 BPM is exactly
    // half a second, so the ceiling is one second.
    let mut song = Moonsong::new(480);
    song.add_event(event_at(480));
    assert_eq!(song.set_time_in_seconds(), Ok(()));
    assert_eq!(song.time_in_seconds, 1);
}

#[test]
fn two_segments_sum_to_one_second() {
    // 0..480 at 120 BPM is 0.5 s, 480..960 at 240 BPM is 0.25 s;
    // 0.75 s rounds up to 1 s.
    let mut song = Moonsong::new(480);
    song.tempo_changes.push(MoonTempo { micros_per_beat: 500_000, time: 0, delta: 0 });
    song.tempo_changes.push(MoonTempo { micros_per_beat: 250_000, time: 480, delta: 480 });
    song.add_event(event_at(960));
    assert_eq!(song.set_time_in_seconds(), Ok(()));
    assert_eq!(song.time_in_seconds, 1);
}

#[test]
fn leading_span_uses_default_tempo() {
    // The first tempo entry starts at tick 1920; the span before it is
    // integrated at the default 120 BPM (2 s), not at the declared
    // 240 BPM (which would give 1 s).
    let mut song = Moonsong::new(480);
    song.tempo_changes.push(MoonTempo { micros_per_beat: 250_000, time: 1920, delta: 1920 });
    song.add_event(event_at(1920));
    assert_eq!(song.set_time_in_seconds(), Ok(()));
    assert_eq!(song.time_in_seconds, 2);
}

#[test]
fn later_entry_wins_at_equal_ticks() {
    // Two tempo entries at tick 0: the later one (120 BPM) takes
    // effect, giving 2 s over 1920 ticks; the earlier one (60 BPM)
    // would give 4 s.
    let mut song = Moonsong::new(480);
    song.tempo_changes.push(MoonTempo { micros_per_beat: 1_000_000, time: 0, delta: 0 });
    song.tempo_changes.push(MoonTempo { micros_per_beat: 500_000, time: 0, delta: 0 });
    song.add_event(event_at(1920));
    assert_eq!(song.set_time_in_seconds(), Ok(()));
    assert_eq!(song.time_in_seconds, 2);
}

#[test]
fn unsorted_tempo_entries_are_sorted_before_integration() {
    let mut song = Moonsong::new(480);
    song.tempo_changes.push(MoonTempo { micros_per_beat: 250_000, time: 480, delta: 480 });
    song.tempo_changes.push(MoonTempo { micros_per_beat: 500_000, time: 0, delta: 0 });
    song.add_event(event_at(960));
    assert_eq!(song.set_time_in_seconds(), Ok(()));
    assert_eq!(song.time_in_seconds, 1);
    assert_eq!(song.tempo_changes[0].time, 0);
    assert_eq!(song.tempo_changes[1].time, 480);
}

#[test]
fn duration_computation_is_idempotent() {
    let mut song = Moonsong::new(480);
    song.tempo_changes.push(MoonTempo { micros_per_beat: 250_000, time: 480, delta: 480 });
    song.tempo_changes.push(MoonTempo { micros_per_beat: 500_000, time: 0, delta: 0 });
    song.add_event(event_at(960));
    assert_eq!(song.set_time_in_seconds(), Ok(()));
    let first = song.time_in_seconds;
    let tempos_after_first = song.tempo_changes.clone();
    assert_eq!(song.set_time_in_seconds(), Ok(()));
    assert_eq!(song.time_in_seconds, first);
    assert_eq!(song.tempo_changes, tempos_after_first);
}

#[test]
fn zero_resolution_is_an_error() {
    let mut song = Moonsong::new(0);
    song.add_event(event_at(480));
    assert_eq!(song.set_time_in_seconds(), Err(MoonError::ZeroResolution));
    // The song is left unchanged.
    assert_eq!(song.time_in_seconds, 0);
    assert_eq!(song.events.len(), 1);
}

#[test]
fn degenerate_tempo_entry_is_an_error_with_its_tick() {
    let mut song = Moonsong::new(480);
    song.tempo_changes.push(MoonTempo { micros_per_beat: 500_000, time: 0, delta: 0 });
    song.tempo_changes.push(MoonTempo { micros_per_beat: 0, time: 7, delta: 7 });
    assert_eq!(song.set_time_in_seconds(), Err(MoonError::DegenerateTempo { tick: 7 }));
    assert_eq!(song.time_in_seconds, 0);
}

#[test]
fn empty_song_has_zero_duration() {
    let mut song = Moonsong::new(480);
    assert_eq!(song.set_time_in_seconds(), Ok(()));
    assert_eq!(song.time_in_seconds, 0);
}

#[test]
fn last_tick_comes_from_note_lanes_too() {
    // A note at tick 480 anchors the duration even without events.
    let mut song = Moonsong::new(480);
    let track = vec![MidiEvent { delta: 480, kind: MidiEventKind::NoteOn { key: 60 } }];
    parse_notes(&mut song, MoonTrackName::Guitar, &track);
    assert_eq!(song.set_time_in_seconds(), Ok(()));
    assert_eq!(song.time_in_seconds, 1);
}
