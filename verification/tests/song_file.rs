use chiptrack::markdown::{parse_markdown_song, SongParseError};
use chiptrack::sequencer::{Sequencer, SequencerSong};
use chiptrack::song_writer::{is_writable, song_to_markdown};

fn song_text(rows: &[&str]) -> String {
    let mut s = String::from("\n## Pattern 1\n\n|0  |\n|---|\n");
    for r in rows {
        s.push_str(r);
        s.push('\n');
    }
    s.push_str("\n## Settings\n\n- InstrumentsFile: blah\n");
    s
}

#[test]
fn header_cells_are_trimmed_ids() {
    let mut rows = vec!["|C-5|"];
    rows.extend(std::iter::repeat("|   |").take(15));
    let song = parse_markdown_song(&song_text(&rows)).unwrap();
    assert_eq!(song.patterns[0].instruments[0].id, "0");
    assert_eq!(song.patterns[0].instruments[0].synth_index, None);
    assert_eq!(song.markdown_header, "\n");
    assert_eq!(song.frames_per_step, 7);
}

#[test]
fn song_list_and_settings() {
    let song = parse_markdown_song(
        "# My song\n\n## Song\n\n- [Pattern 2](#pattern-2)\n- [Pattern 1](#pattern-1)\n\n## Settings\n\n- InstrumentsFile: inst.wat\n- FramesPerStep: 5\n- Unknown: 3\n",
    )
    .unwrap();
    assert_eq!(song.song_patterns, vec![1, 0]);
    assert_eq!(song.instruments_file, "inst.wat");
    assert_eq!(song.frames_per_step, 5);
    assert_eq!(song.markdown_header, "# My song\n\n");
}

#[test]
fn song_errors() {
    let bad_item = parse_markdown_song("## Song\n\n- Intro\n\n## Settings\n\n- InstrumentsFile: x\n");
    assert!(matches!(bad_item, Err(SongParseError::InvalidSongPattern(_))));
    let bad_setting = parse_markdown_song("## Settings\n\n- InstrumentsFile x\n");
    assert!(matches!(bad_setting, Err(SongParseError::InvalidSetting(_))));
    let bad_fps = parse_markdown_song("## Settings\n\n- InstrumentsFile: x\n- FramesPerStep: -3\n");
    assert!(matches!(bad_fps, Err(SongParseError::InvalidFramesPerStep(_))));
    let missing = parse_markdown_song("## Settings\n\n- FramesPerStep: 3\n");
    assert!(matches!(missing, Err(SongParseError::MissingInstrumentsFile)));
    let out_of_range = parse_markdown_song("## Pattern 65\n");
    assert!(matches!(out_of_range, Err(SongParseError::PatternOutOfRange(_))));
    let mut rows = vec!["|X-5|"];
    rows.extend(std::iter::repeat("|   |").take(15));
    assert!(matches!(
        parse_markdown_song(&song_text(&rows)),
        Err(SongParseError::InvalidNote(_))
    ));
    let mut rows = vec!["|C-5 `1/2/3`|"];
    rows.extend(std::iter::repeat("|   |").take(15));
    assert!(matches!(
        parse_markdown_song(&song_text(&rows)),
        Err(SongParseError::TooManyParams(_))
    ));
    let mut rows = vec!["|C-5 `200`|"];
    rows.extend(std::iter::repeat("|   |").take(15));
    assert!(matches!(
        parse_markdown_song(&song_text(&rows)),
        Err(SongParseError::InvalidNumber(_))
    ));
}

#[test]
fn saved_song_text() {
    let mut rows = vec!["|C-5 `1/-2`|", "| - .|"];
    rows.extend(std::iter::repeat("|   |").take(14));
    let mut s = Sequencer::new();
    let file = s.load_str(&song_text(&rows)).unwrap();
    assert_eq!(file, "blah");
    let mut ids = vec![String::new(); 64];
    ids[0] = "0".to_string();
    s.set_synth_instrument_ids(ids);
    let text = s.song_markdown();
    let mut expected = String::from("\n## Song\n\n- [Pattern 2](#pattern-2)\n\n## Pattern 1\n\n");
    expected.push_str(&format!("|{}0{}|\n", " ".repeat(5), " ".repeat(5)));
    expected.push_str(&format!("|----{}|\n", "-".repeat(7)));
    expected.push_str("|C-5  `1/-2`|\n");
    expected.push_str(&format!("| - .{}|\n", " ".repeat(7)));
    for _ in 0..14 {
        expected.push_str(&format!("| -  {}|\n", " ".repeat(7)));
    }
    expected.push_str("\n## Settings\n\n- InstrumentsFile: blah\n- FramesPerStep: 7\n\n");
    assert_eq!(text, expected);
    assert_eq!(song_to_markdown(s.song()), expected);
}

#[test]
fn saved_song_reads_back() {
    let mut rows = vec!["|C#5.|"];
    rows.extend(std::iter::repeat("|   |").take(15));
    let mut s = Sequencer::new();
    s.load_str(&song_text(&rows)).unwrap();
    let mut ids = vec![String::new(); 64];
    ids[0] = "0".to_string();
    s.set_synth_instrument_ids(ids);
    let text = s.song_markdown();
    let again = parse_markdown_song(&text).unwrap();
    assert_eq!(again.patterns[0].instruments[0].steps[0].note, 73);
    assert!(again.patterns[0].instruments[0].steps[0].release);
    assert_eq!(again.song_patterns, vec![1]);
    assert_eq!(again.instruments_file, "blah");
}

#[test]
fn writable_songs() {
    assert!(is_writable(&SequencerSong::new()));
    let mut rows = vec!["|C-5|"];
    rows.extend(std::iter::repeat("|   |").take(15));
    // A single saved instrument needs no slot to sort the columns by.
    let song = parse_markdown_song(&song_text(&rows)).unwrap();
    assert!(is_writable(&song));
    let text = song_to_markdown(&song);
    assert!(text.contains("## Pattern 1\n\n| 0  |\n|----|\n|C-5 |\n| -  |\n"), "{}", text);
    // Two saved instruments without slots cannot be sorted.
    let mut two = String::from("\n## Pattern 1\n\n|0  |1  |\n|---|---|\n|C-5|D-5|\n");
    for _ in 0..15 {
        two.push_str("|   |   |\n");
    }
    two.push_str("\n## Settings\n\n- InstrumentsFile: blah\n");
    let song = parse_markdown_song(&two).unwrap();
    assert!(!is_writable(&song));
    let mut empty_rows = vec!["|   |"];
    empty_rows.extend(std::iter::repeat("|   |").take(15));
    let quiet = parse_markdown_song(&song_text(&empty_rows)).unwrap();
    assert!(is_writable(&quiet));
}

#[test]
fn song_list_items_above_64_are_read_but_not_loaded() {
    let text = "## Song\n\n- [Pattern 70](#pattern-70)\n\n## Settings\n\n- InstrumentsFile: x\n";
    let song = parse_markdown_song(text).unwrap();
    assert_eq!(song.song_patterns, vec![69]);
    let mut s = Sequencer::new();
    s.load_default();
    assert!(matches!(s.load_str(text), Err(SongParseError::SongPlaysMissingPattern)));
    assert_eq!(s.song().song_patterns, vec![0]);
    let zero = parse_markdown_song("## Song\n\n- [Pattern 0](#pattern-0)\n\n## Settings\n\n- InstrumentsFile: x\n");
    assert!(matches!(zero, Err(SongParseError::InvalidSongPattern(_))));
}
