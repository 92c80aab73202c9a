use chiptrack::gist::{
    gist_answer_files, gist_api_url, gist_file, gist_song, load_gist_answer, load_gist_project, parse_gist_url,
    GistContent, GistError, GistFile,
    GistFiles, GistLoadError, ParseGistUrlError,
};
use chiptrack::midi_note::{MidiNote, NoteNameError};
use chiptrack::sequencer::Sequencer;
use chiptrack::text::{parse_int, trim_chars};
use chiptrack::ui::{cycle_selected_column, hex_text, song_list_scroll, LogWindow};

#[test]
fn gist_urls() {
    assert_eq!(parse_gist_url("https://gist.github.com/user/abc123").unwrap(), "user/abc123");
    assert!(matches!(parse_gist_url("https://example.com/user/abc"), Err(ParseGistUrlError::InvalidHost)));
    assert!(matches!(parse_gist_url("not a url"), Err(ParseGistUrlError::InvalidUrl(_))));
    assert_eq!(gist_api_url("user/abc"), "https://api.github.com/gists/abc");
    assert_eq!(gist_api_url("abc"), "https://api.github.com/gists/abc");
    assert_eq!(gist_api_url("a/b/c"), "https://api.github.com/gists/b/c");
}

fn file(name: &str, content: &str) -> GistFile {
    GistFile { name: name.to_string(), content: GistContent::Text(content.to_string()) }
}

#[test]
fn gist_project_files() {
    let song = "## Settings\n\n- InstrumentsFile: inst.wat\n";
    let files = GistFiles::Files(vec![
        file("inst.wat", "(module)"),
        GistFile { name: "notes.txt".to_string(), content: GistContent::NotText },
        file("song.ct.md", song),
    ]);
    assert_eq!(gist_song(&files).unwrap(), song);
    assert_eq!(gist_file(&files, &"inst.wat".to_string()).unwrap(), "(module)");
    assert!(matches!(gist_file(&files, &"notes.txt".to_string()), Err(GistError::ContentNotText)));
    assert!(matches!(gist_file(&files, &"x".to_string()), Err(GistError::NoInstrumentsFile)));
    assert!(matches!(gist_song(&GistFiles::NoFiles), Err(GistError::NoFiles)));
    assert!(matches!(gist_song(&GistFiles::Files(vec![])), Err(GistError::NoSongFile)));
    let mut s = Sequencer::new();
    assert_eq!(load_gist_project(&mut s, &files).unwrap(), "(module)");
    assert_eq!(s.song().instruments_file, "inst.wat");
    let broken = GistFiles::Files(vec![file("a.ct.md", "## Pattern 0\n")]);
    let mut s = Sequencer::new();
    assert!(matches!(load_gist_project(&mut s, &broken), Err(GistLoadError::Song(_))));
}

#[test]
fn selected_column_moves() {
    assert_eq!(cycle_selected_column(0, true, true, true, false), Some(1));
    assert_eq!(cycle_selected_column(0, true, true, false, false), Some(2));
    assert_eq!(cycle_selected_column(1, true, true, true, false), Some(2));
    assert_eq!(cycle_selected_column(2, true, true, true, false), Some(3));
    assert_eq!(cycle_selected_column(2, true, true, true, true), None);
    assert_eq!(cycle_selected_column(3, true, true, true, false), None);
    assert_eq!(cycle_selected_column(3, false, false, false, false), Some(2));
    assert_eq!(cycle_selected_column(2, false, true, true, false), Some(1));
    assert_eq!(cycle_selected_column(2, false, true, false, false), Some(0));
    assert_eq!(cycle_selected_column(1, false, false, true, false), None);
}

#[test]
fn hex_text_of_bytes() {
    assert_eq!(hex_text(255), "FF");
    assert_eq!(hex_text(-1), "FF");
    assert_eq!(hex_text(0x1A), "1A");
    assert_eq!(hex_text(0x100), "00");
}

#[test]
fn log_window_keeps_recent_lines() {
    let mut w = LogWindow::new();
    w.update_log_text("a");
    w.update_log_text("b");
    assert_eq!(w.log_text, "a\nb\n");
    let mut w = LogWindow { log_text: format!("{}\n{}", "x".repeat(9999), "y".repeat(10)) };
    w.update_log_text("z");
    assert_eq!(w.log_text, format!("{}z\n", "y".repeat(10)));
    let mut w = LogWindow { log_text: "é".repeat(6000) };
    w.update_log_text("z");
    assert_eq!(w.log_text, format!("{}z\n", "é".repeat(6000)));
}

#[test]
fn note_names() {
    assert_eq!(MidiNote(72).name(), "C-5");
    assert_eq!(MidiNote(73).name(), "C#5");
    assert_eq!(MidiNote(69).name(), "A-4");
    assert_eq!(MidiNote(60).octave(), 4);
    assert_eq!(MidiNote(61).semitone(), 1);
    assert!(MidiNote(61).is_black());
    assert!(!MidiNote(64).is_black());
    assert_eq!(MidiNote(64).key_pos(), 2);
    assert_eq!(MidiNote(66).base_note_name(), b'F');
    assert_eq!(MidiNote(66).char_desc(), [b'F', b'#', b'4']);
    assert_eq!(MidiNote(66).short_char_desc(), [b'F', b'4']);
    assert_eq!(MidiNote(66).short_name(), "F#");
    assert_eq!(MidiNote::from_name("A-4").unwrap().0, 69);
    assert_eq!(MidiNote::from_name("G#9").unwrap().0, 128);
    assert!(matches!(MidiNote::from_name("C"), Err(NoteNameError::TooSmall)));
    assert!(matches!(MidiNote::from_name("H-4"), Err(NoteNameError::InvalidNoteLetter)));
    assert!(matches!(MidiNote::from_name("C+4"), Err(NoteNameError::InvalidAccidental)));
}

#[test]
fn integers_and_trimming() {
    let c = |s: &str| s.chars().collect::<Vec<char>>();
    assert_eq!(parse_int(&c("42"), 0, 255), Some((false, 42)));
    assert_eq!(parse_int(&c("+7"), 0, 255), Some((false, 7)));
    assert_eq!(parse_int(&c("-7"), 0, 255), None);
    assert_eq!(parse_int(&c("-128"), 128, 127), Some((true, 128)));
    assert_eq!(parse_int(&c("128"), 128, 127), None);
    assert_eq!(parse_int(&c(""), 128, 127), None);
    assert_eq!(parse_int(&c("1a"), 128, 127), None);
    assert_eq!(trim_chars(&c("  a b \t")), c("a b"));
    assert_eq!(trim_chars(&c("   ")), c(""));
}

#[test]
fn song_list_scrolls_the_selection_to_the_middle() {
    assert_eq!(song_list_scroll(0, 3), 0);
    assert_eq!(song_list_scroll(10, 12), 0);
    assert_eq!(song_list_scroll(12, 30), 4);
    assert_eq!(song_list_scroll(29, 30), 14);
    assert_eq!(song_list_scroll(5, 5), 0);
}

#[test]
fn gist_api_answers() {
    let body = br###"{"id": "abc", "files": {"song.ct.md": {"content": "## Settings\n\n- InstrumentsFile: inst.wat\n"}, "inst.wat": {"content": "(module)"}, "n.txt": {"content": 3}, "m": {}}}"###;
    match gist_answer_files(body) {
        Some(GistFiles::Files(files)) => {
            assert_eq!(files.len(), 4);
            let names: Vec<&str> = files.iter().map(|f| f.name.as_str()).collect();
            assert!(names.contains(&"song.ct.md") && names.contains(&"inst.wat"));
            let n = files.iter().find(|f| f.name == "n.txt").unwrap();
            assert!(matches!(n.content, GistContent::NotText));
            let m = files.iter().find(|f| f.name == "m").unwrap();
            assert!(matches!(m.content, GistContent::Missing));
        }
        _ => panic!("the answer has files"),
    }
    let mut s = Sequencer::new();
    assert_eq!(load_gist_answer(&mut s, body).unwrap(), "(module)");
    assert_eq!(s.song().instruments_file, "inst.wat");
    let mut s = Sequencer::new();
    assert!(matches!(load_gist_answer(&mut s, b"<html>"), Err(GistLoadError::NotJson)));
    assert!(matches!(gist_answer_files(br#"{"id": 1}"#), Some(GistFiles::NoFiles)));
    assert!(matches!(gist_answer_files(br#"{"files": []}"#), Some(GistFiles::NotObject)));
    assert!(matches!(
        load_gist_answer(&mut s, br#"{"files": 3}"#),
        Err(GistLoadError::Gist(GistError::FilesNotObject))
    ));
}
