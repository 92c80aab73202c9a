use chiptrack::markdown::parse_markdown_song;

#[test]
fn settings() {
    let song = parse_markdown_song(
        "
## Pattern 1

## Settings

- InstrumentsFile: some_instruments.wasm
",
    )
    .unwrap();
    assert_eq!(song.instruments_file, "some_instruments.wasm");

    assert!(parse_markdown_song("## Pattern 1").is_err());
}

#[test]
fn illegal_pattern_num() {
    assert!(parse_markdown_song(
        "
## Pattern 0

## Settings

- InstrumentsFile: blah
"
    )
    .is_err());

    assert!(parse_markdown_song(
        "
## Pattern 65

## Settings

- InstrumentsFile: blah
"
    )
    .is_err());

    // Doesn't error but ignores it.
    assert!(parse_markdown_song(
        "
## Pattern -1

## Settings

- InstrumentsFile: blah
"
    )
    .is_ok());
}

#[test]
fn pattern_steps() {
    assert!(parse_markdown_song(
        "
## Pattern 1

|0  |
|---|
|-  |

## Settings

- InstrumentsFile: blah
"
    )
    .is_err());

    assert!(parse_markdown_song(
        "
## Pattern 1

|0  |
|---|
|-  |
|-  |
|-  |
|-  |
|-  |
|-  |
|-  |
|-  |
|-  |
|-  |
|-  |
|-  |
|-  |
|-  |
|-  |
|-  |
|-  |
|-  |

## Settings

- InstrumentsFile: blah
"
    )
    .is_err());
}

#[test]
fn note_parse() {
    let song = parse_markdown_song(
        "
## Pattern 1

|0  |
|---|
| - |
| - .|
|.|
|-|
|C-5|
|C#5.|
|-  |
|   |
|   |
|   |
|   |
|   |
|   |
|   |
|   |
|   |

## Settings

- InstrumentsFile: blah
",
    )
    .unwrap();
    assert_eq!(song.patterns[0].instruments[0].steps[0].press_note(), None);
    assert_eq!(song.patterns[0].instruments[0].steps[0].release, false);

    assert_eq!(song.patterns[0].instruments[0].steps[1].press_note(), None);
    assert_eq!(song.patterns[0].instruments[0].steps[1].release, true);

    assert_eq!(song.patterns[0].instruments[0].steps[2].press_note(), None);
    assert_eq!(song.patterns[0].instruments[0].steps[2].release, true);

    assert_eq!(song.patterns[0].instruments[0].steps[3].press_note(), None);
    assert_eq!(song.patterns[0].instruments[0].steps[3].release, false);

    assert_eq!(song.patterns[0].instruments[0].steps[4].press_note(), Some(72));
    assert_eq!(song.patterns[0].instruments[0].steps[4].release, false);
    assert_eq!(song.patterns[0].instruments[0].steps[4].note, 72);

    assert_eq!(song.patterns[0].instruments[0].steps[5].press_note(), Some(73));
    assert_eq!(song.patterns[0].instruments[0].steps[5].release, true);
    assert_eq!(song.patterns[0].instruments[0].steps[5].note, 73);
}

#[test]
fn param_parse() {
    let song = parse_markdown_song(
        "
## Pattern 1

|0  |
|---|
|-  |
|   |
|   |
|   |
|C-5 `1/5`|
|- `0/5`|
| `1/4`|
|- `0`|
|-.`/3` |
|`1/`|
|   |
|   |
|   |
|   |
|   |
|   |

## Settings

- InstrumentsFile: blah
",
    )
    .unwrap();
    assert_eq!(song.patterns[0].instruments[0].steps[3].press_note(), None);
    assert_eq!(song.patterns[0].instruments[0].steps[3].release, false);
    assert_eq!(song.patterns[0].instruments[0].steps[3].param0(), None);
    assert_eq!(song.patterns[0].instruments[0].steps[3].param1(), None);

    assert_eq!(song.patterns[0].instruments[0].steps[4].press_note(), Some(72));
    assert_eq!(song.patterns[0].instruments[0].steps[4].release, false);
    assert_eq!(song.patterns[0].instruments[0].steps[4].param0(), Some(1));
    assert_eq!(song.patterns[0].instruments[0].steps[4].param1(), Some(5));

    assert_eq!(song.patterns[0].instruments[0].steps[5].press_note(), None);
    assert_eq!(song.patterns[0].instruments[0].steps[5].release, false);
    assert_eq!(song.patterns[0].instruments[0].steps[5].param0(), Some(0));
    assert_eq!(song.patterns[0].instruments[0].steps[5].param1(), Some(5));

    assert_eq!(song.patterns[0].instruments[0].steps[6].press_note(), None);
    assert_eq!(song.patterns[0].instruments[0].steps[6].release, false);
    assert_eq!(song.patterns[0].instruments[0].steps[6].param0(), Some(1));
    assert_eq!(song.patterns[0].instruments[0].steps[6].param1(), Some(4));

    assert_eq!(song.patterns[0].instruments[0].steps[7].press_note(), None);
    assert_eq!(song.patterns[0].instruments[0].steps[7].release, false);
    assert_eq!(song.patterns[0].instruments[0].steps[7].param0(), Some(0));
    assert_eq!(song.patterns[0].instruments[0].steps[7].param1(), None);

    assert_eq!(song.patterns[0].instruments[0].steps[8].press_note(), None);
    assert_eq!(song.patterns[0].instruments[0].steps[8].release, true);
    assert_eq!(song.patterns[0].instruments[0].steps[8].param0(), None);
    assert_eq!(song.patterns[0].instruments[0].steps[8].param1(), Some(3));

    assert_eq!(song.patterns[0].instruments[0].steps[9].press_note(), None);
    assert_eq!(song.patterns[0].instruments[0].steps[9].release, false);
    assert_eq!(song.patterns[0].instruments[0].steps[9].param0(), Some(1));
    assert_eq!(song.patterns[0].instruments[0].steps[9].param1(), None);
}
