use vstd::prelude::*;
use crate::text::{chars_of, push_char, string_from_chars};
use crate::markdown::{SongParseError, SongParseErrorView, spec_song_from_events, spec_markdown_events};
use crate::sequencer::{Sequencer, SequencerView, SongView, plays_existing_patterns, spec_display_song_pattern};

verus! {

#[verifier::external_type_specification]
#[verifier::external_body]
pub struct ExUrlParseError(url::ParseError);

/// The parts of a URL that the gist address check reads.
pub struct UrlParts {
    pub host: Option<String>,
    pub path: String,
}

/// The plain values of URL parts.
pub open spec fn url_parts_view(p: UrlParts) -> (Option<Seq<char>>, Seq<char>) {
    (
        match p.host {
            Some(h) => Some(h@),
            None => None,
        },
        p.path@,
    )
}

/// The host and the path of the URL that `url::Url::parse` reads from a text, or `None`
/// when it does not read one.
pub uninterp spec fn spec_url_parts(input: Seq<char>) -> Option<(Option<Seq<char>>, Seq<char>)>;

/// Reads a URL with `url::Url::parse` and takes its `host_str` and `path`. What it reads is
/// stated only by name; the parse error is handed on.
#[verifier::external_body]
fn parse_url(input: &str) -> (r: Result<UrlParts, url::ParseError>)
    ensures
        match r {
            Ok(p) => spec_url_parts(input@) == Some(url_parts_view(p)),
            Err(_) => spec_url_parts(input@) is None,
        },
{
    let url = url::Url::parse(input)?;
    Ok(UrlParts { host: url.host_str().map(|h| h.to_string()), path: url.path().to_string() })
}

/// Why a text is not a gist address.
#[derive(Debug)]
pub enum ParseGistUrlError {
    InvalidUrl(url::ParseError),
    InvalidHost,
}

/// `s` without its leading `/` characters.
pub open spec fn without_leading_slashes(s: Seq<char>) -> Seq<char>
    decreases s.len(),
{
    if s.len() > 0 && s[0] == '/' {
        without_leading_slashes(s.drop_first())
    } else {
        s
    }
}

/// The gist path of URL parts: the path without its leading `/` when the host is
/// `gist.github.com`.
pub open spec fn spec_gist_path(parts: (Option<Seq<char>>, Seq<char>)) -> Option<Seq<char>> {
    if parts.0 == Some("gist.github.com"@) {
        Some(without_leading_slashes(parts.1))
    } else {
        None
    }
}

/// The gist path of a URL's parts, or `None` when its host is not `gist.github.com`.
pub fn gist_path(parts: &UrlParts) -> (r: Option<String>)
    ensures
        match r {
            Some(g) => spec_gist_path(url_parts_view(*parts)) == Some(g@),
            None => spec_gist_path(url_parts_view(*parts)) is None,
        },
{
    let is_gist_host = match &parts.host {
        Some(h) => {
            let a = chars_of(h.as_str());
            let b = chars_of("gist.github.com");
            same_chars(&a, &b)
        },
        None => false,
    };
    if !is_gist_host {
        return None;
    }
    let p = chars_of(parts.path.as_str());
    assert(p@.skip(0) =~= p@);
    let mut i: usize = 0;
    while i < p.len() && p[i] == '/'
        invariant
            i <= p@.len(),
            without_leading_slashes(p@) == without_leading_slashes(p@.skip(i as int)),
        decreases p@.len() - i,
    {
        assert(p@.skip(i as int).drop_first() =~= p@.skip(i + 1));
        i = i + 1;
    }
    let mut rest: Vec<char> = Vec::new();
    let mut k = i;
    while k < p.len()
        invariant
            i <= k <= p@.len(),
            rest@ == p@.subrange(i as int, k as int),
        decreases p@.len() - k,
    {
        rest.push(p[k]);
        k = k + 1;
    }
    assert(rest@ =~= p@.skip(i as int));
    Some(string_from_chars(&rest))
}

/// Whether two character sequences are equal.
fn same_chars(a: &Vec<char>, b: &Vec<char>) -> (r: bool)
    ensures
        r == (a@ == b@),
{
    if a.len() != b.len() {
        return false;
    }
    let mut i: usize = 0;
    while i < a.len()
        invariant
            i <= a@.len(),
            a@.len() == b@.len(),
            forall|j: int| 0 <= j < i ==> a@[j] == b@[j],
        decreases a@.len() - i,
    {
        if a[i] != b[i] {
            return false;
        }
        i = i + 1;
    }
    assert(a@ =~= b@);
    true
}

/// Reads a gist address such as `https://gist.github.com/user/id` and returns its path
/// (`user/id`): an error when `url` does not read a URL, or when its host is another.
pub fn parse_gist_url(u: &str) -> (r: Result<String, ParseGistUrlError>)
    ensures
        match spec_url_parts(u@) {
            None => r matches Err(ParseGistUrlError::InvalidUrl(_)),
            Some(parts) => match spec_gist_path(parts) {
                Some(g) => r matches Ok(s) && s@ == g,
                None => r matches Err(ParseGistUrlError::InvalidHost),
            },
        },
{
    match parse_url(u) {
        Ok(parts) => match gist_path(&parts) {
            Some(g) => Ok(g),
            None => Err(ParseGistUrlError::InvalidHost),
        },
        Err(e) => Err(ParseGistUrlError::InvalidUrl(e)),
    }
}

/// The address prefix of the gist API.
pub const GIST_API_PREFIX: &'static str = "https://api.github.com/gists/";

/// The gist identifier of a gist path: what follows its first `/`, or all of it.
pub open spec fn gist_id(path: Seq<char>) -> Seq<char> {
    if exists|i: int| 0 <= i < path.len() && path[i] == '/' {
        let i = choose|i: int| 0 <= i < path.len() && path[i] == '/' && forall|j: int| 0 <= j < i ==> path[j] != '/';
        path.skip(i + 1)
    } else {
        path
    }
}

/// The gist API address for a gist path.
pub fn gist_api_url(gist_url_path: &str) -> (r: String)
    ensures
        r@ == GIST_API_PREFIX@ + gist_id(gist_url_path@),
{
    let p = chars_of(gist_url_path);
    let mut i: usize = 0;
    while i < p.len() && p[i] != '/'
        invariant
            i <= p@.len(),
            forall|j: int| 0 <= j < i ==> p@[j] != '/',
        decreases p@.len() - i,
    {
        i = i + 1;
    }
    let start = if i < p.len() { i + 1 } else { 0 };
    proof {
        if i < p@.len() {
            let c = choose|c: int| 0 <= c < p@.len() && p@[c] == '/' && forall|j: int| 0 <= j < c ==> p@[j] != '/';
            assert(c == i) by {
                if c < i {
                    assert(p@[c] != '/');
                } else if c > i {
                    assert(p@[i as int] == '/');
                }
            }
        } else {
            assert(p@.skip(0) =~= p@);
        }
    }
    let prefix = chars_of(GIST_API_PREFIX);
    let mut out: Vec<char> = Vec::new();
    let mut k: usize = 0;
    while k < prefix.len()
        invariant
            k <= prefix@.len(),
            out@ == prefix@.take(k as int),
        decreases prefix@.len() - k,
    {
        out.push(prefix[k]);
        assert(prefix@.take(k + 1) =~= prefix@.take(k as int).push(prefix@[k as int]));
        k = k + 1;
    }
    assert(prefix@.take(prefix@.len() as int) =~= prefix@);
    let mut k = start;
    while k < p.len()
        invariant
            start <= k <= p@.len(),
            out@ == prefix@ + p@.subrange(start as int, k as int),
        decreases p@.len() - k,
    {
        out.push(p[k]);
        assert(p@.subrange(start as int, k + 1) =~= p@.subrange(start as int, k as int).push(p@[k as int]));
        k = k + 1;
    }
    assert(p@.subrange(start as int, p@.len() as int) =~= p@.skip(start as int));
    string_from_chars(&out)
}

/// The content of a gist file, as the gist's JSON gives it.
pub enum GistContent {
    /// The file has no content property.
    Missing,
    /// The content property is not a string.
    NotText,
    Text(String),
}

/// A file of a gist; `serde_json` gives the files sorted by file name.
pub struct GistFile {
    pub name: String,
    pub content: GistContent,
}

/// The files of a gist, as its JSON gives them.
pub enum GistFiles {
    /// The JSON has no files property.
    NoFiles,
    /// The files property is not an object.
    NotObject,
    Files(Vec<GistFile>),
}

/// Why a gist does not hold a project.
#[derive(Debug)]
pub enum GistError {
    NoFiles,
    FilesNotObject,
    /// No file name ends with `.ct.md`.
    NoSongFile,
    /// A file named by the project has no content property.
    MissingContent,
    /// A file's content is not a string.
    ContentNotText,
    /// The song names an instruments file that the gist does not have.
    NoInstrumentsFile,
}

/// The suffix of a song file name.
pub const SONG_FILE_SUFFIX: &'static str = ".ct.md";

/// Whether `s` ends with `suffix`.
pub open spec fn ends_with(s: Seq<char>, suffix: Seq<char>) -> bool {
    s.len() >= suffix.len() && s.skip(s.len() - suffix.len()) == suffix
}

/// Whether a file name ends with `target` (`suffix`) or equals it.
pub open spec fn name_matches(name: Seq<char>, target: Seq<char>, suffix: bool) -> bool {
    if suffix {
        ends_with(name, target)
    } else {
        name == target
    }
}

/// The position of the first file whose name matches (see `name_matches`), or the number
/// of files.
pub open spec fn first_file(files: Seq<GistFile>, target: Seq<char>, suffix: bool) -> int {
    if exists|i: int| 0 <= i < files.len() && name_matches(files[i].name@, target, suffix) {
        choose|i: int|
            0 <= i < files.len() && name_matches(files[i].name@, target, suffix) && forall|j: int|
                0 <= j < i ==> !name_matches(files[j].name@, target, suffix)
    } else {
        files.len() as int
    }
}

/// The text content of a file, or the error it gives.
pub open spec fn content_text(c: GistContent) -> Result<Seq<char>, GistError> {
    match c {
        GistContent::Missing => Err(GistError::MissingContent),
        GistContent::NotText => Err(GistError::ContentNotText),
        GistContent::Text(t) => Ok(t@),
    }
}

/// The position of the first file whose name matches (see `name_matches`).
fn find_file(files: &Vec<GistFile>, target: &Vec<char>, suffix: bool) -> (r: Option<usize>)
    ensures
        match r {
            Some(i) => i < files@.len() && i == first_file(files@, target@, suffix),
            None => first_file(files@, target@, suffix) == files@.len(),
        },
{
    let mut i: usize = 0;
    while i < files.len()
        invariant
            i <= files@.len(),
            forall|j: int| 0 <= j < i ==> !name_matches(files@[j].name@, target@, suffix),
        decreases files@.len() - i,
    {
        let name = chars_of(files[i].name.as_str());
        let ok = if suffix {
            if name.len() >= target.len() {
                let off = name.len() - target.len();
                let mut same = true;
                let mut k: usize = 0;
                while k < target.len()
                    invariant
                        k <= target@.len(),
                        off + target@.len() == name@.len(),
                        off + target@.len() <= usize::MAX,
                        same == forall|q: int| 0 <= q < k ==> name@[off + q] == target@[q],
                    decreases target@.len() - k,
                {
                    if name[off + k] != target[k] {
                        same = false;
                    }
                    k = k + 1;
                }
                proof {
                    if same {
                        assert(name@.skip(off as int) =~= target@);
                    } else {
                        let q = choose|q: int| 0 <= q < target@.len() && name@[off + q] != target@[q];
                        assert(name@.skip(off as int)[q] != target@[q]);
                    }
                }
                same
            } else {
                false
            }
        } else {
            same_chars(&name, target)
        };
        assert(ok == name_matches(files@[i as int].name@, target@, suffix));
        if ok {
            proof {
                let c = choose|c: int|
                    0 <= c < files@.len() && name_matches(files@[c].name@, target@, suffix) && forall|j: int|
                        0 <= j < c ==> !name_matches(files@[j].name@, target@, suffix);
                assert(c == i) by {
                    if c < i {
                        assert(!name_matches(files@[c].name@, target@, suffix));
                    } else if c > i {
                        assert(!name_matches(files@[i as int].name@, target@, suffix));
                    }
                }
            }
            return Some(i);
        }
        i = i + 1;
    }
    None
}

/// The text content of a file.
fn file_text(c: &GistContent) -> (r: Result<String, GistError>)
    ensures
        match (r, content_text(*c)) {
            (Ok(a), Ok(b)) => a@ == b,
            (Err(a), Err(b)) => a == b,
            _ => false,
        },
{
    match c {
        GistContent::Missing => Err(GistError::MissingContent),
        GistContent::NotText => Err(GistError::ContentNotText),
        GistContent::Text(t) => Ok(t.clone()),
    }
}

/// The song of a gist: the content of its first file whose name ends with `.ct.md`.
pub open spec fn spec_gist_song(files: GistFiles) -> Result<Seq<char>, GistError> {
    match files {
        GistFiles::NoFiles => Err(GistError::NoFiles),
        GistFiles::NotObject => Err(GistError::FilesNotObject),
        GistFiles::Files(v) => {
            let i = first_file(v@, SONG_FILE_SUFFIX@, true);
            if i < v@.len() {
                content_text(v@[i].content)
            } else {
                Err(GistError::NoSongFile)
            }
        },
    }
}

/// The song text of a gist (see `spec_gist_song`).
pub fn gist_song(files: &GistFiles) -> (r: Result<String, GistError>)
    ensures
        match (r, spec_gist_song(*files)) {
            (Ok(a), Ok(b)) => a@ == b,
            (Err(a), Err(b)) => a == b,
            _ => false,
        },
{
    match files {
        GistFiles::NoFiles => Err(GistError::NoFiles),
        GistFiles::NotObject => Err(GistError::FilesNotObject),
        GistFiles::Files(v) => {
            let suffix = chars_of(SONG_FILE_SUFFIX);
            match find_file(v, &suffix, true) {
                Some(i) => file_text(&v[i].content),
                None => Err(GistError::NoSongFile),
            }
        },
    }
}

/// The content of the gist file named `name`, which the song refers to.
pub open spec fn spec_gist_file(files: GistFiles, name: Seq<char>) -> Result<Seq<char>, GistError> {
    match files {
        GistFiles::NoFiles => Err(GistError::NoFiles),
        GistFiles::NotObject => Err(GistError::FilesNotObject),
        GistFiles::Files(v) => {
            let i = first_file(v@, name, false);
            if i < v@.len() {
                content_text(v@[i].content)
            } else {
                Err(GistError::NoInstrumentsFile)
            }
        },
    }
}

/// The content of the gist file named `name` (see `spec_gist_file`).
pub fn gist_file(files: &GistFiles, name: &String) -> (r: Result<String, GistError>)
    ensures
        match (r, spec_gist_file(*files, name@)) {
            (Ok(a), Ok(b)) => a@ == b,
            (Err(a), Err(b)) => a == b,
            _ => false,
        },
{
    match files {
        GistFiles::NoFiles => Err(GistError::NoFiles),
        GistFiles::NotObject => Err(GistError::FilesNotObject),
        GistFiles::Files(v) => {
            let target = chars_of(name.as_str());
            match find_file(v, &target, false) {
                Some(i) => file_text(&v[i].content),
                None => Err(GistError::NoInstrumentsFile),
            }
        },
    }
}

/// Why a gist project could not be loaded.
#[derive(Debug)]
pub enum GistLoadError {
    /// The gist API answer is not JSON.
    NotJson,
    Gist(GistError),
    Song(SongParseError),
}

/// What loading the project of a gist with files `files` does, from sequencer state `v`
/// to `v2`, with result `r`: its song (the first `.ct.md` file) becomes the sequencer's
/// song, and the content of the instruments file that the song names is returned. On
/// error the sequencer keeps its song unless the song itself was read.
pub open spec fn gist_project_loaded(
    v: SequencerView,
    files: GistFiles,
    v2: SequencerView,
    r: Result<String, GistLoadError>,
) -> bool {
    match spec_gist_song(files) {
        Err(e) => r matches Err(GistLoadError::Gist(x)) && x == e && v2 == v,
        Ok(text) => match spec_song_from_events(text, spec_markdown_events(text)) {
            Err(e) => r matches Err(GistLoadError::Song(x)) && x@ == e && v2 == v,
            Ok(song) => if plays_existing_patterns(song) {
                &&& v2 == spec_display_song_pattern(
                    SequencerView { song, has_stub_pattern: false, active_song_pattern: 0, ..v },
                    0,
                )
                &&& v2.wf()
                &&& match spec_gist_file(files, song.instruments_file) {
                    Ok(c) => r matches Ok(x) && x@ == c,
                    Err(e) => r matches Err(GistLoadError::Gist(x)) && x == e,
                }
            } else {
                &&& r matches Err(GistLoadError::Song(x)) && x@ == SongParseErrorView::SongPlaysMissingPattern
                &&& v2 == v
            },
        },
    }
}

/// Loads the project of a gist from its files (see `gist_project_loaded`).
#[verifier::rlimit(40)]
pub fn load_gist_project(sequencer: &mut Sequencer, files: &GistFiles) -> (r: Result<String, GistLoadError>)
    requires
        old(sequencer)@.unloaded_wf(),
    ensures
        gist_project_loaded(old(sequencer)@, *files, final(sequencer)@, r),
{
    let song = match gist_song(files) {
        Ok(s) => s,
        Err(e) => {
            return Err(GistLoadError::Gist(e));
        },
    };
    let instruments_file = match sequencer.load_str(song.as_str()) {
        Ok(f) => f,
        Err(e) => {
            return Err(GistLoadError::Song(e));
        },
    };
    match gist_file(files, &instruments_file) {
        Ok(c) => Ok(c),
        Err(e) => Err(GistLoadError::Gist(e)),
    }
}

/// The files that `serde_json` reads from the bytes of a gist API answer, sorted by file
/// name, or `None` when the bytes are not JSON.
pub uninterp spec fn spec_gist_answer_files(body: Seq<u8>) -> Option<GistFiles>;

/// Reads a gist API answer with `serde_json::from_slice` into a `serde_json::Value` and
/// takes its `files` property, each file's name and the `content` property of each. What
/// it reads is stated only by name; bytes that are not JSON give `None`.
#[verifier::external_body]
pub fn gist_answer_files(body: &[u8]) -> (r: Option<GistFiles>)
    ensures
        r == spec_gist_answer_files(body@),
{
    let json: serde_json::Value = serde_json::from_slice(body).ok()?;
    let content = |c: Option<&serde_json::Value>| match c.map(|c| c.as_str()) {
        None => GistContent::Missing,
        Some(None) => GistContent::NotText,
        Some(Some(t)) => GistContent::Text(t.to_owned()),
    };
    Some(match json.get("files").map(|f| f.as_object()) {
        None => GistFiles::NoFiles,
        Some(None) => GistFiles::NotObject,
        Some(Some(m)) => GistFiles::Files(
            m.iter().map(|(n, f)| GistFile { name: n.clone(), content: content(f.get("content")) }).collect(),
        ),
    })
}

/// Loads the project of a gist from the bytes of the gist API answer: an answer that is
/// not JSON is refused and leaves the sequencer as it is; otherwise the project of its
/// files is loaded (see `gist_project_loaded`).
pub fn load_gist_answer(sequencer: &mut Sequencer, body: &[u8]) -> (r: Result<String, GistLoadError>)
    requires
        old(sequencer)@.unloaded_wf(),
    ensures
        match spec_gist_answer_files(body@) {
            None => r matches Err(GistLoadError::NotJson) && final(sequencer)@ == old(sequencer)@,
            Some(files) => gist_project_loaded(old(sequencer)@, files, final(sequencer)@, r),
        },
{
    match gist_answer_files(body) {
        None => Err(GistLoadError::NotJson),
        Some(files) => load_gist_project(sequencer, &files),
    }
}

} // verus!
