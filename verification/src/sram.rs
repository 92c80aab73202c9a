use vstd::prelude::*;

verus! {

/// The size of the cartridge's battery-backed SRAM that a save may use.
pub const SRAM_SIZE: usize = 32768;

/// The value that erased SRAM reads as, in place of the instruments' length.
pub const EMPTY_SRAM_LENGTH: u32 = 0xffff_ffff;

/// Why a project cannot be saved to SRAM: the save would take `size` bytes.
#[derive(Debug, PartialEq, Eq, Structural)]
pub enum SavError {
    TooLarge(usize),
}

/// The four bytes of a 32-bit number, least significant first.
pub open spec fn le_u32(n: int) -> Seq<u8> {
    seq![(n % 256) as u8, ((n / 256) % 256) as u8, ((n / 65536) % 256) as u8, ((n / 16777216) % 256) as u8]
}

/// The 32-bit number that four bytes at `at` hold, least significant first.
pub open spec fn read_le_u32(b: Seq<u8>, at: int) -> int {
    b[at] + 256 * b[at + 1] + 65536 * b[at + 2] + 16777216 * b[at + 3]
}

/// The save of a project: the length of the instruments module and of the song, then
/// the instruments module and the song.
pub open spec fn sav_image(instruments: Seq<u8>, song: Seq<u8>) -> Seq<u8> {
    le_u32(instruments.len() as int) + le_u32(song.len() as int) + instruments + song
}

/// What a save holds: nothing when the SRAM is erased or too short for the lengths it
/// gives, else the instruments module and the song.
pub open spec fn sav_parts(sram: Seq<u8>) -> Option<(Seq<u8>, Seq<u8>)> {
    if sram.len() < 8 || read_le_u32(sram, 0) == EMPTY_SRAM_LENGTH {
        None
    } else {
        let il = read_le_u32(sram, 0);
        let sl = read_le_u32(sram, 4);
        if 8 + il + sl > sram.len() {
            None
        } else {
            Some((sram.subrange(8, 8 + il), sram.subrange(8 + il, 8 + il + sl)))
        }
    }
}

proof fn lemma_le_u32_roundtrip(n: int)
    requires
        0 <= n < 0x1_0000_0000,
    ensures
        read_le_u32(le_u32(n), 0) == n,
{
    let a = n % 256;
    let b = (n / 256) % 256;
    let c = (n / 65536) % 256;
    let d = (n / 16777216) % 256;
    assert(n == a + 256 * b + 65536 * c + 16777216 * d) by (nonlinear_arith)
        requires
            0 <= n < 0x1_0000_0000,
            a == n % 256,
            b == (n / 256) % 256,
            c == (n / 65536) % 256,
            d == (n / 16777216) % 256,
    ;
    assert(le_u32(n)[0] == a && le_u32(n)[1] == b && le_u32(n)[2] == c && le_u32(n)[3] == d);
}

/// Appends the four bytes of `n`, least significant first.
fn push_le_u32(out: &mut Vec<u8>, n: u32)
    ensures
        final(out)@ == old(out)@ + le_u32(n as int),
{
    out.push((n % 256) as u8);
    out.push(((n / 256) % 256) as u8);
    out.push(((n / 65536) % 256) as u8);
    out.push(((n / 16777216) % 256) as u8);
    assert(final(out)@ =~= old(out)@ + le_u32(n as int)) by {
        assert(out@ =~= old(out)@ + le_u32(n as int));
    }
}

/// Appends the bytes of `b`.
fn push_bytes(out: &mut Vec<u8>, b: &Vec<u8>)
    ensures
        final(out)@ == old(out)@ + b@,
{
    let mut i: usize = 0;
    while i < b.len()
        invariant
            i <= b@.len(),
            out@ == old(out)@ + b@.take(i as int),
        decreases b@.len() - i,
    {
        out.push(b[i]);
        assert(b@.take(i + 1) =~= b@.take(i as int).push(b@[i as int]));
        i = i + 1;
    }
    assert(b@.take(b@.len() as int) =~= b@);
}

/// The SRAM save of a project (see `sav_image`), or the size it would take when it does
/// not fit in `SRAM_SIZE` bytes.
pub fn gba_sav_image(instruments_wasm: &Vec<u8>, song: &Vec<u8>) -> (r: Result<Vec<u8>, SavError>)
    requires
        8 + instruments_wasm@.len() + song@.len() <= usize::MAX,
    ensures
        8 + instruments_wasm@.len() + song@.len() >= SRAM_SIZE ==> r == Err::<Vec<u8>, SavError>(
            SavError::TooLarge((8 + instruments_wasm@.len() + song@.len()) as usize),
        ),
        8 + instruments_wasm@.len() + song@.len() < SRAM_SIZE ==> (r matches Ok(v) && v@ == sav_image(
            instruments_wasm@,
            song@,
        )),
{
    let il = instruments_wasm.len();
    let sl = song.len();
    if 8 + il + sl >= SRAM_SIZE {
        return Err(SavError::TooLarge(8 + il + sl));
    }
    let mut full: Vec<u8> = Vec::new();
    push_le_u32(&mut full, il as u32);
    push_le_u32(&mut full, sl as u32);
    push_bytes(&mut full, instruments_wasm);
    push_bytes(&mut full, song);
    Ok(full)
}

/// The 32-bit number that four bytes at `at` hold, least significant first.
fn le_u32_at(b: &Vec<u8>, at: usize) -> (r: u32)
    requires
        at + 4 <= b.len(),
    ensures
        r == read_le_u32(b@, at as int),
{
    b[at] as u32 + (b[at + 1] as u32) * 256 + (b[at + 2] as u32) * 65536 + (b[at + 3] as u32) * 16777216
}

/// The bytes of `b` from `start` to `end`.
fn copy_range(b: &Vec<u8>, start: usize, end: usize) -> (r: Vec<u8>)
    requires
        start <= end <= b@.len(),
    ensures
        r@ == b@.subrange(start as int, end as int),
{
    let mut out: Vec<u8> = Vec::new();
    let mut i = start;
    while i < end
        invariant
            start <= i <= end <= b@.len(),
            out@ == b@.subrange(start as int, i as int),
        decreases end - i,
    {
        out.push(b[i]);
        assert(b@.subrange(start as int, i + 1) =~= b@.subrange(start as int, i as int).push(b@[i as int]));
        i = i + 1;
    }
    out
}

/// The instruments module and the song that an SRAM save holds (see `sav_parts`).
pub fn gba_sram_parts(sram: &Vec<u8>) -> (r: Option<(Vec<u8>, Vec<u8>)>)
    ensures
        match sav_parts(sram@) {
            None => r is None,
            Some((i, s)) => (r matches Some((ri, rs)) && ri@ == i && rs@ == s),
        },
{
    if sram.len() < 8 {
        return None;
    }
    let il = le_u32_at(sram, 0);
    if il == EMPTY_SRAM_LENGTH {
        return None;
    }
    let sl = le_u32_at(sram, 4);
    let il = il as usize;
    let sl = sl as usize;
    let room = sram.len() - 8;
    if il > room || sl > room - il {
        return None;
    }
    let instruments = copy_range(sram, 8, 8 + il);
    let song = copy_range(sram, 8 + il, 8 + il + sl);
    Some((instruments, song))
}

/// `s` with `bytes` written from position `at` on.
pub open spec fn overwrite(s: Seq<u8>, at: int, bytes: Seq<u8>) -> Seq<u8> {
    s.subrange(0, at) + bytes + s.subrange(at + bytes.len(), s.len() as int)
}

/// Whether saving a song to SRAM keeps the instruments module it holds: it holds one,
/// and the project is not a new one.
pub open spec fn keeps_sram_instruments(sram: Seq<u8>, project_is_new: bool) -> bool {
    read_le_u32(sram, 0) != EMPTY_SRAM_LENGTH && !project_is_new
}

/// The length of the instruments module in SRAM after a song is saved.
pub open spec fn saved_instruments_len(sram: Seq<u8>, project_is_new: bool, default_instruments: Seq<u8>) -> int {
    if keeps_sram_instruments(sram, project_is_new) {
        read_le_u32(sram, 0)
    } else {
        default_instruments.len() as int
    }
}

/// The SRAM after saving a song: unless it keeps its instruments module, the default
/// instruments and their length are written first; then the song's length and the song,
/// after the instruments.
pub open spec fn spec_save_song_to_sram(sram: Seq<u8>, project_is_new: bool, default_instruments: Seq<u8>, song: Seq<u8>) -> Seq<u8> {
    let with_instruments = if keeps_sram_instruments(sram, project_is_new) {
        sram
    } else {
        overwrite(overwrite(sram, 0, le_u32(default_instruments.len() as int)), 8, default_instruments)
    };
    let il = saved_instruments_len(sram, project_is_new, default_instruments);
    overwrite(overwrite(with_instruments, 4, le_u32(song.len() as int)), 8 + il, song)
}

/// Writes `bytes` into `sram` from position `at` on.
fn write_bytes(sram: &mut Vec<u8>, at: usize, bytes: &Vec<u8>)
    requires
        at + bytes@.len() <= old(sram).len(),
    ensures
        final(sram)@ == overwrite(old(sram)@, at as int, bytes@),
{
    let mut i: usize = 0;
    while i < bytes.len()
        invariant
            at + bytes@.len() <= sram.len(),
            sram@.len() == old(sram)@.len(),
            i <= bytes@.len(),
            sram@ == overwrite(old(sram)@, at as int, bytes@.take(i as int)),
        decreases bytes@.len() - i,
    {
        sram.set(at + i, bytes[i]);
        assert(sram@ =~= overwrite(old(sram)@, at as int, bytes@.take(i + 1)));
        i = i + 1;
    }
    assert(bytes@.take(bytes@.len() as int) =~= bytes@);
}

/// The four bytes of `n`, least significant first.
fn le_u32_bytes(n: u32) -> (r: Vec<u8>)
    ensures
        r@ == le_u32(n as int),
{
    let mut r: Vec<u8> = Vec::new();
    push_le_u32(&mut r, n);
    assert(r@ =~= le_u32(n as int));
    r
}

/// Saves a song to the SRAM image `sram` (see `spec_save_song_to_sram`), keeping the
/// instruments module it holds unless the project is new.
pub fn save_song_to_gba_sram(sram: &mut Vec<u8>, project_is_new: bool, default_instruments: &Vec<u8>, song: &Vec<u8>)
    requires
        old(sram)@.len() >= 8,
        default_instruments@.len() < 0x1_0000_0000,
        song@.len() < 0x1_0000_0000,
        8 + default_instruments@.len() <= old(sram).len(),
        8 + saved_instruments_len(old(sram)@, project_is_new, default_instruments@) + song@.len() <= old(sram).len(),
    ensures
        final(sram)@ == spec_save_song_to_sram(old(sram)@, project_is_new, default_instruments@, song@),
{
    let ghost old_sram = sram@;
    let stored = le_u32_at(sram, 0);
    let il: usize = if stored == EMPTY_SRAM_LENGTH || project_is_new {
        let header = le_u32_bytes(default_instruments.len() as u32);
        write_bytes(sram, 0, &header);
        write_bytes(sram, 8, default_instruments);
        default_instruments.len()
    } else {
        stored as usize
    };
    let song_header = le_u32_bytes(song.len() as u32);
    write_bytes(sram, 4, &song_header);
    write_bytes(sram, 8 + il, song);
}

/// Reading a save gives back what it was written with.
pub proof fn lemma_sav_roundtrip(instruments: Seq<u8>, song: Seq<u8>)
    requires
        8 + instruments.len() + song.len() < SRAM_SIZE,
    ensures
        sav_parts(sav_image(instruments, song)) == Some((instruments, song)),
{
    let img = sav_image(instruments, song);
    let il = instruments.len() as int;
    let sl = song.len() as int;
    lemma_le_u32_roundtrip(il);
    lemma_le_u32_roundtrip(sl);
    assert(read_le_u32(img, 0) == read_le_u32(le_u32(il), 0));
    assert(read_le_u32(img, 4) == read_le_u32(le_u32(sl), 0));
    assert(img.subrange(8, 8 + il) =~= instruments);
    assert(img.subrange(8 + il, 8 + il + sl) =~= song);
}

/// Saving a song to SRAM and reading the SRAM back gives the song, with the instruments
/// module that the SRAM kept or the default instruments.
#[verifier::rlimit(40)]
pub proof fn lemma_sram_save_then_load(sram: Seq<u8>, project_is_new: bool, default_instruments: Seq<u8>, song: Seq<u8>)
    requires
        sram.len() >= 8,
        default_instruments.len() < EMPTY_SRAM_LENGTH,
        song.len() < 0x1_0000_0000,
        8 + default_instruments.len() <= sram.len(),
        8 + saved_instruments_len(sram, project_is_new, default_instruments) + song.len() <= sram.len(),
    ensures
        sav_parts(spec_save_song_to_sram(sram, project_is_new, default_instruments, song)) == Some((
            if keeps_sram_instruments(sram, project_is_new) {
                sram.subrange(8, 8 + read_le_u32(sram, 0))
            } else {
                default_instruments
            },
            song,
        )),
{
    let keeps = keeps_sram_instruments(sram, project_is_new);
    let il = saved_instruments_len(sram, project_is_new, default_instruments);
    let w = if keeps {
        sram
    } else {
        overwrite(overwrite(sram, 0, le_u32(default_instruments.len() as int)), 8, default_instruments)
    };
    let w2 = overwrite(w, 4, le_u32(song.len() as int));
    let r = overwrite(w2, 8 + il, song);
    lemma_le_u32_roundtrip(song.len() as int);
    lemma_le_u32_roundtrip(default_instruments.len() as int);
    assert(w.len() == sram.len());
    assert(r.len() == sram.len());
    // The instruments' length stays in the first four bytes.
    assert(r.subrange(0, 4) =~= w.subrange(0, 4));
    if !keeps {
        assert(w.subrange(0, 4) =~= le_u32(default_instruments.len() as int));
        assert(w.subrange(8, 8 + il) =~= default_instruments);
    }
    assert(read_le_u32(r, 0) == read_le_u32(r.subrange(0, 4), 0));
    assert(read_le_u32(w, 0) == read_le_u32(w.subrange(0, 4), 0));
    assert(read_le_u32(r, 0) == il);
    assert(r.subrange(4, 8) =~= le_u32(song.len() as int));
    assert(read_le_u32(r, 4) == read_le_u32(r.subrange(4, 8), 0));
    assert(r.subrange(8, 8 + il) =~= w.subrange(8, 8 + il));
    assert(r.subrange(8 + il, 8 + il + song.len()) =~= song);
    assert(r == spec_save_song_to_sram(sram, project_is_new, default_instruments, song));
    assert(read_le_u32(r, 4) == song.len());
    if keeps {
        assert(r.subrange(8, 8 + il) =~= sram.subrange(8, 8 + read_le_u32(sram, 0)));
    }
    assert(sav_parts(r) == Some((r.subrange(8, 8 + il), r.subrange(8 + il, 8 + il + song.len()))));
}

} // verus!
