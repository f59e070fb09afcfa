//! Recordings: what is captured, how long it is, and its form as a WAV file.
use vstd::arithmetic::power2::pow2;
use vstd::prelude::*;

use crate::backend::{bytes_are_of_the_samples, is_sample, sample_bytes};
use crate::error::{fails_from, fails_with, Error};
use crate::text::same;

verus! {

/// How audio is captured.
#[derive(Debug)]
pub struct RecordingConfig {
    pub device_name: Option<String>,
    pub sample_rate: u32,
    pub channels: u16,
}

impl Default for RecordingConfig {
    /// One channel of the default device at sixteen kilohertz.
    fn default() -> (r: Self)
        ensures
            r.device_name is None,
            r.sample_rate == 16_000,
            r.channels == 1,
    {
        RecordingConfig { device_name: None, sample_rate: 16_000, channels: 1 }
    }
}

/// What was captured.
#[derive(Debug)]
pub struct FinishedRecording {
    pub samples: Vec<i16>,
    pub sample_rate: u32,
    pub channels: u16,
    pub duration_ms: u64,
}

/// How many milliseconds a number of samples lasts.
pub open spec fn duration_of(samples: int, sample_rate: u32, channels: u16) -> int {
    if sample_rate == 0 || channels == 0 {
        0
    } else {
        ((samples / channels as int) * 1000) / sample_rate as int
    }
}

impl FinishedRecording {
    /// The recording of these samples.
    pub fn finish(samples: Vec<i16>, sample_rate: u32, channels: u16) -> (r: FinishedRecording)
        requires
            samples@.len() * 1000 <= u64::MAX,
        ensures
            r.samples == samples,
            r.sample_rate == sample_rate,
            r.channels == channels,
            r.duration_ms == duration_of(samples@.len() as int, sample_rate, channels),
    {
        let duration_ms: u64 = if sample_rate == 0 || channels == 0 {
            0
        } else {
            let frames: u64 = samples.len() as u64 / channels as u64;
            assert(frames <= samples@.len()) by (nonlinear_arith)
                requires
                    frames == samples@.len() / channels as nat,
                    channels > 0,
            ;
            (frames * 1000) / sample_rate as u64
        };
        FinishedRecording { samples, sample_rate, channels, duration_ms }
    }
}

/// The samples as signed numbers: the middle of the unsigned range is silence.
pub open spec fn signed_samples(data: Seq<u16>) -> Seq<i16> {
    Seq::new(data.len(), |i: int| (data[i] - 32768) as i16)
}

/// Keeps captured samples, and gives the chunk to send on.
pub fn push_i16(buffer: &mut Vec<i16>, data: &[i16]) -> (chunk: Vec<i16>)
    ensures
        final(buffer)@ == old(buffer)@ + data@,
        chunk@ == data@,
{
    let ghost before = buffer@;
    let mut chunk: Vec<i16> = Vec::new();
    let mut i: usize = 0;
    while i < data.len()
        invariant
            i <= data@.len(),
            buffer@ == before + data@.take(i as int),
            chunk@ == data@.take(i as int),
        decreases data@.len() - i,
    {
        assert(data@.take(i + 1) =~= data@.take(i as int).push(data@[i as int]));
        buffer.push(data[i]);
        chunk.push(data[i]);
        i = i + 1;
    }
    assert(data@.take(i as int) =~= data@);
    chunk
}

/// Keeps captured samples that are unsigned, and gives the chunk to send on.
pub fn push_u16_as_i16(buffer: &mut Vec<i16>, data: &[u16]) -> (chunk: Vec<i16>)
    ensures
        final(buffer)@ == old(buffer)@ + signed_samples(data@),
        chunk@ == signed_samples(data@),
{
    let ghost before = buffer@;
    let ghost all = signed_samples(data@);
    let mut chunk: Vec<i16> = Vec::new();
    let mut i: usize = 0;
    while i < data.len()
        invariant
            all == signed_samples(data@),
            i <= data@.len(),
            buffer@ == before + all.take(i as int),
            chunk@ == all.take(i as int),
        decreases data@.len() - i,
    {
        let x: i16 = (data[i] as i32 - 32768) as i16;
        assert(all.take(i + 1) =~= all.take(i as int).push(x));
        buffer.push(x);
        chunk.push(x);
        i = i + 1;
    }
    assert(all.take(i as int) =~= all);
    chunk
}

/// A number in two bytes, the lower first.
pub open spec fn two_bytes(n: int) -> Seq<u8> {
    seq![(n % 256) as u8, (n / 256 % 256) as u8]
}

/// A number in four bytes, the lowest first.
pub open spec fn four_bytes(n: int) -> Seq<u8> {
    two_bytes(n % 0x1_0000) + two_bytes(n / 0x1_0000)
}

/// The bytes of a text of ASCII characters.
pub open spec fn ascii(s: Seq<char>) -> Seq<u8> {
    Seq::new(s.len(), |i: int| s[i] as u8)
}

/// What the header says of channels and rates: how many channels there are, how many frames and
/// how many bytes pass in a second, and how many bytes a frame has.
pub open spec fn wav_rates(sample_rate: u32, channels: u16) -> Seq<u8> {
    two_bytes(channels as int) + four_bytes(sample_rate as int) + four_bytes(
        sample_rate * 2 * channels,
    ) + two_bytes((2 * channels) % 0x1_0000)
}

/// One bit for each channel, eighteen at most.
pub open spec fn channel_mask(channels: u16) -> int {
    pow2(
        if channels < 18 {
            channels as nat
        } else {
            18
        },
    ) - 1
}

/// The name of samples that are integers.
pub open spec fn integer_format() -> Seq<u8> {
    seq![1, 0, 0, 0, 0, 0, 0x10, 0, 0x80, 0, 0, 0xaa, 0, 0x38, 0x9b, 0x71]
}

/// The description of samples of sixteen bits: the short form for up to two channels, the long one
/// for more.
pub open spec fn wav_format(sample_rate: u32, channels: u16) -> Seq<u8> {
    if channels <= 2 {
        four_bytes(16) + two_bytes(1) + wav_rates(sample_rate, channels) + two_bytes(16)
    } else {
        four_bytes(40) + two_bytes(0xfffe) + wav_rates(sample_rate, channels) + two_bytes(16)
            + two_bytes(22) + two_bytes(16) + four_bytes(channel_mask(channels)) + integer_format()
    }
}

/// How many bytes of the header the size of the file counts.
pub open spec fn counted_header(channels: u16) -> int {
    if channels <= 2 {
        36
    } else {
        60
    }
}

/// The header of a WAV file with this much data, in samples of sixteen bits.
pub open spec fn wav_header(sample_rate: u32, channels: u16, data_len: nat) -> Seq<u8> {
    ascii("RIFF"@) + four_bytes(data_len + counted_header(channels)) + ascii("WAVEfmt "@)
        + wav_format(sample_rate, channels) + ascii("data"@) + four_bytes(data_len as int)
}

/// The header has 44 bytes for up to two channels, and 68 for more.
pub proof fn header_length(sample_rate: u32, channels: u16, data_len: nat)
    ensures
        wav_header(sample_rate, channels, data_len).len() == counted_header(channels) + 8,
{
    reveal_strlit("RIFF");
    reveal_strlit("WAVEfmt ");
    reveal_strlit("data");
}

/// Whether the sizes in the header of the file fit its fields.
pub open spec fn wav_fits(samples: int, sample_rate: u32, channels: u16) -> bool {
    &&& sample_rate * 2 * channels <= u32::MAX
    &&& 2 * samples + counted_header(channels) <= u32::MAX
}

/// Whether the sizes in the header of the file fit its fields.
pub fn sizes_fit(recording: &FinishedRecording) -> (r: bool)
    ensures
        r == wav_fits(
            recording.samples@.len() as int,
            recording.sample_rate,
            recording.channels,
        ),
{
    let header: u64 = if recording.channels <= 2 {
        36
    } else {
        60
    };
    let samples: u64 = recording.samples.len() as u64;
    let rate: u64 = recording.sample_rate as u64;
    let channels: u64 = recording.channels as u64;
    proof {
        assert(rate * 2 <= 0x1_FFFF_FFFE) by (nonlinear_arith)
            requires
                rate <= 0xFFFF_FFFF,
        ;
        assert((rate * 2) * channels <= 0x1_FFFF_FFFE * 0xFFFF) by (nonlinear_arith)
            requires
                rate * 2 <= 0x1_FFFF_FFFE,
                channels <= 0xFFFF,
        ;
    }
    rate * 2 * channels <= 0xFFFF_FFFF && samples <= 0xFFFF_FFFF && 2 * samples + header
        <= 0xFFFF_FFFF
}

/// What is said where the samples do not fill the last frame.
pub open spec fn unfinished_message() -> Seq<char> {
    "The number of samples written is not a multiple of the number of channels."@
}

/// Writes samples as a WAV file.
///
/// Trusted: `WavWriter` of `hound`, which borrows what it writes to from `new` until `finalize`,
/// and takes the samples one by one by `write_sample` in between. The file is the header and then
/// the samples, the lower byte of each first. Writing to memory does not fail, and `finalize` fails
/// if and only if the samples do not fill the last frame.
#[verifier::external_body]
fn write_wav(samples: &Vec<i16>, sample_rate: u32, channels: u16) -> (r: Result<Vec<u8>, String>)
    requires
        sample_rate > 0,
        channels > 0,
        wav_fits(samples@.len() as int, sample_rate, channels),
    ensures
        match r {
            Ok(file) => samples@.len() % channels as nat == 0 && file@ == wav_header(
                sample_rate,
                channels,
                2 * samples@.len(),
            ) + sample_bytes(samples@),
            Err(problem) => samples@.len() % channels as nat != 0 && problem@
                == unfinished_message(),
        },
{
    let sample_format = hound::SampleFormat::Int;
    let spec = hound::WavSpec { channels, sample_rate, bits_per_sample: 16, sample_format };
    let mut cursor = std::io::Cursor::new(Vec::new());
    let mut writer = hound::WavWriter::new(&mut cursor, spec).map_err(|e| e.to_string())?;
    for sample in samples {
        writer.write_sample(*sample).map_err(|e| e.to_string())?;
    }
    writer.finalize().map_err(|e| e.to_string())?;
    Ok(cursor.into_inner())
}

/// The recording as a WAV file.
pub fn wav_bytes(recording: &FinishedRecording) -> (r: Result<Vec<u8>, Error>)
    requires
        recording.channels > 0 && recording.sample_rate > 0 ==> wav_fits(
            recording.samples@.len() as int,
            recording.sample_rate,
            recording.channels,
        ),
    ensures
        if recording.channels == 0 {
            fails_with(r, "recording channels must be > 0"@)
        } else if recording.sample_rate == 0 {
            fails_with(r, "recording sample_rate must be > 0"@)
        } else if recording.samples@.len() % recording.channels as nat != 0 {
            fails_from(r, "failed finalizing wav writer"@, unfinished_message())
        } else {
            r is Ok && r->Ok_0@ == wav_header(
                recording.sample_rate,
                recording.channels,
                2 * recording.samples@.len(),
            ) + sample_bytes(recording.samples@)
        },
{
    if recording.channels == 0 {
        return Err(Error::new("recording channels must be > 0"));
    }
    if recording.sample_rate == 0 {
        return Err(Error::new("recording sample_rate must be > 0"));
    }
    match write_wav(&recording.samples, recording.sample_rate, recording.channels) {
        Ok(file) => Ok(file),
        Err(problem) => Err(Error::caused("failed finalizing wav writer", problem)),
    }
}

/// What is said where the requested device is missing.
pub open spec fn missing_device_message(name: Seq<char>) -> Seq<char> {
    "requested input device not found: "@ + name
        + ". Run `omni input list` then `omni input set <id>` (or `omni input set default`)"@
}

/// Whether the device at `i` has this name.
pub open spec fn has_name(names: Seq<Option<String>>, i: int, name: Seq<char>) -> bool {
    names[i] is Some && names[i]->0@ == name
}

/// Whether no device has this name.
pub open spec fn none_has_name(names: Seq<Option<String>>, name: Seq<char>) -> bool {
    forall|i: int| 0 <= i < names.len() ==> !#[trigger] has_name(names, i, name)
}

/// Which of the devices is meant: the first with the requested name, or the default one where none
/// or `default` is requested. The devices are given by their names, where they could be had.
pub fn select_input_device(names: &Vec<Option<String>>, requested: Option<&str>) -> (r: Result<
    Option<usize>,
    Error,
>)
    ensures
        match requested {
            Some(name) => if name@ == "default"@ {
                r == Ok::<Option<usize>, Error>(None)
            } else {
                match r {
                    Ok(Some(i)) => i < names@.len() && has_name(names@, i as int, name@)
                        && forall|n: int| 0 <= n < i ==> !#[trigger] has_name(names@, n, name@),
                    Ok(None) => false,
                    Err(_) => fails_with(r, missing_device_message(name@)) && forall|n: int|
                        0 <= n < names@.len() ==> !#[trigger] has_name(names@, n, name@),
                }
            },
            None => r == Ok::<Option<usize>, Error>(None),
        },
        r is Err ==> none_has_name(names@, requested->0@),
{
    let name = match requested {
        Some(name) => name,
        None => {
            return Ok(None);
        },
    };
    if same(name, "default") {
        return Ok(None);
    }
    let mut i: usize = 0;
    while i < names.len()
        invariant
            requested is Some,
            requested->0@ == name@,
            name@ != "default"@,
            i <= names@.len(),
            forall|n: int| 0 <= n < i ==> !#[trigger] has_name(names@, n, name@),
        decreases names@.len() - i,
    {
        if let Some(found) = &names[i] {
            if same(found.as_str(), name) {
                assert(has_name(names@, i as int, name@));
                return Ok(Some(i));
            }
        }
        i = i + 1;
    }
    let mut message = "requested input device not found: ".to_string();
    message.append(name);
    message.append(
        ". Run `omni input list` then `omni input set <id>` (or `omni input set default`)",
    );
    Err(Error { message, cause: None })
}

// ---------------------------------------------------------------------------------------------
// Laws of recordings
// ---------------------------------------------------------------------------------------------

/// A recording has the samples that were captured, and its duration is that of its whole frames at
/// its rate, down to the millisecond.
pub proof fn recording_is_what_was_captured(
    samples: Vec<i16>,
    sample_rate: u32,
    channels: u16,
    r: FinishedRecording,
)
    requires
        call_ensures(FinishedRecording::finish, (samples, sample_rate, channels), r),
    ensures
        r.samples@ == samples@,
        r.sample_rate == sample_rate,
        r.channels == channels,
        sample_rate > 0 && channels > 0 ==> {
            let frames = samples@.len() / channels as nat;
            r.duration_ms * sample_rate <= frames * 1000 < (r.duration_ms + 1) * sample_rate
        },
        sample_rate == 0 || channels == 0 ==> r.duration_ms == 0,
{
    if sample_rate > 0 && channels > 0 {
        let thousands = (samples@.len() as int / channels as int) * 1000;
        let rate = sample_rate as int;
        let whole = thousands / rate;
        vstd::arithmetic::div_mod::lemma_fundamental_div_mod(thousands, rate);
        vstd::arithmetic::div_mod::lemma_mod_bound(thousands, rate);
        assert(rate * whole <= thousands < rate * whole + rate);
        assert(whole * rate == rate * whole && (whole + 1) * rate == rate * whole + rate)
            by (nonlinear_arith);
    }
}

/// What is captured is kept behind what was captured before, and sent on, all of it and unchanged.
pub proof fn captured_samples_are_kept(buffer: &mut Vec<i16>, data: &[i16], chunk: Vec<i16>)
    requires
        call_ensures(push_i16, (buffer, data), chunk),
    ensures
        final(buffer)@ == old(buffer)@ + data@,
        chunk@ == data@,
{
}

/// Unsigned samples are kept and sent on in the same way, each less the middle of their range.
pub proof fn unsigned_samples_are_kept(buffer: &mut Vec<i16>, data: &[u16], chunk: Vec<i16>)
    requires
        call_ensures(push_u16_as_i16, (buffer, data), chunk),
    ensures
        final(buffer)@ == old(buffer)@ + chunk@,
        chunk@.len() == data@.len(),
        forall|i: int| 0 <= i < data@.len() ==> #[trigger] chunk@[i] == data@[i] - 32_768,
{
}

/// The number that four bytes are, the lowest first.
pub open spec fn number_at(file: Seq<u8>, i: int) -> int {
    file[i] + 256 * file[i + 1] + 65_536 * file[i + 2] + 16_777_216 * file[i + 3]
}

proof fn four_bytes_are_the_number(n: int)
    requires
        0 <= n <= 0xFFFF_FFFF,
    ensures
        four_bytes(n).len() == 4,
        number_at(four_bytes(n), 0) == n,
{
    assert(n / 0x1_0000 < 0x1_0000);
}

/// A recording of one or two channels as a file: the header says what it is, how many channels it
/// has, at which rate, and how long the data is; the data is every sample in its order.
pub proof fn file_holds_the_recording(recording: &FinishedRecording, r: Result<Vec<u8>, Error>)
    requires
        call_ensures(wav_bytes, (recording,), r),
        0 < recording.channels <= 2,
        recording.sample_rate > 0,
        recording.samples@.len() % recording.channels as nat == 0,
        wav_fits(recording.samples@.len() as int, recording.sample_rate, recording.channels),
    ensures
        r is Ok,
        ({
            let file = r->Ok_0@;
            let n = recording.samples@.len();
            &&& file.len() == 44 + 2 * n
            &&& file[0] == 'R' as u8 && file[1] == 'I' as u8 && file[2] == 'F' as u8 && file[3]
                == 'F' as u8
            &&& number_at(file, 4) == 36 + 2 * n
            &&& file[8] == 'W' as u8 && file[9] == 'A' as u8 && file[10] == 'V' as u8 && file[11]
                == 'E' as u8
            &&& number_at(file, 16) == 16
            &&& file[20] == 1 && file[21] == 0
            &&& file[22] == recording.channels && file[23] == 0
            &&& number_at(file, 24) == recording.sample_rate
            &&& number_at(file, 28) == recording.sample_rate * 2 * recording.channels
            &&& file[32] == 2 * recording.channels && file[33] == 0
            &&& file[34] == 16 && file[35] == 0
            &&& number_at(file, 40) == 2 * n
            &&& forall|i: int|
                #![trigger recording.samples@[i]]
                0 <= i < n ==> is_sample(
                    recording.samples@[i],
                    file[44 + 2 * i],
                    file[45 + 2 * i],
                )
        }),
{
    let n = recording.samples@.len();
    let file = r->Ok_0@;
    let header = wav_header(recording.sample_rate, recording.channels, 2 * n);
    header_length(recording.sample_rate, recording.channels, 2 * n);
    reveal_strlit("RIFF");
    reveal_strlit("WAVEfmt ");
    reveal_strlit("data");
    let size = four_bytes(2 * (n as int) + 36);
    let format = four_bytes(16);
    let rate = four_bytes(recording.sample_rate as int);
    let bytes = four_bytes(recording.sample_rate * 2 * recording.channels);
    let length = four_bytes(2 * n as int);
    assert(recording.sample_rate * 2 * recording.channels >= 0) by (nonlinear_arith)
        requires
            recording.sample_rate >= 0,
            recording.channels >= 0,
    ;
    four_bytes_are_the_number(2 * (n as int) + 36);
    four_bytes_are_the_number(16);
    four_bytes_are_the_number(recording.sample_rate as int);
    four_bytes_are_the_number(recording.sample_rate * 2 * recording.channels);
    four_bytes_are_the_number(2 * n as int);
    assert(header.len() == 44);
    assert(file.len() == 44 + 2 * n);
    assert forall|i: int| 0 <= i < 44 implies #[trigger] file[i] == header[i] by {}
    assert forall|i: int| 0 <= i < 4 implies #[trigger] size[i] == file[i + 4] by {}
    assert forall|i: int| 0 <= i < 4 implies #[trigger] format[i] == file[i + 16] by {}
    assert forall|i: int| 0 <= i < 4 implies #[trigger] rate[i] == file[i + 24] by {}
    assert forall|i: int| 0 <= i < 4 implies #[trigger] bytes[i] == file[i + 28] by {}
    assert forall|i: int| 0 <= i < 4 implies #[trigger] length[i] == file[i + 40] by {}
    assert(size[0] == file[4] && size[1] == file[5] && size[2] == file[6] && size[3] == file[7]);
    assert(format[0] == file[16] && format[1] == file[17] && format[2] == file[18] && format[3]
        == file[19]);
    assert(rate[0] == file[24] && rate[1] == file[25] && rate[2] == file[26] && rate[3]
        == file[27]);
    assert(bytes[0] == file[28] && bytes[1] == file[29] && bytes[2] == file[30] && bytes[3]
        == file[31]);
    assert(length[0] == file[40] && length[1] == file[41] && length[2] == file[42] && length[3]
        == file[43]);
    assert forall|i: int|
        #![trigger recording.samples@[i]]
        0 <= i < n implies is_sample(recording.samples@[i], file[44 + 2 * i], file[45 + 2 * i]) by {
        bytes_are_of_the_samples(recording.samples@, i);
        assert(file[44 + 2 * i] == sample_bytes(recording.samples@)[2 * i]);
        assert(file[45 + 2 * i] == sample_bytes(recording.samples@)[2 * i + 1]);
    }
}

/// A recording that is no recording, or whose last frame is not full, is no file.
pub proof fn broken_recording_is_no_file(recording: &FinishedRecording, r: Result<Vec<u8>, Error>)
    requires
        call_ensures(wav_bytes, (recording,), r),
    ensures
        recording.channels == 0 ==> r is Err && r->Err_0.message@
            == "recording channels must be > 0"@,
        recording.channels > 0 && recording.sample_rate == 0 ==> r is Err && r->Err_0.message@
            == "recording sample_rate must be > 0"@,
        recording.channels > 0 && recording.samples@.len() % recording.channels as nat != 0
            ==> r is Err,
{
}

/// The device that is asked for by its name is the first of that name; without a name, or with the
/// name `default`, it is the default one; a name that no device has is refused, and named.
pub proof fn device_is_found_by_its_name(
    names: &Vec<Option<String>>,
    requested: Option<&str>,
    r: Result<Option<usize>, Error>,
    i: int,
)
    requires
        call_ensures(select_input_device, (names, requested), r),
    ensures
        requested is None || requested->0@ == "default"@ ==> r is Ok && r->Ok_0 is None,
        requested is Some && requested->0@ != "default"@ && 0 <= i < names@.len()
            && names@[i] is Some && names@[i]->0@ == requested->0@ ==> r is Ok && r->Ok_0 is Some
            && r->Ok_0->0 <= i && names@[r->Ok_0->0 as int] is Some
            && names@[r->Ok_0->0 as int]->0@ == requested->0@,
        r is Err ==> requested is Some && r->Err_0.message@ == "requested input device not found: "@
            + requested->0@
            + ". Run `omni input list` then `omni input set <id>` (or `omni input set default`)"@,
{
    if requested is Some && 0 <= i < names@.len() && names@[i] is Some && names@[i]->0@
        == requested->0@ && requested->0@ != "default"@ {
        let name = requested->0;
        assert(has_name(names@, i, name@));
        assert(r is Ok);
        let found = r->Ok_0->0 as int;
        assert(has_name(names@, found, name@));
        assert(found <= i);
    }
}

} // verus!
