//! Media tools and file fingerprints: where `ffprobe` and `ffmpeg` are
//! found, which streams of a probe are read, and the SHA-256 hex digest of a
//! file's contents.
use vstd::prelude::*;
use serde_json::Value;
use sha2::Digest;
use crate::text::{decimal_i64, parse_i64_str, str_eq, trim, trim_str, views};

verus! {

// ---------------------------------------------------------------------------
// Locating the tools
// ---------------------------------------------------------------------------

/// Calls `Path::is_file` on the path; the answer depends on the disk, so
/// nothing is promised of it.
#[verifier::external_body]
fn path_is_file(path: &str) -> (res: bool) {
    std::path::Path::new(path).is_file()
}

/// The configured path, trimmed, when it is not blank.
pub open spec fn configured_candidate(configured: Option<&str>) -> Option<Seq<char>> {
    match configured {
        Some(p) => if trim(p@).len() > 0 {
            Some(trim(p@))
        } else {
            None
        },
        None => None,
    }
}

/// The tool path chosen: the configured path, trimmed, when it is not blank
/// and names a file; otherwise the one found on the search path.
pub open spec fn chosen_tool(
    configured: Option<&str>,
    configured_is_file: bool,
    found_on_path: Option<String>,
) -> Option<Seq<char>> {
    match configured_candidate(configured) {
        Some(c) => if configured_is_file {
            Some(c)
        } else {
            match found_on_path {
                Some(f) => Some(f@),
                None => None,
            }
        },
        None => match found_on_path {
            Some(f) => Some(f@),
            None => None,
        },
    }
}

/// The view of an optional string.
pub open spec fn opt_seq(o: Option<String>) -> Option<Seq<char>> {
    match o {
        Some(s) => Some(s@),
        None => None,
    }
}

/// Chooses the tool path, given whether the trimmed configured path names
/// a file.
pub fn choose_tool_path(
    configured: Option<&str>,
    configured_is_file: bool,
    found_on_path: Option<String>,
) -> (res: Option<String>)
    ensures
        opt_seq(res) == chosen_tool(configured, configured_is_file, found_on_path),
{
    match configured {
        Some(p) => {
            let t = trim_str(p);
            if !t.as_str().is_empty() && configured_is_file {
                return Some(t);
            }
            found_on_path
        },
        None => found_on_path,
    }
}

/// A configured tool path has priority: when the configured path, trimmed,
/// is not blank and names a file, it is the tool path whatever the search
/// path holds; otherwise the search path decides.
pub proof fn law_configured_tool_first(
    configured: Option<&str>,
    configured_is_file: bool,
    found_on_path: Option<String>,
)
    ensures
        configured_candidate(configured) is Some && configured_is_file ==> chosen_tool(
            configured,
            configured_is_file,
            found_on_path,
        ) == configured_candidate(configured),
        !(configured_candidate(configured) is Some && configured_is_file) ==> chosen_tool(
            configured,
            configured_is_file,
            found_on_path,
        ) == opt_seq(found_on_path),
{
}

/// The tool path for a configured setting: the setting, trimmed, if it is
/// not blank and names a file; otherwise what was found on the search path.
fn find_tool(configured: Option<&str>, found_on_path: Option<String>) -> (res: Option<String>)
    ensures
        exists|is_file: bool| opt_seq(res) == chosen_tool(configured, is_file, found_on_path),
{
    let is_file = match configured {
        Some(p) => {
            let t = trim_str(p);
            !t.as_str().is_empty() && path_is_file(t.as_str())
        },
        None => false,
    };
    let res = choose_tool_path(configured, is_file, found_on_path);
    assert(opt_seq(res) == chosen_tool(configured, is_file, found_on_path));
    res
}

/// Where `ffprobe` is: the configured path, trimmed, when it is not blank
/// and names a file; otherwise `ffprobe` (or `ffprobe.exe`) as found on the
/// search path.
pub fn find_ffprobe(configured: Option<&str>, found_on_path: Option<String>) -> (res: Option<String>)
    ensures
        exists|is_file: bool| opt_seq(res) == chosen_tool(configured, is_file, found_on_path),
        configured_candidate(configured) is None ==> opt_seq(res) == opt_seq(found_on_path),
        opt_seq(res) == configured_candidate(configured) || opt_seq(res) == opt_seq(found_on_path),
{
    let res = find_tool(configured, found_on_path);
    proof {
        let is_file = choose|is_file: bool| opt_seq(res) == chosen_tool(configured, is_file, found_on_path);
        law_configured_tool_first(configured, is_file, found_on_path);
    }
    res
}

/// Where `ffmpeg` is: the configured path, trimmed, when it is not blank
/// and names a file; otherwise `ffmpeg` (or `ffmpeg.exe`) as found on the
/// search path.
pub fn find_ffmpeg(configured: Option<&str>, found_on_path: Option<String>) -> (res: Option<String>)
    ensures
        exists|is_file: bool| opt_seq(res) == chosen_tool(configured, is_file, found_on_path),
        configured_candidate(configured) is None ==> opt_seq(res) == opt_seq(found_on_path),
        opt_seq(res) == configured_candidate(configured) || opt_seq(res) == opt_seq(found_on_path),
{
    let res = find_tool(configured, found_on_path);
    proof {
        let is_file = choose|is_file: bool| opt_seq(res) == chosen_tool(configured, is_file, found_on_path);
        law_configured_tool_first(configured, is_file, found_on_path);
    }
    res
}

// ---------------------------------------------------------------------------
// Probe streams
// ---------------------------------------------------------------------------

/// The position of the first stream of the given type.
pub open spec fn first_of_type(types: Seq<Seq<char>>, t: Seq<char>) -> Option<int>
    decreases types.len(),
{
    if types.len() == 0 {
        None
    } else {
        match first_of_type(types.drop_last(), t) {
            Some(i) => Some(i),
            None => if types.last() == t {
                Some(types.len() - 1)
            } else {
                None
            },
        }
    }
}

proof fn lemma_first_of_type_in_range(types: Seq<Seq<char>>, t: Seq<char>)
    ensures
        first_of_type(types, t) matches Some(i) ==> 0 <= i < types.len(),
    decreases types.len(),
{
    if types.len() > 0 {
        lemma_first_of_type_in_range(types.drop_last(), t);
    }
}

/// The streams whose properties are read, from the `codec_type` of each
/// stream of a probe (empty when absent): the first `video` stream and the
/// first `audio` stream.
pub fn pick_streams(codec_types: &Vec<String>) -> (res: (Option<usize>, Option<usize>))
    ensures
        (match res.0 {
            Some(i) => Some(i as int),
            None => None,
        }) == first_of_type(views(codec_types@), "video"@),
        (match res.1 {
            Some(i) => Some(i as int),
            None => None,
        }) == first_of_type(views(codec_types@), "audio"@),
{
    let mut video: Option<usize> = None;
    let mut audio: Option<usize> = None;
    let mut i: usize = 0;
    assert(views(codec_types@.take(0)) =~= Seq::<Seq<char>>::empty());
    while i < codec_types.len()
        invariant
            i <= codec_types@.len(),
            (match video {
                Some(k) => Some(k as int),
                None => None,
            }) == first_of_type(views(codec_types@.take(i as int)), "video"@),
            (match audio {
                Some(k) => Some(k as int),
                None => None,
            }) == first_of_type(views(codec_types@.take(i as int)), "audio"@),
        decreases codec_types@.len() - i,
    {
        assert(codec_types@.take(i + 1).drop_last() =~= codec_types@.take(i as int));
        assert(codec_types@.take(i + 1).last() == codec_types@[i as int]);
        assert(views(codec_types@.take(i + 1)).drop_last() =~= views(codec_types@.take(i as int)));
        assert(views(codec_types@.take(i + 1)).last() == codec_types@[i as int]@);
        let t = codec_types[i].as_str();
        if video.is_none() && str_eq(t, "video") {
            video = Some(i);
        }
        if audio.is_none() && str_eq(t, "audio") {
            audio = Some(i);
        }
        i = i + 1;
    }
    assert(codec_types@.take(codec_types@.len() as int) =~= codec_types@);
    (video, audio)
}

/// One stream of a probe report, as `ffprobe` writes it: each field is
/// present when the stream has it with the expected JSON type.
#[derive(Debug, Clone, PartialEq, Eq)]
pub struct ProbeStream {
    pub codec_type: Option<String>,
    pub width: Option<i64>,
    pub height: Option<i64>,
    pub codec_name: Option<String>,
    pub r_frame_rate: Option<String>,
    pub sample_rate: Option<String>,
}

/// The parts of a probe report that are read: the duration of the format
/// (a decimal string) and the list of streams.
#[derive(Debug, Clone, PartialEq, Eq)]
pub struct ProbeReport {
    pub duration: Option<String>,
    pub streams: Option<Vec<ProbeStream>>,
}

/// A name for the report read from the JSON output of `ffprobe`; `None`
/// when the output is not JSON.
pub uninterp spec fn probe_report_of(out: Seq<u8>) -> Option<ProbeReport>;

/// Calls `serde_json::from_slice` on the output of `ffprobe` and copies the
/// fields that are read into a [`ProbeReport`]: `format.duration`, and for
/// each entry of `streams` its `codec_type`, `width`, `height`,
/// `codec_name`, `r_frame_rate` and `sample_rate`, each kept when it has
/// the JSON type read (string, or integer for the sizes). The result is
/// named, as parsing depends on the bytes alone.
#[verifier::external_body]
pub fn parse_probe_output(out: &[u8]) -> (res: Option<ProbeReport>)
    ensures
        res == probe_report_of(out@),
{
    let j: Value = serde_json::from_slice(out).ok()?;
    let text = |v: &Value, k: &str| v[k].as_str().map(String::from);
    let stream = |v: &Value| ProbeStream {
        codec_type: text(v, "codec_type"), width: v["width"].as_i64(), height: v["height"].as_i64(),
        codec_name: text(v, "codec_name"), r_frame_rate: text(v, "r_frame_rate"),
        sample_rate: text(v, "sample_rate"),
    };
    let streams = j["streams"].as_array().map(|a| a.iter().map(stream).collect());
    Some(ProbeReport { duration: text(&j["format"], "duration"), streams })
}

/// What a probe gives the library: the duration text, the size, codec and
/// frame-rate text of the first video stream, and the sample rate of the
/// first audio stream. Durations and frame rates stay text here.
#[derive(Debug, Clone, PartialEq, Eq)]
pub struct ProbeFields {
    pub duration: Option<String>,
    pub width: Option<i64>,
    pub height: Option<i64>,
    pub codec: Option<String>,
    pub frame_rate: Option<String>,
    pub sample_rate: Option<i64>,
}

/// The `codec_type` of each stream, empty when absent.
pub open spec fn stream_types(streams: Seq<ProbeStream>) -> Seq<Seq<char>> {
    Seq::new(
        streams.len(),
        |i: int|
            match streams[i].codec_type {
                Some(t) => t@,
                None => Seq::<char>::empty(),
            },
    )
}

/// The position of the first stream of type `t` in a report.
pub open spec fn report_stream(r: ProbeReport, t: Seq<char>) -> Option<int> {
    match r.streams {
        Some(v) => first_of_type(stream_types(v@), t),
        None => None,
    }
}

/// Reads a probe report: the video fields come from the first `video`
/// stream, the sample rate from the first `audio` stream (read as a decimal
/// `i64`), and the duration from the format.
pub fn read_probe(r: &ProbeReport) -> (res: ProbeFields)
    ensures
        res.duration == r.duration,
        match report_stream(*r, "video"@) {
            Some(i) => {
                let s = r.streams->0@[i];
                &&& res.width == s.width
                &&& res.height == s.height
                &&& res.codec == s.codec_name
                &&& res.frame_rate == s.r_frame_rate
            },
            None => res.width is None && res.height is None && res.codec is None
                && res.frame_rate is None,
        },
        match report_stream(*r, "audio"@) {
            Some(i) => res.sample_rate == match r.streams->0@[i].sample_rate {
                Some(t) => decimal_i64(t@),
                None => None,
            },
            None => res.sample_rate is None,
        },
{
    let duration = clone_text(&r.duration);
    let mut out = ProbeFields {
        duration,
        width: None,
        height: None,
        codec: None,
        frame_rate: None,
        sample_rate: None,
    };
    match &r.streams {
        None => {},
        Some(v) => {
            let mut types: Vec<String> = Vec::new();
            let mut i: usize = 0;
            while i < v.len()
                invariant
                    i <= v@.len(),
                    types@.len() == i,
                    forall|k: int| 0 <= k < i ==> (#[trigger] types@[k])@ == stream_types(v@)[k],
                decreases v@.len() - i,
            {
                let t = match &v[i].codec_type {
                    Some(t) => t.clone(),
                    None => String::new(),
                };
                types.push(t);
                i = i + 1;
            }
            assert(views(types@) =~= stream_types(v@));
            let (video, audio) = pick_streams(&types);
            proof {
                lemma_first_of_type_in_range(stream_types(v@), "video"@);
                lemma_first_of_type_in_range(stream_types(v@), "audio"@);
            }
            match video {
                Some(k) => {
                    let s = &v[k];
                    out.width = s.width;
                    out.height = s.height;
                    out.codec = clone_text(&s.codec_name);
                    out.frame_rate = clone_text(&s.r_frame_rate);
                },
                None => {},
            }
            match audio {
                Some(k) => {
                    out.sample_rate = match &v[k].sample_rate {
                        Some(t) => parse_i64_str(t.as_str()),
                        None => None,
                    };
                },
                None => {},
            }
        },
    }
    out
}

/// A copy of an optional text.
fn clone_text(o: &Option<String>) -> (res: Option<String>)
    ensures
        res == *o,
{
    match o {
        Some(t) => Some(t.clone()),
        None => None,
    }
}

// ---------------------------------------------------------------------------
// SHA-256
// ---------------------------------------------------------------------------

/// A name for the SHA-256 digest of a byte string.
pub uninterp spec fn sha256_of(data: Seq<u8>) -> Seq<u8>;

/// The running SHA-256 state of `sha2`, held opaque. `sha2::Sha256` is an
/// alias of generic wrappers whose bounds are traits of `digest` and
/// `typenum`, which cannot be declared here, so the state is kept behind
/// the names below.
#[verifier::external_body]
pub struct Sha256State {
    inner: sha2::Sha256,
}

/// A name for the bytes fed to a hashing state so far.
pub uninterp spec fn absorbed(s: Sha256State) -> Seq<u8>;

/// Calls `Digest::new` for `sha2::Sha256`: a state that has absorbed
/// nothing.
#[verifier::external_body]
fn sha256_new() -> (res: Sha256State)
    ensures
        absorbed(res) == Seq::<u8>::empty(),
{
    Sha256State { inner: sha2::Sha256::new() }
}

/// Calls `Digest::update`: the chunk is appended to the absorbed bytes.
#[verifier::external_body]
fn sha256_update(s: &mut Sha256State, chunk: &[u8])
    ensures
        absorbed(*final(s)) == absorbed(*old(s)) + chunk@,
{
    s.inner.update(chunk)
}

/// Calls `Digest::finalize`: the digest of all absorbed bytes, 32 bytes
/// long.
#[verifier::external_body]
fn sha256_finalize(s: Sha256State) -> (res: Vec<u8>)
    ensures
        res@ == sha256_of(absorbed(s)),
        res@.len() == 32,
{
    s.inner.finalize().to_vec()
}

/// The lower-case hex digit of a value below 16.
pub open spec fn hex_digit(v: int) -> char {
    if v < 10 {
        ((v + 48) as u32) as char
    } else {
        ((v + 87) as u32) as char
    }
}

/// Lower-case hex encoding: two digits per byte, high half first.
pub open spec fn hex_lower(data: Seq<u8>) -> Seq<char>
    decreases data.len(),
{
    if data.len() == 0 {
        Seq::<char>::empty()
    } else {
        hex_lower(data.drop_last()) + seq![
            hex_digit(data.last() as int / 16),
            hex_digit(data.last() as int % 16),
        ]
    }
}

proof fn lemma_hex_lower_len(data: Seq<u8>)
    ensures
        hex_lower(data).len() == 2 * data.len(),
    decreases data.len(),
{
    if data.len() > 0 {
        lemma_hex_lower_len(data.drop_last());
    }
}

/// Calls `hex::encode`, which writes each byte as two lower-case hex
/// digits.
#[verifier::external_body]
fn hex_encode(data: &[u8]) -> (res: String)
    ensures
        res@ == hex_lower(data@),
{
    hex::encode(data)
}

/// Hashes a file read in chunks.
pub struct FileHasher {
    state: Sha256State,
}

impl FileHasher {
    /// The bytes hashed so far.
    pub closed spec fn input(&self) -> Seq<u8> {
        absorbed(self.state)
    }

    /// A hasher that has read nothing.
    pub fn new() -> (res: FileHasher)
        ensures
            res.input() == Seq::<u8>::empty(),
    {
        FileHasher { state: sha256_new() }
    }

    /// Feeds the next chunk of the file.
    pub fn update(&mut self, chunk: &[u8])
        ensures
            final(self).input() == old(self).input() + chunk@,
    {
        sha256_update(&mut self.state, chunk);
    }

    /// The lower-case hex SHA-256 digest of everything fed, 64 characters.
    pub fn finish_hex(self) -> (res: String)
        ensures
            res@ == hex_lower(sha256_of(self.input())),
            res@.len() == 64,
    {
        let digest = sha256_finalize(self.state);
        proof {
            lemma_hex_lower_len(digest@);
        }
        hex_encode(digest.as_slice())
    }
}

/// The lower-case hex SHA-256 digest of a byte string.
pub fn sha256_hex(data: &[u8]) -> (res: String)
    ensures
        res@ == hex_lower(sha256_of(data@)),
        res@.len() == 64,
{
    let mut h = FileHasher::new();
    h.update(data);
    assert(h.input() =~= data@);
    h.finish_hex()
}

} // verus!
