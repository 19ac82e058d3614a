use vstd::prelude::*;
use crate::config::{Config, TranscriptionMode, join_spec, data_dir_spec, platform_data_dir_gave};
use crate::model::{model_path_probed, path_result_view, resolve_model_path, resolve_spec, preferred_files, ModelPathError};
use crate::text::{
    chars_of, push_str, str_eq, string_of, sub_chars, trim, trim_chars,
};

verus! {

/// `s` without any trailing `c`, as `str::trim_end_matches(c)` gives it.
pub open spec fn strip_trailing(s: Seq<char>, c: char) -> Seq<char>
    decreases s.len(),
{
    if s.len() > 0 && s.last() == c {
        strip_trailing(s.drop_last(), c)
    } else {
        s
    }
}

/// Whether `s` ends with `suffix`.
pub open spec fn ends_with(s: Seq<char>, suffix: Seq<char>) -> bool {
    suffix.len() <= s.len() && s.subrange(s.len() - suffix.len(), s.len() as int) == suffix
}

/// The transcription endpoint for a configured API address: trailing slashes are
/// dropped, then `/v1/audio/transcriptions` is completed (after `/v1`) or appended.
pub open spec fn endpoint_spec(url: Seq<char>) -> Seq<char> {
    let u = strip_trailing(url, '/');
    if ends_with(u, "/v1/audio/transcriptions"@) {
        u
    } else if ends_with(u, "/v1"@) {
        u + "/audio/transcriptions"@
    } else {
        u + "/v1/audio/transcriptions"@
    }
}

fn ends_with_exec(v: &Vec<char>, suffix: &str) -> (r: bool)
    ensures
        r == ends_with(v@, suffix@),
{
    let s = chars_of(suffix);
    if s.len() > v.len() {
        return false;
    }
    let tail = sub_chars(v, v.len() - s.len(), v.len());
    crate::text::chars_eq(&tail, &s)
}

pub(crate) proof fn lemma_strip_trailing(s: Seq<char>, c: char, k: int)
    requires
        0 <= k <= s.len(),
        forall|j: int| k <= j < s.len() ==> s[j] == c,
        k == 0 || s[k - 1] != c,
    ensures
        strip_trailing(s, c) == s.take(k),
    decreases s.len() - k,
{
    if k < s.len() {
        lemma_strip_trailing(s.drop_last(), c, k);
        assert(s.drop_last().take(k) =~= s.take(k));
    } else {
        assert(s.take(k) =~= s);
    }
}

/// The transcription endpoint for a configured API address (see `endpoint_spec`).
pub fn normalize_api_url(url: &str) -> (r: String)
    ensures
        r@ == endpoint_spec(url@),
{
    let v = chars_of(url);
    let mut k = v.len();
    while k > 0 && v[k - 1] == '/'
        invariant
            k <= v.len(),
            forall|j: int| k <= j < v.len() ==> v@[j] == '/',
        decreases k,
    {
        k = k - 1;
    }
    proof {
        lemma_strip_trailing(v@, '/', k as int);
        assert(v@.subrange(0, k as int) =~= v@.take(k as int));
    }
    let mut u = sub_chars(&v, 0, k);
    if ends_with_exec(&u, "/v1/audio/transcriptions") {
    } else if ends_with_exec(&u, "/v1") {
        push_str(&mut u, "/audio/transcriptions");
    } else {
        push_str(&mut u, "/v1/audio/transcriptions");
    }
    string_of(u.as_slice())
}

/// The endpoint always ends with `/v1/audio/transcriptions`, and completing an
/// endpoint again changes nothing.
pub proof fn lemma_endpoint_complete_and_idempotent(url: Seq<char>)
    ensures
        ends_with(endpoint_spec(url), "/v1/audio/transcriptions"@),
        endpoint_spec(endpoint_spec(url)) == endpoint_spec(url),
{
    reveal_strlit("/v1/audio/transcriptions");
    reveal_strlit("/audio/transcriptions");
    reveal_strlit("/v1");
    let u = strip_trailing(url, '/');
    let full = "/v1/audio/transcriptions"@;
    let tail = "/audio/transcriptions"@;
    let v1 = "/v1"@;
    assert(full =~= v1 + tail);
    let e = endpoint_spec(url);
    if ends_with(u, full) {
        assert(e == u);
        assert(e.last() == full[full.len() - 1]);
    } else if ends_with(u, v1) {
        assert(e == u + tail);
        assert(e.subrange(e.len() - full.len(), e.len() as int) =~= u.subrange(
            u.len() - 3,
            u.len() as int,
        ) + tail);
        assert(e.last() == tail[tail.len() - 1]);
    } else {
        assert(e == u + full);
        assert(e.subrange(e.len() - full.len(), e.len() as int) =~= full);
        assert(e.last() == full[full.len() - 1]);
    }
    assert(strip_trailing(e, '/') == e);
}

/// The language whisper is told to expect: none for "auto" (detect it).
pub open spec fn whisper_language_spec(language: Seq<char>) -> Option<Seq<char>> {
    if language == "auto"@ {
        None
    } else {
        Some(language)
    }
}

/// The view of an optional string.
pub open spec fn opt_string_view(o: Option<String>) -> Option<Seq<char>> {
    match o {
        Some(s) => Some(s@),
        None => None,
    }
}

/// The language for the local model: none for "auto", so that whisper detects it.
pub fn whisper_language(language: &str) -> (r: Option<String>)
    ensures
        opt_string_view(r) == whisper_language_spec(language@),
{
    if str_eq(language, "auto") {
        None
    } else {
        Some(language.to_owned())
    }
}

/// The `language` field sent to the API: left out for "auto" and for an empty
/// language.
pub open spec fn api_language_spec(language: Seq<char>) -> Option<Seq<char>> {
    if language != "auto"@ && language.len() != 0 {
        Some(language)
    } else {
        None
    }
}

/// The `language` field sent to the API, if any.
pub fn api_language(language: &str) -> (r: Option<String>)
    ensures
        opt_string_view(r) == api_language_spec(language@),
{
    if !str_eq(language, "auto") && !language.is_empty() {
        Some(language.to_owned())
    } else {
        None
    }
}

/// The text of an API reply: its body without surrounding white space when the
/// status is a success; `None` (an API error) otherwise.
pub fn api_reply_text(success: bool, body: &str) -> (r: Option<String>)
    ensures
        opt_string_view(r) == (if success {
            Some(trim(body@))
        } else {
            None::<Seq<char>>
        }),
{
    if success {
        let v = chars_of(body);
        let t = trim_chars(&v);
        Some(string_of(t.as_slice()))
    } else {
        None
    }
}

/// How speech will be transcribed.
#[derive(Debug, Clone)]
pub enum TranscriberPlan {
    /// By the remote API at `url` (the full transcription endpoint).
    Api { url: String, api_key: String, model: String, language: String },
    /// By the local whisper model at `model_path`; `whisper_language` is `None` to
    /// detect the language.
    Local { model_path: String, whisper_language: Option<String> },
}

/// Why no transcriber can be set up.
#[derive(Debug, Clone, PartialEq, Eq)]
pub enum PlanError {
    /// Local mode, and no model file was found.
    NoModel,
}

impl PlanError {
    pub fn message(&self) -> (r: String)
        ensures
            r@ == "No model found. Download one first."@,
    {
        "No model found. Download one first.".to_owned()
    }
}

/// Whether `r` is the API transcriber that `cfg` describes: the full endpoint of its
/// address, its key and model, and the configured language.
pub open spec fn api_plan_matches(cfg: Config, r: Result<TranscriberPlan, PlanError>) -> bool {
    r matches Ok(TranscriberPlan::Api { url, api_key, model, language }) && url@ == endpoint_spec(
        cfg.transcription.api_url@,
    ) && api_key@ == cfg.transcription.api_key@ && model@ == cfg.transcription.api_model@
        && language@ == cfg.model.language@
}

/// Whether `r` is the local transcriber for `cfg`, given what resolving its model path
/// gave (`resolved`): the model file found, with the configured language ("auto":
/// none); an error when no model file was found.
pub open spec fn local_plan_matches(
    cfg: Config,
    resolved: Result<Seq<char>, Option<Seq<char>>>,
    r: Result<TranscriberPlan, PlanError>,
) -> bool {
    match resolved {
        Ok(p) => r matches Ok(TranscriberPlan::Local { model_path, whisper_language })
            && model_path@ == p && opt_string_view(whisper_language) == whisper_language_spec(
            cfg.model.language@,
        ),
        Err(_) => r == Err::<TranscriberPlan, PlanError>(PlanError::NoModel),
    }
}

/// The local transcriber for `cfg`, given what resolving its model path gave: the
/// model file with the configured language ("auto": none), or `NoModel`.
pub fn local_plan(cfg: &Config, resolved: Result<String, ModelPathError>) -> (r: Result<
    TranscriberPlan,
    PlanError,
>)
    ensures
        local_plan_matches(*cfg, path_result_view(resolved), r),
{
    match resolved {
        Ok(p) => Ok(
            TranscriberPlan::Local {
                model_path: p,
                whisper_language: whisper_language(cfg.model.language.as_str()),
            },
        ),
        Err(_) => Err(PlanError::NoModel),
    }
}

/// How `cfg` says speech is to be transcribed: by the API (at its full endpoint),
/// or by the local model file it resolves to, an error when there is none.
pub fn build_transcriber_plan(cfg: &Config) -> (r: Result<TranscriberPlan, PlanError>)
    ensures
        cfg.transcription.mode == TranscriptionMode::Api ==> api_plan_matches(*cfg, r),
        cfg.transcription.mode == TranscriptionMode::Local ==> exists|
            configured_exists: bool,
            found: Option<Seq<char>>,
            present: Seq<bool>,
        |
            present.len() == preferred_files().len() && local_plan_matches(
                *cfg,
                resolve_spec(
                    cfg.model.path@,
                    configured_exists,
                    join_spec(data_dir_spec(found), "models"@),
                    present,
                ),
                r,
            ),
        cfg.transcription.mode == TranscriptionMode::Local ==> exists|
            configured_exists: bool,
            dir: Seq<char>,
            present: Seq<bool>,
        |
            model_path_probed(cfg.model.path@, configured_exists, dir, present)
                && local_plan_matches(
                *cfg,
                resolve_spec(cfg.model.path@, configured_exists, dir, present),
                r,
            ),
{
    match cfg.transcription.mode {
        TranscriptionMode::Api => Ok(
            TranscriberPlan::Api {
                url: normalize_api_url(cfg.transcription.api_url.as_str()),
                api_key: cfg.transcription.api_key.clone(),
                model: cfg.transcription.api_model.clone(),
                language: cfg.model.language.clone(),
            },
        ),
        TranscriptionMode::Local => {
            let resolved = resolve_model_path(cfg);
            let ghost (ce, dir, present) = choose|ce: bool, dir: Seq<char>, present: Seq<bool>|
                model_path_probed(cfg.model.path@, ce, dir, present) && path_result_view(resolved)
                    == resolve_spec(cfg.model.path@, ce, dir, present);
            let r = local_plan(cfg, resolved);
            proof {
                if cfg.model.path@.len() > 0 {
                    assert(resolve_spec(cfg.model.path@, ce, dir, present) == resolve_spec(
                        cfg.model.path@,
                        ce,
                        join_spec(data_dir_spec(None), "models"@),
                        present,
                    ));
                } else {
                    let found = choose|found: Option<Seq<char>>|
                        platform_data_dir_gave(found) && dir == join_spec(
                            data_dir_spec(found),
                            "models"@,
                        );
                    assert(dir == join_spec(data_dir_spec(found), "models"@));
                }
            }
            r
        },
    }
}


/// The two bytes of `x`, least significant first.
pub open spec fn le16(x: u16) -> Seq<u8> {
    seq![(x % 256) as u8, (x / 256) as u8]
}

/// The four bytes of `x`, least significant first.
pub open spec fn le32(x: u32) -> Seq<u8> {
    seq![(x % 256) as u8, ((x / 256) % 256) as u8, ((x / 65536) % 256) as u8, (x / 16777216) as u8]
}

/// The bit pattern of a 16-bit sample (two's complement).
pub open spec fn sample_bits(x: i16) -> u16 {
    if x >= 0 {
        x as u16
    } else {
        (x + 65536) as u16
    }
}

/// The PCM data of a run of 16-bit samples, each little-endian.
pub open spec fn pcm_spec(samples: Seq<i16>) -> Seq<u8>
    decreases samples.len(),
{
    if samples.len() == 0 {
        Seq::empty()
    } else {
        pcm_spec(samples.drop_last()) + le16(sample_bits(samples.last()))
    }
}

/// The 44-byte header of a mono 16-bit PCM WAV file of `n` samples at `rate` Hz:
/// "RIFF", the file size less 8, "WAVE", a 16-byte "fmt " chunk (PCM, 1 channel,
/// the rate, the byte rate, block align 2, 16 bits per sample), then "data" and the
/// data size.
pub open spec fn wav_header_spec(n: nat, rate: u32) -> Seq<u8> {
    seq![0x52u8, 0x49, 0x46, 0x46] + le32((36 + 2 * n) as u32) + seq![0x57u8, 0x41, 0x56, 0x45]
        + seq![0x66u8, 0x6d, 0x74, 0x20] + le32(16) + le16(1) + le16(1) + le32(rate) + le32(
        (rate * 2) as u32,
    ) + le16(2) + le16(16) + seq![0x64u8, 0x61, 0x74, 0x61] + le32((2 * n) as u32)
}

fn push_le16(buf: &mut Vec<u8>, x: u16)
    ensures
        final(buf)@ == old(buf)@ + le16(x),
{
    buf.push((x % 256) as u8);
    buf.push((x / 256) as u8);
    assert(buf@ =~= old(buf)@ + le16(x));
}

fn push_le32(buf: &mut Vec<u8>, x: u32)
    ensures
        final(buf)@ == old(buf)@ + le32(x),
{
    buf.push((x % 256) as u8);
    buf.push(((x / 256) % 256) as u8);
    buf.push(((x / 65536) % 256) as u8);
    buf.push((x / 16777216) as u8);
    assert(buf@ =~= old(buf)@ + le32(x));
}

fn push_bytes4(buf: &mut Vec<u8>, a: u8, b: u8, c: u8, d: u8)
    ensures
        final(buf)@ == old(buf)@ + seq![a, b, c, d],
{
    buf.push(a);
    buf.push(b);
    buf.push(c);
    buf.push(d);
    assert(buf@ =~= old(buf)@ + seq![a, b, c, d]);
}

proof fn lemma_pcm_len(samples: Seq<i16>)
    ensures
        pcm_spec(samples).len() == 2 * samples.len(),
    decreases samples.len(),
{
    if samples.len() > 0 {
        lemma_pcm_len(samples.drop_last());
    }
}

/// A WAV file is its 44-byte header followed by two bytes per sample, and the header's
/// size fields agree with that: the data size is twice the sample count and the file
/// size field is 36 more.
pub proof fn lemma_wav_layout(samples: Seq<i16>, rate: u32)
    requires
        36 + 2 * samples.len() <= u32::MAX,
    ensures
        wav_header_spec(samples.len(), rate).len() == 44,
        (wav_header_spec(samples.len(), rate) + pcm_spec(samples)).len() == 44 + 2 * samples.len(),
        wav_header_spec(samples.len(), rate).subrange(40, 44) == le32((2 * samples.len()) as u32),
        wav_header_spec(samples.len(), rate).subrange(4, 8) == le32((36 + 2 * samples.len()) as u32),
{
    lemma_pcm_len(samples);
    let h = wav_header_spec(samples.len(), rate);
    assert(h.subrange(40, 44) =~= le32((2 * samples.len()) as u32));
    assert(h.subrange(4, 8) =~= le32((36 + 2 * samples.len()) as u32));
}

/// A mono 16-bit PCM WAV file holding `samples` at `sample_rate` Hz: the 44-byte
/// header, then each sample little-endian.
pub fn encode_wav(samples: &[i16], sample_rate: u32) -> (r: Vec<u8>)
    requires
        36 + 2 * samples@.len() <= u32::MAX,
        2 * sample_rate <= u32::MAX,
    ensures
        r@ == wav_header_spec(samples@.len(), sample_rate) + pcm_spec(samples@),
{
    let data_size: u32 = (samples.len() * 2) as u32;
    let file_size: u32 = 36 + data_size;
    let mut buf: Vec<u8> = Vec::new();
    push_bytes4(&mut buf, 0x52, 0x49, 0x46, 0x46);
    push_le32(&mut buf, file_size);
    push_bytes4(&mut buf, 0x57, 0x41, 0x56, 0x45);
    push_bytes4(&mut buf, 0x66, 0x6d, 0x74, 0x20);
    push_le32(&mut buf, 16);
    push_le16(&mut buf, 1);
    push_le16(&mut buf, 1);
    push_le32(&mut buf, sample_rate);
    push_le32(&mut buf, sample_rate * 2);
    push_le16(&mut buf, 2);
    push_le16(&mut buf, 16);
    push_bytes4(&mut buf, 0x64, 0x61, 0x74, 0x61);
    push_le32(&mut buf, data_size);
    let ghost header = buf@;
    assert(header =~= wav_header_spec(samples@.len(), sample_rate));
    let mut i: usize = 0;
    while i < samples.len()
        invariant
            i <= samples@.len(),
            buf@ == header + pcm_spec(samples@.take(i as int)),
        decreases samples.len() - i,
    {
        let x = samples[i];
        let bits: u16 = if x >= 0 {
            x as u16
        } else {
            (x as i32 + 65536) as u16
        };
        assert(samples@.take(i + 1).drop_last() =~= samples@.take(i as int));
        push_le16(&mut buf, bits);
        assert(buf@ =~= header + pcm_spec(samples@.take(i + 1)));
        i = i + 1;
    }
    assert(samples@.take(samples@.len() as int) =~= samples@);
    buf
}

/// The views of optional segment texts.
pub open spec fn segments_view(v: Seq<Option<String>>) -> Seq<Option<Seq<char>>> {
    v.map_values(|o: Option<String>| opt_string_view(o))
}

/// What segment `j` of `total` adds: its trimmed text and, but for the last
/// segment, a space; nothing for a segment whose text could not be read.
pub open spec fn segment_piece(seg: Option<Seq<char>>, j: int, total: int) -> Seq<char> {
    match seg {
        Some(t) => trim(t) + (if j < total - 1 {
            " "@
        } else {
            Seq::empty()
        }),
        None => Seq::empty(),
    }
}

/// The pieces of the first `n` segments, in order.
pub open spec fn joined_pieces(segs: Seq<Option<Seq<char>>>, n: nat) -> Seq<char>
    decreases n,
{
    if n == 0 {
        Seq::empty()
    } else {
        joined_pieces(segs, (n - 1) as nat) + segment_piece(segs[n - 1], n - 1, segs.len() as int)
    }
}

/// The transcript of whisper's segments: each readable segment's trimmed text, with a
/// space after every segment but the last, and the whole trimmed.
pub fn join_segments(segments: &Vec<Option<String>>) -> (r: String)
    ensures
        r@ == trim(joined_pieces(segments_view(segments@), segments@.len())),
{
    let ghost segs = segments_view(segments@);
    let mut text: Vec<char> = Vec::new();
    let n = segments.len();
    let mut i: usize = 0;
    while i < n
        invariant
            i <= n == segments.len(),
            segs == segments_view(segments@),
            text@ == joined_pieces(segs, i as nat),
        decreases n - i,
    {
        assert(segs[i as int] == opt_string_view(segments@[i as int]));
        match &segments[i] {
            Some(seg) => {
                let t = trim_chars(&chars_of(seg.as_str()));
                let mut k: usize = 0;
                let ghost before = text@;
                while k < t.len()
                    invariant
                        k <= t.len(),
                        text@ == before + t@.take(k as int),
                    decreases t.len() - k,
                {
                    text.push(t[k]);
                    k = k + 1;
                }
                assert(t@.take(t.len() as int) =~= t@);
                if i < n - 1 {
                    text.push(' ');
                    proof {
                        reveal_strlit(" ");
                    }
                    assert(text@ =~= before + (t@ + " "@));
                } else {
                    assert(text@ =~= before + (t@ + Seq::<char>::empty()));
                }
            },
            None => {
                assert(text@ =~= joined_pieces(segs, (i + 1) as nat));
            },
        }
        i = i + 1;
    }
    let t = trim_chars(&text);
    string_of(t.as_slice())
}

} // verus!
