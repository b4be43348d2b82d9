//! The studio's voice-over: which speech service a request goes to, which
//! voice it asks for, and how word timings are derived from what the
//! services return. The services are called by the application.
use vstd::prelude::*;
use crate::text::{owned, push_str, str_eq, str_trim, trim, words, chars_of, split_words, string_of, byte_len, utf8};
use crate::caption::{WordTimestamp, push_nat};
use crate::codec::{base64_decode, b64_encode};

verus! {

/// The studio's speech settings: where audio is written and the services'
/// keys.
pub struct TtsEngine {
    pub temp_dir: String,
    pub elevenlabs_key: String,
    pub deepgram_key: String,
}

/// The speech service a request names.
#[derive(PartialEq, Eq, Structural, Clone, Copy, Debug)]
pub enum TtsProvider {
    ElevenLabs,
    DeepgramAura,
    Edge,
}

/// Where the word timings of a whole voice-over come from.
#[derive(PartialEq, Eq, Structural, Clone, Copy, Debug)]
pub enum TimingSource {
    /// The service returns them with the audio.
    Native,
    /// The audio is transcribed again to time its words.
    Transcribed,
    /// The words are spread evenly over the audio.
    Estimated,
}

pub open spec fn provider_of(name: Seq<char>) -> TtsProvider {
    if name == "elevenlabs"@ {
        TtsProvider::ElevenLabs
    } else if name == "deepgram-aura"@ {
        TtsProvider::DeepgramAura
    } else {
        TtsProvider::Edge
    }
}

pub fn tts_provider(name: &str) -> (r: TtsProvider)
    ensures
        r == provider_of(name@),
{
    if str_eq(name, "elevenlabs") {
        TtsProvider::ElevenLabs
    } else if str_eq(name, "deepgram-aura") {
        TtsProvider::DeepgramAura
    } else {
        TtsProvider::Edge
    }
}

impl TtsEngine {
    pub fn new(temp_dir: String, elevenlabs_key: String, deepgram_key: String) -> (r: Self)
        ensures
            r.temp_dir@ == temp_dir@,
            r.elevenlabs_key@ == elevenlabs_key@,
            r.deepgram_key@ == deepgram_key@,
    {
        TtsEngine { temp_dir, elevenlabs_key, deepgram_key }
    }

    /// Where the timings of a whole voice-over come from: ElevenLabs returns
    /// them; a Deepgram voice-over is transcribed when a Deepgram key is set;
    /// otherwise they are estimated.
    pub fn timing_source(&self, provider: TtsProvider) -> (r: TimingSource)
        ensures
            r == (match provider {
                TtsProvider::ElevenLabs => TimingSource::Native,
                TtsProvider::DeepgramAura => if self.deepgram_key@.len() > 0 { TimingSource::Transcribed } else { TimingSource::Estimated },
                TtsProvider::Edge => TimingSource::Estimated,
            }),
    {
        match provider {
            TtsProvider::ElevenLabs => TimingSource::Native,
            TtsProvider::DeepgramAura => if !self.deepgram_key.as_str().is_empty() { TimingSource::Transcribed } else { TimingSource::Estimated },
            TtsProvider::Edge => TimingSource::Estimated,
        }
    }

    /// The refusal a keyed service gives before any request when its key is
    /// missing; Edge needs no key.
    pub fn missing_key(&self, provider: TtsProvider) -> (r: Option<String>)
        ensures
            match provider {
                TtsProvider::ElevenLabs => if self.elevenlabs_key@.len() == 0 { r matches Some(m) && m@ == "ElevenLabs API key is missing"@ } else { r is None },
                TtsProvider::DeepgramAura => if self.deepgram_key@.len() == 0 { r matches Some(m) && m@ == "Deepgram API key is missing"@ } else { r is None },
                TtsProvider::Edge => r is None,
            },
    {
        match provider {
            TtsProvider::ElevenLabs => if self.elevenlabs_key.as_str().is_empty() { Some(owned("ElevenLabs API key is missing")) } else { None },
            TtsProvider::DeepgramAura => if self.deepgram_key.as_str().is_empty() { Some(owned("Deepgram API key is missing")) } else { None },
            TtsProvider::Edge => None,
        }
    }
}

/// The file one sentence's audio is written to.
pub open spec fn speech_file_of(idx: nat) -> Seq<char> {
    "studio_speech_"@ + crate::text::decimal(idx) + ".mp3"@
}

pub fn speech_file_name(idx: u64) -> (r: String)
    ensures
        r@ == speech_file_of(idx as nat),
{
    let mut out = owned("studio_speech_");
    push_nat(&mut out, idx);
    push_str(&mut out, ".mp3");
    out
}

/// The Edge voice: the one asked for, else `en-US-ChristopherNeural`.
pub fn edge_voice(voice: &str) -> (r: String)
    ensures
        r@ == (if voice@.len() == 0 { "en-US-ChristopherNeural"@ } else { voice@ }),
{
    if voice.is_empty() { owned("en-US-ChristopherNeural") } else { owned(voice) }
}

/// The ElevenLabs voice id: the one asked for when it has at least ten
/// bytes, else the default voice.
pub open spec fn elevenlabs_voice_of(voice: Seq<char>) -> Seq<char> {
    if voice.len() == 0 || utf8(voice).len() < 10 { "21m00Tcm4TlvDq8ikWAM"@ } else { voice }
}

pub fn elevenlabs_voice(voice: &str) -> (r: String)
    ensures
        r@ == elevenlabs_voice_of(voice@),
{
    if voice.is_empty() || byte_len(voice) < 10 { owned("21m00Tcm4TlvDq8ikWAM") } else { owned(voice) }
}

/// The ElevenLabs endpoint for a voice; the timed variant returns the audio
/// with its character timings.
pub open spec fn elevenlabs_endpoint(voice_id: Seq<char>, timed: bool) -> Seq<char> {
    "https://api.elevenlabs.io/v1/text-to-speech/"@ + voice_id + (if timed { "/with-timestamps"@ } else { ""@ })
}

pub fn elevenlabs_url(voice_id: &str, timed: bool) -> (r: String)
    ensures
        r@ == elevenlabs_endpoint(voice_id@, timed),
{
    proof {
        reveal_strlit("");
    }
    let mut out = owned("https://api.elevenlabs.io/v1/text-to-speech/");
    push_str(&mut out, voice_id);
    if timed {
        push_str(&mut out, "/with-timestamps");
    } else {
        assert(out@ + ""@ =~= out@);
    }
    out
}

/// The Deepgram Aura voices this client asks for by name.
pub open spec fn aura_voices() -> Seq<Seq<char>> {
    seq![
        "aura-2-asteria-en"@, "aura-2-athena-en"@, "aura-2-luna-en"@, "aura-2-stella-en"@,
        "aura-2-hera-en"@, "aura-2-orion-en"@, "aura-2-arcas-en"@, "aura-2-perseus-en"@,
        "aura-2-angus-en"@, "aura-2-orpheus-en"@,
        "aura-asteria-en"@, "aura-athena-en"@, "aura-luna-en"@, "aura-stella-en"@,
        "aura-hera-en"@, "aura-orion-en"@, "aura-arcas-en"@, "aura-perseus-en"@,
        "aura-angus-en"@, "aura-orpheus-en"@,
    ]
}

/// The Aura model: the voice asked for when it is one of the known voices,
/// else `aura-asteria-en`.
pub fn aura_model(voice: &str) -> (r: String)
    ensures
        r@ == (if aura_voices().contains(voice@) { voice@ } else { "aura-asteria-en"@ }),
{
    let known: Vec<&str> = vec![
        "aura-2-asteria-en", "aura-2-athena-en", "aura-2-luna-en", "aura-2-stella-en",
        "aura-2-hera-en", "aura-2-orion-en", "aura-2-arcas-en", "aura-2-perseus-en",
        "aura-2-angus-en", "aura-2-orpheus-en",
        "aura-asteria-en", "aura-athena-en", "aura-luna-en", "aura-stella-en",
        "aura-hera-en", "aura-orion-en", "aura-arcas-en", "aura-perseus-en",
        "aura-angus-en", "aura-orpheus-en",
    ];
    let ghost kv = known@.map_values(|s: &str| s@);
    assert(kv =~= aura_voices());
    let mut i: usize = 0;
    while i < known.len()
        invariant
            i <= known.len(),
            kv == known@.map_values(|s: &str| s@),
            kv == aura_voices(),
            forall|j: int| 0 <= j < i ==> kv[j] != voice@,
        decreases known.len() - i,
    {
        if str_eq(known[i], voice) {
            assert(kv[i as int] == voice@);
            return owned(voice);
        }
        i += 1;
    }
    proof {
        if aura_voices().contains(voice@) {
            let j = choose|j: int| 0 <= j < aura_voices().len() && aura_voices()[j] == voice@;
            assert(kv[j] != voice@);
        }
    }
    owned("aura-asteria-en")
}

/// The `Content-Type` of an audio file by its extension.
pub open spec fn audio_type_of(ext: Seq<char>) -> Seq<char> {
    if ext == "wav"@ {
        "audio/wav"@
    } else if ext == "m4a"@ {
        "audio/mp4"@
    } else if ext == "ogg"@ {
        "audio/ogg"@
    } else {
        "audio/mpeg"@
    }
}

pub fn audio_content_type(ext: &str) -> (r: String)
    ensures
        r@ == audio_type_of(ext@),
{
    if str_eq(ext, "wav") {
        owned("audio/wav")
    } else if str_eq(ext, "m4a") {
        owned("audio/mp4")
    } else if str_eq(ext, "ogg") {
        owned("audio/ogg")
    } else {
        owned("audio/mpeg")
    }
}

// ---------------------------------------------------------------------------
// Word timings
// ---------------------------------------------------------------------------

pub open spec fn stamps_view(v: Seq<WordTimestamp>) -> Seq<(Seq<char>, u64, u64)> {
    v.map_values(|w: WordTimestamp| (w.word@, w.start_ms, w.end_ms))
}

/// Evenly spread timings: the text's words share `duration_ms` equally, word
/// `i` of `n` running from `i·d/n` to `(i+1)·d/n` (rounded down).
pub open spec fn spread_stamps(ws: Seq<Seq<char>>, duration_ms: nat) -> Seq<(Seq<char>, u64, u64)> {
    let n = if ws.len() == 0 { 1 } else { ws.len() };
    Seq::new(ws.len(), |i: int| (ws[i], (i * duration_ms / n as int) as u64, ((i + 1) * duration_ms / n as int) as u64))
}

/// The voice-over's length when it could not be measured: five seconds.
pub open spec fn fallback_duration_ms() -> nat {
    5000
}

/// Spreads the text's words over the audio's length (`None` when it could
/// not be measured, which counts as five seconds).
pub fn estimate_word_timestamps(text: &str, duration_ms: Option<u32>) -> (r: Vec<WordTimestamp>)
    ensures
        stamps_view(r@) == spread_stamps(words(text@), match duration_ms { Some(d) => d as nat, None => fallback_duration_ms() }),
{
    let d: u64 = match duration_ms { Some(d) => d as u64, None => 5000 };
    let cs = chars_of(text);
    let ws = split_words(&cs);
    let ghost wv = words(text@);
    assert(ws@.map_values(|w: Vec<char>| w@) == wv);
    let n: u64 = if ws.len() == 0 { 1 } else { ws.len() as u64 };
    let ghost want = spread_stamps(wv, d as nat);
    let mut out: Vec<WordTimestamp> = Vec::new();
    let mut i: usize = 0;
    while i < ws.len()
        invariant
            i <= ws.len(),
            n as int == (if ws.len() == 0 { 1 } else { ws.len() as int }),
            ws@.map_values(|w: Vec<char>| w@) == wv,
            d <= u32::MAX,
            want == spread_stamps(wv, d as nat),
            out.len() == i,
            forall|k: int| 0 <= k < i ==> #[trigger] stamps_view(out@)[k] == want[k],
        decreases ws.len() - i,
    {
        assert((i as int) * (d as int) / (n as int) <= d as int) by (nonlinear_arith)
            requires
                0 <= i < n,
                d >= 0,
        ;
        assert(((i + 1) as int) * (d as int) / (n as int) <= d as int) by (nonlinear_arith)
            requires
                0 <= i < n,
                d >= 0,
        ;
        assert((i as int) * (d as int) <= 0x1_0000_0000 * 0x1_0000_0000_0000_0000) by (nonlinear_arith)
            requires
                0 <= i < 0x1_0000_0000_0000_0000,
                0 <= d <= u32::MAX,
        ;
        assert(((i + 1) as int) * (d as int) <= 0x1_0000_0000 * 0x1_0000_0000_0000_0001) by (nonlinear_arith)
            requires
                0 <= i < 0x1_0000_0000_0000_0000,
                0 <= d <= u32::MAX,
        ;
        let a = ((i as u128) * (d as u128) / (n as u128)) as u64;
        let b = (((i as u128) + 1) * (d as u128) / (n as u128)) as u64;
        assert(ws@.map_values(|w: Vec<char>| w@)[i as int] == ws@[i as int]@);
        let w = WordTimestamp { word: string_of(&ws[i]), start_ms: a, end_ms: b };
        let ghost prev = out@;
        out.push(w);
        proof {
            assert(out@ == prev.push(w));
            assert forall|k: int| 0 <= k < i + 1 implies #[trigger] stamps_view(out@)[k] == want[k] by {
                if k < i {
                    assert(out@[k] == prev[k]);
                    assert(stamps_view(prev)[k] == want[k]);
                }
            }
        }
        i += 1;
    }
    assert(stamps_view(out@) =~= want);
    out
}

/// The words read out of a service's character timings, after the first `n`
/// characters: the words finished so far, the word being read, and its start.
pub open spec fn align_state(chars: Seq<Seq<char>>, starts: Seq<u64>, ends: Seq<u64>, n: int)
    -> (Seq<(Seq<char>, u64, u64)>, Seq<char>, Option<u64>)
    decreases n,
{
    if n <= 0 {
        (seq![], seq![], None)
    } else {
        let (ws, cur, cur_start) = align_state(chars, starts, ends, n - 1);
        let i = n - 1;
        let ch = chars[i];
        let s: u64 = if i < starts.len() { starts[i] } else { 0 };
        let e: u64 = if i < ends.len() { ends[i] } else { 0 };
        if trim(ch).len() == 0 {
            if cur.len() > 0 {
                (match cur_start { Some(cs) => ws.push((cur, cs, e)), None => ws }, seq![], None)
            } else {
                (ws, cur, cur_start)
            }
        } else {
            (ws, cur + ch, match cur_start { Some(cs) => Some(cs), None => Some(s) })
        }
    }
}

/// Word timings from character timings: a word is a run of characters that
/// are not blank; it starts when its first character starts and ends when
/// the blank after it ends. A last unfinished word ends with the last
/// character (one second after its start when no end times were given).
pub open spec fn aligned_words(chars: Seq<Seq<char>>, starts: Seq<u64>, ends: Seq<u64>) -> Seq<(Seq<char>, u64, u64)> {
    let (ws, cur, cur_start) = align_state(chars, starts, ends, chars.len() as int);
    if cur.len() > 0 {
        match cur_start {
            Some(cs) => {
                let last_end: u64 = if ends.len() > 0 { ends.last() } else if cs as int + 1000 <= u64::MAX { (cs + 1000) as u64 } else { u64::MAX };
                ws.push((cur, cs, last_end))
            },
            None => ws,
        }
    } else {
        ws
    }
}

pub fn words_from_alignment(chars: &Vec<String>, starts_ms: &Vec<u64>, ends_ms: &Vec<u64>) -> (r: Vec<WordTimestamp>)
    ensures
        stamps_view(r@) == aligned_words(chars@.map_values(|c: String| c@), starts_ms@, ends_ms@),
{
    let ghost cv = chars@.map_values(|c: String| c@);
    let mut out: Vec<WordTimestamp> = Vec::new();
    let mut cur = String::new();
    let mut cur_start: Option<u64> = None;
    let mut i: usize = 0;
    while i < chars.len()
        invariant
            i <= chars.len(),
            cv == chars@.map_values(|c: String| c@),
            align_state(cv, starts_ms@, ends_ms@, i as int) == (stamps_view(out@), cur@, cur_start),
        decreases chars.len() - i,
    {
        assert(cv[i as int] == chars@[i as int]@);
        let s: u64 = if i < starts_ms.len() { starts_ms[i] } else { 0 };
        let e: u64 = if i < ends_ms.len() { ends_ms[i] } else { 0 };
        let t = str_trim(chars[i].as_str());
        if t.as_str().is_empty() {
            if !cur.as_str().is_empty() {
                match cur_start {
                    Some(cs) => {
                        let ghost prev = out@;
                        let w = WordTimestamp { word: cur.clone(), start_ms: cs, end_ms: e };
                        out.push(w);
                        assert(stamps_view(out@) =~= stamps_view(prev).push((cur@, cs, e)));
                    },
                    None => {},
                }
                cur = String::new();
                cur_start = None;
            }
        } else {
            if cur_start.is_none() {
                cur_start = Some(s);
            }
            push_str(&mut cur, chars[i].as_str());
        }
        i += 1;
    }
    if !cur.as_str().is_empty() {
        match cur_start {
            Some(cs) => {
                let last_end: u64 = if ends_ms.len() > 0 {
                    ends_ms[ends_ms.len() - 1]
                } else if cs <= u64::MAX - 1000 {
                    cs + 1000
                } else {
                    u64::MAX
                };
                let ghost prev = out@;
                let w = WordTimestamp { word: cur.clone(), start_ms: cs, end_ms: last_end };
                out.push(w);
                assert(stamps_view(out@) =~= stamps_view(prev).push((cur@, cs, last_end)));
            },
            None => {},
        }
    }
    out
}

/// The audio bytes of a Base64 text (the timed ElevenLabs answer carries its
/// audio so), or the decoder's message when the text is not valid Base64.
pub fn decode_audio(audio_base64: &str) -> (r: Result<Vec<u8>, String>)
    ensures
        match r {
            Ok(b) => b64_encode(b@) == audio_base64@,
            Err(_) => forall|b: Seq<u8>| b64_encode(b) != audio_base64@,
        },
{
    base64_decode(audio_base64)
}

/// Spread timings tile the audio: the first word starts at 0, each word ends
/// where the next begins, no word ends before it starts, and the last ends
/// with the audio.
pub proof fn lemma_spread_tiles(ws: Seq<Seq<char>>, d: nat)
    requires
        d <= u32::MAX,
    ensures
        ({
            let st = spread_stamps(ws, d);
            &&& st.len() == ws.len()
            &&& ws.len() > 0 ==> st[0].1 == 0 && st[ws.len() - 1].2 == d
            &&& forall|i: int| 0 <= i < st.len() ==> (#[trigger] st[i]).1 <= st[i].2 <= d
            &&& forall|i: int| 0 < i < st.len() ==> (#[trigger] st[i]).1 == st[i - 1].2
        }),
{
    let st = spread_stamps(ws, d);
    let n: int = if ws.len() == 0 { 1 } else { ws.len() as int };
    assert forall|i: int| 0 <= i < st.len() implies (#[trigger] st[i]).1 <= st[i].2 <= d by {
        assert(i * (d as int) / n <= (i + 1) * (d as int) / n) by (nonlinear_arith)
            requires
                0 <= i,
                n > 0,
                d >= 0,
        {
            assert(i * (d as int) <= (i + 1) * (d as int));
            vstd::arithmetic::div_mod::lemma_div_is_ordered(i * (d as int), (i + 1) * (d as int), n);
        }
        assert((i + 1) * (d as int) / n <= d as int) by (nonlinear_arith)
            requires
                0 <= i < n,
                d >= 0,
        ;
        assert(0 <= i * (d as int) / n) by (nonlinear_arith)
            requires
                0 <= i,
                n > 0,
                d >= 0,
        ;
    }
    if ws.len() > 0 {
        assert(0 * (d as int) / n == 0);
        assert((ws.len() as int) * (d as int) / n == d as int) by (nonlinear_arith)
            requires
                n == ws.len(),
                n > 0,
        ;
    }
}

/// The texts of some words, run together.
pub open spec fn texts_joined(ws: Seq<(Seq<char>, u64, u64)>) -> Seq<char>
    decreases ws.len(),
{
    if ws.len() == 0 { seq![] } else { texts_joined(ws.drop_last()) + ws.last().0 }
}

/// The first `n` character pieces that are not blank, run together.
pub open spec fn nonblank_joined(chars: Seq<Seq<char>>, n: int) -> Seq<char>
    decreases n,
{
    if n <= 0 {
        seq![]
    } else {
        nonblank_joined(chars, n - 1) + (if trim(chars[n - 1]).len() == 0 { seq![] } else { chars[n - 1] })
    }
}

proof fn lemma_align_state_text(chars: Seq<Seq<char>>, starts: Seq<u64>, ends: Seq<u64>, n: int)
    requires
        n <= chars.len(),
    ensures
        ({
            let (ws, cur, cs) = align_state(chars, starts, ends, n);
            &&& texts_joined(ws) + cur == nonblank_joined(chars, n)
            &&& cur.len() > 0 ==> cs is Some
        }),
    decreases n,
{
    if n <= 0 {
        assert(texts_joined(Seq::<(Seq<char>, u64, u64)>::empty()) + Seq::<char>::empty() =~= Seq::<char>::empty());
    } else {
        lemma_align_state_text(chars, starts, ends, n - 1);
        let prev = align_state(chars, starts, ends, n - 1);
        let now = align_state(chars, starts, ends, n);
        let e: u64 = if n - 1 < ends.len() { ends[n - 1] } else { 0 };
        let ch = chars[n - 1];
        if trim(ch).len() == 0 {
            if prev.1.len() > 0 {
                let cs = prev.2.unwrap();
                assert(now.0 == prev.0.push((prev.1, cs, e)));
                assert(now.0.drop_last() =~= prev.0);
                assert(texts_joined(now.0) + now.1 =~= texts_joined(prev.0) + prev.1);
            }
            assert(nonblank_joined(chars, n) =~= nonblank_joined(chars, n - 1));
        } else {
            assert(texts_joined(now.0) + now.1 =~= (texts_joined(prev.0) + prev.1) + ch);
        }
    }
}

/// Words are the runs of characters that are not blank: their texts, run
/// together, are exactly the non-blank character pieces in order, nothing
/// lost and nothing repeated.
pub proof fn lemma_aligned_words_cover(chars: Seq<Seq<char>>, starts: Seq<u64>, ends: Seq<u64>)
    ensures
        texts_joined(aligned_words(chars, starts, ends)) == nonblank_joined(chars, chars.len() as int),
{
    lemma_align_state_text(chars, starts, ends, chars.len() as int);
    let (ws, cur, cs) = align_state(chars, starts, ends, chars.len() as int);
    if cur.len() > 0 {
        let r = aligned_words(chars, starts, ends);
        assert(r.drop_last() =~= ws);
        assert(texts_joined(r) =~= texts_joined(ws) + cur);
    } else {
        assert(texts_joined(ws) + cur =~= texts_joined(ws));
    }
}

/// Every word read from character timings has at least one character.
pub proof fn lemma_aligned_words_nonempty(chars: Seq<Seq<char>>, starts: Seq<u64>, ends: Seq<u64>)
    ensures
        forall|i: int| 0 <= i < aligned_words(chars, starts, ends).len() ==> (#[trigger] aligned_words(chars, starts, ends)[i]).0.len() > 0,
{
    lemma_align_state_words(chars, starts, ends, chars.len() as int);
}

proof fn lemma_align_state_words(chars: Seq<Seq<char>>, starts: Seq<u64>, ends: Seq<u64>, n: int)
    requires
        n <= chars.len(),
    ensures
        ({
            let (ws, cur, cs) = align_state(chars, starts, ends, n);
            forall|i: int| 0 <= i < ws.len() ==> (#[trigger] ws[i]).0.len() > 0
        }),
    decreases n,
{
    if n > 0 {
        lemma_align_state_words(chars, starts, ends, n - 1);
        let prev = align_state(chars, starts, ends, n - 1);
        let now = align_state(chars, starts, ends, n);
        let e: u64 = if n - 1 < ends.len() { ends[n - 1] } else { 0 };
        if trim(chars[n - 1]).len() == 0 && prev.1.len() > 0 {
            match prev.2 {
                Some(cs) => {
                    assert(now.0 == prev.0.push((prev.1, cs, e)));
                    assert forall|i: int| 0 <= i < now.0.len() implies (#[trigger] now.0[i]).0.len() > 0 by {
                        if i < prev.0.len() {
                            assert(now.0[i] == prev.0[i]);
                        }
                    }
                },
                None => {
                    assert(now.0 == prev.0);
                },
            }
        } else {
            assert(now.0 == prev.0);
        }
    }
}

pub open spec fn caption_words_view(v: Seq<crate::caption::DeepgramWord>) -> Seq<(Seq<char>, u64, u64)> {
    v.map_values(|w: crate::caption::DeepgramWord| (w.word@, w.start_ms, w.end_ms))
}

/// Caption words for a sentence spoken over `total_ms`: its words spread
/// evenly (as [`spread_stamps`]), each shown as written, with no speaker.
pub fn build_simple_words(sentence: &str, total_ms: u32) -> (r: Vec<crate::caption::DeepgramWord>)
    ensures
        caption_words_view(r@) == spread_stamps(words(sentence@), total_ms as nat),
        forall|i: int| 0 <= i < r.len() ==> ((#[trigger] r[i]).punctuated_word matches Some(p) && p@ == r[i].word@ && r[i].speaker is None),
{
    let stamps = estimate_word_timestamps(sentence, Some(total_ms));
    let ghost sv = stamps_view(stamps@);
    let mut out: Vec<crate::caption::DeepgramWord> = Vec::new();
    let mut i: usize = 0;
    while i < stamps.len()
        invariant
            i <= stamps.len(),
            sv == stamps_view(stamps@),
            out.len() == i,
            forall|k: int| 0 <= k < i ==> (#[trigger] caption_words_view(out@)[k]) == sv[k],
            forall|k: int| 0 <= k < i ==> ((#[trigger] out@[k]).punctuated_word matches Some(p) && p@ == out@[k].word@ && out@[k].speaker is None),
        decreases stamps.len() - i,
    {
        let w = &stamps[i];
        let ghost prev = out@;
        out.push(crate::caption::DeepgramWord {
            word: w.word.clone(),
            start_ms: w.start_ms,
            end_ms: w.end_ms,
            punctuated_word: Some(w.word.clone()),
            speaker: None,
        });
        proof {
            assert forall|k: int| 0 <= k < i + 1 implies (#[trigger] caption_words_view(out@)[k]) == sv[k] by {
                if k < i {
                    assert(out@[k] == prev[k]);
                    assert(caption_words_view(prev)[k] == sv[k]);
                }
            }
            assert forall|k: int| 0 <= k < i + 1 implies ((#[trigger] out@[k]).punctuated_word matches Some(p) && p@ == out@[k].word@ && out@[k].speaker is None) by {
                if k < i {
                    assert(out@[k] == prev[k]);
                }
            }
        }
        i += 1;
    }
    assert(caption_words_view(out@) =~= sv);
    out
}

} // verus!
