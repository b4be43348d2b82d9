use novaclip::config::{split_origins, Config};
use novaclip::llm::{decompose_prompt, gemini_url, scene_target, topic_prompt, LlmService, StudioLlmProcessor};
use novaclip::reframe::{find_venv_python, join_path, reframe_arg_tail, ReframeOptions};
use novaclip::repurpose::{default_ratio, join_ids, sanitize_text, variant_filter, variant_progress};
use novaclip::scraper::{keyword_folder, media_file_name, media_pointer, MediaProvider, StudioScraper};
use novaclip::voice::{
    aura_model, audio_content_type, decode_audio, edge_voice, elevenlabs_url, elevenlabs_voice,
    estimate_word_timestamps, speech_file_name, tts_provider, words_from_alignment, TimingSource,
    TtsEngine, TtsProvider,
};
use novaclip::wavespeed::{
    ai_clip_file, clip_concurrency, fallback_track, music_prompt, poll_step, result_url, submit_url,
    video_duration, PollStep, WavespeedClient, WavespeedTask,
};

fn s(x: &str) -> String {
    x.to_string()
}

#[test]
fn config_defaults_when_environment_is_empty() {
    let c = Config::from_vars(&vec![]);
    assert_eq!(c.database_url, "sqlite://novaclip.db");
    assert_eq!(c.cors_origins, vec![s("http://localhost:5173"), s("http://localhost:3000")]);
    assert_eq!(c.output_dir, "outputs");
    assert_eq!(c.temp_dir, "temp");
    assert_eq!(c.max_video_upload_bytes, 1_000_000_000);
    assert_eq!(c.gemini_model, "gemini-3.1-flash-lite");
    assert_eq!(c.pexels_api_key, None);
    assert_eq!(c.max_concurrent_jobs, 4);
    assert_eq!(c.job_timeout_seconds, 10800);
}

#[test]
fn config_reads_variables() {
    let vars = vec![
        (s("CORS_ORIGINS"), s(" https://a.example , https://b.example")),
        (s("MAX_CONCURRENT_JOBS"), s("+7")),
        (s("JOB_TIMEOUT_SECONDS"), s("soon")),
        (s("PEXELS_API_KEY"), s("")),
        (s("PIXABAY_API_KEY"), s("pk")),
        (s("MAX_VIDEO_UPLOAD_BYTES"), s("99999999999999999999999")),
    ];
    let c = Config::from_vars(&vars);
    assert_eq!(c.cors_origins, vec![s("https://a.example"), s("https://b.example")]);
    assert_eq!(c.max_concurrent_jobs, 7);
    assert_eq!(c.job_timeout_seconds, 10800);
    assert_eq!(c.pexels_api_key, None);
    assert_eq!(c.pixabay_api_key, Some(s("pk")));
    assert_eq!(c.max_video_upload_bytes, 1_000_000_000);
}

#[test]
fn origins_keep_empty_pieces() {
    assert_eq!(split_origins("a,,b"), vec![s("a"), s(""), s("b")]);
}

#[test]
fn reframe_defaults_and_arguments() {
    let d = ReframeOptions::default();
    assert_eq!(d.layout, "single");
    assert_eq!(reframe_arg_tail(&d), vec![s("--layout"), s("single")]);
    let o = ReframeOptions { layout: s("split"), speaker_aware: true, split_divider: true, speaker_json: Some(s("/tmp/sp.json")) };
    assert_eq!(
        reframe_arg_tail(&o),
        vec![s("--layout"), s("split"), s("--split-divider"), s("--speaker-aware-mode"), s("--speaker-json"), s("/tmp/sp.json")]
    );
    let o2 = ReframeOptions { layout: s("auto"), speaker_aware: false, split_divider: false, speaker_json: Some(s("x")) };
    assert_eq!(reframe_arg_tail(&o2), vec![s("--layout"), s("auto")]);
}

#[test]
fn venv_python_paths() {
    assert_eq!(find_venv_python("/srv/novaclip_reframe", false), "/srv/novaclip_reframe/venv/bin/python");
    assert_eq!(find_venv_python("C:\\app\\novaclip_reframe", true), "C:\\app\\novaclip_reframe\\venv\\Scripts\\python.exe");
    assert_eq!(join_path("dir/", "x", false), "dir/x");
    assert_eq!(join_path("", "x", false), "x");
}

#[test]
fn wavespeed_urls_and_durations() {
    let c = WavespeedClient::new(s("k1"));
    assert_eq!(c.authorization(), "Bearer k1");
    assert_eq!(submit_url("google/lyria-3-clip/music"), "https://api.wavespeed.ai/api/v3/google/lyria-3-clip/music");
    assert_eq!(video_duration(1), 3);
    assert_eq!(video_duration(7), 7);
    assert_eq!(video_duration(30), 10);
    let t = WavespeedTask { id: Some(s("abc")), get_url: None, status: None, outputs: vec![], error: None };
    assert_eq!(result_url(&t), Some(s("https://api.wavespeed.ai/api/v3/abc/result")));
    let t2 = WavespeedTask { id: Some(s("abc")), get_url: Some(s("https://x/get")), status: None, outputs: vec![], error: None };
    assert_eq!(result_url(&t2), Some(s("https://x/get")));
    let t3 = WavespeedTask { id: None, get_url: None, status: None, outputs: vec![], error: None };
    assert_eq!(result_url(&t3), None);
}

#[test]
fn wavespeed_poll_steps() {
    let mk = |st: Option<&str>, outs: Vec<String>, err: Option<&str>| WavespeedTask {
        id: None,
        get_url: None,
        status: st.map(s),
        outputs: outs,
        error: err.map(s),
    };
    assert!(matches!(poll_step(&mk(Some("completed"), vec![s("u")], None)), PollStep::Done(v) if v == vec![s("u")]));
    assert!(matches!(poll_step(&mk(Some("completed"), vec![], None)), PollStep::NoOutputs));
    assert!(matches!(poll_step(&mk(Some("failed"), vec![], None)), PollStep::Failed(e) if e == "unknown error"));
    assert!(matches!(poll_step(&mk(Some("timeout"), vec![], Some("slow"))), PollStep::Failed(e) if e == "slow"));
    assert!(matches!(poll_step(&mk(Some("weird"), vec![], None)), PollStep::Unexpected(e) if e == "weird"));
    assert!(matches!(poll_step(&mk(Some("processing"), vec![], None)), PollStep::Wait));
    assert!(matches!(poll_step(&mk(None, vec![], None)), PollStep::Wait));
}

#[test]
fn wavespeed_names() {
    assert_eq!(ai_clip_file(0), "ai_clip_001.mp4");
    assert_eq!(ai_clip_file(41), "ai_clip_042.mp4");
    assert_eq!(fallback_track(7), "https://www.soundhelix.com/examples/mp3/SoundHelix-Song-3.mp3");
    assert_eq!(music_prompt("cats"), "instrumental cinematic background music inspired by cats");
    assert_eq!(clip_concurrency(None), 3);
    assert_eq!(clip_concurrency(Some("5")), 5);
    assert_eq!(clip_concurrency(Some("-1")), 3);
}

#[test]
fn scraper_order_and_requests() {
    let both = StudioScraper::new(s("dl"), s("pex"), s("pix"));
    assert_eq!(both.fetch_order("pinterest"), vec![MediaProvider::Pinterest]);
    assert_eq!(both.fetch_order("stock_api"), vec![MediaProvider::Pexels, MediaProvider::Pixabay]);
    assert_eq!(both.fetch_order("all"), vec![MediaProvider::Pexels, MediaProvider::Pixabay, MediaProvider::Pinterest]);
    let none = StudioScraper::new(s("dl"), s(""), s(""));
    assert_eq!(none.fetch_order("stock_api"), vec![]);
    assert_eq!(none.fetch_order("all"), vec![MediaProvider::Pinterest]);
    assert_eq!(
        both.search_url(MediaProvider::Pexels, "sea", true),
        Some(s("https://api.pexels.com/videos/search?query=sea&per_page=1"))
    );
    assert_eq!(
        both.search_url(MediaProvider::Pixabay, "sea", false),
        Some(s("https://pixabay.com/api/?key=pix&q=sea&per_page=3"))
    );
    assert_eq!(both.search_url(MediaProvider::Pinterest, "sea", false), None);
    assert_eq!(media_pointer(MediaProvider::Pixabay, true), "/hits/0/videos/medium/url");
    assert_eq!(keyword_folder("deep sea fish"), "deep_sea_fish");
    assert_eq!(media_file_name(true), "clip.mp4");
}

#[test]
fn llm_routing_and_prompts() {
    let g = StudioLlmProcessor::new(s("gk"), s(""), s(""));
    assert_eq!(g.service(), LlmService::Gemini);
    assert_eq!(g.gemini_model(), "gemini-3.1-flash-lite");
    let o = StudioLlmProcessor::new(s("gk"), s("meta/llama"), s(""));
    assert_eq!(o.service(), LlmService::OpenRouter);
    let o2 = StudioLlmProcessor::new(s("gk"), s(""), s("ork"));
    assert_eq!(o2.service(), LlmService::OpenRouter);
    assert_eq!(o2.openrouter_model(), "openrouter/free");
    assert_eq!(scene_target(60), 10);
    assert_eq!(scene_target(61), 11);
    assert_eq!(scene_target(-7), -1);
    assert!(decompose_prompt(30).contains("Target: ~5 scenes for a 30-second video."));
    assert!(decompose_prompt(30).contains("Aim for 5 items total"));
    assert_eq!(
        topic_prompt("owls", "calm", 30),
        "Write an engaging 30-second faceless short video script on the topic: 'owls'. Vibe: calm. Target ~84 words total. Break into 5-3 short punchy sentences, each a separate scene. Hook in first 3 seconds. Plain text script only."
    );
    assert!(topic_prompt("x", "y", 5).contains("Target ~14 words total. Break into 5-2 short"));
    assert_eq!(
        gemini_url("m1", "K"),
        "https://generativelanguage.googleapis.com/v1beta/models/m1:generateContent?key=K"
    );
}

#[test]
fn voice_choices() {
    assert_eq!(tts_provider("elevenlabs"), TtsProvider::ElevenLabs);
    assert_eq!(tts_provider("deepgram-aura"), TtsProvider::DeepgramAura);
    assert_eq!(tts_provider("edge"), TtsProvider::Edge);
    assert_eq!(edge_voice(""), "en-US-ChristopherNeural");
    assert_eq!(elevenlabs_voice("short"), "21m00Tcm4TlvDq8ikWAM");
    assert_eq!(elevenlabs_voice("abcdefghijk"), "abcdefghijk");
    assert_eq!(aura_model("aura-2-luna-en"), "aura-2-luna-en");
    assert_eq!(aura_model("robot"), "aura-asteria-en");
    assert_eq!(audio_content_type("m4a"), "audio/mp4");
    assert_eq!(audio_content_type("flac"), "audio/mpeg");
    assert_eq!(speech_file_name(4), "studio_speech_4.mp3");
    assert_eq!(elevenlabs_url("v", true), "https://api.elevenlabs.io/v1/text-to-speech/v/with-timestamps");
    let e = TtsEngine::new(s("tmp"), s(""), s("dg"));
    assert_eq!(e.timing_source(TtsProvider::DeepgramAura), TimingSource::Transcribed);
    assert_eq!(e.missing_key(TtsProvider::ElevenLabs), Some(s("ElevenLabs API key is missing")));
    assert_eq!(e.missing_key(TtsProvider::DeepgramAura), None);
}

#[test]
fn spread_word_timings() {
    let w = estimate_word_timestamps("one two  three", Some(3000));
    let got: Vec<(String, u64, u64)> = w.iter().map(|x| (x.word.clone(), x.start_ms, x.end_ms)).collect();
    assert_eq!(got, vec![(s("one"), 0, 1000), (s("two"), 1000, 2000), (s("three"), 2000, 3000)]);
    let d = estimate_word_timestamps("a b", None);
    assert_eq!((d[1].start_ms, d[1].end_ms), (2500, 5000));
    assert!(estimate_word_timestamps("   ", Some(10)).is_empty());
}

#[test]
fn words_from_character_timings() {
    let chars: Vec<String> = "hi yo".chars().map(|c| c.to_string()).collect();
    let starts = vec![0, 100, 200, 300, 400];
    let ends = vec![100, 200, 300, 400, 500];
    let w = words_from_alignment(&chars, &starts, &ends);
    let got: Vec<(String, u64, u64)> = w.iter().map(|x| (x.word.clone(), x.start_ms, x.end_ms)).collect();
    assert_eq!(got, vec![(s("hi"), 0, 300), (s("yo"), 300, 500)]);
    let w2 = words_from_alignment(&vec![s("a")], &vec![250], &vec![]);
    assert_eq!((w2[0].start_ms, w2[0].end_ms), (250, 1250));
}

#[test]
fn audio_base64_decoding() {
    assert_eq!(decode_audio("aGk=").unwrap(), b"hi".to_vec());
    assert!(decode_audio("not base64!").is_err());
}

#[test]
fn repurpose_text_handling() {
    assert_eq!(default_ratio(), "9:16");
    assert_eq!(sanitize_text("  Hello \u{2014} world \u{1F600} \"ok\"  "), "Hello  world  \"ok\"");
    assert_eq!(sanitize_text("a\u{a0}b\u{3000}"), "ab");
    assert_eq!(join_ids(&vec![s("tiktok"), s("x")]), "tiktok, x");
    assert_eq!(variant_filter(1080, 1920).matches("1080:1920").count(), 3);
    assert_eq!(variant_progress(1, 3), 60);
    assert_eq!(variant_progress(0, 0), 50);
}
