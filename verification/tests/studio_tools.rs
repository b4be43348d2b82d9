use novaclip::analysis::{analysis_model, analysis_prompt, needs_translation, originality_filter, originality_setting, translate_prompt, virality_from_fields, Originality};
use novaclip::edits::{action_parameter, action_status, ai_edit_prompt, edit_action, export_file_name, export_preset, export_scale, health_status, inline_disposition, EditAction};
use novaclip::mcp::{clamp_count, mcp_tool, needs_job, tool_catalog, McpTool, has_topic_or_transcript, mcp_gemini_key, mcp_image_model, mcp_no_image_message, mcp_text_model, mcp_thumbnail_prompt, mcp_titles_prompt};
use novaclip::social::{pick_profile, upload_fields, uploadpost_authorization, ProfileSummary};
use novaclip::youtube::{context_block, count_field, description_prompt, file_status_url, has_material, image_model, keep_titles, no_image_message, number_titles, refine_prompt, text_model, thumbnail_prompt, thumbnail_style, thumbnail_title, titles_prompt, tone_description, upload_check, UploadState};

fn s(x: &str) -> String {
    x.to_string()
}

#[test]
fn youtube_models_and_counts() {
    assert_eq!(image_model(Some("img-x"), Some("llm"), None), "img-x");
    assert_eq!(image_model(Some("  "), Some("llm"), None), "llm");
    assert_eq!(image_model(None, None, Some("cfg")), "cfg");
    assert_eq!(image_model(None, None, None), "gemini-3.1-flash-image-preview");
    assert_eq!(text_model(Some(" "), None), "gemini-3.1-flash-lite");
    assert_eq!(count_field(Some("9"), 3, 1, 4), 4);
    assert_eq!(count_field(Some("x"), 3, 1, 4), 3);
    assert_eq!(count_field(Some("0"), 10, 5, 20), 5);
    assert_eq!(count_field(None, 10, 5, 20), 10);
}

#[test]
fn youtube_styles_and_titles() {
    assert_eq!(thumbnail_style("minimal"), "clean minimal design with one focal element");
    assert_eq!(thumbnail_style("other"), "viral YouTube reaction-style thumbnail with face and bold text");
    assert_eq!(tone_description("story"), "story-driven curiosity gap style");
    assert_eq!(thumbnail_title(None, Some("cats")), Ok(s("cats")));
    assert_eq!(thumbnail_title(Some("  "), Some("cats")), Err(s("A video title or topic is required")));
    assert_eq!(thumbnail_title(None, None), Err(s("A video title or topic is required")));
}

#[test]
fn youtube_thumbnail_prompt_sections() {
    let p = thumbnail_prompt("My Title", "", "make it red", "STYLE", true, false);
    assert!(p.starts_with("Generate a professional, eye-catching YouTube thumbnail image.\n\nVIDEO TITLE"));
    assert!(p.contains("\"My Title\"\n\nTEXT ON THE THUMBNAIL:"));
    assert!(p.contains("MANDATORY USER INSTRUCTIONS (MUST follow these exactly — they override any default behavior):\nmake it red\n\n"));
    assert!(p.contains("DESIGN REQUIREMENTS:\n- STYLE\n"));
    assert!(p.ends_with("(surprise, excitement, shock)"));
    assert!(!p.contains("VIDEO CONTEXT"));
    assert_eq!(no_image_message(0, "m"), "Gemini returned no image for variant 1 — the model 'm' cannot generate images. Use a Gemini image model (e.g. gemini-3.1-flash-image-preview).");
}

#[test]
fn youtube_context_and_prompts() {
    assert_eq!(context_block("words", " ", "owls"), "TRANSCRIPT:\nwords\nVIDEO TOPIC: owls\n");
    assert!(!has_material(" ", "", "", false));
    assert!(has_material(" ", "", "", true));
    let t = titles_prompt(7, "CTX\n", "TONE");
    assert!(t.contains("then suggest 7 YouTube titles that would maximize CTR (click-through rate).\n\nCTX\n\nRULES:"));
    assert!(t.contains("question-based (TONE)"));
    assert_eq!(number_titles(&vec![s("a"), s("b")]), "1. a\n2. b");
    let r = refine_prompt("t", &vec![s("x")], "shorter");
    assert!(r.starts_with("Current YouTube titles for topic \"t\":\n1. x\n\nUser instruction: \"shorter\""));
    assert!(description_prompt("REF\n").contains("VIDEO REFERENCE:\nREF\n\nREQUIREMENTS:"));
    assert_eq!(keep_titles(&vec![s("a"), s("b"), s("c")], 2), vec![s("a"), s("b")]);
    assert_eq!(file_status_url("files/1", "K"), "https://generativelanguage.googleapis.com/v1beta/files/1?key=K");
}

#[test]
fn youtube_upload_polling() {
    assert_eq!(upload_check(Some("ACTIVE"), 3), (UploadState::Active, None));
    assert_eq!(upload_check(Some("FAILED"), 0), (UploadState::Failed, Some(s("Gemini rejected the uploaded video"))));
    assert_eq!(upload_check(Some("PROCESSING"), 0), (UploadState::Pending, None));
    assert_eq!(upload_check(None, 29), (UploadState::Pending, Some(s("Timed out waiting for Gemini to process the video"))));
}

#[test]
fn mcp_keys_models_and_prompts() {
    assert_eq!(mcp_gemini_key(&Some(s("")), &Some(s("envk"))), Ok(s("envk")));
    assert_eq!(mcp_gemini_key(&None, &None), Err(s("Missing Gemini API key (pass api_key or set GEMINI_API_KEY)")));
    assert_eq!(mcp_text_model(&None, &Some(s("cfg"))), "cfg");
    assert_eq!(mcp_text_model(&Some(s("m")), &None), "m");
    assert_eq!(mcp_image_model(&Some(s("")), &Some(s("p")), &None), "p");
    assert_eq!(clamp_count(None, 10, 5, 20), 10);
    assert_eq!(clamp_count(Some(99), 1, 1, 4), 4);
    assert!(!has_topic_or_transcript(" ", "\n"));
    assert!(mcp_titles_prompt(5, "", "x").contains("suggest 5 YouTube titles that would maximize CTR.\n\n\nRULES:"));
    let p = mcp_thumbnail_prompt("T", "ctx", "", "S", false, true);
    assert!(p.contains("VIDEO CONTEXT:\nctx\n\n"));
    assert!(p.ends_with("\n- Use the provided background image as the base/backdrop"));
    assert_eq!(mcp_no_image_message(1, "m"), "Gemini returned no image for variant 2 — the model 'm' cannot generate images");
}

#[test]
fn profiles_are_picked() {
    let ps = vec![
        ProfileSummary { username: s("  "), youtube_connected: true },
        ProfileSummary { username: s("first"), youtube_connected: false },
        ProfileSummary { username: s("yt"), youtube_connected: true },
    ];
    assert_eq!(pick_profile(&ps), Ok(s("yt")));
    let no_yt = vec![
        ProfileSummary { username: s(""), youtube_connected: false },
        ProfileSummary { username: s("first"), youtube_connected: false },
        ProfileSummary { username: s("second"), youtube_connected: false },
    ];
    assert_eq!(pick_profile(&no_yt), Ok(s("first")));
    assert!(pick_profile(&vec![]).is_err());
}

#[test]
fn upload_form_fields() {
    let f = upload_fields("u", "T", "D", &vec![]);
    let names: Vec<&str> = f.iter().map(|(k, _)| k.as_str()).collect();
    assert_eq!(names, vec!["user", "title", "async_upload", "privacyStatus", "platform[]", "youtube_title", "youtube_description", "containsSyntheticMedia"]);
    let g = upload_fields("u", "T", "D", &vec![s("tiktok"), s("linkedin")]);
    assert!(g.contains(&(s("description"), s("D"))));
    assert!(g.contains(&(s("linkedin_title"), s("T"))));
    assert!(!g.iter().any(|(k, _)| k == "youtube_title"));
    assert_eq!(uploadpost_authorization("k"), "Apikey k");
}

#[test]
fn analysis_settings() {
    assert_eq!(analysis_model(""), "gemini-3.1-flash-lite");
    assert_eq!(analysis_model("gemini-1.5-flash"), "gemini-3.1-flash-lite");
    assert_eq!(analysis_model("custom"), "custom");
    assert_eq!(analysis_prompt(3, "T"), "Analyze this transcript and find the 3 most viral clip candidates.\n\nTranscript:\nT");
    let v = virality_from_fields(Some(20), None, None, None, Some(1 << 33), None, Some("r"));
    assert_eq!((v.hook_score, v.engagement_score, v.total_score), (20, 15, 0));
    assert_eq!(v.hook_type, "none");
    assert!(!needs_translation("", 3));
    assert!(!needs_translation("ko", 0));
    assert_eq!(translate_prompt("ko", "[]"), "Translate to ko:\n[]");
}

#[test]
fn originality_settings() {
    assert!(matches!(originality_setting("balanced"), Originality::Preset(b, c, s) if b == "0.05" && c == "1.08" && s == "1.1"));
    assert!(matches!(originality_setting("custom:0.1:1.2:1.3"), Originality::Custom(b, c, s) if b == "0.1" && c == "1.2" && s == "1.3"));
    assert!(matches!(originality_setting("custom:1:2"), Originality::Off));
    assert!(matches!(originality_setting("none"), Originality::Off));
    assert_eq!(originality_filter("0.03", "1.03", "1.05"), "eq=brightness=0.03:contrast=1.03:saturation=1.05,unsharp=3:3:0.5:3:3:0.0");
}

#[test]
fn ai_edit_actions() {
    let p = ai_edit_prompt("cut the intro", &vec![s("a1"), s("b2")]);
    assert!(p.contains("User instruction: \"cut the intro\"\nAvailable clip IDs: [a1, b2]"));
    assert!(!p.contains("PLACEHOLDER"));
    assert_eq!(edit_action(Some("merge")), EditAction::Merge);
    assert_eq!(edit_action(None), EditAction::Unknown);
    assert_eq!(action_status(EditAction::Trim), "applied");
    assert_eq!(action_status(EditAction::AddMeme), "queued");
    assert_eq!(action_status(EditAction::Unknown), "unknown_action");
    assert_eq!(action_parameter(EditAction::Reframe, None), "talking_head");
    assert_eq!(action_parameter(EditAction::Refuse, None), "Unknown error");
    assert_eq!(action_parameter(EditAction::AddMeme, Some("sad")), "sad");
}

#[test]
fn clip_exports() {
    assert_eq!(export_preset("reels"), (1080, 1920, s("12M")));
    assert_eq!(export_preset("tiktok"), (1080, 1920, s("10M")));
    assert_eq!(export_scale(1080, 1920), "scale=1080:1920:force_original_aspect_ratio=decrease:flags=lanczos,pad=1080:1920:(ow-iw)/2:(oh-ih)/2,setsar=1");
    assert_eq!(export_file_name("clip_01.mp4", "shorts"), "clip_01_shorts.mp4");
    assert_eq!(inline_disposition("a.mp4"), "inline; filename=\"a.mp4\"");
    assert_eq!(health_status(false), (s("degraded"), s("disconnected")));
}

#[test]
fn assistant_prompts() {
    use_assistant();
}

fn use_assistant() {
    let p = novaclip::assistant::chat_system_prompt("https://v", "{\"num_clips\":3}");
    assert!(p.contains("The video URL is: https://v\n"));
    assert!(p.contains("decided so far (may be partial or empty): {\"num_clips\":3}\n"));
    assert!(!p.contains("PLACEHOLDER"));
    assert_eq!(novaclip::assistant::ai_prompt_request("u", "five clips"), "Video URL: u\nUser instruction: five clips");
    assert!(novaclip::assistant::ai_prompt_system_prompt().starts_with("You are a task parameter parser"));
    assert_eq!(novaclip::assistant::check_chat(0), Some(s("messages cannot be empty")));
    assert_eq!(novaclip::assistant::check_chat(2), None);
}

#[test]
fn simple_caption_words() {
    let w = novaclip::voice::build_simple_words("one two", 2000);
    assert_eq!(w.len(), 2);
    assert_eq!((w[1].start_ms, w[1].end_ms), (1000, 2000));
    assert_eq!(w[0].punctuated_word, Some(s("one")));
    assert_eq!(w[0].speaker, None);
}

#[test]
fn music_and_watermarks() {
    assert_eq!(novaclip::render::bgm_tone("chill"), Ok(("220", "0.02")));
    assert_eq!(novaclip::render::bgm_tone("polka"), Err(s("Unknown BGM style: polka")));
    assert!(novaclip::render::mix_filter().starts_with("[1:a]volume=0.15[bgm]"));
    assert_eq!(novaclip::media::watermark_file_name("logo.JPG"), "watermark.JPG");
    assert_eq!(novaclip::media::watermark_file_name("logo"), "watermark.png");
}

#[test]
fn director_instructions_follow_the_brief() {
    let brief = novaclip::novaedit::NovaEditBrief {
        product: s("Widget"),
        audience: s("makers"),
        tone: s("warm"),
        duration_seconds: 3,
        content_type: s("short_form"),
        instruction: s(""),
        style_ref: None,
    };
    let p = novaclip::novaedit::director_system_prompt(&brief);
    assert!(p.contains("- Product/service: Widget\n- Target audience: makers\n- Tone: warm\n- Target duration: 5s"));
    assert!(p.contains("- Content format: short-form\n"));
    assert!(p.contains("1. Select 3–10 shots."));
    let long = novaclip::novaedit::NovaEditBrief { duration_seconds: 600, ..brief };
    let q = novaclip::novaedit::director_system_prompt(&long);
    assert!(q.contains("- Content format: long-form\n"));
}

#[test]
fn local_recognizer_output() {
    use_recognizer();
}

fn use_recognizer() {
    let segs = vec![
        novaclip::transcript::RecognizedSegment { text: s("  Hello World "), t0_cs: 0, t1_cs: 150 },
        novaclip::transcript::RecognizedSegment { text: s("   "), t0_cs: 150, t1_cs: 160 },
        novaclip::transcript::RecognizedSegment { text: s("Bye"), t0_cs: 160, t1_cs: 200 },
    ];
    let (words, text) = novaclip::transcript::recognized_words(&segs);
    assert_eq!(words.len(), 2);
    assert_eq!(words[0].word, "hello world");
    assert_eq!(words[0].punctuated_word, Some(s("Hello World")));
    assert_eq!((words[1].start_ms, words[1].end_ms), (1600, 2000));
    assert_eq!(text, "Hello World Bye");
    assert_eq!(novaclip::transcript::stt_engine("WHISPER"), novaclip::transcript::SttEngine::Whisper);
    assert_eq!(novaclip::transcript::stt_engine("deepgram"), novaclip::transcript::SttEngine::Deepgram);
}

#[test]
fn tool_catalog_lists_every_tool() {
    let catalog: serde_json::Value = serde_json::from_str(&tool_catalog()).unwrap();
    let tools = catalog["tools"].as_array().unwrap();
    assert_eq!(tools.len(), 15);
    for tool in tools {
        let name = tool["name"].as_str().unwrap();
        assert!(mcp_tool(name) != McpTool::Unknown, "{}", name);
        assert_eq!(tool["inputSchema"]["type"], "object");
    }
    assert_eq!(tools[0]["name"], "process_video");
    assert!(needs_job(McpTool::TrimClip) && !needs_job(McpTool::RunAiEdit) && !needs_job(McpTool::ProcessVideo));
    assert_eq!(tools[7]["inputSchema"]["required"], serde_json::Value::from(vec!["job_id", "instruction"]));
    assert_eq!(tools[14]["name"], "generate_thumbnail");
}

#[test]
fn caption_catalogs_are_json() {
    let templates: serde_json::Value = serde_json::from_str(novaclip::media::caption_templates()).unwrap();
    let list = templates["templates"].as_array().unwrap();
    assert_eq!(list.len(), 7);
    assert_eq!(list[1]["id"], "hormozi");
    assert_eq!(list[1]["highlight_color"], "#00FF66");
    let fonts: serde_json::Value = serde_json::from_str(novaclip::media::caption_fonts()).unwrap();
    assert_eq!(fonts["fonts"][0]["name"], "THEBOLDFONT");
    assert_eq!(fonts["fonts"].as_array().unwrap().len(), 3);
}
