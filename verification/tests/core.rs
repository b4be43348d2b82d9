use novaclip::caption::{ass_timestamp, colour_sliceable, escape_ass, get_caption_style, is_named_template, get_sentence_emoji, hex_to_ass, DeepgramWord, get_clip_words};
use novaclip::codec::image_data_url;
use novaclip::mcp::{check_ai_edit, parse_clip_ids, AiEditRefusal};
use novaclip::voice::decode_audio;
use novaclip::youtube::inline_image;
use novaclip::media::FilePart;
use novaclip::media::{clean_reply, extract_video_id, file_extension, json_block_span, mime_for_filename, resolve_upload_path, JsonSpan, MultiForm};
use novaclip::pipeline::{build_crop_filter, output_dimensions, parse_aspect_ratio};
use novaclip::segments::{dedup_segments, SegmentSpan};
use novaclip::tasks::{normalize_color, validate_aspect_ratio, remember_feedback, validate_feedback};
use novaclip::transcript::{seconds_to_mmss, decode_s16le};
use novaclip::novaedit::{shot_id, strip_fences, frame_file_name, frame_label, frame_data_url, frame_batch_end};

fn s(x: &str) -> String {
    x.to_string()
}

fn word(w: &str, a: u64, b: u64) -> DeepgramWord {
    DeepgramWord { word: s(w), start_ms: a, end_ms: b, punctuated_word: None, speaker: None }
}

#[test]
fn crop_filters_by_ratio() {
    assert_eq!(build_crop_filter("9:16"), "scale=-1:1920:flags=lanczos,crop=1080:1920:(iw-1080)/2:0,setsar=1");
    assert_eq!(build_crop_filter("16:9"), "scale=1920:-1:flags=lanczos,pad=1920:1080:(ow-iw)/2:(oh-ih)/2,setsar=1");
    assert_eq!(build_crop_filter("original"), "");
}

#[test]
fn aspect_ratios_parse_and_size() {
    assert_eq!(parse_aspect_ratio("9:16"), Some((9, 16)));
    assert_eq!(parse_aspect_ratio("9:16:1"), None);
    assert_eq!(parse_aspect_ratio("a:1"), None);
    assert_eq!(output_dimensions("1:1"), (1080, 1080));
    assert_eq!(output_dimensions("4:3"), (1440, 1080));
    assert_eq!(output_dimensions("weird"), (1920, 1080));
}

#[test]
fn task_settings_are_normalized() {
    assert_eq!(validate_aspect_ratio("4:3"), "4:3");
    assert_eq!(validate_aspect_ratio("2:1"), "9:16");
    assert_eq!(normalize_color("#ff00aa"), "#FF00AA");
    assert_eq!(normalize_color("red"), "#FFFFFF");
}

#[test]
fn ass_colors_and_text() {
    assert_eq!(hex_to_ass("#FF8800"), "&H000088FF&");
    assert_eq!(hex_to_ass("#FFF"), "&H00FFFFFF&");
    assert_eq!(escape_ass("a{b}\\c"), "a\\{b\\}\\\\c");
    assert_eq!(ass_timestamp(3_723_450), "1:02:03.45");
    assert_eq!(ass_timestamp(0), "0:00:00.00");
}

#[test]
fn mmss_stamps() {
    assert_eq!(seconds_to_mmss(0), "00:00");
    assert_eq!(seconds_to_mmss(125_900), "02:05");
}

#[test]
fn emoji_for_sentences() {
    assert!(get_sentence_emoji("nothing special here").is_none());
}

#[test]
fn clip_words_inside_window() {
    let all = vec![word("a", 0, 500), word("b", 1000, 1500), word("c", 3000, 3500)];
    let got = get_clip_words(&all, 900, 2000);
    assert_eq!(got.len(), 1);
    assert_eq!(got[0].word, "b");
}

#[test]
fn dedup_prefers_high_scores_and_drops_overlaps() {
    let segs = vec![
        SegmentSpan { start_ms: 0, end_ms: 30_000, score: 50 },
        SegmentSpan { start_ms: 10_000, end_ms: 40_000, score: 90 },
        SegmentSpan { start_ms: 60_000, end_ms: 65_000, score: 99 },
        SegmentSpan { start_ms: 50_000, end_ms: 80_000, score: 70 },
    ];
    assert_eq!(dedup_segments(&segs, 5), vec![1, 3]);
    assert_eq!(dedup_segments(&segs, 1), vec![1]);
}

#[test]
fn base64_round_trip_through_the_crate() {
    let part = FilePart { name: s("face_image"), filename: s("f.png"), mime: s("image/png"), bytes: b"hello".to_vec() };
    let (mime, e) = inline_image(&part);
    assert_eq!(mime, "image/png");
    assert_eq!(e, "aGVsbG8=");
    assert_eq!(decode_audio(&e).unwrap(), b"hello".to_vec());
    assert!(decode_audio("aGVsbG8").is_err());
    assert_eq!(image_data_url("image/png", "AAAA"), "data:image/png;base64,AAAA");
}

#[test]
fn uuids_parse() {
    assert!(matches!(check_ai_edit("00000000-0000-0000-0000-000000000001", "trim it"), Ok(1)));
    assert!(matches!(check_ai_edit("not-a-uuid", "trim it"), Err(AiEditRefusal::JobNotUuid)));
    assert!(matches!(check_ai_edit("", "x"), Err(AiEditRefusal::MissingJob)));
    assert_eq!(
        parse_clip_ids(&vec![Some(s("00000000-0000-0000-0000-00000000000a")), None, Some(s("zzz"))]),
        vec![10]
    );
}

#[test]
fn youtube_ids_from_urls() {
    assert_eq!(extract_video_id("https://www.youtube.com/watch?v=dQw4w9WgXcQ"), Some(s("dQw4w9WgXcQ")));
    assert_eq!(extract_video_id("https://youtu.be/dQw4w9WgXcQ"), Some(s("dQw4w9WgXcQ")));
    assert_eq!(extract_video_id("not a url"), None);
}

#[test]
fn files_and_mime_types() {
    assert_eq!(mime_for_filename("CLIP.MOV"), "video/quicktime");
    assert_eq!(mime_for_filename("a.mpeg"), "video/mpeg");
    assert_eq!(mime_for_filename("a.bin"), "video/mp4");
    assert_eq!(file_extension("dir/video.mp4"), Some(s("mp4")));
    assert_eq!(file_extension("noext"), None);
    assert_eq!(resolve_upload_path("upload://abc.mp4", "temp"), "temp/uploads/abc.mp4");
}

#[test]
fn model_replies_are_unwrapped() {
    assert_eq!(clean_reply("```json\n{\"a\":1}\n```"), "{\"a\":1}");
    assert!(matches!(json_block_span("noise {\"a\":1} tail"), JsonSpan::Span(t) if t == "{\"a\":1}"));
    assert!(matches!(json_block_span("no braces"), JsonSpan::NoObject));
    assert!(matches!(json_block_span("} then {"), JsonSpan::Reversed));
    assert_eq!(strip_fences("```json\n[1]\n```"), "[1]");
}

#[test]
fn multipart_fields() {
    let mut f = MultiForm::new();
    f.insert_field(s("topic"), s("owls"));
    f.insert_field(s("empty"), s(""));
    f.insert_field(s("topic"), s("bats"));
    assert_eq!(f.text("topic"), Some(s("bats")));
    assert_eq!(f.text("empty"), None);
    assert_eq!(f.text("missing"), None);
    assert_eq!(f.file("face_image"), None);
}

#[test]
fn feedback_is_remembered_once() {
    let mut h = vec![s("tighter")];
    remember_feedback(&mut h, "tighter");
    remember_feedback(&mut h, "louder");
    assert_eq!(h, vec![s("tighter"), s("louder")]);
    assert_eq!(validate_feedback("   "), None);
    assert_eq!(validate_feedback("  ok "), Some(s("ok")));
}

#[test]
fn shot_ids_and_frames() {
    assert_eq!(shot_id("clip", 1_500), "clip#1.50");
    assert_eq!(frame_file_name(7), "frame_0007.jpg");
    assert_eq!(frame_label(3), "Frame shot_3:");
    assert_eq!(frame_data_url(&vec![0xff, 0xd8]), "data:image/jpeg;base64,/9g=");
    assert_eq!(frame_batch_end(0, 30), 12);
    assert_eq!(frame_batch_end(24, 30), 30);
}

#[test]
fn pcm_samples_decode() {
    assert_eq!(decode_s16le(&vec![0x01, 0x00, 0xff, 0xff, 0x05]), vec![1, -1]);
}

#[test]
fn caption_templates_follow_the_catalogue() {
    let podcast = get_caption_style("podcast", "Arial", 32, "#FFFFFF");
    assert!(podcast.word_pop);
    assert_eq!(podcast.highlight_color, "&H0000B8FF&");
    assert!(!get_caption_style("minimal", "Arial", 32, "#FFFFFF").word_pop);
    let hormozi = get_caption_style("hormozi", "Arial", 20, "#a\u{e9}\u{20ac}");
    assert_eq!(hormozi.highlight_color, "&H0066FF00&");
    assert_eq!(hormozi.font_size, 48);
    let custom = get_caption_style("default", "Arial", 20, "#a\u{e9}");
    assert_eq!(custom.primary_color, "&H00FFFFFF&");
    assert_eq!(custom.font_size, 44);
    assert!(is_named_template("podcast") && !is_named_template("default"));
    assert!(colour_sliceable("#FF8800") && colour_sliceable("#FFF"));
    assert!(!colour_sliceable("#a\u{e9}\u{20ac}"));
}

#[test]
fn aspect_ratios_round_trip_and_match_their_canvas() {
    for (w, h) in [(9u32, 16u32), (1, 1), (16, 9), (4, 3), (4294967295, 0)] {
        assert_eq!(parse_aspect_ratio(&format!("{}:{}", w, h)), Some((w, h)));
    }
    assert_eq!(parse_aspect_ratio("916"), None);
    assert_eq!(parse_aspect_ratio(":9:16"), None);
    for ar in ["9:16", "1:1", "16:9", "4:3"] {
        let (w, h) = output_dimensions(ar);
        let (a, b) = parse_aspect_ratio(ar).unwrap();
        assert_eq!(w * b, h * a);
        assert_eq!(w.min(h), 1080);
        assert!(build_crop_filter(ar).contains(&format!("{}:{}:", w, h)));
    }
    assert_eq!(output_dimensions("original"), (1920, 1080));
}
