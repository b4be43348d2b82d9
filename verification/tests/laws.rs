use novaclip::caption::{DeepgramWord, WordTimestamp};
use novaclip::novaedit::{after_review, resolve_shot, sanitize_plan, shot_id, NovaShot, PlanEntry};
use novaclip::pdf::{build_campaign_pdf, PdfPage};
use novaclip::scenes::{pts_time_token, scene_spans};
use novaclip::social::{pick_profile, ProfileSummary};
use novaclip::studio::{match_sentences, ScriptItem};
use novaclip::tasks::{ProgressTracker, StreamStep, TaskLook};
use novaclip::transcript::speaker_segments_for_window;
use novaclip::voice::{estimate_word_timestamps, words_from_alignment};
use novaclip::wavespeed::video_duration;
use novaclip::youtube::count_field;

fn s(x: &str) -> String {
    x.to_string()
}

fn dw(w: &str, a: u64, b: u64, speaker: Option<i32>) -> DeepgramWord {
    DeepgramWord { word: s(w), start_ms: a, end_ms: b, punctuated_word: None, speaker }
}

fn stamp(w: &str, a: u64, b: u64) -> WordTimestamp {
    WordTimestamp { word: s(w), start_ms: a, end_ms: b }
}

#[test]
fn sentence_ranges_tile_the_voice_over() {
    let items = vec![
        ScriptItem { sentence: s("Hello there."), keyword: s("hi") },
        ScriptItem { sentence: s("Good bye."), keyword: s("bye") },
    ];
    let stamps = vec![stamp("Hello", 0, 400), stamp("there", 400, 900), stamp("Good", 1000, 1300), stamp("bye", 1300, 1800)];
    let r = match_sentences(&items, &stamps, "Hello there. Good bye.");
    assert_eq!(r.len(), 2);
    assert_eq!(r[0].start_idx, 0);
    assert_eq!(r[0].end_idx, r[1].start_idx);
    assert!(r[1].end_idx <= stamps.len());
}

fn shot(stem: &str, a: u64, b: u64) -> NovaShot {
    NovaShot {
        stem: s(stem),
        start_ms: a,
        end_ms: b,
        transcript: s(""),
        words: vec![],
        roll_type: s("a_roll"),
        visual_description: s(""),
        visual_quality_cs: 0,
        shot_type: s(""),
    }
}

fn entry(id: &str, a: i64, b: i64, pos: i32) -> PlanEntry {
    PlanEntry { shot_id: s(id), start_trim_ms: a, end_trim_ms: b, position: pos, text_overlay: None, transition: None }
}

#[test]
fn sanitized_plans_are_renderable_and_numbered() {
    let shots = vec![shot("a", 0, 10_000), shot("b", 20_000, 25_000)];
    let entries = vec![
        entry("b#20.00", 0, 2_000, 5),
        entry("a#0.00", 1_000, 4_000, 1),
        entry("missing#1.00", 0, 1_000, 0),
        entry("a#0.00", 2_000, 2_100, 2),
    ];
    let plan = sanitize_plan(&entries, &shots);
    assert_eq!(plan.entries.len(), 2);
    assert_eq!(plan.entries[0].shot_id, "a#0.00");
    assert_eq!(plan.entries[0].position, 0);
    assert_eq!(plan.entries[1].position, 1);
    for e in &plan.entries {
        assert!(e.end_trim_ms - e.start_trim_ms >= 300);
    }
}

#[test]
fn review_loop_stops() {
    assert_eq!(after_review(0, 2, true), (1, true));
    assert_eq!(after_review(1, 2, true), (2, false));
    assert_eq!(after_review(0, 2, false), (1, false));
}

#[test]
fn progress_stream_sends_only_changes_and_ends_on_finish() {
    let mut t = ProgressTracker::new();
    let look = |p: i32, st: &str| TaskLook::Found { progress: p, status: s(st), message: None };
    assert!(t.observe(&look(10, "processing")) == StreamStep::Send);
    assert!(t.observe(&look(10, "processing")) == StreamStep::Wait);
    assert!(t.observe(&TaskLook::Failed) == StreamStep::Retry);
    assert!(t.observe(&look(100, "completed")) == StreamStep::SendAndEnd);
    assert!(t.observe(&TaskLook::Missing) == StreamStep::NotFound);
}

#[test]
fn speaker_turns_alternate() {
    let words = vec![
        dw("a", 0, 500, Some(0)),
        dw("b", 500, 1000, Some(0)),
        dw("c", 1000, 1500, Some(1)),
        dw("d", 1500, 2000, Some(0)),
    ];
    let segs = speaker_segments_for_window(&words, 0, 2000);
    assert!(segs.len() >= 2);
    for w in segs.windows(2) {
        assert_ne!(w[0].speaker, w[1].speaker);
    }
}

#[test]
fn pdf_cross_references_point_at_objects() {
    let pages = vec![PdfPage { content: s("BT /F1 12 Tf 72 720 Td (Hi) Tj ET") }];
    let bytes = build_campaign_pdf(&pages, None);
    let text = String::from_utf8_lossy(&bytes).to_string();
    let xref = text.rfind("\nxref\n").expect("xref table") + 1;
    let table = &text[xref..];
    let mut lines = table.lines().skip(2);
    // The first entry is the free head of the list.
    lines.next();
    let mut n = 1;
    for line in lines {
        if line.starts_with("trailer") {
            break;
        }
        let off: usize = line[..10].parse().unwrap();
        assert!(text[off..].starts_with(&format!("{} 0 obj", n)));
        n += 1;
    }
    assert!(n > 1);
}

#[test]
fn spread_timings_cover_the_audio_exactly() {
    let w = estimate_word_timestamps("a b c", Some(1000));
    assert_eq!(w[0].start_ms, 0);
    assert_eq!(w[0].end_ms, w[1].start_ms);
    assert_eq!(w[1].end_ms, w[2].start_ms);
    assert_eq!(w[2].end_ms, 1000);
}

#[test]
fn aligned_words_are_never_empty() {
    let chars: Vec<String> = vec![s(" "), s(""), s("a"), s(" "), s(" "), s("b")];
    let w = words_from_alignment(&chars, &vec![0, 1, 2, 3, 4, 5], &vec![1, 2, 3, 4, 5, 6]);
    assert!(w.iter().all(|x| !x.word.is_empty()));
    assert_eq!(w.len(), 2);
}

#[test]
fn clamps_hold() {
    for d in [-5, 0, 3, 7, 10, 11, i32::MAX] {
        let v = video_duration(d);
        assert!((3..=10).contains(&v));
    }
    for c in ["0", "3", "99", "x", ""] {
        let v = count_field(Some(c), 3, 1, 4);
        assert!((1..=4).contains(&v));
    }
}

#[test]
fn picked_profile_is_never_blank() {
    let ps = vec![ProfileSummary { username: s("\t"), youtube_connected: true }];
    assert!(pick_profile(&ps).is_err());
}

#[test]
fn scene_cuts_become_tiling_shots() {
    let cuts = vec![9_000, 100, 3_000, 3_100, 9_950, 5_000];
    let shots = scene_spans(&cuts, 10_000);
    assert_eq!(shots, vec![(0, 3_000), (3_000, 5_000), (5_000, 9_000), (9_000, 10_000)]);
    assert_eq!(scene_spans(&vec![], 4_000), vec![(0, 4_000)]);
    for w in shots.windows(2) {
        assert_eq!(w[0].1, w[1].0);
    }
    assert_eq!(pts_time_token("[Parsed_showinfo_1] n:0 pts:1 pts_time:12.345 pos:9"), Some(s("12.345")));
    assert_eq!(pts_time_token("no time here"), None);
}

#[test]
fn printed_shot_ids_resolve_back() {
    let shots = vec![shot("x", 0, 4_000), shot("x", 4_004, 9_000), shot("y", 12_345, 20_000)];
    assert_eq!(resolve_shot(&shots, &shot_id("x", 4_004)), Some(1));
    assert_eq!(resolve_shot(&shots, "x#4.00"), Some(1));
    assert_eq!(resolve_shot(&shots, &shot_id("y", 12_345)), Some(2));
    assert_eq!(resolve_shot(&shots, "x#4.004"), Some(1));
    assert_eq!(resolve_shot(&shots, "x#4.02"), None);
}

#[test]
fn cuts_snap_to_words_measured_from_the_shot_start() {
    let mut sh = shot("a", 10_000, 20_000);
    sh.words = vec![dw("hi", 10_250, 10_750, None), dw("there", 12_000, 12_600, None)];
    let plan = sanitize_plan(&vec![entry("a#10.00", 500, 2_500, 0)], &vec![sh]);
    assert_eq!(plan.entries.len(), 1);
    assert_eq!(plan.entries[0].start_trim_ms, 250);
    assert_eq!(plan.entries[0].end_trim_ms, 2_600);
}
