use chobits::server::collector::{
    DEFAULT_INPUT_SAMPLE_RATE, DEFAULT_TTS_SAMPLE_RATE, FrameRoute, MAX_FRAMES_PER_ROUND,
    RecordCollector, RoundBook, RoundBuffer, StepFlag, StepKind, millis_between,
};
use chobits::server::record::{
    AsrContext, FrameContext, FrameDirection, LlmDeltaContext, RoundEndContext, RoundEndReason,
    RoundMode, RoundStartContext, TextInputContext, TtsDeltaContext,
};

fn id(s: &str) -> String {
    s.to_string()
}

fn book_with_round(round: &str, session: Option<&str>, now_ns: i64) -> RoundBook<String, f32> {
    let mut book = RoundBook::new();
    book.start_round(
        id(round),
        session.map(id),
        Some(id("client")),
        RoundMode::Auto,
        now_ns,
    );
    book
}

#[test]
fn step_names_match_the_stored_names() {
    assert_eq!(StepKind::InputAudio.name(), "input_audio");
    assert_eq!(StepKind::Asr.name(), "asr");
    assert_eq!(StepKind::Text.name(), "text");
    assert_eq!(StepKind::Llm.name(), "llm");
    assert_eq!(StepKind::Tts.name(), "tts");
}

#[test]
fn millis_between_counts_whole_milliseconds_and_never_goes_negative() {
    assert_eq!(millis_between(1_000_000, 3_999_999), 2);
    assert_eq!(millis_between(0, 999_999), 0);
    assert_eq!(millis_between(999_999, 1_000_000), 0);
    assert_eq!(millis_between(5_000_000, 5_000_000), 0);
    assert_eq!(millis_between(9_000_000, 1_000_000), 0);
    assert_eq!(millis_between(i64::MIN, i64::MAX), 18_446_744_073_709);
}

#[test]
fn text_input_is_kept_verbatim_and_replaced_by_a_later_one() {
    let mut book = book_with_round("r1", Some("s1"), 100_000);
    book.collect_text(&id("r1"), "hello", 2_100_000);
    book.collect_text(&id("r1"), "again", 3_100_000);
    let buffer = book.finish_round(&id("r1")).expect("round pending");
    let step = buffer.step(StepKind::Text).expect("text step");
    assert_eq!(step.text, "again");
    assert!(step.has_text);
    assert_eq!(step.first_event_ns, 2_100_000);
    assert_eq!(step.last_event_ns, 3_100_000);
    assert_eq!(buffer.elapsed_ms(StepKind::Text), Some(2));
}

#[test]
fn answer_pieces_are_appended_in_order() {
    let mut book = book_with_round("r1", None, 0);
    book.collect_llm_text(&id("r1"), "Hel", 10);
    book.collect_llm_text(&id("r1"), "lo", 20);
    let buffer = book.finish_round(&id("r1")).unwrap();
    assert_eq!(buffer.step_text(StepKind::Llm), Some(id("Hello")));
}

#[test]
fn recognition_moves_the_voice_start_back_by_its_length() {
    let mut book = book_with_round("r1", None, 1_000_000);
    book.collect_asr(&id("r1"), vec![0.5, -0.5], 16_000, id("hi"), 0.9, 250, 400_000_000);
    let buffer = book.finish_round(&id("r1")).unwrap();
    let voice = buffer.step(StepKind::InputAudio).unwrap();
    assert_eq!(voice.first_event_ns, 150_000_000);
    assert_eq!(voice.last_event_ns, 400_000_000);
    assert_eq!(voice.pcm, vec![0.5, -0.5]);
    assert_eq!(voice.sample_rate, Some(16_000));
    assert!(voice.has_pcm);
    let asr = buffer.step(StepKind::Asr).unwrap();
    assert_eq!(asr.text, "hi");
    assert_eq!(asr.confidence, Some(0.9));
    assert!(asr.has_text);
}

#[test]
fn aligning_starts_the_round_where_the_voice_began() {
    let mut book = book_with_round("r1", None, 1_000_000_000);
    book.collect_asr(&id("r1"), vec![0.0; 4], 16_000, id("hi"), 1.0, 500, 1_200_000_000);
    book.align_round_start(&id("r1"));
    book.collect_llm_text(&id("r1"), "ok", 1_300_000_000);
    let buffer = book.finish_round(&id("r1")).unwrap();
    assert_eq!(buffer.round_start_ns, 700_000_000);
    assert_eq!(buffer.round_creation_ns, 1_000_000_000);
    assert_eq!(buffer.elapsed_ms(StepKind::Llm), Some(600));
    assert_eq!(buffer.process_ms(StepKind::Llm), Some(300));
    assert_eq!(buffer.elapsed_ms(StepKind::InputAudio), Some(0));
}

#[test]
fn speech_pieces_append_text_and_audio() {
    let mut book = book_with_round("r1", None, 0);
    book.collect_tts(&id("r1"), "a", Some((vec![0.1, 0.2], 24_000)), 5);
    book.collect_tts(&id("r1"), "b", None, 6);
    book.collect_tts(&id("r1"), "c", Some((vec![0.3], 22_050)), 7);
    let buffer = book.finish_round(&id("r1")).unwrap();
    let tts = buffer.step(StepKind::Tts).unwrap();
    assert_eq!(tts.text, "abc");
    assert_eq!(tts.pcm, vec![0.1, 0.2, 0.3]);
    assert_eq!(tts.sample_rate, Some(22_050));
    assert!(buffer.step_has(StepKind::Tts, StepFlag::HasPcm));
}

#[test]
fn events_for_an_unknown_round_change_nothing() {
    let mut book = book_with_round("r1", None, 0);
    book.collect_text(&id("other"), "x", 10);
    book.collect_llm_text(&id("other"), "x", 10);
    book.align_round_start(&id("other"));
    assert!(book.finish_round(&id("other")).is_none());
    let buffer = book.finish_round(&id("r1")).unwrap();
    assert!(buffer.step(StepKind::Text).is_none());
    assert!(buffer.step(StepKind::Llm).is_none());
}

#[test]
fn a_finished_round_is_handed_over_once() {
    let mut book = book_with_round("r1", None, 0);
    assert!(book.finish_round(&id("r1")).is_some());
    assert!(book.finish_round(&id("r1")).is_none());
}

#[test]
fn restarting_a_round_drops_what_it_had_collected() {
    let mut book = book_with_round("r1", None, 0);
    book.collect_text(&id("r1"), "x", 10);
    book.start_round(id("r1"), None, None, RoundMode::Text, 50);
    let buffer = book.finish_round(&id("r1")).unwrap();
    assert!(buffer.step(StepKind::Text).is_none());
    assert_eq!(buffer.round_start_ns, 50);
    assert_eq!(buffer.mode, RoundMode::Text);
    assert!(book.finish_round(&id("r1")).is_none());
}

#[test]
fn frames_route_to_their_round_or_session() {
    let mut book = book_with_round("r1", Some("s1"), 0);
    let r1 = id("r1");
    let s1 = id("s1");
    assert_eq!(book.record_frame(Some(&r1), Some(&s1), 1, true, "a", 10), FrameRoute::Buffered);
    assert_eq!(book.record_frame(Some(&id("nope")), Some(&s1), 2, true, "b", 11), FrameRoute::Unrouted);
    assert_eq!(book.record_frame(None, Some(&s1), 3, false, "c", 12), FrameRoute::Orphaned);
    assert_eq!(book.record_frame(None, None, 4, false, "d", 13), FrameRoute::Unrouted);
    let buffer = book.finish_round(&r1).unwrap();
    assert_eq!(buffer.frames.len(), 1);
    assert_eq!(buffer.frames[0].seq, 1);
    assert_eq!(buffer.frames[0].detail, "a");
    assert_eq!(buffer.frames[0].session_id, Some(id("s1")));
}

#[test]
fn a_full_round_drops_further_frames() {
    let mut book = book_with_round("r1", None, 0);
    let r1 = id("r1");
    for seq in 0..MAX_FRAMES_PER_ROUND as u64 {
        assert_eq!(book.record_frame(Some(&r1), None, seq, true, "f", 1), FrameRoute::Buffered);
    }
    assert_eq!(book.record_frame(Some(&r1), None, 9_999, true, "f", 2), FrameRoute::Dropped);
    let buffer = book.finish_round(&r1).unwrap();
    assert_eq!(buffer.frames.len(), MAX_FRAMES_PER_ROUND);
}

#[test]
fn frames_seen_before_the_first_round_join_it_with_their_times() {
    let mut book: RoundBook<String, f32> = RoundBook::new();
    let s1 = id("s1");
    book.record_frame(None, Some(&s1), 7, true, "hello", 40);
    book.record_frame(None, Some(&s1), 8, false, "world", 45);
    book.start_round(id("r1"), Some(id("s1")), None, RoundMode::Manual, 100);
    book.adopt_orphans(&s1, &id("r1"));
    book.start_round(id("r2"), Some(id("s1")), None, RoundMode::Manual, 200);
    book.adopt_orphans(&s1, &id("r2"));
    let first = book.finish_round(&id("r1")).unwrap();
    assert_eq!(first.frames.len(), 2);
    assert_eq!(first.frames[0].seq, 7);
    assert_eq!(first.frames[0].received_ns, 40);
    assert_eq!(first.frames[1].detail, "world");
    let second = book.finish_round(&id("r2")).unwrap();
    assert!(second.frames.is_empty());
}

#[test]
fn a_flush_plan_stores_each_stage_in_order() {
    let mut book = book_with_round("r1", Some("s1"), 0);
    let r1 = id("r1");
    book.collect_asr(&r1, vec![0.0; 8], 8_000, id("hi there"), 0.75, 1, 2_000_000);
    book.collect_text(&r1, "typed", 3_000_000);
    book.collect_llm_text(&r1, "answer", 4_000_000);
    book.collect_tts(&r1, "spoken", Some((vec![0.5], 22_050)), 5_000_000);
    book.record_frame(Some(&r1), Some(&id("s1")), 70_000, false, "frame", 6_500_000);
    let buffer = book.finish_round(&r1).unwrap();
    let plan = buffer.plan_flush(&RoundEndReason::Completed);

    assert_eq!(plan.round.round_id, "r1");
    assert_eq!(plan.round.session_id, "s1");
    assert_eq!(plan.round.mode, "auto");
    assert_eq!(plan.round.status, "completed");

    let kinds: Vec<StepKind> = plan.data.iter().map(|d| d.kind).collect();
    assert_eq!(
        kinds,
        vec![StepKind::InputAudio, StepKind::Asr, StepKind::Text, StepKind::Llm, StepKind::Tts]
    );
    let voice = &plan.data[0];
    assert_eq!(voice.wav_rate, Some(8_000));
    assert_eq!(voice.text, Some(id("hi there")));
    assert!(voice.audio_ms && voice.duration_is_audio);
    assert_eq!(voice.elapsed_ms, Some(1));
    assert_eq!(voice.duration_ms, None);
    let asr = &plan.data[1];
    assert_eq!(asr.wav_rate, None);
    assert_eq!(asr.confidence, Some(0.75));
    assert_eq!(asr.elapsed_ms, Some(2));
    assert_eq!(asr.duration_ms, Some(2));
    assert_eq!(plan.data[2].text, Some(id("typed")));
    assert_eq!(plan.data[3].text, Some(id("answer")));
    let tts = &plan.data[4];
    assert_eq!(tts.wav_rate, Some(22_050));
    assert_eq!(tts.sample_rate, Some(Some(22_050)));
    assert_eq!(tts.text, Some(id("spoken")));
    assert_eq!(tts.elapsed_ms, Some(5));

    assert_eq!(plan.frames.len(), 1);
    assert_eq!(plan.frames[0].seq, 70_000);
    assert_eq!(plan.frames[0].dir, "outbound");
    assert_eq!(plan.frames[0].elapsed_us, 6_500);
    assert_eq!(plan.frames[0].session_id, Some(id("s1")));
}

#[test]
fn a_flush_plan_uses_default_rates_and_skips_empty_stages() {
    let mut buffer: RoundBuffer<(), f32> = RoundBuffer::new(id("r9"), None, None, RoundMode::Text, 0);
    buffer.collect_tts("", Some((Vec::new(), 0)), 10);
    buffer.collect_llm_text("", 11);
    let mut plan = buffer.plan_flush(&RoundEndReason::Interrupted);
    assert_eq!(plan.round.session_id, "");
    assert_eq!(plan.round.status, "interrupted");
    assert_eq!(plan.data.len(), 1);
    let tts = plan.data.remove(0);
    assert_eq!(tts.kind, StepKind::Tts);
    assert_eq!(tts.wav_rate, Some(0));
    assert!(!tts.audio_ms);
    assert_eq!(tts.text, None);
    let _ = (DEFAULT_INPUT_SAMPLE_RATE, DEFAULT_TTS_SAMPLE_RATE);
}

#[test]
fn a_flush_plan_falls_back_to_default_sample_rates() {
    let mut buffer: RoundBuffer<(), f32> = RoundBuffer::new(id("r"), None, None, RoundMode::Auto, 0);
    buffer.collect_asr(vec![0.0], 16_000, id(""), 0.0, 0, 1);
    buffer.input_audio.as_mut().unwrap().sample_rate = None;
    buffer.collect_tts("t", Some((vec![0.0], 1)), 2);
    buffer.tts.as_mut().unwrap().sample_rate = None;
    let plan = buffer.plan_flush(&RoundEndReason::Completed);
    assert_eq!(plan.data[0].wav_rate, Some(DEFAULT_INPUT_SAMPLE_RATE));
    assert_eq!(plan.data[0].text, None);
    let last = plan.data.last().unwrap();
    assert_eq!(last.wav_rate, Some(DEFAULT_TTS_SAMPLE_RATE));
    assert_eq!(last.sample_rate, Some(None));
}

#[test]
fn the_collector_follows_a_round_from_start_to_end() {
    let mut collector: RecordCollector<String, f32> = RecordCollector::new();
    collector.on_frame(&FrameContext {
        round_id: None,
        session_id: Some(id("s")),
        seq: 1,
        direction: FrameDirection::Inbound,
        detail: id("hello"),
        data: None,
        round_started_at: None,
    });
    collector.on_round_start(RoundStartContext {
        round_id: id("r"),
        session_id: Some(id("s")),
        client_info: Some(id("{}")),
        mode: RoundMode::RealTime,
    });
    collector.on_asr(
        AsrContext {
            round_id: id("r"),
            voice_pcm: vec![0.0; 16],
            sample_rate: 16_000,
            text: id("hi"),
            confidence: 0.5,
        },
        1,
    );
    collector.on_asr_complete("r");
    collector.on_text_input(&TextInputContext { round_id: id("r"), text: id("typed") });
    collector.on_llm_delta(&LlmDeltaContext { round_id: id("r"), text: id("ok") });
    collector.on_tts_delta(TtsDeltaContext { round_id: id("r"), text: id("ok"), raw_pcm: None });
    let route = collector.on_frame(&FrameContext {
        round_id: Some(id("r")),
        session_id: Some(id("s")),
        seq: 2,
        direction: FrameDirection::Outbound,
        detail: id("bye"),
        data: None,
        round_started_at: None,
    });
    assert_eq!(route, FrameRoute::Buffered);
    let buffer = collector
        .on_round_end(&RoundEndContext { round_id: id("r"), reason: RoundEndReason::Completed })
        .expect("round pending");
    assert_eq!(buffer.client_info, Some(id("{}")));
    assert_eq!(buffer.frames.len(), 2);
    assert!(buffer.frames[0].is_inbound);
    assert!(!buffer.frames[1].is_inbound);
    assert_eq!(buffer.step_text(StepKind::Asr), Some(id("hi")));
    assert_eq!(buffer.step_text(StepKind::Tts), Some(id("ok")));
    assert!(
        collector
            .on_round_end(&RoundEndContext { round_id: id("r"), reason: RoundEndReason::Completed })
            .is_none()
    );
}
