use chobits::server::asr::{AsrVoid, Task};
use chobits::server::collector::{direction_str, status_str};
use chobits::server::i18n::I18nError;
use chobits::server::llm::{
    Conversation, DeltaHandoff, ReplyCollector, ReplyEvent, Turn, delta_handoff, system_prompt,
};
use chobits::server::mcp::{
    DeviceMcpClient, DeviceMcpPhase, ToolContent, ToolRoute, gather_tools, missing_tool_message,
    route_tool, tool_call_result,
};
use chobits::server::record::{
    ListFramesParams, ListRoundsParams, PageWindow, RoundEndReason, RoundMode,
};
use chobits::server::tts::{
    RESAMPLE_CHUNK, SAY_PACKET_SAMPLES, TextStep, TtsError, TtsMute, calcalute_tts_packet_size,
    next_text_step, opus_channels, resample_chunks, say_packet_ranges, tts_packet_ranges,
};

#[test]
fn packet_size_is_samples_per_delay() {
    assert_eq!(calcalute_tts_packet_size(16000, 1, 60), 960);
    assert_eq!(calcalute_tts_packet_size(24000, 2, 20), 960);
    assert_eq!(calcalute_tts_packet_size(8000, 1, 1), 8);
    assert_eq!(calcalute_tts_packet_size(44100, 1, 10), 441);
    assert_eq!(calcalute_tts_packet_size(1000, 1, 1), 1);
    assert_eq!(calcalute_tts_packet_size(999, 1, 1), 0);
}

#[test]
fn packet_ranges_cover_the_buffer_with_a_short_last_packet() {
    assert_eq!(tts_packet_ranges(10, 4), vec![(0, 4), (4, 8), (8, 10)]);
    assert_eq!(tts_packet_ranges(8, 4), vec![(0, 4), (4, 8)]);
    assert_eq!(tts_packet_ranges(0, 4), vec![]);
    assert_eq!(tts_packet_ranges(3, 960), vec![(0, 3)]);
}

#[test]
fn tts_errors_print_their_kind_and_detail() {
    assert_eq!(TtsError::Init.message(), "init error");
    assert_eq!(TtsError::Encode("opus".to_string()).message(), "encode error opus");
    assert_eq!(TtsError::Text("broken".to_string()).message(), "text error broken");
}

#[test]
fn cancellation_wins_over_the_next_text_item() {
    assert!(matches!(next_text_step(true, Ok("hi".to_string())), TextStep::Stop));
    assert!(matches!(next_text_step(true, Err("boom".to_string())), TextStep::Stop));
    match next_text_step(false, Ok("hi".to_string())) {
        TextStep::Speak(t) => assert_eq!(t, "hi"),
        other => panic!("unexpected {other:?}"),
    }
    match next_text_step(false, Err("boom".to_string())) {
        TextStep::Fail(TtsError::Text(m)) => assert_eq!(m, "boom"),
        other => panic!("unexpected {other:?}"),
    }
}

#[test]
fn round_modes_and_outcomes_have_lowercase_names() {
    assert_eq!(RoundMode::Auto.as_str(), "auto");
    assert_eq!(RoundMode::Manual.as_str(), "manual");
    assert_eq!(RoundMode::RealTime.as_str(), "realtime");
    assert_eq!(RoundMode::Text.as_str(), "text");
    assert_eq!(status_str(&RoundEndReason::Completed), "completed");
    assert_eq!(status_str(&RoundEndReason::Interrupted), "interrupted");
    assert_eq!(direction_str(true), "inbound");
    assert_eq!(direction_str(false), "outbound");
}

#[test]
fn i18n_errors_keep_code_and_key() {
    let e = I18nError::new(40001, "error.not_found");
    assert_eq!(e.code, 40001);
    assert_eq!(e.key, "error.not_found");
}

#[test]
fn mcp_handshake_initializes_then_pages_through_tools() {
    let mut client: DeviceMcpClient<&str> = DeviceMcpClient::new(Some("s1".to_string()));
    assert_eq!(client.session_id().as_deref(), Some("s1"));
    assert_eq!(client.phase, DeviceMcpPhase::Initialize);

    let init = client.create_initialize_request();
    assert_eq!(init, 0);
    assert!(!client.is_current(Some(5)));
    assert!(!client.is_current(None));
    assert!(client.handle_mcp(Some(init), None), "initialize always asks for tools next");
    assert_eq!(client.phase, DeviceMcpPhase::GetToolList);

    let (first, cursor) = client.create_tools_list_request();
    assert_eq!(first, 1);
    assert_eq!(cursor, None);
    assert!(client.handle_mcp(Some(first), Some((vec!["light.set"], Some("p2".to_string())))));

    let (second, cursor) = client.create_tools_list_request();
    assert_eq!(second, 2);
    assert_eq!(cursor.as_deref(), Some("p2"));
    assert!(!client.handle_mcp(Some(first), Some((vec!["stale"], None))), "a stale page is ignored");
    assert!(!client.handle_mcp(Some(second), Some((vec!["light.get"], None))));
    assert_eq!(client.tools, vec!["light.set", "light.get"]);
}

#[test]
fn a_stray_initialize_answer_keeps_waiting() {
    let mut client: DeviceMcpClient<u8> = DeviceMcpClient::new(None);
    let id = client.create_initialize_request();
    client.handle_initialize_result(Some(id + 1));
    assert_eq!(client.phase, DeviceMcpPhase::Initialize);
    client.handle_initialize_result(Some(id));
    assert_eq!(client.phase, DeviceMcpPhase::GetToolList);
}

#[test]
fn placeholder_engines_construct() {
    let _ = TtsMute::new();
    let _ = AsrVoid::new();
    assert!(matches!(Task::Translate, Task::Translate));
}

fn names(list: &[&str]) -> Vec<String> {
    list.iter().map(|s| s.to_string()).collect()
}

#[test]
fn tool_calls_go_to_the_last_server_offering_them_then_the_device() {
    let servers = vec![names(&["search", "weather"]), names(&["weather"]), names(&[])];
    let device = names(&["light.set"]);
    assert_eq!(route_tool(&"weather".to_string(), &servers, Some(&device)), ToolRoute::Server(1));
    assert_eq!(route_tool(&"search".to_string(), &servers, Some(&device)), ToolRoute::Server(0));
    assert_eq!(route_tool(&"light.set".to_string(), &servers, Some(&device)), ToolRoute::Device);
    assert_eq!(route_tool(&"light.set".to_string(), &servers, None), ToolRoute::Missing);
    assert_eq!(route_tool(&"nope".to_string(), &servers, Some(&device)), ToolRoute::Missing);
    assert_eq!(
        missing_tool_message(&"nope".to_string()),
        "can't find function name = nope"
    );
}

#[test]
fn gathered_tools_list_the_device_first() {
    assert_eq!(
        gather_tools(Some(vec![1, 2]), vec![vec![3], vec![], vec![4, 5]]),
        vec![1, 2, 3, 4, 5]
    );
    assert_eq!(gather_tools(None, vec![vec![7]]), vec![7]);
    assert!(gather_tools::<u8>(None, vec![]).is_empty());
}

#[test]
fn the_direct_speech_path_skips_the_last_whole_packet() {
    assert_eq!(SAY_PACKET_SAMPLES, 1440);
    assert_eq!(say_packet_ranges(1439), vec![]);
    assert_eq!(say_packet_ranges(2880), vec![(0, 1440)]);
    assert_eq!(say_packet_ranges(5000), vec![(0, 1440), (1440, 2880)]);
}

#[test]
fn a_reply_lists_tool_calls_then_the_answer() {
    let mut reply: ReplyCollector<&str> = ReplyCollector::new();
    assert_eq!(reply.accept(ReplyEvent::Text("Hel".to_string())), None);
    assert_eq!(reply.accept(ReplyEvent::ToolCall("light.set")), None);
    assert_eq!(reply.accept(ReplyEvent::Other), None);
    assert_eq!(reply.accept(ReplyEvent::Error("oops".to_string())), Some("oops".to_string()));
    assert_eq!(reply.accept(ReplyEvent::Text("lo".to_string())), None);
    assert_eq!(reply.accept(ReplyEvent::ToolCall("light.get")), None);
    let turns: Vec<Turn<(), &str, ()>> = reply.finish();
    assert_eq!(turns.len(), 3);
    assert!(matches!(turns[0], Turn::ToolCall("light.set")));
    assert!(matches!(turns[1], Turn::ToolCall("light.get")));
    assert!(matches!(&turns[2], Turn::Answer(t) if t == "Hello"));
}

#[test]
fn an_empty_reply_adds_no_answer() {
    let reply: ReplyCollector<u8> = ReplyCollector::new();
    let turns: Vec<Turn<(), u8, ()>> = reply.finish();
    assert!(turns.is_empty());
}

#[test]
fn a_chat_step_resends_the_request_and_records_tool_results() {
    let mut chat: Conversation<&str, &str, &str> = Conversation::new(Some("be brief".to_string()));
    chat.begin_step("turn on the light");
    assert!(chat.record_reply(Turn::ToolCall("light.set"), true));
    chat.record_tool_result("ok");
    assert!(!chat.record_reply(Turn::Answer("done".to_string()), true));
    chat.begin_step("turn on the light");
    assert!(!chat.record_reply(Turn::ToolCall("light.set"), false));
    let history = chat.history();
    assert_eq!(history.len(), 6);
    assert!(matches!(history[0], Turn::Request("turn on the light")));
    assert!(matches!(history[2], Turn::ToolResult("ok")));
    assert!(matches!(history[4], Turn::Request("turn on the light")));
    assert_eq!(chat.preamble().as_deref(), Some("be brief"));
}

#[test]
fn the_encoder_is_stereo_only_for_two_channels() {
    assert_eq!(opus_channels(2), 2);
    assert_eq!(opus_channels(1), 1);
    assert_eq!(opus_channels(0), 1);
    assert_eq!(opus_channels(6), 1);
}

#[test]
fn resampling_goes_in_blocks_of_at_most_4096_samples() {
    assert_eq!(RESAMPLE_CHUNK, 4096);
    assert_eq!(resample_chunks(100), vec![(0, 100)]);
    assert_eq!(resample_chunks(4096), vec![(0, 4096)]);
    assert_eq!(resample_chunks(9000), vec![(0, 4096), (4096, 8192), (8192, 9000)]);
}

#[test]
fn packet_ranges_work_up_to_the_largest_buffer() {
    let ranges = tts_packet_ranges(usize::MAX, usize::MAX / 2 + 1);
    assert_eq!(ranges, vec![(0, usize::MAX / 2 + 1), (usize::MAX / 2 + 1, usize::MAX)]);
}

#[test]
fn round_listings_default_to_twenty_and_cap_at_a_hundred() {
    let w = ListRoundsParams { user_id: None, page: None, page_size: None }.window();
    assert_eq!(w, PageWindow { page: 1, page_size: 20 });
    assert_eq!(w.page_index(), 0);
    let w = ListRoundsParams { user_id: Some("u".to_string()), page: Some(0), page_size: Some(500) }
        .window();
    assert_eq!(w, PageWindow { page: 1, page_size: 100 });
    let w = ListRoundsParams { user_id: None, page: Some(3), page_size: Some(7) }.window();
    assert_eq!(w, PageWindow { page: 3, page_size: 7 });
    assert_eq!(w.page_index(), 2);
}

#[test]
fn frame_listings_default_to_fifty_and_cap_at_five_hundred() {
    let w = ListFramesParams { page: None, page_size: None }.window();
    assert_eq!(w, PageWindow { page: 1, page_size: 50 });
    let w = ListFramesParams { page: Some(9), page_size: Some(10_000) }.window();
    assert_eq!(w, PageWindow { page: 9, page_size: 500 });
}

#[test]
fn a_tool_call_result_is_the_text_of_its_first_piece() {
    let text = ToolContent::Text("sunny".to_string());
    assert_eq!(tool_call_result(&vec![text, ToolContent::Image]), Ok("sunny".to_string()));
    assert_eq!(
        tool_call_result(&vec![]),
        Err("call tool result must be not empty".to_string())
    );
    assert_eq!(
        tool_call_result(&vec![ToolContent::Image, ToolContent::Text("x".to_string())]),
        Err("tool call image result not supported yet".to_string())
    );
    assert_eq!(
        tool_call_result(&vec![ToolContent::Audio]),
        Err("tool call audio result not supported yet".to_string())
    );
    assert_eq!(
        tool_call_result(&vec![ToolContent::ResourceLink]),
        Err("tool call resource link result not supported yet".to_string())
    );
    assert_eq!(
        tool_call_result(&vec![ToolContent::Resource]),
        Err("tool call resource result not supported yet".to_string())
    );
}

#[test]
fn the_system_prompt_lists_tools_after_the_preamble() {
    assert_eq!(system_prompt(None, &vec![]), None);
    assert_eq!(system_prompt(Some(""), &vec![]), None);
    assert_eq!(system_prompt(Some("be brief"), &vec![]), Some("be brief".to_string()));
    let tools = vec![r#"{"name":"a"}"#.to_string(), r#"{"name":"b"}"#.to_string()];
    let expected = format!(
        "be brief# Tools\n
            You may call one or more functions to assist with the user query.\n
            You are provided with function signatures within <tools></tools> XML tags:\n
            <tools>\n
            {}
            </tools>\n
            For each function call, return a json object with function name and arguments within <tool_call></tool_call> XML tags:\n
            <tool_call>\n
            {{\"name\": <function-name>, \"arguments\": <args-json-object>}}\n
            </tool_call>\n
            ",
        "{\"name\":\"a\"}\n{\"name\":\"b\"}\n"
    );
    assert_eq!(system_prompt(Some("be brief"), &tools), Some(expected));
}

#[test]
fn an_empty_delta_is_handed_off_as_final() {
    assert_eq!(delta_handoff(""), DeltaHandoff::Final);
    assert_eq!(delta_handoff("你好"), DeltaHandoff::Incremental);
    assert_eq!(delta_handoff(" "), DeltaHandoff::Incremental);
}
