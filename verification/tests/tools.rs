use inferenco_mcp::dto::{CedraDocsArgs, DiceArgs, EchoArgs, ReverseArgs};
use inferenco_mcp::tools::{CallToolResult, Content, FetchEvent, ToolService};

fn text_output(result: CallToolResult) -> String {
    result
        .content
        .into_iter()
        .find_map(|content| match content {
            Content::Text(text) => Some(text),
            _ => None,
        })
        .expect("tool result to contain text")
}

#[test]
fn reverse_text_returns_reversed_string() {
    let service = ToolService::new();
    let output = service
        .reverse_text(ReverseArgs {
            text: "Inferenco".to_string(),
        })
        .expect("tool to succeed");

    assert_eq!(text_output(output), "ocnerefnI");
}

#[test]
fn current_time_emits_rfc3339_timestamp() {
    let service = ToolService::new();
    let output = service.current_time().expect("tool to produce a timestamp");

    let text = text_output(output);
    assert!(
        text.contains('T'),
        "timestamp missing RFC3339 separator: {text}"
    );
    let parsed =
        chrono::DateTime::parse_from_rfc3339(&text).expect("timestamp should parse as RFC3339");
    assert_eq!(
        parsed.offset().local_minus_utc(),
        0,
        "timestamp should be UTC: {text}"
    );
}

#[test]
fn roll_dice_respects_requested_sides() {
    let service = ToolService::new();
    let sides = 12;
    let output = service
        .roll_dice(DiceArgs { sides })
        .expect("tool to roll successfully");

    let text = text_output(output);
    let parts: Vec<_> = text.split_whitespace().collect();
    assert_eq!(parts.len(), 5, "unexpected dice output format: {text}");
    assert_eq!(parts[0], "Rolled");
    let value: u8 = parts[1].parse().expect("rolled value should be a number");
    let reported_sides: u8 = parts[4]
        .trim_start_matches('d')
        .parse()
        .expect("sides suffix should parse");

    assert_eq!(reported_sides, sides);
    assert!((1..=sides).contains(&value), "roll {value} outside bounds");
}

#[test]
fn roll_dice_enforces_minimum_of_two_sides() {
    let service = ToolService::new();
    let output = service
        .roll_dice(DiceArgs { sides: 1 })
        .expect("tool to roll successfully");

    let text = text_output(output);
    let reported_sides: u8 = text
        .split_whitespace()
        .last()
        .and_then(|suffix| suffix.trim_start_matches('d').parse().ok())
        .expect("output should contain die size");
    assert_eq!(reported_sides, 2);
}

#[test]
fn build_docs_url_rejects_absolute_urls() {
    let service = ToolService::new();
    let result = service.build_docs_url("https://example.com/page");
    assert!(result.is_err());
}

#[test]
fn build_docs_url_accepts_relative_paths() {
    let service = ToolService::new();
    let url = service
        .build_docs_url("guides/quickstart")
        .expect("relative path should be accepted");

    assert_eq!(url.as_str(), "https://docs.cedra.network/guides/quickstart");
}

#[test]
fn summarize_text_truncates_long_strings() {
    let long_text = "abc".repeat(500);
    let summarized = ToolService::summarize_text(&long_text, 50);

    assert!(summarized.len() <= 50);
    assert!(summarized.ends_with("..."));
}

#[test]
fn echo_returns_message_unchanged() {
    let service = ToolService::new();
    let output = service
        .echo(EchoArgs {
            message: "hello there".to_string(),
        })
        .expect("tool to succeed");
    assert_eq!(text_output(output), "hello there");
}

#[test]
fn reverse_text_keeps_multibyte_characters_whole() {
    let service = ToolService::new();
    let output = service
        .reverse_text(ReverseArgs {
            text: "ab\u{e9}cd".to_string(),
        })
        .expect("tool to succeed");
    assert_eq!(text_output(output), "dc\u{e9}ba");
}

#[test]
fn reverse_twice_gives_back_the_original() {
    let service = ToolService::new();
    let original = "round trip \u{1f980} text";
    let once = text_output(
        service
            .reverse_text(ReverseArgs {
                text: original.to_string(),
            })
            .expect("tool to succeed"),
    );
    let twice = text_output(
        service
            .reverse_text(ReverseArgs { text: once })
            .expect("tool to succeed"),
    );
    assert_eq!(twice, original);
}

#[test]
fn increment_counts_up_from_one_without_duplicates() {
    let mut service = ToolService::new();
    let mut seen = Vec::new();
    for expected in 1..=5u32 {
        let output = service.increment().expect("increment to succeed");
        let text = text_output(output);
        assert_eq!(text, expected.to_string());
        assert!(!seen.contains(&text), "duplicate increment value {text}");
        seen.push(text);
    }
    assert_eq!(service.counter, 5);
}

#[test]
fn summarize_text_returns_short_strings_unchanged() {
    assert_eq!(ToolService::summarize_text("abc", 50), "abc");
    assert_eq!(ToolService::summarize_text("hello world", 8), "hello...");
}

#[test]
fn build_docs_url_trims_and_deduplicates_slashes() {
    let service = ToolService::new();
    let url = service
        .build_docs_url("  //guides/quickstart ")
        .expect("relative path should be accepted");
    assert_eq!(url.as_str(), "https://docs.cedra.network/guides/quickstart");
    assert!(service.build_docs_url(" http://example.com ").is_err());
}

#[test]
fn extract_text_prefers_the_main_region() {
    let html = "<html><body><p>nav junk</p><main>Hello   <b>docs</b>\n world</main></body></html>";
    let text = ToolService::extract_text_from_html(html);
    assert_eq!(text, "Hello docs world");
}

#[test]
fn extract_text_falls_back_to_whole_document() {
    let html = "<html><body><p>only   paragraphs</p></body></html>";
    let text = ToolService::extract_text_from_html(html);
    assert_eq!(text, "only paragraphs");
}

#[test]
fn docs_response_reports_each_failure_kind() {
    let url = "https://docs.cedra.network/guides/quickstart";
    let err = ToolService::docs_response(url, FetchEvent::ConnectFailed("timed out".to_string()))
        .expect_err("transport failure should error");
    assert_eq!(err.code, -32603);
    assert_eq!(err.message, "Failed to fetch Cedra docs: timed out");

    let err = ToolService::docs_response(url, FetchEvent::Response(404, String::new()))
        .expect_err("bad status should error");
    assert_eq!(err.code, -32603);
    assert_eq!(err.message, "Cedra docs returned status 404");

    let err = ToolService::docs_response(url, FetchEvent::ReadFailed("broken body".to_string()))
        .expect_err("unreadable body should error");
    assert_eq!(err.code, -32603);
    assert_eq!(err.message, "broken body");
}

#[test]
fn docs_response_summarizes_a_fetched_page() {
    let url = "https://docs.cedra.network/guides/quickstart";
    let html = "<html><body><main>Quick   start</main></body></html>";
    let output = ToolService::docs_response(url, FetchEvent::Response(200, html.to_string()))
        .expect("success status should succeed");
    assert_eq!(
        text_output(output),
        "Source: https://docs.cedra.network/guides/quickstart\n\nQuick start"
    );
}

#[test]
fn dice_args_default_to_six_sides() {
    assert_eq!(DiceArgs::default_sides(), 6);
    let args = inferenco_mcp::dto::read_dice_args(&inferenco_mcp::json::jobj0())
        .expect("empty arguments should use the default");
    assert_eq!(args.sides, 6);
}

#[test]
fn docs_args_require_a_string_path() {
    let args = inferenco_mcp::json::jobj1("path", inferenco_mcp::json::jstr("guides"));
    let read = inferenco_mcp::dto::read_docs_args(&args).expect("string path accepted");
    assert_eq!(read.path, "guides");
    let bad = inferenco_mcp::json::jobj1("path", inferenco_mcp::json::jint(3));
    assert!(inferenco_mcp::dto::read_docs_args(&bad).is_none());
}

#[test]
fn read_cedra_docs_names_the_url_to_fetch() {
    let service = ToolService::new();
    let url = service
        .read_cedra_docs(&CedraDocsArgs {
            path: "guides".to_string(),
        })
        .expect("relative path should be accepted");
    assert_eq!(url, "https://docs.cedra.network/guides");
    let err = service
        .read_cedra_docs(&CedraDocsArgs {
            path: "https://example.com".to_string(),
        })
        .expect_err("absolute URLs are rejected");
    assert_eq!(err.code, -32602);
}
