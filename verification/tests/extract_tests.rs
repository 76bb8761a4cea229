use session_checkpoint::clock::{epoch_seconds, utc_timestamp_now};
use session_checkpoint::extract::{
    default_output_path, extract_from_lines, session_labels, render_checkpoint, render_checkpoint_at,
    ExtractionStats,
};
use session_checkpoint::types::{
    Content, ContentBlock, ExtractedMessage, MessageLine, MessagePayload, Role, SessionLine,
};

fn user_text(t: &str) -> Option<SessionLine> {
    Some(SessionLine::User(MessageLine {
        message: MessagePayload { content: Content::Text(t.to_string()) },
    }))
}

fn user_blocks(blocks: Vec<ContentBlock>) -> Option<SessionLine> {
    Some(SessionLine::User(MessageLine { message: MessagePayload { content: Content::Blocks(blocks) } }))
}

fn assistant_blocks(blocks: Vec<ContentBlock>) -> Option<SessionLine> {
    Some(SessionLine::Assistant(MessageLine {
        message: MessagePayload { content: Content::Blocks(blocks) },
    }))
}

fn text(t: &str) -> ContentBlock {
    ContentBlock::Text { text: t.to_string() }
}

fn extract(lines: &[Option<SessionLine>], last_n: usize) -> (Vec<ExtractedMessage>, ExtractionStats) {
    extract_from_lines(lines, last_n, "s".to_string(), "/tmp/s.jsonl".to_string(), 0)
}

#[test]
fn test_extract_basic_messages() {
    let lines = vec![user_text("hello"), assistant_blocks(vec![text("hi there")])];
    let (msgs, stats) = extract(&lines, 100);
    assert_eq!(msgs.len(), 2);
    assert_eq!(msgs[0].role, Role::Human);
    assert_eq!(msgs[0].text, "hello");
    assert_eq!(msgs[1].role, Role::Assistant);
    assert_eq!(msgs[1].text, "hi there");
    assert_eq!(stats.total_user, 1);
    assert_eq!(stats.total_assistant, 1);
}

#[test]
fn test_tool_only_messages_filtered() {
    let lines = vec![
        user_text("hello"),
        assistant_blocks(vec![ContentBlock::ToolUse {}]),
        user_blocks(vec![ContentBlock::ToolResult {}]),
        assistant_blocks(vec![text("done")]),
    ];
    let (msgs, stats) = extract(&lines, 100);
    assert_eq!(msgs.len(), 2);
    assert_eq!(msgs[0].text, "hello");
    assert_eq!(msgs[1].text, "done");
    assert_eq!(stats.total_user, 2);
    assert_eq!(stats.total_assistant, 2);
}

#[test]
fn test_last_n_truncation() {
    let lines = vec![
        user_text("first"),
        assistant_blocks(vec![text("one")]),
        user_text("second"),
        assistant_blocks(vec![text("two")]),
        user_text("third"),
        assistant_blocks(vec![text("three")]),
    ];
    let (msgs, _) = extract(&lines, 2);
    assert_eq!(msgs.len(), 2);
    assert_eq!(msgs[0].text, "third");
    assert_eq!(msgs[1].text, "three");
}

// {"type":"file-history-snapshot",...} and {"type":"system",...} are `Other` lines.
#[test]
fn test_skips_non_message_lines() {
    let lines = vec![Some(SessionLine::Other), user_text("hello"), Some(SessionLine::Other)];
    let (msgs, stats) = extract(&lines, 100);
    assert_eq!(msgs.len(), 1);
    assert_eq!(stats.total_user, 1);
    assert_eq!(stats.total_assistant, 0);
}

// Lines that do not parse ("not valid json", "{\"broken") are given as `None`.
#[test]
fn test_skips_malformed_lines() {
    let lines = vec![None, user_text("hello"), None];
    let (msgs, _) = extract(&lines, 100);
    assert_eq!(msgs.len(), 1);
}

#[test]
fn test_thinking_blocks_excluded() {
    let lines = vec![assistant_blocks(vec![ContentBlock::Thinking {}, text("visible")])];
    let (msgs, _) = extract(&lines, 100);
    assert_eq!(msgs.len(), 1);
    assert_eq!(msgs[0].text, "visible");
}

fn sample_stats() -> ExtractionStats {
    ExtractionStats {
        session_name: "test-session".to_string(),
        source_path: "/tmp/test.jsonl".to_string(),
        file_size: 1024,
        total_user: 1,
        total_assistant: 1,
        extracted: 2,
    }
}

fn sample_messages() -> Vec<ExtractedMessage> {
    vec![
        ExtractedMessage { role: Role::Human, text: "hello".to_string() },
        ExtractedMessage { role: Role::Assistant, text: "hi".to_string() },
    ]
}

#[test]
fn test_render_checkpoint_structure() {
    let messages = sample_messages();
    let stats = sample_stats();
    let output = render_checkpoint(&messages, &stats, 100);
    assert!(output.contains("# Context Checkpoint"));
    assert!(output.contains("test-session"));
    assert!(output.contains("## Human"));
    assert!(output.contains("hello"));
    assert!(output.contains("## Assistant"));
    assert!(output.contains("hi"));
    assert!(output.contains("Restoration Instructions"));
}

#[test]
fn render_at_fixed_time_is_exact() {
    let output = render_checkpoint_at(&sample_messages(), &sample_stats(), 100, "2026-04-27T10:00:00Z");
    let expected = "# Context Checkpoint\n\
- **Created:** 2026-04-27T10:00:00Z\n\
- **Session:** test-session\n\
- **Messages preserved:** last ~100 exchanges\n\
- **Source:** /tmp/test.jsonl\n\
\n\
> The SUMMARY section is a structured overview. The RAW MESSAGES section\n\
> contains verbatim conversation history. Both are needed for full restoration.\n\
\n\
---\n\
\n\
## Summary\n\
\n\
<!-- The assistant will fill this section during /checkpoint -->\n\
[PENDING — assistant generates this]\n\
\n\
---\n\
\n\
## Raw Messages (Last 100)\n\n\
---\n\n## Human\n\nhello\n\
---\n\n## Assistant\n\nhi\n\
\n---\n\n\
## Restoration Instructions\n\
\n\
When restoring from this checkpoint:\n\
1. Read this entire file\n\
2. The SUMMARY gives you the arc — decisions, files, patterns, what was being worked on\n\
3. The RAW MESSAGES give you the exact state — continue from the last message as if the conversation never stopped\n\
4. Do NOT re-summarize or acknowledge the restoration. Just pick up where we left off.\n";
    assert_eq!(output, expected);
}

#[test]
fn clock_reading_rounds_down_to_whole_seconds() {
    assert_eq!(epoch_seconds(true, 1_700_000_000, 999_999_999), Some(1_700_000_000));
    assert_eq!(epoch_seconds(false, 5, 0), Some(-5));
    assert_eq!(epoch_seconds(false, 5, 1), Some(-6));
    assert_eq!(epoch_seconds(false, 1u64 << 63, 0), Some(i64::MIN));
    assert_eq!(epoch_seconds(false, 1u64 << 63, 1), None);
    assert_eq!(epoch_seconds(true, 1u64 << 63, 0), None);
}

#[test]
fn current_timestamp_has_utc_shape() {
    let ts = utc_timestamp_now();
    assert_eq!(ts.len(), 20);
    for (i, c) in ts.chars().enumerate() {
        match i {
            4 | 7 => assert_eq!(c, '-'),
            10 => assert_eq!(c, 'T'),
            13 | 16 => assert_eq!(c, ':'),
            19 => assert_eq!(c, 'Z'),
            _ => assert!(c.is_ascii_digit(), "{ts}"),
        }
    }
}

#[test]
fn render_current_time_has_utc_stamp_shape() {
    let output = render_checkpoint(&[], &sample_stats(), 7);
    let line = output.lines().nth(1).unwrap();
    let stamp = line.strip_prefix("- **Created:** ").unwrap();
    assert_eq!(stamp.len(), 20);
    assert!(stamp.ends_with('Z'));
    assert_eq!(&stamp[10..11], "T");
    assert!(output.contains("## Raw Messages (Last 7)\n\n\n---\n\n## Restoration"));
}

#[test]
fn last_n_zero_keeps_nothing_but_counts_everything() {
    let lines = vec![user_text("a"), assistant_blocks(vec![text("b")])];
    let (msgs, stats) = extract(&lines, 0);
    assert!(msgs.is_empty());
    assert_eq!(stats.extracted, 0);
    assert_eq!(stats.total_user, 1);
    assert_eq!(stats.total_assistant, 1);
}

#[test]
fn stats_carry_names_and_count_extracted() {
    let lines = vec![user_text("a"), user_text(""), assistant_blocks(vec![text("b")]), user_text("c")];
    let (msgs, stats) =
        extract_from_lines(&lines, 2, "name".to_string(), "/p/name.jsonl".to_string(), 4096);
    assert_eq!(msgs.len(), 2);
    assert_eq!(msgs[0].text, "b");
    assert_eq!(msgs[1].text, "c");
    assert_eq!(stats.extracted, 2);
    assert_eq!(stats.total_user, 3);
    assert_eq!(stats.total_assistant, 1);
    assert_eq!(stats.session_name, "name");
    assert_eq!(stats.source_path, "/p/name.jsonl");
    assert_eq!(stats.file_size, 4096);
}

#[test]
fn default_output_path_format() {
    assert_eq!(default_output_path("20260427-101500"), "/tmp/checkpoint-20260427-101500.md");
}

#[test]
fn session_labels_use_the_file_stem() {
    let (name, source) = session_labels("/home/u/projects/-a/1111-22.jsonl");
    assert_eq!(name, "1111-22");
    assert_eq!(source, "/home/u/projects/-a/1111-22.jsonl");
    let (name, _) = session_labels("/home/u/archive.tar.gz");
    assert_eq!(name, "archive.tar");
    let (name, _) = session_labels("/");
    assert_eq!(name, "");
}
