use session_checkpoint::extract::extract_from_lines;
use session_checkpoint::types::{
    Content, ContentBlock, MessageLine, MessagePayload, SessionLine,
};

fn text_block(t: &str) -> ContentBlock {
    ContentBlock::Text { text: t.to_string() }
}

fn line_user(content: Content) -> SessionLine {
    SessionLine::User(MessageLine { message: MessagePayload { content } })
}

fn line_assistant(content: Content) -> SessionLine {
    SessionLine::Assistant(MessageLine { message: MessagePayload { content } })
}

// {"type":"user","message":{"content":"hello world"}}
#[test]
fn test_parse_user_string_content() {
    let line = line_user(Content::Text("hello world".to_string()));
    match line {
        SessionLine::User(msg) => {
            assert_eq!(msg.message.content.extract_text().unwrap(), "hello world");
        }
        _ => panic!("expected User"),
    }
}

// {"type":"user","message":{"content":[{"type":"text","text":"hello"},{"type":"text","text":"world"}]}}
#[test]
fn test_parse_user_array_content() {
    let line = line_user(Content::Blocks(vec![text_block("hello"), text_block("world")]));
    match line {
        SessionLine::User(msg) => {
            assert_eq!(msg.message.content.extract_text().unwrap(), "hello\nworld");
        }
        _ => panic!("expected User"),
    }
}

// {"type":"assistant","message":{"content":[{"type":"text","text":"response here"}]}}
#[test]
fn test_parse_assistant_text_blocks() {
    let line = line_assistant(Content::Blocks(vec![text_block("response here")]));
    match line {
        SessionLine::Assistant(msg) => {
            assert_eq!(msg.message.content.extract_text().unwrap(), "response here");
        }
        _ => panic!("expected Assistant"),
    }
}

// {"type":"assistant","message":{"content":[{"type":"tool_use"}]}}
#[test]
fn test_tool_only_assistant_returns_none() {
    let line = line_assistant(Content::Blocks(vec![ContentBlock::ToolUse {}]));
    match line {
        SessionLine::Assistant(msg) => {
            assert!(msg.message.content.extract_text().is_none());
        }
        _ => panic!("expected Assistant"),
    }
}

// {"type":"assistant","message":{"content":[{"type":"thinking"},{"type":"text","text":"visible"}]}}
#[test]
fn test_thinking_block_filtered() {
    let line = line_assistant(Content::Blocks(vec![ContentBlock::Thinking {}, text_block("visible")]));
    match line {
        SessionLine::Assistant(msg) => {
            assert_eq!(msg.message.content.extract_text().unwrap(), "visible");
        }
        _ => panic!("expected Assistant"),
    }
}

// {"type":"user","message":{"content":[{"type":"image"},{"type":"text","text":"check this"}]}}
#[test]
fn test_image_block_placeholder() {
    let line = line_user(Content::Blocks(vec![ContentBlock::Image {}, text_block("check this")]));
    match line {
        SessionLine::User(msg) => {
            let text = msg.message.content.extract_text().unwrap();
            assert!(text.contains("[Image attached]"));
            assert!(text.contains("check this"));
        }
        _ => panic!("expected User"),
    }
}

// {"type":"file-history-snapshot","snapshot":{}} decodes to `Other`, which
// yields no message and counts as neither a user nor an assistant line.
#[test]
fn test_other_line_types_skipped() {
    let line = SessionLine::Other;
    assert!(matches!(line, SessionLine::Other));
    let (msgs, stats) =
        extract_from_lines(&[Some(line)], 100, "s".to_string(), "/tmp/s.jsonl".to_string(), 0);
    assert!(msgs.is_empty());
    assert_eq!(stats.total_user, 0);
    assert_eq!(stats.total_assistant, 0);
    assert_eq!(stats.extracted, 0);
}

// {"type":"user","message":{"content":[{"type":"tool_result"}]}}
#[test]
fn test_tool_result_user_returns_none() {
    let line = line_user(Content::Blocks(vec![ContentBlock::ToolResult {}]));
    match line {
        SessionLine::User(msg) => {
            assert!(msg.message.content.extract_text().is_none());
        }
        _ => panic!("expected User"),
    }
}

// {"type":"user","message":{"content":""}}
#[test]
fn test_empty_string_content_returns_none() {
    let line = line_user(Content::Text(String::new()));
    match line {
        SessionLine::User(msg) => {
            assert!(msg.message.content.extract_text().is_none());
        }
        _ => panic!("expected User"),
    }
}

#[test]
fn image_placeholder_joined_with_newline() {
    let c = Content::Blocks(vec![ContentBlock::Image {}, text_block("check this")]);
    assert_eq!(c.extract_text().unwrap(), "[Image attached]\ncheck this");
}

#[test]
fn unknown_and_tool_blocks_between_texts_leave_one_newline() {
    let c = Content::Blocks(vec![
        text_block("a"),
        ContentBlock::ToolUse {},
        ContentBlock::Unknown,
        ContentBlock::ToolResult {},
        text_block("b"),
    ]);
    assert_eq!(c.extract_text().unwrap(), "a\nb");
}

#[test]
fn empty_text_block_still_counts_as_a_part() {
    let c = Content::Blocks(vec![text_block(""), text_block("x")]);
    assert_eq!(c.extract_text().unwrap(), "\nx");
    let only_empty = Content::Blocks(vec![text_block("")]);
    assert_eq!(only_empty.extract_text().unwrap(), "");
}

#[test]
fn no_blocks_returns_none() {
    assert!(Content::Blocks(vec![]).extract_text().is_none());
}
