//! The data model of one recorded session line and of the messages that
//! are extracted from it.

use vstd::prelude::*;

verus! {

/// One line of a session log. Only user and assistant messages carry
/// content; every other kind of line is `Other`.
#[derive(Debug)]
pub enum SessionLine {
    User(MessageLine),
    Assistant(MessageLine),
    Other,
}

#[derive(Debug)]
pub struct MessageLine {
    pub message: MessagePayload,
}

#[derive(Debug)]
pub struct MessagePayload {
    pub content: Content,
}

/// The content of a message: either a plain string or a list of blocks.
#[derive(Debug)]
pub enum Content {
    Text(String),
    Blocks(Vec<ContentBlock>),
}

/// One block of a message's content.
#[derive(Debug)]
pub enum ContentBlock {
    Text { text: String },
    Image {},
    ToolUse {},
    ToolResult {},
    Thinking {},
    Unknown,
}

/// A message that carries displayable text, tagged with who wrote it.
#[derive(Debug)]
pub struct ExtractedMessage {
    pub role: Role,
    pub text: String,
}

#[derive(Debug, Clone, Copy, PartialEq, Eq, Structural)]
pub enum Role {
    Human,
    Assistant,
}

/// The text that stands in a rendered message for an attached image.
pub open spec fn image_placeholder() -> Seq<char> {
    "[Image attached]"@
}

/// What a single block contributes to the displayable text, if anything.
pub open spec fn block_part(b: ContentBlock) -> Option<Seq<char>> {
    match b {
        ContentBlock::Text { text } => Some(text@),
        ContentBlock::Image {  } => Some(image_placeholder()),
        _ => None,
    }
}

/// The displayable parts of a list of blocks, in order.
pub open spec fn block_parts(blocks: Seq<ContentBlock>) -> Seq<Seq<char>>
    decreases blocks.len(),
{
    if blocks.len() == 0 {
        seq![]
    } else {
        let rest = block_parts(blocks.drop_last());
        match block_part(blocks.last()) {
            Some(p) => rest.push(p),
            None => rest,
        }
    }
}

/// The parts joined with a newline between each two of them.
pub open spec fn join_lines(parts: Seq<Seq<char>>) -> Seq<char>
    decreases parts.len(),
{
    if parts.len() == 0 {
        seq![]
    } else if parts.len() == 1 {
        parts[0]
    } else {
        join_lines(parts.drop_last()) + "\n"@ + parts.last()
    }
}

/// Joining one more part appends it after a newline, or alone when it is
/// the first.
pub proof fn lemma_join_lines_push(parts: Seq<Seq<char>>, p: Seq<char>)
    ensures
        join_lines(parts.push(p)) == if parts.len() == 0 {
            p
        } else {
            join_lines(parts) + "\n"@ + p
        },
{
    assert(parts.push(p).drop_last() =~= parts);
}

/// The displayable text of a content value: a non-empty plain string as
/// it is; for blocks, the text blocks and image placeholders joined by
/// newlines; `None` when there is nothing to display.
pub open spec fn content_text(c: Content) -> Option<Seq<char>> {
    match c {
        Content::Text(s) => if s@.len() == 0 {
            None
        } else {
            Some(s@)
        },
        Content::Blocks(blocks) => {
            let parts = block_parts(blocks@);
            if parts.len() == 0 {
                None
            } else {
                Some(join_lines(parts))
            }
        },
    }
}

/// The view of an optional string.
pub open spec fn opt_string_view(o: Option<String>) -> Option<Seq<char>> {
    match o {
        Some(s) => Some(s@),
        None => None,
    }
}

impl Content {
    /// Extract displayable text from content, filtering out tool-only and
    /// thinking blocks.
    pub fn extract_text(&self) -> (r: Option<String>)
        ensures
            opt_string_view(r) == content_text(*self),
    {
        match self {
            Content::Text(s) => {
                if s.as_str().is_empty() {
                    None
                } else {
                    Some(s.clone())
                }
            },
            Content::Blocks(blocks) => {
                let mut out = String::new();
                let mut any = false;
                let n = blocks.len();
                for i in 0..n
                    invariant
                        n == blocks@.len(),
                        any == (block_parts(blocks@.take(i as int)).len() > 0),
                        out@ == join_lines(block_parts(blocks@.take(i as int))),
                {
                    proof {
                        assert(blocks@.take(i + 1).drop_last() =~= blocks@.take(i as int));
                        assert(blocks@.take(i + 1).last() == blocks@[i as int]);
                        let parts = block_parts(blocks@.take(i as int));
                        match block_part(blocks@[i as int]) {
                            Some(p) => lemma_join_lines_push(parts, p),
                            None => {},
                        }
                    }
                    match &blocks[i] {
                        ContentBlock::Text { text } => {
                            if any {
                                out.append("\n");
                            }
                            out.append(text.as_str());
                            any = true;
                        },
                        ContentBlock::Image {  } => {
                            if any {
                                out.append("\n");
                            }
                            out.append("[Image attached]");
                            any = true;
                        },
                        _ => {},
                    }
                }
                proof {
                    assert(blocks@.take(n as int) =~= blocks@);
                }
                if any {
                    Some(out)
                } else {
                    None
                }
            },
        }
    }
}

} // verus!
