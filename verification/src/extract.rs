//! Extracting the displayable messages of a session and rendering them as
//! a checkpoint document.

use vstd::prelude::*;
use crate::clock::{stamp_seconds, utc_stamp_of, utc_stamp_shaped, utc_timestamp_now};
use crate::text::{decimal, push_decimal};
use crate::types::{content_text, opt_string_view, ExtractedMessage, Role, SessionLine};

verus! {

/// Facts about one extraction, reported alongside the messages.
#[derive(Debug)]
pub struct ExtractionStats {
    pub session_name: String,
    pub source_path: String,
    pub file_size: u64,
    pub total_user: usize,
    pub total_assistant: usize,
    pub extracted: usize,
}

/// The message a session line contributes, if any: user lines become
/// human messages, assistant lines assistant messages, each only when its
/// content has displayable text.
pub open spec fn line_message(line: SessionLine) -> Option<(Role, Seq<char>)> {
    match line {
        SessionLine::User(m) => match content_text(m.message.content) {
            Some(t) => Some((Role::Human, t)),
            None => None,
        },
        SessionLine::Assistant(m) => match content_text(m.message.content) {
            Some(t) => Some((Role::Assistant, t)),
            None => None,
        },
        SessionLine::Other => None,
    }
}

/// The message a line of the log contributes; a line that could not be
/// read or parsed (`None`) contributes nothing.
pub open spec fn parsed_message(line: Option<SessionLine>) -> Option<(Role, Seq<char>)> {
    match line {
        Some(l) => line_message(l),
        None => None,
    }
}

/// Every message of the session, in order.
pub open spec fn all_messages(lines: Seq<Option<SessionLine>>) -> Seq<(Role, Seq<char>)>
    decreases lines.len(),
{
    if lines.len() == 0 {
        seq![]
    } else {
        let rest = all_messages(lines.drop_last());
        match parsed_message(lines.last()) {
            Some(m) => rest.push(m),
            None => rest,
        }
    }
}

/// The number of user lines.
pub open spec fn count_user(lines: Seq<Option<SessionLine>>) -> nat
    decreases lines.len(),
{
    if lines.len() == 0 {
        0
    } else {
        count_user(lines.drop_last()) + if lines.last() matches Some(SessionLine::User(_)) {
            1nat
        } else {
            0nat
        }
    }
}

/// The number of assistant lines.
pub open spec fn count_assistant(lines: Seq<Option<SessionLine>>) -> nat
    decreases lines.len(),
{
    if lines.len() == 0 {
        0
    } else {
        count_assistant(lines.drop_last()) + if lines.last() matches Some(
            SessionLine::Assistant(_),
        ) {
            1nat
        } else {
            0nat
        }
    }
}

/// The last `n` elements of `s`, or all of them when there are fewer.
pub open spec fn keep_last<A>(s: Seq<A>, n: nat) -> Seq<A> {
    if s.len() > n {
        s.subrange(s.len() - n, s.len() as int)
    } else {
        s
    }
}

/// The view of an extracted message: its role and text.
pub open spec fn message_view(m: ExtractedMessage) -> (Role, Seq<char>) {
    (m.role, m.text@)
}

/// The views of a list of extracted messages.
pub open spec fn message_views(ms: Seq<ExtractedMessage>) -> Seq<(Role, Seq<char>)> {
    ms.map_values(|m: ExtractedMessage| message_view(m))
}

/// Extract the last `last_n` human and assistant messages that carry
/// displayable text from the lines of a session log, and count the user
/// and assistant lines seen on the way. A line that could not be read or
/// parsed is given as `None` and skipped.
pub fn extract_from_lines(
    lines: &[Option<SessionLine>],
    last_n: usize,
    session_name: String,
    source_path: String,
    file_size: u64,
) -> (r: (Vec<ExtractedMessage>, ExtractionStats))
    ensures
        message_views(r.0@) == keep_last(all_messages(lines@), last_n as nat),
        r.1.total_user == count_user(lines@),
        r.1.total_assistant == count_assistant(lines@),
        r.1.extracted == r.0@.len(),
        r.1.session_name == session_name,
        r.1.source_path == source_path,
        r.1.file_size == file_size,
{
    let mut messages: Vec<ExtractedMessage> = Vec::new();
    let mut total_user: usize = 0;
    let mut total_assistant: usize = 0;
    let n = lines.len();
    for i in 0..n
        invariant
            n == lines@.len(),
            message_views(messages@) == all_messages(lines@.take(i as int)),
            total_user == count_user(lines@.take(i as int)),
            total_assistant == count_assistant(lines@.take(i as int)),
            total_user <= i,
            total_assistant <= i,
    {
        proof {
            assert(lines@.take(i + 1).drop_last() =~= lines@.take(i as int));
            assert(lines@.take(i + 1).last() == lines@[i as int]);
        }
        match &lines[i] {
            Some(SessionLine::User(msg)) => {
                total_user = total_user + 1;
                if let Some(text) = msg.message.content.extract_text() {
                    let m = ExtractedMessage { role: Role::Human, text };
                    proof {
                        assert(message_views(messages@.push(m)) =~= message_views(messages@).push(
                            message_view(m),
                        ));
                    }
                    messages.push(m);
                }
            },
            Some(SessionLine::Assistant(msg)) => {
                total_assistant = total_assistant + 1;
                if let Some(text) = msg.message.content.extract_text() {
                    let m = ExtractedMessage { role: Role::Assistant, text };
                    proof {
                        assert(message_views(messages@.push(m)) =~= message_views(messages@).push(
                            message_view(m),
                        ));
                    }
                    messages.push(m);
                }
            },
            _ => {},
        }
    }
    proof {
        assert(lines@.take(n as int) =~= lines@);
    }
    let ghost all = message_views(messages@);
    if messages.len() > last_n {
        let start = messages.len() - last_n;
        messages = messages.split_off(start);
        proof {
            assert(message_views(messages@) =~= all.subrange(
                all.len() - last_n as nat,
                all.len() as int,
            ));
        }
    }
    let extracted = messages.len();
    let stats = ExtractionStats {
        session_name,
        source_path,
        file_size,
        total_user,
        total_assistant,
        extracted,
    };
    (messages, stats)
}

/// The opening of the checkpoint up to the placement of the timestamp.
pub open spec fn header_open() -> Seq<char> {
    "# Context Checkpoint\n- **Created:** "@
}

/// The text between the sections of the header, and its closing: the
/// summary placeholder that is filled in later, and the heading of the
/// raw messages.
pub open spec fn header_summary() -> Seq<char> {
    "\n\n> The SUMMARY section is a structured overview. The RAW MESSAGES section\n> contains verbatim conversation history. Both are needed for full restoration.\n\n---\n\n## Summary\n\n<!-- The assistant will fill this section during /checkpoint -->\n[PENDING — assistant generates this]\n\n---\n\n## Raw Messages (Last "@
}

/// The header of a checkpoint.
pub open spec fn checkpoint_header(
    timestamp: Seq<char>,
    session: Seq<char>,
    source: Seq<char>,
    last_n: nat,
) -> Seq<char> {
    header_open() + timestamp + "\n- **Session:** "@ + session
        + "\n- **Messages preserved:** last ~"@ + decimal(last_n) + " exchanges\n- **Source:** "@
        + source + header_summary() + decimal(last_n) + ")\n\n"@
}

/// The heading of a message by its role.
pub open spec fn role_heading(role: Role) -> Seq<char> {
    match role {
        Role::Human => "## Human"@,
        Role::Assistant => "## Assistant"@,
    }
}

/// One rendered message.
pub open spec fn message_block(m: (Role, Seq<char>)) -> Seq<char> {
    "---\n\n"@ + role_heading(m.0) + "\n\n"@ + m.1 + "\n"@
}

/// The rendered messages, in order.
pub open spec fn message_blocks(ms: Seq<(Role, Seq<char>)>) -> Seq<char>
    decreases ms.len(),
{
    if ms.len() == 0 {
        seq![]
    } else {
        message_blocks(ms.drop_last()) + message_block(ms.last())
    }
}

/// The closing instructions of a checkpoint.
pub open spec fn checkpoint_footer() -> Seq<char> {
    "\n---\n\n## Restoration Instructions\n\nWhen restoring from this checkpoint:\n1. Read this entire file\n2. The SUMMARY gives you the arc — decisions, files, patterns, what was being worked on\n3. The RAW MESSAGES give you the exact state — continue from the last message as if the conversation never stopped\n4. Do NOT re-summarize or acknowledge the restoration. Just pick up where we left off.\n"@
}

/// The whole checkpoint document.
pub open spec fn checkpoint_text(
    ms: Seq<(Role, Seq<char>)>,
    session: Seq<char>,
    source: Seq<char>,
    last_n: nat,
    timestamp: Seq<char>,
) -> Seq<char> {
    checkpoint_header(timestamp, session, source, last_n) + message_blocks(ms) + checkpoint_footer()
}

/// Render extracted messages into the checkpoint format, with `timestamp`
/// as its creation time.
pub fn render_checkpoint_at(
    messages: &[ExtractedMessage],
    stats: &ExtractionStats,
    last_n: usize,
    timestamp: &str,
) -> (out: String)
    ensures
        out@ == checkpoint_text(
            message_views(messages@),
            stats.session_name@,
            stats.source_path@,
            last_n as nat,
            timestamp@,
        ),
{
    let mut out = String::from_str("# Context Checkpoint\n- **Created:** ");
    out.append(timestamp);
    out.append("\n- **Session:** ");
    out.append(stats.session_name.as_str());
    out.append("\n- **Messages preserved:** last ~");
    push_decimal(&mut out, last_n as u128);
    out.append(" exchanges\n- **Source:** ");
    out.append(stats.source_path.as_str());
    out.append(
        "\n\n> The SUMMARY section is a structured overview. The RAW MESSAGES section\n> contains verbatim conversation history. Both are needed for full restoration.\n\n---\n\n## Summary\n\n<!-- The assistant will fill this section during /checkpoint -->\n[PENDING — assistant generates this]\n\n---\n\n## Raw Messages (Last ",
    );
    push_decimal(&mut out, last_n as u128);
    out.append(")\n\n");
    let ghost header = out@;
    assert(header =~= checkpoint_header(
        timestamp@,
        stats.session_name@,
        stats.source_path@,
        last_n as nat,
    ));
    let n = messages.len();
    for i in 0..n
        invariant
            n == messages@.len(),
            out@ == header + message_blocks(message_views(messages@.take(i as int))),
    {
        let m = &messages[i];
        let ghost before = out@;
        out.append("---\n\n");
        match m.role {
            Role::Human => out.append("## Human"),
            Role::Assistant => out.append("## Assistant"),
        }
        out.append("\n\n");
        out.append(m.text.as_str());
        out.append("\n");
        proof {
            let prefix = message_views(messages@.take(i as int));
            let next = message_views(messages@.take(i + 1));
            assert(messages@.take(i + 1).drop_last() =~= messages@.take(i as int));
            assert(next =~= prefix.push(message_view(messages@[i as int])));
            assert(next.drop_last() =~= prefix);
            assert(out@ =~= before + message_block(message_view(messages@[i as int])));
        }
    }
    proof {
        assert(messages@.take(n as int) =~= messages@);
    }
    out.append(
        "\n---\n\n## Restoration Instructions\n\nWhen restoring from this checkpoint:\n1. Read this entire file\n2. The SUMMARY gives you the arc — decisions, files, patterns, what was being worked on\n3. The RAW MESSAGES give you the exact state — continue from the last message as if the conversation never stopped\n4. Do NOT re-summarize or acknowledge the restoration. Just pick up where we left off.\n",
    );
    proof {
        assert(out@ =~= checkpoint_text(
            message_views(messages@),
            stats.session_name@,
            stats.source_path@,
            last_n as nat,
            timestamp@,
        ));
    }
    out
}

/// Render extracted messages into the checkpoint format, stamped with the
/// current UTC time: the document is the one `render_checkpoint_at`
/// renders for a timestamp of the shape `YYYY-MM-DDTHH:MM:SSZ`: the text
/// chrono formats for the `stamp_instant` of a clock reading.
pub fn render_checkpoint(messages: &[ExtractedMessage], stats: &ExtractionStats, last_n: usize) -> (out:
    String)
    ensures
        exists|timestamp: Seq<char>|
            {
                &&& utc_stamp_shaped(timestamp)
                &&& exists|after: bool, secs: u64, nanos: u32|
                    utc_stamp_of(stamp_seconds(after, secs as nat, nanos as nat)) == Some(timestamp)
                &&& out@ == checkpoint_text(
                    message_views(messages@),
                    stats.session_name@,
                    stats.source_path@,
                    last_n as nat,
                    timestamp,
                )
            },
{
    let timestamp = utc_timestamp_now();
    render_checkpoint_at(messages, stats, last_n, timestamp.as_str())
}

/// The path a checkpoint is written to when none is given: named after
/// the local time of writing, formatted as `YYYYMMDD-HHMMSS`.
pub fn default_output_path(local_timestamp: &str) -> (r: String)
    ensures
        r@ == "/tmp/checkpoint-"@ + local_timestamp@ + ".md"@,
{
    let mut out = String::from_str("/tmp/checkpoint-");
    out.append(local_timestamp);
    out.append(".md");
    out
}

/// Names the file stem that `std::path::Path::file_stem` returns for a
/// path: its final component without the extension.
pub uninterp spec fn path_file_stem(path: Seq<char>) -> Option<Seq<char>>;

/// Calls `std::path::Path::file_stem`: the result is the named stem. The
/// path is valid UTF-8 and the stem is a part of it cut at a separator or a
/// dot, so the conversion back to a string loses nothing.
#[verifier::external_body]
fn file_stem_of(path: &str) -> (r: Option<String>)
    ensures
        opt_string_view(r) == path_file_stem(path@),
{
    match std::path::Path::new(path).file_stem() {
        Some(s) => Some(s.to_string_lossy().into_owned()),
        None => None,
    }
}

/// The name a session is reported under, its log's file stem (empty when
/// the path has none), and the path the log was read from.
pub fn session_labels(session_path: &str) -> (r: (String, String))
    ensures
        r.0@ == match path_file_stem(session_path@) {
            Some(stem) => stem,
            None => Seq::<char>::empty(),
        },
        r.1@ == session_path@,
{
    let name = match file_stem_of(session_path) {
        Some(stem) => stem,
        None => String::new(),
    };
    (name, String::from_str(session_path))
}

} // verus!
