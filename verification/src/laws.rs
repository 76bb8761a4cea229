//! Properties of the library that span its functions, proved over the
//! specifications their contracts are written in.

use vstd::prelude::*;
use crate::extract::{
    all_messages, count_assistant, count_user, keep_last, line_message, message_blocks,
};
use crate::session::{
    dir_prefix, session_file_name,
    ancestors, first_marked, in_subagents, is_ascii_alnum, is_session_log, mangled, newest_index,
    path_parent_result, pinned_id, project_dir, project_dirs, resolved, session_id_paths,
    valid_session_id, first_listed, first_named, is_log_named, listing_session, WalkEntry, SessionProbes,
};
use crate::size::{round_half_even, size_text, KIB, MIB};
use crate::text::decimal;
use crate::types::{
    block_part, block_parts, content_text, Content, ContentBlock, MessageLine, Role, SessionLine,
};

verus! {

/// A checkpoint keeps exactly `min(total, n)` messages, and they are the
/// final ones of the session in their original order.
pub proof fn law_keep_last_is_final_suffix<A>(s: Seq<A>, n: nat)
    ensures
        keep_last(s, n).len() == if s.len() < n {
            s.len()
        } else {
            n
        },
        forall|i: int|
            0 <= i < keep_last(s, n).len() ==> #[trigger] keep_last(s, n)[i] == s[s.len()
                - keep_last(s, n).len() + i],
{
}

/// Every extracted message comes from a user or assistant line, so there
/// are never more messages than such lines.
pub proof fn law_messages_bounded_by_lines(lines: Seq<Option<SessionLine>>)
    ensures
        all_messages(lines).len() <= count_user(lines) + count_assistant(lines),
    decreases lines.len(),
{
    if lines.len() > 0 {
        law_messages_bounded_by_lines(lines.drop_last());
    }
}

/// Content made only of tool calls, tool results, thinking and unknown
/// blocks has no displayable text: such a message is dropped.
pub proof fn law_tool_only_content_is_dropped(blocks: Seq<ContentBlock>)
    requires
        forall|i: int| 0 <= i < blocks.len() ==> block_part(#[trigger] blocks[i]) is None,
    ensures
        block_parts(blocks) == Seq::<Seq<char>>::empty(),
    decreases blocks.len(),
{
    if blocks.len() > 0 {
        assert(block_part(blocks[blocks.len() - 1]) is None);
        law_tool_only_content_is_dropped(blocks.drop_last());
    }
}

/// A line that is neither a user nor an assistant message never yields a
/// message, and a user line yields a human message exactly when its
/// content has displayable text.
pub proof fn law_line_roles(line: SessionLine)
    ensures
        line is Other ==> line_message(line) is None,
        line matches SessionLine::User(m) ==> (line_message(line) is Some <==> content_text(
            m.message.content,
        ) is Some),
        line matches SessionLine::Assistant(m) ==> (line_message(line) is Some <==> content_text(
            m.message.content,
        ) is Some),
{
}

/// Mangling keeps the length of the path, and every character of the
/// result is an ASCII letter, digit or `-`: no `/` or `.` survives, so the
/// result is a single plain directory name.
pub proof fn law_mangled_is_plain_name(path: Seq<char>)
    ensures
        mangled(path).len() == path.len(),
        forall|i: int|
            0 <= i < path.len() ==> is_ascii_alnum(#[trigger] mangled(path)[i]) || mangled(path)[i]
                == '-',
        !mangled(path).contains('/'),
        !mangled(path).contains('.'),
{
    assert forall|i: int| 0 <= i < mangled(path).len() implies mangled(path)[i] != '/'
        && mangled(path)[i] != '.' by {}
}

/// Mangling twice is mangling once.
pub proof fn law_mangled_idempotent(path: Seq<char>)
    ensures
        mangled(mangled(path)) == mangled(path),
{
    assert(mangled(mangled(path)) =~= mangled(path));
}

/// A well-formed session id holds no path separator, dot, space or
/// shell placeholder character, so `<id>.jsonl` is always a plain file
/// name inside the project directory.
pub proof fn law_valid_id_is_plain(id: Seq<char>)
    requires
        valid_session_id(id),
    ensures
        !id.contains('/'),
        !id.contains('\\'),
        !id.contains('.'),
        !id.contains(' '),
        !id.contains('$'),
        !id.contains('{'),
        !id.contains('_'),
{
    assert forall|i: int| 0 <= i < id.len() implies id[i] != '/' && id[i] != '\\' && id[i] != '.'
        && id[i] != ' ' && id[i] != '$' && id[i] != '{' && id[i] != '_' by {
        assert(crate::session::is_ascii_hex(id[i]) || id[i] == '-');
    }
}

/// A malformed id is never looked up: whatever the file system says, the
/// lookup by id finds nothing.
pub proof fn law_malformed_id_finds_nothing(
    session_dir: Seq<char>,
    cwd: Seq<char>,
    id: Seq<char>,
    marks: Seq<bool>,
)
    requires
        !valid_session_id(id),
    ensures
        session_id_paths(session_dir, cwd, id).len() == 0,
        first_marked(session_id_paths(session_dir, cwd, id), marks, 0) is None,
{
}

/// The lookup by working directory starts at the working directory's own
/// project directory, and goes up one ancestor at a time.
pub proof fn law_lookup_starts_at_cwd(session_dir: Seq<char>, cwd: Seq<char>)
    ensures
        project_dirs(session_dir, cwd).len() >= 1,
        project_dirs(session_dir, cwd)[0] == project_dir(session_dir, cwd),
        path_parent_result(cwd) matches Some(q) ==> (q.len() < cwd.len() ==> project_dirs(
            session_dir,
            cwd,
        ) == seq![project_dir(session_dir, cwd)] + project_dirs(session_dir, q)),
{
    assert(ancestors(cwd).len() >= 1);
    if let Some(q) = path_parent_result(cwd) {
        if q.len() < cwd.len() {
            let f = |a: Seq<char>| project_dir(session_dir, a);
            assert(ancestors(cwd) == seq![cwd] + ancestors(q));
            assert(ancestors(cwd).map_values(f) =~= seq![project_dir(session_dir, cwd)]
                + ancestors(q).map_values(f));
        }
    }
}

/// The session picked by modification time is a session log, none is
/// newer, and none met before it is as new; there is none exactly when no
/// entry is a session log.
pub proof fn law_newest_is_newest(es: Seq<crate::session::WalkEntry>, max_depth: nat)
    ensures
        newest_index(es, max_depth) matches Some(k) ==> {
            &&& 0 <= k < es.len()
            &&& is_session_log(es[k], max_depth)
            &&& forall|j: int|
                0 <= j < es.len() && is_session_log(#[trigger] es[j], max_depth) ==> es[j].modified->0
                    <= es[k].modified->0
            &&& forall|j: int|
                0 <= j < k && is_session_log(#[trigger] es[j], max_depth) ==> es[j].modified->0
                    < es[k].modified->0
        },
        newest_index(es, max_depth) is None <==> forall|j: int|
            0 <= j < es.len() ==> !is_session_log(#[trigger] es[j], max_depth),
    decreases es.len(),
{
    if es.len() > 0 {
        let init = es.drop_last();
        law_newest_is_newest(init, max_depth);
        assert forall|j: int| 0 <= j < init.len() implies init[j] == es[j] by {}
    }
}

/// Entries inside a subagent directory, or deeper than the walk depth, are
/// never picked by modification time.
pub proof fn law_subagents_never_picked(es: Seq<crate::session::WalkEntry>, max_depth: nat)
    ensures
        newest_index(es, max_depth) matches Some(k) ==> !in_subagents(es[k]) && es[k].depth
            <= max_depth,
{
    law_newest_is_newest(es, max_depth);
}

/// A lookup pinned to a well-formed session id never falls back to the
/// newest session of some other project.
pub proof fn law_pinned_never_falls_back(
    session_dir: Seq<char>,
    cwd: Seq<char>,
    session_id: Option<&str>,
    probes: SessionProbes,
)
    requires
        pinned_id(session_id),
    ensures
        resolved(session_dir, cwd, session_id, probes) matches Some(r) ==> !r.1,
{
}

/// The unit of a formatted size follows from the byte count alone:
/// bytes below one kibibyte, kibibytes below one mebibyte, mebibytes
/// from there on.
pub proof fn law_size_unit(bytes: nat)
    ensures
        size_text(bytes).len() >= 2,
        size_text(bytes).last() == if bytes < KIB {
            'B'
        } else if bytes < MIB {
            'K'
        } else {
            'M'
        },
{
    reveal_strlit("B");
    reveal_strlit("K");
    reveal_strlit("M");
    reveal_strlit(".");
    crate::text::lemma_decimal_nonempty(bytes);
}

/// A lookup by a well-formed id only ever probes `<id>.jsonl` directly
/// inside one plain directory name directly inside the session directory
/// (or directly inside the session directory, for an empty name): no path
/// it builds can climb out of the session directory.
pub proof fn law_id_lookup_stays_inside(session_dir: Seq<char>, cwd: Seq<char>, id: Seq<char>)
    requires
        valid_session_id(id),
    ensures
        forall|k: int|
            0 <= k < session_id_paths(session_dir, cwd, id).len() ==> exists|m: Seq<char>|
                {
                    &&& !m.contains('/')
                    &&& !m.contains('.')
                    &&& #[trigger] session_id_paths(session_dir, cwd, id)[k] == dir_prefix(
                        session_dir,
                    ) + (if m.len() == 0 {
                        m
                    } else {
                        m + seq!['/']
                    }) + session_file_name(id)
                },
        !session_file_name(id).take(id.len() as int).contains('/'),
        !session_file_name(id).take(id.len() as int).contains('.'),
{
    law_valid_id_is_plain(id);
    let file = session_file_name(id);
    assert(file.take(id.len() as int) =~= id);
    assert(file[0] == id[0]);
    assert(crate::session::is_ascii_hex(id[0]) || id[0] == '-');
    let paths = session_id_paths(session_dir, cwd, id);
    assert forall|k: int| 0 <= k < paths.len() implies exists|m: Seq<char>|
        {
            &&& !m.contains('/')
            &&& !m.contains('.')
            &&& #[trigger] paths[k] == dir_prefix(session_dir) + (if m.len() == 0 {
                m
            } else {
                m + seq!['/']
            }) + file
        } by {
        let a = ancestors(cwd)[k];
        let m = mangled(a);
        law_mangled_is_plain_name(a);
        let base = crate::session::joined_path(session_dir, m);
        if m.len() > 0 {
            assert(m[0] != '/');
        }
        assert(base == dir_prefix(session_dir) + m);
        assert(project_dirs(session_dir, cwd)[k] == base);
        assert(paths[k] == crate::session::joined_path(base, file));
        if m.len() > 0 {
            assert(base.last() == m.last());
            assert(m.last() != '/');
            assert(paths[k] =~= dir_prefix(session_dir) + (m + seq!['/']) + file);
        } else {
            assert(base =~= dir_prefix(session_dir));
            if session_dir.len() > 0 {
                assert(dir_prefix(session_dir).last() == '/');
            }
            assert(paths[k] =~= dir_prefix(session_dir) + m + file);
        }
    }
}

/// The lookup by working directory takes the nearest project directory
/// that has a session: when listing `k` yields a session and none of the
/// listings before it (from `from` on) does, that session is the result;
/// and there is no result exactly when no listing yields one. In
/// particular, when the working directory's own project has a session, that
/// one wins over every ancestor's.
pub proof fn law_nearest_project_wins(
    listings: Seq<Option<Vec<WalkEntry>>>,
    count: int,
    from: int,
)
    requires
        0 <= from,
    ensures
        forall|k: int|
            from <= k < count && k < listings.len() && #[trigger] listing_session(listings[k])
                is Some && (forall|j: int|
                from <= j < k ==> listing_session(listings[j]) is None) ==> first_listed(
                listings,
                count,
                from,
            ) == listing_session(listings[k]),
        first_listed(listings, count, from) is None <==> (forall|k: int|
            from <= k < count && k < listings.len() ==> #[trigger] listing_session(listings[k])
                is None),
        from < count && from < listings.len() && listing_session(listings[from]) is Some
            ==> first_listed(listings, count, from) == listing_session(listings[from]),
    decreases count - from,
{
    if from < count && from < listings.len() {
        law_nearest_project_wins(listings, count, from + 1);
        assert forall|k: int|
            from <= k < count && k < listings.len() && #[trigger] listing_session(listings[k])
                is Some && (forall|j: int|
                from <= j < k ==> listing_session(listings[j]) is None) implies first_listed(
            listings,
            count,
            from,
        ) == listing_session(listings[k]) by {
            if k > from {
                assert(listing_session(listings[from]) is None);
            }
        }
    }
}

/// A user line with displayable text yields a human message carrying that
/// text, and an assistant line an assistant message, whatever the shape of
/// the content; appending such a line appends exactly that message to the
/// session's messages.
pub proof fn law_message_roles_follow_line_kind(
    lines: Seq<Option<SessionLine>>,
    m: MessageLine,
    t: Seq<char>,
)
    requires
        content_text(m.message.content) == Some(t),
    ensures
        line_message(SessionLine::User(m)) == Some((Role::Human, t)),
        line_message(SessionLine::Assistant(m)) == Some((Role::Assistant, t)),
        all_messages(lines.push(Some(SessionLine::User(m)))) == all_messages(lines).push(
            (Role::Human, t),
        ),
        all_messages(lines.push(Some(SessionLine::Assistant(m)))) == all_messages(lines).push(
            (Role::Assistant, t),
        ),
{
    assert(lines.push(Some(SessionLine::User(m))).drop_last() =~= lines);
    assert(lines.push(Some(SessionLine::Assistant(m))).drop_last() =~= lines);
}

/// Each rendered message is headed by its own role: rendering one more
/// message appends a separator, `## Human` or `## Assistant` as the
/// message's role says, a blank line, its text and a newline.
pub proof fn law_block_headed_by_own_role(ms: Seq<(Role, Seq<char>)>, m: (Role, Seq<char>))
    ensures
        message_blocks(ms.push(m)) == message_blocks(ms) + "---\n\n"@ + (if m.0 == Role::Human {
            "## Human"@
        } else {
            "## Assistant"@
        }) + "\n\n"@ + m.1 + "\n"@,
{
    assert(ms.push(m).drop_last() =~= ms);
    assert(ms.push(m).last() == m);
}

/// A session id is well formed exactly when it is non-empty and each of its
/// characters is a decimal digit, a letter from `a` to `f` or `A` to `F`,
/// or `-`.
pub proof fn law_session_id_charset(s: Seq<char>)
    ensures
        valid_session_id(s) <==> (s.len() > 0 && forall|i: int|
            0 <= i < s.len() ==> {
                let c = #[trigger] s[i];
                ('0' <= c && c <= '9') || ('a' <= c && c <= 'f') || ('A' <= c && c <= 'F') || c
                    == '-'
            }),
{
}

/// Mangling keeps every ASCII letter and digit where it stands and turns
/// every other character into `-`.
pub proof fn law_mangle_keeps_letters_and_digits(path: Seq<char>)
    ensures
        mangled(path).len() == path.len(),
        forall|i: int|
            0 <= i < path.len() ==> {
                let c = path[i];
                if ('0' <= c && c <= '9') || ('a' <= c && c <= 'z') || ('A' <= c && c <= 'Z') {
                    #[trigger] mangled(path)[i] == c
                } else {
                    mangled(path)[i] == '-'
                }
            },
{
}

/// The lookup by exact id takes the nearest candidate that exists: when
/// path `k` is marked as an existing file and no path before it (from
/// `from` on) is, path `k` is the result; and there is none exactly when no
/// path is marked.
pub proof fn law_nearest_existing_id_path_wins(paths: Seq<Seq<char>>, marks: Seq<bool>, from: int)
    requires
        0 <= from,
    ensures
        forall|k: int|
            from <= k < paths.len() && k < marks.len() && #[trigger] marks[k] && (forall|j: int|
                from <= j < k ==> !(j < marks.len() && marks[j])) ==> first_marked(
                paths,
                marks,
                from,
            ) == Some(paths[k]),
        first_marked(paths, marks, from) is None <==> (forall|k: int|
            from <= k < paths.len() && k < marks.len() ==> !#[trigger] marks[k]),
    decreases paths.len() - from,
{
    if from < paths.len() {
        law_nearest_existing_id_path_wins(paths, marks, from + 1);
        assert forall|k: int|
            from <= k < paths.len() && k < marks.len() && #[trigger] marks[k] && (forall|j: int|
                from <= j < k ==> !(j < marks.len() && marks[j])) implies first_marked(
            paths,
            marks,
            from,
        ) == Some(paths[k]) by {
            if k > from {
                assert(!(from < marks.len() && marks[from]));
            }
        }
    }
}

/// The scan by id takes the first entry that is the log of that id: when
/// entry `k` is, and none before it (from `from` on) is, its path is the
/// result; there is none exactly when no entry is.
pub proof fn law_first_log_named_wins(es: Seq<WalkEntry>, id: Seq<char>, from: int)
    requires
        0 <= from,
    ensures
        forall|k: int|
            from <= k < es.len() && #[trigger] is_log_named(es[k], id) && (forall|j: int|
                from <= j < k ==> !is_log_named(es[j], id)) ==> first_named(es, id, from) == Some(
                es[k].path@,
            ),
        first_named(es, id, from) is None <==> (forall|k: int|
            from <= k < es.len() ==> !#[trigger] is_log_named(es[k], id)),
    decreases es.len() - from,
{
    if from < es.len() {
        law_first_log_named_wins(es, id, from + 1);
        assert forall|k: int|
            from <= k < es.len() && #[trigger] is_log_named(es[k], id) && (forall|j: int|
                from <= j < k ==> !is_log_named(es[j], id)) implies first_named(es, id, from)
            == Some(es[k].path@) by {
            if k > from {
                assert(!is_log_named(es[from], id));
            }
        }
    }
}

/// A log entry named after an id is a file called `<id>.jsonl`, within the
/// walk depth and outside subagent directories.
pub proof fn law_log_named_is_id_file(e: WalkEntry, id: Seq<char>)
    ensures
        is_log_named(e, id) ==> {
            &&& e.is_file
            &&& e.depth <= crate::session::GLOBAL_SEARCH_DEPTH
            &&& !in_subagents(e)
            &&& e.file_name matches Some(n) && n@ == id + ".jsonl"@
        },
{
}

/// Each user line counts once as a user line and each assistant line once
/// as an assistant line; other lines, and lines that could not be read,
/// count as neither.
pub proof fn law_line_counts(lines: Seq<Option<SessionLine>>, l: Option<SessionLine>)
    ensures
        count_user(lines.push(l)) == count_user(lines) + if l matches Some(SessionLine::User(_)) {
            1int
        } else {
            0int
        },
        count_assistant(lines.push(l)) == count_assistant(lines) + if l matches Some(
            SessionLine::Assistant(_),
        ) {
            1int
        } else {
            0int
        },
        count_user(Seq::<Option<SessionLine>>::empty()) == 0,
        count_assistant(Seq::<Option<SessionLine>>::empty()) == 0,
{
    assert(lines.push(l).drop_last() =~= lines);
}

/// Appending a block to block content: a text block adds its text, an
/// image block the image placeholder, after a newline when there was text
/// before; any other block leaves the text as it was.
pub proof fn law_block_text_appends(blocks: Seq<ContentBlock>, b: ContentBlock)
    ensures
        ({
            let before = block_parts(blocks);
            let after = block_parts(blocks.push(b));
            let added: Option<Seq<char>> = match b {
                ContentBlock::Text { text } => Some(text@),
                ContentBlock::Image {  } => Some("[Image attached]"@),
                _ => None,
            };
            match added {
                Some(x) => after.len() == before.len() + 1 && crate::types::join_lines(after) == if before.len()
                    == 0 {
                    x
                } else {
                    crate::types::join_lines(before) + "\n"@ + x
                },
                None => after == before,
            }
        }),
{
    assert(blocks.push(b).drop_last() =~= blocks);
    let before = block_parts(blocks);
    match block_part(b) {
        Some(p) => crate::types::lemma_join_lines_push(before, p),
        None => {},
    }
}

/// Plain-text content is shown as it is when non-empty, and an empty
/// string shows nothing.
pub proof fn law_plain_text_content(s: String)
    ensures
        content_text(Content::Text(s)) == if s@.len() == 0 {
            None::<Seq<char>>
        } else {
            Some(s@)
        },
{
}

/// A lookup pinned to a well-formed id settles only on a candidate path
/// whose existence was confirmed, or on an entry of the walk that is the
/// log file named after the id.
pub proof fn law_pinned_result_is_the_ids_file(
    session_dir: Seq<char>,
    cwd: Seq<char>,
    session_id: Option<&str>,
    probes: SessionProbes,
)
    requires
        pinned_id(session_id),
    ensures
        resolved(session_dir, cwd, session_id, probes) matches Some(r) ==> (exists|k: int|
            0 <= k < session_id_paths(session_dir, cwd, session_id->0@).len() && k
                < probes.id_paths_exist@.len() && probes.id_paths_exist@[k]
                && #[trigger] session_id_paths(session_dir, cwd, session_id->0@)[k] == r.0) || (exists|k: int|
            0 <= k < probes.all_entries@.len() && #[trigger] is_log_named(
                probes.all_entries@[k],
                session_id->0@,
            ) && probes.all_entries@[k].path@ == r.0),
{
    let id = session_id->0@;
    let paths = session_id_paths(session_dir, cwd, id);
    let marks = probes.id_paths_exist@;
    let es = probes.all_entries@;
    law_nearest_existing_id_path_wins(paths, marks, 0);
    law_first_log_named_wins(es, id, 0);
    if let Some(p) = first_marked(paths, marks, 0) {
        lemma_first_marked_is_marked(paths, marks, 0);
    } else if let Some(p) = first_named(es, id, 0) {
        lemma_first_named_is_named(es, id, 0);
    }
}

proof fn lemma_first_marked_is_marked(paths: Seq<Seq<char>>, marks: Seq<bool>, from: int)
    requires
        0 <= from,
    ensures
        first_marked(paths, marks, from) matches Some(p) ==> exists|k: int|
            from <= k < paths.len() && k < marks.len() && marks[k] && #[trigger] paths[k] == p,
    decreases paths.len() - from,
{
    if from < paths.len() {
        lemma_first_marked_is_marked(paths, marks, from + 1);
    }
}

proof fn lemma_first_named_is_named(es: Seq<WalkEntry>, id: Seq<char>, from: int)
    requires
        0 <= from,
    ensures
        first_named(es, id, from) matches Some(p) ==> exists|k: int|
            from <= k < es.len() && #[trigger] is_log_named(es[k], id) && es[k].path@ == p,
    decreases es.len() - from,
{
    if from < es.len() {
        lemma_first_named_is_named(es, id, from + 1);
    }
}

/// The number a string of decimal digits denotes.
pub open spec fn digits_value(s: Seq<char>) -> int
    decreases s.len(),
{
    if s.len() == 0 {
        0
    } else {
        digits_value(s.drop_last()) * 10 + (s.last() as int - '0' as int)
    }
}

/// The decimal representation of `n` is made of digits only, does not
/// start with a zero unless it is `0` itself, and denotes `n`.
pub proof fn law_decimal_denotes(n: nat)
    ensures
        forall|i: int| 0 <= i < decimal(n).len() ==> '0' <= #[trigger] decimal(n)[i] <= '9',
        decimal(n).len() > 1 ==> decimal(n)[0] != '0',
        digits_value(decimal(n)) == n,
    decreases n,
{
    let c = crate::text::digit_char(n % 10);
    assert(c as int == n % 10 + 48);
    if n >= 10 {
        law_decimal_denotes(n / 10);
        let d = decimal(n / 10);
        assert(decimal(n) == d.push(c));
        assert(decimal(n).drop_last() =~= d);
        assert(decimal(n).last() == c);
        assert(digits_value(decimal(n)) == digits_value(d) * 10 + (c as int - '0' as int));
        assert(decimal(n)[0] == d[0]);
        assert(n / 10 >= 1);
        if n / 10 >= 10 {
            crate::text::lemma_decimal_nonempty(n / 10 / 10);
            assert(d.len() >= 2);
        }
        assert(digits_value(d) == n / 10);
        assert(c as int - '0' as int == n % 10);
        if d.len() == 1 {
            assert(n / 10 < 10);
            let c0 = crate::text::digit_char(n / 10);
            assert(c0 as int == n / 10 + 48);
            assert(d[0] == c0);
        }
        assert((n / 10) * 10 + n % 10 == n) by (nonlinear_arith);
        assert(digits_value(decimal(n)) == (n / 10) * 10 + n % 10);
    } else {
        assert(n % 10 == n);
        assert(decimal(n) == seq![c]);
        assert(decimal(n).drop_last() =~= Seq::<char>::empty());
        assert(digits_value(Seq::<char>::empty()) == 0);
        assert(digits_value(decimal(n)) == digits_value(decimal(n).drop_last()) * 10 + (c as int
            - '0' as int));
    }
}

/// Rounding to the nearest integer: the result is within half a unit of
/// the exact quotient, and on an exact tie it is the even neighbour.
pub proof fn law_round_half_even_is_nearest(num: nat, den: nat)
    requires
        den > 0,
    ensures
        2 * round_half_even(num, den) * den <= 2 * num + den,
        2 * num <= 2 * round_half_even(num, den) * den + den,
        2 * num == 2 * (num / den) * den + den ==> round_half_even(num, den) % 2 == 0,
{
    let q = num / den;
    let r = num % den;
    assert(num == q * den + r) by (nonlinear_arith)
        requires
            den > 0,
            q == num / den,
            r == num % den,
    ;
    assert(0 <= r < den);
    let v = round_half_even(num, den);
    assert(v == q + 1 || v == q);
    assert(2 * q * den == 2 * (q * den)) by (nonlinear_arith);
    if v == q + 1 {
        assert(2 * v * den == 2 * q * den + 2 * den) by (nonlinear_arith)
            requires
                v == q + 1,
        ;
        assert(2 * r >= den);
    } else {
        assert(2 * v * den == 2 * q * den) by (nonlinear_arith)
            requires
                v == q,
        ;
    }
}

} // verus!
