//! The export of all that is known of a session.
use vstd::prelude::*;

use crate::context;
use crate::daemon::chat;
use crate::daemon::chat::Failure;
use crate::daemon::handlers::INTERNAL_ERROR;
use crate::text;

verus! {

/// The character that begins a colour of a terminal.
pub open spec fn is_escape(s: Seq<char>, i: int) -> bool {
    0 <= i && i + 1 < s.len() && s[i] == '\u{1b}' && s[i + 1] == '['
}

/// A character that ends a colour of a terminal: one from the at sign to the tilde.
pub open spec fn ends_escape(c: char) -> bool {
    0x40 <= c as u32 <= 0x7e
}

/// Where the colour ends whose text goes on at `from`.
pub open spec fn escape_end(s: Seq<char>, from: int) -> int
    decreases s.len() - from,
{
    if from < 0 || from >= s.len() {
        s.len() as int
    } else if ends_escape(s[from]) {
        from + 1
    } else {
        escape_end(s, from + 1)
    }
}

/// The text from `from` on without its colours.
pub open spec fn plain_from(s: Seq<char>, from: int) -> Seq<char>
    decreases s.len() - from,
{
    if from < 0 || from >= s.len() {
        Seq::empty()
    } else if is_escape(s, from) {
        let end = escape_end(s, from + 2);
        if from < end <= s.len() {
            plain_from(s, end)
        } else {
            Seq::empty()
        }
    } else {
        seq![s[from]] + plain_from(s, from + 1)
    }
}

/// The text without its colours.
pub open spec fn plain(s: Seq<char>) -> Seq<char> {
    plain_from(s, 0)
}

/// Takes the colours out of a text.
pub fn strip_ansi_sequences(input: &str) -> (r: String)
    ensures
        r@ == plain(input@),
{
    let v = text::chars_of(input);
    let mut out = String::new();
    let mut cursor: usize = 0;
    assert(out@ + plain_from(v@, 0) =~= plain(input@));
    while cursor < v.len()
        invariant
            cursor <= v@.len(),
            out@ + plain_from(v@, cursor as int) == plain(input@),
        decreases v@.len() - cursor,
    {
        if v[cursor] == '\u{1b}' && v.len() - cursor > 1 && v[cursor + 1] == '[' {
            let ghost start = cursor as int;
            cursor = cursor + 2;
            let mut open = true;
            while cursor < v.len() && open
                invariant
                    start + 2 <= cursor <= v@.len(),
                    if open {
                        escape_end(v@, start + 2) == escape_end(v@, cursor as int)
                    } else {
                        escape_end(v@, start + 2) == cursor
                    },
                decreases v@.len() - cursor,
            {
                let c = v[cursor] as u32;
                cursor = cursor + 1;
                if 0x40 <= c && c <= 0x7e {
                    open = false;
                }
            }
            assert(escape_end(v@, start + 2) == cursor);
        } else {
            let c = v[cursor];
            let ghost rest = plain_from(v@, cursor + 1);
            let ghost before = out@;
            out.push(c);
            assert(before + (seq![c] + rest) =~= before.push(c) + rest);
            cursor = cursor + 1;
        }
    }
    assert(out@ + plain_from(v@, cursor as int) =~= out@);
    out
}

/// A line of the log belongs to the session, and not to one of a longer name.
pub open spec fn is_of_session(line: Seq<char>, session_id: Seq<char>) -> bool {
    text::has_whole(line, "session_id="@ + session_id) || text::has_text(
        line,
        "session_id=\""@ + session_id + "\""@,
    )
}

/// The lines of the log that belong to the session, without colours.
pub open spec fn chain_lines(lines: Seq<Seq<char>>, session_id: Seq<char>) -> Seq<Seq<char>>
    decreases lines.len(),
{
    if lines.len() == 0 {
        Seq::empty()
    } else {
        let rest = chain_lines(lines.drop_last(), session_id);
        if is_of_session(plain(lines.last()), session_id) {
            rest.push(plain(lines.last()))
        } else {
            rest
        }
    }
}

/// How many lines hold more than white space.
pub open spec fn filled_lines(lines: Seq<Seq<char>>) -> nat
    decreases lines.len(),
{
    if lines.len() == 0 {
        0
    } else {
        filled_lines(lines.drop_last()) + if text::blank(lines.last()) {
            0nat
        } else {
            1nat
        }
    }
}

fn keep_chain_lines(log: &str, session_id: &str) -> (r: Vec<String>)
    ensures
        text::views(r@) == chain_lines(text::lines(log@), session_id@),
{
    let lines = text::split_lines(log);
    let ghost all = text::views(lines@);
    let mut marker = "session_id=".to_owned();
    marker.append(session_id);
    let mut quoted = "session_id=\"".to_owned();
    quoted.append(session_id);
    quoted.append("\"");
    let mut out: Vec<String> = Vec::new();
    let mut i: usize = 0;
    assert(all.take(0) =~= Seq::<Seq<char>>::empty());
    assert(text::views(out@) =~= Seq::<Seq<char>>::empty());
    while i < lines.len()
        invariant
            i <= lines@.len(),
            all == text::views(lines@),
            marker@ == "session_id="@ + session_id@,
            quoted@ == "session_id=\""@ + session_id@ + "\""@,
            text::views(out@) == chain_lines(all.take(i as int), session_id@),
        decreases lines@.len() - i,
    {
        proof {
            assert(all.take(i + 1).drop_last() =~= all.take(i as int));
            assert(all.take(i + 1).last() == lines@[i as int]@);
        }
        let line = strip_ansi_sequences(lines[i].as_str());
        if text::contains_whole(line.as_str(), marker.as_str()) || text::contains(
            line.as_str(),
            quoted.as_str(),
        ) {
            let ghost before = text::views(out@);
            out.push(line);
            assert(text::views(out@) =~= before.push(line@));
        }
        i = i + 1;
    }
    assert(all.take(i as int) =~= all);
    out
}

fn count_filled(s: &str) -> (n: usize)
    ensures
        n == filled_lines(text::lines(s@)),
{
    let lines = text::split_lines(s);
    let ghost all = text::views(lines@);
    let mut n: usize = 0;
    let mut i: usize = 0;
    assert(all.take(0) =~= Seq::<Seq<char>>::empty());
    while i < lines.len()
        invariant
            i <= lines@.len(),
            n <= i,
            all == text::views(lines@),
            n == filled_lines(all.take(i as int)),
        decreases lines@.len() - i,
    {
        proof {
            assert(all.take(i + 1).drop_last() =~= all.take(i as int));
            assert(all.take(i + 1).last() == lines@[i as int]@);
        }
        if !text::is_blank(lines[i].as_str()) {
            n = n + 1;
        }
        i = i + 1;
    }
    assert(all.take(i as int) =~= all);
    n
}

/// The head of an export.
pub open spec fn export_head(
    session_id: Seq<char>,
    session_path: Seq<char>,
    log_path: Seq<char>,
    generated_at_ms: u64,
    messages: nat,
    log_lines: nat,
) -> Seq<char> {
    "# my-agent dogfood export\nschema_version=1\ngenerated_at_unix_ms="@ + text::decimal(
        generated_at_ms as nat,
    ) + "\nsession_id="@ + session_id + "\nsession_file="@ + session_path + "\ndaemon_log_file="@
        + log_path + "\nconversation_messages="@ + text::decimal(messages) + "\nchain_log_lines="@
        + text::decimal(log_lines)
        + "\n\n===== LLM / REACT CONVERSATION (RAW SESSION JSONL) =====\n"@
}

/// A text that ends its last line.
pub open spec fn ended(s: Seq<char>) -> Seq<char> {
    if s.len() > 0 && s.last() == '\n' {
        s
    } else {
        s.push('\n')
    }
}

/// The export of a session: its messages as they are kept, and its part of the log.
pub open spec fn export_text(
    session_id: Seq<char>,
    session_path: Seq<char>,
    log_path: Seq<char>,
    generated_at_ms: u64,
    conversation: Seq<char>,
    log: Seq<char>,
) -> Seq<char> {
    let chain = text::join(chain_lines(text::lines(log), session_id), "\n"@);
    export_head(
        session_id,
        session_path,
        log_path,
        generated_at_ms,
        filled_lines(text::lines(conversation)),
        text::lines(chain).len(),
    ) + (if conversation.len() == 0 {
        "(当前 session 尚无持久化消息)\n"@
    } else {
        ended(conversation)
    }) + "\n===== DAEMON CHAIN LOG (CURRENT SESSION ONLY) =====\n"@ + (if chain.len() == 0 {
        "(未找到带当前 session_id 的 daemon 链路日志)\n"@
    } else {
        chain + "\n"@
    })
}

/// Writes the export of a session, given its messages and the log as text.
pub fn dogfood_text(
    session_id: &str,
    session_path: &str,
    log_path: &str,
    generated_at_ms: u64,
    conversation: &str,
    log: &str,
) -> (r: String)
    ensures
        r@ == export_text(
            session_id@,
            session_path@,
            log_path@,
            generated_at_ms,
            conversation@,
            log@,
        ),
{
    let chain = text::join_texts(&keep_chain_lines(log, session_id), "\n");
    let messages: usize = count_filled(conversation);
    let log_lines: usize = text::split_lines(chain.as_str()).len();
    assert(log_lines == text::lines(chain@).len());
    let mut out =
        "# my-agent dogfood export\nschema_version=1\ngenerated_at_unix_ms=".to_owned();
    out.append(text::decimal_text(generated_at_ms).as_str());
    out.append("\nsession_id=");
    out.append(session_id);
    out.append("\nsession_file=");
    out.append(session_path);
    out.append("\ndaemon_log_file=");
    out.append(log_path);
    out.append("\nconversation_messages=");
    out.append(text::decimal_text(messages as u64).as_str());
    out.append("\nchain_log_lines=");
    out.append(text::decimal_text(log_lines as u64).as_str());
    out.append("\n\n===== LLM / REACT CONVERSATION (RAW SESSION JSONL) =====\n");
    let ghost head = out@;
    let chars = text::chars_of(conversation);
    if chars.len() == 0 {
        out.append("(当前 session 尚无持久化消息)\n");
    } else {
        out.append(conversation);
        if chars[chars.len() - 1] != '\n' {
            out.push('\n');
        }
        assert(out@ =~= head + ended(conversation@));
    }
    out.append("\n===== DAEMON CHAIN LOG (CURRENT SESSION ONLY) =====\n");
    let ghost body = out@;
    if text::chars_of(chain.as_str()).len() == 0 {
        out.append("(未找到带当前 session_id 的 daemon 链路日志)\n");
    } else {
        out.append(chain.as_str());
        out.append("\n");
        assert(out@ =~= body + (chain@ + "\n"@));
    }
    out
}

/// Writes the export of a session from what its files hold.
pub fn export_dogfood(
    session_id: &str,
    session_path: &str,
    log_path: &str,
    generated_at_ms: u64,
    session_bytes: &[u8],
    daemon_bytes: &[u8],
) -> (r: String)
    ensures
        r@ == export_text(
            session_id@,
            session_path@,
            log_path@,
            generated_at_ms,
            context::lossy_text_of(session_bytes@),
            context::lossy_text_of(daemon_bytes@),
        ),
{
    let conversation = context::lossy_text(session_bytes);
    let log = context::lossy_text(daemon_bytes);
    dogfood_text(
        session_id,
        session_path,
        log_path,
        generated_at_ms,
        conversation.as_str(),
        log.as_str(),
    )
}

/// The name of the file with the export, given the stem of the session's file.
pub fn dogfood_name(session_stem: Option<&str>) -> (r: String)
    ensures
        r@ == "dogfood-"@ + (match session_stem {
            Some(s) => s@,
            None => "session"@,
        }) + ".log"@,
{
    let mut r = "dogfood-".to_owned();
    r.append(
        match session_stem {
            Some(s) => s,
            None => "session",
        },
    );
    r.append(".log");
    r
}

/// The answer to the one who asked for an export, given the file that holds it.
pub fn dogfood_answer(written: Result<String, String>) -> (r: Result<String, Failure>)
    ensures
        match written {
            Ok(path) => r is Ok && r->Ok_0@ == "dogfood 已生成："@ + path@,
            Err(e) => chat::fails(r, INTERNAL_ERROR, "生成 dogfood 日志失败："@ + e@),
        },
{
    match written {
        Ok(path) => {
            let mut t = "dogfood 已生成：".to_owned();
            t.append(path.as_str());
            Ok(t)
        },
        Err(e) => {
            let mut t = "生成 dogfood 日志失败：".to_owned();
            t.append(e.as_str());
            Err((INTERNAL_ERROR, t))
        },
    }
}

/// What an export holds of the log belongs to the session, and none of it is lost.
pub proof fn law_export_is_of_the_session(lines: Seq<Seq<char>>, session_id: Seq<char>)
    ensures
        forall|i: int|
            0 <= i < chain_lines(lines, session_id).len() ==> is_of_session(
                #[trigger] chain_lines(lines, session_id)[i],
                session_id,
            ),
        forall|i: int|
            0 <= i < lines.len() && is_of_session(plain(#[trigger] lines[i]), session_id)
                ==> chain_lines(lines, session_id).contains(plain(lines[i])),
    decreases lines.len(),
{
    if lines.len() > 0 {
        let front = lines.drop_last();
        let rest = chain_lines(front, session_id);
        let all = chain_lines(lines, session_id);
        law_export_is_of_the_session(front, session_id);
        assert forall|i: int|
            0 <= i < lines.len() && is_of_session(plain(#[trigger] lines[i]), session_id) implies
            all.contains(plain(lines[i])) by {
            if i < front.len() {
                assert(front[i] == lines[i]);
                let w = choose|w: int| 0 <= w < rest.len() && rest[w] == plain(lines[i]);
                assert(all[w] == plain(lines[i]));
            } else {
                assert(all[rest.len() as int] == plain(lines[i]));
            }
        }
    }
}

/// What is exported of a log is what is exported of its parts, one after the other; the
/// order of the log stays.
pub proof fn law_export_keeps_the_order(a: Seq<Seq<char>>, b: Seq<Seq<char>>, session_id: Seq<char>)
    ensures
        chain_lines(a + b, session_id) == chain_lines(a, session_id) + chain_lines(b, session_id),
        filled_lines(a + b) == filled_lines(a) + filled_lines(b),
        filled_lines(a) <= a.len(),
        chain_lines(a, session_id).len() <= a.len(),
    decreases b.len(), a.len(),
{
    if a.len() > 0 {
        law_export_keeps_the_order(a.drop_last(), Seq::empty(), session_id);
    }
    lemma_export_adds_up(a, b, session_id);
}

proof fn lemma_export_adds_up(a: Seq<Seq<char>>, b: Seq<Seq<char>>, session_id: Seq<char>)
    ensures
        chain_lines(a + b, session_id) == chain_lines(a, session_id) + chain_lines(b, session_id),
        filled_lines(a + b) == filled_lines(a) + filled_lines(b),
    decreases b.len(),
{
    if b.len() == 0 {
        assert(a + b =~= a);
    } else {
        lemma_export_adds_up(a, b.drop_last(), session_id);
        assert((a + b).drop_last() =~= a + b.drop_last());
        assert((a + b).last() == b.last());
    }
    assert(chain_lines(a + b, session_id) =~= chain_lines(a, session_id) + chain_lines(
        b,
        session_id,
    ));
}

/// A text without escapes is shown as it is.
pub proof fn law_plain_text_stays(s: Seq<char>)
    requires
        forall|i: int| 0 <= i < s.len() ==> #[trigger] s[i] != '\u{1b}',
    ensures
        plain(s) == s,
{
    lemma_plain_from(s, 0);
    assert(s.skip(0) =~= s);
}

proof fn lemma_plain_from(s: Seq<char>, from: int)
    requires
        0 <= from <= s.len(),
        forall|i: int| 0 <= i < s.len() ==> #[trigger] s[i] != '\u{1b}',
    ensures
        plain_from(s, from) == s.skip(from),
    decreases s.len() - from,
{
    if from < s.len() {
        lemma_plain_from(s, from + 1);
        assert(s[from] != '\u{1b}');
        assert(seq![s[from]] + s.skip(from + 1) =~= s.skip(from));
    } else {
        assert(s.skip(from) =~= Seq::<char>::empty());
    }
}

/// Only a log line that names the session is of the session.
pub proof fn law_lines_name_their_session(line: Seq<char>, session_id: Seq<char>)
    ensures
        is_of_session(line, session_id) ==> text::has_text(line, "session_id="@ + session_id)
            || text::has_text(line, "session_id=\""@ + session_id + "\""@),
{
    if text::has_whole(line, "session_id="@ + session_id) {
        let p = "session_id="@ + session_id;
        let i = choose|i: int|
            #[trigger] text::occurs_at(line, p, i) && (i + p.len() == line.len() || !text::goes_on(
                line[i + p.len()],
            ));
        assert(text::occurs_at(line, p, i));
    }
}

/// The export has the whole conversation, unchanged, and tells the session it is of.
pub proof fn law_export_has_the_conversation(
    session_id: Seq<char>,
    session_path: Seq<char>,
    log_path: Seq<char>,
    generated_at_ms: u64,
    conversation: Seq<char>,
    log: Seq<char>,
)
    ensures
        ({
            let t = export_text(
                session_id,
                session_path,
                log_path,
                generated_at_ms,
                conversation,
                log,
            );
            &&& text::has_text(t, conversation)
            &&& text::has_text(t, text::join(chain_lines(text::lines(log), session_id), "\n"@))
            &&& text::has_text(t, "\nsession_id="@ + session_id + "\n"@)
        }),
{
    reveal_strlit("\n");
    reveal_strlit("\nsession_file=");
    let chain = text::join(chain_lines(text::lines(log), session_id), "\n"@);
    let head = export_head(
        session_id,
        session_path,
        log_path,
        generated_at_ms,
        filled_lines(text::lines(conversation)),
        text::lines(chain).len(),
    );
    let t = export_text(
        session_id,
        session_path,
        log_path,
        generated_at_ms,
        conversation,
        log,
    );
    let told = if conversation.len() == 0 {
        "(当前 session 尚无持久化消息)\n"@
    } else {
        ended(conversation)
    };
    let mark = "\n===== DAEMON CHAIN LOG (CURRENT SESSION ONLY) =====\n"@;
    let at = head.len() as int;
    assert(t.subrange(at, at + conversation.len()) =~= conversation);
    assert(text::occurs_at(t, conversation, at));
    let from = at + told.len() + mark.len();
    assert(t.subrange(from, from + chain.len()) =~= chain);
    assert(text::occurs_at(t, chain, from));
    let first = "# my-agent dogfood export\nschema_version=1\ngenerated_at_unix_ms="@
        + text::decimal(generated_at_ms as nat);
    let named = "\nsession_id="@ + session_id + "\n"@;
    let k = first.len() as int;
    assert(t.subrange(k, k + named.len()) =~= named) by {
        assert("\nsession_file="@[0] == '\n');
        assert("\n"@.len() == 1 && "\n"@[0] == '\n');
    }
    assert(text::occurs_at(t, named, k));
}

/// A text is ended by one line feed: it gets one where it has none, and no second one.
pub proof fn law_texts_end_with_a_line_feed(s: Seq<char>)
    ensures
        ended(s).len() > 0 && ended(s).last() == '\n',
        ended(ended(s)) == ended(s),
        s.is_prefix_of(ended(s)),
        ended(s).len() <= s.len() + 1,
        ended(s.push('\n')) == s.push('\n'),
{
    assert(s.push('\n').subrange(0, s.len() as int) =~= s);
    assert(s.subrange(0, s.len() as int) =~= s);
}

} // verus!
