//! Lines read from the frpc child process: how a raw output line is
//! cleaned of terminal escapes and control characters, and how each event
//! is written into the launcher's log.
use vstd::prelude::*;
use crate::text::{chars_of, decimal, format_i64, push_char};

verus! {

/// One event from the child's output readers.
pub enum LogEvent {
    Stdout(String),
    Stderr(String),
    Error(String),
}

/// The escape character that starts a terminal control sequence.
pub open spec fn is_escape(c: char) -> bool {
    c == '\u{1b}'
}

/// A control character (Unicode general category Cc), as `char::is_control` tests it.
pub open spec fn is_control(c: char) -> bool {
    ('\u{0}' <= c && c <= '\u{1f}') || ('\u{7f}' <= c && c <= '\u{9f}')
}

/// The character that ends a CSI sequence: one in `@..=~`.
pub open spec fn is_csi_final(c: char) -> bool {
    '@' <= c && c <= '~'
}

/// The position just after the end of a CSI sequence whose parameters start
/// at `j`: after the first final character, or the end of the text.
pub open spec fn csi_end(s: Seq<char>, j: int) -> int
    decreases s.len() - j,
{
    if j >= s.len() {
        s.len() as int
    } else if is_csi_final(s[j]) {
        j + 1
    } else {
        csi_end(s, j + 1)
    }
}

pub proof fn lemma_csi_end_bounds(s: Seq<char>, j: int)
    requires
        0 <= j,
    ensures
        j <= csi_end(s, j) <= s.len() || (j > s.len() && csi_end(s, j) == s.len()),
        csi_end(s, j) >= 0,
    decreases s.len() - j,
{
    if j < s.len() && !is_csi_final(s[j]) {
        lemma_csi_end_bounds(s, j + 1);
    }
}

/// What remains of `s` from position `i` on: `ESC [` sequences removed up to
/// and including their final character, a lone `ESC` dropped, and every
/// other control character but tab dropped.
pub open spec fn strip_from(s: Seq<char>, i: int) -> Seq<char>
    decreases s.len() - i,
{
    if i < 0 || i >= s.len() {
        Seq::empty()
    } else if is_escape(s[i]) {
        if i + 1 < s.len() && s[i + 1] == '[' {
            proof {
                lemma_csi_end_bounds(s, i + 2);
            }
            strip_from(s, csi_end(s, i + 2))
        } else {
            strip_from(s, i + 1)
        }
    } else if is_control(s[i]) && s[i] != '\t' {
        strip_from(s, i + 1)
    } else {
        seq![s[i]] + strip_from(s, i + 1)
    }
}

/// `s` cleaned of terminal escape sequences and control characters other than tab.
pub open spec fn stripped(s: Seq<char>) -> Seq<char> {
    strip_from(s, 0)
}

/// A character that survives cleaning: not a control character, or a tab.
pub open spec fn is_kept(c: char) -> bool {
    !is_control(c) || c == '\t'
}

/// Removes ANSI CSI escape sequences and control characters (tab excepted).
pub fn strip_ansi_and_control(input: &str) -> (r: String)
    ensures
        r@ == stripped(input@),
{
    let v = chars_of(input);
    let n = v.len();
    let mut out = String::new();
    let mut i: usize = 0;
    while i < n
        invariant
            i <= n == v.len(),
            v@ == input@,
            out@ + strip_from(v@, i as int) == stripped(input@),
        decreases n - i,
    {
        let ch = v[i];
        if ch == '\u{1b}' {
            if i + 1 < n && v[i + 1] == '[' {
                let mut j: usize = i + 2;
                proof {
                    lemma_csi_end_bounds(v@, i + 2);
                }
                while j < n && !('@' <= v[j] && v[j] <= '~')
                    invariant
                        i + 2 <= j <= n == v.len(),
                        csi_end(v@, i + 2) == csi_end(v@, j as int),
                    decreases n - j,
                {
                    j = j + 1;
                }
                if j < n {
                    j = j + 1;
                }
                i = j;
            } else {
                i = i + 1;
            }
        } else if (('\u{0}' <= ch && ch <= '\u{1f}') || ('\u{7f}' <= ch && ch <= '\u{9f}')) && ch
            != '\t' {
            i = i + 1;
        } else {
            proof {
                assert(out@.push(ch) + strip_from(v@, i + 1) == out@ + strip_from(v@, i as int));
            }
            push_char(&mut out, ch);
            i = i + 1;
        }
    }
    proof {
        assert(out@ + strip_from(v@, i as int) == out@);
    }
    out
}

proof fn lemma_strip_from_kept(s: Seq<char>, i: int, k: int)
    requires
        0 <= k < strip_from(s, i).len(),
    ensures
        is_kept(strip_from(s, i)[k]),
    decreases s.len() - i,
{
    if 0 <= i < s.len() {
        if is_escape(s[i]) {
            if i + 1 < s.len() && s[i + 1] == '[' {
                lemma_csi_end_bounds(s, i + 2);
                lemma_strip_from_kept(s, csi_end(s, i + 2), k);
            } else {
                lemma_strip_from_kept(s, i + 1, k);
            }
        } else if is_control(s[i]) && s[i] != '\t' {
            lemma_strip_from_kept(s, i + 1, k);
        } else if k > 0 {
            lemma_strip_from_kept(s, i + 1, k - 1);
        }
    }
}

proof fn lemma_strip_from_clean(s: Seq<char>, i: int)
    requires
        0 <= i <= s.len(),
        forall|k: int| 0 <= k < s.len() ==> is_kept(#[trigger] s[k]),
    ensures
        strip_from(s, i) == s.subrange(i, s.len() as int),
    decreases s.len() - i,
{
    if i < s.len() {
        assert(is_kept(s[i]));
        lemma_strip_from_clean(s, i + 1);
        assert(s.subrange(i, s.len() as int) == seq![s[i]] + s.subrange(i + 1, s.len() as int));
    } else {
        assert(s.subrange(i, s.len() as int) =~= Seq::<char>::empty());
    }
}

/// A cleaned line holds no control character but tab, and cleaning it
/// again changes nothing.
pub proof fn lemma_stripped_is_clean(s: Seq<char>)
    ensures
        forall|k: int| 0 <= k < stripped(s).len() ==> is_kept(#[trigger] stripped(s)[k]),
        stripped(stripped(s)) == stripped(s),
{
    assert forall|k: int| 0 <= k < stripped(s).len() implies is_kept(#[trigger] stripped(s)[k]) by {
        lemma_strip_from_kept(s, 0, k);
    }
    lemma_strip_from_clean(stripped(s), 0);
    assert(stripped(s).subrange(0, stripped(s).len() as int) == stripped(s));
}

/// `s` without its trailing carriage returns and line feeds
/// (`str::trim_end_matches(['\r', '\n'])`).
pub open spec fn without_line_end(s: Seq<char>) -> Seq<char>
    decreases s.len(),
{
    if s.len() > 0 && (s.last() == '\r' || s.last() == '\n') {
        without_line_end(s.drop_last())
    } else {
        s
    }
}

/// The event for one line read from the child: the line without its line
/// ending, cleaned, tagged as standard error or standard output.
pub open spec fn line_event_text(raw: Seq<char>) -> Seq<char> {
    stripped(without_line_end(raw))
}

/// Turns one raw output line of the child into a log event.
pub fn line_event(raw: &str, is_err: bool) -> (r: LogEvent)
    ensures
        match r {
            LogEvent::Stdout(s) => !is_err && s@ == line_event_text(raw@),
            LogEvent::Stderr(s) => is_err && s@ == line_event_text(raw@),
            LogEvent::Error(_) => false,
        },
{
    let v = chars_of(raw);
    let mut end = v.len();
    proof {
        assert(v@.subrange(0, end as int) == v@);
    }
    while end > 0 && (v[end - 1] == '\r' || v[end - 1] == '\n')
        invariant
            end <= v.len(),
            v@ == raw@,
            without_line_end(raw@) == without_line_end(v@.subrange(0, end as int)),
        decreases end,
    {
        proof {
            assert(v@.subrange(0, end as int).drop_last() == v@.subrange(0, end - 1));
        }
        end = end - 1;
    }
    proof {
        let t = v@.subrange(0, end as int);
        if end > 0 {
            assert(t.last() == v@[end - 1]);
        }
        assert(without_line_end(t) == t);
    }
    let line = crate::text::string_from_chars(&v, 0, end);
    let s = strip_ansi_and_control(line.as_str());
    if is_err {
        LogEvent::Stderr(s)
    } else {
        LogEvent::Stdout(s)
    }
}

/// The log line an event becomes: `[OUT] `, `[ERR] ` or `[[Error]] ` before its text.
pub open spec fn event_log_line(e: LogEvent) -> Seq<char> {
    match e {
        LogEvent::Stdout(s) => "[OUT] "@ + s@,
        LogEvent::Stderr(s) => "[ERR] "@ + s@,
        LogEvent::Error(s) => "[[Error]] "@ + s@,
    }
}

/// Formats an event for the log.
pub fn format_log_event(e: &LogEvent) -> (r: String)
    ensures
        r@ == event_log_line(*e),
{
    let (prefix, text) = match e {
        LogEvent::Stdout(s) => ("[OUT] ", s),
        LogEvent::Stderr(s) => ("[ERR] ", s),
        LogEvent::Error(s) => ("[[Error]] ", s),
    };
    let mut out = String::from_str(prefix);
    out.append(text.as_str());
    out
}

/// The log line for a child that exited: its exit code, or `None` when it
/// was ended by a signal.
pub open spec fn exit_log_line(code: Option<i32>) -> Seq<char> {
    "[[Exited]] 退出码="@ + match code {
        Some(c) => decimal(c as int),
        None => "None"@,
    }
}

/// Formats the log line for an exited child.
pub fn format_exit_line(code: Option<i32>) -> (r: String)
    ensures
        r@ == exit_log_line(code),
{
    let mut out = String::from_str("[[Exited]] 退出码=");
    match code {
        Some(c) => {
            out.append(format_i64(c as i64).as_str());
        },
        None => {
            out.append("None");
        },
    }
    out
}

proof fn lemma_csi_end_shift(p: Seq<char>, s: Seq<char>, j: int)
    requires
        0 <= j,
    ensures
        csi_end(p + s, p.len() + j) == p.len() + csi_end(s, j),
    decreases s.len() - j,
{
    if j < s.len() {
        assert((p + s)[p.len() + j] == s[j]);
        if !is_csi_final(s[j]) {
            lemma_csi_end_shift(p, s, j + 1);
        }
    }
}

proof fn lemma_strip_from_shift(p: Seq<char>, s: Seq<char>, j: int)
    requires
        0 <= j,
    ensures
        strip_from(p + s, p.len() + j) == strip_from(s, j),
    decreases s.len() - j,
{
    let t = p + s;
    let i = p.len() + j;
    if j < s.len() {
        assert(t[i] == s[j]);
        if is_escape(s[j]) {
            if j + 1 < s.len() && s[j + 1] == '[' {
                assert(t[i + 1] == s[j + 1]);
                lemma_csi_end_bounds(s, j + 2);
                lemma_csi_end_shift(p, s, j + 2);
                let k = csi_end(s, j + 2);
                lemma_strip_from_shift(p, s, k);
            } else {
                if j + 1 < s.len() {
                    assert(t[i + 1] == s[j + 1]);
                }
                lemma_strip_from_shift(p, s, j + 1);
            }
        } else {
            lemma_strip_from_shift(p, s, j + 1);
        }
    }
}

proof fn lemma_strip_from_concat(a: Seq<char>, b: Seq<char>, i: int)
    requires
        0 <= i <= a.len(),
        forall|k: int| 0 <= k < a.len() ==> !is_escape(#[trigger] a[k]),
    ensures
        strip_from(a + b, i) == strip_from(a, i) + stripped(b),
    decreases a.len() - i,
{
    if i == a.len() {
        lemma_strip_from_shift(a, b, 0);
        assert(strip_from(a, i) == Seq::<char>::empty());
        assert(Seq::<char>::empty() + stripped(b) == stripped(b));
    } else {
        assert((a + b)[i] == a[i]);
        assert(!is_escape(a[i]));
        lemma_strip_from_concat(a, b, i + 1);
        if !(is_control(a[i]) && a[i] != '\t') {
            assert(seq![a[i]] + strip_from(a, i + 1) + stripped(b) == seq![a[i]] + (strip_from(
                a,
                i + 1,
            ) + stripped(b)));
        }
    }
}

/// Cleaning text made of two parts, the first without an escape character,
/// is cleaning each part and joining the results.
pub proof fn lemma_stripped_concat(a: Seq<char>, b: Seq<char>)
    requires
        forall|k: int| 0 <= k < a.len() ==> !is_escape(#[trigger] a[k]),
    ensures
        stripped(a + b) == stripped(a) + stripped(b),
{
    lemma_strip_from_concat(a, b, 0);
}

proof fn lemma_csi_end_of_sequence(s: Seq<char>, params: Seq<char>, f: char, j: int)
    requires
        0 <= j <= params.len(),
        s.len() >= 2 + params.len() + 1,
        s.subrange(2, 2 + params.len() as int) == params,
        s[2 + params.len() as int] == f,
        '@' <= f && f <= '~',
        forall|k: int| 0 <= k < params.len() ==> !('@' <= #[trigger] params[k] && params[k] <= '~'),
    ensures
        csi_end(s, 2 + j) == 3 + params.len(),
    decreases params.len() - j,
{
    if j < params.len() {
        assert(s[2 + j] == params[j]);
        lemma_csi_end_of_sequence(s, params, f, j + 1);
    }
}

/// A control sequence `ESC [ params final` is removed whole: it ends at its
/// first character in `@..=~`, whichever that is, and what follows is kept
/// as it would be on its own.
pub proof fn lemma_csi_sequence_removed(a: Seq<char>, params: Seq<char>, f: char, b: Seq<char>)
    requires
        forall|k: int| 0 <= k < a.len() ==> !is_escape(#[trigger] a[k]),
        forall|k: int| 0 <= k < params.len() ==> !('@' <= #[trigger] params[k] && params[k] <= '~'),
        '@' <= f && f <= '~',
    ensures
        stripped(a + (seq!['\u{1b}', '['] + params + seq![f]) + b) == stripped(a) + stripped(b),
{
    let head = seq!['\u{1b}', '['] + params + seq![f];
    let rest = head + b;
    assert(a + head + b == a + rest);
    lemma_stripped_concat(a, rest);
    assert(rest[0] == '\u{1b}');
    assert(rest[1] == '[');
    assert(rest.subrange(2, 2 + params.len() as int) == params);
    assert(rest[2 + params.len() as int] == f);
    lemma_csi_end_of_sequence(rest, params, f, 0);
    lemma_csi_end_bounds(rest, 2);
    assert(stripped(rest) == strip_from(rest, head.len() as int));
    lemma_strip_from_shift(head, b, 0);
}

/// An escape character not followed by `[` is dropped alone.
pub proof fn lemma_lone_escape_removed(a: Seq<char>, b: Seq<char>)
    requires
        forall|k: int| 0 <= k < a.len() ==> !is_escape(#[trigger] a[k]),
        b.len() == 0 || b[0] != '[',
    ensures
        stripped(a + seq!['\u{1b}'] + b) == stripped(a) + stripped(b),
{
    let rest = seq!['\u{1b}'] + b;
    assert(a + seq!['\u{1b}'] + b == a + rest);
    lemma_stripped_concat(a, rest);
    if b.len() > 0 {
        assert(rest[1] == b[0]);
    }
    assert(stripped(rest) == strip_from(rest, 1));
    lemma_strip_from_shift(seq!['\u{1b}'], b, 0);
}

} // verus!
