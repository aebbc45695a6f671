//! The portal's last answer, kept for when a login page fails to show, and
//! what is told of it later.

use crate::number::{
    decimal, is_digit, law_decimal_reads_back, lemma_decimal_digits, number, parse_number,
    push_decimal,
};
use crate::text::{
    before, chars_of, find_marked, first_marked, is_space, law_first_marked, law_lines,
    lemma_lines_first,
    lemma_words_before_space, lines, nth_word, text_of, view_of, without_cr, words,
};
use vstd::prelude::*;

verus! {

/// The file that holds the capture: in the home directory, and without one
/// under `/tmp`.
pub open spec fn capture_file(home: Option<Seq<char>>) -> Seq<char> {
    let place = match home {
        Some(h) => h,
        None => "/tmp"@,
    };
    place + "/.torii/last-portal.txt"@
}

/// The file that holds the capture, to write it and to read it.
pub fn capture_path(home: &Option<String>) -> (out: String)
    ensures
        out@ == capture_file(view_of(*home)),
{
    let mut out: String = match home {
        Some(h) => h.clone(),
        None => "/tmp".to_string(),
    };
    out.append("/.torii/last-portal.txt");
    out
}

/// What is kept of an answer: when it came, to which check, and the answer.
pub open spec fn capture(now: nat, probe: Seq<char>, raw: Option<Seq<char>>) -> Seq<char> {
    "portal seen at "@ + decimal(now) + " (unix time)\n\n===== "@ + probe + "\n"@ + match raw {
        Some(answer) => answer,
        None => "not a plain-HTTP address\n"@,
    }
}

/// The text to keep of the answer `raw` to the check at `probe`.
pub fn capture_text(now: u64, probe: &str, raw: &Option<String>) -> (out: String)
    ensures
        out@ == capture(now as nat, probe@, view_of(*raw)),
{
    let mut out: String = "portal seen at ".to_string();
    push_decimal(&mut out, now);
    out.append(" (unix time)\n\n===== ");
    out.append(probe);
    out.append("\n");
    match raw {
        Some(answer) => out.append(answer.as_str()),
        None => out.append("not a plain-HTTP address\n"),
    }
    out
}

/// When a capture was made: its fourth word, and 0 where that is no number.
pub open spec fn seen_at(text: Seq<char>) -> nat {
    if words(text).len() > 3 {
        match number(words(text)[3], u64::MAX as nat) {
            Some(at) => at,
            None => 0,
        }
    } else {
        0
    }
}

/// Which check a capture is of: the rest of the first line that begins with
/// the mark, and nothing where there is none.
pub open spec fn probe_in(text: Seq<char>) -> Seq<char> {
    match first_marked(lines(text), "===== "@) {
        Some(probe) => probe,
        None => seq![],
    }
}

/// A time span in the largest unit that it fills.
pub open spec fn span(secs: nat) -> Seq<char> {
    if secs < 60 {
        decimal(secs) + " s"@
    } else if secs < 3600 {
        decimal(secs / 60) + " min"@
    } else if secs < 86400 {
        decimal(secs / 3600) + " h"@
    } else {
        decimal(secs / 86400) + " d"@
    }
}

/// What is told of a capture at the time `now`.
pub open spec fn last_seen(text: Option<Seq<char>>, now: nat) -> Seq<char> {
    match text {
        Some(t) => {
            let secs = if now > seen_at(t) {
                (now - seen_at(t)) as nat
            } else {
                0
            };
            span(secs) + " ago · "@ + probe_in(t)
        },
        None => "none yet"@,
    }
}

fn read_seen_at(text: &[char]) -> (out: u64)
    ensures
        out == seen_at(text@),
{
    match nth_word(text, 3) {
        Some(word) => match parse_number(word, u64::MAX) {
            Some(at) => at,
            None => 0,
        },
        None => 0,
    }
}

fn read_probe(text: &[char]) -> (out: String)
    ensures
        out@ == probe_in(text@),
{
    match find_marked(text, "===== ") {
        Some(probe) => text_of(probe),
        None => String::new(),
    }
}

fn push_span(out: &mut String, secs: u64)
    ensures
        final(out)@ == old(out)@ + span(secs as nat),
{
    if secs < 60 {
        push_decimal(out, secs);
        out.append(" s");
    } else if secs < 3600 {
        push_decimal(out, secs / 60);
        out.append(" min");
    } else if secs < 86400 {
        push_decimal(out, secs / 3600);
        out.append(" h");
    } else {
        push_decimal(out, secs / 86400);
        out.append(" d");
    }
    assert(out@ =~= old(out)@ + span(secs as nat));
}

/// When the last login page was opened, and for which address, from the
/// capture where there is one.
pub fn last_portal(text: &Option<String>, now: u64) -> (out: String)
    ensures
        out@ == last_seen(view_of(*text), now as nat),
{
    match text {
        Some(t) => {
            let chars = chars_of(t.as_str());
            let at: u64 = read_seen_at(chars.as_slice());
            let secs: u64 = now.saturating_sub(at);
            let probe = read_probe(chars.as_slice());
            let mut out: String = String::new();
            push_span(&mut out, secs);
            out.append(" ago · ");
            out.append(probe.as_str());
            proof {
                assert(out@ =~= last_seen(view_of(*text), now as nat));
            }
            out
        },
        None => "none yet".to_string(),
    }
}

proof fn lemma_capture_time(now: u64, probe: Seq<char>, raw: Option<Seq<char>>)
    ensures
        seen_at(capture(now as nat, probe, raw)) == now,
{
    let text = capture(now as nat, probe, raw);
    let digits = decimal(now as nat);
    lemma_decimal_digits(now as nat);
    law_decimal_reads_back(now as nat, u64::MAX as nat);
    let rest = text.skip("portal seen at "@.len() as int + digits.len() as int + 1);
    let from_digits = digits + (seq![' '] + rest);
    let from_at = "at"@ + (seq![' '] + from_digits);
    let from_seen = "seen"@ + (seq![' '] + from_at);
    assert(text =~= "portal"@ + (seq![' '] + from_seen)) by {
        reveal_strlit("portal seen at ");
        reveal_strlit(" (unix time)\n\n===== ");
        reveal_strlit("portal");
        reveal_strlit("seen");
        reveal_strlit("at");
    }
    assert forall|i: int| 0 <= i < digits.len() implies !is_space(#[trigger] digits[i]) by {
        assert(is_digit(digits[i]));
    }
    lemma_words_before_space(digits, rest);
    assert(words(from_at) == seq!["at"@] + words(from_digits)) by {
        reveal_strlit("at");
        lemma_words_before_space("at"@, from_digits);
    }
    assert(words(from_seen) == seq!["seen"@] + words(from_at)) by {
        reveal_strlit("seen");
        lemma_words_before_space("seen"@, from_at);
    }
    assert(words(text) == seq!["portal"@] + words(from_seen)) by {
        reveal_strlit("portal");
        lemma_words_before_space("portal"@, from_seen);
    }
    assert(words(text)[3] == digits);
}

/// The first line of an address: all of it, unless it holds an end of a line or
/// a carriage return stands at its end.
pub open spec fn first_line(probe: Seq<char>) -> Seq<char> {
    without_cr(before(probe, '\n'))
}

/// The first line of a capture.
spec fn time_line(now: nat) -> Seq<char> {
    "portal seen at "@ + decimal(now) + " (unix time)"@
}

proof fn lemma_time_line(now: nat)
    ensures
        !time_line(now).contains('\n'),
        time_line(now).len() > 0,
        time_line(now)[0] == 'p',
        time_line(now).last() == ')',
{
    let line = time_line(now);
    let digits = decimal(now);
    reveal_strlit("portal seen at ");
    reveal_strlit(" (unix time)");
    lemma_decimal_digits(now);
    assert forall|i: int| 0 <= i < line.len() implies #[trigger] line[i] != '\n' by {
        if 15 <= i < 15 + digits.len() {
            assert(is_digit(digits[i - 15]));
        }
    }
}

/// A capture is the line on the time, an empty line, the mark, and the rest.
proof fn lemma_capture_shape(now: nat, probe: Seq<char>, raw: Option<Seq<char>>)
    ensures
        ({
            let answer = match raw {
                Some(answer) => answer,
                None => "not a plain-HTTP address\n"@,
            };
            capture(now, probe, raw) == time_line(now) + (seq!['\n'] + (seq!['\n'] + ("===== "@ + (
            probe + (seq!['\n'] + answer)))))
        }),
{
    let answer = match raw {
        Some(answer) => answer,
        None => "not a plain-HTTP address\n"@,
    };
    assert(" (unix time)\n\n===== "@ =~= " (unix time)"@ + seq!['\n'] + seq!['\n'] + "===== "@) by {
        reveal_strlit(" (unix time)\n\n===== ");
        reveal_strlit(" (unix time)");
        reveal_strlit("===== ");
    }
    assert("\n"@ =~= seq!['\n']) by {
        reveal_strlit("\n");
    }
    lemma_capture_regroup(
        "portal seen at "@,
        decimal(now),
        " (unix time)"@,
        seq!['\n'],
        "===== "@,
        probe,
        answer,
    );
}

proof fn lemma_capture_regroup(
    a: Seq<char>,
    b: Seq<char>,
    c: Seq<char>,
    n: Seq<char>,
    d: Seq<char>,
    p: Seq<char>,
    r: Seq<char>,
)
    ensures
        a + b + (c + n + n + d) + p + n + r == (a + b + c) + (n + (n + (d + (p + (n + r))))),
{
    assert(a + b + (c + n + n + d) + p + n + r =~= (a + b + c) + (n + (n + (d + (p + (n + r))))));
}

/// The marked line of a capture, and where the lines after it begin.
proof fn lemma_marked_line(probe: Seq<char>, answer: Seq<char>) -> (rest: Seq<Seq<char>>)
    ensures
        lines("===== "@ + (probe + (seq!['\n'] + answer))) == seq!["===== "@ + first_line(probe)]
            + rest,
{
    let mark = "===== "@;
    let shown = before(probe, '\n');
    probe.index_of_first_ensures('\n');
    let body = (probe + (seq!['\n'] + answer)).skip(shown.len() as int + 1);
    assert(probe + (seq!['\n'] + answer) =~= shown + (seq!['\n'] + body));
    let marked = mark + shown;
    assert(mark + (shown + (seq!['\n'] + body)) =~= marked + (seq!['\n'] + body));
    reveal_strlit("===== ");
    assert forall|i: int| 0 <= i < marked.len() implies #[trigger] marked[i] != '\n' by {
        if i >= mark.len() && !probe.contains('\n') {
            assert(probe.contains(probe[i - mark.len()]));
        }
    }
    assert(!marked.contains('\n'));
    lemma_lines_first(marked, body);
    assert(without_cr(marked) =~= mark + first_line(probe));
    lines(body)
}

proof fn lemma_capture_probe(now: u64, probe: Seq<char>, raw: Option<Seq<char>>)
    ensures
        probe_in(capture(now as nat, probe, raw)) == first_line(probe),
{
    let answer = match raw {
        Some(answer) => answer,
        None => "not a plain-HTTP address\n"@,
    };
    let mark = "===== "@;
    let top = time_line(now as nat);
    let from_mark = mark + (probe + (seq!['\n'] + answer));
    let others = seq![top, Seq::<char>::empty()];
    lemma_capture_shape(now as nat, probe, raw);
    lemma_time_line(now as nat);
    let rest = lemma_marked_line(probe, answer);
    law_lines(top, seq!['\n'] + from_mark);
    law_lines(seq![], from_mark);
    assert(Seq::<char>::empty() + (seq!['\n'] + from_mark) =~= seq!['\n'] + from_mark);
    let line = mark + first_line(probe);
    assert(seq![top] + (seq![Seq::<char>::empty()] + (seq![line] + rest)) =~= others + (seq![line]
        + rest));
    assert forall|i: int| 0 <= i < others.len() implies !mark.is_prefix_of(
        #[trigger] others[i],
    ) by {
        reveal_strlit("===== ");
        if mark.is_prefix_of(others[i]) {
            assert(others[i].subrange(0, mark.len() as int)[0] == others[i][0]);
        }
    }
    law_first_marked(others, mark, first_line(probe), rest);
}

/// A capture tells how long ago it was made and for which check address: the
/// first line of it, which is all of an address that is one line of its own. A
/// clock that went back counts as no time passed.
pub proof fn law_capture_reads_back(
    now: u64,
    probe: Seq<char>,
    raw: Option<Seq<char>>,
    later: nat,
)
    ensures
        seen_at(capture(now as nat, probe, raw)) == now,
        probe_in(capture(now as nat, probe, raw)) == first_line(probe),
        !probe.contains('\n') && (probe.len() == 0 || probe.last() != '\r') ==> first_line(probe)
            == probe,
        last_seen(Some(capture(now as nat, probe, raw)), later) == span(
            if later > now {
                (later - now) as nat
            } else {
                0
            },
        ) + " ago · "@ + first_line(probe),
{
    lemma_capture_time(now, probe, raw);
    lemma_capture_probe(now, probe, raw);
    probe.index_of_first_ensures('\n');
}

/// The answer is kept whole, from its first character to its last, after a head
/// that tells the time and the check address and depends on nothing else.
pub proof fn law_capture_keeps_answer(now: nat, probe: Seq<char>, answer: Seq<char>)
    ensures
        ({
            let text = capture(now, probe, Some(answer));
            let head = "portal seen at "@ + decimal(now) + " (unix time)\n\n===== "@ + probe + seq![
                '\n',
            ];
            &&& text.len() == head.len() + answer.len()
            &&& text.take(head.len() as int) == head
            &&& text.skip(head.len() as int) == answer
            &&& capture(now, probe, None) == head + "not a plain-HTTP address\n"@
        }),
{
    let text = capture(now, probe, Some(answer));
    let head = "portal seen at "@ + decimal(now) + " (unix time)\n\n===== "@ + probe + seq!['\n'];
    reveal_strlit("\n");
    assert("\n"@ =~= seq!['\n']);
    assert(text =~= head + answer);
    assert(text.take(head.len() as int) =~= head);
    assert(text.skip(head.len() as int) =~= answer);
}

/// Read line by line, a capture is a line on the time, an empty line, the
/// marked check address, and then exactly the lines of the answer.
pub proof fn law_capture_lines(now: nat, probe: Seq<char>, answer: Seq<char>)
    requires
        !probe.contains('\n'),
        probe.len() == 0 || probe.last() != '\r',
    ensures
        lines(capture(now, probe, Some(answer))) == seq![
            "portal seen at "@ + decimal(now) + " (unix time)"@,
            seq![],
            "===== "@ + probe,
        ] + lines(answer),
{
    let first = time_line(now);
    let third = "===== "@ + probe;
    let after_blank = third + (seq!['\n'] + answer);
    lemma_capture_shape(now, probe, Some(answer));
    lemma_time_line(now);
    assert(third.len() > 0 && third.last() != '\r' && !third.contains('\n')) by {
        reveal_strlit("===== ");
        assert forall|i: int| 0 <= i < third.len() implies #[trigger] third[i] != '\n' by {
            if i >= 6 {
                assert(probe.contains(probe[i - 6]));
            }
        }
    }
    law_lines(third, answer);
    law_lines(seq![], after_blank);
    law_lines(first, seq!['\n'] + after_blank);
    assert(Seq::<char>::empty() + (seq!['\n'] + after_blank) =~= seq!['\n'] + after_blank);
    assert("===== "@ + (probe + (seq!['\n'] + answer)) =~= after_blank);
    assert(seq![first] + (seq![Seq::<char>::empty()] + (seq![third] + lines(answer))) =~= seq![
        first,
        seq![],
        third,
    ] + lines(answer));
}

/// A time span is told in whole units, rounded down: in seconds below a minute,
/// in minutes below an hour, in hours below a day, and else in days.
pub proof fn law_span_rounds_down(secs: nat, n: nat)
    ensures
        secs < 60 ==> span(secs) == decimal(secs) + " s"@,
        60 <= secs < 3600 && n * 60 <= secs < (n + 1) * 60 ==> span(secs) == decimal(n) + " min"@,
        3600 <= secs < 86400 && n * 3600 <= secs < (n + 1) * 3600 ==> span(secs) == decimal(n)
            + " h"@,
        86400 <= secs && n * 86400 <= secs < (n + 1) * 86400 ==> span(secs) == decimal(n) + " d"@,
{
}

/// Without a capture there was no login page yet. Of a text that gives no time
/// the time is 0, and of one that marks no address the address is empty.
pub proof fn law_unreadable_capture(text: Seq<char>, now: nat)
    ensures
        last_seen(None, now) == "none yet"@,
        words(text).len() <= 3 || number(words(text)[3], 0xffff_ffff_ffff_ffff) is None
            ==> seen_at(text) == 0,
        words(text).len() > 3 ==> (number(words(text)[3], 0xffff_ffff_ffff_ffff) matches Some(at)
            ==> seen_at(text) == at),
        (forall|i: int|
            0 <= i < lines(text).len() ==> !"===== "@.is_prefix_of(#[trigger] lines(text)[i]))
            ==> probe_in(text) == Seq::<char>::empty(),
        last_seen(Some(text), now) == span(
            if now > seen_at(text) {
                (now - seen_at(text)) as nat
            } else {
                0
            },
        ) + " ago · "@ + probe_in(text),
{
    if forall|i: int|
        0 <= i < lines(text).len() ==> !"===== "@.is_prefix_of(#[trigger] lines(text)[i]) {
        law_first_marked(lines(text), "===== "@, seq![], seq![]);
    }
}

/// The marked address is all that follows the mark in the first line with one.
pub proof fn law_marked_probe(
    text: Seq<char>,
    others: Seq<Seq<char>>,
    probe: Seq<char>,
    rest: Seq<Seq<char>>,
)
    requires
        lines(text) == others + (seq!["===== "@ + probe] + rest),
        forall|i: int| 0 <= i < others.len() ==> !"===== "@.is_prefix_of(#[trigger] others[i]),
    ensures
        probe_in(text) == probe,
{
    law_first_marked(others, "===== "@, probe, rest);
}

/// The capture is one file, under the whole home directory or under `/tmp`.
pub proof fn law_capture_file(home: Seq<char>)
    ensures
        capture_file(Some(home)) == home + "/.torii/last-portal.txt"@,
        capture_file(None) == "/tmp/.torii/last-portal.txt"@,
{
    reveal_strlit("/tmp");
    reveal_strlit("/.torii/last-portal.txt");
    reveal_strlit("/tmp/.torii/last-portal.txt");
    assert("/tmp"@ + "/.torii/last-portal.txt"@ =~= "/tmp/.torii/last-portal.txt"@);
}

} // verus!
