//! The one plain-HTTP request that finds the login page.

use crate::http::{authority, ended, is_line, lemma_lines_ended, line_end, push_authority};
use crate::number::{decimal, is_digit, lemma_decimal_digits};
use crate::text::{chars_of, is_space, law_words, lemma_lines_first, lines, words};
use vstd::prelude::*;
use vstd::slice::slice_subrange;
use vstd::utf8::{
    decode_utf8, decode_utf8_encode_utf8, encode_scalar, encode_utf8, valid_utf8,
};

verus! {

/// How many bytes of an answer are kept, as they came and as text.
pub const ANSWER_LIMIT: usize = 8192;

/// How many seconds a host has to take the connection, and then to answer.
pub const PATIENCE_SECS: u64 = 4;

/// What became of a request. A reason is the operating system's own words.
pub enum Fetch {
    /// The host has no address.
    Unresolved,
    /// The host did not take the connection.
    Unconnected(String),
    /// The request could not be sent.
    Unsent(String),
    /// The request was sent, and reading the answer brought nothing.
    Unanswered(String),
    /// The bytes of the answer, up to where the host ended it.
    Answered(Vec<u8>),
}

/// Whether the request went out.
pub open spec fn is_sent(fetch: Fetch) -> bool {
    fetch is Answered || fetch is Unanswered
}

/// Whether the request went out.
pub fn was_sent(fetch: &Fetch) -> (out: bool)
    ensures
        out == is_sent(*fetch),
{
    match fetch {
        Fetch::Answered(_) => true,
        Fetch::Unanswered(_) => true,
        _ => false,
    }
}

/// The request for `path`, where `host` is the host and, if it is not the
/// usual one, the port.
pub open spec fn request(host: Seq<char>, path: Seq<char>) -> Seq<char> {
    "GET "@ + path + " HTTP/1.1\r\nHost: "@ + host
        + "\r\nUser-Agent: Mozilla/5.0 (X11; Linux x86_64) torii\r\nAccept: text/html,*/*\r\nConnection: close\r\n\r\n"@
}

/// The request for `path` on `host`, the way a browser sends it.
pub fn request_text(host: &str, port: u16, path: &str) -> (out: String)
    ensures
        out@ == request(authority(host@, port), path@),
{
    let mut out: String = "GET ".to_string();
    out.append(path);
    out.append(" HTTP/1.1\r\nHost: ");
    push_authority(&mut out, host, port);
    out.append(
        "\r\nUser-Agent: Mozilla/5.0 (X11; Linux x86_64) torii\r\nAccept: text/html,*/*\r\nConnection: close\r\n\r\n",
    );
    out
}

/// Which of a host's addresses to ask, of which `ipv4` tells the IPv4 ones:
/// the first of those, since a portal network rarely routes IPv6, and without
/// one the first of all.
pub fn pick_address(ipv4: &Vec<bool>) -> (out: Option<usize>)
    ensures
        match out {
            Some(i) => {
                &&& i < ipv4@.len()
                &&& forall|j: int| 0 <= j < i ==> !#[trigger] ipv4@[j]
                &&& ipv4@[i as int] || (i == 0 && !ipv4@.contains(true))
            },
            None => ipv4@.len() == 0,
        },
{
    let mut i: usize = 0;
    while i < ipv4.len()
        invariant
            i <= ipv4.len(),
            forall|j: int| 0 <= j < i ==> !#[trigger] ipv4@[j],
        decreases ipv4.len() - i,
    {
        if ipv4[i] {
            return Some(i);
        }
        i = i + 1;
    }
    if ipv4.len() > 0 {
        Some(0)
    } else {
        None
    }
}

/// What `String::from_utf8_lossy` makes of bytes.
pub uninterp spec fn utf8_lossy(bytes: Seq<u8>) -> Seq<char>;

/// `String::from_utf8_lossy`: bytes that are UTF-8 become the text that they
/// encode. What stands in place of other bytes is left to the name.
#[verifier::external_body]
fn decode_lossy(bytes: &[u8]) -> (out: String)
    ensures
        out@ == utf8_lossy(bytes@),
        valid_utf8(bytes@) ==> out@ == decode_utf8(bytes@),
{
    String::from_utf8_lossy(bytes).into_owned()
}

/// The part of an answer that is kept.
pub open spec fn kept(bytes: Seq<u8>) -> Seq<u8> {
    if bytes.len() > ANSWER_LIMIT {
        bytes.take(ANSWER_LIMIT as int)
    } else {
        bytes
    }
}

/// As much of the start of `s` as takes no more than `limit` bytes.
pub open spec fn clipped(s: Seq<char>, limit: nat) -> Seq<char>
    decreases s.len(),
{
    if s.len() == 0 || encode_utf8(s).len() <= limit {
        s
    } else {
        clipped(s.drop_last(), limit)
    }
}

proof fn lemma_clipped_fits(s: Seq<char>, limit: nat)
    ensures
        encode_utf8(clipped(s, limit)).len() <= limit,
    decreases s.len(),
{
    if s.len() > 0 && encode_utf8(s).len() > limit {
        lemma_clipped_fits(s.drop_last(), limit);
    }
}

proof fn lemma_last_bytes(s: Seq<char>)
    requires
        s.len() > 0,
    ensures
        encode_utf8(s).len() == encode_utf8(s.drop_last()).len() + encode_scalar(
            s.last() as u32,
        ).len(),
    decreases s.len(),
{
    if s.len() == 1 {
        assert(encode_utf8(s.drop_first()) =~= seq![]);
        assert(encode_utf8(s.drop_last()) =~= seq![]);
    } else {
        lemma_last_bytes(s.drop_first());
        assert(s.drop_first().drop_last() =~= s.drop_last().drop_first());
        assert(s.drop_first().last() == s.last());
        assert(s.drop_last()[0] == s[0]);
    }
}

fn byte_width(c: char) -> (out: usize)
    ensures
        out == encode_scalar(c as u32).len(),
{
    let n: u32 = c as u32;
    if n <= 0x7f {
        1
    } else if n <= 0x7ff {
        2
    } else if n <= 0xffff {
        3
    } else {
        4
    }
}

fn clip(s: &str, limit: usize) -> (out: String)
    ensures
        out@ == clipped(s@, limit as nat),
{
    let chars = chars_of(s);
    let mut n: usize = chars.len();
    let mut used: usize = s.as_bytes().len();
    proof {
        assert(s@.take(n as int) =~= s@);
    }
    while n > 0 && used > limit
        invariant
            chars@ == s@,
            n <= chars.len(),
            used == encode_utf8(s@.take(n as int)).len(),
            clipped(s@, limit as nat) == clipped(s@.take(n as int), limit as nat),
        decreases n,
    {
        proof {
            let t = s@.take(n as int);
            lemma_last_bytes(t);
            assert(t.drop_last() =~= s@.take(n - 1));
            assert(t.last() == chars@[n - 1]);
        }
        used = used - byte_width(chars[n - 1]);
        n = n - 1;
    }
    let out = s.substring_char(0, n);
    proof {
        assert(out@ =~= s@.take(n as int));
    }
    out.to_string()
}

/// The raw answer of `host`, or a line saying why there is none.
pub open spec fn fetched(host: Seq<char>, fetch: Fetch) -> Seq<char> {
    match fetch {
        Fetch::Unresolved => "cannot resolve "@ + host + "\n"@,
        Fetch::Unconnected(reason) => "cannot connect to "@ + host + ": "@ + reason@ + "\n"@,
        Fetch::Unsent(reason) => "cannot send to "@ + host + ": "@ + reason@ + "\n"@,
        Fetch::Unanswered(reason) => "no answer from "@ + host + ": "@ + reason@ + "\n"@,
        Fetch::Answered(bytes) => if bytes@.len() == 0 {
            "no answer from "@ + host + ": "@ + "connection closed"@ + "\n"@
        } else {
            clipped(utf8_lossy(kept(bytes@)), ANSWER_LIMIT as nat)
        },
    }
}

fn failure(what: &str, host: &str, reason: &str) -> (out: String)
    ensures
        out@ == what@ + host@ + ": "@ + reason@ + "\n"@,
{
    let mut out: String = what.to_string();
    out.append(host);
    out.append(": ");
    out.append(reason);
    out.append("\n");
    out
}

/// The raw answer of `host`, at most 8 KB of it, or a line saying why there is
/// none.
pub fn fetch_text(host: &str, fetch: &Fetch) -> (out: String)
    ensures
        out@ == fetched(host@, *fetch),
        fetch matches Fetch::Answered(bytes) ==> bytes@.len() > 0 ==> encode_utf8(out@).len()
            <= ANSWER_LIMIT,
        fetch matches Fetch::Answered(bytes) ==> bytes@.len() > 0 && valid_utf8(kept(bytes@))
            ==> out@ == decode_utf8(kept(bytes@)),
        fetch matches Fetch::Answered(bytes) ==> 0 < bytes@.len() <= 8192 && valid_utf8(bytes@)
            ==> out@ == decode_utf8(bytes@),
        fetch matches Fetch::Answered(bytes) ==> bytes@.len() > 8192 && valid_utf8(
            bytes@.take(8192),
        ) ==> out@ == decode_utf8(bytes@.take(8192)),
{
    match fetch {
        Fetch::Unresolved => {
            let mut out: String = "cannot resolve ".to_string();
            out.append(host);
            out.append("\n");
            out
        },
        Fetch::Unconnected(reason) => failure("cannot connect to ", host, reason.as_str()),
        Fetch::Unsent(reason) => failure("cannot send to ", host, reason.as_str()),
        Fetch::Unanswered(reason) => failure("no answer from ", host, reason.as_str()),
        Fetch::Answered(bytes) => {
            let all = bytes.as_slice();
            if all.len() == 0 {
                return failure("no answer from ", host, "connection closed");
            }
            let part = if all.len() > ANSWER_LIMIT {
                slice_subrange(all, 0, ANSWER_LIMIT)
            } else {
                all
            };
            proof {
                assert(part@ =~= kept(bytes@));
            }
            let text = decode_lossy(part);
            proof {
                lemma_clipped_fits(text@, ANSWER_LIMIT as nat);
                if valid_utf8(part@) {
                    decode_utf8_encode_utf8(part@);
                }
            }
            clip(text.as_str(), ANSWER_LIMIT)
        },
    }
}

/// The operating system's own words on a request, where it had any.
pub open spec fn reason_in(fetch: Fetch) -> Seq<char> {
    match fetch {
        Fetch::Unconnected(reason) => reason@,
        Fetch::Unsent(reason) => reason@,
        Fetch::Unanswered(reason) => reason@,
        _ => seq![],
    }
}

/// There is always something to tell: without an answer it is a line, which
/// ends as one, and it is the only one unless the host or the reason has a line
/// feed of its own.
pub proof fn law_no_answer_says_why(host: Seq<char>, fetch: Fetch)
    requires
        fetch matches Fetch::Answered(bytes) ==> bytes@.len() == 0,
    ensures
        fetched(host, fetch).len() > 1,
        fetched(host, fetch).last() == '\n',
        !host.contains('\n') && !reason_in(fetch).contains('\n') ==> lines(
            fetched(host, fetch),
        ).len() == 1,
{
    reveal_strlit("cannot resolve ");
    reveal_strlit("cannot connect to ");
    reveal_strlit("cannot send to ");
    reveal_strlit("no answer from ");
    reveal_strlit("connection closed");
    reveal_strlit(": ");
    reveal_strlit("\n");
    let text = fetched(host, fetch);
    let line = text.drop_last();
    let reason = reason_in(fetch);
    if !host.contains('\n') && !reason.contains('\n') {
        assert forall|i: int| 0 <= i < host.len() implies #[trigger] host[i] != '\n' by {
            assert(host.contains(host[i]));
        }
        assert forall|i: int| 0 <= i < reason.len() implies #[trigger] reason[i] != '\n' by {
            assert(reason.contains(reason[i]));
        }
        assert(!line.contains('\n'));
        assert(text =~= line + (seq!['\n'] + Seq::<char>::empty()));
        lemma_lines_first(line, seq![]);
    }
}

proof fn lemma_site_is_line(host: Seq<char>, port: u16)
    requires
        !host.contains('\n'),
    ensures
        !authority(host, port).contains('\n'),
{
    let site = authority(host, port);
    reveal_strlit(":");
    lemma_decimal_digits(port as nat);
    let digits = decimal(port as nat);
    assert forall|i: int| 0 <= i < site.len() implies #[trigger] site[i] != '\n' by {
        if i < host.len() {
            assert(host.contains(host[i]));
        } else if i > host.len() {
            assert(is_digit(digits[i - host.len() - 1]));
        }
    }
}

/// The lines of a request, where `site` is the host with its port.
spec fn request_lines(site: Seq<char>, path: Seq<char>) -> Seq<Seq<char>> {
    seq![
        "GET "@ + path + " HTTP/1.1"@,
        "Host: "@ + site,
        "User-Agent: Mozilla/5.0 (X11; Linux x86_64) torii"@,
        "Accept: text/html,*/*"@,
        "Connection: close"@,
        seq![],
    ]
}

proof fn lemma_request_joins()
    ensures
        " HTTP/1.1\r\nHost: "@ == " HTTP/1.1"@ + line_end(true) + "Host: "@,
        "\r\nUser-Agent: Mozilla/5.0 (X11; Linux x86_64) torii\r\nAccept: text/html,*/*\r\nConnection: close\r\n\r\n"@
            == line_end(true) + ("User-Agent: Mozilla/5.0 (X11; Linux x86_64) torii"@ + line_end(
            true,
        ) + ("Accept: text/html,*/*"@ + line_end(true) + ("Connection: close"@ + line_end(true)
            + line_end(true)))),
{
    assert(" HTTP/1.1\r\nHost: "@ =~= " HTTP/1.1"@ + line_end(true) + "Host: "@) by {
        reveal_strlit(" HTTP/1.1\r\nHost: ");
        reveal_strlit(" HTTP/1.1");
        reveal_strlit("Host: ");
    }
    reveal_strlit("User-Agent: Mozilla/5.0 (X11; Linux x86_64) torii");
    reveal_strlit("Accept: text/html,*/*");
    reveal_strlit("Connection: close");
    reveal_strlit(
        "\r\nUser-Agent: Mozilla/5.0 (X11; Linux x86_64) torii\r\nAccept: text/html,*/*\r\nConnection: close\r\n\r\n",
    );
    assert("\r\nUser-Agent: Mozilla/5.0 (X11; Linux x86_64) torii\r\nAccept: text/html,*/*\r\nConnection: close\r\n\r\n"@
        =~= line_end(true) + ("User-Agent: Mozilla/5.0 (X11; Linux x86_64) torii"@ + line_end(true)
        + ("Accept: text/html,*/*"@ + line_end(true) + ("Connection: close"@ + line_end(true)
        + line_end(true)))));
}

/// One more line in front.
proof fn lemma_ended_more(line: Seq<char>, ls: Seq<Seq<char>>)
    ensures
        ended(seq![line] + ls, true) == line + line_end(true) + ended(ls, true),
{
    let all = seq![line] + ls;
    assert(all[0] == line);
    assert(all.skip(1) =~= ls);
}

/// What joins the two first lines, regrouped.
proof fn lemma_regroup(
    a: Seq<char>,
    p: Seq<char>,
    b: Seq<char>,
    e: Seq<char>,
    c: Seq<char>,
    h: Seq<char>,
    rest: Seq<char>,
)
    ensures
        a + p + (b + e + c) + h + (e + rest) == (a + p + b) + e + ((c + h) + e + rest),
{
    assert(a + p + (b + e + c) + h + (e + rest) =~= (a + p + b) + e + ((c + h) + e + rest));
}

proof fn lemma_request_is_ended(site: Seq<char>, path: Seq<char>)
    ensures
        request(site, path) == ended(request_lines(site, path), true),
{
    let first = "GET "@ + path + " HTTP/1.1"@;
    let second = "Host: "@ + site;
    let third = "User-Agent: Mozilla/5.0 (X11; Linux x86_64) torii"@;
    let fourth = "Accept: text/html,*/*"@;
    let fifth = "Connection: close"@;
    let e = line_end(true);
    let none = Seq::<Seq<char>>::empty();
    let l6 = seq![Seq::<char>::empty()] + none;
    let l5 = seq![fifth] + l6;
    let l4 = seq![fourth] + l5;
    let l3 = seq![third] + l4;
    let l2 = seq![second] + l3;
    let l1 = seq![first] + l2;
    lemma_ended_more(seq![], none);
    lemma_ended_more(fifth, l6);
    lemma_ended_more(fourth, l5);
    lemma_ended_more(third, l4);
    lemma_ended_more(second, l3);
    lemma_ended_more(first, l2);
    assert(l1 =~= request_lines(site, path));
    assert(ended(none, true) =~= seq![]);
    assert(Seq::<char>::empty() + e + Seq::<char>::empty() =~= e);
    lemma_request_joins();
    let rest = third + e + (fourth + e + (fifth + e + e));
    lemma_regroup("GET "@, path, " HTTP/1.1"@, e, "Host: "@, site, rest);
}

proof fn lemma_request_lines(site: Seq<char>, path: Seq<char>)
    requires
        !site.contains('\n'),
        !path.contains('\n'),
    ensures
        forall|i: int| 0 <= i < 6 ==> is_line(#[trigger] request_lines(site, path)[i], true),
{
    let ls = request_lines(site, path);
    assert(!ls[0].contains('\n')) by {
        reveal_strlit("GET ");
        reveal_strlit(" HTTP/1.1");
        assert forall|i: int| 0 <= i < ls[0].len() implies #[trigger] ls[0][i] != '\n' by {
            if 4 <= i < 4 + path.len() {
                assert(path.contains(path[i - 4]));
            }
        }
    }
    assert(!ls[1].contains('\n')) by {
        reveal_strlit("Host: ");
        assert forall|i: int| 0 <= i < ls[1].len() implies #[trigger] ls[1][i] != '\n' by {
            if 6 <= i {
                assert(site.contains(site[i - 6]));
            }
        }
    }
    assert(!ls[2].contains('\n')) by {
        reveal_strlit("User-Agent: Mozilla/5.0 (X11; Linux x86_64) torii");
    }
    assert(!ls[3].contains('\n')) by {
        reveal_strlit("Accept: text/html,*/*");
    }
    assert(!ls[4].contains('\n')) by {
        reveal_strlit("Connection: close");
    }
}

proof fn lemma_request_end(site: Seq<char>, path: Seq<char>)
    ensures
        request(site, path).len() > 4,
        request(site, path).skip(request(site, path).len() - 4) == seq!['\r', '\n', '\r', '\n'],
{
    let req = request(site, path);
    let end = "\r\nUser-Agent: Mozilla/5.0 (X11; Linux x86_64) torii\r\nAccept: text/html,*/*\r\nConnection: close\r\n\r\n"@;
    reveal_strlit(
        "\r\nUser-Agent: Mozilla/5.0 (X11; Linux x86_64) torii\r\nAccept: text/html,*/*\r\nConnection: close\r\n\r\n",
    );
    assert(req.skip(req.len() - 4) =~= end.skip(end.len() - 4));
    assert(end.skip(end.len() - 4) =~= seq!['\r', '\n', '\r', '\n']);
}

proof fn lemma_request_words(path: Seq<char>)
    requires
        path.len() > 0,
        forall|i: int| 0 <= i < path.len() ==> !is_space(#[trigger] path[i]),
    ensures
        words("GET "@ + path + " HTTP/1.1"@) == seq!["GET"@, path, "HTTP/1.1"@],
{
    reveal_strlit("GET");
    reveal_strlit("GET ");
    reveal_strlit("HTTP/1.1");
    reveal_strlit(" HTTP/1.1");
    law_words("GET"@, path + (seq![' '] + "HTTP/1.1"@), ' ');
    law_words(path, "HTTP/1.1"@, ' ');
    law_words("HTTP/1.1"@, seq![], ' ');
    assert("GET "@ + path + " HTTP/1.1"@ =~= "GET"@ + (seq![' '] + (path + (seq![' ']
        + "HTTP/1.1"@))));
    assert(seq!["GET"@] + (seq![path] + seq!["HTTP/1.1"@]) =~= seq!["GET"@, path, "HTTP/1.1"@]);
}

/// A request reads back line by line: it asks for the path and names the host,
/// with the port where that is not 80, and the headers end in an empty line.
/// The words of its first line are the method, the whole path and the protocol.
pub proof fn law_request_reads_back(host: Seq<char>, port: u16, path: Seq<char>)
    requires
        !host.contains('\n'),
        !path.contains('\n'),
    ensures
        ({
            let req = request(authority(host, port), path);
            let site = if port == 80 {
                host
            } else {
                host + seq![':'] + decimal(port as nat)
            };
            &&& lines(req) == seq![
                "GET "@ + path + " HTTP/1.1"@,
                "Host: "@ + site,
                "User-Agent: Mozilla/5.0 (X11; Linux x86_64) torii"@,
                "Accept: text/html,*/*"@,
                "Connection: close"@,
                seq![],
            ]
            &&& req.len() > 4 && req.skip(req.len() - 4) == seq!['\r', '\n', '\r', '\n']
            &&& path.len() > 0 && (forall|i: int|
                0 <= i < path.len() ==> !is_space(#[trigger] path[i])) ==> words(lines(req)[0])
                == seq!["GET"@, path, "HTTP/1.1"@]
        }),
{
    let site = authority(host, port);
    assert(":"@ =~= seq![':']) by {
        reveal_strlit(":");
    }
    let ls = request_lines(site, path);
    lemma_site_is_line(host, port);
    lemma_request_lines(site, path);
    lemma_request_is_ended(site, path);
    lemma_lines_ended(ls, true, seq![]);
    assert(ended(ls, true) + Seq::<char>::empty() =~= ended(ls, true));
    assert(lines(Seq::empty()) =~= seq![]);
    assert(ls + Seq::<Seq<char>>::empty() =~= ls);
    lemma_request_end(site, path);
    if path.len() > 0 && (forall|i: int| 0 <= i < path.len() ==> !is_space(#[trigger] path[i])) {
        lemma_request_words(path);
    }
}

/// What is told of a request without an answer is how far it came, the host in
/// full, and the operating system's own words in full.
pub proof fn law_failure_is_told(host: Seq<char>, reason: String, bytes: Vec<u8>)
    ensures
        bytes@.len() == 0 ==> fetched(host, Fetch::Answered(bytes)) == "no answer from "@ + host
            + ": connection closed"@ + seq!['\n'],
        fetched(host, Fetch::Unresolved) == "cannot resolve "@ + host + seq!['\n'],
        fetched(host, Fetch::Unconnected(reason)) == "cannot connect to "@ + host + ": "@ + reason@
            + seq!['\n'],
        fetched(host, Fetch::Unsent(reason)) == "cannot send to "@ + host + ": "@ + reason@
            + seq!['\n'],
        fetched(host, Fetch::Unanswered(reason)) == "no answer from "@ + host + ": "@ + reason@
            + seq!['\n'],
{
    reveal_strlit("\n");
    reveal_strlit(": ");
    reveal_strlit("connection closed");
    reveal_strlit(": connection closed");
    assert("\n"@ =~= seq!['\n']);
    if bytes@.len() == 0 {
        assert(fetched(host, Fetch::Answered(bytes)) =~= "no answer from "@ + host
            + ": connection closed"@ + seq!['\n']);
    }
}

/// The text of an answer is kept from its start and whole, if it takes no more
/// than 8192 bytes; else as many of its characters as fit, and no fewer. Of the
/// bytes, the first 8192 count. The host has no part in it.
pub proof fn law_answer_is_kept(host: Seq<char>, bytes: Vec<u8>)
    requires
        bytes@.len() > 0,
    ensures
        ({
            let text = utf8_lossy(
                if bytes@.len() > 8192 {
                    bytes@.take(8192)
                } else {
                    bytes@
                },
            );
            let out = fetched(host, Fetch::Answered(bytes));
            &&& out.len() <= text.len() && out == text.take(out.len() as int)
            &&& encode_utf8(out).len() <= 8192
            &&& encode_utf8(text).len() <= 8192 ==> out == text
            &&& out.len() < text.len() ==> encode_utf8(text.take(out.len() as int + 1)).len()
                > 8192
        }),
{
    lemma_clipped_most(utf8_lossy(kept(bytes@)), 8192);
    lemma_clipped_fits(utf8_lossy(kept(bytes@)), 8192);
}

proof fn lemma_clipped_most(s: Seq<char>, limit: nat)
    ensures
        clipped(s, limit).len() <= s.len(),
        clipped(s, limit) == s.take(clipped(s, limit).len() as int),
        clipped(s, limit).len() < s.len() ==> encode_utf8(
            s.take(clipped(s, limit).len() as int + 1),
        ).len() > limit,
        encode_utf8(s).len() <= limit ==> clipped(s, limit) == s,
    decreases s.len(),
{
    if s.len() == 0 || encode_utf8(s).len() <= limit {
        assert(s.take(s.len() as int) =~= s);
    } else {
        let t = s.drop_last();
        let n = clipped(t, limit).len() as int;
        lemma_clipped_most(t, limit);
        assert(t.take(n) =~= s.take(n));
        if n < t.len() {
            assert(t.take(n + 1) =~= s.take(n + 1));
        } else {
            assert(s.take(n + 1) =~= s);
        }
    }
}

/// A request counts as sent in the two cases in which all of it went out, and
/// in no other, whatever came back.
pub proof fn law_sent(reason: String, bytes: Vec<u8>)
    ensures
        !is_sent(Fetch::Unresolved),
        !is_sent(Fetch::Unconnected(reason)),
        !is_sent(Fetch::Unsent(reason)),
        is_sent(Fetch::Unanswered(reason)),
        is_sent(Fetch::Answered(bytes)),
{
}

/// A host has four seconds to take the connection, and four to answer.
pub proof fn law_patience()
    ensures
        PATIENCE_SECS == 4,
{
}

/// Whatever the host, the port and the path, a request is made of these six
/// lines, each ended by a carriage return and a line feed.
pub proof fn law_request_is_six_lines(host: Seq<char>, port: u16, path: Seq<char>)
    ensures
        request(authority(host, port), path) == ended(
            seq![
                "GET "@ + path + " HTTP/1.1"@,
                "Host: "@ + if port == 80 {
                    host
                } else {
                    host + seq![':'] + decimal(port as nat)
                },
                "User-Agent: Mozilla/5.0 (X11; Linux x86_64) torii"@,
                "Accept: text/html,*/*"@,
                "Connection: close"@,
                seq![],
            ],
            true,
        ),
{
    reveal_strlit(":");
    assert(":"@ =~= seq![':']);
    lemma_request_is_ended(authority(host, port), path);
}

} // verus!
