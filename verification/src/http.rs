//! Plain-HTTP addresses, and the redirect in an answer.

use crate::number::{
    decimal, is_digit, law_decimal_reads_back, lemma_decimal_digits, number, parse_number,
    push_decimal,
};
use crate::text::{
    before, chars_of, equal_but_case, first_of, last_of, lemma_absent, lemma_first_is,
    is_space, law_before, law_lines, law_trim, lemma_last_is, lemma_not_blank, lines, lower,
    next_line, nth_word, same_but_case, starts_with, text_of, trim, trimmed, up_to, view_of, words,
};
use vstd::prelude::*;
use vstd::slice::slice_subrange;

verus! {

/// Host, port and path of `http://host[:port]/path`. The port is 80 where none
/// is given and the path is `/` where there is none. Nothing for an address
/// that is not plain HTTP, or whose port is no number of 16 bits.
pub open spec fn http_parts(uri: Seq<char>) -> Option<(Seq<char>, u16, Seq<char>)> {
    if !"http://"@.is_prefix_of(uri) {
        None
    } else {
        let rest = uri.skip("http://"@.len() as int);
        let (hostport, path) = match rest.index_of_first('/') {
            Some(i) => (rest.take(i), rest.skip(i)),
            None => (rest, "/"@),
        };
        match hostport.index_of_last(':') {
            Some(i) => match number(hostport.skip(i + 1), u16::MAX as nat) {
                Some(port) => Some((hostport.take(i), port as u16, path)),
                None => None,
            },
            None => Some((hostport, 80, path)),
        }
    }
}

/// `http://host[:port]/path` as host, port and path; `None` for anything else,
/// since only plain HTTP gets redirected by a portal.
pub fn split_http(uri: &str) -> (out: Option<(String, u16, String)>)
    ensures
        match out {
            Some((host, port, path)) => http_parts(uri@) == Some((host@, port, path@)),
            None => http_parts(uri@) is None,
        },
{
    let chars = chars_of(uri);
    let all = chars.as_slice();
    if !starts_with(all, "http://") {
        return None;
    }
    proof {
        reveal_strlit("http://");
    }
    let rest = slice_subrange(all, 7, all.len());
    proof {
        assert(rest@ =~= uri@.skip("http://"@.len() as int));
        rest@.index_of_first_ensures('/');
    }
    let (hostport, path): (&[char], String) = match first_of(rest, '/') {
        Some(i) => {
            let path = text_of(slice_subrange(rest, i, rest.len()));
            proof {
                assert(path@ =~= rest@.skip(i as int));
            }
            (slice_subrange(rest, 0, i), path)
        },
        None => (rest, "/".to_string()),
    };
    proof {
        assert(hostport@ =~= match rest@.index_of_first('/') {
            Some(i) => rest@.take(i),
            None => rest@,
        });
    }
    match last_of(hostport, ':') {
        Some(i) => {
            let digits = slice_subrange(hostport, i + 1, hostport.len());
            proof {
                assert(digits@ =~= hostport@.skip(i + 1));
            }
            match parse_number(digits, 65535) {
                Some(port) => {
                    let host = text_of(slice_subrange(hostport, 0, i));
                    proof {
                        assert(host@ =~= hostport@.take(i as int));
                    }
                    Some((host, port as u16, path))
                },
                None => None,
            }
        },
        None => Some((text_of(hostport), 80, path)),
    }
}

/// `host`, or `host:port` where the port is not 80.
pub open spec fn authority(host: Seq<char>, port: u16) -> Seq<char> {
    if port == 80 {
        host
    } else {
        host + ":"@ + decimal(port as nat)
    }
}

/// The plain-HTTP address of a host, a port and a path.
pub open spec fn http_uri(host: Seq<char>, port: u16, path: Seq<char>) -> Seq<char> {
    "http://"@ + authority(host, port) + path
}

/// The status of an answer: the second word of its first line.
pub open spec fn status_of(raw: Seq<char>) -> Option<Seq<char>> {
    if lines(raw).len() > 0 && words(lines(raw)[0]).len() > 1 {
        Some(words(lines(raw)[0])[1])
    } else {
        None
    }
}

/// Whether an answer is a redirect: its status begins with a 3.
pub open spec fn is_redirect(raw: Seq<char>) -> bool {
    status_of(raw) matches Some(status) && status.len() > 0 && status[0] == '3'
}

/// What a line gives as Location: the text after its first colon, where the
/// text before it says `location` in any case.
pub open spec fn line_location(line: Seq<char>) -> Option<Seq<char>> {
    match line.index_of_first(':') {
        Some(i) => if same_but_case(trim(line.take(i)), "location"@) {
            Some(trim(line.skip(i + 1)))
        } else {
            None
        },
        None => None,
    }
}

/// The first Location among the lines before the first blank one.
pub open spec fn location_in(ls: Seq<Seq<char>>) -> Option<Seq<char>>
    decreases ls.len(),
{
    if ls.len() == 0 || trim(ls[0]).len() == 0 {
        None
    } else {
        match line_location(ls[0]) {
            Some(value) => Some(value),
            None => location_in(ls.skip(1)),
        }
    }
}

/// Whether `c` is one of the letters A to Z, in either case.
pub open spec fn is_letter(c: char) -> bool {
    'A' <= c <= 'Z' || 'a' <= c <= 'z'
}

/// Whether `c` can stand in the name of a scheme.
pub open spec fn is_scheme_char(c: char) -> bool {
    is_letter(c) || is_digit(c) || c == '+' || c == '-' || c == '.'
}

/// Whether an address names its scheme, and so is absolute: a colon follows a
/// letter and any more letters, digits, pluses, hyphens and dots.
pub open spec fn has_scheme(uri: Seq<char>) -> bool {
    match uri.index_of_first(':') {
        Some(n) => n > 0 && is_letter(uri[0]) && forall|i: int|
            0 <= i < n ==> is_scheme_char(#[trigger] uri[i]),
        None => false,
    }
}

/// A path without its query and its fragment.
pub open spec fn bare(path: Seq<char>) -> Seq<char> {
    before(before(path, '#'), '?')
}

/// The directory of a path: what comes before any query or fragment, up to and
/// with its last slash.
pub open spec fn dir(path: Seq<char>) -> Seq<char> {
    match bare(path).index_of_last('/') {
        Some(i) => bare(path).take(i + 1),
        None => seq![],
    }
}

/// The path that a reference on the same host leads to from `path`: the same
/// one for an empty reference; the reference itself where it begins with a
/// slash; with a new query or fragment where it is just that; else a sibling.
pub open spec fn path_from(path: Seq<char>, to: Seq<char>) -> Seq<char> {
    if to.len() == 0 {
        path
    } else if to[0] == '/' {
        to
    } else if to[0] == '?' {
        bare(path) + to
    } else if to[0] == '#' {
        before(path, '#') + to
    } else {
        dir(path) + to
    }
}

/// The reference `to` made absolute against `base`. One with a scheme is
/// absolute already; one with two slashes names another host; any other stays
/// with the host and the port that `base` names, and an empty one is `base`.
pub open spec fn resolved(to: Seq<char>, base: Seq<char>) -> Option<Seq<char>> {
    if has_scheme(to) {
        Some(to)
    } else {
        match http_parts(base) {
            Some((host, port, path)) => if "//"@.is_prefix_of(to) {
                Some("http:"@ + to)
            } else if to.len() == 0 {
                Some(base)
            } else {
                Some(http_uri(host, port, path_from(path, to)))
            },
            None => None,
        }
    }
}

/// Where an answer sends the browser: the Location of a redirect, made
/// absolute against `base`.
pub open spec fn redirect(raw: Seq<char>, base: Seq<char>) -> Option<Seq<char>> {
    if !is_redirect(raw) {
        None
    } else {
        match location_in(lines(raw)) {
            Some(to) => resolved(to, base),
            None => None,
        }
    }
}

fn has_redirect_status(raw: &[char]) -> (out: bool)
    ensures
        out == is_redirect(raw@),
{
    match next_line(raw) {
        Some((line, rest)) => {
            proof {
                let all = seq![line@] + lines(rest@);
                assert(all[0] == line@);
            }
            match nth_word(line, 1) {
                Some(status) => status.len() > 0 && status[0] == '3',
                None => false,
            }
        },
        None => false,
    }
}

fn location_of_line(line: &[char]) -> (out: Option<String>)
    ensures
        match out {
            Some(value) => line_location(line@) == Some(value@),
            None => line_location(line@) is None,
        },
{
    match first_of(line, ':') {
        Some(i) => {
            let end: usize = line.len();
            let name = slice_subrange(line, 0, i);
            let value = slice_subrange(line, i + 1, end);
            proof {
                assert(name@ =~= line@.take(i as int));
                assert(value@ =~= line@.skip(i + 1));
            }
            let wanted = chars_of("location");
            if equal_but_case(trimmed(name), wanted.as_slice()) {
                Some(text_of(trimmed(value)))
            } else {
                None
            }
        },
        None => None,
    }
}

fn find_location(raw: &[char]) -> (out: Option<String>)
    ensures
        match out {
            Some(value) => location_in(lines(raw@)) == Some(value@),
            None => location_in(lines(raw@)) is None,
        },
{
    let mut rest = raw;
    loop
        invariant
            location_in(lines(raw@)) == location_in(lines(rest@)),
        decreases rest@.len(),
    {
        match next_line(rest) {
            Some((line, after)) => {
                proof {
                    let all = seq![line@] + lines(after@);
                    assert(all[0] == line@);
                    assert(all.skip(1) =~= lines(after@));
                }
                if trimmed(line).len() == 0 {
                    return None;
                }
                match location_of_line(line) {
                    Some(value) => {
                        return Some(value);
                    },
                    None => {},
                }
                rest = after;
            },
            None => {
                return None;
            },
        }
    }
}

/// Appends `host`, or `host:port` where the port is not 80.
pub(crate) fn push_authority(out: &mut String, host: &str, port: u16)
    ensures
        final(out)@ == old(out)@ + authority(host@, port),
{
    out.append(host);
    if port != 80 {
        out.append(":");
        push_decimal(out, port as u64);
    }
    assert(out@ =~= old(out)@ + authority(host@, port));
}

/// The plain-HTTP address of a host, a port and a path.
fn write_uri(host: &str, port: u16, path: &str) -> (out: String)
    ensures
        out@ == http_uri(host@, port, path@),
{
    let mut out: String = "http://".to_string();
    push_authority(&mut out, host, port);
    out.append(path);
    out
}

fn names_scheme(uri: &[char]) -> (out: bool)
    ensures
        out == has_scheme(uri@),
{
    match first_of(uri, ':') {
        Some(n) => {
            if n == 0 || !(('A' <= uri[0] && uri[0] <= 'Z') || ('a' <= uri[0] && uri[0] <= 'z')) {
                return false;
            }
            let mut i: usize = 0;
            while i < n
                invariant
                    i <= n < uri@.len(),
                    uri@.index_of_first(':') == Some(n as int),
                    forall|j: int| 0 <= j < i ==> is_scheme_char(#[trigger] uri@[j]),
                decreases n - i,
            {
                let c = uri[i];
                let letter = ('A' <= c && c <= 'Z') || ('a' <= c && c <= 'z');
                if !(letter || ('0' <= c && c <= '9') || c == '+' || c == '-' || c == '.') {
                    proof {
                        assert(!is_scheme_char(uri@[i as int]));
                    }
                    return false;
                }
                i = i + 1;
            }
            true
        },
        None => false,
    }
}

fn directory(path: &[char]) -> (out: &[char])
    ensures
        out@ == dir(path@),
{
    let plain = up_to(up_to(path, '#'), '?');
    let n: usize = plain.len();
    match last_of(plain, '/') {
        Some(i) => {
            let out = slice_subrange(plain, 0, i + 1);
            proof {
                assert(out@ =~= plain@.take(i + 1));
            }
            out
        },
        None => {
            let out = slice_subrange(plain, n, n);
            proof {
                assert(out@ =~= seq![]);
            }
            out
        },
    }
}

fn follow_path(path: &str, to: &str) -> (out: String)
    ensures
        out@ == path_from(path@, to@),
{
    let from = chars_of(path);
    let chars = chars_of(to);
    if chars.len() == 0 {
        return path.to_string();
    }
    let first = chars[0];
    if first == '/' {
        return to.to_string();
    }
    let mut out: String = if first == '?' {
        text_of(up_to(up_to(from.as_slice(), '#'), '?'))
    } else if first == '#' {
        text_of(up_to(from.as_slice(), '#'))
    } else {
        text_of(directory(from.as_slice()))
    };
    out.append(to);
    out
}

/// The reference `to` made absolute against `base`.
pub fn resolve(to: &str, base: &str) -> (out: Option<String>)
    ensures
        view_of(out) == resolved(to@, base@),
{
    let chars = chars_of(to);
    if names_scheme(chars.as_slice()) {
        return Some(to.to_string());
    }
    match split_http(base) {
        Some((host, port, path)) => {
            if starts_with(chars.as_slice(), "//") {
                let mut out: String = "http:".to_string();
                out.append(to);
                Some(out)
            } else if chars.len() == 0 {
                Some(base.to_string())
            } else {
                let path = follow_path(path.as_str(), to);
                Some(write_uri(host.as_str(), port, path.as_str()))
            }
        },
        None => None,
    }
}

/// The Location of a 3xx answer, made absolute against `base`.
pub fn redirect_target(raw: &str, base: &str) -> (out: Option<String>)
    ensures
        match out {
            Some(to) => redirect(raw@, base@) == Some(to@),
            None => redirect(raw@, base@) is None,
        },
{
    let chars = chars_of(raw);
    if !has_redirect_status(chars.as_slice()) {
        return None;
    }
    match find_location(chars.as_slice()) {
        Some(to) => resolve(to.as_str(), base),
        None => None,
    }
}

proof fn lemma_host_and_path(hostport: Seq<char>, path: Seq<char>)
    requires
        !hostport.contains('/'),
        path.len() > 0,
        path[0] == '/',
    ensures
        ({
            let uri = "http://"@ + hostport + path;
            let rest = uri.skip("http://"@.len() as int);
            &&& "http://"@.is_prefix_of(uri)
            &&& rest.index_of_first('/') == Some(hostport.len() as int)
            &&& rest.take(hostport.len() as int) == hostport
            &&& rest.skip(hostport.len() as int) == path
        }),
{
    let uri = "http://"@ + hostport + path;
    let rest = uri.skip("http://"@.len() as int);
    assert(uri.subrange(0, "http://"@.len() as int) =~= "http://"@);
    assert(rest =~= hostport + path);
    assert forall|i: int| 0 <= i < hostport.len() implies #[trigger] rest[i] != '/' by {
        assert(hostport.contains(hostport[i]));
    }
    lemma_first_is(rest, '/', hostport.len() as int);
    assert(rest.take(hostport.len() as int) =~= hostport);
    assert(rest.skip(hostport.len() as int) =~= path);
}

/// An address with its port written out splits into the host, the port and
/// the path that it was written from.
pub proof fn law_explicit_port_splits(host: Seq<char>, port: u16, path: Seq<char>)
    requires
        !host.contains('/'),
        path.len() > 0,
        path[0] == '/',
    ensures
        http_parts("http://"@ + (host + ":"@ + decimal(port as nat)) + path) == Some(
            (host, port, path),
        ),
{
    reveal_strlit(":");
    let digits = decimal(port as nat);
    let hostport = host + ":"@ + digits;
    lemma_decimal_digits(port as nat);
    assert forall|i: int| 0 <= i < hostport.len() implies #[trigger] hostport[i] != '/' by {
        if i < host.len() {
            assert(host.contains(host[i]));
        } else if i > host.len() {
            assert(is_digit(digits[i - host.len() - 1]));
        }
    }
    lemma_host_and_path(hostport, path);
    assert forall|i: int| host.len() < i < hostport.len() implies #[trigger] hostport[i]
        != ':' by {
        assert(is_digit(digits[i - host.len() - 1]));
    }
    lemma_last_is(hostport, ':', host.len() as int);
    assert(hostport.skip(host.len() as int + 1) =~= digits);
    assert(hostport.take(host.len() as int) =~= host);
    law_decimal_reads_back(port as nat, u16::MAX as nat);
}

/// An address splits into the host, the port and the path that it was written
/// from. Port 80 is left out, so a host with a colon of its own is told from
/// its port only where the port is another.
pub proof fn law_address_splits(host: Seq<char>, port: u16, path: Seq<char>)
    requires
        !host.contains('/'),
        path.len() > 0,
        path[0] == '/',
        port != 80 || !host.contains(':'),
    ensures
        http_parts(http_uri(host, port, path)) == Some((host, port, path)),
{
    if port == 80 {
        lemma_host_and_path(host, path);
        lemma_absent(host, ':');
    } else {
        law_explicit_port_splits(host, port, path);
    }
}

/// Only plain-HTTP addresses split, into a host without a slash and a path
/// that begins with one.
pub proof fn law_parts_are_host_and_path(uri: Seq<char>)
    ensures
        http_parts(uri) matches Some((host, _, path)) ==> {
            &&& "http://"@.is_prefix_of(uri)
            &&& !host.contains('/')
            &&& path.len() > 0
            &&& path[0] == '/'
        },
{
    reveal_strlit("/");
    let rest = uri.skip("http://"@.len() as int);
    rest.index_of_first_ensures('/');
    let hostport = match rest.index_of_first('/') {
        Some(i) => rest.take(i),
        None => rest,
    };
    assert forall|i: int| 0 <= i < hostport.len() implies #[trigger] hostport[i] != '/' by {
        if rest.index_of_first('/') is None {
            assert(rest.contains(rest[i]));
        }
    }
    hostport.index_of_last_ensures(':');
}

proof fn lemma_before(s: Seq<char>, c: char)
    requires
        s.len() > 0,
        s[0] == '/',
        c != '/',
    ensures
        before(s, c).len() > 0,
        before(s, c)[0] == '/',
{
    s.index_of_first_ensures(c);
}

/// From a path that begins with a slash every reference leads to one that
/// does.
proof fn lemma_path_from(path: Seq<char>, to: Seq<char>)
    requires
        path.len() > 0,
        path[0] == '/',
    ensures
        path_from(path, to).len() > 0,
        path_from(path, to)[0] == '/',
{
    lemma_before(path, '#');
    lemma_before(before(path, '#'), '?');
    bare(path).index_of_last_ensures('/');
    assert(bare(path).contains(bare(path)[0]));
}

/// What begins with `http:` names its scheme.
proof fn lemma_http_is_scheme(uri: Seq<char>)
    requires
        "http:"@.is_prefix_of(uri),
    ensures
        has_scheme(uri),
{
    reveal_strlit("http:");
    let start = uri.subrange(0, "http:"@.len() as int);
    assert forall|i: int| 0 <= i < 5 implies #[trigger] uri[i] == "http:"@[i] by {
        assert(start[i] == uri[i]);
    }
    lemma_first_is(uri, ':', 4);
}

/// Whatever form the Location has, what it is made into is absolute.
pub proof fn law_redirect_is_absolute(raw: Seq<char>, base: Seq<char>)
    ensures
        redirect(raw, base) matches Some(to) ==> has_scheme(to),
{
    if redirect(raw, base) is Some {
        let uri = redirect(raw, base).unwrap();
        let to = location_in(lines(raw)).unwrap();
        if !has_scheme(to) {
            reveal_strlit("http:");
            reveal_strlit("http://");
            reveal_strlit("//");
            if to.len() == 0 {
                assert forall|i: int| 0 <= i < 5 implies #[trigger] uri[i] == "http://"@[i] by {
                    assert(uri.subrange(0, "http://"@.len() as int)[i] == uri[i]);
                }
            }
            assert("http:"@ =~= uri.subrange(0, "http:"@.len() as int));
            lemma_http_is_scheme(uri);
        }
    }
}

/// An answer leads somewhere if and only if it is a redirect with a Location
/// that is absolute already or has a plain-HTTP address to be made absolute
/// against.
pub proof fn law_redirect_succeeds(raw: Seq<char>, base: Seq<char>)
    ensures
        redirect(raw, base) is Some <==> is_redirect(raw) && (location_in(lines(raw)) matches Some(
            to,
        ) && (has_scheme(to) || http_parts(base) is Some)),
{
}

/// A Location with a scheme is followed as it stands, and one with two slashes
/// leads to the host that it names.
pub proof fn law_redirect_names_host(raw: Seq<char>, base: Seq<char>)
    requires
        is_redirect(raw),
        location_in(lines(raw)) matches Some(to) && (has_scheme(to) || ("//"@.is_prefix_of(to)
            && http_parts(base) is Some)),
    ensures
        ({
            let to = location_in(lines(raw)).unwrap();
            redirect(raw, base) == Some(
                if has_scheme(to) {
                    to
                } else {
                    "http:"@ + to
                },
            )
        }),
{
}

/// A redirect that names no other host stays with the host and the port that
/// were asked: it is written from them and from its path there, and an empty
/// one is what was asked. It splits into the same again, except that a host
/// with a colon of its own is not told from its port where that is 80.
pub proof fn law_redirect_keeps_host(raw: Seq<char>, base: Seq<char>)
    requires
        is_redirect(raw),
        location_in(lines(raw)) matches Some(to) && !has_scheme(to) && !"//"@.is_prefix_of(to),
        http_parts(base) is Some,
    ensures
        ({
            let (host, port, path) = http_parts(base).unwrap();
            let to = location_in(lines(raw)).unwrap();
            let uri = redirect(raw, base).unwrap();
            &&& redirect(raw, base) is Some
            &&& to.len() == 0 ==> uri == base
            &&& to.len() > 0 ==> uri == http_uri(host, port, path_from(path, to))
            &&& to.len() > 0 && to[0] == '/' ==> uri == http_uri(host, port, to)
            &&& to.len() == 0 || port != 80 || !host.contains(':') ==> http_parts(uri) == Some(
                (host, port, path_from(path, to)),
            )
        }),
{
    let (host, port, path) = http_parts(base).unwrap();
    let to = location_in(lines(raw)).unwrap();
    law_parts_are_host_and_path(base);
    lemma_path_from(path, to);
    if to.len() > 0 && (port != 80 || !host.contains(':')) {
        law_address_splits(host, port, path_from(path, to));
    }
    reveal_strlit("//");
}

/// An address without a port is on port 80, and one without a path asks for
/// `/`. All that comes after the host is the path.
pub proof fn law_short_address_splits(host: Seq<char>, path: Seq<char>)
    requires
        !host.contains('/'),
        !host.contains(':'),
        path.len() > 0,
        path[0] == '/',
    ensures
        http_parts("http://"@ + host + path) == Some((host, 80u16, path)),
        http_parts("http://"@ + host) == Some((host, 80u16, seq!['/'])),
{
    lemma_host_and_path(host, path);
    lemma_absent(host, ':');
    lemma_absent(host, '/');
    let uri = "http://"@ + host;
    reveal_strlit("/");
    assert("/"@ =~= seq!['/']);
    assert(uri.subrange(0, "http://"@.len() as int) =~= "http://"@);
    assert(uri.skip("http://"@.len() as int) =~= host);
}

/// What comes after the last colon of a host is its port, and has to be a
/// number of 16 bits.
pub proof fn law_written_port(host: Seq<char>, port: Seq<char>, path: Seq<char>)
    requires
        !host.contains('/'),
        !port.contains('/'),
        !port.contains(':'),
        path.len() > 0,
        path[0] == '/',
    ensures
        http_parts("http://"@ + (host + seq![':'] + port) + path) == match number(port, 65535) {
            Some(n) => Some((host, n as u16, path)),
            None => None,
        },
        http_parts("http://"@ + (host + seq![':'] + port)) == match number(port, 65535) {
            Some(n) => Some((host, n as u16, seq!['/'])),
            None => None,
        },
{
    let hostport = host + seq![':'] + port;
    assert forall|i: int| 0 <= i < hostport.len() implies #[trigger] hostport[i] != '/' by {
        if i < host.len() {
            assert(host.contains(host[i]));
        } else if i > host.len() {
            assert(port.contains(port[i - host.len() - 1]));
        }
    }
    assert forall|i: int| host.len() < i < hostport.len() implies #[trigger] hostport[i]
        != ':' by {
        assert(port.contains(port[i - host.len() - 1]));
    }
    lemma_host_and_path(hostport, path);
    lemma_last_is(hostport, ':', host.len() as int);
    lemma_absent(hostport, '/');
    assert(hostport.skip(host.len() as int + 1) =~= port);
    assert(hostport.take(host.len() as int) =~= host);
    let uri = "http://"@ + hostport;
    reveal_strlit("/");
    assert("/"@ =~= seq!['/']);
    assert(uri.subrange(0, "http://"@.len() as int) =~= "http://"@);
    assert(uri.skip("http://"@.len() as int) =~= hostport);
}

/// An address that does not begin with `http://` does not split.
pub proof fn law_only_plain_http_splits(uri: Seq<char>)
    requires
        !(uri.len() >= 7 && uri.take(7) == seq!['h', 't', 't', 'p', ':', '/', '/']),
    ensures
        http_parts(uri) is None,
{
    reveal_strlit("http://");
    if "http://"@.is_prefix_of(uri) {
        assert(uri.take(7) =~= uri.subrange(0, 7));
        assert(uri.take(7) =~= seq!['h', 't', 't', 'p', ':', '/', '/']);
    }
}

/// An address names its scheme if and only if it has a colon with only letters,
/// digits, pluses, hyphens and dots before it, the first of them a letter.
pub proof fn law_scheme(uri: Seq<char>)
    ensures
        has_scheme(uri) <==> exists|n: int|
            0 < n < uri.len() && #[trigger] uri[n] == ':' && ('A' <= uri[0] <= 'Z' || 'a' <= uri[0]
                <= 'z') && forall|i: int|
                0 <= i < n ==> {
                    ||| 'A' <= #[trigger] uri[i] <= 'Z'
                    ||| 'a' <= uri[i] <= 'z'
                    ||| '0' <= uri[i] <= '9'
                    ||| uri[i] == '+'
                    ||| uri[i] == '-'
                    ||| uri[i] == '.'
                },
{
    uri.index_of_first_ensures(':');
    if has_scheme(uri) {
        let n = uri.index_of_first(':').unwrap();
        assert(uri[n] == ':');
        assert forall|i: int| 0 <= i < n implies {
            ||| 'A' <= #[trigger] uri[i] <= 'Z'
            ||| 'a' <= uri[i] <= 'z'
            ||| '0' <= uri[i] <= '9'
            ||| uri[i] == '+'
            ||| uri[i] == '-'
            ||| uri[i] == '.'
        } by {
            assert(is_scheme_char(uri[i]));
        }
    }
    if exists|n: int|
        0 < n < uri.len() && #[trigger] uri[n] == ':' && ('A' <= uri[0] <= 'Z' || 'a' <= uri[0]
            <= 'z') && forall|i: int|
            0 <= i < n ==> {
                ||| 'A' <= #[trigger] uri[i] <= 'Z'
                ||| 'a' <= uri[i] <= 'z'
                ||| '0' <= uri[i] <= '9'
                ||| uri[i] == '+'
                ||| uri[i] == '-'
                ||| uri[i] == '.'
            } {
        let n = choose|n: int|
            0 < n < uri.len() && #[trigger] uri[n] == ':' && ('A' <= uri[0] <= 'Z' || 'a' <= uri[0]
                <= 'z') && forall|i: int|
                0 <= i < n ==> {
                    ||| 'A' <= #[trigger] uri[i] <= 'Z'
                    ||| 'a' <= uri[i] <= 'z'
                    ||| '0' <= uri[i] <= '9'
                    ||| uri[i] == '+'
                    ||| uri[i] == '-'
                    ||| uri[i] == '.'
                };
        lemma_first_is(uri, ':', n);
    }
}

/// A reference with a scheme stands for itself, whatever it is read from.
pub proof fn law_absolute_stands(to: Seq<char>, base: Seq<char>)
    requires
        has_scheme(to),
    ensures
        resolved(to, base) == Some(to),
{
}

/// A reference without a scheme has no meaning without a plain-HTTP address to
/// read it from.
pub proof fn law_relative_needs_base(to: Seq<char>, base: Seq<char>)
    requires
        !has_scheme(to),
        http_parts(base) is None,
    ensures
        resolved(to, base) is None,
{
}

/// An empty reference leads to where it is read from.
pub proof fn law_empty_reference(base: Seq<char>)
    requires
        http_parts(base) is Some,
    ensures
        resolved(Seq::empty(), base) == Some(base),
{
    reveal_strlit("//");
    lemma_absent(Seq::empty(), ':');
}

proof fn lemma_starts_unschemed(to: Seq<char>)
    requires
        to.len() > 0,
        !('A' <= to[0] <= 'Z' || 'a' <= to[0] <= 'z'),
    ensures
        !has_scheme(to),
{
}

/// A reference that begins with one slash is a path on the host and the port
/// of the address it is read from, and is kept whole. With two slashes it
/// begins with a host of its own.
pub proof fn law_rooted_reference(
    host: Seq<char>,
    port: u16,
    path: Seq<char>,
    to: Seq<char>,
    base: Seq<char>,
)
    requires
        http_parts(base) == Some((host, port, path)),
        to.len() > 0,
        to[0] == '/',
    ensures
        to.len() > 1 && to[1] == '/' ==> resolved(to, base) == Some(
            seq!['h', 't', 't', 'p', ':'] + to,
        ),
        to.len() == 1 || to[1] != '/' ==> resolved(to, base) == Some(
            if port == 80 {
                "http://"@ + host + to
            } else {
                "http://"@ + host + seq![':'] + decimal(port as nat) + to
            },
        ),
{
    lemma_starts_unschemed(to);
    reveal_strlit("//");
    reveal_strlit(":");
    reveal_strlit("http:");
    if to.len() > 1 && to[1] == '/' {
        assert("//"@ =~= to.subrange(0, 2));
        assert("http:"@ =~= seq!['h', 't', 't', 'p', ':']);
    } else {
        if "//"@.is_prefix_of(to) {
            assert(to.subrange(0, 2)[1] == to[1]);
        }
        assert(http_uri(host, port, to) =~= if port == 80 {
            "http://"@ + host + to
        } else {
            "http://"@ + host + seq![':'] + decimal(port as nat) + to
        });
    }
}

proof fn lemma_before_tail(s: Seq<char>, c: char, tail: Seq<char>)
    requires
        !s.contains(c),
        tail.len() == 0 || tail[0] == c,
    ensures
        before(s + tail, c) == s,
{
    if tail.len() == 0 {
        law_before(s, c, tail);
        assert(s + tail =~= s);
    } else {
        law_before(s, c, tail.skip(1));
        assert(s + tail =~= s + (seq![c] + tail.skip(1)));
    }
}

proof fn lemma_bare_of(path: Seq<char>, query: Seq<char>, fragment: Seq<char>)
    requires
        !path.contains('?'),
        !path.contains('#'),
        !query.contains('#'),
        query.len() == 0 || query[0] == '?',
        fragment.len() == 0 || fragment[0] == '#',
    ensures
        bare(path + query + fragment) == path,
{
    let s = path + query;
    assert forall|i: int| 0 <= i < s.len() implies #[trigger] s[i] != '#' by {
        if i < path.len() {
            assert(path.contains(path[i]));
        } else {
            assert(query.contains(query[i - path.len()]));
        }
    }
    assert(!s.contains('#'));
    lemma_before_tail(s, '#', fragment);
    lemma_before_tail(path, '?', query);
}

/// A reference that is a query takes the place of the query and the fragment
/// of the address it is read from, and one that is a fragment takes the place
/// of the fragment.
pub proof fn law_query_and_fragment(
    host: Seq<char>,
    port: u16,
    path: Seq<char>,
    query: Seq<char>,
    fragment: Seq<char>,
    to: Seq<char>,
    base: Seq<char>,
)
    requires
        http_parts(base) == Some((host, port, path + query + fragment)),
        !path.contains('?'),
        !path.contains('#'),
        !query.contains('#'),
        query.len() == 0 || query[0] == '?',
        fragment.len() == 0 || fragment[0] == '#',
        to.len() > 0,
    ensures
        to[0] == '?' ==> resolved(to, base) == Some(
            if port == 80 {
                "http://"@ + host + path + to
            } else {
                "http://"@ + host + seq![':'] + decimal(port as nat) + path + to
            },
        ),
        to[0] == '#' ==> resolved(to, base) == Some(
            if port == 80 {
                "http://"@ + host + path + query + to
            } else {
                "http://"@ + host + seq![':'] + decimal(port as nat) + path + query + to
            },
        ),
{
    reveal_strlit("//");
    reveal_strlit(":");
    if to[0] == '?' || to[0] == '#' {
        lemma_starts_unschemed(to);
        lemma_bare_of(path, query, fragment);
        if "//"@.is_prefix_of(to) {
            assert(to.subrange(0, 2)[0] == to[0]);
        }
        let s = path + query;
        assert forall|i: int| 0 <= i < s.len() implies #[trigger] s[i] != '#' by {
            if i < path.len() {
                assert(path.contains(path[i]));
            } else {
                assert(query.contains(query[i - path.len()]));
            }
        }
        assert(!s.contains('#'));
        lemma_before_tail(s, '#', fragment);
        let place = if port == 80 {
            "http://"@ + host
        } else {
            "http://"@ + host + seq![':'] + decimal(port as nat)
        };
        assert(http_uri(host, port, path + to) =~= place + path + to);
        assert(http_uri(host, port, s + to) =~= place + path + query + to);
    }
}

/// Any other reference without a scheme takes the place of what follows the
/// last slash of the path that it is read from, query and fragment included.
pub proof fn law_sibling_reference(
    host: Seq<char>,
    port: u16,
    folder: Seq<char>,
    file: Seq<char>,
    query: Seq<char>,
    fragment: Seq<char>,
    to: Seq<char>,
    base: Seq<char>,
)
    requires
        http_parts(base) == Some((host, port, folder + file + query + fragment)),
        folder.len() > 0,
        folder.last() == '/',
        !file.contains('/'),
        !(folder + file).contains('?'),
        !(folder + file).contains('#'),
        !query.contains('#'),
        query.len() == 0 || query[0] == '?',
        fragment.len() == 0 || fragment[0] == '#',
        !has_scheme(to),
        to.len() > 0,
        to[0] != '/' && to[0] != '?' && to[0] != '#',
    ensures
        resolved(to, base) == Some(
            if port == 80 {
                "http://"@ + host + folder + to
            } else {
                "http://"@ + host + seq![':'] + decimal(port as nat) + folder + to
            },
        ),
{
    reveal_strlit("//");
    reveal_strlit(":");
    if "//"@.is_prefix_of(to) {
        assert(to.subrange(0, 2)[0] == to[0]);
    }
    let path = folder + file;
    lemma_bare_of(path, query, fragment);
    assert forall|i: int| folder.len() <= i < path.len() implies #[trigger] path[i] != '/' by {
        assert(file.contains(file[i - folder.len()]));
    }
    lemma_last_is(path, '/', folder.len() - 1);
    assert(path.take(folder.len() as int) =~= folder);
    let place = if port == 80 {
        "http://"@ + host
    } else {
        "http://"@ + host + seq![':'] + decimal(port as nat)
    };
    assert(http_uri(host, port, folder + to) =~= place + folder + to);
}

/// The end of a line: a line feed, or a carriage return and a line feed.
pub open spec fn line_end(cr: bool) -> Seq<char> {
    if cr {
        seq!['\r', '\n']
    } else {
        seq!['\n']
    }
}

/// The lines, each with its end.
pub open spec fn ended(ls: Seq<Seq<char>>, cr: bool) -> Seq<char>
    decreases ls.len(),
{
    if ls.len() == 0 {
        seq![]
    } else {
        ls[0] + line_end(cr) + ended(ls.skip(1), cr)
    }
}

/// Whether a text is one line, told from the end that it is written with.
pub open spec fn is_line(line: Seq<char>, cr: bool) -> bool {
    !line.contains('\n') && (cr || line.len() == 0 || line.last() != '\r')
}

/// Whether a line is a Location: what stands before its first colon says so,
/// in any case and with white space around it.
pub open spec fn is_location(line: Seq<char>) -> bool {
    exists|i: int|
        0 <= i < line.len() && #[trigger] line[i] == ':' && (forall|j: int|
            0 <= j < i ==> #[trigger] line[j] != ':') && same_but_case(
            trim(line.take(i)),
            seq!['l', 'o', 'c', 'a', 't', 'i', 'o', 'n'],
        )
}

/// Whether a line stands in the head of an answer without being a Location.
pub open spec fn is_other_line(line: Seq<char>, cr: bool) -> bool {
    is_line(line, cr) && trim(line).len() > 0 && !is_location(line)
}

proof fn lemma_is_location(line: Seq<char>)
    ensures
        is_location(line) <==> line_location(line) is Some,
{
    reveal_strlit("location");
    assert("location"@ =~= seq!['l', 'o', 'c', 'a', 't', 'i', 'o', 'n']);
    line.index_of_first_ensures(':');
    if is_location(line) {
        let i = choose|i: int|
            0 <= i < line.len() && #[trigger] line[i] == ':' && (forall|j: int|
                0 <= j < i ==> #[trigger] line[j] != ':') && same_but_case(
                trim(line.take(i)),
                seq!['l', 'o', 'c', 'a', 't', 'i', 'o', 'n'],
            );
        lemma_first_is(line, ':', i);
    }
    if line_location(line) is Some {
        let i = line.index_of_first(':').unwrap();
        assert(line[i] == ':');
    }
}

/// Ended lines are read back as they are.
pub proof fn lemma_lines_ended(ls: Seq<Seq<char>>, cr: bool, tail: Seq<char>)
    requires
        forall|i: int| 0 <= i < ls.len() ==> is_line(#[trigger] ls[i], cr),
    ensures
        lines(ended(ls, cr) + tail) == ls + lines(tail),
    decreases ls.len(),
{
    if ls.len() == 0 {
        assert(ended(ls, cr) + tail =~= tail);
        assert(ls + lines(tail) =~= lines(tail));
    } else {
        let fewer = ls.skip(1);
        assert forall|i: int| 0 <= i < fewer.len() implies is_line(#[trigger] fewer[i], cr) by {
            assert(fewer[i] == ls[i + 1]);
        }
        lemma_lines_ended(fewer, cr, tail);
        assert(is_line(ls[0], cr));
        let rest = ended(fewer, cr) + tail;
        law_lines(ls[0], rest);
        assert(ended(ls, cr) + tail =~= ls[0] + (line_end(cr) + rest));
        assert(seq![ls[0]] + (fewer + lines(tail)) =~= ls + lines(tail));
    }
}

proof fn lemma_location_after(ls: Seq<Seq<char>>, cr: bool, rest: Seq<Seq<char>>)
    requires
        forall|i: int| 0 <= i < ls.len() ==> is_other_line(#[trigger] ls[i], cr),
    ensures
        location_in(ls + rest) == location_in(rest),
    decreases ls.len(),
{
    if ls.len() == 0 {
        assert(ls + rest =~= rest);
    } else {
        let fewer = ls.skip(1);
        assert forall|i: int| 0 <= i < fewer.len() implies is_other_line(
            #[trigger] fewer[i],
            cr,
        ) by {
            assert(fewer[i] == ls[i + 1]);
        }
        lemma_location_after(fewer, cr, rest);
        assert(is_other_line(ls[0], cr));
        lemma_is_location(ls[0]);
        assert((ls + rest)[0] == ls[0]);
        assert((ls + rest).skip(1) =~= fewer + rest);
    }
}

proof fn lemma_location_line(
    left: Seq<char>,
    name: Seq<char>,
    right: Seq<char>,
    before_value: Seq<char>,
    value: Seq<char>,
    after_value: Seq<char>,
)
    requires
        forall|i: int| 0 <= i < left.len() ==> is_space(#[trigger] left[i]),
        forall|i: int| 0 <= i < right.len() ==> is_space(#[trigger] right[i]),
        forall|i: int| 0 <= i < before_value.len() ==> is_space(#[trigger] before_value[i]),
        forall|i: int| 0 <= i < after_value.len() ==> is_space(#[trigger] after_value[i]),
        same_but_case(name, seq!['l', 'o', 'c', 'a', 't', 'i', 'o', 'n']),
        value.len() == 0 || (!is_space(value[0]) && !is_space(value.last())),
    ensures
        ({
            let line = left + name + right + seq![':'] + before_value + value + after_value;
            &&& line_location(line) == Some(value)
            &&& trim(line).len() > 0
        }),
{
    let wanted = seq!['l', 'o', 'c', 'a', 't', 'i', 'o', 'n'];
    let line = left + name + right + seq![':'] + before_value + value + after_value;
    let key = left + name + right;
    reveal_strlit("location");
    assert("location"@ =~= wanted);
    assert forall|i: int| 0 <= i < name.len() implies #[trigger] name[i] != ':' by {
        assert(lower(name[i]) == lower(wanted[i]));
    }
    assert(lower(name[0]) == lower(wanted[0]));
    assert(lower(name[7]) == lower(wanted[7]));
    law_trim(left, name, right);
    assert forall|i: int| 0 <= i < key.len() implies #[trigger] line[i] != ':' by {
        assert(line[i] == key[i]);
        if i < left.len() {
            assert(is_space(left[i]));
        } else if i < left.len() + name.len() {
            assert(key[i] == name[i - left.len()]);
        } else {
            assert(is_space(right[i - left.len() - name.len()]));
        }
    }
    lemma_first_is(line, ':', key.len() as int);
    assert(line.take(key.len() as int) =~= key);
    assert(line.skip(key.len() as int + 1) =~= before_value + value + after_value);
    law_trim(before_value, value, after_value);
    lemma_not_blank(line, left.len() as int);
}

/// A head that begins with these lines and then has a Location leads to what
/// the Location says, all of it, whatever comes after. Its name may be in any
/// case and have white space around it, as may what it says.
pub proof fn law_location_is_followed(
    top: Seq<char>,
    headers: Seq<Seq<char>>,
    left: Seq<char>,
    name: Seq<char>,
    right: Seq<char>,
    before_value: Seq<char>,
    value: Seq<char>,
    after_value: Seq<char>,
    tail: Seq<char>,
    cr: bool,
    base: Seq<char>,
)
    requires
        words(top).len() > 1,
        words(top)[1].len() > 0,
        words(top)[1][0] == '3',
        is_other_line(top, cr),
        forall|i: int| 0 <= i < headers.len() ==> is_other_line(#[trigger] headers[i], cr),
        forall|i: int| 0 <= i < left.len() ==> is_space(#[trigger] left[i]),
        forall|i: int| 0 <= i < right.len() ==> is_space(#[trigger] right[i]),
        forall|i: int| 0 <= i < before_value.len() ==> is_space(#[trigger] before_value[i]),
        forall|i: int| 0 <= i < after_value.len() ==> is_space(#[trigger] after_value[i]),
        same_but_case(name, seq!['l', 'o', 'c', 'a', 't', 'i', 'o', 'n']),
        value.len() == 0 || (!is_space(value[0]) && !is_space(value.last())),
        is_line(left + name + right + seq![':'] + before_value + value + after_value, cr),
        tail.len() == 0 || line_end(cr).is_prefix_of(tail),
    ensures
        ({
            let line = left + name + right + seq![':'] + before_value + value + after_value;
            let raw = ended(seq![top] + headers, cr) + (line + tail);
            &&& redirect(raw, base) == resolved(value, base)
            &&& has_scheme(value) ==> redirect(raw, base) == Some(value)
        }),
{
    let line = left + name + right + seq![':'] + before_value + value + after_value;
    let head = seq![top] + headers;
    let raw = ended(head, cr) + (line + tail);
    lemma_location_line(left, name, right, before_value, value, after_value);
    assert forall|i: int| 0 <= i < head.len() implies is_other_line(#[trigger] head[i], cr) by {
        if i > 0 {
            assert(head[i] == headers[i - 1]);
        }
    }
    lemma_lines_ended(head, cr, line + tail);
    let rest = if tail.len() == 0 {
        Seq::<Seq<char>>::empty()
    } else {
        lines(tail.skip(line_end(cr).len() as int))
    };
    assert(lines(line + tail) == seq![line] + rest) by {
        if tail.len() == 0 {
            law_lines(line, seq![]);
            assert(line + tail =~= line);
            assert(line.len() > 0);
            assert(seq![line] + Seq::<Seq<char>>::empty() =~= seq![line]);
        } else {
            let after = tail.skip(line_end(cr).len() as int);
            law_lines(line, after);
            assert(tail =~= line_end(cr) + after) by {
                assert forall|i: int| 0 <= i < line_end(cr).len() implies tail[i]
                    == #[trigger] line_end(cr)[i] by {
                    assert(tail.subrange(0, line_end(cr).len() as int)[i] == tail[i]);
                }
            }
        }
    }
    assert(lines(raw)[0] == top);
    lemma_location_after(head, cr, seq![line] + rest);
    assert((seq![line] + rest)[0] == line);
}

/// A redirect is followed to the whole of its Location: an absolute address in
/// it is the page to open, up to its last character, whatever the other headers
/// and the body.
pub proof fn law_redirect_reads_back(
    top: Seq<char>,
    headers: Seq<Seq<char>>,
    value: Seq<char>,
    body: Seq<char>,
    base: Seq<char>,
)
    requires
        words(top).len() > 1,
        words(top)[1].len() > 0,
        words(top)[1][0] == '3',
        is_other_line(top, true),
        forall|i: int| 0 <= i < headers.len() ==> is_other_line(#[trigger] headers[i], true),
        has_scheme(value),
        !value.contains('\n'),
        !is_space(value[0]) && !is_space(value.last()),
    ensures
        redirect(
            ended(seq![top] + headers, true) + ("Location: "@ + value + "\r\n\r\n"@ + body),
            base,
        ) == Some(value),
{
    let name = seq!['L', 'o', 'c', 'a', 't', 'i', 'o', 'n'];
    let none = Seq::<char>::empty();
    let line = none + name + none + seq![':'] + seq![' '] + value + none;
    let tail = "\r\n\r\n"@ + body;
    reveal_strlit("Location: ");
    reveal_strlit("\r\n\r\n");
    assert(line =~= "Location: "@ + value);
    assert forall|i: int| 0 <= i < line.len() implies #[trigger] line[i] != '\n' by {
        if i >= 10 {
            assert(value.contains(value[i - 10]));
        }
    }
    assert(line_end(true) =~= tail.subrange(0, 2));
    law_location_is_followed(
        top,
        headers,
        none,
        name,
        none,
        seq![' '],
        value,
        none,
        tail,
        true,
        base,
    );
    assert(line + tail =~= "Location: "@ + value + "\r\n\r\n"@ + body);
}

/// Only an answer whose status begins with a 3 leads anywhere. The status is
/// the second word of the first line.
pub proof fn law_other_status_leads_nowhere(
    top: Seq<char>,
    cr: bool,
    tail: Seq<char>,
    base: Seq<char>,
)
    requires
        is_line(top, cr),
        words(top).len() < 2 || words(top)[1].len() == 0 || words(top)[1][0] != '3',
    ensures
        redirect(top + line_end(cr) + tail, base) is None,
        redirect(top, base) is None,
{
    law_lines(top, tail);
    assert(top + line_end(cr) + tail =~= top + (line_end(cr) + tail));
    assert((seq![top] + lines(tail))[0] == top);
}

/// Without a Location in its head an answer leads nowhere. The head ends at
/// the first blank line, and what comes after it does not count.
pub proof fn law_no_location_leads_nowhere(
    head: Seq<Seq<char>>,
    blank: Seq<char>,
    cr: bool,
    body: Seq<char>,
    base: Seq<char>,
)
    requires
        forall|i: int| 0 <= i < head.len() ==> is_other_line(#[trigger] head[i], cr),
        is_line(blank, cr),
        forall|i: int| 0 <= i < blank.len() ==> is_space(#[trigger] blank[i]),
    ensures
        redirect(ended(head, cr), base) is None,
        redirect(ended(head, cr) + (blank + line_end(cr) + body), base) is None,
{
    assert forall|i: int| 0 <= i < head.len() implies is_line(#[trigger] head[i], cr) by {
        assert(is_other_line(head[i], cr));
    }
    lemma_lines_ended(head, cr, seq![]);
    assert(ended(head, cr) + Seq::<char>::empty() =~= ended(head, cr));
    lemma_location_after(head, cr, lines(Seq::empty()));
    let tail = blank + line_end(cr) + body;
    lemma_lines_ended(head, cr, tail);
    law_lines(blank, body);
    assert(tail =~= blank + (line_end(cr) + body));
    lemma_location_after(head, cr, lines(tail));
    law_trim(blank, seq![], seq![]);
    assert(blank + Seq::<char>::empty() + Seq::<char>::empty() =~= blank);
    assert((seq![blank] + lines(body))[0] == blank);
}

} // verus!
