//! Characters, lines and words.
//!
//! The specification functions say what the text operations mean on sequences
//! of characters; the executable functions work on slices of characters and
//! are proved to agree with them.

use vstd::prelude::*;
use vstd::slice::slice_subrange;

verus! {

/// `String::push`: "Appends the given char to the end of this String."
pub assume_specification[ String::push ](s: &mut String, c: char)
    ensures
        final(s)@ == old(s)@.push(c),
;

/// The characters of a string that may be missing.
pub open spec fn view_of(s: Option<String>) -> Option<Seq<char>> {
    match s {
        Some(t) => Some(t@),
        None => None,
    }
}

/// The characters with the Unicode property White_Space.
pub open spec fn is_space(c: char) -> bool {
    let n = c as u32;
    ||| 0x9 <= n <= 0xd
    ||| n == 0x20
    ||| n == 0x85
    ||| n == 0xa0
    ||| n == 0x1680
    ||| 0x2000 <= n <= 0x200a
    ||| n == 0x2028
    ||| n == 0x2029
    ||| n == 0x202f
    ||| n == 0x205f
    ||| n == 0x3000
}

/// `s` without the white space at its start.
pub open spec fn trim_start(s: Seq<char>) -> Seq<char>
    decreases s.len(),
{
    if s.len() > 0 && is_space(s[0]) {
        trim_start(s.skip(1))
    } else {
        s
    }
}

/// `s` without the white space at its end.
pub open spec fn trim_end(s: Seq<char>) -> Seq<char>
    decreases s.len(),
{
    if s.len() > 0 && is_space(s.last()) {
        trim_end(s.drop_last())
    } else {
        s
    }
}

/// `s` without the white space at either end.
pub open spec fn trim(s: Seq<char>) -> Seq<char> {
    trim_end(trim_start(s))
}

/// The characters of a string.
pub fn chars_of(s: &str) -> (out: Vec<char>)
    ensures
        out@ == s@,
{
    let mut out: Vec<char> = Vec::new();
    for c in it: s.chars()
        invariant
            it.seq() == s@,
            out@ == s@.take(it.index() as int),
    {
        out.push(c);
    }
    out
}

/// The string made of these characters.
pub fn text_of(s: &[char]) -> (out: String)
    ensures
        out@ == s@,
{
    let mut out: String = String::new();
    let mut i: usize = 0;
    while i < s.len()
        invariant
            i <= s.len(),
            out@ == s@.take(i as int),
        decreases s.len() - i,
    {
        out.push(s[i]);
        i = i + 1;
    }
    out
}

/// Whether `c` is white space.
pub fn is_white(c: char) -> (b: bool)
    ensures
        b == is_space(c),
{
    let n: u32 = c as u32;
    (0x9 <= n && n <= 0xd) || n == 0x20 || n == 0x85 || n == 0xa0 || n == 0x1680 || (0x2000 <= n
        && n <= 0x200a) || n == 0x2028 || n == 0x2029 || n == 0x202f || n == 0x205f || n == 0x3000
}

/// `s` without the white space at its start.
pub fn trimmed_start(s: &[char]) -> (out: &[char])
    ensures
        out@ == trim_start(s@),
{
    let mut i: usize = 0;
    proof {
        assert(s@.skip(0) =~= s@);
    }
    while i < s.len() && is_white(s[i])
        invariant
            i <= s.len(),
            trim_start(s@) == trim_start(s@.skip(i as int)),
        decreases s.len() - i,
    {
        proof {
            assert(s@.skip(i as int).skip(1) =~= s@.skip(i + 1));
        }
        i = i + 1;
    }
    slice_subrange(s, i, s.len())
}

/// `s` without the white space at either end.
pub fn trimmed(s: &[char]) -> (out: &[char])
    ensures
        out@ == trim(s@),
{
    let t = trimmed_start(s);
    let mut n: usize = t.len();
    proof {
        assert(t@.take(n as int) =~= t@);
    }
    while n > 0 && is_white(t[n - 1])
        invariant
            n <= t.len(),
            trim_end(t@) == trim_end(t@.take(n as int)),
        decreases n,
    {
        proof {
            assert(t@.take(n as int).drop_last() =~= t@.take(n - 1));
        }
        n = n - 1;
    }
    slice_subrange(t, 0, n)
}

/// A line without the carriage return of a CR LF ending.
pub open spec fn without_cr(s: Seq<char>) -> Seq<char> {
    if s.len() > 0 && s.last() == '\r' {
        s.drop_last()
    } else {
        s
    }
}

/// The lines of `s`. Each ends at a line feed or at a carriage return and a
/// line feed; the ending is not part of the line, and the last line needs none.
pub open spec fn lines(s: Seq<char>) -> Seq<Seq<char>>
    decreases s.len(),
{
    if s.len() == 0 {
        seq![]
    } else {
        proof {
            s.index_of_first_ensures('\n');
        }
        match s.index_of_first('\n') {
            Some(i) => seq![without_cr(s.take(i))] + lines(s.skip(i + 1)),
            None => seq![s],
        }
    }
}

/// How many characters of `s` come before its first white space.
pub open spec fn word_len(s: Seq<char>) -> nat
    decreases s.len(),
{
    if s.len() > 0 && !is_space(s[0]) {
        1 + word_len(s.skip(1))
    } else {
        0
    }
}

/// The words of `s`: the longest runs of characters that are not white space.
pub open spec fn words(s: Seq<char>) -> Seq<Seq<char>>
    decreases s.len(),
{
    let t = trim_start(s);
    if t.len() == 0 {
        seq![]
    } else {
        proof {
            lemma_trim_start(s);
            lemma_word_len(t);
        }
        seq![t.take(word_len(t) as int)] + words(t.skip(word_len(t) as int))
    }
}

/// Trimming keeps an end of the text, and stops at a character that is no
/// white space.
pub proof fn lemma_trim_start(s: Seq<char>)
    ensures
        trim_start(s).len() <= s.len(),
        trim_start(s) == s.skip(s.len() - trim_start(s).len()),
        trim_start(s).len() > 0 ==> !is_space(trim_start(s)[0]),
    decreases s.len(),
{
    if s.len() > 0 && is_space(s[0]) {
        lemma_trim_start(s.skip(1));
        assert(trim_start(s) =~= s.skip(s.len() - trim_start(s).len()));
    } else {
        assert(s.skip(0) =~= s);
    }
}

/// A word ends at white space or with the text.
pub proof fn lemma_word_len(s: Seq<char>)
    ensures
        word_len(s) <= s.len(),
        forall|i: int| 0 <= i < word_len(s) ==> !is_space(#[trigger] s[i]),
        word_len(s) < s.len() ==> is_space(s[word_len(s) as int]),
        s.len() > 0 && !is_space(s[0]) ==> word_len(s) > 0,
    decreases s.len(),
{
    if s.len() > 0 && !is_space(s[0]) {
        lemma_word_len(s.skip(1));
        assert forall|i: int| 0 <= i < word_len(s) implies !is_space(#[trigger] s[i]) by {
            if i > 0 {
                assert(s[i] == s.skip(1)[i - 1]);
            }
        }
    }
}

/// The length of the first word is determined by where it ends.
pub proof fn lemma_word_len_is(s: Seq<char>, n: int)
    requires
        0 <= n <= s.len(),
        forall|i: int| 0 <= i < n ==> !is_space(#[trigger] s[i]),
        n < s.len() ==> is_space(s[n]),
    ensures
        word_len(s) == n,
{
    lemma_word_len(s);
    if word_len(s) < n {
        assert(!is_space(s[word_len(s) as int]));
    }
}

/// The first position of `c` is determined by what stands before it.
pub proof fn lemma_first_is(s: Seq<char>, c: char, n: int)
    requires
        0 <= n < s.len(),
        s[n] == c,
        forall|i: int| 0 <= i < n ==> #[trigger] s[i] != c,
    ensures
        s.index_of_first(c) == Some(n),
{
    s.index_of_first_ensures(c);
    assert(s.contains(c));
    let k = s.index_of_first(c).unwrap();
    if k < n {
        assert(s[k] != c);
    }
}

/// The last position of `c` is determined by what stands after it.
pub proof fn lemma_last_is(s: Seq<char>, c: char, n: int)
    requires
        0 <= n < s.len(),
        s[n] == c,
        forall|i: int| n < i < s.len() ==> #[trigger] s[i] != c,
    ensures
        s.index_of_last(c) == Some(n),
{
    s.index_of_last_ensures(c);
    assert(s.contains(c));
    let k = s.index_of_last(c).unwrap();
    if k > n {
        assert(s[k] != c);
    }
}

/// A character that does not occur has neither a first nor a last position.
pub proof fn lemma_absent(s: Seq<char>, c: char)
    requires
        !s.contains(c),
    ensures
        s.index_of_first(c) is None,
        s.index_of_last(c) is None,
{
    s.index_of_first_ensures(c);
    s.index_of_last_ensures(c);
}

/// Where `c` first occurs.
pub fn first_of(s: &[char], c: char) -> (out: Option<usize>)
    ensures
        match out {
            Some(i) => i < s@.len() && s@.index_of_first(c) == Some(i as int),
            None => s@.index_of_first(c) is None,
        },
{
    let mut i: usize = 0;
    while i < s.len()
        invariant
            i <= s.len(),
            forall|j: int| 0 <= j < i ==> #[trigger] s@[j] != c,
        decreases s.len() - i,
    {
        if s[i] == c {
            proof {
                lemma_first_is(s@, c, i as int);
            }
            return Some(i);
        }
        i = i + 1;
    }
    proof {
        lemma_absent(s@, c);
    }
    None
}

/// Where `c` last occurs.
pub fn last_of(s: &[char], c: char) -> (out: Option<usize>)
    ensures
        match out {
            Some(i) => i < s@.len() && s@.index_of_last(c) == Some(i as int),
            None => s@.index_of_last(c) is None,
        },
{
    let mut i: usize = s.len();
    while i > 0
        invariant
            i <= s.len(),
            forall|j: int| i <= j < s.len() ==> #[trigger] s@[j] != c,
        decreases i,
    {
        i = i - 1;
        if s[i] == c {
            proof {
                lemma_last_is(s@, c, i as int);
            }
            return Some(i);
        }
    }
    proof {
        lemma_absent(s@, c);
    }
    None
}

/// `s` up to the first `c`, or all of it.
pub open spec fn before(s: Seq<char>, c: char) -> Seq<char> {
    match s.index_of_first(c) {
        Some(i) => s.take(i),
        None => s,
    }
}

/// `s` up to the first `c`, or all of it.
pub fn up_to(s: &[char], c: char) -> (out: &[char])
    ensures
        out@ == before(s@, c),
{
    match first_of(s, c) {
        Some(i) => {
            let out = slice_subrange(s, 0, i);
            proof {
                assert(out@ =~= s@.take(i as int));
            }
            out
        },
        None => s,
    }
}

/// The first line of `s` and what comes after it; nothing for an empty text.
pub fn next_line(s: &[char]) -> (out: Option<(&[char], &[char])>)
    ensures
        match out {
            Some((line, rest)) => {
                &&& rest@.len() < s@.len()
                &&& lines(s@) == seq![line@] + lines(rest@)
            },
            None => s@.len() == 0,
        },
{
    if s.len() == 0 {
        return None;
    }
    match first_of(s, '\n') {
        Some(i) => {
            let rest = slice_subrange(s, i + 1, s.len());
            let n: usize = if i > 0 && s[i - 1] == '\r' {
                i - 1
            } else {
                i
            };
            let line = slice_subrange(s, 0, n);
            proof {
                assert(line@ =~= without_cr(s@.take(i as int)));
                assert(rest@ =~= s@.skip(i + 1));
            }
            Some((line, rest))
        },
        None => {
            let rest = slice_subrange(s, s.len(), s.len());
            proof {
                assert(lines(rest@) =~= seq![]);
                assert(lines(s@) =~= seq![s@] + lines(rest@));
            }
            Some((s, rest))
        },
    }
}

/// The first word of `s` and what comes after it; nothing where there is none.
pub fn next_word(s: &[char]) -> (out: Option<(&[char], &[char])>)
    ensures
        match out {
            Some((word, rest)) => {
                &&& rest@.len() < s@.len()
                &&& words(s@) == seq![word@] + words(rest@)
            },
            None => words(s@).len() == 0,
        },
{
    let t = trimmed_start(s);
    proof {
        lemma_trim_start(s@);
    }
    if t.len() == 0 {
        return None;
    }
    let mut n: usize = 0;
    while n < t.len() && !is_white(t[n])
        invariant
            n <= t.len(),
            forall|i: int| 0 <= i < n ==> !is_space(#[trigger] t@[i]),
        decreases t.len() - n,
    {
        n = n + 1;
    }
    let word = slice_subrange(t, 0, n);
    let rest = slice_subrange(t, n, t.len());
    proof {
        lemma_word_len_is(t@, n as int);
        lemma_word_len(t@);
        assert(word@ =~= t@.take(n as int));
        assert(rest@ =~= t@.skip(n as int));
    }
    Some((word, rest))
}

/// Word number `n` of `s`, counted from 0.
pub fn nth_word(s: &[char], n: usize) -> (out: Option<&[char]>)
    ensures
        match out {
            Some(word) => n < words(s@).len() && word@ == words(s@)[n as int],
            None => words(s@).len() <= n,
        },
{
    let mut rest = s;
    let mut i: usize = 0;
    loop
        invariant
            i <= n,
            words(s@).len() == i + words(rest@).len(),
            forall|j: int| 0 <= j < words(rest@).len() ==> words(s@)[i + j] == #[trigger] words(
                rest@,
            )[j],
        decreases n - i,
    {
        match next_word(rest) {
            Some((word, after)) => {
                proof {
                    let all = seq![word@] + words(after@);
                    assert(all[0] == word@);
                    assert(words(rest@)[0] == word@);
                    assert forall|j: int| 0 <= j < words(after@).len() implies words(s@)[i + 1 + j]
                        == #[trigger] words(after@)[j] by {
                        assert(words(rest@)[j + 1] == all[j + 1]);
                    }
                }
                if i == n {
                    return Some(word);
                }
                rest = after;
                i = i + 1;
            },
            None => {
                return None;
            },
        }
    }
}

/// `c` in lower case, where it is one of the letters A to Z.
pub open spec fn lower(c: char) -> char {
    if 'A' <= c <= 'Z' {
        (c as u8 + 32) as char
    } else {
        c
    }
}

/// Whether two texts are the same but for the case of the letters A to Z.
pub open spec fn same_but_case(a: Seq<char>, b: Seq<char>) -> bool {
    &&& a.len() == b.len()
    &&& forall|i: int| 0 <= i < a.len() ==> lower(#[trigger] a[i]) == lower(b[i])
}

fn ascii_lower(c: char) -> (out: char)
    ensures
        out == lower(c),
{
    if 'A' <= c && c <= 'Z' {
        (c as u8 + 32) as char
    } else {
        c
    }
}

/// Whether two texts are the same but for the case of the letters A to Z.
pub fn equal_but_case(a: &[char], b: &[char]) -> (out: bool)
    ensures
        out == same_but_case(a@, b@),
{
    if a.len() != b.len() {
        return false;
    }
    let mut i: usize = 0;
    while i < a.len()
        invariant
            i <= a.len() == b.len(),
            forall|j: int| 0 <= j < i ==> lower(#[trigger] a@[j]) == lower(b@[j]),
        decreases a.len() - i,
    {
        if ascii_lower(a[i]) != ascii_lower(b[i]) {
            proof {
                assert(lower(a@[i as int]) != lower(b@[i as int]));
            }
            return false;
        }
        i = i + 1;
    }
    true
}

/// Whether `s` starts with `prefix`.
pub fn starts_with(s: &[char], prefix: &str) -> (out: bool)
    ensures
        out == prefix@.is_prefix_of(s@),
{
    let p = chars_of(prefix);
    if p.len() > s.len() {
        return false;
    }
    let mut i: usize = 0;
    while i < p.len()
        invariant
            i <= p.len() <= s.len(),
            p@ == prefix@,
            forall|j: int| 0 <= j < i ==> #[trigger] p@[j] == s@[j],
        decreases p.len() - i,
    {
        if p[i] != s[i] {
            proof {
                assert(prefix@[i as int] != s@.subrange(0, prefix@.len() as int)[i as int]);
            }
            return false;
        }
        i = i + 1;
    }
    proof {
        assert(prefix@ =~= s@.subrange(0, prefix@.len() as int));
    }
    true
}

/// Whether the characters of `s` are those of `text`.
pub fn is_text(s: &[char], text: &str) -> (out: bool)
    ensures
        out == (s@ == text@),
{
    let same_start = starts_with(s, text);
    proof {
        if same_start && s@.len() == text@.len() {
            assert(s@ =~= text@);
        }
    }
    same_start && s.len() == text.unicode_len()
}

/// Whether two strings hold the same characters.
pub fn same_text(a: &str, b: &str) -> (out: bool)
    ensures
        out == (a@ == b@),
{
    let chars = chars_of(a);
    is_text(chars.as_slice(), b)
}

/// White space before a text adds no word.
pub proof fn lemma_words_after_space(c: char, s: Seq<char>)
    requires
        is_space(c),
    ensures
        words(seq![c] + s) == words(s),
{
    let t = seq![c] + s;
    assert(t.skip(1) =~= s);
    assert(trim_start(t) == trim_start(s));
}

/// A run without white space, before white space or the end, is the first word.
pub proof fn lemma_words_first(w: Seq<char>, rest: Seq<char>)
    requires
        w.len() > 0,
        forall|i: int| 0 <= i < w.len() ==> !is_space(#[trigger] w[i]),
        rest.len() == 0 || is_space(rest[0]),
    ensures
        words(w + rest) == seq![w] + words(rest),
{
    let t = w + rest;
    assert(t[0] == w[0]);
    assert(trim_start(t) == t);
    assert forall|i: int| 0 <= i < w.len() implies !is_space(#[trigger] t[i]) by {
        assert(t[i] == w[i]);
    }
    if rest.len() > 0 {
        assert(t[w.len() as int] == rest[0]);
    }
    lemma_word_len_is(t, w.len() as int);
    assert(t.take(w.len() as int) =~= w);
    assert(t.skip(w.len() as int) =~= rest);
}

/// The same, where a single space follows and then more text.
pub proof fn lemma_words_before_space(w: Seq<char>, rest: Seq<char>)
    requires
        w.len() > 0,
        forall|i: int| 0 <= i < w.len() ==> !is_space(#[trigger] w[i]),
    ensures
        words(w + (seq![' '] + rest)) == seq![w] + words(rest),
{
    lemma_words_first(w, seq![' '] + rest);
    lemma_words_after_space(' ', rest);
}

/// A text without a line feed, before one, is the first line.
pub proof fn lemma_lines_first(line: Seq<char>, rest: Seq<char>)
    requires
        !line.contains('\n'),
    ensures
        lines(line + (seq!['\n'] + rest)) == seq![without_cr(line)] + lines(rest),
{
    let t = line + (seq!['\n'] + rest);
    assert forall|i: int| 0 <= i < line.len() implies #[trigger] t[i] != '\n' by {
        assert(t[i] == line[i]);
        assert(line.contains(line[i]));
    }
    lemma_first_is(t, '\n', line.len() as int);
    assert(t.take(line.len() as int) =~= line);
    assert(t.skip(line.len() as int + 1) =~= rest);
}

/// What a text begins with, its first line begins with, if it holds no line
/// feed and ends in no carriage return.
pub proof fn lemma_first_line_begins(start: Seq<char>, rest: Seq<char>)
    requires
        start.len() > 0,
        !start.contains('\n'),
        start.last() != '\r',
    ensures
        lines(start + rest).len() > 0,
        start.is_prefix_of(lines(start + rest)[0]),
{
    let t = start + rest;
    t.index_of_first_ensures('\n');
    match t.index_of_first('\n') {
        Some(i) => {
            if i < start.len() {
                assert(start.contains(start[i]));
            }
            let cut = t.take(i);
            let all = seq![without_cr(cut)] + lines(t.skip(i + 1));
            assert(all[0] == without_cr(cut));
            if i == start.len() {
                assert(cut =~= start);
            }
            assert(start =~= without_cr(cut).subrange(0, start.len() as int));
        },
        None => {
            assert(lines(t)[0] == t);
            assert(start =~= t.subrange(0, start.len() as int));
        },
    }
}

/// What follows `mark` in the first of the lines that begins with it.
pub open spec fn first_marked(ls: Seq<Seq<char>>, mark: Seq<char>) -> Option<Seq<char>>
    decreases ls.len(),
{
    if ls.len() == 0 {
        None
    } else if mark.is_prefix_of(ls[0]) {
        Some(ls[0].skip(mark.len() as int))
    } else {
        first_marked(ls.skip(1), mark)
    }
}

/// What follows `mark` in the first line of `s` that begins with it.
pub fn find_marked<'a>(s: &'a [char], mark: &str) -> (out: Option<&'a [char]>)
    ensures
        match out {
            Some(rest) => first_marked(lines(s@), mark@) == Some(rest@),
            None => first_marked(lines(s@), mark@) is None,
        },
{
    let mut rest = s;
    loop
        invariant
            first_marked(lines(s@), mark@) == first_marked(lines(rest@), mark@),
        decreases rest@.len(),
    {
        match next_line(rest) {
            Some((line, after)) => {
                proof {
                    let all = seq![line@] + lines(after@);
                    assert(all[0] == line@);
                    assert(all.skip(1) =~= lines(after@));
                }
                if starts_with(line, mark) {
                    let found = slice_subrange(line, mark.unicode_len(), line.len());
                    proof {
                        assert(found@ =~= line@.skip(mark@.len() as int));
                    }
                    return Some(found);
                }
                rest = after;
            },
            None => {
                return None;
            },
        }
    }
}

proof fn lemma_trim_start_of(left: Seq<char>, s: Seq<char>)
    requires
        forall|i: int| 0 <= i < left.len() ==> is_space(#[trigger] left[i]),
    ensures
        trim_start(left + s) == trim_start(s),
    decreases left.len(),
{
    if left.len() == 0 {
        assert(left + s =~= s);
    } else {
        assert((left + s).skip(1) =~= left.skip(1) + s);
        lemma_trim_start_of(left.skip(1), s);
    }
}

proof fn lemma_trim_end_of(s: Seq<char>, right: Seq<char>)
    requires
        forall|i: int| 0 <= i < right.len() ==> is_space(#[trigger] right[i]),
    ensures
        trim_end(s + right) == trim_end(s),
    decreases right.len(),
{
    if right.len() == 0 {
        assert(s + right =~= s);
    } else {
        assert((s + right).last() == right[right.len() - 1]);
        assert((s + right).drop_last() =~= s + right.drop_last());
        lemma_trim_end_of(s, right.drop_last());
    }
}

/// Trimming takes the white space off both ends of a text, and nothing else:
/// what begins and ends with other characters comes out whole.
pub proof fn law_trim(left: Seq<char>, s: Seq<char>, right: Seq<char>)
    requires
        forall|i: int| 0 <= i < left.len() ==> is_space(#[trigger] left[i]),
        forall|i: int| 0 <= i < right.len() ==> is_space(#[trigger] right[i]),
        s.len() == 0 || (!is_space(s[0]) && !is_space(s.last())),
    ensures
        trim(left + s + right) == s,
{
    assert(left + s + right =~= left + (s + right));
    lemma_trim_start_of(left, s + right);
    if s.len() == 0 {
        assert(s + right =~= right + s);
        lemma_trim_start_of(right, s);
    } else {
        assert((s + right)[0] == s[0]);
        lemma_trim_end_of(s, right);
    }
}

/// A text comes apart into its lines at every line feed, and at every carriage
/// return and line feed, and nowhere else. What comes after the last of them is
/// a line too, unless it is empty.
pub proof fn law_lines(line: Seq<char>, rest: Seq<char>)
    requires
        !line.contains('\n'),
    ensures
        lines(line + (seq!['\r', '\n'] + rest)) == seq![line] + lines(rest),
        line.len() == 0 || line.last() != '\r' ==> lines(line + (seq!['\n'] + rest)) == seq![line]
            + lines(rest),
        line.len() > 0 ==> lines(line) == seq![line],
        lines(Seq::empty()) == Seq::<Seq<char>>::empty(),
{
    let with_cr = line.push('\r');
    assert forall|i: int| 0 <= i < with_cr.len() implies #[trigger] with_cr[i] != '\n' by {
        if i < line.len() {
            assert(line.contains(line[i]));
        }
    }
    assert(!with_cr.contains('\n'));
    lemma_lines_first(with_cr, rest);
    assert(with_cr.drop_last() =~= line);
    assert(line + (seq!['\r', '\n'] + rest) =~= with_cr + (seq!['\n'] + rest));
    lemma_lines_first(line, rest);
    lemma_absent(line, '\n');
}

/// The words of a text are what white space parts, in their order.
pub proof fn law_words(word: Seq<char>, rest: Seq<char>, c: char)
    requires
        is_space(c),
        forall|i: int| 0 <= i < word.len() ==> !is_space(#[trigger] word[i]),
    ensures
        word.len() > 0 ==> words(word + (seq![c] + rest)) == seq![word] + words(rest),
        word.len() > 0 ==> words(word) == seq![word],
        words(seq![c] + rest) == words(rest),
        words(Seq::empty()) == Seq::<Seq<char>>::empty(),
{
    lemma_words_after_space(c, rest);
    if word.len() > 0 {
        lemma_words_first(word, seq![c] + rest);
        lemma_words_first(word, seq![]);
        assert(word + Seq::<char>::empty() =~= word);
        assert(words(Seq::empty()) =~= seq![]);
        assert(seq![word] + Seq::<Seq<char>>::empty() =~= seq![word]);
    }
}

/// Two texts are the same but for case if and only if they are equally long and
/// each two characters are equal or one letter from A to Z in its two cases.
pub proof fn law_same_but_case(a: Seq<char>, b: Seq<char>)
    ensures
        same_but_case(a, b) <==> a.len() == b.len() && forall|i: int|
            0 <= i < a.len() ==> {
                ||| #[trigger] a[i] == b[i]
                ||| 'A' <= a[i] <= 'Z' && b[i] as int == a[i] as int + 32
                ||| 'A' <= b[i] <= 'Z' && a[i] as int == b[i] as int + 32
            },
{
    assert forall|i: int| 0 <= i < a.len() && a.len() == b.len() implies (lower(
        #[trigger] a[i],
    ) == lower(b[i]) <==> {
        ||| a[i] == b[i]
        ||| 'A' <= a[i] <= 'Z' && b[i] as int == a[i] as int + 32
        ||| 'A' <= b[i] <= 'Z' && a[i] as int == b[i] as int + 32
    }) by {}
}

/// What comes before a character is what stands there up to its first
/// occurrence, and the whole text where it does not occur.
pub proof fn law_before(s: Seq<char>, c: char, rest: Seq<char>)
    requires
        !s.contains(c),
    ensures
        before(s + (seq![c] + rest), c) == s,
        before(s, c) == s,
{
    let t = s + (seq![c] + rest);
    assert forall|i: int| 0 <= i < s.len() implies #[trigger] t[i] != c by {
        assert(s.contains(s[i]));
    }
    lemma_first_is(t, c, s.len() as int);
    assert(t.take(s.len() as int) =~= s);
    lemma_absent(s, c);
}

/// Of the lines that begin with a mark the first counts, and all that follows
/// the mark in it. Where no line does, nothing is found.
pub proof fn law_first_marked(
    others: Seq<Seq<char>>,
    mark: Seq<char>,
    value: Seq<char>,
    rest: Seq<Seq<char>>,
)
    requires
        forall|i: int| 0 <= i < others.len() ==> !mark.is_prefix_of(#[trigger] others[i]),
    ensures
        first_marked(others + (seq![mark + value] + rest), mark) == Some(value),
        first_marked(others, mark) is None,
    decreases others.len(),
{
    let all = others + (seq![mark + value] + rest);
    if others.len() == 0 {
        assert(all[0] == mark + value);
        assert((mark + value).subrange(0, mark.len() as int) =~= mark);
        assert((mark + value).skip(mark.len() as int) =~= value);
    } else {
        let fewer = others.skip(1);
        assert forall|i: int| 0 <= i < fewer.len() implies !mark.is_prefix_of(
            #[trigger] fewer[i],
        ) by {
            assert(fewer[i] == others[i + 1]);
        }
        law_first_marked(fewer, mark, value, rest);
        assert(all[0] == others[0]);
        assert(all.skip(1) =~= fewer + (seq![mark + value] + rest));
    }
}

/// A text with a character that is no white space is not blank.
pub proof fn lemma_not_blank(s: Seq<char>, i: int)
    requires
        0 <= i < s.len(),
        !is_space(s[i]),
    ensures
        trim(s).len() > 0,
{
    lemma_trim_start(s);
    let t = trim_start(s);
    let cut = s.len() - t.len();
    lemma_trim_start_keeps(s, i);
    lemma_trim_end_keeps(t, i - cut);
}

proof fn lemma_trim_start_keeps(s: Seq<char>, i: int)
    requires
        0 <= i < s.len(),
        !is_space(s[i]),
    ensures
        s.len() - trim_start(s).len() <= i,
    decreases s.len(),
{
    if is_space(s[0]) {
        lemma_trim_start_keeps(s.skip(1), i - 1);
    }
}

proof fn lemma_trim_end_keeps(s: Seq<char>, i: int)
    requires
        0 <= i < s.len(),
        !is_space(s[i]),
    ensures
        trim_end(s).len() > i,
    decreases s.len(),
{
    if is_space(s.last()) {
        lemma_trim_end_keeps(s.drop_last(), i);
    }
}

/// A string that may be missing stands for its characters, all of them, and
/// only a missing one for nothing.
pub proof fn law_view_of(s: String)
    ensures
        view_of(Some(s)) == Some(s@),
        view_of(None) is None,
{
}

} // verus!
