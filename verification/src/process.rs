//! Finding the running listener among the processes.

use crate::number::{decimal, law_decimal_reads_back, number, parse_number};
use crate::session::{law_arguments, law_modes, mode, mode_of, Mode};
use crate::text::{
    before, chars_of, find_marked, first_marked, first_of, is_text, law_before, law_first_marked,
    lemma_absent, lemma_first_is, lines, nth_word, text_of, trim, trimmed, up_to, view_of, words,
};
use vstd::prelude::*;
use vstd::slice::slice_subrange;

verus! {

/// The process that an entry of the process list stands for: one whose name is
/// a number of 32 bits, other than `me`.
pub open spec fn other_process(name: Seq<char>, me: u32) -> Option<nat> {
    match number(name, u32::MAX as nat) {
        Some(pid) if pid != me => Some(pid),
        _ => None,
    }
}

/// The process that an entry of the process list stands for, where it is one,
/// and not the one that asks.
pub fn process_id(name: &str, me: u32) -> (out: Option<u32>)
    ensures
        match out {
            Some(pid) => other_process(name@, me) == Some(pid as nat),
            None => other_process(name@, me) is None,
        },
        out != Some(me),
{
    let chars = chars_of(name);
    match parse_number(chars.as_slice(), u32::MAX as u64) {
        Some(pid) => {
            if pid == me as u64 {
                None
            } else {
                Some(pid as u32)
            }
        },
        None => None,
    }
}

/// The first argument in a command line, whose parts end in a zero character
/// each; empty where there is none.
pub open spec fn first_argument(cmdline: Seq<char>) -> Seq<char> {
    match cmdline.index_of_first('\0') {
        Some(i) => before(cmdline.skip(i + 1), '\0'),
        None => seq![],
    }
}

/// Whether a process listens: it is called torii, and its first argument and
/// whether its input and its output are terminals ask for that. A name or a
/// command line that cannot be read counts as not there.
pub open spec fn listens(
    name: Option<Seq<char>>,
    cmdline: Option<Seq<char>>,
    input: bool,
    output: bool,
) -> bool {
    let arg = match cmdline {
        Some(line) => first_argument(line),
        None => seq![],
    };
    &&& name matches Some(n) && trim(n) == "torii"@
    &&& mode_of(arg, input && output) == Mode::Listen
}

fn is_torii(name: &Option<String>) -> (out: bool)
    ensures
        out == (view_of(*name) matches Some(n) && trim(n) == "torii"@),
{
    match name {
        Some(n) => {
            let chars = chars_of(n.as_str());
            is_text(trimmed(chars.as_slice()), "torii")
        },
        None => false,
    }
}

fn read_argument(cmdline: &Option<String>) -> (out: String)
    ensures
        out@ == match view_of(*cmdline) {
            Some(line) => first_argument(line),
            None => seq![],
        },
{
    match cmdline {
        Some(line) => {
            let chars = chars_of(line.as_str());
            let all = chars.as_slice();
            let end: usize = all.len();
            match first_of(all, '\0') {
                Some(i) => {
                    let rest = slice_subrange(all, i + 1, end);
                    proof {
                        assert(rest@ =~= line@.skip(i + 1));
                    }
                    text_of(up_to(rest, '\0'))
                },
                None => String::new(),
            }
        },
        None => String::new(),
    }
}

/// Whether a process is a running listener, from its name and its command line,
/// as far as they can be read, and whether its input and its output are
/// terminals. A terminal view is called torii too, and does not listen.
pub fn is_listener(
    name: &Option<String>,
    cmdline: &Option<String>,
    input: bool,
    output: bool,
) -> (out: bool)
    ensures
        out == listens(view_of(*name), view_of(*cmdline), input, output),
{
    is_torii(name) && match mode(read_argument(cmdline).as_str(), input && output) {
        Mode::Listen => true,
        _ => false,
    }
}

/// A terminal view, which runs without an argument inside a terminal, is never
/// taken for the listener. Any other torii without an argument is one.
pub proof fn law_view_is_no_listener(
    name: Option<Seq<char>>,
    cmdline: Option<Seq<char>>,
    input: bool,
    output: bool,
)
    requires
        cmdline matches Some(line) ==> first_argument(line).len() == 0,
    ensures
        input && output ==> !listens(name, cmdline, input, output),
        !(input && output) ==> (listens(name, cmdline, input, output) <==> (name matches Some(n)
            && trim(n) == "torii"@)),
{
    let arg = match cmdline {
        Some(line) => first_argument(line),
        None => seq![],
    };
    law_modes(arg, input && output);
}

/// The resident memory in kB that a process status gives: the first word after
/// `VmRSS:`, and 0 where that is missing or no number.
pub open spec fn resident(status: Seq<char>) -> nat {
    match first_marked(lines(status), "VmRSS:"@) {
        Some(rest) => if words(rest).len() > 0 {
            match number(words(rest)[0], u64::MAX as nat) {
                Some(kb) => kb,
                None => 0,
            }
        } else {
            0
        },
        None => 0,
    }
}

/// The resident memory in kB that a process status gives.
pub fn resident_kb(status: &str) -> (out: u64)
    ensures
        out == resident(status@),
{
    let chars = chars_of(status);
    match find_marked(chars.as_slice(), "VmRSS:") {
        Some(rest) => match nth_word(rest, 0) {
            Some(word) => match parse_number(word, u64::MAX) {
                Some(kb) => kb,
                None => 0,
            },
            None => 0,
        },
        None => 0,
    }
}

/// An entry with the number of a process stands for it, unless it is the one
/// that asks; an entry that is no number of 32 bits stands for none.
pub proof fn law_process_entry(pid: u32, me: u32, name: Seq<char>)
    ensures
        other_process(decimal(pid as nat), me) == if pid == me {
            None
        } else {
            Some(pid as nat)
        },
        number(name, 0xffff_ffff) is None ==> other_process(name, me) is None,
        number(name, 0xffff_ffff) matches Some(n) ==> n != me ==> other_process(name, me) == Some(
            n,
        ),
        number(name, 0xffff_ffff) == Some(me as nat) ==> other_process(name, me) is None,
{
    law_decimal_reads_back(pid as nat, u32::MAX as nat);
}

/// The first argument is what stands between the first two zero characters of
/// the command line, whole. A program alone has none.
pub proof fn law_first_argument(program: Seq<char>, arg: Seq<char>, rest: Seq<char>)
    requires
        !program.contains('\0'),
        !arg.contains('\0'),
    ensures
        first_argument(program + (seq!['\0'] + (arg + (seq!['\0'] + rest)))) == arg,
        first_argument(program + (seq!['\0'] + arg)) == arg,
        first_argument(program) == Seq::<char>::empty(),
{
    let long = arg + (seq!['\0'] + rest);
    lemma_after_zero(program, long);
    lemma_after_zero(program, arg);
    law_before(arg, '\0', rest);
    lemma_absent(program, '\0');
}

proof fn lemma_after_zero(program: Seq<char>, rest: Seq<char>)
    requires
        !program.contains('\0'),
    ensures
        first_argument(program + (seq!['\0'] + rest)) == before(rest, '\0'),
{
    let all = program + (seq!['\0'] + rest);
    assert forall|i: int| 0 <= i < program.len() implies #[trigger] all[i] != '\0' by {
        assert(program.contains(program[i]));
    }
    lemma_first_is(all, '\0', program.len() as int);
    assert(all.skip(program.len() as int + 1) =~= rest);
}

/// A process listens if and only if it is called torii, with any white space
/// around that, and was not started for something else: to say its version or
/// its help, to check once, or, without an argument, as a terminal view.
pub proof fn law_listener(
    name: Seq<char>,
    program: Seq<char>,
    arg: Seq<char>,
    rest: Seq<char>,
    input: bool,
    output: bool,
)
    requires
        !program.contains('\0'),
        !arg.contains('\0'),
    ensures
        listens(
            Some(name),
            Some(program + (seq!['\0'] + (arg + (seq!['\0'] + rest)))),
            input,
            output,
        ) <==> trim(name) == "torii"@ && arg != "-v"@ && arg != "--version"@ && arg != "-h"@ && arg
            != "--help"@ && arg != "--once"@ && !(arg.len() == 0 && input && output),
        listens(Some(name), None, input, output) <==> trim(name) == "torii"@ && !(input && output),
        !listens(None, Some(program), input, output),
        !listens(None, None, input, output),
{
    law_first_argument(program, arg, rest);
    law_arguments(arg, input && output);
    law_modes(arg, input && output);
    law_arguments(seq![], input && output);
    law_modes(seq![], input && output);
    if arg.len() == 0 {
        assert(arg =~= Seq::<char>::empty());
    }
}

/// The memory is the number after the mark in the first line with one, whatever
/// white space comes before it and whatever lines and words come after.
pub proof fn law_resident(
    others: Seq<Seq<char>>,
    value: Seq<char>,
    kb: u64,
    rest: Seq<Seq<char>>,
    status: Seq<char>,
)
    requires
        lines(status) == others + (seq!["VmRSS:"@ + value] + rest),
        forall|i: int| 0 <= i < others.len() ==> !"VmRSS:"@.is_prefix_of(#[trigger] others[i]),
    ensures
        words(value).len() > 0 && words(value)[0] == decimal(kb as nat) ==> resident(status) == kb,
        words(value).len() == 0 || number(words(value)[0], 0xffff_ffff_ffff_ffff) is None
            ==> resident(status) == 0,
        words(value).len() > 0 ==> (number(words(value)[0], 0xffff_ffff_ffff_ffff) matches Some(n)
            ==> resident(status) == n),
{
    law_first_marked(others, "VmRSS:"@, value, rest);
    law_decimal_reads_back(kb as nat, u64::MAX as nat);
}

/// A status without the mark gives no memory.
pub proof fn law_no_resident(status: Seq<char>)
    requires
        forall|i: int|
            0 <= i < lines(status).len() ==> !"VmRSS:"@.is_prefix_of(#[trigger] lines(status)[i]),
    ensures
        resident(status) == 0,
{
    law_first_marked(lines(status), "VmRSS:"@, seq![], seq![]);
}

} // verus!
