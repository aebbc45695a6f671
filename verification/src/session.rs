//! How the program runs: what it was asked for, when it looks again, and how
//! long it waits for NetworkManager.

use crate::connectivity::{CONN_FULL, CONN_PORTAL};
use crate::text::same_text;
use vstd::arithmetic::power2::{lemma2_to64, lemma_pow2_strictly_increases, pow2};
use vstd::prelude::*;

verus! {

/// What the program was asked for.
#[derive(Clone, Copy, Debug, PartialEq, Eq, Structural)]
pub enum Mode {
    /// To say its version.
    Version,
    /// To say how it is used.
    Help,
    /// To show what it knows in the terminal.
    View,
    /// To check once and exit.
    Once,
    /// To listen.
    Listen,
}

/// What the first argument asks for. Without one the program shows what it
/// knows if it is inside a terminal; in any other case it listens.
pub open spec fn mode_of(arg: Seq<char>, terminal: bool) -> Mode {
    if arg == "-v"@ || arg == "--version"@ {
        Mode::Version
    } else if arg == "-h"@ || arg == "--help"@ {
        Mode::Help
    } else if arg.len() == 0 && terminal {
        Mode::View
    } else if arg == "--once"@ {
        Mode::Once
    } else {
        Mode::Listen
    }
}

/// What the first argument asks for; `terminal` tells whether both input and
/// output are a terminal.
pub fn mode(arg: &str, terminal: bool) -> (out: Mode)
    ensures
        out == mode_of(arg@, terminal),
{
    if same_text(arg, "-v") || same_text(arg, "--version") {
        Mode::Version
    } else if same_text(arg, "-h") || same_text(arg, "--help") {
        Mode::Help
    } else if arg.is_empty() && terminal {
        Mode::View
    } else if same_text(arg, "--once") {
        Mode::Once
    } else {
        Mode::Listen
    }
}

/// The program shows what it knows only without an argument and inside a
/// terminal, and without either it listens. An argument means the same inside
/// a terminal and outside: `--daemon` listens even there.
pub proof fn law_modes(arg: Seq<char>, terminal: bool)
    ensures
        mode_of(arg, terminal) == Mode::View <==> arg.len() == 0 && terminal,
        arg.len() == 0 && !terminal ==> mode_of(arg, terminal) == Mode::Listen,
        arg.len() > 0 ==> mode_of(arg, terminal) == mode_of(arg, !terminal),
        mode_of("--daemon"@, terminal) == Mode::Listen,
{
    reveal_strlit("-v");
    reveal_strlit("--version");
    reveal_strlit("-h");
    reveal_strlit("--help");
    reveal_strlit("--once");
    reveal_strlit("--daemon");
    assert("-v"@.len() == 2);
    assert("--version"@.len() == 9);
    assert("-h"@.len() == 2);
    assert("--help"@.len() == 6);
    assert("--once"@.len() == 6);
    assert("--daemon"@.len() == 8);
}

/// Whether a single check, of which `connectivity` is the outcome where there
/// is one, opens the login page.
pub fn once_opens(connectivity: Option<u32>) -> (out: bool)
    ensures
        out == (connectivity == Some(CONN_PORTAL)),
{
    match connectivity {
        Some(v) => v == CONN_PORTAL,
        None => false,
    }
}

/// Whether a check's reply says that the network is still settling: it is
/// neither a portal nor the internet, and it did come.
pub open spec fn settling(reply: Option<u32>) -> bool {
    reply matches Some(v) && v != CONN_PORTAL && v != CONN_FULL
}

/// How many seconds to wait for the next check, where there is one, after
/// `made` checks since the connection came up, the last with this reply.
pub open spec fn wait_before_check(made: int, reply: Option<u32>) -> Option<u64> {
    if made == 0 {
        Some(3)
    } else if made == 1 && settling(reply) {
        Some(12)
    } else {
        None
    }
}

/// How many seconds to wait for the next check, where there is one, after
/// `made` checks since the connection came up, the last with this reply. The
/// first check comes 3 s after connecting and the second 12 s later, if the
/// network was still settling.
pub fn check_wait(made: usize, reply: Option<u32>) -> (out: Option<u64>)
    ensures
        out == wait_before_check(made as int, reply),
{
    if made == 0 {
        return Some(3);
    }
    match reply {
        Some(v) => {
            if made == 1 && v != CONN_PORTAL && v != CONN_FULL {
                Some(12)
            } else {
                None
            }
        },
        None => None,
    }
}

/// A connection that comes up is checked at least once and at most twice, and
/// the second time only if the first reply was neither a portal nor the
/// internet nor missing.
pub proof fn law_one_or_two_checks(made: int, reply: Option<u32>)
    requires
        made >= 0,
    ensures
        made == 0 ==> wait_before_check(made, reply) is Some,
        made >= 2 ==> wait_before_check(made, reply) is None,
        made == 1 ==> (wait_before_check(made, reply) is Some <==> settling(reply)),
{
}

/// The shortest wait for NetworkManager, in seconds.
pub const SHORTEST_WAIT: u64 = 5;

/// The longest wait for NetworkManager, in seconds.
pub const LONGEST_WAIT: u64 = 60;

/// How long to wait before the next attempt to connect. NetworkManager may be
/// late on boot.
pub struct Backoff {
    delay: u64,
}

/// The wait after a wait: twice as long, up to the longest.
pub open spec fn doubled(delay: int) -> int {
    if delay * 2 > LONGEST_WAIT {
        LONGEST_WAIT as int
    } else {
        delay * 2
    }
}

/// The wait after an attempt, where `delay` is due after a failed one.
pub open spec fn wait_for(delay: int, succeeded: bool) -> int {
    if succeeded {
        SHORTEST_WAIT as int
    } else {
        delay
    }
}

impl View for Backoff {
    type V = int;

    closed spec fn view(&self) -> int {
        self.delay as int
    }
}

impl Backoff {
    #[verifier::type_invariant]
    spec fn in_range(&self) -> bool {
        SHORTEST_WAIT <= self.delay <= LONGEST_WAIT
    }

    /// Starts with the shortest wait.
    pub fn new() -> (out: Backoff)
        ensures
            out@ == SHORTEST_WAIT,
    {
        Backoff { delay: SHORTEST_WAIT }
    }

    /// How many seconds to wait after an attempt to connect. One that
    /// succeeded, and whose connection has ended, is followed by the shortest
    /// wait. Each wait is twice as long as the one before it, up to the
    /// longest.
    pub fn wait(&mut self, succeeded: bool) -> (secs: u64)
        ensures
            secs == wait_for(old(self)@, succeeded),
            final(self)@ == doubled(secs as int),
            SHORTEST_WAIT <= secs <= LONGEST_WAIT,
    {
        proof {
            use_type_invariant(&*self);
        }
        let secs: u64 = if succeeded {
            SHORTEST_WAIT
        } else {
            self.delay
        };
        self.delay = if secs * 2 > LONGEST_WAIT {
            LONGEST_WAIT
        } else {
            secs * 2
        };
        secs
    }
}

/// The wait after `n` waits in a row.
pub open spec fn wait_after(n: nat) -> int
    decreases n,
{
    if n == 0 {
        SHORTEST_WAIT as int
    } else {
        doubled(wait_after((n - 1) as nat))
    }
}

/// Waits in a row grow exponentially up to the longest: 5, 10, 20, 40 and then
/// always 60 seconds.
pub proof fn law_backoff_is_capped_exponential(n: nat)
    ensures
        wait_after(n) == (if 5 * pow2(n) > LONGEST_WAIT {
            LONGEST_WAIT as int
        } else {
            5 * pow2(n) as int
        }),
    decreases n,
{
    lemma2_to64();
    if n > 4 {
        law_backoff_is_capped_exponential((n - 1) as nat);
        lemma_pow2_strictly_increases(4, n);
        if n - 1 > 4 {
            lemma_pow2_strictly_increases(4, (n - 1) as nat);
        }
    } else if n > 0 {
        law_backoff_is_capped_exponential((n - 1) as nat);
    }
}

/// What is due after these attempts, should the next one fail.
pub open spec fn due_after(attempts: Seq<bool>) -> int
    decreases attempts.len(),
{
    if attempts.len() == 0 {
        SHORTEST_WAIT as int
    } else {
        doubled(wait_for(due_after(attempts.drop_last()), attempts.last()))
    }
}

/// How many waits in a row come before the one after these attempts, counted
/// from the last success or from the first attempt.
pub open spec fn waits_in_row(attempts: Seq<bool>) -> nat
    decreases attempts.len(),
{
    if attempts.len() <= 1 || attempts.last() {
        0
    } else {
        1 + waits_in_row(attempts.drop_last())
    }
}

/// The wait after an attempt depends only on how many attempts have failed in
/// a row.
pub proof fn law_wait_counts_failures(attempts: Seq<bool>)
    requires
        attempts.len() > 0,
    ensures
        wait_for(due_after(attempts.drop_last()), attempts.last()) == wait_after(
            waits_in_row(attempts),
        ),
    decreases attempts.len(),
{
    if attempts.len() > 1 && !attempts.last() {
        law_wait_counts_failures(attempts.drop_last());
    }
}

/// Each argument with a meaning has just that meaning, wherever the program
/// runs, and any other means to listen.
pub proof fn law_arguments(arg: Seq<char>, terminal: bool)
    ensures
        mode_of(arg, terminal) == Mode::Version <==> arg == "-v"@ || arg == "--version"@,
        mode_of(arg, terminal) == Mode::Help <==> arg == "-h"@ || arg == "--help"@,
        mode_of(arg, terminal) == Mode::Once <==> arg == "--once"@,
        mode_of(arg, terminal) == Mode::View <==> arg == Seq::<char>::empty() && terminal,
        arg != "-v"@ && arg != "--version"@ && arg != "-h"@ && arg != "--help"@ && arg != "--once"@
            && arg.len() > 0 ==> mode_of(arg, terminal) == Mode::Listen,
{
    law_modes(arg, terminal);
    reveal_strlit("-v");
    reveal_strlit("--version");
    reveal_strlit("-h");
    reveal_strlit("--help");
    reveal_strlit("--once");
    assert("-v"@[1] == 'v' && "--version"@[2] == 'v' && "-h"@[1] == 'h' && "--help"@[2] == 'h');
    assert("--once"@[2] == 'o');
    assert("-v"@.len() == 2 && "-h"@.len() == 2 && "--version"@.len() == 9);
    assert("--help"@.len() == 6 && "--once"@.len() == 6);
    if arg.len() == 0 {
        assert(arg =~= Seq::<char>::empty());
    }
}

/// The first check comes after 3 seconds, whatever was known before. After a
/// first reply, the second comes 12 seconds later unless the reply was a portal
/// or the internet; after a check that failed there is none.
pub proof fn law_check_times(reply: Option<u32>, v: u32)
    ensures
        wait_before_check(0, reply) == Some(3u64),
        v != 2 && v != 4 ==> wait_before_check(1, Some(v)) == Some(12u64),
        wait_before_check(1, Some(2u32)) is None,
        wait_before_check(1, Some(4u32)) is None,
        wait_before_check(1, None) is None,
{
}

/// A wait after a success is 5 seconds. A wait after a failure is the one that
/// was due, and the next is twice as long and at most 60 seconds.
pub proof fn law_waits(delay: int)
    ensures
        wait_for(delay, true) == 5,
        wait_for(delay, false) == delay,
        delay <= 30 ==> doubled(delay) == delay + delay,
        delay > 30 ==> doubled(delay) == 60,
{
}

} // verus!
