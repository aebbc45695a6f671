//! What the listener does when NetworkManager's properties change.

use crate::connectivity::{CONN_FULL, CONN_PORTAL, NM_STATE_CONNECTED};
use crate::text::same_text;
use vstd::prelude::*;

verus! {

/// The interface whose properties matter.
pub const NM_IFACE: &'static str = "org.freedesktop.NetworkManager";

/// A report of changed properties: of which interface, and the new State and
/// Connectivity where they are among them and are numbers of 32 bits.
pub struct Change<S> {
    pub iface: S,
    pub state: Option<u32>,
    pub connectivity: Option<u32>,
}

impl View for Change<String> {
    type V = Change<Seq<char>>;

    open spec fn view(&self) -> Change<Seq<char>> {
        Change { iface: self.iface@, state: self.state, connectivity: self.connectivity }
    }
}

/// What NetworkManager reported last.
#[derive(Clone, Copy, Debug, PartialEq, Eq, Structural)]
pub struct Monitor {
    pub connectivity: u32,
    pub state: u32,
}

/// What a change of the way out asks for.
#[derive(Clone, Copy, Debug, PartialEq, Eq, Structural)]
pub enum Page {
    /// Nothing.
    Leave,
    /// To open the login page.
    Open,
    /// To tell that the login is done.
    Cleared,
}

/// What a report asks for. The check comes first.
#[derive(Clone, Copy, Debug, PartialEq, Eq, Structural)]
pub struct Reaction {
    /// To have NetworkManager look for a portal soon, and not at its next
    /// check up to five minutes away.
    pub check_soon: bool,
    pub page: Page,
}

/// What the listener remembers after a report, and what it does.
pub open spec fn reaction(monitor: Monitor, change: Change<Seq<char>>) -> (Monitor, Reaction) {
    if change.iface != NM_IFACE@ {
        (monitor, Reaction { check_soon: false, page: Page::Leave })
    } else {
        let (state, check_soon) = match change.state {
            Some(s) => (s, s >= NM_STATE_CONNECTED && monitor.state < NM_STATE_CONNECTED),
            None => (monitor.state, false),
        };
        let (connectivity, page) = match change.connectivity {
            Some(v) => (
                v,
                if v == monitor.connectivity {
                    Page::Leave
                } else if v == CONN_PORTAL {
                    Page::Open
                } else if monitor.connectivity == CONN_PORTAL && v == CONN_FULL {
                    Page::Cleared
                } else {
                    Page::Leave
                },
            ),
            None => (monitor.connectivity, Page::Leave),
        };
        (Monitor { connectivity, state }, Reaction { check_soon, page })
    }
}

impl Monitor {
    /// Starts from what could be read of the Connectivity and the State.
    pub fn start(connectivity: Option<u32>, state: Option<u32>) -> (out: Monitor)
        ensures
            out.connectivity == (match connectivity {
                Some(v) => v,
                None => 0,
            }),
            out.state == (match state {
                Some(s) => s,
                None => 0,
            }),
    {
        Monitor {
            connectivity: match connectivity {
                Some(v) => v,
                None => 0,
            },
            state: match state {
                Some(s) => s,
                None => 0,
            },
        }
    }

    /// Takes a report and says what to do.
    pub fn react(&mut self, change: &Change<String>) -> (out: Reaction)
        ensures
            (*final(self), out) == reaction(*old(self), change@),
    {
        let mut out = Reaction { check_soon: false, page: Page::Leave };
        if !same_text(change.iface.as_str(), NM_IFACE) {
            return out;
        }
        if let Some(state) = change.state {
            if state >= NM_STATE_CONNECTED && self.state < NM_STATE_CONNECTED {
                out.check_soon = true;
            }
            self.state = state;
        }
        if let Some(connectivity) = change.connectivity {
            if connectivity != self.connectivity {
                if connectivity == CONN_PORTAL {
                    out.page = Page::Open;
                } else if self.connectivity == CONN_PORTAL && connectivity == CONN_FULL {
                    out.page = Page::Cleared;
                }
                self.connectivity = connectivity;
            }
        }
        out
    }
}

/// What the listener remembers after these reports.
pub open spec fn monitor_after(start: Monitor, changes: Seq<Change<Seq<char>>>) -> Monitor
    decreases changes.len(),
{
    if changes.len() == 0 {
        start
    } else {
        reaction(monitor_after(start, changes.drop_last()), changes.last()).0
    }
}

/// What the listener does at report number `i`.
pub open spec fn reaction_at(start: Monitor, changes: Seq<Change<Seq<char>>>, i: int) -> Reaction {
    reaction(monitor_after(start, changes.take(i)), changes[i]).1
}

/// Whether a report gives NetworkManager's Connectivity as `v`.
pub open spec fn reports(change: Change<Seq<char>>, v: u32) -> bool {
    change.iface == NM_IFACE@ && change.connectivity == Some(v)
}

/// The Connectivity reported last, or the one at the start.
pub open spec fn last_connectivity(start: u32, changes: Seq<Change<Seq<char>>>) -> u32
    decreases changes.len(),
{
    if changes.len() == 0 {
        start
    } else if changes.last().iface == NM_IFACE@ && changes.last().connectivity is Some {
        changes.last().connectivity.unwrap()
    } else {
        last_connectivity(start, changes.drop_last())
    }
}

/// The State reported last, or the one at the start.
pub open spec fn last_state(start: u32, changes: Seq<Change<Seq<char>>>) -> u32
    decreases changes.len(),
{
    if changes.len() == 0 {
        start
    } else if changes.last().iface == NM_IFACE@ && changes.last().state is Some {
        changes.last().state.unwrap()
    } else {
        last_state(start, changes.drop_last())
    }
}

/// The listener remembers exactly what was reported last.
pub proof fn law_monitor_remembers(start: Monitor, changes: Seq<Change<Seq<char>>>)
    ensures
        monitor_after(start, changes) == (Monitor {
            connectivity: last_connectivity(start.connectivity, changes),
            state: last_state(start.state, changes),
        }),
    decreases changes.len(),
{
    if changes.len() > 0 {
        law_monitor_remembers(start, changes.drop_last());
    }
}

/// The login page opens at exactly the reports by which the way out becomes a
/// portal, whatever it was before.
pub proof fn law_page_opens_on_entry(start: Monitor, changes: Seq<Change<Seq<char>>>, i: int)
    requires
        0 <= i < changes.len(),
    ensures
        reaction_at(start, changes, i).page == Page::Open <==> reports(changes[i], CONN_PORTAL)
            && last_connectivity(start.connectivity, changes.take(i)) != CONN_PORTAL,
{
    law_monitor_remembers(start, changes.take(i));
}

/// The end of the login is told at exactly the reports by which the way out
/// turns from a portal to the internet.
pub proof fn law_cleared_on_way_out(start: Monitor, changes: Seq<Change<Seq<char>>>, i: int)
    requires
        0 <= i < changes.len(),
    ensures
        reaction_at(start, changes, i).page == Page::Cleared <==> reports(changes[i], CONN_FULL)
            && last_connectivity(start.connectivity, changes.take(i)) == CONN_PORTAL,
{
    law_monitor_remembers(start, changes.take(i));
}

/// A check is asked for at exactly the reports by which a connection comes up.
pub proof fn law_check_on_connecting(start: Monitor, changes: Seq<Change<Seq<char>>>, i: int)
    requires
        0 <= i < changes.len(),
    ensures
        reaction_at(start, changes, i).check_soon <==> changes[i].iface == NM_IFACE@ && (
        changes[i].state matches Some(s) && s >= NM_STATE_CONNECTED) && last_state(
            start.state,
            changes.take(i),
        ) < NM_STATE_CONNECTED,
{
    law_monitor_remembers(start, changes.take(i));
}

/// Reports that leave the way out a portal leave it a portal.
proof fn lemma_stays_portal(start: u32, changes: Seq<Change<Seq<char>>>, i: int, j: int)
    requires
        0 <= i < j <= changes.len(),
        reports(changes[i], CONN_PORTAL),
        forall|k: int|
            i < k < j ==> (#[trigger] changes[k].iface == NM_IFACE@ ==> (
            changes[k].connectivity matches Some(v) ==> v == CONN_PORTAL)),
    ensures
        last_connectivity(start, changes.take(j)) == CONN_PORTAL,
    decreases j - i,
{
    let upto = changes.take(j);
    assert(upto.last() == changes[j - 1]);
    assert(upto.drop_last() =~= changes.take(j - 1));
    if j > i + 1 {
        lemma_stays_portal(start, changes, i, j - 1);
    }
}

/// Between two openings of the login page NetworkManager has reported another
/// way out: one portal opens one page.
pub proof fn law_one_page_per_portal(
    start: Monitor,
    changes: Seq<Change<Seq<char>>>,
    i: int,
    j: int,
)
    requires
        0 <= i < j < changes.len(),
        reaction_at(start, changes, i).page == Page::Open,
        reaction_at(start, changes, j).page == Page::Open,
    ensures
        exists|k: int|
            i < k < j && #[trigger] changes[k].iface == NM_IFACE@
                && changes[k].connectivity is Some && changes[k].connectivity != Some(CONN_PORTAL),
{
    law_page_opens_on_entry(start, changes, i);
    law_page_opens_on_entry(start, changes, j);
    if forall|k: int|
        i < k < j ==> !(#[trigger] changes[k].iface == NM_IFACE@
            && changes[k].connectivity is Some && changes[k].connectivity != Some(CONN_PORTAL)) {
        lemma_stays_portal(start.connectivity, changes, i, j);
    }
}

/// A report of NetworkManager's own interface replaces what it gives, and
/// nothing else is forgotten. A report of any other interface changes nothing
/// and asks for nothing.
pub proof fn law_report_is_remembered(monitor: Monitor, change: Change<Seq<char>>)
    ensures
        change.iface != "org.freedesktop.NetworkManager"@ ==> reaction(monitor, change) == (
            monitor,
            Reaction { check_soon: false, page: Page::Leave },
        ),
        change.iface == "org.freedesktop.NetworkManager"@ ==> {
            let after = reaction(monitor, change).0;
            &&& change.connectivity is Some ==> Some(after.connectivity) == change.connectivity
            &&& change.connectivity is None ==> after.connectivity == monitor.connectivity
            &&& change.state is Some ==> Some(after.state) == change.state
            &&& change.state is None ==> after.state == monitor.state
        },
{
}

/// Of two connectivities in a row, the second opens the page if and only if it
/// alone is a portal, and tells of the login if and only if it is the internet
/// after a portal. What is reported of the State has no part in that.
pub proof fn law_two_reports_in_a_row(
    monitor: Monitor,
    first: u32,
    second: u32,
    state: Option<u32>,
)
    ensures
        ({
            let iface = "org.freedesktop.NetworkManager"@;
            let between = reaction(
                monitor,
                Change { iface, state: None, connectivity: Some(first) },
            ).0;
            let page = reaction(
                between,
                Change { iface, state, connectivity: Some(second) },
            ).1.page;
            &&& page == Page::Open <==> second == 2 && first != 2
            &&& page == Page::Cleared <==> second == 4 && first == 2
        }),
{
}

/// Of two States in a row, the second has NetworkManager look for a portal if
/// and only if it is the first of a connection: 50 or more after less. What is
/// reported of the way out has no part in that.
pub proof fn law_two_states_in_a_row(
    monitor: Monitor,
    first: u32,
    second: u32,
    connectivity: Option<u32>,
)
    ensures
        ({
            let iface = "org.freedesktop.NetworkManager"@;
            let between = reaction(
                monitor,
                Change { iface, state: Some(first), connectivity: None },
            ).0;
            reaction(
                between,
                Change { iface, state: Some(second), connectivity },
            ).1.check_soon <==> second >= 50 && first < 50
        }),
{
}

/// A report that gives no connectivity opens nothing, and one that gives no
/// State asks for no check.
pub proof fn law_silent_report(monitor: Monitor, change: Change<Seq<char>>)
    ensures
        change.connectivity is None ==> reaction(monitor, change).1.page == Page::Leave,
        change.state is None ==> !reaction(monitor, change).1.check_soon,
{
}

/// A report stands for what it holds.
pub proof fn law_change_view(change: Change<String>)
    ensures
        change@.iface == change.iface@,
        change@.state == change.state,
        change@.connectivity == change.connectivity,
{
}

} // verus!
