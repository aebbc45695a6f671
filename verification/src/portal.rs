//! From a portal report to the login page in a browser.
//!
//! Handling a report alternates questions to the outside and decisions. Each
//! decision is a step from a stage and an event to the next stage and the
//! actions to perform, the last of which brings the next event.

use crate::connectivity::NM_STATE_CONNECTED;
use crate::fetch::{fetch_text, fetched, is_sent, was_sent, Fetch};
use crate::http::{
    ended, has_scheme, http_parts, is_other_line, law_explicit_port_splits,
    law_redirect_reads_back, law_short_address_splits, redirect, redirect_target, split_http,
    status_of,
};
use crate::number::decimal;
use crate::text::{
    chars_of, is_space, lemma_first_line_begins, lemma_words_before_space, lines, starts_with,
    view_of, words,
};
use vstd::prelude::*;

verus! {

/// The browsers, in the order in which they are tried.
#[derive(Clone, Copy, Debug, PartialEq, Eq, Structural)]
pub enum Browser {
    Gaze,
    Firefox,
}

/// What the handling of a portal report waits for.
#[derive(Debug, PartialEq, Eq)]
pub enum PortalStage<S> {
    /// NetworkManager's State.
    State,
    /// NetworkManager's connectivity check address.
    CheckUri,
    /// The answer to the connectivity check.
    Answer { probe: S },
    /// The gateway of the primary connection.
    Gateway { probe: S },
    /// Whether the browser started.
    Browser { url: S, browser: Browser },
    /// Nothing more.
    Finished,
}

/// What the outside reports.
#[derive(Debug, PartialEq, Eq)]
pub enum PortalEvent<S> {
    /// NetworkManager's State, where it could be read.
    State(Option<u32>),
    /// NetworkManager's connectivity check address, where it could be read.
    CheckUri(Option<S>),
    /// Whether the check was sent, and the raw answer to it or a line saying
    /// why there is none.
    Answer { sent: bool, raw: S },
    /// The address of the gateway, where there is one.
    Gateway(Option<S>),
    /// Whether the browser started.
    Started(bool),
}

/// What the outside is asked to do.
#[derive(Debug, PartialEq, Eq)]
pub enum PortalAction<S> {
    /// Tell the desktop that a login page opens.
    Announce,
    /// Read NetworkManager's connectivity check address.
    ReadCheckUri,
    /// Ask this host for this path.
    Fetch { host: S, port: u16, path: S },
    /// Keep the answer to the check at `probe`; without one, that there was
    /// nothing to ask.
    SaveCapture { probe: S, raw: Option<S> },
    /// Read the gateway of the primary connection.
    ReadGateway,
    /// Start this browser on this page.
    Launch { browser: Browser, url: S },
}

impl View for PortalStage<String> {
    type V = PortalStage<Seq<char>>;

    open spec fn view(&self) -> PortalStage<Seq<char>> {
        match self {
            PortalStage::State => PortalStage::State,
            PortalStage::CheckUri => PortalStage::CheckUri,
            PortalStage::Answer { probe } => PortalStage::Answer { probe: probe@ },
            PortalStage::Gateway { probe } => PortalStage::Gateway { probe: probe@ },
            PortalStage::Browser { url, browser } => PortalStage::Browser {
                url: url@,
                browser: *browser,
            },
            PortalStage::Finished => PortalStage::Finished,
        }
    }
}

impl View for PortalEvent<String> {
    type V = PortalEvent<Seq<char>>;

    open spec fn view(&self) -> PortalEvent<Seq<char>> {
        match self {
            PortalEvent::State(state) => PortalEvent::State(*state),
            PortalEvent::CheckUri(uri) => PortalEvent::CheckUri(view_of(*uri)),
            PortalEvent::Answer { sent, raw } => PortalEvent::Answer { sent: *sent, raw: raw@ },
            PortalEvent::Gateway(gateway) => PortalEvent::Gateway(view_of(*gateway)),
            PortalEvent::Started(started) => PortalEvent::Started(*started),
        }
    }
}

impl View for PortalAction<String> {
    type V = PortalAction<Seq<char>>;

    open spec fn view(&self) -> PortalAction<Seq<char>> {
        match self {
            PortalAction::Announce => PortalAction::Announce,
            PortalAction::ReadCheckUri => PortalAction::ReadCheckUri,
            PortalAction::Fetch { host, port, path } => PortalAction::Fetch {
                host: host@,
                port: *port,
                path: path@,
            },
            PortalAction::SaveCapture { probe, raw } => PortalAction::SaveCapture {
                probe: probe@,
                raw: view_of(*raw),
            },
            PortalAction::ReadGateway => PortalAction::ReadGateway,
            PortalAction::Launch { browser, url } => PortalAction::Launch {
                browser: *browser,
                url: url@,
            },
        }
    }
}

/// Whether NetworkManager says that there is a connection.
pub open spec fn connected(state: Option<u32>) -> bool {
    state matches Some(n) && n >= NM_STATE_CONNECTED
}

/// The address to check: NetworkManager's own where that is plain HTTP, which
/// a portal intercepts, and else a well-known one.
pub open spec fn probe_address(uri: Option<Seq<char>>) -> Seq<char> {
    match uri {
        Some(u) if "http://"@.is_prefix_of(u) => u,
        _ => "http://connectivity-check.ubuntu.com/"@,
    }
}

/// The page that the check at `probe` leads to: where its answer redirects, or
/// without a redirect the check address itself, from where the portal takes the
/// browser on. A check that could not be sent leads nowhere.
pub open spec fn answer_page(sent: bool, raw: Seq<char>, probe: Seq<char>) -> Option<Seq<char>> {
    if !sent {
        None
    } else {
        match redirect(raw, probe) {
            Some(to) => Some(to),
            None => Some(probe),
        }
    }
}

/// The page to open where the check led nowhere: the gateway's, or for want of
/// a gateway the check address.
pub open spec fn fallback_page(gateway: Option<Seq<char>>, probe: Seq<char>) -> Seq<char> {
    match gateway {
        Some(address) => "http://"@ + address + "/"@,
        None => probe,
    }
}

/// The next stage and the actions to perform. An event that the stage does not
/// wait for changes nothing.
pub open spec fn next(stage: PortalStage<Seq<char>>, event: PortalEvent<Seq<char>>) -> (
    PortalStage<Seq<char>>,
    Seq<PortalAction<Seq<char>>>,
) {
    match (stage, event) {
        (PortalStage::State, PortalEvent::State(state)) => if connected(state) {
            (PortalStage::CheckUri, seq![PortalAction::Announce, PortalAction::ReadCheckUri])
        } else {
            (PortalStage::Finished, seq![])
        },
        (PortalStage::CheckUri, PortalEvent::CheckUri(uri)) => {
            let probe = probe_address(uri);
            match http_parts(probe) {
                Some((host, port, path)) => (
                    PortalStage::Answer { probe },
                    seq![PortalAction::Fetch { host, port, path }],
                ),
                None => (
                    PortalStage::Gateway { probe },
                    seq![
                        PortalAction::SaveCapture { probe, raw: None },
                        PortalAction::ReadGateway,
                    ],
                ),
            }
        },
        (PortalStage::Answer { probe }, PortalEvent::Answer { sent, raw }) => {
            let save = PortalAction::SaveCapture { probe, raw: Some(raw) };
            match answer_page(sent, raw, probe) {
                Some(url) => (
                    PortalStage::Browser { url, browser: Browser::Gaze },
                    seq![save, PortalAction::Launch { browser: Browser::Gaze, url }],
                ),
                None => (PortalStage::Gateway { probe }, seq![save, PortalAction::ReadGateway]),
            }
        },
        (PortalStage::Gateway { probe }, PortalEvent::Gateway(gateway)) => {
            let url = fallback_page(gateway, probe);
            (
                PortalStage::Browser { url, browser: Browser::Gaze },
                seq![PortalAction::Launch { browser: Browser::Gaze, url }],
            )
        },
        (PortalStage::Browser { url, browser }, PortalEvent::Started(started)) => if !started
            && browser == Browser::Gaze {
            (
                PortalStage::Browser { url, browser: Browser::Firefox },
                seq![PortalAction::Launch { browser: Browser::Firefox, url }],
            )
        } else {
            (PortalStage::Finished, seq![])
        },
        _ => (stage, seq![]),
    }
}

/// Whether a portal report still counts. The network may have gone in the
/// meantime, and a page opened then only says unreachable.
pub fn is_connected(state: Option<u32>) -> (out: bool)
    ensures
        out == connected(state),
{
    match state {
        Some(n) => n >= NM_STATE_CONNECTED,
        None => false,
    }
}

/// NetworkManager's connectivity check address, the one a portal intercepts.
pub fn check_uri(property: Option<String>) -> (out: String)
    ensures
        out@ == probe_address(view_of(property)),
{
    match property {
        Some(uri) => {
            let chars = chars_of(uri.as_str());
            if starts_with(chars.as_slice(), "http://") {
                uri
            } else {
                "http://connectivity-check.ubuntu.com/".to_string()
            }
        },
        None => "http://connectivity-check.ubuntu.com/".to_string(),
    }
}

/// The page that the check at `probe` leads to, where `sent` tells whether it
/// went out and `raw` is the answer.
pub fn login_page(sent: bool, raw: &str, probe: &str) -> (out: Option<String>)
    ensures
        view_of(out) == answer_page(sent, raw@, probe@),
{
    if !sent {
        return None;
    }
    match redirect_target(raw, probe) {
        Some(to) => Some(to),
        None => Some(probe.to_string()),
    }
}

/// What a request for the check page brings.
pub open spec fn answer_of(host: Seq<char>, fetch: Fetch) -> PortalEvent<Seq<char>> {
    PortalEvent::Answer { sent: is_sent(fetch), raw: fetched(host, fetch) }
}

/// What a request to `host` for the check page brings.
pub fn answer_event(host: &str, fetch: &Fetch) -> (out: PortalEvent<String>)
    ensures
        out@ == answer_of(host@, *fetch),
{
    PortalEvent::Answer { sent: was_sent(fetch), raw: fetch_text(host, fetch) }
}

/// The page to open where the check led nowhere.
pub fn last_resort(gateway: Option<String>, probe: String) -> (out: String)
    ensures
        out@ == fallback_page(view_of(gateway), probe@),
{
    match gateway {
        Some(address) => {
            let mut url: String = "http://".to_string();
            url.append(address.as_str());
            url.append("/");
            url
        },
        None => probe,
    }
}

/// The actions as the outside sees them.
pub open spec fn actions_of(actions: Seq<PortalAction<String>>) -> Seq<PortalAction<Seq<char>>> {
    actions.map_values(|a: PortalAction<String>| a@)
}

/// The next stage and the actions to perform, in their order.
pub fn portal_next(stage: PortalStage<String>, event: PortalEvent<String>) -> (out: (
    PortalStage<String>,
    Vec<PortalAction<String>>,
))
    ensures
        out.0@ == next(stage@, event@).0,
        actions_of(out.1@) == next(stage@, event@).1,
{
    let mut actions: Vec<PortalAction<String>> = Vec::new();
    match (stage, event) {
        (PortalStage::State, PortalEvent::State(state)) => {
            if is_connected(state) {
                actions.push(PortalAction::Announce);
                actions.push(PortalAction::ReadCheckUri);
                (PortalStage::CheckUri, actions)
            } else {
                (PortalStage::Finished, actions)
            }
        },
        (PortalStage::CheckUri, PortalEvent::CheckUri(uri)) => {
            let probe = check_uri(uri);
            match split_http(probe.as_str()) {
                Some((host, port, path)) => {
                    actions.push(PortalAction::Fetch { host, port, path });
                    (PortalStage::Answer { probe }, actions)
                },
                None => {
                    actions.push(PortalAction::SaveCapture { probe: probe.clone(), raw: None });
                    actions.push(PortalAction::ReadGateway);
                    (PortalStage::Gateway { probe }, actions)
                },
            }
        },
        (PortalStage::Answer { probe }, PortalEvent::Answer { sent, raw }) => {
            let page = login_page(sent, raw.as_str(), probe.as_str());
            actions.push(PortalAction::SaveCapture { probe: probe.clone(), raw: Some(raw) });
            match page {
                Some(url) => {
                    actions.push(
                        PortalAction::Launch { browser: Browser::Gaze, url: url.clone() },
                    );
                    (PortalStage::Browser { url, browser: Browser::Gaze }, actions)
                },
                None => {
                    actions.push(PortalAction::ReadGateway);
                    (PortalStage::Gateway { probe }, actions)
                },
            }
        },
        (PortalStage::Gateway { probe }, PortalEvent::Gateway(gateway)) => {
            let url = last_resort(gateway, probe);
            actions.push(PortalAction::Launch { browser: Browser::Gaze, url: url.clone() });
            (PortalStage::Browser { url, browser: Browser::Gaze }, actions)
        },
        (PortalStage::Browser { url, browser }, PortalEvent::Started(started)) => {
            if !started && browser == Browser::Gaze {
                actions.push(
                    PortalAction::Launch { browser: Browser::Firefox, url: url.clone() },
                );
                (PortalStage::Browser { url, browser: Browser::Firefox }, actions)
            } else {
                (PortalStage::Finished, actions)
            }
        },
        (stage, _) => (stage, actions),
    }
}

/// The program and the flags before the page's address.
pub open spec fn command_of(browser: Browser) -> (Seq<char>, Seq<Seq<char>>) {
    match browser {
        Browser::Gaze => ("gaze"@, seq![]),
        Browser::Firefox => ("firefox"@, seq!["--new-tab"@]),
    }
}

/// The program and the flags before the page's address. A page opens as a tab
/// in the window that is already up, which gaze does by itself.
pub fn browser_command(browser: Browser) -> (out: (&'static str, Vec<&'static str>))
    ensures
        out.0@ == command_of(browser).0,
        out.1@.map_values(|flag: &'static str| flag@) == command_of(browser).1,
{
    let mut flags: Vec<&'static str> = Vec::new();
    match browser {
        Browser::Gaze => ("gaze", flags),
        Browser::Firefox => {
            flags.push("--new-tab");
            ("firefox", flags)
        },
    }
}

/// The stage after these events.
pub open spec fn stage_after(
    stage: PortalStage<Seq<char>>,
    events: Seq<PortalEvent<Seq<char>>>,
) -> PortalStage<Seq<char>>
    decreases events.len(),
{
    if events.len() == 0 {
        stage
    } else {
        next(stage_after(stage, events.drop_last()), events.last()).0
    }
}

/// The actions performed over these events.
pub open spec fn actions_over(
    stage: PortalStage<Seq<char>>,
    events: Seq<PortalEvent<Seq<char>>>,
) -> Seq<PortalAction<Seq<char>>>
    decreases events.len(),
{
    if events.len() == 0 {
        seq![]
    } else {
        actions_over(stage, events.drop_last()) + next(
            stage_after(stage, events.drop_last()),
            events.last(),
        ).1
    }
}

/// The launches that these events report as started.
pub open spec fn started_over(
    stage: PortalStage<Seq<char>>,
    events: Seq<PortalEvent<Seq<char>>>,
) -> nat
    decreases events.len(),
{
    if events.len() == 0 {
        0
    } else {
        let before = started_over(stage, events.drop_last());
        if stage_after(stage, events.drop_last()) is Browser && events.last()
            == PortalEvent::<Seq<char>>::Started(true) {
            before + 1
        } else {
            before
        }
    }
}

/// Whether the stage waits for this event.
pub open spec fn awaits(
    stage: PortalStage<Seq<char>>,
    event: PortalEvent<Seq<char>>,
) -> bool {
    match stage {
        PortalStage::State => event is State,
        PortalStage::CheckUri => event is CheckUri,
        PortalStage::Answer { .. } => event is Answer,
        PortalStage::Gateway { .. } => event is Gateway,
        PortalStage::Browser { .. } => event is Started,
        PortalStage::Finished => false,
    }
}

/// Whether this action brings the event that the stage waits for.
pub open spec fn brings(action: PortalAction<Seq<char>>, stage: PortalStage<Seq<char>>) -> bool {
    match stage {
        PortalStage::CheckUri => action is ReadCheckUri,
        PortalStage::Answer { probe } => action matches PortalAction::Fetch { host, port, path }
            && http_parts(probe) == Some((host, port, path)),
        PortalStage::Gateway { .. } => action is ReadGateway,
        PortalStage::Browser { url, browser } => action == PortalAction::Launch { browser, url },
        PortalStage::State => false,
        PortalStage::Finished => false,
    }
}

/// How far the handling of a report has come.
pub open spec fn progress(stage: PortalStage<Seq<char>>) -> int {
    match stage {
        PortalStage::State => 0,
        PortalStage::CheckUri => 1,
        PortalStage::Answer { .. } => 2,
        PortalStage::Gateway { .. } => 3,
        PortalStage::Browser { browser, .. } => if browser == Browser::Gaze {
            4
        } else {
            5
        },
        PortalStage::Finished => 6,
    }
}

/// The handling of a report ends: each event that it waits for brings it
/// further, and unless it is then finished, the last action brings the next
/// such event. Other events change nothing.
pub proof fn law_handling_ends(stage: PortalStage<Seq<char>>, event: PortalEvent<Seq<char>>)
    ensures
        progress(stage) <= 6,
        progress(stage) == 6 <==> stage is Finished,
        awaits(stage, event) ==> progress(next(stage, event).0) > progress(stage),
        awaits(stage, event) && !(next(stage, event).0 is Finished) ==> next(stage, event).1.len()
            > 0 && brings(next(stage, event).1.last(), next(stage, event).0),
        !awaits(stage, event) ==> next(stage, event) == (
            stage,
            Seq::<PortalAction<Seq<char>>>::empty(),
        ),
{
}

/// Once it is finished, the handling of a report does nothing more.
pub proof fn law_finished_is_silent(events: Seq<PortalEvent<Seq<char>>>)
    ensures
        stage_after(PortalStage::Finished, events) == PortalStage::<Seq<char>>::Finished,
        actions_over(PortalStage::Finished, events) == Seq::<PortalAction<Seq<char>>>::empty(),
    decreases events.len(),
{
    if events.len() > 0 {
        law_finished_is_silent(events.drop_last());
    }
}

/// Without a connection nothing is announced, fetched, kept or opened,
/// whatever else is reported.
pub proof fn law_nothing_opens_when_disconnected(events: Seq<PortalEvent<Seq<char>>>)
    requires
        forall|i: int|
            0 <= i < events.len() ==> (#[trigger] events[i] matches PortalEvent::State(state)
                ==> !connected(state)),
    ensures
        actions_over(PortalStage::State, events) == Seq::<PortalAction<Seq<char>>>::empty(),
        stage_after(PortalStage::State, events) is State || stage_after(
            PortalStage::State,
            events,
        ) is Finished,
    decreases events.len(),
{
    if events.len() > 0 {
        let before = events.drop_last();
        assert forall|i: int| 0 <= i < before.len() implies (
        #[trigger] before[i] matches PortalEvent::State(state) ==> !connected(state)) by {
            assert(before[i] == events[i]);
        }
        law_nothing_opens_when_disconnected(before);
        assert(events.last() == events[events.len() - 1]);
    }
}

/// One report starts at most one browser.
pub proof fn law_one_browser_starts(events: Seq<PortalEvent<Seq<char>>>)
    ensures
        started_over(PortalStage::State, events) <= 1,
        started_over(PortalStage::State, events) == 1 ==> stage_after(
            PortalStage::State,
            events,
        ) is Finished,
    decreases events.len(),
{
    if events.len() > 0 {
        law_one_browser_starts(events.drop_last());
    }
}

/// The page that a report leads to, given all the replies: where the check's
/// answer redirects; else the check address, where the check was sent; else
/// the gateway, and without one the check address.
pub open spec fn page_for(
    uri: Option<Seq<char>>,
    sent: bool,
    raw: Seq<char>,
    gateway: Option<Seq<char>>,
) -> Seq<char> {
    let probe = probe_address(uri);
    if http_parts(probe) is Some && sent {
        match redirect(raw, probe) {
            Some(to) => to,
            None => probe,
        }
    } else {
        fallback_page(gateway, probe)
    }
}

/// Of a report on a connected machine, the first thing that opens is gaze on
/// the page that the replies lead to. What the answer would be matters only
/// where the check could be sent, and the gateway only where it was asked.
pub proof fn law_page_opens(
    state: u32,
    uri: Option<Seq<char>>,
    sent: bool,
    raw: Seq<char>,
    gateway: Option<Seq<char>>,
)
    requires
        state >= NM_STATE_CONNECTED,
    ensures
        ({
            let events = seq![
                PortalEvent::State(Some(state)),
                PortalEvent::CheckUri(uri),
                PortalEvent::Answer { sent, raw },
                PortalEvent::Gateway(gateway),
            ];
            &&& stage_after(PortalStage::State, events) == PortalStage::Browser {
                url: page_for(uri, sent, raw, gateway),
                browser: Browser::Gaze,
            }
            &&& actions_over(PortalStage::State, events).last() == PortalAction::Launch {
                browser: Browser::Gaze,
                url: page_for(uri, sent, raw, gateway),
            }
        }),
{
    let e1 = seq![PortalEvent::State(Some(state))];
    let e2 = e1.push(PortalEvent::CheckUri(uri));
    let e3 = e2.push(PortalEvent::Answer { sent, raw });
    let e4 = e3.push(PortalEvent::Gateway(gateway));
    let s = PortalStage::<Seq<char>>::State;
    assert(e1.drop_last() =~= seq![]);
    assert(e2.drop_last() =~= e1);
    assert(e3.drop_last() =~= e2);
    assert(e4.drop_last() =~= e3);
    assert(e4 =~= seq![
        PortalEvent::State(Some(state)),
        PortalEvent::CheckUri(uri),
        PortalEvent::Answer { sent, raw },
        PortalEvent::Gateway(gateway),
    ]);
    assert(stage_after(s, seq![]) == s);
    assert(stage_after(s, e1) == next(s, e1.last()).0);
    assert(stage_after(s, e2) == next(stage_after(s, e1), e2.last()).0);
    assert(stage_after(s, e3) == next(stage_after(s, e2), e3.last()).0);
    assert(stage_after(s, e4) == next(stage_after(s, e3), e4.last()).0);
    assert(actions_over(s, e3) == actions_over(s, e2) + next(stage_after(s, e2), e3.last()).1);
    assert(actions_over(s, e4) == actions_over(s, e3) + next(stage_after(s, e3), e4.last()).1);
    assert(actions_over(s, e3) + seq![] =~= actions_over(s, e3));
}

/// The check always goes to a plain-HTTP address, which a portal can redirect.
pub proof fn law_check_is_plain_http(uri: Option<Seq<char>>)
    ensures
        "http://"@.is_prefix_of(probe_address(uri)),
{
    reveal_strlit("http://");
    reveal_strlit("http://connectivity-check.ubuntu.com/");
    assert("http://"@ =~= "http://connectivity-check.ubuntu.com/"@.subrange(0, 7));
}

/// Before any page opens the answer to the check has been kept.
pub proof fn law_capture_comes_first(events: Seq<PortalEvent<Seq<char>>>)
    ensures
        ({
            let actions = actions_over(PortalStage::State, events);
            forall|k: int|
                0 <= k < actions.len() && #[trigger] actions[k] is Launch ==> exists|j: int|
                    0 <= j < k && #[trigger] actions[j] is SaveCapture
        }),
        stage_after(PortalStage::State, events) is Gateway || stage_after(
            PortalStage::State,
            events,
        ) is Browser ==> exists|j: int|
            0 <= j < actions_over(PortalStage::State, events).len() && #[trigger] actions_over(
                PortalStage::State,
                events,
            )[j] is SaveCapture,
    decreases events.len(),
{
    if events.len() > 0 {
        let first = events.drop_last();
        law_capture_comes_first(first);
        let stage = stage_after(PortalStage::State, first);
        let before = actions_over(PortalStage::State, first);
        let added = next(stage, events.last()).1;
        let actions = before + added;
        if stage is Gateway || stage is Browser {
            let j = choose|j: int| 0 <= j < before.len() && #[trigger] before[j] is SaveCapture;
            assert(actions[j] == before[j]);
        } else if added.len() > 0 && added[0] is SaveCapture {
            assert(actions[before.len() as int] == added[0]);
        }
        assert forall|k: int|
            0 <= k < actions.len() && #[trigger] actions[k] is Launch implies exists|j: int|
            0 <= j < k && #[trigger] actions[j] is SaveCapture by {
            if k < before.len() {
                assert(before[k] == actions[k]);
                let j = choose|j: int| 0 <= j < k && #[trigger] before[j] is SaveCapture;
                assert(actions[j] == before[j]);
            } else {
                assert(added[k - before.len()] == actions[k]);
            }
        }
    }
}

/// A second browser is tried on the same page, only after the first would not
/// start, and there is no third.
pub proof fn law_second_browser(url: Seq<char>)
    ensures
        next(
            PortalStage::Browser { url, browser: Browser::Gaze },
            PortalEvent::Started(false),
        ) == (
            PortalStage::Browser { url, browser: Browser::Firefox },
            seq![PortalAction::Launch { browser: Browser::Firefox, url }],
        ),
        next(
            PortalStage::Browser { url, browser: Browser::Gaze },
            PortalEvent::Started(true),
        ).0 is Finished,
        forall|started: bool|
            #[trigger] next(
                PortalStage::Browser { url, browser: Browser::Firefox },
                PortalEvent::Started(started),
            ).0 is Finished,
{
}

/// The gateway is the last resort: it is asked after a check if and only if the
/// check could not be sent.
pub proof fn law_gateway_is_last_resort(host: Seq<char>, fetch: Fetch, probe: Seq<char>)
    ensures
        next(PortalStage::Answer { probe }, answer_of(host, fetch)).0 == (PortalStage::Gateway {
            probe,
        }) <==> !is_sent(fetch),
        !is_sent(fetch) ==> next(PortalStage::Answer { probe }, answer_of(host, fetch)).1.last()
            == PortalAction::<Seq<char>>::ReadGateway,
{
}

proof fn lemma_no_answer_is_no_redirect(rest: Seq<char>, base: Seq<char>)
    ensures
        redirect("no answer from "@ + rest, base) is None,
{
    let start = "no answer from "@;
    let raw = start + rest;
    reveal_strlit("no answer from ");
    reveal_strlit("no");
    reveal_strlit("answer");
    lemma_first_line_begins(start, rest);
    let line = lines(raw)[0];
    let end = line.skip("no answer "@.len() as int);
    reveal_strlit("no answer ");
    assert(line =~= "no"@ + (seq![' '] + ("answer"@ + (seq![' '] + end)))) by {
        assert forall|i: int| 0 <= i < start.len() implies #[trigger] line[i] == start[i] by {
            assert(line.subrange(0, start.len() as int)[i] == start[i]);
        }
    }
    lemma_words_before_space("no"@, "answer"@ + (seq![' '] + end));
    lemma_words_before_space("answer"@, end);
    let inner = seq!["answer"@] + words(end);
    let outer = seq!["no"@] + inner;
    assert(outer[1] == inner[0]);
    assert(status_of(raw) == Some("answer"@));
    assert("answer"@[0] == 'a');
}

/// A check that was sent and got no answer opens the check address.
pub proof fn law_unanswered_check_opens_itself(host: Seq<char>, fetch: Fetch, probe: Seq<char>)
    requires
        fetch is Unanswered || (fetch matches Fetch::Answered(bytes) && bytes@.len() == 0),
    ensures
        next(PortalStage::Answer { probe }, answer_of(host, fetch)).0 == (PortalStage::Browser {
            url: probe,
            browser: Browser::Gaze,
        }),
{
    let raw = fetched(host, fetch);
    let rest = raw.skip("no answer from "@.len() as int);
    assert(raw =~= "no answer from "@ + rest);
    lemma_no_answer_is_no_redirect(rest, probe);
}

/// NetworkManager is connected if and only if it gives a State, of 50 or more.
pub proof fn law_connected(n: u32)
    ensures
        connected(Some(n)) <==> n >= 50,
        !connected(None),
{
}

/// The check goes to NetworkManager's own address, whole, where that begins
/// with `http://`; else to the well-known one.
pub proof fn law_check_address(uri: Seq<char>)
    ensures
        "http://"@.is_prefix_of(uri) ==> probe_address(Some(uri)) == uri,
        !"http://"@.is_prefix_of(uri) ==> probe_address(Some(uri))
            == "http://connectivity-check.ubuntu.com/"@,
        probe_address(None) == "http://connectivity-check.ubuntu.com/"@,
{
}

/// On a connected machine the login page is announced, and then the check
/// address read; on any other nothing follows.
pub proof fn law_report_is_announced(state: u32)
    ensures
        state >= 50 ==> next(PortalStage::State, PortalEvent::State(Some(state))) == (
            PortalStage::<Seq<char>>::CheckUri,
            seq![PortalAction::<Seq<char>>::Announce, PortalAction::ReadCheckUri],
        ),
        state < 50 ==> next(PortalStage::State, PortalEvent::State(Some(state))) == (
            PortalStage::<Seq<char>>::Finished,
            Seq::<PortalAction<Seq<char>>>::empty(),
        ),
        next(PortalStage::State, PortalEvent::State(None)) == (
            PortalStage::<Seq<char>>::Finished,
            Seq::<PortalAction<Seq<char>>>::empty(),
        ),
{
}

/// The check asks the host that its address names, on its port, for its whole
/// path.
pub proof fn law_check_asks_its_host(host: Seq<char>, port: u16, path: Seq<char>)
    requires
        !host.contains('/'),
        path.len() > 0,
        path[0] == '/',
    ensures
        ({
            let probe = "http://"@ + (host + ":"@ + decimal(port as nat)) + path;
            next(PortalStage::CheckUri, PortalEvent::CheckUri(Some(probe))) == (
                PortalStage::Answer { probe },
                seq![PortalAction::Fetch { host, port, path }],
            )
        }),
        !host.contains(':') ==> {
            let probe = "http://"@ + host + path;
            next(PortalStage::CheckUri, PortalEvent::CheckUri(Some(probe))) == (
                PortalStage::Answer { probe },
                seq![PortalAction::Fetch { host, port: 80, path }],
            )
        },
{
    let hostport = host + ":"@ + decimal(port as nat);
    law_explicit_port_splits(host, port, path);
    let long = "http://"@ + hostport + path;
    assert("http://"@ =~= long.subrange(0, "http://"@.len() as int));
    if !host.contains(':') {
        law_short_address_splits(host, path);
        let short = "http://"@ + host + path;
        assert("http://"@ =~= short.subrange(0, "http://"@.len() as int));
    }
}

/// Where the check address names no host and port to ask, that is kept, and the
/// gateway asked.
pub proof fn law_check_without_host(uri: Seq<char>)
    requires
        "http://"@.is_prefix_of(uri),
        http_parts(uri) is None,
    ensures
        next(PortalStage::CheckUri, PortalEvent::CheckUri(Some(uri))) == (
            PortalStage::Gateway { probe: uri },
            seq![PortalAction::SaveCapture { probe: uri, raw: None }, PortalAction::ReadGateway],
        ),
{
}

/// Whatever came of the check is kept as it came, with its address, before
/// anything else.
pub proof fn law_answer_is_saved(probe: Seq<char>, sent: bool, raw: Seq<char>)
    ensures
        ({
            let actions = next(PortalStage::Answer { probe }, PortalEvent::Answer { sent, raw }).1;
            &&& actions.len() == 2
            &&& actions[0] == PortalAction::SaveCapture { probe, raw: Some(raw) }
        }),
{
}

/// A check that was sent opens the page that its answer leads to, and without
/// one the check address itself. One that was not sent has the gateway asked.
pub proof fn law_answer_opens(probe: Seq<char>, raw: Seq<char>, url: Seq<char>)
    requires
        redirect(raw, probe) == Some(url) || (redirect(raw, probe) is None && url == probe),
    ensures
        next(PortalStage::Answer { probe }, PortalEvent::Answer { sent: true, raw }).0 == (
        PortalStage::Browser { url, browser: Browser::Gaze }),
        next(PortalStage::Answer { probe }, PortalEvent::Answer { sent: true, raw }).1.last() == (
        PortalAction::Launch { browser: Browser::Gaze, url }),
        next(PortalStage::Answer { probe }, PortalEvent::Answer { sent: false, raw }).0 == (
        PortalStage::Gateway { probe }),
        next(PortalStage::Answer { probe }, PortalEvent::Answer { sent: false, raw }).1.last()
            == PortalAction::<Seq<char>>::ReadGateway,
{
}

/// The address that a portal redirects to is the one that opens, up to its last
/// character.
pub proof fn law_portal_page_opens(
    top: Seq<char>,
    headers: Seq<Seq<char>>,
    url: Seq<char>,
    body: Seq<char>,
    probe: Seq<char>,
)
    requires
        words(top).len() > 1,
        words(top)[1].len() > 0,
        words(top)[1][0] == '3',
        is_other_line(top, true),
        forall|i: int| 0 <= i < headers.len() ==> is_other_line(#[trigger] headers[i], true),
        has_scheme(url),
        !url.contains('\n'),
        !is_space(url[0]) && !is_space(url.last()),
    ensures
        ({
            let raw = ended(seq![top] + headers, true) + ("Location: "@ + url + "\r\n\r\n"@ + body);
            next(PortalStage::Answer { probe }, PortalEvent::Answer { sent: true, raw }) == (
                PortalStage::Browser { url, browser: Browser::Gaze },
                seq![
                    PortalAction::SaveCapture { probe, raw: Some(raw) },
                    PortalAction::Launch { browser: Browser::Gaze, url },
                ],
            )
        }),
{
    law_redirect_reads_back(top, headers, url, body, probe);
}

/// The last resort is the gateway itself: the page is the plain-HTTP address of
/// the whole gateway, and splits into just that host, port 80 and `/`. For want
/// of a gateway it is the check address.
pub proof fn law_gateway_opens(probe: Seq<char>, gateway: Seq<char>)
    ensures
        ({
            let url = "http://"@ + gateway + seq!['/'];
            &&& next(PortalStage::Gateway { probe }, PortalEvent::Gateway(Some(gateway))) == (
                PortalStage::Browser { url, browser: Browser::Gaze },
                seq![PortalAction::Launch { browser: Browser::Gaze, url }],
            )
            &&& !gateway.contains('/') && !gateway.contains(':') ==> http_parts(url) == Some(
                (gateway, 80u16, seq!['/']),
            )
        }),
        next(PortalStage::Gateway { probe }, PortalEvent::Gateway(None)) == (
            PortalStage::Browser { url: probe, browser: Browser::Gaze },
            seq![PortalAction::Launch { browser: Browser::Gaze, url: probe }],
        ),
{
    reveal_strlit("/");
    assert("/"@ =~= seq!['/']);
    if !gateway.contains('/') && !gateway.contains(':') {
        law_short_address_splits(gateway, seq!['/']);
    }
}

/// After a check that was not sent, the page that a report leads to is that of
/// the whole gateway, or without one the check address.
pub proof fn law_unsent_check_opens_gateway(
    uri: Option<Seq<char>>,
    raw: Seq<char>,
    gateway: Seq<char>,
)
    ensures
        page_for(uri, false, raw, Some(gateway)) == "http://"@ + gateway + seq!['/'],
        page_for(uri, false, raw, None) == probe_address(uri),
        !gateway.contains('/') && !gateway.contains(':') ==> http_parts(
            page_for(uri, false, raw, Some(gateway)),
        ) == Some((gateway, 80u16, seq!['/'])),
{
    reveal_strlit("/");
    assert("/"@ =~= seq!['/']);
    if !gateway.contains('/') && !gateway.contains(':') {
        law_short_address_splits(gateway, seq!['/']);
    }
}

/// A browser that starts ends the handling, with nothing more to do, and so
/// does the second whether it starts or not.
pub proof fn law_browser_ends_handling(url: Seq<char>, started: bool)
    ensures
        next(
            PortalStage::Browser { url, browser: Browser::Gaze },
            PortalEvent::Started(true),
        ) == (PortalStage::<Seq<char>>::Finished, Seq::<PortalAction<Seq<char>>>::empty()),
        next(
            PortalStage::Browser { url, browser: Browser::Firefox },
            PortalEvent::Started(started),
        ) == (PortalStage::<Seq<char>>::Finished, Seq::<PortalAction<Seq<char>>>::empty()),
{
}

/// gaze takes the address alone; firefox is told to open it as a tab.
pub proof fn law_browser_commands()
    ensures
        command_of(Browser::Gaze) == ("gaze"@, Seq::<Seq<char>>::empty()),
        command_of(Browser::Firefox) == ("firefox"@, seq!["--new-tab"@]),
{
}

/// What the outside reports of the check is whether it was sent and what is
/// told of its answer.
pub proof fn law_answer_event(host: Seq<char>, fetch: Fetch)
    ensures
        answer_of(host, fetch) == (PortalEvent::Answer {
            sent: fetch is Answered || fetch is Unanswered,
            raw: fetched(host, fetch),
        }),
{
}

/// Stages, events and actions stand for their own words.
pub proof fn law_portal_views(
    s: String,
    t: String,
    port: u16,
    n: Option<u32>,
    flag: bool,
    browser: Browser,
)
    ensures
        PortalStage::<String>::State@ == PortalStage::<Seq<char>>::State,
        PortalStage::<String>::CheckUri@ == PortalStage::<Seq<char>>::CheckUri,
        (PortalStage::Answer { probe: s })@ == (PortalStage::Answer { probe: s@ }),
        (PortalStage::Gateway { probe: s })@ == (PortalStage::Gateway { probe: s@ }),
        (PortalStage::Browser { url: s, browser })@ == (PortalStage::Browser { url: s@, browser }),
        PortalStage::<String>::Finished@ == PortalStage::<Seq<char>>::Finished,
        PortalEvent::<String>::State(n)@ == PortalEvent::<Seq<char>>::State(n),
        PortalEvent::CheckUri(Some(s))@ == PortalEvent::CheckUri(Some(s@)),
        PortalEvent::<String>::CheckUri(None)@ == PortalEvent::<Seq<char>>::CheckUri(None),
        (PortalEvent::Answer { sent: flag, raw: s })@ == (PortalEvent::Answer {
            sent: flag,
            raw: s@,
        }),
        PortalEvent::Gateway(Some(s))@ == PortalEvent::Gateway(Some(s@)),
        PortalEvent::<String>::Gateway(None)@ == PortalEvent::<Seq<char>>::Gateway(None),
        PortalEvent::<String>::Started(flag)@ == PortalEvent::<Seq<char>>::Started(flag),
        PortalAction::<String>::Announce@ == PortalAction::<Seq<char>>::Announce,
        PortalAction::<String>::ReadCheckUri@ == PortalAction::<Seq<char>>::ReadCheckUri,
        (PortalAction::Fetch { host: s, port, path: t })@ == (PortalAction::Fetch {
            host: s@,
            port,
            path: t@,
        }),
        (PortalAction::SaveCapture { probe: s, raw: Some(t) })@ == (PortalAction::SaveCapture {
            probe: s@,
            raw: Some(t@),
        }),
        (PortalAction::SaveCapture { probe: s, raw: None })@ == (PortalAction::SaveCapture {
            probe: s@,
            raw: None,
        }),
        PortalAction::<String>::ReadGateway@ == PortalAction::<Seq<char>>::ReadGateway,
        (PortalAction::Launch { browser, url: s })@ == (PortalAction::Launch { browser, url: s@ }),
{
}

/// The outside sees every action, in its place.
pub proof fn law_actions_of(actions: Seq<PortalAction<String>>, i: int)
    requires
        0 <= i < actions.len(),
    ensures
        actions_of(actions).len() == actions.len(),
        actions_of(actions)[i] == actions[i]@,
{
}

/// The page for where the check led nowhere is that of the whole gateway, or
/// without one the check address.
pub proof fn law_last_resort(gateway: Seq<char>, probe: Seq<char>)
    ensures
        fallback_page(Some(gateway), probe) == "http://"@ + gateway + seq!['/'],
        fallback_page(None, probe) == probe,
{
    reveal_strlit("/");
    assert("/"@ =~= seq!['/']);
}

/// A check leads to where its answer redirects, and without a redirect to
/// itself; one that was not sent leads nowhere. A report leads to the same page
/// wherever its check has a host to ask.
pub proof fn law_login_page(
    uri: Option<Seq<char>>,
    raw: Seq<char>,
    probe: Seq<char>,
    gateway: Option<Seq<char>>,
)
    ensures
        answer_page(false, raw, probe) is None,
        redirect(raw, probe) is None ==> answer_page(true, raw, probe) == Some(probe),
        redirect(raw, probe) is Some ==> answer_page(true, raw, probe) == redirect(raw, probe),
        http_parts(probe_address(uri)) is Some ==> Some(page_for(uri, true, raw, gateway))
            == answer_page(true, raw, probe_address(uri)),
{
}

/// The check goes to the check address, whatever was read of it: its host is
/// asked where it has one, and where not, that is kept and the gateway asked.
pub proof fn law_check_step(uri: Option<Seq<char>>)
    ensures
        http_parts(probe_address(uri)) matches Some((host, port, path)) ==> next(
            PortalStage::CheckUri,
            PortalEvent::CheckUri(uri),
        ) == (
            PortalStage::Answer { probe: probe_address(uri) },
            seq![PortalAction::Fetch { host, port, path }],
        ),
        http_parts(probe_address(uri)) is None ==> next(
            PortalStage::CheckUri,
            PortalEvent::CheckUri(uri),
        ) == (
            PortalStage::Gateway { probe: probe_address(uri) },
            seq![
                PortalAction::SaveCapture { probe: probe_address(uri), raw: None },
                PortalAction::ReadGateway,
            ],
        ),
{
}

} // verus!
