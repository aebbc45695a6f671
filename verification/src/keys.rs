//! What the keys do in the terminal view.

use crate::connectivity::{conn_name, name_of, CONN_PORTAL};
use crate::text::{same_text, view_of};
use vstd::prelude::*;

verus! {

/// How long the view waits for a key before it draws itself again, in
/// milliseconds.
pub const KEY_WAIT_MS: u64 = 600000;

/// What happened in the view.
#[derive(Debug, PartialEq, Eq)]
pub enum ViewEvent<S> {
    /// A key came, or none did for as long as the view waits.
    Key(Option<S>),
    /// NetworkManager's reply to the check that was asked for.
    Checked(Option<u32>),
    /// NetworkManager's Connectivity, read to open the login page.
    WayOut(Option<u32>),
}

/// What the view does next. After drawing it waits for a key.
#[derive(Debug, PartialEq, Eq)]
pub enum ViewAction<S> {
    /// Leave.
    Leave,
    /// Draw, with this note.
    Draw { note: S },
    /// Draw, with this note, and ask NetworkManager to check.
    Check { note: S },
    /// Read NetworkManager's Connectivity.
    ReadWayOut,
    /// Handle the portal, and draw with this note.
    OpenPage { note: S },
}

impl View for ViewEvent<String> {
    type V = ViewEvent<Seq<char>>;

    open spec fn view(&self) -> ViewEvent<Seq<char>> {
        match self {
            ViewEvent::Key(key) => ViewEvent::Key(view_of(*key)),
            ViewEvent::Checked(reply) => ViewEvent::Checked(*reply),
            ViewEvent::WayOut(way) => ViewEvent::WayOut(*way),
        }
    }
}

impl View for ViewAction<String> {
    type V = ViewAction<Seq<char>>;

    open spec fn view(&self) -> ViewAction<Seq<char>> {
        match self {
            ViewAction::Leave => ViewAction::Leave,
            ViewAction::Draw { note } => ViewAction::Draw { note: note@ },
            ViewAction::Check { note } => ViewAction::Check { note: note@ },
            ViewAction::ReadWayOut => ViewAction::ReadWayOut,
            ViewAction::OpenPage { note } => ViewAction::OpenPage { note: note@ },
        }
    }
}

/// Whether this key leaves the view.
pub open spec fn leaves(key: Seq<char>) -> bool {
    key == "q"@ || key == "ESC"@
}

/// What the view does next, where `on_bus` tells whether NetworkManager can be
/// asked at all.
pub open spec fn view_action(on_bus: bool, event: ViewEvent<Seq<char>>) -> ViewAction<Seq<char>> {
    match event {
        ViewEvent::Key(Some(key)) => if leaves(key) {
            ViewAction::Leave
        } else if on_bus && key == "c"@ {
            ViewAction::Check { note: "asking NetworkManager to check…"@ }
        } else if on_bus && key == "o"@ {
            ViewAction::ReadWayOut
        } else {
            ViewAction::Draw { note: seq![] }
        },
        ViewEvent::Key(None) => ViewAction::Draw { note: seq![] },
        ViewEvent::Checked(Some(v)) => ViewAction::Draw {
            note: "checked: the way out is "@ + name_of(v),
        },
        ViewEvent::Checked(None) => ViewAction::Draw { note: "the check did not answer"@ },
        ViewEvent::WayOut(Some(v)) => if v == CONN_PORTAL {
            ViewAction::OpenPage { note: "opening the login page"@ }
        } else {
            ViewAction::Draw { note: "no login page to open: the way out is "@ + name_of(v) }
        },
        ViewEvent::WayOut(None) => ViewAction::Draw { note: "NetworkManager did not answer"@ },
    }
}

fn key_action(on_bus: bool, key: &str) -> (out: ViewAction<String>)
    ensures
        out@ == view_action(on_bus, ViewEvent::Key(Some(key@))),
{
    if same_text(key, "q") || same_text(key, "ESC") {
        ViewAction::Leave
    } else if on_bus && same_text(key, "c") {
        ViewAction::Check { note: "asking NetworkManager to check…".to_string() }
    } else if on_bus && same_text(key, "o") {
        ViewAction::ReadWayOut
    } else {
        ViewAction::Draw { note: String::new() }
    }
}

fn naming(start: &str, v: u32) -> (out: String)
    ensures
        out@ == start@ + name_of(v),
{
    let mut out: String = start.to_string();
    out.append(conn_name(v));
    out
}

/// What the view does next, where `on_bus` tells whether NetworkManager can be
/// asked at all.
pub fn view_next(on_bus: bool, event: &ViewEvent<String>) -> (out: ViewAction<String>)
    ensures
        out@ == view_action(on_bus, event@),
{
    match event {
        ViewEvent::Key(key) => match key {
            Some(k) => key_action(on_bus, k.as_str()),
            None => ViewAction::Draw { note: String::new() },
        },
        ViewEvent::Checked(reply) => match *reply {
            Some(v) => ViewAction::Draw { note: naming("checked: the way out is ", v) },
            None => ViewAction::Draw { note: "the check did not answer".to_string() },
        },
        ViewEvent::WayOut(way) => match *way {
            Some(v) => {
                if v == CONN_PORTAL {
                    ViewAction::OpenPage { note: "opening the login page".to_string() }
                } else {
                    ViewAction::Draw { note: naming("no login page to open: the way out is ", v) }
                }
            },
            None => ViewAction::Draw { note: "NetworkManager did not answer".to_string() },
        },
    }
}

/// `q` and `Esc` leave the view, with or without NetworkManager, and nothing
/// else does.
pub proof fn law_leaving(on_bus: bool, event: ViewEvent<Seq<char>>)
    ensures
        view_action(on_bus, event) is Leave <==> (event matches ViewEvent::Key(Some(key))
            && leaves(key)),
{
}

/// Without NetworkManager no key asks it anything.
pub proof fn law_nothing_asked_off_bus(key: Option<Seq<char>>)
    ensures
        view_action(false, ViewEvent::Key(key)) is Leave || view_action(false, ViewEvent::Key(key))
            == (ViewAction::Draw { note: Seq::<char>::empty() }),
{
}

/// The view opens a login page only while the way out is a portal.
pub proof fn law_page_opens_at_portal(on_bus: bool, event: ViewEvent<Seq<char>>)
    ensures
        view_action(on_bus, event) is OpenPage <==> event == ViewEvent::<Seq<char>>::WayOut(
            Some(CONN_PORTAL),
        ),
{
}

/// On the bus, `c` has NetworkManager check and `o` has the way out read to
/// open the page; off it, and for every other key that does not leave, the view
/// is drawn again without a note.
pub proof fn law_keys(on_bus: bool, key: Seq<char>)
    ensures
        key == "q"@ || key == "ESC"@ ==> view_action(on_bus, ViewEvent::Key(Some(key))) is Leave,
        view_action(true, ViewEvent::Key(Some("c"@))) == (ViewAction::Check {
            note: "asking NetworkManager to check…"@,
        }),
        view_action(true, ViewEvent::Key(Some("o"@))) == ViewAction::<Seq<char>>::ReadWayOut,
        key != "q"@ && key != "ESC"@ && (!on_bus || (key != "c"@ && key != "o"@)) ==> view_action(
            on_bus,
            ViewEvent::Key(Some(key)),
        ) == (ViewAction::Draw { note: Seq::<char>::empty() }),
        view_action(on_bus, ViewEvent::Key(None)) == (ViewAction::Draw {
            note: Seq::<char>::empty(),
        }),
{
    reveal_strlit("q");
    reveal_strlit("ESC");
    reveal_strlit("c");
    reveal_strlit("o");
    assert("q"@[0] == 'q' && "c"@[0] == 'c' && "o"@[0] == 'o' && "ESC"@[0] == 'E');
}

/// What NetworkManager replied is told by its name, and only a portal opens a
/// page. No reply is told as such.
pub proof fn law_replies_are_told(on_bus: bool, v: u32)
    ensures
        view_action(on_bus, ViewEvent::Checked(Some(v))) == (ViewAction::Draw {
            note: "checked: the way out is "@ + name_of(v),
        }),
        view_action(on_bus, ViewEvent::Checked(None)) == (ViewAction::Draw {
            note: "the check did not answer"@,
        }),
        v != 2 ==> view_action(on_bus, ViewEvent::WayOut(Some(v))) == (ViewAction::Draw {
            note: "no login page to open: the way out is "@ + name_of(v),
        }),
        view_action(on_bus, ViewEvent::WayOut(Some(2u32))) == (ViewAction::OpenPage {
            note: "opening the login page"@,
        }),
        view_action(on_bus, ViewEvent::WayOut(None)) == (ViewAction::Draw {
            note: "NetworkManager did not answer"@,
        }),
{
}

/// What happened and what to do stand for their own words.
pub proof fn law_view_views(s: String, v: Option<u32>)
    ensures
        ViewEvent::Key(Some(s))@ == ViewEvent::Key(Some(s@)),
        ViewEvent::<String>::Key(None)@ == ViewEvent::<Seq<char>>::Key(None),
        ViewEvent::<String>::Checked(v)@ == ViewEvent::<Seq<char>>::Checked(v),
        ViewEvent::<String>::WayOut(v)@ == ViewEvent::<Seq<char>>::WayOut(v),
        ViewAction::<String>::Leave@ == ViewAction::<Seq<char>>::Leave,
        ViewAction::<String>::ReadWayOut@ == ViewAction::<Seq<char>>::ReadWayOut,
        (ViewAction::Draw { note: s })@ == (ViewAction::Draw { note: s@ }),
        (ViewAction::Check { note: s })@ == (ViewAction::Check { note: s@ }),
        (ViewAction::OpenPage { note: s })@ == (ViewAction::OpenPage { note: s@ }),
{
}

/// Without a key the view draws itself again every ten minutes.
pub proof fn law_key_wait()
    ensures
        KEY_WAIT_MS == 10 * 60 * 1000,
{
}

} // verus!
