//! The terminal view: a bar across the top that tells whether the listener
//! runs, the network and its way out, the last login page, and a bar along the
//! bottom.

use crate::connectivity::{conn_name, name_of, CONN_FULL, CONN_PORTAL};
use crate::number::{decimal, law_decimal, push_decimal};
use crate::terminal::{
    cells, cursor_at, erase_to_end, is_plain, law_coloured, stripped, styled, Rgb, ESC,
};
use crate::text::view_of;
use vstd::prelude::*;
use vstd::utf8::{encode_utf8, is_ascii_chars, is_ascii_chars_encode_utf8};

verus! {

/// The program's own colour.
pub const RUST_RGB: (u8, u8, u8) = (247, 76, 0);

/// What is told.
pub const TEXT_RGB: (u8, u8, u8) = (225, 225, 230);

/// What it is about.
pub const DIM_RGB: (u8, u8, u8) = (140, 140, 150);

/// What is as it should be.
pub const LIVE_RGB: (u8, u8, u8) = (120, 230, 140);

/// What is not.
pub const WARN_RGB: (u8, u8, u8) = (230, 180, 90);

/// The note in the bottom bar.
pub const FOOT_RGB: (u8, u8, u8) = (200, 200, 205);

/// The ground of the two bars.
pub const BAR_BG: (u8, u8, u8) = (38, 38, 38);

/// The network, as NetworkManager tells it.
pub struct Network<S> {
    /// The name of the connection, where there is one.
    pub name: Option<S>,
    /// The Connectivity, where it could be read.
    pub way_out: Option<u32>,
}

/// What the view shows.
pub struct Status<S> {
    /// The running listener: its process and its memory in MB, as text.
    pub listener: Option<(u32, S)>,
    /// The network, where NetworkManager is on the system bus.
    pub network: Option<Network<S>>,
    /// The last login page.
    pub last: S,
}

/// The listener with its memory as a sequence of characters.
pub open spec fn listener_view(listener: Option<(u32, String)>) -> Option<(u32, Seq<char>)> {
    match listener {
        Some((pid, megabytes)) => Some((pid, megabytes@)),
        None => None,
    }
}

impl View for Network<String> {
    type V = Network<Seq<char>>;

    open spec fn view(&self) -> Network<Seq<char>> {
        Network { name: view_of(self.name), way_out: self.way_out }
    }
}

impl View for Status<String> {
    type V = Status<Seq<char>>;

    open spec fn view(&self) -> Status<Seq<char>> {
        Status {
            listener: listener_view(self.listener),
            network: match self.network {
                Some(network) => Some(network@),
                None => None,
            },
            last: self.last@,
        }
    }
}

/// `n` spaces.
pub open spec fn spaces(n: nat) -> Seq<char> {
    Seq::new(n, |i: int| ' ')
}

/// What is left of `a` without `b`, and 0 where that is nothing.
pub open spec fn left(a: int, b: int) -> nat {
    if a > b {
        (a - b) as nat
    } else {
        0
    }
}

/// Appends `n` spaces.
fn push_spaces(out: &mut String, n: usize)
    ensures
        final(out)@ == old(out)@ + spaces(n as nat),
{
    let mut i: usize = 0;
    while i < n
        invariant
            i <= n,
            out@ == old(out)@ + spaces(i as nat),
        decreases n - i,
    {
        out.push(' ');
        i = i + 1;
        assert(out@ =~= old(out)@ + spaces(i as nat));
    }
}

/// A run of text in one style.
pub struct Span {
    pub text: Seq<char>,
    pub fg: Option<Rgb>,
    pub bg: Option<Rgb>,
    pub attrs: Seq<char>,
}

/// A run of text on the ground of the bars.
pub open spec fn on_bar(text: Seq<char>, fg: Option<Rgb>, attrs: Seq<char>) -> Span {
    Span { text, fg, bg: Some(BAR_BG), attrs }
}

/// The spans as the terminal gets them.
pub open spec fn rendered(spans: Seq<Span>) -> Seq<char>
    decreases spans.len(),
{
    if spans.len() == 0 {
        seq![]
    } else {
        let span = spans.last();
        rendered(spans.drop_last()) + styled(span.text, span.fg, span.bg, span.attrs)
    }
}

/// The spans as they are read: their texts.
pub open spec fn shown(spans: Seq<Span>) -> Seq<char>
    decreases spans.len(),
{
    if spans.len() == 0 {
        seq![]
    } else {
        shown(spans.drop_last()) + spans.last().text
    }
}

proof fn lemma_one_more(spans: Seq<Span>, span: Span)
    ensures
        rendered(spans.push(span)) == rendered(spans) + styled(
            span.text,
            span.fg,
            span.bg,
            span.attrs,
        ),
        shown(spans.push(span)) == shown(spans) + span.text,
{
    assert(spans.push(span).drop_last() =~= spans);
}

/// Whether the listener runs, in words.
pub open spec fn listener_text(listener: Option<(u32, Seq<char>)>) -> Seq<char> {
    match listener {
        Some((pid, megabytes)) => "listening · pid "@ + decimal(pid as nat) + " · "@ + megabytes
            + " MB"@,
        None => "not listening · start `torii` with your session"@,
    }
}

/// The colour of that.
pub open spec fn listener_colour(listener: Option<(u32, Seq<char>)>) -> Rgb {
    if listener is Some {
        LIVE_RGB
    } else {
        WARN_RGB
    }
}

/// Whether the listener runs, in words and in colour.
pub open spec fn listener_state(listener: Option<(u32, Seq<char>)>) -> Seq<char> {
    styled(listener_text(listener), Some(listener_colour(listener)), Some(BAR_BG), ""@)
}

/// Whether the listener runs, in words and in colour.
pub fn listener_line(listener: &Option<(u32, String)>) -> (out: String)
    ensures
        out@ == listener_state(listener_view(*listener)),
{
    match listener {
        Some((pid, megabytes)) => {
            let mut text: String = "listening · pid ".to_string();
            push_decimal(&mut text, *pid as u64);
            text.append(" · ");
            text.append(megabytes.as_str());
            text.append(" MB");
            crust::style::rgb(text.as_str(), Some(LIVE_RGB), Some(BAR_BG), "")
        },
        None => crust::style::rgb(
            "not listening · start `torii` with your session",
            Some(WARN_RGB),
            Some(BAR_BG),
            "",
        ),
    }
}

/// The bar across the top of a screen of `width` cells, of which its texts take
/// `used`.
pub open spec fn top_bar(width: int, listener: Option<(u32, Seq<char>)>, used: int) -> Seq<Span> {
    seq![
        on_bar(" "@, None, ""@),
        on_bar("torii"@, Some(RUST_RGB), "b"@),
        on_bar("   "@, None, ""@),
        on_bar(listener_text(listener), Some(listener_colour(listener)), ""@),
        on_bar(spaces(left(width, used)), None, ""@),
    ]
}

proof fn lemma_top_bar(width: int, listener: Option<(u32, Seq<char>)>, used: int)
    ensures
        rendered(top_bar(width, listener, used)) == styled(" "@, None, Some(BAR_BG), ""@) + styled(
            "torii"@,
            Some(RUST_RGB),
            Some(BAR_BG),
            "b"@,
        ) + styled("   "@, None, Some(BAR_BG), ""@) + listener_state(listener) + styled(
            spaces(left(width, used)),
            None,
            Some(BAR_BG),
            ""@,
        ),
        shown(top_bar(width, listener, used)) == " "@ + "torii"@ + "   "@ + listener_text(listener)
            + spaces(left(width, used)),
{
    let bar = top_bar(width, listener, used);
    let none = Seq::<Span>::empty();
    lemma_one_more(none, bar[0]);
    lemma_one_more(none.push(bar[0]), bar[1]);
    lemma_one_more(none.push(bar[0]).push(bar[1]), bar[2]);
    lemma_one_more(none.push(bar[0]).push(bar[1]).push(bar[2]), bar[3]);
    lemma_one_more(none.push(bar[0]).push(bar[1]).push(bar[2]).push(bar[3]), bar[4]);
    assert(bar =~= none.push(bar[0]).push(bar[1]).push(bar[2]).push(bar[3]).push(bar[4]));
    assert(rendered(none) =~= seq![]);
    assert(shown(none) =~= seq![]);
    assert(seq![] + " "@ =~= " "@);
    assert(seq![] + styled(" "@, None, Some(BAR_BG), ""@) =~= styled(
        " "@,
        None,
        Some(BAR_BG),
        ""@,
    ));
}

/// The bar across the top of a screen of `width` cells, of which its texts take
/// `used`.
pub fn draw_top(width: usize, listener: &Option<(u32, String)>, used: usize) -> (out: String)
    ensures
        out@ == cursor_at(1, 1) + rendered(
            top_bar(width as int, listener_view(*listener), used as int),
        ),
{
    let mut out: String = crust::Cursor::at(1, 1);
    out.append(crust::style::rgb(" ", None, Some(BAR_BG), "").as_str());
    out.append(crust::style::rgb("torii", Some(RUST_RGB), Some(BAR_BG), "b").as_str());
    out.append(crust::style::rgb("   ", None, Some(BAR_BG), "").as_str());
    out.append(listener_line(listener).as_str());
    let mut fill: String = String::new();
    push_spaces(&mut fill, width.saturating_sub(used));
    proof {
        assert(fill@ =~= spaces(left(width as int, used as int)));
        lemma_top_bar(width as int, listener_view(*listener), used as int);
    }
    out.append(crust::style::rgb(fill.as_str(), None, Some(BAR_BG), "").as_str());
    proof {
        assert(out@ =~= cursor_at(1, 1) + rendered(
            top_bar(width as int, listener_view(*listener), used as int),
        ));
    }
    out
}

/// What a line is about: a margin, and the name filled up to a column.
pub open spec fn label(name: Seq<char>) -> Seq<char> {
    styled("   "@ + name + spaces(left(14, name.len() as int)), Some(DIM_RGB), None, ""@)
}

/// The name of the network, or what stands in its place.
pub open spec fn network_text(network: Option<Network<Seq<char>>>) -> Seq<char> {
    match network {
        Some(n) => match n.name {
            Some(name) => name,
            None => "none"@,
        },
        None => "NetworkManager is not on the system bus"@,
    }
}

/// The way out, in words and in colour.
pub open spec fn way_out_text(network: Option<Network<Seq<char>>>) -> Seq<char> {
    let way = match network {
        Some(n) => n.way_out,
        None => None,
    };
    match way {
        Some(v) => if v == CONN_FULL {
            styled("the internet"@, Some(LIVE_RGB), None, ""@)
        } else if v == CONN_PORTAL {
            styled("a login page (o opens it)"@, Some(WARN_RGB), None, "b"@)
        } else {
            styled(name_of(v), Some(WARN_RGB), None, ""@)
        },
        None => styled("unknown"@, Some(DIM_RGB), None, ""@),
    }
}

/// Line number `r` between the bars, counted from 0; empty after the last.
pub open spec fn body_line(status: Status<Seq<char>>, r: int) -> Seq<char> {
    if r == 0 {
        label("Network"@) + styled(network_text(status.network), Some(TEXT_RGB), None, "b"@)
    } else if r == 1 {
        label("Way out"@) + way_out_text(status.network)
    } else if r == 2 {
        label("Last portal"@) + styled(status.last, Some(TEXT_RGB), None, ""@)
    } else if r == 4 {
        styled(
            "   When a network wants you to log in first, torii opens its page in the browser by itself."@,
            Some(DIM_RGB),
            None,
            "i"@,
        )
    } else {
        seq![]
    }
}

/// The first `n` lines between the bars, from the third row on.
pub open spec fn body(status: Status<Seq<char>>, n: int) -> Seq<char>
    decreases n,
{
    if n <= 0 {
        seq![]
    } else {
        body(status, n - 1) + cursor_at(1, (2 + n) as u16) + body_line(status, n - 1) + "\x1b[K"@
    }
}

fn draw_label(name: &str) -> (out: String)
    ensures
        out@ == label(name@),
{
    let mut text: String = "   ".to_string();
    text.append(name);
    let n: usize = name.unicode_len();
    push_spaces(&mut text, 14usize.saturating_sub(n));
    proof {
        assert(text@ =~= "   "@ + name@ + spaces(left(14, name@.len() as int)));
    }
    crust::style::rgb(text.as_str(), Some(DIM_RGB), None, "")
}

fn draw_way_out(way: Option<u32>) -> (out: String)
    ensures
        out@ == way_out_text(Some(Network { name: None, way_out: way })),
        way is None ==> out@ == way_out_text(None),
{
    match way {
        Some(v) => {
            if v == CONN_FULL {
                crust::style::rgb("the internet", Some(LIVE_RGB), None, "")
            } else if v == CONN_PORTAL {
                crust::style::rgb("a login page (o opens it)", Some(WARN_RGB), None, "b")
            } else {
                crust::style::rgb(conn_name(v), Some(WARN_RGB), None, "")
            }
        },
        None => crust::style::rgb("unknown", Some(DIM_RGB), None, ""),
    }
}

fn draw_body_line(status: &Status<String>, r: usize) -> (out: String)
    ensures
        out@ == body_line(status@, r as int),
{
    if r == 0 {
        let mut out: String = draw_label("Network");
        let name: &str = match &status.network {
            Some(network) => match &network.name {
                Some(name) => name.as_str(),
                None => "none",
            },
            None => "NetworkManager is not on the system bus",
        };
        out.append(crust::style::rgb(name, Some(TEXT_RGB), None, "b").as_str());
        out
    } else if r == 1 {
        let mut out: String = draw_label("Way out");
        let way: Option<u32> = match &status.network {
            Some(network) => network.way_out,
            None => None,
        };
        out.append(draw_way_out(way).as_str());
        out
    } else if r == 2 {
        let mut out: String = draw_label("Last portal");
        out.append(crust::style::rgb(status.last.as_str(), Some(TEXT_RGB), None, "").as_str());
        out
    } else if r == 4 {
        crust::style::rgb(
            "   When a network wants you to log in first, torii opens its page in the browser by itself.",
            Some(DIM_RGB),
            None,
            "i",
        )
    } else {
        String::new()
    }
}

/// The lines between the bars of a screen of `rows` rows.
pub fn draw_body(status: &Status<String>, rows: u16) -> (out: String)
    ensures
        out@ == body(status@, rows - 4),
{
    let n: u16 = rows.saturating_sub(4);
    let mut out: String = String::new();
    let mut r: u16 = 0;
    while r < n
        invariant
            r <= n,
            n == left(rows as int, 4),
            out@ == body(status@, r as int),
        decreases n - r,
    {
        out.append(crust::Cursor::at(1, 3 + r).as_str());
        out.append(draw_body_line(status, r as usize).as_str());
        out.append(erase_to_end());
        r = r + 1;
    }
    out
}

/// How many bytes a text takes.
pub open spec fn bytes(s: Seq<char>) -> usize {
    encode_utf8(s).len() as usize
}

/// What the bottom bar says: the note, or the keys for want of one, cut to
/// leave room for the version.
pub open spec fn foot_text(width: int, note: Seq<char>, version: Seq<char>) -> Seq<char> {
    let text = if note.len() == 0 {
        "o open the login page · c check now · q back"@
    } else {
        note
    };
    let room = left(width, bytes(version) + 5);
    " "@ + if text.len() > room {
        text.take(room as int)
    } else {
        text
    }
}

/// What the bottom bar says: the note, or the keys for want of one, cut to
/// leave room for the version.
pub fn foot_line(width: usize, note: &str, version: &str) -> (out: String)
    ensures
        out@ == foot_text(width as int, note@, version@),
{
    let text: &str = if note.is_empty() {
        "o open the login page · c check now · q back"
    } else {
        note
    };
    let room: usize = width.saturating_sub(version.len()).saturating_sub(5);
    let mut out: String = " ".to_string();
    if text.unicode_len() > room {
        out.append(text.substring_char(0, room));
        proof {
            assert(text@.subrange(0, room as int) =~= text@.take(room as int));
        }
    } else {
        out.append(text);
    }
    out
}

/// The bar along the bottom of a screen of `width` cells, where `foot` is what
/// it says and takes `used` cells.
pub open spec fn bottom_bar(
    width: int,
    foot: Seq<char>,
    used: int,
    version: Seq<char>,
) -> Seq<Span> {
    seq![
        on_bar(foot + spaces(left(width, used + bytes(version) + 2)), Some(FOOT_RGB), ""@),
        on_bar("v"@ + version + " "@, Some(DIM_RGB), ""@),
    ]
}

proof fn lemma_bottom_bar(width: int, foot: Seq<char>, used: int, version: Seq<char>)
    ensures
        ({
            let bar = bottom_bar(width, foot, used, version);
            &&& rendered(bar) == styled(bar[0].text, Some(FOOT_RGB), Some(BAR_BG), ""@) + styled(
                bar[1].text,
                Some(DIM_RGB),
                Some(BAR_BG),
                ""@,
            )
            &&& shown(bar) == bar[0].text + bar[1].text
        }),
{
    let bar = bottom_bar(width, foot, used, version);
    let none = Seq::<Span>::empty();
    lemma_one_more(none, bar[0]);
    lemma_one_more(none.push(bar[0]), bar[1]);
    assert(bar =~= none.push(bar[0]).push(bar[1]));
    assert(rendered(none) =~= seq![]);
    assert(shown(none) =~= seq![]);
    assert(seq![] + bar[0].text =~= bar[0].text);
    assert(seq![] + styled(bar[0].text, Some(FOOT_RGB), Some(BAR_BG), ""@) =~= styled(
        bar[0].text,
        Some(FOOT_RGB),
        Some(BAR_BG),
        ""@,
    ));
}

/// The bar along the bottom of a screen of `width` cells and `rows` rows, where
/// `foot` is what it says and takes `used` cells, with the version at the far
/// right.
pub fn draw_bottom(width: usize, rows: u16, foot: &str, used: usize, version: &str) -> (out: String)
    ensures
        out@ == cursor_at(1, rows) + rendered(
            bottom_bar(width as int, foot@, used as int, version@),
        ),
{
    let mut out: String = crust::Cursor::at(1, rows);
    let mut text: String = foot.to_string();
    let fill: usize = width.saturating_sub(used).saturating_sub(version.len()).saturating_sub(2);
    push_spaces(&mut text, fill);
    proof {
        assert(text@ =~= foot@ + spaces(left(width as int, used + bytes(version@) + 2)));
        lemma_bottom_bar(width as int, foot@, used as int, version@);
    }
    out.append(crust::style::rgb(text.as_str(), Some(FOOT_RGB), Some(BAR_BG), "").as_str());
    let mut end: String = "v".to_string();
    end.append(version);
    end.append(" ");
    out.append(crust::style::rgb(end.as_str(), Some(DIM_RGB), Some(BAR_BG), "").as_str());
    proof {
        assert(out@ =~= cursor_at(1, rows) + rendered(
            bottom_bar(width as int, foot@, used as int, version@),
        ));
    }
    out
}

/// A whole screen, where what the top bar shows takes `head_used` cells and
/// what the bottom bar says takes `foot_used`.
pub open spec fn screen(
    cols: u16,
    rows: u16,
    status: Status<Seq<char>>,
    note: Seq<char>,
    version: Seq<char>,
    head_used: int,
    foot_used: int,
) -> Seq<char> {
    cursor_at(1, 1) + rendered(top_bar(cols as int, status.listener, head_used)) + body(
        status,
        rows - 4,
    ) + (cursor_at(1, rows) + rendered(
        bottom_bar(cols as int, foot_text(cols as int, note, version), foot_used, version),
    ))
}

/// How many cells the texts of the top bar take.
pub open spec fn head_cells(listener: Option<(u32, Seq<char>)>) -> int {
    cells(" torii   "@ + stripped(listener_state(listener))) as int
}

/// A whole screen. The filling of the bars goes by the cells that `crust`
/// counts; in a bar of plain text, that is one for each character.
pub fn draw(cols: u16, rows: u16, status: &Status<String>, note: &str, version: &str) -> (out:
    String)
    ensures
        out@ == screen(
            cols,
            rows,
            status@,
            note@,
            version@,
            head_cells(status@.listener),
            cells(foot_text(cols as int, note@, version@)) as int,
        ),
        is_plain(listener_text(status@.listener)) ==> head_cells(status@.listener) == 9
            + listener_text(status@.listener).len(),
        is_plain(foot_text(cols as int, note@, version@)) ==> cells(
            foot_text(cols as int, note@, version@),
        ) == foot_text(cols as int, note@, version@).len(),
{
    let width: usize = cols as usize;
    let state = listener_line(&status.listener);
    let plain_state = crust::strip_ansi(state.as_str());
    let mut head: String = " torii   ".to_string();
    head.append(plain_state.as_str());
    let head_used: usize = crust::display_width(head.as_str());
    let foot = foot_line(width, note, version);
    let foot_used: usize = crust::display_width(foot.as_str());
    proof {
        let text = listener_text(status@.listener);
        if is_plain(text) {
            assert forall|i: int| 0 <= i < text.len() implies #[trigger] text[i] != ESC by {}
            assert(!text.contains(ESC));
            assert(plain_state@ == text);
            reveal_strlit(" torii   ");
            assert(is_plain(head@));
        }
    }
    let mut out: String = draw_top(width, &status.listener, head_used);
    out.append(draw_body(status, rows).as_str());
    out.append(draw_bottom(width, rows, foot.as_str(), foot_used, version).as_str());
    out
}

/// The top bar goes from side to side: where its texts take one cell for each
/// character, and there is room for them, it shows one character for each
/// column.
pub proof fn law_top_bar_spans(width: int, listener: Option<(u32, Seq<char>)>)
    requires
        width >= 9 + listener_text(listener).len(),
    ensures
        shown(top_bar(width, listener, 9 + listener_text(listener).len() as int)).len() == width,
{
    reveal_strlit(" ");
    reveal_strlit("torii");
    reveal_strlit("   ");
    lemma_top_bar(width, listener, 9 + listener_text(listener).len() as int);
}

/// The bottom bar goes from side to side, however long the note, where the
/// note takes one cell for each character and the screen has room for a space
/// and the version. The note is cut before it reaches the version.
pub proof fn law_bottom_bar_spans(width: u16, note: Seq<char>, version: Seq<char>)
    requires
        is_ascii_chars(version),
        width >= version.len() + 3,
    ensures
        ({
            let foot = foot_text(width as int, note, version);
            &&& shown(bottom_bar(width as int, foot, foot.len() as int, version)).len() == width
            &&& foot.len() + version.len() + 2 <= width
        }),
{
    is_ascii_chars_encode_utf8(version);
    assert(bytes(version) == version.len());
    reveal_strlit(" ");
    reveal_strlit("v");
    let foot = foot_text(width as int, note, version);
    lemma_bottom_bar(width as int, foot, foot.len() as int, version);
}

proof fn lemma_label(name: Seq<char>, text: Seq<char>)
    requires
        text.len() == 17,
        name.len() <= 14,
        text.take(3) == seq![' ', ' ', ' '],
        text.subrange(3, 3 + name.len() as int) == name,
        forall|i: int| 3 + name.len() <= i < 17 ==> #[trigger] text[i] == ' ',
    ensures
        label(name) == styled(text, Some(DIM_RGB), None, ""@),
{
    reveal_strlit("   ");
    let built = "   "@ + name + spaces(left(14, name.len() as int));
    assert forall|i: int| 0 <= i < 17 implies #[trigger] built[i] == text[i] by {
        if i < 3 {
            assert(text.take(3)[i] == text[i]);
        } else if i < 3 + name.len() {
            assert(text.subrange(3, 3 + name.len() as int)[i - 3] == text[i]);
        }
    }
    assert(built =~= text);
}

proof fn lemma_labels()
    ensures
        label("Network"@) == styled("   Network       "@, Some((140u8, 140u8, 150u8)), None, ""@),
        label("Way out"@) == styled("   Way out       "@, Some((140u8, 140u8, 150u8)), None, ""@),
        label("Last portal"@) == styled(
            "   Last portal   "@,
            Some((140u8, 140u8, 150u8)),
            None,
            ""@,
        ),
{
    reveal_strlit("Network");
    reveal_strlit("Way out");
    reveal_strlit("Last portal");
    reveal_strlit("   Network       ");
    reveal_strlit("   Way out       ");
    reveal_strlit("   Last portal   ");
    assert("   Network       "@.take(3) =~= seq![' ', ' ', ' ']);
    assert("   Way out       "@.take(3) =~= seq![' ', ' ', ' ']);
    assert("   Last portal   "@.take(3) =~= seq![' ', ' ', ' ']);
    assert("   Network       "@.subrange(3, 10) =~= "Network"@);
    assert("   Way out       "@.subrange(3, 10) =~= "Way out"@);
    assert("   Last portal   "@.subrange(3, 14) =~= "Last portal"@);
    lemma_label("Network"@, "   Network       "@);
    lemma_label("Way out"@, "   Way out       "@);
    lemma_label("Last portal"@, "   Last portal   "@);
}

/// The first line gives the name of the connection, whole; none where there is
/// none, and that NetworkManager cannot be asked where it cannot.
pub proof fn law_network_line(
    name: Seq<char>,
    way_out: Option<u32>,
    listener: Option<(u32, Seq<char>)>,
    last: Seq<char>,
)
    ensures
        ({
            let label = styled("   Network       "@, Some((140u8, 140u8, 150u8)), None, ""@);
            let white = Some((225u8, 225u8, 230u8));
            &&& body_line(
                Status { listener, network: Some(Network { name: Some(name), way_out }), last },
                0,
            ) == label + styled(name, white, None, "b"@)
            &&& body_line(
                Status { listener, network: Some(Network { name: None, way_out }), last },
                0,
            ) == label + styled("none"@, white, None, "b"@)
            &&& body_line(Status { listener, network: None, last }, 0) == label + styled(
                "NetworkManager is not on the system bus"@,
                white,
                None,
                "b"@,
            )
        }),
{
    lemma_labels();
}

/// The line that tells the way out, where NetworkManager gives it as `way`.
pub open spec fn way_out_line(
    listener: Option<(u32, Seq<char>)>,
    name: Option<Seq<char>>,
    last: Seq<char>,
    way_out: Option<u32>,
) -> Seq<char> {
    body_line(Status { listener, network: Some(Network { name, way_out }), last }, 1)
}

/// The second line tells the way out, and depends on nothing else. The internet
/// is shown alone in the colour of what is as it should be. A login page and
/// every other way out are a warning, and an unknown one is neither. Without
/// NetworkManager it is unknown.
pub proof fn law_way_out_line(
    listener: Option<(u32, Seq<char>)>,
    name: Option<Seq<char>>,
    last: Seq<char>,
    v: u32,
)
    ensures
        ({
            let label = styled("   Way out       "@, Some((140u8, 140u8, 150u8)), None, ""@);
            let green = Some((120u8, 230u8, 140u8));
            let amber = Some((230u8, 180u8, 90u8));
            let grey = Some((140u8, 140u8, 150u8));
            &&& way_out_line(listener, name, last, Some(4u32)) == label + styled(
                "the internet"@,
                green,
                None,
                ""@,
            )
            &&& way_out_line(listener, name, last, Some(2u32)) == label + styled(
                "a login page (o opens it)"@,
                amber,
                None,
                "b"@,
            )
            &&& v != 4 && v != 2 ==> way_out_line(listener, name, last, Some(v)) == label + styled(
                name_of(v),
                amber,
                None,
                ""@,
            )
            &&& way_out_line(listener, name, last, None) == label + styled(
                "unknown"@,
                grey,
                None,
                ""@,
            )
            &&& body_line(Status { listener, network: None, last }, 1) == label + styled(
                "unknown"@,
                grey,
                None,
                ""@,
            )
        }),
{
    lemma_labels();
}

proof fn lemma_three_digits(n: nat)
    requires
        100 <= n < 1000,
    ensures
        decimal(n).len() == 3,
        decimal(n)[0] == (48 + n / 100) as char,
        decimal(n)[1] == (48 + n / 10 % 10) as char,
{
    law_decimal(n / 10, n % 10);
    law_decimal(n / 100, n / 10 % 10);
    law_decimal(0, n / 100);
    assert(n == n / 10 * 10 + n % 10);
    assert(n / 10 == n / 100 * 10 + n / 10 % 10);
}

/// How the four kinds of the way out begin: green, amber, bold and grey.
proof fn lemma_way_out_starts(text: Seq<char>)
    ensures
        ({
            let green = styled(text, Some((120u8, 230u8, 140u8)), None, ""@);
            let amber = styled(text, Some((230u8, 180u8, 90u8)), None, ""@);
            let bold = styled(text, Some((230u8, 180u8, 90u8)), None, "b"@);
            let grey = styled(text, Some((140u8, 140u8, 150u8)), None, ""@);
            &&& green.len() > 9 && green[2] == '3' && green[7] == '1' && green[8] == '2'
            &&& amber.len() > 9 && amber[2] == '3' && amber[7] == '2'
            &&& bold.len() > 9 && bold[2] == '1'
            &&& grey.len() > 9 && grey[2] == '3' && grey[7] == '1' && grey[8] == '4'
        }),
{
    law_coloured(text, 120, 230, 140);
    law_coloured(text, 230, 180, 90);
    law_coloured(text, 140, 140, 150);
    lemma_three_digits(120);
    lemma_three_digits(230);
    lemma_three_digits(140);
    reveal_strlit("\x1b[");
    reveal_strlit("38;2;");
    reveal_strlit("1;38;2;");
}

proof fn lemma_amber_differs(a: Seq<char>, b: Seq<char>)
    requires
        styled(a, Some((230u8, 180u8, 90u8)), None, ""@) == styled(
            b,
            Some((230u8, 180u8, 90u8)),
            None,
            ""@,
        ),
    ensures
        a == b,
{
    law_coloured(a, 230, 180, 90);
    law_coloured(b, 230, 180, 90);
    let rgb = decimal(230) + ";"@ + decimal(180) + ";"@ + decimal(90);
    let start = "\x1b["@ + ("38;2;"@ + rgb) + "m"@;
    let x = styled(a, Some((230u8, 180u8, 90u8)), None, ""@);
    let y = styled(b, Some((230u8, 180u8, 90u8)), None, ""@);
    assert(x.len() == start.len() + a.len() + "\x1b[0m"@.len());
    assert(y.len() == start.len() + b.len() + "\x1b[0m"@.len());
    assert(x.subrange(start.len() as int, start.len() as int + a.len()) =~= a);
    assert(y.subrange(start.len() as int, start.len() as int + b.len()) =~= b);
}

/// The way out is told apart: ways out with different names have different
/// lines, and none has that of an unknown one. So the internet is shown if and
/// only if it is there, and a login page if and only if there is one.
#[verifier::rlimit(40)]
pub proof fn law_ways_out_differ(
    listener: Option<(u32, Seq<char>)>,
    name: Option<Seq<char>>,
    last: Seq<char>,
    v: u32,
    w: u32,
)
    ensures
        name_of(v) != name_of(w) ==> way_out_line(listener, name, last, Some(v)) != way_out_line(
            listener,
            name,
            last,
            Some(w),
        ),
        way_out_line(listener, name, last, Some(v)) != way_out_line(listener, name, last, None),
        way_out_line(listener, name, last, Some(v)) == styled(
            "   Way out       "@,
            Some((140u8, 140u8, 150u8)),
            None,
            ""@,
        ) + styled("the internet"@, Some((120u8, 230u8, 140u8)), None, ""@) <==> v == 4,
        way_out_line(listener, name, last, Some(v)) == styled(
            "   Way out       "@,
            Some((140u8, 140u8, 150u8)),
            None,
            ""@,
        ) + styled("a login page (o opens it)"@, Some((230u8, 180u8, 90u8)), None, "b"@) <==> v
            == 2,
        forall|text: Seq<char>|
            v != 4 ==> way_out_line(listener, name, last, Some(v)) != styled(
                "   Way out       "@,
                Some((140u8, 140u8, 150u8)),
                None,
                ""@,
            ) + #[trigger] styled(text, Some((120u8, 230u8, 140u8)), None, ""@),
{
    law_way_out_line(listener, name, last, v);
    law_way_out_line(listener, name, last, w);
    let label = styled("   Way out       "@, Some((140u8, 140u8, 150u8)), None, ""@);
    let n = label.len() as int;
    let way_v = way_out_text(Some(Network { name, way_out: Some(v) }));
    let way_w = way_out_text(Some(Network { name, way_out: Some(w) }));
    let unknown = way_out_text(Some(Network { name, way_out: None }));
    lemma_labels();
    assert((label + way_v).skip(n) =~= way_v);
    assert((label + way_w).skip(n) =~= way_w);
    assert((label + unknown).skip(n) =~= unknown);
    lemma_way_out_starts("the internet"@);
    lemma_way_out_starts("a login page (o opens it)"@);
    lemma_way_out_starts("unknown"@);
    lemma_way_out_starts(name_of(v));
    lemma_way_out_starts(name_of(w));
    let internet = styled("the internet"@, Some((120u8, 230u8, 140u8)), None, ""@);
    let login = styled("a login page (o opens it)"@, Some((230u8, 180u8, 90u8)), None, "b"@);
    assert((label + internet).skip(n) =~= internet);
    assert((label + login).skip(n) =~= login);
    if way_v == way_w && v != 4 && v != 2 && w != 4 && w != 2 {
        lemma_amber_differs(name_of(v), name_of(w));
    }
    assert forall|text: Seq<char>| v != 4 implies way_out_line(listener, name, last, Some(v))
        != label + #[trigger] styled(text, Some((120u8, 230u8, 140u8)), None, ""@) by {
        lemma_way_out_starts(text);
        let green = styled(text, Some((120u8, 230u8, 140u8)), None, ""@);
        assert((label + green).skip(n) =~= green);
    }
}

/// The third line is on the last login page, as it is told; the fifth says what
/// torii is for; all others are empty.
pub proof fn law_other_lines(status: Status<Seq<char>>, r: int)
    ensures
        body_line(status, 2) == styled(
            "   Last portal   "@,
            Some((140u8, 140u8, 150u8)),
            None,
            ""@,
        ) + styled(status.last, Some((225u8, 225u8, 230u8)), None, ""@),
        body_line(status, 4) == styled(
            "   When a network wants you to log in first, torii opens its page in the browser by itself."@,
            Some((140u8, 140u8, 150u8)),
            None,
            "i"@,
        ),
        r == 3 || r > 4 ==> body_line(status, r) == Seq::<char>::empty(),
{
    lemma_labels();
}

/// Between the bars each line stands in its row, from the third on, with the
/// rest of the row cleared, one after the other and nothing else.
pub proof fn law_rows_between_bars(status: Status<Seq<char>>, n: int)
    requires
        0 <= n < 65533,
    ensures
        body(status, 0) == Seq::<char>::empty(),
        body(status, n + 1) == body(status, n) + cursor_at(1, (3 + n) as u16) + body_line(status, n)
            + seq!['\x1b', '[', 'K'],
{
    reveal_strlit("\x1b[K");
    assert("\x1b[K"@ =~= seq!['\x1b', '[', 'K']);
}

/// A screen holds every line between its bars, each in its row.
pub proof fn law_screen_holds_line(status: Status<Seq<char>>, n: int, r: int)
    requires
        0 <= r < n,
        n < 65533,
    ensures
        (body(status, r) + cursor_at(1, (3 + r) as u16) + body_line(status, r) + seq![
            '\x1b',
            '[',
            'K',
        ]).is_prefix_of(body(status, n)),
    decreases n,
{
    law_rows_between_bars(status, n - 1);
    let row = body(status, r) + cursor_at(1, (3 + r) as u16) + body_line(status, r) + seq![
        '\x1b',
        '[',
        'K',
    ];
    if r == n - 1 {
        assert(body(status, n).subrange(0, row.len() as int) =~= row);
    } else {
        law_screen_holds_line(status, n - 1, r);
        let shorter = body(status, n - 1);
        assert(body(status, n).subrange(0, row.len() as int) =~= shorter.subrange(
            0,
            row.len() as int,
        ));
    }
}

/// Whether the listener runs is told in green with its process and its memory,
/// and in amber where it does not.
pub proof fn law_listener_state(pid: u32, megabytes: Seq<char>)
    ensures
        listener_state(Some((pid, megabytes))) == styled(
            "listening · pid "@ + decimal(pid as nat) + " · "@ + megabytes + " MB"@,
            Some((120u8, 230u8, 140u8)),
            Some((38u8, 38u8, 38u8)),
            ""@,
        ),
        listener_state(None) == styled(
            "not listening · start `torii` with your session"@,
            Some((230u8, 180u8, 90u8)),
            Some((38u8, 38u8, 38u8)),
            ""@,
        ),
        listener_text(Some((pid, megabytes))) == "listening · pid "@ + decimal(pid as nat) + " · "@
            + megabytes + " MB"@,
        listener_text(None) == "not listening · start `torii` with your session"@,
{
}

/// The bottom bar says the note, and the keys where there is none: a space and
/// then its characters from the first on, all of them where five cells and the
/// version leave room, and else as many as there is room for.
pub proof fn law_foot_text(width: usize, note: Seq<char>, version: Seq<char>)
    ensures
        ({
            let text = if note.len() == 0 {
                "o open the login page · c check now · q back"@
            } else {
                note
            };
            let foot = foot_text(width as int, note, version);
            let room = width - (encode_utf8(version).len() as usize) - 5;
            &&& foot.len() > 0 && foot[0] == ' '
            &&& foot.len() <= text.len() + 1
            &&& foot.skip(1) == text.take(foot.len() - 1)
            &&& text.len() <= room ==> foot.skip(1) == text
            &&& text.len() > room && room >= 0 ==> foot.len() == room + 1
            &&& room < 0 ==> foot.len() == 1
        }),
{
    reveal_strlit(" ");
    let text = if note.len() == 0 {
        "o open the login page · c check now · q back"@
    } else {
        note
    };
    let foot = foot_text(width as int, note, version);
    assert(foot.skip(1) =~= text.take(foot.len() - 1));
    assert(text.take(text.len() as int) =~= text);
}

/// A screen is the top bar, the lines between the bars and the bottom bar. The
/// top bar has the name, whether the listener runs, and filling up to the
/// width; the bottom bar has its text, filling, and the whole version at the
/// far right.
pub proof fn law_screen(
    cols: u16,
    rows: u16,
    status: Status<Seq<char>>,
    note: Seq<char>,
    version: Seq<char>,
    head_used: int,
    foot_used: int,
)
    ensures
        ({
            let ground = Some((38u8, 38u8, 38u8));
            let fill = if cols > head_used {
                (cols - head_used) as nat
            } else {
                0
            };
            let taken = foot_used + (encode_utf8(version).len() as usize) + 2;
            let gap = if cols > taken {
                (cols - taken) as nat
            } else {
                0
            };
            let top = styled(" "@, None, ground, ""@) + styled(
                "torii"@,
                Some((247u8, 76u8, 0u8)),
                ground,
                "b"@,
            ) + styled("   "@, None, ground, ""@) + listener_state(status.listener) + styled(
                Seq::new(fill, |i: int| ' '),
                None,
                ground,
                ""@,
            );
            let bottom = styled(
                foot_text(cols as int, note, version) + Seq::new(gap, |i: int| ' '),
                Some((200u8, 200u8, 205u8)),
                ground,
                ""@,
            ) + styled("v"@ + version + " "@, Some((140u8, 140u8, 150u8)), ground, ""@);
            screen(cols, rows, status, note, version, head_used, foot_used) == cursor_at(1, 1) + top
                + body(status, rows - 4) + (cursor_at(1, rows) + bottom)
        }),
{
    let foot = foot_text(cols as int, note, version);
    lemma_top_bar(cols as int, status.listener, head_used);
    lemma_bottom_bar(cols as int, foot, foot_used, version);
    let taken = foot_used + (encode_utf8(version).len() as usize) + 2;
    let fill = if cols > head_used {
        (cols - head_used) as nat
    } else {
        0
    };
    let gap = if cols > taken {
        (cols - taken) as nat
    } else {
        0
    };
    assert(spaces(left(cols as int, head_used)) =~= Seq::new(fill, |i: int| ' '));
    assert(spaces(left(cols as int, foot_used + bytes(version) + 2)) =~= Seq::new(
        gap,
        |i: int| ' ',
    ));
}

/// The cells of the top bar are those of its name and of what it tells of the
/// listener, without the control sequences.
pub proof fn law_head_cells(listener: Option<(u32, Seq<char>)>)
    ensures
        head_cells(listener) == cells(" torii   "@ + stripped(listener_state(listener))),
{
}

/// What the view shows stands for its own words.
pub proof fn law_status_views(status: Status<String>, network: Network<String>, s: String, pid: u32)
    ensures
        network@.way_out == network.way_out,
        network.name is None ==> network@.name is None,
        network.name == Some(s) ==> network@.name == Some(s@),
        status.network is None ==> status@.network is None,
        status.network == Some(network) ==> status@.network == Some(network@),
        status.listener is None ==> status@.listener is None,
        status.listener == Some((pid, s)) ==> status@.listener == Some((pid, s@)),
        listener_view(None) is None,
        listener_view(Some((pid, s))) == Some((pid, s@)),
        status@.last == status.last@,
{
}

} // verus!
