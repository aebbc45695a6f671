//! What is taken on trust of the terminal library `crust`.

use crate::number::decimal;
use vstd::prelude::*;

verus! {

/// The character that begins a control sequence.
pub const ESC: char = '\x1b';

/// A colour as red, green and blue.
pub type Rgb = (u8, u8, u8);

/// The control sequence parameter of an attribute letter: bold, dim, italic,
/// underlined, blinking and reversed. Other letters have none.
pub open spec fn attribute(letter: char) -> Seq<Seq<char>> {
    match letter {
        'b' => seq!["1"@],
        'd' => seq!["2"@],
        'i' => seq!["3"@],
        'u' => seq!["4"@],
        'l' => seq!["5"@],
        'r' => seq!["7"@],
        _ => seq![],
    }
}

/// The parameters of attribute letters, in their order.
pub open spec fn attributes(letters: Seq<char>) -> Seq<Seq<char>>
    decreases letters.len(),
{
    if letters.len() == 0 {
        seq![]
    } else {
        attributes(letters.drop_last()) + attribute(letters.last())
    }
}

/// The parameter of a colour, where there is one; `layer` tells the foreground
/// from the background.
pub open spec fn colour(layer: Seq<char>, rgb: Option<Rgb>) -> Seq<Seq<char>> {
    match rgb {
        Some((r, g, b)) => seq![
            layer + decimal(r as nat) + ";"@ + decimal(g as nat) + ";"@ + decimal(b as nat),
        ],
        None => seq![],
    }
}

/// The parameters with semicolons between them.
pub open spec fn joined(parameters: Seq<Seq<char>>) -> Seq<char>
    decreases parameters.len(),
{
    if parameters.len() == 0 {
        seq![]
    } else if parameters.len() == 1 {
        parameters[0]
    } else {
        joined(parameters.drop_last()) + ";"@ + parameters.last()
    }
}

/// `text` in one control sequence that sets its attributes and colours, up to
/// a full reset; with none of these, the bare text.
pub open spec fn styled(
    text: Seq<char>,
    fg: Option<Rgb>,
    bg: Option<Rgb>,
    attrs: Seq<char>,
) -> Seq<char> {
    let parameters = attributes(attrs) + colour("38;2;"@, fg) + colour("48;2;"@, bg);
    if parameters.len() == 0 {
        text
    } else {
        "\x1b["@ + joined(parameters) + "m"@ + text + "\x1b[0m"@
    }
}

/// `crust::style::rgb`: the attributes come first, then the foreground and
/// then the background, in one sequence that a full reset ends.
pub assume_specification[ crust::style::rgb ](
    text: &str,
    fg: Option<(u8, u8, u8)>,
    bg: Option<(u8, u8, u8)>,
    attrs: &str,
) -> (out: String)
    ensures
        out@ == styled(text@, fg, bg, attrs@),
;

/// `crust::Cursor::at`: the sequence that puts the cursor at a column and a
/// row, both counted from 1.
pub assume_specification[ crust::Cursor::at ](col: u16, row: u16) -> (out: String)
    ensures
        out@ == cursor_at(col, row),
;

/// The sequence that puts the cursor at a column and a row.
pub open spec fn cursor_at(col: u16, row: u16) -> Seq<char> {
    "\x1b["@ + decimal(row as nat) + ";"@ + decimal(col as nat) + "H"@
}

/// `crust::seq::ERASE_EOL`: the sequence that clears the rest of the line.
#[verifier::external_body]
pub(crate) fn erase_to_end() -> (out: &'static str)
    ensures
        out@ == "\x1b[K"@,
{
    crust::seq::ERASE_EOL
}

/// What `crust::strip_ansi` leaves of a text.
pub uninterp spec fn stripped(s: Seq<char>) -> Seq<char>;

/// `crust::strip_ansi`: the text without its control sequences. A text without
/// any is left as it is, and of a styled text the text remains.
pub assume_specification[ crust::strip_ansi ](s: &str) -> (out: String)
    ensures
        out@ == stripped(s@),
        !s@.contains(ESC) ==> out@ == s@,
        forall|text: Seq<char>, fg: Option<Rgb>, bg: Option<Rgb>, attrs: Seq<char>|
            s@ == #[trigger] styled(text, fg, bg, attrs) && !text.contains(ESC) ==> out@ == text,
;

/// What `crust::display_width` counts in a text.
pub uninterp spec fn cells(s: Seq<char>) -> usize;

/// Whether every character is printable ASCII or one of the two marks that the
/// view uses, each of which takes one cell.
pub open spec fn is_plain(s: Seq<char>) -> bool {
    forall|i: int|
        0 <= i < s.len() ==> ' ' <= #[trigger] s[i] <= '~' || s[i] == '·' || s[i] == '…'
}

/// `crust::display_width`: how many cells of the screen a text takes, its
/// control sequences left out. A plain text takes one for each character.
pub assume_specification[ crust::display_width ](s: &str) -> (out: usize)
    ensures
        out == cells(s@),
        is_plain(s@) ==> out == s@.len(),
;

/// A text in a colour is the text between the control sequence of the colour
/// and a full reset. Bold and italics come before the colour.
pub proof fn law_coloured(text: Seq<char>, r: u8, g: u8, b: u8)
    ensures
        ({
            let rgb = decimal(r as nat) + ";"@ + decimal(g as nat) + ";"@ + decimal(b as nat);
            &&& styled(text, Some((r, g, b)), None, ""@) == "\x1b["@ + ("38;2;"@ + rgb) + "m"@
                + text + "\x1b[0m"@
            &&& styled(text, Some((r, g, b)), None, "b"@) == "\x1b["@ + ("1;38;2;"@ + rgb) + "m"@
                + text + "\x1b[0m"@
            &&& styled(text, Some((r, g, b)), None, "i"@) == "\x1b["@ + ("3;38;2;"@ + rgb) + "m"@
                + text + "\x1b[0m"@
        }),
{
    let rgb = decimal(r as nat) + ";"@ + decimal(g as nat) + ";"@ + decimal(b as nat);
    let c = colour("38;2;"@, Some((r, g, b)));
    let none = Seq::<Seq<char>>::empty();
    reveal_strlit("");
    reveal_strlit("b");
    reveal_strlit("i");
    reveal_strlit("1");
    reveal_strlit("3");
    reveal_strlit(";");
    reveal_strlit("38;2;");
    reveal_strlit("1;38;2;");
    reveal_strlit("3;38;2;");
    assert(c[0] =~= "38;2;"@ + rgb);
    assert(attributes(""@) =~= none);
    assert("b"@.drop_last() =~= ""@ && "i"@.drop_last() =~= ""@);
    assert(attributes("b"@) =~= seq!["1"@]);
    assert(attributes("i"@) =~= seq!["3"@]);
    assert(attributes(""@) + c + colour("48;2;"@, None) =~= c);
    let bold = attributes("b"@) + c + colour("48;2;"@, None);
    let italic = attributes("i"@) + c + colour("48;2;"@, None);
    assert(bold =~= seq!["1"@, c[0]]);
    assert(italic =~= seq!["3"@, c[0]]);
    assert(bold.drop_last() =~= seq!["1"@]);
    assert(italic.drop_last() =~= seq!["3"@]);
    assert(joined(seq!["1"@]) == "1"@);
    assert(joined(seq!["3"@]) == "3"@);
    assert(joined(bold) =~= "1;38;2;"@ + rgb);
    assert(joined(italic) =~= "3;38;2;"@ + rgb);
}

} // verus!
