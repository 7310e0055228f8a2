//! Coloured text: brand colours, speed colours, and what the terminal is sent for them.
//!
//! Whether text is coloured at all is up to the environment (a terminal, `NO_COLOR`,
//! `CLICOLOR_FORCE`). [`colours_on`] asks for it, and whatever makes a text takes the answer: where
//! colours are off the text is plain, where they are on it stands between its escape sequences.

use crate::band::Band;
use crate::text::{align_right, right_aligned, same_text};
use vstd::prelude::*;
use vstd::string::StrSliceExecFns;
use vstd::string::StringExecFns;

verus! {

/// The width of the column of names.
pub const NAME_WIDTH: usize = 11;

/// A text colour.
#[derive(Clone, Copy, Debug, PartialEq, Eq, Structural)]
pub enum Hue {
    Red,
    Green,
    Yellow,
    Blue,
    Magenta,
    Cyan,
    White,
}

impl Hue {
    /// The code that selects the colour.
    pub open spec fn code(self) -> Seq<char> {
        match self {
            Hue::Red => "31"@,
            Hue::Green => "32"@,
            Hue::Yellow => "33"@,
            Hue::Blue => "34"@,
            Hue::Magenta => "35"@,
            Hue::Cyan => "36"@,
            Hue::White => "37"@,
        }
    }

    /// The codes that select the colour in bold.
    pub open spec fn bold_code(self) -> Seq<char> {
        "1;"@ + self.code()
    }

    /// The code that selects the colour.
    fn digits(self) -> (r: &'static str)
        ensures
            r@ == self.code(),
    {
        match self {
            Hue::Red => "31",
            Hue::Green => "32",
            Hue::Yellow => "33",
            Hue::Blue => "34",
            Hue::Magenta => "35",
            Hue::Cyan => "36",
            Hue::White => "37",
        }
    }
}

/// The sequence that ends all styling.
pub open spec fn reset() -> Seq<char> {
    "\x1b[0m"@
}

/// The sequence that starts the styling with the given codes.
pub open spec fn styling(codes: Seq<char>) -> Seq<char> {
    "\x1b["@ + codes + "m"@
}

/// The text with the styling started anew wherever the text itself ends all styling.
pub open spec fn restyled(text: Seq<char>, style: Seq<char>) -> Seq<char>
    decreases text.len(),
{
    if text.len() < 4 {
        text
    } else if text.subrange(0, 4) == reset() {
        reset() + style + restyled(text.skip(4), style)
    } else {
        seq![text[0]] + restyled(text.skip(1), style)
    }
}

/// The text between its escape sequences.
pub open spec fn rendered(text: Seq<char>, codes: Seq<char>) -> Seq<char> {
    styling(codes) + restyled(text, styling(codes)) + reset()
}

/// A text in the style of the given codes: between its escape sequences where colours are on, plain
/// where they are off.
pub open spec fn styled(text: Seq<char>, codes: Seq<char>, on: bool) -> Seq<char> {
    if on {
        rendered(text, codes)
    } else {
        text
    }
}

/// Asks `colored::control::SHOULD_COLORIZE`, by its method `should_colorize`, whether text is to be
/// coloured. The answer comes from the environment, so nothing is claimed of it.
#[verifier::external_body]
fn should_colorize() -> (r: bool) {
    colored::control::SHOULD_COLORIZE.should_colorize()
}

/// Whether `on` is an answer that the environment gives to whether text is to be coloured.
pub closed spec fn environment_says(on: bool) -> bool {
    call_ensures(should_colorize, (), on)
}

/// Whether text is to be coloured now. The environment decides.
pub fn colours_on() -> (r: bool)
    ensures
        environment_says(r),
{
    should_colorize()
}

/// Appends a text, with the styling started anew wherever the text itself ends all styling.
fn push_restyled(out: &mut String, text: &str, style: &str)
    ensures
        final(out)@ == old(out)@ + restyled(text@, style@),
{
    let len: usize = text.unicode_len();
    let mut i: usize = 0;
    assert(text@.skip(0) =~= text@);
    while i < len
        invariant
            i <= len,
            len == text@.len(),
            out@ + restyled(text@.skip(i as int), style@) == old(out)@ + restyled(text@, style@),
        decreases len - i,
    {
        let ghost rest = text@.skip(i as int);
        let ghost before = out@;
        if len - i >= 4 && same_text(text.substring_char(i, i + 4), "\x1b[0m") {
            assert(rest.subrange(0, 4) =~= text@.subrange(i as int, i + 4));
            assert(rest.skip(4) =~= text@.skip(i + 4));
            out.append("\x1b[0m");
            out.append(style);
            assert(out@ + restyled(rest.skip(4), style@) =~= before + restyled(rest, style@));
            i = i + 4;
        } else {
            assert(rest.len() >= 4 ==> rest.subrange(0, 4) =~= text@.subrange(i as int, i + 4));
            assert(rest.skip(1) =~= text@.skip(i + 1));
            out.append(text.substring_char(i, i + 1));
            assert(out@ + restyled(rest.skip(1), style@) =~= before + restyled(rest, style@));
            i = i + 1;
        }
    }
    assert(out@ + restyled(text@.skip(i as int), style@) =~= out@);
}

/// A text in the style of the given codes.
fn apply(text: &str, codes: &str, on: bool) -> (r: String)
    ensures
        r@ == styled(text@, codes@, on),
{
    if !on {
        return text.to_owned();
    }
    let mut style = String::new();
    style.append("\x1b[");
    style.append(codes);
    style.append("m");
    let mut out = String::new();
    out.append(style.as_str());
    push_restyled(&mut out, text, style.as_str());
    out.append("\x1b[0m");
    out
}

/// A text in a colour.
pub fn paint(text: &str, hue: Hue, on: bool) -> (r: String)
    ensures
        r@ == styled(text@, hue.code(), on),
{
    apply(text, hue.digits(), on)
}

/// A text in a colour, in bold.
pub fn paint_bold(text: &str, hue: Hue, on: bool) -> (r: String)
    ensures
        r@ == styled(text@, hue.bold_code(), on),
{
    let mut codes = String::new();
    codes.append("1;");
    codes.append(hue.digits());
    apply(text, codes.as_str(), on)
}

/// The code that dims a text.
pub open spec fn dim_code() -> Seq<char> {
    "2"@
}

/// A text, dimmed.
pub fn dim(text: &str, on: bool) -> (r: String)
    ensures
        r@ == styled(text@, dim_code(), on),
{
    apply(text, "2", on)
}

/// The colour of a speed.
pub open spec fn band_hue(band: Band) -> Hue {
    match band {
        Band::Fast => Hue::Green,
        Band::Fair => Hue::Yellow,
        Band::Slow => Hue::Red,
    }
}

/// The mark of a speed.
pub open spec fn band_mark(band: Band) -> Seq<char> {
    match band {
        Band::Fast => "●"@,
        Band::Fair => "◉"@,
        Band::Slow => "○"@,
    }
}

/// The colour of a brand.
pub open spec fn brand_hue(name: Seq<char>) -> Hue {
    if name == "Binance"@ {
        Hue::Yellow
    } else if name == "Coinbase"@ {
        Hue::Blue
    } else if name == "Polymarket"@ {
        Hue::Magenta
    } else if name == "Mexico"@ {
        Hue::Cyan
    } else {
        Hue::White
    }
}

/// The mark of a speed, as it is shown.
pub open spec fn shown_mark(band: Band, on: bool) -> Seq<char> {
    styled(band_mark(band), band_hue(band).code(), on)
}

/// An exchange's name, as it is shown.
pub open spec fn shown_name(name: Seq<char>, on: bool) -> Seq<char> {
    styled(right_aligned(name, NAME_WIDTH as nat), brand_hue(name).bold_code(), on)
}

/// The text of a latency in the colour of its speed: green below 50 ms, yellow below 150 ms, red
/// from 150 ms on.
pub fn color_ms(text: &str, band: Band, on: bool) -> (r: String)
    ensures
        r@ == styled(text@, band_hue(band).code(), on),
{
    match band {
        Band::Fast => paint(text, Hue::Green, on),
        Band::Fair => paint(text, Hue::Yellow, on),
        Band::Slow => paint(text, Hue::Red, on),
    }
}

/// The mark of a speed, in its colour.
pub fn color_mark(band: Band, on: bool) -> (r: String)
    ensures
        r@ == shown_mark(band, on),
{
    match band {
        Band::Fast => paint("●", Hue::Green, on),
        Band::Fair => paint("◉", Hue::Yellow, on),
        Band::Slow => paint("○", Hue::Red, on),
    }
}

/// An exchange's name, right-aligned in its column, bold and in the colour of the brand.
pub fn color_name(name: &str, on: bool) -> (r: String)
    ensures
        r@ == shown_name(name@, on),
{
    let padded: String = align_right(name, NAME_WIDTH);
    let hue = if same_text(name, "Binance") {
        Hue::Yellow
    } else if same_text(name, "Coinbase") {
        Hue::Blue
    } else if same_text(name, "Polymarket") {
        Hue::Magenta
    } else if same_text(name, "Mexico") {
        Hue::Cyan
    } else {
        Hue::White
    };
    paint_bold(padded.as_str(), hue, on)
}

/// A text without escape characters is coloured by what stands before and behind it.
pub proof fn lemma_rendering_wraps(text: Seq<char>, codes: Seq<char>)
    requires
        !text.contains('\x1b'),
    ensures
        rendered(text, codes) == styling(codes) + text + reset(),
{
    lemma_restyled_same(text, styling(codes));
}

/// A text without escape characters never ends the styling.
proof fn lemma_restyled_same(text: Seq<char>, style: Seq<char>)
    requires
        !text.contains('\x1b'),
    ensures
        restyled(text, style) == text,
    decreases text.len(),
{
    if text.len() >= 4 {
        reveal_strlit("\x1b[0m");
        assert(text.subrange(0, 4)[0] == text[0]);
        let rest = text.skip(1);
        assert(!rest.contains('\x1b'));
        lemma_restyled_same(rest, style);
    }
}

/// What the environment is taken to say, it was asked.
proof fn lemma_environment_is_asked(on: bool)
    ensures
        environment_says(on) ==> call_ensures(should_colorize, (), on),
{
}

/// Where colours are off a text is left as it is. Where they are on, a text that nowhere ends the
/// styling stands between the sequence that selects the codes and the one that ends all styling.
pub proof fn lemma_styling_encloses(text: Seq<char>, codes: Seq<char>)
    ensures
        styled(text, codes, false) == text,
        (forall|i: int| 0 <= i <= text.len() - 4 ==> #[trigger] text.subrange(i, i + 4) != "\x1b[0m"@)
            ==> styled(text, codes, true) == "\x1b["@ + codes + "m"@ + text + "\x1b[0m"@,
{
    if forall|i: int|
        0 <= i <= text.len() - 4 ==> #[trigger] text.subrange(i, i + 4) != "\x1b[0m"@ {
        lemma_no_reset(text, styling(codes));
    }
}

/// Where a text ends the styling itself, the styling starts anew behind that place: what follows is
/// shown as it would be alone.
pub proof fn lemma_styling_starts_anew(before: Seq<char>, behind: Seq<char>, codes: Seq<char>)
    requires
        forall|i: int|
            0 <= i < before.len() ==> #[trigger] (before + "\x1b[0m"@).subrange(i, i + 4)
                != "\x1b[0m"@,
    ensures
        styled(before + "\x1b[0m"@ + behind, codes, true) == "\x1b["@ + codes + "m"@ + before
            + "\x1b[0m"@ + styled(behind, codes, true),
{
    lemma_first_reset(before, behind, styling(codes));
    assert(styled(before + "\x1b[0m"@ + behind, codes, true) =~= "\x1b["@ + codes + "m"@ + before
        + "\x1b[0m"@ + styled(behind, codes, true));
}

/// The codes of the colours, alone and in bold, and of dimmed text.
pub proof fn lemma_codes(hue: Hue)
    ensures
        Hue::Red.code() == "31"@,
        Hue::Green.code() == "32"@,
        Hue::Yellow.code() == "33"@,
        Hue::Blue.code() == "34"@,
        Hue::Magenta.code() == "35"@,
        Hue::Cyan.code() == "36"@,
        Hue::White.code() == "37"@,
        hue.bold_code() == "1;"@ + hue.code(),
        dim_code() == "2"@,
{
}

/// The text of a latency is green where it is fast, yellow where it is fair and red where it is
/// slow, and so is its mark.
pub proof fn lemma_speed_colours(band: Band, on: bool)
    ensures
        band_hue(Band::Fast) == Hue::Green,
        band_hue(Band::Fair) == Hue::Yellow,
        band_hue(Band::Slow) == Hue::Red,
        shown_mark(Band::Fast, on) == styled("●"@, "32"@, on),
        shown_mark(Band::Fair, on) == styled("◉"@, "33"@, on),
        shown_mark(Band::Slow, on) == styled("○"@, "31"@, on),
{
}

/// A text that nowhere ends the styling is not changed.
proof fn lemma_no_reset(text: Seq<char>, style: Seq<char>)
    requires
        forall|i: int|
            0 <= i <= text.len() - 4 ==> #[trigger] text.subrange(i, i + 4) != "\x1b[0m"@,
    ensures
        restyled(text, style) == text,
    decreases text.len(),
{
    if text.len() >= 4 {
        let rest = text.skip(1);
        assert(text.subrange(0int, 0int + 4) != "\x1b[0m"@);
        assert forall|i: int| 0 <= i <= rest.len() - 4 implies #[trigger] rest.subrange(i, i + 4)
            != "\x1b[0m"@ by {
            assert(rest.subrange(i, i + 4) =~= text.subrange(i + 1, i + 1 + 4));
        }
        lemma_no_reset(rest, style);
    }
}

/// The styling starts anew behind the first place that ends it.
proof fn lemma_first_reset(before: Seq<char>, behind: Seq<char>, style: Seq<char>)
    requires
        forall|i: int|
            0 <= i < before.len() ==> #[trigger] (before + "\x1b[0m"@).subrange(i, i + 4)
                != "\x1b[0m"@,
    ensures
        restyled(before + "\x1b[0m"@ + behind, style) == before + "\x1b[0m"@ + style + restyled(
            behind,
            style,
        ),
    decreases before.len(),
{
    reveal_strlit("\x1b[0m");
    let stop = "\x1b[0m"@;
    let text = before + stop + behind;
    if before.len() == 0 {
        assert(text.subrange(0, 4) =~= stop);
        assert(text.skip(4) =~= behind);
        assert(restyled(text, style) =~= before + stop + style + restyled(behind, style));
    } else {
        let rest = before.skip(1);
        assert((before + stop).subrange(0int, 0int + 4) != stop);
        assert(text.subrange(0, 4) =~= (before + stop).subrange(0int, 0int + 4));
        assert forall|i: int| 0 <= i < rest.len() implies #[trigger] (rest + stop).subrange(
            i,
            i + 4,
        ) != stop by {
            assert((rest + stop).subrange(i, i + 4) =~= (before + stop).subrange(i + 1, i + 1 + 4));
        }
        lemma_first_reset(rest, behind, style);
        assert(text.skip(1) =~= rest + stop + behind);
        assert(restyled(text, style) =~= before + stop + style + restyled(behind, style));
    }
}

} // verus!
