use vstd::prelude::*;

use crate::direction::Direction;
use crate::style::{with_declaration, Style};

verus! {

/// The decimal digit for `d < 10`.
pub open spec fn digit(d: nat) -> char {
    if d == 0 {
        '0'
    } else if d == 1 {
        '1'
    } else if d == 2 {
        '2'
    } else if d == 3 {
        '3'
    } else if d == 4 {
        '4'
    } else if d == 5 {
        '5'
    } else if d == 6 {
        '6'
    } else if d == 7 {
        '7'
    } else if d == 8 {
        '8'
    } else {
        '9'
    }
}

/// `n` in decimal, without leading zeros.
pub open spec fn decimal(n: nat) -> Seq<char>
    decreases n,
{
    if n < 10 {
        seq![digit(n)]
    } else {
        decimal(n / 10) + seq![digit(n % 10)]
    }
}

/// `v` in decimal, with a minus sign when negative.
pub open spec fn signed_decimal(v: int) -> Seq<char> {
    if v < 0 {
        seq!['-'] + decimal((-v) as nat)
    } else {
        decimal(v as nat)
    }
}

/// `v` as a pixel length, such as `-12px`.
pub open spec fn pixels(v: int) -> Seq<char> {
    signed_decimal(v) + seq!['p', 'x']
}

fn digit_text(d: u128) -> (r: &'static str)
    requires
        d < 10,
    ensures
        r@ == seq![digit(d as nat)],
{
    proof {
        reveal_strlit("0");
        reveal_strlit("1");
        reveal_strlit("2");
        reveal_strlit("3");
        reveal_strlit("4");
        reveal_strlit("5");
        reveal_strlit("6");
        reveal_strlit("7");
        reveal_strlit("8");
        reveal_strlit("9");
    }
    if d == 0 {
        "0"
    } else if d == 1 {
        "1"
    } else if d == 2 {
        "2"
    } else if d == 3 {
        "3"
    } else if d == 4 {
        "4"
    } else if d == 5 {
        "5"
    } else if d == 6 {
        "6"
    } else if d == 7 {
        "7"
    } else if d == 8 {
        "8"
    } else {
        "9"
    }
}

fn append_decimal(out: &mut String, n: u128)
    ensures
        final(out)@ == old(out)@ + decimal(n as nat),
    decreases n,
{
    if n >= 10 {
        append_decimal(out, n / 10);
    }
    out.append(digit_text(n % 10));
    assert(old(out)@ + decimal(n as nat) == (if n >= 10 {
        old(out)@ + decimal((n / 10) as nat)
    } else {
        old(out)@
    }) + seq![digit((n % 10) as nat)]);
}

/// `v` as a pixel length, as `pixels` says.
pub fn px(v: i128) -> (r: String)
    ensures
        r@ == pixels(v as int),
{
    let mut out = String::new();
    proof {
        reveal_strlit("-");
        reveal_strlit("px");
    }
    if v < 0 {
        out.append("-");
        let magnitude: u128 = if v == i128::MIN {
            (i128::MAX as u128) + 1
        } else {
            (-v) as u128
        };
        append_decimal(&mut out, magnitude);
    } else {
        append_decimal(&mut out, v as u128);
    }
    out.append("px");
    out
}

fn px_unsigned(v: u128) -> (r: String)
    ensures
        r@ == pixels(v as int),
{
    let mut out = String::new();
    proof {
        reveal_strlit("px");
    }
    append_decimal(&mut out, v);
    out.append("px");
    out
}

/// The style of an item of a sortable list placed at `(x, y)`: absolutely
/// positioned there, and not selectable as text while it is dragged around.
pub fn item_style(x: i128, y: i128) -> (r: Style)
    ensures
        r@ == with_declaration(
            with_declaration(
                with_declaration(
                    with_declaration(
                        with_declaration(
                            with_declaration(
                                with_declaration(
                                    Seq::empty(),
                                    "position"@,
                                    "absolute"@,
                                ),
                                "user-select"@,
                                "none"@,
                            ),
                            "-webkit-user-select"@,
                            "none"@,
                        ),
                        "-moz-user-select"@,
                        "none"@,
                    ),
                    "-ms-user-select"@,
                    "none"@,
                ),
                "left"@,
                pixels(x as int),
            ),
            "top"@,
            pixels(y as int),
        ),
{
    let left = px(x);
    let top = px(y);
    Style::new().with("position", "absolute").with("user-select", "none").with(
        "-webkit-user-select",
        "none",
    ).with("-moz-user-select", "none").with("-ms-user-select", "none").with(
        "left",
        left.as_str(),
    ).with("top", top.as_str())
}

/// The style of a draggable element: its own `base` declarations, then,
/// while it is dragged, absolutely placed with its corner at `origin`,
/// raised above its siblings and with a grabbing cursor; otherwise with a
/// grab cursor.
pub fn draggable_style(base: &str, dragged: bool, origin: (i128, i128)) -> (r: Style)
    ensures
        ({
            let parsed = crate::style::parsed_from(Seq::empty(), base@, 0);
            &&& dragged ==> r@ == with_declaration(
                with_declaration(
                    with_declaration(
                        with_declaration(
                            with_declaration(parsed, "position"@, "absolute"@),
                            "left"@,
                            pixels(origin.0 as int),
                        ),
                        "top"@,
                        pixels(origin.1 as int),
                    ),
                    "z-index"@,
                    "1000"@,
                ),
                "cursor"@,
                "grabbing"@,
            )
            &&& !dragged ==> r@ == with_declaration(parsed, "cursor"@, "grab"@)
        }),
{
    let mut style = Style::new();
    style.parse(base);
    if dragged {
        let left = px(origin.0);
        let top = px(origin.1);
        style.set("position", "absolute");
        style.set("left", left.as_str());
        style.set("top", top.as_str());
        style.set("z-index", "1000");
        style.set("cursor", "grabbing");
    } else {
        style.set("cursor", "grab");
    }
    style
}

/// The style of a sortable list's container: sized to hold its items, then
/// the caller's own `base` declarations, which win.
pub fn container_style(width: u128, height: u128, base: &str) -> (r: Style)
    ensures
        r@ == crate::style::parsed_from(
            with_declaration(
                with_declaration(Seq::empty(), "width"@, pixels(width as int)),
                "height"@,
                pixels(height as int),
            ),
            base@,
            0,
        ),
{
    let w = px_unsigned(width);
    let h = px_unsigned(height);
    let mut style = Style::new().with("width", w.as_str()).with("height", h.as_str());
    style.parse(base);
    style
}

/// The style of a drag area or a drop target: as large as its content,
/// then the caller's own `base` declarations, which win.
pub fn fit_content_style(base: &str) -> (r: Style)
    ensures
        r@ == crate::style::parsed_from(
            with_declaration(
                with_declaration(Seq::empty(), "width"@, "fit-content"@),
                "height"@,
                "fit-content"@,
            ),
            base@,
            0,
        ),
{
    let mut style = Style::new().with("width", "fit-content").with("height", "fit-content");
    style.parse(base);
    style
}

/// The style of a plain list: a flex box running along `direction`.
pub fn list_style(direction: Direction) -> (r: Style)
    ensures
        direction == Direction::Column ==> r@ == with_declaration(
            with_declaration(Seq::empty(), "display"@, "flex"@),
            "flex-direction"@,
            "column"@,
        ),
        direction == Direction::Row ==> r@ == with_declaration(
            with_declaration(Seq::empty(), "display"@, "flex"@),
            "flex-direction"@,
            "row"@,
        ),
{
    let mut style = Style::new();
    style.set("display", "flex");
    style.set("flex-direction", direction.name());
    style
}

} // verus!
