//! The HTML snippet generators: the present colour cycle, the ornament
//! state toggle, and the assembly of lockfile checksums into placement
//! divs. Each result is pinned, character for character, to a spec-level
//! concatenation; escaping and transport stay with the caller.

use vstd::prelude::*;
use vstd::string::*;
use crate::package::{checksum_decodes, hex_byte, Package};

verus! {

/// The decimal digit `d` as a character.
pub open spec fn digit_char(d: int) -> char {
    if d == 0 {
        '0'
    } else if d == 1 {
        '1'
    } else if d == 2 {
        '2'
    } else if d == 3 {
        '3'
    } else if d == 4 {
        '4'
    } else if d == 5 {
        '5'
    } else if d == 6 {
        '6'
    } else if d == 7 {
        '7'
    } else if d == 8 {
        '8'
    } else {
        '9'
    }
}

/// `n` written in decimal, without leading zeroes (up to three digits).
pub open spec fn dec_str(n: int) -> Seq<char>
    recommends
        0 <= n < 1000,
{
    if n < 10 {
        seq![digit_char(n)]
    } else if n < 100 {
        seq![digit_char(n / 10), digit_char(n % 10)]
    } else {
        seq![digit_char(n / 100), digit_char((n / 10) % 10), digit_char(n % 10)]
    }
}

fn digit_str(d: u8) -> (s: &'static str)
    requires
        d < 10,
    ensures
        s@.len() == 1,
        s@[0] == digit_char(d as int),
{
    proof {
        reveal_strlit("0");
        reveal_strlit("1");
        reveal_strlit("2");
        reveal_strlit("3");
        reveal_strlit("4");
        reveal_strlit("5");
        reveal_strlit("6");
        reveal_strlit("7");
        reveal_strlit("8");
        reveal_strlit("9");
    }
    match d {
        0 => "0",
        1 => "1",
        2 => "2",
        3 => "3",
        4 => "4",
        5 => "5",
        6 => "6",
        7 => "7",
        8 => "8",
        _ => "9",
    }
}

/// Appends `n` in decimal to `out`.
fn push_dec(n: u8, out: &mut String)
    ensures
        final(out)@ == old(out)@ + dec_str(n as int),
{
    if n < 10 {
        out.append(digit_str(n));
    } else if n < 100 {
        out.append(digit_str(n / 10));
        out.append(digit_str(n % 10));
    } else {
        out.append(digit_str(n / 100));
        out.append(digit_str((n / 10) % 10));
        out.append(digit_str(n % 10));
    }
    proof {
        assert(out@ =~= old(out)@ + dec_str(n as int));
    }
}

/// The colour that follows `c` in the present cycle.
pub open spec fn next_colour(c: Seq<char>) -> Seq<char> {
    if c == "red"@ {
        "blue"@
    } else if c == "blue"@ {
        "purple"@
    } else {
        "red"@
    }
}

/// The present div for colour `c`: its own colour as a class, the next
/// colour of the cycle as the follow-up request.
pub open spec fn present_html(c: Seq<char>) -> Seq<char> {
    "<div class=\"present "@ + c + "\" hx-get=\"/23/present/"@ + next_colour(c)
        + "\" hx-swap=\"outerHTML\"><div class=\"ribbon\"></div><div class=\"ribbon\"></div><div class=\"ribbon\"></div><div class=\"ribbon\"></div></div>"@
}

/// The present snippet, for the three colours of the cycle; nothing for
/// any other path parameter.
pub fn present_div(color: &str) -> (r: Option<String>)
    ensures
        r is Some <==> (color@ == "red"@ || color@ == "blue"@ || color@ == "purple"@),
        r matches Some(h) ==> h@ == present_html(color@),
{
    let c: String = color.to_owned();
    let next: &str = if c == String::from_str("red") {
        "blue"
    } else if c == String::from_str("blue") {
        "purple"
    } else if c == String::from_str("purple") {
        "red"
    } else {
        return None;
    };
    let mut h = String::new();
    h.append("<div class=\"present ");
    h.append(color);
    h.append("\" hx-get=\"/23/present/");
    h.append(next);
    h.append(
        "\" hx-swap=\"outerHTML\"><div class=\"ribbon\"></div><div class=\"ribbon\"></div><div class=\"ribbon\"></div><div class=\"ribbon\"></div></div>",
    );
    proof {
        assert(h@ =~= present_html(color@));
    }
    Some(h)
}

/// The state that follows `s` in the ornament toggle.
pub open spec fn toggled_state(s: Seq<char>) -> Seq<char> {
    if s == "on"@ {
        "off"@
    } else {
        "on"@
    }
}

/// The CSS class of an ornament in state `s`.
pub open spec fn state_class(s: Seq<char>) -> Seq<char> {
    if s == "on"@ {
        "ornament on"@
    } else {
        "ornament"@
    }
}

/// The ornament div for state `s` and (already escaped) name `n`: lit
/// exactly when on, reloading itself in the toggled state after a delay.
pub open spec fn ornament_html(s: Seq<char>, n: Seq<char>) -> Seq<char> {
    "<div class=\""@ + state_class(s) + "\" id=\"ornament"@ + n
        + "\" hx-trigger=\"load delay:2s once\" hx-get=\"/23/ornament/"@ + toggled_state(s) + "/"@
        + n + "\" hx-swap=\"outerHTML\"></div>"@
}

/// The ornament snippet, for the two valid states; nothing otherwise.
/// `escaped_n` is the ornament name as the caller wants it embedded —
/// escaping, like all transport, is the caller's business.
pub fn ornament_div(state: &str, escaped_n: &str) -> (r: Option<String>)
    ensures
        r is Some <==> (state@ == "on"@ || state@ == "off"@),
        r matches Some(h) ==> h@ == ornament_html(state@, escaped_n@),
{
    let s: String = state.to_owned();
    let on: bool = if s == String::from_str("on") {
        true
    } else if s == String::from_str("off") {
        false
    } else {
        return None;
    };
    let mut h = String::new();
    h.append("<div class=\"");
    if on {
        h.append("ornament on");
    } else {
        h.append("ornament");
    }
    h.append("\" id=\"ornament");
    h.append(escaped_n);
    h.append("\" hx-trigger=\"load delay:2s once\" hx-get=\"/23/ornament/");
    if on {
        h.append("off");
    } else {
        h.append("on");
    }
    h.append("/");
    h.append(escaped_n);
    h.append("\" hx-swap=\"outerHTML\"></div>");
    proof {
        assert(h@ =~= ornament_html(state@, escaped_n@));
    }
    Some(h)
}

/// One placement div: the colour and the two pixel offsets a checksum
/// decodes to.
pub open spec fn placement_div(color: Seq<char>, top: u8, left: u8) -> Seq<char> {
    "<div style=\"background-color:"@ + color + ";top:"@ + dec_str(top as int) + "px;left:"@
        + dec_str(left as int) + "px;\"></div>"@
}

/// The placement divs of a whole list of checksums, in order.
pub open spec fn placement_divs(cs: Seq<String>) -> Seq<char>
    decreases cs.len(),
{
    if cs.len() == 0 {
        Seq::empty()
    } else {
        placement_divs(cs.drop_last()) + placement_div(
            seq!['#'] + cs.last()@.subrange(0, 6),
            hex_byte(cs.last()@[6], cs.last()@[7]),
            hex_byte(cs.last()@[8], cs.last()@[9]),
        )
    }
}

/// Renders every checksum's placement div, in order, stopping at the
/// first checksum that does not decode: its index comes back instead,
/// and earlier ones are vouched decodable. An empty list renders as the
/// empty string.
pub fn render_ornaments(checksums: &Vec<String>) -> (r: Result<String, usize>)
    ensures
        r is Ok <==> (forall|i: int|
            0 <= i < checksums@.len() ==> checksum_decodes(checksums@[i]@)),
        r matches Ok(h) ==> h@ == placement_divs(checksums@),
        r matches Err(i) ==> 0 <= i < checksums@.len() && !checksum_decodes(
            checksums@[i as int]@,
        ) && (forall|j: int| 0 <= j < i ==> checksum_decodes(checksums@[j]@)),
{
    let mut html = String::new();
    let n = checksums.len();
    let mut i: usize = 0;
    while i < n
        invariant
            0 <= i <= n,
            n == checksums@.len(),
            forall|j: int| 0 <= j < i ==> checksum_decodes(checksums@[j]@),
            html@ == placement_divs(checksums@.subrange(0, i as int)),
        decreases n - i,
    {
        let pkg = Package { checksum: checksums[i].clone() };
        match pkg.cal() {
            Some((color, top, left)) => {
                html.append("<div style=\"background-color:");
                html.append(color.as_str());
                html.append(";top:");
                push_dec(top, &mut html);
                html.append("px;left:");
                push_dec(left, &mut html);
                html.append("px;\"></div>");
                proof {
                    assert(checksums@.subrange(0, i + 1).drop_last() =~= checksums@.subrange(
                        0,
                        i as int,
                    ));
                    assert(checksums@.subrange(0, i + 1).last() == checksums@[i as int]);
                    assert(html@ =~= placement_divs(checksums@.subrange(0, i + 1)));
                }
            },
            None => {
                return Err(i);
            },
        }
        i += 1;
    }
    proof {
        assert(checksums@.subrange(0, n as int) =~= checksums@);
    }
    Ok(html)
}

} // verus!
