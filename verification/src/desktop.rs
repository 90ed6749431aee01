//! The desktop entry that starts the program, and the icon in the tray.

use vstd::prelude::*;
use vstd::string::*;

use crate::text::chars_of;

verus! {

/// The name of the desktop entry.
pub const AUTOSTART_NAME: &'static str = "tevir.desktop";

pub const ICON_SIDE: usize = 32;

/// What was chosen in the tray.
#[derive(Clone, Copy, Debug, PartialEq, Eq, Structural)]
pub enum TrayAction {
    Show,
    ReturnControl,
    Quit,
}

/// Inside the quotes of a command these stand for something else.
pub open spec fn is_reserved(character: char) -> bool {
    character == '\\' || character == '"' || character == '`' || character == '$'
}

/// A text with a backslash before every reserved character.
pub open spec fn escaped(text: Seq<char>) -> Seq<char>
    decreases text.len(),
{
    if text.len() == 0 {
        Seq::empty()
    } else {
        let earlier = escaped(text.drop_last());
        if is_reserved(text.last()) {
            earlier.push('\\').push(text.last())
        } else {
            earlier.push(text.last())
        }
    }
}

/// The path of an executable as it stands in quotes in a desktop entry.
pub fn escape_desktop_exec(executable: &str) -> (text: String)
    ensures
        text@ == escaped(executable@),
{
    let characters = chars_of(executable);
    let mut text = String::new();
    let mut index: usize = 0;
    while index < characters.len()
        invariant
            characters@ == executable@,
            index <= characters@.len(),
            text@ == escaped(executable@.take(index as int)),
        decreases characters@.len() - index,
    {
        proof {
            let longer = executable@.take(index + 1);
            assert(longer.drop_last() =~= executable@.take(index as int));
        }
        let character = characters[index];
        if character == '\\' || character == '"' || character == '`' || character == '$' {
            text.push('\\');
        }
        text.push(character);
        index += 1;
    }
    assert(executable@.take(index as int) =~= executable@);
    text
}

/// The desktop entry that starts an executable with the session.
pub fn linux_autostart_entry(executable: &str) -> (entry: String)
    ensures
        entry@
            == "[Desktop Entry]\nType=Application\nName=Tevir\nComment=Network keyboard and pointer sharing\nExec=\""@
            + escaped(executable@) + "\"\nTerminal=false\nX-GNOME-Autostart-enabled=true\n"@,
{
    let mut entry =
        "[Desktop Entry]\nType=Application\nName=Tevir\nComment=Network keyboard and pointer sharing\nExec=\"".to_owned();
    entry.append(escape_desktop_exec(executable).as_str());
    entry.append("\"\nTerminal=false\nX-GNOME-Autostart-enabled=true\n");
    entry
}

pub open spec fn distance_from_center(coordinate: int) -> int {
    if coordinate < 16 {
        16 - coordinate
    } else {
        coordinate - 16
    }
}

/// The square of the distance of a pixel from the center of the icon.
pub open spec fn radius_squared(x: int, y: int) -> int {
    distance_from_center(x) * distance_from_center(x) + distance_from_center(y)
        * distance_from_center(y)
}

/// The pixel belongs to the letter on the icon.
pub open spec fn is_letter(x: int, y: int) -> bool {
    (7 <= x <= 24 && 8 <= y <= 12) || (14 <= x <= 18 && 8 <= y <= 24)
}

/// The color of a pixel: a letter on a disc with a border, and nothing around
/// it.
pub open spec fn pixel(x: int, y: int) -> Seq<u8> {
    if radius_squared(x, y) > 225 {
        seq![0u8, 0, 0, 0]
    } else if is_letter(x, y) {
        seq![231u8, 234, 232, 255]
    } else if radius_squared(x, y) >= 169 {
        seq![50u8, 185, 164, 255]
    } else {
        seq![28u8, 31, 32, 255]
    }
}

/// The icon, row by row, four bytes for each pixel.
pub open spec fn icon(count: nat) -> Seq<u8>
    decreases count,
{
    if count == 0 {
        Seq::empty()
    } else {
        let last = (count - 1) as nat;
        icon(last) + pixel((last % 32) as int, (last / 32) as int)
    }
}

fn from_center(coordinate: usize) -> (distance: usize)
    requires
        coordinate < 32,
    ensures
        distance == distance_from_center(coordinate as int),
        distance <= 16,
{
    if coordinate < 16 {
        16 - coordinate
    } else {
        coordinate - 16
    }
}

fn color(x: usize, y: usize) -> (color: [u8; 4])
    requires
        x < 32,
        y < 32,
    ensures
        color@ == pixel(x as int, y as int),
{
    let dx: usize = from_center(x);
    let dy: usize = from_center(y);
    assert(0 <= dx * dx <= 256 && 0 <= dy * dy <= 256) by (nonlinear_arith)
        requires
            0 <= dx <= 16,
            0 <= dy <= 16,
    ;
    let radius: usize = dx * dx + dy * dy;
    let color: [u8; 4] = if radius > 225 {
        [0, 0, 0, 0]
    } else if (x >= 7 && x <= 24 && y >= 8 && y <= 12) || (x >= 14 && x <= 18 && y >= 8 && y
        <= 24) {
        [231, 234, 232, 255]
    } else if radius >= 169 {
        [50, 185, 164, 255]
    } else {
        [28, 31, 32, 255]
    };
    assert(color@ =~= pixel(x as int, y as int));
    color
}

/// The icon in the tray.
pub fn tray_icon() -> (rgba: Vec<u8>)
    ensures
        rgba@ == icon(1024),
{
    let mut rgba: Vec<u8> = Vec::new();
    let mut count: usize = 0;
    while count < ICON_SIDE * ICON_SIDE
        invariant
            count <= 1024,
            rgba@ == icon(count as nat),
        decreases 1024 - count,
    {
        let color = color(count % ICON_SIDE, count / ICON_SIDE);
        rgba.push(color[0]);
        rgba.push(color[1]);
        rgba.push(color[2]);
        rgba.push(color[3]);
        assert(rgba@ =~= icon((count + 1) as nat));
        count += 1;
    }
    rgba
}

/// Every reserved character of an escaped text stands behind a backslash, so
/// that nothing in it ends the quotes.
pub proof fn law_escaped_texts_stay_quoted(text: Seq<char>, i: int)
    requires
        0 <= i < escaped(text).len(),
        escaped(text)[i] == '"' || escaped(text)[i] == '`' || escaped(text)[i] == '$',
    ensures
        i > 0 && escaped(text)[i - 1] == '\\',
    decreases text.len(),
{
    let earlier = escaped(text.drop_last());
    if i < earlier.len() {
        assert(earlier[i] == escaped(text)[i]);
        law_escaped_texts_stay_quoted(text.drop_last(), i);
        assert(earlier[i - 1] == escaped(text)[i - 1]);
    }
}

/// A text with the backslashes taken out that stand before another character.
pub open spec fn unescaped(text: Seq<char>) -> Seq<char>
    decreases text.len(),
{
    if text.len() == 0 {
        Seq::empty()
    } else if text[0] == '\\' && text.len() > 1 {
        seq![text[1]] + unescaped(text.skip(2))
    } else {
        seq![text[0]] + unescaped(text.skip(1))
    }
}

proof fn lemma_escaped_from_the_start(text: Seq<char>)
    requires
        text.len() > 0,
    ensures
        escaped(text) == (if text[0] == '\\' || text[0] == '"' || text[0] == '`' || text[0] == '$' {
            seq!['\\', text[0]]
        } else {
            seq![text[0]]
        }) + escaped(text.skip(1)),
    decreases text.len(),
{
    let front = if text[0] == '\\' || text[0] == '"' || text[0] == '`' || text[0] == '$' {
        seq!['\\', text[0]]
    } else {
        seq![text[0]]
    };
    if text.len() == 1 {
        assert(text.drop_last() =~= Seq::<char>::empty());
        assert(text.skip(1) =~= Seq::<char>::empty());
        assert(escaped(text) =~= front + escaped(text.skip(1)));
    } else {
        lemma_escaped_from_the_start(text.drop_last());
        assert(text.drop_last().skip(1) =~= text.skip(1).drop_last());
        assert(text.drop_last()[0] == text[0]);
        assert(text.skip(1).last() == text.last());
        assert(escaped(text) =~= front + escaped(text.skip(1)));
    }
}

/// A text is what remains of its escaped form once the backslashes are taken out.
pub proof fn law_escaped_texts_are_read_back(text: Seq<char>)
    ensures
        unescaped(escaped(text)) == text,
    decreases text.len(),
{
    if text.len() > 0 {
        let rest = text.skip(1);
        lemma_escaped_from_the_start(text);
        law_escaped_texts_are_read_back(rest);
        let whole = escaped(text);
        if is_reserved(text[0]) {
            assert(whole.skip(2) =~= escaped(rest));
        } else {
            assert(whole.skip(1) =~= escaped(rest));
        }
        assert(seq![text[0]] + rest =~= text);
    }
}

/// A character that needs no backslash gets none.
pub proof fn law_plain_texts_are_not_escaped(text: Seq<char>)
    requires
        forall|i: int|
            0 <= i < text.len() ==> #[trigger] text[i] != '\\' && text[i] != '"' && text[i] != '`'
                && text[i] != '$',
    ensures
        escaped(text) == text,
    decreases text.len(),
{
    if text.len() > 0 {
        law_plain_texts_are_not_escaped(text.drop_last());
        assert(text[text.len() - 1] == text.last());
        assert(text.drop_last().push(text.last()) =~= text);
    } else {
        assert(escaped(text) =~= text);
    }
}

/// The icon has four bytes for each pixel, row by row in rows of 32.
pub proof fn law_icons_are_drawn_row_by_row(count: nat, x: int, y: int, part: int)
    requires
        0 <= x < 32,
        0 <= y,
        0 <= part < 4,
        32 * y + x < count,
    ensures
        icon(count).len() == 4 * count,
        icon(count)[4 * (32 * y + x) + part] == pixel(x, y)[part],
    decreases count,
{
    let last = (count - 1) as nat;
    lemma_icon_length(last);
    let at = 32 * y + x;
    if at == last {
        assert(last % 32 == x && last / 32 == y);
    } else {
        law_icons_are_drawn_row_by_row(last, x, y, part);
    }
}

proof fn lemma_icon_length(count: nat)
    ensures
        icon(count).len() == 4 * count,
    decreases count,
{
    if count > 0 {
        lemma_icon_length((count - 1) as nat);
    }
}

/// The icon is as it is seen in a mirror between left and right, but for its first
/// column, which is empty.
pub proof fn law_icons_are_symmetric(x: int, y: int)
    requires
        1 <= x < 32,
        0 <= y < 32,
    ensures
        radius_squared(x, y) == radius_squared(32 - x, y),
        radius_squared(x, y) == radius_squared(y, x),
        pixel(0, y) == seq![0u8, 0, 0, 0],
        pixel(x, y)[3] == 0 || pixel(x, y)[3] == 255,
        pixel(x, y)[3] == 255 <==> (x - 16) * (x - 16) + (y - 16) * (y - 16) <= 225,
{
    assert((x - 16) * (x - 16) == distance_from_center(x) * distance_from_center(x)) by (
    nonlinear_arith)
        requires
            distance_from_center(x) == x - 16 || distance_from_center(x) == 16 - x,
    ;
    assert((y - 16) * (y - 16) == distance_from_center(y) * distance_from_center(y)) by (
    nonlinear_arith)
        requires
            distance_from_center(y) == y - 16 || distance_from_center(y) == 16 - y,
    ;
    assert(distance_from_center(y) * distance_from_center(y) >= 0) by (nonlinear_arith);
    assert(distance_from_center(0) * distance_from_center(0) == 256);
}

/// The icon shows the bars of a letter, one lying across the upper part and one
/// standing below its middle, as bright as nothing else on it.
pub proof fn law_icons_show_a_letter(x: int, y: int, u: int, v: int)
    requires
        0 <= x < 32,
        0 <= y < 32,
        0 <= u < 32,
        0 <= v < 32,
        (x - 16) * (x - 16) + (y - 16) * (y - 16) <= 225,
        (u - 16) * (u - 16) + (v - 16) * (v - 16) <= 225,
    ensures
        ({
            let lying = 7 <= x && x <= 24 && 8 <= y && y <= 12;
            let standing = 14 <= x && x <= 18 && 8 <= y && y <= 24;
            &&& pixel(x, y) == seq![231u8, 234, 232, 255] <==> lying || standing
            &&& !is_letter(x, y) && !is_letter(u, v) && (x - 16) * (x - 16) + (y - 16) * (y - 16)
                < 169 && (u - 16) * (u - 16) + (v - 16) * (v - 16) >= 169 ==> pixel(x, y)
                == seq![28u8, 31, 32, 255] && pixel(u, v) == seq![50u8, 185, 164, 255]
        }),
{
    lemma_radius(x, y);
    lemma_radius(u, v);
    assert(seq![231u8, 234, 232, 255][0] == 231);
    assert(seq![28u8, 31, 32, 255][0] == 28);
    assert(seq![50u8, 185, 164, 255][0] == 50);
}

proof fn lemma_radius(x: int, y: int)
    ensures
        radius_squared(x, y) == (x - 16) * (x - 16) + (y - 16) * (y - 16),
{
    assert((x - 16) * (x - 16) == distance_from_center(x) * distance_from_center(x)) by (
    nonlinear_arith)
        requires
            distance_from_center(x) == x - 16 || distance_from_center(x) == 16 - x,
    ;
    assert((y - 16) * (y - 16) == distance_from_center(y) * distance_from_center(y)) by (
    nonlinear_arith)
        requires
            distance_from_center(y) == y - 16 || distance_from_center(y) == 16 - y,
    ;
}

} // verus!
