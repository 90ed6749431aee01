//! Texts of the window.

use vstd::prelude::*;
use vstd::string::*;

use crate::config::{Config, Role};
use crate::domain::display::DisplayRotation;
use crate::domain::host::HostPlatform;
use crate::encoding::hex_group_text;
use crate::text::{chars_of, push_decimal, push_decimal_u128, text_of};

verus! {

/// The number of bytes of a fingerprint that are shown.
pub const SHOWN_FINGERPRINT_BYTES: usize = 12;

/// A number in decimal, with zeros before it up to this width.
pub open spec fn padded(value: nat, width: nat) -> Seq<char> {
    let digits = crate::text::decimal(value);
    if digits.len() < width {
        Seq::new((width - digits.len()) as nat, |i: int| '0') + digits
    } else {
        digits
    }
}

fn push_padded(text: &mut String, value: u128, width: usize)
    ensures
        final(text)@ == old(text)@ + padded(value as nat, width as nat),
{
    let mut digits = String::new();
    push_decimal_u128(&mut digits, value);
    assert(digits@ =~= crate::text::decimal(value as nat));
    let characters = chars_of(digits.as_str());
    let count: usize = characters.len();
    let ghost before = text@;
    let mut filled: usize = count;
    while filled < width
        invariant
            count == crate::text::decimal(value as nat).len(),
            count <= filled,
            filled <= width || filled == count,
            text@ == before + Seq::new((filled - count) as nat, |i: int| '0'),
        decreases width - filled,
    {
        text.push('0');
        filled += 1;
        assert(text@ =~= before + Seq::new((filled - count) as nat, |i: int| '0'));
    }
    text.append(digits.as_str());
    assert(text@ =~= before + padded(value as nat, width as nat));
}

/// A time since the start: minutes, seconds and milliseconds.
pub open spec fn elapsed_text(millis: nat) -> Seq<char> {
    "+"@ + padded(millis / 60_000, 2) + ":"@ + padded((millis / 1_000) % 60, 2) + "."@ + padded(
        millis % 1_000,
        3,
    )
}

pub fn format_elapsed(elapsed_millis: u128) -> (text: String)
    ensures
        text@ == elapsed_text(elapsed_millis as nat),
{
    let mut text = "+".to_owned();
    push_padded(&mut text, elapsed_millis / 60_000, 2);
    text.append(":");
    push_padded(&mut text, (elapsed_millis / 1_000) % 60, 2);
    text.append(".");
    push_padded(&mut text, elapsed_millis % 1_000, 3);
    text
}

/// Two colons stand at this place.
pub open spec fn is_separator(text: Seq<char>, place: int) -> bool {
    0 <= place && place + 1 < text.len() && text[place] == ':' && text[place + 1] == ':'
}

/// `place` is where the first part of a path ends.
pub open spec fn is_part_end(text: Seq<char>, place: int) -> bool {
    &&& 0 <= place <= text.len()
    &&& place == text.len() || is_separator(text, place)
    &&& forall|i: int| 0 <= i < place ==> !#[trigger] is_separator(text, i)
}

/// The first part of the path of a log target.
pub fn component_target(target: &str) -> (component: String)
    ensures
        exists|end: int| #[trigger] is_part_end(target@, end) && component@ == target@.take(end),
{
    let characters = chars_of(target);
    let mut part: Vec<char> = Vec::new();
    let mut end: usize = 0;
    while end < characters.len() && !(characters.len() - end > 1 && characters[end] == ':'
        && characters[end + 1] == ':')
        invariant
            characters@ == target@,
            end <= characters@.len(),
            part@ == target@.take(end as int),
            forall|i: int| 0 <= i < end ==> !#[trigger] is_separator(target@, i),
        decreases characters@.len() - end,
    {
        part.push(characters[end]);
        assert(part@ =~= target@.take(end + 1));
        end += 1;
    }
    assert(is_part_end(target@, end as int));
    text_of(&part)
}

/// The beginning of a fingerprint, in groups of two bytes.
pub fn format_fingerprint(fingerprint: &[u8; 32]) -> (text: String)
    ensures
        text@ == crate::encoding::hex_groups(fingerprint@.take(SHOWN_FINGERPRINT_BYTES as int)),
{
    hex_group_text(fingerprint, SHOWN_FINGERPRINT_BYTES)
}

pub open spec fn platform_text(platform: HostPlatform) -> Seq<char> {
    match platform {
        HostPlatform::LinuxWayland => "Linux Wayland"@,
        HostPlatform::Windows => "Windows"@,
    }
}

pub fn platform_label(platform: HostPlatform) -> (label: &'static str)
    ensures
        label@ == platform_text(platform),
{
    match platform {
        HostPlatform::LinuxWayland => "Linux Wayland",
        HostPlatform::Windows => "Windows",
    }
}

/// Texts with a comma between them.
pub open spec fn joined(texts: Seq<Seq<char>>) -> Seq<char>
    decreases texts.len(),
{
    if texts.len() == 0 {
        Seq::empty()
    } else if texts.len() == 1 {
        texts[0]
    } else {
        joined(texts.drop_last()) + ", "@ + texts.last()
    }
}

/// The platform of a discovered node and the addresses that it is found at.
pub fn format_discovered_node(platform: HostPlatform, addresses: &Vec<String>) -> (text: String)
    ensures
        text@ == platform_text(platform) + " | "@ + if addresses@.len() == 0 {
            "address pending"@
        } else {
            joined(addresses@.map_values(|address: String| address@))
        },
{
    let mut text = platform_label(platform).to_owned();
    text.append(" | ");
    if addresses.len() == 0 {
        text.append("address pending");
        return text;
    }
    let ghost prefix = text@;
    let ghost views = addresses@.map_values(|address: String| address@);
    text.append(addresses[0].as_str());
    let mut index: usize = 1;
    proof {
        assert(views.take(1)[0] == addresses@[0]@);
        assert(text@ =~= prefix + joined(views.take(1)));
    }
    while index < addresses.len()
        invariant
            1 <= index <= addresses@.len(),
            views == addresses@.map_values(|address: String| address@),
            text@ == prefix + joined(views.take(index as int)),
        decreases addresses@.len() - index,
    {
        text.append(", ");
        text.append(addresses[index].as_str());
        proof {
            let longer = views.take(index + 1);
            assert(longer.drop_last() =~= views.take(index as int));
            assert(longer.last() == addresses@[index as int]@);
            assert(text@ =~= prefix + joined(longer));
        }
        index += 1;
    }
    assert(views.take(index as int) =~= views);
    text
}

pub open spec fn rotation_text(rotation: DisplayRotation) -> Seq<char> {
    match rotation {
        DisplayRotation::Normal => "landscape"@,
        DisplayRotation::Clockwise90 => "90 degrees"@,
        DisplayRotation::Clockwise180 => "180 degrees"@,
        DisplayRotation::Clockwise270 => "270 degrees"@,
    }
}

pub fn rotation_label(rotation: DisplayRotation) -> (label: &'static str)
    ensures
        label@ == rotation_text(rotation),
{
    match rotation {
        DisplayRotation::Normal => "landscape",
        DisplayRotation::Clockwise90 => "90 degrees",
        DisplayRotation::Clockwise180 => "180 degrees",
        DisplayRotation::Clockwise270 => "270 degrees",
    }
}

/// A text that is cut off where it has more than `maximum` characters.
pub open spec fn shortened(text: Seq<char>, maximum: nat) -> Seq<char> {
    if text.len() <= maximum {
        text
    } else if maximum <= 3 {
        "..."@
    } else {
        text.take(maximum - 3) + "..."@
    }
}

/// A text that fits where at most `maximum` characters do.
pub fn canvas_label(value: &str, maximum: usize) -> (label: String)
    ensures
        label@ == shortened(value@, maximum as nat),
{
    let characters = chars_of(value);
    if characters.len() <= maximum {
        return value.to_owned();
    }
    if maximum <= 3 {
        return "...".to_owned();
    }
    let mut label = value.substring_char(0, maximum - 3).to_owned();
    label.append("...");
    assert(value@.subrange(0, maximum - 3) =~= value@.take(maximum - 3));
    label
}

/// A number of things, with an s where it is not one.
pub open spec fn counted(count: nat, thing: Seq<char>) -> Seq<char> {
    crate::text::decimal(count) + " "@ + thing + if count == 1 {
        Seq::empty()
    } else {
        "s"@
    }
}

/// Appends a number of things.
pub fn push_counted(text: &mut String, count: u64, thing: &str)
    ensures
        final(text)@ == old(text)@ + counted(count as nat, thing@),
{
    push_decimal(text, count);
    text.append(" ");
    text.append(thing);
    if count != 1 {
        text.append("s");
    }
    assert(text@ =~= old(text)@ + counted(count as nat, thing@));
}

pub open spec fn summary_text(config: crate::config::ConfigView) -> Seq<char> {
    match config.role {
        crate::config::RoleView::Controller { listen, screens, edge_behavior } => "Controller "@
            + config.node + " | "@ + listen + " | "@ + crate::text::decimal(screens.len())
            + " screens"@,
        crate::config::RoleView::Agent { controller_node, controller, layout } => "Agent "@
            + config.node + " | controller "@ + controller_node + " at "@ + controller,
    }
}

/// A configuration in one line.
pub fn config_summary(config: &Config) -> (text: String)
    ensures
        text@ == summary_text(config@),
{
    let mut text = String::new();
    match &config.role {
        Role::Controller { listen, topology, edge_behavior: _ } => {
            text.append("Controller ");
            text.append(config.node.as_str());
            text.append(" | ");
            text.append(listen.as_str());
            text.append(" | ");
            push_decimal(&mut text, topology.screens().len() as u64);
            text.append(" screens");
        },
        Role::Agent { controller_node, controller, display_layout: _ } => {
            text.append("Agent ");
            text.append(config.node.as_str());
            text.append(" | controller ");
            text.append(controller_node.as_str());
            text.append(" at ");
            text.append(controller.as_str());
        },
    }
    assert(text@ =~= summary_text(config@));
    text
}

} // verus!
