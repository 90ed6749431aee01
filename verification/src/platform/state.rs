//! The keys and buttons that are held down.

use vstd::prelude::*;

use crate::domain::input::{
    ButtonAction, InputEvent, InputKind, KeyAction, MouseButton, PhysicalKey,
};

verus! {

/// The keys and buttons that are held down, each once.
#[derive(Debug)]
pub struct HeldInput {
    keys: Vec<PhysicalKey>,
    buttons: Vec<MouseButton>,
}

#[verifier::ext_equal]
pub ghost struct HeldView {
    pub keys: Set<PhysicalKey>,
    pub buttons: Set<MouseButton>,
}

impl View for HeldInput {
    type V = HeldView;

    closed spec fn view(&self) -> HeldView {
        HeldView { keys: self.keys@.to_set(), buttons: self.buttons@.to_set() }
    }
}

/// What is held down after an event.
pub open spec fn held_after(held: HeldView, event: InputEvent) -> HeldView {
    match event.kind {
        InputKind::Key { key, action } => HeldView {
            keys: if action == KeyAction::Release {
                held.keys.remove(key)
            } else {
                held.keys.insert(key)
            },
            ..held
        },
        InputKind::PointerButton { button, action } => HeldView {
            buttons: if action == ButtonAction::Release {
                held.buttons.remove(button)
            } else {
                held.buttons.insert(button)
            },
            ..held
        },
        InputKind::PointerRelative { .. }
        | InputKind::PointerAbsolute(_)
        | InputKind::Scroll(_) => held,
    }
}

/// What is held down after a series of events.
pub open spec fn held_after_all(held: HeldView, events: Seq<InputEvent>) -> HeldView
    decreases events.len(),
{
    if events.len() == 0 {
        held
    } else {
        held_after(held_after_all(held, events.drop_last()), events.last())
    }
}

/// The event releases something that is held down.
pub open spec fn is_release(held: HeldView, elapsed_micros: u64, event: InputEvent) -> bool {
    event.elapsed_micros == elapsed_micros && match event.kind {
        InputKind::Key { key, action } => action == KeyAction::Release && held.keys.contains(key),
        InputKind::PointerButton { button, action } => action == ButtonAction::Release
            && held.buttons.contains(button),
        _ => false,
    }
}

/// `events` release everything that is held down: every key once, then every
/// button once.
pub open spec fn releases_all(
    events: Seq<InputEvent>,
    held: HeldView,
    elapsed_micros: u64,
) -> bool {
    &&& events.no_duplicates()
    &&& forall|event: InputEvent| #[trigger]
        events.contains(event) <==> is_release(held, elapsed_micros, event)
    &&& forall|i: int, j: int|
        0 <= i < j < events.len() && (#[trigger] events[j]).kind is Key ==> (
        #[trigger] events[i]).kind is Key
}

impl HeldInput {
    #[verifier::type_invariant]
    closed spec fn holds_each_once(self) -> bool {
        self.keys@.no_duplicates() && self.buttons@.no_duplicates()
    }

    pub fn new() -> (held: HeldInput)
        ensures
            held@ == (HeldView { keys: Set::empty(), buttons: Set::empty() }),
    {
        let held = HeldInput { keys: Vec::new(), buttons: Vec::new() };
        assert(held@ =~= HeldView { keys: Set::empty(), buttons: Set::empty() });
        held
    }

    /// Takes an event into account.
    pub fn observe(&mut self, event: InputEvent)
        ensures
            final(self)@ == held_after(old(self)@, event),
    {
        proof {
            use_type_invariant(&*self);
        }
        match event.kind {
            InputKind::Key { key, action } => {
                let keys = match action {
                    KeyAction::Press | KeyAction::Repeat { .. } => with_key(&self.keys, key),
                    KeyAction::Release => without_key(&self.keys, key),
                };
                self.keys = keys;
            },
            InputKind::PointerButton { button, action } => {
                let buttons = match action {
                    ButtonAction::Press => with_button(&self.buttons, button),
                    ButtonAction::Release => without_button(&self.buttons, button),
                };
                self.buttons = buttons;
            },
            InputKind::PointerRelative { .. }
            | InputKind::PointerAbsolute(_)
            | InputKind::Scroll(_) => {},
        }
    }

    /// The events that release everything that is held down. Nothing is held
    /// down then.
    pub fn release_all(&mut self, elapsed_micros: u64) -> (releases: Vec<InputEvent>)
        ensures
            releases_all(releases@, old(self)@, elapsed_micros),
            releases@.len() == old(self)@.keys.len() + old(self)@.buttons.len(),
            final(self)@ == (HeldView { keys: Set::empty(), buttons: Set::empty() }),
    {
        proof {
            use_type_invariant(&*self);
        }
        let ghost held = self@;
        let ghost keys = self.keys@;
        let ghost buttons = self.buttons@;
        let mut releases: Vec<InputEvent> = Vec::new();
        let mut index: usize = 0;
        while index < self.keys.len()
            invariant
                index <= self.keys@.len(),
                keys == self.keys@,
                releases@.len() == index,
                forall|i: int|
                    0 <= i < index ==> #[trigger] releases@[i] == key_release(
                        keys[i],
                        elapsed_micros,
                    ),
            decreases self.keys@.len() - index,
        {
            let key = self.keys[index];
            releases.push(
                InputEvent {
                    elapsed_micros,
                    kind: InputKind::Key { key, action: KeyAction::Release },
                },
            );
            index += 1;
        }
        let mut index: usize = 0;
        while index < self.buttons.len()
            invariant
                index <= self.buttons@.len(),
                buttons == self.buttons@,
                releases@.len() == keys.len() + index,
                forall|i: int|
                    0 <= i < keys.len() ==> #[trigger] releases@[i] == key_release(
                        keys[i],
                        elapsed_micros,
                    ),
                forall|i: int|
                    keys.len() <= i < keys.len() + index ==> #[trigger] releases@[i]
                        == button_release(buttons[i - keys.len()], elapsed_micros),
            decreases self.buttons@.len() - index,
        {
            let button = self.buttons[index];
            releases.push(
                InputEvent {
                    elapsed_micros,
                    kind: InputKind::PointerButton { button, action: ButtonAction::Release },
                },
            );
            index += 1;
        }
        proof {
            lemma_releases(releases@, keys, buttons, elapsed_micros);
            keys.unique_seq_to_set();
            buttons.unique_seq_to_set();
        }
        *self = HeldInput::new();
        releases
    }
}

impl Default for HeldInput {
    fn default() -> (held: HeldInput)
        ensures
            held@ == (HeldView { keys: Set::empty(), buttons: Set::empty() }),
    {
        HeldInput::new()
    }
}

pub open spec fn key_release(key: PhysicalKey, elapsed_micros: u64) -> InputEvent {
    InputEvent { elapsed_micros, kind: InputKind::Key { key, action: KeyAction::Release } }
}

pub open spec fn button_release(button: MouseButton, elapsed_micros: u64) -> InputEvent {
    InputEvent {
        elapsed_micros,
        kind: InputKind::PointerButton { button, action: ButtonAction::Release },
    }
}

proof fn lemma_releases(
    releases: Seq<InputEvent>,
    keys: Seq<PhysicalKey>,
    buttons: Seq<MouseButton>,
    elapsed_micros: u64,
)
    requires
        keys.no_duplicates(),
        buttons.no_duplicates(),
        releases.len() == keys.len() + buttons.len(),
        forall|i: int|
            0 <= i < keys.len() ==> #[trigger] releases[i] == key_release(keys[i], elapsed_micros),
        forall|i: int|
            keys.len() <= i < releases.len() ==> #[trigger] releases[i] == button_release(
                buttons[i - keys.len()],
                elapsed_micros,
            ),
    ensures
        releases_all(
            releases,
            HeldView { keys: keys.to_set(), buttons: buttons.to_set() },
            elapsed_micros,
        ),
{
    let held = HeldView { keys: keys.to_set(), buttons: buttons.to_set() };
    assert forall|event: InputEvent| #[trigger]
        releases.contains(event) <==> is_release(held, elapsed_micros, event) by {
        if releases.contains(event) {
            let i = choose|i: int| 0 <= i < releases.len() && releases[i] == event;
            if i < keys.len() {
                assert(keys.contains(keys[i]));
            } else {
                assert(buttons.contains(buttons[i - keys.len()]));
            }
        }
        if is_release(held, elapsed_micros, event) {
            match event.kind {
                InputKind::Key { key, action } => {
                    assert(keys.contains(key));
                    let i = choose|i: int| 0 <= i < keys.len() && keys[i] == key;
                    assert(releases[i] == event);
                },
                InputKind::PointerButton { button, action } => {
                    assert(buttons.contains(button));
                    let i = choose|i: int| 0 <= i < buttons.len() && buttons[i] == button;
                    assert(releases[keys.len() + i] == event);
                },
                _ => {},
            }
        }
    }
    assert forall|i: int, j: int| 0 <= i < j < releases.len() implies releases[i]
        != releases[j] by {
        if j < keys.len() {
            assert(keys[i] != keys[j]);
        } else if i >= keys.len() {
            assert(buttons[i - keys.len()] != buttons[j - keys.len()]);
        }
    }
}

fn with_key(keys: &Vec<PhysicalKey>, key: PhysicalKey) -> (longer: Vec<PhysicalKey>)
    requires
        keys@.no_duplicates(),
    ensures
        longer@.no_duplicates(),
        longer@.to_set() == keys@.to_set().insert(key),
{
    let mut longer = without_key(keys, key);
    let ghost before = longer@;
    longer.push(key);
    proof {
        lemma_pushed_once(before, key);
        assert forall|other: PhysicalKey| #[trigger]
            longer@.to_set().contains(other) <==> keys@.to_set().insert(key).contains(other) by {
            assert(before.to_set().contains(other) <==> before.contains(other));
            assert(longer@.contains(other) <==> before.contains(other) || other == key);
        }
        assert(longer@.to_set() =~= keys@.to_set().insert(key));
    }
    longer
}

fn without_key(keys: &Vec<PhysicalKey>, key: PhysicalKey) -> (shorter: Vec<PhysicalKey>)
    requires
        keys@.no_duplicates(),
    ensures
        shorter@.no_duplicates(),
        shorter@.to_set() == keys@.to_set().remove(key),
        !shorter@.contains(key),
{
    let mut shorter: Vec<PhysicalKey> = Vec::new();
    let mut index: usize = 0;
    while index < keys.len()
        invariant
            index <= keys@.len(),
            keys@.no_duplicates(),
            shorter@.no_duplicates(),
            forall|other: PhysicalKey| #[trigger]
                shorter@.contains(other) <==> keys@.take(index as int).contains(other) && other
                    != key,
        decreases keys@.len() - index,
    {
        let next = keys[index];
        proof {
            lemma_one_more(keys@, index as int);
        }
        if next != key {
            proof {
                lemma_pushed_once(shorter@, next);
            }
            shorter.push(next);
        }
        index += 1;
    }
    proof {
        assert(keys@.take(index as int) =~= keys@);
        assert(shorter@.to_set() =~= keys@.to_set().remove(key));
    }
    shorter
}

fn with_button(buttons: &Vec<MouseButton>, button: MouseButton) -> (longer: Vec<MouseButton>)
    requires
        buttons@.no_duplicates(),
    ensures
        longer@.no_duplicates(),
        longer@.to_set() == buttons@.to_set().insert(button),
{
    let mut longer = without_button(buttons, button);
    let ghost before = longer@;
    longer.push(button);
    proof {
        lemma_pushed_once(before, button);
        assert forall|other: MouseButton| #[trigger]
            longer@.to_set().contains(other) <==> buttons@.to_set().insert(button).contains(
            other,
        ) by {
            assert(before.to_set().contains(other) <==> before.contains(other));
            assert(longer@.contains(other) <==> before.contains(other) || other == button);
        }
        assert(longer@.to_set() =~= buttons@.to_set().insert(button));
    }
    longer
}

fn without_button(buttons: &Vec<MouseButton>, button: MouseButton) -> (shorter: Vec<MouseButton>)
    requires
        buttons@.no_duplicates(),
    ensures
        shorter@.no_duplicates(),
        shorter@.to_set() == buttons@.to_set().remove(button),
        !shorter@.contains(button),
{
    let mut shorter: Vec<MouseButton> = Vec::new();
    let mut index: usize = 0;
    while index < buttons.len()
        invariant
            index <= buttons@.len(),
            buttons@.no_duplicates(),
            shorter@.no_duplicates(),
            forall|other: MouseButton| #[trigger]
                shorter@.contains(other) <==> buttons@.take(index as int).contains(other) && other
                    != button,
        decreases buttons@.len() - index,
    {
        let next = buttons[index];
        proof {
            lemma_one_more(buttons@, index as int);
        }
        if next != button {
            proof {
                lemma_pushed_once(shorter@, next);
            }
            shorter.push(next);
        }
        index += 1;
    }
    proof {
        assert(buttons@.take(index as int) =~= buttons@);
        assert(shorter@.to_set() =~= buttons@.to_set().remove(button));
    }
    shorter
}

proof fn lemma_pushed_once<T>(items: Seq<T>, item: T)
    requires
        items.no_duplicates(),
        !items.contains(item),
    ensures
        items.push(item).no_duplicates(),
        forall|other: T| #[trigger]
            items.push(item).contains(other) <==> items.contains(other) || other == item,
{
    assert forall|other: T| #[trigger]
        items.push(item).contains(other) <==> items.contains(other) || other == item by {
        vstd::seq_lib::lemma_seq_contains_after_push(items, item, other);
    }
}

proof fn lemma_one_more<T>(items: Seq<T>, index: int)
    requires
        items.no_duplicates(),
        0 <= index < items.len(),
    ensures
        !items.take(index).contains(items[index]),
        forall|other: T| #[trigger]
            items.take(index + 1).contains(other) <==> items.take(index).contains(other) || other
                == items[index],
{
    assert(items.take(index + 1) =~= items.take(index).push(items[index]));
    assert forall|other: T| #[trigger]
        items.take(index + 1).contains(other) <==> items.take(index).contains(other) || other
            == items[index] by {
        vstd::seq_lib::lemma_seq_contains_after_push(items.take(index), items[index], other);
    }
}

/// Whoever applies the releases holds nothing down afterwards.
pub proof fn law_releases_leave_nothing_held(
    events: Seq<InputEvent>,
    held: HeldView,
    elapsed_micros: u64,
)
    requires
        releases_all(events, held, elapsed_micros),
    ensures
        held_after_all(held, events) == (HeldView { keys: Set::empty(), buttons: Set::empty() }),
{
    lemma_released_so_far(events, held, elapsed_micros, events.len() as int);
    let after = held_after_all(held, events);
    assert(events.take(events.len() as int) =~= events);
    assert forall|key: PhysicalKey| !after.keys.contains(key) by {
        if held.keys.contains(key) {
            assert(events.contains(key_release(key, elapsed_micros)));
        }
    }
    assert forall|button: MouseButton| !after.buttons.contains(button) by {
        if held.buttons.contains(button) {
            assert(events.contains(button_release(button, elapsed_micros)));
        }
    }
    assert(after =~= HeldView { keys: Set::empty(), buttons: Set::empty() });
}

proof fn lemma_released_so_far(
    events: Seq<InputEvent>,
    held: HeldView,
    elapsed_micros: u64,
    count: int,
)
    requires
        releases_all(events, held, elapsed_micros),
        0 <= count <= events.len(),
    ensures
        forall|key: PhysicalKey| #[trigger]
            held_after_all(held, events.take(count)).keys.contains(key) <==> held.keys.contains(key)
                && !events.take(count).contains(key_release(key, elapsed_micros)),
        forall|button: MouseButton| #[trigger]
            held_after_all(held, events.take(count)).buttons.contains(button)
                <==> held.buttons.contains(button) && !events.take(count).contains(
                button_release(button, elapsed_micros),
            ),
    decreases count,
{
    if count > 0 {
        lemma_released_so_far(events, held, elapsed_micros, count - 1);
        lemma_one_more(events, count - 1);
        assert(events.take(count).drop_last() =~= events.take(count - 1));
        let event = events[count - 1];
        assert(events.contains(event));
        assert(is_release(held, elapsed_micros, event));
        let before = held_after_all(held, events.take(count - 1));
        let after = held_after_all(held, events.take(count));
        assert(after == held_after(before, event));
        assert forall|key: PhysicalKey| #[trigger] after.keys.contains(key) <==> held.keys.contains(
            key,
        ) && !events.take(count).contains(key_release(key, elapsed_micros)) by {
            let release = key_release(key, elapsed_micros);
            assert(before.keys.contains(key) <==> held.keys.contains(key) && !events.take(
                count - 1,
            ).contains(release));
            assert(events.take(count).contains(release) <==> events.take(count - 1).contains(
                release,
            ) || release == event);
        }
        assert forall|button: MouseButton| #[trigger]
            after.buttons.contains(button) <==> held.buttons.contains(button) && !events.take(
                count,
            ).contains(button_release(button, elapsed_micros)) by {
            let release = button_release(button, elapsed_micros);
            assert(before.buttons.contains(button) <==> held.buttons.contains(button)
                && !events.take(count - 1).contains(release));
            assert(events.take(count).contains(release) <==> events.take(count - 1).contains(
                release,
            ) || release == event);
        }
    }
}

} // verus!
