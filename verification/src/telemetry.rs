//! The newest log events, kept for display.

use std::collections::VecDeque;

use vstd::prelude::*;
use vstd::string::*;

use crate::text::same_text;

verus! {

pub const DEFAULT_GUI_LOG_CAPACITY: usize = 1_000;

#[derive(Clone, Copy, Debug, PartialEq, Eq, Structural)]
pub enum LogLevel {
    Trace,
    Debug,
    Info,
    Warn,
    Error,
}

impl LogLevel {
    pub fn as_str(self) -> (name: &'static str)
        ensures
            name@ == match self {
                LogLevel::Trace => "TRACE"@,
                LogLevel::Debug => "DEBUG"@,
                LogLevel::Info => "INFO"@,
                LogLevel::Warn => "WARN"@,
                LogLevel::Error => "ERROR"@,
            },
    {
        match self {
            LogLevel::Trace => "TRACE",
            LogLevel::Debug => "DEBUG",
            LogLevel::Info => "INFO",
            LogLevel::Warn => "WARN",
            LogLevel::Error => "ERROR",
        }
    }
}

/// One log event.
#[derive(Debug, PartialEq, Eq)]
pub struct LogEntry {
    pub sequence: u64,
    pub elapsed_millis: u128,
    pub level: LogLevel,
    pub target: String,
    pub message: String,
}

pub ghost struct EntryView {
    pub sequence: u64,
    pub elapsed_millis: u128,
    pub level: LogLevel,
    pub target: Seq<char>,
    pub message: Seq<char>,
}

impl View for LogEntry {
    type V = EntryView;

    open spec fn view(&self) -> EntryView {
        EntryView {
            sequence: self.sequence,
            elapsed_millis: self.elapsed_millis,
            level: self.level,
            target: self.target@,
            message: self.message@,
        }
    }
}

impl Clone for LogEntry {
    fn clone(&self) -> (copy: LogEntry)
        ensures
            copy == *self,
    {
        LogEntry {
            sequence: self.sequence,
            elapsed_millis: self.elapsed_millis,
            level: self.level,
            target: self.target.clone(),
            message: self.message.clone(),
        }
    }
}

/// Keeps the newest log events, numbered in the order in which they came.
#[derive(Debug)]
pub struct LogBuffer {
    next_sequence: u64,
    capacity: usize,
    entries: VecDeque<LogEntry>,
}

#[verifier::ext_equal]
pub ghost struct BufferView {
    pub next_sequence: u64,
    pub capacity: usize,
    pub entries: Seq<EntryView>,
}

pub open spec fn entry_views(entries: Seq<LogEntry>) -> Seq<EntryView> {
    entries.map_values(|entry: LogEntry| entry@)
}

impl View for LogBuffer {
    type V = BufferView;

    closed spec fn view(&self) -> BufferView {
        BufferView {
            next_sequence: self.next_sequence,
            capacity: self.capacity,
            entries: entry_views(self.entries@),
        }
    }
}

/// The number after `sequence`. The last number is given out again and again.
pub open spec fn following(sequence: u64) -> u64 {
    if sequence < u64::MAX {
        (sequence + 1) as u64
    } else {
        u64::MAX
    }
}

/// What the buffer holds after another event.
pub open spec fn pushed(
    buffer: BufferView,
    elapsed_millis: u128,
    level: LogLevel,
    target: Seq<char>,
    message: Seq<char>,
) -> BufferView {
    let entry = EntryView {
        sequence: buffer.next_sequence,
        elapsed_millis,
        level,
        target,
        message,
    };
    BufferView {
        next_sequence: following(buffer.next_sequence),
        capacity: buffer.capacity,
        entries: if buffer.entries.len() == buffer.capacity {
            buffer.entries.drop_first().push(entry)
        } else {
            buffer.entries.push(entry)
        },
    }
}

/// The buffer holds no more than it has room for, in the order of the numbers.
pub open spec fn is_buffer(buffer: BufferView) -> bool {
    &&& buffer.capacity > 0
    &&& buffer.entries.len() <= buffer.capacity
    &&& forall|i: int|
        0 <= i < buffer.entries.len() ==> (#[trigger] buffer.entries[i]).sequence
            <= buffer.next_sequence
    &&& forall|i: int, j: int|
        0 <= i < j < buffer.entries.len() ==> (#[trigger] buffer.entries[i]).sequence <= (
        #[trigger] buffer.entries[j]).sequence
}

impl LogBuffer {
    #[verifier::type_invariant]
    pub open spec fn is_valid(self) -> bool {
        is_buffer(self@)
    }

    /// An empty buffer for so many events, one at least.
    pub fn new(capacity: usize) -> (buffer: LogBuffer)
        ensures
            buffer@ == (BufferView {
                next_sequence: 1,
                capacity: if capacity > 0 {
                    capacity
                } else {
                    1
                },
                entries: Seq::empty(),
            }),
    {
        let entries: VecDeque<LogEntry> = VecDeque::new();
        assert(entry_views(entries@) =~= Seq::<EntryView>::empty());
        LogBuffer {
            next_sequence: 1,
            capacity: if capacity > 0 {
                capacity
            } else {
                1
            },
            entries,
        }
    }

    /// The events that are kept, the oldest first.
    pub fn snapshot(&self) -> (entries: Vec<LogEntry>)
        ensures
            entry_views(entries@) == self@.entries,
            entries@.len() <= self@.capacity,
    {
        proof {
            use_type_invariant(self);
        }
        let mut entries: Vec<LogEntry> = Vec::new();
        let mut index: usize = 0;
        assert(entry_views(entries@) =~= self@.entries.take(0));
        while index < self.entries.len()
            invariant
                index <= self.entries@.len(),
                entry_views(entries@) == self@.entries.take(index as int),
            decreases self.entries@.len() - index,
        {
            let ghost before = entry_views(entries@);
            entries.push(self.entries[index].clone());
            proof {
                let entry = self@.entries[index as int];
                assert(entry == self.entries@[index as int]@);
                assert(entry_views(entries@) =~= before.push(entry));
                assert(self@.entries.take(index + 1) =~= before.push(entry));
            }
            index += 1;
        }
        assert(self@.entries.take(index as int) =~= self@.entries);
        entries
    }

    /// Forgets the events. Their numbers are not used again.
    pub fn clear(&mut self)
        ensures
            final(self)@ == (BufferView { entries: Seq::empty(), ..old(self)@ }),
    {
        proof {
            use_type_invariant(&*self);
        }
        let entries: VecDeque<LogEntry> = VecDeque::new();
        assert(entry_views(entries@) =~= Seq::<EntryView>::empty());
        self.entries = entries;
    }

    /// Keeps an event. The oldest one makes room where the buffer is full.
    pub fn push(&mut self, elapsed_millis: u128, level: LogLevel, target: String, message: String)
        ensures
            final(self)@ == pushed(old(self)@, elapsed_millis, level, target@, message@),
            is_buffer(final(self)@),
    {
        proof {
            use_type_invariant(&*self);
        }
        let ghost before = self@;
        let ghost expected = pushed(before, elapsed_millis, level, target@, message@);
        let mut buffer = LogBuffer {
            next_sequence: 1,
            capacity: 1,
            entries: empty_entries(),
        };
        std::mem::swap(self, &mut buffer);
        let LogBuffer { next_sequence, capacity, mut entries } = buffer;
        let entry = LogEntry { sequence: next_sequence, elapsed_millis, level, target, message };
        let ghost held = entry_views(entries@);
        if entries.len() == capacity {
            let _ = entries.pop_front();
            assert(entry_views(entries@) =~= held.drop_first());
        }
        let ghost kept = entry_views(entries@);
        entries.push_back(entry);
        proof {
            assert(entry_views(entries@) =~= kept.push(entry@));
            assert(expected.entries == kept.push(entry@));
            assert(expected.next_sequence == following(next_sequence));
        }
        *self = LogBuffer {
            next_sequence: if next_sequence < u64::MAX {
                next_sequence + 1
            } else {
                u64::MAX
            },
            capacity,
            entries,
        };
    }
}

fn empty_entries() -> (entries: VecDeque<LogEntry>)
    ensures
        entry_views(entries@) == Seq::<EntryView>::empty(),
{
    let entries: VecDeque<LogEntry> = VecDeque::new();
    assert(entry_views(entries@) =~= Seq::<EntryView>::empty());
    entries
}

impl Default for LogBuffer {
    fn default() -> (buffer: LogBuffer)
        ensures
            buffer@ == (BufferView {
                next_sequence: 1,
                capacity: DEFAULT_GUI_LOG_CAPACITY,
                entries: Seq::empty(),
            }),
    {
        LogBuffer::new(DEFAULT_GUI_LOG_CAPACITY)
    }
}

/// The text of a log event while its fields come in.
#[derive(Debug, Default)]
pub struct EventText {
    message: Option<String>,
    fields: Vec<String>,
}

pub ghost struct EventTextView {
    pub message: Option<Seq<char>>,
    pub fields: Seq<Seq<char>>,
}

pub open spec fn field_views(fields: Seq<String>) -> Seq<Seq<char>> {
    fields.map_values(|field: String| field@)
}

impl View for EventText {
    type V = EventTextView;

    closed spec fn view(&self) -> EventTextView {
        EventTextView {
            message: match self.message {
                Some(text) => Some(text@),
                None => None,
            },
            fields: field_views(self.fields@),
        }
    }
}

/// Texts with a space between them.
pub open spec fn spaced(texts: Seq<Seq<char>>) -> Seq<char>
    decreases texts.len(),
{
    if texts.len() == 0 {
        Seq::empty()
    } else if texts.len() == 1 {
        texts[0]
    } else {
        spaced(texts.drop_last()) + seq![' '] + texts.last()
    }
}

/// The message, then the other fields.
pub open spec fn event_message(event: EventTextView) -> Seq<char> {
    match event.message {
        Some(message) => if event.fields.len() == 0 {
            message
        } else {
            message + seq![' '] + spaced(event.fields)
        },
        None => spaced(event.fields),
    }
}

impl EventText {
    pub fn new() -> (event: EventText)
        ensures
            event@ == (EventTextView { message: None, fields: Seq::empty() }),
    {
        let fields: Vec<String> = Vec::new();
        assert(field_views(fields@) =~= Seq::<Seq<char>>::empty());
        EventText { message: None, fields }
    }

    /// Takes a field with its value.
    pub fn record(&mut self, field: &str, value: String)
        ensures
            final(self)@ == if field@ == "message"@ {
                EventTextView { message: Some(value@), ..old(self)@ }
            } else {
                EventTextView {
                    fields: old(self)@.fields.push(field@ + seq!['='] + value@),
                    ..old(self)@
                }
            },
    {
        if same_text(field, "message") {
            self.message = Some(value);
        } else {
            let ghost before = self@.fields;
            let mut text = field.to_owned();
            text.push('=');
            text.append(value.as_str());
            assert(text@ =~= field@ + seq!['='] + value@);
            self.fields.push(text);
            assert(self@.fields =~= before.push(field@ + seq!['='] + value@));
        }
    }

    /// The text of the event.
    pub fn finish(self) -> (text: String)
        ensures
            text@ == event_message(self@),
    {
        let fields = join_spaced(&self.fields);
        match self.message {
            Some(message) => {
                if self.fields.len() == 0 {
                    message
                } else {
                    let mut text = message;
                    text.push(' ');
                    text.append(fields.as_str());
                    assert(text@ =~= event_message(self@));
                    text
                }
            },
            None => fields,
        }
    }
}

fn join_spaced(texts: &Vec<String>) -> (text: String)
    ensures
        text@ == spaced(field_views(texts@)),
{
    let ghost views = field_views(texts@);
    let mut text = String::new();
    let mut index: usize = 0;
    assert(views.take(0) =~= Seq::<Seq<char>>::empty());
    while index < texts.len()
        invariant
            index <= texts@.len(),
            views == field_views(texts@),
            text@ == spaced(views.take(index as int)),
        decreases texts@.len() - index,
    {
        proof {
            let longer = views.take(index + 1);
            assert(longer.drop_last() =~= views.take(index as int));
            assert(longer.last() == texts@[index as int]@);
        }
        if index > 0 {
            text.push(' ');
        }
        text.append(texts[index].as_str());
        assert(text@ =~= spaced(views.take(index + 1)));
        index += 1;
    }
    assert(views.take(index as int) =~= views);
    text
}

/// The newest event is kept under the next number, and before it the newest of
/// those that were there, as many as there is room for.
pub proof fn law_the_newest_event_is_kept(
    buffer: BufferView,
    elapsed_millis: u128,
    level: LogLevel,
    target: Seq<char>,
    message: Seq<char>,
)
    requires
        is_buffer(buffer),
    ensures
        ({
            let after = pushed(buffer, elapsed_millis, level, target, message);
            &&& is_buffer(after)
            &&& after.entries.last().message == message
            &&& after.entries.last().sequence == buffer.next_sequence
            &&& after.entries.len() == if buffer.entries.len() < buffer.capacity {
                (buffer.entries.len() + 1) as int
            } else {
                buffer.capacity as int
            }
            &&& forall|i: int|
                1 <= i <= after.entries.len() - 1 ==> #[trigger] after.entries[after.entries.len()
                    - 1 - i] == buffer.entries[buffer.entries.len() - i]
        }),
{
}

/// The buffer after events, given by their messages.
pub open spec fn after_events(buffer: BufferView, messages: Seq<Seq<char>>) -> BufferView
    decreases messages.len(),
{
    if messages.len() == 0 {
        buffer
    } else {
        pushed(
            after_events(buffer, messages.drop_last()),
            0,
            LogLevel::Info,
            Seq::empty(),
            messages.last(),
        )
    }
}

/// A new buffer that took events keeps the last of them, as many as there is room
/// for, in order and numbered from one on as they came.
pub proof fn law_the_last_events_are_kept(
    capacity: usize,
    messages: Seq<Seq<char>>,
)
    requires
        capacity > 0,
        messages.len() < 0xffff_ffff_ffff_ffff,
    ensures
        ({
            let empty = BufferView { next_sequence: 1, capacity, entries: Seq::empty() };
            let after = after_events(empty, messages);
            let count = after.entries.len();
            &&& count == if messages.len() < capacity {
                messages.len() as int
            } else {
                capacity as int
            }
            &&& after.next_sequence == messages.len() + 1
            &&& after.capacity == capacity
            &&& forall|i: int|
                0 <= i < count ==> (#[trigger] after.entries[i]).message == messages[messages.len()
                    - count + i] && after.entries[i].sequence == messages.len() - count + i + 1
        }),
    decreases messages.len(),
{
    let empty = BufferView { next_sequence: 1, capacity, entries: Seq::empty() };
    if messages.len() > 0 {
        let earlier = messages.drop_last();
        law_the_last_events_are_kept(capacity, earlier);
        let before = after_events(empty, earlier);
        let after = after_events(empty, messages);
        let count = after.entries.len();
        assert forall|i: int| 0 <= i < count implies (#[trigger] after.entries[i]).message
            == messages[messages.len() - count + i] && after.entries[i].sequence == messages.len()
            - count + i + 1 by {
            if i < count - 1 {
                if before.entries.len() == capacity {
                    assert(after.entries[i] == before.entries[i + 1]);
                } else {
                    assert(after.entries[i] == before.entries[i]);
                }
            }
        }
    }
}

/// An event with another field reads as before, with a space and the field behind,
/// or as the field alone where there was nothing yet.
pub proof fn law_fields_are_written_one_after_the_other(event: EventTextView, field: Seq<char>)
    ensures
        ({
            let longer = EventTextView { fields: event.fields.push(field), ..event };
            event_message(longer) == if event.message is None && event.fields.len() == 0 {
                field
            } else {
                event_message(event) + seq![' '] + field
            }
        }),
        event_message(EventTextView { message: event.message, fields: Seq::empty() })
            == match event.message {
            Some(message) => message,
            None => Seq::empty(),
        },
{
    let fields = event.fields.push(field);
    assert(fields.drop_last() =~= event.fields);
    assert(fields.last() == field);
    if let Some(message) = event.message {
        if event.fields.len() > 0 {
            assert(message + seq![' '] + spaced(fields) =~= message + seq![' '] + spaced(
                event.fields,
            ) + seq![' '] + field);
        }
    }
}

/// The message of an event comes first, before a space and the fields.
pub proof fn law_messages_come_first(message: Seq<char>, fields: Seq<Seq<char>>)
    requires
        fields.len() > 0,
    ensures
        event_message(EventTextView { message: Some(message), fields }) == message.push(' ')
            + event_message(EventTextView { message: None, fields }),
{
    assert(message + seq![' '] =~= message.push(' '));
}

} // verus!
