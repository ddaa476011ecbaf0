//! Input and lifecycle events dispatched to engine objects.

use vstd::prelude::*;

verus! {

/// The kind of an event; each kind owns one bit of an [`EventMask`].
#[derive(Debug, Clone, Copy, PartialEq, Eq, Structural, Hash)]
pub enum EventKind {
    Create,
    Update,
    KeyPress,
    KeyRelease,
    CharInput,
    MouseMove,
    MouseScroll,
    MouseButtonPress,
    MouseButtonRelease,
}

/// Number of distinct event kinds.
pub const EVENT_KINDS: usize = 9;

/// Position of the kind's bit in a mask (and of its list in a collection).
pub open spec fn spec_kind_index(kind: EventKind) -> nat {
    match kind {
        EventKind::Create => 0,
        EventKind::Update => 1,
        EventKind::KeyPress => 2,
        EventKind::KeyRelease => 3,
        EventKind::CharInput => 4,
        EventKind::MouseMove => 5,
        EventKind::MouseScroll => 6,
        EventKind::MouseButtonPress => 7,
        EventKind::MouseButtonRelease => 8,
    }
}

/// The kind at a given bit position.
pub open spec fn spec_kind_at(index: nat) -> EventKind {
    if index == 0 {
        EventKind::Create
    } else if index == 1 {
        EventKind::Update
    } else if index == 2 {
        EventKind::KeyPress
    } else if index == 3 {
        EventKind::KeyRelease
    } else if index == 4 {
        EventKind::CharInput
    } else if index == 5 {
        EventKind::MouseMove
    } else if index == 6 {
        EventKind::MouseScroll
    } else if index == 7 {
        EventKind::MouseButtonPress
    } else {
        EventKind::MouseButtonRelease
    }
}

/// The single bit of the kind.
pub open spec fn spec_kind_bit(kind: EventKind) -> u32 {
    match kind {
        EventKind::Create => 0b000000001,
        EventKind::Update => 0b000000010,
        EventKind::KeyPress => 0b000000100,
        EventKind::KeyRelease => 0b000001000,
        EventKind::CharInput => 0b000010000,
        EventKind::MouseMove => 0b000100000,
        EventKind::MouseScroll => 0b001000000,
        EventKind::MouseButtonPress => 0b010000000,
        EventKind::MouseButtonRelease => 0b100000000,
    }
}

impl EventKind {
    /// Position of the kind's bit.
    pub fn index(&self) -> (r: usize)
        ensures
            r == spec_kind_index(*self),
            r < EVENT_KINDS,
    {
        match self {
            EventKind::Create => 0,
            EventKind::Update => 1,
            EventKind::KeyPress => 2,
            EventKind::KeyRelease => 3,
            EventKind::CharInput => 4,
            EventKind::MouseMove => 5,
            EventKind::MouseScroll => 6,
            EventKind::MouseButtonPress => 7,
            EventKind::MouseButtonRelease => 8,
        }
    }

    /// The kind at bit position `index`.
    pub fn from_index(index: usize) -> (r: EventKind)
        requires
            index < EVENT_KINDS,
        ensures
            r == spec_kind_at(index as nat),
            spec_kind_index(r) == index,
    {
        if index == 0 {
            EventKind::Create
        } else if index == 1 {
            EventKind::Update
        } else if index == 2 {
            EventKind::KeyPress
        } else if index == 3 {
            EventKind::KeyRelease
        } else if index == 4 {
            EventKind::CharInput
        } else if index == 5 {
            EventKind::MouseMove
        } else if index == 6 {
            EventKind::MouseScroll
        } else if index == 7 {
            EventKind::MouseButtonPress
        } else {
            EventKind::MouseButtonRelease
        }
    }
}

/// A set of event kinds, stored as bits.
#[derive(Debug, Clone, Copy, PartialEq, Eq, Structural, Hash)]
pub struct EventMask {
    pub bits: u32,
}

impl EventMask {
    /// Whether the mask holds the kind.
    pub open spec fn spec_contains(self, kind: EventKind) -> bool {
        self.bits & spec_kind_bit(kind) != 0
    }

    /// The empty mask.
    pub fn empty() -> (r: EventMask)
        ensures
            r.bits == 0,
    {
        EventMask { bits: 0 }
    }

    /// The mask that holds exactly one kind.
    pub fn of(kind: EventKind) -> (r: EventMask)
        ensures
            r.bits == spec_kind_bit(kind),
    {
        let bits: u32 = match kind {
            EventKind::Create => 0b000000001,
            EventKind::Update => 0b000000010,
            EventKind::KeyPress => 0b000000100,
            EventKind::KeyRelease => 0b000001000,
            EventKind::CharInput => 0b000010000,
            EventKind::MouseMove => 0b000100000,
            EventKind::MouseScroll => 0b001000000,
            EventKind::MouseButtonPress => 0b010000000,
            EventKind::MouseButtonRelease => 0b100000000,
        };
        EventMask { bits }
    }

    /// The union of two masks.
    pub fn union(&self, other: EventMask) -> (r: EventMask)
        ensures
            r.bits == self.bits | other.bits,
    {
        EventMask { bits: self.bits | other.bits }
    }

    /// Whether the mask holds the kind.
    pub fn contains(&self, kind: EventKind) -> (r: bool)
        ensures
            r == self.spec_contains(kind),
    {
        let bit = EventMask::of(kind).bits;
        self.bits & bit != 0
    }
}

/// Mouse buttons.
#[derive(Debug, Clone, Copy, PartialEq, Eq, Structural, Hash)]
pub enum MouseButton {
    Unknown(u32),
    Left,
    Right,
    Middle,
    Special(u8),
}

/// Keyboard keys.
#[derive(Debug, Clone, Copy, PartialEq, Eq, Structural, Hash)]
pub enum KeyCode {
    Unknown(u32, u32),
    // A-Z keys. Always uppercase.
    Latin(char),
    Cyrillic(char),
    Digit(u8),
    // Function keys
    BackSpace,
    Tab,
    Linefeed,
    Clear,
    Return,
    Pause,
    ScrollLock,
    SysReq,
    Escape,
    Delete,
    Home,
    Left,
    Up,
    Right,
    Down,
    PageUp,
    PageDown,
    End,
    Begin,
    WinL,
    WinR,
    App,
    Select,
    Print,
    Execute,
    Insert,
    Undo,
    Redo,
    Menu,
    Find,
    Cancel,
    Help,
    Break,
    ModeSwitch,
    NumLock,
    Function(u8),
    ShiftL,
    ShiftR,
    ControlL,
    ControlR,
    CapsLock,
    ShiftLock,
    MetaL,
    MetaR,
    AltL,
    AltR,
    SuperL,
    SuperR,
    HyperL,
    HyperR,
    Space,
    // Printable keys
    Exclam,
    Quotedbl,
    NumberSign,
    Dollar,
    Percent,
    Ampersand,
    Apostrophe,
    ParenLeft,
    ParenRight,
    Asterisk,
    Plus,
    Comma,
    Minus,
    Period,
    Slash,
    Colon,
    Semicolon,
    Less,
    Equal,
    Greater,
    Question,
    At,
    BracketLeft,
    BracketRight,
    Backslash,
    AsciiCircum,
    Underscore,
    Grave,
    BraceLeft,
    BraceRight,
    Bar,
    Tilde,
    // Keypad keys
    KPSpace,
    KPTab,
    KPEnter,
    KPHome,
    KPLeft,
    KPUp,
    KPRight,
    KPDown,
    KPPageUp,
    KPPageDown,
    KPEnd,
    KPBegin,
    KPInsert,
    KPDelete,
    KPEqual,
    KPMultiply,
    KPAdd,
    KPSeparator,
    KPSubtract,
    KPDecimal,
    KPDivide,
    KPDigit(u8),
}

/// An event delivered to objects. `F` is the scalar type of time deltas
/// and pointer coordinates.
#[derive(Debug, Clone)]
pub enum Event<F> {
    /// Object creation event
    Create,
    /// Delta time in milliseconds
    Update(F),
    KeyPress(KeyCode),
    KeyRelease(KeyCode),
    CharInput(char),
    MouseMove { x: F, y: F },
    MouseScroll { delta_x: F, delta_y: F },
    MouseButtonPress(MouseButton),
    MouseButtonRelease(MouseButton),
}

impl<F> Event<F> {
    /// The kind of the event.
    pub open spec fn spec_event_kind(&self) -> EventKind {
        match self {
            Event::Create => EventKind::Create,
            Event::Update(_) => EventKind::Update,
            Event::KeyPress(_) => EventKind::KeyPress,
            Event::KeyRelease(_) => EventKind::KeyRelease,
            Event::CharInput(_) => EventKind::CharInput,
            Event::MouseMove { .. } => EventKind::MouseMove,
            Event::MouseScroll { .. } => EventKind::MouseScroll,
            Event::MouseButtonPress(_) => EventKind::MouseButtonPress,
            Event::MouseButtonRelease(_) => EventKind::MouseButtonRelease,
        }
    }

    /// The kind of the event.
    pub fn event_kind(&self) -> (r: EventKind)
        ensures
            r == self.spec_event_kind(),
    {
        match self {
            Event::Create => EventKind::Create,
            Event::Update(_) => EventKind::Update,
            Event::KeyPress(_) => EventKind::KeyPress,
            Event::KeyRelease(_) => EventKind::KeyRelease,
            Event::CharInput(_) => EventKind::CharInput,
            Event::MouseMove { .. } => EventKind::MouseMove,
            Event::MouseScroll { .. } => EventKind::MouseScroll,
            Event::MouseButtonPress(_) => EventKind::MouseButtonPress,
            Event::MouseButtonRelease(_) => EventKind::MouseButtonRelease,
        }
    }

    /// The single-kind mask of the event.
    pub fn kind(&self) -> (r: EventMask)
        ensures
            r.bits == spec_kind_bit(self.spec_event_kind()),
    {
        EventMask::of(self.event_kind())
    }
}

/// Every event has the kind of the same name, whatever it carries: an
/// update is an update, a key release a key release, a button release a
/// button release, and so on for each of them.
pub proof fn law_event_kind_by_variant<F>()
    ensures
        Event::<F>::Create.spec_event_kind() == EventKind::Create,
        forall|d: F| #[trigger] Event::Update(d).spec_event_kind() == EventKind::Update,
        forall|k: KeyCode| #[trigger] Event::<F>::KeyPress(k).spec_event_kind() == EventKind::KeyPress,
        forall|k: KeyCode| #[trigger] Event::<F>::KeyRelease(k).spec_event_kind() == EventKind::KeyRelease,
        forall|c: char| #[trigger] Event::<F>::CharInput(c).spec_event_kind() == EventKind::CharInput,
        forall|x: F, y: F| #[trigger] (Event::MouseMove { x, y }).spec_event_kind() == EventKind::MouseMove,
        forall|x: F, y: F|
            #[trigger] (Event::MouseScroll { delta_x: x, delta_y: y }).spec_event_kind()
                == EventKind::MouseScroll,
        forall|b: MouseButton|
            #[trigger] Event::<F>::MouseButtonPress(b).spec_event_kind() == EventKind::MouseButtonPress,
        forall|b: MouseButton|
            #[trigger] Event::<F>::MouseButtonRelease(b).spec_event_kind() == EventKind::MouseButtonRelease,
{
}

/// Kinds are told apart: each has its own index below `EVENT_KINDS`,
/// which numbers it back, and its own bit, so that the mask of one kind
/// holds that kind and no other.
pub proof fn law_kinds_distinct(a: EventKind, b: EventKind)
    ensures
        spec_kind_index(a) < EVENT_KINDS,
        spec_kind_at(spec_kind_index(a)) == a,
        a != b ==> spec_kind_index(a) != spec_kind_index(b),
        a != b ==> spec_kind_bit(a) & spec_kind_bit(b) == 0,
        spec_kind_bit(a) != 0,
        (spec_kind_bit(a) & spec_kind_bit(b) != 0) == (a == b),
{
    assert(1u32 << 0u32 == 1u32 && 1u32 << 1u32 == 2u32 && 1u32 << 2u32 == 4u32 && 1u32 << 3u32 == 8u32
        && 1u32 << 4u32 == 16u32 && 1u32 << 5u32 == 32u32 && 1u32 << 6u32 == 64u32 && 1u32 << 7u32
        == 128u32 && 1u32 << 8u32 == 256u32) by (bit_vector);
    let i: u32 = spec_kind_index(a) as u32;
    let j: u32 = spec_kind_index(b) as u32;
    assert(spec_kind_bit(a) == 1u32 << i);
    assert(spec_kind_bit(b) == 1u32 << j);
    assert(forall|x: u32, y: u32|
        x < 9 && y < 9 ==> (((1u32 << x) & (1u32 << y) != 0) <==> x == y)) by (bit_vector);
    assert(((1u32 << i) & (1u32 << j) != 0) <==> i == j);
}

} // verus!
