//! What the configuration file may say, and the options that come of it.

use vstd::prelude::*;
use vstd::std_specs::hash::spec_hash_map_iter;
use vstd::std_specs::iter::IteratorSpec;
use std::collections::HashMap;
use vstd::string::StringExecFns;
use crate::input::{default_binds, KeyBind, KeyBinds, KeyPress};
use crate::window::Ratio;
use crate::Action;

verus! {

/// A key of the keyboard.
#[derive(Debug, Copy, Clone, Hash, Eq, PartialEq, Structural)]
pub enum Key {
    ArrowDown,
    ArrowLeft,
    ArrowRight,
    ArrowUp,
    Escape,
    Tab,
    Backspace,
    Enter,
    Space,
    Insert,
    Delete,
    Home,
    End,
    PageUp,
    PageDown,
    Num0,
    Num1,
    Num2,
    Num3,
    Num4,
    Num5,
    Num6,
    Num7,
    Num8,
    Num9,
    A,
    B,
    C,
    D,
    E,
    F,
    G,
    H,
    I,
    J,
    K,
    L,
    M,
    N,
    O,
    P,
    Q,
    R,
    S,
    T,
    U,
    V,
    W,
    X,
    Y,
    Z,
}

impl Key {
    /// The place of the key in the list of keys.
    pub open spec fn spec_index(self) -> nat {
        match self {
            Key::ArrowDown => 0,
            Key::ArrowLeft => 1,
            Key::ArrowRight => 2,
            Key::ArrowUp => 3,
            Key::Escape => 4,
            Key::Tab => 5,
            Key::Backspace => 6,
            Key::Enter => 7,
            Key::Space => 8,
            Key::Insert => 9,
            Key::Delete => 10,
            Key::Home => 11,
            Key::End => 12,
            Key::PageUp => 13,
            Key::PageDown => 14,
            Key::Num0 => 15,
            Key::Num1 => 16,
            Key::Num2 => 17,
            Key::Num3 => 18,
            Key::Num4 => 19,
            Key::Num5 => 20,
            Key::Num6 => 21,
            Key::Num7 => 22,
            Key::Num8 => 23,
            Key::Num9 => 24,
            Key::A => 25,
            Key::B => 26,
            Key::C => 27,
            Key::D => 28,
            Key::E => 29,
            Key::F => 30,
            Key::G => 31,
            Key::H => 32,
            Key::I => 33,
            Key::J => 34,
            Key::K => 35,
            Key::L => 36,
            Key::M => 37,
            Key::N => 38,
            Key::O => 39,
            Key::P => 40,
            Key::Q => 41,
            Key::R => 42,
            Key::S => 43,
            Key::T => 44,
            Key::U => 45,
            Key::V => 46,
            Key::W => 47,
            Key::X => 48,
            Key::Y => 49,
            Key::Z => 50,
        }
    }

    /// The place of the key in the list of keys.
    pub fn index(&self) -> (index: u8)
        ensures
            index as nat == self.spec_index(),
            index < KEY_COUNT,
    {
        match self {
            Key::ArrowDown => 0,
            Key::ArrowLeft => 1,
            Key::ArrowRight => 2,
            Key::ArrowUp => 3,
            Key::Escape => 4,
            Key::Tab => 5,
            Key::Backspace => 6,
            Key::Enter => 7,
            Key::Space => 8,
            Key::Insert => 9,
            Key::Delete => 10,
            Key::Home => 11,
            Key::End => 12,
            Key::PageUp => 13,
            Key::PageDown => 14,
            Key::Num0 => 15,
            Key::Num1 => 16,
            Key::Num2 => 17,
            Key::Num3 => 18,
            Key::Num4 => 19,
            Key::Num5 => 20,
            Key::Num6 => 21,
            Key::Num7 => 22,
            Key::Num8 => 23,
            Key::Num9 => 24,
            Key::A => 25,
            Key::B => 26,
            Key::C => 27,
            Key::D => 28,
            Key::E => 29,
            Key::F => 30,
            Key::G => 31,
            Key::H => 32,
            Key::I => 33,
            Key::J => 34,
            Key::K => 35,
            Key::L => 36,
            Key::M => 37,
            Key::N => 38,
            Key::O => 39,
            Key::P => 40,
            Key::Q => 41,
            Key::R => 42,
            Key::S => 43,
            Key::T => 44,
            Key::U => 45,
            Key::V => 46,
            Key::W => 47,
            Key::X => 48,
            Key::Y => 49,
            Key::Z => 50,
        }
    }
}

/// The number of keys.
pub const KEY_COUNT: u8 = 51;

/// Two keys at one place in the list are one key.
pub proof fn lemma_key_index_injective(a: Key, b: Key)
    requires
        a.spec_index() == b.spec_index(),
    ensures
        a == b,
{
}

impl Key {
    /// The key at the place `place` in the list of keys, if the list reaches
    /// that far.
    pub open spec fn spec_at(place: u8) -> Option<Key> {
        match place {
            0 => Some(Key::ArrowDown),
            1 => Some(Key::ArrowLeft),
            2 => Some(Key::ArrowRight),
            3 => Some(Key::ArrowUp),
            4 => Some(Key::Escape),
            5 => Some(Key::Tab),
            6 => Some(Key::Backspace),
            7 => Some(Key::Enter),
            8 => Some(Key::Space),
            9 => Some(Key::Insert),
            10 => Some(Key::Delete),
            11 => Some(Key::Home),
            12 => Some(Key::End),
            13 => Some(Key::PageUp),
            14 => Some(Key::PageDown),
            15 => Some(Key::Num0),
            16 => Some(Key::Num1),
            17 => Some(Key::Num2),
            18 => Some(Key::Num3),
            19 => Some(Key::Num4),
            20 => Some(Key::Num5),
            21 => Some(Key::Num6),
            22 => Some(Key::Num7),
            23 => Some(Key::Num8),
            24 => Some(Key::Num9),
            25 => Some(Key::A),
            26 => Some(Key::B),
            27 => Some(Key::C),
            28 => Some(Key::D),
            29 => Some(Key::E),
            30 => Some(Key::F),
            31 => Some(Key::G),
            32 => Some(Key::H),
            33 => Some(Key::I),
            34 => Some(Key::J),
            35 => Some(Key::K),
            36 => Some(Key::L),
            37 => Some(Key::M),
            38 => Some(Key::N),
            39 => Some(Key::O),
            40 => Some(Key::P),
            41 => Some(Key::Q),
            42 => Some(Key::R),
            43 => Some(Key::S),
            44 => Some(Key::T),
            45 => Some(Key::U),
            46 => Some(Key::V),
            47 => Some(Key::W),
            48 => Some(Key::X),
            49 => Some(Key::Y),
            50 => Some(Key::Z),
            _ => None,
        }
    }

    /// The key at the place `place` in the list of keys, if the list reaches
    /// that far.
    pub fn at(place: u8) -> (key: Option<Key>)
        ensures
            key == Key::spec_at(place),
    {
        match place {
            0 => Some(Key::ArrowDown),
            1 => Some(Key::ArrowLeft),
            2 => Some(Key::ArrowRight),
            3 => Some(Key::ArrowUp),
            4 => Some(Key::Escape),
            5 => Some(Key::Tab),
            6 => Some(Key::Backspace),
            7 => Some(Key::Enter),
            8 => Some(Key::Space),
            9 => Some(Key::Insert),
            10 => Some(Key::Delete),
            11 => Some(Key::Home),
            12 => Some(Key::End),
            13 => Some(Key::PageUp),
            14 => Some(Key::PageDown),
            15 => Some(Key::Num0),
            16 => Some(Key::Num1),
            17 => Some(Key::Num2),
            18 => Some(Key::Num3),
            19 => Some(Key::Num4),
            20 => Some(Key::Num5),
            21 => Some(Key::Num6),
            22 => Some(Key::Num7),
            23 => Some(Key::Num8),
            24 => Some(Key::Num9),
            25 => Some(Key::A),
            26 => Some(Key::B),
            27 => Some(Key::C),
            28 => Some(Key::D),
            29 => Some(Key::E),
            30 => Some(Key::F),
            31 => Some(Key::G),
            32 => Some(Key::H),
            33 => Some(Key::I),
            34 => Some(Key::J),
            35 => Some(Key::K),
            36 => Some(Key::L),
            37 => Some(Key::M),
            38 => Some(Key::N),
            39 => Some(Key::O),
            40 => Some(Key::P),
            41 => Some(Key::Q),
            42 => Some(Key::R),
            43 => Some(Key::S),
            44 => Some(Key::T),
            45 => Some(Key::U),
            46 => Some(Key::V),
            47 => Some(Key::W),
            48 => Some(Key::X),
            49 => Some(Key::Y),
            50 => Some(Key::Z),
            _ => None,
        }
    }
}

/// The key at a place is the key whose place it is.
pub proof fn lemma_key_at(key: Key, place: u8)
    ensures
        Key::spec_at(place) == Some(key) <==> key.spec_index() == place,
{
}

/// The lower-case form of a text: what `str::to_lowercase` makes of it.
pub uninterp spec fn lowercase(text: Seq<char>) -> Seq<char>;

/// `str::to_lowercase`: the lower-case form of `text`.
#[verifier::external_body]
fn to_lowercase(text: &str) -> (lower: String)
    ensures
        lower@ == lowercase(text@),
{
    text.to_lowercase()
}

/// `str::eq`: whether two texts are the same, character by character.
#[verifier::external_body]
fn same_text(a: &str, b: &str) -> (same: bool)
    ensures
        same == (a@ == b@),
{
    a == b
}

/// The key that goes by the lower-case name `name`. Letters and digits go by
/// themselves, the arrows by their direction. `pagedown` is a second name of
/// `Insert`; `Delete` and `PageDown` have no name.
pub open spec fn key_named(name: Seq<char>) -> Option<Key> {
    if name == "a"@ {
        Some(Key::A)
    }     else if name == "b"@ {
        Some(Key::B)
    }     else if name == "c"@ {
        Some(Key::C)
    }     else if name == "d"@ {
        Some(Key::D)
    }     else if name == "e"@ {
        Some(Key::E)
    }     else if name == "f"@ {
        Some(Key::F)
    }     else if name == "g"@ {
        Some(Key::G)
    }     else if name == "h"@ {
        Some(Key::H)
    }     else if name == "i"@ {
        Some(Key::I)
    }     else if name == "j"@ {
        Some(Key::J)
    }     else if name == "k"@ {
        Some(Key::K)
    }     else if name == "l"@ {
        Some(Key::L)
    }     else if name == "m"@ {
        Some(Key::M)
    }     else if name == "n"@ {
        Some(Key::N)
    }     else if name == "o"@ {
        Some(Key::O)
    }     else if name == "p"@ {
        Some(Key::P)
    }     else if name == "q"@ {
        Some(Key::Q)
    }     else if name == "r"@ {
        Some(Key::R)
    }     else if name == "s"@ {
        Some(Key::S)
    }     else if name == "t"@ {
        Some(Key::T)
    }     else if name == "u"@ {
        Some(Key::U)
    }     else if name == "v"@ {
        Some(Key::V)
    }     else if name == "w"@ {
        Some(Key::W)
    }     else if name == "x"@ {
        Some(Key::X)
    }     else if name == "y"@ {
        Some(Key::Y)
    }     else if name == "z"@ {
        Some(Key::Z)
    }     else if name == "0"@ {
        Some(Key::Num0)
    }     else if name == "1"@ {
        Some(Key::Num1)
    }     else if name == "2"@ {
        Some(Key::Num2)
    }     else if name == "3"@ {
        Some(Key::Num3)
    }     else if name == "4"@ {
        Some(Key::Num4)
    }     else if name == "5"@ {
        Some(Key::Num5)
    }     else if name == "6"@ {
        Some(Key::Num6)
    }     else if name == "7"@ {
        Some(Key::Num7)
    }     else if name == "8"@ {
        Some(Key::Num8)
    }     else if name == "9"@ {
        Some(Key::Num9)
    }     else if name == "escape"@ {
        Some(Key::Escape)
    }     else if name == "tab"@ {
        Some(Key::Tab)
    }     else if name == "backspace"@ {
        Some(Key::Backspace)
    }     else if name == "enter"@ {
        Some(Key::Enter)
    }     else if name == "space"@ {
        Some(Key::Space)
    }     else if name == "down"@ {
        Some(Key::ArrowDown)
    }     else if name == "up"@ {
        Some(Key::ArrowUp)
    }     else if name == "left"@ {
        Some(Key::ArrowLeft)
    }     else if name == "right"@ {
        Some(Key::ArrowRight)
    }     else if name == "insert"@ {
        Some(Key::Insert)
    }     else if name == "home"@ {
        Some(Key::Home)
    }     else if name == "end"@ {
        Some(Key::End)
    }     else if name == "pageup"@ {
        Some(Key::PageUp)
    }     else if name == "pagedown"@ {
        Some(Key::Insert)
    } else {
        None
    }
}

/// The name that was given where no key goes by it.
#[derive(Debug)]
pub struct NoMatchingKey(pub String);

impl NoMatchingKey {
    /// The complaint as a sentence.
    pub fn message(&self) -> (text: String)
        ensures
            text@ == "No matching keybind: "@ + self.0@ + " found"@,
    {
        let text = String::from_str("No matching keybind: ");
        let text = text.concat(self.0.as_str());
        text.concat(" found")
    }
}

impl Key {
    /// The key that goes by the lower-case name `name`, if there is one.
    pub fn from_name(name: &str) -> (key: Option<Key>)
        ensures
            key == key_named(name@),
    {
        if same_text(name, "a") {
            Some(Key::A)
        }         else if same_text(name, "b") {
            Some(Key::B)
        }         else if same_text(name, "c") {
            Some(Key::C)
        }         else if same_text(name, "d") {
            Some(Key::D)
        }         else if same_text(name, "e") {
            Some(Key::E)
        }         else if same_text(name, "f") {
            Some(Key::F)
        }         else if same_text(name, "g") {
            Some(Key::G)
        }         else if same_text(name, "h") {
            Some(Key::H)
        }         else if same_text(name, "i") {
            Some(Key::I)
        }         else if same_text(name, "j") {
            Some(Key::J)
        }         else if same_text(name, "k") {
            Some(Key::K)
        }         else if same_text(name, "l") {
            Some(Key::L)
        }         else if same_text(name, "m") {
            Some(Key::M)
        }         else if same_text(name, "n") {
            Some(Key::N)
        }         else if same_text(name, "o") {
            Some(Key::O)
        }         else if same_text(name, "p") {
            Some(Key::P)
        }         else if same_text(name, "q") {
            Some(Key::Q)
        }         else if same_text(name, "r") {
            Some(Key::R)
        }         else if same_text(name, "s") {
            Some(Key::S)
        }         else if same_text(name, "t") {
            Some(Key::T)
        }         else if same_text(name, "u") {
            Some(Key::U)
        }         else if same_text(name, "v") {
            Some(Key::V)
        }         else if same_text(name, "w") {
            Some(Key::W)
        }         else if same_text(name, "x") {
            Some(Key::X)
        }         else if same_text(name, "y") {
            Some(Key::Y)
        }         else if same_text(name, "z") {
            Some(Key::Z)
        }         else if same_text(name, "0") {
            Some(Key::Num0)
        }         else if same_text(name, "1") {
            Some(Key::Num1)
        }         else if same_text(name, "2") {
            Some(Key::Num2)
        }         else if same_text(name, "3") {
            Some(Key::Num3)
        }         else if same_text(name, "4") {
            Some(Key::Num4)
        }         else if same_text(name, "5") {
            Some(Key::Num5)
        }         else if same_text(name, "6") {
            Some(Key::Num6)
        }         else if same_text(name, "7") {
            Some(Key::Num7)
        }         else if same_text(name, "8") {
            Some(Key::Num8)
        }         else if same_text(name, "9") {
            Some(Key::Num9)
        }         else if same_text(name, "escape") {
            Some(Key::Escape)
        }         else if same_text(name, "tab") {
            Some(Key::Tab)
        }         else if same_text(name, "backspace") {
            Some(Key::Backspace)
        }         else if same_text(name, "enter") {
            Some(Key::Enter)
        }         else if same_text(name, "space") {
            Some(Key::Space)
        }         else if same_text(name, "down") {
            Some(Key::ArrowDown)
        }         else if same_text(name, "up") {
            Some(Key::ArrowUp)
        }         else if same_text(name, "left") {
            Some(Key::ArrowLeft)
        }         else if same_text(name, "right") {
            Some(Key::ArrowRight)
        }         else if same_text(name, "insert") {
            Some(Key::Insert)
        }         else if same_text(name, "home") {
            Some(Key::Home)
        }         else if same_text(name, "end") {
            Some(Key::End)
        }         else if same_text(name, "pageup") {
            Some(Key::PageUp)
        }         else if same_text(name, "pagedown") {
            Some(Key::Insert)
        } else {
            None
        }
    }

    /// The key that goes by the name `value`, in whatever case it is written.
    pub fn try_from(value: String) -> (key: Result<Key, NoMatchingKey>)
        ensures
            key == match key_named(lowercase(value@)) {
                Some(found) => Ok::<Key, NoMatchingKey>(found),
                None => Err::<Key, NoMatchingKey>(NoMatchingKey(value)),
            },
    {
        let lower = to_lowercase(value.as_str());
        match Key::from_name(lower.as_str()) {
            Some(found) => Ok(found),
            None => Err(NoMatchingKey(value)),
        }
    }
}

/// A key that is held while another one is pressed.
#[derive(Debug, Clone, Copy, PartialEq, Eq, Structural)]
pub enum Mods {
    Alt,
    Shift,
    Ctrl,
}

/// An action together with the modifiers that have to be held for it.
#[derive(Debug)]
pub struct ConfigAction {
    pub action: Action,
    pub modifiers: Vec<Mods>,
}

/// What the configuration file binds a key to.
#[derive(Debug)]
pub enum ConfigKey {
    /// The action, for the key alone.
    Simple(Action),
    /// The action, for the key with modifiers.
    Detailed(ConfigAction),
}

/// The modifiers of a binding that names none.
pub fn no_mods() -> (mods: Vec<Mods>)
    ensures
        mods@ == Seq::<Mods>::empty(),
{
    Vec::new()
}

/// What the configuration file holds.
#[derive(Debug)]
pub struct FileConfig {
    /// The bindings, each under the place of its key in the list of keys.
    pub binds: HashMap<u8, ConfigKey>,
    pub immediate_posts: Option<bool>,
    pub show_title_bars: Option<bool>,
    pub buffer_amount: Option<usize>,
    pub buffer_ratio: Option<Ratio>,
}

/// The options the reader runs with.
pub struct Options {
    /// The actions that key presses are bound to.
    pub keybinds: KeyBinds,
    /// Whether an item is viewed as soon as it is highlighted.
    pub immediate_posts: bool,
    /// Whether floating panes have a title bar.
    pub show_title_bars: bool,
    /// The number of items around the viewed one whose content is kept.
    pub buffer_amount: usize,
    /// The share of those items that lies ahead of the viewed one.
    pub buffer_ratio: Ratio,
}

/// The fewest items whose content is kept.
pub const MIN_BUFFER: usize = 1;

/// The most items whose content is kept.
pub const MAX_BUFFER: usize = 50;

/// The number of items whose content is kept where the file names none.
pub const DEFAULT_BUFFER: usize = 25;

/// The share, in thousandths, that lies ahead where the file names none.
pub const DEFAULT_RATIO: u16 = 750;

/// The press that a binding of `key` in the configuration file stands for.
pub open spec fn press_of(key: Key, bound: ConfigKey) -> KeyPress {
    match bound {
        ConfigKey::Simple(_) => KeyPress { key, control: false, shift: false, alt: false },
        ConfigKey::Detailed(detail) => KeyPress {
            key,
            control: detail.modifiers@.contains(Mods::Ctrl),
            shift: detail.modifiers@.contains(Mods::Shift),
            alt: detail.modifiers@.contains(Mods::Alt),
        },
    }
}

/// The action that a binding in the configuration file asks for.
pub open spec fn action_of(bound: ConfigKey) -> Action {
    match bound {
        ConfigKey::Simple(action) => action,
        ConfigKey::Detailed(detail) => detail.action,
    }
}

/// The action that the file binds to the press `press`, if it binds one: the
/// file holds a binding for the key of the press, and the binding stands for
/// this very press.
pub open spec fn file_action(binds: Map<u8, ConfigKey>, press: KeyPress) -> Option<Action> {
    let place = press.key.spec_index() as u8;
    if binds.contains_key(place) && press_of(press.key, binds[place]) == press {
        Some(action_of(binds[place]))
    } else {
        None
    }
}

/// The bindings in force once those of the file are laid over the default
/// ones. A binding under a place that is the place of no key binds nothing.
pub open spec fn bound_keys(binds: Map<u8, ConfigKey>) -> Map<KeyPress, Action> {
    Map::new(
        |press: KeyPress|
            file_action(binds, press) is Some || default_binds().contains_key(press),
        |press: KeyPress|
            match file_action(binds, press) {
                Some(action) => action,
                None => default_binds()[press],
            },
    )
}

/// The bindings of the file that the first `count` steps of the walk `walk`
/// through them have met.
spec fn met(walk: Seq<(&u8, &ConfigKey)>, count: int) -> Map<u8, ConfigKey> {
    Map::new(
        |place: u8| exists|i: int| 0 <= i < count && *(#[trigger] walk[i]).0 == place,
        |place: u8| *walk[choose|i: int| 0 <= i < count && *(#[trigger] walk[i]).0 == place].1,
    )
}

/// The number of items to keep that the file's wish comes to.
pub open spec fn buffer_granted(wish: Option<usize>) -> usize {
    match wish {
        None => DEFAULT_BUFFER,
        Some(amount) => if amount < MIN_BUFFER {
            MIN_BUFFER
        } else if amount > MAX_BUFFER {
            MAX_BUFFER
        } else {
            amount
        },
    }
}

/// Whether `wanted` is among `modifiers`.
fn holds_modifier(modifiers: &Vec<Mods>, wanted: Mods) -> (found: bool)
    ensures
        found == modifiers@.contains(wanted),
{
    let mut i: usize = 0;
    while i < modifiers.len()
        invariant
            i <= modifiers.len(),
            forall|j: int| 0 <= j < i ==> modifiers@[j] != wanted,
        decreases modifiers.len() - i,
    {
        if modifiers[i] == wanted {
            return true;
        }
        i += 1;
    }
    false
}

impl Options {
    /// The options that the configuration file asks for. What it leaves open
    /// is filled in: items are not viewed at once, title bars are shown, 25
    /// items are kept, three quarters of them ahead. The number of items kept
    /// is brought into the range from 1 to 50.
    pub fn from(fc: FileConfig) -> (options: Options)
        ensures
            options.keybinds@ == bound_keys(fc.binds@),
            options.immediate_posts == match fc.immediate_posts {
                Some(wish) => wish,
                None => false,
            },
            options.show_title_bars == match fc.show_title_bars {
                Some(wish) => wish,
                None => true,
            },
            options.buffer_amount == buffer_granted(fc.buffer_amount),
            MIN_BUFFER <= options.buffer_amount <= MAX_BUFFER,
            options.buffer_ratio@ == match fc.buffer_ratio {
                Some(wish) => wish@,
                None => DEFAULT_RATIO as nat,
            },
    {
        broadcast use vstd::std_specs::hash::group_hash_axioms;

        let mut keybinds = KeyBinds::default();
        let ghost binds = fc.binds@;
        let ghost walk = spec_hash_map_iter(&fc.binds).remaining();
        let entries = fc.binds.iter();
        proof {
            assert(met(walk, 0) =~= Map::<u8, ConfigKey>::empty());
            assert(keybinds@ =~= bound_keys(met(walk, 0)));
        }
        for entry in steps: entries
            invariant
                steps.seq() == walk,
                walk == spec_hash_map_iter(&fc.binds).remaining(),
                walk.no_duplicates(),
                binds == fc.binds@,
                keybinds@ == bound_keys(met(walk, steps.index() as int)),
        {
            let ghost done = steps.index() as int;
            let ghost before = met(walk, done);
            let ghost after = met(walk, done + 1);
            let place: u8 = *entry.0;
            proof {
                assert(walk[done] == (entry.0, entry.1));
                assert forall|i: int| 0 <= i < walk.len() implies binds.contains_key(
                    *(#[trigger] walk[i]).0,
                ) && binds[*walk[i].0] == *walk[i].1 by {}
                assert forall|i: int| 0 <= i < done implies *(#[trigger] walk[i]).0 != place by {
                    if *walk[i].0 == place {
                        assert(walk[i] == walk[done]);
                    }
                }
                assert(!before.contains_key(place));
                assert(after =~= before.insert(place, *entry.1)) by {
                    assert forall|other: u8| #[trigger]
                        after.contains_key(other) == before.insert(
                            place,
                            *entry.1,
                        ).contains_key(other) by {
                        if before.contains_key(other) {
                            let i = choose|i: int|
                                0 <= i < done && *(#[trigger] walk[i]).0 == other;
                            assert(*walk[i].0 == other);
                        }
                        if other == place {
                            assert(*walk[done].0 == other);
                        }
                    }
                    assert forall|other: u8| after.contains_key(other) implies #[trigger]
                        after[other] == before.insert(place, *entry.1)[other] by {
                        assert(after[other] == binds[other]);
                        if other != place {
                            assert(before[other] == binds[other]);
                        }
                    }
                }
            }
            match Key::at(place) {
                Some(key) => {
                    let bind: KeyBind = match entry.1 {
                        ConfigKey::Simple(_) => KeyBind::basic(key),
                        ConfigKey::Detailed(config) => {
                            let ctrl = holds_modifier(&config.modifiers, Mods::Ctrl);
                            let shift = holds_modifier(&config.modifiers, Mods::Shift);
                            let alt = holds_modifier(&config.modifiers, Mods::Alt);
                            KeyBind::new(key, [ctrl, shift, alt])
                        },
                    };
                    let action: Action = match entry.1 {
                        ConfigKey::Simple(action) => *action,
                        ConfigKey::Detailed(config) => config.action,
                    };
                    let ghost earlier = keybinds@;
                    keybinds.bind(bind, action);
                    proof {
                        lemma_key_at(key, place);
                        assert forall|press: KeyPress| #[trigger]
                            keybinds@.contains_key(press) == bound_keys(after).contains_key(
                                press,
                            ) && (keybinds@.contains_key(press) ==> keybinds@[press]
                                == bound_keys(after)[press]) by {
                            lemma_key_at(press.key, place);
                            assert(earlier.contains_key(press) == bound_keys(
                                before,
                            ).contains_key(press));
                        }
                        assert(keybinds@ =~= bound_keys(after));
                    }
                },
                None => {
                    proof {
                        assert forall|press: KeyPress| #[trigger]
                            bound_keys(after).contains_key(press) == bound_keys(
                                before,
                            ).contains_key(press) && (bound_keys(after).contains_key(press)
                                ==> bound_keys(after)[press] == bound_keys(before)[press]) by {
                            lemma_key_at(press.key, place);
                        }
                        assert(bound_keys(after) =~= bound_keys(before));
                    }
                },
            }
        }
        proof {
            assert(met(walk, walk.len() as int) =~= binds) by {
                assert forall|place: u8| binds.contains_key(place) implies met(
                    walk,
                    walk.len() as int,
                ).contains_key(place) by {
                    assert(walk.contains((&place, &binds[place])));
                    let i = choose|i: int|
                        0 <= i < walk.len() && walk[i] == (&place, &binds[place]);
                    assert(*walk[i].0 == place);
                }
                assert forall|place: u8| #[trigger]
                    met(walk, walk.len() as int).contains_key(place) implies binds.contains_key(
                    place,
                ) && met(walk, walk.len() as int)[place] == binds[place] by {
                    let i = choose|i: int|
                        0 <= i < walk.len() && *(#[trigger] walk[i]).0 == place;
                    assert(binds.contains_key(*walk[i].0));
                }
            }
        }
        let buffer_amount: usize = match fc.buffer_amount {
            None => DEFAULT_BUFFER,
            Some(amount) => if amount < MIN_BUFFER {
                MIN_BUFFER
            } else if amount > MAX_BUFFER {
                MAX_BUFFER
            } else {
                amount
            },
        };
        Options {
            keybinds,
            immediate_posts: match fc.immediate_posts {
                Some(wish) => wish,
                None => false,
            },
            show_title_bars: match fc.show_title_bars {
                Some(wish) => wish,
                None => true,
            },
            buffer_amount,
            buffer_ratio: match fc.buffer_ratio {
                Some(wish) => wish,
                None => Ratio::from_thousandths(DEFAULT_RATIO),
            },
        }
    }
}

} // verus!
