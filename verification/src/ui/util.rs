//! Key bindings read from the configuration, the launch counter stored as
//! four little-endian bytes, and the search modes offered by launcher
//! aliases.
use vstd::prelude::*;

use crate::errors::{ErrorKindView, SherlockError, SherlockErrorType};
use crate::loader::util::{cache_file_path, cache_path, is_no_cache_home_error, opt_str};
use crate::table::KeyedTable;
use crate::text::{
    ascii_upper, find_char, find_from, is_ascii_alpha, lower_seq, owned, push_char, same_text,
    strings_view, to_ascii_lowercase, upper_char,
};

verus! {

// ---------------------------------------------------------------------------
// Keys and modifiers
// ---------------------------------------------------------------------------
/// A key that can be bound to an action of the launcher.
#[derive(Clone, Copy, Debug, PartialEq, Eq, Structural)]
pub enum BindKey {
    Tab,
    Up,
    Down,
    Left,
    Right,
    PageUp,
    PageDown,
    End,
    Home,
    /// A lower-case ASCII letter.
    Letter(char),
}

/// A modifier key held together with a bound key.
#[derive(Clone, Copy, Debug, PartialEq, Eq, Structural)]
pub enum Modifier {
    Shift,
    Lock,
    Control,
    Meta,
    Alt,
    Super,
    Hyper,
}

/// The key and its displayed symbol named by a (lower-case) key name.
pub open spec fn key_named(k: Seq<char>) -> Option<(BindKey, Seq<char>)> {
    if k == "tab"@ {
        Some((BindKey::Tab, "\u{21e5}"@))
    } else if k == "up"@ {
        Some((BindKey::Up, "\u{2191}"@))
    } else if k == "down"@ {
        Some((BindKey::Down, "\u{2193}"@))
    } else if k == "left"@ {
        Some((BindKey::Left, "\u{2190}"@))
    } else if k == "right"@ {
        Some((BindKey::Right, "\u{2192}"@))
    } else if k == "pgup"@ {
        Some((BindKey::PageUp, "\u{21de}"@))
    } else if k == "pgdown"@ {
        Some((BindKey::PageDown, "\u{21df}"@))
    } else if k == "end"@ {
        Some((BindKey::End, "End"@))
    } else if k == "home"@ {
        Some((BindKey::Home, "Home"@))
    } else if k.len() == 1 && is_ascii_alpha(k[0]) {
        Some((BindKey::Letter(k[0]), seq![upper_char(k[0])]))
    } else {
        None
    }
}

/// The key and symbol that a key name (in any case) stands for.
pub open spec fn key_binding(name: Seq<char>) -> (Option<BindKey>, Option<Seq<char>>) {
    match key_named(lower_seq(name)) {
        Some((k, sym)) => (Some(k), Some(sym)),
        None => (None, None),
    }
}

/// The modifier named by a modifier name (lower case only).
pub open spec fn modifier_named(m: Seq<char>) -> Option<Modifier> {
    if m == "shift"@ {
        Some(Modifier::Shift)
    } else if m == "control"@ {
        Some(Modifier::Control)
    } else if m == "alt"@ {
        Some(Modifier::Alt)
    } else if m == "super"@ {
        Some(Modifier::Super)
    } else if m == "lock"@ {
        Some(Modifier::Lock)
    } else if m == "hypr"@ {
        Some(Modifier::Hyper)
    } else if m == "meta"@ {
        Some(Modifier::Meta)
    } else {
        None
    }
}

/// What a binding such as `control-tab` stands for: the part before the
/// first `-` names the modifier and the part after it, up to a further `-`,
/// names the key; a binding without `-` names a key alone.
pub open spec fn combination(b: Seq<char>) -> (Option<Modifier>, (Option<BindKey>, Option<Seq<char>>)) {
    let d = find_from(b, '-', 0);
    if d < b.len() {
        (
            modifier_named(b.subrange(0, d)),
            key_binding(b.subrange(d + 1, find_from(b, '-', d + 1))),
        )
    } else {
        (None, key_binding(b))
    }
}

/// A key result with its symbol as characters.
pub open spec fn key_view(r: (Option<BindKey>, Option<String>)) -> (Option<BindKey>, Option<Seq<char>>) {
    (r.0, opt_str(r.1))
}

/// The position of a modifier's symbol among the eight modifier symbols.
pub open spec fn modifier_slot(m: Option<Modifier>) -> int {
    match m {
        Some(Modifier::Shift) => 0,
        Some(Modifier::Lock) => 1,
        Some(Modifier::Control) => 2,
        Some(Modifier::Meta) => 3,
        Some(Modifier::Alt) => 4,
        Some(Modifier::Super) => 5,
        Some(Modifier::Hyper) => 6,
        None => 7,
    }
}

/// The parts of the user's configuration that the key bindings read: the
/// bindings for the previous and next entry, the context menu and the
/// shortcut modifier, and the eight modifier symbols.
pub struct KeyConfig {
    pub prev: Option<String>,
    pub next: Option<String>,
    pub context: Option<String>,
    pub modifier: Option<String>,
    pub mod_key_ascii: Vec<String>,
}

/// A key configuration with its strings as characters.
pub struct KeyConfigView {
    pub prev: Option<Seq<char>>,
    pub next: Option<Seq<char>>,
    pub context: Option<Seq<char>>,
    pub modifier: Option<Seq<char>>,
    pub mod_key_ascii: Seq<Seq<char>>,
}

impl View for KeyConfig {
    type V = KeyConfigView;

    open spec fn view(&self) -> KeyConfigView {
        KeyConfigView {
            prev: opt_str(self.prev),
            next: opt_str(self.next),
            context: opt_str(self.context),
            modifier: opt_str(self.modifier),
            mod_key_ascii: strings_view(self.mod_key_ascii@),
        }
    }
}

/// The view of an optional key configuration.
pub open spec fn opt_config(c: Option<&KeyConfig>) -> Option<KeyConfigView> {
    match c {
        Some(k) => Some(k@),
        None => None,
    }
}

/// The modifier symbols in use: the configured ones when there are exactly
/// eight, else the fallback ones.
pub open spec fn symbols_in_use(config: Option<KeyConfigView>, fallback: Seq<Seq<char>>) -> Seq<
    Seq<char>,
> {
    match config {
        Some(c) => if c.mod_key_ascii.len() == 8 {
            c.mod_key_ascii
        } else {
            fallback
        },
        None => fallback,
    }
}

/// The symbol shown for a modifier: its entry among the symbols in use, or
/// `modkey` when there is no such entry.
pub open spec fn modifier_symbol(
    m: Option<Modifier>,
    config: Option<KeyConfigView>,
    fallback: Seq<Seq<char>>,
) -> Seq<char> {
    let symbols = symbols_in_use(config, fallback);
    if modifier_slot(m) < symbols.len() {
        symbols[modifier_slot(m)]
    } else {
        "modkey"@
    }
}

/// The key bindings of the launcher.
pub struct ConfKeys {
    pub next: Option<BindKey>,
    pub next_mod: Option<Modifier>,
    pub prev: Option<BindKey>,
    pub prev_mod: Option<Modifier>,
    pub context: Option<BindKey>,
    pub context_mod: Option<Modifier>,
    pub context_str: Option<String>,
    pub context_mod_str: String,
    pub shortcut_modifier: Option<Modifier>,
    pub shortcut_modifier_str: String,
}

/// Key bindings with their strings as characters.
pub struct ConfKeysView {
    pub next: Option<BindKey>,
    pub next_mod: Option<Modifier>,
    pub prev: Option<BindKey>,
    pub prev_mod: Option<Modifier>,
    pub context: Option<BindKey>,
    pub context_mod: Option<Modifier>,
    pub context_str: Option<Seq<char>>,
    pub context_mod_str: Seq<char>,
    pub shortcut_modifier: Option<Modifier>,
    pub shortcut_modifier_str: Seq<char>,
}

impl View for ConfKeys {
    type V = ConfKeysView;

    open spec fn view(&self) -> ConfKeysView {
        ConfKeysView {
            next: self.next,
            next_mod: self.next_mod,
            prev: self.prev,
            prev_mod: self.prev_mod,
            context: self.context,
            context_mod: self.context_mod,
            context_str: opt_str(self.context_str),
            context_mod_str: self.context_mod_str@,
            shortcut_modifier: self.shortcut_modifier,
            shortcut_modifier_str: self.shortcut_modifier_str@,
        }
    }
}

/// Bindings with nothing bound and no symbols.
pub open spec fn no_keys() -> ConfKeysView {
    ConfKeysView {
        next: None,
        next_mod: None,
        prev: None,
        prev_mod: None,
        context: None,
        context_mod: None,
        context_str: None,
        context_mod_str: Seq::empty(),
        shortcut_modifier: None,
        shortcut_modifier_str: Seq::empty(),
    }
}

/// What an optional binding stands for; no binding binds nothing.
pub open spec fn bound(b: Option<Seq<char>>) -> (Option<Modifier>, (Option<BindKey>, Option<Seq<char>>)) {
    match b {
        Some(s) => combination(s),
        None => (None, (None, None)),
    }
}

/// The key bindings that a configuration (or none) gives.
pub open spec fn keys_of(config: Option<KeyConfigView>, fallback: Seq<Seq<char>>) -> ConfKeysView {
    match config {
        None => no_keys(),
        Some(c) => {
            let prev = bound(c.prev);
            let next = bound(c.next);
            let context = bound(c.context);
            let shortcut = match c.modifier {
                Some(m) => modifier_named(m),
                None => Some(Modifier::Control),
            };
            ConfKeysView {
                next: next.1.0,
                next_mod: next.0,
                prev: prev.1.0,
                prev_mod: prev.0,
                context: context.1.0,
                context_mod: context.0,
                context_str: context.1.1,
                context_mod_str: modifier_symbol(context.0, config, fallback),
                shortcut_modifier: shortcut,
                shortcut_modifier_str: modifier_symbol(shortcut, config, fallback),
            }
        },
    }
}

impl ConfKeys {
    /// The key bindings of a configuration: each binding is read as a
    /// modifier and key; the shortcut modifier defaults to Control; the
    /// symbols of the context and shortcut modifiers come from the configured
    /// symbols, else from `default_mod_strings`. Without a configuration
    /// nothing is bound.
    pub fn new(config: Option<&KeyConfig>, default_mod_strings: &Vec<String>) -> (r: ConfKeys)
        ensures
            r@ == keys_of(opt_config(config), strings_view(default_mod_strings@)),
    {
        match config {
            Some(c) => {
                let (prev_mod, prev) = match &c.prev {
                    Some(p) => ConfKeys::eval_bind_combination(p.as_str()),
                    None => (None, (None, None)),
                };
                let (next_mod, next) = match &c.next {
                    Some(n) => ConfKeys::eval_bind_combination(n.as_str()),
                    None => (None, (None, None)),
                };
                let (context_mod, context) = match &c.context {
                    Some(x) => ConfKeys::eval_bind_combination(x.as_str()),
                    None => (None, (None, None)),
                };
                let shortcut_modifier = match &c.modifier {
                    Some(m) => ConfKeys::eval_mod(m.as_str()),
                    None => Some(Modifier::Control),
                };
                let shortcut_modifier_str = ConfKeys::get_mod_str(
                    &shortcut_modifier,
                    config,
                    default_mod_strings,
                );
                let context_mod_str = ConfKeys::get_mod_str(
                    &context_mod,
                    config,
                    default_mod_strings,
                );
                ConfKeys {
                    next: next.0,
                    next_mod,
                    prev: prev.0,
                    prev_mod,
                    context: context.0,
                    context_mod,
                    context_str: context.1,
                    context_mod_str,
                    shortcut_modifier,
                    shortcut_modifier_str,
                }
            },
            None => ConfKeys::empty(),
        }
    }

    /// Bindings with nothing bound and empty modifier symbols.
    pub fn empty() -> (r: ConfKeys)
        ensures
            r@ == no_keys(),
    {
        ConfKeys {
            next: None,
            next_mod: None,
            prev: None,
            prev_mod: None,
            context: None,
            context_mod: None,
            context_mod_str: String::new(),
            context_str: None,
            shortcut_modifier: None,
            shortcut_modifier_str: String::new(),
        }
    }

    /// Reads a binding such as `control-tab`: the modifier before the first
    /// `-` and the key after it; a binding without `-` is a key alone.
    pub fn eval_bind_combination(key: &str) -> (r: (Option<Modifier>, (Option<BindKey>, Option<String>)))
        ensures
            (r.0, key_view(r.1)) == combination(key@),
    {
        let n = key.unicode_len();
        let d = find_char(key, '-', 0);
        if d < n {
            let m = key.substring_char(0, d);
            let e = find_char(key, '-', d + 1);
            proof {
                crate::text::lemma_find_from(key@, '-', d + 1);
            }
            let k = key.substring_char(d + 1, e);
            (ConfKeys::eval_mod(m), ConfKeys::eval_key(k))
        } else {
            (None, ConfKeys::eval_key(key))
        }
    }

    /// The key a key name stands for, in any case, with the symbol shown for
    /// it: the arrow and paging keys, Tab, End, Home, or a single letter
    /// (shown in upper case).
    pub fn eval_key(key: &str) -> (r: (Option<BindKey>, Option<String>))
        ensures
            key_view(r) == key_binding(key@),
    {
        let lower = to_ascii_lowercase(key);
        let k = lower.as_str();
        if same_text(k, "tab") {
            (Some(BindKey::Tab), Some(owned("\u{21e5}")))
        } else if same_text(k, "up") {
            (Some(BindKey::Up), Some(owned("\u{2191}")))
        } else if same_text(k, "down") {
            (Some(BindKey::Down), Some(owned("\u{2193}")))
        } else if same_text(k, "left") {
            (Some(BindKey::Left), Some(owned("\u{2190}")))
        } else if same_text(k, "right") {
            (Some(BindKey::Right), Some(owned("\u{2192}")))
        } else if same_text(k, "pgup") {
            (Some(BindKey::PageUp), Some(owned("\u{21de}")))
        } else if same_text(k, "pgdown") {
            (Some(BindKey::PageDown), Some(owned("\u{21df}")))
        } else if same_text(k, "end") {
            (Some(BindKey::End), Some(owned("End")))
        } else if same_text(k, "home") {
            (Some(BindKey::Home), Some(owned("Home")))
        } else if k.unicode_len() == 1 && is_letter(k.get_char(0)) {
            let c = k.get_char(0);
            let mut shown = String::new();
            push_char(&mut shown, ascii_upper(c));
            (Some(BindKey::Letter(c)), Some(shown))
        } else {
            (None, None)
        }
    }

    /// The modifier a modifier name stands for (lower case only).
    pub fn eval_mod(key: &str) -> (r: Option<Modifier>)
        ensures
            r == modifier_named(key@),
    {
        if same_text(key, "shift") {
            Some(Modifier::Shift)
        } else if same_text(key, "control") {
            Some(Modifier::Control)
        } else if same_text(key, "alt") {
            Some(Modifier::Alt)
        } else if same_text(key, "super") {
            Some(Modifier::Super)
        } else if same_text(key, "lock") {
            Some(Modifier::Lock)
        } else if same_text(key, "hypr") {
            Some(Modifier::Hyper)
        } else if same_text(key, "meta") {
            Some(Modifier::Meta)
        } else {
            None
        }
    }

    /// The symbol shown for a modifier (or for no modifier): its entry among
    /// the configured symbols when there are eight of them, else among
    /// `fallback`; `modkey` when that list has no such entry.
    pub fn get_mod_str(
        mod_key: &Option<Modifier>,
        config: Option<&KeyConfig>,
        fallback: &Vec<String>,
    ) -> (r: String)
        ensures
            r@ == modifier_symbol(*mod_key, opt_config(config), strings_view(fallback@)),
    {
        let strings: &Vec<String> = match config {
            Some(c) => if c.mod_key_ascii.len() == 8 {
                &c.mod_key_ascii
            } else {
                fallback
            },
            None => fallback,
        };
        let k: usize = match mod_key {
            Some(Modifier::Shift) => 0,
            Some(Modifier::Lock) => 1,
            Some(Modifier::Control) => 2,
            Some(Modifier::Meta) => 3,
            Some(Modifier::Alt) => 4,
            Some(Modifier::Super) => 5,
            Some(Modifier::Hyper) => 6,
            None => 7,
        };
        if k < strings.len() {
            strings[k].clone()
        } else {
            owned("modkey")
        }
    }
}

/// Whether a character is an ASCII letter.
fn is_letter(c: char) -> (r: bool)
    ensures
        r == is_ascii_alpha(c),
{
    ('a' <= c && c <= 'z') || ('A' <= c && c <= 'Z')
}

/// An action to run once the launcher has been opened `on` times.
#[derive(Clone, Debug, PartialEq)]
pub struct SherlockAction {
    pub on: u32,
    pub action: String,
}

// ---------------------------------------------------------------------------
// Launch counter
// ---------------------------------------------------------------------------
/// The number that four bytes stand for, least significant byte first.
pub open spec fn le_value(b: Seq<u8>) -> int {
    b[0] + 256 * b[1] + 65536 * b[2] + 16777216 * b[3]
}

/// The counter after one more launch (it stays at the largest value).
pub open spec fn next_count(n: u32) -> u32 {
    if n == u32::MAX {
        n
    } else {
        (n + 1) as u32
    }
}

/// The four bytes that store `n`, least significant first.
pub open spec fn count_bytes(n: u32) -> Seq<u8> {
    seq![(n % 256) as u8, ((n / 256) % 256) as u8, ((n / 65536) % 256) as u8, (n / 16777216) as u8]
}

/// The count that the bytes of a counter file stand for, or nothing when
/// there are fewer than four.
pub open spec fn stored_count(b: Seq<u8>) -> Option<u32> {
    if b.len() >= 4 {
        Some(le_value(b) as u32)
    } else {
        None
    }
}

/// The four bytes that store `n`, least significant first.
pub fn encode_count(n: u32) -> (r: Vec<u8>)
    ensures
        r@ == count_bytes(n),
        le_value(r@) == n,
{
    let b0: u8 = (n % 256) as u8;
    let b1: u8 = ((n / 256) % 256) as u8;
    let b2: u8 = ((n / 65536) % 256) as u8;
    let b3: u8 = (n / 16777216) as u8;
    let r = vec![b0, b1, b2, b3];
    assert(r@[0] == b0 && r@[1] == b1 && r@[2] == b2 && r@[3] == b3);
    assert(r@ =~= count_bytes(n));
    r
}

/// The number stored in the first four bytes of `b`, least significant first.
pub fn decode_count(b: &Vec<u8>) -> (r: u32)
    requires
        b@.len() >= 4,
    ensures
        r == le_value(b@),
{
    let b0: u32 = b[0] as u32;
    let b1: u32 = b[1] as u32;
    let b2: u32 = b[2] as u32;
    let b3: u32 = b[3] as u32;
    b0 + 256 * b1 + 65536 * b2 + 16777216 * b3
}

/// What reading the counter file found.
pub enum CountFile {
    /// The file does not exist.
    Missing,
    /// The file could not be read; the payload is the reason.
    Unreadable(String),
    /// The file's bytes.
    Contents(Vec<u8>),
}

/// Counts how often the launcher was opened, in a file of four bytes.
pub struct SherlockCounter {
    pub path: String,
}

/// Whether `e` is the error for an unreadable counter file at `path`.
pub open spec fn is_read_error(e: SherlockError, path: Seq<char>) -> bool {
    e.error@ == ErrorKindView::FileRead(path)
}

impl SherlockCounter {
    /// The counter kept in `sherlock/sherlock_count` in the cache directory,
    /// given the values of `XDG_CACHE_HOME` and `HOME`; an error when neither
    /// is set.
    pub fn new(xdg_cache_home: Option<String>, home: Option<String>) -> (r: Result<
        SherlockCounter,
        SherlockError,
    >)
        ensures
            match r {
                Ok(c) => cache_path(
                    opt_str(xdg_cache_home),
                    opt_str(home),
                    "sherlock/sherlock_count"@,
                ) == Some(c.path@),
                Err(e) => cache_path(
                    opt_str(xdg_cache_home),
                    opt_str(home),
                    "sherlock/sherlock_count"@,
                ) is None && is_no_cache_home_error(e),
            },
    {
        match cache_file_path(xdg_cache_home, home, "sherlock/sherlock_count") {
            Ok(path) => Ok(SherlockCounter { path }),
            Err(e) => Err(e),
        }
    }

    /// The count that the counter file holds: zero when there is no file, the
    /// number in its first four bytes, or a read error naming the file when
    /// it cannot be read or is shorter than four bytes.
    pub fn read(&self, file: CountFile) -> (r: Result<u32, SherlockError>)
        ensures
            match file {
                CountFile::Missing => r == Ok::<u32, SherlockError>(0),
                CountFile::Unreadable(why) => r matches Err(e) && is_read_error(e, self.path@)
                    && e.traceback@ == why@,
                CountFile::Contents(b) => match stored_count(b@) {
                    Some(n) => r == Ok::<u32, SherlockError>(n),
                    None =>
                    r matches Err(e) && is_read_error(e, self.path@)
                        && e.traceback@ == "failed to fill whole buffer"@,
                },
            },
    {
        match file {
            CountFile::Missing => Ok(0),
            CountFile::Unreadable(why) => Err(
                SherlockError::new(SherlockErrorType::FileReadError(self.path.clone()), why),
            ),
            CountFile::Contents(b) => {
                if b.len() >= 4 {
                    Ok(decode_count(&b))
                } else {
                    Err(
                        SherlockError::new(
                            SherlockErrorType::FileReadError(self.path.clone()),
                            owned("failed to fill whole buffer"),
                        ),
                    )
                }
            },
        }
    }

    /// The four bytes to write to the counter file to store `count`.
    pub fn write(&self, count: u32) -> (r: Vec<u8>)
        ensures
            r@ == count_bytes(count),
    {
        encode_count(count)
    }

    /// After the counter was read: the count one launch later (it stays at
    /// the largest value) and the bytes that store it; a read error is
    /// passed on.
    pub fn increment(&self, stored: Result<u32, SherlockError>) -> (r: Result<
        (u32, Vec<u8>),
        SherlockError,
    >)
        ensures
            match stored {
                Ok(n) => r matches Ok((m, bytes)) && m == next_count(n) && bytes@ == count_bytes(
                    m,
                ),
                Err(e) => r matches Err(e2) && e2 == e,
            },
    {
        match stored {
            Ok(n) => {
                let next = n.saturating_add(1);
                Ok((next, self.write(next)))
            },
            Err(e) => Err(e),
        }
    }
}

// ---------------------------------------------------------------------------
// Search modes
// ---------------------------------------------------------------------------
/// The search modes that launchers offer: a launcher with an alias offers
/// the mode `alias ` (the alias and a space) leading to its name; a later
/// launcher with the same alias replaces an earlier one.
pub open spec fn modes_of(launchers: Seq<(Option<String>, Option<String>)>) -> Map<
    Seq<char>,
    Option<String>,
>
    decreases launchers.len(),
{
    if launchers.len() == 0 {
        Map::empty()
    } else {
        let m = modes_of(launchers.drop_last());
        match launchers.last().0 {
            Some(a) => m.insert(a@ + seq![' '], launchers.last().1),
            None => m,
        }
    }
}

/// A copy of an optional string.
fn copy_name(o: &Option<String>) -> (r: Option<String>)
    ensures
        r == *o,
{
    match o {
        Some(s) => Some(s.clone()),
        None => None,
    }
}

/// The search modes offered by launchers given as (alias, name) pairs, in
/// the order the launchers were loaded.
pub fn launcher_modes(launchers: &Vec<(Option<String>, Option<String>)>) -> (r: KeyedTable<
    Option<String>,
>)
    ensures
        r@ == modes_of(launchers@),
{
    let mut modes: KeyedTable<Option<String>> = KeyedTable::new();
    let n = launchers.len();
    let mut i: usize = 0;
    while i < n
        invariant
            n == launchers@.len(),
            i <= n,
            modes@ == modes_of(launchers@.take(i as int)),
        decreases n - i,
    {
        assert(launchers@.take(i + 1).drop_last() =~= launchers@.take(i as int));
        assert(launchers@.take(i + 1).last() == launchers@[i as int]);
        if let Some(alias) = &launchers[i].0 {
            let mut key = alias.clone();
            push_char(&mut key, ' ');
            assert(key@ =~= alias@ + seq![' ']);
            modes.insert(key, copy_name(&launchers[i].1));
        }
        i = i + 1;
    }
    assert(launchers@.take(n as int) =~= launchers@);
    modes
}

// ---------------------------------------------------------------------------
// Laws
// ---------------------------------------------------------------------------
/// What the counter stores, it reads back: the four bytes written for any
/// count stand for that count.
pub proof fn law_count_round_trip(n: u32)
    ensures
        stored_count(count_bytes(n)) == Some(n),
{
}

/// Two counts stored in the same four bytes are the same count.
pub proof fn law_count_bytes_distinct(n: u32, m: u32)
    requires
        count_bytes(n) == count_bytes(m),
    ensures
        n == m,
{
    law_count_round_trip(n);
    law_count_round_trip(m);
}

/// Each launch raises the counter by one until it reaches its largest value,
/// where it stays.
pub proof fn law_counter_saturates(n: u32)
    ensures
        n < u32::MAX ==> next_count(n) == n + 1,
        n == u32::MAX ==> next_count(n) == n,
        next_count(n) >= n,
{
}

/// Key names are read in any case: a name and its lower-case form bind the
/// same key with the same symbol.
pub proof fn law_key_names_ignore_case(name: Seq<char>)
    ensures
        key_binding(lower_seq(name)) == key_binding(name),
{
    crate::text::lemma_lower_idempotent(name);
}

/// `find_from` stops at `to` when no `c` lies between `from` and `to` and
/// `to` is the end or holds `c`.
proof fn lemma_find_stops(s: Seq<char>, c: char, from: int, to: int)
    requires
        0 <= from <= to <= s.len(),
        forall|j: int| from <= j < to ==> s[j] != c,
        to == s.len() || s[to] == c,
    ensures
        find_from(s, c, from) == to,
    decreases to - from,
{
    if from < to {
        lemma_find_stops(s, c, from + 1, to);
    }
}

/// A binding written as a modifier name, `-` and a key name (neither holding
/// `-`) binds that modifier and that key.
pub proof fn law_combination_parts(m: Seq<char>, k: Seq<char>)
    requires
        !m.contains('-'),
        !k.contains('-'),
    ensures
        combination(m + seq!['-'] + k) == (modifier_named(m), key_binding(k)),
{
    let b = m + seq!['-'] + k;
    assert forall|j: int| 0 <= j < m.len() implies b[j] != '-' by {
        assert(b[j] == m[j]);
        if m[j] == '-' {
            assert(m.contains('-'));
        }
    }
    assert(b[m.len() as int] == '-');
    lemma_find_stops(b, '-', 0, m.len() as int);
    assert forall|j: int| m.len() + 1 <= j < b.len() implies b[j] != '-' by {
        assert(b[j] == k[j - m.len() - 1]);
        if k[j - m.len() - 1] == '-' {
            assert(k.contains('-'));
        }
    }
    lemma_find_stops(b, '-', (m.len() + 1) as int, b.len() as int);
    assert(b.subrange(0, m.len() as int) =~= m);
    assert(b.subrange((m.len() + 1) as int, b.len() as int) =~= k);
}

/// A binding without `-` binds a key and no modifier.
pub proof fn law_plain_binding(k: Seq<char>)
    requires
        !k.contains('-'),
    ensures
        combination(k) == (None::<Modifier>, key_binding(k)),
{
    assert forall|j: int| 0 <= j < k.len() implies k[j] != '-' by {
        if k[j] == '-' {
            assert(k.contains('-'));
        }
    }
    lemma_find_stops(k, '-', 0, k.len() as int);
}

/// Different modifiers are shown by different entries of the symbol list,
/// and every modifier's entry lies among the eight symbols.
pub proof fn law_modifier_slots(a: Option<Modifier>, b: Option<Modifier>)
    ensures
        0 <= modifier_slot(a) < 8,
        a != b ==> modifier_slot(a) != modifier_slot(b),
{
}

/// The search mode of an alias leads to the launcher loaded last with that
/// alias; launchers without an alias offer no mode.
pub proof fn law_last_alias_wins(
    launchers: Seq<(Option<String>, Option<String>)>,
    alias: String,
    name: Option<String>,
)
    ensures
        modes_of(launchers.push((Some(alias), name))) == modes_of(launchers).insert(
            alias@ + seq![' '],
            name,
        ),
        modes_of(launchers.push((None, name))) == modes_of(launchers),
{
    assert(launchers.push((Some(alias), name)).drop_last() =~= launchers);
    assert(launchers.push((None, name)).drop_last() =~= launchers);
}

/// Each binding of a configuration is read on its own: the key, modifier
/// (and, for the context menu, the key's symbol) of the next, previous and
/// context bindings are those that the configured binding names, and a
/// missing binding binds nothing. The shortcut modifier is the one the
/// configuration names, Control when it names none.
pub proof fn law_bindings_follow_configuration(c: KeyConfigView, f: Seq<Seq<char>>)
    ensures
        keys_of(Some(c), f).next == bound(c.next).1.0,
        keys_of(Some(c), f).next_mod == bound(c.next).0,
        keys_of(Some(c), f).prev == bound(c.prev).1.0,
        keys_of(Some(c), f).prev_mod == bound(c.prev).0,
        keys_of(Some(c), f).context == bound(c.context).1.0,
        keys_of(Some(c), f).context_mod == bound(c.context).0,
        keys_of(Some(c), f).context_str == bound(c.context).1.1,
        c.next is None ==> keys_of(Some(c), f).next is None && keys_of(Some(c), f).next_mod is None,
        c.prev is None ==> keys_of(Some(c), f).prev is None && keys_of(Some(c), f).prev_mod is None,
        c.context is None ==> keys_of(Some(c), f).context is None && keys_of(
            Some(c),
            f,
        ).context_mod is None && keys_of(Some(c), f).context_str is None,
        c.modifier is None ==> keys_of(Some(c), f).shortcut_modifier == Some(Modifier::Control),
        c.modifier matches Some(m) ==> keys_of(Some(c), f).shortcut_modifier == modifier_named(m),
        keys_of(Some(c), f).context_mod_str == modifier_symbol(
            keys_of(Some(c), f).context_mod,
            Some(c),
            f,
        ),
        keys_of(Some(c), f).shortcut_modifier_str == modifier_symbol(
            keys_of(Some(c), f).shortcut_modifier,
            Some(c),
            f,
        ),
{
}

/// A binding written as a modifier name, `-` and a key name binds, for the
/// next, previous and context entries alike, that modifier and that key.
pub proof fn law_bindings_split_modifier_and_key(
    c: KeyConfigView,
    f: Seq<Seq<char>>,
    m: Seq<char>,
    k: Seq<char>,
)
    requires
        !m.contains('-'),
        !k.contains('-'),
    ensures
        c.next == Some(m + seq!['-'] + k) ==> keys_of(Some(c), f).next_mod == modifier_named(m)
            && keys_of(Some(c), f).next == key_binding(k).0,
        c.prev == Some(m + seq!['-'] + k) ==> keys_of(Some(c), f).prev_mod == modifier_named(m)
            && keys_of(Some(c), f).prev == key_binding(k).0,
        c.context == Some(m + seq!['-'] + k) ==> keys_of(Some(c), f).context_mod
            == modifier_named(m) && keys_of(Some(c), f).context == key_binding(k).0 && keys_of(
            Some(c),
            f,
        ).context_str == key_binding(k).1,
{
    law_combination_parts(m, k);
}

/// Without a configuration nothing is bound and no symbol is shown.
pub proof fn law_no_configuration_binds_nothing(f: Seq<Seq<char>>)
    ensures
        keys_of(None, f).next is None && keys_of(None, f).next_mod is None,
        keys_of(None, f).prev is None && keys_of(None, f).prev_mod is None,
        keys_of(None, f).context is None && keys_of(None, f).context_mod is None,
        keys_of(None, f).shortcut_modifier is None,
        keys_of(None, f).context_mod_str.len() == 0,
        keys_of(None, f).shortcut_modifier_str.len() == 0,
{
}

/// The eight configured symbols are, in order, those of Shift, Lock,
/// Control, Meta, Alt, Super and Hyper, and the one shown when there is no
/// modifier.
pub proof fn law_symbols_in_configured_order(c: KeyConfigView, f: Seq<Seq<char>>)
    requires
        c.mod_key_ascii.len() == 8,
    ensures
        modifier_symbol(Some(Modifier::Shift), Some(c), f) == c.mod_key_ascii[0],
        modifier_symbol(Some(Modifier::Lock), Some(c), f) == c.mod_key_ascii[1],
        modifier_symbol(Some(Modifier::Control), Some(c), f) == c.mod_key_ascii[2],
        modifier_symbol(Some(Modifier::Meta), Some(c), f) == c.mod_key_ascii[3],
        modifier_symbol(Some(Modifier::Alt), Some(c), f) == c.mod_key_ascii[4],
        modifier_symbol(Some(Modifier::Super), Some(c), f) == c.mod_key_ascii[5],
        modifier_symbol(Some(Modifier::Hyper), Some(c), f) == c.mod_key_ascii[6],
        modifier_symbol(None, Some(c), f) == c.mod_key_ascii[7],
{
}

/// Without eight configured symbols the fallback symbols are used in the
/// same order, and `modkey` is shown where the fallback list is too short.
pub proof fn law_symbols_fall_back_in_order(c: Option<KeyConfigView>, f: Seq<Seq<char>>)
    requires
        c matches Some(k) ==> k.mod_key_ascii.len() != 8,
    ensures
        f.len() > 0 ==> modifier_symbol(Some(Modifier::Shift), c, f) == f[0],
        f.len() > 1 ==> modifier_symbol(Some(Modifier::Lock), c, f) == f[1],
        f.len() > 2 ==> modifier_symbol(Some(Modifier::Control), c, f) == f[2],
        f.len() > 3 ==> modifier_symbol(Some(Modifier::Meta), c, f) == f[3],
        f.len() > 4 ==> modifier_symbol(Some(Modifier::Alt), c, f) == f[4],
        f.len() > 5 ==> modifier_symbol(Some(Modifier::Super), c, f) == f[5],
        f.len() > 6 ==> modifier_symbol(Some(Modifier::Hyper), c, f) == f[6],
        f.len() > 7 ==> modifier_symbol(None, c, f) == f[7],
        f.len() == 0 ==> forall|m: Option<Modifier>| modifier_symbol(m, c, f) == "modkey"@,
{
}

/// A single letter names that letter's key in lower case, shown as the
/// upper-case letter, whatever case it is written in.
pub proof fn law_letter_keys(c: char)
    requires
        is_ascii_alpha(c),
    ensures
        key_binding(seq![c]).0 == Some(BindKey::Letter(crate::text::lower_char(c))),
        key_binding(seq![c]).1 == Some(seq![upper_char(crate::text::lower_char(c))]),
        'a' <= crate::text::lower_char(c) <= 'z',
{
    let l = lower_seq(seq![c]);
    assert(l =~= seq![crate::text::lower_char(c)]);
    assert(l.len() == 1);
    assert(l != "tab"@ && l != "up"@ && l != "down"@ && l != "left"@ && l != "right"@) by {
        reveal_strlit("tab");
        reveal_strlit("up");
        reveal_strlit("down");
        reveal_strlit("left");
        reveal_strlit("right");
    }
    assert(l != "pgup"@ && l != "pgdown"@ && l != "end"@ && l != "home"@) by {
        reveal_strlit("pgup");
        reveal_strlit("pgdown");
        reveal_strlit("end");
        reveal_strlit("home");
    }
}

} // verus!
