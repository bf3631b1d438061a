//! Launcher entries: application actions, application data built from raw
//! launcher configuration, aliases that rename and extend entries, and the
//! table of launch counts.
use vstd::prelude::*;

use crate::errors::{ErrorKindView, SherlockError, SherlockErrorType};
use crate::table::KeyedTable;
use crate::text::{find_char, find_from, join_with, owned, same_strings, strings_view};

verus! {

/// The characters of an optional string.
pub open spec fn opt_str(o: Option<String>) -> Option<Seq<char>> {
    match o {
        Some(s) => Some(s@),
        None => None,
    }
}

/// The characters of an optional string, or no characters.
pub open spec fn or_empty(o: Option<Seq<char>>) -> Seq<char> {
    match o {
        Some(s) => s,
        None => Seq::empty(),
    }
}

/// The value a missing boolean option of a launcher takes.
pub fn default_true() -> (r: bool)
    ensures
        r,
{
    true
}

/// A copy of an optional string.
fn copy_opt(o: &Option<String>) -> (r: Option<String>)
    ensures
        opt_str(r) == opt_str(*o),
{
    match o {
        Some(s) => Some(s.clone()),
        None => None,
    }
}

/// Whether two optional strings are both absent or hold the same characters.
fn same_opt(a: &Option<String>, b: &Option<String>) -> (r: bool)
    ensures
        r == (opt_str(*a) == opt_str(*b)),
{
    match (a, b) {
        (Some(x), Some(y)) => *x == *y,
        (None, None) => true,
        _ => false,
    }
}

// ---------------------------------------------------------------------------
// Application actions
// ---------------------------------------------------------------------------
/// An extra action of an application entry (such as "open a new window").
#[derive(Clone, Debug, PartialEq)]
pub struct ApplicationAction {
    pub name: Option<String>,
    pub command: Option<String>,
    pub icon: Option<String>,
    pub method: String,
    pub exit: bool,
}

/// An application action with its strings as characters.
pub struct ActionView {
    pub name: Option<Seq<char>>,
    pub command: Option<Seq<char>>,
    pub icon: Option<Seq<char>>,
    pub method: Seq<char>,
    pub exit: bool,
}

impl View for ApplicationAction {
    type V = ActionView;

    open spec fn view(&self) -> ActionView {
        ActionView {
            name: opt_str(self.name),
            command: opt_str(self.command),
            icon: opt_str(self.icon),
            method: self.method@,
            exit: self.exit,
        }
    }
}

/// Whether an action has both a name and a command.
pub open spec fn action_is_valid(a: ActionView) -> bool {
    a.name is Some && a.command is Some
}

/// Whether an action has a name, a command and an icon.
pub open spec fn action_is_full(a: ActionView) -> bool {
    a.name is Some && a.command is Some && a.icon is Some
}

/// The action that `ApplicationAction::new` makes for a method.
pub open spec fn new_action(method: Seq<char>) -> ActionView {
    ActionView { name: None, command: None, icon: None, method, exit: true }
}

/// The views of a list of actions.
pub open spec fn actions_view(s: Seq<ApplicationAction>) -> Seq<ActionView> {
    s.map_values(|a: ApplicationAction| a@)
}

impl ApplicationAction {
    /// An action with the given method, no name, command or icon, that
    /// closes the launcher once run.
    pub fn new(method: &str) -> (r: ApplicationAction)
        ensures
            r@ == new_action(method@),
    {
        ApplicationAction { name: None, command: None, icon: None, method: owned(method), exit: true }
    }

    /// Whether the action has both a name and a command.
    pub fn is_valid(&self) -> (r: bool)
        ensures
            r == action_is_valid(self@),
    {
        self.name.is_some() && self.command.is_some()
    }

    /// Whether the action has a name, a command and an icon.
    pub fn is_full(&self) -> (r: bool)
        ensures
            r == action_is_full(self@),
    {
        self.name.is_some() && self.command.is_some() && self.icon.is_some()
    }

    /// A copy of the action.
    fn duplicate(&self) -> (r: ApplicationAction)
        ensures
            r@ == self@,
    {
        ApplicationAction {
            name: copy_opt(&self.name),
            command: copy_opt(&self.command),
            icon: copy_opt(&self.icon),
            method: self.method.clone(),
            exit: self.exit,
        }
    }

    /// Whether two actions agree in every field.
    fn same_as(&self, other: &ApplicationAction) -> (r: bool)
        ensures
            r == (self@ == other@),
    {
        same_opt(&self.name, &other.name) && same_opt(&self.command, &other.command) && same_opt(
            &self.icon,
            &other.icon,
        ) && self.method == other.method && self.exit == other.exit
    }
}

/// A copy of a list of actions.
fn copy_actions(v: &Vec<ApplicationAction>) -> (r: Vec<ApplicationAction>)
    ensures
        actions_view(r@) == actions_view(v@),
{
    let mut r: Vec<ApplicationAction> = Vec::new();
    let n = v.len();
    let mut i: usize = 0;
    while i < n
        invariant
            n == v@.len(),
            i <= n,
            r@.len() == i,
            forall|j: int| 0 <= j < i ==> r@[j]@ == v@[j]@,
        decreases n - i,
    {
        r.push(v[i].duplicate());
        i = i + 1;
    }
    assert(actions_view(r@) =~= actions_view(v@));
    r
}

/// Whether two lists of actions agree element by element.
fn same_actions(a: &Vec<ApplicationAction>, b: &Vec<ApplicationAction>) -> (r: bool)
    ensures
        r == (actions_view(a@) == actions_view(b@)),
{
    if a.len() != b.len() {
        assert(actions_view(a@).len() != actions_view(b@).len());
        return false;
    }
    let n = a.len();
    let mut i: usize = 0;
    while i < n
        invariant
            n == a@.len(),
            n == b@.len(),
            i <= n,
            forall|j: int| 0 <= j < i ==> a@[j]@ == b@[j]@,
        decreases n - i,
    {
        if !a[i].same_as(&b[i]) {
            assert(actions_view(a@)[i as int] != actions_view(b@)[i as int]);
            return false;
        }
        i = i + 1;
    }
    assert(actions_view(a@) =~= actions_view(b@));
    true
}

// ---------------------------------------------------------------------------
// Application data
// ---------------------------------------------------------------------------
/// One entry of the launcher's list.
///
/// `priority_bits` holds the IEEE-754 bit pattern of the entry's `f32`
/// priority; `desktop_file` holds the path of the desktop file it came from.
#[derive(Clone, Debug, PartialEq)]
pub struct AppData {
    pub name: String,
    pub command: Option<String>,
    pub search_string: String,
    pub priority_bits: u32,
    pub icon: Option<String>,
    pub icon_class: Option<String>,
    pub tag_start: Option<String>,
    pub tag_end: Option<String>,
    pub desktop_file: Option<String>,
    pub actions: Vec<ApplicationAction>,
    pub terminal: bool,
}

/// An application entry with its strings as characters.
pub struct AppDataView {
    pub name: Seq<char>,
    pub command: Option<Seq<char>>,
    pub search_string: Seq<char>,
    pub priority_bits: u32,
    pub icon: Option<Seq<char>>,
    pub icon_class: Option<Seq<char>>,
    pub tag_start: Option<Seq<char>>,
    pub tag_end: Option<Seq<char>>,
    pub desktop_file: Option<Seq<char>>,
    pub actions: Seq<ActionView>,
    pub terminal: bool,
}

impl View for AppData {
    type V = AppDataView;

    open spec fn view(&self) -> AppDataView {
        AppDataView {
            name: self.name@,
            command: opt_str(self.command),
            search_string: self.search_string@,
            priority_bits: self.priority_bits,
            icon: opt_str(self.icon),
            icon_class: opt_str(self.icon_class),
            tag_start: opt_str(self.tag_start),
            tag_end: opt_str(self.tag_end),
            desktop_file: opt_str(self.desktop_file),
            actions: actions_view(self.actions@),
            terminal: self.terminal,
        }
    }
}

/// The entry that `AppData::new` gives.
pub open spec fn empty_data() -> AppDataView {
    AppDataView {
        name: Seq::empty(),
        command: None,
        search_string: Seq::empty(),
        priority_bits: 0,
        icon: None,
        icon_class: None,
        tag_start: None,
        tag_end: None,
        desktop_file: None,
        actions: Seq::empty(),
        terminal: false,
    }
}

impl AppData {
    /// An entry with empty name and search string, priority zero, no
    /// command, icons, tags, desktop file or actions, not run in a terminal.
    pub fn new() -> (r: AppData)
        ensures
            r@ == empty_data(),
    {
        let r = AppData {
            name: String::new(),
            command: None,
            search_string: String::new(),
            priority_bits: 0,
            icon: None,
            icon_class: None,
            tag_start: None,
            tag_end: None,
            desktop_file: None,
            actions: Vec::new(),
            terminal: false,
        };
        assert(r@.actions =~= Seq::<ActionView>::empty());
        r
    }

    /// The entry with its priority (given by its `f32` bit pattern) replaced.
    pub fn with_priority(self, priority_bits: u32) -> (r: AppData)
        ensures
            r@ == (AppDataView { priority_bits, ..self@ }),
    {
        let mut data = self;
        data.priority_bits = priority_bits;
        data
    }

    /// A copy of the entry.
    fn duplicate(&self) -> (r: AppData)
        ensures
            r@ == self@,
    {
        AppData {
            name: self.name.clone(),
            command: copy_opt(&self.command),
            search_string: self.search_string.clone(),
            priority_bits: self.priority_bits,
            icon: copy_opt(&self.icon),
            icon_class: copy_opt(&self.icon_class),
            tag_start: copy_opt(&self.tag_start),
            tag_end: copy_opt(&self.tag_end),
            desktop_file: copy_opt(&self.desktop_file),
            actions: copy_actions(&self.actions),
            terminal: self.terminal,
        }
    }

    /// Whether two entries are equal as entries: every field agrees, the
    /// priorities as `f32` numbers and the desktop files as paths.
    fn same_as(&self, other: &AppData) -> (r: bool)
        ensures
            r == same_entry(self@, other@),
    {
        self.name == other.name && same_opt(&self.command, &other.command) && self.search_string
            == other.search_string && same_priority_bits(self.priority_bits, other.priority_bits)
            && same_opt(
            &self.icon,
            &other.icon,
        ) && same_opt(&self.icon_class, &other.icon_class) && same_opt(
            &self.tag_start,
            &other.tag_start,
        ) && same_opt(&self.tag_end, &other.tag_end) && same_desktop_file(
            &self.desktop_file,
            &other.desktop_file,
        ) && same_actions(&self.actions, &other.actions) && self.terminal == other.terminal
    }
}


// ---------------------------------------------------------------------------
// Equality of entries
// ---------------------------------------------------------------------------
/// Whether the `f32` numbers with bit patterns `a` and `b` are equal: no NaN
/// equals anything, `0.0` equals `-0.0`, and other numbers are equal when
/// their patterns are.
pub open spec fn same_priority(a: u32, b: u32) -> bool {
    let ma = a % 0x8000_0000;
    let mb = b % 0x8000_0000;
    if ma > 0x7f80_0000 || mb > 0x7f80_0000 {
        false
    } else if ma == 0 && mb == 0 {
        true
    } else {
        a == b
    }
}

/// Whether the `f32` numbers with bit patterns `a` and `b` are equal.
pub fn same_priority_bits(a: u32, b: u32) -> (r: bool)
    ensures
        r == same_priority(a, b),
{
    let ma = a % 0x8000_0000;
    let mb = b % 0x8000_0000;
    if ma > 0x7f80_0000 || mb > 0x7f80_0000 {
        false
    } else if ma == 0 && mb == 0 {
        true
    } else {
        a == b
    }
}

/// The components of the path `s` from index `start` on: the pieces between
/// `/` separators, without empty pieces and without `.` pieces.
pub open spec fn path_parts_from(s: Seq<char>, start: int) -> Seq<Seq<char>>
    decreases s.len() - start,
{
    let e = find_from(s, '/', start);
    let piece = s.subrange(start, e);
    let here = if piece.len() == 0 || piece == seq!['.'] {
        Seq::<Seq<char>>::empty()
    } else {
        seq![piece]
    };
    if e < s.len() {
        proof {
            if 0 <= start <= s.len() {
                crate::text::lemma_find_from(s, '/', start);
            }
        }
        here + path_parts_from(s, e + 1)
    } else {
        here
    }
}

/// What a path stands for: whether it starts at the root, whether it starts
/// with a `.` component, and its other components. Two paths that agree in
/// these are the same path.
pub open spec fn path_form(s: Seq<char>) -> (bool, bool, Seq<Seq<char>>) {
    (
        s.len() > 0 && s[0] == '/',
        s.len() > 0 && s[0] == '.' && (s.len() == 1 || s[1] == '/'),
        path_parts_from(s, 0),
    )
}

/// The components of a path after its root and leading `.`: the pieces
/// between `/` separators other than empty and `.` pieces.
pub fn path_parts(s: &str) -> (r: Vec<String>)
    ensures
        strings_view(r@) == path_parts_from(s@, 0),
{
    let n = s.unicode_len();
    let mut r: Vec<String> = Vec::new();
    let mut start: usize = 0;
    let mut more = true;
    while more
        invariant
            n == s@.len(),
            start <= n,
            more ==> strings_view(r@) + path_parts_from(s@, start as int) == path_parts_from(
                s@,
                0,
            ),
            !more ==> strings_view(r@) == path_parts_from(s@, 0),
        decreases 2 * (n - start) + (if more {
            1int
        } else {
            0int
        }),
    {
        let e = find_char(s, '/', start);
        proof {
            crate::text::lemma_find_from(s@, '/', start as int);
        }
        let piece = s.substring_char(start, e);
        let ghost before = strings_view(r@);
        let ghost here = if piece@.len() == 0 || piece@ == seq!['.'] {
            Seq::<Seq<char>>::empty()
        } else {
            seq![piece@]
        };
        let skip = piece.unicode_len() == 0 || (piece.unicode_len() == 1 && piece.get_char(0)
            == '.');
        assert(skip == (piece@.len() == 0 || piece@ == seq!['.'])) by {
            if piece@.len() == 1 && piece@[0] == '.' {
                assert(piece@ =~= seq!['.']);
            }
        }
        if !skip {
            r.push(owned(piece));
        }
        assert(strings_view(r@) =~= before + here);
        if e < n {
            assert(path_parts_from(s@, start as int) == here + path_parts_from(s@, e + 1));
            assert(strings_view(r@) + path_parts_from(s@, e + 1) =~= before + path_parts_from(
                s@,
                start as int,
            ));
            start = e + 1;
        } else {
            assert(path_parts_from(s@, start as int) == here);
            more = false;
        }
    }
    r
}

/// Whether two paths name the same path: the same root, leading `.` and
/// components.
pub fn same_path(a: &str, b: &str) -> (r: bool)
    ensures
        r == (path_form(a@) == path_form(b@)),
{
    let na = a.unicode_len();
    let nb = b.unicode_len();
    let root_a = na > 0 && a.get_char(0) == '/';
    let root_b = nb > 0 && b.get_char(0) == '/';
    let dot_a = na > 0 && a.get_char(0) == '.' && (na == 1 || a.get_char(1) == '/');
    let dot_b = nb > 0 && b.get_char(0) == '.' && (nb == 1 || b.get_char(1) == '/');
    let parts_a = path_parts(a);
    let parts_b = path_parts(b);
    root_a == root_b && dot_a == dot_b && same_strings(&parts_a, &parts_b)
}

/// Whether two optional desktop files are both absent or name the same path.
pub open spec fn same_file(a: Option<Seq<char>>, b: Option<Seq<char>>) -> bool {
    match (a, b) {
        (Some(x), Some(y)) => path_form(x) == path_form(y),
        (None, None) => true,
        _ => false,
    }
}

/// Whether two optional desktop files are both absent or name the same path.
fn same_desktop_file(a: &Option<String>, b: &Option<String>) -> (r: bool)
    ensures
        r == same_file(opt_str(*a), opt_str(*b)),
{
    match (a, b) {
        (Some(x), Some(y)) => same_path(x.as_str(), y.as_str()),
        (None, None) => true,
        _ => false,
    }
}

/// Whether two entries are equal as entries: every field agrees, except that
/// priorities are compared as `f32` numbers and desktop files as paths.
pub open spec fn same_entry(a: AppDataView, b: AppDataView) -> bool {
    &&& a.name == b.name
    &&& a.command == b.command
    &&& a.search_string == b.search_string
    &&& same_priority(a.priority_bits, b.priority_bits)
    &&& a.icon == b.icon
    &&& a.icon_class == b.icon_class
    &&& a.tag_start == b.tag_start
    &&& a.tag_end == b.tag_end
    &&& same_file(a.desktop_file, b.desktop_file)
    &&& a.actions == b.actions
    &&& a.terminal == b.terminal
}

// ---------------------------------------------------------------------------
// Raw launchers
// ---------------------------------------------------------------------------
/// A launcher as written in the user's configuration.
///
/// `launcher_type` is the launcher's `type` and `is_async` its `async` flag;
/// `priority_bits` holds the bit pattern of its `f32` priority; `args` holds
/// the members of its `args` object whose values are strings.
pub struct RawLauncher {
    pub name: Option<String>,
    pub alias: Option<String>,
    pub tag_start: Option<String>,
    pub tag_end: Option<String>,
    pub display_name: Option<String>,
    pub on_return: Option<String>,
    pub next_content: Option<String>,
    pub launcher_type: String,
    pub priority_bits: u32,
    pub shortcut: bool,
    pub spawn_focus: bool,
    pub is_async: bool,
    pub home: bool,
    pub only_home: bool,
    pub args: KeyedTable<String>,
    pub actions: Option<Vec<ApplicationAction>>,
    pub add_actions: Option<Vec<ApplicationAction>>,
}

/// The string member `k` of a launcher's arguments, if there is one.
pub open spec fn arg_str(args: Map<Seq<char>, String>, k: Seq<char>) -> Option<Seq<char>> {
    if args.contains_key(k) {
        Some(args[k]@)
    } else {
        None
    }
}

/// The string member `key` of a launcher's arguments, if there is one.
fn arg_string(args: &KeyedTable<String>, key: &str) -> (r: Option<String>)
    ensures
        opt_str(r) == arg_str(args@, key@),
{
    match args.get(key) {
        Some(v) => Some(v.clone()),
        None => None,
    }
}

/// The entry that a raw launcher stands for.
pub open spec fn launcher_data(raw: RawLauncher) -> AppDataView {
    AppDataView {
        name: or_empty(opt_str(raw.name)),
        command: None,
        search_string: or_empty(opt_str(raw.name)) + seq![';'] + or_empty(
            arg_str(raw.args@, "search_string"@),
        ),
        priority_bits: raw.priority_bits,
        icon: arg_str(raw.args@, "icon"@),
        icon_class: arg_str(raw.args@, "icon_class"@),
        tag_start: opt_str(raw.tag_start),
        tag_end: opt_str(raw.tag_end),
        desktop_file: None,
        actions: match raw.actions {
            Some(a) => actions_view(a@),
            None => Seq::empty(),
        },
        terminal: false,
    }
}

impl AppData {
    /// The entry of a raw launcher: its name (or nothing), priority, tags and
    /// actions, the icon and icon class given among its arguments, and the
    /// search string `name;search_string` taken from its name and arguments.
    pub fn from_raw_launcher(raw: &RawLauncher) -> (r: AppData)
        ensures
            r@ == launcher_data(*raw),
    {
        let mut data = AppData::new();
        data.priority_bits = raw.priority_bits;
        data.name = match &raw.name {
            Some(n) => n.clone(),
            None => String::new(),
        };
        data.icon = arg_string(&raw.args, "icon");
        data.icon_class = arg_string(&raw.args, "icon_class");
        data.tag_start = copy_opt(&raw.tag_start);
        data.tag_end = copy_opt(&raw.tag_end);
        data.actions = match &raw.actions {
            Some(a) => copy_actions(a),
            None => Vec::new(),
        };
        let search = match arg_string(&raw.args, "search_string") {
            Some(s) => s,
            None => String::new(),
        };
        data.search_string = join_with(data.name.as_str(), ';', search.as_str());
        assert(data@.actions =~= launcher_data(*raw).actions);
        data
    }
}

// ---------------------------------------------------------------------------
// Aliases
// ---------------------------------------------------------------------------
/// A user's override for an entry: a new name, icon, command or keywords, and
/// actions that replace or extend the entry's own.
#[derive(Clone, Debug)]
pub struct SherlockAlias {
    pub name: Option<String>,
    pub icon: Option<String>,
    pub command: Option<String>,
    pub keywords: Option<String>,
    pub actions: Option<Vec<ApplicationAction>>,
    pub add_actions: Option<Vec<ApplicationAction>>,
}

/// An alias with its strings as characters.
pub struct AliasView {
    pub name: Option<Seq<char>>,
    pub icon: Option<Seq<char>>,
    pub command: Option<Seq<char>>,
    pub keywords: Option<Seq<char>>,
    pub actions: Option<Seq<ActionView>>,
    pub add_actions: Option<Seq<ActionView>>,
}

/// The view of an optional list of actions.
pub open spec fn opt_actions(o: Option<Vec<ApplicationAction>>) -> Option<Seq<ActionView>> {
    match o {
        Some(v) => Some(actions_view(v@)),
        None => None,
    }
}

impl View for SherlockAlias {
    type V = AliasView;

    open spec fn view(&self) -> AliasView {
        AliasView {
            name: opt_str(self.name),
            icon: opt_str(self.icon),
            command: opt_str(self.command),
            keywords: opt_str(self.keywords),
            actions: opt_actions(self.actions),
            add_actions: opt_actions(self.add_actions),
        }
    }
}

/// An action that has no icon of its own gets `icon`.
pub open spec fn fill_icon(a: ActionView, icon: Option<Seq<char>>) -> ActionView {
    if a.icon is None {
        ActionView { icon, ..a }
    } else {
        a
    }
}

/// Every action without an icon gets `icon`.
pub open spec fn fill_icons(s: Seq<ActionView>, icon: Option<Seq<char>>) -> Seq<ActionView> {
    s.map_values(|a: ActionView| fill_icon(a, icon))
}

/// The entry after an alias (or none) is applied to it.
pub open spec fn aliased(d: AppDataView, alias: Option<AliasView>) -> AppDataView {
    match alias {
        None => AppDataView { search_string: d.name + seq![';'] + d.search_string, ..d },
        Some(al) => {
            let name = match al.name {
                Some(n) => n,
                None => d.name,
            };
            let icon = match al.icon {
                Some(i) => Some(i),
                None => d.icon,
            };
            let search = name + seq![';'] + match al.keywords {
                Some(k) => k,
                None => d.search_string,
            };
            let command = match al.command {
                Some(c) => Some(c),
                None => d.command,
            };
            let actions = match al.actions {
                Some(l) => fill_icons(l, icon),
                None => match al.add_actions {
                    Some(l) => d.actions + fill_icons(l, icon),
                    None => d.actions,
                },
            };
            AppDataView { name, icon, search_string: search, command, actions, ..d }
        },
    }
}

/// The view of an optional alias.
pub open spec fn opt_alias(o: Option<SherlockAlias>) -> Option<AliasView> {
    match o {
        Some(a) => Some(a@),
        None => None,
    }
}

/// Copies of `list` in which every action without an icon has `icon`.
fn with_icons(list: &Vec<ApplicationAction>, icon: &Option<String>) -> (r: Vec<ApplicationAction>)
    ensures
        actions_view(r@) == fill_icons(actions_view(list@), opt_str(*icon)),
{
    let mut r: Vec<ApplicationAction> = Vec::new();
    let n = list.len();
    let mut i: usize = 0;
    while i < n
        invariant
            n == list@.len(),
            i <= n,
            r@.len() == i,
            forall|j: int| 0 <= j < i ==> r@[j]@ == fill_icon(list@[j]@, opt_str(*icon)),
        decreases n - i,
    {
        let mut a = list[i].duplicate();
        if a.icon.is_none() {
            a.icon = copy_opt(icon);
        }
        r.push(a);
        i = i + 1;
    }
    assert(actions_view(r@) =~= fill_icons(actions_view(list@), opt_str(*icon)));
    r
}

impl AppData {
    /// Applies an alias: its name, icon and command replace the entry's; the
    /// search string becomes `name;keywords` (or `name;` and the old search
    /// string when the alias gives no keywords, or no alias is given); the
    /// alias's actions replace the entry's, else its added actions are
    /// appended; actions without an icon take the entry's icon.
    pub fn apply_alias(&mut self, alias: Option<SherlockAlias>)
        ensures
            final(self)@ == aliased(old(self)@, opt_alias(alias)),
    {
        match alias {
            Some(alias) => {
                if let Some(n) = &alias.name {
                    self.name = n.clone();
                }
                if let Some(i) = &alias.icon {
                    self.icon = Some(i.clone());
                }
                match &alias.keywords {
                    Some(k) => {
                        self.search_string = join_with(self.name.as_str(), ';', k.as_str());
                    },
                    None => {
                        self.search_string = join_with(
                            self.name.as_str(),
                            ';',
                            self.search_string.as_str(),
                        );
                    },
                }
                if let Some(c) = &alias.command {
                    self.command = Some(c.clone());
                }
                if let Some(add) = &alias.add_actions {
                    let mut extra = with_icons(add, &self.icon);
                    let ghost before = actions_view(self.actions@);
                    self.actions.append(&mut extra);
                    assert(actions_view(self.actions@) =~= before + fill_icons(
                        actions_view(add@),
                        opt_str(self.icon),
                    ));
                }
                if let Some(list) = &alias.actions {
                    self.actions = with_icons(list, &self.icon);
                }
            },
            None => {
                self.search_string = join_with(self.name.as_str(), ';', self.search_string.as_str());
            },
        }
    }
}

// ---------------------------------------------------------------------------
// Entries named by their keys
// ---------------------------------------------------------------------------
/// The entries, each named by its key.
pub open spec fn renamed(entries: Seq<(String, AppData)>) -> Seq<AppDataView> {
    entries.map_values(|e: (String, AppData)| AppDataView { name: e.0@, ..e.1@ })
}

/// Whether `x` is equal as an entry to some entry of `p`.
pub open spec fn has_equal(p: Seq<AppDataView>, x: AppDataView) -> bool {
    exists|i: int| 0 <= i < p.len() && same_entry(p[i], x)
}

/// The entries of `s` in order, without those equal as entries to one kept
/// before them.
pub open spec fn without_repeats(s: Seq<AppDataView>) -> Seq<AppDataView>
    decreases s.len(),
{
    if s.len() == 0 {
        Seq::empty()
    } else {
        let p = without_repeats(s.drop_last());
        if has_equal(p, s.last()) {
            p
        } else {
            p.push(s.last())
        }
    }
}

/// The set of entries that a map from names to entries stands for: each entry
/// takes the name it is stored under, and an entry equal as an entry to one
/// already kept is dropped; the rest keep the map's order.
pub fn deserialize_named_appdata(entries: Vec<(String, AppData)>) -> (r: Vec<AppData>)
    ensures
        r@.map_values(|d: AppData| d@) == without_repeats(renamed(entries@)),
{
    let mut r: Vec<AppData> = Vec::new();
    let n = entries.len();
    let mut i: usize = 0;
    while i < n
        invariant
            n == entries@.len(),
            i <= n,
            r@.map_values(|d: AppData| d@) == without_repeats(renamed(entries@).take(i as int)),
        decreases n - i,
    {
        let mut value = entries[i].1.duplicate();
        value.name = entries[i].0.clone();
        let ghost rs = renamed(entries@);
        assert(rs.take(i + 1).drop_last() =~= rs.take(i as int));
        assert(rs.take(i + 1).last() == value@);
        let ghost rv = r@.map_values(|d: AppData| d@);
        let m = r.len();
        let mut j: usize = 0;
        let mut seen = false;
        while j < m
            invariant
                m == r@.len(),
                j <= m,
                rv == r@.map_values(|d: AppData| d@),
                seen == (exists|k: int| 0 <= k < j && same_entry(rv[k], value@)),
            decreases m - j,
        {
            let same = r[j].same_as(&value);
            assert(rv[j as int] == r@[j as int]@);
            if same {
                seen = true;
            }
            j = j + 1;
        }
        assert(seen == has_equal(rv, value@));
        if !seen {
            r.push(value);
            assert(r@.map_values(|d: AppData| d@) =~= rv.push(value@));
        }
        i = i + 1;
    }
    assert(renamed(entries@).take(n as int) =~= renamed(entries@));
    r
}

// ---------------------------------------------------------------------------
// Cache file paths
// ---------------------------------------------------------------------------
/// `rel` appended to `base` as a further path component: a `/` goes between
/// them unless `base` is empty or already ends in `/`.
pub open spec fn joined_path(base: Seq<char>, rel: Seq<char>) -> Seq<char> {
    if base.len() == 0 {
        rel
    } else if base.last() == '/' {
        base + rel
    } else {
        base + seq!['/'] + rel
    }
}

/// `rel` appended to `base` as a further path component.
pub fn join_path(base: &str, rel: &str) -> (r: String)
    ensures
        r@ == joined_path(base@, rel@),
{
    let n = base.unicode_len();
    if n == 0 {
        owned(rel)
    } else if base.get_char(n - 1) == '/' {
        let mut r = owned(base);
        r.append(rel);
        r
    } else {
        join_with(base, '/', rel)
    }
}

/// The path of the cache file `file`: under the cache directory
/// `xdg_cache_home` when it is set, else under `.cache` in `home`.
pub open spec fn cache_path(
    xdg_cache_home: Option<Seq<char>>,
    home: Option<Seq<char>>,
    file: Seq<char>,
) -> Option<Seq<char>> {
    match xdg_cache_home {
        Some(x) => Some(joined_path(x, file)),
        None => match home {
            Some(h) => Some(joined_path(joined_path(h, ".cache"@), file)),
            None => None,
        },
    }
}

/// Whether `e` is the error for a missing cache directory and home.
pub open spec fn is_no_cache_home_error(e: SherlockError) -> bool {
    &&& e.error@ == ErrorKindView::EnvVarNotFound("HOME or XDG_CACHE_HOME"@)
    &&& e.traceback@ == "Neither HOME nor XDG_CACHE_HOME environment variable found"@
}

/// The path of the cache file `file`, given the values of `XDG_CACHE_HOME`
/// and `HOME`; an error when neither is set.
pub fn cache_file_path(xdg_cache_home: Option<String>, home: Option<String>, file: &str) -> (r:
    Result<String, SherlockError>)
    ensures
        match r {
            Ok(p) => cache_path(opt_str(xdg_cache_home), opt_str(home), file@) == Some(p@),
            Err(e) => cache_path(opt_str(xdg_cache_home), opt_str(home), file@) is None
                && is_no_cache_home_error(e),
        },
{
    match xdg_cache_home {
        Some(x) => Ok(join_path(x.as_str(), file)),
        None => match home {
            Some(h) => {
                let dir = join_path(h.as_str(), ".cache");
                Ok(join_path(dir.as_str(), file))
            },
            None => Err(
                SherlockError::new(
                    SherlockErrorType::EnvVarNotFoundError(owned("HOME or XDG_CACHE_HOME")),
                    owned("Neither HOME nor XDG_CACHE_HOME environment variable found"),
                ),
            ),
        },
    }
}

// ---------------------------------------------------------------------------
// Launch counts
// ---------------------------------------------------------------------------
/// Keeps how often each entry was launched, in the cache file at `path`.
pub struct CounterReader {
    pub path: String,
}

/// The stored launch count of `key`, as the bit pattern of an `f32`: the bits
/// of `0.0` (all zero) for a key not counted yet.
pub open spec fn count_of(m: Map<Seq<char>, u32>, key: Seq<char>) -> u32 {
    if m.contains_key(key) {
        m[key]
    } else {
        0
    }
}

impl CounterReader {
    /// The reader of `sherlock/counts.json` in the cache directory, given the
    /// values of `XDG_CACHE_HOME` and `HOME`; an error when neither is set.
    pub fn new(xdg_cache_home: Option<String>, home: Option<String>) -> (r: Result<
        CounterReader,
        SherlockError,
    >)
        ensures
            match r {
                Ok(c) => cache_path(opt_str(xdg_cache_home), opt_str(home), "sherlock/counts.json"@)
                    == Some(c.path@),
                Err(e) => cache_path(
                    opt_str(xdg_cache_home),
                    opt_str(home),
                    "sherlock/counts.json"@,
                ) is None && is_no_cache_home_error(e),
            },
    {
        match cache_file_path(xdg_cache_home, home, "sherlock/counts.json") {
            Ok(path) => Ok(CounterReader { path }),
            Err(e) => Err(e),
        }
    }

    /// Counts one more launch of `key` in the counts read from this reader's
    /// file. Counts are the bit patterns of `f32` values; `add_one` gives the
    /// pattern of a count plus one. The count of `key` (that of `0.0` when it
    /// was not counted yet) is replaced by `add_one` of it; every other count
    /// stays as it was.
    pub fn increment<F: Fn(u32) -> u32>(&self, content: &mut KeyedTable<u32>, key: &str, add_one: F)
        requires
            forall|b: u32| add_one.requires((b,)),
        ensures
            exists|v: u32|
                add_one.ensures((count_of(old(content)@, key@),), v) && final(content)@ == old(
                    content,
                )@.insert(key@, v),
    {
        let current: u32 = match content.get(key) {
            Some(b) => *b,
            None => 0,
        };
        let next = add_one(current);
        content.insert(owned(key), next);
    }
}

// ---------------------------------------------------------------------------
// Laws
// ---------------------------------------------------------------------------
/// Every full action is a valid one.
pub proof fn law_full_action_is_valid(a: ActionView)
    ensures
        action_is_full(a) ==> action_is_valid(a),
{
}

/// An action made by `ApplicationAction::new` has no name or command, so it
/// is neither valid nor full, whatever its method.
pub proof fn law_new_action_is_not_valid(method: Seq<char>)
    ensures
        !action_is_valid(new_action(method)),
        !action_is_full(new_action(method)),
{
}

/// After an alias is applied (or none is), the search string starts with the
/// entry's name and `;`.
pub proof fn law_alias_search_starts_with_name(d: AppDataView, alias: Option<AliasView>)
    ensures
        aliased(d, alias).search_string.take(aliased(d, alias).name.len() + 1 as int) == aliased(
            d,
            alias,
        ).name + seq![';'],
{
    let r = aliased(d, alias);
    assert(r.search_string.take(r.name.len() + 1 as int) =~= r.name + seq![';']);
}

/// An alias that sets nothing changes an entry as no alias does.
pub proof fn law_empty_alias_is_no_alias(d: AppDataView)
    ensures
        aliased(
            d,
            Some(
                AliasView {
                    name: None,
                    icon: None,
                    command: None,
                    keywords: None,
                    actions: None,
                    add_actions: None,
                },
            ),
        ) == aliased(d, None),
{
}

/// Filling in icons gives an icon to every action when there is one to give,
/// and leaves actions that have an icon unchanged.
pub proof fn law_fill_icons(s: Seq<ActionView>, icon: Option<Seq<char>>)
    ensures
        fill_icons(s, icon).len() == s.len(),
        icon is Some ==> forall|i: int|
            0 <= i < s.len() ==> (#[trigger] fill_icons(s, icon)[i]).icon is Some,
        forall|i: int| 0 <= i < s.len() && s[i].icon is Some ==> #[trigger] fill_icons(s, icon)[i] == s[i],
{
}

/// The search string of a launcher's entry starts with its name and `;`.
pub proof fn law_launcher_search_starts_with_name(raw: RawLauncher)
    ensures
        launcher_data(raw).search_string.take(launcher_data(raw).name.len() + 1 as int) == launcher_data(
            raw,
        ).name + seq![';'],
{
    let r = launcher_data(raw);
    assert(r.search_string.take(r.name.len() + 1 as int) =~= r.name + seq![';']);
}

/// Entries named by their keys form a set under the equality of entries:
/// no two kept entries are equal, every kept entry is one of the named
/// entries, and every named entry is kept or equal to a kept one.
pub proof fn law_named_entries_form_a_set(s: Seq<AppDataView>)
    ensures
        forall|i: int, j: int|
            0 <= i < j < without_repeats(s).len() ==> !same_entry(
                without_repeats(s)[i],
                without_repeats(s)[j],
            ),
        forall|x: AppDataView| #[trigger] without_repeats(s).contains(x) ==> s.contains(x),
        forall|x: AppDataView|
            #[trigger] s.contains(x) ==> without_repeats(s).contains(x) || has_equal(
                without_repeats(s),
                x,
            ),
    decreases s.len(),
{
    if s.len() > 0 {
        let t = s.drop_last();
        law_named_entries_form_a_set(t);
        let p = without_repeats(t);
        let r = without_repeats(s);
        assert forall|x: AppDataView| s.contains(x) <==> (t.contains(x) || x == s.last()) by {
            if s.contains(x) {
                let i = choose|i: int| 0 <= i < s.len() && s[i] == x;
                if i < t.len() {
                    assert(t[i] == x);
                }
            }
            if t.contains(x) {
                let i = choose|i: int| 0 <= i < t.len() && t[i] == x;
                assert(s[i] == x);
            }
            if x == s.last() {
                assert(s[s.len() - 1] == x);
            }
        }
        if has_equal(p, s.last()) {
            assert(r == p);
        } else {
            assert(r == p.push(s.last()));
            assert forall|x: AppDataView| r.contains(x) <==> (p.contains(x) || x == s.last()) by {
                if r.contains(x) {
                    let i = choose|i: int| 0 <= i < r.len() && r[i] == x;
                    if i < p.len() {
                        assert(p[i] == x);
                    }
                }
                if p.contains(x) {
                    let i = choose|i: int| 0 <= i < p.len() && p[i] == x;
                    assert(r[i] == x);
                }
                if x == s.last() {
                    assert(r[r.len() - 1] == x);
                }
            }
            assert forall|x: AppDataView| has_equal(p, x) implies has_equal(r, x) by {
                let i = choose|i: int| 0 <= i < p.len() && same_entry(p[i], x);
                assert(r[i] == p[i]);
            }
            assert forall|i: int, j: int| 0 <= i < j < r.len() implies !same_entry(r[i], r[j]) by {
                assert(r[i] == p[i]);
                if j < p.len() {
                    assert(r[j] == p[j]);
                } else {
                    assert(r[j] == s.last());
                    if same_entry(p[i], s.last()) {
                        assert(has_equal(p, s.last()));
                    }
                }
            }
        }
    }
}

/// Priorities compare as `f32` numbers: `0.0` equals `-0.0`, a NaN equals
/// nothing (not even itself), any other number equals exactly itself, and the
/// comparison is symmetric.
pub proof fn law_priority_equality(a: u32, b: u32)
    ensures
        same_priority(0, 0x8000_0000),
        a % 0x8000_0000 > 0x7f80_0000 ==> !same_priority(a, b) && !same_priority(b, a),
        a % 0x8000_0000 <= 0x7f80_0000 && a % 0x8000_0000 != 0 ==> same_priority(a, a),
        same_priority(a, b) == same_priority(b, a),
{
}

/// Equality of entries is symmetric.
pub proof fn law_same_entry_symmetric(a: AppDataView, b: AppDataView)
    ensures
        same_entry(a, b) == same_entry(b, a),
{
}

/// Counting a launch of `key` changes the count of `key` alone: the new
/// count stands under `key` and every other key keeps its count; a key not
/// counted yet starts from `0.0`.
pub proof fn law_count_only_the_launched_key(
    m: Map<Seq<char>, u32>,
    key: Seq<char>,
    v: u32,
    other: Seq<char>,
)
    requires
        other != key,
    ensures
        count_of(m.insert(key, v), key) == v,
        count_of(m.insert(key, v), other) == count_of(m, other),
        m.insert(key, v).contains_key(other) == m.contains_key(other),
        !m.contains_key(key) ==> count_of(m, key) == 0,
{
}

/// A set `XDG_CACHE_HOME` decides the cache path whatever `HOME` holds.
pub proof fn law_cache_home_first(
    x: Seq<char>,
    home1: Option<Seq<char>>,
    home2: Option<Seq<char>>,
    file: Seq<char>,
)
    ensures
        cache_path(Some(x), home1, file) == cache_path(Some(x), home2, file),
        cache_path(Some(x), home1, file) is Some,
{
}

/// An alias replaces the name, icon and command it gives and keeps the
/// others; the search string is the resulting name, `;` and the alias's
/// keywords (or the old search string); actions the alias brings take the
/// resulting icon where they have none: the alias's actions replace the
/// entry's, else its added actions follow the entry's; every other field is
/// kept.
pub proof fn law_alias_fields(d: AppDataView, al: AliasView)
    ensures
        aliased(d, Some(al)).name == (if al.name is Some {
            al.name->0
        } else {
            d.name
        }),
        aliased(d, Some(al)).icon == (if al.icon is Some {
            al.icon
        } else {
            d.icon
        }),
        aliased(d, Some(al)).command == (if al.command is Some {
            al.command
        } else {
            d.command
        }),
        aliased(d, Some(al)).search_string == aliased(d, Some(al)).name + seq![';'] + (
        if al.keywords is Some {
            al.keywords->0
        } else {
            d.search_string
        }),
        al.actions matches Some(l) ==> aliased(d, Some(al)).actions == fill_icons(
            l,
            aliased(d, Some(al)).icon,
        ),
        al.actions is None && al.add_actions is Some ==> aliased(d, Some(al)).actions
            == d.actions + fill_icons(al.add_actions->0, aliased(d, Some(al)).icon),
        al.actions is None && al.add_actions is None ==> aliased(d, Some(al)).actions
            == d.actions,
        aliased(d, Some(al)).priority_bits == d.priority_bits,
        aliased(d, Some(al)).icon_class == d.icon_class,
        aliased(d, Some(al)).tag_start == d.tag_start,
        aliased(d, Some(al)).tag_end == d.tag_end,
        aliased(d, Some(al)).desktop_file == d.desktop_file,
        aliased(d, Some(al)).terminal == d.terminal,
{
}

/// Without an alias only the search string changes: it becomes the name,
/// `;` and the old search string.
pub proof fn law_no_alias_fields(d: AppDataView)
    ensures
        aliased(d, None).search_string == d.name + seq![';'] + d.search_string,
        aliased(d, None).name == d.name,
        aliased(d, None).icon == d.icon,
        aliased(d, None).command == d.command,
        aliased(d, None).actions == d.actions,
        aliased(d, None).priority_bits == d.priority_bits,
        aliased(d, None).icon_class == d.icon_class,
        aliased(d, None).tag_start == d.tag_start,
        aliased(d, None).tag_end == d.tag_end,
        aliased(d, None).desktop_file == d.desktop_file,
        aliased(d, None).terminal == d.terminal,
{
}

/// The entry of a raw launcher keeps the launcher's name (or no characters),
/// tags, priority and actions; takes its icon and icon class from the
/// arguments; has no command or desktop file and does not run in a
/// terminal; and is found by `name;` and the `search_string` argument.
pub proof fn law_launcher_fields(raw: RawLauncher)
    ensures
        launcher_data(raw).name == or_empty(opt_str(raw.name)),
        launcher_data(raw).tag_start == opt_str(raw.tag_start),
        launcher_data(raw).tag_end == opt_str(raw.tag_end),
        launcher_data(raw).priority_bits == raw.priority_bits,
        launcher_data(raw).icon == arg_str(raw.args@, "icon"@),
        launcher_data(raw).icon_class == arg_str(raw.args@, "icon_class"@),
        launcher_data(raw).search_string == or_empty(opt_str(raw.name)) + seq![';'] + or_empty(
            arg_str(raw.args@, "search_string"@),
        ),
        raw.actions matches Some(a) ==> launcher_data(raw).actions == actions_view(a@),
        raw.actions is None ==> launcher_data(raw).actions.len() == 0,
        launcher_data(raw).command is None,
        launcher_data(raw).desktop_file is None,
        !launcher_data(raw).terminal,
{
}

/// Equal entries agree in every field but priority and desktop file, which
/// are equal as numbers and as paths.
pub proof fn law_same_entry_fields(a: AppDataView, b: AppDataView)
    requires
        same_entry(a, b),
    ensures
        a.name == b.name,
        a.command == b.command,
        a.search_string == b.search_string,
        a.icon == b.icon,
        a.icon_class == b.icon_class,
        a.tag_start == b.tag_start,
        a.tag_end == b.tag_end,
        a.actions == b.actions,
        a.terminal == b.terminal,
        a.priority_bits == b.priority_bits || (a.priority_bits % 0x8000_0000 == 0
            && b.priority_bits % 0x8000_0000 == 0),
        a.desktop_file is Some <==> b.desktop_file is Some,
        a.desktop_file matches Some(x) ==> path_form(x) == path_form(b.desktop_file->0),
{
}

/// Entries that agree in every field (priority bits and desktop file text
/// included) are equal, unless the priority is a NaN.
pub proof fn law_identical_entries_are_equal(a: AppDataView)
    requires
        a.priority_bits % 0x8000_0000 <= 0x7f80_0000,
    ensures
        same_entry(a, a),
{
}

/// Entries stored under different names are never repeats: from a map whose
/// keys are distinct every entry is kept, in order, named by its key.
pub proof fn law_distinct_names_keep_every_entry(s: Seq<AppDataView>)
    requires
        forall|i: int, j: int| 0 <= i < j < s.len() ==> s[i].name != s[j].name,
    ensures
        without_repeats(s) == s,
    decreases s.len(),
{
    if s.len() > 0 {
        let t = s.drop_last();
        law_distinct_names_keep_every_entry(t);
        assert(without_repeats(t) == t);
        if has_equal(t, s.last()) {
            let i = choose|i: int| 0 <= i < t.len() && same_entry(t[i], s.last());
            assert(t[i].name == s[s.len() - 1].name);
        }
        assert(t.push(s.last()) =~= s);
    }
}

/// Each entry read from a map is named by its key, and otherwise is the
/// stored entry.
pub proof fn law_entries_named_by_keys(entries: Seq<(String, AppData)>, i: int)
    requires
        0 <= i < entries.len(),
    ensures
        renamed(entries).len() == entries.len(),
        renamed(entries)[i].name == entries[i].0@,
        renamed(entries)[i].search_string == entries[i].1@.search_string,
        renamed(entries)[i].command == entries[i].1@.command,
        renamed(entries)[i].priority_bits == entries[i].1@.priority_bits,
        renamed(entries)[i].desktop_file == entries[i].1@.desktop_file,
        renamed(entries)[i].actions == entries[i].1@.actions,
{
}

} // verus!
