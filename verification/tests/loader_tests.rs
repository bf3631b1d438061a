use sherlock::errors::SherlockErrorType;
use sherlock::loader::util::{
    cache_file_path, default_true, deserialize_named_appdata, join_path, path_parts, same_path,
    same_priority_bits, AppData,
    ApplicationAction, CounterReader, RawLauncher, SherlockAlias,
};
use sherlock::table::KeyedTable;

fn action(name: Option<&str>, exec: Option<&str>, icon: Option<&str>, method: &str) -> ApplicationAction {
    ApplicationAction {
        name: name.map(|s| s.to_string()),
        command: exec.map(|s| s.to_string()),
        icon: icon.map(|s| s.to_string()),
        method: method.to_string(),
        exit: true,
    }
}

fn raw(name: Option<&str>) -> RawLauncher {
    RawLauncher {
        name: name.map(|s| s.to_string()),
        alias: None,
        tag_start: Some("start".to_string()),
        tag_end: None,
        display_name: None,
        on_return: None,
        next_content: None,
        launcher_type: "app_launcher".to_string(),
        priority_bits: 2.5f32.to_bits(),
        shortcut: true,
        spawn_focus: true,
        is_async: false,
        home: false,
        only_home: false,
        args: KeyedTable::new(),
        actions: None,
        add_actions: None,
    }
}

fn empty_alias() -> SherlockAlias {
    SherlockAlias { name: None, icon: None, command: None, keywords: None, actions: None, add_actions: None }
}

#[test]
fn default_true_is_true() {
    assert!(default_true());
}

#[test]
fn new_action_has_method_and_exits() {
    let a = ApplicationAction::new("app_launcher");
    assert_eq!(a.method, "app_launcher");
    assert!(a.exit);
    assert_eq!(a.name, None);
    assert_eq!(a.command, None);
    assert_eq!(a.icon, None);
    assert!(!a.is_valid());
    assert!(!a.is_full());
}

#[test]
fn valid_and_full_actions() {
    let a = action(Some("New Window"), Some("firefox --new-window"), None, "app_launcher");
    assert!(a.is_valid());
    assert!(!a.is_full());
    let b = action(Some("New Window"), Some("firefox --new-window"), Some("firefox"), "app_launcher");
    assert!(b.is_valid());
    assert!(b.is_full());
    let c = action(Some("x"), None, Some("i"), "m");
    assert!(!c.is_valid());
    assert!(!c.is_full());
}

#[test]
fn new_app_data_is_empty() {
    let d = AppData::new();
    assert_eq!(d.name, "");
    assert_eq!(d.search_string, "");
    assert_eq!(d.priority_bits, 0);
    assert_eq!(f32::from_bits(d.priority_bits), 0.0);
    assert!(d.command.is_none() && d.icon.is_none() && d.icon_class.is_none());
    assert!(d.tag_start.is_none() && d.tag_end.is_none() && d.desktop_file.is_none());
    assert!(d.actions.is_empty());
    assert!(!d.terminal);
}

#[test]
fn with_priority_sets_only_priority() {
    let d = AppData::new().with_priority(3.0f32.to_bits());
    assert_eq!(f32::from_bits(d.priority_bits), 3.0);
    assert_eq!(d.name, "");
}

#[test]
fn from_raw_launcher_reads_name_args_and_search() {
    let mut r = raw(Some("Calculator"));
    r.args.insert("icon".to_string(), "accessories-calculator".to_string());
    r.args.insert("icon_class".to_string(), "big".to_string());
    r.args.insert("search_string".to_string(), "calc;math".to_string());
    r.actions = Some(vec![action(Some("a"), Some("b"), None, "m")]);
    let d = AppData::from_raw_launcher(&r);
    assert_eq!(d.name, "Calculator");
    assert_eq!(d.search_string, "Calculator;calc;math");
    assert_eq!(d.icon.as_deref(), Some("accessories-calculator"));
    assert_eq!(d.icon_class.as_deref(), Some("big"));
    assert_eq!(d.tag_start.as_deref(), Some("start"));
    assert_eq!(d.tag_end, None);
    assert_eq!(f32::from_bits(d.priority_bits), 2.5);
    assert_eq!(d.actions, vec![action(Some("a"), Some("b"), None, "m")]);
    assert!(d.command.is_none());
    assert!(!d.terminal);
}

#[test]
fn from_raw_launcher_without_name_or_args() {
    let r = raw(None);
    let d = AppData::from_raw_launcher(&r);
    assert_eq!(d.name, "");
    assert_eq!(d.search_string, ";");
    assert_eq!(d.icon, None);
    assert!(d.actions.is_empty());
}

#[test]
fn apply_no_alias_prefixes_name() {
    let mut d = AppData::new();
    d.name = "Firefox".to_string();
    d.search_string = "web browser".to_string();
    d.apply_alias(None);
    assert_eq!(d.search_string, "Firefox;web browser");
}

#[test]
fn apply_empty_alias_is_like_none() {
    let mut d = AppData::new();
    d.name = "Firefox".to_string();
    d.search_string = "web".to_string();
    let mut e = d.clone();
    d.apply_alias(Some(empty_alias()));
    e.apply_alias(None);
    assert_eq!(d, e);
}

#[test]
fn apply_alias_renames_and_uses_keywords() {
    let mut d = AppData::new();
    d.name = "Firefox".to_string();
    d.search_string = "web".to_string();
    d.command = Some("firefox".to_string());
    let mut a = empty_alias();
    a.name = Some("Browser".to_string());
    a.icon = Some("web-icon".to_string());
    a.command = Some("firefox --private".to_string());
    a.keywords = Some("internet surf".to_string());
    d.apply_alias(Some(a));
    assert_eq!(d.name, "Browser");
    assert_eq!(d.icon.as_deref(), Some("web-icon"));
    assert_eq!(d.command.as_deref(), Some("firefox --private"));
    assert_eq!(d.search_string, "Browser;internet surf");
}

#[test]
fn apply_alias_adds_actions_with_icons() {
    let mut d = AppData::new();
    d.name = "Files".to_string();
    d.actions = vec![action(Some("old"), Some("x"), None, "m")];
    let mut a = empty_alias();
    a.icon = Some("folder".to_string());
    a.add_actions = Some(vec![
        action(Some("new"), Some("y"), None, "m"),
        action(Some("own"), Some("z"), Some("mine"), "m"),
    ]);
    d.apply_alias(Some(a));
    assert_eq!(d.actions.len(), 3);
    assert_eq!(d.actions[0].icon, None);
    assert_eq!(d.actions[1].icon.as_deref(), Some("folder"));
    assert_eq!(d.actions[2].icon.as_deref(), Some("mine"));
    assert_eq!(d.search_string, "Files;");
}

#[test]
fn apply_alias_actions_replace_added_ones() {
    let mut d = AppData::new();
    d.name = "Files".to_string();
    d.icon = Some("folder".to_string());
    d.actions = vec![action(Some("old"), Some("x"), None, "m")];
    let mut a = empty_alias();
    a.add_actions = Some(vec![action(Some("added"), Some("y"), None, "m")]);
    a.actions = Some(vec![action(Some("only"), Some("z"), None, "m")]);
    d.apply_alias(Some(a));
    assert_eq!(d.actions, vec![action(Some("only"), Some("z"), Some("folder"), "m")]);
}

#[test]
fn named_appdata_takes_keys_as_names_and_drops_repeats() {
    let mut a = AppData::new();
    a.command = Some("a".to_string());
    let mut b = AppData::new();
    b.command = Some("b".to_string());
    let entries = vec![
        ("One".to_string(), a.clone()),
        ("Two".to_string(), b.clone()),
        ("One".to_string(), a.clone()),
    ];
    let r = deserialize_named_appdata(entries);
    assert_eq!(r.len(), 2);
    assert_eq!(r[0].name, "One");
    assert_eq!(r[0].command.as_deref(), Some("a"));
    assert_eq!(r[1].name, "Two");
}

#[test]
fn named_appdata_keeps_same_data_under_other_names() {
    let a = AppData::new();
    let r = deserialize_named_appdata(vec![("x".to_string(), a.clone()), ("y".to_string(), a)]);
    assert_eq!(r.len(), 2);
}

#[test]
fn join_path_cases() {
    assert_eq!(join_path("/home/u", ".cache"), "/home/u/.cache");
    assert_eq!(join_path("/home/u/", ".cache"), "/home/u/.cache");
    assert_eq!(join_path("", "sherlock/counts.json"), "sherlock/counts.json");
}

#[test]
fn cache_path_prefers_xdg() {
    let p = cache_file_path(Some("/xdg".to_string()), Some("/home/u".to_string()), "sherlock/counts.json");
    assert_eq!(p.unwrap(), "/xdg/sherlock/counts.json");
    let q = cache_file_path(None, Some("/home/u".to_string()), "sherlock/counts.json");
    assert_eq!(q.unwrap(), "/home/u/.cache/sherlock/counts.json");
}

#[test]
fn cache_path_needs_a_home() {
    let e = cache_file_path(None, None, "f").unwrap_err();
    assert_eq!(e.error, SherlockErrorType::EnvVarNotFoundError("HOME or XDG_CACHE_HOME".to_string()));
    assert_eq!(e.traceback, "Neither HOME nor XDG_CACHE_HOME environment variable found");
}

#[test]
fn counter_reader_path() {
    let c = CounterReader::new(None, Some("/root".to_string())).unwrap();
    assert_eq!(c.path, "/root/.cache/sherlock/counts.json");
    assert!(CounterReader::new(None, None).is_err());
}

fn add_one(b: u32) -> u32 {
    (f32::from_bits(b) + 1.0).to_bits()
}

#[test]
fn counter_reader_increment_counts_one_key() {
    let c = CounterReader::new(Some("/c".to_string()), None).unwrap();
    let mut t: KeyedTable<u32> = KeyedTable::new();
    t.insert("other".to_string(), 7.5f32.to_bits());
    c.increment(&mut t, "firefox", add_one);
    assert_eq!(t.get("firefox").map(|b| f32::from_bits(*b)), Some(1.0));
    c.increment(&mut t, "firefox", add_one);
    assert_eq!(t.get("firefox").map(|b| f32::from_bits(*b)), Some(2.0));
    assert_eq!(t.get("other").map(|b| f32::from_bits(*b)), Some(7.5));
    assert_eq!(t.len(), 2);
}

#[test]
fn counter_reader_increment_keeps_fractions() {
    let c = CounterReader::new(Some("/c".to_string()), None).unwrap();
    let mut t: KeyedTable<u32> = KeyedTable::new();
    t.insert("k".to_string(), 2.25f32.to_bits());
    c.increment(&mut t, "k", add_one);
    assert_eq!(t.get("k").map(|b| f32::from_bits(*b)), Some(3.25));
}

#[test]
fn named_appdata_merges_signed_zero_priorities() {
    let a = AppData::new().with_priority(0.0f32.to_bits());
    let b = AppData::new().with_priority((-0.0f32).to_bits());
    let r = deserialize_named_appdata(vec![("x".to_string(), a), ("x".to_string(), b)]);
    assert_eq!(r.len(), 1);
}

#[test]
fn named_appdata_keeps_nan_priorities_apart() {
    let a = AppData::new().with_priority(f32::NAN.to_bits());
    let r = deserialize_named_appdata(vec![("x".to_string(), a.clone()), ("x".to_string(), a)]);
    assert_eq!(r.len(), 2);
}

#[test]
fn named_appdata_compares_desktop_files_as_paths() {
    let mut a = AppData::new();
    a.desktop_file = Some("/usr/share//applications/./f.desktop".to_string());
    let mut b = AppData::new();
    b.desktop_file = Some("/usr/share/applications/f.desktop/".to_string());
    let mut c = AppData::new();
    c.desktop_file = Some("usr/share/applications/f.desktop".to_string());
    let r = deserialize_named_appdata(vec![
        ("x".to_string(), a),
        ("x".to_string(), b),
        ("x".to_string(), c),
    ]);
    assert_eq!(r.len(), 2);
}

#[test]
fn path_comparison_follows_components() {
    assert!(same_path("a//b", "a/b"));
    assert!(same_path("a/./b/", "a/b"));
    assert!(!same_path("./a", "a"));
    assert!(same_path("./a", "././a"));
    assert!(!same_path("/a", "a"));
    assert!(!same_path("a/../b", "b"));
    assert!(same_path("", ""));
    assert_eq!(path_parts("/x//y/./z"), vec!["x".to_string(), "y".to_string(), "z".to_string()]);
    for (p, q) in [("a//b", "a/b"), ("./a", "a"), ("a/./b/", "a/b"), ("/a", "a"), ("./a", "././a")] {
        assert_eq!(
            same_path(p, q),
            std::path::Path::new(p) == std::path::Path::new(q),
            "{p} vs {q}"
        );
    }
}

#[test]
fn priority_comparison_follows_f32() {
    let vals = [0.0f32, -0.0, 1.0, -1.0, f32::NAN, f32::INFINITY, f32::NEG_INFINITY, 2.5];
    for x in vals {
        for y in vals {
            assert_eq!(same_priority_bits(x.to_bits(), y.to_bits()), x == y, "{x} vs {y}");
        }
    }
}

#[test]
fn keyed_table_get_after_insert() {
    let mut t: KeyedTable<u64> = KeyedTable::new();
    assert_eq!(t.len(), 0);
    assert_eq!(t.get("a"), None);
    t.insert("a".to_string(), 1);
    t.insert("b".to_string(), 2);
    t.insert("a".to_string(), 3);
    assert_eq!(t.get("a"), Some(&3));
    assert_eq!(t.get("b"), Some(&2));
    assert_eq!(t.len(), 2);
    let keys: Vec<&str> = t.entries().iter().map(|(k, _)| k.as_str()).collect();
    assert_eq!(keys, vec!["a", "b"]);
}
