use sherlock::errors::SherlockErrorType;
use sherlock::table::KeyedTable;
use sherlock::ui::util::{
    decode_count, encode_count, launcher_modes, BindKey, ConfKeys, CountFile, KeyConfig,
    Modifier, SherlockCounter,
};

fn symbols() -> Vec<String> {
    ["S", "L", "C", "M", "A", "W", "H", "N"].iter().map(|s| s.to_string()).collect()
}

#[test]
fn eval_key_named_keys() {
    assert_eq!(ConfKeys::eval_key("tab"), (Some(BindKey::Tab), Some("⇥".to_string())));
    assert_eq!(ConfKeys::eval_key("TAB"), (Some(BindKey::Tab), Some("⇥".to_string())));
    assert_eq!(ConfKeys::eval_key("Up"), (Some(BindKey::Up), Some("↑".to_string())));
    assert_eq!(ConfKeys::eval_key("down"), (Some(BindKey::Down), Some("↓".to_string())));
    assert_eq!(ConfKeys::eval_key("left"), (Some(BindKey::Left), Some("←".to_string())));
    assert_eq!(ConfKeys::eval_key("right"), (Some(BindKey::Right), Some("→".to_string())));
    assert_eq!(ConfKeys::eval_key("pgup"), (Some(BindKey::PageUp), Some("⇞".to_string())));
    assert_eq!(ConfKeys::eval_key("pgdown"), (Some(BindKey::PageDown), Some("⇟".to_string())));
    assert_eq!(ConfKeys::eval_key("end"), (Some(BindKey::End), Some("End".to_string())));
    assert_eq!(ConfKeys::eval_key("Home"), (Some(BindKey::Home), Some("Home".to_string())));
}

#[test]
fn eval_key_letters() {
    assert_eq!(ConfKeys::eval_key("j"), (Some(BindKey::Letter('j')), Some("J".to_string())));
    assert_eq!(ConfKeys::eval_key("K"), (Some(BindKey::Letter('k')), Some("K".to_string())));
    assert_eq!(ConfKeys::eval_key("1"), (None, None));
    assert_eq!(ConfKeys::eval_key("é"), (None, None));
    assert_eq!(ConfKeys::eval_key(""), (None, None));
    assert_eq!(ConfKeys::eval_key("jk"), (None, None));
}

#[test]
fn eval_mod_names() {
    assert_eq!(ConfKeys::eval_mod("shift"), Some(Modifier::Shift));
    assert_eq!(ConfKeys::eval_mod("control"), Some(Modifier::Control));
    assert_eq!(ConfKeys::eval_mod("alt"), Some(Modifier::Alt));
    assert_eq!(ConfKeys::eval_mod("super"), Some(Modifier::Super));
    assert_eq!(ConfKeys::eval_mod("lock"), Some(Modifier::Lock));
    assert_eq!(ConfKeys::eval_mod("hypr"), Some(Modifier::Hyper));
    assert_eq!(ConfKeys::eval_mod("meta"), Some(Modifier::Meta));
    assert_eq!(ConfKeys::eval_mod("Control"), None);
    assert_eq!(ConfKeys::eval_mod("ctrl"), None);
}

#[test]
fn eval_bind_combination_splits_on_dash() {
    assert_eq!(
        ConfKeys::eval_bind_combination("control-tab"),
        (Some(Modifier::Control), (Some(BindKey::Tab), Some("⇥".to_string())))
    );
    assert_eq!(
        ConfKeys::eval_bind_combination("tab"),
        (None, (Some(BindKey::Tab), Some("⇥".to_string())))
    );
    assert_eq!(
        ConfKeys::eval_bind_combination("alt-j-extra"),
        (Some(Modifier::Alt), (Some(BindKey::Letter('j')), Some("J".to_string())))
    );
    assert_eq!(ConfKeys::eval_bind_combination("foo-bar"), (None, (None, None)));
    assert_eq!(ConfKeys::eval_bind_combination("shift-"), (Some(Modifier::Shift), (None, None)));
}

#[test]
fn get_mod_str_uses_configured_symbols() {
    let cfg = KeyConfig { prev: None, next: None, context: None, modifier: None, mod_key_ascii: symbols() };
    let fallback: Vec<String> = vec!["x".to_string(); 8];
    assert_eq!(ConfKeys::get_mod_str(&Some(Modifier::Shift), Some(&cfg), &fallback), "S");
    assert_eq!(ConfKeys::get_mod_str(&Some(Modifier::Control), Some(&cfg), &fallback), "C");
    assert_eq!(ConfKeys::get_mod_str(&Some(Modifier::Hyper), Some(&cfg), &fallback), "H");
    assert_eq!(ConfKeys::get_mod_str(&None, Some(&cfg), &fallback), "N");
}

#[test]
fn get_mod_str_falls_back() {
    let cfg = KeyConfig { prev: None, next: None, context: None, modifier: None, mod_key_ascii: vec!["a".to_string()] };
    let fallback = symbols();
    assert_eq!(ConfKeys::get_mod_str(&Some(Modifier::Alt), Some(&cfg), &fallback), "A");
    assert_eq!(ConfKeys::get_mod_str(&Some(Modifier::Meta), None, &fallback), "M");
    let short = vec!["only".to_string()];
    assert_eq!(ConfKeys::get_mod_str(&Some(Modifier::Lock), None, &short), "modkey");
    assert_eq!(ConfKeys::get_mod_str(&Some(Modifier::Shift), None, &short), "only");
}

#[test]
fn conf_keys_from_config() {
    let cfg = KeyConfig {
        prev: Some("shift-tab".to_string()),
        next: Some("tab".to_string()),
        context: Some("control-l".to_string()),
        modifier: None,
        mod_key_ascii: symbols(),
    };
    let k = ConfKeys::new(Some(&cfg), &vec![]);
    assert_eq!(k.prev, Some(BindKey::Tab));
    assert_eq!(k.prev_mod, Some(Modifier::Shift));
    assert_eq!(k.next, Some(BindKey::Tab));
    assert_eq!(k.next_mod, None);
    assert_eq!(k.context, Some(BindKey::Letter('l')));
    assert_eq!(k.context_mod, Some(Modifier::Control));
    assert_eq!(k.context_str.as_deref(), Some("L"));
    assert_eq!(k.context_mod_str, "C");
    assert_eq!(k.shortcut_modifier, Some(Modifier::Control));
    assert_eq!(k.shortcut_modifier_str, "C");
}

#[test]
fn conf_keys_shortcut_modifier_and_missing_context() {
    let cfg = KeyConfig {
        prev: None,
        next: None,
        context: None,
        modifier: Some("alt".to_string()),
        mod_key_ascii: vec![],
    };
    let k = ConfKeys::new(Some(&cfg), &symbols());
    assert_eq!(k.shortcut_modifier, Some(Modifier::Alt));
    assert_eq!(k.shortcut_modifier_str, "A");
    assert_eq!(k.context, None);
    assert_eq!(k.context_mod_str, "N");
    assert_eq!(k.context_str, None);
}

#[test]
fn conf_keys_without_config_is_empty() {
    let k = ConfKeys::new(None, &symbols());
    let e = ConfKeys::empty();
    assert_eq!(k.next, e.next);
    assert_eq!(k.shortcut_modifier, None);
    assert_eq!(k.shortcut_modifier_str, "");
    assert_eq!(k.context_mod_str, "");
    assert_eq!(e.prev, None);
}

#[test]
fn count_bytes_are_little_endian() {
    assert_eq!(encode_count(1), vec![1, 0, 0, 0]);
    assert_eq!(encode_count(0x01020304), vec![4, 3, 2, 1]);
    assert_eq!(encode_count(7).as_slice(), &7u32.to_le_bytes());
    assert_eq!(decode_count(&vec![4, 3, 2, 1, 99]), 0x01020304);
    for n in [0u32, 1, 255, 256, 65535, 1 << 24, u32::MAX] {
        assert_eq!(decode_count(&encode_count(n)), n);
    }
}

#[test]
fn sherlock_counter_path() {
    let c = SherlockCounter::new(Some("/x/".to_string()), None).unwrap();
    assert_eq!(c.path, "/x/sherlock/sherlock_count");
    let e = SherlockCounter::new(None, None).err().unwrap();
    assert_eq!(e.error, SherlockErrorType::EnvVarNotFoundError("HOME or XDG_CACHE_HOME".to_string()));
}

#[test]
fn sherlock_counter_read_cases() {
    let c = SherlockCounter::new(None, Some("/h".to_string())).unwrap();
    assert_eq!(c.read(CountFile::Missing).unwrap(), 0);
    assert_eq!(c.read(CountFile::Contents(vec![5, 0, 0, 0])).unwrap(), 5);
    let e = c.read(CountFile::Contents(vec![5, 0])).unwrap_err();
    assert_eq!(e.error, SherlockErrorType::FileReadError("/h/.cache/sherlock/sherlock_count".to_string()));
    assert_eq!(e.traceback, "failed to fill whole buffer");
    let e2 = c.read(CountFile::Unreadable("permission denied".to_string())).unwrap_err();
    assert_eq!(e2.traceback, "permission denied");
}

#[test]
fn sherlock_counter_increment_and_write() {
    let c = SherlockCounter::new(None, Some("/h".to_string())).unwrap();
    let (n, bytes) = c.increment(Ok(41)).unwrap();
    assert_eq!(n, 42);
    assert_eq!(bytes, vec![42, 0, 0, 0]);
    assert_eq!(c.read(CountFile::Contents(bytes)).unwrap(), 42);
    let (m, _) = c.increment(Ok(u32::MAX)).unwrap();
    assert_eq!(m, u32::MAX);
    let err = c.read(CountFile::Unreadable("x".to_string()));
    assert!(c.increment(err).is_err());
    assert_eq!(c.write(258), vec![2, 1, 0, 0]);
}

#[test]
fn launcher_modes_use_alias_with_space() {
    let launchers = vec![
        (Some("cl".to_string()), Some("Clipboard".to_string())),
        (None, Some("Apps".to_string())),
        (Some("web".to_string()), None),
        (Some("cl".to_string()), Some("Calc".to_string())),
    ];
    let m: KeyedTable<Option<String>> = launcher_modes(&launchers);
    assert_eq!(m.len(), 2);
    assert_eq!(m.get("cl "), Some(&Some("Calc".to_string())));
    assert_eq!(m.get("web "), Some(&None));
    assert_eq!(m.get("cl"), None);
}
