use ninepaste::clipboard::{ClipboardEvent, TickAction};
use ninepaste::config::{HistoryEntry, HistoryManager};
use ninepaste::dashboard::{get_transformations_for_category, preview};
use ninepaste::hotkeys::{debounce_allows, parse_hotkey, HotkeyChord, HotkeyError, KeyCode};
use ninepaste::ipc::{parse_command, IpcClient, IpcCommand, IpcServer};
use ninepaste::recipe::{RecipeId, Transformation};
use ninepaste::tray::TrayManager;
use ninepaste::{ClipboardManager, Config, Recipe, RecipeManager};

fn seed_ids() -> [RecipeId; 7] {
    [RecipeId(11), RecipeId(12), RecipeId(13), RecipeId(14), RecipeId(15), RecipeId(16), RecipeId(17)]
}

fn upper_recipe() -> Recipe {
    let mut r = Recipe::new("Up", RecipeId(101), 1_000);
    r.add_transformation(Transformation::ToUppercase, 2_000);
    r
}

#[test]
fn empty_recipe_is_identity() {
    let r = Recipe::new("Nothing", RecipeId(102), 1_000);
    assert!(r.is_empty());
    assert_eq!(r.apply("  a\r\nb "), "  a\r\nb ");
    assert_eq!(r.apply(""), "");
}

#[test]
fn recipe_steps_run_left_to_right() {
    let mut a = Recipe::new("a", RecipeId(103), 1_000);
    a.add_transformation(Transformation::AddPrefix { prefix: "x".to_string() }, 2_000);
    a.add_transformation(Transformation::ToUppercase, 2_000);
    assert_eq!(a.apply("y"), "XY");
    let mut b = Recipe::new("b", RecipeId(104), 1_000);
    b.add_transformation(Transformation::ToUppercase, 2_000);
    b.add_transformation(Transformation::AddPrefix { prefix: "x".to_string() }, 2_000);
    assert_eq!(b.apply("y"), "xY");
}

#[test]
fn parameterised_steps() {
    let bad = Transformation::RegexReplace { pattern: "(".to_string(), replacement: "z".to_string() };
    assert_eq!(bad.apply("a(b"), "a(b");
    let re = Transformation::RegexReplace {
        pattern: "(\\d+)".to_string(),
        replacement: "<$1>".to_string(),
    };
    assert_eq!(re.apply("a1b22"), "a<1>b<22>");
    let fr = Transformation::FindReplace { find: "ab".to_string(), replace: "x".to_string() };
    assert_eq!(fr.apply("abcab"), "xcx");
    assert_eq!(Transformation::AddSuffix { suffix: "!".to_string() }.apply("hi"), "hi!");
    assert_eq!(Transformation::RemovePrefix { prefix: "ab".to_string() }.apply("abc"), "c");
    assert_eq!(Transformation::RemovePrefix { prefix: "zz".to_string() }.apply("abc"), "abc");
    assert_eq!(Transformation::RemoveSuffix { suffix: "bc".to_string() }.apply("abc"), "a");
    assert_eq!(Transformation::RemoveSuffix { suffix: "abcd".to_string() }.apply("abc"), "abc");
    assert_eq!(Transformation::WrapLines { width: 3 }.apply("ab cd"), "ab\ncd");
    assert_eq!(Transformation::JoinLines { separator: "+".to_string() }.apply("a\nb"), "a+b");
}

#[test]
fn names_and_categories() {
    assert_eq!(Transformation::TabsToSpaces { spaces: 2 }.display_name(), "Tabs \u{2192} Spaces");
    assert_eq!(Transformation::Slugify.category(), "URL");
    assert_eq!(Transformation::ToKebabCase.display_name(), "kebab-case");
    assert_eq!(Transformation::from_name("Upper"), Some(Transformation::ToUppercase));
    assert_eq!(Transformation::from_name("dedup"), Some(Transformation::RemoveDuplicateLines));
    assert_eq!(Transformation::from_name("nope"), None);
}

#[test]
fn default_recipes_seed_the_registry() {
    let m = RecipeManager::new(None, seed_ids(), 1_000);
    assert_eq!(m.recipes.len(), 7);
    assert_eq!(m.recipes[0].name, "Plain Text");
    assert_eq!(m.recipes[6].transformations, vec![Transformation::RemoveEmojis]);
    assert!(m.recipes.iter().all(|r| !r.is_active));
    assert!(m.get_active_recipe().is_none());
}

#[test]
fn set_active_marks_exactly_one() {
    let mut m = RecipeManager::new(None, seed_ids(), 1_000);
    let id = m.recipes[3].id;
    m.set_active(id);
    let active: Vec<_> = m.recipes.iter().filter(|r| r.is_active).collect();
    assert_eq!(active.len(), 1);
    assert_eq!(active[0].id, id);
    assert_eq!(m.get_active_recipe().map(|r| r.id), Some(id));
    let other = m.recipes[1].id;
    m.set_active(other);
    assert_eq!(m.recipes.iter().filter(|r| r.is_active).count(), 1);
    assert!(m.recipes[1].is_active);
    m.deactivate_all();
    assert!(m.get_active_recipe().is_none());
}

#[test]
fn registry_crud() {
    let mut m = RecipeManager::new(Some(Vec::new()), seed_ids(), 1_000);
    assert!(m.recipes.is_empty());
    let r = Recipe::new("Mine", RecipeId(105), 1_000);
    let id = r.id;
    m.add_recipe(r);
    m.add_recipe(Recipe::new("Other", RecipeId(106), 1_000));
    assert_eq!(m.get_recipe(id).map(|r| r.name.clone()), Some("Mine".to_string()));
    let mut changed = Recipe::new("Renamed", RecipeId(107), 1_000);
    changed.id = id;
    m.update_recipe(changed, 3_000);
    assert_eq!(m.recipes[0].modified_at, 3_000);
    assert_eq!(m.recipes[0].name, "Renamed");
    assert_eq!(m.find_by_name_or_id("RENAMED").map(|r| r.id), Some(id));
    let text = id.to_text();
    assert_eq!(m.find_by_name_or_id(&text).map(|r| r.id), Some(id));
    m.remove_recipe(id);
    assert_eq!(m.recipes.len(), 1);
    assert!(m.get_recipe(id).is_none());
    let missing = Recipe::new("Ghost", RecipeId(108), 1_000);
    m.update_recipe(missing, 3_000);
    assert_eq!(m.recipes.len(), 1);
    assert_eq!(m.recipes[0].name, "Other");
}

#[test]
fn identifiers_and_times_are_given() {
    let mut a = Recipe::new("a", RecipeId(42), 1_000);
    assert_eq!(a.id, RecipeId(42));
    assert_eq!(a.created_at, 1_000);
    assert_eq!(a.modified_at, 1_000);
    a.add_transformation(Transformation::ToLowercase, 2_000);
    assert_eq!(a.created_at, 1_000);
    assert_eq!(a.modified_at, 2_000);
    let id = RecipeId(0x0123456789abcdef0123456789abcdef);
    assert_eq!(id.to_text(), "01234567-89ab-cdef-0123-456789abcdef");
}

#[test]
fn seed_recipes_take_the_given_distinct_ids() {
    let m = RecipeManager::new(None, seed_ids(), 5);
    let ids: Vec<RecipeId> = m.recipes.iter().map(|r| r.id).collect();
    assert_eq!(ids, seed_ids().to_vec());
    assert!(m.recipes.iter().all(|r| r.created_at == 5));
}

#[test]
fn monitor_does_not_echo_its_own_write() {
    let recipe = upper_recipe();
    let mut m = ClipboardManager::new();
    m.start_monitoring(Some("start".to_string()));
    assert!(m.is_running());
    assert!(matches!(m.poll("start", Some(&recipe)), TickAction::Idle));
    match m.poll("hello", Some(&recipe)) {
        TickAction::Rewrite { original, result } => {
            assert_eq!(original, "hello");
            assert_eq!(result, "HELLO");
            match m.write_finished(&original, &result, None) {
                ClipboardEvent::Transformed { original, result } => {
                    assert_eq!(original, "hello");
                    assert_eq!(result, "HELLO");
                }
                other => panic!("unexpected event {:?}", other),
            }
        }
        other => panic!("unexpected action {:?}", other),
    }
    assert!(matches!(m.poll("HELLO", Some(&recipe)), TickAction::Idle));
    m.stop_monitoring();
    m.stop_monitoring();
    assert!(!m.is_running());
}

#[test]
fn monitor_failed_write_keeps_the_read_text() {
    let recipe = upper_recipe();
    let mut m = ClipboardManager::new();
    let action = m.poll("abc", Some(&recipe));
    assert!(matches!(action, TickAction::Rewrite { .. }));
    match m.write_finished("abc", "ABC", Some("busy".to_string())) {
        ClipboardEvent::Error(e) => assert_eq!(e, "busy"),
        other => panic!("unexpected event {:?}", other),
    }
    assert!(matches!(m.poll("abc", Some(&recipe)), TickAction::Idle));
}

#[test]
fn monitor_reports_without_rewrite() {
    let recipe = upper_recipe();
    let mut m = ClipboardManager::new();
    m.set_transform_enabled(false);
    assert!(!m.is_transform_enabled());
    match m.poll("abc", Some(&recipe)) {
        TickAction::Report { current } => assert_eq!(current, "abc"),
        other => panic!("unexpected action {:?}", other),
    }
    m.set_transform_enabled(true);
    assert!(matches!(m.poll("ABC", Some(&recipe)), TickAction::Report { .. }));
    assert!(matches!(m.poll("ABC", None), TickAction::Idle));
    assert!(matches!(m.poll("xyz", None), TickAction::Report { .. }));
}

#[test]
fn hotkeys() {
    assert_eq!(
        parse_hotkey("Ctrl+Shift+T"),
        Ok(HotkeyChord { ctrl: true, shift: true, alt: false, meta: false, key: KeyCode::KeyT })
    );
    assert_eq!(
        parse_hotkey(" control + ALT + f5 "),
        Ok(HotkeyChord { ctrl: true, shift: false, alt: true, meta: false, key: KeyCode::F5 })
    );
    assert_eq!(
        parse_hotkey("cmd+a+Foo+b"),
        Ok(HotkeyChord { ctrl: false, shift: false, alt: false, meta: true, key: KeyCode::KeyB })
    );
    assert_eq!(parse_hotkey("Ctrl+Shift"), Err(HotkeyError::NoKey));
    assert_eq!(parse_hotkey(""), Err(HotkeyError::NoKey));
    assert!(debounce_allows(300));
    assert!(!debounce_allows(299));
}

#[test]
fn ipc_words() {
    assert_eq!(parse_command("  RELOAD\n"), Some(IpcCommand::ReloadRecipe));
    assert_eq!(parse_command("TRANSFORM"), Some(IpcCommand::ToggleTransformation));
    assert_eq!(parse_command("PING"), Some(IpcCommand::Ping));
    assert_eq!(parse_command("reload"), None);
    assert_eq!(IpcClient::command_text(IpcCommand::Ping), "PING");
    assert!(IpcClient::is_pong(b"PONG"));
    assert!(!IpcClient::is_pong(b"PONG!"));
    let mut s = IpcServer::new();
    assert!(!s.is_running());
    s.start();
    assert!(s.is_running());
    s.stop();
    assert!(!s.is_running());
    let mut t = TrayManager::new();
    t.start();
    t.stop();
    assert!(!t.is_running());
}

#[test]
fn config_defaults() {
    let c = Config::default();
    assert_eq!(c.poll_interval_ms, 250);
    assert!(c.auto_transform);
    assert_eq!(c.toggle_hotkey.as_deref(), Some("Ctrl+Shift+T"));
    assert_eq!(c.theme, "system");
    assert_eq!(c.max_history_size, 100);
}

fn entry(s: &str) -> HistoryEntry {
    HistoryEntry { original: s.to_string(), transformed: None, recipe_id: None, recipe_name: None, timestamp: 0 }
}

#[test]
fn history_keeps_newest_first_within_its_size() {
    let mut h = HistoryManager::new(2, None);
    h.add(entry("a"));
    h.add(entry("b"));
    h.add(entry("c"));
    let all: Vec<_> = h.get_all().iter().map(|e| e.original.clone()).collect();
    assert_eq!(all, vec!["c".to_string(), "b".to_string()]);
    h.clear();
    assert!(h.get_all().is_empty());
}

#[test]
fn dashboard_logic() {
    assert_eq!(
        get_transformations_for_category("HTML"),
        vec![Transformation::EncodeHtmlEntities, Transformation::DecodeHtmlEntities]
    );
    assert!(get_transformations_for_category("Nope").is_empty());
    let m = RecipeManager::new(None, seed_ids(), 1_000);
    let id = m.recipes[2].id;
    assert_eq!(preview(&m, Some(id), " b\na\n b\n\n"), Some("b\na".to_string()));
    assert_eq!(preview(&m, None, "x"), None);
    assert_eq!(preview(&m, Some(RecipeId(7)), "x"), None);
}

#[test]
fn editing_a_recipe_in_place() {
    let mut m = RecipeManager::new(None, seed_ids(), 1_000);
    let id = m.recipes[1].id;
    match m.get_recipe_mut(id) {
        Some(r) => {
            assert_eq!(r.transformations.len(), 4);
            r.remove_transformation(0, 4_000);
            r.name = "Tidy Code".to_string();
        }
        None => panic!("recipe not found"),
    }
    assert_eq!(m.recipes[1].name, "Tidy Code");
    assert_eq!(
        m.recipes[1].transformations,
        vec![
            Transformation::TrimLines,
            Transformation::ToUnixLineEndings,
            Transformation::TabsToSpaces { spaces: 4 },
        ]
    );
    assert!(m.get_recipe_mut(RecipeId(1)).is_none());
}
