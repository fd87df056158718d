use discord_audio_binder::process_tree::{descendants_and_self, ProcSnapshot};
use discord_audio_binder::window_list::{
    attach_process_names, exe_name, listed_windows, selected_window_pid, window_entry, WindowInfo,
};
use std::collections::{HashMap, HashSet};

fn set(v: &[u32]) -> HashSet<u32> {
    v.iter().copied().collect()
}

#[test]
fn descendants_include_children_and_grandchildren() {
    let parent: HashMap<u32, u32> = [(2, 1), (3, 2), (4, 1), (5, 9), (1, 0)].into_iter().collect();
    assert_eq!(descendants_and_self(&parent, 1), set(&[1, 2, 3, 4]));
    assert_eq!(descendants_and_self(&parent, 2), set(&[2, 3]));
    assert_eq!(descendants_and_self(&parent, 9), set(&[9, 5]));
}

#[test]
fn descendants_of_an_unknown_root_are_only_itself() {
    let parent: HashMap<u32, u32> = [(2, 1)].into_iter().collect();
    assert_eq!(descendants_and_self(&parent, 77), set(&[77]));
}

#[test]
fn descendants_survive_parent_cycles() {
    let parent: HashMap<u32, u32> = [(1, 2), (2, 1), (3, 2)].into_iter().collect();
    assert_eq!(descendants_and_self(&parent, 1), set(&[1, 2, 3]));
}

#[test]
fn snapshot_records_names_and_parents() {
    let mut snap = ProcSnapshot::new();
    snap.record(10, 4, "a.exe".to_string());
    snap.record(11, 10, "b.exe".to_string());
    snap.record(10, 5, "c.exe".to_string());
    assert_eq!(snap.names.get(&10).map(|s| s.as_str()), Some("c.exe"));
    assert_eq!(snap.parent.get(&10), Some(&5));
    assert_eq!(snap.parent.get(&11), Some(&10));
}

fn units(s: &str) -> Vec<u16> {
    s.encode_utf16().collect()
}

#[test]
fn exe_name_stops_at_the_first_nul() {
    let mut raw = units("game.exe");
    raw.extend([0, 0, 'x' as u16, 0]);
    assert_eq!(exe_name(&raw), "game.exe");
    assert_eq!(exe_name(&units("plain.exe")), "plain.exe");
    assert_eq!(exe_name(&[0, 'a' as u16]), "");
}

#[test]
fn exe_name_replaces_unpaired_surrogates() {
    let raw = vec!['a' as u16, 0xd800, 'b' as u16, 0];
    assert_eq!(exe_name(&raw), "a\u{fffd}b");
}

#[test]
fn exe_name_joins_surrogate_pairs_and_flags_lone_trailing_ones() {
    let raw = vec![0xd83d, 0xde00, 0xdc00, 'x' as u16, 0, 'y' as u16];
    assert_eq!(exe_name(&raw), "\u{1f600}\u{fffd}x");
}

#[test]
fn window_entries_skip_hidden_blank_and_tool_windows() {
    let w = window_entry(7, 42, true, &units("Game"), 0).unwrap();
    assert_eq!((w.hwnd, w.pid, w.title.as_str(), w.process.as_str()), (7, 42, "Game", ""));
    assert!(window_entry(7, 42, false, &units("Game"), 0).is_none());
    assert!(window_entry(7, 42, true, &units(""), 0).is_none());
    assert!(window_entry(7, 42, true, &units(" \t\u{3000}"), 0).is_none());
    assert!(window_entry(7, 42, true, &units("Game"), 0x80).is_none());
    assert!(window_entry(7, 42, true, &units("Game"), 0x100).is_some());
}

fn window(hwnd: isize, pid: u32, title: &str, process: &str) -> WindowInfo {
    WindowInfo { hwnd, pid, title: title.to_string(), process: process.to_string() }
}

#[test]
fn process_names_are_attached_by_pid() {
    let list = vec![window(1, 10, "A", ""), window(2, 11, "B", "old")];
    let names: HashMap<u32, String> = [(10, "a.exe".to_string())].into_iter().collect();
    let named = attach_process_names(&list, &names);
    assert_eq!(named[0].process, "a.exe");
    assert_eq!(named[1].process, "old");
    assert_eq!(named[1].title, "B");
}

#[test]
fn selected_window_pid_finds_the_first_match() {
    let list = vec![window(1, 10, "A", ""), window(2, 11, "B", ""), window(2, 12, "C", "")];
    assert_eq!(selected_window_pid(&list, Some(2)), Some(11));
    assert_eq!(selected_window_pid(&list, Some(3)), None);
    assert_eq!(selected_window_pid(&list, None), None);
}

#[test]
fn window_list_filter_ignores_case_and_own_windows() {
    let list = vec![
        window(1, 10, "My Game", "game.exe"),
        window(2, 99, "Game tool", "own.exe"),
        window(3, 11, "Browser", "GAMEBAR.exe"),
        window(4, 12, "Editor", "edit.exe"),
    ];
    assert_eq!(listed_windows(&list, 99, "GAME"), vec![0, 2]);
    assert_eq!(listed_windows(&list, 99, ""), vec![0, 2, 3]);
    assert_eq!(listed_windows(&list, 99, "zzz"), Vec::<usize>::new());
}
