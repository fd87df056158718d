use discord_audio_binder::capture_control::{
    idle_sleep_micros, offscreen_origin, CaptureAction, CaptureControl, Cmd, FrameSlots, ASPECT_UNIT,
};
use discord_audio_binder::crop_edit::{
    cursor_for, drag_mode_at, CropDragMode, CropEditor, CropResizeEdges, CursorShape, EdgeProximity,
};
use discord_audio_binder::relay_control::{
    applies_tree_volume, device_entry, relay_write_fits, device_label, keep_known_device, plan_relay_write, relay_sleep_ms,
    relay_target, OutputDevice, RelayCmd, RelayControl, RelayEffect, RelayWrite,
};
use discord_audio_binder::tidal_control::{TidalAction, TidalCmd, TidalNav};
use std::collections::HashSet;

#[test]
fn capture_commands_change_settings_and_invalidate_the_crop() {
    let mut c = CaptureControl::new();
    c.crop_cache = Some((0, 0, 10, 10));
    assert_eq!(c.apply(Cmd::SetCrop(false)), CaptureAction::Nothing);
    assert!(!c.crop.client_only);
    assert!(c.crop_cache.is_none());
    c.crop_cache = Some((0, 0, 10, 10));
    c.apply(Cmd::SetAspect { w: 1, h: 100 * ASPECT_UNIT });
    assert_eq!((c.crop.aspect_w, c.crop.aspect_h), (ASPECT_UNIT, 64 * ASPECT_UNIT));
    // A term that is not a number (0) is kept: no aspect crop is made then.
    c.apply(Cmd::SetAspect { w: 0, h: 9 * ASPECT_UNIT });
    assert_eq!((c.crop.aspect_w, c.crop.aspect_h), (0, 9 * ASPECT_UNIT));
    assert!(c.crop_cache.is_none());
    assert_eq!(c.refresh_region(200, 100, None), (0, 0, 200, 100));
    c.apply(Cmd::SetAspectAlign { x: -4, y: 9 });
    assert_eq!((c.crop.align_x, c.crop.align_y), (0, 2));
    assert_eq!(c.apply(Cmd::SetVsync(false)), CaptureAction::Nothing);
    assert_eq!(c.present_interval(), 0);
    assert_eq!(c.apply(Cmd::SetNits(7)), CaptureAction::SetNits(7));
    assert_eq!(c.apply(Cmd::SetOutputFps(9)), CaptureAction::SetOutputFps(9));
    assert_eq!(c.apply(Cmd::Show), CaptureAction::ShowOutput);
    assert_eq!(c.apply(Cmd::Hide), CaptureAction::HideOutput);
}

#[test]
fn hdr_change_restarts_only_a_running_capture() {
    let mut c = CaptureControl::new();
    assert_eq!(c.apply(Cmd::SetHdr(true)), CaptureAction::Nothing);
    assert!(c.hdr);
    assert_eq!(c.apply(Cmd::Start { target_hwnd: 77 }), CaptureAction::StartCapture);
    assert_eq!(c.target, 77);
    c.capture_started();
    assert_eq!(c.apply(Cmd::SetHdr(true)), CaptureAction::Nothing);
    assert_eq!(c.apply(Cmd::SetHdr(false)), CaptureAction::RestartCapture);
    assert!(!c.capturing);
    c.capture_started();
    assert_eq!(c.apply(Cmd::Stop), CaptureAction::StopCapture);
    assert!(!c.capturing);
    assert_eq!(c.apply(Cmd::Quit), CaptureAction::Quit);
}

#[test]
fn crop_cache_is_reused_for_the_same_frame_size() {
    let mut c = CaptureControl::new();
    c.apply(Cmd::SetAspectCrop(false));
    let r = c.refresh_region(1296, 759, Some((8, 31, 1280, 720)));
    assert_eq!(r, (8, 31, 1280, 720));
    assert_eq!(c.cached_region(1296, 759, 100), Some(Some((8, 31, 1280, 720))));
    assert_eq!(c.cached_region(1296, 759, 600), None);
    assert_eq!(c.cached_region(1920, 1080, 100), None);
    c.apply(Cmd::SetCrop(false));
    assert_eq!(c.cached_region(1296, 759, 100), Some(None));
}

#[test]
fn newest_frame_is_shown_and_kept_for_repeats() {
    let mut slots: FrameSlots<u32> = FrameSlots::new();
    slots.offer(Some(1));
    slots.offer(None);
    slots.promote();
    assert_eq!((slots.pending, slots.last), (None, Some(1)));
    slots.promote();
    assert_eq!(slots.last, Some(1));
    slots.offer(Some(2));
    slots.offer(Some(3));
    slots.promote();
    assert_eq!(slots.last, Some(3));
    slots.clear();
    assert_eq!((slots.pending, slots.last), (None, None));
}

#[test]
fn idle_sleep_is_kept_between_bounds() {
    assert_eq!(idle_sleep_micros(0), 300);
    assert_eq!(idle_sleep_micros(650), 650);
    assert_eq!(idle_sleep_micros(16_000), 1000);
}

#[test]
fn hidden_output_window_sits_right_of_all_screens() {
    assert_eq!(offscreen_origin(-1920, 3840), (1970, 50));
    assert_eq!(offscreen_origin(0, 2560), (2610, 50));
}

#[test]
fn relay_commands_choose_when_to_reopen() {
    let mut r = RelayControl::new();
    assert_eq!(r.apply(RelayCmd::SetDevice(Some("dev".to_string()))), RelayEffect::Nothing);
    assert_eq!(r.process_to_open(false, true), None);
    assert_eq!(r.apply(RelayCmd::Start { pid: 42 }), RelayEffect::Reopen);
    assert_eq!(r.process_to_open(false, true), Some(42));
    assert_eq!(r.process_to_open(true, true), None);
    assert_eq!(r.process_to_open(false, false), None);
    assert_eq!(r.apply(RelayCmd::SetDevice(None)), RelayEffect::Reopen);
    assert!(r.device_id.is_none());
    assert_eq!(r.apply(RelayCmd::Stop), RelayEffect::Close);
    assert_eq!(r.want_pid, None);
    assert_eq!(r.apply(RelayCmd::Quit), RelayEffect::Quit);
    assert_eq!((relay_sleep_ms(true), relay_sleep_ms(false)), (5, 30));
}

#[test]
fn relay_writes_what_fits_the_output_buffer() {
    assert_eq!(plan_relay_write(480, 960, 800, 8, 0), RelayWrite { frames: 160, bytes: 1280, silent: false });
    assert_eq!(plan_relay_write(100, 960, 0, 8, 2), RelayWrite { frames: 100, bytes: 800, silent: true });
    assert_eq!(plan_relay_write(100, 960, 1000, 8, 1), RelayWrite { frames: 0, bytes: 0, silent: false });
}

#[test]
fn game_audio_relay_follows_the_selection() {
    assert_eq!(relay_target(true, Some(5)), Some(5));
    assert_eq!(relay_target(false, Some(5)), None);
    assert_eq!(relay_target(true, None), None);
}

fn device(id: &str, name: &str) -> OutputDevice {
    OutputDevice { id: id.to_string(), name: name.to_string() }
}

#[test]
fn output_devices_need_an_id_and_get_a_fallback_name() {
    assert!(device_entry(String::new(), Some("x".to_string())).is_none());
    let d = device_entry("id1".to_string(), None).unwrap();
    assert_eq!((d.id.as_str(), d.name.as_str()), ("id1", "(알 수 없음)"));
    let d = device_entry("id2".to_string(), Some("Speakers".to_string())).unwrap();
    assert_eq!(d.name, "Speakers");
}

#[test]
fn chosen_device_is_kept_only_while_listed() {
    let devices = vec![device("a", "Speakers"), device("b", "Cable")];
    assert_eq!(keep_known_device(Some("b".to_string()), &devices).as_deref(), Some("b"));
    assert_eq!(keep_known_device(Some("c".to_string()), &devices), None);
    assert_eq!(keep_known_device(None, &devices), None);
    assert_eq!(device_label(&Some("b".to_string()), &devices), "Cable");
    assert_eq!(device_label(&Some("c".to_string()), &devices), "기본 출력 장치");
    assert_eq!(device_label(&None, &devices), "기본 출력 장치");
}

#[test]
fn volume_applies_to_the_tree_except_the_relay() {
    let tree: HashSet<u32> = [1, 2, 3].into_iter().collect();
    assert!(applies_tree_volume(2, 1, &tree));
    assert!(!applies_tree_volume(1, 1, &tree));
    assert!(!applies_tree_volume(0, 1, &tree));
    assert!(!applies_tree_volume(9, 1, &tree));
}

#[test]
fn player_does_not_reload_the_page_shown() {
    let mut nav = TidalNav::new();
    assert_eq!(nav.last_url, "https://listen.tidal.com");
    assert!(matches!(nav.step(TidalCmd::Navigate("https://listen.tidal.com".to_string())), TidalAction::Nothing));
    match nav.step(TidalCmd::Navigate("https://www.youtube.com".to_string())) {
        TidalAction::LoadUrl(u) => assert_eq!(u, "https://www.youtube.com"),
        other => panic!("unexpected {:?}", other),
    }
    assert!(matches!(nav.step(TidalCmd::Navigate("https://www.youtube.com".to_string())), TidalAction::Nothing));
    match nav.step(TidalCmd::Html("<p>tone</p>".to_string())) {
        TidalAction::LoadHtml(h) => assert_eq!(h, "<p>tone</p>"),
        other => panic!("unexpected {:?}", other),
    }
    assert_eq!(nav.last_url, "about:tone");
    assert!(matches!(nav.step(TidalCmd::Navigate("https://www.youtube.com".to_string())), TidalAction::LoadUrl(_)));
    assert!(matches!(nav.step(TidalCmd::Show), TidalAction::Show));
    assert!(matches!(nav.step(TidalCmd::Hide), TidalAction::Hide));
    assert!(matches!(nav.step(TidalCmd::Quit), TidalAction::Quit));
}

#[test]
fn crop_edit_cancel_restores_and_finish_commits() {
    let mut e: CropEditor<[u32; 4], u8> = CropEditor::new(Some([1, 2, 3, 4]));
    assert!(!e.automatic_crop_enabled());
    e.begin();
    e.set_working([5, 6, 7, 8]);
    assert_eq!(e.shown(), Some([5, 6, 7, 8]));
    assert_eq!(e.cancel(), Some(Some([1, 2, 3, 4])));
    assert_eq!(e.manual, Some([1, 2, 3, 4]));
    assert_eq!(e.cancel(), None);
    e.begin();
    e.set_working([5, 6, 7, 8]);
    assert_eq!(e.finish(), Some([5, 6, 7, 8]));
    assert_eq!(e.manual, Some([5, 6, 7, 8]));
    assert!(!e.selecting);
    e.reset();
    assert_eq!(e.shown(), None);
    assert!(e.automatic_crop_enabled());
}

#[test]
fn cursor_shape_follows_the_drag() {
    let edges = |left, right, top, bottom| CropDragMode::Resize(CropResizeEdges { left, right, top, bottom });
    assert_eq!(cursor_for(CropDragMode::New), CursorShape::Crosshair);
    assert_eq!(cursor_for(CropDragMode::Move), CursorShape::Grab);
    assert_eq!(cursor_for(edges(true, false, true, false)), CursorShape::ResizeNwSe);
    assert_eq!(cursor_for(edges(false, true, false, true)), CursorShape::ResizeNwSe);
    assert_eq!(cursor_for(edges(false, true, true, false)), CursorShape::ResizeNeSw);
    assert_eq!(cursor_for(edges(true, false, false, false)), CursorShape::ResizeHorizontal);
    assert_eq!(cursor_for(edges(false, false, false, true)), CursorShape::ResizeVertical);
}

#[test]
fn relay_write_size_check_matches_the_frames_written() {
    assert!(relay_write_fits(100, 480, 400, 8));
    assert!(relay_write_fits(10, 20, 30, u32::MAX));
    assert!(!relay_write_fits(100, 480, 0, u32::MAX));
    assert!(relay_write_fits(1, 480, 0, u32::MAX));
    assert!(!relay_write_fits(2, 480, 0, u32::MAX));
}

fn proximity(near: [bool; 4], left_not_farther: bool, top_not_farther: bool) -> EdgeProximity {
    EdgeProximity {
        near_left: near[0],
        near_right: near[1],
        left_not_farther,
        near_top: near[2],
        near_bottom: near[3],
        top_not_farther,
    }
}

#[test]
fn drag_grabs_the_nearest_edges() {
    let none = proximity([false; 4], true, true);
    assert_eq!(drag_mode_at(false, true, proximity([true; 4], true, true), true), CropDragMode::New);
    assert_eq!(drag_mode_at(true, false, none, false), CropDragMode::New);
    assert_eq!(drag_mode_at(true, true, none, true), CropDragMode::Move);
    assert_eq!(drag_mode_at(true, true, none, false), CropDragMode::New);
    assert_eq!(
        drag_mode_at(true, true, proximity([true, false, false, true], true, true), true),
        CropDragMode::Resize(CropResizeEdges { left: true, right: false, top: false, bottom: true })
    );
    // A crop narrower than the grabbing distance: both sides are near, the nearer one wins.
    assert_eq!(
        drag_mode_at(true, true, proximity([true, true, false, false], false, true), true),
        CropDragMode::Resize(CropResizeEdges { left: false, right: true, top: false, bottom: false })
    );
    assert_eq!(
        drag_mode_at(true, true, proximity([false, false, true, true], true, true), true),
        CropDragMode::Resize(CropResizeEdges { left: false, right: false, top: true, bottom: false })
    );
}
