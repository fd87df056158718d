use discord_audio_binder::settings::{NumberKey, NumberTexts, Settings};

fn numbers(texts: [&str; 5]) -> NumberTexts {
    NumberTexts {
        hdr_nits: texts[0].to_string(),
        crop_aspect_w: texts[1].to_string(),
        crop_aspect_h: texts[2].to_string(),
        output_fps: texts[3].to_string(),
        volume: texts[4].to_string(),
    }
}

fn entries(parsed: &(Settings, Vec<discord_audio_binder::settings::NumberEntry>)) -> Vec<(NumberKey, String)> {
    parsed.1.iter().map(|e| (e.key, e.text.clone())).collect()
}

#[test]
fn defaults_are_written_in_the_file_order() {
    let text = Settings::defaults().to_text(&numbers(["200", "16", "9", "60", "1"]));
    assert_eq!(
        text,
        "hdr_fix=false\nhdr_nits=200\ncrop=true\ncrop_16_9=true\ncrop_aspect_w=16\ncrop_aspect_h=9\ncrop_align_x=1\ncrop_align_y=1\nvsync=true\noutput_fps=60\nvolume=1\ntidal_audio=true\ngame_audio=false\nrelay_device=\n"
    );
}

#[test]
fn settings_written_are_read_back() {
    let s = Settings {
        hdr_fix: true,
        crop_titlebar: false,
        crop_16_9: true,
        crop_align_x: 0,
        crop_align_y: 2,
        vsync: false,
        tidal_audio: false,
        game_audio: true,
        relay_device_id: Some("{0.0.0.00000000}.{abc=def}".to_string()),
    };
    let text = s.to_text(&numbers(["320", "21", "9", "120", "0.35"]));
    let back = Settings::parse(&text);
    assert!(back.0.hdr_fix);
    assert!(!back.0.crop_titlebar);
    assert!(back.0.crop_16_9);
    assert_eq!((back.0.crop_align_x, back.0.crop_align_y), (0, 2));
    assert!(!back.0.vsync);
    assert!(!back.0.tidal_audio);
    assert!(back.0.game_audio);
    assert_eq!(back.0.relay_device_id.as_deref(), Some("{0.0.0.00000000}.{abc=def}"));
    assert_eq!(
        entries(&back),
        vec![
            (NumberKey::HdrNits, "320".to_string()),
            (NumberKey::CropAspectW, "21".to_string()),
            (NumberKey::CropAspectH, "9".to_string()),
            (NumberKey::OutputFps, "120".to_string()),
            (NumberKey::Volume, "0.35".to_string()),
        ]
    );
}

#[test]
fn empty_file_gives_the_defaults() {
    let (s, n) = Settings::parse("");
    assert!(!s.hdr_fix && s.crop_titlebar && s.crop_16_9 && s.vsync && s.tidal_audio && !s.game_audio);
    assert_eq!((s.crop_align_x, s.crop_align_y), (1, 1));
    assert!(s.relay_device_id.is_none());
    assert!(n.is_empty());
}

#[test]
fn lines_are_trimmed_and_unknown_or_broken_lines_ignored() {
    let parsed = Settings::parse(" hdr_fix = true \r\nvolume= 0.5 \nbogus line\nfoo=bar\n\ngame_audio=yes\nvsync=false");
    assert!(parsed.0.hdr_fix);
    assert!(!parsed.0.game_audio);
    assert!(!parsed.0.vsync);
    assert_eq!(entries(&parsed), vec![(NumberKey::Volume, "0.5".to_string())]);
}

#[test]
fn alignment_is_clamped_and_bad_numbers_keep_the_value() {
    let (s, _) = Settings::parse("crop_align=5\ncrop_align_y=-1\n");
    assert_eq!((s.crop_align_x, s.crop_align_y), (2, 0));
    let (s, _) = Settings::parse("crop_align_x=+0\ncrop_align_y=2147483648\n");
    assert_eq!((s.crop_align_x, s.crop_align_y), (0, 1));
    let (s, _) = Settings::parse("crop_align_x=-2147483648\ncrop_align_y=1 2\n");
    assert_eq!((s.crop_align_x, s.crop_align_y), (0, 1));
    let (s, _) = Settings::parse("crop_align_x=-\ncrop_align_y=\n");
    assert_eq!((s.crop_align_x, s.crop_align_y), (1, 1));
}

#[test]
fn later_lines_win_and_empty_device_means_default() {
    let (s, _) = Settings::parse("relay_device=abc\ncrop=false\ncrop=true\nrelay_device=\n");
    assert!(s.crop_titlebar);
    assert!(s.relay_device_id.is_none());
    let (s, _) = Settings::parse("relay_device=  dev-1  \n");
    assert_eq!(s.relay_device_id.as_deref(), Some("dev-1"));
}

#[test]
fn value_splits_at_the_first_equals_sign() {
    let (s, _) = Settings::parse("relay_device=a=b\n");
    assert_eq!(s.relay_device_id.as_deref(), Some("a=b"));
}

#[test]
fn number_entries_keep_their_order_including_repeats() {
    let parsed = Settings::parse("output_fps=90\ncrop_aspect_h=3\noutput_fps=x\n");
    assert_eq!(
        entries(&parsed),
        vec![
            (NumberKey::OutputFps, "90".to_string()),
            (NumberKey::CropAspectH, "3".to_string()),
            (NumberKey::OutputFps, "x".to_string()),
        ]
    );
}

#[test]
fn a_bare_carriage_return_ends_only_with_a_line_feed() {
    let (s, _) = Settings::parse("hdr_fix=true\r");
    assert!(s.hdr_fix);
    let (s, _) = Settings::parse("relay_device=x\ry\n");
    assert_eq!(s.relay_device_id.as_deref(), Some("x\ry"));
}
