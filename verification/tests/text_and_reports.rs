use discord_audio_binder::crash_report::crash_log_line;
use discord_audio_binder::preview::{bgra_preview, rgba16_samples};
use discord_audio_binder::text::{contains_text, decimal_string, i32_string, is_blank, is_white_space};

#[test]
fn crash_line_names_thread_place_and_message() {
    assert_eq!(
        crash_log_line(12, Some("main"), Some(("src/app.rs", 42)), Some("boom")),
        "[epoch 12] thread 'main' panicked at src/app.rs:42: boom\n"
    );
    assert_eq!(
        crash_log_line(0, None, None, None),
        "[epoch 0] thread 'unnamed' panicked at ?: (non-string panic)\n"
    );
}

#[test]
fn decimal_text_of_numbers() {
    assert_eq!(decimal_string(0), "0");
    assert_eq!(decimal_string(1_234_567_890_123), "1234567890123");
    assert_eq!(i32_string(-305), "-305");
    assert_eq!(i32_string(i32::MIN), "-2147483648");
    assert_eq!(i32_string(7), "7");
}

#[test]
fn white_space_and_substrings() {
    assert!(is_white_space('\u{85}') && is_white_space('\u{3000}') && is_white_space('\n'));
    assert!(!is_white_space('\u{200b}') && !is_white_space('x'));
    assert!(is_blank("") && is_blank(" \t\r\n"));
    assert!(!is_blank(" a "));
    assert!(contains_text("my game", "game"));
    assert!(contains_text("abc", ""));
    assert!(!contains_text("ab", "abc"));
    assert!(!contains_text("gaem", "game"));
}

#[test]
fn preview_swaps_red_and_blue_and_samples_down() {
    let src: Vec<u8> = (1..=16).collect();
    assert_eq!(
        bgra_preview(&src, 8, 2, 2, 2, 2),
        vec![3, 2, 1, 255, 7, 6, 5, 255, 11, 10, 9, 255, 15, 14, 13, 255]
    );
    assert_eq!(bgra_preview(&src, 8, 2, 2, 1, 1), vec![3, 2, 1, 255]);
    let padded: Vec<u8> = vec![1, 2, 3, 4, 0, 0, 5, 6, 7, 8, 0, 0];
    assert_eq!(bgra_preview(&padded, 6, 1, 2, 1, 2), vec![3, 2, 1, 255, 7, 6, 5, 255]);
}

#[test]
fn hdr_samples_keep_red_green_blue_of_the_chosen_pixels() {
    let src: Vec<u16> = vec![1, 2, 3, 4, 5, 6, 7, 8];
    assert_eq!(rgba16_samples(&src, 8, 2, 1, 2, 1), vec![1, 2, 3, 5, 6, 7]);
    assert_eq!(rgba16_samples(&src, 8, 2, 1, 1, 1), vec![1, 2, 3]);
    let two_rows: Vec<u16> = vec![10, 11, 12, 13, 0, 0, 20, 21, 22, 23];
    assert_eq!(rgba16_samples(&two_rows, 6, 1, 2, 1, 2), vec![10, 11, 12, 20, 21, 22]);
}
