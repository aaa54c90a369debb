use xmahjong::renderer::{
    bitmap_glyph, format_number_commas, hud_mute_button_rect, leaderboard_buttons,
    leaderboard_dialog_rect, leaderboard_stats_card_rect, PixelRect,
};

#[test]
fn glyphs_of_the_builtin_font() {
    assert_eq!(
        bitmap_glyph('A'),
        Some([0b01110, 0b10001, 0b10001, 0b11111, 0b10001, 0b10001, 0b10001])
    );
    assert_eq!(bitmap_glyph(' '), Some([0; 7]));
    assert_eq!(
        bitmap_glyph('>'),
        Some([0b01000, 0b00100, 0b00010, 0b00001, 0b00010, 0b00100, 0b01000])
    );
    assert_eq!(bitmap_glyph('~'), None);
    assert_eq!(bitmap_glyph('é'), None);
    for c in ('a'..='z').chain('A'..='Z').chain('0'..='9') {
        let g = bitmap_glyph(c).expect("letters and digits have glyphs");
        assert!(g.iter().all(|row| *row < 32));
    }
}

#[test]
fn numbers_grouped_by_thousands() {
    assert_eq!(format_number_commas(0), "0");
    assert_eq!(format_number_commas(999), "999");
    assert_eq!(format_number_commas(1000), "1,000");
    assert_eq!(format_number_commas(11965), "11,965");
    assert_eq!(format_number_commas(1234567), "1,234,567");
    assert_eq!(format_number_commas(u64::MAX), "18,446,744,073,709,551,615");
}

#[test]
fn mute_button_sits_in_top_right_corner() {
    assert_eq!(hud_mute_button_rect(1920), PixelRect { x: 1872, y: 7, w: 34, h: 26 });
    assert_eq!(hud_mute_button_rect(10), PixelRect { x: -38, y: 7, w: 34, h: 26 });
}

#[test]
fn leaderboard_dialog_is_centered() {
    assert_eq!(leaderboard_dialog_rect(1920, 1080), PixelRect { x: 630, y: 314, w: 660, h: 452 });
    assert_eq!(leaderboard_dialog_rect(600, 400), PixelRect { x: 0, y: 0, w: 660, h: 452 });
    assert_eq!(leaderboard_stats_card_rect(1920, 1080), PixelRect { x: 630, y: 314, w: 660, h: 398 });
    let (save, close) = leaderboard_buttons(1920, 1080);
    assert_eq!(save, PixelRect { x: 655, y: 724, w: 295, h: 38 });
    assert_eq!(close, PixelRect { x: 970, y: 724, w: 295, h: 38 });
}
