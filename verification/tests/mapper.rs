use ascii_video_visualizer::ascii_set::{BASIC, LOW};
use ascii_video_visualizer::converter::CharsetMapper;

const TEN: &str = " .:-=+*#%@";

fn position(ramp: &str, glyph: char) -> usize {
    ramp.chars().position(|c| c == glyph).unwrap()
}

#[test]
fn darkest_and_brightest_take_the_ends_of_the_ramp() {
    let mut mapper = CharsetMapper::new(TEN);
    assert_eq!(mapper.map_luminance_to_char(0), ' ');
    assert_eq!(mapper.map_luminance_to_char(255), '@');
}

#[test]
fn middle_luminance_rounds_to_position_five() {
    let mut mapper = CharsetMapper::new(TEN);
    let glyph = mapper.map_luminance_to_char(128);
    assert_eq!(position(TEN, glyph), 5);
    assert_eq!(glyph, '+');
}

#[test]
fn positions_round_to_the_nearest() {
    let mut mapper = CharsetMapper::new(TEN);
    // 14 / 255 * 9 = 0.494 and 15 / 255 * 9 = 0.529
    assert_eq!(mapper.map_luminance_to_char(14), ' ');
    assert_eq!(mapper.map_luminance_to_char(15), '.');
    // 240 / 255 * 9 = 8.47 and 241 / 255 * 9 = 8.506
    assert_eq!(mapper.map_luminance_to_char(240), '%');
    assert_eq!(mapper.map_luminance_to_char(241), '@');
}

#[test]
fn a_brighter_luminance_never_takes_an_earlier_glyph() {
    for ramp in [TEN, LOW, BASIC, "ab", "x"] {
        let mut mapper = CharsetMapper::new(ramp);
        let mut last = 0;
        for luminance in 0..=255u8 {
            let at = position(ramp, mapper.map_luminance_to_char(luminance));
            assert!(at >= last);
            last = at;
        }
        assert_eq!(last, ramp.chars().count() - 1);
    }
}

#[test]
fn every_luminance_takes_the_rounded_position() {
    for ramp in [TEN, LOW, BASIC, "ab", "x", "abc"] {
        let glyphs: Vec<char> = ramp.chars().collect();
        let mut mapper = CharsetMapper::new(ramp);
        for luminance in 0..=255u8 {
            let gray_scale = (luminance as f64) / 255.0;
            let index = (gray_scale * (glyphs.len() - 1) as f64).round() as usize;
            assert_eq!(mapper.map_luminance_to_char(luminance), glyphs[index]);
        }
    }
}

#[test]
fn the_same_luminance_gives_the_same_glyph_every_time() {
    let mut mapper = CharsetMapper::new(BASIC);
    let mut fresh = CharsetMapper::new(BASIC);
    for luminance in 0..=255u8 {
        let first = mapper.map_luminance_to_char(luminance);
        let second = mapper.map_luminance_to_char(luminance);
        assert_eq!(first, second);
    }
    for luminance in (0..=255u8).rev() {
        assert_eq!(fresh.map_luminance_to_char(luminance), mapper.map_luminance_to_char(luminance));
    }
}

#[test]
fn a_ramp_of_one_glyph_maps_everything_to_it() {
    let mut mapper = CharsetMapper::new("#");
    for luminance in [0u8, 1, 127, 128, 254, 255] {
        assert_eq!(mapper.map_luminance_to_char(luminance), '#');
    }
}

#[test]
fn a_ramp_of_two_glyphs_splits_in_the_middle() {
    let mut mapper = CharsetMapper::new("ab");
    assert_eq!(mapper.map_luminance_to_char(127), 'a');
    assert_eq!(mapper.map_luminance_to_char(128), 'b');
}

#[test]
fn a_ramp_may_hold_glyphs_beyond_ascii() {
    let mut mapper = CharsetMapper::new("░▒▓█");
    assert_eq!(mapper.map_luminance_to_char(0), '░');
    assert_eq!(mapper.map_luminance_to_char(100), '▒');
    assert_eq!(mapper.map_luminance_to_char(255), '█');
}

#[test]
fn a_copy_of_a_mapper_maps_as_the_mapper_does() {
    let mut mapper = CharsetMapper::new(TEN);
    mapper.map_luminance_to_char(200);
    let mut copy = mapper.clone();
    for luminance in 0..=255u8 {
        assert_eq!(copy.map_luminance_to_char(luminance), mapper.map_luminance_to_char(luminance));
    }
}
