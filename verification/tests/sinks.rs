use std::sync::atomic::AtomicBool;
use std::sync::Arc;

use ascii_video_visualizer::converter::TerminalPixel;
use ascii_video_visualizer::encoder::{Encoder, RasterPlan, MAX_IMAGE_PIXELS};
use ascii_video_visualizer::frame::{AsciiFrame, Full, Rgb};
use ascii_video_visualizer::player::Player;
use ascii_video_visualizer::queues::GenericSharedQueue;
use ascii_video_visualizer::shutdown::{request_stop, StageAction, StageState};
use ascii_video_visualizer::sink::{place, place_cells, DrawCommand};
use ascii_video_visualizer::utils::Coordinate;

const RED: Rgb = Rgb { r: 200, g: 10, b: 20 };
const BLACK: Rgb = Rgb { r: 0, g: 0, b: 0 };

fn flag() -> Arc<AtomicBool> {
    Arc::new(AtomicBool::new(false))
}

fn sealed(cells: Vec<Vec<TerminalPixel>>) -> AsciiFrame<Full> {
    AsciiFrame::new().send_char_buffer(cells)
}

fn command(x: u32, y: u32, glyph: char, color: Option<Rgb>) -> DrawCommand {
    DrawCommand { position: Coordinate::new(x, y), glyph, color }
}

fn two_by_two() -> AsciiFrame<Full> {
    sealed(vec![
        vec![TerminalPixel::Gray('a'), TerminalPixel::Colored('b', RED)],
        vec![TerminalPixel::Colored('c', RED), TerminalPixel::Gray('d')],
    ])
}

#[test]
fn a_coordinate_keeps_its_parts() {
    let at = Coordinate::new(3, 7);
    assert_eq!(at.x, 3);
    assert_eq!(at.y, 7);
}

#[test]
fn sixty_frames_a_second_leave_sixteen_milliseconds() {
    assert_eq!(Player::new(flag(), 60).delta(), 16);
}

#[test]
fn the_pause_is_the_whole_part_of_a_thousand_over_the_rate() {
    assert_eq!(Player::new(flag(), 1).delta(), 1000);
    assert_eq!(Player::new(flag(), 3).delta(), 333);
    assert_eq!(Player::new(flag(), 24).delta(), 41);
    assert_eq!(Player::new(flag(), 25).delta(), 40);
    assert_eq!(Player::new(flag(), 30).delta(), 33);
    assert_eq!(Player::new(flag(), 1000).delta(), 1);
    assert_eq!(Player::new(flag(), 1001).delta(), 0);
    assert_eq!(Player::new(flag(), usize::MAX).delta(), 0);
}

#[test]
fn a_rate_of_zero_pauses_as_long_as_can_be() {
    assert_eq!(Player::new(flag(), 0).delta(), u64::MAX);
}

#[test]
fn the_pause_is_what_floating_point_gives() {
    for frame_rate in 1..=2000usize {
        let expected = ((1.0 / frame_rate as f64) * 1000.0) as u64;
        assert_eq!(Player::new(flag(), frame_rate).delta(), expected);
    }
}

#[test]
fn a_plain_cell_prints_without_a_colour() {
    let shown = Player::print_char(4, 2, TerminalPixel::Gray('x'));
    assert_eq!(shown, command(4, 2, 'x', None));
}

#[test]
fn a_coloured_cell_prints_in_its_colour() {
    let shown = Player::print_char(65535, 0, TerminalPixel::Colored('y', RED));
    assert_eq!(shown, command(65535, 0, 'y', Some(RED)));
}

#[test]
fn a_frame_prints_cell_by_cell_in_reading_order() {
    let commands = Player::print_frame(&two_by_two()).unwrap();
    assert_eq!(
        commands,
        vec![
            command(0, 0, 'a', None),
            command(1, 0, 'b', Some(RED)),
            command(0, 1, 'c', Some(RED)),
            command(1, 1, 'd', None),
        ]
    );
}

#[test]
fn rows_of_different_lengths_print_as_they_are() {
    let frame = sealed(vec![
        vec![],
        vec![TerminalPixel::Gray('a'), TerminalPixel::Gray('b'), TerminalPixel::Gray('c')],
        vec![TerminalPixel::Gray('d')],
    ]);
    let commands = Player::print_frame(&frame).unwrap();
    assert_eq!(
        commands,
        vec![
            command(0, 1, 'a', None),
            command(1, 1, 'b', None),
            command(2, 1, 'c', None),
            command(0, 2, 'd', None),
        ]
    );
}

#[test]
fn a_frame_without_cells_prints_nothing() {
    assert_eq!(Player::print_frame(&sealed(vec![])), Some(vec![]));
    assert_eq!(Player::print_frame(&sealed(vec![vec![], vec![]])), Some(vec![]));
}

#[test]
fn a_row_may_reach_the_last_column_of_a_terminal_and_no_further() {
    let widest = sealed(vec![vec![TerminalPixel::Gray('x'); 65536]]);
    let commands = Player::print_frame(&widest).unwrap();
    assert_eq!(commands.len(), 65536);
    assert_eq!(commands[65535], command(65535, 0, 'x', None));
    let too_wide = sealed(vec![vec![TerminalPixel::Gray('x'); 65537]]);
    assert_eq!(Player::print_frame(&too_wide), None);
}

#[test]
fn a_cell_may_lie_on_the_last_row_of_a_terminal_and_no_further() {
    let mut rows = vec![vec![]; 65535];
    rows.push(vec![TerminalPixel::Gray('x')]);
    assert_eq!(Player::print_frame(&sealed(rows.clone())), Some(vec![command(0, 65535, 'x', None)]));
    rows.push(vec![]);
    assert!(Player::print_frame(&sealed(rows.clone())).is_some());
    rows.push(vec![TerminalPixel::Gray('y')]);
    assert_eq!(Player::print_frame(&sealed(rows)), None);
}

#[test]
fn the_image_of_a_frame_has_a_glyph_at_the_corner_of_every_cell() {
    let encoder = Encoder::new(flag(), 8, 12);
    let plan = encoder.encode_frame(&two_by_two()).unwrap();
    assert_eq!(plan.width, 16);
    assert_eq!(plan.height, 24);
    assert_eq!(
        plan.glyphs,
        vec![
            command(0, 0, 'a', Some(BLACK)),
            command(8, 0, 'b', Some(RED)),
            command(0, 12, 'c', Some(RED)),
            command(8, 12, 'd', Some(BLACK)),
        ]
    );
}

#[test]
fn a_scale_of_one_draws_a_glyph_on_every_pixel() {
    let encoder = Encoder::new(flag(), 1, 1);
    let plan = encoder.encode_frame(&two_by_two()).unwrap();
    assert_eq!((plan.width, plan.height), (2, 2));
    assert_eq!(plan.glyphs[3], command(1, 1, 'd', Some(BLACK)));
}

#[test]
fn a_scale_of_zero_draws_everything_at_the_origin_of_an_empty_image() {
    let encoder = Encoder::new(flag(), 0, 0);
    let plan = encoder.encode_frame(&two_by_two()).unwrap();
    assert_eq!((plan.width, plan.height), (0, 0));
    assert!(plan.glyphs.iter().all(|glyph| glyph.position == Coordinate::new(0, 0)));
    assert_eq!(plan.glyphs.len(), 4);
}

#[test]
fn the_image_of_a_frame_without_cells_is_empty() {
    let encoder = Encoder::new(flag(), 8, 12);
    let plan = encoder.encode_frame(&sealed(vec![])).unwrap();
    assert_eq!((plan.width, plan.height), (0, 0));
    assert!(plan.glyphs.is_empty());
}

#[test]
fn the_width_of_the_image_follows_the_first_row() {
    let encoder = Encoder::new(flag(), 2, 3);
    let frame = sealed(vec![
        vec![TerminalPixel::Gray('a')],
        vec![TerminalPixel::Gray('b'), TerminalPixel::Gray('c')],
    ]);
    let plan = encoder.encode_frame(&frame).unwrap();
    assert_eq!((plan.width, plan.height), (2, 6));
    assert_eq!(plan.glyphs[2], command(2, 3, 'c', Some(BLACK)));
}

#[test]
fn a_frame_whose_glyphs_lie_too_far_out_is_not_encoded() {
    let far = Encoder::new(flag(), 0x4000_0000, 1);
    let near = Encoder::new(flag(), 0x3fff_ffff, 1);
    let row = sealed(vec![vec![TerminalPixel::Gray('a'); 3]]);
    assert!(far.encode_frame(&row).is_none());
    assert_eq!(near.encode_frame(&row).unwrap().glyphs[2], command(0x7fff_fffe, 0, 'a', Some(BLACK)));
    let tall = Encoder::new(flag(), 1, 0x8000_0000);
    let column = sealed(vec![vec![TerminalPixel::Gray('a')], vec![TerminalPixel::Gray('b')]]);
    assert!(tall.encode_frame(&column).is_none());
}

#[test]
fn a_frame_whose_image_is_too_large_is_not_encoded() {
    let encoder = Encoder::new(flag(), 0x7fff_ffff, 1);
    let fits = sealed(vec![vec![TerminalPixel::Gray('a'); 2]]);
    let plan = encoder.encode_frame(&fits).unwrap();
    assert_eq!(plan.width, 0xffff_fffe);
    let encoder = Encoder::new(flag(), 1, 0x7fff_ffff);
    let rows = sealed(vec![vec![TerminalPixel::Gray('a')], vec![], vec![]]);
    assert!(encoder.encode_frame(&rows).is_none());
}

#[test]
fn placing_a_cell_fills_in_the_default_colour() {
    assert_eq!(place(1, 2, TerminalPixel::Gray('x'), Some(RED)), command(1, 2, 'x', Some(RED)));
    assert_eq!(place(1, 2, TerminalPixel::Gray('x'), None), command(1, 2, 'x', None));
    assert_eq!(
        place(1, 2, TerminalPixel::Colored('x', BLACK), Some(RED)),
        command(1, 2, 'x', Some(BLACK))
    );
}

#[test]
fn placing_cells_respects_the_limit() {
    let frame = two_by_two();
    assert!(place_cells(&frame, 5, 5, 4, None).is_none());
    let placed = place_cells(&frame, 5, 5, 5, None).unwrap();
    assert_eq!(placed[3], command(5, 5, 'd', None));
    assert!(place_cells(&frame, 1, 6, 5, None).is_none());
}

#[test]
fn a_sink_takes_frames_until_it_is_told_to_stop() {
    let stop = flag();
    let player = Player::new(Arc::clone(&stop), 60);
    let mut queue = GenericSharedQueue::new();
    let (state, action) = player.poll(StageState::Running, &mut queue);
    assert_eq!(state, StageState::Running);
    assert!(matches!(action, StageAction::Wait));
    queue.push(two_by_two());
    queue.push(sealed(vec![]));
    request_stop(&stop);
    let (state, action) = player.poll(state, &mut queue);
    match action {
        StageAction::Process(frame) => assert_eq!(frame.height(), 2),
        _ => panic!("the first frame is due"),
    }
    let (state, action) = player.poll(state, &mut queue);
    match action {
        StageAction::Process(frame) => assert_eq!(frame.height(), 0),
        _ => panic!("the second frame is due"),
    }
    let (state, action) = player.poll(state, &mut queue);
    assert_eq!(state, StageState::Draining);
    assert!(matches!(action, StageAction::Poll));
    let (state, action) = player.poll(state, &mut queue);
    assert_eq!(state, StageState::Stopped);
    assert!(matches!(action, StageAction::Terminate));
}

#[test]
fn the_encoder_follows_the_same_steps() {
    let stop = flag();
    let encoder = Encoder::new(Arc::clone(&stop), 1, 1);
    let mut queue = GenericSharedQueue::new();
    queue.push(two_by_two());
    let (state, action) = encoder.poll(StageState::Running, &mut queue);
    assert!(matches!(action, StageAction::Process(_)));
    let (state, action) = encoder.poll(state, &mut queue);
    assert_eq!(state, StageState::Running);
    assert!(matches!(action, StageAction::Wait));
    request_stop(&stop);
    let (state, _) = encoder.poll(state, &mut queue);
    let (state, action) = encoder.poll(state, &mut queue);
    assert_eq!(state, StageState::Stopped);
    assert!(matches!(action, StageAction::Terminate));
}

fn plan(width: u32, height: u32) -> RasterPlan {
    RasterPlan { width, height, glyphs: Vec::new() }
}

#[test]
fn an_image_without_pixels_is_not_drawn() {
    assert!(!plan(0, 0).drawable());
    assert!(!plan(0, 10).drawable());
    assert!(!plan(10, 0).drawable());
    assert!(plan(1, 1).drawable());
}

#[test]
fn an_image_is_drawn_up_to_the_most_pixels_and_no_further() {
    assert_eq!(MAX_IMAGE_PIXELS, 1 << 28);
    assert!(plan(1 << 14, 1 << 14).drawable());
    assert!(plan(1 << 28, 1).drawable());
    assert!(!plan((1 << 28) + 1, 1).drawable());
    assert!(!plan((1 << 14) + 1, 1 << 14).drawable());
    assert!(!plan(u32::MAX, u32::MAX).drawable());
}

#[test]
fn the_image_of_a_terminal_sized_frame_is_drawn() {
    let encoder = Encoder::new(flag(), 12, 12);
    let frame = sealed(vec![vec![TerminalPixel::Gray('x'); 80]; 24]);
    let image = encoder.encode_frame(&frame).unwrap();
    assert_eq!((image.width, image.height), (960, 288));
    assert!(image.drawable());
    assert!(!encoder.encode_frame(&sealed(vec![])).unwrap().drawable());
}
