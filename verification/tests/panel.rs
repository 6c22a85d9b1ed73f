use chobits::iot::drivers::light::{Fill, Rgb, scale_brightness, vertical_brightness};
use chobits::iot::panel::{
    CMD_CASET, CMD_COLMOD, CMD_MADCTL, CMD_NORON, CMD_RAMCTRL, CMD_RAMWR, CMD_RASET, CMD_SLPOUT,
    PANEL_REPAINT_STEP, PanelFrame, SLPOUT_SETTLE_MS, WordBatcher, batch_repeated, batch_words,
    duty_for_level, fill_frame, full_window, rgb565, translate_init_command,
};

fn commands(list: &[chobits::iot::panel::PanelCommand]) -> Vec<(u8, Vec<u8>)> {
    list.iter().map(|c| (c.command, c.args.clone())).collect()
}

#[test]
fn rgb565_keeps_the_top_bits_of_each_channel() {
    assert_eq!(rgb565(Rgb(255, 255, 255)), 0xFFFF);
    assert_eq!(rgb565(Rgb(0, 0, 0)), 0x0000);
    assert_eq!(rgb565(Rgb(255, 0, 0)), 0xF800);
    assert_eq!(rgb565(Rgb(0, 255, 0)), 0x07E0);
    assert_eq!(rgb565(Rgb(0, 0, 255)), 0x001F);
    assert_eq!(rgb565(Rgb(0x12, 0x34, 0x56)), 0x11AA);
}

#[test]
fn a_uniform_frame_repeats_one_big_endian_pixel() {
    let mut frame = vec![9u8; 3];
    fill_frame(&mut frame, 2, 3, Fill::Uniform, Rgb(255, 0, 0));
    assert_eq!(frame, vec![0xF8, 0x00].repeat(6));
}

#[test]
fn a_gradient_frame_fades_row_by_row() {
    let mut frame = Vec::new();
    let color = Rgb(200, 100, 50);
    fill_frame(&mut frame, 3, 4, Fill::VerticalGradient, color);
    assert_eq!(frame.len(), 3 * 4 * 2);
    for row in 0..4u16 {
        let expected = rgb565(scale_brightness(color, vertical_brightness(row, 4)));
        for col in 0..3usize {
            let at = (row as usize * 3 + col) * 2;
            assert_eq!(frame[at], (expected >> 8) as u8);
            assert_eq!(frame[at + 1], expected as u8);
        }
    }
    assert_eq!(&frame[18..], &[0, 0, 0, 0, 0, 0]);
}

#[test]
fn an_empty_panel_height_gives_an_empty_frame() {
    let mut frame = vec![1, 2, 3];
    fill_frame(&mut frame, 5, 0, Fill::Uniform, Rgb(1, 2, 3));
    assert!(frame.is_empty());
}

#[test]
fn painting_the_same_fill_twice_repaints_once() {
    let mut panel = PanelFrame::new();
    assert!(panel.paint(Fill::Uniform, Rgb(0, 0, 255), 2, 1));
    assert_eq!(panel.bytes(), &[0x00, 0x1F, 0x00, 0x1F]);
    assert!(!panel.paint(Fill::Uniform, Rgb(0, 0, 255), 2, 1));
    assert!(panel.paint(Fill::VerticalGradient, Rgb(0, 0, 255), 2, 1));
    assert!(panel.paint(Fill::VerticalGradient, Rgb(0, 0, 254), 2, 1));
    assert_eq!(PANEL_REPAINT_STEP, 12);
}

#[test]
fn backlight_duty_inverts_the_level() {
    assert_eq!(duty_for_level(100), 0);
    assert_eq!(duty_for_level(0), 100);
    assert_eq!(duty_for_level(30), 70);
    assert_eq!(duty_for_level(255), 0);
}

#[test]
fn bring_up_commands_are_translated_for_this_panel() {
    let (sleep_out, settle) = translate_init_command(CMD_SLPOUT, &[]);
    assert_eq!(commands(&sleep_out), vec![(CMD_SLPOUT, vec![])]);
    assert_eq!(settle, SLPOUT_SETTLE_MS);

    let (access, settle) = translate_init_command(CMD_MADCTL, &[0x60]);
    assert_eq!(
        commands(&access),
        vec![
            (CMD_MADCTL, vec![0x00]),
            (CMD_COLMOD, vec![0x55]),
            (CMD_RAMCTRL, vec![0x00, 0xF0]),
        ]
    );
    assert_eq!(settle, 0);

    assert!(translate_init_command(CMD_COLMOD, &[0x05]).0.is_empty());
    assert!(translate_init_command(CMD_NORON, &[]).0.is_empty());

    let (other, settle) = translate_init_command(0x21, &[1, 2]);
    assert_eq!(commands(&other), vec![(0x21, vec![1, 2])]);
    assert_eq!(settle, 0);
}

#[test]
fn a_full_window_spans_the_whole_panel() {
    assert_eq!(
        commands(&full_window(240, 320)),
        vec![
            (CMD_CASET, vec![0x00, 0x00, 0x00, 0xEF]),
            (CMD_RASET, vec![0x00, 0x00, 0x01, 0x3F]),
            (CMD_RAMWR, vec![]),
        ]
    );
}

#[test]
fn the_batcher_hands_out_a_full_buffer_before_the_next_word() {
    let mut batcher = WordBatcher::new(4);
    assert_eq!(batcher.push_word(&[1, 2]), None);
    assert_eq!(batcher.push_word(&[3, 4]), None);
    assert_eq!(batcher.push_word(&[5, 6]), Some(vec![1, 2, 3, 4]));
    assert_eq!(batcher.finish(), Some(vec![5, 6]));
    assert_eq!(batcher.finish(), None);
}

#[test]
fn batched_words_keep_every_byte_in_order() {
    let words: Vec<Vec<u8>> = (0..7u8).map(|i| vec![i, i + 100]).collect();
    let writes = batch_words(&words, 5);
    assert_eq!(writes, vec![vec![0, 100, 1, 101], vec![2, 102, 3, 103], vec![4, 104, 5, 105], vec![6, 106]]);
    assert!(batch_words(&Vec::new(), 5).is_empty());
}

#[test]
fn a_repeated_pixel_is_split_into_buffer_sized_writes() {
    let writes = batch_repeated(&[0xAB, 0xCD], 5, 4);
    assert_eq!(
        writes,
        vec![vec![0xAB, 0xCD, 0xAB, 0xCD], vec![0xAB, 0xCD, 0xAB, 0xCD], vec![0xAB, 0xCD]]
    );
    assert!(batch_repeated(&[1, 2], 0, 4).is_empty());
}
