use embedded_graphics::draw_target::DrawTarget;
use embedded_graphics::geometry::{Point, Size};
use embedded_graphics::mono_font::ascii::FONT_6X10;
use embedded_graphics::mono_font::MonoTextStyleBuilder;
use embedded_graphics::primitives::Rectangle;
use embedded_graphics::text::Text;
use embedded_graphics::Drawable;
use epd_waveshare::color::Color;
use epd_waveshare::epd2in13_v2::Display2in13;
use epd_waveshare::graphics::DisplayRotation;
use peripheral_workers::canvas::{FRAME_BYTES, MAX_TEXT_LEN, PANEL_HEIGHT, PANEL_WIDTH, ROW_BYTES};
use peripheral_workers::channel::Disconnected;
use peripheral_workers::epaper::{
    Delay, DisplayEngine, DisplayHandle, DisplayJob, DisplayManager, PanelOp, RefreshMode,
};
use peripheral_workers::framebuffer::Framebuffer;
use peripheral_workers::framer::BarcodeEvent;
use std::sync::mpsc::channel;

fn blank() -> Vec<u8> {
    let mut frame = Vec::new();
    for _row in 0..250 {
        for _ in 0..15 {
            frame.push(0xffu8);
        }
        frame.push(0xc0u8);
    }
    frame
}

fn reference() -> Display2in13 {
    let mut display = Display2in13::default();
    display.set_rotation(DisplayRotation::Rotate90);
    display.clear(Color::White).ok();
    display
}

fn reference_text(display: &mut Display2in13, text: &str, x: i32, y: i32) {
    let style = MonoTextStyleBuilder::new().font(&FONT_6X10).text_color(Color::Black).build();
    Text::new(text, Point::new(x, y), style).draw(display).ok();
}

fn pixel_is_white(frame: &[u8], x: usize, y: usize) -> bool {
    let column = 121 - y;
    frame[16 * x + column / 8] & (0x80 >> (column % 8)) != 0
}

struct Panel {
    mode: RefreshMode,
    ram: Vec<u8>,
    base: Vec<u8>,
    shown: Vec<u8>,
}

fn run(panel: &mut Panel, ops: &[PanelOp], frame: &[u8]) {
    for op in ops {
        match op {
            PanelOp::SetRefresh(mode) => panel.mode = *mode,
            PanelOp::ClearFrame => {
                panel.ram = vec![0xff; 4000];
                if panel.mode == RefreshMode::Full {
                    panel.base = vec![0xff; 4000];
                }
            }
            PanelOp::UpdateFrame => {
                panel.ram = frame.to_vec();
                if panel.mode == RefreshMode::Full {
                    panel.base = frame.to_vec();
                }
            }
            PanelOp::DisplayFrame => panel.shown = panel.ram.clone(),
            PanelOp::UpdateAndDisplayFrame => {
                panel.ram = frame.to_vec();
                panel.shown = frame.to_vec();
                panel.base = frame.to_vec();
            }
            PanelOp::SetBaseBuffer => panel.base = frame.to_vec(),
        }
    }
}

#[test]
fn panel_geometry() {
    assert_eq!(PANEL_WIDTH, 122);
    assert_eq!(PANEL_HEIGHT, 250);
    assert_eq!(ROW_BYTES, 16);
    assert_eq!(FRAME_BYTES, 4000);
}

#[test]
fn the_engine_starts_blank_and_in_quick_mode() {
    let (engine, ops) = DisplayEngine::start();
    assert_eq!(ops, vec![PanelOp::SetRefresh(RefreshMode::Quick), PanelOp::SetBaseBuffer]);
    assert_eq!(engine.frame().len(), 4000);
    assert_eq!(engine.frame(), &blank()[..]);
    assert_eq!(engine.frame(), reference().buffer());
}

#[test]
fn clear_blanks_the_frame_with_a_full_refresh() {
    let (mut engine, _) = DisplayEngine::start();
    engine.process(&DisplayJob::ShowText("something".to_string()));
    assert_ne!(engine.frame(), &blank()[..]);
    let ops = engine.process(&DisplayJob::Clear);
    assert_eq!(
        ops,
        vec![
            PanelOp::SetRefresh(RefreshMode::Full),
            PanelOp::ClearFrame,
            PanelOp::DisplayFrame,
            PanelOp::SetRefresh(RefreshMode::Quick),
            PanelOp::SetBaseBuffer,
        ]
    );
    assert_eq!(engine.frame(), &blank()[..]);
}

#[test]
fn show_text_replaces_the_whole_picture() {
    let (mut engine, _) = DisplayEngine::start();
    engine.process(&DisplayJob::UpdateLine { line_number: 5, text: "old line".to_string() });
    let ops = engine.process(&DisplayJob::ShowText("Hello, panel".to_string()));
    assert_eq!(
        ops,
        vec![
            PanelOp::SetRefresh(RefreshMode::Full),
            PanelOp::UpdateFrame,
            PanelOp::DisplayFrame,
            PanelOp::SetRefresh(RefreshMode::Quick),
            PanelOp::SetBaseBuffer,
        ]
    );
    let mut want = reference();
    reference_text(&mut want, "Hello, panel", 10, 30);
    assert_eq!(engine.frame(), want.buffer());
    assert_ne!(engine.frame(), &blank()[..]);
}

#[test]
fn show_text_breaks_lines() {
    let (mut engine, _) = DisplayEngine::start();
    engine.process(&DisplayJob::ShowText("one\ntwo\r\nthree".to_string()));
    let mut want = reference();
    reference_text(&mut want, "one\ntwo\r\nthree", 10, 30);
    assert_eq!(engine.frame(), want.buffer());
}

#[test]
fn update_line_stays_in_quick_mode() {
    let (mut engine, _) = DisplayEngine::start();
    let ops = engine.process(&DisplayJob::UpdateLine { line_number: 0, text: "X".to_string() });
    assert_eq!(ops, vec![PanelOp::UpdateAndDisplayFrame, PanelOp::SetBaseBuffer]);
}

#[test]
fn update_line_draws_at_its_line() {
    let (mut engine, _) = DisplayEngine::start();
    engine.process(&DisplayJob::UpdateLine { line_number: 3, text: "4006381333931".to_string() });
    let mut want = reference();
    want.fill_solid(&Rectangle::new(Point::new(0, 8 + 3 * 12), Size::new(122, 12)), Color::White)
        .ok();
    reference_text(&mut want, "4006381333931", 10, 10 + 3 * 12);
    assert_eq!(engine.frame(), want.buffer());
    assert_ne!(engine.frame(), &blank()[..]);
}

#[test]
fn update_line_twice_is_update_line_once() {
    let (mut engine, _) = DisplayEngine::start();
    engine.process(&DisplayJob::ShowText("background text".to_string()));
    engine.process(&DisplayJob::UpdateLine { line_number: 0, text: "X".to_string() });
    let once = engine.frame().to_vec();
    engine.process(&DisplayJob::UpdateLine { line_number: 0, text: "X".to_string() });
    assert_eq!(engine.frame(), &once[..]);
}

#[test]
fn update_line_replaces_the_old_line() {
    let (mut engine, _) = DisplayEngine::start();
    engine.process(&DisplayJob::UpdateLine { line_number: 2, text: "MMMMMMMM".to_string() });
    engine.process(&DisplayJob::UpdateLine { line_number: 2, text: "..".to_string() });
    let frame = engine.frame().to_vec();
    let top = 8 + 2 * 12;
    let mut fresh = reference();
    reference_text(&mut fresh, "..", 10, 10 + 2 * 12);
    for x in 0..122 {
        for y in top..top + 12 {
            assert_eq!(
                pixel_is_white(&frame, x, y),
                pixel_is_white(fresh.buffer(), x, y)
            );
        }
    }
}

#[test]
fn update_line_leaves_the_other_pixels_alone() {
    let (mut engine, _) = DisplayEngine::start();
    engine.process(&DisplayJob::ShowText("line one\nline two\nline three\nline four".to_string()));
    let before = engine.frame().to_vec();
    engine.process(&DisplayJob::UpdateLine { line_number: 6, text: "Z".to_string() });
    let after = engine.frame().to_vec();
    let top = 8 + 6 * 12;
    let baseline = top + 2;
    let mut changed = 0;
    for x in 0..250 {
        for y in 0..122 {
            let in_strip = x < 122 && top <= y && y < top + 12;
            let in_glyph = 10 <= x && x < 16 && baseline - 7 <= y && y < baseline + 3;
            if !in_strip && !in_glyph {
                assert_eq!(pixel_is_white(&after, x, y), pixel_is_white(&before, x, y));
            }
            if pixel_is_white(&after, x, y) != pixel_is_white(&before, x, y) {
                changed += 1;
            }
        }
    }
    assert!(changed > 0);
}

#[test]
fn a_line_beyond_the_panel_changes_nothing() {
    let (mut engine, _) = DisplayEngine::start();
    engine.process(&DisplayJob::ShowText("stays".to_string()));
    let before = engine.frame().to_vec();
    let ops = engine.process(&DisplayJob::UpdateLine { line_number: 255, text: "gone".to_string() });
    assert_eq!(ops, vec![PanelOp::UpdateAndDisplayFrame, PanelOp::SetBaseBuffer]);
    assert_eq!(engine.frame(), &before[..]);
}

#[test]
fn every_job_leaves_panel_and_framebuffer_in_step() {
    let (mut engine, ops) = DisplayEngine::start();
    let mut panel = Panel {
        mode: RefreshMode::Full,
        ram: vec![0x5a; 4000],
        base: vec![0xa5; 4000],
        shown: vec![0x00; 4000],
    };
    run(&mut panel, &ops, engine.frame());
    assert_eq!(panel.mode, RefreshMode::Quick);
    assert_eq!(&panel.base[..], engine.frame());
    let jobs = vec![
        DisplayJob::UpdateLine { line_number: 0, text: "first".to_string() },
        DisplayJob::ShowText("full screen".to_string()),
        DisplayJob::UpdateLine { line_number: 1, text: "second".to_string() },
        DisplayJob::UpdateLine { line_number: 1, text: "second".to_string() },
        DisplayJob::Clear,
        DisplayJob::UpdateLine { line_number: 9, text: "last".to_string() },
    ];
    for job in &jobs {
        let ops = engine.process(job);
        assert_eq!(ops.last(), Some(&PanelOp::SetBaseBuffer));
        run(&mut panel, &ops, engine.frame());
        assert_eq!(panel.mode, RefreshMode::Quick);
        assert_eq!(&panel.base[..], engine.frame());
        for x in 0..250 {
            for y in 0..122 {
                assert_eq!(
                    pixel_is_white(&panel.shown, x, y),
                    pixel_is_white(engine.frame(), x, y)
                );
            }
        }
    }
}

#[test]
fn the_framebuffer_draws_what_the_driver_crate_draws() {
    let mut frame = Framebuffer::new();
    assert_eq!(frame.bytes(), &blank()[..]);
    frame.draw_text("abc", 0, 7);
    let mut want = reference();
    reference_text(&mut want, "abc", 0, 7);
    assert_eq!(frame.bytes(), want.buffer());
    frame.clear_rect(3, 2, 8, 4);
    want.fill_solid(&Rectangle::new(Point::new(3, 2), Size::new(8, 4)), Color::White).ok();
    assert_eq!(frame.bytes(), want.buffer());
    frame.clear();
    assert_eq!(frame.bytes(), &blank()[..]);
}

#[test]
fn jobs_fit_up_to_the_text_limit() {
    assert!(DisplayJob::Clear.fits());
    assert!(DisplayJob::ShowText(String::new()).fits());
    assert!(DisplayJob::ShowText("é".repeat(1000)).fits());
    assert!(DisplayJob::UpdateLine { line_number: 1, text: "x".repeat(MAX_TEXT_LEN) }.fits());
    assert!(!DisplayJob::UpdateLine { line_number: 1, text: "x".repeat(MAX_TEXT_LEN + 1) }.fits());
    assert!(!DisplayJob::ShowText("x".repeat(MAX_TEXT_LEN + 1)).fits());
}

#[test]
fn the_display_handle_enqueues_jobs_in_order() {
    let (tx, rx) = channel();
    let manager = DisplayManager::new(DisplayHandle::new(tx));
    let first = manager.handle();
    let second = manager.handle();
    assert!(first.submit(DisplayJob::Clear).is_ok());
    assert!(second.submit(DisplayJob::ShowText("a".to_string())).is_ok());
    assert!(first.submit(DisplayJob::UpdateLine { line_number: 2, text: "b".to_string() }).is_ok());
    assert_eq!(rx.try_recv().ok(), Some(DisplayJob::Clear));
    assert_eq!(rx.try_recv().ok(), Some(DisplayJob::ShowText("a".to_string())));
    assert_eq!(
        rx.try_recv().ok(),
        Some(DisplayJob::UpdateLine { line_number: 2, text: "b".to_string() })
    );
    assert!(rx.try_recv().is_err());
}

#[test]
fn a_dead_display_worker_returns_the_job() {
    let (tx, rx) = channel();
    let handle = DisplayHandle::new(tx);
    drop(rx);
    assert_eq!(
        handle.submit(DisplayJob::ShowText("lost".to_string())),
        Err(Disconnected { command: DisplayJob::ShowText("lost".to_string()) })
    );
}

#[test]
fn driver_pauses_are_whole_milliseconds() {
    assert_eq!(Delay::millis_for_ns(0), 1);
    assert_eq!(Delay::millis_for_ns(999_999), 1);
    assert_eq!(Delay::millis_for_ns(5_000_000), 5);
    assert_eq!(Delay::millis_for_ns(u32::MAX), 4294);
    assert_eq!(Delay::millis_for_us(0), 1);
    assert_eq!(Delay::millis_for_us(999), 1);
    assert_eq!(Delay::millis_for_us(2500), 2);
    assert_eq!(Delay::millis_for_us(10_000), 10);
}

#[test]
fn scanned_codes_go_to_the_first_line() {
    assert_eq!(
        DisplayJob::for_scan(BarcodeEvent::Scanned("4006381333931".to_string())),
        Some(DisplayJob::UpdateLine { line_number: 0, text: "4006381333931".to_string() })
    );
    assert_eq!(DisplayJob::for_scan(BarcodeEvent::Error("Barcode too long".to_string())), None);
}

fn black_pixels(frame: &Framebuffer) -> Vec<(u32, u32)> {
    let mut found = Vec::new();
    for x in 0..250u32 {
        for y in 0..122u32 {
            if !frame.is_white(x, y) {
                found.push((x, y));
            }
        }
    }
    found
}

#[test]
fn a_fresh_frame_is_white_at_every_pixel() {
    let frame = Framebuffer::new();
    assert!(black_pixels(&frame).is_empty());
}

#[test]
fn a_glyph_is_drawn_inside_its_box() {
    let mut frame = Framebuffer::new();
    frame.draw_text("W", 100, 60);
    let black = black_pixels(&frame);
    assert!(!black.is_empty());
    for (x, y) in black {
        assert!(100 <= x && x < 106);
        assert!(53 <= y && y < 63);
    }
}

#[test]
fn a_one_pixel_rectangle_whitens_that_pixel_alone() {
    let mut frame = Framebuffer::new();
    let line = "#".repeat(41);
    let mut text = String::new();
    for _ in 0..12 {
        text.push_str(&line);
        text.push('\n');
    }
    frame.draw_text(&text, 0, 7);
    let black = black_pixels(&frame);
    assert!(black.len() > 1000);
    for (x, y) in black.iter().step_by(37) {
        let before = frame.bytes().to_vec();
        frame.clear_rect(*x as i32, *y as i32, 1, 1);
        assert!(frame.is_white(*x, *y));
        let changed: u32 = before
            .iter()
            .zip(frame.bytes().iter())
            .map(|(a, b)| (a ^ b).count_ones())
            .sum();
        assert_eq!(changed, 1);
    }
}

#[test]
fn a_rectangle_whitens_its_pixels_and_no_others() {
    let mut frame = Framebuffer::new();
    let line = "#".repeat(41);
    let mut text = String::new();
    for _ in 0..12 {
        text.push_str(&line);
        text.push('\n');
    }
    frame.draw_text(&text, 0, 7);
    let before = black_pixels(&frame);
    frame.clear_rect(30, 20, 50, 40);
    let after = black_pixels(&frame);
    for (x, y) in &after {
        assert!(!(30 <= *x && *x < 80 && 20 <= *y && *y < 60));
    }
    for (x, y) in &before {
        let inside = 30 <= *x && *x < 80 && 20 <= *y && *y < 60;
        assert_eq!(after.contains(&(*x, *y)), !inside);
    }
}
