use fb_console::Fault;
use fb_console::console::{Console, console_manger};
use fb_console::gpu::{ColorDepth, Display, byte_array_to_u32};
use fb_console::mailbox::{BUFFER_LENGTH, MailBox, MailReply, build_alloc_request,
    build_size_request};
use fb_console::video::Video;

fn size_echo(width: u32, height: u32, depth_bits: u32, order: u32) -> Vec<u32> {
    let mut mail = build_size_request(width, height);
    mail[1] = 0x8000_0000;
    mail[15] = depth_bits;
    mail[19] = order;
    while mail.len() < BUFFER_LENGTH {
        mail.push(0);
    }
    mail
}

fn alloc_echo(bus_base: u32, len_bytes: u32) -> Vec<u32> {
    let mut mail = build_alloc_request();
    mail[1] = 0x8000_0000;
    mail[5] = bus_base;
    mail[6] = len_bytes;
    while mail.len() < BUFFER_LENGTH {
        mail.push(0);
    }
    mail
}

/// A console whose mailbox echoed a canonical response for the given mode,
/// initialized and reset, ready to write.
fn echo_console(width: u32, height: u32, depth_bits: u32, order: u32) -> Video {
    let mut mb = MailBox::new(0x40);
    let replies = vec![
        MailReply { read_word: 8, mail: size_echo(width, height, depth_bits, order) },
        MailReply { read_word: 8, mail: alloc_echo(0xC000_1000, width * height * 4) },
    ];
    let mut v = Video::new();
    v.init(&mut mb, width, height, &replies);
    v.reset_console();
    v
}

#[test]
fn pixel_encodings_differ_by_variant() {
    let mut d = Display::create(2, 1, ColorDepth::ARGB32, 0, 8).unwrap();
    d.write_pixel(0, 0, 0xAA, 0xBB, 0xCC).unwrap();
    assert_eq!(d.read_pixel(0, 0), 0x00AA_BBCC);

    let mut d = Display::create(2, 1, ColorDepth::ABGR32, 0, 8).unwrap();
    d.write_pixel(0, 0, 0xAA, 0xBB, 0xCC).unwrap();
    assert_eq!(d.read_pixel(0, 0), 0x00CC_BBAA);

    let mut d = Display::create(2, 1, ColorDepth::RGB24, 0, 8).unwrap();
    d.write_pixel(1, 0, 1, 2, 3).unwrap();
    assert_eq!(d.read_pixel(1, 0), 0x0001_0203);
}

#[test]
fn byte_array_packs_high_to_low() {
    assert_eq!(byte_array_to_u32([1, 2, 3]), 0x0001_0203);
    assert_eq!(byte_array_to_u32([0xFF, 0, 0]), 0x00FF_0000);
}

#[test]
fn determine_depth_variants() {
    assert_eq!(ColorDepth::determine_depth(32, true), ColorDepth::ARGB32);
    assert_eq!(ColorDepth::determine_depth(32, false), ColorDepth::ABGR32);
    assert_eq!(ColorDepth::determine_depth(24, true), ColorDepth::RGB24);
    assert_eq!(ColorDepth::determine_depth(24, false), ColorDepth::UNKNOWN);
    assert_eq!(ColorDepth::determine_depth(16, true), ColorDepth::UNKNOWN);
}

#[test]
fn write_pixel_out_of_bounds_leaves_memory_unchanged() {
    let mut d = Display::create(4, 3, ColorDepth::ARGB32, 0, 48).unwrap();
    for x in 0..4 {
        for y in 0..3 {
            d.write_pixel(x, y, 10 + x as u8, 20 + y as u8, 30).unwrap();
        }
    }
    let snapshot: Vec<u32> = (0..3).flat_map(|y| (0..4).map(move |x| (x, y)))
        .map(|(x, y)| d.read_pixel(x, y)).collect();
    // Clipped writes, with assorted colors.
    d.write_pixel(4, 0, 1, 2, 3).unwrap();
    d.write_pixel(0, 3, 255, 255, 255).unwrap();
    d.write_pixel(4, 3, 9, 9, 9).unwrap();
    d.write_pixel(1000, 1000, 0, 0, 1).unwrap();
    let after: Vec<u32> = (0..3).flat_map(|y| (0..4).map(move |x| (x, y)))
        .map(|(x, y)| d.read_pixel(x, y)).collect();
    assert_eq!(snapshot, after);
}

#[test]
fn unsupported_depth_fails_every_pixel_write() {
    let mut d = Display::create(4, 3, ColorDepth::UNKNOWN, 0, 48).unwrap();
    assert_eq!(d.write_pixel(0, 0, 1, 2, 3), Err(Fault::UnsupportedColorDepth));
    assert_eq!(d.write_pixel(99, 99, 1, 2, 3), Err(Fault::UnsupportedColorDepth));
}

#[test]
fn unsupported_depth_console_write_fails() {
    // Depth 16 has no known encoding; the console accepts the surface but
    // the first write fails fatally.
    let mut v = echo_console(60, 40, 16, 1);
    assert_eq!(v.write_str("hi"), Err(Fault::UnsupportedColorDepth));
    assert_eq!(v.chars_written(), 0);
}

#[test]
fn absent_hardware_counts_without_drawing() {
    let mut mb = MailBox::new(0x40);
    let mut v = Video::new();
    v.init(&mut mb, 1920, 1080, &Vec::new());
    v.reset_console();
    assert!(v.write_str("hello").is_ok());
    assert_eq!(v.chars_written(), 5);
    assert_eq!(v.read_pixel(0, 0), None);
}

#[test]
fn reset_parks_cursor_one_row_short() {
    let v = echo_console(60, 40, 32, 1);
    assert_eq!(v.cursor(), (0, 9));
    assert_eq!(v.chars_written(), 0);
    assert_eq!(v.chars_read(), 0);
}

#[test]
fn glyphs_light_pixels_spaces_do_not() {
    let mut v = echo_console(60, 40, 32, 1);
    v.write_str("A").unwrap();
    let mut lit = 0;
    for y in 0..10 {
        for x in 0..6 {
            if v.read_pixel(x, y).unwrap() != 0 {
                lit += 1;
            }
        }
    }
    assert!(lit > 0);
    // The second cell took a space: nothing lit there.
    v.write_str(" ").unwrap();
    for y in 0..10 {
        for x in 6..12 {
            assert_eq!(v.read_pixel(x, y).unwrap(), 0);
        }
    }
}

#[test]
fn cursor_advances_by_cell_width() {
    let mut v = echo_console(60, 40, 32, 1);
    v.write_str("abc").unwrap();
    assert_eq!(v.cursor(), (18, 9));
    assert_eq!(v.chars_written(), 3);
}

#[test]
fn newline_forces_next_row() {
    let mut v = echo_console(60, 40, 32, 1);
    v.write_str("ab\n").unwrap();
    assert_eq!(v.cursor(), (0, 19));
    assert_eq!(v.chars_written(), 3);
}

#[test]
fn exact_fill_wraps_to_next_row() {
    // Ten 6-pixel cells fill the 60-pixel row exactly.
    let mut v = echo_console(60, 40, 32, 1);
    v.write_str("0123456789").unwrap();
    assert_eq!(v.cursor(), (0, 19));
    assert_eq!(v.chars_written(), 10);
}

#[test]
fn long_write_wraps_and_loses_nothing() {
    // 25 characters over ten columns: two full rows and five cells.
    let mut v = echo_console(60, 40, 32, 1);
    v.write_str("ABCDEFGHIJKLMNOPQRSTUVWXY").unwrap();
    assert_eq!(v.chars_written(), 25);
    assert_eq!(v.cursor(), (30, 29));
    // The prefix really sits on the first row: 'A' lit pixels in cell 0.
    let mut lit = 0;
    for y in 0..10 {
        for x in 0..6 {
            if v.read_pixel(x, y).unwrap() != 0 {
                lit += 1;
            }
        }
    }
    assert!(lit > 0);
}

#[test]
fn two_hundred_chars_wrap_after_192_columns() {
    // A 1152-pixel-wide surface holds 192 six-pixel glyph cells per row: a
    // 200-character line wraps there, with no character lost or written
    // twice.
    let mut v = echo_console(1152, 200, 32, 1);
    let line = "x".repeat(200);
    v.write_str(&line).unwrap();
    assert_eq!(v.chars_written(), 200);
    assert_eq!(v.cursor(), ((200 - 192) * 6, 19));
}

#[test]
fn scroll_moves_second_cell_row_to_top_and_zeroes_bottom() {
    // Three cell rows of 10 pixel rows each; text on the first two.
    let mut v = echo_console(12, 30, 32, 1);
    v.write_str("AB").unwrap();
    v.write_str("CD").unwrap();
    let mut second_row = Vec::new();
    for y in 10..20 {
        for x in 0..12 {
            second_row.push(v.read_pixel(x, y).unwrap());
        }
    }
    assert!(second_row.iter().any(|&w| w != 0));
    v.scroll_video_console();
    let mut top_row = Vec::new();
    for y in 0..10 {
        for x in 0..12 {
            top_row.push(v.read_pixel(x, y).unwrap());
        }
    }
    assert_eq!(top_row, second_row);
    for y in 20..30 {
        for x in 0..12 {
            assert_eq!(v.read_pixel(x, y).unwrap(), 0);
        }
    }
}

#[test]
fn writing_past_the_bottom_scrolls() {
    // Two cell rows; the third line forces a scroll and the cursor stays
    // on the last row.
    let mut v = echo_console(12, 20, 32, 1);
    v.write_str("a\n").unwrap();
    v.write_str("b\n").unwrap();
    assert_eq!(v.cursor(), (0, 19));
    v.write_str("c").unwrap();
    assert_eq!(v.cursor(), (6, 19));
    assert_eq!(v.chars_written(), 5);
}

#[test]
fn too_small_surface_degrades_to_sink() {
    // A 4x8 surface cannot hold one 6x10 glyph cell.
    let mut v = echo_console(4, 8, 32, 1);
    assert_eq!(v.read_pixel(0, 0), None);
    assert!(v.write_str("abc").is_ok());
    assert_eq!(v.chars_written(), 3);
}

#[test]
fn write_char_forwards_single_characters() {
    let mut v = echo_console(60, 40, 32, 1);
    v.write_char('a').unwrap();
    v.write_char('b').unwrap();
    assert_eq!(v.cursor(), (12, 9));
    assert_eq!(v.chars_written(), 2);
    assert_eq!(v.chars_read(), 0);
}

#[test]
fn registry_fans_writes_out() {
    let mut m = console_manger();
    let mut mb = MailBox::new(0x40);
    let mut sink = Video::new();
    sink.init(&mut mb, 8, 8, &Vec::new());
    sink.reset_console();
    m.register_console(Console::new(sink));
    m.register_console(Console::new(echo_console(60, 40, 32, 1)));
    assert_eq!(m.consoles().len(), 2);
    m.write_char('x');
    assert!(m.write_str("yz").is_ok());
    for c in m.consoles().iter() {
        assert_eq!(c.video.chars_written(), 3);
    }
    m.flush();
    m.clear_rx();
}

#[test]
fn registry_write_stops_at_refusing_console() {
    let mut m = console_manger();
    m.register_console(Console::new(echo_console(60, 40, 32, 1)));
    m.register_console(Console::new(echo_console(60, 40, 16, 1)));
    m.register_console(Console::new(echo_console(60, 40, 32, 1)));
    assert_eq!(m.write_str("hi"), Err(Fault::UnsupportedColorDepth));
    assert_eq!(m.consoles()[0].video.chars_written(), 2);
    assert_eq!(m.consoles()[1].video.chars_written(), 0);
    assert_eq!(m.consoles()[2].video.chars_written(), 0);
}

#[test]
fn video_compatible_name() {
    let v = Video::new();
    assert_eq!(v.compatible(), "BCM VideoCore IV");
}

#[test]
fn exclusive_cell_hands_contents_back_and_forth() {
    let mut cell = fb_console::synchronization::NullLock::new(7u32);
    assert_eq!(*cell.peek(), 7);
    let v = cell.acquire();
    assert_eq!(v, 7);
    cell.release(v + 1);
    assert_eq!(*cell.peek(), 8);
}
