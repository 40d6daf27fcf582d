use rustux::drivers::display::framebuffer::{Color, Framebuffer, PixelFormat};
use rustux::drivers::display::console::{ConsoleOp, TextConsole};
use rustux::drivers::keyboard::ps2::{CircularBuffer, PS2_DATA_PORT, PS2_CMD_PORT, INPUT_BUFFER_SIZE};
use rustux::drivers::uart::{Uart16550, COM1_PORT, COM2_PORT};
use rustux::kernel::keyboard::{
    InputBuffer, KeyboardState, LineStep, edit_line, KEYBOARD_DATA_PORT, KEYBOARD_COMMAND_PORT,
    SCAN_CODE_TO_ASCII,
};
use rustux::kernel::keyboard::INPUT_BUFFER_SIZE as KERNEL_INPUT_BUFFER_SIZE;
use rustux::kernel::mm::BumpAllocator;
use rustux::kernel::keyboard::{LineReader, POLLING_THRESHOLD, TimedLineReader, timeout_outcome, irq_count_digit};

#[test]
fn ps2_test_constants() {
    assert_eq!(KEYBOARD_DATA_PORT, 0x60);
    assert_eq!(KEYBOARD_COMMAND_PORT, 0x64);
    assert_eq!(KERNEL_INPUT_BUFFER_SIZE, 256);
    assert_eq!(PS2_DATA_PORT, 0x60);
    assert_eq!(PS2_CMD_PORT, 0x64);
    assert_eq!(INPUT_BUFFER_SIZE, 256);
}

#[test]
fn test_scan_code_table_size() {
    assert_eq!(SCAN_CODE_TO_ASCII.len(), 128);
}

#[test]
fn test_input_buffer_new() {
    let buffer = InputBuffer::new();
    assert!(!buffer.has_data());
    assert_eq!(buffer.available(), 0);
}

#[test]
fn test_input_buffer_write_read() {
    let mut buffer = InputBuffer::new();
    assert!(buffer.write(b'A'));
    assert!(buffer.has_data());
    assert_eq!(buffer.available(), 1);
    assert_eq!(buffer.read(), Some(b'A'));
    assert!(!buffer.has_data());
}

#[test]
fn test_input_buffer_capacity() {
    let mut buffer = InputBuffer::new();
    let mut written = 0;
    while buffer.write(b'x') {
        written += 1;
    }
    assert_eq!(written, 255);
    assert_eq!(buffer.available(), 255);
    assert_eq!(buffer.read(), Some(b'x'));
    assert!(buffer.write(b'y'));
}

#[test]
fn test_keyboard_state_shift() {
    let mut kb = KeyboardState::new();
    kb.handle_scancode(0x1E); // 'a'
    kb.handle_scancode(0x2A); // left shift down
    kb.handle_scancode(0x1E); // 'A'
    kb.handle_scancode(0xAA); // left shift up
    kb.handle_scancode(0x9E); // release of 'a': ignored
    kb.handle_scancode(0x1E);
    assert_eq!(kb.buffer.read(), Some(b'a'));
    assert_eq!(kb.buffer.read(), Some(b'A'));
    assert_eq!(kb.buffer.read(), Some(b'a'));
    assert_eq!(kb.buffer.read(), None);
}

#[test]
fn test_edit_line_steps() {
    let mut buf = [0u8; 4];
    assert_eq!(edit_line(&mut buf, 0, b'h'), LineStep::Continue(1));
    assert_eq!(edit_line(&mut buf, 1, b'i'), LineStep::Continue(2));
    assert_eq!(edit_line(&mut buf, 2, 8), LineStep::Continue(1));
    assert_eq!(edit_line(&mut buf, 0, 8), LineStep::Continue(0));
    assert_eq!(edit_line(&mut buf, 4, b'z'), LineStep::Continue(4));
    assert_eq!(edit_line(&mut buf, 2, b'\n'), LineStep::Done(2));
    assert_eq!(&buf[..2], b"hi");
}

#[test]
fn test_bump_allocator() {
    let mut a = BumpAllocator::new(0x1000, 0x100).unwrap();
    assert_eq!(a.allocate(0x80), Some(0x1000));
    assert_eq!(a.allocate(0x80), Some(0x1080));
    assert_eq!(a.allocate(0x10), None);
}

#[test]
fn test_color_new() {
    let c = Color::new(255, 128, 0);
    assert_eq!(c.r, 255);
    assert_eq!(c.g, 128);
    assert_eq!(c.b, 0);
}

#[test]
fn test_color_constants() {
    assert_eq!(Color::black(), Color::new(0, 0, 0));
    assert_eq!(Color::white(), Color::new(255, 255, 255));
}

#[test]
fn test_color_rgb565_conversion() {
    let c = Color::new(255, 0, 0);
    let rgb565 = c.to_rgb565();
    let c2 = Color::from_rgb565(rgb565);

    assert!(c2.r >= 250);
    assert_eq!(c2.g, 0);
    assert_eq!(c2.b, 0);
}

#[test]
fn test_color_rgb565_exact_values() {
    assert_eq!(Color::new(255, 255, 255).to_rgb565(), 0xFFFF);
    assert_eq!(Color::new(0, 0, 255).to_rgb565(), 0x001F);
    assert_eq!(Color::from_rgb565(0xF800), Color::new(255, 0, 0));
    assert_eq!(Color::new(1, 2, 3).to_rgba32(), 0xFF01_0203);
}

#[test]
fn test_framebuffer_new() {
    let fb = Framebuffer::new(0xE0000000, 1024, 768, 4096, 32, PixelFormat::RGB);

    assert_eq!(fb.base_addr, 0xE0000000);
    assert_eq!(fb.width, 1024);
    assert_eq!(fb.height, 768);
    assert_eq!(fb.pitch, 4096);
    assert_eq!(fb.bpp, 32);
}

#[test]
fn test_framebuffer_size() {
    let fb = Framebuffer::new(0xE0000000, 1024, 768, 4096, 32, PixelFormat::RGB);
    assert_eq!(fb.size(), 768 * 4096);
}

#[test]
fn test_pixel_offset_valid() {
    let fb = Framebuffer::new(0xE0000000, 1024, 768, 4096, 32, PixelFormat::RGB);
    assert_eq!(fb.pixel_offset(100, 200), Some(200 * 4096 + 100 * 4));
}

#[test]
fn test_pixel_offset_invalid() {
    let fb = Framebuffer::new(0xE0000000, 1024, 768, 4096, 32, PixelFormat::RGB);
    assert_eq!(fb.pixel_offset(2000, 200), None);
    assert_eq!(fb.pixel_offset(100, 1000), None);
}

#[test]
fn test_put_pixel_bytes() {
    let fb = Framebuffer::new(0, 4, 2, 16, 32, PixelFormat::RGB);
    let mut mem = vec![0u8; 32];
    fb.put_pixel(&mut mem, 1, 1, Color::new(1, 2, 3));
    assert_eq!(&mem[20..24], &[3, 2, 1, 0xFF]);
    fb.put_pixel(&mut mem, 9, 1, Color::new(9, 9, 9));
    assert_eq!(mem.iter().filter(|b| **b != 0).count(), 4);
}

#[test]
fn test_console_put_char_and_newline() {
    let fb = Framebuffer::new(0, 64, 32, 256, 32, PixelFormat::RGB);
    let mut con = TextConsole::new(fb);
    assert_eq!(con.cols(), 8);
    assert_eq!(con.rows(), 2);
    let ops = con.put_char(b'A');
    assert_eq!(ops, vec![ConsoleOp::RenderChar { ch: b'A', col: 0, row: 0 }]);
    assert_eq!(con.cursor(), (1, 0));
    let _ = con.put_char(b'\n');
    assert_eq!(con.cursor(), (0, 1));
    let ops = con.put_char(b'\n');
    assert!(ops.contains(&ConsoleOp::Scroll));
    assert_eq!(con.cursor(), (0, 1));
}

#[test]
fn test_circular_buffer_new() {
    let buf: CircularBuffer<u8, 16> = CircularBuffer::new();
    assert!(!buf.has_data());
    assert_eq!(buf.available(), 0);
    assert!(!buf.is_full());
}

#[test]
fn test_circular_buffer_write_read() {
    let mut buf: CircularBuffer<u8, 16> = CircularBuffer::new();
    assert!(buf.write(42));
    assert!(buf.has_data());
    assert_eq!(buf.available(), 1);
    assert_eq!(buf.read(), Some(42));
    assert!(!buf.has_data());
}

#[test]
fn test_circular_buffer_wraparound() {
    let mut buf: CircularBuffer<u8, 4> = CircularBuffer::new();
    assert!(buf.write(1));
    assert!(buf.write(2));
    assert!(buf.write(3));
    assert_eq!(buf.read(), Some(1));
    assert_eq!(buf.read(), Some(2));
    assert!(buf.write(4));
    assert!(buf.write(5));
    assert_eq!(buf.read(), Some(3));
    assert_eq!(buf.read(), Some(4));
    assert_eq!(buf.read(), Some(5));
    assert!(!buf.has_data());
}

#[test]
fn test_circular_buffer_full() {
    let mut buf: CircularBuffer<u8, 4> = CircularBuffer::new();
    assert!(buf.write(1));
    assert!(buf.write(2));
    assert!(buf.write(3));
    assert!(!buf.is_full());
    assert!(buf.write(4));
    assert!(buf.is_full());
    assert!(!buf.write(5));
}

#[test]
fn test_circular_buffer_clear() {
    let mut buf: CircularBuffer<u8, 16> = CircularBuffer::new();
    assert!(buf.write(1));
    assert!(buf.write(2));
    assert!(buf.write(3));
    assert_eq!(buf.available(), 3);
    buf.clear();
    assert!(!buf.has_data());
    assert_eq!(buf.available(), 0);
}

#[test]
fn test_uart_constants() {
    assert_eq!(COM1_PORT, 0x3F8);
    assert_eq!(COM2_PORT, 0x2F8);
}

#[test]
fn test_uart_create() {
    let uart = Uart16550::new(0x3F8);
    assert_eq!(uart.base_port(), 0x3F8);
}

#[test]
fn test_uart_registers() {
    let uart = Uart16550::new(0x3F8);
    assert_eq!(uart.register(5), 0x3FD);
    let writes = uart.init_writes();
    assert!(!writes.is_empty());
    assert!(writes.iter().all(|(port, _)| *port >= 0x3F8 && *port <= 0x3FF));
}

fn pixel(mem: &[u8], fb: &Framebuffer, x: usize, y: usize) -> [u8; 4] {
    let o = y * fb.pitch + x * 4;
    [mem[o], mem[o + 1], mem[o + 2], mem[o + 3]]
}

#[test]
fn test_fill_rect_and_clear() {
    let fb = Framebuffer::new(0, 4, 4, 16, 32, PixelFormat::RGB);
    let mut mem = vec![0u8; 64];
    fb.fill_rect(&mut mem, 2, 1, 5, 2, Color::new(1, 2, 3));
    assert_eq!(pixel(&mem, &fb, 2, 1), [3, 2, 1, 0xFF]);
    assert_eq!(pixel(&mem, &fb, 3, 2), [3, 2, 1, 0xFF]);
    assert_eq!(pixel(&mem, &fb, 1, 1), [0, 0, 0, 0]);
    assert_eq!(pixel(&mem, &fb, 2, 3), [0, 0, 0, 0]);
    fb.clear(&mut mem, Color::white());
    assert!(mem.iter().all(|b| *b == 0xFF));
}

#[test]
fn test_scroll_moves_rows_up() {
    let fb = Framebuffer::new(0, 2, 4, 8, 32, PixelFormat::BGR);
    let mut mem: Vec<u8> = (0..32u8).collect();
    fb.scroll(&mut mem, 1, 1);
    assert_eq!(&mem[0..24], &(8..32u8).collect::<Vec<u8>>()[..]);
    assert_eq!(&mem[24..32], &[0, 0, 0, 0xFF, 0, 0, 0, 0xFF]);
    fb.scroll(&mut mem, 2, 2);
    assert!(mem.chunks(4).all(|p| p == [0, 0, 0, 0xFF]));
}

#[test]
fn test_write_text_blocks() {
    let fb = Framebuffer::new(0, 20, 16, 80, 32, PixelFormat::RGB);
    let mut mem = vec![0u8; 80 * 16];
    fb.write_text(&mut mem, "ab", 0, 0, Color::new(9, 9, 9), Color::black());
    assert_eq!(pixel(&mem, &fb, 0, 0), [9, 9, 9, 0xFF]);
    assert_eq!(pixel(&mem, &fb, 6, 15), [9, 9, 9, 0xFF]);
    assert_eq!(pixel(&mem, &fb, 7, 0), [0, 0, 0, 0]);
    assert_eq!(pixel(&mem, &fb, 8, 3), [9, 9, 9, 0xFF]);
    assert_eq!(pixel(&mem, &fb, 15, 3), [0, 0, 0, 0]);
    assert_eq!(pixel(&mem, &fb, 16, 3), [0, 0, 0, 0]);
}

#[test]
fn test_line_reader_switches_to_polling() {
    let mut r = LineReader::new();
    let mut buf = [0u8; 8];
    assert_eq!(r.on_char(&mut buf, b'o'), None);
    assert_eq!(r.on_char(&mut buf, b'k'), None);
    for _ in 0..POLLING_THRESHOLD {
        assert!(!r.on_empty());
    }
    assert!(r.on_empty());
    assert!(r.polling_mode);
    assert!(!r.on_empty());
    assert_eq!(r.on_char(&mut buf, b'\n'), Some(2));
    assert_eq!(&buf[..2], b"ok");
    assert_eq!(timeout_outcome(0), None);
    // A timeout before Enter answers None even with characters stored.
    assert_eq!(timeout_outcome(3), None);
    assert_eq!(irq_count_digit(9), b'9');
    assert_eq!(irq_count_digit(12), b'C');
}

use rustux::drivers::keyboard::bringup::{Ps2Action, Ps2Init, POLL_LIMIT};

/// Run the bring-up sequence against a simulated controller; answers the
/// writes made and the number of actions.
fn run_bringup(mut status_of: impl FnMut(&Vec<u8>) -> u8, config: u8) -> (Vec<Ps2Action>, usize) {
    let mut s = Ps2Init::new();
    let mut pending: Vec<u8> = Vec::new();
    let mut writes = Vec::new();
    let mut input = 0u8;
    let mut actions = 0usize;
    loop {
        let a = s.step(input);
        actions += 1;
        match a {
            Ps2Action::ReadStatus => input = status_of(&pending),
            Ps2Action::ReadData => input = if pending.is_empty() { 0 } else { pending.remove(0) },
            Ps2Action::WriteCommand(c) => {
                if c == 0x20 {
                    pending.push(config);
                }
                writes.push(a);
            }
            Ps2Action::WriteData(d) => {
                if d == 0xF5 || d == 0xF4 {
                    pending.push(0xFA);
                }
                writes.push(a);
            }
            Ps2Action::Delay(_) => {}
            Ps2Action::Done => break,
        }
    }
    (writes, actions)
}

#[test]
fn test_bringup_with_responsive_controller() {
    let (writes, _) = run_bringup(|p| if p.is_empty() { 0 } else { 0x01 }, 0x44);
    assert_eq!(
        writes,
        vec![
            Ps2Action::WriteCommand(0xAD),
            Ps2Action::WriteCommand(0x20),
            Ps2Action::WriteCommand(0x60),
            Ps2Action::WriteData(0x45),
            Ps2Action::WriteCommand(0xAE),
            Ps2Action::WriteData(0xF5),
            Ps2Action::WriteData(0xF4),
        ]
    );
}

#[test]
fn test_bringup_silent_controller_uses_default_config() {
    let (writes, actions) = run_bringup(|_| 0, 0x44);
    assert_eq!(writes[3], Ps2Action::WriteData(0x41));
    assert_eq!(writes.len(), 7);
    // Three replies are awaited in vain, each for the full number of polls.
    assert!(actions > 3 * 2 * POLL_LIMIT as usize);
}

#[test]
fn test_bringup_stuck_input_buffer_still_writes() {
    let (writes, _) = run_bringup(|_| 0x02, 0x44);
    assert_eq!(writes.len(), 7);
    assert_eq!(writes[0], Ps2Action::WriteCommand(0xAD));
    assert_eq!(writes[3], Ps2Action::WriteData(0x41));
}

#[test]
fn test_timed_line_reader() {
    let mut buf = [0u8; 8];
    let mut r = TimedLineReader::new(3);
    assert_eq!(r.begin_iteration(), None);
    assert_eq!(r.on_char(&mut buf, b'a'), None);
    assert_eq!(r.begin_iteration(), None);
    assert_eq!(r.on_char(&mut buf, b'b'), None);
    assert_eq!(r.begin_iteration(), None);
    // The limit is passed before Enter: the read answers None.
    assert_eq!(r.begin_iteration(), Some(None));
    assert_eq!(&buf[..2], b"ab");

    let mut r = TimedLineReader::new(10);
    assert_eq!(r.begin_iteration(), None);
    assert_eq!(r.on_char(&mut buf, b'x'), None);
    assert_eq!(r.on_char(&mut buf, 8), None);
    assert_eq!(r.on_char(&mut buf, b'y'), None);
    assert_eq!(r.on_char(&mut buf, b'\n'), Some(1));
    assert_eq!(buf[0], b'y');
}
