use kernel::cell::encode_cell;
use kernel::entry::{run, run_entry, Action, EntryCore, REFERENCE_ATTRIBUTE};
use kernel::screen::TextBuffer;

#[test]
fn reference_run_writes_ok_and_leaves_rest_blank() {
    let mut buf = TextBuffer::new(4000);
    let core = run_entry(&mut buf, 16);
    assert!(core.is_halted());
    let cells = buf.cells();
    assert_eq!(cells.len(), 4000);
    assert_eq!(cells[0], 0x024F);
    assert_eq!(cells[1], 0x024B);
    assert!(cells[2..].iter().all(|&c| c == 0x0000));
}

#[test]
fn reference_cells_hold_character_and_attribute() {
    let mut buf = TextBuffer::new(80);
    run_entry(&mut buf, 3);
    let cells = buf.cells();
    assert_eq!(cells[0] & 0xFF, b'O' as u16);
    assert_eq!(cells[0] >> 8, 0x02);
    assert_eq!(cells[1] & 0xFF, b'K' as u16);
    assert_eq!(cells[1] >> 8, 0x02);
    assert_eq!(REFERENCE_ATTRIBUTE, 0x02);
}

#[test]
fn writes_come_in_offset_order() {
    let mut buf = TextBuffer::new(80);
    let mut core = EntryCore::new(b"HELLO".to_vec(), 0x1F);
    run(&mut core, &mut buf, 100);
    let expected: Vec<(usize, u16)> = vec![
        (0, 0x1F48),
        (1, 0x1F45),
        (2, 0x1F4C),
        (3, 0x1F4C),
        (4, 0x1F4F),
    ];
    assert_eq!(buf.writes(), &expected);
}

#[test]
fn reference_steps_write_then_idle() {
    let mut core = EntryCore::reference();
    assert_eq!(core.step(), Action::Write { offset: 0, value: 0x024F });
    assert_eq!(core.step(), Action::Write { offset: 1, value: 0x024B });
    assert!(!core.is_halted());
    assert_eq!(core.step(), Action::Idle);
    assert!(core.is_halted());
    assert_eq!(core.step(), Action::Idle);
}

#[test]
fn run_never_reads_the_buffer() {
    let mut buf = TextBuffer::new(4000);
    run_entry(&mut buf, 50);
    assert_eq!(buf.reads(), 0);
}

#[test]
fn no_write_follows_the_last_one() {
    let mut buf = TextBuffer::new(4000);
    let mut core = EntryCore::reference();
    run(&mut core, &mut buf, 2);
    assert!(!core.is_halted());
    assert_eq!(buf.writes().len(), 2);
    run(&mut core, &mut buf, 1000);
    assert!(core.is_halted());
    assert_eq!(buf.writes().len(), 2);
    for _ in 0..10 {
        assert_eq!(core.step(), Action::Idle);
    }
}

#[test]
fn fault_is_silent_whatever_the_payload() {
    let payloads: [&[u8]; 2] = [b"panicked at 'index out of bounds', src/lib.rs:12:5", b""];
    for payload in payloads {
        let mut buf = TextBuffer::new(4000);
        let mut core = EntryCore::reference();
        assert_eq!(core.fault(payload), Action::Idle);
        assert!(core.is_halted());
        run(&mut core, &mut buf, 100);
        assert!(buf.writes().is_empty());
        assert_eq!(buf.reads(), 0);
        assert!(buf.cells().iter().all(|&c| c == 0));
    }
}

#[test]
fn fault_midway_stops_further_writes() {
    let mut buf = TextBuffer::new(80);
    let mut core = EntryCore::reference();
    run(&mut core, &mut buf, 1);
    assert_eq!(core.fault(b"stack overflow"), Action::Idle);
    run(&mut core, &mut buf, 100);
    assert_eq!(buf.writes(), &vec![(0usize, 0x024Fu16)]);
    assert_eq!(buf.cells()[1], 0);
}

#[test]
fn empty_message_halts_at_once() {
    let mut buf = TextBuffer::new(0);
    let mut core = EntryCore::new(Vec::new(), 0x07);
    run(&mut core, &mut buf, 1);
    assert!(core.is_halted());
    assert!(buf.writes().is_empty());
}

#[test]
fn run_keeps_earlier_contents_elsewhere() {
    let mut buf = TextBuffer::new(4);
    buf.write_cell(3, 0x0741);
    let mut core = EntryCore::new(b"ab".to_vec(), 0x70);
    run(&mut core, &mut buf, 5);
    assert_eq!(buf.cells(), &vec![0x7061u16, 0x7062, 0, 0x0741]);
    assert_eq!(buf.writes().len(), 3);
}

#[test]
fn encode_cell_packs_bytes() {
    assert_eq!(encode_cell(0x4F, 0x02), 0x024F);
    assert_eq!(encode_cell(0x00, 0x00), 0x0000);
    assert_eq!(encode_cell(0xFF, 0xFF), 0xFFFF);
    assert_eq!(encode_cell(0x41, 0x80), 0x8041);
}
