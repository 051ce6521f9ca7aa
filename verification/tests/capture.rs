use std::cell::RefCell;
use uefi::protocol::DevicePath;
use uefi::util::utf16_capture;

/// A reader of a memory that holds `bytes` and zeros behind them.
fn memory(bytes: Vec<u8>) -> impl Fn(usize, usize) -> Vec<u8> {
    move |at: usize, count: usize| {
        (at..at + count).map(|i| bytes.get(i).copied().unwrap_or(0)).collect()
    }
}

fn two_nodes() -> Vec<u8> {
    let mut b = vec![0x02, 0x01, 12, 0, 0xD0, 0x41, 0x03, 0x0A, 0, 0, 0, 0];
    b.extend_from_slice(&[0x01, 0x01, 6, 0, 0x00, 0x01]);
    b.extend_from_slice(&[0x7F, 0xFF, 4, 0]);
    b
}

#[test]
fn capture_reads_up_to_the_end_of_the_path() {
    let mut mem = two_nodes();
    mem.extend_from_slice(&[0xAA; 40]);
    let path = DevicePath::capture(memory(mem)).unwrap();
    assert_eq!(path.as_bytes(), &two_nodes()[..]);
    assert!(path.is_well_formed());
    assert_eq!(path.size(), Some(22));
}

#[test]
fn capture_of_the_empty_path() {
    let path = DevicePath::capture(memory(vec![0x7F, 0xFF, 4, 0, 1, 2, 3])).unwrap();
    assert_eq!(path.as_bytes(), &[0x7F, 0xFF, 4, 0]);
}

#[test]
fn capture_passes_instance_ends() {
    let mut mem = vec![0x01, 0x01, 6, 0, 0, 1];
    mem.extend_from_slice(&[0x7F, 0x01, 4, 0]);
    mem.extend_from_slice(&[0x01, 0x01, 6, 0, 0, 2]);
    mem.extend_from_slice(&[0x7F, 0xFF, 4, 0]);
    let path = DevicePath::capture(memory(mem.clone())).unwrap();
    assert_eq!(path.as_bytes(), &mem[..]);
}

#[test]
fn capture_reads_nothing_behind_the_path() {
    let asked: RefCell<Vec<(usize, usize)>> = RefCell::new(Vec::new());
    let mem = two_nodes();
    let path = DevicePath::capture(|at: usize, count: usize| {
        asked.borrow_mut().push((at, count));
        mem[at..at + count].to_vec()
    })
    .unwrap();
    assert_eq!(path.as_bytes(), &two_nodes()[..]);
    assert_eq!(*asked.borrow(), vec![(0, 4), (0, 12), (12, 4), (12, 6), (18, 4), (18, 4)]);
}

#[test]
fn capture_gives_up_on_a_length_below_the_header() {
    assert!(DevicePath::capture(memory(vec![0x01, 0x01, 3, 0, 0x7F, 0xFF, 4, 0])).is_none());
    assert!(DevicePath::capture(memory(vec![0x01, 0x01, 0, 0])).is_none());
    // zeros for ever
    assert!(DevicePath::capture(memory(Vec::new())).is_none());
}

#[test]
fn capture_gives_up_on_a_reader_that_gives_the_wrong_bytes() {
    assert!(DevicePath::capture(|_: usize, _: usize| vec![0x7F, 0xFF]).is_none());
    assert!(DevicePath::capture(|_: usize, _: usize| Vec::new()).is_none());
    // a header that changes between two reads
    let reads = RefCell::new(0);
    let r = DevicePath::capture(|_: usize, count: usize| {
        *reads.borrow_mut() += 1;
        if *reads.borrow() == 1 {
            vec![0x01, 0x01, 6, 0]
        } else {
            let mut v = vec![0x01, 0x01, 8, 0];
            v.resize(count, 0);
            v
        }
    });
    assert!(r.is_none());
}

#[test]
fn capture_node_reads_one_node() {
    let node = DevicePath::capture_node(memory(two_nodes())).unwrap();
    assert_eq!(node.as_bytes(), &two_nodes()[..12]);
    let node = DevicePath::capture_node(memory(vec![0x7F, 0xFF, 4, 0, 9, 9])).unwrap();
    assert_eq!(node.as_bytes(), &[0x7F, 0xFF, 4, 0]);
}

#[test]
fn capture_node_gives_up_on_a_length_below_the_header() {
    assert!(DevicePath::capture_node(memory(vec![0x01, 0x01, 2, 0])).is_none());
    assert!(DevicePath::capture_node(|_: usize, _: usize| vec![1]).is_none());
}

#[test]
fn utf16_capture_reads_up_to_the_first_zero() {
    let mem: Vec<u16> = vec![0x50, 0x63, 0x69, 0, 0x41, 0];
    assert_eq!(utf16_capture(|at: usize| mem[at]), Some(vec![0x50, 0x63, 0x69, 0]));
    let mem: Vec<u16> = vec![0, 7];
    assert_eq!(utf16_capture(|at: usize| mem[at]), Some(vec![0]));
    let mem: Vec<u16> = vec![0xD83D, 0xDE00, 0];
    assert_eq!(utf16_capture(|at: usize| mem[at]), Some(vec![0xD83D, 0xDE00, 0]));
}

#[test]
fn utf16_capture_reads_nothing_behind_the_zero() {
    let asked: RefCell<Vec<usize>> = RefCell::new(Vec::new());
    let mem: Vec<u16> = vec![0x61, 0x62, 0];
    let r = utf16_capture(|at: usize| {
        asked.borrow_mut().push(at);
        mem[at]
    });
    assert_eq!(r, Some(vec![0x61, 0x62, 0]));
    assert_eq!(*asked.borrow(), vec![0, 1, 2]);
}
