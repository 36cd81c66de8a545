use ac_internal::memory::{copy_range, split_write, MemWrite};

fn shape(ws: &[MemWrite]) -> Vec<(usize, Vec<u8>)> {
    ws.iter().map(|w| (w.addr, w.bytes.clone())).collect()
}

#[test]
fn split_write_seven_bytes() {
    let data = [1u8, 2, 3, 4, 5, 6, 7];
    let ws = split_write(100, &data);
    assert_eq!(shape(&ws), vec![(100, vec![1]), (101, vec![2, 3]), (103, vec![4, 5, 6, 7])]);
}

#[test]
fn split_write_nineteen_bytes() {
    let data: Vec<u8> = (0u8..19).collect();
    let ws = split_write(0x1000, &data);
    let widths: Vec<usize> = ws.iter().map(|w| w.bytes.len()).collect();
    // 19 -> 1, 18 -> 2, 16 -> 8, 8 -> 8
    assert_eq!(widths, vec![1, 2, 8, 8]);
    let addrs: Vec<usize> = ws.iter().map(|w| w.addr).collect();
    assert_eq!(addrs, vec![0x1000, 0x1001, 0x1003, 0x100b]);
    let joined: Vec<u8> = ws.iter().flat_map(|w| w.bytes.clone()).collect();
    assert_eq!(joined, data);
}

#[test]
fn split_write_multiple_of_eight_uses_words() {
    let data = [9u8; 16];
    let ws = split_write(8, &data);
    assert_eq!(shape(&ws), vec![(8, vec![9; 8]), (16, vec![9; 8])]);
}

#[test]
fn split_write_four_and_two() {
    let ws = split_write(0, &[1, 2, 3, 4]);
    assert_eq!(shape(&ws), vec![(0, vec![1, 2, 3, 4])]);
    let ws = split_write(0, &[1, 2, 3, 4, 5, 6]);
    assert_eq!(shape(&ws), vec![(0, vec![1, 2]), (2, vec![3, 4, 5, 6])]);
}

#[test]
fn split_write_empty_writes_nothing() {
    assert!(split_write(42, &[]).is_empty());
}

#[test]
fn split_write_one_byte() {
    let ws = split_write(usize::MAX, &[0xcc]);
    assert_eq!(shape(&ws), vec![(usize::MAX, vec![0xcc])]);
}

#[test]
fn copy_range_takes_the_slice() {
    assert_eq!(copy_range(&[1, 2, 3, 4, 5], 1, 4), vec![2, 3, 4]);
    assert_eq!(copy_range(&[1, 2, 3], 2, 2), Vec::<u8>::new());
}
