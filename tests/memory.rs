use cpu_emulator::error::Error;
use cpu_emulator::memory::Memory;

#[test]
fn new_memory_is_zeroed() {
    let m = Memory::new(4);
    assert_eq!(m.size, 4);
    assert_eq!(m.data, vec![0, 0, 0, 0]);
}

#[test]
fn bytes_read_back() {
    let mut m = Memory::new(4);
    assert_eq!(m.write(3, 7), Ok(()));
    assert_eq!(m.read(3), Ok(7));
    assert_eq!(m.read(0), Ok(0));
}

#[test]
fn access_at_size_is_out_of_bounds() {
    let mut m = Memory::new(4);
    assert_eq!(m.read(4), Err(Error::OutOfBounds(4)));
    assert_eq!(m.read(u32::MAX), Err(Error::OutOfBounds(u32::MAX)));
    assert_eq!(m.write(4, 1), Err(Error::OutOfBounds(4)));
    assert_eq!(m.write(100, 1), Err(Error::OutOfBounds(100)));
    assert_eq!(m.data, vec![0, 0, 0, 0]);
}

#[test]
fn words_are_big_endian() {
    let mut m = Memory::new(4);
    assert_eq!(m.write_word(1, 0x1234), Ok(()));
    assert_eq!(m.data, vec![0, 0x12, 0x34, 0]);
    assert_eq!(m.read_word(1), Ok(0x1234));
    assert_eq!(m.read_word(0), Ok(0x0012));
}

#[test]
fn word_past_the_end_is_out_of_bounds_and_writes_nothing() {
    let mut m = Memory::new(4);
    assert_eq!(m.write_word(3, 0xFFFF), Err(Error::OutOfBounds(4)));
    assert_eq!(m.write_word(4, 0xFFFF), Err(Error::OutOfBounds(4)));
    assert_eq!(m.data, vec![0, 0, 0, 0]);
    assert_eq!(m.read_word(3), Err(Error::OutOfBounds(4)));
    assert_eq!(m.read_word(9), Err(Error::OutOfBounds(9)));
}

#[test]
fn empty_memory_refuses_everything() {
    let mut m = Memory::new(0);
    assert_eq!(m.read(0), Err(Error::OutOfBounds(0)));
    assert_eq!(m.write(0, 1), Err(Error::OutOfBounds(0)));
}
