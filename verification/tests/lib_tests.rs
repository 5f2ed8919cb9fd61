use armemu::memory::EmuMemory;

#[test]
fn lib_it_works() {
    assert_eq!(2, 2);
}

#[test]
fn read_and_write_at_one_address() {
    let mut mem: EmuMemory<u32, u32> = EmuMemory::new(0u32);
    let addr: u32 = 1024;
    let data: u32 = 99;

    if let Some(d) = mem.get(&addr) {
        assert_eq!(*d, Default::default());
    } else {
        panic!("Failed to fetch memory reference.");
    }
    if mem.get_mut(&addr) {
        assert!(mem.set(&addr, data));
    } else {
        panic!("Failed to fetch mutable memory reference.");
    }
    if let Some(d) = mem.get(&addr) {
        assert_eq!(*d, data);
    } else {
        panic!("Failed to fetch memory reference.");
    }
}

#[test]
fn unwritten_addresses_read_as_the_default() {
    let mut mem: EmuMemory<u64, u8> = EmuMemory::new(7u8);
    assert_eq!(mem.get(&3), Some(&7));
    assert!(mem.get_mut(&3));
    assert_eq!(mem.get(&3), Some(&7));
    assert!(mem.set(&3, 9));
    assert_eq!(mem.get(&3), Some(&9));
    assert_eq!(mem.get(&4), Some(&7));
}
