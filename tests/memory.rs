use terminus::bus::{Bus, BusError, RegionError};
use terminus::config::{PrivilegeLevel, ProcessorCfg, XLen};
use terminus::load_store::LoadStore;
use terminus::machine::Machine;
use terminus::state::ProcessorState;
use terminus::system::{LoadError, System};
use terminus::trap::Exception;

fn state(xlen: XLen) -> ProcessorState {
    let cfg = ProcessorCfg { xlen, hartid: 0, start_address: 0, privilege_level: PrivilegeLevel::MSU, enabel_dirty: false };
    ProcessorState::new(cfg, vec!['c']).unwrap()
}

#[test]
fn bus_reads_little_endian() {
    let mut bus = Bus::new();
    bus.add_region(0x100, 0x100).unwrap();
    bus.write(0x100, 0x0807_0605_0403_0201, 8).unwrap();
    assert_eq!(bus.read_u8(0x101).unwrap(), 2);
    assert_eq!(bus.read_u16(0x102).unwrap(), 0x0403);
    assert_eq!(bus.read_u32(0x104).unwrap(), 0x0807_0605);
    assert_eq!(bus.read_u64(0x100).unwrap(), 0x0807_0605_0403_0201);
}

#[test]
fn bus_errors() {
    let mut bus = Bus::new();
    bus.add_region(0x100, 0x100).unwrap();
    assert_eq!(bus.read(0x102, 4), Err(BusError::Misaligned));
    assert_eq!(bus.read(0x1fc, 8), Err(BusError::Misaligned));
    assert_eq!(bus.read(0x1f8, 8).unwrap(), 0);
    assert_eq!(bus.read(0x200, 4), Err(BusError::AccessErr));
    assert_eq!(bus.write(0x0, 1, 1), Err(BusError::AccessErr));
    assert_eq!(bus.add_region(0x180, 0x100), Err(RegionError::Overlap(0)));
    assert_eq!(bus.add_region(0x400, 0), Err(RegionError::Invalid));
    assert_eq!(bus.add_region(0xffff_ffff_ffff_f000, 0x2000), Err(RegionError::Invalid));
}

#[test]
fn amo_returns_old_value() {
    let mut bus = Bus::new();
    bus.add_region(0x100, 0x100).unwrap();
    bus.write(0x100, 5, 4).unwrap();
    assert_eq!(bus.amo_u32(0x100, |x| x + 3).unwrap(), 5);
    assert_eq!(bus.read_u32(0x100).unwrap(), 8);
    assert_eq!(bus.amo_u64(0x108, |x| x | 0xf0).unwrap(), 0);
    assert_eq!(bus.read_u64(0x108).unwrap(), 0xf0);
}

#[test]
fn store_then_load_each_width() {
    let s = state(XLen::X64);
    let ls = LoadStore::new();
    let mut bus = Bus::new();
    bus.add_region(0x1000, 0x100).unwrap();
    let v = 0x1122_3344_5566_7788u64;
    ls.store_byte(&s, &mut bus, 0x1000, v).unwrap();
    assert_eq!(ls.load_byte(&s, &bus, 0x1000).unwrap(), v & 0xff);
    ls.store_half_word(&s, &mut bus, 0x1010, v).unwrap();
    assert_eq!(ls.load_half_word(&s, &bus, 0x1010).unwrap(), v & 0xffff);
    ls.store_word(&s, &mut bus, 0x1020, v).unwrap();
    assert_eq!(ls.load_word(&s, &bus, 0x1020).unwrap(), v & 0xffff_ffff);
    ls.store_double_word(&s, &mut bus, 0x1028, v).unwrap();
    assert_eq!(ls.load_double_word(&s, &bus, 0x1028).unwrap(), v);
}

#[test]
fn load_store_exceptions() {
    let s = state(XLen::X64);
    let ls = LoadStore::new();
    let mut bus = Bus::new();
    bus.add_region(0x1000, 0x100).unwrap();
    assert_eq!(ls.load_word(&s, &bus, 0x1002), Err(Exception::LoadMisaligned(0x1002)));
    assert_eq!(ls.load_word(&s, &bus, 0x2000), Err(Exception::LoadAccess(0x2000)));
    assert_eq!(ls.store_word(&s, &mut bus, 0x1001, 1), Err(Exception::StoreMisaligned(0x1001)));
    assert_eq!(ls.store_double_word(&s, &mut bus, 0x2000, 1), Err(Exception::StoreAccess(0x2000)));
    assert_eq!(ls.amo_word(&s, &mut bus, 0x2000, |x| x), Err(Exception::StoreAccess(0x2000)));
    assert_eq!(ls.amo_double_word(&s, &mut bus, 0x1000, |x| x + 1), Ok(0));
    assert_eq!(ls.load_double_word(&s, &bus, 0x1000), Ok(1));
}

#[test]
fn memory_around_htif_is_split() {
    let mut sys = System::new(String::from("sys"), vec![], vec![], 0).unwrap();
    sys.try_register_htif(Some(0x8000_1000)).unwrap();
    sys.register_memory(0x8000_0000, 0x10000).unwrap();
    let regions = &sys.bus.regions;
    assert_eq!(regions.len(), 3);
    assert_eq!((regions[1].base, regions[1].size), (0x8000_0000, 0x1000));
    assert_eq!((regions[2].base, regions[2].size), (0x8000_2000, 0xe000));
    assert!(sys.register_memory(0x8000_4000, 0x10).is_err());
    sys.register_memory(0x2000_0000, 0x1000).unwrap();
    assert_eq!(sys.bus.regions.len(), 4);
}

#[test]
fn segments_load_across_regions() {
    let mut sys = System::new(String::from("sys"), vec![], vec![], 0).unwrap();
    sys.register_memory(0x1000, 0x10).unwrap();
    sys.register_memory(0x1010, 0x10).unwrap();
    let data: Vec<u8> = (0u8..24).collect();
    sys.load_segment(0x1008, &data).unwrap();
    assert_eq!(sys.bus.read_u8(0x100f).unwrap(), 7);
    assert_eq!(sys.bus.read_u8(0x1010).unwrap(), 8);
    assert_eq!(sys.bus.read_u64(0x1018).unwrap(), 0x1716_1514_1312_1110);
    assert_eq!(sys.load_segment(0x101c, &data), Err(LoadError { addr: 0x1020 }));
}

#[test]
fn system_steps_each_hart() {
    let cfg = ProcessorCfg { xlen: XLen::X64, hartid: 0, start_address: 0x1000, privilege_level: PrivilegeLevel::MSU, enabel_dirty: false };
    let cfg1 = ProcessorCfg { hartid: 1, ..cfg };
    let mut sys = System::new(String::from("sys"), vec![cfg, cfg1], vec!['c'], 0).unwrap();
    sys.register_memory(0x1000, 0x1000).unwrap();
    sys.load_segment(0x1000, &[0x7d, 0x55]).unwrap();
    assert_eq!(sys.step(0), Some(Ok(())));
    assert_eq!(sys.step(1), Some(Ok(())));
    assert!(sys.step(2).is_none());
    assert_eq!(sys.processor(1).unwrap().state.xreg(10), u64::MAX);
    assert!(sys.processor(2).is_none());
}

#[test]
fn timer_raises_the_hart_line() {
    let cfg = ProcessorCfg { xlen: XLen::X64, hartid: 0, start_address: 0x1000, privilege_level: PrivilegeLevel::MSU, enabel_dirty: false };
    let mut sys = System::new(String::from("sys"), vec![cfg], vec!['c'], 100).unwrap();
    assert_eq!(sys.timer().freq, 100);
    sys.register_memory(0x1000, 0x1000).unwrap();
    // c.li a0, -1 twice
    sys.load_segment(0x1000, &[0x7d, 0x55, 0x7d, 0x55]).unwrap();
    let hart = &mut sys.processors[0];
    hart.state.set_csr(0x304, 1 << 7).unwrap();
    hart.state.set_csr(0x300, 1 << 3).unwrap();
    hart.state.set_csr(0x305, 0x1800).unwrap();
    sys.set_mtimecmp(0, 10);
    sys.tick(5);
    assert_eq!(sys.step(0), Some(Ok(())));
    sys.tick(5);
    assert!(sys.timer().irq_pending(0));
    assert_eq!(sys.step(0), Some(Err(terminus::trap::Trap::Interrupt(terminus::trap::Interrupt::MTInt))));
    assert_eq!(sys.processor(0).unwrap().state.next_pc(), 0x1800);
    sys.tick(u64::MAX);
    assert_eq!(sys.timer().mtime, u64::MAX);
}

#[test]
fn machine_maps_and_loads() {
    let mut m = Machine::new(String::from("m0"));
    m.try_register_htif(Some(0x8000_1000)).unwrap();
    m.register_memory(0x8000_0000, 0x10000).unwrap();
    m.register_memory(0x2000_0000, 0x1000).unwrap();
    m.load_elf(0x8000_0ffc, &[1, 2, 3, 4, 5, 6, 7, 8]).unwrap();
    assert_eq!(m.space.bus.read_u32(0x8000_0ffc).unwrap(), 0x0403_0201);
    // the htif window is memory of its own
    assert_eq!(m.space.bus.read_u32(0x8000_1000).unwrap(), 0x0807_0605);
    assert!(m.load_elf(0x4000_0000, &[1]).is_err());
}
