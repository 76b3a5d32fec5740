use terminus::bus::Bus;
use terminus::config::{Privilege, PrivilegeLevel, ProcessorCfg, XLen};
use terminus::decode::InsnMap;
use terminus::fetcher::Fetcher;
use terminus::mmu::{translate, MmuOpt};
use terminus::processor::Processor;
use terminus::state::ProcessorState;
use terminus::trap::{Exception, Trap};

const LEAF_RX: u64 = 0x4b;

/// Sv39 tables mapping VA 0x1000 to the page at `pa`: root at 0x8000_1000.
fn paged_memory(pa: u64) -> Bus {
    let mut bus = Bus::new();
    bus.add_region(0x8000_0000, 0x10000).unwrap();
    bus.write(0x8000_1000, (0x80002 << 10) | 1, 8).unwrap();
    bus.write(0x8000_2000, (0x80003 << 10) | 1, 8).unwrap();
    bus.write(0x8000_3008, ((pa >> 12) << 10) | LEAF_RX, 8).unwrap();
    for page in [0x8000_4000u64, 0x8000_5000] {
        let li = if page == 0x8000_4000 { 0x4505 } else { 0x4509 };
        bus.write(page, li, 2).unwrap();
        bus.write(page + 2, 0x0073, 2).unwrap();
        bus.write(page + 4, 0x1200, 2).unwrap();
    }
    bus
}

fn supervisor_hart() -> Processor {
    let cfg = ProcessorCfg { xlen: XLen::X64, hartid: 0, start_address: 0x1000, privilege_level: PrivilegeLevel::MSU, enabel_dirty: false };
    let mut p = Processor::new(cfg, vec!['c']).unwrap();
    p.state.set_csr(0x180, (8 << 60) | 0x80001).unwrap();
    p.state.set_privilege(Privilege::S);
    p
}

#[test]
fn icache_after_sfence_vma_sees_new_mapping() {
    let mut p = supervisor_hart();
    let mut bus = paged_memory(0x8000_4000);
    assert_eq!(p.step_one(&mut bus), Ok(()));
    assert_eq!(p.state.xreg(10), 1);
    // fetched again: served by the cache
    p.state.set_pc(0x1000);
    assert_eq!(p.step_one(&mut bus), Ok(()));
    assert_eq!(p.state.xreg(10), 1);
    // remap VA 0x1000 to the second page, then sfence.vma at 0x1002
    bus.write(0x8000_3008, (0x80005 << 10) | LEAF_RX, 8).unwrap();
    assert_eq!(p.step_one(&mut bus), Ok(()));
    assert_eq!(p.state.ir(), 0x1200_0073);
    p.state.set_pc(0x1000);
    assert_eq!(p.step_one(&mut bus), Ok(()));
    assert_eq!(p.state.xreg(10), 2);
}

#[test]
fn sv39_translation_and_faults() {
    let mut s = supervisor_hart().state;
    let bus = paged_memory(0x8000_4000);
    let satp = s.csrs.get(19);
    let ms = s.csrs.get(0);
    assert_eq!(translate(&bus, XLen::X64, satp, ms, Privilege::S, 0x1234, MmuOpt::Fetch), Ok(0x8000_4234));
    assert_eq!(translate(&bus, XLen::X64, satp, ms, Privilege::S, 0x1234, MmuOpt::Load), Ok(0x8000_4234));
    assert_eq!(translate(&bus, XLen::X64, satp, ms, Privilege::S, 0x1234, MmuOpt::Store), Err(Exception::StorePageFault(0x1234)));
    assert_eq!(translate(&bus, XLen::X64, satp, ms, Privilege::U, 0x1234, MmuOpt::Fetch), Err(Exception::FetchPageFault(0x1234)));
    assert_eq!(translate(&bus, XLen::X64, satp, ms, Privilege::S, 0x3000, MmuOpt::Load), Err(Exception::LoadPageFault(0x3000)));
    assert_eq!(translate(&bus, XLen::X64, satp, ms, Privilege::S, 0x80_0000_0000, MmuOpt::Load), Err(Exception::LoadPageFault(0x80_0000_0000)));
    assert_eq!(translate(&bus, XLen::X64, satp, ms, Privilege::M, 0x1234, MmuOpt::Store), Ok(0x1234));
    assert_eq!(translate(&bus, XLen::X64, 0, ms, Privilege::S, 0x1234, MmuOpt::Store), Ok(0x1234));
    s.set_privilege(Privilege::M);
    assert_eq!(s.privilege(), Privilege::M);
}

#[test]
fn unmapped_page_fetch_traps() {
    let mut p = supervisor_hart();
    let mut bus = paged_memory(0x8000_4000);
    p.state.set_pc(0x5000);
    assert_eq!(p.step_one(&mut bus), Err(Trap::Exception(Exception::FetchPageFault(0x5000))));
    assert_eq!(p.state.csr(0x343).unwrap(), 0x5000);
}

fn bare_state() -> ProcessorState {
    let cfg = ProcessorCfg { xlen: XLen::X64, hartid: 0, start_address: 0x1000, privilege_level: PrivilegeLevel::MSU, enabel_dirty: false };
    ProcessorState::new(cfg, vec!['c']).unwrap()
}

#[test]
fn cached_fetch_equals_cold_fetch() {
    let decoder = InsnMap::standard().unwrap();
    let mut bus = Bus::new();
    bus.add_region(0x1000, 0x100).unwrap();
    bus.write(0x1000, 0x4505, 2).unwrap();
    bus.write(0x1002, 0x0073, 2).unwrap();
    bus.write(0x1004, 0x1200, 2).unwrap();
    let mut s = bare_state();
    let mut f = Fetcher::new();
    let cold = f.fetch(&mut s, &bus, &decoder, 0x1000).unwrap();
    let hit = f.fetch(&mut s, &bus, &decoder, 0x1000).unwrap();
    assert_eq!(cold, hit);
    assert_eq!(cold.ir, 0x4505);
    let wide = f.fetch(&mut s, &bus, &decoder, 0x1002).unwrap();
    assert_eq!(wide.ir, 0x1200_0073);
    assert_eq!(s.ir(), 0x1200_0073);
    // code changed under the cache: a flush makes the next fetch cold again
    bus.write(0x1000, 0x4509, 2).unwrap();
    assert_eq!(f.fetch(&mut s, &bus, &decoder, 0x1000).unwrap().ir, 0x4505);
    f.flush_icache();
    assert_eq!(f.fetch(&mut s, &bus, &decoder, 0x1000).unwrap().ir, 0x4509);
}

#[test]
fn fetch_errors() {
    let decoder = InsnMap::standard().unwrap();
    let mut bus = Bus::new();
    bus.add_region(0x1000, 0x100).unwrap();
    bus.write(0x10fe, 0x0003, 2).unwrap();
    let mut s = bare_state();
    let mut f = Fetcher::new();
    // the second half lies past the end of memory
    assert_eq!(f.fetch(&mut s, &bus, &decoder, 0x10fe), Err(Exception::FetchAccess(0x10fe)));
    // an all-zero half word is no instruction that the registry knows
    assert_eq!(f.fetch(&mut s, &bus, &decoder, 0x1010), Err(Exception::IllegalInsn(0)));
    assert_eq!(s.ir(), 0);
}
