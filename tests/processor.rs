use terminus::bus::Bus;
use terminus::config::{Privilege, PrivilegeLevel, ProcessorCfg, XLen};
use terminus::decode::{InsnKind, InsnMap};
use terminus::insns::execute_kind;
use terminus::processor::Processor;
use terminus::state::ConfigError;
use terminus::trap::{Exception, Interrupt, Trap};

fn cfg(xlen: XLen, level: PrivilegeLevel, start: u64) -> ProcessorCfg {
    ProcessorCfg { xlen, hartid: 0, start_address: start, privilege_level: level, enabel_dirty: false }
}

fn hart(xlen: XLen, level: PrivilegeLevel, exts: Vec<char>) -> Processor {
    Processor::new(cfg(xlen, level, 0x1000), exts).unwrap()
}

fn memory(base: u64, size: u64) -> Bus {
    let mut bus = Bus::new();
    bus.add_region(base, size).unwrap();
    bus
}

#[test]
fn clwsp_with_rd_zero_is_illegal() {
    let mut p = hart(XLen::X64, PrivilegeLevel::MSU, vec!['c']);
    let mut bus = memory(0x1000, 0x1000);
    bus.write(0x1000, 0x4002, 2).unwrap();
    assert_eq!(p.step_one(&mut bus), Err(Trap::Exception(Exception::IllegalInsn(0x4002))));
    assert_eq!(p.state.csr(0x342).unwrap(), 2);
    assert_eq!(p.state.csr(0x343).unwrap(), 0x4002);
    assert_eq!(p.state.csr(0x341).unwrap(), 0x1000);
}

#[test]
fn cj_to_odd_target_is_fetch_misaligned() {
    let mut p = hart(XLen::X64, PrivilegeLevel::MSU, vec!['c']);
    let mut bus = memory(0x1000, 0x1000);
    // c.j +2 executed at an odd pc lands on an odd target
    p.state.pc = 0x1001;
    p.state.ir = 0xa009;
    let before = p.state.next_pc;
    let r = execute_kind(InsnKind::CJ, &mut p.state, &p.load_store, &mut bus);
    assert_eq!(r, Err(Exception::FetchMisaligned(0x1003)));
    assert_eq!(p.state.next_pc, before);
}

#[test]
fn cj_jumps_to_target() {
    let mut p = hart(XLen::X64, PrivilegeLevel::MSU, vec!['c']);
    let mut bus = memory(0x1000, 0x1000);
    bus.write(0x1000, 0xa009, 2).unwrap();
    assert_eq!(p.step_one(&mut bus), Ok(()));
    assert_eq!(p.state.next_pc, 0x1002);
    // c.j -2 from 0x1002
    bus.write(0x1002, 0xbffd, 2).unwrap();
    assert_eq!(p.step_one(&mut bus), Ok(()));
    assert_eq!(p.state.next_pc, 0x1000);
}

#[test]
fn ecall_from_u_is_delegated_to_s() {
    let mut p = hart(XLen::X64, PrivilegeLevel::MSU, vec!['c']);
    let mut bus = memory(0x1000, 0x1000);
    bus.write(0x1000, 0x0000_0073, 4).unwrap();
    p.state.set_csr(0x302, 1 << 8).unwrap();
    p.state.set_csr(0x105, 0x1800).unwrap();
    p.state.set_privilege(Privilege::U);
    assert_eq!(p.step_one(&mut bus), Err(Trap::Exception(Exception::UEcall)));
    assert_eq!(p.state.privilege(), Privilege::S);
    assert_eq!(p.state.csr(0x142).unwrap(), 8);
    assert_eq!(p.state.csr(0x141).unwrap(), 0x1000);
    assert_eq!(p.state.next_pc(), 0x1800);
    // spp records U, sie was moved to spie
    assert_eq!((p.state.csr(0x100).unwrap() >> 8) & 1, 0);
}

#[test]
fn ecall_without_delegation_goes_to_m() {
    let mut p = hart(XLen::X64, PrivilegeLevel::MSU, vec!['c']);
    let mut bus = memory(0x1000, 0x1000);
    bus.write(0x1000, 0x0000_0073, 4).unwrap();
    p.state.set_csr(0x305, 0x1c00).unwrap();
    p.state.set_privilege(Privilege::S);
    assert_eq!(p.step_one(&mut bus), Err(Trap::Exception(Exception::SEcall)));
    assert_eq!(p.state.privilege(), Privilege::M);
    assert_eq!(p.state.csr(0x342).unwrap(), 9);
    assert_eq!(p.state.csr(0x341).unwrap(), 0x1000);
    assert_eq!((p.state.csr(0x300).unwrap() >> 11) & 3, 1);
    assert_eq!(p.state.next_pc(), 0x1c00);
}

#[test]
fn ecall_from_m_is_never_delegated() {
    let mut p = hart(XLen::X64, PrivilegeLevel::MSU, vec!['c']);
    let mut bus = memory(0x1000, 0x1000);
    bus.write(0x1000, 0x0000_0073, 4).unwrap();
    p.state.set_csr(0x302, 0xffff).unwrap();
    assert_eq!(p.step_one(&mut bus), Err(Trap::Exception(Exception::MEcall)));
    assert_eq!(p.state.privilege(), Privilege::M);
    assert_eq!(p.state.csr(0x342).unwrap(), 11);
}

#[test]
fn mret_returns_to_mepc_and_mpp() {
    let mut p = hart(XLen::X64, PrivilegeLevel::MSU, vec!['c']);
    let mut bus = memory(0x1000, 0x1000);
    bus.write(0x1000, 0x3020_0073, 4).unwrap();
    p.state.set_csr(0x341, 0x1400).unwrap();
    p.state.set_csr(0x300, (1 << 11) | (1 << 7)).unwrap();
    assert_eq!(p.step_one(&mut bus), Ok(()));
    assert_eq!(p.state.privilege(), Privilege::S);
    assert_eq!(p.state.next_pc(), 0x1400);
    let ms = p.state.csrs.get(0);
    assert_eq!((ms >> 3) & 1, 1);
    assert_eq!((ms >> 7) & 1, 1);
    assert_eq!((ms >> 11) & 3, 0);
}

#[test]
fn faulting_instruction_faults_again_after_return() {
    let mut p = hart(XLen::X64, PrivilegeLevel::MSU, vec!['c']);
    let mut bus = memory(0x1000, 0x1000);
    // c.lw a0, 0(a1) with a1 pointing at unmapped memory
    bus.write(0x1000, 0x4188, 2).unwrap();
    p.state.set_xreg(11, 0x9000);
    p.state.set_csr(0x305, 0x1800).unwrap();
    bus.write(0x1800, 0x3020_0073, 4).unwrap();
    let first = p.step_one(&mut bus);
    assert_eq!(first, Err(Trap::Exception(Exception::LoadAccess(0x9000))));
    assert_eq!(p.state.xreg(10), 0);
    // the handler is a bare mret back to mepc
    assert_eq!(p.step_one(&mut bus), Ok(()));
    assert_eq!(p.state.next_pc(), 0x1000);
    assert_eq!(p.step_one(&mut bus), first);
}

#[test]
fn c_li_advances_by_two_and_x0_stays_zero() {
    let mut p = hart(XLen::X64, PrivilegeLevel::MSU, vec!['c']);
    let mut bus = memory(0x1000, 0x1000);
    // c.li a0, -1
    bus.write(0x1000, 0x557d, 2).unwrap();
    assert_eq!(p.step_one(&mut bus), Ok(()));
    assert_eq!(p.state.xreg(10), 0xffff_ffff_ffff_ffff);
    assert_eq!(p.state.next_pc(), 0x1002);
    assert_eq!(p.state.pc(), 0x1000);
    assert_eq!(p.state.insns_cnt(), 1);
    p.state.set_xreg(0, 5);
    assert_eq!(p.state.xreg(0), 0);
    // c.li x0, 1 is refused
    bus.write(0x1002, 0x4005, 2).unwrap();
    assert_eq!(p.step_one(&mut bus), Err(Trap::Exception(Exception::IllegalInsn(0x4005))));
    assert_eq!(p.state.xreg(0), 0);
}

#[test]
fn c_lui_sign_extends() {
    let mut p = hart(XLen::X32, PrivilegeLevel::MSU, vec!['c']);
    let mut bus = memory(0x1000, 0x1000);
    // c.lui a0, 0xfffe0 (imm bits 6..2 = 0b11110, bit 12 = 1)
    bus.write(0x1000, 0x7579, 2).unwrap();
    assert_eq!(p.step_one(&mut bus), Ok(()));
    assert_eq!(p.state.xreg(10), 0xffff_e000);
    assert_eq!(p.state.next_pc(), 0x1002);
}

#[test]
fn compressed_store_then_load() {
    let mut p = hart(XLen::X64, PrivilegeLevel::MSU, vec!['c']);
    let mut bus = memory(0x1000, 0x1000);
    // c.sw a0, 4(a1); c.lw a2, 4(a1); c.sd a0, 8(a1); c.ld a3, 8(a1)
    bus.write(0x1000, 0xc1c8, 2).unwrap();
    bus.write(0x1002, 0x41d0, 2).unwrap();
    bus.write(0x1004, 0xe588, 2).unwrap();
    bus.write(0x1006, 0x6594, 2).unwrap();
    p.state.set_xreg(10, 0x8123_4567_89ab_cdef);
    p.state.set_xreg(11, 0x1800);
    for _ in 0..4 {
        assert_eq!(p.step_one(&mut bus), Ok(()));
    }
    assert_eq!(bus.read_u32(0x1804).unwrap(), 0x89ab_cdef);
    assert_eq!(p.state.xreg(12), 0xffff_ffff_89ab_cdef);
    assert_eq!(p.state.xreg(13), 0x8123_4567_89ab_cdef);
    assert_eq!(p.state.next_pc(), 0x1008);
}

#[test]
fn branches_follow_register_value() {
    let mut p = hart(XLen::X64, PrivilegeLevel::MSU, vec!['c']);
    let mut bus = memory(0x1000, 0x1000);
    // c.beqz a0, +8
    bus.write(0x1000, 0xc501, 2).unwrap();
    assert_eq!(p.step_one(&mut bus), Ok(()));
    assert_eq!(p.state.next_pc(), 0x1008);
    // c.bnez a0, +8 not taken
    bus.write(0x1008, 0xe501, 2).unwrap();
    assert_eq!(p.step_one(&mut bus), Ok(()));
    assert_eq!(p.state.next_pc(), 0x100a);
}

#[test]
fn c_jalr_links_and_jumps() {
    let mut p = hart(XLen::X64, PrivilegeLevel::MSU, vec!['c']);
    let mut bus = memory(0x1000, 0x1000);
    // c.jalr a0
    bus.write(0x1000, 0x9502, 2).unwrap();
    p.state.set_xreg(10, 0x1200);
    assert_eq!(p.step_one(&mut bus), Ok(()));
    assert_eq!(p.state.next_pc(), 0x1200);
    assert_eq!(p.state.xreg(1), 0x1002);
    // c.jr x0 is reserved
    bus.write(0x1200, 0x8002, 2).unwrap();
    assert_eq!(p.step_one(&mut bus), Err(Trap::Exception(Exception::IllegalInsn(0x8002))));
}

#[test]
fn compressed_needs_extension_c() {
    let mut p = hart(XLen::X64, PrivilegeLevel::MSU, vec![]);
    let mut bus = memory(0x1000, 0x1000);
    bus.write(0x1000, 0x557d, 2).unwrap();
    assert_eq!(p.step_one(&mut bus), Err(Trap::Exception(Exception::IllegalInsn(0x557d))));
}

#[test]
fn unmapped_fetch_is_access_fault() {
    let mut p = hart(XLen::X64, PrivilegeLevel::MSU, vec!['c']);
    let mut bus = memory(0x4000, 0x1000);
    assert_eq!(p.step_one(&mut bus), Err(Trap::Exception(Exception::FetchAccess(0x1000))));
    assert_eq!(p.state.csr(0x341).unwrap(), 0x1000);
}

#[test]
fn csr_instructions_read_and_write() {
    let mut p = hart(XLen::X64, PrivilegeLevel::MSU, vec!['c']);
    let mut bus = memory(0x1000, 0x1000);
    // csrrw a0, mscratch, a1 ; csrrs a2, mscratch, x0 ; csrrci x0, mscratch, 3
    bus.write(0x1000, 0x3405_9573, 4).unwrap();
    bus.write(0x1004, 0x3400_2673, 4).unwrap();
    bus.write(0x1008, 0x3401_f073, 4).unwrap();
    p.state.set_csr(0x340, 7).unwrap();
    p.state.set_xreg(11, 0x55);
    for _ in 0..3 {
        assert_eq!(p.step_one(&mut bus), Ok(()));
    }
    assert_eq!(p.state.xreg(10), 7);
    assert_eq!(p.state.xreg(12), 0x55);
    assert_eq!(p.state.csr(0x340).unwrap(), 0x54);
    assert_eq!(p.state.next_pc(), 0x100c);
}

#[test]
fn timer_interrupt_is_taken_when_enabled() {
    let mut p = hart(XLen::X64, PrivilegeLevel::MSU, vec!['c']);
    let mut bus = memory(0x1000, 0x1000);
    bus.write(0x1000, 0x557d, 2).unwrap();
    p.state.set_csr(0x305, 0x1801).unwrap();
    p.state.set_csr(0x304, 1 << 7).unwrap();
    p.set_interrupt_pending(Interrupt::MTInt, true);
    // mstatus.mie clear: not taken in M
    assert_eq!(p.step_one(&mut bus), Ok(()));
    p.state.set_csr(0x300, 1 << 3).unwrap();
    assert_eq!(p.step_one(&mut bus), Err(Trap::Interrupt(Interrupt::MTInt)));
    assert_eq!(p.state.csr(0x342).unwrap(), (1 << 63) | 7);
    assert_eq!(p.state.csr(0x341).unwrap(), 0x1002);
    assert_eq!(p.state.next_pc(), 0x1800 + 7 * 4);
}

#[test]
fn external_interrupt_before_timer() {
    let mut p = hart(XLen::X64, PrivilegeLevel::MSU, vec!['c']);
    p.state.set_csr(0x304, (1 << 7) | (1 << 11)).unwrap();
    p.state.set_csr(0x300, 1 << 3).unwrap();
    p.set_interrupt_pending(Interrupt::MTInt, true);
    p.set_interrupt_pending(Interrupt::MEInt, true);
    assert_eq!(p.take_interrupt(), Err(Trap::Interrupt(Interrupt::MEInt)));
    p.set_interrupt_pending(Interrupt::MEInt, false);
    assert_eq!(p.take_interrupt(), Err(Trap::Interrupt(Interrupt::MTInt)));
}

#[test]
fn rv32_start_address_must_fit() {
    let r = Processor::new(cfg(XLen::X32, PrivilegeLevel::M, 0x1_0000_0000), vec![]);
    assert!(matches!(r, Err(ConfigError::StartAddress(0x1_0000_0000))));
    let r = Processor::new(cfg(XLen::X64, PrivilegeLevel::M, 0x1000), vec!['z']);
    assert!(matches!(r, Err(ConfigError::Extension('z'))));
}

#[test]
fn privilege_follows_profile() {
    let mut m = hart(XLen::X64, PrivilegeLevel::M, vec![]);
    assert_eq!(m.state.set_privilege(Privilege::U), Privilege::M);
    assert!(m.state.check_privilege_level(Privilege::U).is_err());
    let mut mu = hart(XLen::X64, PrivilegeLevel::MU, vec![]);
    assert_eq!(mu.state.set_privilege(Privilege::S), Privilege::U);
    assert!(mu.state.check_privilege_level(Privilege::S).is_err());
    assert!(mu.state.check_privilege_level(Privilege::U).is_ok());
    let mut msu = hart(XLen::X64, PrivilegeLevel::MSU, vec![]);
    assert_eq!(msu.state.set_privilege(Privilege::S), Privilege::S);
    assert!(msu.state.check_xlen(XLen::X64).is_ok());
    assert!(msu.state.check_xlen(XLen::X32).is_err());
    assert!(msu.state.check_extension('i').is_ok());
    assert!(msu.state.check_extension('f').is_err());
}

#[test]
fn registries_of_two_harts_decode_alike() {
    let a = InsnMap::standard().unwrap();
    let b = InsnMap::standard().unwrap();
    for ir in [0x4002u32, 0x557d, 0x0000_0073, 0x3020_0073, 0x1200_0073, 0xffff_ffff, 0] {
        assert_eq!(a.decode(ir), b.decode(ir));
        assert_eq!(a.decode(ir), a.decode(ir));
    }
    assert_eq!(a.decode(0x557d).unwrap().kind, InsnKind::CLi);
    assert_eq!(a.decode(0xffff_ffff), Err(Exception::IllegalInsn(0xffff_ffff)));
}
