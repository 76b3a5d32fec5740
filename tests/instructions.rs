use terminus::bus::Bus;
use terminus::config::{Privilege, PrivilegeLevel, ProcessorCfg, XLen};
use terminus::processor::Processor;
use terminus::state::ConfigError;
use terminus::system::{System, SystemError};
use terminus::trap::{Exception, Trap};

fn hart(xlen: XLen, exts: Vec<char>) -> Processor {
    let cfg = ProcessorCfg { xlen, hartid: 0, start_address: 0x1000, privilege_level: PrivilegeLevel::MSU, enabel_dirty: false };
    Processor::new(cfg, exts).unwrap()
}

fn memory() -> Bus {
    let mut bus = Bus::new();
    bus.add_region(0x1000, 0x1000).unwrap();
    bus
}

#[test]
fn float_load_and_store_through_sp() {
    let mut p = hart(XLen::X32, vec!['c', 'f', 'd']);
    let mut bus = memory();
    // c.flwsp f8, 4(sp); c.fsdsp f8, 8(sp)
    bus.write(0x1000, 0x6412, 2).unwrap();
    bus.write(0x1002, 0xa422, 2).unwrap();
    bus.write(0x1804, 0x3f80_0000, 4).unwrap();
    p.state.set_xreg(2, 0x1800);
    p.state.set_csr(0x300, 1 << 13).unwrap();
    assert_eq!(p.step_one(&mut bus), Ok(()));
    assert_eq!(p.state.freg[8], 0xffff_ffff_3f80_0000);
    assert_eq!((p.state.csr(0x300).unwrap() >> 13) & 3, 3);
    assert_eq!(p.step_one(&mut bus), Ok(()));
    assert_eq!(bus.read_u64(0x1808).unwrap(), 0xffff_ffff_3f80_0000);
    assert_eq!(p.state.next_pc(), 0x1004);
}

#[test]
fn float_instructions_need_fs_and_extensions() {
    let mut p = hart(XLen::X32, vec!['c', 'f']);
    let mut bus = memory();
    bus.write(0x1000, 0x6412, 2).unwrap();
    p.state.set_xreg(2, 0x1800);
    // mstatus.fs is off
    assert_eq!(p.step_one(&mut bus), Err(Trap::Exception(Exception::IllegalInsn(0x6412))));
    // c.fsdsp without extension d
    let mut q = hart(XLen::X32, vec!['c', 'f']);
    bus.write(0x1000, 0xa422, 2).unwrap();
    q.state.set_csr(0x300, 1 << 13).unwrap();
    assert_eq!(q.step_one(&mut bus), Err(Trap::Exception(Exception::IllegalInsn(0xa422))));
}

#[test]
fn float_word_without_d_is_not_boxed() {
    let mut p = hart(XLen::X32, vec!['c', 'f']);
    let mut bus = memory();
    bus.write(0x1000, 0x6412, 2).unwrap();
    bus.write(0x1804, 0x3f80_0000, 4).unwrap();
    p.state.set_xreg(2, 0x1800);
    p.state.set_csr(0x300, 1 << 13).unwrap();
    assert_eq!(p.step_one(&mut bus), Ok(()));
    assert_eq!(p.state.freg[8], 0x3f80_0000);
}

#[test]
fn ebreak_reports_pc() {
    let mut p = hart(XLen::X64, vec!['c']);
    let mut bus = memory();
    bus.write(0x1000, 0x0010_0073, 4).unwrap();
    assert_eq!(p.step_one(&mut bus), Err(Trap::Exception(Exception::Breakpoint(0x1000))));
    assert_eq!(p.state.csr(0x342).unwrap(), 3);
    assert_eq!(p.state.csr(0x343).unwrap(), 0x1000);
}

#[test]
fn wfi_fence_and_fence_i_advance_by_four() {
    let mut p = hart(XLen::X64, vec!['c']);
    let mut bus = memory();
    bus.write(0x1000, 0x1050_0073, 4).unwrap();
    bus.write(0x1004, 0x0ff0_000f, 4).unwrap();
    bus.write(0x1008, 0x0000_100f, 4).unwrap();
    for _ in 0..3 {
        assert_eq!(p.step_one(&mut bus), Ok(()));
    }
    assert_eq!(p.state.next_pc(), 0x100c);
    assert_eq!(p.state.insns_cnt(), 3);
}

#[test]
fn sret_returns_to_user() {
    let mut p = hart(XLen::X64, vec!['c']);
    let mut bus = memory();
    bus.write(0x1000, 0x1020_0073, 4).unwrap();
    p.state.set_csr(0x141, 0x1200).unwrap();
    p.state.set_csr(0x100, 1 << 5).unwrap();
    p.state.set_privilege(Privilege::S);
    assert_eq!(p.step_one(&mut bus), Ok(()));
    assert_eq!(p.state.privilege(), Privilege::U);
    assert_eq!(p.state.next_pc(), 0x1200);
    assert_eq!(p.state.csrs.get(0) & 0x2, 0x2);
    // from U it is illegal
    bus.write(0x1200, 0x1020_0073, 4).unwrap();
    assert_eq!(p.step_one(&mut bus), Err(Trap::Exception(Exception::IllegalInsn(0x1020_0073))));
}

#[test]
fn c_addiw_on_rv64_and_c_jal_on_rv32() {
    let mut p = hart(XLen::X64, vec!['c']);
    let mut bus = memory();
    // c.addiw a0, -1
    bus.write(0x1000, 0x357d, 2).unwrap();
    p.state.set_xreg(10, 0x7fff_ffff);
    assert_eq!(p.step_one(&mut bus), Ok(()));
    assert_eq!(p.state.xreg(10), 0x7fff_fffe);
    assert_eq!(p.state.next_pc(), 0x1002);
    let mut q = hart(XLen::X32, vec!['c']);
    // c.jal +4
    bus.write(0x1000, 0x2011, 2).unwrap();
    assert_eq!(q.step_one(&mut bus), Ok(()));
    assert_eq!(q.state.next_pc(), 0x1004);
    assert_eq!(q.state.xreg(1), 0x1002);
}

#[test]
fn sfence_vma_is_illegal_in_user_mode() {
    let mut p = hart(XLen::X64, vec!['c']);
    let mut bus = memory();
    bus.write(0x1000, 0x1200_0073, 4).unwrap();
    p.state.set_privilege(Privilege::U);
    assert_eq!(p.step_one(&mut bus), Err(Trap::Exception(Exception::IllegalInsn(0x1200_0073))));
}

#[test]
fn system_refuses_bad_configuration() {
    let cfg = ProcessorCfg { xlen: XLen::X64, hartid: 0, start_address: 0, privilege_level: PrivilegeLevel::M, enabel_dirty: false };
    let r = System::new(String::from("s"), vec![cfg], vec!['q'], 0);
    assert!(matches!(r, Err(SystemError::Config(ConfigError::Extension('q')))));
}

#[test]
fn flw_and_fsd() {
    let mut p = hart(XLen::X64, vec!['f', 'd']);
    let mut bus = memory();
    // flw f1, 4(a1); fsd f1, 8(a1)
    bus.write(0x1000, 0x0045_a087, 4).unwrap();
    bus.write(0x1004, 0x0015_b427, 4).unwrap();
    bus.write(0x1804, 0x4049_0fdb, 4).unwrap();
    p.state.set_xreg(11, 0x1800);
    p.state.set_csr(0x300, 1 << 13).unwrap();
    assert_eq!(p.step_one(&mut bus), Ok(()));
    assert_eq!(p.state.freg[1], 0xffff_ffff_4049_0fdb);
    assert_eq!(p.state.next_pc(), 0x1004);
    assert_eq!(p.step_one(&mut bus), Ok(()));
    assert_eq!(bus.read_u64(0x1808).unwrap(), 0xffff_ffff_4049_0fdb);
    // fsd without extension d
    let mut q = hart(XLen::X64, vec!['f']);
    q.state.set_csr(0x300, 1 << 13).unwrap();
    q.state.set_pc(0x1004);
    assert_eq!(q.step_one(&mut bus), Err(Trap::Exception(Exception::IllegalInsn(0x0015_b427))));
}
