use terminus::config::{PrivilegeLevel, ProcessorCfg, XLen};
use terminus::csr::{MStatus, PmpAType, PmpCfg};
use terminus::processor::Processor;

fn processor(xlen: XLen, level: PrivilegeLevel) -> Processor {
    let cfg = ProcessorCfg { xlen, hartid: 0, start_address: 0x1000, privilege_level: level, enabel_dirty: false };
    Processor::new(cfg, vec!['c']).unwrap()
}

#[test]
fn test_status() {
    let mut status = MStatus::new(XLen::X32);
    status.set_xs(0xf);
    assert_eq!(status.xs(), 0x3);
    status.set_xs(0);
    assert_eq!(status.xs(), 0);
}

#[test]
fn mstatus_sd_follows_fs_and_xs_rv64() {
    let mut p = processor(XLen::X64, PrivilegeLevel::MSU);
    p.state.set_csr(0x300, (3 << 13) | (3 << 15)).unwrap();
    assert_ne!(p.state.csr(0x300).unwrap() & (1 << 63), 0);
    // xs still dirty: sd stays set
    p.state.set_csr(0x300, 3 << 15).unwrap();
    assert_ne!(p.state.csr(0x300).unwrap() & (1 << 63), 0);
    p.state.set_csr(0x300, 0).unwrap();
    assert_eq!(p.state.csr(0x300).unwrap() & (1 << 63), 0);
}

#[test]
fn mstatus_sd_follows_fs_rv32() {
    let mut p = processor(XLen::X32, PrivilegeLevel::MSU);
    p.state.set_csr(0x300, (3 << 13) | (3 << 15)).unwrap();
    let v = p.state.csr(0x300).unwrap();
    assert_ne!(v & (1 << 31), 0);
    assert_eq!(v >> 32, 0);
    p.state.set_csr(0x300, 0).unwrap();
    assert_eq!(p.state.csr(0x300).unwrap() & (1 << 31), 0);
}

#[test]
fn plain_csr_reads_back_written_value() {
    let mut p = processor(XLen::X64, PrivilegeLevel::MSU);
    p.state.set_csr(0x340, 0x1234_5678_9abc_def0).unwrap();
    assert_eq!(p.state.csr(0x340).unwrap(), 0x1234_5678_9abc_def0);
    let mut q = processor(XLen::X32, PrivilegeLevel::MSU);
    q.state.set_csr(0x340, 0x1234_5678_9abc_def0).unwrap();
    assert_eq!(q.state.csr(0x340).unwrap(), 0x9abc_def0);
}

#[test]
fn mepc_write_clears_bit_zero() {
    let mut p = processor(XLen::X64, PrivilegeLevel::MSU);
    p.state.set_csr(0x341, 0x1003).unwrap();
    assert_eq!(p.state.csr(0x341).unwrap(), 0x1002);
}

#[test]
fn mpp_is_clamped_to_the_profile() {
    let mut m = processor(XLen::X64, PrivilegeLevel::M);
    m.state.set_csr(0x300, 0).unwrap();
    assert_eq!((m.state.csr(0x300).unwrap() >> 11) & 3, 3);
    let mut mu = processor(XLen::X64, PrivilegeLevel::MU);
    mu.state.set_csr(0x300, 1 << 11).unwrap();
    assert_eq!((mu.state.csr(0x300).unwrap() >> 11) & 3, 3);
    mu.state.set_csr(0x300, 0).unwrap();
    assert_eq!((mu.state.csr(0x300).unwrap() >> 11) & 3, 0);
    let mut msu = processor(XLen::X64, PrivilegeLevel::MSU);
    msu.state.set_csr(0x300, 1 << 11).unwrap();
    assert_eq!((msu.state.csr(0x300).unwrap() >> 11) & 3, 1);
}

#[test]
fn unmapped_csr_is_illegal() {
    let mut p = processor(XLen::X64, PrivilegeLevel::MSU);
    assert!(p.state.csr(0x7ff).is_err());
    assert!(p.state.set_csr(0x7ff, 1).is_err());
    // read-only address
    assert!(p.state.set_csr(0xf14, 1).is_err());
    assert_eq!(p.state.csr(0xf14).unwrap(), 0);
}

#[test]
fn supervisor_csrs_need_s_mode() {
    let p = processor(XLen::X64, PrivilegeLevel::MU);
    assert!(p.state.csr(0x180).is_err());
    let q = processor(XLen::X64, PrivilegeLevel::MSU);
    assert_eq!(q.state.csr(0x180).unwrap(), 0);
}

#[test]
fn delegation_registers_are_zero_without_s_mode() {
    let mut p = processor(XLen::X64, PrivilegeLevel::MU);
    p.state.set_csr(0x302, 0x100).unwrap();
    assert_eq!(p.state.csr(0x302).unwrap(), 0);
}

#[test]
fn counters_follow_retired_count_and_enables() {
    let mut p = processor(XLen::X64, PrivilegeLevel::MSU);
    p.state.insns_cnt = 0x1_0000_0005;
    assert_eq!(p.state.csr(0xc02).unwrap(), 0x1_0000_0005);
    assert!(p.state.csr(0xc82).is_err());
    p.state.set_privilege(terminus::config::Privilege::U);
    assert!(p.state.csr(0xc02).is_err());
    let mut q = processor(XLen::X32, PrivilegeLevel::MSU);
    q.state.insns_cnt = 0x1_0000_0005;
    assert_eq!(q.state.csr(0xc02).unwrap(), 5);
    assert_eq!(q.state.csr(0xc82).unwrap(), 1);
}

#[test]
fn privilege_check_on_csr_address() {
    let mut p = processor(XLen::X64, PrivilegeLevel::MSU);
    p.state.set_privilege(terminus::config::Privilege::S);
    assert!(p.state.csr(0x300).is_err());
    assert_eq!(p.state.csr(0x100).unwrap(), 0);
}

#[test]
fn pmp_configuration_bytes() {
    let mut cfg = PmpCfg { bits: 0 };
    cfg.set_bit_range(15, 8, 0x1f);
    assert_eq!(cfg.bit_range(15, 8), 0x1f);
    assert_eq!(cfg.bits, 0x1f00);
    // the a field of entry 1 is bits 12..11
    assert_eq!(PmpAType::from_bits(cfg.bit_range(12, 11)), Some(PmpAType::NAPOT));
    assert_eq!(PmpAType::from_bits(4), None);
    assert_eq!(PmpAType::from_bits(1), Some(PmpAType::TOR));
}

#[test]
fn mstatus_fields_are_independent() {
    let mut status = MStatus::new(XLen::X64);
    status.set_mpp(3);
    status.set_spp(1);
    status.set_mie(1);
    status.set_fs(2);
    assert_eq!(status.mpp(), 3);
    assert_eq!(status.spp(), 1);
    assert_eq!(status.mie(), 1);
    assert_eq!(status.fs(), 2);
    assert_eq!(status.get(), (3 << 11) | (1 << 8) | (1 << 3) | (2 << 13));
    status.set_mpp(0);
    assert_eq!(status.get(), (1 << 8) | (1 << 3) | (2 << 13));
    status.set(1 << 63);
    assert_eq!(status.sd(), 1);
}
