use terminus::bus::Bus;
use terminus::config::{PrivilegeLevel, ProcessorCfg, XLen};
use terminus::processor::Processor;
use terminus::trap::{Exception, Trap};

fn hart(xlen: XLen, exts: Vec<char>) -> Processor {
    let cfg = ProcessorCfg { xlen, hartid: 0, start_address: 0x1000, privilege_level: PrivilegeLevel::MSU, enabel_dirty: false };
    Processor::new(cfg, exts).unwrap()
}

fn program(words: &[u32]) -> Bus {
    let mut bus = Bus::new();
    bus.add_region(0x1000, 0x1000).unwrap();
    for (i, w) in words.iter().enumerate() {
        bus.write(0x1000 + 4 * i as u64, *w as u64, 4).unwrap();
    }
    bus
}

#[test]
fn lr_sc_and_amos() {
    // lr.w a0,(a1); sc.w a2,a3,(a1); sc.w a2,a3,(a1); amoadd.w a0,a3,(a1); amomax.w a0,a3,(a1); amoswap.d a0,a3,(a1)
    let mut bus = program(&[0x1005_a52f, 0x18d5_a62f, 0x18d5_a62f, 0x00d5_a52f, 0xa0d5_a52f, 0x08d5_b52f]);
    bus.write(0x1800, 0xffff_fff0, 4).unwrap();
    let mut p = hart(XLen::X64, vec!['a']);
    p.state.set_xreg(11, 0x1800);
    p.state.set_xreg(13, 5);
    assert_eq!(p.step_one(&mut bus), Ok(()));
    assert_eq!(p.state.xreg(10), 0xffff_ffff_ffff_fff0);
    assert_eq!(p.state.reservation, Some(0x1800));
    assert_eq!(p.step_one(&mut bus), Ok(()));
    assert_eq!(p.state.xreg(12), 0);
    assert_eq!(bus.read_u32(0x1800).unwrap(), 5);
    // the reservation is gone: the second store-conditional fails and writes nothing
    p.state.set_xreg(13, 7);
    assert_eq!(p.step_one(&mut bus), Ok(()));
    assert_eq!(p.state.xreg(12), 1);
    assert_eq!(bus.read_u32(0x1800).unwrap(), 5);
    assert_eq!(p.step_one(&mut bus), Ok(()));
    assert_eq!(p.state.xreg(10), 5);
    assert_eq!(bus.read_u32(0x1800).unwrap(), 12);
    p.state.set_xreg(13, u64::MAX);
    assert_eq!(p.step_one(&mut bus), Ok(()));
    assert_eq!(p.state.xreg(10), 12);
    assert_eq!(bus.read_u32(0x1800).unwrap(), 12);
    p.state.set_xreg(13, 0x1122_3344_5566_7788);
    assert_eq!(p.step_one(&mut bus), Ok(()));
    assert_eq!(p.state.xreg(10), 12);
    assert_eq!(bus.read_u64(0x1800).unwrap(), 0x1122_3344_5566_7788);
    assert_eq!(p.state.next_pc(), 0x1018);
}

#[test]
fn atomics_need_extension_and_alignment() {
    let mut bus = program(&[0x00d5_a52f]);
    let mut p = hart(XLen::X64, vec![]);
    p.state.set_xreg(11, 0x1800);
    assert_eq!(p.step_one(&mut bus), Err(Trap::Exception(Exception::IllegalInsn(0x00d5_a52f))));
    let mut q = hart(XLen::X64, vec!['a']);
    q.state.set_xreg(11, 0x1802);
    assert_eq!(q.step_one(&mut bus), Err(Trap::Exception(Exception::StoreMisaligned(0x1802))));
    // amoswap.d on RV32
    let mut bus = program(&[0x08d5_b52f]);
    let mut r = hart(XLen::X32, vec!['a']);
    assert_eq!(r.step_one(&mut bus), Err(Trap::Exception(Exception::IllegalInsn(0x08d5_b52f))));
}
