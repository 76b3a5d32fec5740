use terminus::bus::Bus;
use terminus::config::{PrivilegeLevel, ProcessorCfg, XLen};
use terminus::muldiv::{muldiv_exec, MulOp};
use terminus::processor::Processor;
use terminus::trap::{Exception, Trap};

const MINUS_ONE: u64 = u64::MAX;

#[test]
fn multiply_rv64() {
    assert_eq!(muldiv_exec(MulOp::Mul, 3, 5, true), 15);
    assert_eq!(muldiv_exec(MulOp::Mul, MINUS_ONE, 3, true), 0xffff_ffff_ffff_fffd);
    assert_eq!(muldiv_exec(MulOp::Mulh, MINUS_ONE, MINUS_ONE, true), 0);
    assert_eq!(muldiv_exec(MulOp::Mulh, 1 << 63, 2, true), MINUS_ONE);
    assert_eq!(muldiv_exec(MulOp::Mulhu, MINUS_ONE, MINUS_ONE, true), 0xffff_ffff_ffff_fffe);
    assert_eq!(muldiv_exec(MulOp::Mulhsu, MINUS_ONE, MINUS_ONE, true), MINUS_ONE);
    assert_eq!(muldiv_exec(MulOp::Mulhsu, 2, MINUS_ONE, true), 1);
}

#[test]
fn divide_rv64() {
    let minus_seven = 0u64.wrapping_sub(7);
    assert_eq!(muldiv_exec(MulOp::Div, minus_seven, 2, true), 0u64.wrapping_sub(3));
    assert_eq!(muldiv_exec(MulOp::Rem, minus_seven, 2, true), MINUS_ONE);
    assert_eq!(muldiv_exec(MulOp::Div, 7, 0u64.wrapping_sub(2), true), 0u64.wrapping_sub(3));
    assert_eq!(muldiv_exec(MulOp::Rem, 7, 0u64.wrapping_sub(2), true), 1);
    assert_eq!(muldiv_exec(MulOp::Divu, 7, 2, true), 3);
    assert_eq!(muldiv_exec(MulOp::Remu, 7, 2, true), 1);
    // division by zero
    assert_eq!(muldiv_exec(MulOp::Div, 9, 0, true), MINUS_ONE);
    assert_eq!(muldiv_exec(MulOp::Divu, 9, 0, true), MINUS_ONE);
    assert_eq!(muldiv_exec(MulOp::Rem, 9, 0, true), 9);
    assert_eq!(muldiv_exec(MulOp::Remu, 9, 0, true), 9);
    // signed overflow
    assert_eq!(muldiv_exec(MulOp::Div, 1 << 63, MINUS_ONE, true), 1 << 63);
    assert_eq!(muldiv_exec(MulOp::Rem, 1 << 63, MINUS_ONE, true), 0);
}

#[test]
fn multiply_and_divide_rv32() {
    assert_eq!(muldiv_exec(MulOp::Mul, 0xffff_ffff, 0xffff_ffff, false), 1);
    assert_eq!(muldiv_exec(MulOp::Mulh, 0xffff_ffff, 0xffff_ffff, false), 0);
    assert_eq!(muldiv_exec(MulOp::Mulhu, 0xffff_ffff, 0xffff_ffff, false), 0xffff_fffe);
    assert_eq!(muldiv_exec(MulOp::Div, 0x8000_0000, 0xffff_ffff, false), 0x8000_0000);
    assert_eq!(muldiv_exec(MulOp::Div, 0xffff_fff9, 2, false), 0xffff_fffd);
    assert_eq!(muldiv_exec(MulOp::Div, 5, 0, false), 0xffff_ffff);
}

fn hart(xlen: XLen, exts: Vec<char>) -> Processor {
    let cfg = ProcessorCfg { xlen, hartid: 0, start_address: 0x1000, privilege_level: PrivilegeLevel::MSU, enabel_dirty: false };
    Processor::new(cfg, exts).unwrap()
}

#[test]
fn mul_and_divw_instructions() {
    let mut bus = Bus::new();
    bus.add_region(0x1000, 0x1000).unwrap();
    // mul a0, a1, a2; divw a0, a1, a2
    bus.write(0x1000, 0x02c5_8533, 4).unwrap();
    bus.write(0x1004, 0x02c5_c53b, 4).unwrap();
    let mut p = hart(XLen::X64, vec!['m']);
    p.state.set_xreg(11, 0x1_0000_0007);
    p.state.set_xreg(12, 0xffff_fffe);
    assert_eq!(p.step_one(&mut bus), Ok(()));
    assert_eq!(p.state.xreg(10), 0x1_0000_0007u64.wrapping_mul(0xffff_fffe));
    assert_eq!(p.step_one(&mut bus), Ok(()));
    // the low words are 7 and -2
    assert_eq!(p.state.xreg(10), 0u64.wrapping_sub(3));
    let mut q = hart(XLen::X64, vec![]);
    assert_eq!(q.step_one(&mut bus), Err(Trap::Exception(Exception::IllegalInsn(0x02c5_8533))));
}
