use terminus::bus::Bus;
use terminus::config::{PrivilegeLevel, ProcessorCfg, XLen};
use terminus::decode::AluOp;
use terminus::insns::{alu32_exec, alu_exec};
use terminus::processor::Processor;
use terminus::trap::{Exception, Trap};

fn hart(xlen: XLen, exts: Vec<char>) -> Processor {
    let cfg = ProcessorCfg { xlen, hartid: 0, start_address: 0x1000, privilege_level: PrivilegeLevel::MSU, enabel_dirty: false };
    Processor::new(cfg, exts).unwrap()
}

fn program(words: &[u32]) -> Bus {
    let mut bus = Bus::new();
    bus.add_region(0x1000, 0x2000).unwrap();
    for (i, w) in words.iter().enumerate() {
        bus.write(0x1000 + 4 * i as u64, *w as u64, 4).unwrap();
    }
    bus
}

#[test]
fn summing_loop_runs_to_completion() {
    // a0 = 0; a1 = 10; loop: a0 += a1; a1 -= 1; bnez a1, loop; t0 = 0x2000; sd a0, 0(t0)
    let mut bus = program(&[0x0000_0513, 0x00a0_0593, 0x00b5_0533, 0xfff5_8593, 0xfe05_9ce3, 0x0000_22b7, 0x00a2_b023]);
    let mut p = hart(XLen::X64, vec![]);
    for _ in 0..34 {
        assert_eq!(p.step_one(&mut bus), Ok(()));
    }
    assert_eq!(p.state.xreg(10), 55);
    assert_eq!(bus.read_u64(0x2000).unwrap(), 55);
    assert_eq!(p.state.next_pc(), 0x101c);
    assert_eq!(p.state.csr(0xc02).unwrap(), 34);
}

#[test]
fn call_and_return() {
    // jal ra, +8; (skipped); jalr x0, 0(ra)
    let mut bus = program(&[0x0080_00ef, 0x0000_0013, 0x0000_8067]);
    let mut p = hart(XLen::X64, vec![]);
    assert_eq!(p.step_one(&mut bus), Ok(()));
    assert_eq!(p.state.next_pc(), 0x1008);
    assert_eq!(p.state.xreg(1), 0x1004);
    assert_eq!(p.step_one(&mut bus), Ok(()));
    assert_eq!(p.state.next_pc(), 0x1004);
}

#[test]
fn jump_alignment_depends_on_c() {
    // jalr x0, 2(x0)
    let mut bus = program(&[0x0020_0067]);
    let mut p = hart(XLen::X64, vec![]);
    assert_eq!(p.step_one(&mut bus), Err(Trap::Exception(Exception::FetchMisaligned(2))));
    let mut q = hart(XLen::X64, vec!['c']);
    assert_eq!(q.step_one(&mut bus), Ok(()));
    assert_eq!(q.state.next_pc(), 2);
}

#[test]
fn loads_extend_by_kind() {
    // lui t0, 0x2; lw a2, 0(t0); lwu a3, 0(t0); lb a4, 0(t0); lbu a5, 0(t0); auipc a0, 1
    let mut bus = program(&[0x0000_22b7, 0x0002_a603, 0x0002_e683, 0x0002_8703, 0x0002_c783, 0x0000_1517]);
    bus.write(0x2000, 0x8000_0080, 4).unwrap();
    let mut p = hart(XLen::X64, vec![]);
    for _ in 0..6 {
        assert_eq!(p.step_one(&mut bus), Ok(()));
    }
    assert_eq!(p.state.xreg(12), 0xffff_ffff_8000_0080);
    assert_eq!(p.state.xreg(13), 0x8000_0080);
    assert_eq!(p.state.xreg(14), 0xffff_ffff_ffff_ff80);
    assert_eq!(p.state.xreg(15), 0x80);
    assert_eq!(p.state.xreg(10), 0x1014 + 0x1000);
}

#[test]
fn rv64_only_instructions_are_illegal_on_rv32() {
    // ld a0, 0(x0); addw a0, a0, a0; slli a0, a0, 32
    let mut p = hart(XLen::X32, vec![]);
    let mut bus = program(&[0x0000_3503]);
    assert_eq!(p.step_one(&mut bus), Err(Trap::Exception(Exception::IllegalInsn(0x0000_3503))));
    let mut bus = program(&[0x00a5_053b]);
    let mut p = hart(XLen::X32, vec![]);
    assert_eq!(p.step_one(&mut bus), Err(Trap::Exception(Exception::IllegalInsn(0x00a5_053b))));
    let mut bus = program(&[0x0205_1513]);
    let mut p = hart(XLen::X32, vec![]);
    assert_eq!(p.step_one(&mut bus), Err(Trap::Exception(Exception::IllegalInsn(0x0205_1513))));
    let mut q = hart(XLen::X64, vec![]);
    q.state.set_xreg(10, 1);
    assert_eq!(q.step_one(&mut bus), Ok(()));
    assert_eq!(q.state.xreg(10), 1 << 32);
}

#[test]
fn alu_operations() {
    let x64 = XLen::X64;
    let x32 = XLen::X32;
    assert_eq!(alu_exec(AluOp::Add, u64::MAX, 2, x64), 1);
    assert_eq!(alu_exec(AluOp::Add, 0xffff_ffff, 2, x32), 1);
    assert_eq!(alu_exec(AluOp::Sub, 0, 1, x32), 0xffff_ffff);
    assert_eq!(alu_exec(AluOp::Sll, 1, 65, x64), 2);
    assert_eq!(alu_exec(AluOp::Sll, 1, 31, x32), 0x8000_0000);
    assert_eq!(alu_exec(AluOp::Slt, u64::MAX, 0, x64), 1);
    assert_eq!(alu_exec(AluOp::Slt, 0xffff_ffff, 0, x32), 1);
    assert_eq!(alu_exec(AluOp::Slt, 0xffff_ffff, 0, x64), 0);
    assert_eq!(alu_exec(AluOp::Sltu, u64::MAX, 0, x64), 0);
    assert_eq!(alu_exec(AluOp::Sltu, 0, 1, x64), 1);
    assert_eq!(alu_exec(AluOp::Srl, 0x8000_0000, 31, x32), 1);
    assert_eq!(alu_exec(AluOp::Sra, 0x8000_0000, 31, x32), 0xffff_ffff);
    assert_eq!(alu_exec(AluOp::Sra, 0x8000_0000_0000_0000, 63, x64), u64::MAX);
    assert_eq!(alu_exec(AluOp::Sra, 0x4000_0000_0000_0000, 62, x64), 1);
    assert_eq!(alu_exec(AluOp::Xor, 0b1100, 0b1010, x64), 0b0110);
    assert_eq!(alu_exec(AluOp::Or, 0b1100, 0b1010, x64), 0b1110);
    assert_eq!(alu_exec(AluOp::And, 0b1100, 0b1010, x64), 0b1000);
    assert_eq!(alu32_exec(AluOp::Add, 0x7fff_ffff, 1), 0xffff_ffff_8000_0000);
    assert_eq!(alu32_exec(AluOp::Sub, 0, 1), u64::MAX);
    assert_eq!(alu32_exec(AluOp::Sll, 1, 31), 0xffff_ffff_8000_0000);
    assert_eq!(alu32_exec(AluOp::Srl, 0xffff_ffff_8000_0000, 31), 1);
    assert_eq!(alu32_exec(AluOp::Sra, 0x8000_0000, 31), u64::MAX);
}
