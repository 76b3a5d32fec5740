//! The decoder registry: instruction patterns `(code, mask)` and the lookup that resolves an
//! instruction word to the one pattern it matches.
use vstd::prelude::*;
use crate::trap::Exception;
use crate::muldiv::MulOp;
use vstd::string::StringSliceAdditionalSpecFns;

verus! {

/// The operations of the integer ALU.
#[derive(Clone, Copy, Debug, PartialEq, Eq, Structural)]
pub enum AluOp {
    Add,
    Sub,
    Sll,
    Slt,
    Sltu,
    Xor,
    Srl,
    Sra,
    Or,
    And,
}

/// The conditions of the conditional branches.
#[derive(Clone, Copy, Debug, PartialEq, Eq, Structural)]
pub enum BranchCond {
    Eq,
    Ne,
    Lt,
    Ge,
    Ltu,
    Geu,
}

/// The read-modify-write operations of the atomic (A) extension.
#[derive(Clone, Copy, Debug, PartialEq, Eq, Structural)]
pub enum AmoOp {
    Swap,
    Add,
    Xor,
    And,
    Or,
    Min,
    Max,
    Minu,
    Maxu,
}

/// The operations that the registry can resolve an instruction word to.
#[derive(Clone, Copy, Debug, PartialEq, Eq, Structural)]
pub enum InsnKind {
    CLwsp,
    CLdspFlwsp,
    CFldsp,
    CSwsp,
    CSdspFswsp,
    CFsdsp,
    CLw,
    CLdFlw,
    CFld,
    CSw,
    CSdFsw,
    CFsd,
    CJ,
    CJalAddiw,
    CJr,
    CJalr,
    CBeqz,
    CBnez,
    CLi,
    CLui,
    Ecall,
    Ebreak,
    Mret,
    Sret,
    Wfi,
    SfenceVma,
    Fence,
    FenceI,
    Csrrw,
    Csrrs,
    Csrrc,
    Csrrwi,
    Csrrsi,
    Csrrci,
    Lui,
    Auipc,
    Jal,
    Jalr,
    Branch(BranchCond),
    /// A load of this many bytes, zero-extended when the flag is set.
    Load(u64, bool),
    /// A store of this many bytes.
    Store(u64),
    OpImm(AluOp),
    Op(AluOp),
    OpImm32(AluOp),
    Op32(AluOp),
    MulDiv(MulOp),
    MulDiv32(MulOp),
    /// An atomic memory operation on this many bytes.
    Amo(AmoOp, u64),
    /// Load-reserved of this many bytes.
    Lr(u64),
    /// Store-conditional of this many bytes.
    Sc(u64),
    /// A float load of this many bytes.
    FLoad(u64),
    /// A float store of this many bytes.
    FStore(u64),
}

/// A decoded instruction: its word and the operation it names.
#[derive(Clone, Copy, Debug, PartialEq, Eq, Structural)]
pub struct Instruction {
    pub ir: u32,
    pub kind: InsnKind,
}

impl Instruction {
    pub fn ir(&self) -> (r: u32)
        ensures
            r == self.ir,
    {
        self.ir
    }

    /// The major opcode, bits 6..0 of the word.
    pub fn op(&self) -> (r: u32)
        ensures
            r == self.ir & 0x7f,
    {
        self.ir & 0x7f
    }
}

/// One pattern of the registry: a word `ir` matches when `ir & mask == code`.
#[derive(Clone, Copy, Debug, PartialEq, Eq, Structural)]
pub struct Decoder {
    pub code: u32,
    pub mask: u32,
    pub kind: InsnKind,
}

pub open spec fn matches(d: Decoder, ir: u32) -> bool {
    ir & d.mask == d.code
}

/// Two patterns overlap when they agree on every bit that both fix.
pub open spec fn overlap(a: Decoder, b: Decoder) -> bool {
    (a.code ^ b.code) & a.mask & b.mask == 0
}

/// A word that matches two patterns shows that they overlap.
pub proof fn lemma_common_match_overlaps(a: Decoder, b: Decoder, ir: u32)
    requires
        matches(a, ir),
        matches(b, ir),
    ensures
        overlap(a, b),
{
    let (ca, ma, cb, mb) = (a.code, a.mask, b.code, b.mask);
    assert((ir & ma) == ca && (ir & mb) == cb ==> (ca ^ cb) & ma & mb == 0) by (bit_vector);
}

impl Decoder {
    pub fn code(&self) -> (r: u32)
        ensures
            r == self.code,
    {
        self.code
    }

    pub fn mask(&self) -> (r: u32)
        ensures
            r == self.mask,
    {
        self.mask
    }

    pub fn matched(&self, ir: u32) -> (r: bool)
        ensures
            r == matches(*self, ir),
    {
        ir & self.mask == self.code
    }

    pub fn decode(&self, ir: u32) -> (r: Instruction)
        ensures
            r == (Instruction { ir, kind: self.kind }),
    {
        Instruction { ir, kind: self.kind }
    }
}

/// The pattern state after reading the pattern text's bytes `[2, n)`: code, mask and bit count.
pub open spec fn pattern_prefix(b: Seq<u8>, n: int) -> Option<(u32, u32, u32)>
    decreases n,
{
    if n <= 2 {
        Some((0u32, 0u32, 0u32))
    } else {
        match pattern_prefix(b, n - 1) {
            None => None,
            Some(st) => pattern_step(st, b[n - 1]),
        }
    }
}

/// One character of a pattern: `0` and `1` fix a bit, `?` leaves it free, `_` separates.
pub open spec fn pattern_step(st: (u32, u32, u32), c: u8) -> Option<(u32, u32, u32)> {
    let (code, mask, n) = st;
    if c == 95 {
        Some(st)
    } else if n >= 32 {
        None
    } else if c == 48 {
        Some(((code << 1u32) as u32, ((mask << 1u32) | 1) as u32, (n + 1) as u32))
    } else if c == 49 {
        Some((((code << 1u32) | 1) as u32, ((mask << 1u32) | 1) as u32, (n + 1) as u32))
    } else if c == 63 {
        Some(((code << 1u32) as u32, (mask << 1u32) as u32, (n + 1) as u32))
    } else {
        None
    }
}

pub proof fn lemma_prefix_none(b: Seq<u8>, i: int, n: int)
    requires
        pattern_prefix(b, i) is None,
        i <= n,
    ensures
        pattern_prefix(b, n) is None,
    decreases n - i,
{
    if i < n {
        lemma_prefix_none(b, i, n - 1);
    }
}

/// The pattern that a text such as `0b????_0011` denotes, the last character being bit 0.
pub open spec fn pattern_spec(b: Seq<u8>) -> Option<(u32, u32)> {
    if b.len() < 3 || b[0] != 48 || b[1] != 98 {
        None
    } else {
        match pattern_prefix(b, b.len() as int) {
            None => None,
            Some(st) => Some((st.0, st.1)),
        }
    }
}

impl Decoder {
    /// Reads a pattern text: `0b`, then one of `0`, `1`, `?` per bit from bit 31 down at most,
    /// with `_` anywhere between. `None` for any other text.
    pub fn from_pattern(text: &str, kind: InsnKind) -> (r: Option<Decoder>)
        ensures
            match pattern_spec(text.spec_bytes()) {
                None => r is None,
                Some((code, mask)) => r == Some(Decoder { code, mask, kind }),
            },
    {
        let b = text.as_bytes();
        let len = b.len();
        if len < 3 || b[0] != 48 || b[1] != 98 {
            return None;
        }
        let mut code: u32 = 0;
        let mut mask: u32 = 0;
        let mut n: u32 = 0;
        let mut i: usize = 2;
        while i < len
            invariant
                b@ == text.spec_bytes(),
                len == b@.len(),
                2 <= i <= len,
                pattern_prefix(b@, i as int) == Some((code, mask, n)),
            decreases len - i,
        {
            let c = b[i];
            proof {
                assert(pattern_prefix(b@, i + 1) == pattern_step((code, mask, n), c));
                if pattern_step((code, mask, n), c) is None {
                    lemma_prefix_none(b@, i + 1, len as int);
                }
            }
            if c == 95 {
            } else if n >= 32 {
                return None;
            } else if c == 48 {
                code = code << 1u32;
                mask = (mask << 1u32) | 1;
                n = n + 1;
            } else if c == 49 {
                code = (code << 1u32) | 1;
                mask = (mask << 1u32) | 1;
                n = n + 1;
            } else if c == 63 {
                code = code << 1u32;
                mask = mask << 1u32;
                n = n + 1;
            } else {
                return None;
            }
            i = i + 1;
        }
        Some(Decoder { code, mask, kind })
    }
}

/// The first pattern from `i` on that `ir` matches.
pub open spec fn first_match(ds: Seq<Decoder>, ir: u32, i: int) -> Option<int>
    decreases ds.len() - i,
{
    if i < 0 || i >= ds.len() {
        None
    } else if matches(ds[i], ir) {
        Some(i)
    } else {
        first_match(ds, ir, i + 1)
    }
}

pub proof fn lemma_first_match(ds: Seq<Decoder>, ir: u32, i: int)
    requires
        0 <= i,
    ensures
        first_match(ds, ir, i) matches Some(j) ==> i <= j < ds.len() && matches(ds[j], ir),
        first_match(ds, ir, i) is None ==> forall|j: int| i <= j < ds.len() ==> !matches(#[trigger] ds[j], ir),
    decreases ds.len() - i,
{
    if i < ds.len() {
        lemma_first_match(ds, ir, i + 1);
    }
}

/// What the registry `ds` decodes `ir` to: the one pattern it matches, else an illegal instruction.
pub open spec fn decode_spec(ds: Seq<Decoder>, ir: u32) -> Result<Instruction, Exception> {
    match first_match(ds, ir, 0) {
        None => Err(Exception::IllegalInsn(ir)),
        Some(i) => match first_match(ds, ir, i + 1) {
            Some(_) => Err(Exception::IllegalInsn(ir)),
            None => Ok(Instruction { ir, kind: ds[i].kind }),
        },
    }
}

#[derive(Clone, Copy, Debug, PartialEq, Eq, Structural)]
pub enum RegisterError {
    /// The registry was locked.
    Locked,
    /// The new pattern overlaps the registered pattern with this index.
    Overlap(usize),
}

/// The registry of instruction patterns. Patterns are added until it is locked; after that it is
/// only read.
pub struct InsnMap {
    pub decoders: Vec<Decoder>,
    pub locked: bool,
}

impl InsnMap {
    /// No two registered patterns overlap.
    pub open spec fn wf(&self) -> bool {
        forall|i: int, j: int|
            0 <= i < j < self.decoders@.len() ==> !overlap(#[trigger] self.decoders@[i], #[trigger] self.decoders@[j])
    }

    pub fn new() -> (r: InsnMap)
        ensures
            r.wf(),
            r.decoders@.len() == 0,
            !r.locked,
    {
        InsnMap { decoders: Vec::new(), locked: false }
    }

    /// Adds a pattern, unless the registry is locked or the pattern overlaps one already there.
    pub fn registery(&mut self, d: Decoder) -> (r: Result<(), RegisterError>)
        requires
            old(self).wf(),
        ensures
            final(self).wf(),
            final(self).locked == old(self).locked,
            match r {
                Ok(()) => !old(self).locked && (forall|j: int| 0 <= j < old(self).decoders@.len()
                    ==> !overlap(#[trigger] old(self).decoders@[j], d)) && final(self).decoders@ == old(self).decoders@.push(d),
                Err(RegisterError::Locked) => old(self).locked && final(self).decoders@ == old(self).decoders@,
                Err(RegisterError::Overlap(j)) => !old(self).locked && j < old(self).decoders@.len()
                    && overlap(old(self).decoders@[j as int], d) && final(self).decoders@ == old(self).decoders@,
            },
    {
        if self.locked {
            return Err(RegisterError::Locked);
        }
        let mut j: usize = 0;
        while j < self.decoders.len()
            invariant
                j <= self.decoders@.len(),
                self.decoders@ == old(self).decoders@,
                self.locked == old(self).locked,
                !self.locked,
                self.wf(),
                forall|k: int| 0 <= k < j ==> !overlap(#[trigger] self.decoders@[k], d),
            decreases self.decoders@.len() - j,
        {
            let e = self.decoders[j];
            if (e.code ^ d.code) & e.mask & d.mask == 0 {
                return Err(RegisterError::Overlap(j));
            }
            j = j + 1;
        }
        self.decoders.push(d);
        proof {
            assert forall|a: int, b: int| 0 <= a < b < self.decoders@.len() implies !overlap(
                #[trigger] self.decoders@[a], #[trigger] self.decoders@[b]) by {
                if b == self.decoders@.len() - 1 {
                    assert(self.decoders@[b] == d);
                    assert(self.decoders@[a] == old(self).decoders@[a]);
                } else {
                    assert(self.decoders@[a] == old(self).decoders@[a]);
                    assert(self.decoders@[b] == old(self).decoders@[b]);
                }
            }
        }
        Ok(())
    }

    /// Freezes the registry: from now on it only decodes.
    pub fn lock(&mut self)
        ensures
            final(self).locked,
            final(self).decoders@ == old(self).decoders@,
    {
        self.locked = true;
    }

    /// Decodes `ir`: the operation of the one pattern that it matches, else `IllegalInsn(ir)`.
    pub fn decode(&self, ir: u32) -> (r: Result<Instruction, Exception>)
        ensures
            r == decode_spec(self.decoders@, ir),
    {
        let n = self.decoders.len();
        let mut found: Option<usize> = None;
        let mut i: usize = 0;
        while i < n
            invariant
                n == self.decoders@.len(),
                i <= n,
                match found {
                    None => first_match(self.decoders@, ir, 0) == first_match(self.decoders@, ir, i as int),
                    Some(k) => k < i && first_match(self.decoders@, ir, 0) == Some(k as int)
                        && first_match(self.decoders@, ir, k + 1) == first_match(self.decoders@, ir, i as int),
                },
            decreases n - i,
        {
            if self.decoders[i].matched(ir) {
                match found {
                    None => {
                        found = Some(i);
                    }
                    Some(_) => {
                        return Err(Exception::IllegalInsn(ir));
                    }
                }
            }
            i = i + 1;
        }
        match found {
            None => Err(Exception::IllegalInsn(ir)),
            Some(k) => Ok(self.decoders[k].decode(ir)),
        }
    }
}

/// In a registry without overlaps a word matches at most one pattern, so decoding succeeds
/// exactly when some pattern matches.
pub proof fn lemma_decode_unique(m: &InsnMap, ir: u32)
    requires
        m.wf(),
    ensures
        decode_spec(m.decoders@, ir) is Ok <==> exists|i: int| 0 <= i < m.decoders@.len() && matches(#[trigger] m.decoders@[i], ir),
{
    let ds = m.decoders@;
    lemma_first_match(ds, ir, 0);
    if let Some(i) = first_match(ds, ir, 0) {
        lemma_first_match(ds, ir, i + 1);
        if let Some(j) = first_match(ds, ir, i + 1) {
            lemma_common_match_overlaps(ds[i], ds[j], ir);
            assert(!overlap(ds[i], ds[j]));
        }
    }
}

/// Decoding is a function of the registry's patterns and the word alone: two registries with the
/// same patterns (two harts' copies, two calls) decode every word alike.
pub proof fn lemma_decode_deterministic(a: &InsnMap, b: &InsnMap, ir: u32)
    requires
        a.decoders@ == b.decoders@,
    ensures
        decode_spec(a.decoders@, ir) == decode_spec(b.decoders@, ir),
{
}

/// The patterns of the compressed (C) instructions.
pub open spec fn compressed_patterns() -> Seq<Decoder> {
    seq![
        Decoder { code: 0x4002, mask: 0xe003, kind: InsnKind::CLwsp },
        Decoder { code: 0x6002, mask: 0xe003, kind: InsnKind::CLdspFlwsp },
        Decoder { code: 0x2002, mask: 0xe003, kind: InsnKind::CFldsp },
        Decoder { code: 0xc002, mask: 0xe003, kind: InsnKind::CSwsp },
        Decoder { code: 0xe002, mask: 0xe003, kind: InsnKind::CSdspFswsp },
        Decoder { code: 0xa002, mask: 0xe003, kind: InsnKind::CFsdsp },
        Decoder { code: 0x4000, mask: 0xe003, kind: InsnKind::CLw },
        Decoder { code: 0x6000, mask: 0xe003, kind: InsnKind::CLdFlw },
        Decoder { code: 0x2000, mask: 0xe003, kind: InsnKind::CFld },
        Decoder { code: 0xc000, mask: 0xe003, kind: InsnKind::CSw },
        Decoder { code: 0xe000, mask: 0xe003, kind: InsnKind::CSdFsw },
        Decoder { code: 0xa000, mask: 0xe003, kind: InsnKind::CFsd },
        Decoder { code: 0xa001, mask: 0xe003, kind: InsnKind::CJ },
        Decoder { code: 0x2001, mask: 0xe003, kind: InsnKind::CJalAddiw },
        Decoder { code: 0x8002, mask: 0xf07f, kind: InsnKind::CJr },
        Decoder { code: 0x9002, mask: 0xf07f, kind: InsnKind::CJalr },
        Decoder { code: 0xc001, mask: 0xe003, kind: InsnKind::CBeqz },
        Decoder { code: 0xe001, mask: 0xe003, kind: InsnKind::CBnez },
        Decoder { code: 0x4001, mask: 0xe003, kind: InsnKind::CLi },
        Decoder { code: 0x6001, mask: 0xe003, kind: InsnKind::CLui },
    ]
}

fn compressed_decoders() -> (r: Vec<Decoder>)
    ensures
        r@ == compressed_patterns(),
{
    let mut ds: Vec<Decoder> = Vec::new();
    ds.push(Decoder { code: 0x4002, mask: 0xe003, kind: InsnKind::CLwsp });
    ds.push(Decoder { code: 0x6002, mask: 0xe003, kind: InsnKind::CLdspFlwsp });
    ds.push(Decoder { code: 0x2002, mask: 0xe003, kind: InsnKind::CFldsp });
    ds.push(Decoder { code: 0xc002, mask: 0xe003, kind: InsnKind::CSwsp });
    ds.push(Decoder { code: 0xe002, mask: 0xe003, kind: InsnKind::CSdspFswsp });
    ds.push(Decoder { code: 0xa002, mask: 0xe003, kind: InsnKind::CFsdsp });
    ds.push(Decoder { code: 0x4000, mask: 0xe003, kind: InsnKind::CLw });
    ds.push(Decoder { code: 0x6000, mask: 0xe003, kind: InsnKind::CLdFlw });
    ds.push(Decoder { code: 0x2000, mask: 0xe003, kind: InsnKind::CFld });
    ds.push(Decoder { code: 0xc000, mask: 0xe003, kind: InsnKind::CSw });
    ds.push(Decoder { code: 0xe000, mask: 0xe003, kind: InsnKind::CSdFsw });
    ds.push(Decoder { code: 0xa000, mask: 0xe003, kind: InsnKind::CFsd });
    ds.push(Decoder { code: 0xa001, mask: 0xe003, kind: InsnKind::CJ });
    ds.push(Decoder { code: 0x2001, mask: 0xe003, kind: InsnKind::CJalAddiw });
    ds.push(Decoder { code: 0x8002, mask: 0xf07f, kind: InsnKind::CJr });
    ds.push(Decoder { code: 0x9002, mask: 0xf07f, kind: InsnKind::CJalr });
    ds.push(Decoder { code: 0xc001, mask: 0xe003, kind: InsnKind::CBeqz });
    ds.push(Decoder { code: 0xe001, mask: 0xe003, kind: InsnKind::CBnez });
    ds.push(Decoder { code: 0x4001, mask: 0xe003, kind: InsnKind::CLi });
    ds.push(Decoder { code: 0x6001, mask: 0xe003, kind: InsnKind::CLui });
    assert(ds@ =~= compressed_patterns());
    ds
}

/// The patterns of the system, fence and CSR instructions.
pub open spec fn system_patterns() -> Seq<Decoder> {
    seq![
        Decoder { code: 0x73, mask: 0xffffffff, kind: InsnKind::Ecall },
        Decoder { code: 0x100073, mask: 0xffffffff, kind: InsnKind::Ebreak },
        Decoder { code: 0x30200073, mask: 0xffffffff, kind: InsnKind::Mret },
        Decoder { code: 0x10200073, mask: 0xffffffff, kind: InsnKind::Sret },
        Decoder { code: 0x10500073, mask: 0xffffffff, kind: InsnKind::Wfi },
        Decoder { code: 0x12000073, mask: 0xfe007fff, kind: InsnKind::SfenceVma },
        Decoder { code: 0xf, mask: 0x707f, kind: InsnKind::Fence },
        Decoder { code: 0x100f, mask: 0x707f, kind: InsnKind::FenceI },
        Decoder { code: 0x1073, mask: 0x707f, kind: InsnKind::Csrrw },
        Decoder { code: 0x2073, mask: 0x707f, kind: InsnKind::Csrrs },
        Decoder { code: 0x3073, mask: 0x707f, kind: InsnKind::Csrrc },
        Decoder { code: 0x5073, mask: 0x707f, kind: InsnKind::Csrrwi },
        Decoder { code: 0x6073, mask: 0x707f, kind: InsnKind::Csrrsi },
        Decoder { code: 0x7073, mask: 0x707f, kind: InsnKind::Csrrci },
    ]
}

fn system_decoders() -> (r: Vec<Decoder>)
    ensures
        r@ == system_patterns(),
{
    let mut ds: Vec<Decoder> = Vec::new();
    ds.push(Decoder { code: 0x73, mask: 0xffffffff, kind: InsnKind::Ecall });
    ds.push(Decoder { code: 0x100073, mask: 0xffffffff, kind: InsnKind::Ebreak });
    ds.push(Decoder { code: 0x30200073, mask: 0xffffffff, kind: InsnKind::Mret });
    ds.push(Decoder { code: 0x10200073, mask: 0xffffffff, kind: InsnKind::Sret });
    ds.push(Decoder { code: 0x10500073, mask: 0xffffffff, kind: InsnKind::Wfi });
    ds.push(Decoder { code: 0x12000073, mask: 0xfe007fff, kind: InsnKind::SfenceVma });
    ds.push(Decoder { code: 0xf, mask: 0x707f, kind: InsnKind::Fence });
    ds.push(Decoder { code: 0x100f, mask: 0x707f, kind: InsnKind::FenceI });
    ds.push(Decoder { code: 0x1073, mask: 0x707f, kind: InsnKind::Csrrw });
    ds.push(Decoder { code: 0x2073, mask: 0x707f, kind: InsnKind::Csrrs });
    ds.push(Decoder { code: 0x3073, mask: 0x707f, kind: InsnKind::Csrrc });
    ds.push(Decoder { code: 0x5073, mask: 0x707f, kind: InsnKind::Csrrwi });
    ds.push(Decoder { code: 0x6073, mask: 0x707f, kind: InsnKind::Csrrsi });
    ds.push(Decoder { code: 0x7073, mask: 0x707f, kind: InsnKind::Csrrci });
    assert(ds@ =~= system_patterns());
    ds
}

/// The patterns of the base integer instructions and the float loads and stores.
pub open spec fn base_patterns() -> Seq<Decoder> {
    seq![
        Decoder { code: 0x37, mask: 0x7f, kind: InsnKind::Lui },
        Decoder { code: 0x17, mask: 0x7f, kind: InsnKind::Auipc },
        Decoder { code: 0x6f, mask: 0x7f, kind: InsnKind::Jal },
        Decoder { code: 0x67, mask: 0x707f, kind: InsnKind::Jalr },
        Decoder { code: 0x63, mask: 0x707f, kind: InsnKind::Branch(BranchCond::Eq) },
        Decoder { code: 0x1063, mask: 0x707f, kind: InsnKind::Branch(BranchCond::Ne) },
        Decoder { code: 0x4063, mask: 0x707f, kind: InsnKind::Branch(BranchCond::Lt) },
        Decoder { code: 0x5063, mask: 0x707f, kind: InsnKind::Branch(BranchCond::Ge) },
        Decoder { code: 0x6063, mask: 0x707f, kind: InsnKind::Branch(BranchCond::Ltu) },
        Decoder { code: 0x7063, mask: 0x707f, kind: InsnKind::Branch(BranchCond::Geu) },
        Decoder { code: 0x3, mask: 0x707f, kind: InsnKind::Load(1, false) },
        Decoder { code: 0x1003, mask: 0x707f, kind: InsnKind::Load(2, false) },
        Decoder { code: 0x2003, mask: 0x707f, kind: InsnKind::Load(4, false) },
        Decoder { code: 0x3003, mask: 0x707f, kind: InsnKind::Load(8, false) },
        Decoder { code: 0x4003, mask: 0x707f, kind: InsnKind::Load(1, true) },
        Decoder { code: 0x5003, mask: 0x707f, kind: InsnKind::Load(2, true) },
        Decoder { code: 0x6003, mask: 0x707f, kind: InsnKind::Load(4, true) },
        Decoder { code: 0x23, mask: 0x707f, kind: InsnKind::Store(1) },
        Decoder { code: 0x1023, mask: 0x707f, kind: InsnKind::Store(2) },
        Decoder { code: 0x2023, mask: 0x707f, kind: InsnKind::Store(4) },
        Decoder { code: 0x3023, mask: 0x707f, kind: InsnKind::Store(8) },
        Decoder { code: 0x13, mask: 0x707f, kind: InsnKind::OpImm(AluOp::Add) },
        Decoder { code: 0x2013, mask: 0x707f, kind: InsnKind::OpImm(AluOp::Slt) },
        Decoder { code: 0x3013, mask: 0x707f, kind: InsnKind::OpImm(AluOp::Sltu) },
        Decoder { code: 0x4013, mask: 0x707f, kind: InsnKind::OpImm(AluOp::Xor) },
        Decoder { code: 0x6013, mask: 0x707f, kind: InsnKind::OpImm(AluOp::Or) },
        Decoder { code: 0x7013, mask: 0x707f, kind: InsnKind::OpImm(AluOp::And) },
        Decoder { code: 0x1013, mask: 0xfc00707f, kind: InsnKind::OpImm(AluOp::Sll) },
        Decoder { code: 0x5013, mask: 0xfc00707f, kind: InsnKind::OpImm(AluOp::Srl) },
        Decoder { code: 0x40005013, mask: 0xfc00707f, kind: InsnKind::OpImm(AluOp::Sra) },
        Decoder { code: 0x33, mask: 0xfe00707f, kind: InsnKind::Op(AluOp::Add) },
        Decoder { code: 0x40000033, mask: 0xfe00707f, kind: InsnKind::Op(AluOp::Sub) },
        Decoder { code: 0x1033, mask: 0xfe00707f, kind: InsnKind::Op(AluOp::Sll) },
        Decoder { code: 0x2033, mask: 0xfe00707f, kind: InsnKind::Op(AluOp::Slt) },
        Decoder { code: 0x3033, mask: 0xfe00707f, kind: InsnKind::Op(AluOp::Sltu) },
        Decoder { code: 0x4033, mask: 0xfe00707f, kind: InsnKind::Op(AluOp::Xor) },
        Decoder { code: 0x5033, mask: 0xfe00707f, kind: InsnKind::Op(AluOp::Srl) },
        Decoder { code: 0x40005033, mask: 0xfe00707f, kind: InsnKind::Op(AluOp::Sra) },
        Decoder { code: 0x6033, mask: 0xfe00707f, kind: InsnKind::Op(AluOp::Or) },
        Decoder { code: 0x7033, mask: 0xfe00707f, kind: InsnKind::Op(AluOp::And) },
        Decoder { code: 0x1b, mask: 0x707f, kind: InsnKind::OpImm32(AluOp::Add) },
        Decoder { code: 0x101b, mask: 0xfe00707f, kind: InsnKind::OpImm32(AluOp::Sll) },
        Decoder { code: 0x501b, mask: 0xfe00707f, kind: InsnKind::OpImm32(AluOp::Srl) },
        Decoder { code: 0x4000501b, mask: 0xfe00707f, kind: InsnKind::OpImm32(AluOp::Sra) },
        Decoder { code: 0x3b, mask: 0xfe00707f, kind: InsnKind::Op32(AluOp::Add) },
        Decoder { code: 0x4000003b, mask: 0xfe00707f, kind: InsnKind::Op32(AluOp::Sub) },
        Decoder { code: 0x103b, mask: 0xfe00707f, kind: InsnKind::Op32(AluOp::Sll) },
        Decoder { code: 0x503b, mask: 0xfe00707f, kind: InsnKind::Op32(AluOp::Srl) },
        Decoder { code: 0x4000503b, mask: 0xfe00707f, kind: InsnKind::Op32(AluOp::Sra) },
        Decoder { code: 0x2007, mask: 0x707f, kind: InsnKind::FLoad(4) },
        Decoder { code: 0x3007, mask: 0x707f, kind: InsnKind::FLoad(8) },
        Decoder { code: 0x2027, mask: 0x707f, kind: InsnKind::FStore(4) },
        Decoder { code: 0x3027, mask: 0x707f, kind: InsnKind::FStore(8) },
    ]
}

fn base_decoders() -> (r: Vec<Decoder>)
    ensures
        r@ == base_patterns(),
{
    let mut ds: Vec<Decoder> = Vec::new();
    ds.push(Decoder { code: 0x37, mask: 0x7f, kind: InsnKind::Lui });
    ds.push(Decoder { code: 0x17, mask: 0x7f, kind: InsnKind::Auipc });
    ds.push(Decoder { code: 0x6f, mask: 0x7f, kind: InsnKind::Jal });
    ds.push(Decoder { code: 0x67, mask: 0x707f, kind: InsnKind::Jalr });
    ds.push(Decoder { code: 0x63, mask: 0x707f, kind: InsnKind::Branch(BranchCond::Eq) });
    ds.push(Decoder { code: 0x1063, mask: 0x707f, kind: InsnKind::Branch(BranchCond::Ne) });
    ds.push(Decoder { code: 0x4063, mask: 0x707f, kind: InsnKind::Branch(BranchCond::Lt) });
    ds.push(Decoder { code: 0x5063, mask: 0x707f, kind: InsnKind::Branch(BranchCond::Ge) });
    ds.push(Decoder { code: 0x6063, mask: 0x707f, kind: InsnKind::Branch(BranchCond::Ltu) });
    ds.push(Decoder { code: 0x7063, mask: 0x707f, kind: InsnKind::Branch(BranchCond::Geu) });
    ds.push(Decoder { code: 0x3, mask: 0x707f, kind: InsnKind::Load(1, false) });
    ds.push(Decoder { code: 0x1003, mask: 0x707f, kind: InsnKind::Load(2, false) });
    ds.push(Decoder { code: 0x2003, mask: 0x707f, kind: InsnKind::Load(4, false) });
    ds.push(Decoder { code: 0x3003, mask: 0x707f, kind: InsnKind::Load(8, false) });
    ds.push(Decoder { code: 0x4003, mask: 0x707f, kind: InsnKind::Load(1, true) });
    ds.push(Decoder { code: 0x5003, mask: 0x707f, kind: InsnKind::Load(2, true) });
    ds.push(Decoder { code: 0x6003, mask: 0x707f, kind: InsnKind::Load(4, true) });
    ds.push(Decoder { code: 0x23, mask: 0x707f, kind: InsnKind::Store(1) });
    ds.push(Decoder { code: 0x1023, mask: 0x707f, kind: InsnKind::Store(2) });
    ds.push(Decoder { code: 0x2023, mask: 0x707f, kind: InsnKind::Store(4) });
    ds.push(Decoder { code: 0x3023, mask: 0x707f, kind: InsnKind::Store(8) });
    ds.push(Decoder { code: 0x13, mask: 0x707f, kind: InsnKind::OpImm(AluOp::Add) });
    ds.push(Decoder { code: 0x2013, mask: 0x707f, kind: InsnKind::OpImm(AluOp::Slt) });
    ds.push(Decoder { code: 0x3013, mask: 0x707f, kind: InsnKind::OpImm(AluOp::Sltu) });
    ds.push(Decoder { code: 0x4013, mask: 0x707f, kind: InsnKind::OpImm(AluOp::Xor) });
    ds.push(Decoder { code: 0x6013, mask: 0x707f, kind: InsnKind::OpImm(AluOp::Or) });
    ds.push(Decoder { code: 0x7013, mask: 0x707f, kind: InsnKind::OpImm(AluOp::And) });
    ds.push(Decoder { code: 0x1013, mask: 0xfc00707f, kind: InsnKind::OpImm(AluOp::Sll) });
    ds.push(Decoder { code: 0x5013, mask: 0xfc00707f, kind: InsnKind::OpImm(AluOp::Srl) });
    ds.push(Decoder { code: 0x40005013, mask: 0xfc00707f, kind: InsnKind::OpImm(AluOp::Sra) });
    ds.push(Decoder { code: 0x33, mask: 0xfe00707f, kind: InsnKind::Op(AluOp::Add) });
    ds.push(Decoder { code: 0x40000033, mask: 0xfe00707f, kind: InsnKind::Op(AluOp::Sub) });
    ds.push(Decoder { code: 0x1033, mask: 0xfe00707f, kind: InsnKind::Op(AluOp::Sll) });
    ds.push(Decoder { code: 0x2033, mask: 0xfe00707f, kind: InsnKind::Op(AluOp::Slt) });
    ds.push(Decoder { code: 0x3033, mask: 0xfe00707f, kind: InsnKind::Op(AluOp::Sltu) });
    ds.push(Decoder { code: 0x4033, mask: 0xfe00707f, kind: InsnKind::Op(AluOp::Xor) });
    ds.push(Decoder { code: 0x5033, mask: 0xfe00707f, kind: InsnKind::Op(AluOp::Srl) });
    ds.push(Decoder { code: 0x40005033, mask: 0xfe00707f, kind: InsnKind::Op(AluOp::Sra) });
    ds.push(Decoder { code: 0x6033, mask: 0xfe00707f, kind: InsnKind::Op(AluOp::Or) });
    ds.push(Decoder { code: 0x7033, mask: 0xfe00707f, kind: InsnKind::Op(AluOp::And) });
    ds.push(Decoder { code: 0x1b, mask: 0x707f, kind: InsnKind::OpImm32(AluOp::Add) });
    ds.push(Decoder { code: 0x101b, mask: 0xfe00707f, kind: InsnKind::OpImm32(AluOp::Sll) });
    ds.push(Decoder { code: 0x501b, mask: 0xfe00707f, kind: InsnKind::OpImm32(AluOp::Srl) });
    ds.push(Decoder { code: 0x4000501b, mask: 0xfe00707f, kind: InsnKind::OpImm32(AluOp::Sra) });
    ds.push(Decoder { code: 0x3b, mask: 0xfe00707f, kind: InsnKind::Op32(AluOp::Add) });
    ds.push(Decoder { code: 0x4000003b, mask: 0xfe00707f, kind: InsnKind::Op32(AluOp::Sub) });
    ds.push(Decoder { code: 0x103b, mask: 0xfe00707f, kind: InsnKind::Op32(AluOp::Sll) });
    ds.push(Decoder { code: 0x503b, mask: 0xfe00707f, kind: InsnKind::Op32(AluOp::Srl) });
    ds.push(Decoder { code: 0x4000503b, mask: 0xfe00707f, kind: InsnKind::Op32(AluOp::Sra) });
    ds.push(Decoder { code: 0x2007, mask: 0x707f, kind: InsnKind::FLoad(4) });
    ds.push(Decoder { code: 0x3007, mask: 0x707f, kind: InsnKind::FLoad(8) });
    ds.push(Decoder { code: 0x2027, mask: 0x707f, kind: InsnKind::FStore(4) });
    ds.push(Decoder { code: 0x3027, mask: 0x707f, kind: InsnKind::FStore(8) });
    assert(ds@ =~= base_patterns());
    ds
}

/// The patterns of the multiply and divide (M) instructions.
pub open spec fn muldiv_patterns() -> Seq<Decoder> {
    seq![
        Decoder { code: 0x2000033, mask: 0xfe00707f, kind: InsnKind::MulDiv(MulOp::Mul) },
        Decoder { code: 0x2001033, mask: 0xfe00707f, kind: InsnKind::MulDiv(MulOp::Mulh) },
        Decoder { code: 0x2002033, mask: 0xfe00707f, kind: InsnKind::MulDiv(MulOp::Mulhsu) },
        Decoder { code: 0x2003033, mask: 0xfe00707f, kind: InsnKind::MulDiv(MulOp::Mulhu) },
        Decoder { code: 0x2004033, mask: 0xfe00707f, kind: InsnKind::MulDiv(MulOp::Div) },
        Decoder { code: 0x2005033, mask: 0xfe00707f, kind: InsnKind::MulDiv(MulOp::Divu) },
        Decoder { code: 0x2006033, mask: 0xfe00707f, kind: InsnKind::MulDiv(MulOp::Rem) },
        Decoder { code: 0x2007033, mask: 0xfe00707f, kind: InsnKind::MulDiv(MulOp::Remu) },
        Decoder { code: 0x200003b, mask: 0xfe00707f, kind: InsnKind::MulDiv32(MulOp::Mul) },
        Decoder { code: 0x200403b, mask: 0xfe00707f, kind: InsnKind::MulDiv32(MulOp::Div) },
        Decoder { code: 0x200503b, mask: 0xfe00707f, kind: InsnKind::MulDiv32(MulOp::Divu) },
        Decoder { code: 0x200603b, mask: 0xfe00707f, kind: InsnKind::MulDiv32(MulOp::Rem) },
        Decoder { code: 0x200703b, mask: 0xfe00707f, kind: InsnKind::MulDiv32(MulOp::Remu) },
    ]
}

fn muldiv_decoders() -> (r: Vec<Decoder>)
    ensures
        r@ == muldiv_patterns(),
{
    let mut ds: Vec<Decoder> = Vec::new();
    ds.push(Decoder { code: 0x2000033, mask: 0xfe00707f, kind: InsnKind::MulDiv(MulOp::Mul) });
    ds.push(Decoder { code: 0x2001033, mask: 0xfe00707f, kind: InsnKind::MulDiv(MulOp::Mulh) });
    ds.push(Decoder { code: 0x2002033, mask: 0xfe00707f, kind: InsnKind::MulDiv(MulOp::Mulhsu) });
    ds.push(Decoder { code: 0x2003033, mask: 0xfe00707f, kind: InsnKind::MulDiv(MulOp::Mulhu) });
    ds.push(Decoder { code: 0x2004033, mask: 0xfe00707f, kind: InsnKind::MulDiv(MulOp::Div) });
    ds.push(Decoder { code: 0x2005033, mask: 0xfe00707f, kind: InsnKind::MulDiv(MulOp::Divu) });
    ds.push(Decoder { code: 0x2006033, mask: 0xfe00707f, kind: InsnKind::MulDiv(MulOp::Rem) });
    ds.push(Decoder { code: 0x2007033, mask: 0xfe00707f, kind: InsnKind::MulDiv(MulOp::Remu) });
    ds.push(Decoder { code: 0x200003b, mask: 0xfe00707f, kind: InsnKind::MulDiv32(MulOp::Mul) });
    ds.push(Decoder { code: 0x200403b, mask: 0xfe00707f, kind: InsnKind::MulDiv32(MulOp::Div) });
    ds.push(Decoder { code: 0x200503b, mask: 0xfe00707f, kind: InsnKind::MulDiv32(MulOp::Divu) });
    ds.push(Decoder { code: 0x200603b, mask: 0xfe00707f, kind: InsnKind::MulDiv32(MulOp::Rem) });
    ds.push(Decoder { code: 0x200703b, mask: 0xfe00707f, kind: InsnKind::MulDiv32(MulOp::Remu) });
    assert(ds@ =~= muldiv_patterns());
    ds
}

/// The patterns of the atomic (A) instructions.
pub open spec fn atomic_patterns() -> Seq<Decoder> {
    seq![
        Decoder { code: 0x1000202f, mask: 0xf9f0707f, kind: InsnKind::Lr(4) },
        Decoder { code: 0x1800202f, mask: 0xf800707f, kind: InsnKind::Sc(4) },
        Decoder { code: 0x202f, mask: 0xf800707f, kind: InsnKind::Amo(AmoOp::Add, 4) },
        Decoder { code: 0x800202f, mask: 0xf800707f, kind: InsnKind::Amo(AmoOp::Swap, 4) },
        Decoder { code: 0x2000202f, mask: 0xf800707f, kind: InsnKind::Amo(AmoOp::Xor, 4) },
        Decoder { code: 0x4000202f, mask: 0xf800707f, kind: InsnKind::Amo(AmoOp::Or, 4) },
        Decoder { code: 0x6000202f, mask: 0xf800707f, kind: InsnKind::Amo(AmoOp::And, 4) },
        Decoder { code: 0x8000202f, mask: 0xf800707f, kind: InsnKind::Amo(AmoOp::Min, 4) },
        Decoder { code: 0xa000202f, mask: 0xf800707f, kind: InsnKind::Amo(AmoOp::Max, 4) },
        Decoder { code: 0xc000202f, mask: 0xf800707f, kind: InsnKind::Amo(AmoOp::Minu, 4) },
        Decoder { code: 0xe000202f, mask: 0xf800707f, kind: InsnKind::Amo(AmoOp::Maxu, 4) },
        Decoder { code: 0x1000302f, mask: 0xf9f0707f, kind: InsnKind::Lr(8) },
        Decoder { code: 0x1800302f, mask: 0xf800707f, kind: InsnKind::Sc(8) },
        Decoder { code: 0x302f, mask: 0xf800707f, kind: InsnKind::Amo(AmoOp::Add, 8) },
        Decoder { code: 0x800302f, mask: 0xf800707f, kind: InsnKind::Amo(AmoOp::Swap, 8) },
        Decoder { code: 0x2000302f, mask: 0xf800707f, kind: InsnKind::Amo(AmoOp::Xor, 8) },
        Decoder { code: 0x4000302f, mask: 0xf800707f, kind: InsnKind::Amo(AmoOp::Or, 8) },
        Decoder { code: 0x6000302f, mask: 0xf800707f, kind: InsnKind::Amo(AmoOp::And, 8) },
        Decoder { code: 0x8000302f, mask: 0xf800707f, kind: InsnKind::Amo(AmoOp::Min, 8) },
        Decoder { code: 0xa000302f, mask: 0xf800707f, kind: InsnKind::Amo(AmoOp::Max, 8) },
        Decoder { code: 0xc000302f, mask: 0xf800707f, kind: InsnKind::Amo(AmoOp::Minu, 8) },
        Decoder { code: 0xe000302f, mask: 0xf800707f, kind: InsnKind::Amo(AmoOp::Maxu, 8) },
    ]
}

fn atomic_decoders() -> (r: Vec<Decoder>)
    ensures
        r@ == atomic_patterns(),
{
    let mut ds: Vec<Decoder> = Vec::new();
    ds.push(Decoder { code: 0x1000202f, mask: 0xf9f0707f, kind: InsnKind::Lr(4) });
    ds.push(Decoder { code: 0x1800202f, mask: 0xf800707f, kind: InsnKind::Sc(4) });
    ds.push(Decoder { code: 0x202f, mask: 0xf800707f, kind: InsnKind::Amo(AmoOp::Add, 4) });
    ds.push(Decoder { code: 0x800202f, mask: 0xf800707f, kind: InsnKind::Amo(AmoOp::Swap, 4) });
    ds.push(Decoder { code: 0x2000202f, mask: 0xf800707f, kind: InsnKind::Amo(AmoOp::Xor, 4) });
    ds.push(Decoder { code: 0x4000202f, mask: 0xf800707f, kind: InsnKind::Amo(AmoOp::Or, 4) });
    ds.push(Decoder { code: 0x6000202f, mask: 0xf800707f, kind: InsnKind::Amo(AmoOp::And, 4) });
    ds.push(Decoder { code: 0x8000202f, mask: 0xf800707f, kind: InsnKind::Amo(AmoOp::Min, 4) });
    ds.push(Decoder { code: 0xa000202f, mask: 0xf800707f, kind: InsnKind::Amo(AmoOp::Max, 4) });
    ds.push(Decoder { code: 0xc000202f, mask: 0xf800707f, kind: InsnKind::Amo(AmoOp::Minu, 4) });
    ds.push(Decoder { code: 0xe000202f, mask: 0xf800707f, kind: InsnKind::Amo(AmoOp::Maxu, 4) });
    ds.push(Decoder { code: 0x1000302f, mask: 0xf9f0707f, kind: InsnKind::Lr(8) });
    ds.push(Decoder { code: 0x1800302f, mask: 0xf800707f, kind: InsnKind::Sc(8) });
    ds.push(Decoder { code: 0x302f, mask: 0xf800707f, kind: InsnKind::Amo(AmoOp::Add, 8) });
    ds.push(Decoder { code: 0x800302f, mask: 0xf800707f, kind: InsnKind::Amo(AmoOp::Swap, 8) });
    ds.push(Decoder { code: 0x2000302f, mask: 0xf800707f, kind: InsnKind::Amo(AmoOp::Xor, 8) });
    ds.push(Decoder { code: 0x4000302f, mask: 0xf800707f, kind: InsnKind::Amo(AmoOp::Or, 8) });
    ds.push(Decoder { code: 0x6000302f, mask: 0xf800707f, kind: InsnKind::Amo(AmoOp::And, 8) });
    ds.push(Decoder { code: 0x8000302f, mask: 0xf800707f, kind: InsnKind::Amo(AmoOp::Min, 8) });
    ds.push(Decoder { code: 0xa000302f, mask: 0xf800707f, kind: InsnKind::Amo(AmoOp::Max, 8) });
    ds.push(Decoder { code: 0xc000302f, mask: 0xf800707f, kind: InsnKind::Amo(AmoOp::Minu, 8) });
    ds.push(Decoder { code: 0xe000302f, mask: 0xf800707f, kind: InsnKind::Amo(AmoOp::Maxu, 8) });
    assert(ds@ =~= atomic_patterns());
    ds
}

/// The patterns of the instructions that this simulator implements.
pub open spec fn standard_patterns() -> Seq<Decoder> {
    compressed_patterns() + system_patterns() + base_patterns() + muldiv_patterns() + atomic_patterns()
}

pub fn standard_decoders() -> (r: Vec<Decoder>)
    ensures
        r@ == standard_patterns(),
{
    let mut ds = compressed_decoders();
    let mut system = system_decoders();
    let mut base = base_decoders();
    let mut muldiv = muldiv_decoders();
    ds.append(&mut system);
    ds.append(&mut base);
    let mut atomic = atomic_decoders();
    ds.append(&mut muldiv);
    ds.append(&mut atomic);
    ds
}

impl InsnMap {
    /// Registers `ds` in order and locks the registry; fails at the first pattern that overlaps
    /// an earlier one.
    pub fn from_decoders(ds: &Vec<Decoder>) -> (r: Result<InsnMap, RegisterError>)
        ensures
            r matches Ok(m) ==> m.wf() && m.locked && m.decoders@ == ds@,
            r is Err ==> exists|i: int, j: int| 0 <= i < j < ds@.len() && overlap(#[trigger] ds@[i], #[trigger] ds@[j]),
    {
        let mut m = InsnMap::new();
        let mut i: usize = 0;
        while i < ds.len()
            invariant
                i <= ds@.len(),
                m.wf(),
                !m.locked,
                m.decoders@ == ds@.subrange(0, i as int),
            decreases ds@.len() - i,
        {
            match m.registery(ds[i]) {
                Ok(()) => {},
                Err(e) => {
                    proof {
                        if let RegisterError::Overlap(j) = e {
                            assert(m.decoders@[j as int] == ds@[j as int]);
                            assert(overlap(ds@[j as int], ds@[i as int]));
                        }
                    }
                    return Err(e);
                },
            }
            assert(m.decoders@ =~= ds@.subrange(0, i + 1));
            i = i + 1;
        }
        assert(m.decoders@ =~= ds@);
        m.lock();
        Ok(m)
    }

    /// The registry of every instruction that this simulator implements.
    pub fn standard() -> (r: Result<InsnMap, RegisterError>)
        ensures
            r matches Ok(m) ==> m.wf() && m.locked && m.decoders@ == standard_patterns(),
            r is Err ==> exists|i: int, j: int| 0 <= i < j < standard_patterns().len() && overlap(
                #[trigger] standard_patterns()[i], #[trigger] standard_patterns()[j]),
    {
        InsnMap::from_decoders(&standard_decoders())
    }
}

} // verus!
