//! A RISC-V instruction-set simulator core: decoder registry, CSR file, MMU, fetcher with an
//! instruction cache, load/store unit, instruction semantics and trap delivery, each verified
//! against its contract.
use vstd::prelude::*;

pub mod bits;
pub mod bus;
pub mod config;
pub mod csr;
pub mod decode;
pub mod fetcher;
pub mod icache;
pub mod insns;
pub mod laws;
pub mod load_store;
pub mod machine;
pub mod mmu;
pub mod muldiv;
pub mod processor;
pub mod semantics;
pub mod state;
pub mod system;
pub mod timer;
pub mod trap;

verus! {

} // verus!
