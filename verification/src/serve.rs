//! What the services of the imported symbols have in common.

use vstd::prelude::*;

use crate::call::{Outcome, Reply};
use crate::cpu::CpuView;
use crate::mem::{Fault, MemView};
use crate::os::{OsOut, OsReply, OsView};

verus! {

/// A service that returns to its caller with a value.
pub open spec fn outcome_of(r: Result<u64, Fault>) -> Result<Outcome, Fault> {
    match r {
        Ok(v) => Ok(Outcome::Return(v)),
        Err(f) => Err(f),
    }
}

/// Return to the caller with a value.
pub fn returning(r: Result<u64, Fault>) -> (o: Result<Outcome, Fault>)
    ensures
        o == outcome_of(r),
{
    match r {
        Ok(v) => Ok(Outcome::Return(v)),
        Err(f) => Err(f),
    }
}

/// A service that changed memory alone.
pub open spec fn replied(v: OsView, c: CpuView, reply: Reply) -> OsOut {
    OsOut { os: v, cpu: c, mem: reply.mem, r: outcome_of(reply.r) }
}

/// A service that changed no register.
pub open spec fn replied_os(c: CpuView, o: OsReply) -> OsOut {
    OsOut { os: o.os, cpu: c, mem: o.mem, r: outcome_of(o.r) }
}

/// A service that answers with a value.
pub open spec fn answered(v: OsView, c: CpuView, m: MemView, x: u64) -> OsOut {
    OsOut { os: v, cpu: c, mem: m, r: Ok(Outcome::Return(x)) }
}

/// A service that could not read its arguments.
pub open spec fn failed(v: OsView, c: CpuView, m: MemView, f: Fault) -> OsOut {
    OsOut { os: v, cpu: c, mem: m, r: Err(f) }
}

/// A service that ends the process.
pub open spec fn exited(v: OsView, c: CpuView, m: MemView, code: i32) -> OsOut {
    OsOut { os: v, cpu: c, mem: m, r: Ok(Outcome::Exit(code)) }
}

} // verus!
