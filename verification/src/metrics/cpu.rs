//! Load averages of the processor.

use crate::text::{chars_of, fields, run_end, CharClass};
use vstd::prelude::*;
use vstd::string::*;

verus! {

/// Why the load averages could not be had.
#[derive(Debug)]
pub enum CpuError {
    /// The system answered with something that holds no load averages.
    GetMetrics(String),
    /// The system's control interface failed.
    CtlError,
    /// Reading failed; the text says how.
    IO(String),
    /// A load average was no number; the text says why.
    ParseError(String),
}

impl CpuError {
    /// The text of the error as it is shown to the user.
    pub fn to_string(&self) -> (s: String)
        ensures
            s@ == match *self {
                CpuError::CtlError => "CtlError"@,
                CpuError::GetMetrics(m) => m@,
                CpuError::IO(m) => m@,
                CpuError::ParseError(m) => m@,
            },
    {
        match self {
            CpuError::CtlError => String::from_str("CtlError"),
            CpuError::GetMetrics(m) => m.clone(),
            CpuError::IO(m) => m.clone(),
            CpuError::ParseError(m) => m.clone(),
        }
    }
}

/// The load averages over one, five and fifteen minutes. Each is held as the
/// bit pattern of a single-precision number and is handed on as it came.
#[derive(Clone, Copy, Debug, PartialEq, Eq, Structural)]
pub struct CPUMetrics {
    pub m1: u32,
    pub m5: u32,
    pub m15: u32,
}

/// How many load averages the system reports.
pub const LOADS: usize = 3;

/// The texts of the load averages in what the system reports of its load: the
/// first pieces between single spaces, `LOADS` of them at most.
pub fn load_fields(text: &str) -> (r: Vec<String>)
    ensures
        r.len() == if fields(text@).len() < LOADS {
            fields(text@).len()
        } else {
            LOADS as nat
        },
        forall|k: int| 0 <= k < r.len() ==> (#[trigger] r[k])@ == fields(text@)[k],
{
    let v = chars_of(text);
    let mut r: Vec<String> = Vec::new();
    let mut i: usize = 0;
    let ghost mut found: Seq<Seq<char>> = Seq::empty();
    proof {
        assert(v@.skip(0) == v@);
    }
    while r.len() < LOADS
        invariant_except_break
            found + fields(v@.skip(i as int)) == fields(v@),
        invariant
            i <= v.len(),
            v@ == text@,
            r.len() == found.len(),
            r.len() <= LOADS,
            forall|k: int| 0 <= k < r.len() ==> (#[trigger] r[k])@ == found[k],
        ensures
            found.len() <= fields(v@).len(),
            forall|k: int| 0 <= k < found.len() ==> found[k] == fields(v@)[k],
            r.len() == LOADS || found == fields(v@),
        decreases LOADS - r.len(),
    {
        let e = run_end(&v, i, CharClass::Unspaced);
        let ghost tail = v@.skip(i as int);
        let ghost piece = v@.subrange(i as int, e as int);
        r.push(String::from_str(text.substring_char(i, e)));
        if e < v.len() {
            proof {
                assert(tail.take(e - i) == piece);
                assert(tail.skip(e - i + 1) == v@.skip(e + 1));
                assert(found.push(piece) + fields(v@.skip(e + 1)) == found + (seq![piece] + fields(
                    v@.skip(e + 1),
                )));
                found = found.push(piece);
            }
            i = e + 1;
        } else {
            proof {
                assert(tail == piece);
                assert(found.push(piece) == found + seq![piece]);
                found = found.push(piece);
            }
            break ;
        }
    }
    r
}

/// What is said of a report that holds fewer load averages than `LOADS`.
pub open spec fn too_few_loads() -> Seq<char> {
    "fewer than three load averages"@
}

/// The load averages out of the numbers that the system reported, each as
/// its bit pattern: the first `LOADS` of them, over one, five and fifteen
/// minutes. Fewer numbers are refused.
pub fn load_averages(bits: &Vec<u32>) -> (r: Result<CPUMetrics, CpuError>)
    ensures
        match r {
            Ok(m) => bits@.len() >= LOADS && m == (CPUMetrics {
                m1: bits@[0],
                m5: bits@[1],
                m15: bits@[2],
            }),
            Err(e) => {
                &&& bits@.len() < LOADS
                &&& e matches CpuError::GetMetrics(why)
                &&& why@ == too_few_loads()
            },
        },
{
    if bits.len() < LOADS {
        Err(CpuError::GetMetrics(String::from_str("fewer than three load averages")))
    } else {
        Ok(CPUMetrics { m1: bits[0], m5: bits[1], m15: bits[2] })
    }
}

} // verus!
