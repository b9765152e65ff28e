use vstd::prelude::*;
use vstd::string::StringExecFns;

verus! {

/// A reference to a process: the symbolic `self`, or a process id.
#[derive(Clone, Copy)]
pub enum ProcRef {
    /// `/proc/self`, the process that reads.
    ProcSelf,
    ProcId(usize),
}

/// The character of the decimal digit `d`.
pub open spec fn digit_char(d: nat) -> char
    recommends
        d < 10,
{
    seq!['0', '1', '2', '3', '4', '5', '6', '7', '8', '9'][d as int]
}

/// `n` written in decimal digits, without leading zeros.
pub open spec fn decimal(n: nat) -> Seq<char>
    decreases n,
{
    if n < 10 {
        seq![digit_char(n)]
    } else {
        decimal(n / 10) + seq![digit_char(n % 10)]
    }
}

/// The path of the status pseudo-file of the process `r`.
pub open spec fn status_path_of(r: ProcRef) -> Seq<char> {
    match r {
        ProcRef::ProcSelf => "/proc/self/status"@,
        ProcRef::ProcId(id) => "/proc/"@ + decimal(id as nat) + "/status"@,
    }
}

/// Relies on `<usize as ToString>::to_string` (through `Display`): the
/// decimal digits of `n`, without sign or leading zeros.
#[verifier::external_body]
fn usize_decimal(n: usize) -> (r: String)
    ensures
        r@ == decimal(n as nat),
{
    n.to_string()
}

impl ProcRef {
    /// The path of the process's status pseudo-file: `/proc/self/status`
    /// or `/proc/<id>/status`.
    pub fn status_path(&self) -> (r: String)
        ensures
            r@ == status_path_of(*self),
    {
        match self {
            ProcRef::ProcSelf => "/proc/self/status".to_owned(),
            ProcRef::ProcId(id) => {
                let digits = usize_decimal(*id);
                let mut path = "/proc/".to_owned();
                path.append(digits.as_str());
                path.append("/status");
                path
            },
        }
    }
}

} // verus!
