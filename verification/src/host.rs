//! The host variant: which of the two supported numerical environments the
//! binding targets. The choice is made once, from explicit configuration or
//! probing, and fixes the width of the size type every foreign call uses
//! for dimensions and counts. Conversions into that size type are checked
//! at the width boundary, never truncated.

use vstd::prelude::*;

verus! {

/// The two supported host environments.
#[derive(Clone, Copy, Debug, PartialEq, Eq, Structural)]
pub enum HostVariant {
    Matlab,
    Octave,
}

/// Why no host could be selected.
#[derive(Clone, Copy, Debug, PartialEq, Eq, Structural)]
pub enum HostError {
    BothConfigured,
    NoneFound,
}

/// The largest value the variant's native size type holds: one host uses a
/// fixed 32-bit size type, the other the platform's pointer-width one.
pub open spec fn spec_size_max(v: HostVariant) -> nat {
    match v {
        HostVariant::Matlab => usize::MAX as nat,
        HostVariant::Octave => u32::MAX as nat,
    }
}

/// Executable form of `spec_size_max`.
pub fn size_max(v: HostVariant) -> (m: u64)
    ensures
        m as nat == spec_size_max(v),
{
    match v {
        HostVariant::Matlab => usize::MAX as u64,
        HostVariant::Octave => u32::MAX as u64,
    }
}

/// Convert one size into the variant's native size type: the same value
/// when it fits the width, and nothing when it does not.
pub fn to_host_size(v: HostVariant, n: usize) -> (r: Option<u64>)
    ensures
        n as nat <= spec_size_max(v) ==> r == Some(n as u64),
        n as nat > spec_size_max(v) ==> r is None,
{
    let m = size_max(v);
    if n as u64 <= m {
        Some(n as u64)
    } else {
        None
    }
}

/// Convert a dimension sequence into the variant's native size type:
/// every extent unchanged when all fit the width, and nothing as soon as
/// one does not.
pub fn dims_to_host(v: HostVariant, dims: &Vec<usize>) -> (r: Option<Vec<u64>>)
    ensures
        match r {
            Some(out) => out@.len() == dims@.len() && (forall|i: int|
                0 <= i < dims@.len() ==> out@[i] == dims@[i]) && (forall|i: int|
                0 <= i < dims@.len() ==> dims@[i] as nat <= spec_size_max(v)),
            None => exists|i: int| 0 <= i < dims@.len() && dims@[i] as nat > spec_size_max(v),
        },
{
    let n = dims.len();
    let mut out: Vec<u64> = Vec::new();
    let mut i: usize = 0;
    while i < n
        invariant
            0 <= i <= n,
            n == dims@.len(),
            out@.len() == i,
            forall|k: int| 0 <= k < i ==> out@[k] == dims@[k],
            forall|k: int| 0 <= k < i ==> dims@[k] as nat <= spec_size_max(v),
        decreases n - i,
    {
        match to_host_size(v, dims[i]) {
            Some(x) => {
                out.push(x);
            },
            None => {
                return None;
            },
        }
        i = i + 1;
    }
    Some(out)
}

/// Select the host variant and its library search path, as the build-time
/// resolver decides it: an explicit setting for exactly one variant wins;
/// both set is a conflict; with neither set, a probe result is taken as
/// found; and with nothing found at all, selection fails.
pub fn select_host(
    matlab_path: Option<String>,
    octave_path: Option<String>,
    probed: Option<(HostVariant, String)>,
) -> (r: Result<(HostVariant, String), HostError>)
    ensures
        matlab_path is Some && octave_path is Some ==> r == Err::<(HostVariant, String),
        HostError>(HostError::BothConfigured),
        matlab_path is Some && octave_path is None ==> (r matches Ok(p) && p.0
            == HostVariant::Matlab && p.1 == matlab_path.unwrap()),
        matlab_path is None && octave_path is Some ==> (r matches Ok(p) && p.0
            == HostVariant::Octave && p.1 == octave_path.unwrap()),
        matlab_path is None && octave_path is None && probed is Some ==> (r matches Ok(p) && p
            == probed.unwrap()),
        matlab_path is None && octave_path is None && probed is None ==> r == Err::<(
            HostVariant,
            String,
        ), HostError>(HostError::NoneFound),
{
    match (matlab_path, octave_path) {
        (Some(_), Some(_)) => Err(HostError::BothConfigured),
        (Some(p), None) => Ok((HostVariant::Matlab, p)),
        (None, Some(p)) => Ok((HostVariant::Octave, p)),
        (None, None) => match probed {
            Some(pr) => Ok(pr),
            None => Err(HostError::NoneFound),
        },
    }
}

} // verus!
