//! Processor features that the `cpuid` instruction reports in `edx`.
use vstd::prelude::*;

verus! {

/// Features of leaf 1's `edx` register; each stands for one bit.
#[allow(non_camel_case_types, clippy::upper_case_acronyms)]
#[derive(PartialEq, Eq, Structural, Clone, Copy, Debug)]
pub enum CpuidFeatureEdx {
    FPU,
    VME,
    DE,
    PSE,
    TSC,
    MSR,
    PAE,
    MCE,
    CX8,
    APIC,
    SEP,
    MTRR,
    PGE,
    MCA,
    CMOV,
    PAT,
    PSE36,
    PSN,
    CLFLUSH,
    DS,
    ACPI,
    MMX,
    FXSR,
    SSE,
    SSE2,
    SS,
    HTT,
    TM,
    IA64,
    PBE,
}

/// The feature that bit `bit` of `edx` reports; bits 10 and 20 are
/// reserved.
pub open spec fn feature_of_bit_spec(bit: u32) -> Option<CpuidFeatureEdx> {
    if bit == 0 {
        Some(CpuidFeatureEdx::FPU)
    } else if bit == 1 {
        Some(CpuidFeatureEdx::VME)
    } else if bit == 2 {
        Some(CpuidFeatureEdx::DE)
    } else if bit == 3 {
        Some(CpuidFeatureEdx::PSE)
    } else if bit == 4 {
        Some(CpuidFeatureEdx::TSC)
    } else if bit == 5 {
        Some(CpuidFeatureEdx::MSR)
    } else if bit == 6 {
        Some(CpuidFeatureEdx::PAE)
    } else if bit == 7 {
        Some(CpuidFeatureEdx::MCE)
    } else if bit == 8 {
        Some(CpuidFeatureEdx::CX8)
    } else if bit == 9 {
        Some(CpuidFeatureEdx::APIC)
    } else if bit == 11 {
        Some(CpuidFeatureEdx::SEP)
    } else if bit == 12 {
        Some(CpuidFeatureEdx::MTRR)
    } else if bit == 13 {
        Some(CpuidFeatureEdx::PGE)
    } else if bit == 14 {
        Some(CpuidFeatureEdx::MCA)
    } else if bit == 15 {
        Some(CpuidFeatureEdx::CMOV)
    } else if bit == 16 {
        Some(CpuidFeatureEdx::PAT)
    } else if bit == 17 {
        Some(CpuidFeatureEdx::PSE36)
    } else if bit == 18 {
        Some(CpuidFeatureEdx::PSN)
    } else if bit == 19 {
        Some(CpuidFeatureEdx::CLFLUSH)
    } else if bit == 21 {
        Some(CpuidFeatureEdx::DS)
    } else if bit == 22 {
        Some(CpuidFeatureEdx::ACPI)
    } else if bit == 23 {
        Some(CpuidFeatureEdx::MMX)
    } else if bit == 24 {
        Some(CpuidFeatureEdx::FXSR)
    } else if bit == 25 {
        Some(CpuidFeatureEdx::SSE)
    } else if bit == 26 {
        Some(CpuidFeatureEdx::SSE2)
    } else if bit == 27 {
        Some(CpuidFeatureEdx::SS)
    } else if bit == 28 {
        Some(CpuidFeatureEdx::HTT)
    } else if bit == 29 {
        Some(CpuidFeatureEdx::TM)
    } else if bit == 30 {
        Some(CpuidFeatureEdx::IA64)
    } else if bit == 31 {
        Some(CpuidFeatureEdx::PBE)
    } else {
        None
    }
}

/// The feature that bit `bit` of `edx` reports, if the bit has one.
pub fn feature_of_bit(bit: u32) -> (r: Option<CpuidFeatureEdx>)
    ensures
        r == feature_of_bit_spec(bit),
{
    if bit == 0 {
        Some(CpuidFeatureEdx::FPU)
    } else if bit == 1 {
        Some(CpuidFeatureEdx::VME)
    } else if bit == 2 {
        Some(CpuidFeatureEdx::DE)
    } else if bit == 3 {
        Some(CpuidFeatureEdx::PSE)
    } else if bit == 4 {
        Some(CpuidFeatureEdx::TSC)
    } else if bit == 5 {
        Some(CpuidFeatureEdx::MSR)
    } else if bit == 6 {
        Some(CpuidFeatureEdx::PAE)
    } else if bit == 7 {
        Some(CpuidFeatureEdx::MCE)
    } else if bit == 8 {
        Some(CpuidFeatureEdx::CX8)
    } else if bit == 9 {
        Some(CpuidFeatureEdx::APIC)
    } else if bit == 11 {
        Some(CpuidFeatureEdx::SEP)
    } else if bit == 12 {
        Some(CpuidFeatureEdx::MTRR)
    } else if bit == 13 {
        Some(CpuidFeatureEdx::PGE)
    } else if bit == 14 {
        Some(CpuidFeatureEdx::MCA)
    } else if bit == 15 {
        Some(CpuidFeatureEdx::CMOV)
    } else if bit == 16 {
        Some(CpuidFeatureEdx::PAT)
    } else if bit == 17 {
        Some(CpuidFeatureEdx::PSE36)
    } else if bit == 18 {
        Some(CpuidFeatureEdx::PSN)
    } else if bit == 19 {
        Some(CpuidFeatureEdx::CLFLUSH)
    } else if bit == 21 {
        Some(CpuidFeatureEdx::DS)
    } else if bit == 22 {
        Some(CpuidFeatureEdx::ACPI)
    } else if bit == 23 {
        Some(CpuidFeatureEdx::MMX)
    } else if bit == 24 {
        Some(CpuidFeatureEdx::FXSR)
    } else if bit == 25 {
        Some(CpuidFeatureEdx::SSE)
    } else if bit == 26 {
        Some(CpuidFeatureEdx::SSE2)
    } else if bit == 27 {
        Some(CpuidFeatureEdx::SS)
    } else if bit == 28 {
        Some(CpuidFeatureEdx::HTT)
    } else if bit == 29 {
        Some(CpuidFeatureEdx::TM)
    } else if bit == 30 {
        Some(CpuidFeatureEdx::IA64)
    } else if bit == 31 {
        Some(CpuidFeatureEdx::PBE)
    } else {
        None
    }
}

/// Whether bit `bit` of `edx` is set.
pub open spec fn bit_set(edx: u32, bit: u32) -> bool {
    (edx >> bit) & 1 != 0
}

/// The features among the lowest `n` bits of `edx`, lowest bit first.
pub open spec fn features_below(edx: u32, n: nat) -> Seq<CpuidFeatureEdx>
    decreases n,
{
    if n == 0 {
        Seq::empty()
    } else {
        let rest = features_below(edx, (n - 1) as nat);
        match feature_of_bit_spec((n - 1) as u32) {
            Some(f) => if bit_set(edx, (n - 1) as u32) {
                rest.push(f)
            } else {
                rest
            },
            None => rest,
        }
    }
}

/// The features that `edx` reports, lowest bit first.
pub fn features_from_edx(edx: u32) -> (r: Vec<CpuidFeatureEdx>)
    ensures
        r@ == features_below(edx, 32),
{
    let mut features: Vec<CpuidFeatureEdx> = Vec::new();
    let mut i: u32 = 0;
    while i < 32
        invariant
            i <= 32,
            features@ == features_below(edx, i as nat),
        decreases 32 - i,
    {
        let feature = (edx >> i) & 1;
        if feature != 0 {
            match feature_of_bit(i) {
                Some(f) => features.push(f),
                None => {},
            }
        }
        i = i + 1;
    }
    features
}

/// The four bytes of a register, lowest first.
pub open spec fn le_bytes(reg: u32) -> Seq<u8> {
    seq![
        (reg & 0xFF) as u8,
        ((reg >> 8) & 0xFF) as u8,
        ((reg >> 16) & 0xFF) as u8,
        ((reg >> 24) & 0xFF) as u8,
    ]
}

/// The twelve bytes of the vendor string that leaf 0 leaves in `ebx`,
/// `edx` and `ecx`, in that order.
pub fn vendor_id(b: u32, d: u32, c: u32) -> (r: Vec<u8>)
    ensures
        r@ == le_bytes(b) + le_bytes(d) + le_bytes(c),
{
    let mut r: Vec<u8> = Vec::new();
    push_reg(&mut r, b);
    push_reg(&mut r, d);
    push_reg(&mut r, c);
    assert(r@ =~= le_bytes(b) + le_bytes(d) + le_bytes(c));
    r
}

fn push_reg(v: &mut Vec<u8>, reg: u32)
    ensures
        final(v)@ == old(v)@ + le_bytes(reg),
{
    v.push(#[verifier::truncate] ((reg & 0xFF) as u8));
    v.push(#[verifier::truncate] (((reg >> 8) & 0xFF) as u8));
    v.push(#[verifier::truncate] (((reg >> 16) & 0xFF) as u8));
    v.push(#[verifier::truncate] (((reg >> 24) & 0xFF) as u8));
    assert(v@ =~= old(v)@ + le_bytes(reg));
}

} // verus!
