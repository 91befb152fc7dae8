//! What the ACPI tables say of the kind of machine.

use vstd::prelude::*;

verus! {

/// The kind of machine, by the power profile that its firmware names.
#[derive(Debug, Clone, Copy, PartialEq, Eq, Structural)]
pub enum PlatformType {
    Unspecified,
    Desktop,
    Mobile,
    Workstation,
    EnterpriseServer,
    SohoServer,
    AppliancePc,
    PerformanceServer,
    Tablet,
}

impl PlatformType {
    /// The kind of machine for the number of a preferred power management
    /// profile, as the fixed ACPI description table holds it. A number
    /// that is reserved stands for no kind in particular.
    pub fn from_profile(profile: u8) -> (platform: Self)
        ensures
            platform == match profile {
                1 => PlatformType::Desktop,
                2 => PlatformType::Mobile,
                3 => PlatformType::Workstation,
                4 => PlatformType::EnterpriseServer,
                5 => PlatformType::SohoServer,
                6 => PlatformType::AppliancePc,
                7 => PlatformType::PerformanceServer,
                8 => PlatformType::Tablet,
                _ => PlatformType::Unspecified,
            },
    {
        match profile {
            1 => PlatformType::Desktop,
            2 => PlatformType::Mobile,
            3 => PlatformType::Workstation,
            4 => PlatformType::EnterpriseServer,
            5 => PlatformType::SohoServer,
            6 => PlatformType::AppliancePc,
            7 => PlatformType::PerformanceServer,
            8 => PlatformType::Tablet,
            _ => PlatformType::Unspecified,
        }
    }
}

/// The value that is written to the power management control register to
/// switch the machine off: the sleep type, and bit 13, which puts it into
/// effect.
pub fn shutdown_command(sleep_type: u16) -> (command: u16)
    ensures
        command == sleep_type | 0x2000,
{
    assert(1u16 << 13 == 0x2000) by (bit_vector);
    sleep_type | (1u16 << 13)
}

/// The sleep type that is tried where the tables name none: type 5, in
/// bits 10 to 12.
pub fn fallback_sleep_type() -> (sleep_type: u16)
    ensures
        sleep_type == 5 * 1024,
{
    assert((5u16 & 7) << 10 == 5 * 1024) by (bit_vector);
    (5 & 7) << 10
}

} // verus!
