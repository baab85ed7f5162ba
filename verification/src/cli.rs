//! The command table of the GPU tuning front end and the decisions taken on
//! a parsed invocation: command names and help texts, supported backends,
//! positional arity and named options, invocation validation, and the
//! backend/target selection rules.
use vstd::prelude::*;

use crate::text::{
    chars_of, concat, debug_quote, debug_text, decimal, decimal_chars, eq_chars, eq_str, lower,
    lower_chars, message, res_view, string_from_chars, string_of, strings_view, trim, trim_lower,
};

verus! {

#[derive(Debug, Clone, Copy, PartialEq, Eq, Structural)]
pub enum BackendChoice {
    Auto,
    Nvapi,
    Nvml,
}

#[derive(Debug, Clone, Copy, PartialEq, Eq, Structural)]
pub enum BackendAdapter {
    Nvapi,
    Nvml,
}

#[derive(Debug, Clone, Copy, PartialEq, Eq, Structural)]
pub enum OutputFormat {
    Human,
    Json,
}

#[derive(Debug, Clone, Copy, PartialEq, Eq, Structural)]
pub enum Command {
    ListGpus,
    ListDisplays,
    GetInfo,
    GetUuid,
    GetStatus,
    GetSettings,
    GetVfp,
    GetVfpPointVoltageMv,
    GetPowerWatt,
    GetClockOffsetMhz,
    GetPstates,
    GetSupportedAppClocks,
    GetFanInfo,
    GetTemperatureThresholds,
    GetThrottleReasons,
    GetTdpTempLimits,
    ProbeVoltageLimits,
    CheckVoltageFrequency,
    GetLegacyOvervoltRanges,
    GetLegacyP0CoreMaxVoltageDelta,
    GetPstateBaseVoltageUv,
    GetVoltageBoostPercent,
    GetAutoBoost,
    GetApiRestriction,
    GetEdid,
    SetCoreOffsetMhz,
    SetMemoryOffsetMhz,
    SetClockOffsetMhz,
    SetPowerWatt,
    SetPowerPercent,
    SetThermalLimitC,
    SetFanPercent,
    SetLockedClocksMhz,
    SetVfpVoltageLock,
    SetVfpPointDeltaMhz,
    SetVfpRangeDeltaMhz,
    SetPstateLock,
    SetApplicationsClocksMhz,
    SetPstateBaseVoltageUv,
    SetVoltageBoostPercent,
    SetAutoBoost,
    SetAutoBoostDefault,
    SetApiRestriction,
    SetEdid,
    ClearEdid,
    SetLegacyClocksMhz,
    ResetCoreOffsetMhz,
    ResetMemoryOffsetMhz,
    ResetApplicationsClocks,
    ResetLockedClocks,
    ResetFan,
    ResetVfpDeltas,
    ResetVfpLock,
    ResetPowerPercent,
    ResetThermalLimitC,
    ResetPstateBaseVoltages,
    ResetPstateClockOffsets,
    ResetVoltageBoostPercent,
}

pub open spec fn adapter_label(a: BackendAdapter) -> Seq<char> {
    match a {
        BackendAdapter::Nvapi => "nvapi"@,
        BackendAdapter::Nvml => "nvml"@,
    }
}

impl BackendAdapter {
    pub fn label(self) -> (s: &'static str)
        ensures
            s@ == adapter_label(self),
    {
        match self {
            BackendAdapter::Nvapi => "nvapi",
            BackendAdapter::Nvml => "nvml",
        }
    }
}

/// The command-line name of a command.
pub open spec fn command_name(c: Command) -> Seq<char> {
    match c {
        Command::ListGpus => "list-gpus"@,
        Command::ListDisplays => "list-displays"@,
        Command::GetInfo => "get-info"@,
        Command::GetUuid => "get-uuid"@,
        Command::GetStatus => "get-status"@,
        Command::GetSettings => "get-settings"@,
        Command::GetVfp => "get-vfp"@,
        Command::GetVfpPointVoltageMv => "get-vfp-point-voltage-mv"@,
        Command::GetPowerWatt => "get-power-watt"@,
        Command::GetClockOffsetMhz => "get-clock-offset-mhz"@,
        Command::GetPstates => "get-pstates"@,
        Command::GetSupportedAppClocks => "get-supported-app-clocks"@,
        Command::GetFanInfo => "get-fan-info"@,
        Command::GetTemperatureThresholds => "get-temperature-thresholds"@,
        Command::GetThrottleReasons => "get-throttle-reasons"@,
        Command::GetTdpTempLimits => "get-tdp-temp-limits"@,
        Command::ProbeVoltageLimits => "probe-voltage-limits"@,
        Command::CheckVoltageFrequency => "check-voltage-frequency"@,
        Command::GetLegacyOvervoltRanges => "get-legacy-overvolt-ranges"@,
        Command::GetLegacyP0CoreMaxVoltageDelta => "get-legacy-p0-core-max-voltage-delta"@,
        Command::GetPstateBaseVoltageUv => "get-pstate-base-voltage-uv"@,
        Command::GetVoltageBoostPercent => "get-voltage-boost-percent"@,
        Command::GetAutoBoost => "get-auto-boost"@,
        Command::GetApiRestriction => "get-api-restriction"@,
        Command::GetEdid => "get-edid"@,
        Command::SetCoreOffsetMhz => "set-core-offset-mhz"@,
        Command::SetMemoryOffsetMhz => "set-memory-offset-mhz"@,
        Command::SetClockOffsetMhz => "set-clock-offset-mhz"@,
        Command::SetPowerWatt => "set-power-watt"@,
        Command::SetPowerPercent => "set-power-percent"@,
        Command::SetThermalLimitC => "set-thermal-limit-c"@,
        Command::SetFanPercent => "set-fan-percent"@,
        Command::SetLockedClocksMhz => "set-locked-clocks-mhz"@,
        Command::SetVfpVoltageLock => "set-vfp-voltage-lock"@,
        Command::SetVfpPointDeltaMhz => "set-vfp-point-delta-mhz"@,
        Command::SetVfpRangeDeltaMhz => "set-vfp-range-delta-mhz"@,
        Command::SetPstateLock => "set-pstate-lock"@,
        Command::SetApplicationsClocksMhz => "set-applications-clocks-mhz"@,
        Command::SetPstateBaseVoltageUv => "set-pstate-base-voltage-uv"@,
        Command::SetVoltageBoostPercent => "set-voltage-boost-percent"@,
        Command::SetAutoBoost => "set-auto-boost"@,
        Command::SetAutoBoostDefault => "set-auto-boost-default"@,
        Command::SetApiRestriction => "set-api-restriction"@,
        Command::SetEdid => "set-edid"@,
        Command::ClearEdid => "clear-edid"@,
        Command::SetLegacyClocksMhz => "set-legacy-clocks-mhz"@,
        Command::ResetCoreOffsetMhz => "reset-core-offset-mhz"@,
        Command::ResetMemoryOffsetMhz => "reset-memory-offset-mhz"@,
        Command::ResetApplicationsClocks => "reset-applications-clocks"@,
        Command::ResetLockedClocks => "reset-locked-clocks"@,
        Command::ResetFan => "reset-fan"@,
        Command::ResetVfpDeltas => "reset-vfp-deltas"@,
        Command::ResetVfpLock => "reset-vfp-lock"@,
        Command::ResetPowerPercent => "reset-power-percent"@,
        Command::ResetThermalLimitC => "reset-thermal-limit-c"@,
        Command::ResetPstateBaseVoltages => "reset-pstate-base-voltages"@,
        Command::ResetPstateClockOffsets => "reset-pstate-clock-offsets"@,
        Command::ResetVoltageBoostPercent => "reset-voltage-boost-percent"@,
    }
}

/// The one-line help text of a command.
pub open spec fn command_about(c: Command) -> Seq<char> {
    match c {
        Command::ListGpus => "List discovered GPUs and available backends"@,
        Command::ListDisplays => "List NVAPI display IDs for EDID operations"@,
        Command::GetInfo => "Read NVAPI GPU identity and capability information"@,
        Command::GetUuid => "Read GPU UUID"@,
        Command::GetStatus => "Read NVAPI live GPU status"@,
        Command::GetSettings => "Read NVAPI overclock settings"@,
        Command::GetVfp => "Read V-F curve points"@,
        Command::GetVfpPointVoltageMv => "Read one VFP point voltage in mV"@,
        Command::GetPowerWatt => "Read NVML power limits in watts"@,
        Command::GetClockOffsetMhz => "Read clock offset in MHz"@,
        Command::GetPstates => "Read NVML P-State clock ranges"@,
        Command::GetSupportedAppClocks => "Read NVML supported application clocks"@,
        Command::GetFanInfo => "Read NVML fan count and range"@,
        Command::GetTemperatureThresholds => "Read NVML temperature thresholds"@,
        Command::GetThrottleReasons => "Read NVML throttle reasons"@,
        Command::GetTdpTempLimits => "Read NVAPI TDP and temperature limits"@,
        Command::ProbeVoltageLimits => "Probe NVAPI voltage limit points"@,
        Command::CheckVoltageFrequency => "Check whether one VFP point is precise"@,
        Command::GetLegacyOvervoltRanges => "Read NVAPI legacy core overvolt ranges"@,
        Command::GetLegacyP0CoreMaxVoltageDelta => "Read NVAPI legacy P0 max voltage delta"@,
        Command::GetPstateBaseVoltageUv => "Read NVAPI P-State base voltage delta in microvolts"@,
        Command::GetVoltageBoostPercent => "Read NVAPI voltage boost percent"@,
        Command::GetAutoBoost => "Read NVML auto-boost state"@,
        Command::GetApiRestriction => "Read NVML API restriction state"@,
        Command::GetEdid => "Read display EDID through NVAPI"@,
        Command::SetCoreOffsetMhz => "Set core clock offset in MHz"@,
        Command::SetMemoryOffsetMhz => "Set memory clock offset in MHz"@,
        Command::SetClockOffsetMhz => "Set clock offset in MHz for any clock domain"@,
        Command::SetPowerWatt => "Set NVML power limit in watts"@,
        Command::SetPowerPercent => "Set NVAPI power limit in percent"@,
        Command::SetThermalLimitC => "Set thermal limit in Celsius"@,
        Command::SetFanPercent => "Set fan speed/cooler level in percent"@,
        Command::SetLockedClocksMhz => "Lock core or memory clocks to a MHz range"@,
        Command::SetVfpVoltageLock => "Lock VFP by point or voltage"@,
        Command::SetVfpPointDeltaMhz => "Set one VFP point delta in MHz"@,
        Command::SetVfpRangeDeltaMhz => "Set a VFP point range delta in MHz"@,
        Command::SetPstateLock => "Lock one NVML P-State or a contiguous range"@,
        Command::SetApplicationsClocksMhz => "Set NVML application clocks in MHz"@,
        Command::SetPstateBaseVoltageUv => "Set NVAPI P-State base voltage delta in microvolts"@,
        Command::SetVoltageBoostPercent => "Set NVAPI voltage boost percent"@,
        Command::SetAutoBoost => "Set NVML auto-boost state"@,
        Command::SetAutoBoostDefault => "Set NVML default auto-boost state"@,
        Command::SetApiRestriction => "Set NVML API restriction state"@,
        Command::SetEdid => "Set display EDID through NVAPI"@,
        Command::ClearEdid => "Clear display EDID through NVAPI"@,
        Command::SetLegacyClocksMhz => "Set absolute core/memory clocks for legacy GPUs"@,
        Command::ResetCoreOffsetMhz => "Reset core clock offset to 0 MHz"@,
        Command::ResetMemoryOffsetMhz => "Reset memory clock offset to 0 MHz"@,
        Command::ResetApplicationsClocks => "Reset NVML application clocks"@,
        Command::ResetLockedClocks => "Reset core or memory locked clocks"@,
        Command::ResetFan => "Restore fan/cooler control"@,
        Command::ResetVfpDeltas => "Reset NVAPI VFP deltas"@,
        Command::ResetVfpLock => "Reset NVAPI VFP lock"@,
        Command::ResetPowerPercent => "Reset NVAPI power limits"@,
        Command::ResetThermalLimitC => "Reset NVAPI sensor limits"@,
        Command::ResetPstateBaseVoltages => "Reset NVAPI P-State base voltages"@,
        Command::ResetPstateClockOffsets => "Reset all NVAPI P-State clock offsets"@,
        Command::ResetVoltageBoostPercent => "Reset NVAPI voltage boost percent"@,
    }
}

/// Every command, in help order.
pub open spec fn all_commands() -> Seq<Command> {
    seq![
        Command::ListGpus,
        Command::ListDisplays,
        Command::GetInfo,
        Command::GetUuid,
        Command::GetStatus,
        Command::GetSettings,
        Command::GetVfp,
        Command::GetVfpPointVoltageMv,
        Command::GetPowerWatt,
        Command::GetClockOffsetMhz,
        Command::GetPstates,
        Command::GetSupportedAppClocks,
        Command::GetFanInfo,
        Command::GetTemperatureThresholds,
        Command::GetThrottleReasons,
        Command::GetTdpTempLimits,
        Command::ProbeVoltageLimits,
        Command::CheckVoltageFrequency,
        Command::GetLegacyOvervoltRanges,
        Command::GetLegacyP0CoreMaxVoltageDelta,
        Command::GetPstateBaseVoltageUv,
        Command::GetVoltageBoostPercent,
        Command::GetAutoBoost,
        Command::GetApiRestriction,
        Command::GetEdid,
        Command::SetCoreOffsetMhz,
        Command::SetMemoryOffsetMhz,
        Command::SetClockOffsetMhz,
        Command::SetPowerWatt,
        Command::SetPowerPercent,
        Command::SetThermalLimitC,
        Command::SetFanPercent,
        Command::SetLockedClocksMhz,
        Command::SetVfpVoltageLock,
        Command::SetVfpPointDeltaMhz,
        Command::SetVfpRangeDeltaMhz,
        Command::SetPstateLock,
        Command::SetApplicationsClocksMhz,
        Command::SetPstateBaseVoltageUv,
        Command::SetVoltageBoostPercent,
        Command::SetAutoBoost,
        Command::SetAutoBoostDefault,
        Command::SetApiRestriction,
        Command::SetEdid,
        Command::ClearEdid,
        Command::SetLegacyClocksMhz,
        Command::ResetCoreOffsetMhz,
        Command::ResetMemoryOffsetMhz,
        Command::ResetApplicationsClocks,
        Command::ResetLockedClocks,
        Command::ResetFan,
        Command::ResetVfpDeltas,
        Command::ResetVfpLock,
        Command::ResetPowerPercent,
        Command::ResetThermalLimitC,
        Command::ResetPstateBaseVoltages,
        Command::ResetPstateClockOffsets,
        Command::ResetVoltageBoostPercent,
    ]
}
impl Command {
    /// The command-line name of the command.
    pub fn name(self) -> (s: &'static str)
        ensures
            s@ == command_name(self),
    {
        match self {
            Command::ListGpus => "list-gpus",
            Command::ListDisplays => "list-displays",
            Command::GetInfo => "get-info",
            Command::GetUuid => "get-uuid",
            Command::GetStatus => "get-status",
            Command::GetSettings => "get-settings",
            Command::GetVfp => "get-vfp",
            Command::GetVfpPointVoltageMv => "get-vfp-point-voltage-mv",
            Command::GetPowerWatt => "get-power-watt",
            Command::GetClockOffsetMhz => "get-clock-offset-mhz",
            Command::GetPstates => "get-pstates",
            Command::GetSupportedAppClocks => "get-supported-app-clocks",
            Command::GetFanInfo => "get-fan-info",
            Command::GetTemperatureThresholds => "get-temperature-thresholds",
            Command::GetThrottleReasons => "get-throttle-reasons",
            Command::GetTdpTempLimits => "get-tdp-temp-limits",
            Command::ProbeVoltageLimits => "probe-voltage-limits",
            Command::CheckVoltageFrequency => "check-voltage-frequency",
            Command::GetLegacyOvervoltRanges => "get-legacy-overvolt-ranges",
            Command::GetLegacyP0CoreMaxVoltageDelta => "get-legacy-p0-core-max-voltage-delta",
            Command::GetPstateBaseVoltageUv => "get-pstate-base-voltage-uv",
            Command::GetVoltageBoostPercent => "get-voltage-boost-percent",
            Command::GetAutoBoost => "get-auto-boost",
            Command::GetApiRestriction => "get-api-restriction",
            Command::GetEdid => "get-edid",
            Command::SetCoreOffsetMhz => "set-core-offset-mhz",
            Command::SetMemoryOffsetMhz => "set-memory-offset-mhz",
            Command::SetClockOffsetMhz => "set-clock-offset-mhz",
            Command::SetPowerWatt => "set-power-watt",
            Command::SetPowerPercent => "set-power-percent",
            Command::SetThermalLimitC => "set-thermal-limit-c",
            Command::SetFanPercent => "set-fan-percent",
            Command::SetLockedClocksMhz => "set-locked-clocks-mhz",
            Command::SetVfpVoltageLock => "set-vfp-voltage-lock",
            Command::SetVfpPointDeltaMhz => "set-vfp-point-delta-mhz",
            Command::SetVfpRangeDeltaMhz => "set-vfp-range-delta-mhz",
            Command::SetPstateLock => "set-pstate-lock",
            Command::SetApplicationsClocksMhz => "set-applications-clocks-mhz",
            Command::SetPstateBaseVoltageUv => "set-pstate-base-voltage-uv",
            Command::SetVoltageBoostPercent => "set-voltage-boost-percent",
            Command::SetAutoBoost => "set-auto-boost",
            Command::SetAutoBoostDefault => "set-auto-boost-default",
            Command::SetApiRestriction => "set-api-restriction",
            Command::SetEdid => "set-edid",
            Command::ClearEdid => "clear-edid",
            Command::SetLegacyClocksMhz => "set-legacy-clocks-mhz",
            Command::ResetCoreOffsetMhz => "reset-core-offset-mhz",
            Command::ResetMemoryOffsetMhz => "reset-memory-offset-mhz",
            Command::ResetApplicationsClocks => "reset-applications-clocks",
            Command::ResetLockedClocks => "reset-locked-clocks",
            Command::ResetFan => "reset-fan",
            Command::ResetVfpDeltas => "reset-vfp-deltas",
            Command::ResetVfpLock => "reset-vfp-lock",
            Command::ResetPowerPercent => "reset-power-percent",
            Command::ResetThermalLimitC => "reset-thermal-limit-c",
            Command::ResetPstateBaseVoltages => "reset-pstate-base-voltages",
            Command::ResetPstateClockOffsets => "reset-pstate-clock-offsets",
            Command::ResetVoltageBoostPercent => "reset-voltage-boost-percent",
        }
    }

    /// The one-line help text of the command.
    pub fn about(self) -> (s: &'static str)
        ensures
            s@ == command_about(self),
    {
        match self {
            Command::ListGpus => "List discovered GPUs and available backends",
            Command::ListDisplays => "List NVAPI display IDs for EDID operations",
            Command::GetInfo => "Read NVAPI GPU identity and capability information",
            Command::GetUuid => "Read GPU UUID",
            Command::GetStatus => "Read NVAPI live GPU status",
            Command::GetSettings => "Read NVAPI overclock settings",
            Command::GetVfp => "Read V-F curve points",
            Command::GetVfpPointVoltageMv => "Read one VFP point voltage in mV",
            Command::GetPowerWatt => "Read NVML power limits in watts",
            Command::GetClockOffsetMhz => "Read clock offset in MHz",
            Command::GetPstates => "Read NVML P-State clock ranges",
            Command::GetSupportedAppClocks => "Read NVML supported application clocks",
            Command::GetFanInfo => "Read NVML fan count and range",
            Command::GetTemperatureThresholds => "Read NVML temperature thresholds",
            Command::GetThrottleReasons => "Read NVML throttle reasons",
            Command::GetTdpTempLimits => "Read NVAPI TDP and temperature limits",
            Command::ProbeVoltageLimits => "Probe NVAPI voltage limit points",
            Command::CheckVoltageFrequency => "Check whether one VFP point is precise",
            Command::GetLegacyOvervoltRanges => "Read NVAPI legacy core overvolt ranges",
            Command::GetLegacyP0CoreMaxVoltageDelta => "Read NVAPI legacy P0 max voltage delta",
            Command::GetPstateBaseVoltageUv => "Read NVAPI P-State base voltage delta in microvolts",
            Command::GetVoltageBoostPercent => "Read NVAPI voltage boost percent",
            Command::GetAutoBoost => "Read NVML auto-boost state",
            Command::GetApiRestriction => "Read NVML API restriction state",
            Command::GetEdid => "Read display EDID through NVAPI",
            Command::SetCoreOffsetMhz => "Set core clock offset in MHz",
            Command::SetMemoryOffsetMhz => "Set memory clock offset in MHz",
            Command::SetClockOffsetMhz => "Set clock offset in MHz for any clock domain",
            Command::SetPowerWatt => "Set NVML power limit in watts",
            Command::SetPowerPercent => "Set NVAPI power limit in percent",
            Command::SetThermalLimitC => "Set thermal limit in Celsius",
            Command::SetFanPercent => "Set fan speed/cooler level in percent",
            Command::SetLockedClocksMhz => "Lock core or memory clocks to a MHz range",
            Command::SetVfpVoltageLock => "Lock VFP by point or voltage",
            Command::SetVfpPointDeltaMhz => "Set one VFP point delta in MHz",
            Command::SetVfpRangeDeltaMhz => "Set a VFP point range delta in MHz",
            Command::SetPstateLock => "Lock one NVML P-State or a contiguous range",
            Command::SetApplicationsClocksMhz => "Set NVML application clocks in MHz",
            Command::SetPstateBaseVoltageUv => "Set NVAPI P-State base voltage delta in microvolts",
            Command::SetVoltageBoostPercent => "Set NVAPI voltage boost percent",
            Command::SetAutoBoost => "Set NVML auto-boost state",
            Command::SetAutoBoostDefault => "Set NVML default auto-boost state",
            Command::SetApiRestriction => "Set NVML API restriction state",
            Command::SetEdid => "Set display EDID through NVAPI",
            Command::ClearEdid => "Clear display EDID through NVAPI",
            Command::SetLegacyClocksMhz => "Set absolute core/memory clocks for legacy GPUs",
            Command::ResetCoreOffsetMhz => "Reset core clock offset to 0 MHz",
            Command::ResetMemoryOffsetMhz => "Reset memory clock offset to 0 MHz",
            Command::ResetApplicationsClocks => "Reset NVML application clocks",
            Command::ResetLockedClocks => "Reset core or memory locked clocks",
            Command::ResetFan => "Restore fan/cooler control",
            Command::ResetVfpDeltas => "Reset NVAPI VFP deltas",
            Command::ResetVfpLock => "Reset NVAPI VFP lock",
            Command::ResetPowerPercent => "Reset NVAPI power limits",
            Command::ResetThermalLimitC => "Reset NVAPI sensor limits",
            Command::ResetPstateBaseVoltages => "Reset NVAPI P-State base voltages",
            Command::ResetPstateClockOffsets => "Reset all NVAPI P-State clock offsets",
            Command::ResetVoltageBoostPercent => "Reset NVAPI voltage boost percent",
        }
    }

    /// Backends able to run the command.
    pub fn adapters(self) -> (r: &'static [BackendAdapter])
        ensures
            r@ == command_adapters(self),
    {
        match self {
            Command::ListGpus
            | Command::GetClockOffsetMhz
            | Command::SetClockOffsetMhz
            | Command::SetCoreOffsetMhz
            | Command::SetMemoryOffsetMhz
            | Command::SetThermalLimitC
            | Command::SetFanPercent
            | Command::SetLockedClocksMhz
            | Command::SetPstateLock
            | Command::ResetCoreOffsetMhz
            | Command::ResetMemoryOffsetMhz
            | Command::ResetLockedClocks
            | Command::ResetFan => {
                let r: &'static [BackendAdapter] = &[BackendAdapter::Nvapi, BackendAdapter::Nvml];
                assert(r@ =~= seq![BackendAdapter::Nvapi, BackendAdapter::Nvml]);
                r
            },
            Command::GetPowerWatt
            | Command::GetPstates
            | Command::GetSupportedAppClocks
            | Command::GetFanInfo
            | Command::GetTemperatureThresholds
            | Command::GetThrottleReasons
            | Command::GetAutoBoost
            | Command::GetApiRestriction
            | Command::SetPowerWatt
            | Command::SetApplicationsClocksMhz
            | Command::SetAutoBoost
            | Command::SetAutoBoostDefault
            | Command::SetApiRestriction
            | Command::ResetApplicationsClocks => {
                let r: &'static [BackendAdapter] = &[BackendAdapter::Nvml];
                assert(r@ =~= seq![BackendAdapter::Nvml]);
                r
            },
            _ => {
                let r: &'static [BackendAdapter] = &[BackendAdapter::Nvapi];
                assert(r@ =~= seq![BackendAdapter::Nvapi]);
                r
            },
        }
    }

    /// Minimum and maximum number of positional arguments.
    pub fn arity(self) -> (r: (usize, usize))
        ensures
            r == command_arity(self),
    {
        match self {
            Command::GetVfpPointVoltageMv
            | Command::CheckVoltageFrequency
            | Command::GetApiRestriction
            | Command::GetEdid => (1, 1),
            Command::SetCoreOffsetMhz
            | Command::SetMemoryOffsetMhz
            | Command::SetClockOffsetMhz
            | Command::SetPowerWatt
            | Command::SetPowerPercent
            | Command::SetThermalLimitC
            | Command::SetFanPercent
            | Command::SetVfpVoltageLock
            | Command::SetPstateBaseVoltageUv
            | Command::SetAutoBoost
            | Command::SetAutoBoostDefault
            | Command::ClearEdid
            | Command::SetVoltageBoostPercent => (1, 1),
            Command::SetLockedClocksMhz
            | Command::SetVfpPointDeltaMhz
            | Command::SetApplicationsClocksMhz
            | Command::SetApiRestriction
            | Command::SetEdid
            | Command::SetLegacyClocksMhz => (2, 2),
            Command::SetVfpRangeDeltaMhz => (3, 3),
            Command::SetPstateLock => (1, 2),
            _ => (0, 0),
        }
    }

    /// Command-specific named options the command accepts.
    pub fn allowed_options(self) -> (r: &'static [&'static str])
        ensures
            strs_view(r@) == command_options(self),
    {
        match self {
            Command::GetVfp => {
                let r: &'static [&'static str] = &[
                    "domain",
                    "indexed",
                    "infer-missing-default",
                    "no-infer-missing-default",
                ];
                assert(strs_view(r@) =~= command_options(self));
                r
            },
            Command::ListDisplays => {
                let r: &'static [&'static str] = &["all"];
                assert(strs_view(r@) =~= command_options(self));
                r
            },
            Command::GetClockOffsetMhz | Command::SetClockOffsetMhz => {
                let r: &'static [&'static str] = &["domain", "pstate"];
                assert(strs_view(r@) =~= command_options(self));
                r
            },
            Command::SetCoreOffsetMhz
            | Command::SetMemoryOffsetMhz
            | Command::ResetCoreOffsetMhz
            | Command::ResetMemoryOffsetMhz
            | Command::GetPstateBaseVoltageUv
            | Command::SetPstateBaseVoltageUv => {
                let r: &'static [&'static str] = &["pstate"];
                assert(strs_view(r@) =~= command_options(self));
                r
            },
            Command::SetFanPercent => {
                let r: &'static [&'static str] = &["fan", "policy"];
                assert(strs_view(r@) =~= command_options(self));
                r
            },
            Command::ResetFan => {
                let r: &'static [&'static str] = &["fan"];
                assert(strs_view(r@) =~= command_options(self));
                r
            },
            Command::SetLockedClocksMhz | Command::ResetLockedClocks | Command::ResetVfpDeltas => {
                let r: &'static [&'static str] = &["domain"];
                assert(strs_view(r@) =~= command_options(self));
                r
            },
            Command::SetVfpVoltageLock => {
                let r: &'static [&'static str] = &["feedback"];
                assert(strs_view(r@) =~= command_options(self));
                r
            },
            _ => {
                let r: &'static [&'static str] = &[];
                assert(strs_view(r@) =~= command_options(self));
                r
            },
        }
    }

    /// The positional arguments of the command, in order.
    pub fn positional_args(self) -> (r: Vec<PositionalArg>)
        ensures
            r@ == command_positionals(self),
    {
        match self {

            Command::GetVfpPointVoltageMv | Command::CheckVoltageFrequency => {
                vec![PositionalArg::free("arg_point", "POINT", "VFP point index")]
            }
            Command::GetApiRestriction => vec![PositionalArg::finite(
                "arg_api",
                "API",
                "NVML API to query",
                PositionalValueKind::ApiRestrictionApi,
            )],
            Command::GetEdid | Command::ClearEdid => vec![PositionalArg::free(
                "arg_display_id",
                "DISPLAY_ID",
                "NVAPI display ID as hex, for example 0x00010001",
            )],
            Command::SetCoreOffsetMhz | Command::SetMemoryOffsetMhz | Command::SetClockOffsetMhz => {
                vec![PositionalArg::hyphen(
                    "arg_offset_mhz",
                    "OFFSET_MHZ",
                    "Clock offset in MHz, for example -100 or 125MHz",
                )]
            }
            Command::SetPowerWatt => vec![PositionalArg::free(
                "arg_power_watt",
                "WATTS",
                "Power limit in watts, for example 250 or 250W",
            )],
            Command::SetPowerPercent => vec![PositionalArg::free(
                "arg_power_percent",
                "PERCENT",
                "Power limit percentage, for example 90 or 90%",
            )],
            Command::SetThermalLimitC => vec![PositionalArg::hyphen(
                "arg_celsius",
                "CELSIUS",
                "Temperature limit in Celsius, for example 83 or 83C",
            )],
            Command::SetFanPercent => vec![PositionalArg::free(
                "arg_fan_percent",
                "PERCENT",
                "Fan speed/cooler level percentage",
            )],
            Command::SetLockedClocksMhz => vec![
                PositionalArg::free("arg_min_mhz", "MIN_MHZ", "Minimum clock in MHz"),
                PositionalArg::free("arg_max_mhz", "MAX_MHZ", "Maximum clock in MHz"),
            ],
            Command::SetVfpVoltageLock => vec![PositionalArg::free(
                "arg_voltage_target",
                "TARGET",
                "VFP point index or voltage, for example 42, 900mV, or 900000uV",
            )],
            Command::SetVfpPointDeltaMhz => vec![
                PositionalArg::free("arg_point", "POINT", "VFP point index"),
                PositionalArg::hyphen(
                    "arg_delta_mhz",
                    "DELTA_MHZ",
                    "Frequency delta in MHz, for example -30 or 15MHz",
                ),
            ],
            Command::SetVfpRangeDeltaMhz => vec![
                PositionalArg::free("arg_start_point", "START_POINT", "First VFP point index"),
                PositionalArg::free("arg_end_point", "END_POINT", "Last VFP point index"),
                PositionalArg::hyphen(
                    "arg_delta_mhz",
                    "DELTA_MHZ",
                    "Frequency delta in MHz, for example -30 or 15MHz",
                ),
            ],
            Command::SetPstateLock => vec![
                PositionalArg::finite(
                    "arg_first_pstate",
                    "FIRST_PSTATE",
                    "First P-State to lock",
                    PositionalValueKind::Pstate,
                ),
                PositionalArg::finite(
                    "arg_second_pstate",
                    "SECOND_PSTATE",
                    "Optional final P-State to lock",
                    PositionalValueKind::Pstate,
                ),
            ],
            Command::SetApplicationsClocksMhz => vec![
                PositionalArg::free("arg_memory_mhz", "MEMORY_MHZ", "Memory clock in MHz"),
                PositionalArg::free("arg_graphics_mhz", "GRAPHICS_MHZ", "Graphics clock in MHz"),
            ],
            Command::SetPstateBaseVoltageUv => vec![PositionalArg::hyphen(
                "arg_delta_uv",
                "DELTA_UV",
                "Base voltage delta in microvolts, for example 100000 or -25000uV",
            )],
            Command::SetVoltageBoostPercent => vec![PositionalArg::free(
                "arg_boost_percent",
                "PERCENT",
                "Voltage boost percentage",
            )],
            Command::SetAutoBoost | Command::SetAutoBoostDefault => vec![PositionalArg::finite(
                "arg_enabled",
                "ENABLED",
                "Whether auto-boost is enabled",
                PositionalValueKind::Bool,
            )],
            Command::SetApiRestriction => vec![
                PositionalArg::finite(
                    "arg_api",
                    "API",
                    "NVML API to restrict",
                    PositionalValueKind::ApiRestrictionApi,
                ),
                PositionalArg::finite(
                    "arg_restriction_state",
                    "STATE",
                    "Restriction state",
                    PositionalValueKind::ApiRestrictionState,
                ),
            ],
            Command::SetEdid => vec![
                PositionalArg::free(
                    "arg_display_id",
                    "DISPLAY_ID",
                    "NVAPI display ID as hex, for example 0x00010001",
                ),
                PositionalArg::free(
                    "arg_edid_hex",
                    "EDID_HEX",
                    "EDID bytes as an even-length hex string",
                ),
            ],
            Command::SetLegacyClocksMhz => vec![
                PositionalArg::free("arg_core_mhz", "CORE_MHZ", "Core clock in MHz"),
                PositionalArg::free("arg_memory_mhz", "MEMORY_MHZ", "Memory clock in MHz"),
            ],
            _ => Vec::new(),        }
    }
}

/// Backends able to run a command.
pub open spec fn command_adapters(c: Command) -> Seq<BackendAdapter> {
    match c {
        Command::ListGpus
        | Command::GetClockOffsetMhz
        | Command::SetClockOffsetMhz
        | Command::SetCoreOffsetMhz
        | Command::SetMemoryOffsetMhz
        | Command::SetThermalLimitC
        | Command::SetFanPercent
        | Command::SetLockedClocksMhz
        | Command::SetPstateLock
        | Command::ResetCoreOffsetMhz
        | Command::ResetMemoryOffsetMhz
        | Command::ResetLockedClocks
        | Command::ResetFan => seq![BackendAdapter::Nvapi, BackendAdapter::Nvml],
        Command::GetPowerWatt
        | Command::GetPstates
        | Command::GetSupportedAppClocks
        | Command::GetFanInfo
        | Command::GetTemperatureThresholds
        | Command::GetThrottleReasons
        | Command::GetAutoBoost
        | Command::GetApiRestriction
        | Command::SetPowerWatt
        | Command::SetApplicationsClocksMhz
        | Command::SetAutoBoost
        | Command::SetAutoBoostDefault
        | Command::SetApiRestriction
        | Command::ResetApplicationsClocks => seq![BackendAdapter::Nvml],
        _ => seq![BackendAdapter::Nvapi],
    }
}

/// Minimum and maximum number of positional arguments of a command.
pub open spec fn command_arity(c: Command) -> (usize, usize) {
    match c {
        Command::GetVfpPointVoltageMv
        | Command::CheckVoltageFrequency
        | Command::GetApiRestriction
        | Command::GetEdid => (1, 1),
        Command::SetCoreOffsetMhz
        | Command::SetMemoryOffsetMhz
        | Command::SetClockOffsetMhz
        | Command::SetPowerWatt
        | Command::SetPowerPercent
        | Command::SetThermalLimitC
        | Command::SetFanPercent
        | Command::SetVfpVoltageLock
        | Command::SetPstateBaseVoltageUv
        | Command::SetAutoBoost
        | Command::SetAutoBoostDefault
        | Command::ClearEdid
        | Command::SetVoltageBoostPercent => (1, 1),
        Command::SetLockedClocksMhz
        | Command::SetVfpPointDeltaMhz
        | Command::SetApplicationsClocksMhz
        | Command::SetApiRestriction
        | Command::SetEdid
        | Command::SetLegacyClocksMhz => (2, 2),
        Command::SetVfpRangeDeltaMhz => (3, 3),
        Command::SetPstateLock => (1, 2),
        _ => (0, 0),
    }
}

/// The characters of each string.
pub open spec fn strs_view(v: Seq<&'static str>) -> Seq<Seq<char>> {
    v.map_values(|s: &'static str| s@)
}

/// Command-specific named options of a command.
pub open spec fn command_options(c: Command) -> Seq<Seq<char>> {
    match c {
        Command::GetVfp => seq![
            "domain"@,
            "indexed"@,
            "infer-missing-default"@,
            "no-infer-missing-default"@,
        ],
        Command::ListDisplays => seq!["all"@],
        Command::GetClockOffsetMhz | Command::SetClockOffsetMhz => seq!["domain"@, "pstate"@],
        Command::SetCoreOffsetMhz
        | Command::SetMemoryOffsetMhz
        | Command::ResetCoreOffsetMhz
        | Command::ResetMemoryOffsetMhz
        | Command::GetPstateBaseVoltageUv
        | Command::SetPstateBaseVoltageUv => seq!["pstate"@],
        Command::SetFanPercent => seq!["fan"@, "policy"@],
        Command::ResetFan => seq!["fan"@],
        Command::SetLockedClocksMhz | Command::ResetLockedClocks | Command::ResetVfpDeltas => seq![
            "domain"@,
        ],
        Command::SetVfpVoltageLock => seq!["feedback"@],
        _ => Seq::empty(),
    }
}

/// Which values a positional argument takes.
#[derive(Debug, Clone, Copy, PartialEq, Eq, Structural)]
pub enum PositionalValueKind {
    Free,
    ApiRestrictionApi,
    ApiRestrictionState,
    Bool,
    Pstate,
}

/// One positional argument of a command.
#[derive(Debug, Clone, Copy)]
pub struct PositionalArg {
    pub id: &'static str,
    pub value_name: &'static str,
    pub help: &'static str,
    pub allow_hyphen_values: bool,
    pub value_kind: PositionalValueKind,
}

pub open spec fn pos_free(id: &'static str, value_name: &'static str, help: &'static str) -> PositionalArg {
    PositionalArg { id, value_name, help, allow_hyphen_values: false, value_kind: PositionalValueKind::Free }
}

pub open spec fn pos_hyphen(id: &'static str, value_name: &'static str, help: &'static str) -> PositionalArg {
    PositionalArg { id, value_name, help, allow_hyphen_values: true, value_kind: PositionalValueKind::Free }
}

pub open spec fn pos_finite(
    id: &'static str,
    value_name: &'static str,
    help: &'static str,
    value_kind: PositionalValueKind,
) -> PositionalArg {
    PositionalArg { id, value_name, help, allow_hyphen_values: false, value_kind }
}

impl PositionalArg {
    /// A free-form value that may not start with a hyphen.
    pub fn free(id: &'static str, value_name: &'static str, help: &'static str) -> (r: Self)
        ensures
            r == pos_free(id, value_name, help),
    {
        PositionalArg { id, value_name, help, allow_hyphen_values: false, value_kind: PositionalValueKind::Free }
    }

    /// A free-form value that may start with a hyphen (negative numbers).
    pub fn hyphen(id: &'static str, value_name: &'static str, help: &'static str) -> (r: Self)
        ensures
            r == pos_hyphen(id, value_name, help),
    {
        PositionalArg { id, value_name, help, allow_hyphen_values: true, value_kind: PositionalValueKind::Free }
    }

    /// A value from a finite set.
    pub fn finite(
        id: &'static str,
        value_name: &'static str,
        help: &'static str,
        value_kind: PositionalValueKind,
    ) -> (r: Self)
        ensures
            r == pos_finite(id, value_name, help, value_kind),
    {
        PositionalArg { id, value_name, help, allow_hyphen_values: false, value_kind }
    }
}

/// The positional arguments of a command, in order.
pub open spec fn command_positionals(c: Command) -> Seq<PositionalArg> {
    match c {

            Command::GetVfpPointVoltageMv | Command::CheckVoltageFrequency => {
                seq![pos_free("arg_point", "POINT", "VFP point index")]
            }
            Command::GetApiRestriction => seq![pos_finite(
                "arg_api",
                "API",
                "NVML API to query",
                PositionalValueKind::ApiRestrictionApi,
            )],
            Command::GetEdid | Command::ClearEdid => seq![pos_free(
                "arg_display_id",
                "DISPLAY_ID",
                "NVAPI display ID as hex, for example 0x00010001",
            )],
            Command::SetCoreOffsetMhz | Command::SetMemoryOffsetMhz | Command::SetClockOffsetMhz => {
                seq![pos_hyphen(
                    "arg_offset_mhz",
                    "OFFSET_MHZ",
                    "Clock offset in MHz, for example -100 or 125MHz",
                )]
            }
            Command::SetPowerWatt => seq![pos_free(
                "arg_power_watt",
                "WATTS",
                "Power limit in watts, for example 250 or 250W",
            )],
            Command::SetPowerPercent => seq![pos_free(
                "arg_power_percent",
                "PERCENT",
                "Power limit percentage, for example 90 or 90%",
            )],
            Command::SetThermalLimitC => seq![pos_hyphen(
                "arg_celsius",
                "CELSIUS",
                "Temperature limit in Celsius, for example 83 or 83C",
            )],
            Command::SetFanPercent => seq![pos_free(
                "arg_fan_percent",
                "PERCENT",
                "Fan speed/cooler level percentage",
            )],
            Command::SetLockedClocksMhz => seq![
                pos_free("arg_min_mhz", "MIN_MHZ", "Minimum clock in MHz"),
                pos_free("arg_max_mhz", "MAX_MHZ", "Maximum clock in MHz"),
            ],
            Command::SetVfpVoltageLock => seq![pos_free(
                "arg_voltage_target",
                "TARGET",
                "VFP point index or voltage, for example 42, 900mV, or 900000uV",
            )],
            Command::SetVfpPointDeltaMhz => seq![
                pos_free("arg_point", "POINT", "VFP point index"),
                pos_hyphen(
                    "arg_delta_mhz",
                    "DELTA_MHZ",
                    "Frequency delta in MHz, for example -30 or 15MHz",
                ),
            ],
            Command::SetVfpRangeDeltaMhz => seq![
                pos_free("arg_start_point", "START_POINT", "First VFP point index"),
                pos_free("arg_end_point", "END_POINT", "Last VFP point index"),
                pos_hyphen(
                    "arg_delta_mhz",
                    "DELTA_MHZ",
                    "Frequency delta in MHz, for example -30 or 15MHz",
                ),
            ],
            Command::SetPstateLock => seq![
                pos_finite(
                    "arg_first_pstate",
                    "FIRST_PSTATE",
                    "First P-State to lock",
                    PositionalValueKind::Pstate,
                ),
                pos_finite(
                    "arg_second_pstate",
                    "SECOND_PSTATE",
                    "Optional final P-State to lock",
                    PositionalValueKind::Pstate,
                ),
            ],
            Command::SetApplicationsClocksMhz => seq![
                pos_free("arg_memory_mhz", "MEMORY_MHZ", "Memory clock in MHz"),
                pos_free("arg_graphics_mhz", "GRAPHICS_MHZ", "Graphics clock in MHz"),
            ],
            Command::SetPstateBaseVoltageUv => seq![pos_hyphen(
                "arg_delta_uv",
                "DELTA_UV",
                "Base voltage delta in microvolts, for example 100000 or -25000uV",
            )],
            Command::SetVoltageBoostPercent => seq![pos_free(
                "arg_boost_percent",
                "PERCENT",
                "Voltage boost percentage",
            )],
            Command::SetAutoBoost | Command::SetAutoBoostDefault => seq![pos_finite(
                "arg_enabled",
                "ENABLED",
                "Whether auto-boost is enabled",
                PositionalValueKind::Bool,
            )],
            Command::SetApiRestriction => seq![
                pos_finite(
                    "arg_api",
                    "API",
                    "NVML API to restrict",
                    PositionalValueKind::ApiRestrictionApi,
                ),
                pos_finite(
                    "arg_restriction_state",
                    "STATE",
                    "Restriction state",
                    PositionalValueKind::ApiRestrictionState,
                ),
            ],
            Command::SetEdid => seq![
                pos_free(
                    "arg_display_id",
                    "DISPLAY_ID",
                    "NVAPI display ID as hex, for example 0x00010001",
                ),
                pos_free(
                    "arg_edid_hex",
                    "EDID_HEX",
                    "EDID bytes as an even-length hex string",
                ),
            ],
            Command::SetLegacyClocksMhz => seq![
                pos_free("arg_core_mhz", "CORE_MHZ", "Core clock in MHz"),
                pos_free("arg_memory_mhz", "MEMORY_MHZ", "Memory clock in MHz"),
            ],
            _ => Seq::empty(),    }
}

/// Every command, in help order.
pub fn command_list() -> (v: Vec<Command>)
    ensures
        v@ == all_commands(),
{
    let v = vec![
            Command::ListGpus,
            Command::ListDisplays,
            Command::GetInfo,
            Command::GetUuid,
            Command::GetStatus,
            Command::GetSettings,
            Command::GetVfp,
            Command::GetVfpPointVoltageMv,
            Command::GetPowerWatt,
            Command::GetClockOffsetMhz,
            Command::GetPstates,
            Command::GetSupportedAppClocks,
            Command::GetFanInfo,
            Command::GetTemperatureThresholds,
            Command::GetThrottleReasons,
            Command::GetTdpTempLimits,
            Command::ProbeVoltageLimits,
            Command::CheckVoltageFrequency,
            Command::GetLegacyOvervoltRanges,
            Command::GetLegacyP0CoreMaxVoltageDelta,
            Command::GetPstateBaseVoltageUv,
            Command::GetVoltageBoostPercent,
            Command::GetAutoBoost,
            Command::GetApiRestriction,
            Command::GetEdid,
            Command::SetCoreOffsetMhz,
            Command::SetMemoryOffsetMhz,
            Command::SetClockOffsetMhz,
            Command::SetPowerWatt,
            Command::SetPowerPercent,
            Command::SetThermalLimitC,
            Command::SetFanPercent,
            Command::SetLockedClocksMhz,
            Command::SetVfpVoltageLock,
            Command::SetVfpPointDeltaMhz,
            Command::SetVfpRangeDeltaMhz,
            Command::SetPstateLock,
            Command::SetApplicationsClocksMhz,
            Command::SetPstateBaseVoltageUv,
            Command::SetVoltageBoostPercent,
            Command::SetAutoBoost,
            Command::SetAutoBoostDefault,
            Command::SetApiRestriction,
            Command::SetEdid,
            Command::ClearEdid,
            Command::SetLegacyClocksMhz,
            Command::ResetCoreOffsetMhz,
            Command::ResetMemoryOffsetMhz,
            Command::ResetApplicationsClocks,
            Command::ResetLockedClocks,
            Command::ResetFan,
            Command::ResetVfpDeltas,
            Command::ResetVfpLock,
            Command::ResetPowerPercent,
            Command::ResetThermalLimitC,
            Command::ResetPstateBaseVoltages,
            Command::ResetPstateClockOffsets,
            Command::ResetVoltageBoostPercent,    ];
    assert(v@ =~= all_commands());
    v
}

// ---------------------------------------------------------------------------
// Command lookup
// ---------------------------------------------------------------------------

/// The first command of `cs` whose name is `raw`.
pub open spec fn first_named(cs: Seq<Command>, raw: Seq<char>) -> Option<Command>
    decreases cs.len(),
{
    if cs.len() == 0 {
        None
    } else if command_name(cs[0]) == raw {
        Some(cs[0])
    } else {
        first_named(cs.drop_first(), raw)
    }
}

/// The command named `raw`, if any.
pub open spec fn command_named(raw: Seq<char>) -> Option<Command> {
    first_named(all_commands(), raw)
}

pub open spec fn parse_command_spec(raw: Seq<char>) -> Result<Command, Seq<char>> {
    match command_named(raw) {
        Some(c) => Ok(c),
        None => Err("unknown function "@ + debug_text(raw)),
    }
}

/// The command named exactly `raw`.
pub fn find_command(raw: &[char]) -> (r: Option<Command>)
    ensures
        r == command_named(raw@),
{
    let list = command_list();
    let mut i: usize = 0;
    assert(list@.skip(0) =~= list@);
    while i < list.len()
        invariant
            i <= list@.len(),
            list@ == all_commands(),
            command_named(raw@) == first_named(list@.skip(i as int), raw@),
        decreases list@.len() - i,
    {
        let c = list[i];
        let ghost rest = list@.skip(i as int);
        assert(rest[0] == c);
        assert(rest.drop_first() =~= list@.skip(i as int + 1));
        let name = chars_of(c.name());
        if eq_chars(name.as_slice(), raw) {
            return Some(c);
        }
        i = i + 1;
    }
    None
}

/// The command named `raw`.
pub fn parse_command(raw: &str) -> (r: Result<Command, String>)
    ensures
        res_view(r) == parse_command_spec(raw@),
{
    let c = chars_of(raw);
    match find_command(c.as_slice()) {
        Some(cmd) => Ok(cmd),
        None => {
            let q = debug_quote(raw);
            let qc = chars_of(q.as_str());
            Err(message("unknown function ", qc.as_slice()))
        },
    }
}

/// Global and command-specific options that consume the next argument.
pub open spec fn takes_value_spec(token: Seq<char>) -> bool {
    ||| token == "-g"@
    ||| token == "-O"@
    ||| token == "--gpu"@
    ||| token == "--output"@
    ||| token == "--domain"@
    ||| token == "--pstate"@
    ||| token == "--fan"@
    ||| token == "--policy"@
    ||| token == "--infer-missing-default"@
}

/// Whether `token` is an option that consumes the next argument.
pub fn option_takes_value(token: &[char]) -> (b: bool)
    ensures
        b == takes_value_spec(token@),
{
    eq_str(token, "-g") || eq_str(token, "-O") || eq_str(token, "--gpu") || eq_str(
        token,
        "--output",
    ) || eq_str(token, "--domain") || eq_str(token, "--pstate") || eq_str(token, "--fan")
        || eq_str(token, "--policy") || eq_str(token, "--infer-missing-default")
}

/// The first command name in `argv` from position `i` on, skipping the
/// values of options that take one and stopping at `--`.
pub open spec fn hint_from(argv: Seq<Seq<char>>, i: int) -> Option<Command>
    decreases argv.len() - i,
{
    if i < 0 || i >= argv.len() {
        None
    } else if argv[i] == "--"@ {
        None
    } else if takes_value_spec(argv[i]) {
        if i + 2 <= argv.len() {
            hint_from(argv, i + 2)
        } else {
            None
        }
    } else {
        match command_named(argv[i]) {
            Some(c) => Some(c),
            None => hint_from(argv, i + 1),
        }
    }
}

/// The command an argument list names, found before full parsing so that
/// its command-specific options can be declared.
pub fn command_hint_from_argv(argv: &[String]) -> (r: Option<Command>)
    ensures
        r == hint_from(strings_view(argv@), 0),
{
    let ghost av = strings_view(argv@);
    let mut index: usize = 0;
    while index < argv.len()
        invariant
            av == strings_view(argv@),
            index <= argv@.len(),
            hint_from(av, 0) == hint_from(av, index as int),
        decreases argv@.len() - index,
    {
        let token = chars_of(argv[index].as_str());
        assert(token@ == av[index as int]);
        if eq_str(token.as_slice(), "--") {
            return None;
        }
        if option_takes_value(token.as_slice()) {
            if argv.len() - index < 2 {
                return None;
            }
            index = index + 2;
            continue ;
        }
        match find_command(token.as_slice()) {
            Some(c) => {
                return Some(c);
            },
            None => {},
        }
        index = index + 1;
    }
    None
}

pub open spec fn parse_output_format_spec(raw: Seq<char>) -> Result<OutputFormat, Seq<char>> {
    let key = lower(trim(raw));
    if key == "human"@ {
        Ok(OutputFormat::Human)
    } else if key == "json"@ {
        Ok(OutputFormat::Json)
    } else {
        Err("invalid output format "@ + debug_text(key) + "; expected human or json"@)
    }
}

/// Output format named by `raw`: human or json.
pub fn parse_output_format(raw: &str) -> (r: Result<OutputFormat, String>)
    ensures
        res_view(r) == parse_output_format_spec(raw@),
{
    let c = chars_of(raw);
    let key = trim_lower(c.as_slice());
    if eq_str(key.as_slice(), "human") {
        Ok(OutputFormat::Human)
    } else if eq_str(key.as_slice(), "json") {
        Ok(OutputFormat::Json)
    } else {
        let ks = string_from_chars(key.as_slice());
        let q = debug_quote(ks.as_str());
        let qc = chars_of(q.as_str());
        let tail = chars_of("; expected human or json");
        let body = concat(qc.as_slice(), tail.as_slice());
        let m = message("invalid output format ", body.as_slice());
        assert(m@ =~= "invalid output format "@ + debug_text(key@) + "; expected human or json"@);
        Err(m)
    }
}

// ---------------------------------------------------------------------------
// Invocations
// ---------------------------------------------------------------------------

/// A parsed command line.
#[derive(Debug, Clone, PartialEq, Eq)]
pub struct Invocation {
    pub backend: BackendChoice,
    pub output: OutputFormat,
    pub no_color: bool,
    pub gpu_specs: Vec<String>,
    pub command: Option<Command>,
    pub positionals: Vec<String>,
    /// Command-specific named options and their values, by option name in
    /// ascending order.
    pub options: Vec<(String, Vec<String>)>,
}

/// The rendered output of a run and the process exit code.
#[derive(Debug, Clone)]
pub struct RunOutput {
    pub rendered: String,
    pub exit_code: i32,
}

/// The values of the first option entry named `name`.
pub open spec fn option_values(opts: Seq<(String, Vec<String>)>, name: Seq<char>) -> Option<
    Seq<String>,
>
    decreases opts.len(),
{
    if opts.len() == 0 {
        None
    } else if opts[0].0@ == name {
        Some(opts[0].1@)
    } else {
        option_values(opts.drop_first(), name)
    }
}

/// The last value given for option `name`.
pub open spec fn option_one_spec(opts: Seq<(String, Vec<String>)>, name: Seq<char>) -> Option<
    Seq<char>,
> {
    match option_values(opts, name) {
        Some(vs) => if vs.len() > 0 {
            Some(vs.last()@)
        } else {
            None
        },
        None => None,
    }
}

/// The last value given for option `name`.
#[verifier::loop_isolation(false)]
pub fn option_one<'a>(invocation: &'a Invocation, name: &str) -> (r: Option<&'a str>)
    ensures
        match r {
            Some(s) => option_one_spec(invocation.options@, name@) == Some(s@),
            None => option_one_spec(invocation.options@, name@) is None,
        },
{
    let opts = &invocation.options;
    let key = chars_of(name);
    let mut i: usize = 0;
    assert(opts@.skip(0) =~= opts@);
    while i < opts.len()
        invariant
            i <= opts@.len(),
            key@ == name@,
            option_values(opts@, name@) == option_values(opts@.skip(i as int), name@),
        decreases opts@.len() - i,
    {
        let ghost rest = opts@.skip(i as int);
        assert(rest[0] == opts@[i as int]);
        assert(rest.drop_first() =~= opts@.skip(i as int + 1));
        let entry = &opts[i];
        let k = chars_of(entry.0.as_str());
        if eq_chars(k.as_slice(), key.as_slice()) {
            assert(rest[0].0@ == name@);
            assert(option_values(rest, name@) == Some(rest[0].1@));
            assert(option_values(opts@, name@) == Some(entry.1@));
            let vals = &entry.1;
            if vals.len() == 0 {
                return None;
            }
            return Some(vals[vals.len() - 1].as_str());
        }
        i = i + 1;
    }
    None
}

/// The arity wording of the validation message: `n` or `min..=max`.
pub open spec fn expected_text(min: usize, max: usize) -> Seq<char> {
    if min == max {
        decimal(min as nat)
    } else {
        decimal(min as nat) + "..="@ + decimal(max as nat)
    }
}

/// The first option name not among `allowed`.
pub open spec fn first_disallowed(opts: Seq<(String, Vec<String>)>, allowed: Seq<Seq<char>>) -> Option<
    Seq<char>,
>
    decreases opts.len(),
{
    if opts.len() == 0 {
        None
    } else if !allowed.contains(opts[0].0@) {
        Some(opts[0].0@)
    } else {
        first_disallowed(opts.drop_first(), allowed)
    }
}

/// The checks of an invocation, in order: a command is present; a forced
/// backend supports it; the positional count fits its arity; every named
/// option is one it accepts; `reset-fan` with a specific fan forces NVML.
pub open spec fn validate_spec(inv: Invocation) -> Result<(), Seq<char>> {
    match inv.command {
        None => Err("missing function name"@),
        Some(c) => {
            let supported = command_adapters(c);
            let (min, max) = command_arity(c);
            let n = inv.positionals@.len();
            if inv.backend == BackendChoice::Nvapi && !supported.contains(BackendAdapter::Nvapi) {
                Err(command_name(c) + " does not support --nvapi"@)
            } else if inv.backend == BackendChoice::Nvml && !supported.contains(
                BackendAdapter::Nvml,
            ) {
                Err(command_name(c) + " does not support --nvml"@)
            } else if n < min || n > max {
                Err(
                    command_name(c) + " expects "@ + expected_text(min, max) + " positional args, got "@
                        + decimal(n),
                )
            } else {
                match first_disallowed(inv.options@, command_options(c)) {
                    Some(k) => Err("--"@ + k + " is not valid for "@ + command_name(c)),
                    None => {
                        let specific_fan = match option_one_spec(inv.options@, "fan"@) {
                            Some(f) => lower(f) != lower("all"@),
                            None => false,
                        };
                        if c == Command::ResetFan && specific_fan && inv.backend
                            != BackendChoice::Nvml {
                            Err(
                                "reset-fan with a specific --fan requires --nvml; NVAPI resets all coolers"@,
                            )
                        } else {
                            Ok(())
                        }
                    },
                }
            }
        },
    }
}

proof fn lemma_first_disallowed_none(opts: Seq<(String, Vec<String>)>, allowed: Seq<Seq<char>>)
    ensures
        first_disallowed(opts, allowed) is None <==> forall|j: int|
            0 <= j < opts.len() ==> allowed.contains(#[trigger] opts[j].0@),
    decreases opts.len(),
{
    if opts.len() > 0 {
        lemma_first_disallowed_none(opts.drop_first(), allowed);
        assert forall|j: int| 0 < j < opts.len() implies opts[j] == opts.drop_first()[j - 1] by {}
        if forall|j: int| 0 <= j < opts.len() ==> allowed.contains(#[trigger] opts[j].0@) {
            assert forall|j: int| 0 <= j < opts.drop_first().len() implies allowed.contains(
                #[trigger] opts.drop_first()[j].0@,
            ) by {
                assert(opts.drop_first()[j] == opts[j + 1]);
            }
        }
    }
}

/// An accepted invocation names a command, forces only a backend that
/// command supports, gives a positional count within its arity, uses only
/// the options it allows, and asks NVAPI for a reset of a specific fan
/// never.
pub proof fn lemma_accepted_invocation(inv: Invocation)
    ensures
        validate_spec(inv) is Ok ==> (inv.command matches Some(c) && {
            &&& inv.backend == BackendChoice::Nvapi ==> command_adapters(c).contains(BackendAdapter::Nvapi)
            &&& inv.backend == BackendChoice::Nvml ==> command_adapters(c).contains(BackendAdapter::Nvml)
            &&& command_arity(c).0 <= inv.positionals@.len() <= command_arity(c).1
            &&& forall|j: int|
                0 <= j < inv.options@.len() ==> command_options(c).contains(#[trigger] inv.options@[j].0@)
        }),
{
    if let Some(c) = inv.command {
        lemma_first_disallowed_none(inv.options@, command_options(c));
    }
}

pub(crate) fn contains_adapter(v: &[BackendAdapter], a: BackendAdapter) -> (b: bool)
    ensures
        b == v@.contains(a),
{
    let mut i: usize = 0;
    while i < v.len()
        invariant
            i <= v@.len(),
            forall|j: int| 0 <= j < i ==> v@[j] != a,
        decreases v@.len() - i,
    {
        if v[i] == a {
            assert(v@[i as int] == a);
            return true;
        }
        i = i + 1;
    }
    false
}

fn contains_str(v: &[&'static str], s: &[char]) -> (b: bool)
    ensures
        b == strs_view(v@).contains(s@),
{
    let mut i: usize = 0;
    while i < v.len()
        invariant
            i <= v@.len(),
            forall|j: int| 0 <= j < i ==> v@[j]@ != s@,
        decreases v@.len() - i,
    {
        let c = chars_of(v[i]);
        if eq_chars(c.as_slice(), s) {
            assert(strs_view(v@)[i as int] == s@);
            return true;
        }
        i = i + 1;
    }
    assert(!strs_view(v@).contains(s@)) by {
        if strs_view(v@).contains(s@) {
            let j = choose|j: int| 0 <= j < strs_view(v@).len() && strs_view(v@)[j] == s@;
            assert(v@[j]@ == s@);
        }
    }
    false
}

fn expected_chars(min: usize, max: usize) -> (out: Vec<char>)
    ensures
        out@ == expected_text(min, max),
{
    let a = decimal_chars(min as u64);
    if min == max {
        a
    } else {
        let dots = chars_of("..=");
        let b = decimal_chars(max as u64);
        let ad = concat(a.as_slice(), dots.as_slice());
        concat(ad.as_slice(), b.as_slice())
    }
}

/// Checks an invocation (see [`validate_spec`]).
#[verifier::loop_isolation(false)]
pub fn validate_invocation(invocation: &Invocation) -> (r: Result<(), String>)
    ensures
        res_view(r) == validate_spec(*invocation),
{
    let command = match invocation.command {
        Some(c) => c,
        None => {
            return Err(string_of("missing function name"));
        },
    };
    let supported = command.adapters();
    let name = chars_of(command.name());
    match invocation.backend {
        BackendChoice::Nvapi => {
            if !contains_adapter(supported, BackendAdapter::Nvapi) {
                let tail = chars_of(" does not support --nvapi");
                let m = concat(name.as_slice(), tail.as_slice());
                return Err(string_from_chars(m.as_slice()));
            }
        },
        BackendChoice::Nvml => {
            if !contains_adapter(supported, BackendAdapter::Nvml) {
                let tail = chars_of(" does not support --nvml");
                let m = concat(name.as_slice(), tail.as_slice());
                return Err(string_from_chars(m.as_slice()));
            }
        },
        BackendChoice::Auto => {},
    }
    let (min_args, max_args) = command.arity();
    let n = invocation.positionals.len();
    if n < min_args || n > max_args {
        let p1 = chars_of(" expects ");
        let p2 = expected_chars(min_args, max_args);
        let p3 = chars_of(" positional args, got ");
        let p4 = decimal_chars(n as u64);
        let m1 = concat(name.as_slice(), p1.as_slice());
        let m2 = concat(m1.as_slice(), p2.as_slice());
        let m3 = concat(m2.as_slice(), p3.as_slice());
        let m4 = concat(m3.as_slice(), p4.as_slice());
        return Err(string_from_chars(m4.as_slice()));
    }
    let allowed = command.allowed_options();
    let opts = &invocation.options;
    let mut i: usize = 0;
    assert(opts@.skip(0) =~= opts@);
    while i < opts.len()
        invariant
            i <= opts@.len(),
            strs_view(allowed@) == command_options(command),
            name@ == command_name(command),
            first_disallowed(opts@, command_options(command)) == first_disallowed(
                opts@.skip(i as int),
                command_options(command),
            ),
        decreases opts@.len() - i,
    {
        let ghost rest = opts@.skip(i as int);
        assert(rest[0] == opts@[i as int]);
        assert(rest.drop_first() =~= opts@.skip(i as int + 1));
        let key = chars_of(opts[i].0.as_str());
        if !contains_str(allowed, key.as_slice()) {
            let p1 = chars_of(" is not valid for ");
            let m1 = concat(key.as_slice(), p1.as_slice());
            let m2 = concat(m1.as_slice(), name.as_slice());
            let m = message("--", m2.as_slice());
            assert(m@ =~= "--"@ + key@ + " is not valid for "@ + command_name(command));
            assert(!command_options(command).contains(rest[0].0@));
            assert(first_disallowed(rest, command_options(command)) == Some(key@));
            return Err(m);
        }
        i = i + 1;
    }
    if command == Command::ResetFan && invocation.backend != BackendChoice::Nvml {
        match option_one(invocation, "fan") {
            Some(fan) => {
                let f = chars_of(fan);
                let fl = lower_chars(f.as_slice());
                let all = chars_of("all");
                let al = lower_chars(all.as_slice());
                if !eq_chars(fl.as_slice(), al.as_slice()) {
                    return Err(
                        string_of(
                            "reset-fan with a specific --fan requires --nvml; NVAPI resets all coolers",
                        ),
                    );
                }
            },
            None => {},
        }
    }
    Ok(())
}

// ---------------------------------------------------------------------------
// Backend and target selection
// ---------------------------------------------------------------------------

/// Which backends GPU discovery opens.
#[derive(Debug, Clone, Copy, PartialEq, Eq, Structural)]
pub enum BackendSet {
    Both,
    Nvapi,
    Nvml,
}

/// The backends discovery must open to run `command` through `adapter`:
/// NVAPI commands that also read NVML data open both.
pub fn discovery_backend_set(command: Command, adapter: BackendAdapter) -> (r: BackendSet)
    ensures
        r == (match adapter {
            BackendAdapter::Nvapi => if command == Command::GetInfo || command == Command::GetUuid
                || command == Command::SetPstateLock {
                BackendSet::Both
            } else {
                BackendSet::Nvapi
            },
            BackendAdapter::Nvml => BackendSet::Nvml,
        }),
{
    match (command, adapter) {
        (Command::GetInfo, BackendAdapter::Nvapi) => BackendSet::Both,
        (Command::GetUuid, BackendAdapter::Nvapi) => BackendSet::Both,
        (Command::SetPstateLock, BackendAdapter::Nvapi) => BackendSet::Both,
        (_, BackendAdapter::Nvapi) => BackendSet::Nvapi,
        (_, BackendAdapter::Nvml) => BackendSet::Nvml,
    }
}

/// Whether a target with the given backends runs `command` through
/// `adapter` (the NVAPI P-State lock also needs NVML).
pub fn target_supports(has_nvapi: bool, has_nvml: bool, command: Command, adapter: BackendAdapter) -> (b: bool)
    ensures
        b == (match adapter {
            BackendAdapter::Nvapi => has_nvapi && (command != Command::SetPstateLock || has_nvml),
            BackendAdapter::Nvml => has_nvml,
        }),
{
    match adapter {
        BackendAdapter::Nvapi => has_nvapi && (command != Command::SetPstateLock || has_nvml),
        BackendAdapter::Nvml => has_nvml,
    }
}

} // verus!
verus! {

/// Every command is listed.
proof fn lemma_all_commands_listed(c: Command)
    ensures
        all_commands().contains(c),
{
    match c {
        Command::ListGpus => {
            assert(all_commands()[0] == Command::ListGpus);
        },
        Command::ListDisplays => {
            assert(all_commands()[1] == Command::ListDisplays);
        },
        Command::GetInfo => {
            assert(all_commands()[2] == Command::GetInfo);
        },
        Command::GetUuid => {
            assert(all_commands()[3] == Command::GetUuid);
        },
        Command::GetStatus => {
            assert(all_commands()[4] == Command::GetStatus);
        },
        Command::GetSettings => {
            assert(all_commands()[5] == Command::GetSettings);
        },
        Command::GetVfp => {
            assert(all_commands()[6] == Command::GetVfp);
        },
        Command::GetVfpPointVoltageMv => {
            assert(all_commands()[7] == Command::GetVfpPointVoltageMv);
        },
        Command::GetPowerWatt => {
            assert(all_commands()[8] == Command::GetPowerWatt);
        },
        Command::GetClockOffsetMhz => {
            assert(all_commands()[9] == Command::GetClockOffsetMhz);
        },
        Command::GetPstates => {
            assert(all_commands()[10] == Command::GetPstates);
        },
        Command::GetSupportedAppClocks => {
            assert(all_commands()[11] == Command::GetSupportedAppClocks);
        },
        Command::GetFanInfo => {
            assert(all_commands()[12] == Command::GetFanInfo);
        },
        Command::GetTemperatureThresholds => {
            assert(all_commands()[13] == Command::GetTemperatureThresholds);
        },
        Command::GetThrottleReasons => {
            assert(all_commands()[14] == Command::GetThrottleReasons);
        },
        Command::GetTdpTempLimits => {
            assert(all_commands()[15] == Command::GetTdpTempLimits);
        },
        Command::ProbeVoltageLimits => {
            assert(all_commands()[16] == Command::ProbeVoltageLimits);
        },
        Command::CheckVoltageFrequency => {
            assert(all_commands()[17] == Command::CheckVoltageFrequency);
        },
        Command::GetLegacyOvervoltRanges => {
            assert(all_commands()[18] == Command::GetLegacyOvervoltRanges);
        },
        Command::GetLegacyP0CoreMaxVoltageDelta => {
            assert(all_commands()[19] == Command::GetLegacyP0CoreMaxVoltageDelta);
        },
        Command::GetPstateBaseVoltageUv => {
            assert(all_commands()[20] == Command::GetPstateBaseVoltageUv);
        },
        Command::GetVoltageBoostPercent => {
            assert(all_commands()[21] == Command::GetVoltageBoostPercent);
        },
        Command::GetAutoBoost => {
            assert(all_commands()[22] == Command::GetAutoBoost);
        },
        Command::GetApiRestriction => {
            assert(all_commands()[23] == Command::GetApiRestriction);
        },
        Command::GetEdid => {
            assert(all_commands()[24] == Command::GetEdid);
        },
        Command::SetCoreOffsetMhz => {
            assert(all_commands()[25] == Command::SetCoreOffsetMhz);
        },
        Command::SetMemoryOffsetMhz => {
            assert(all_commands()[26] == Command::SetMemoryOffsetMhz);
        },
        Command::SetClockOffsetMhz => {
            assert(all_commands()[27] == Command::SetClockOffsetMhz);
        },
        Command::SetPowerWatt => {
            assert(all_commands()[28] == Command::SetPowerWatt);
        },
        Command::SetPowerPercent => {
            assert(all_commands()[29] == Command::SetPowerPercent);
        },
        Command::SetThermalLimitC => {
            assert(all_commands()[30] == Command::SetThermalLimitC);
        },
        Command::SetFanPercent => {
            assert(all_commands()[31] == Command::SetFanPercent);
        },
        Command::SetLockedClocksMhz => {
            assert(all_commands()[32] == Command::SetLockedClocksMhz);
        },
        Command::SetVfpVoltageLock => {
            assert(all_commands()[33] == Command::SetVfpVoltageLock);
        },
        Command::SetVfpPointDeltaMhz => {
            assert(all_commands()[34] == Command::SetVfpPointDeltaMhz);
        },
        Command::SetVfpRangeDeltaMhz => {
            assert(all_commands()[35] == Command::SetVfpRangeDeltaMhz);
        },
        Command::SetPstateLock => {
            assert(all_commands()[36] == Command::SetPstateLock);
        },
        Command::SetApplicationsClocksMhz => {
            assert(all_commands()[37] == Command::SetApplicationsClocksMhz);
        },
        Command::SetPstateBaseVoltageUv => {
            assert(all_commands()[38] == Command::SetPstateBaseVoltageUv);
        },
        Command::SetVoltageBoostPercent => {
            assert(all_commands()[39] == Command::SetVoltageBoostPercent);
        },
        Command::SetAutoBoost => {
            assert(all_commands()[40] == Command::SetAutoBoost);
        },
        Command::SetAutoBoostDefault => {
            assert(all_commands()[41] == Command::SetAutoBoostDefault);
        },
        Command::SetApiRestriction => {
            assert(all_commands()[42] == Command::SetApiRestriction);
        },
        Command::SetEdid => {
            assert(all_commands()[43] == Command::SetEdid);
        },
        Command::ClearEdid => {
            assert(all_commands()[44] == Command::ClearEdid);
        },
        Command::SetLegacyClocksMhz => {
            assert(all_commands()[45] == Command::SetLegacyClocksMhz);
        },
        Command::ResetCoreOffsetMhz => {
            assert(all_commands()[46] == Command::ResetCoreOffsetMhz);
        },
        Command::ResetMemoryOffsetMhz => {
            assert(all_commands()[47] == Command::ResetMemoryOffsetMhz);
        },
        Command::ResetApplicationsClocks => {
            assert(all_commands()[48] == Command::ResetApplicationsClocks);
        },
        Command::ResetLockedClocks => {
            assert(all_commands()[49] == Command::ResetLockedClocks);
        },
        Command::ResetFan => {
            assert(all_commands()[50] == Command::ResetFan);
        },
        Command::ResetVfpDeltas => {
            assert(all_commands()[51] == Command::ResetVfpDeltas);
        },
        Command::ResetVfpLock => {
            assert(all_commands()[52] == Command::ResetVfpLock);
        },
        Command::ResetPowerPercent => {
            assert(all_commands()[53] == Command::ResetPowerPercent);
        },
        Command::ResetThermalLimitC => {
            assert(all_commands()[54] == Command::ResetThermalLimitC);
        },
        Command::ResetPstateBaseVoltages => {
            assert(all_commands()[55] == Command::ResetPstateBaseVoltages);
        },
        Command::ResetPstateClockOffsets => {
            assert(all_commands()[56] == Command::ResetPstateClockOffsets);
        },
        Command::ResetVoltageBoostPercent => {
            assert(all_commands()[57] == Command::ResetVoltageBoostPercent);
        },
    }
}

proof fn lemma_first_named_sound(cs: Seq<Command>, raw: Seq<char>)
    ensures
        match first_named(cs, raw) {
            Some(d) => command_name(d) == raw && cs.contains(d),
            None => forall|i: int| 0 <= i < cs.len() ==> command_name(#[trigger] cs[i]) != raw,
        },
    decreases cs.len(),
{
    if cs.len() > 0 {
        lemma_first_named_sound(cs.drop_first(), raw);
        if command_name(cs[0]) != raw {
            match first_named(cs.drop_first(), raw) {
                Some(d) => {
                    let j = choose|j: int| 0 <= j < cs.drop_first().len() && cs.drop_first()[j] == d;
                    assert(cs[j + 1] == d);
                },
                None => {
                    assert forall|i: int| 0 <= i < cs.len() implies command_name(#[trigger] cs[i])
                        != raw by {
                        if i > 0 {
                            assert(cs[i] == cs.drop_first()[i - 1]);
                        }
                    }
                },
            }
        } else {
            assert(cs[0] == cs[0]);
        }
    }
}

/// Looking a command up by its own name finds a command of that name: the
/// names the table gives are all accepted by the parser.
proof fn lemma_command_name_round_trip(c: Command)
    ensures
        command_named(command_name(c)) matches Some(d) && command_name(d) == command_name(c),
{
    lemma_all_commands_listed(c);
    lemma_first_named_sound(all_commands(), command_name(c));
    let i = choose|i: int| 0 <= i < all_commands().len() && all_commands()[i] == c;
    assert(command_name(all_commands()[i]) == command_name(c));
}

/// The command whose name is `s`, read off the name table directly.
spec fn command_by_name(s: Seq<char>) -> Option<Command> {
    if s == "list-gpus"@ {
        Some(Command::ListGpus)
    } else if s == "list-displays"@ {
        Some(Command::ListDisplays)
    } else if s == "get-info"@ {
        Some(Command::GetInfo)
    } else if s == "get-uuid"@ {
        Some(Command::GetUuid)
    } else if s == "get-status"@ {
        Some(Command::GetStatus)
    } else if s == "get-settings"@ {
        Some(Command::GetSettings)
    } else if s == "get-vfp"@ {
        Some(Command::GetVfp)
    } else if s == "get-vfp-point-voltage-mv"@ {
        Some(Command::GetVfpPointVoltageMv)
    } else if s == "get-power-watt"@ {
        Some(Command::GetPowerWatt)
    } else if s == "get-clock-offset-mhz"@ {
        Some(Command::GetClockOffsetMhz)
    } else if s == "get-pstates"@ {
        Some(Command::GetPstates)
    } else if s == "get-supported-app-clocks"@ {
        Some(Command::GetSupportedAppClocks)
    } else if s == "get-fan-info"@ {
        Some(Command::GetFanInfo)
    } else if s == "get-temperature-thresholds"@ {
        Some(Command::GetTemperatureThresholds)
    } else if s == "get-throttle-reasons"@ {
        Some(Command::GetThrottleReasons)
    } else if s == "get-tdp-temp-limits"@ {
        Some(Command::GetTdpTempLimits)
    } else if s == "probe-voltage-limits"@ {
        Some(Command::ProbeVoltageLimits)
    } else if s == "check-voltage-frequency"@ {
        Some(Command::CheckVoltageFrequency)
    } else if s == "get-legacy-overvolt-ranges"@ {
        Some(Command::GetLegacyOvervoltRanges)
    } else if s == "get-legacy-p0-core-max-voltage-delta"@ {
        Some(Command::GetLegacyP0CoreMaxVoltageDelta)
    } else if s == "get-pstate-base-voltage-uv"@ {
        Some(Command::GetPstateBaseVoltageUv)
    } else if s == "get-voltage-boost-percent"@ {
        Some(Command::GetVoltageBoostPercent)
    } else if s == "get-auto-boost"@ {
        Some(Command::GetAutoBoost)
    } else if s == "get-api-restriction"@ {
        Some(Command::GetApiRestriction)
    } else if s == "get-edid"@ {
        Some(Command::GetEdid)
    } else if s == "set-core-offset-mhz"@ {
        Some(Command::SetCoreOffsetMhz)
    } else if s == "set-memory-offset-mhz"@ {
        Some(Command::SetMemoryOffsetMhz)
    } else if s == "set-clock-offset-mhz"@ {
        Some(Command::SetClockOffsetMhz)
    } else if s == "set-power-watt"@ {
        Some(Command::SetPowerWatt)
    } else if s == "set-power-percent"@ {
        Some(Command::SetPowerPercent)
    } else if s == "set-thermal-limit-c"@ {
        Some(Command::SetThermalLimitC)
    } else if s == "set-fan-percent"@ {
        Some(Command::SetFanPercent)
    } else if s == "set-locked-clocks-mhz"@ {
        Some(Command::SetLockedClocksMhz)
    } else if s == "set-vfp-voltage-lock"@ {
        Some(Command::SetVfpVoltageLock)
    } else if s == "set-vfp-point-delta-mhz"@ {
        Some(Command::SetVfpPointDeltaMhz)
    } else if s == "set-vfp-range-delta-mhz"@ {
        Some(Command::SetVfpRangeDeltaMhz)
    } else if s == "set-pstate-lock"@ {
        Some(Command::SetPstateLock)
    } else if s == "set-applications-clocks-mhz"@ {
        Some(Command::SetApplicationsClocksMhz)
    } else if s == "set-pstate-base-voltage-uv"@ {
        Some(Command::SetPstateBaseVoltageUv)
    } else if s == "set-voltage-boost-percent"@ {
        Some(Command::SetVoltageBoostPercent)
    } else if s == "set-auto-boost"@ {
        Some(Command::SetAutoBoost)
    } else if s == "set-auto-boost-default"@ {
        Some(Command::SetAutoBoostDefault)
    } else if s == "set-api-restriction"@ {
        Some(Command::SetApiRestriction)
    } else if s == "set-edid"@ {
        Some(Command::SetEdid)
    } else if s == "clear-edid"@ {
        Some(Command::ClearEdid)
    } else if s == "set-legacy-clocks-mhz"@ {
        Some(Command::SetLegacyClocksMhz)
    } else if s == "reset-core-offset-mhz"@ {
        Some(Command::ResetCoreOffsetMhz)
    } else if s == "reset-memory-offset-mhz"@ {
        Some(Command::ResetMemoryOffsetMhz)
    } else if s == "reset-applications-clocks"@ {
        Some(Command::ResetApplicationsClocks)
    } else if s == "reset-locked-clocks"@ {
        Some(Command::ResetLockedClocks)
    } else if s == "reset-fan"@ {
        Some(Command::ResetFan)
    } else if s == "reset-vfp-deltas"@ {
        Some(Command::ResetVfpDeltas)
    } else if s == "reset-vfp-lock"@ {
        Some(Command::ResetVfpLock)
    } else if s == "reset-power-percent"@ {
        Some(Command::ResetPowerPercent)
    } else if s == "reset-thermal-limit-c"@ {
        Some(Command::ResetThermalLimitC)
    } else if s == "reset-pstate-base-voltages"@ {
        Some(Command::ResetPstateBaseVoltages)
    } else if s == "reset-pstate-clock-offsets"@ {
        Some(Command::ResetPstateClockOffsets)
    } else if s == "reset-voltage-boost-percent"@ {
        Some(Command::ResetVoltageBoostPercent)
    } else {
        None
    }
}

proof fn lemma_command_by_name(c: Command)
    ensures
        command_by_name(command_name(c)) == Some(c),
{
    reveal_strlit("list-gpus");
    reveal_strlit("list-displays");
    reveal_strlit("get-info");
    reveal_strlit("get-uuid");
    reveal_strlit("get-status");
    reveal_strlit("get-settings");
    reveal_strlit("get-vfp");
    reveal_strlit("get-vfp-point-voltage-mv");
    reveal_strlit("get-power-watt");
    reveal_strlit("get-clock-offset-mhz");
    reveal_strlit("get-pstates");
    reveal_strlit("get-supported-app-clocks");
    reveal_strlit("get-fan-info");
    reveal_strlit("get-temperature-thresholds");
    reveal_strlit("get-throttle-reasons");
    reveal_strlit("get-tdp-temp-limits");
    reveal_strlit("probe-voltage-limits");
    reveal_strlit("check-voltage-frequency");
    reveal_strlit("get-legacy-overvolt-ranges");
    reveal_strlit("get-legacy-p0-core-max-voltage-delta");
    reveal_strlit("get-pstate-base-voltage-uv");
    reveal_strlit("get-voltage-boost-percent");
    reveal_strlit("get-auto-boost");
    reveal_strlit("get-api-restriction");
    reveal_strlit("get-edid");
    reveal_strlit("set-core-offset-mhz");
    reveal_strlit("set-memory-offset-mhz");
    reveal_strlit("set-clock-offset-mhz");
    reveal_strlit("set-power-watt");
    reveal_strlit("set-power-percent");
    reveal_strlit("set-thermal-limit-c");
    reveal_strlit("set-fan-percent");
    reveal_strlit("set-locked-clocks-mhz");
    reveal_strlit("set-vfp-voltage-lock");
    reveal_strlit("set-vfp-point-delta-mhz");
    reveal_strlit("set-vfp-range-delta-mhz");
    reveal_strlit("set-pstate-lock");
    reveal_strlit("set-applications-clocks-mhz");
    reveal_strlit("set-pstate-base-voltage-uv");
    reveal_strlit("set-voltage-boost-percent");
    reveal_strlit("set-auto-boost");
    reveal_strlit("set-auto-boost-default");
    reveal_strlit("set-api-restriction");
    reveal_strlit("set-edid");
    reveal_strlit("clear-edid");
    reveal_strlit("set-legacy-clocks-mhz");
    reveal_strlit("reset-core-offset-mhz");
    reveal_strlit("reset-memory-offset-mhz");
    reveal_strlit("reset-applications-clocks");
    reveal_strlit("reset-locked-clocks");
    reveal_strlit("reset-fan");
    reveal_strlit("reset-vfp-deltas");
    reveal_strlit("reset-vfp-lock");
    reveal_strlit("reset-power-percent");
    reveal_strlit("reset-thermal-limit-c");
    reveal_strlit("reset-pstate-base-voltages");
    reveal_strlit("reset-pstate-clock-offsets");
    reveal_strlit("reset-voltage-boost-percent");
    assert("list-gpus"@.len() == 9);
    assert("list-displays"@.len() == 13);
    assert("get-info"@.len() == 8);
    assert("get-uuid"@.len() == 8);
    assert("get-status"@.len() == 10);
    assert("get-settings"@.len() == 12);
    assert("get-vfp"@.len() == 7);
    assert("get-vfp-point-voltage-mv"@.len() == 24);
    assert("get-power-watt"@.len() == 14);
    assert("get-clock-offset-mhz"@.len() == 20);
    assert("get-pstates"@.len() == 11);
    assert("get-supported-app-clocks"@.len() == 24);
    assert("get-fan-info"@.len() == 12);
    assert("get-temperature-thresholds"@.len() == 26);
    assert("get-throttle-reasons"@.len() == 20);
    assert("get-tdp-temp-limits"@.len() == 19);
    assert("probe-voltage-limits"@.len() == 20);
    assert("check-voltage-frequency"@.len() == 23);
    assert("get-legacy-overvolt-ranges"@.len() == 26);
    assert("get-legacy-p0-core-max-voltage-delta"@.len() == 36);
    assert("get-pstate-base-voltage-uv"@.len() == 26);
    assert("get-voltage-boost-percent"@.len() == 25);
    assert("get-auto-boost"@.len() == 14);
    assert("get-api-restriction"@.len() == 19);
    assert("get-edid"@.len() == 8);
    assert("set-core-offset-mhz"@.len() == 19);
    assert("set-memory-offset-mhz"@.len() == 21);
    assert("set-clock-offset-mhz"@.len() == 20);
    assert("set-power-watt"@.len() == 14);
    assert("set-power-percent"@.len() == 17);
    assert("set-thermal-limit-c"@.len() == 19);
    assert("set-fan-percent"@.len() == 15);
    assert("set-locked-clocks-mhz"@.len() == 21);
    assert("set-vfp-voltage-lock"@.len() == 20);
    assert("set-vfp-point-delta-mhz"@.len() == 23);
    assert("set-vfp-range-delta-mhz"@.len() == 23);
    assert("set-pstate-lock"@.len() == 15);
    assert("set-applications-clocks-mhz"@.len() == 27);
    assert("set-pstate-base-voltage-uv"@.len() == 26);
    assert("set-voltage-boost-percent"@.len() == 25);
    assert("set-auto-boost"@.len() == 14);
    assert("set-auto-boost-default"@.len() == 22);
    assert("set-api-restriction"@.len() == 19);
    assert("set-edid"@.len() == 8);
    assert("clear-edid"@.len() == 10);
    assert("set-legacy-clocks-mhz"@.len() == 21);
    assert("reset-core-offset-mhz"@.len() == 21);
    assert("reset-memory-offset-mhz"@.len() == 23);
    assert("reset-applications-clocks"@.len() == 25);
    assert("reset-locked-clocks"@.len() == 19);
    assert("reset-fan"@.len() == 9);
    assert("reset-vfp-deltas"@.len() == 16);
    assert("reset-vfp-lock"@.len() == 14);
    assert("reset-power-percent"@.len() == 19);
    assert("reset-thermal-limit-c"@.len() == 21);
    assert("reset-pstate-base-voltages"@.len() == 26);
    assert("reset-pstate-clock-offsets"@.len() == 26);
    assert("reset-voltage-boost-percent"@.len() == 27);
    match c {
        Command::ListGpus => {},
        Command::ListDisplays => {},
        Command::GetInfo => {},
        Command::GetUuid => {
            assert("get-uuid"@[4] != "get-info"@[4]);
        },
        Command::GetStatus => {},
        Command::GetSettings => {},
        Command::GetVfp => {},
        Command::GetVfpPointVoltageMv => {},
        Command::GetPowerWatt => {},
        Command::GetClockOffsetMhz => {},
        Command::GetPstates => {},
        Command::GetSupportedAppClocks => {
            assert("get-supported-app-clocks"@[4] != "get-vfp-point-voltage-mv"@[4]);
        },
        Command::GetFanInfo => {
            assert("get-fan-info"@[4] != "get-settings"@[4]);
        },
        Command::GetTemperatureThresholds => {},
        Command::GetThrottleReasons => {
            assert("get-throttle-reasons"@[4] != "get-clock-offset-mhz"@[4]);
        },
        Command::GetTdpTempLimits => {},
        Command::ProbeVoltageLimits => {
            assert("probe-voltage-limits"@[0] != "get-clock-offset-mhz"@[0]);
            assert("probe-voltage-limits"@[0] != "get-throttle-reasons"@[0]);
        },
        Command::CheckVoltageFrequency => {},
        Command::GetLegacyOvervoltRanges => {
            assert("get-legacy-overvolt-ranges"@[4] != "get-temperature-thresholds"@[4]);
        },
        Command::GetLegacyP0CoreMaxVoltageDelta => {},
        Command::GetPstateBaseVoltageUv => {
            assert("get-pstate-base-voltage-uv"@[4] != "get-temperature-thresholds"@[4]);
            assert("get-pstate-base-voltage-uv"@[4] != "get-legacy-overvolt-ranges"@[4]);
        },
        Command::GetVoltageBoostPercent => {},
        Command::GetAutoBoost => {
            assert("get-auto-boost"@[4] != "get-power-watt"@[4]);
        },
        Command::GetApiRestriction => {
            assert("get-api-restriction"@[4] != "get-tdp-temp-limits"@[4]);
        },
        Command::GetEdid => {
            assert("get-edid"@[4] != "get-info"@[4]);
            assert("get-edid"@[4] != "get-uuid"@[4]);
        },
        Command::SetCoreOffsetMhz => {
            assert("set-core-offset-mhz"@[0] != "get-tdp-temp-limits"@[0]);
            assert("set-core-offset-mhz"@[0] != "get-api-restriction"@[0]);
        },
        Command::SetMemoryOffsetMhz => {},
        Command::SetClockOffsetMhz => {
            assert("set-clock-offset-mhz"@[0] != "get-clock-offset-mhz"@[0]);
            assert("set-clock-offset-mhz"@[0] != "get-throttle-reasons"@[0]);
            assert("set-clock-offset-mhz"@[0] != "probe-voltage-limits"@[0]);
        },
        Command::SetPowerWatt => {
            assert("set-power-watt"@[0] != "get-power-watt"@[0]);
            assert("set-power-watt"@[0] != "get-auto-boost"@[0]);
        },
        Command::SetPowerPercent => {},
        Command::SetThermalLimitC => {
            assert("set-thermal-limit-c"@[0] != "get-tdp-temp-limits"@[0]);
            assert("set-thermal-limit-c"@[0] != "get-api-restriction"@[0]);
            assert("set-thermal-limit-c"@[4] != "set-core-offset-mhz"@[4]);
        },
        Command::SetFanPercent => {},
        Command::SetLockedClocksMhz => {
            assert("set-locked-clocks-mhz"@[4] != "set-memory-offset-mhz"@[4]);
        },
        Command::SetVfpVoltageLock => {
            assert("set-vfp-voltage-lock"@[0] != "get-clock-offset-mhz"@[0]);
            assert("set-vfp-voltage-lock"@[0] != "get-throttle-reasons"@[0]);
            assert("set-vfp-voltage-lock"@[0] != "probe-voltage-limits"@[0]);
            assert("set-vfp-voltage-lock"@[4] != "set-clock-offset-mhz"@[4]);
        },
        Command::SetVfpPointDeltaMhz => {
            assert("set-vfp-point-delta-mhz"@[0] != "check-voltage-frequency"@[0]);
        },
        Command::SetVfpRangeDeltaMhz => {
            assert("set-vfp-range-delta-mhz"@[0] != "check-voltage-frequency"@[0]);
            assert("set-vfp-range-delta-mhz"@[8] != "set-vfp-point-delta-mhz"@[8]);
        },
        Command::SetPstateLock => {
            assert("set-pstate-lock"@[4] != "set-fan-percent"@[4]);
        },
        Command::SetApplicationsClocksMhz => {},
        Command::SetPstateBaseVoltageUv => {
            assert("set-pstate-base-voltage-uv"@[0] != "get-temperature-thresholds"@[0]);
            assert("set-pstate-base-voltage-uv"@[0] != "get-legacy-overvolt-ranges"@[0]);
            assert("set-pstate-base-voltage-uv"@[0] != "get-pstate-base-voltage-uv"@[0]);
        },
        Command::SetVoltageBoostPercent => {
            assert("set-voltage-boost-percent"@[0] != "get-voltage-boost-percent"@[0]);
        },
        Command::SetAutoBoost => {
            assert("set-auto-boost"@[0] != "get-power-watt"@[0]);
            assert("set-auto-boost"@[0] != "get-auto-boost"@[0]);
            assert("set-auto-boost"@[4] != "set-power-watt"@[4]);
        },
        Command::SetAutoBoostDefault => {},
        Command::SetApiRestriction => {
            assert("set-api-restriction"@[0] != "get-tdp-temp-limits"@[0]);
            assert("set-api-restriction"@[0] != "get-api-restriction"@[0]);
            assert("set-api-restriction"@[4] != "set-core-offset-mhz"@[4]);
            assert("set-api-restriction"@[4] != "set-thermal-limit-c"@[4]);
        },
        Command::SetEdid => {
            assert("set-edid"@[0] != "get-info"@[0]);
            assert("set-edid"@[0] != "get-uuid"@[0]);
            assert("set-edid"@[0] != "get-edid"@[0]);
        },
        Command::ClearEdid => {
            assert("clear-edid"@[0] != "get-status"@[0]);
        },
        Command::SetLegacyClocksMhz => {
            assert("set-legacy-clocks-mhz"@[4] != "set-memory-offset-mhz"@[4]);
            assert("set-legacy-clocks-mhz"@[5] != "set-locked-clocks-mhz"@[5]);
        },
        Command::ResetCoreOffsetMhz => {
            assert("reset-core-offset-mhz"@[0] != "set-memory-offset-mhz"@[0]);
            assert("reset-core-offset-mhz"@[0] != "set-locked-clocks-mhz"@[0]);
            assert("reset-core-offset-mhz"@[0] != "set-legacy-clocks-mhz"@[0]);
        },
        Command::ResetMemoryOffsetMhz => {
            assert("reset-memory-offset-mhz"@[0] != "check-voltage-frequency"@[0]);
            assert("reset-memory-offset-mhz"@[0] != "set-vfp-point-delta-mhz"@[0]);
            assert("reset-memory-offset-mhz"@[0] != "set-vfp-range-delta-mhz"@[0]);
        },
        Command::ResetApplicationsClocks => {
            assert("reset-applications-clocks"@[0] != "get-voltage-boost-percent"@[0]);
            assert("reset-applications-clocks"@[0] != "set-voltage-boost-percent"@[0]);
        },
        Command::ResetLockedClocks => {
            assert("reset-locked-clocks"@[0] != "get-tdp-temp-limits"@[0]);
            assert("reset-locked-clocks"@[0] != "get-api-restriction"@[0]);
            assert("reset-locked-clocks"@[0] != "set-core-offset-mhz"@[0]);
            assert("reset-locked-clocks"@[0] != "set-thermal-limit-c"@[0]);
            assert("reset-locked-clocks"@[0] != "set-api-restriction"@[0]);
        },
        Command::ResetFan => {
            assert("reset-fan"@[0] != "list-gpus"@[0]);
        },
        Command::ResetVfpDeltas => {},
        Command::ResetVfpLock => {
            assert("reset-vfp-lock"@[0] != "get-power-watt"@[0]);
            assert("reset-vfp-lock"@[0] != "get-auto-boost"@[0]);
            assert("reset-vfp-lock"@[0] != "set-power-watt"@[0]);
            assert("reset-vfp-lock"@[0] != "set-auto-boost"@[0]);
        },
        Command::ResetPowerPercent => {
            assert("reset-power-percent"@[0] != "get-tdp-temp-limits"@[0]);
            assert("reset-power-percent"@[0] != "get-api-restriction"@[0]);
            assert("reset-power-percent"@[0] != "set-core-offset-mhz"@[0]);
            assert("reset-power-percent"@[0] != "set-thermal-limit-c"@[0]);
            assert("reset-power-percent"@[0] != "set-api-restriction"@[0]);
            assert("reset-power-percent"@[6] != "reset-locked-clocks"@[6]);
        },
        Command::ResetThermalLimitC => {
            assert("reset-thermal-limit-c"@[0] != "set-memory-offset-mhz"@[0]);
            assert("reset-thermal-limit-c"@[0] != "set-locked-clocks-mhz"@[0]);
            assert("reset-thermal-limit-c"@[0] != "set-legacy-clocks-mhz"@[0]);
            assert("reset-thermal-limit-c"@[6] != "reset-core-offset-mhz"@[6]);
        },
        Command::ResetPstateBaseVoltages => {
            assert("reset-pstate-base-voltages"@[0] != "get-temperature-thresholds"@[0]);
            assert("reset-pstate-base-voltages"@[0] != "get-legacy-overvolt-ranges"@[0]);
            assert("reset-pstate-base-voltages"@[0] != "get-pstate-base-voltage-uv"@[0]);
            assert("reset-pstate-base-voltages"@[0] != "set-pstate-base-voltage-uv"@[0]);
        },
        Command::ResetPstateClockOffsets => {
            assert("reset-pstate-clock-offsets"@[0] != "get-temperature-thresholds"@[0]);
            assert("reset-pstate-clock-offsets"@[0] != "get-legacy-overvolt-ranges"@[0]);
            assert("reset-pstate-clock-offsets"@[0] != "get-pstate-base-voltage-uv"@[0]);
            assert("reset-pstate-clock-offsets"@[0] != "set-pstate-base-voltage-uv"@[0]);
            assert("reset-pstate-clock-offsets"@[13] != "reset-pstate-base-voltages"@[13]);
        },
        Command::ResetVoltageBoostPercent => {
            assert("reset-voltage-boost-percent"@[0] != "set-applications-clocks-mhz"@[0]);
        },
    }
}

/// Different commands have different names.
pub proof fn lemma_command_names_distinct(a: Command, b: Command)
    ensures
        command_name(a) == command_name(b) ==> a == b,
{
    lemma_command_by_name(a);
    lemma_command_by_name(b);
}

/// Looking a command up by its own name gives that command back.
pub proof fn lemma_parse_command_name(c: Command)
    ensures
        parse_command_spec(command_name(c)) == Ok::<Command, Seq<char>>(c),
{
    lemma_command_name_round_trip(c);
    let d = command_named(command_name(c))->0;
    lemma_command_names_distinct(c, d);
}

/// Position of a command in the command list.
spec fn command_index(c: Command) -> int {
    match c {
        Command::ListGpus => 0,
        Command::ListDisplays => 1,
        Command::GetInfo => 2,
        Command::GetUuid => 3,
        Command::GetStatus => 4,
        Command::GetSettings => 5,
        Command::GetVfp => 6,
        Command::GetVfpPointVoltageMv => 7,
        Command::GetPowerWatt => 8,
        Command::GetClockOffsetMhz => 9,
        Command::GetPstates => 10,
        Command::GetSupportedAppClocks => 11,
        Command::GetFanInfo => 12,
        Command::GetTemperatureThresholds => 13,
        Command::GetThrottleReasons => 14,
        Command::GetTdpTempLimits => 15,
        Command::ProbeVoltageLimits => 16,
        Command::CheckVoltageFrequency => 17,
        Command::GetLegacyOvervoltRanges => 18,
        Command::GetLegacyP0CoreMaxVoltageDelta => 19,
        Command::GetPstateBaseVoltageUv => 20,
        Command::GetVoltageBoostPercent => 21,
        Command::GetAutoBoost => 22,
        Command::GetApiRestriction => 23,
        Command::GetEdid => 24,
        Command::SetCoreOffsetMhz => 25,
        Command::SetMemoryOffsetMhz => 26,
        Command::SetClockOffsetMhz => 27,
        Command::SetPowerWatt => 28,
        Command::SetPowerPercent => 29,
        Command::SetThermalLimitC => 30,
        Command::SetFanPercent => 31,
        Command::SetLockedClocksMhz => 32,
        Command::SetVfpVoltageLock => 33,
        Command::SetVfpPointDeltaMhz => 34,
        Command::SetVfpRangeDeltaMhz => 35,
        Command::SetPstateLock => 36,
        Command::SetApplicationsClocksMhz => 37,
        Command::SetPstateBaseVoltageUv => 38,
        Command::SetVoltageBoostPercent => 39,
        Command::SetAutoBoost => 40,
        Command::SetAutoBoostDefault => 41,
        Command::SetApiRestriction => 42,
        Command::SetEdid => 43,
        Command::ClearEdid => 44,
        Command::SetLegacyClocksMhz => 45,
        Command::ResetCoreOffsetMhz => 46,
        Command::ResetMemoryOffsetMhz => 47,
        Command::ResetApplicationsClocks => 48,
        Command::ResetLockedClocks => 49,
        Command::ResetFan => 50,
        Command::ResetVfpDeltas => 51,
        Command::ResetVfpLock => 52,
        Command::ResetPowerPercent => 53,
        Command::ResetThermalLimitC => 54,
        Command::ResetPstateBaseVoltages => 55,
        Command::ResetPstateClockOffsets => 56,
        Command::ResetVoltageBoostPercent => 57,
    }
}

/// The command list holds each command exactly once.
pub proof fn lemma_command_list_distinct()
    ensures
        all_commands().no_duplicates(),
        forall|c: Command| #[trigger] all_commands().contains(c),
{
    let cs = all_commands();
    assert forall|i: int| 0 <= i < cs.len() implies command_index(#[trigger] cs[i]) == i by {
        if i == 0 {
            assert(cs[0] == Command::ListGpus);
        } else if i == 1 {
            assert(cs[1] == Command::ListDisplays);
        } else if i == 2 {
            assert(cs[2] == Command::GetInfo);
        } else if i == 3 {
            assert(cs[3] == Command::GetUuid);
        } else if i == 4 {
            assert(cs[4] == Command::GetStatus);
        } else if i == 5 {
            assert(cs[5] == Command::GetSettings);
        } else if i == 6 {
            assert(cs[6] == Command::GetVfp);
        } else if i == 7 {
            assert(cs[7] == Command::GetVfpPointVoltageMv);
        } else if i == 8 {
            assert(cs[8] == Command::GetPowerWatt);
        } else if i == 9 {
            assert(cs[9] == Command::GetClockOffsetMhz);
        } else if i == 10 {
            assert(cs[10] == Command::GetPstates);
        } else if i == 11 {
            assert(cs[11] == Command::GetSupportedAppClocks);
        } else if i == 12 {
            assert(cs[12] == Command::GetFanInfo);
        } else if i == 13 {
            assert(cs[13] == Command::GetTemperatureThresholds);
        } else if i == 14 {
            assert(cs[14] == Command::GetThrottleReasons);
        } else if i == 15 {
            assert(cs[15] == Command::GetTdpTempLimits);
        } else if i == 16 {
            assert(cs[16] == Command::ProbeVoltageLimits);
        } else if i == 17 {
            assert(cs[17] == Command::CheckVoltageFrequency);
        } else if i == 18 {
            assert(cs[18] == Command::GetLegacyOvervoltRanges);
        } else if i == 19 {
            assert(cs[19] == Command::GetLegacyP0CoreMaxVoltageDelta);
        } else if i == 20 {
            assert(cs[20] == Command::GetPstateBaseVoltageUv);
        } else if i == 21 {
            assert(cs[21] == Command::GetVoltageBoostPercent);
        } else if i == 22 {
            assert(cs[22] == Command::GetAutoBoost);
        } else if i == 23 {
            assert(cs[23] == Command::GetApiRestriction);
        } else if i == 24 {
            assert(cs[24] == Command::GetEdid);
        } else if i == 25 {
            assert(cs[25] == Command::SetCoreOffsetMhz);
        } else if i == 26 {
            assert(cs[26] == Command::SetMemoryOffsetMhz);
        } else if i == 27 {
            assert(cs[27] == Command::SetClockOffsetMhz);
        } else if i == 28 {
            assert(cs[28] == Command::SetPowerWatt);
        } else if i == 29 {
            assert(cs[29] == Command::SetPowerPercent);
        } else if i == 30 {
            assert(cs[30] == Command::SetThermalLimitC);
        } else if i == 31 {
            assert(cs[31] == Command::SetFanPercent);
        } else if i == 32 {
            assert(cs[32] == Command::SetLockedClocksMhz);
        } else if i == 33 {
            assert(cs[33] == Command::SetVfpVoltageLock);
        } else if i == 34 {
            assert(cs[34] == Command::SetVfpPointDeltaMhz);
        } else if i == 35 {
            assert(cs[35] == Command::SetVfpRangeDeltaMhz);
        } else if i == 36 {
            assert(cs[36] == Command::SetPstateLock);
        } else if i == 37 {
            assert(cs[37] == Command::SetApplicationsClocksMhz);
        } else if i == 38 {
            assert(cs[38] == Command::SetPstateBaseVoltageUv);
        } else if i == 39 {
            assert(cs[39] == Command::SetVoltageBoostPercent);
        } else if i == 40 {
            assert(cs[40] == Command::SetAutoBoost);
        } else if i == 41 {
            assert(cs[41] == Command::SetAutoBoostDefault);
        } else if i == 42 {
            assert(cs[42] == Command::SetApiRestriction);
        } else if i == 43 {
            assert(cs[43] == Command::SetEdid);
        } else if i == 44 {
            assert(cs[44] == Command::ClearEdid);
        } else if i == 45 {
            assert(cs[45] == Command::SetLegacyClocksMhz);
        } else if i == 46 {
            assert(cs[46] == Command::ResetCoreOffsetMhz);
        } else if i == 47 {
            assert(cs[47] == Command::ResetMemoryOffsetMhz);
        } else if i == 48 {
            assert(cs[48] == Command::ResetApplicationsClocks);
        } else if i == 49 {
            assert(cs[49] == Command::ResetLockedClocks);
        } else if i == 50 {
            assert(cs[50] == Command::ResetFan);
        } else if i == 51 {
            assert(cs[51] == Command::ResetVfpDeltas);
        } else if i == 52 {
            assert(cs[52] == Command::ResetVfpLock);
        } else if i == 53 {
            assert(cs[53] == Command::ResetPowerPercent);
        } else if i == 54 {
            assert(cs[54] == Command::ResetThermalLimitC);
        } else if i == 55 {
            assert(cs[55] == Command::ResetPstateBaseVoltages);
        } else if i == 56 {
            assert(cs[56] == Command::ResetPstateClockOffsets);
        } else if i == 57 {
            assert(cs[57] == Command::ResetVoltageBoostPercent);
        }
    }
    assert forall|i: int, j: int| 0 <= i < cs.len() && 0 <= j < cs.len() && i != j implies cs[i]
        != cs[j] by {
        assert(command_index(cs[i]) == i);
        assert(command_index(cs[j]) == j);
    }
    assert forall|c: Command| #[trigger] cs.contains(c) by {
        lemma_all_commands_listed(c);
    }
}

/// A lower-case ASCII letter or digit.
pub open spec fn name_char(c: char) -> bool {
    ('a' <= c && c <= 'z') || ('0' <= c && c <= '9')
}

/// From position `i` on, `s` is runs of name characters joined by single
/// hyphens, ending in a name character; `after_dash` tells whether the
/// character before `i` was a hyphen.
pub open spec fn hyphen_runs(s: Seq<char>, i: int, after_dash: bool) -> bool
    decreases s.len() - i,
{
    if i >= s.len() {
        !after_dash
    } else if s[i] == '-' {
        !after_dash && hyphen_runs(s, i + 1, true)
    } else {
        name_char(s[i]) && hyphen_runs(s, i + 1, false)
    }
}

/// A command name's shape: lower-case letters and digits, in runs joined
/// by single hyphens, with no hyphen at either end.
pub open spec fn kebab_name(s: Seq<char>) -> bool {
    s.len() > 0 && s[0] != '-' && hyphen_runs(s, 0, false)
}

/// Every command name is lower-case letters and digits joined by hyphens.
pub proof fn lemma_command_name_shape(c: Command)
    ensures
        kebab_name(command_name(c)),
{
    match c {
        Command::ListGpus => {
            reveal_strlit("list-gpus");
            assert(kebab_name("list-gpus"@)) by {
                reveal_with_fuel(hyphen_runs, 10);
            }
        },
        Command::ListDisplays => {
            reveal_strlit("list-displays");
            assert(kebab_name("list-displays"@)) by {
                reveal_with_fuel(hyphen_runs, 14);
            }
        },
        Command::GetInfo => {
            reveal_strlit("get-info");
            assert(kebab_name("get-info"@)) by {
                reveal_with_fuel(hyphen_runs, 9);
            }
        },
        Command::GetUuid => {
            reveal_strlit("get-uuid");
            assert(kebab_name("get-uuid"@)) by {
                reveal_with_fuel(hyphen_runs, 9);
            }
        },
        Command::GetStatus => {
            reveal_strlit("get-status");
            assert(kebab_name("get-status"@)) by {
                reveal_with_fuel(hyphen_runs, 11);
            }
        },
        Command::GetSettings => {
            reveal_strlit("get-settings");
            assert(kebab_name("get-settings"@)) by {
                reveal_with_fuel(hyphen_runs, 13);
            }
        },
        Command::GetVfp => {
            reveal_strlit("get-vfp");
            assert(kebab_name("get-vfp"@)) by {
                reveal_with_fuel(hyphen_runs, 8);
            }
        },
        Command::GetVfpPointVoltageMv => {
            reveal_strlit("get-vfp-point-voltage-mv");
            assert(kebab_name("get-vfp-point-voltage-mv"@)) by {
                reveal_with_fuel(hyphen_runs, 25);
            }
        },
        Command::GetPowerWatt => {
            reveal_strlit("get-power-watt");
            assert(kebab_name("get-power-watt"@)) by {
                reveal_with_fuel(hyphen_runs, 15);
            }
        },
        Command::GetClockOffsetMhz => {
            reveal_strlit("get-clock-offset-mhz");
            assert(kebab_name("get-clock-offset-mhz"@)) by {
                reveal_with_fuel(hyphen_runs, 21);
            }
        },
        Command::GetPstates => {
            reveal_strlit("get-pstates");
            assert(kebab_name("get-pstates"@)) by {
                reveal_with_fuel(hyphen_runs, 12);
            }
        },
        Command::GetSupportedAppClocks => {
            reveal_strlit("get-supported-app-clocks");
            assert(kebab_name("get-supported-app-clocks"@)) by {
                reveal_with_fuel(hyphen_runs, 25);
            }
        },
        Command::GetFanInfo => {
            reveal_strlit("get-fan-info");
            assert(kebab_name("get-fan-info"@)) by {
                reveal_with_fuel(hyphen_runs, 13);
            }
        },
        Command::GetTemperatureThresholds => {
            reveal_strlit("get-temperature-thresholds");
            assert(kebab_name("get-temperature-thresholds"@)) by {
                reveal_with_fuel(hyphen_runs, 27);
            }
        },
        Command::GetThrottleReasons => {
            reveal_strlit("get-throttle-reasons");
            assert(kebab_name("get-throttle-reasons"@)) by {
                reveal_with_fuel(hyphen_runs, 21);
            }
        },
        Command::GetTdpTempLimits => {
            reveal_strlit("get-tdp-temp-limits");
            assert(kebab_name("get-tdp-temp-limits"@)) by {
                reveal_with_fuel(hyphen_runs, 20);
            }
        },
        Command::ProbeVoltageLimits => {
            reveal_strlit("probe-voltage-limits");
            assert(kebab_name("probe-voltage-limits"@)) by {
                reveal_with_fuel(hyphen_runs, 21);
            }
        },
        Command::CheckVoltageFrequency => {
            reveal_strlit("check-voltage-frequency");
            assert(kebab_name("check-voltage-frequency"@)) by {
                reveal_with_fuel(hyphen_runs, 24);
            }
        },
        Command::GetLegacyOvervoltRanges => {
            reveal_strlit("get-legacy-overvolt-ranges");
            assert(kebab_name("get-legacy-overvolt-ranges"@)) by {
                reveal_with_fuel(hyphen_runs, 27);
            }
        },
        Command::GetLegacyP0CoreMaxVoltageDelta => {
            reveal_strlit("get-legacy-p0-core-max-voltage-delta");
            assert(kebab_name("get-legacy-p0-core-max-voltage-delta"@)) by {
                reveal_with_fuel(hyphen_runs, 37);
            }
        },
        Command::GetPstateBaseVoltageUv => {
            reveal_strlit("get-pstate-base-voltage-uv");
            assert(kebab_name("get-pstate-base-voltage-uv"@)) by {
                reveal_with_fuel(hyphen_runs, 27);
            }
        },
        Command::GetVoltageBoostPercent => {
            reveal_strlit("get-voltage-boost-percent");
            assert(kebab_name("get-voltage-boost-percent"@)) by {
                reveal_with_fuel(hyphen_runs, 26);
            }
        },
        Command::GetAutoBoost => {
            reveal_strlit("get-auto-boost");
            assert(kebab_name("get-auto-boost"@)) by {
                reveal_with_fuel(hyphen_runs, 15);
            }
        },
        Command::GetApiRestriction => {
            reveal_strlit("get-api-restriction");
            assert(kebab_name("get-api-restriction"@)) by {
                reveal_with_fuel(hyphen_runs, 20);
            }
        },
        Command::GetEdid => {
            reveal_strlit("get-edid");
            assert(kebab_name("get-edid"@)) by {
                reveal_with_fuel(hyphen_runs, 9);
            }
        },
        Command::SetCoreOffsetMhz => {
            reveal_strlit("set-core-offset-mhz");
            assert(kebab_name("set-core-offset-mhz"@)) by {
                reveal_with_fuel(hyphen_runs, 20);
            }
        },
        Command::SetMemoryOffsetMhz => {
            reveal_strlit("set-memory-offset-mhz");
            assert(kebab_name("set-memory-offset-mhz"@)) by {
                reveal_with_fuel(hyphen_runs, 22);
            }
        },
        Command::SetClockOffsetMhz => {
            reveal_strlit("set-clock-offset-mhz");
            assert(kebab_name("set-clock-offset-mhz"@)) by {
                reveal_with_fuel(hyphen_runs, 21);
            }
        },
        Command::SetPowerWatt => {
            reveal_strlit("set-power-watt");
            assert(kebab_name("set-power-watt"@)) by {
                reveal_with_fuel(hyphen_runs, 15);
            }
        },
        Command::SetPowerPercent => {
            reveal_strlit("set-power-percent");
            assert(kebab_name("set-power-percent"@)) by {
                reveal_with_fuel(hyphen_runs, 18);
            }
        },
        Command::SetThermalLimitC => {
            reveal_strlit("set-thermal-limit-c");
            assert(kebab_name("set-thermal-limit-c"@)) by {
                reveal_with_fuel(hyphen_runs, 20);
            }
        },
        Command::SetFanPercent => {
            reveal_strlit("set-fan-percent");
            assert(kebab_name("set-fan-percent"@)) by {
                reveal_with_fuel(hyphen_runs, 16);
            }
        },
        Command::SetLockedClocksMhz => {
            reveal_strlit("set-locked-clocks-mhz");
            assert(kebab_name("set-locked-clocks-mhz"@)) by {
                reveal_with_fuel(hyphen_runs, 22);
            }
        },
        Command::SetVfpVoltageLock => {
            reveal_strlit("set-vfp-voltage-lock");
            assert(kebab_name("set-vfp-voltage-lock"@)) by {
                reveal_with_fuel(hyphen_runs, 21);
            }
        },
        Command::SetVfpPointDeltaMhz => {
            reveal_strlit("set-vfp-point-delta-mhz");
            assert(kebab_name("set-vfp-point-delta-mhz"@)) by {
                reveal_with_fuel(hyphen_runs, 24);
            }
        },
        Command::SetVfpRangeDeltaMhz => {
            reveal_strlit("set-vfp-range-delta-mhz");
            assert(kebab_name("set-vfp-range-delta-mhz"@)) by {
                reveal_with_fuel(hyphen_runs, 24);
            }
        },
        Command::SetPstateLock => {
            reveal_strlit("set-pstate-lock");
            assert(kebab_name("set-pstate-lock"@)) by {
                reveal_with_fuel(hyphen_runs, 16);
            }
        },
        Command::SetApplicationsClocksMhz => {
            reveal_strlit("set-applications-clocks-mhz");
            assert(kebab_name("set-applications-clocks-mhz"@)) by {
                reveal_with_fuel(hyphen_runs, 28);
            }
        },
        Command::SetPstateBaseVoltageUv => {
            reveal_strlit("set-pstate-base-voltage-uv");
            assert(kebab_name("set-pstate-base-voltage-uv"@)) by {
                reveal_with_fuel(hyphen_runs, 27);
            }
        },
        Command::SetVoltageBoostPercent => {
            reveal_strlit("set-voltage-boost-percent");
            assert(kebab_name("set-voltage-boost-percent"@)) by {
                reveal_with_fuel(hyphen_runs, 26);
            }
        },
        Command::SetAutoBoost => {
            reveal_strlit("set-auto-boost");
            assert(kebab_name("set-auto-boost"@)) by {
                reveal_with_fuel(hyphen_runs, 15);
            }
        },
        Command::SetAutoBoostDefault => {
            reveal_strlit("set-auto-boost-default");
            assert(kebab_name("set-auto-boost-default"@)) by {
                reveal_with_fuel(hyphen_runs, 23);
            }
        },
        Command::SetApiRestriction => {
            reveal_strlit("set-api-restriction");
            assert(kebab_name("set-api-restriction"@)) by {
                reveal_with_fuel(hyphen_runs, 20);
            }
        },
        Command::SetEdid => {
            reveal_strlit("set-edid");
            assert(kebab_name("set-edid"@)) by {
                reveal_with_fuel(hyphen_runs, 9);
            }
        },
        Command::ClearEdid => {
            reveal_strlit("clear-edid");
            assert(kebab_name("clear-edid"@)) by {
                reveal_with_fuel(hyphen_runs, 11);
            }
        },
        Command::SetLegacyClocksMhz => {
            reveal_strlit("set-legacy-clocks-mhz");
            assert(kebab_name("set-legacy-clocks-mhz"@)) by {
                reveal_with_fuel(hyphen_runs, 22);
            }
        },
        Command::ResetCoreOffsetMhz => {
            reveal_strlit("reset-core-offset-mhz");
            assert(kebab_name("reset-core-offset-mhz"@)) by {
                reveal_with_fuel(hyphen_runs, 22);
            }
        },
        Command::ResetMemoryOffsetMhz => {
            reveal_strlit("reset-memory-offset-mhz");
            assert(kebab_name("reset-memory-offset-mhz"@)) by {
                reveal_with_fuel(hyphen_runs, 24);
            }
        },
        Command::ResetApplicationsClocks => {
            reveal_strlit("reset-applications-clocks");
            assert(kebab_name("reset-applications-clocks"@)) by {
                reveal_with_fuel(hyphen_runs, 26);
            }
        },
        Command::ResetLockedClocks => {
            reveal_strlit("reset-locked-clocks");
            assert(kebab_name("reset-locked-clocks"@)) by {
                reveal_with_fuel(hyphen_runs, 20);
            }
        },
        Command::ResetFan => {
            reveal_strlit("reset-fan");
            assert(kebab_name("reset-fan"@)) by {
                reveal_with_fuel(hyphen_runs, 10);
            }
        },
        Command::ResetVfpDeltas => {
            reveal_strlit("reset-vfp-deltas");
            assert(kebab_name("reset-vfp-deltas"@)) by {
                reveal_with_fuel(hyphen_runs, 17);
            }
        },
        Command::ResetVfpLock => {
            reveal_strlit("reset-vfp-lock");
            assert(kebab_name("reset-vfp-lock"@)) by {
                reveal_with_fuel(hyphen_runs, 15);
            }
        },
        Command::ResetPowerPercent => {
            reveal_strlit("reset-power-percent");
            assert(kebab_name("reset-power-percent"@)) by {
                reveal_with_fuel(hyphen_runs, 20);
            }
        },
        Command::ResetThermalLimitC => {
            reveal_strlit("reset-thermal-limit-c");
            assert(kebab_name("reset-thermal-limit-c"@)) by {
                reveal_with_fuel(hyphen_runs, 22);
            }
        },
        Command::ResetPstateBaseVoltages => {
            reveal_strlit("reset-pstate-base-voltages");
            assert(kebab_name("reset-pstate-base-voltages"@)) by {
                reveal_with_fuel(hyphen_runs, 27);
            }
        },
        Command::ResetPstateClockOffsets => {
            reveal_strlit("reset-pstate-clock-offsets");
            assert(kebab_name("reset-pstate-clock-offsets"@)) by {
                reveal_with_fuel(hyphen_runs, 27);
            }
        },
        Command::ResetVoltageBoostPercent => {
            reveal_strlit("reset-voltage-boost-percent");
            assert(kebab_name("reset-voltage-boost-percent"@)) by {
                reveal_with_fuel(hyphen_runs, 28);
            }
        },
    }
}

/// Whether `o` is one of the command-specific option names the command
/// line knows.
pub open spec fn known_option(o: Seq<char>) -> bool {
    o == "domain"@ || o == "pstate"@ || o == "fan"@ || o == "policy"@ || o
        == "infer-missing-default"@ || o == "indexed"@ || o == "no-infer-missing-default"@ || o
        == "feedback"@ || o == "all"@
}

/// Every option a command allows is one of the known option names, and none
/// is listed twice.
pub proof fn lemma_command_options_known(c: Command)
    ensures
        forall|k: int| 0 <= k < command_options(c).len() ==> known_option(#[trigger] command_options(c)[k]),
        command_options(c).no_duplicates(),
{
    reveal_strlit("domain");
    reveal_strlit("pstate");
    reveal_strlit("fan");
    reveal_strlit("policy");
    reveal_strlit("infer-missing-default");
    reveal_strlit("indexed");
    reveal_strlit("no-infer-missing-default");
    reveal_strlit("feedback");
    reveal_strlit("all");
    assert("domain"@.len() == 6);
    assert("pstate"@.len() == 6);
    assert("fan"@.len() == 3);
    assert("policy"@.len() == 6);
    assert("infer-missing-default"@.len() == 21);
    assert("indexed"@.len() == 7);
    assert("no-infer-missing-default"@.len() == 24);
    assert("feedback"@.len() == 8);
    assert("all"@.len() == 3);
    assert("domain"@[0] != "pstate"@[0]);
    match c {
        Command::ListGpus => {},
        Command::ListDisplays => {},
        Command::GetInfo => {},
        Command::GetUuid => {},
        Command::GetStatus => {},
        Command::GetSettings => {},
        Command::GetVfp => {},
        Command::GetVfpPointVoltageMv => {},
        Command::GetPowerWatt => {},
        Command::GetClockOffsetMhz => {},
        Command::GetPstates => {},
        Command::GetSupportedAppClocks => {},
        Command::GetFanInfo => {},
        Command::GetTemperatureThresholds => {},
        Command::GetThrottleReasons => {},
        Command::GetTdpTempLimits => {},
        Command::ProbeVoltageLimits => {},
        Command::CheckVoltageFrequency => {},
        Command::GetLegacyOvervoltRanges => {},
        Command::GetLegacyP0CoreMaxVoltageDelta => {},
        Command::GetPstateBaseVoltageUv => {},
        Command::GetVoltageBoostPercent => {},
        Command::GetAutoBoost => {},
        Command::GetApiRestriction => {},
        Command::GetEdid => {},
        Command::SetCoreOffsetMhz => {},
        Command::SetMemoryOffsetMhz => {},
        Command::SetClockOffsetMhz => {},
        Command::SetPowerWatt => {},
        Command::SetPowerPercent => {},
        Command::SetThermalLimitC => {},
        Command::SetFanPercent => {},
        Command::SetLockedClocksMhz => {},
        Command::SetVfpVoltageLock => {},
        Command::SetVfpPointDeltaMhz => {},
        Command::SetVfpRangeDeltaMhz => {},
        Command::SetPstateLock => {},
        Command::SetApplicationsClocksMhz => {},
        Command::SetPstateBaseVoltageUv => {},
        Command::SetVoltageBoostPercent => {},
        Command::SetAutoBoost => {},
        Command::SetAutoBoostDefault => {},
        Command::SetApiRestriction => {},
        Command::SetEdid => {},
        Command::ClearEdid => {},
        Command::SetLegacyClocksMhz => {},
        Command::ResetCoreOffsetMhz => {},
        Command::ResetMemoryOffsetMhz => {},
        Command::ResetApplicationsClocks => {},
        Command::ResetLockedClocks => {},
        Command::ResetFan => {},
        Command::ResetVfpDeltas => {},
        Command::ResetVfpLock => {},
        Command::ResetPowerPercent => {},
        Command::ResetThermalLimitC => {},
        Command::ResetPstateBaseVoltages => {},
        Command::ResetPstateClockOffsets => {},
        Command::ResetVoltageBoostPercent => {},
    }
}

/// Whether the `i`-th positional argument of `c` may start with a hyphen:
/// the clock offsets, the thermal limit and the base-voltage delta, and the
/// frequency delta that ends the VFP delta commands.
pub open spec fn hyphen_positional(c: Command, i: int) -> bool {
    match c {
        Command::SetCoreOffsetMhz
        | Command::SetMemoryOffsetMhz
        | Command::SetClockOffsetMhz
        | Command::SetThermalLimitC
        | Command::SetPstateBaseVoltageUv => i == 0,
        Command::SetVfpPointDeltaMhz => i == 1,
        Command::SetVfpRangeDeltaMhz => i == 2,
        _ => false,
    }
}

/// Every command lists as many positional arguments as its largest arity,
/// no fewer than its smallest; their ids differ; and exactly the signed
/// values may start with a hyphen.
pub proof fn lemma_positionals_match_arity(c: Command)
    ensures
        command_positionals(c).len() == command_arity(c).1,
        command_arity(c).0 <= command_arity(c).1,
        forall|i: int, j: int|
            0 <= i < j < command_positionals(c).len() ==> (#[trigger] command_positionals(c)[i]).id@
                != (#[trigger] command_positionals(c)[j]).id@,
        forall|i: int|
            0 <= i < command_positionals(c).len() ==> ((#[trigger] command_positionals(c)[i]).allow_hyphen_values
                <==> hyphen_positional(c, i)),
{
    reveal_strlit("arg_api");
    reveal_strlit("arg_boost_percent");
    reveal_strlit("arg_celsius");
    reveal_strlit("arg_core_mhz");
    reveal_strlit("arg_delta_mhz");
    reveal_strlit("arg_delta_uv");
    reveal_strlit("arg_display_id");
    reveal_strlit("arg_edid_hex");
    reveal_strlit("arg_enabled");
    reveal_strlit("arg_end_point");
    reveal_strlit("arg_fan_percent");
    reveal_strlit("arg_first_pstate");
    reveal_strlit("arg_graphics_mhz");
    reveal_strlit("arg_max_mhz");
    reveal_strlit("arg_memory_mhz");
    reveal_strlit("arg_min_mhz");
    reveal_strlit("arg_offset_mhz");
    reveal_strlit("arg_point");
    reveal_strlit("arg_power_percent");
    reveal_strlit("arg_power_watt");
    reveal_strlit("arg_restriction_state");
    reveal_strlit("arg_second_pstate");
    reveal_strlit("arg_start_point");
    reveal_strlit("arg_voltage_target");
    assert("arg_api"@.len() == 7);
    assert("arg_boost_percent"@.len() == 17);
    assert("arg_celsius"@.len() == 11);
    assert("arg_core_mhz"@.len() == 12);
    assert("arg_delta_mhz"@.len() == 13);
    assert("arg_delta_uv"@.len() == 12);
    assert("arg_display_id"@.len() == 14);
    assert("arg_edid_hex"@.len() == 12);
    assert("arg_enabled"@.len() == 11);
    assert("arg_end_point"@.len() == 13);
    assert("arg_fan_percent"@.len() == 15);
    assert("arg_first_pstate"@.len() == 16);
    assert("arg_graphics_mhz"@.len() == 16);
    assert("arg_max_mhz"@.len() == 11);
    assert("arg_memory_mhz"@.len() == 14);
    assert("arg_min_mhz"@.len() == 11);
    assert("arg_offset_mhz"@.len() == 14);
    assert("arg_point"@.len() == 9);
    assert("arg_power_percent"@.len() == 17);
    assert("arg_power_watt"@.len() == 14);
    assert("arg_restriction_state"@.len() == 21);
    assert("arg_second_pstate"@.len() == 17);
    assert("arg_start_point"@.len() == 15);
    assert("arg_voltage_target"@.len() == 18);
    match c {
        Command::ListGpus => {},
        Command::ListDisplays => {},
        Command::GetInfo => {},
        Command::GetUuid => {},
        Command::GetStatus => {},
        Command::GetSettings => {},
        Command::GetVfp => {},
        Command::GetVfpPointVoltageMv => {},
        Command::GetPowerWatt => {},
        Command::GetClockOffsetMhz => {},
        Command::GetPstates => {},
        Command::GetSupportedAppClocks => {},
        Command::GetFanInfo => {},
        Command::GetTemperatureThresholds => {},
        Command::GetThrottleReasons => {},
        Command::GetTdpTempLimits => {},
        Command::ProbeVoltageLimits => {},
        Command::CheckVoltageFrequency => {},
        Command::GetLegacyOvervoltRanges => {},
        Command::GetLegacyP0CoreMaxVoltageDelta => {},
        Command::GetPstateBaseVoltageUv => {},
        Command::GetVoltageBoostPercent => {},
        Command::GetAutoBoost => {},
        Command::GetApiRestriction => {},
        Command::GetEdid => {},
        Command::SetCoreOffsetMhz => {},
        Command::SetMemoryOffsetMhz => {},
        Command::SetClockOffsetMhz => {},
        Command::SetPowerWatt => {},
        Command::SetPowerPercent => {},
        Command::SetThermalLimitC => {},
        Command::SetFanPercent => {},
        Command::SetLockedClocksMhz => {
            assert("arg_min_mhz"@[5] != "arg_max_mhz"@[5]);
        },
        Command::SetVfpVoltageLock => {},
        Command::SetVfpPointDeltaMhz => {},
        Command::SetVfpRangeDeltaMhz => {
            assert("arg_end_point"@[4] != "arg_delta_mhz"@[4]);
        },
        Command::SetPstateLock => {},
        Command::SetApplicationsClocksMhz => {},
        Command::SetPstateBaseVoltageUv => {},
        Command::SetVoltageBoostPercent => {},
        Command::SetAutoBoost => {},
        Command::SetAutoBoostDefault => {},
        Command::SetApiRestriction => {},
        Command::SetEdid => {},
        Command::ClearEdid => {},
        Command::SetLegacyClocksMhz => {},
        Command::ResetCoreOffsetMhz => {},
        Command::ResetMemoryOffsetMhz => {},
        Command::ResetApplicationsClocks => {},
        Command::ResetLockedClocks => {},
        Command::ResetFan => {},
        Command::ResetVfpDeltas => {},
        Command::ResetVfpLock => {},
        Command::ResetPowerPercent => {},
        Command::ResetThermalLimitC => {},
        Command::ResetPstateBaseVoltages => {},
        Command::ResetPstateClockOffsets => {},
        Command::ResetVoltageBoostPercent => {},
    }
}

} // verus!
