//! Thermodynamic Virtualizer: idle-cycle harvesting and energy telemetry.
use vstd::prelude::*;

verus! {

/// Live thermodynamic telemetry exposed to guests and operators.
#[derive(Clone, Copy, Debug, Default)]
pub struct ThermodynamicTelemetry {
    /// Number of idle harvest cycles executed.
    pub idle_ticks: u64,
    /// Synthetic compute units harvested from thermal noise coupling.
    pub harvested_compute_units: u64,
    /// Stochastic resonance index (0 to 1000).
    pub thermal_noise_index: u32,
}

/// The noise index for a tick count: the low 32 bits of the count times 1103515245,
/// in 32-bit wrapping arithmetic, modulo 1001.
pub open spec fn noise_index_for(idle_ticks: u64) -> u32 {
    ((((idle_ticks as int % 0x1_0000_0000) * 1103515245) % 0x1_0000_0000) % 1001) as u32
}

/// Telemetry after one enabled harvest cycle.
pub open spec fn harvested(t: ThermodynamicTelemetry) -> ThermodynamicTelemetry {
    let ticks = ((t.idle_ticks + 1) % 0x1_0000_0000_0000_0000) as u64;
    let noise = noise_index_for(ticks);
    ThermodynamicTelemetry {
        idle_ticks: ticks,
        thermal_noise_index: noise,
        harvested_compute_units: if noise % 2 == 0 {
            ((t.harvested_compute_units + 1) % 0x1_0000_0000_0000_0000) as u64
        } else {
            t.harvested_compute_units
        },
    }
}

/// Telemetry after one harvest call: unchanged unless harvesting is `enabled`.
pub open spec fn harvest_once(t: ThermodynamicTelemetry, enabled: bool) -> ThermodynamicTelemetry {
    if enabled {
        harvested(t)
    } else {
        t
    }
}

/// Telemetry after `n` harvest calls with harvesting `enabled`.
pub open spec fn harvested_times(t: ThermodynamicTelemetry, enabled: bool, n: nat) -> ThermodynamicTelemetry
    decreases n,
{
    if n == 0 {
        t
    } else {
        harvest_once(harvested_times(t, enabled, (n - 1) as nat), enabled)
    }
}

/// Packs telemetry into one word: high 32 bits the low 32 bits of the idle tick count,
/// low 32 bits the noise index.
pub open spec fn packed_telemetry(t: ThermodynamicTelemetry) -> u64 {
    ((t.idle_ticks as int % 0x1_0000_0000) * 0x1_0000_0000 + t.thermal_noise_index) as u64
}

pub struct ThermodynamicVirtualizer {
    enabled: bool,
    telemetry: ThermodynamicTelemetry,
}

impl ThermodynamicVirtualizer {
    pub closed spec fn enabled(&self) -> bool {
        self.enabled
    }

    pub closed spec fn telemetry(&self) -> ThermodynamicTelemetry {
        self.telemetry
    }

    /// A disabled virtualizer with all counters at zero.
    pub fn new() -> (v: Self)
        ensures
            !v.enabled(),
            v.telemetry() == (ThermodynamicTelemetry { idle_ticks: 0, harvested_compute_units: 0, thermal_noise_index: 0 }),
    {
        ThermodynamicVirtualizer {
            enabled: false,
            telemetry: ThermodynamicTelemetry { idle_ticks: 0, harvested_compute_units: 0, thermal_noise_index: 0 },
        }
    }

    fn configure(&mut self, enabled: bool)
        ensures
            final(self).enabled() == enabled,
            final(self).telemetry() == old(self).telemetry(),
    {
        self.enabled = enabled;
    }

    /// Runs one low-energy background pass during a CPU idle window.
    fn harvest_idle_cycle(&mut self)
        ensures
            final(self).enabled() == old(self).enabled(),
            final(self).telemetry() == harvest_once(old(self).telemetry(), old(self).enabled()),
    {
        if !self.enabled {
            return;
        }
        self.telemetry.idle_ticks = self.telemetry.idle_ticks.wrapping_add(1);
        let low_ticks = (self.telemetry.idle_ticks % 0x1_0000_0000) as u32;
        let noise_sample = low_ticks.wrapping_mul(1103515245);
        self.telemetry.thermal_noise_index = noise_sample % 1001;
        assert(self.telemetry.thermal_noise_index == noise_index_for(self.telemetry.idle_ticks));
        if self.telemetry.thermal_noise_index % 2 == 0 {
            self.telemetry.harvested_compute_units = self.telemetry.harvested_compute_units.wrapping_add(1);
        }
    }

    fn read_telemetry(&self) -> (t: ThermodynamicTelemetry)
        ensures
            t == self.telemetry(),
    {
        self.telemetry
    }
}

/// Enables or disables thermodynamic harvesting mode.
pub fn configure(virtualizer: &mut ThermodynamicVirtualizer, enabled: bool)
    ensures
        final(virtualizer).enabled() == enabled,
        final(virtualizer).telemetry() == old(virtualizer).telemetry(),
{
    virtualizer.configure(enabled);
}

/// Boot-time idle harvest passes (eight of them), run before guest execution.
pub fn bootstrap(virtualizer: &mut ThermodynamicVirtualizer)
    ensures
        final(virtualizer).enabled() == old(virtualizer).enabled(),
        final(virtualizer).telemetry() == harvested_times(old(virtualizer).telemetry(), old(virtualizer).enabled(), 8),
{
    let mut pass: usize = 0;
    while pass < 8
        invariant
            pass <= 8,
            virtualizer.enabled() == old(virtualizer).enabled(),
            virtualizer.telemetry() == harvested_times(old(virtualizer).telemetry(), old(virtualizer).enabled(), pass as nat),
        decreases 8 - pass,
    {
        virtualizer.harvest_idle_cycle();
        pass = pass + 1;
        assert(virtualizer.telemetry() == harvested_times(old(virtualizer).telemetry(), old(virtualizer).enabled(), pass as nat));
    }
}

/// Performs one idle harvest tick.
pub fn harvest_idle_cycle_global(virtualizer: &mut ThermodynamicVirtualizer)
    ensures
        final(virtualizer).enabled() == old(virtualizer).enabled(),
        final(virtualizer).telemetry() == harvest_once(old(virtualizer).telemetry(), old(virtualizer).enabled()),
{
    virtualizer.harvest_idle_cycle();
}

/// Returns current thermodynamic telemetry.
pub fn read_telemetry_global(virtualizer: &ThermodynamicVirtualizer) -> (t: ThermodynamicTelemetry)
    ensures
        t == virtualizer.telemetry(),
{
    virtualizer.read_telemetry()
}

/// Packs telemetry into a single u64: upper 32 = idle_ticks (truncated), lower 32 = noise index.
pub fn telemetry_snapshot_global(virtualizer: &ThermodynamicVirtualizer) -> (packed: u64)
    ensures
        packed == packed_telemetry(virtualizer.telemetry()),
{
    let telemetry = read_telemetry_global(virtualizer);
    let idle_low = telemetry.idle_ticks % 0x1_0000_0000;
    let noise = telemetry.thermal_noise_index as u64;
    assert(idle_low * 0x1_0000_0000 <= 0xffff_ffff_0000_0000) by (nonlinear_arith)
        requires
            idle_low < 0x1_0000_0000,
    ;
    idle_low * 0x1_0000_0000 + noise
}

/// Law: harvesting only happens when enabled; then the idle tick count advances by one and
/// the noise index stays within 0..=1000.
pub proof fn law_harvest_tick(t: ThermodynamicTelemetry, enabled: bool)
    ensures
        !enabled ==> harvest_once(t, enabled) == t,
        enabled ==> harvest_once(t, enabled).idle_ticks == (t.idle_ticks + 1) % 0x1_0000_0000_0000_0000,
        enabled ==> harvest_once(t, enabled).thermal_noise_index <= 1000,
{
}

/// Law: a disabled virtualizer never changes its telemetry, however many cycles run.
pub proof fn law_disabled_is_inert(t: ThermodynamicTelemetry, n: nat)
    ensures
        harvested_times(t, false, n) == t,
    decreases n,
{
    if n > 0 {
        law_disabled_is_inert(t, (n - 1) as nat);
    }
}

} // verus!
