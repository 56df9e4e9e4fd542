//! The canonical metric vocabulary, the store of gauge writes, and the translation of a
//! generation-tagged status into canonical metric writes.

use vstd::prelude::*;
use crate::shelly::{
    MeterStatus, Real, RelayStatus, ShellyGen1Status, ShellyGen2Status, ShellyStatus,
    SwitchStatus, SystemStatus, WifiGen1Status, WifiStatus,
};
use crate::text::{decimal, push_decimal};
use vstd::seq_lib::lemma_concat_associative;

verus! {

/// The canonical metrics, independent of the generation they come from.
#[derive(Debug, Clone, Copy, PartialEq, Eq, Structural)]
pub enum MetricName {
    DeviceUp,
    DeviceUptimeSeconds,
    DeviceTemperatureCelsius,
    WifiRssiDbm,
    SwitchOutput,
    SwitchPowerWatts,
    SwitchVoltageVolts,
    SwitchCurrentAmps,
    SwitchPowerFactor,
    SwitchFrequencyHz,
    SwitchEnergyTotalWh,
    SystemRamFreeBytes,
    SystemRamTotalBytes,
    SystemFsFreeBytes,
    SystemFsTotalBytes,
    DeviceUpdateAvailable,
}

/// The exposition name of a metric.
pub open spec fn metric_text(m: MetricName) -> Seq<char> {
    match m {
        MetricName::DeviceUp => "shelly_device_up"@,
        MetricName::DeviceUptimeSeconds => "shelly_device_uptime_seconds"@,
        MetricName::DeviceTemperatureCelsius => "shelly_device_temperature_celsius"@,
        MetricName::WifiRssiDbm => "shelly_wifi_rssi_dbm"@,
        MetricName::SwitchOutput => "shelly_switch_output"@,
        MetricName::SwitchPowerWatts => "shelly_switch_power_watts"@,
        MetricName::SwitchVoltageVolts => "shelly_switch_voltage_volts"@,
        MetricName::SwitchCurrentAmps => "shelly_switch_current_amps"@,
        MetricName::SwitchPowerFactor => "shelly_switch_power_factor"@,
        MetricName::SwitchFrequencyHz => "shelly_switch_frequency_hz"@,
        MetricName::SwitchEnergyTotalWh => "shelly_switch_energy_total_wh"@,
        MetricName::SystemRamFreeBytes => "shelly_system_ram_free_bytes"@,
        MetricName::SystemRamTotalBytes => "shelly_system_ram_total_bytes"@,
        MetricName::SystemFsFreeBytes => "shelly_system_fs_free_bytes"@,
        MetricName::SystemFsTotalBytes => "shelly_system_fs_total_bytes"@,
        MetricName::DeviceUpdateAvailable => "shelly_device_update_available"@,
    }
}

impl MetricName {
    /// The exposition name of the metric.
    pub fn name(&self) -> (r: &'static str)
        ensures
            r@ == metric_text(*self),
    {
        match self {
            MetricName::DeviceUp => "shelly_device_up",
            MetricName::DeviceUptimeSeconds => "shelly_device_uptime_seconds",
            MetricName::DeviceTemperatureCelsius => "shelly_device_temperature_celsius",
            MetricName::WifiRssiDbm => "shelly_wifi_rssi_dbm",
            MetricName::SwitchOutput => "shelly_switch_output",
            MetricName::SwitchPowerWatts => "shelly_switch_power_watts",
            MetricName::SwitchVoltageVolts => "shelly_switch_voltage_volts",
            MetricName::SwitchCurrentAmps => "shelly_switch_current_amps",
            MetricName::SwitchPowerFactor => "shelly_switch_power_factor",
            MetricName::SwitchFrequencyHz => "shelly_switch_frequency_hz",
            MetricName::SwitchEnergyTotalWh => "shelly_switch_energy_total_wh",
            MetricName::SystemRamFreeBytes => "shelly_system_ram_free_bytes",
            MetricName::SystemRamTotalBytes => "shelly_system_ram_total_bytes",
            MetricName::SystemFsFreeBytes => "shelly_system_fs_free_bytes",
            MetricName::SystemFsTotalBytes => "shelly_system_fs_total_bytes",
            MetricName::DeviceUpdateAvailable => "shelly_device_update_available",
        }
    }
}

/// How many labels a metric has.
pub open spec fn arity(m: MetricName) -> nat {
    match m {
        MetricName::DeviceUp | MetricName::DeviceUpdateAvailable => 4,
        MetricName::WifiRssiDbm | MetricName::SwitchOutput | MetricName::SwitchPowerWatts
        | MetricName::SwitchVoltageVolts | MetricName::SwitchCurrentAmps
        | MetricName::SwitchPowerFactor | MetricName::SwitchFrequencyHz
        | MetricName::SwitchEnergyTotalWh => 3,
        _ => 2,
    }
}

/// The label names of a metric, in the order its label values are given.
pub open spec fn label_texts(m: MetricName) -> Seq<Seq<char>> {
    match m {
        MetricName::DeviceUp => seq!["device"@, "host"@, "model"@, "generation"@],
        MetricName::DeviceUpdateAvailable => seq![
            "device"@,
            "host"@,
            "current_version"@,
            "new_version"@,
        ],
        MetricName::WifiRssiDbm => seq!["device"@, "host"@, "ssid"@],
        MetricName::SwitchOutput | MetricName::SwitchPowerWatts | MetricName::SwitchVoltageVolts
        | MetricName::SwitchCurrentAmps | MetricName::SwitchPowerFactor
        | MetricName::SwitchFrequencyHz | MetricName::SwitchEnergyTotalWh => seq![
            "device"@,
            "host"@,
            "channel"@,
        ],
        _ => seq!["device"@, "host"@],
    }
}

/// Every canonical metric, each once.
pub open spec fn all_metrics() -> Seq<MetricName> {
    seq![
        MetricName::DeviceUp,
        MetricName::DeviceUptimeSeconds,
        MetricName::DeviceTemperatureCelsius,
        MetricName::WifiRssiDbm,
        MetricName::SwitchOutput,
        MetricName::SwitchPowerWatts,
        MetricName::SwitchVoltageVolts,
        MetricName::SwitchCurrentAmps,
        MetricName::SwitchPowerFactor,
        MetricName::SwitchFrequencyHz,
        MetricName::SwitchEnergyTotalWh,
        MetricName::SystemRamFreeBytes,
        MetricName::SystemRamTotalBytes,
        MetricName::SystemFsFreeBytes,
        MetricName::SystemFsTotalBytes,
        MetricName::DeviceUpdateAvailable,
    ]
}

impl MetricName {
    /// Every canonical metric, each once, in the order of [`all_metrics`].
    pub fn all() -> (r: Vec<MetricName>)
        ensures
            r@ == all_metrics(),
    {
        let r = vec![
            MetricName::DeviceUp,
            MetricName::DeviceUptimeSeconds,
            MetricName::DeviceTemperatureCelsius,
            MetricName::WifiRssiDbm,
            MetricName::SwitchOutput,
            MetricName::SwitchPowerWatts,
            MetricName::SwitchVoltageVolts,
            MetricName::SwitchCurrentAmps,
            MetricName::SwitchPowerFactor,
            MetricName::SwitchFrequencyHz,
            MetricName::SwitchEnergyTotalWh,
            MetricName::SystemRamFreeBytes,
            MetricName::SystemRamTotalBytes,
            MetricName::SystemFsFreeBytes,
            MetricName::SystemFsTotalBytes,
            MetricName::DeviceUpdateAvailable,
        ];
        assert(r@ =~= all_metrics());
        r
    }

    /// The label names of the metric, in the order its label values are given.
    pub fn label_names(&self) -> (r: Vec<&'static str>)
        ensures
            r@.len() == arity(*self),
            r@.map_values(|s: &'static str| s@) == label_texts(*self),
    {
        proof {
            reveal_strlit("device");
            reveal_strlit("host");
            reveal_strlit("model");
            reveal_strlit("generation");
            reveal_strlit("current_version");
            reveal_strlit("new_version");
            reveal_strlit("ssid");
            reveal_strlit("channel");
        }
        let r = match self {
            MetricName::DeviceUp => vec!["device", "host", "model", "generation"],
            MetricName::DeviceUpdateAvailable => vec!["device", "host", "current_version", "new_version"],
            MetricName::WifiRssiDbm => vec!["device", "host", "ssid"],
            MetricName::SwitchOutput | MetricName::SwitchPowerWatts | MetricName::SwitchVoltageVolts
            | MetricName::SwitchCurrentAmps | MetricName::SwitchPowerFactor
            | MetricName::SwitchFrequencyHz | MetricName::SwitchEnergyTotalWh => vec![
                "device",
                "host",
                "channel",
            ],
            _ => vec!["device", "host"],
        };
        assert(r@.map_values(|s: &'static str| s@) =~= label_texts(*self));
        r
    }
}

/// The value a gauge is set to: an integer gauge, or a decimal reading.
#[derive(Debug, Clone, Copy, PartialEq, Eq, Structural)]
pub enum Value {
    Int(i64),
    Real(Real),
}

/// One gauge write: the metric, its label values in the metric's label order, and the value.
#[derive(Debug)]
pub struct Sample {
    pub metric: MetricName,
    pub labels: Vec<String>,
    pub value: Value,
}

/// A gauge write as the contracts see it.
pub type Write = (MetricName, Seq<Seq<char>>, Value);

pub open spec fn label_values(v: Seq<String>) -> Seq<Seq<char>> {
    v.map_values(|s: String| s@)
}

pub open spec fn write_of(s: Sample) -> Write {
    (s.metric, label_values(s.labels@), s.value)
}

/// The value that the last write of `w` to the series (`m`, `l`) left, if any.
pub open spec fn latest(w: Seq<Write>, m: MetricName, l: Seq<Seq<char>>) -> Option<Value>
    decreases w.len(),
{
    if w.len() == 0 {
        None
    } else if w.last().0 == m && w.last().1 == l {
        Some(w.last().2)
    } else {
        latest(w.drop_last(), m, l)
    }
}

/// Every write of `w` satisfies `p`.
pub open spec fn every_write(w: Seq<Write>, p: spec_fn(Write) -> bool) -> bool {
    forall|i: int| 0 <= i < w.len() ==> #[trigger] p(w[i])
}

/// A write that does not go to the series (`m`, `l`).
pub open spec fn off_series(m: MetricName, l: Seq<Seq<char>>) -> spec_fn(Write) -> bool {
    |x: Write| !(x.0 == m && x.1 == l)
}

/// A write that does not go to metric `m`.
pub open spec fn off_metric(m: MetricName) -> spec_fn(Write) -> bool {
    |x: Write| x.0 != m
}

/// No write of `w` goes to the series (`m`, `l`).
pub open spec fn untouched(w: Seq<Write>, m: MetricName, l: Seq<Seq<char>>) -> bool {
    every_write(w, off_series(m, l))
}

/// No write of `w` goes to metric `m`, whatever its labels.
pub open spec fn metric_untouched(w: Seq<Write>, m: MetricName) -> bool {
    every_write(w, off_metric(m))
}

pub open spec fn dev_labels(n: Seq<char>, h: Seq<char>) -> Seq<Seq<char>> {
    seq![n, h]
}

pub open spec fn chan_labels(n: Seq<char>, h: Seq<char>, c: Seq<char>) -> Seq<Seq<char>> {
    seq![n, h, c]
}

pub open spec fn up_labels(
    n: Seq<char>,
    h: Seq<char>,
    model: Seq<char>,
    generation: Seq<char>,
) -> Seq<Seq<char>> {
    seq![n, h, model, generation]
}

pub open spec fn unknown_text() -> Seq<char> {
    seq!['u', 'n', 'k', 'n', 'o', 'w', 'n']
}

pub open spec fn current_text() -> Seq<char> {
    seq!['c', 'u', 'r', 'r', 'e', 'n', 't']
}

pub open spec fn opt_int(m: MetricName, l: Seq<Seq<char>>, o: Option<i64>) -> Seq<Write> {
    match o {
        Some(x) => seq![(m, l, Value::Int(x))],
        None => Seq::empty(),
    }
}

pub open spec fn opt_real(m: MetricName, l: Seq<Seq<char>>, o: Option<Real>) -> Seq<Write> {
    match o {
        Some(x) => seq![(m, l, Value::Real(x))],
        None => Seq::empty(),
    }
}

pub open spec fn flag(b: bool) -> Value {
    Value::Int(if b { 1 } else { 0 })
}

/// Writes for the first `k` relays: relay `i` sets `switch_output` on channel `i`.
pub open spec fn relay_writes(n: Seq<char>, h: Seq<char>, rs: Seq<RelayStatus>, k: int) -> Seq<
    Write,
>
    decreases k,
{
    if k <= 0 {
        Seq::empty()
    } else {
        relay_writes(n, h, rs, k - 1).push(
            (
                MetricName::SwitchOutput,
                chan_labels(n, h, decimal((k - 1) as nat)),
                flag(rs[k - 1].ison),
            ),
        )
    }
}

/// Writes for the first `k` meters: meter `i` sets power and energy on channel `i`.
pub open spec fn meter_writes(n: Seq<char>, h: Seq<char>, ms: Seq<MeterStatus>, k: int) -> Seq<
    Write,
>
    decreases k,
{
    if k <= 0 {
        Seq::empty()
    } else {
        let l = chan_labels(n, h, decimal((k - 1) as nat));
        meter_writes(n, h, ms, k - 1) + seq![
            (MetricName::SwitchPowerWatts, l, Value::Real(ms[k - 1].power)),
            (MetricName::SwitchEnergyTotalWh, l, Value::Real(ms[k - 1].total)),
        ]
    }
}

pub open spec fn gen1_wifi_writes(n: Seq<char>, h: Seq<char>, w: Option<WifiGen1Status>) -> Seq<
    Write,
> {
    match w {
        Some(wifi) => {
            let ssid = match wifi.ssid {
                Some(s) => s@,
                None => unknown_text(),
            };
            seq![(MetricName::WifiRssiDbm, seq![n, h, ssid], Value::Int(wifi.rssi as i64))]
        },
        None => Seq::empty(),
    }
}

pub open spec fn gen1_relay_part(n: Seq<char>, h: Seq<char>, s: ShellyGen1Status) -> Seq<Write> {
    match s.relays {
        Some(rs) => relay_writes(n, h, rs@, rs@.len() as int),
        None => Seq::empty(),
    }
}

pub open spec fn gen1_meter_part(n: Seq<char>, h: Seq<char>, s: ShellyGen1Status) -> Seq<Write> {
    match s.meters {
        Some(ms) => meter_writes(n, h, ms@, ms@.len() as int),
        None => Seq::empty(),
    }
}

/// RAM readings of a Gen1 status: each one present is written on its own.
pub open spec fn gen1_ram_part(n: Seq<char>, h: Seq<char>, s: ShellyGen1Status) -> Seq<Write> {
    opt_int(MetricName::SystemRamTotalBytes, dev_labels(n, h), s.ram_total) + opt_int(
        MetricName::SystemRamFreeBytes,
        dev_labels(n, h),
        s.ram_free,
    )
}

/// Filesystem readings of a Gen1 status: each one present is written on its own.
pub open spec fn gen1_fs_part(n: Seq<char>, h: Seq<char>, s: ShellyGen1Status) -> Seq<Write> {
    opt_int(MetricName::SystemFsTotalBytes, dev_labels(n, h), s.fs_size) + opt_int(
        MetricName::SystemFsFreeBytes,
        dev_labels(n, h),
        s.fs_free,
    )
}

pub open spec fn gen1_update_part(n: Seq<char>, h: Seq<char>, s: ShellyGen1Status) -> Seq<Write> {
    match s.update {
        Some(u) => if u.has_update {
            let target = match u.new_version {
                Some(v) => v@,
                None => unknown_text(),
            };
            seq![
                (
                    MetricName::DeviceUpdateAvailable,
                    seq![n, h, u.old_version@, target],
                    Value::Int(1),
                ),
            ]
        } else {
            Seq::empty()
        },
        None => Seq::empty(),
    }
}

/// The writes that translating a Gen1 status makes, in order.
pub open spec fn gen1_writes(n: Seq<char>, h: Seq<char>, s: ShellyGen1Status) -> Seq<Write> {
    opt_int(MetricName::DeviceUptimeSeconds, dev_labels(n, h), s.uptime) + opt_real(
        MetricName::DeviceTemperatureCelsius,
        dev_labels(n, h),
        s.temperature,
    ) + gen1_wifi_writes(n, h, s.wifi_sta) + gen1_relay_part(n, h, s) + gen1_meter_part(n, h, s)
        + gen1_ram_part(n, h, s) + gen1_fs_part(n, h, s) + gen1_update_part(n, h, s)
}

pub open spec fn sys_core_writes(n: Seq<char>, h: Seq<char>, y: SystemStatus) -> Seq<Write> {
    let d = dev_labels(n, h);
    seq![
        (MetricName::DeviceUptimeSeconds, d, Value::Int(y.uptime)),
        (MetricName::SystemRamTotalBytes, d, Value::Int(y.ram_size)),
        (MetricName::SystemRamFreeBytes, d, Value::Int(y.ram_free)),
        (MetricName::SystemFsTotalBytes, d, Value::Int(y.fs_size)),
        (MetricName::SystemFsFreeBytes, d, Value::Int(y.fs_free)),
    ]
}

/// The firmware update of the system block: the stable entry only.
pub open spec fn sys_update_writes(n: Seq<char>, h: Seq<char>, y: SystemStatus) -> Seq<Write> {
    match y.available_updates {
        Some(u) => match u.stable {
            Some(st) => seq![
                (
                    MetricName::DeviceUpdateAvailable,
                    seq![n, h, current_text(), st.version@],
                    Value::Int(1),
                ),
            ],
            None => Seq::empty(),
        },
        None => Seq::empty(),
    }
}

pub open spec fn sys_writes(n: Seq<char>, h: Seq<char>, sys: Option<SystemStatus>) -> Seq<Write> {
    match sys {
        Some(y) => sys_core_writes(n, h, y) + sys_update_writes(n, h, y),
        None => Seq::empty(),
    }
}

pub open spec fn gen2_wifi_writes(n: Seq<char>, h: Seq<char>, w: Option<WifiStatus>) -> Seq<
    Write,
> {
    match w {
        Some(wifi) => match (wifi.ssid, wifi.rssi) {
            (Some(ssid), Some(rssi)) => seq![
                (MetricName::WifiRssiDbm, seq![n, h, ssid@], Value::Int(rssi as i64)),
            ],
            _ => Seq::empty(),
        },
        None => Seq::empty(),
    }
}

/// The Celsius temperature a switch reports, if any.
pub open spec fn switch_celsius(sw: SwitchStatus) -> Option<Real> {
    match sw.temperature {
        Some(t) => t.t_c,
        None => None,
    }
}

pub open spec fn switch_energy(sw: SwitchStatus) -> Option<Real> {
    match sw.aenergy {
        Some(e) => Some(e.total),
        None => None,
    }
}

/// The writes for one populated switch on channel `c`.
pub open spec fn switch_writes(n: Seq<char>, h: Seq<char>, c: Seq<char>, sw: SwitchStatus) -> Seq<
    Write,
> {
    let l = chan_labels(n, h, c);
    seq![(MetricName::SwitchOutput, l, flag(sw.output))] + opt_real(
        MetricName::DeviceTemperatureCelsius,
        dev_labels(n, h),
        switch_celsius(sw),
    ) + opt_real(MetricName::SwitchPowerWatts, l, sw.apower) + opt_real(
        MetricName::SwitchVoltageVolts,
        l,
        sw.voltage,
    ) + opt_real(MetricName::SwitchCurrentAmps, l, sw.current) + opt_real(
        MetricName::SwitchPowerFactor,
        l,
        sw.pf,
    ) + opt_real(MetricName::SwitchFrequencyHz, l, sw.freq) + opt_real(
        MetricName::SwitchEnergyTotalWh,
        l,
        switch_energy(sw),
    )
}

pub open spec fn slot_writes(n: Seq<char>, h: Seq<char>, c: nat, o: Option<SwitchStatus>) -> Seq<
    Write,
> {
    match o {
        Some(sw) => switch_writes(n, h, decimal(c), sw),
        None => Seq::empty(),
    }
}

/// The writes that translating a Gen2 status makes, in order: system block, Wi-Fi, then
/// switch slots 0 to 3.
pub open spec fn gen2_writes(n: Seq<char>, h: Seq<char>, s: ShellyGen2Status) -> Seq<Write> {
    sys_writes(n, h, s.sys) + gen2_wifi_writes(n, h, s.wifi) + slot_writes(n, h, 0, s.switch_0)
        + slot_writes(n, h, 1, s.switch_1) + slot_writes(n, h, 2, s.switch_2) + slot_writes(
        n,
        h,
        3,
        s.switch_3,
    )
}

pub open spec fn status_writes(n: Seq<char>, h: Seq<char>, s: ShellyStatus) -> Seq<Write> {
    match s {
        ShellyStatus::Gen1(g) => gen1_writes(n, h, g),
        ShellyStatus::Gen2(g) => gen2_writes(n, h, g),
    }
}

/// The Celsius temperature that switch slot 3 of a Gen2 status reports, if any.
pub open spec fn last_slot_celsius(s: ShellyStatus) -> Option<Real> {
    match s {
        ShellyStatus::Gen2(g) => match g.switch_3 {
            Some(sw) => switch_celsius(sw),
            None => None,
        },
        ShellyStatus::Gen1(_) => None,
    }
}

/// The on/off state of relay 0 of a Gen1 status, if it has relays.
pub open spec fn first_relay(s: ShellyStatus) -> Option<bool> {
    match s {
        ShellyStatus::Gen1(g) => match g.relays {
            Some(rs) => if rs@.len() > 0 {
                Some(rs@[0].ison)
            } else {
                None
            },
            None => None,
        },
        ShellyStatus::Gen2(_) => None,
    }
}

/// The status has nothing to report for metric `m` (see [`gen1_omits`], [`gen2_omits`]).
pub open spec fn status_omits(s: ShellyStatus, m: MetricName) -> bool {
    match s {
        ShellyStatus::Gen1(g) => gen1_omits(g, m),
        ShellyStatus::Gen2(g) => gen2_omits(g, m),
    }
}

/// The gauge writes made so far, in order. A later write to a series replaces the value
/// of an earlier one.
pub struct Metrics {
    samples: Vec<Sample>,
}

fn text(s: &str) -> (r: String)
    ensures
        r@ == s@,
{
    s.to_string()
}

fn two_labels(a: &str, b: &str) -> (r: Vec<String>)
    ensures
        label_values(r@) == seq![a@, b@],
        r@.len() == 2,
{
    let mut r: Vec<String> = Vec::new();
    r.push(text(a));
    r.push(text(b));
    assert(label_values(r@) =~= seq![a@, b@]);
    r
}

fn three_labels(a: &str, b: &str, c: &str) -> (r: Vec<String>)
    ensures
        label_values(r@) == seq![a@, b@, c@],
        r@.len() == 3,
{
    let mut r: Vec<String> = Vec::new();
    r.push(text(a));
    r.push(text(b));
    r.push(text(c));
    assert(label_values(r@) =~= seq![a@, b@, c@]);
    r
}

fn four_labels(a: &str, b: &str, c: &str, d: &str) -> (r: Vec<String>)
    ensures
        label_values(r@) == seq![a@, b@, c@, d@],
        r@.len() == 4,
{
    let mut r: Vec<String> = Vec::new();
    r.push(text(a));
    r.push(text(b));
    r.push(text(c));
    r.push(text(d));
    assert(label_values(r@) =~= seq![a@, b@, c@, d@]);
    r
}

/// The decimal text of a channel index.
fn channel_text(i: u64) -> (r: String)
    ensures
        r@ == decimal(i as nat),
{
    let mut r = String::new();
    push_decimal(&mut r, i);
    assert(r@ =~= decimal(i as nat));
    r
}

impl Metrics {
    /// The writes so far, as the contracts see them.
    pub closed spec fn writes(&self) -> Seq<Write> {
        self.samples@.map_values(|s: Sample| write_of(s))
    }

    /// Every write carries as many label values as its metric has labels.
    pub open spec fn wf(&self) -> bool {
        forall|i: int|
            0 <= i < self.writes().len() ==> #[trigger] self.writes()[i].1.len() == arity(
                self.writes()[i].0,
            )
    }

    /// The value the series (`m`, `l`) holds now, if it was ever written.
    pub open spec fn value_of(&self, m: MetricName, l: Seq<Seq<char>>) -> Option<Value> {
        latest(self.writes(), m, l)
    }

    pub fn new() -> (r: Metrics)
        ensures
            r.writes() == Seq::<Write>::empty(),
            r.wf(),
    {
        let r = Metrics { samples: Vec::new() };
        assert(r.writes() =~= Seq::<Write>::empty());
        r
    }

    /// All writes, oldest first.
    pub fn samples(&self) -> (r: &Vec<Sample>)
        ensures
            r@.map_values(|s: Sample| write_of(s)) == self.writes(),
    {
        &self.samples
    }

    /// Sets the gauge (`metric`, `labels`) to `value`.
    pub fn set(&mut self, metric: MetricName, labels: Vec<String>, value: Value)
        requires
            old(self).wf(),
            labels@.len() == arity(metric),
        ensures
            final(self).wf(),
            final(self).writes() == old(self).writes().push(
                (metric, label_values(labels@), value),
            ),
    {
        let ghost l = label_values(labels@);
        self.samples.push(Sample { metric, labels, value });
        assert(self.writes() =~= old(self).writes().push((metric, l, value)));
        assert forall|i: int| 0 <= i < self.writes().len() implies #[trigger] self.writes()[i].1.len()
            == arity(self.writes()[i].0) by {
            if i < old(self).writes().len() {
                assert(self.writes()[i] == old(self).writes()[i]);
            }
        }
    }

    fn set_opt_int(&mut self, metric: MetricName, labels: Vec<String>, o: Option<i64>)
        requires
            old(self).wf(),
            labels@.len() == arity(metric),
        ensures
            final(self).wf(),
            final(self).writes() == old(self).writes() + opt_int(
                metric,
                label_values(labels@),
                o,
            ),
    {
        match o {
            Some(x) => {
                let ghost l = label_values(labels@);
                self.set(metric, labels, Value::Int(x));
                assert(self.writes() =~= old(self).writes() + opt_int(metric, l, o));
            },
            None => {
                assert(self.writes() =~= old(self).writes() + opt_int(
                    metric,
                    label_values(labels@),
                    o,
                ));
            },
        }
    }

    fn set_opt_real(&mut self, metric: MetricName, labels: Vec<String>, o: Option<Real>)
        requires
            old(self).wf(),
            labels@.len() == arity(metric),
        ensures
            final(self).wf(),
            final(self).writes() == old(self).writes() + opt_real(
                metric,
                label_values(labels@),
                o,
            ),
    {
        match o {
            Some(x) => {
                let ghost l = label_values(labels@);
                self.set(metric, labels, Value::Real(x));
                assert(self.writes() =~= old(self).writes() + opt_real(metric, l, o));
            },
            None => {
                assert(self.writes() =~= old(self).writes() + opt_real(
                    metric,
                    label_values(labels@),
                    o,
                ));
            },
        }
    }

    /// Records that the device is down: `device_up` set to 0 under the given labels.
    pub fn mark_device_down(&mut self, device_name: &str, host: &str, model: &str, generation: &str)
        requires
            old(self).wf(),
        ensures
            final(self).wf(),
            final(self).writes() == old(self).writes().push(
                (
                    MetricName::DeviceUp,
                    up_labels(device_name@, host@, model@, generation@),
                    Value::Int(0),
                ),
            ),
            final(self).value_of(
                MetricName::DeviceUp,
                up_labels(device_name@, host@, model@, generation@),
            ) == Some(Value::Int(0)),
    {
        self.set(MetricName::DeviceUp, four_labels(device_name, host, model, generation), Value::Int(0));
    }

    /// Records `device_up` = 1 for the device, then the writes for each field present in
    /// `status`.
    pub fn update_device(
        &mut self,
        device_name: &str,
        host: &str,
        model: &str,
        generation: &str,
        status: &ShellyStatus,
    )
        requires
            old(self).wf(),
        ensures
            final(self).wf(),
            final(self).writes() == old(self).writes().push(
                (
                    MetricName::DeviceUp,
                    up_labels(device_name@, host@, model@, generation@),
                    Value::Int(1),
                ),
            ) + status_writes(device_name@, host@, *status),
            final(self).value_of(
                MetricName::DeviceUp,
                up_labels(device_name@, host@, model@, generation@),
            ) == Some(Value::Int(1)),
            last_slot_celsius(*status) is Some ==> final(self).value_of(
                MetricName::DeviceTemperatureCelsius,
                dev_labels(device_name@, host@),
            ) == Some(Value::Real(last_slot_celsius(*status)->0)),
            first_relay(*status) is Some ==> final(self).value_of(
                MetricName::SwitchOutput,
                chan_labels(device_name@, host@, seq!['0']),
            ) == Some(flag(first_relay(*status)->0)),
            forall|m: MetricName, l: Seq<Seq<char>>|
                m != MetricName::DeviceUp && status_omits(*status, m)
                    ==> #[trigger] final(self).value_of(m, l) == old(self).value_of(m, l),
    {
        self.set(MetricName::DeviceUp, four_labels(device_name, host, model, generation), Value::Int(1));
        let ghost w1 = self.writes();
        match status {
            ShellyStatus::Gen1(g) => self.update_gen1_metrics(device_name, host, g),
            ShellyStatus::Gen2(g) => self.update_gen2_metrics(device_name, host, g),
        }
        proof {
            let n = device_name@;
            let h = host@;
            let ul = up_labels(n, h, model@, generation@);
            let sw = status_writes(n, h, *status);
            lemma_status_leaves_device_up(n, h, *status);
            lemma_metric_to_series(sw, MetricName::DeviceUp, ul);
            lemma_untouched_latest(sw, MetricName::DeviceUp, ul);
            lemma_latest_concat(w1, sw, MetricName::DeviceUp, ul);
            if status is Gen1 {
                let g = status->Gen1_0;
                if g.relays is Some && g.relays->0@.len() > 0 {
                    lemma_gen1_first_relay_channel(n, h, g);
                    lemma_latest_concat(w1, sw, MetricName::SwitchOutput, chan_labels(n, h, seq!['0']));
                }
            }
            assert forall|m: MetricName, l: Seq<Seq<char>>|
                m != MetricName::DeviceUp && status_omits(*status, m) implies #[trigger] self.value_of(
                    m,
                    l,
                ) == old(self).value_of(m, l) by {
                match *status {
                    ShellyStatus::Gen1(g) => lemma_gen1_absent_unwritten(n, h, g, m),
                    ShellyStatus::Gen2(g) => lemma_gen2_absent_unwritten(n, h, g, m),
                }
                lemma_metric_to_series(sw, m, l);
                lemma_untouched_latest(sw, m, l);
                lemma_latest_concat(w1, sw, m, l);
                assert(w1.drop_last() =~= old(self).writes());
            }
            if status is Gen2 {
                let g = status->Gen2_0;
                if g.switch_3 is Some && switch_celsius(g.switch_3->0) is Some {
                    lemma_gen2_last_slot_temperature(n, h, g, switch_celsius(g.switch_3->0)->0);
                    lemma_latest_concat(w1, sw, MetricName::DeviceTemperatureCelsius, dev_labels(n, h));
                }
            }
        }
    }

    fn update_relays(&mut self, n: &str, h: &str, relays: &Vec<RelayStatus>)
        requires
            old(self).wf(),
        ensures
            final(self).wf(),
            final(self).writes() == old(self).writes() + relay_writes(
                n@,
                h@,
                relays@,
                relays@.len() as int,
            ),
    {
        let len = relays.len();
        let mut i: usize = 0;
        assert(old(self).writes() =~= old(self).writes() + relay_writes(n@, h@, relays@, 0));
        while i < len
            invariant
                len == relays@.len(),
                i <= len,
                self.writes() == old(self).writes() + relay_writes(n@, h@, relays@, i as int),
                self.wf(),
            decreases len - i,
        {
            let channel = channel_text(i as u64);
            let v = if relays[i].ison { 1 } else { 0 };
            self.set(MetricName::SwitchOutput, three_labels(n, h, channel.as_str()), Value::Int(v));
            assert(self.writes() =~= old(self).writes() + relay_writes(n@, h@, relays@, i + 1));
            i = i + 1;
        }
    }

    fn update_meters(&mut self, n: &str, h: &str, meters: &Vec<MeterStatus>)
        requires
            old(self).wf(),
        ensures
            final(self).wf(),
            final(self).writes() == old(self).writes() + meter_writes(
                n@,
                h@,
                meters@,
                meters@.len() as int,
            ),
    {
        let len = meters.len();
        let mut i: usize = 0;
        assert(old(self).writes() =~= old(self).writes() + meter_writes(n@, h@, meters@, 0));
        while i < len
            invariant
                len == meters@.len(),
                i <= len,
                self.writes() == old(self).writes() + meter_writes(n@, h@, meters@, i as int),
                self.wf(),
            decreases len - i,
        {
            let channel = channel_text(i as u64);
            self.set(
                MetricName::SwitchPowerWatts,
                three_labels(n, h, channel.as_str()),
                Value::Real(meters[i].power),
            );
            self.set(
                MetricName::SwitchEnergyTotalWh,
                three_labels(n, h, channel.as_str()),
                Value::Real(meters[i].total),
            );
            assert(self.writes() =~= old(self).writes() + meter_writes(n@, h@, meters@, i + 1));
            i = i + 1;
        }
    }

    fn update_gen1_wifi(&mut self, n: &str, h: &str, status: &ShellyGen1Status)
        requires
            old(self).wf(),
        ensures
            final(self).wf(),
            final(self).writes() == old(self).writes() + gen1_wifi_writes(n@, h@, status.wifi_sta),
    {
        proof {
            reveal_strlit("unknown");
        }
        if let Some(wifi) = &status.wifi_sta {
            let ssid = match &wifi.ssid {
                Some(s) => s.as_str(),
                None => "unknown",
            };
            assert(ssid@ =~= match wifi.ssid { Some(s) => s@, None => unknown_text() });
            self.set(MetricName::WifiRssiDbm, three_labels(n, h, ssid), Value::Int(wifi.rssi as i64));
        }
        assert(self.writes() =~= old(self).writes() + gen1_wifi_writes(n@, h@, status.wifi_sta));
    }

    fn update_gen1_channels(&mut self, n: &str, h: &str, status: &ShellyGen1Status)
        requires
            old(self).wf(),
        ensures
            final(self).wf(),
            final(self).writes() == old(self).writes() + gen1_relay_part(n@, h@, *status)
                + gen1_meter_part(n@, h@, *status),
    {
        if let Some(relays) = &status.relays {
            self.update_relays(n, h, relays);
        }
        assert(self.writes() =~= old(self).writes() + gen1_relay_part(n@, h@, *status));
        let ghost w = self.writes();
        if let Some(meters) = &status.meters {
            self.update_meters(n, h, meters);
        }
        assert(self.writes() =~= w + gen1_meter_part(n@, h@, *status));
    }

    fn update_gen1_system(&mut self, n: &str, h: &str, status: &ShellyGen1Status)
        requires
            old(self).wf(),
        ensures
            final(self).wf(),
            final(self).writes() == old(self).writes() + gen1_ram_part(n@, h@, *status)
                + gen1_fs_part(n@, h@, *status),
    {
        let ghost w0 = self.writes();
        self.set_opt_int(MetricName::SystemRamTotalBytes, two_labels(n, h), status.ram_total);
        self.set_opt_int(MetricName::SystemRamFreeBytes, two_labels(n, h), status.ram_free);
        let ghost w2 = self.writes();
        assert(w2 =~= w0 + gen1_ram_part(n@, h@, *status));
        self.set_opt_int(MetricName::SystemFsTotalBytes, two_labels(n, h), status.fs_size);
        self.set_opt_int(MetricName::SystemFsFreeBytes, two_labels(n, h), status.fs_free);
        assert(self.writes() =~= w2 + gen1_fs_part(n@, h@, *status));
    }

    fn update_gen1_update(&mut self, n: &str, h: &str, status: &ShellyGen1Status)
        requires
            old(self).wf(),
        ensures
            final(self).wf(),
            final(self).writes() == old(self).writes() + gen1_update_part(n@, h@, *status),
    {
        proof {
            reveal_strlit("unknown");
        }
        if let Some(update) = &status.update {
            if update.has_update {
                let target = match &update.new_version {
                    Some(v) => v.as_str(),
                    None => "unknown",
                };
                assert(target@ =~= match update.new_version { Some(v) => v@, None => unknown_text() });
                self.set(
                    MetricName::DeviceUpdateAvailable,
                    four_labels(n, h, update.old_version.as_str(), target),
                    Value::Int(1),
                );
            }
        }
        assert(self.writes() =~= old(self).writes() + gen1_update_part(n@, h@, *status));
    }

    fn update_gen1_metrics(&mut self, n: &str, h: &str, status: &ShellyGen1Status)
        requires
            old(self).wf(),
        ensures
            final(self).wf(),
            final(self).writes() == old(self).writes() + gen1_writes(n@, h@, *status),
    {
        let ghost w0 = self.writes();
        self.set_opt_int(MetricName::DeviceUptimeSeconds, two_labels(n, h), status.uptime);
        let ghost mut acc = opt_int(MetricName::DeviceUptimeSeconds, dev_labels(n@, h@), status.uptime);
        self.set_opt_real(MetricName::DeviceTemperatureCelsius, two_labels(n, h), status.temperature);
        proof {
            let p = opt_real(MetricName::DeviceTemperatureCelsius, dev_labels(n@, h@), status.temperature);
            lemma_concat_associative(w0, acc, p);
            acc = acc + p;
        }
        self.update_gen1_wifi(n, h, status);
        proof {
            let p = gen1_wifi_writes(n@, h@, status.wifi_sta);
            lemma_concat_associative(w0, acc, p);
            acc = acc + p;
        }
        self.update_gen1_channels(n, h, status);
        proof {
            let p = gen1_relay_part(n@, h@, *status);
            let q = gen1_meter_part(n@, h@, *status);
            lemma_concat_associative(w0, acc, p);
            lemma_concat_associative(w0 + acc, p, q);
            lemma_concat_associative(w0, acc + p, q);
            acc = acc + p + q;
        }
        self.update_gen1_system(n, h, status);
        proof {
            let p = gen1_ram_part(n@, h@, *status);
            let q = gen1_fs_part(n@, h@, *status);
            lemma_concat_associative(w0, acc, p);
            lemma_concat_associative(w0 + acc, p, q);
            lemma_concat_associative(w0, acc + p, q);
            acc = acc + p + q;
        }
        self.update_gen1_update(n, h, status);
        proof {
            let p = gen1_update_part(n@, h@, *status);
            lemma_concat_associative(w0, acc, p);
            acc = acc + p;
        }
    }

    fn update_switch(&mut self, n: &str, h: &str, c: u64, sw: &SwitchStatus)
        requires
            old(self).wf(),
        ensures
            final(self).wf(),
            final(self).writes() == old(self).writes() + switch_writes(n@, h@, decimal(c as nat), *sw),
    {
        let channel = channel_text(c);
        let ch = channel.as_str();
        let ghost l = chan_labels(n@, h@, decimal(c as nat));
        let ghost w0 = self.writes();
        self.set(MetricName::SwitchOutput, three_labels(n, h, ch), Value::Int(if sw.output { 1 } else { 0 }));
        let ghost mut acc = seq![(MetricName::SwitchOutput, l, flag(sw.output))];
        assert(self.writes() =~= w0 + acc);
        let t = match &sw.temperature {
            Some(t) => t.t_c,
            None => None,
        };
        self.set_opt_real(MetricName::DeviceTemperatureCelsius, two_labels(n, h), t);
        proof {
            let p = opt_real(MetricName::DeviceTemperatureCelsius, dev_labels(n@, h@), switch_celsius(*sw));
            lemma_concat_associative(w0, acc, p);
            acc = acc + p;
        }
        self.set_opt_real(MetricName::SwitchPowerWatts, three_labels(n, h, ch), sw.apower);
        proof {
            let p = opt_real(MetricName::SwitchPowerWatts, l, sw.apower);
            lemma_concat_associative(w0, acc, p);
            acc = acc + p;
        }
        self.set_opt_real(MetricName::SwitchVoltageVolts, three_labels(n, h, ch), sw.voltage);
        proof {
            let p = opt_real(MetricName::SwitchVoltageVolts, l, sw.voltage);
            lemma_concat_associative(w0, acc, p);
            acc = acc + p;
        }
        self.set_opt_real(MetricName::SwitchCurrentAmps, three_labels(n, h, ch), sw.current);
        proof {
            let p = opt_real(MetricName::SwitchCurrentAmps, l, sw.current);
            lemma_concat_associative(w0, acc, p);
            acc = acc + p;
        }
        self.set_opt_real(MetricName::SwitchPowerFactor, three_labels(n, h, ch), sw.pf);
        proof {
            let p = opt_real(MetricName::SwitchPowerFactor, l, sw.pf);
            lemma_concat_associative(w0, acc, p);
            acc = acc + p;
        }
        self.set_opt_real(MetricName::SwitchFrequencyHz, three_labels(n, h, ch), sw.freq);
        proof {
            let p = opt_real(MetricName::SwitchFrequencyHz, l, sw.freq);
            lemma_concat_associative(w0, acc, p);
            acc = acc + p;
        }
        let e = match &sw.aenergy {
            Some(e) => Some(e.total),
            None => None,
        };
        self.set_opt_real(MetricName::SwitchEnergyTotalWh, three_labels(n, h, ch), e);
        proof {
            let p = opt_real(MetricName::SwitchEnergyTotalWh, l, switch_energy(*sw));
            lemma_concat_associative(w0, acc, p);
            acc = acc + p;
        }
    }

    fn update_slot(&mut self, n: &str, h: &str, c: u64, slot: &Option<SwitchStatus>)
        requires
            old(self).wf(),
        ensures
            final(self).wf(),
            final(self).writes() == old(self).writes() + slot_writes(n@, h@, c as nat, *slot),
    {
        match slot {
            Some(sw) => self.update_switch(n, h, c, sw),
            None => {
                assert(self.writes() =~= old(self).writes() + slot_writes(n@, h@, c as nat, *slot));
            },
        }
    }

    fn update_gen2_metrics(&mut self, n: &str, h: &str, status: &ShellyGen2Status)
        requires
            old(self).wf(),
        ensures
            final(self).wf(),
            final(self).writes() == old(self).writes() + gen2_writes(n@, h@, *status),
    {
        proof {
            reveal_strlit("current");
        }
        let ghost w0 = self.writes();
        if let Some(sys) = &status.sys {
            self.set(MetricName::DeviceUptimeSeconds, two_labels(n, h), Value::Int(sys.uptime));
            self.set(MetricName::SystemRamTotalBytes, two_labels(n, h), Value::Int(sys.ram_size));
            self.set(MetricName::SystemRamFreeBytes, two_labels(n, h), Value::Int(sys.ram_free));
            self.set(MetricName::SystemFsTotalBytes, two_labels(n, h), Value::Int(sys.fs_size));
            self.set(MetricName::SystemFsFreeBytes, two_labels(n, h), Value::Int(sys.fs_free));
            if let Some(updates) = &sys.available_updates {
                if let Some(stable) = &updates.stable {
                    let cur = "current";
                    assert(cur@ =~= current_text());
                    self.set(
                        MetricName::DeviceUpdateAvailable,
                        four_labels(n, h, cur, stable.version.as_str()),
                        Value::Int(1),
                    );
                }
            }
        }
        let ghost mut acc = sys_writes(n@, h@, status.sys);
        assert(self.writes() =~= w0 + acc);
        let ghost w1 = self.writes();
        if let Some(wifi) = &status.wifi {
            if let (Some(ssid), Some(rssi)) = (&wifi.ssid, wifi.rssi) {
                self.set(MetricName::WifiRssiDbm, three_labels(n, h, ssid.as_str()), Value::Int(rssi as i64));
            }
        }
        assert(self.writes() =~= w1 + gen2_wifi_writes(n@, h@, status.wifi));
        proof {
            let p = gen2_wifi_writes(n@, h@, status.wifi);
            lemma_concat_associative(w0, acc, p);
            acc = acc + p;
        }
        self.update_slot(n, h, 0, &status.switch_0);
        proof {
            let p = slot_writes(n@, h@, 0, status.switch_0);
            lemma_concat_associative(w0, acc, p);
            acc = acc + p;
        }
        self.update_slot(n, h, 1, &status.switch_1);
        proof {
            let p = slot_writes(n@, h@, 1, status.switch_1);
            lemma_concat_associative(w0, acc, p);
            acc = acc + p;
        }
        self.update_slot(n, h, 2, &status.switch_2);
        proof {
            let p = slot_writes(n@, h@, 2, status.switch_2);
            lemma_concat_associative(w0, acc, p);
            acc = acc + p;
        }
        self.update_slot(n, h, 3, &status.switch_3);
        proof {
            let p = slot_writes(n@, h@, 3, status.switch_3);
            lemma_concat_associative(w0, acc, p);
            acc = acc + p;
        }
    }
}

/// The last write to a series in `a + b` is the last one in `b`, if `b` has one.
pub proof fn lemma_latest_concat(a: Seq<Write>, b: Seq<Write>, m: MetricName, l: Seq<Seq<char>>)
    ensures
        latest(a + b, m, l) == if latest(b, m, l) is Some {
            latest(b, m, l)
        } else {
            latest(a, m, l)
        },
    decreases b.len(),
{
    if b.len() == 0 {
        assert(a + b =~= a);
    } else {
        assert((a + b).drop_last() =~= a + b.drop_last());
        assert((a + b).last() == b.last());
        lemma_latest_concat(a, b.drop_last(), m, l);
    }
}

/// A sequence of writes none of which goes to a series leaves no value for it.
pub proof fn lemma_untouched_latest(b: Seq<Write>, m: MetricName, l: Seq<Seq<char>>)
    requires
        untouched(b, m, l),
    ensures
        latest(b, m, l) is None,
    decreases b.len(),
{
    if b.len() > 0 {
        let p = off_series(m, l);
        assert(p(b[b.len() - 1]));
        assert(b[b.len() - 1] == b.last());
        assert forall|i: int| 0 <= i < b.drop_last().len() implies #[trigger] p(b.drop_last()[i]) by {
            assert(b.drop_last()[i] == b[i]);
        }
        lemma_untouched_latest(b.drop_last(), m, l);
    }
}

pub proof fn lemma_metric_to_series(w: Seq<Write>, m: MetricName, l: Seq<Seq<char>>)
    requires
        metric_untouched(w, m),
    ensures
        untouched(w, m, l),
{
    assert forall|i: int| 0 <= i < w.len() implies #[trigger] off_series(m, l)(w[i]) by {
        assert(off_metric(m)(w[i]));
    }
}

pub proof fn lemma_every_concat(a: Seq<Write>, b: Seq<Write>, p: spec_fn(Write) -> bool)
    requires
        every_write(a, p),
        every_write(b, p),
    ensures
        every_write(a + b, p),
{
    assert forall|i: int| 0 <= i < (a + b).len() implies #[trigger] p((a + b)[i]) by {
        if i < a.len() {
            assert((a + b)[i] == a[i]);
        } else {
            assert((a + b)[i] == b[i - a.len()]);
        }
    }
}

/// A property of every write of each part of a Gen1 translation holds of all of it.
proof fn lemma_every_gen1(n: Seq<char>, h: Seq<char>, s: ShellyGen1Status, p: spec_fn(Write) -> bool)
    requires
        every_write(opt_int(MetricName::DeviceUptimeSeconds, dev_labels(n, h), s.uptime), p),
        every_write(opt_real(MetricName::DeviceTemperatureCelsius, dev_labels(n, h), s.temperature), p),
        every_write(gen1_wifi_writes(n, h, s.wifi_sta), p),
        every_write(gen1_relay_part(n, h, s), p),
        every_write(gen1_meter_part(n, h, s), p),
        every_write(gen1_ram_part(n, h, s), p),
        every_write(gen1_fs_part(n, h, s), p),
        every_write(gen1_update_part(n, h, s), p),
    ensures
        every_write(gen1_writes(n, h, s), p),
{
    let a = opt_int(MetricName::DeviceUptimeSeconds, dev_labels(n, h), s.uptime);
    let a = a + opt_real(MetricName::DeviceTemperatureCelsius, dev_labels(n, h), s.temperature);
    lemma_every_concat(opt_int(MetricName::DeviceUptimeSeconds, dev_labels(n, h), s.uptime),
        opt_real(MetricName::DeviceTemperatureCelsius, dev_labels(n, h), s.temperature), p);
    lemma_every_concat(a, gen1_wifi_writes(n, h, s.wifi_sta), p);
    let a = a + gen1_wifi_writes(n, h, s.wifi_sta);
    lemma_every_concat(a, gen1_relay_part(n, h, s), p);
    let a = a + gen1_relay_part(n, h, s);
    lemma_every_concat(a, gen1_meter_part(n, h, s), p);
    let a = a + gen1_meter_part(n, h, s);
    lemma_every_concat(a, gen1_ram_part(n, h, s), p);
    let a = a + gen1_ram_part(n, h, s);
    lemma_every_concat(a, gen1_fs_part(n, h, s), p);
    let a = a + gen1_fs_part(n, h, s);
    lemma_every_concat(a, gen1_update_part(n, h, s), p);
}

/// A property of every write of each part of one switch's writes holds of all of them.
proof fn lemma_every_switch(
    n: Seq<char>,
    h: Seq<char>,
    c: Seq<char>,
    sw: SwitchStatus,
    p: spec_fn(Write) -> bool,
)
    requires
        p((MetricName::SwitchOutput, chan_labels(n, h, c), flag(sw.output))),
        every_write(opt_real(MetricName::DeviceTemperatureCelsius, dev_labels(n, h), switch_celsius(sw)), p),
        every_write(opt_real(MetricName::SwitchPowerWatts, chan_labels(n, h, c), sw.apower), p),
        every_write(opt_real(MetricName::SwitchVoltageVolts, chan_labels(n, h, c), sw.voltage), p),
        every_write(opt_real(MetricName::SwitchCurrentAmps, chan_labels(n, h, c), sw.current), p),
        every_write(opt_real(MetricName::SwitchPowerFactor, chan_labels(n, h, c), sw.pf), p),
        every_write(opt_real(MetricName::SwitchFrequencyHz, chan_labels(n, h, c), sw.freq), p),
        every_write(opt_real(MetricName::SwitchEnergyTotalWh, chan_labels(n, h, c), switch_energy(sw)), p),
    ensures
        every_write(switch_writes(n, h, c, sw), p),
{
    let l = chan_labels(n, h, c);
    let a = seq![(MetricName::SwitchOutput, l, flag(sw.output))];
    assert(every_write(a, p));
    let b = opt_real(MetricName::DeviceTemperatureCelsius, dev_labels(n, h), switch_celsius(sw));
    lemma_every_concat(a, b, p);
    let a = a + b;
    let b = opt_real(MetricName::SwitchPowerWatts, l, sw.apower);
    lemma_every_concat(a, b, p);
    let a = a + b;
    let b = opt_real(MetricName::SwitchVoltageVolts, l, sw.voltage);
    lemma_every_concat(a, b, p);
    let a = a + b;
    let b = opt_real(MetricName::SwitchCurrentAmps, l, sw.current);
    lemma_every_concat(a, b, p);
    let a = a + b;
    let b = opt_real(MetricName::SwitchPowerFactor, l, sw.pf);
    lemma_every_concat(a, b, p);
    let a = a + b;
    let b = opt_real(MetricName::SwitchFrequencyHz, l, sw.freq);
    lemma_every_concat(a, b, p);
    let a = a + b;
    let b = opt_real(MetricName::SwitchEnergyTotalWh, l, switch_energy(sw));
    lemma_every_concat(a, b, p);
}

/// A property of every write of each part of a Gen2 translation holds of all of it.
proof fn lemma_every_gen2(n: Seq<char>, h: Seq<char>, s: ShellyGen2Status, p: spec_fn(Write) -> bool)
    requires
        every_write(sys_writes(n, h, s.sys), p),
        every_write(gen2_wifi_writes(n, h, s.wifi), p),
        every_write(slot_writes(n, h, 0, s.switch_0), p),
        every_write(slot_writes(n, h, 1, s.switch_1), p),
        every_write(slot_writes(n, h, 2, s.switch_2), p),
        every_write(slot_writes(n, h, 3, s.switch_3), p),
    ensures
        every_write(gen2_writes(n, h, s), p),
{
    let a = sys_writes(n, h, s.sys);
    lemma_every_concat(a, gen2_wifi_writes(n, h, s.wifi), p);
    let a = a + gen2_wifi_writes(n, h, s.wifi);
    lemma_every_concat(a, slot_writes(n, h, 0, s.switch_0), p);
    let a = a + slot_writes(n, h, 0, s.switch_0);
    lemma_every_concat(a, slot_writes(n, h, 1, s.switch_1), p);
    let a = a + slot_writes(n, h, 1, s.switch_1);
    lemma_every_concat(a, slot_writes(n, h, 2, s.switch_2), p);
    let a = a + slot_writes(n, h, 2, s.switch_2);
    lemma_every_concat(a, slot_writes(n, h, 3, s.switch_3), p);
}

pub proof fn lemma_relay_writes_metric(n: Seq<char>, h: Seq<char>, rs: Seq<RelayStatus>, k: int)
    ensures
        forall|m: MetricName| m != MetricName::SwitchOutput ==> metric_untouched(
            relay_writes(n, h, rs, k),
            m,
        ),
        relay_writes(n, h, rs, k).len() == if k <= 0 { 0 } else { k },
    decreases k,
{
    if k > 0 {
        lemma_relay_writes_metric(n, h, rs, k - 1);
        let prev = relay_writes(n, h, rs, k - 1);
        let w = relay_writes(n, h, rs, k);
        assert forall|m: MetricName| m != MetricName::SwitchOutput implies metric_untouched(w, m) by {
            assert(metric_untouched(prev, m));
            assert forall|i: int| 0 <= i < w.len() implies #[trigger] off_metric(m)(w[i]) by {
                if i < k - 1 {
                    assert(w[i] == prev[i]);
                    assert(off_metric(m)(prev[i]));
                } else {
                    assert(w[i].0 == MetricName::SwitchOutput);
                }
            }
        }
    }
}

pub proof fn lemma_meter_writes_metric(n: Seq<char>, h: Seq<char>, ms: Seq<MeterStatus>, k: int)
    ensures
        forall|m: MetricName|
            m != MetricName::SwitchPowerWatts && m != MetricName::SwitchEnergyTotalWh
                ==> metric_untouched(meter_writes(n, h, ms, k), m),
        meter_writes(n, h, ms, k).len() == if k <= 0 { 0 } else { 2 * k },
    decreases k,
{
    if k > 0 {
        lemma_meter_writes_metric(n, h, ms, k - 1);
        let prev = meter_writes(n, h, ms, k - 1);
        let w = meter_writes(n, h, ms, k);
        assert forall|m: MetricName|
            m != MetricName::SwitchPowerWatts && m != MetricName::SwitchEnergyTotalWh implies metric_untouched(
            w,
            m,
        ) by {
            assert(metric_untouched(prev, m));
            assert forall|i: int| 0 <= i < w.len() implies #[trigger] off_metric(m)(w[i]) by {
                if i < prev.len() {
                    assert(w[i] == prev[i]);
                    assert(off_metric(m)(prev[i]));
                } else if i == prev.len() {
                    assert(w[i].0 == MetricName::SwitchPowerWatts);
                } else {
                    assert(w[i].0 == MetricName::SwitchEnergyTotalWh);
                }
            }
        }
    }
}

/// The Gen1 status has nothing to report for metric `m`: its source field is absent (for
/// relays and meters, absent or empty; for the update, absent or not flagged), or Gen1
/// has no such field at all.
pub open spec fn gen1_omits(s: ShellyGen1Status, m: MetricName) -> bool {
    match m {
        MetricName::DeviceUptimeSeconds => s.uptime is None,
        MetricName::DeviceTemperatureCelsius => s.temperature is None,
        MetricName::WifiRssiDbm => s.wifi_sta is None,
        MetricName::SwitchOutput => match s.relays {
            Some(rs) => rs@.len() == 0,
            None => true,
        },
        MetricName::SwitchPowerWatts | MetricName::SwitchEnergyTotalWh => match s.meters {
            Some(ms) => ms@.len() == 0,
            None => true,
        },
        MetricName::SystemRamTotalBytes => s.ram_total is None,
        MetricName::SystemRamFreeBytes => s.ram_free is None,
        MetricName::SystemFsTotalBytes => s.fs_size is None,
        MetricName::SystemFsFreeBytes => s.fs_free is None,
        MetricName::DeviceUpdateAvailable => match s.update {
            Some(u) => !u.has_update,
            None => true,
        },
        _ => true,
    }
}

/// Gen1: a metric whose source field is absent gets no write; nothing is written as zero
/// in its place.
pub proof fn lemma_gen1_absent_unwritten(n: Seq<char>, h: Seq<char>, s: ShellyGen1Status, m: MetricName)
    requires
        gen1_omits(s, m),
    ensures
        metric_untouched(gen1_writes(n, h, s), m),
{
    let p = off_metric(m);
    let d = dev_labels(n, h);
    if s.relays is Some {
        let rs = s.relays->0;
        lemma_relay_writes_metric(n, h, rs@, rs@.len() as int);
        if m != MetricName::SwitchOutput {
            assert(metric_untouched(relay_writes(n, h, rs@, rs@.len() as int), m));
        }
    }
    if s.meters is Some {
        let ms = s.meters->0;
        lemma_meter_writes_metric(n, h, ms@, ms@.len() as int);
        if m != MetricName::SwitchPowerWatts && m != MetricName::SwitchEnergyTotalWh {
            assert(metric_untouched(meter_writes(n, h, ms@, ms@.len() as int), m));
        }
    }
    assert(every_write(opt_int(MetricName::DeviceUptimeSeconds, d, s.uptime), p));
    assert(every_write(opt_real(MetricName::DeviceTemperatureCelsius, d, s.temperature), p));
    assert(every_write(gen1_wifi_writes(n, h, s.wifi_sta), p));
    assert(every_write(gen1_relay_part(n, h, s), p));
    assert(every_write(gen1_meter_part(n, h, s), p));
    assert(every_write(opt_int(MetricName::SystemRamTotalBytes, d, s.ram_total), p));
    assert(every_write(opt_int(MetricName::SystemRamFreeBytes, d, s.ram_free), p));
    lemma_every_concat(
        opt_int(MetricName::SystemRamTotalBytes, d, s.ram_total),
        opt_int(MetricName::SystemRamFreeBytes, d, s.ram_free),
        p,
    );
    assert(every_write(opt_int(MetricName::SystemFsTotalBytes, d, s.fs_size), p));
    assert(every_write(opt_int(MetricName::SystemFsFreeBytes, d, s.fs_free), p));
    lemma_every_concat(
        opt_int(MetricName::SystemFsTotalBytes, d, s.fs_size),
        opt_int(MetricName::SystemFsFreeBytes, d, s.fs_free),
        p,
    );
    assert(every_write(gen1_update_part(n, h, s), p));
    lemma_every_gen1(n, h, s, p);
}

/// The decimal reading that switch `sw` gives for metric `m`, if any.
pub open spec fn switch_reading(sw: SwitchStatus, m: MetricName) -> Option<Real> {
    match m {
        MetricName::SwitchPowerWatts => sw.apower,
        MetricName::SwitchVoltageVolts => sw.voltage,
        MetricName::SwitchCurrentAmps => sw.current,
        MetricName::SwitchPowerFactor => sw.pf,
        MetricName::SwitchFrequencyHz => sw.freq,
        MetricName::SwitchEnergyTotalWh => switch_energy(sw),
        MetricName::DeviceTemperatureCelsius => switch_celsius(sw),
        _ => None,
    }
}

/// The per-channel decimal readings of a switch.
pub open spec fn is_channel_reading(m: MetricName) -> bool {
    m == MetricName::SwitchPowerWatts || m == MetricName::SwitchVoltageVolts || m
        == MetricName::SwitchCurrentAmps || m == MetricName::SwitchPowerFactor || m
        == MetricName::SwitchFrequencyHz || m == MetricName::SwitchEnergyTotalWh
}

/// The switch slot `o` writes nothing for metric `m`: it is empty, or `m` is neither its
/// output state nor a reading it reports.
pub open spec fn slot_silent(o: Option<SwitchStatus>, m: MetricName) -> bool {
    match o {
        Some(sw) => m != MetricName::SwitchOutput && switch_reading(sw, m) is None,
        None => true,
    }
}

proof fn lemma_slot_silent(n: Seq<char>, h: Seq<char>, c: nat, o: Option<SwitchStatus>, m: MetricName)
    requires
        slot_silent(o, m),
    ensures
        metric_untouched(slot_writes(n, h, c, o), m),
{
    if o is Some {
        let sw = o->0;
        let l = chan_labels(n, h, decimal(c));
        let p = off_metric(m);
        assert(every_write(opt_real(MetricName::DeviceTemperatureCelsius, dev_labels(n, h), switch_celsius(sw)), p));
        assert(every_write(opt_real(MetricName::SwitchPowerWatts, l, sw.apower), p));
        assert(every_write(opt_real(MetricName::SwitchVoltageVolts, l, sw.voltage), p));
        assert(every_write(opt_real(MetricName::SwitchCurrentAmps, l, sw.current), p));
        assert(every_write(opt_real(MetricName::SwitchPowerFactor, l, sw.pf), p));
        assert(every_write(opt_real(MetricName::SwitchFrequencyHz, l, sw.freq), p));
        assert(every_write(opt_real(MetricName::SwitchEnergyTotalWh, l, switch_energy(sw)), p));
        lemma_every_switch(n, h, decimal(c), sw, p);
    }
}

/// The Gen2 status has nothing to report for metric `m`: the block it comes from is absent
/// (for Wi-Fi, also when the ssid or the signal is missing; for the update, when there is
/// no stable entry), or, for switch metrics, no slot reports it.
pub open spec fn gen2_omits(s: ShellyGen2Status, m: MetricName) -> bool {
    match m {
        MetricName::DeviceUp => true,
        MetricName::DeviceUptimeSeconds | MetricName::SystemRamTotalBytes
        | MetricName::SystemRamFreeBytes | MetricName::SystemFsTotalBytes
        | MetricName::SystemFsFreeBytes => s.sys is None,
        MetricName::DeviceUpdateAvailable => match s.sys {
            Some(y) => match y.available_updates {
                Some(u) => u.stable is None,
                None => true,
            },
            None => true,
        },
        MetricName::WifiRssiDbm => match s.wifi {
            Some(w) => w.ssid is None || w.rssi is None,
            None => true,
        },
        _ => slot_silent(s.switch_0, m) && slot_silent(s.switch_1, m) && slot_silent(
            s.switch_2,
            m,
        ) && slot_silent(s.switch_3, m),
    }
}

/// Gen2: a metric that no block or switch slot of the status reports gets no write; in
/// particular no device temperature is written unless some slot reports one.
pub proof fn lemma_gen2_absent_unwritten(n: Seq<char>, h: Seq<char>, s: ShellyGen2Status, m: MetricName)
    requires
        gen2_omits(s, m),
    ensures
        metric_untouched(gen2_writes(n, h, s), m),
{
    let p = off_metric(m);
    lemma_sys_omitted(n, h, s, m);
    assert(every_write(gen2_wifi_writes(n, h, s.wifi), p));
    lemma_slots_silent(s, m);
    lemma_slot_silent(n, h, 0, s.switch_0, m);
    lemma_slot_silent(n, h, 1, s.switch_1, m);
    lemma_slot_silent(n, h, 2, s.switch_2, m);
    lemma_slot_silent(n, h, 3, s.switch_3, m);
    lemma_every_gen2(n, h, s, p);
}

proof fn lemma_sys_omitted(n: Seq<char>, h: Seq<char>, s: ShellyGen2Status, m: MetricName)
    requires
        gen2_omits(s, m),
    ensures
        every_write(sys_writes(n, h, s.sys), off_metric(m)),
{
    if s.sys is Some {
        let y = s.sys->0;
        let p = off_metric(m);
        assert(every_write(sys_core_writes(n, h, y), p));
        assert(every_write(sys_update_writes(n, h, y), p));
        lemma_every_concat(sys_core_writes(n, h, y), sys_update_writes(n, h, y), p);
    }
}

proof fn lemma_slots_silent(s: ShellyGen2Status, m: MetricName)
    requires
        gen2_omits(s, m),
    ensures
        slot_silent(s.switch_0, m),
        slot_silent(s.switch_1, m),
        slot_silent(s.switch_2, m),
        slot_silent(s.switch_3, m),
{
}

/// The writes of a status never touch `device_up`.
pub proof fn lemma_status_leaves_device_up(n: Seq<char>, h: Seq<char>, s: ShellyStatus)
    ensures
        metric_untouched(status_writes(n, h, s), MetricName::DeviceUp),
{
    match s {
        ShellyStatus::Gen1(g) => lemma_gen1_absent_unwritten(n, h, g, MetricName::DeviceUp),
        ShellyStatus::Gen2(g) => lemma_gen2_absent_unwritten(n, h, g, MetricName::DeviceUp),
    }
}

/// Decimal text is never empty, and has at least two digits from ten on.
pub proof fn lemma_decimal_len(n: nat)
    ensures
        decimal(n).len() >= 1,
        n >= 10 ==> decimal(n).len() >= 2,
    decreases n,
{
    if n >= 10 {
        lemma_decimal_len(n / 10);
    }
}

/// The channel texts of two different indices below ten differ.
pub proof fn lemma_small_channels_differ(c: nat, d: nat)
    requires
        c < 10,
        d < 10,
        c != d,
    ensures
        decimal(c) != decimal(d),
{
    assert(decimal(c)[0] != decimal(d)[0]);
}

/// The switch slot with index `c` of a Gen2 status.
pub open spec fn slot_of(s: ShellyGen2Status, c: nat) -> Option<SwitchStatus> {
    if c == 0 {
        s.switch_0
    } else if c == 1 {
        s.switch_1
    } else if c == 2 {
        s.switch_2
    } else {
        s.switch_3
    }
}

proof fn lemma_slot_reading_on_channel(
    n: Seq<char>,
    h: Seq<char>,
    d: nat,
    o: Option<SwitchStatus>,
    c: nat,
    m: MetricName,
)
    requires
        d < 4,
        c < 4,
        is_channel_reading(m),
        d != c || slot_silent(o, m),
    ensures
        untouched(slot_writes(n, h, d, o), m, chan_labels(n, h, decimal(c))),
{
    let lc = chan_labels(n, h, decimal(c));
    if d == c {
        lemma_slot_silent(n, h, d, o, m);
        lemma_metric_to_series(slot_writes(n, h, d, o), m, lc);
    } else if o is Some {
        let sw = o->0;
        let l = chan_labels(n, h, decimal(d));
        lemma_small_channels_differ(c, d);
        assert(l[2] != lc[2]);
        let p = off_series(m, lc);
        assert(every_write(opt_real(MetricName::DeviceTemperatureCelsius, dev_labels(n, h), switch_celsius(sw)), p));
        assert(every_write(opt_real(MetricName::SwitchPowerWatts, l, sw.apower), p));
        assert(every_write(opt_real(MetricName::SwitchVoltageVolts, l, sw.voltage), p));
        assert(every_write(opt_real(MetricName::SwitchCurrentAmps, l, sw.current), p));
        assert(every_write(opt_real(MetricName::SwitchPowerFactor, l, sw.pf), p));
        assert(every_write(opt_real(MetricName::SwitchFrequencyHz, l, sw.freq), p));
        assert(every_write(opt_real(MetricName::SwitchEnergyTotalWh, l, switch_energy(sw)), p));
        lemma_every_switch(n, h, decimal(d), sw, p);
    }
}

/// Gen2: a switch slot that does not report a reading (power, voltage, current, power
/// factor, frequency or energy), or is absent, gets no write of that reading on its
/// channel.
pub proof fn lemma_gen2_absent_reading_unwritten(
    n: Seq<char>,
    h: Seq<char>,
    s: ShellyGen2Status,
    c: nat,
    m: MetricName,
)
    requires
        c < 4,
        is_channel_reading(m),
        match slot_of(s, c) {
            Some(sw) => switch_reading(sw, m) is None,
            None => true,
        },
    ensures
        untouched(gen2_writes(n, h, s), m, chan_labels(n, h, decimal(c))),
{
    let p = off_series(m, chan_labels(n, h, decimal(c)));
    if s.sys is Some {
        let y = s.sys->0;
        assert(every_write(sys_core_writes(n, h, y), p));
        assert(every_write(sys_update_writes(n, h, y), p));
        lemma_every_concat(sys_core_writes(n, h, y), sys_update_writes(n, h, y), p);
    }
    assert(every_write(gen2_wifi_writes(n, h, s.wifi), p));
    lemma_slot_reading_on_channel(n, h, 0, s.switch_0, c, m);
    lemma_slot_reading_on_channel(n, h, 1, s.switch_1, c, m);
    lemma_slot_reading_on_channel(n, h, 2, s.switch_2, c, m);
    lemma_slot_reading_on_channel(n, h, 3, s.switch_3, c, m);
    lemma_every_gen2(n, h, s, p);
}

proof fn lemma_relay_zero_latest(n: Seq<char>, h: Seq<char>, rs: Seq<RelayStatus>, k: int)
    requires
        1 <= k,
    ensures
        latest(relay_writes(n, h, rs, k), MetricName::SwitchOutput, chan_labels(n, h, decimal(0)))
            == Some(flag(rs[0].ison)),
    decreases k,
{
    let w = relay_writes(n, h, rs, k);
    assert(w.drop_last() =~= relay_writes(n, h, rs, k - 1));
    if k > 1 {
        let j = (k - 1) as nat;
        lemma_decimal_len(j);
        if j < 10 {
            lemma_small_channels_differ(0, j);
        }
        assert(decimal(j) != decimal(0));
        assert(chan_labels(n, h, decimal(j))[2] != chan_labels(n, h, decimal(0))[2]);
        lemma_relay_zero_latest(n, h, rs, k - 1);
    }
}

/// Gen1: relay index 0 is reported on channel "0" with its on/off state.
pub proof fn lemma_gen1_first_relay_channel(n: Seq<char>, h: Seq<char>, s: ShellyGen1Status)
    requires
        s.relays matches Some(rs) && rs@.len() > 0,
    ensures
        latest(gen1_writes(n, h, s), MetricName::SwitchOutput, chan_labels(n, h, seq!['0']))
            == Some(flag(s.relays->0@[0].ison)),
{
    let m = MetricName::SwitchOutput;
    let l = chan_labels(n, h, seq!['0']);
    let rs = s.relays->0;
    assert(decimal(0) == seq!['0']);
    lemma_relay_zero_latest(n, h, rs@, rs@.len() as int);
    if s.meters is Some {
        let ms = s.meters->0;
        lemma_meter_writes_metric(n, h, ms@, ms@.len() as int);
        assert(metric_untouched(meter_writes(n, h, ms@, ms@.len() as int), m));
    }
    let f0 = opt_int(MetricName::DeviceUptimeSeconds, dev_labels(n, h), s.uptime);
    let f1 = opt_real(MetricName::DeviceTemperatureCelsius, dev_labels(n, h), s.temperature);
    let f2 = gen1_wifi_writes(n, h, s.wifi_sta);
    let f3 = gen1_relay_part(n, h, s);
    let f4 = gen1_meter_part(n, h, s);
    let f5 = gen1_ram_part(n, h, s);
    let f6 = gen1_fs_part(n, h, s);
    let f7 = gen1_update_part(n, h, s);
    assert(metric_untouched(f4, m));
    lemma_metric_to_series(f4, m, l);
    assert(untouched(f5, m, l));
    assert(untouched(f6, m, l));
    assert(untouched(f7, m, l));
    lemma_untouched_latest(f4, m, l);
    lemma_untouched_latest(f5, m, l);
    lemma_untouched_latest(f6, m, l);
    lemma_untouched_latest(f7, m, l);
    let a = f0 + f1 + f2;
    lemma_latest_concat(a, f3, m, l);
    lemma_latest_concat(a + f3, f4, m, l);
    lemma_latest_concat(a + f3 + f4, f5, m, l);
    lemma_latest_concat(a + f3 + f4 + f5, f6, m, l);
    lemma_latest_concat(a + f3 + f4 + f5 + f6, f7, m, l);
}

/// Gen2: when switch slot 3 reports a Celsius temperature, the device temperature ends at
/// that value, whatever slots 0 to 2 reported.
pub proof fn lemma_gen2_last_slot_temperature(n: Seq<char>, h: Seq<char>, s: ShellyGen2Status, t: Real)
    requires
        s.switch_3 matches Some(sw) && switch_celsius(sw) == Some(t),
    ensures
        latest(gen2_writes(n, h, s), MetricName::DeviceTemperatureCelsius, dev_labels(n, h))
            == Some(Value::Real(t)),
{
    let m = MetricName::DeviceTemperatureCelsius;
    let dl = dev_labels(n, h);
    let sw = s.switch_3->0;
    let l = chan_labels(n, h, decimal(3));
    let q0 = seq![(MetricName::SwitchOutput, l, flag(sw.output))];
    let q1 = opt_real(MetricName::DeviceTemperatureCelsius, dl, switch_celsius(sw));
    let q2 = opt_real(MetricName::SwitchPowerWatts, l, sw.apower);
    let q3 = opt_real(MetricName::SwitchVoltageVolts, l, sw.voltage);
    let q4 = opt_real(MetricName::SwitchCurrentAmps, l, sw.current);
    let q5 = opt_real(MetricName::SwitchPowerFactor, l, sw.pf);
    let q6 = opt_real(MetricName::SwitchFrequencyHz, l, sw.freq);
    let q7 = opt_real(MetricName::SwitchEnergyTotalWh, l, switch_energy(sw));
    assert(latest(q1, m, dl) == Some(Value::Real(t)));
    assert(untouched(q2, m, dl));
    assert(untouched(q3, m, dl));
    assert(untouched(q4, m, dl));
    assert(untouched(q5, m, dl));
    assert(untouched(q6, m, dl));
    assert(untouched(q7, m, dl));
    lemma_untouched_latest(q2, m, dl);
    lemma_untouched_latest(q3, m, dl);
    lemma_untouched_latest(q4, m, dl);
    lemma_untouched_latest(q5, m, dl);
    lemma_untouched_latest(q6, m, dl);
    lemma_untouched_latest(q7, m, dl);
    lemma_latest_concat(q0, q1, m, dl);
    lemma_latest_concat(q0 + q1, q2, m, dl);
    lemma_latest_concat(q0 + q1 + q2, q3, m, dl);
    lemma_latest_concat(q0 + q1 + q2 + q3, q4, m, dl);
    lemma_latest_concat(q0 + q1 + q2 + q3 + q4, q5, m, dl);
    lemma_latest_concat(q0 + q1 + q2 + q3 + q4 + q5, q6, m, dl);
    lemma_latest_concat(q0 + q1 + q2 + q3 + q4 + q5 + q6, q7, m, dl);
    let a = sys_writes(n, h, s.sys) + gen2_wifi_writes(n, h, s.wifi) + slot_writes(n, h, 0, s.switch_0)
        + slot_writes(n, h, 1, s.switch_1) + slot_writes(n, h, 2, s.switch_2);
    lemma_latest_concat(a, slot_writes(n, h, 3, s.switch_3), m, dl);
}

} // verus!
