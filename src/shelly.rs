//! Status model of the two device generations, and the decisions around probing and
//! fetching a device.

use vstd::prelude::*;

verus! {

/// Which API dialect a device speaks.
#[derive(Debug, Clone, Copy, PartialEq, Eq, Structural)]
pub enum ShellyGeneration {
    Gen1,
    Gen2,
}

/// A decimal reading reported by a device, carried as the bit pattern of an IEEE-754
/// double. The library moves such readings about and never computes with them.
#[derive(Debug, Clone, Copy, PartialEq, Eq, Structural)]
pub struct Real {
    pub bits: u64,
}

/// Status of a Gen2 device: four fixed switch slots and optional system and Wi-Fi blocks.
#[derive(Debug)]
pub struct ShellyGen2Status {
    pub switch_0: Option<SwitchStatus>,
    pub switch_1: Option<SwitchStatus>,
    pub switch_2: Option<SwitchStatus>,
    pub switch_3: Option<SwitchStatus>,
    pub sys: Option<SystemStatus>,
    pub wifi: Option<WifiStatus>,
}

/// Status of a Gen1 device. Relays and meters are addressed by their position.
#[derive(Debug)]
pub struct ShellyGen1Status {
    pub relays: Option<Vec<RelayStatus>>,
    pub meters: Option<Vec<MeterStatus>>,
    pub temperature: Option<Real>,
    pub overtemperature: Option<bool>,
    pub wifi_sta: Option<WifiGen1Status>,
    pub update: Option<UpdateStatus>,
    pub ram_total: Option<i64>,
    pub ram_free: Option<i64>,
    pub fs_size: Option<i64>,
    pub fs_free: Option<i64>,
    pub uptime: Option<i64>,
}

#[derive(Debug)]
pub struct RelayStatus {
    pub ison: bool,
    pub has_timer: bool,
    pub timer_started: Option<i64>,
    pub timer_duration: Option<i64>,
    pub timer_remaining: Option<i64>,
    pub overpower: Option<bool>,
    pub source: Option<String>,
}

#[derive(Debug)]
pub struct MeterStatus {
    pub power: Real,
    pub is_valid: bool,
    pub timestamp: i64,
    pub counters: Vec<Real>,
    pub total: Real,
}

#[derive(Debug)]
pub struct WifiGen1Status {
    pub connected: bool,
    pub ssid: Option<String>,
    pub ip: Option<String>,
    pub rssi: i32,
}

#[derive(Debug)]
pub struct UpdateStatus {
    pub status: String,
    pub has_update: bool,
    pub new_version: Option<String>,
    pub old_version: String,
}

/// A status tagged with the generation that produced it.
#[derive(Debug)]
pub enum ShellyStatus {
    Gen1(ShellyGen1Status),
    Gen2(ShellyGen2Status),
}

#[derive(Debug)]
pub struct SwitchStatus {
    pub id: i32,
    pub source: Option<String>,
    pub output: bool,
    pub apower: Option<Real>,
    pub voltage: Option<Real>,
    pub current: Option<Real>,
    pub freq: Option<Real>,
    pub pf: Option<Real>,
    pub aenergy: Option<EnergyCounter>,
    pub ret_aenergy: Option<EnergyCounter>,
    pub temperature: Option<Temperature>,
}

#[derive(Debug)]
pub struct EnergyCounter {
    pub total: Real,
    pub by_minute: Vec<Real>,
    pub minute_ts: i64,
}

#[derive(Debug)]
pub struct Temperature {
    pub t_c: Option<Real>,
    pub t_f: Option<Real>,
}

#[derive(Debug)]
pub struct SystemStatus {
    pub mac: String,
    pub restart_required: bool,
    pub time: Option<String>,
    pub unixtime: Option<i64>,
    pub uptime: i64,
    pub ram_size: i64,
    pub ram_free: i64,
    pub fs_size: i64,
    pub fs_free: i64,
    pub cfg_rev: i32,
    pub available_updates: Option<AvailableUpdates>,
}

#[derive(Debug)]
pub struct AvailableUpdates {
    pub stable: Option<UpdateInfo>,
    pub beta: Option<UpdateInfo>,
}

#[derive(Debug)]
pub struct UpdateInfo {
    pub version: String,
}

#[derive(Debug)]
pub struct WifiStatus {
    pub sta_ip: Option<String>,
    pub status: String,
    pub ssid: Option<String>,
    pub rssi: Option<i32>,
}

/// Identity of a Gen2 device.
#[derive(Debug)]
pub struct DeviceInfo {
    pub name: String,
    pub id: String,
    pub mac: String,
    pub model: String,
    pub generation: i32,
    pub fw_id: String,
    pub ver: String,
    pub app: String,
    pub auth_en: bool,
    pub auth_domain: Option<String>,
}

/// What came back from one probe request.
#[derive(Debug, Clone, Copy, PartialEq, Eq, Structural)]
pub enum Probe {
    /// The device answered with this HTTP status code.
    Answered(u16),
    /// Connection error or timeout.
    NoAnswer,
}

/// Whether an HTTP status code is of the success class.
pub open spec fn is_success_code(code: u16) -> bool {
    200 <= code <= 299
}

pub open spec fn probe_succeeded(p: Probe) -> bool {
    match p {
        Probe::Answered(code) => is_success_code(code),
        Probe::NoAnswer => false,
    }
}

/// Neither dialect probe succeeded for this host.
#[derive(Debug)]
pub struct DetectionFailed {
    pub host: String,
}

/// Why fetching a device's status failed.
#[derive(Debug, Clone, Copy, PartialEq, Eq, Structural)]
pub enum FetchError {
    /// Connection error or timeout.
    Network,
    /// The device answered with a non-success status code.
    Http(u16),
    /// The payload did not have the shape of that generation's status.
    Parse,
}

pub fn is_success(code: u16) -> (r: bool)
    ensures
        r == is_success_code(code),
{
    200 <= code && code <= 299
}

/// Whether the Gen1 probe must still be made after the Gen2 probe came back as `gen2`.
pub fn needs_gen1_probe(gen2: Probe) -> (r: bool)
    ensures
        r == !probe_succeeded(gen2),
{
    match gen2 {
        Probe::Answered(code) => !is_success(code),
        Probe::NoAnswer => true,
    }
}

/// The generation of the device at `host` from the outcomes of the two probes; the Gen2
/// probe takes precedence.
pub fn classify_generation(host: &str, gen2: Probe, gen1: Probe) -> (r: Result<
    ShellyGeneration,
    DetectionFailed,
>)
    ensures
        probe_succeeded(gen2) ==> r == Ok::<ShellyGeneration, DetectionFailed>(
            ShellyGeneration::Gen2,
        ),
        !probe_succeeded(gen2) && probe_succeeded(gen1) ==> r == Ok::<
            ShellyGeneration,
            DetectionFailed,
        >(ShellyGeneration::Gen1),
        r is Err <==> !probe_succeeded(gen2) && !probe_succeeded(gen1),
        r matches Err(e) ==> e.host@ == host@,
{
    if !needs_gen1_probe(gen2) {
        Ok(ShellyGeneration::Gen2)
    } else if !needs_gen1_probe(gen1) {
        Ok(ShellyGeneration::Gen1)
    } else {
        Err(DetectionFailed { host: host.to_string() })
    }
}

/// Accepts a response status code, or names it as the error.
pub fn check_status_code(code: u16) -> (r: Result<(), FetchError>)
    ensures
        r is Ok <==> is_success_code(code),
        !is_success_code(code) ==> r == Err::<(), FetchError>(FetchError::Http(code)),
{
    if is_success(code) {
        Ok(())
    } else {
        Err(FetchError::Http(code))
    }
}

pub open spec fn status_path(generation: ShellyGeneration) -> Seq<char> {
    match generation {
        ShellyGeneration::Gen2 => seq![
            '/', 'r', 'p', 'c', '/', 'S', 'h', 'e', 'l', 'l', 'y', '.', 'G', 'e', 't', 'S',
            't', 'a', 't', 'u', 's',
        ],
        ShellyGeneration::Gen1 => seq!['/', 's', 't', 'a', 't', 'u', 's'],
    }
}

pub open spec fn device_info_path() -> Seq<char> {
    seq![
        '/', 'r', 'p', 'c', '/', 'S', 'h', 'e', 'l', 'l', 'y', '.', 'G', 'e', 't', 'D', 'e',
        'v', 'i', 'c', 'e', 'I', 'n', 'f', 'o',
    ]
}

pub open spec fn settings_path() -> Seq<char> {
    seq!['/', 's', 'e', 't', 't', 'i', 'n', 'g', 's']
}

fn join(base: &str, path: &str) -> (r: String)
    ensures
        r@ == base@ + path@,
{
    let mut r = base.to_string();
    r.append(path);
    r
}

/// URL of the status endpoint of a device of the given generation.
pub fn status_url(base_url: &str, generation: ShellyGeneration) -> (r: String)
    ensures
        r@ == base_url@ + status_path(generation),
{
    proof {
        reveal_strlit("/rpc/Shelly.GetStatus");
        reveal_strlit("/status");
    }
    match generation {
        ShellyGeneration::Gen2 => {
            let p = "/rpc/Shelly.GetStatus";
            assert(p@ =~= status_path(generation));
            join(base_url, p)
        },
        ShellyGeneration::Gen1 => {
            let p = "/status";
            assert(p@ =~= status_path(generation));
            join(base_url, p)
        },
    }
}

/// URL of the Gen2 identity endpoint, also the Gen2 detection probe.
pub fn device_info_url(base_url: &str) -> (r: String)
    ensures
        r@ == base_url@ + device_info_path(),
{
    proof {
        reveal_strlit("/rpc/Shelly.GetDeviceInfo");
    }
    let p = "/rpc/Shelly.GetDeviceInfo";
    assert(p@ =~= device_info_path());
    join(base_url, p)
}

/// URL of the Gen1 settings endpoint, used as the Gen1 detection probe.
pub fn settings_url(base_url: &str) -> (r: String)
    ensures
        r@ == base_url@ + settings_path(),
{
    proof {
        reveal_strlit("/settings");
    }
    let p = "/settings";
    assert(p@ =~= settings_path());
    join(base_url, p)
}

pub open spec fn gen1_model() -> Seq<char> {
    seq!['S', 'h', 'e', 'l', 'l', 'y', ' ', 'G', 'e', 'n', '1']
}

pub open spec fn unknown_model() -> Seq<char> {
    seq!['U', 'n', 'k', 'n', 'o', 'w', 'n']
}

/// The model label recorded for a device at setup. Gen1 devices have no identity
/// endpoint and get a fixed placeholder; for Gen2 `info_model` is the model from the
/// identity endpoint, `None` when that request failed.
pub fn device_model(generation: ShellyGeneration, info_model: Option<String>) -> (r: String)
    ensures
        r@ == match generation {
            ShellyGeneration::Gen1 => gen1_model(),
            ShellyGeneration::Gen2 => match info_model {
                Some(m) => m@,
                None => unknown_model(),
            },
        },
{
    proof {
        reveal_strlit("Shelly Gen1");
        reveal_strlit("Unknown");
    }
    match generation {
        ShellyGeneration::Gen1 => {
            let r = "Shelly Gen1".to_string();
            assert(r@ =~= gen1_model());
            r
        },
        ShellyGeneration::Gen2 => match info_model {
            Some(m) => m,
            None => {
                let r = "Unknown".to_string();
                assert(r@ =~= unknown_model());
                r
            },
        },
    }
}

pub open spec fn generation_text(generation: ShellyGeneration) -> Seq<char> {
    match generation {
        ShellyGeneration::Gen1 => seq!['g', 'e', 'n', '1'],
        ShellyGeneration::Gen2 => seq!['g', 'e', 'n', '2'],
    }
}

/// The `generation` label value of a device.
pub fn generation_label(generation: ShellyGeneration) -> (r: &'static str)
    ensures
        r@ == generation_text(generation),
{
    proof {
        reveal_strlit("gen1");
        reveal_strlit("gen2");
    }
    let r = match generation {
        ShellyGeneration::Gen1 => "gen1",
        ShellyGeneration::Gen2 => "gen2",
    };
    assert(r@ =~= generation_text(generation));
    r
}

} // verus!
