use shelly_exporter::metrics::{MetricName, Metrics, Value};
use shelly_exporter::registry::{record_poll, DeviceHandle};
use shelly_exporter::shelly::{
    AvailableUpdates, EnergyCounter, FetchError, MeterStatus, Real, RelayStatus, ShellyGen1Status,
    ShellyGen2Status, ShellyGeneration, ShellyStatus, SwitchStatus, SystemStatus, Temperature,
    UpdateInfo, UpdateStatus, WifiGen1Status, WifiStatus,
};

fn reading(x: f64) -> Real {
    Real { bits: x.to_bits() }
}

fn value_of(m: &Metrics, metric: MetricName, labels: &[&str]) -> Option<Value> {
    m.samples()
        .iter()
        .rev()
        .find(|s| s.metric == metric && s.labels.iter().map(|l| l.as_str()).eq(labels.iter().copied()))
        .map(|s| s.value)
}

fn count(m: &Metrics, metric: MetricName) -> usize {
    m.samples().iter().filter(|s| s.metric == metric).count()
}

fn has_name(m: &Metrics, name: &str) -> bool {
    m.samples().iter().any(|s| s.metric.name() == name)
}

fn switch(output: bool, apower: Option<f64>, t_c: Option<f64>) -> SwitchStatus {
    SwitchStatus {
        id: 0,
        source: None,
        output,
        apower: apower.map(reading),
        voltage: None,
        current: None,
        freq: None,
        pf: None,
        aenergy: None,
        ret_aenergy: None,
        temperature: t_c.map(|t| Temperature { t_c: Some(reading(t)), t_f: None }),
    }
}

fn empty_gen2() -> ShellyGen2Status {
    ShellyGen2Status { switch_0: None, switch_1: None, switch_2: None, switch_3: None, sys: None, wifi: None }
}

fn empty_gen1() -> ShellyGen1Status {
    ShellyGen1Status {
        relays: None,
        meters: None,
        temperature: None,
        overtemperature: None,
        wifi_sta: None,
        update: None,
        ram_total: None,
        ram_free: None,
        fs_size: None,
        fs_free: None,
        uptime: None,
    }
}

fn relay(ison: bool) -> RelayStatus {
    RelayStatus {
        ison,
        has_timer: false,
        timer_started: None,
        timer_duration: None,
        timer_remaining: None,
        overpower: None,
        source: None,
    }
}

fn fixture_gen2() -> ShellyGen2Status {
    ShellyGen2Status {
        switch_0: Some(SwitchStatus {
            id: 0,
            source: Some("manual".to_string()),
            output: true,
            apower: Some(reading(25.5)),
            voltage: Some(reading(230.0)),
            current: Some(reading(0.11)),
            freq: Some(reading(50.0)),
            pf: Some(reading(0.98)),
            aenergy: Some(EnergyCounter { total: reading(1500.0), by_minute: vec![], minute_ts: 0 }),
            ret_aenergy: None,
            temperature: Some(Temperature { t_c: Some(reading(30.5)), t_f: Some(reading(86.9)) }),
        }),
        switch_1: None,
        switch_2: None,
        switch_3: None,
        sys: Some(SystemStatus {
            mac: "AA:BB:CC:DD:EE:FF".to_string(),
            restart_required: false,
            time: None,
            unixtime: None,
            uptime: 3600,
            ram_size: 262144,
            ram_free: 131072,
            fs_size: 524288,
            fs_free: 262144,
            cfg_rev: 1,
            available_updates: None,
        }),
        wifi: Some(WifiStatus {
            sta_ip: Some("192.168.1.100".to_string()),
            status: "got ip".to_string(),
            ssid: Some("TestNetwork".to_string()),
            rssi: Some(-65),
        }),
    }
}

#[test]
fn test_gen2_metrics_update() {
    let mut metrics = Metrics::new();
    metrics.update_device(
        "test_device",
        "192.168.1.100",
        "Shelly Plus 1",
        "gen2",
        &ShellyStatus::Gen2(fixture_gen2()),
    );
    assert!(has_name(&metrics, "shelly_device_up"));
    assert!(has_name(&metrics, "shelly_switch_power_watts"));
    assert!(has_name(&metrics, "shelly_device_temperature_celsius"));
    assert!(has_name(&metrics, "shelly_wifi_rssi_dbm"));
}

#[test]
fn test_device_down_marking() {
    let mut metrics = Metrics::new();
    metrics.mark_device_down("test_device", "192.168.1.100", "Shelly Plus 1", "gen2");
    assert!(has_name(&metrics, "shelly_device_up"));
    let s = &metrics.samples()[0];
    assert_eq!(s.labels[0], "test_device");
    assert_eq!(s.value, Value::Int(0));
}

#[test]
fn gen2_fixture_exact_values() {
    let mut m = Metrics::new();
    m.update_device("dev", "http://h", "Plus", "gen2", &ShellyStatus::Gen2(fixture_gen2()));
    assert_eq!(value_of(&m, MetricName::DeviceUp, &["dev", "http://h", "Plus", "gen2"]), Some(Value::Int(1)));
    assert_eq!(value_of(&m, MetricName::SwitchOutput, &["dev", "http://h", "0"]), Some(Value::Int(1)));
    assert_eq!(value_of(&m, MetricName::SwitchPowerWatts, &["dev", "http://h", "0"]), Some(Value::Real(reading(25.5))));
    assert_eq!(value_of(&m, MetricName::SwitchVoltageVolts, &["dev", "http://h", "0"]), Some(Value::Real(reading(230.0))));
    assert_eq!(value_of(&m, MetricName::DeviceUptimeSeconds, &["dev", "http://h"]), Some(Value::Int(3600)));
    assert_eq!(value_of(&m, MetricName::SystemRamTotalBytes, &["dev", "http://h"]), Some(Value::Int(262144)));
    assert_eq!(value_of(&m, MetricName::SystemFsFreeBytes, &["dev", "http://h"]), Some(Value::Int(262144)));
    assert_eq!(value_of(&m, MetricName::WifiRssiDbm, &["dev", "http://h", "TestNetwork"]), Some(Value::Int(-65)));
    assert_eq!(value_of(&m, MetricName::SwitchEnergyTotalWh, &["dev", "http://h", "0"]), Some(Value::Real(reading(1500.0))));
    assert_eq!(count(&m, MetricName::DeviceUpdateAvailable), 0);
    assert_eq!(count(&m, MetricName::SwitchOutput), 1);
}

#[test]
fn gen2_absent_power_gives_no_power_sample() {
    let mut s = empty_gen2();
    s.switch_1 = Some(switch(false, None, None));
    let mut m = Metrics::new();
    m.update_device("d", "h", "m", "gen2", &ShellyStatus::Gen2(s));
    assert_eq!(count(&m, MetricName::SwitchPowerWatts), 0);
    assert_eq!(count(&m, MetricName::DeviceTemperatureCelsius), 0);
    assert_eq!(value_of(&m, MetricName::SwitchOutput, &["d", "h", "1"]), Some(Value::Int(0)));
}

#[test]
fn gen2_last_slot_temperature_wins() {
    let mut s = empty_gen2();
    s.switch_0 = Some(switch(true, Some(1.0), Some(40.0)));
    s.switch_3 = Some(switch(true, Some(2.0), Some(55.5)));
    let mut m = Metrics::new();
    m.update_device("d", "h", "m", "gen2", &ShellyStatus::Gen2(s));
    assert_eq!(value_of(&m, MetricName::DeviceTemperatureCelsius, &["d", "h"]), Some(Value::Real(reading(55.5))));
    assert_eq!(value_of(&m, MetricName::SwitchPowerWatts, &["d", "h", "3"]), Some(Value::Real(reading(2.0))));
}

#[test]
fn gen2_stable_update_only() {
    let mut s = fixture_gen2();
    if let Some(sys) = s.sys.as_mut() {
        sys.available_updates = Some(AvailableUpdates {
            stable: Some(UpdateInfo { version: "1.4.2".to_string() }),
            beta: Some(UpdateInfo { version: "1.5.0-beta1".to_string() }),
        });
    }
    let mut m = Metrics::new();
    m.update_device("d", "h", "m", "gen2", &ShellyStatus::Gen2(s));
    assert_eq!(value_of(&m, MetricName::DeviceUpdateAvailable, &["d", "h", "current", "1.4.2"]), Some(Value::Int(1)));
    assert_eq!(count(&m, MetricName::DeviceUpdateAvailable), 1);
}

#[test]
fn gen1_relays_and_meters_by_index() {
    let mut s = empty_gen1();
    s.relays = Some(vec![relay(true), relay(false)]);
    s.meters = Some(vec![MeterStatus { power: reading(12.5), is_valid: true, timestamp: 0, counters: vec![], total: reading(99.0) }]);
    s.temperature = Some(reading(41.25));
    s.uptime = Some(7200);
    s.ram_total = Some(50000);
    s.ram_free = None;
    s.fs_size = Some(233681);
    s.fs_free = Some(162648);
    let mut m = Metrics::new();
    m.update_device("d", "h", "Shelly Gen1", "gen1", &ShellyStatus::Gen1(s));
    assert_eq!(value_of(&m, MetricName::SwitchOutput, &["d", "h", "0"]), Some(Value::Int(1)));
    assert_eq!(value_of(&m, MetricName::SwitchOutput, &["d", "h", "1"]), Some(Value::Int(0)));
    assert_eq!(value_of(&m, MetricName::SwitchPowerWatts, &["d", "h", "0"]), Some(Value::Real(reading(12.5))));
    assert_eq!(value_of(&m, MetricName::SwitchEnergyTotalWh, &["d", "h", "0"]), Some(Value::Real(reading(99.0))));
    assert_eq!(count(&m, MetricName::SwitchPowerWatts), 1);
    assert_eq!(value_of(&m, MetricName::DeviceTemperatureCelsius, &["d", "h"]), Some(Value::Real(reading(41.25))));
    assert_eq!(value_of(&m, MetricName::DeviceUptimeSeconds, &["d", "h"]), Some(Value::Int(7200)));
    assert_eq!(value_of(&m, MetricName::SystemRamTotalBytes, &["d", "h"]), Some(Value::Int(50000)));
    assert_eq!(count(&m, MetricName::SystemRamFreeBytes), 0);
    assert_eq!(value_of(&m, MetricName::SystemFsTotalBytes, &["d", "h"]), Some(Value::Int(233681)));
}

#[test]
fn gen1_empty_relays_give_no_output() {
    let mut s = empty_gen1();
    s.relays = Some(vec![]);
    let mut m = Metrics::new();
    m.update_device("d", "h", "Shelly Gen1", "gen1", &ShellyStatus::Gen1(s));
    assert_eq!(count(&m, MetricName::SwitchOutput), 0);
    assert_eq!(count(&m, MetricName::DeviceTemperatureCelsius), 0);
    assert_eq!(m.samples().len(), 1);
}

#[test]
fn gen1_wifi_and_update_labels() {
    let mut s = empty_gen1();
    s.wifi_sta = Some(WifiGen1Status { connected: true, ssid: None, ip: None, rssi: -70 });
    s.update = Some(UpdateStatus {
        status: "pending".to_string(),
        has_update: true,
        new_version: None,
        old_version: "20230913".to_string(),
    });
    let mut m = Metrics::new();
    m.update_device("d", "h", "Shelly Gen1", "gen1", &ShellyStatus::Gen1(s));
    assert_eq!(value_of(&m, MetricName::WifiRssiDbm, &["d", "h", "unknown"]), Some(Value::Int(-70)));
    assert_eq!(value_of(&m, MetricName::DeviceUpdateAvailable, &["d", "h", "20230913", "unknown"]), Some(Value::Int(1)));
}

#[test]
fn gen1_no_update_flag_means_no_update_sample() {
    let mut s = empty_gen1();
    s.update = Some(UpdateStatus {
        status: "idle".to_string(),
        has_update: false,
        new_version: Some("x".to_string()),
        old_version: "y".to_string(),
    });
    let mut m = Metrics::new();
    m.update_device("d", "h", "Shelly Gen1", "gen1", &ShellyStatus::Gen1(s));
    assert_eq!(count(&m, MetricName::DeviceUpdateAvailable), 0);
}

fn handle() -> DeviceHandle {
    DeviceHandle {
        host: "http://192.168.1.100".to_string(),
        name: "Kitchen".to_string(),
        model: "SNSW-001X16EU".to_string(),
        generation: ShellyGeneration::Gen2,
    }
}

#[test]
fn poll_success_marks_device_up_with_registry_labels() {
    let mut m = Metrics::new();
    record_poll(&mut m, &handle(), &Ok(ShellyStatus::Gen2(empty_gen2())));
    assert_eq!(
        value_of(&m, MetricName::DeviceUp, &["Kitchen", "http://192.168.1.100", "SNSW-001X16EU", "gen2"]),
        Some(Value::Int(1))
    );
}

#[test]
fn poll_failure_marks_device_down_with_same_labels() {
    let mut m = Metrics::new();
    record_poll(&mut m, &handle(), &Ok(ShellyStatus::Gen2(empty_gen2())));
    record_poll(&mut m, &handle(), &Err(FetchError::Network));
    assert_eq!(
        value_of(&m, MetricName::DeviceUp, &["Kitchen", "http://192.168.1.100", "SNSW-001X16EU", "gen2"]),
        Some(Value::Int(0))
    );
    record_poll(&mut m, &handle(), &Err(FetchError::Http(500)));
    assert_eq!(count(&m, MetricName::DeviceUp), 3);
}

#[test]
fn metric_names_are_exposition_names() {
    assert_eq!(MetricName::DeviceUp.name(), "shelly_device_up");
    assert_eq!(MetricName::SwitchEnergyTotalWh.name(), "shelly_switch_energy_total_wh");
    assert_eq!(MetricName::DeviceUpdateAvailable.name(), "shelly_device_update_available");
}

#[test]
fn label_names_follow_the_schema() {
    assert_eq!(MetricName::DeviceUp.label_names(), vec!["device", "host", "model", "generation"]);
    assert_eq!(MetricName::WifiRssiDbm.label_names(), vec!["device", "host", "ssid"]);
    assert_eq!(MetricName::SwitchPowerFactor.label_names(), vec!["device", "host", "channel"]);
    assert_eq!(MetricName::SystemFsFreeBytes.label_names(), vec!["device", "host"]);
    assert_eq!(
        MetricName::DeviceUpdateAvailable.label_names(),
        vec!["device", "host", "current_version", "new_version"]
    );
}

#[test]
fn every_write_has_its_metric_label_count() {
    let mut m = Metrics::new();
    m.update_device("d", "h", "m", "gen2", &ShellyStatus::Gen2(fixture_gen2()));
    m.mark_device_down("d", "h", "m", "gen2");
    for s in m.samples() {
        assert_eq!(s.labels.len(), s.metric.label_names().len());
    }
}

#[test]
fn gen1_system_fields_are_written_one_by_one() {
    let mut s = empty_gen1();
    s.ram_free = Some(12000);
    s.fs_size = Some(233681);
    let mut m = Metrics::new();
    m.update_device("d", "h", "Shelly Gen1", "gen1", &ShellyStatus::Gen1(s));
    assert_eq!(value_of(&m, MetricName::SystemRamFreeBytes, &["d", "h"]), Some(Value::Int(12000)));
    assert_eq!(count(&m, MetricName::SystemRamTotalBytes), 0);
    assert_eq!(value_of(&m, MetricName::SystemFsTotalBytes, &["d", "h"]), Some(Value::Int(233681)));
    assert_eq!(count(&m, MetricName::SystemFsFreeBytes), 0);
}

#[test]
fn all_sixteen_metrics_listed_once() {
    let all = MetricName::all();
    assert_eq!(all.len(), 16);
    for (i, a) in all.iter().enumerate() {
        assert!(a.name().starts_with("shelly_"));
        for b in &all[i + 1..] {
            assert_ne!(a, b);
        }
    }
}

#[test]
fn gen2_absent_voltage_leaves_channel_untouched() {
    let mut s = empty_gen2();
    s.switch_2 = Some(switch(true, Some(3.5), None));
    let mut m = Metrics::new();
    m.update_device("d", "h", "m", "gen2", &ShellyStatus::Gen2(s));
    assert_eq!(count(&m, MetricName::SwitchVoltageVolts), 0);
    assert_eq!(count(&m, MetricName::SwitchEnergyTotalWh), 0);
    assert_eq!(count(&m, MetricName::DeviceUptimeSeconds), 0);
    assert_eq!(count(&m, MetricName::WifiRssiDbm), 0);
    assert_eq!(value_of(&m, MetricName::SwitchPowerWatts, &["d", "h", "2"]), Some(Value::Real(reading(3.5))));
}
