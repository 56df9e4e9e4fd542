use shelly_exporter::shelly::{
    check_status_code, classify_generation, device_info_url, device_model, generation_label,
    is_success, needs_gen1_probe, settings_url, status_url, FetchError, Probe, ShellyGeneration,
};

#[test]
fn gen2_probe_success_wins_whatever_gen1_says() {
    for gen1 in [Probe::Answered(200), Probe::Answered(404), Probe::NoAnswer] {
        let r = classify_generation("http://d", Probe::Answered(200), gen1);
        assert_eq!(r.unwrap(), ShellyGeneration::Gen2);
    }
    assert!(!needs_gen1_probe(Probe::Answered(204)));
}

#[test]
fn gen1_detected_when_only_gen1_probe_succeeds() {
    let r = classify_generation("http://d", Probe::Answered(404), Probe::Answered(200));
    assert_eq!(r.unwrap(), ShellyGeneration::Gen1);
    let r = classify_generation("http://d", Probe::NoAnswer, Probe::Answered(299));
    assert_eq!(r.unwrap(), ShellyGeneration::Gen1);
    assert!(needs_gen1_probe(Probe::NoAnswer));
    assert!(needs_gen1_probe(Probe::Answered(500)));
}

#[test]
fn detection_fails_when_both_probes_fail() {
    let r = classify_generation("http://10.1.1.1", Probe::NoAnswer, Probe::Answered(401));
    assert_eq!(r.unwrap_err().host, "http://10.1.1.1");
    let r = classify_generation("http://h", Probe::Answered(300), Probe::NoAnswer);
    assert!(r.is_err());
}

#[test]
fn status_codes() {
    assert!(is_success(200));
    assert!(is_success(299));
    assert!(!is_success(199));
    assert!(!is_success(300));
    assert_eq!(check_status_code(200), Ok(()));
    assert_eq!(check_status_code(401), Err(FetchError::Http(401)));
}

#[test]
fn endpoint_urls() {
    assert_eq!(status_url("http://a", ShellyGeneration::Gen2), "http://a/rpc/Shelly.GetStatus");
    assert_eq!(status_url("http://a", ShellyGeneration::Gen1), "http://a/status");
    assert_eq!(device_info_url("http://a"), "http://a/rpc/Shelly.GetDeviceInfo");
    assert_eq!(settings_url("http://a"), "http://a/settings");
}

#[test]
fn models_and_generation_labels() {
    assert_eq!(device_model(ShellyGeneration::Gen1, Some("X".to_string())), "Shelly Gen1");
    assert_eq!(device_model(ShellyGeneration::Gen2, Some("SNSW-001X16EU".to_string())), "SNSW-001X16EU");
    assert_eq!(device_model(ShellyGeneration::Gen2, None), "Unknown");
    assert_eq!(generation_label(ShellyGeneration::Gen1), "gen1");
    assert_eq!(generation_label(ShellyGeneration::Gen2), "gen2");
}
