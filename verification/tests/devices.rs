use wavoic::audio::types::AudioError;
use wavoic::audio::virtual_sink::{detect_vb_cable, find_device, select_device, Devices, VB_CABLE_INPUT_HINT};
use wavoic::audio::mic_capture::frame_from_pops;
use wavoic::config::{default_data_dir, dirs_path, selected_devices};

fn names(v: &[&str]) -> Vec<String> {
    v.iter().map(|s| s.to_string()).collect()
}

#[test]
fn vb_cable_is_the_first_output_naming_it() {
    let outs = names(&["Speakers", "CABLE Input (VB-Audio Virtual Cable)", "CABLE Input 2"]);
    assert_eq!(detect_vb_cable(&outs), Some("CABLE Input (VB-Audio Virtual Cable)".to_string()));
    assert_eq!(detect_vb_cable(&names(&["Speakers", "cable input"])), None);
    assert_eq!(detect_vb_cable(&Vec::new()), None);
    assert_eq!(VB_CABLE_INPUT_HINT, "CABLE Input");
}

#[test]
fn devices_summary_detects_vb_cable() {
    let d = Devices::from_names(names(&["Mic"]), names(&["Out", "CABLE Input (VB)"]));
    assert_eq!(d.inputs, names(&["Mic"]));
    assert_eq!(d.outputs, names(&["Out", "CABLE Input (VB)"]));
    assert_eq!(d.vb_cable.as_deref(), Some("CABLE Input (VB)"));
}

#[test]
fn device_is_found_by_exact_name() {
    let list = vec![None, Some("Mic".to_string()), Some("Headset".to_string()), Some("Mic".to_string())];
    assert_eq!(find_device(&list, "Mic"), Some(1));
    assert_eq!(find_device(&list, "Headset"), Some(2));
    assert_eq!(find_device(&list, "mic"), None);
    assert_eq!(select_device(&list, "Headset").unwrap(), 2);
    match select_device(&list, "Nope") {
        Err(AudioError::DeviceNotFound(n)) => assert_eq!(n, "Nope"),
        other => panic!("unexpected {:?}", other),
    }
}

#[test]
fn data_dir_lives_under_the_config_folder() {
    assert_eq!(dirs_path(true, Some("C:\\Users\\u\\AppData\\Roaming".to_string())), "C:\\Users\\u\\AppData\\Roaming");
    assert_eq!(dirs_path(false, None), ".");
    assert_eq!(dirs_path(true, None), ".");
    assert_eq!(dirs_path(false, Some("/home/u".to_string())), "/home/u/.config");
    assert_eq!(default_data_dir(false, "/home/u/.config"), "/home/u/.config/wavoic");
    assert_eq!(default_data_dir(false, "."), "./wavoic");
    assert_eq!(default_data_dir(true, "C:/Users/u/AppData/Roaming"), "C:/Users/u/AppData/Roaming/WaVoic");
}

#[test]
fn engine_needs_both_devices() {
    assert_eq!(selected_devices(None, Some("Out".to_string())), Err("no input device selected".to_string()));
    assert_eq!(selected_devices(None, None), Err("no input device selected".to_string()));
    assert_eq!(selected_devices(Some("Mic".to_string()), None), Err("no output device selected".to_string()));
    assert_eq!(
        selected_devices(Some("Mic".to_string()), Some("Out".to_string())),
        Ok(("Mic".to_string(), "Out".to_string()))
    );
}

#[test]
fn underrun_gives_silence() {
    let pops = vec![Some(0.5f32.to_bits()), None, Some(0.25f32.to_bits()), None];
    let frame: Vec<f32> = frame_from_pops(&pops).into_iter().map(f32::from_bits).collect();
    assert_eq!(frame, vec![0.5, 0.0, 0.25, 0.0]);
    assert!(frame_from_pops(&Vec::new()).is_empty());
}
