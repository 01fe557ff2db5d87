use audio_friend::devices::{
    clean_device_label, collect_device_options, find_selected_device, resolve_input_device,
    selected_input_device, selected_output_device, valid_device_name, DeviceOption,
};

fn named(names: &[&str]) -> Vec<Option<String>> {
    names.iter().map(|n| Some(n.to_string())).collect()
}

fn option(label: &str, raw_name: &str) -> DeviceOption {
    DeviceOption { label: label.to_string(), raw_name: raw_name.to_string() }
}

#[test]
fn labels_are_clean() {
    let cases = [
        ("Microphone", "Microphone"),
        ("  Microphone  ", "Microphone"),
        ("Built-in Audio on pipewire", "Built-in Audio"),
        ("Built-in Audio on PulseAudio", "Built-in Audio"),
        ("Mic (pulseaudio)", "Mic"),
        ("Mic (PipeWire)", "Mic"),
        ("pipewire", "PipeWire"),
        ("my pulseaudio sink", "my PulseAudio sink"),
        ("A on PipeWire on PulseAudio", "A on PipeWire"),
        ("A on PulseAudio on PipeWire", "A"),
        ("A (PipeWire) on PipeWire", "A"),
        ("alsa_input.pci-0000_00_1f.3.analog-stereo", "pci-0000_00_1f 3 analog-stereo"),
        ("alsa_output.usb.mic", "usb mic"),
        ("alsa_input.alsa_output.x", "alsa_output x"),
        ("alsa_output.pipewire", "PipeWire"),
        ("a  b\t c", "a b c"),
        ("- Mic -", "Mic"),
        ("--Mic--", "Mic"),
        ("-- Mic on PipeWire", "Mic"),
        ("a.b", "a.b"),
        ("Gr\u{fc}n\u{3000}Mic", "Gr\u{fc}n Mic"),
    ];
    for (name, label) in cases {
        assert_eq!(clean_device_label(name), label, "{name:?}");
    }
}

#[test]
fn names_of_which_nothing_is_left_stay() {
    for name in ["", "   ", "---", " - ", " on PipeWire", "alsa_input."] {
        let label = clean_device_label(name);
        if name == " on PipeWire" {
            assert_eq!(label, "on PipeWire");
        } else {
            assert_eq!(label, name);
        }
    }
}

#[test]
fn devices_without_a_configuration_have_no_name() {
    assert_eq!(valid_device_name(true, Some("Mic".to_string())), Some("Mic".to_string()));
    assert_eq!(valid_device_name(true, None), None);
    assert_eq!(valid_device_name(false, Some("Mic".to_string())), None);
}

#[test]
fn the_default_option_is_there_without_devices() {
    assert_eq!(
        collect_device_options(&Vec::new(), None),
        vec![option("Default", "__default__")]
    );
    assert_eq!(
        collect_device_options(&vec![None, None], Some("Mic".to_string())),
        vec![option("Default", "__default__")]
    );
}

#[test]
fn options_are_sorted_without_regard_to_case() {
    let options = collect_device_options(
        &named(&["Zebra", "apple", "\u{c4}pfel", "Banana"]),
        Some("apple".to_string()),
    );
    assert_eq!(
        options,
        vec![
            option("Default", "__default__"),
            option("apple (system default)", "apple"),
            option("Banana", "Banana"),
            option("Zebra", "Zebra"),
            option("\u{c4}pfel", "\u{c4}pfel"),
        ]
    );
}

#[test]
fn every_name_is_listed_once() {
    let mut names = named(&["b", "a", "b"]);
    names.push(None);
    names.push(Some("a".to_string()));
    let options = collect_device_options(&names, None);
    assert_eq!(
        options,
        vec![option("Default", "__default__"), option("a", "a"), option("b", "b")]
    );
}

#[test]
fn equal_labels_keep_their_order() {
    let options = collect_device_options(&named(&["mic ", "MIC", " mic"]), None);
    assert_eq!(
        options,
        vec![
            option("Default", "__default__"),
            option("mic", "mic "),
            option("MIC", "MIC"),
            option("mic", " mic"),
        ]
    );
}

#[test]
fn a_saved_name_selects_its_option() {
    let options = collect_device_options(&named(&["b", "a"]), None);
    assert_eq!(selected_input_device("a", &options), Some(option("a", "a")));
    assert_eq!(selected_output_device("b", &options), Some(option("b", "b")));
    assert_eq!(
        find_selected_device("__default__", &options),
        Some(option("Default", "__default__"))
    );
    assert_eq!(find_selected_device("", &options), None);
    assert_eq!(find_selected_device("c", &options), None);
    let twice = vec![option("first", "x"), option("second", "x")];
    assert_eq!(find_selected_device("x", &twice), Some(option("first", "x")));
}

#[test]
fn a_device_called_like_the_default_one_cannot_be_selected() {
    let options = collect_device_options(&named(&["__default__"]), None);
    assert_eq!(
        options,
        vec![option("Default", "__default__"), option("__default__", "__default__")]
    );
    assert_eq!(
        find_selected_device("__default__", &options),
        Some(option("Default", "__default__"))
    );
}

#[test]
fn an_option_is_shown_by_its_label() {
    assert_eq!(option("Mic (system default)", "mic").to_text(), "Mic (system default)");
}

#[test]
fn the_configured_device_is_resolved() {
    let mut names = vec![None];
    names.extend(named(&["a", "b", "a"]));
    assert_eq!(resolve_input_device("", &names), Some(0));
    assert_eq!(resolve_input_device("__default__", &names), Some(0));
    assert_eq!(resolve_input_device("a", &names), Some(1));
    assert_eq!(resolve_input_device("b", &names), Some(2));
    assert_eq!(resolve_input_device("c", &names), None);
    assert_eq!(resolve_input_device("", &Vec::new()), None);
    assert_eq!(resolve_input_device("a", &Vec::new()), None);
}
