use dreamvault::console_pads::{btn, console_pads, pad_for, trig, InputKind};
use std::collections::HashSet;

#[test]
fn every_pad_has_unique_input_ids() {
    for pad in console_pads() {
        let mut seen = HashSet::new();
        for input in &pad.inputs {
            assert!(seen.insert(input.id), "duplicate input id {} in {}", input.id, pad.system);
        }
    }
}

#[test]
fn pad_lookup_resolves_and_misses() {
    assert!(pad_for("n64").is_some());
    assert!(pad_for("nonexistent").is_none());
}

#[test]
fn variety_is_represented() {
    assert_eq!(pad_for("nes").unwrap().inputs.len(), 8);
    let n64 = pad_for("n64").unwrap();
    assert!(n64.has_input("stick_up"));
    assert!(n64.has_input("c_left"));
    assert!(n64.has_input("z"));
    let ps1 = pad_for("ps1").unwrap();
    assert!(ps1.has_input("l_stick_up"));
    assert!(ps1.has_input("r_stick_right"));
    assert!(ps1.has_input("cross"));
}

#[test]
fn dpad_is_present_everywhere() {
    for pad in console_pads() {
        assert!(pad.has_input("dpad_up"), "{} missing dpad", pad.system);
    }
}

#[test]
fn shared_layouts_and_kinds() {
    let ps2 = pad_for("ps2").unwrap();
    assert_eq!(ps2.inputs.len(), pad_for("ps1").unwrap().inputs.len());
    assert!(!ps2.has_input("z"));
    let l2 = ps2.inputs.iter().find(|i| i.id == "l2").unwrap();
    assert_eq!(l2.kind, InputKind::Trigger);
    assert_eq!(pad_for("virtualboy").unwrap().inputs.len(), 16);
    assert_eq!(btn("a", "A").kind, InputKind::Button);
    assert_eq!(trig("r2", "R2").kind, InputKind::Trigger);
    assert_eq!(console_pads().len(), 9);
}
