use dreamvault::plugins::{
    check_abi, decode_output, input_len, locate_output, manifest_complete, plugin_info,
    run_wasm_transform, set_plugin_enabled, sort_plugins, transform_target, PluginError,
    PluginInfo, PluginManifest, PluginRefusal,
};

/// A minimal, valid data-only plugin: uppercases ASCII via the v1 ABI.
const UPPERCASE_WAT: &str = r#"
(module
  (memory (export "memory") 1)
  (global $heap (mut i32) (i32.const 1024))
  (func $alloc (export "alloc") (param $n i32) (result i32)
    (local $p i32)
    (local.set $p (global.get $heap))
    (global.set $heap (i32.add (global.get $heap) (local.get $n)))
    (local.get $p))
  (func (export "abi_version") (result i32) (i32.const 1))
  (func (export "transform") (param $ptr i32) (param $len i32) (result i64)
    (local $out i32)
    (local $i i32)
    (local $b i32)
    (local.set $out (call $alloc (local.get $len)))
    (local.set $i (i32.const 0))
    (block $done
      (loop $loop
        (br_if $done (i32.ge_u (local.get $i) (local.get $len)))
        (local.set $b (i32.load8_u (i32.add (local.get $ptr) (local.get $i))))
        (if (i32.and (i32.ge_u (local.get $b) (i32.const 97))
                     (i32.le_u (local.get $b) (i32.const 122)))
          (then (local.set $b (i32.sub (local.get $b) (i32.const 32)))))
        (i32.store8 (i32.add (local.get $out) (local.get $i)) (local.get $b))
        (local.set $i (i32.add (local.get $i) (i32.const 1)))
        (br $loop)))
    (i64.or
      (i64.shl (i64.extend_i32_u (local.get $out)) (i64.const 32))
      (i64.extend_i32_u (local.get $len)))))
"#;

/// A hostile plugin that loops forever: must be stopped by fuel metering.
const SPIN_WAT: &str = r#"
(module
  (memory (export "memory") 1)
  (func (export "abi_version") (result i32) (i32.const 1))
  (func (export "alloc") (param $n i32) (result i32) (i32.const 1024))
  (func (export "transform") (param $ptr i32) (param $len i32) (result i64)
    (loop $l (br $l))
    (i64.const 0)))
"#;

/// A plugin that imports a host function: must be refused.
const IMPORT_WAT: &str = r#"
(module
  (import "env" "evil" (func $evil))
  (memory (export "memory") 1)
  (func (export "abi_version") (result i32) (i32.const 1))
  (func (export "alloc") (param $n i32) (result i32) (i32.const 1024))
  (func (export "transform") (param $ptr i32) (param $len i32) (result i64)
    (call $evil)
    (i64.const 0)))
"#;

/// A plugin speaking another ABI.
const ABI2_WAT: &str = r#"
(module
  (memory (export "memory") 1)
  (func (export "abi_version") (result i32) (i32.const 2))
  (func (export "alloc") (param $n i32) (result i32) (i32.const 1024))
  (func (export "transform") (param $ptr i32) (param $len i32) (result i64) (i64.const 0)))
"#;

#[test]
fn runs_data_only_transform() {
    let out = run_wasm_transform(UPPERCASE_WAT.as_bytes(), "hello world").unwrap();
    assert_eq!(out, "HELLO WORLD");
}

#[test]
fn infinite_loop_is_stopped_by_fuel() {
    let err = run_wasm_transform(SPIN_WAT.as_bytes(), "x").unwrap_err();
    assert!(matches!(err, PluginError::TransformTrapped(_)), "{err:?}");
}

#[test]
fn host_imports_are_refused() {
    let err = run_wasm_transform(IMPORT_WAT.as_bytes(), "x").unwrap_err();
    assert!(matches!(err, PluginError::Instantiation(_)), "{err:?}");
}

#[test]
fn other_abis_and_garbage_are_refused() {
    let err = run_wasm_transform(ABI2_WAT.as_bytes(), "x").unwrap_err();
    assert!(matches!(err, PluginError::AbiUnsupported(2)), "{err:?}");
    let err = run_wasm_transform(b"not wasm", "x").unwrap_err();
    assert!(matches!(err, PluginError::WasmInvalid(_)), "{err:?}");
}

#[test]
fn output_location_is_unpacked_and_bounded() {
    let packed = (1024i64 << 32) | 11;
    assert_eq!(locate_output(packed, 65536).ok(), Some((1024, 11)));
    assert!(matches!(locate_output(packed, 1030), Err(PluginError::OutputOutOfBounds)));
    let huge = (0i64 << 32) | (8 * 1024 * 1024 + 1);
    assert!(matches!(locate_output(huge, usize::MAX), Err(PluginError::OutputTooLarge)));
    let at_limit = 8 * 1024 * 1024;
    assert_eq!(locate_output(at_limit, 8 * 1024 * 1024).ok(), Some((0, 8 * 1024 * 1024)));
    assert!(check_abi(1).is_ok());
    assert!(matches!(check_abi(0), Err(PluginError::AbiUnsupported(0))));
    assert_eq!(input_len("héllo").ok(), Some(6));
    assert_eq!(decode_output(b"ok".to_vec()).ok().as_deref(), Some("ok"));
    assert!(matches!(decode_output(vec![0xff, 0xfe]), Err(PluginError::NotUtf8)));
}

fn manifest(id: &str, name: &str) -> PluginManifest {
    PluginManifest {
        id: id.to_string(),
        name: name.to_string(),
        version: "1.0".to_string(),
        kind: "metadata-transform".to_string(),
        entry: "plugin.wasm".to_string(),
        description: None,
        author: None,
        capabilities: Vec::new(),
    }
}

fn info(id: &str, name: &str, enabled: bool, valid: bool) -> PluginInfo {
    PluginInfo { manifest: manifest(id, name), enabled, valid, error: None, dir: format!("/p/{id}") }
}

#[test]
fn plugins_are_disabled_until_opted_in_and_flag_missing_entries() {
    let enabled = vec!["b".to_string()];
    let a = plugin_info("/p/a", Some("a"), Ok(manifest("a", "Alpha")), true, &enabled);
    assert!(!a.enabled);
    assert!(a.valid);
    assert!(a.error.is_none());
    let b = plugin_info("/p/b", Some("b"), Ok(manifest("b", "Beta")), false, &enabled);
    assert!(b.enabled);
    assert!(!b.valid);
    assert_eq!(b.error.as_deref(), Some("entry wasm missing: plugin.wasm"));
    let broken = plugin_info("/p/c", Some("c"), Err("plugin.json invalid: eof".to_string()), true, &enabled);
    assert_eq!(broken.manifest.id, "c");
    assert_eq!(broken.manifest.name, "c");
    assert_eq!(broken.manifest.version, "?");
    assert!(!broken.enabled && !broken.valid);
    assert_eq!(broken.error.as_deref(), Some("plugin.json invalid: eof"));
    assert!(manifest_complete(&manifest("a", "A")));
    assert!(!manifest_complete(&manifest(" ", "A")));
}

#[test]
fn plugins_list_by_lowercased_name() {
    let sorted = sort_plugins(vec![info("1", "beta", false, true), info("2", "Alpha", false, true), info("3", "alpha", false, true)]);
    let ids: Vec<&str> = sorted.iter().map(|p| p.manifest.id.as_str()).collect();
    assert_eq!(ids, vec!["2", "3", "1"]);
}

#[test]
fn enabling_needs_a_valid_plugin_and_disabling_removes_it() {
    let plugins = vec![info("good", "Good", false, true), info("bad", "Bad", false, false)];
    let mut ids: Vec<String> = Vec::new();
    assert!(set_plugin_enabled(&mut ids, &plugins, "good", true).is_ok());
    assert!(set_plugin_enabled(&mut ids, &plugins, "good", true).is_ok());
    assert_eq!(ids, vec!["good".to_string()]);
    assert!(matches!(set_plugin_enabled(&mut ids, &plugins, "bad", true), Err(PluginRefusal::NotFound)));
    assert!(matches!(set_plugin_enabled(&mut ids, &plugins, "nope", true), Err(PluginRefusal::NotFound)));
    assert!(set_plugin_enabled(&mut ids, &plugins, "good", false).is_ok());
    assert!(ids.is_empty());
}

#[test]
fn only_enabled_valid_plugins_run() {
    let mut bad = info("bad", "Bad", true, false);
    bad.error = Some("entry wasm missing: x.wasm".to_string());
    let plugins = vec![info("off", "Off", false, true), bad, info("on", "On", true, true)];
    assert_eq!(transform_target(&plugins, "on").ok(), Some(2));
    assert!(matches!(transform_target(&plugins, "off"), Err(PluginRefusal::NotEnabled)));
    match transform_target(&plugins, "bad") {
        Err(PluginRefusal::Invalid(e)) => assert_eq!(e, "entry wasm missing: x.wasm"),
        other => panic!("{other:?}"),
    }
    assert!(matches!(transform_target(&plugins, "none"), Err(PluginRefusal::NotFound)));
}
