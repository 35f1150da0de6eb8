use open_english::guest::Guest;
use open_english::sandbox::{check_memory_size, check_written, prepare, run_guest, run_wasm_blocking, sandbox_plan};
use open_english::world_lab::{
    admit_task, constant_time_eq, decode_task_field, encode_task_output, fuel_consumed, pairing_token_setting, precheck_task, random_pairing_token,
    ComputeEngine, ComputeLimits, WorldLab,
};
use open_english::worker::{
    encode_request, encode_response, parse_request, parse_response, read_u64_le, response_result, u64_le_bytes,
};

const WAT_INCREMENT: &str = "
    (module
      (memory (export \"memory\") 2)
      (func (export \"run\") (param $in_ptr i32) (param $in_len i32) (param $out_ptr i32) (param $out_cap i32) (result i32)
        (local $i i32)
        (local.set $i (i32.const 0))
        (block $done
          (loop $loop
            (br_if $done (i32.ge_s (local.get $i) (local.get $in_len)))
            (i32.store8
              (i32.add (local.get $out_ptr) (local.get $i))
              (i32.add (i32.const 1) (i32.load8_u (i32.add (local.get $in_ptr) (local.get $i)))))
            (local.set $i (i32.add (local.get $i) (i32.const 1)))
            (br $loop)))
        (local.get $in_len)))
";

const WAT_REQUIRES_IMPORT: &str = "
    (module
      (import \"env\" \"host_fn\" (func $host_fn))
      (memory (export \"memory\") 1)
      (func (export \"run\") (param i32 i32 i32 i32) (result i32) (i32.const 0)))
";

fn test_limits() -> ComputeLimits {
    ComputeLimits {
        max_wasm_bytes: 64 * 1024,
        max_input_bytes: 4096,
        max_output_bytes: 4096,
        memory_limit_bytes: 256 * 1024,
        fuel_limit: 10_000_000,
        timeout_secs: 5,
    }
}

#[test]
fn runs_self_contained_module_and_returns_transformed_output() {
    let input = b"hello";
    let (output, fuel_consumed) =
        run_wasm_blocking(WAT_INCREMENT.as_bytes(), input, &test_limits()).expect("should run successfully");
    assert_eq!(output, vec![b'h' + 1, b'e' + 1, b'l' + 1, b'l' + 1, b'o' + 1]);
    assert!(fuel_consumed > 0, "fuel_consumed should be nonzero for a module that actually did work");
}

#[test]
fn rejects_module_that_requires_imports() {
    let err = run_wasm_blocking(WAT_REQUIRES_IMPORT.as_bytes(), b"", &test_limits()).unwrap_err();
    assert!(err.contains("self-contained"), "error should explain that imports are not allowed, got: {err}");
}

#[test]
fn rejects_wasm_module_larger_than_limit() {
    let mut limits = test_limits();
    limits.max_wasm_bytes = 4;
    let err = run_wasm_blocking(WAT_INCREMENT.as_bytes(), b"", &limits).unwrap_err();
    assert!(err.contains("too large"), "error should mention size limit, got: {err}");
}

#[test]
fn rejects_input_larger_than_limit() {
    let mut limits = test_limits();
    limits.max_input_bytes = 2;
    let err = run_wasm_blocking(WAT_INCREMENT.as_bytes(), b"abc", &limits).unwrap_err();
    assert!(err.contains("input too large"), "error should mention input size limit, got: {err}");
    assert_eq!(err, "input too large (3 bytes, limit 2)");
}

#[test]
fn compute_engine_disabled_by_default_rejects_run() {
    let limits = ComputeLimits::from_settings(None, None, None, None, None, None);
    let engine = ComputeEngine::from_env(None, limits, None, None);
    assert!(!engine.enabled);
    let err = precheck_task(engine.enabled, WAT_INCREMENT.len(), 1, &engine.limits).unwrap_err();
    assert!(err.contains("disabled"), "error should say compute execution is disabled, got: {err}");
}

#[test]
fn compute_engine_settings() {
    let limits = ComputeLimits::from_settings(None, None, None, None, None, None);
    let engine = ComputeEngine::from_env(Some("1"), limits, Some("0"), Some("3"));
    assert!(engine.enabled);
    assert_eq!(engine.max_concurrent, 2);
    assert_eq!(engine.max_queue, 3);
    let limits = ComputeLimits::from_settings(None, None, None, None, None, None);
    let engine = ComputeEngine::from_env(Some("yes"), limits, Some("5"), None);
    assert!(!engine.enabled);
    assert_eq!(engine.max_concurrent, 5);
    assert_eq!(engine.max_queue, 8);
}

#[test]
fn world_lab_from_env() {
    let wl = WorldLab::from_env(None, None).expect("random token");
    assert!(!wl.token_matches(wl.pairing_token()));
    assert_eq!(wl.pairing_token().len(), 32);
    assert!(wl.pairing_token().chars().all(|c| c.is_ascii_hexdigit()));
    let wl = WorldLab::from_env(Some("1"), Some("secret")).expect("configured token");
    assert_eq!(wl.pairing_token(), "secret");
    assert!(wl.token_matches("secret"));
    assert_eq!(wl.paired_device_count(), 0);
    let wl = WorldLab::from_env(Some("1"), Some("")).expect("random token");
    assert_eq!(wl.pairing_token().len(), 32);
}

#[test]
fn limits_default_and_override() {
    let l = ComputeLimits::from_settings(None, Some("0"), Some("junk"), Some("1024"), Some("42"), None);
    assert_eq!(l.max_wasm_bytes, 256 * 1024);
    assert_eq!(l.max_input_bytes, 64 * 1024);
    assert_eq!(l.max_output_bytes, 64 * 1024);
    assert_eq!(l.memory_limit_bytes, 1024);
    assert_eq!(l.fuel_limit, 42);
    assert_eq!(l.timeout_secs, 5);
}

#[test]
fn module_without_enough_memory_is_refused() {
    let mut limits = test_limits();
    limits.max_input_bytes = 100_000;
    limits.max_output_bytes = 100_000;
    let err = run_wasm_blocking(WAT_INCREMENT.as_bytes(), b"x", &limits).unwrap_err();
    assert_eq!(
        err,
        "module's initial memory (131072 bytes) is smaller than input+output area (200000 bytes) — export a larger initial memory"
    );
}

#[test]
fn queue_admission_and_fuel() {
    assert!(admit_task(7, 8).is_ok());
    assert_eq!(
        admit_task(8, 8).unwrap_err(),
        "too many world-lab tasks are already queued (8 waiting, limit 8) — try again later"
    );
    assert_eq!(fuel_consumed(100, Some(30)), 70);
    assert_eq!(fuel_consumed(100, Some(300)), 0);
    assert_eq!(fuel_consumed(100, None), 100);
}

#[test]
fn worker_frames_round_trip() {
    let frame = encode_request(b"wasm-bytes", b"in");
    assert_eq!(parse_request(&frame), Ok((b"wasm-bytes".to_vec(), b"in".to_vec())));
    assert_eq!(parse_request(&frame[..5]), Err("failed to read wasm_len: failed to fill whole buffer".to_string()));
    assert_eq!(parse_request(&frame[..12]), Err("failed to read wasm bytes: failed to fill whole buffer".to_string()));
    let ok = encode_response(&Ok((b"out".to_vec(), 77)));
    assert_eq!(parse_response(&ok), Some((1, 77, b"out".to_vec())));
    let err = encode_response(&Err("bad thing".to_string()));
    let (status, fuel, payload) = parse_response(&err).expect("complete frame");
    assert_eq!((status, fuel), (0, 0));
    assert_eq!(response_result(status, fuel, &payload), Err("bad thing".to_string()));
    assert_eq!(parse_response(&err[..20]), None);
    assert_eq!(response_result(0, 0, &[0x66, 0xff, 0x6f]), Err("f\u{FFFD}o".to_string()));
    assert_eq!(u64_le_bytes(0x0102030405060708), vec![8, 7, 6, 5, 4, 3, 2, 1]);
    assert_eq!(read_u64_le(&[8, 7, 6, 5, 4, 3, 2, 1], 0), 0x0102030405060708);
}

#[test]
fn pairing_flow() {
    let token = random_pairing_token().expect("rng");
    assert_eq!(token.len(), 32);
    let mut wl = WorldLab::new(true, token.clone());
    assert!(wl.token_matches(&token));
    assert!(!wl.token_matches("nope"));
    assert_eq!(wl.pair("nope", "phone", "usb", 10).unwrap_err(), "invalid pairing token");
    assert_eq!(
        wl.pair(&token, "phone", "serial", 10).unwrap_err(),
        "connection must be one of: usb, wifi, bluetooth, lan, wan (got \"serial\")"
    );
    assert_eq!(wl.pair(&token, "   ", "usb", 10).unwrap_err(), "device_name must be 1-100 characters");
    let b = wl.pair(&token, " tablet ", "wifi", 20).expect("pair");
    let a = wl.pair(&token, "phone", "usb", 10).expect("pair");
    assert_eq!(b.device_name, "tablet");
    let w = wl.pair(&token, "laptop", "wan", 30).expect("wan pairs");
    assert_eq!(w.connection, "wan");
    assert!(wl.unpair(&w.device_id).expect("enabled"));
    assert_eq!(a.device_id.len(), 16);
    let list = wl.list_devices().expect("enabled");
    assert_eq!(list.len(), 2);
    assert_eq!(list[0].device_id, a.device_id);
    assert_eq!(list[1].device_id, b.device_id);
    assert_eq!(wl.paired_device_count(), 2);
    assert_eq!(wl.unpair(&a.device_id), Ok(true));
    assert_eq!(wl.unpair(&a.device_id), Ok(false));
    assert_eq!(wl.list_devices().expect("enabled").len(), 1);
}

#[test]
fn disabled_world_lab_refuses_everything() {
    let mut wl = WorldLab::new(false, "t".to_string());
    assert!(!wl.token_matches("t"));
    let msg = "world-lab is disabled on this server (set OPEN_ENGLISH_WORLD_LAB_ENABLED=1)";
    assert_eq!(wl.pair("t", "x", "usb", 1).unwrap_err(), msg);
    assert_eq!(wl.list_devices().unwrap_err(), msg);
    assert_eq!(wl.unpair("x").unwrap_err(), msg);
    assert_eq!(pairing_token_setting(Some("")), None);
    assert_eq!(pairing_token_setting(Some("abc")), Some("abc".to_string()));
    assert!(constant_time_eq(b"abc", b"abc"));
    assert!(!constant_time_eq(b"abc", b"abd"));
}

#[test]
fn guest_results_are_checked() {
    assert_eq!(check_written(3, 4), Ok(3));
    assert_eq!(check_written(4, 4), Ok(4));
    assert_eq!(check_written(-7, 4), Err("guest module returned an error code (-7)".to_string()));
    assert_eq!(
        check_written(5, 4),
        Err("guest module reported writing 5 bytes, which exceeds the output capacity 4".to_string())
    );
    assert_eq!(check_memory_size(10, 10), Ok(()));
    assert_eq!(
        check_memory_size(9, 10),
        Err("module's initial memory (9 bytes) is smaller than input+output area (10 bytes) — export a larger initial memory".to_string())
    );
}

#[test]
fn task_fields_round_trip() {
    let out = encode_task_output(b"\x00\xffhello");
    assert_eq!(out, "AP9oZWxsbw==");
    assert_eq!(decode_task_field("output", &out), Ok(b"\x00\xffhello".to_vec()));
    assert!(decode_task_field("wasm_base64", "***").unwrap_err().starts_with("wasm_base64 is not valid base64: "));
}

const WAT_NO_RUN: &str = "
    (module
      (memory (export \"memory\") 2))
";

const WAT_NO_MEMORY: &str = "
    (module
      (func (export \"run\") (param i32 i32 i32 i32) (result i32)
        (i32.const 0)))
";

const WAT_ERROR_CODE: &str = "
    (module
      (memory (export \"memory\") 2)
      (func (export \"run\") (param i32 i32 i32 i32) (result i32)
        (i32.const -7)))
";

#[test]
fn sandbox_plan_follows_limits() {
    let limits = test_limits();
    let plan = sandbox_plan(&limits);
    assert!(plan.engine.consume_fuel);
    assert_eq!(plan.store.memory_size, 256 * 1024);
    assert_eq!((plan.store.instances, plan.store.memories, plan.store.tables), (1, 1, 1));
    assert_eq!(plan.fuel, 10_000_000);
    assert_eq!(plan.input_ptr, 0);
    assert_eq!(plan.out_ptr, 4096);
    assert_eq!(plan.out_cap, 4096);
    assert_eq!(plan.needed, 8192);
}

#[test]
fn guest_reads_output_after_the_input_area() {
    let plan = sandbox_plan(&test_limits());
    let mut g = Guest::create(&plan.engine, &plan.store).expect("engine");
    prepare(&mut g, WAT_INCREMENT.as_bytes(), &plan).expect("prepared");
    let (out, fuel) = run_guest(&mut g, b"abc", &plan).expect("ran");
    assert_eq!(out, b"bcd".to_vec());
    assert!(fuel > 0 && fuel <= plan.fuel);
}

#[test]
fn prepare_names_the_failed_step() {
    let plan = sandbox_plan(&test_limits());
    let mut g = Guest::create(&plan.engine, &plan.store).expect("engine");
    let err = prepare(&mut g, b"not a module", &plan).unwrap_err();
    assert!(err.starts_with("failed to compile WASM module: "), "got: {err}");

    let mut g = Guest::create(&plan.engine, &plan.store).expect("engine");
    let err = prepare(&mut g, WAT_REQUIRES_IMPORT.as_bytes(), &plan).unwrap_err();
    assert!(err.starts_with("failed to instantiate module (it must be self-contained: no imports allowed): "), "got: {err}");

    let mut g = Guest::create(&plan.engine, &plan.store).expect("engine");
    let err = prepare(&mut g, WAT_NO_MEMORY.as_bytes(), &plan).unwrap_err();
    assert_eq!(err, "module must export a linear memory named \"memory\"");

    let mut g = Guest::create(&plan.engine, &plan.store).expect("engine");
    let err = prepare(&mut g, WAT_NO_RUN.as_bytes(), &plan).unwrap_err();
    assert_eq!(err, "module must export a function \"run(in_ptr: i32, in_len: i32, out_ptr: i32, out_cap: i32) -> i32\"");
}

#[test]
fn guest_error_code_is_reported() {
    let err = run_wasm_blocking(WAT_ERROR_CODE.as_bytes(), b"x", &test_limits()).unwrap_err();
    assert_eq!(err, "guest module returned an error code (-7)");
}

#[test]
fn input_of_exactly_the_cap_is_accepted() {
    let mut limits = test_limits();
    limits.max_input_bytes = 5;
    let (out, fuel) = run_wasm_blocking(WAT_INCREMENT.as_bytes(), b"hello", &limits).expect("runs");
    assert_eq!(out, b"ifmmp".to_vec());
    assert!(fuel > 0 && fuel <= limits.fuel_limit);
}
