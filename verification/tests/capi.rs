use sapient::capi::{
    backend_kind, cstr, encoding_failed, error_code, generation_failed, guard, guard_status,
    load_failed, load_request, panic_error, require_callback, require_out, session, Backend,
    CapiError, Outcome,
};
use sapient::text::{decimal, escape_nul};
use sapient::{
    SAPIENT_BACKEND_AUTO, SAPIENT_BACKEND_CPU, SAPIENT_BACKEND_METAL, SAPIENT_BACKEND_WGPU,
    SAPIENT_ERR_GENERATION, SAPIENT_ERR_INTERNAL, SAPIENT_ERR_INVALID_ARGUMENT, SAPIENT_ERR_LOAD,
    SAPIENT_ERR_PANIC, SAPIENT_OK,
};

#[test]
fn backend_constants_map_to_engine_kinds() {
    for (c, expected) in [
        (SAPIENT_BACKEND_AUTO, Backend::Auto),
        (SAPIENT_BACKEND_CPU, Backend::Cpu),
        (SAPIENT_BACKEND_METAL, Backend::Metal),
        (SAPIENT_BACKEND_WGPU, Backend::Wgpu),
    ] {
        assert_eq!(backend_kind(c).unwrap(), expected);
    }
    assert!(backend_kind(99).is_err());
}

#[test]
fn unknown_backend_names_the_value() {
    let e = backend_kind(99).unwrap_err();
    assert_eq!(e.code, SAPIENT_ERR_INVALID_ARGUMENT);
    assert_eq!(e.message, "unknown backend 99 (expected 0=auto, 1=cpu, 2=metal, 3=wgpu)");
    let e = backend_kind(-7).unwrap_err();
    assert_eq!(e.message, "unknown backend -7 (expected 0=auto, 1=cpu, 2=metal, 3=wgpu)");
}

#[test]
fn decimal_matches_display() {
    for v in [0, 7, 10, 99, 100, 12345, -1, -10, -987, i32::MAX, i32::MIN] {
        assert_eq!(decimal(v), v.to_string());
    }
}

#[test]
fn guard_converts_panic_into_error_code() {
    let (rc, err) = guard_status(Outcome::Panicked("boom".to_string()));
    assert_eq!(rc, SAPIENT_ERR_PANIC);
    let err = err.expect("a panic reports detail");
    assert_eq!(error_code(Some(&err)), SAPIENT_ERR_PANIC);
    assert!(err.message.contains("boom"), "message was {:?}", err.message);
    assert_eq!(err.message, "panic caught at FFI boundary: boom");
}

#[test]
fn guard_status_returns_the_real_code_not_a_sentinel() {
    for code in [
        SAPIENT_ERR_LOAD,
        SAPIENT_ERR_GENERATION,
        SAPIENT_ERR_INTERNAL,
        SAPIENT_ERR_INVALID_ARGUMENT,
    ] {
        let (rc, err) = guard_status(Outcome::Failed(CapiError::new(code, "x".to_string())));
        assert_eq!(rc, code);
        assert_eq!(error_code(err.as_ref()), code);
    }
}

#[test]
fn guard_status_passes_success_through() {
    let (rc, err) = guard_status(Outcome::Completed(SAPIENT_OK));
    assert_eq!(rc, SAPIENT_OK);
    assert!(err.is_none());
}

#[test]
fn guard_value_returns_its_sentinel_and_still_reports_detail() {
    let (v, err) = guard(0usize, Outcome::Failed(CapiError::invalid("nope".to_string())));
    assert_eq!(v, 0);
    assert_eq!(error_code(err.as_ref()), SAPIENT_ERR_INVALID_ARGUMENT);
    let (v, err) = guard(false, Outcome::Panicked("unknown panic".to_string()));
    assert!(!v);
    assert_eq!(err.unwrap().code, SAPIENT_ERR_PANIC);
    let (v, err) = guard(0usize, Outcome::Completed(5));
    assert_eq!(v, 5);
    assert!(err.is_none());
}

#[test]
fn null_error_out_param_is_allowed() {
    // Dropping the detail leaves the status code intact.
    let (rc, _) = guard_status(Outcome::Failed(CapiError::invalid("nope".to_string())));
    assert_eq!(rc, SAPIENT_ERR_INVALID_ARGUMENT);
}

#[test]
fn missing_error_handle_reads_as_invalid_argument() {
    assert_eq!(error_code(None), SAPIENT_ERR_INVALID_ARGUMENT);
}

#[test]
fn panic_error_wraps_the_detail() {
    let e = panic_error("index out of bounds");
    assert_eq!(e.code, SAPIENT_ERR_PANIC);
    assert_eq!(e.message, "panic caught at FFI boundary: index out of bounds");
}

#[test]
fn strings_round_trip_and_free() {
    assert_eq!(escape_nul("héllo"), "héllo");
}

#[test]
fn interior_nul_is_escaped_not_truncated() {
    assert_eq!(escape_nul("a\0b"), "a\\0b");
    assert_eq!(escape_nul("\0\0"), "\\0\\0");
    assert!(!escape_nul("x\0y\0").contains('\0'));
}

#[test]
fn cstr_rejects_null_and_bad_utf8() {
    let e = cstr(None, "prompt").unwrap_err();
    assert_eq!(e.code, SAPIENT_ERR_INVALID_ARGUMENT);
    assert_eq!(e.message, "prompt must not be NULL");
    let bad = [0x66u8, 0xff, 0x6f];
    let e = cstr(Some(&bad), "model").unwrap_err();
    assert_eq!(e.code, SAPIENT_ERR_INVALID_ARGUMENT);
    assert_eq!(e.message, "model must be valid UTF-8");
    let good = "héllo".as_bytes();
    assert_eq!(cstr(Some(good), "name").unwrap(), "héllo");
}

#[test]
fn load_request_checks_model_then_prompt_then_backend() {
    let e = load_request(None, None, 99).err().unwrap();
    assert_eq!(e.message, "model must not be NULL");
    let e = load_request(Some(&[0xc3]), None, 0).err().unwrap();
    assert_eq!(e.message, "model must be valid UTF-8");
    let e = load_request(Some(b"qwen"), Some(&[0xff]), 99).err().unwrap();
    assert_eq!(e.message, "system_prompt must be valid UTF-8");
    let e = load_request(Some(b"qwen"), Some(b"sys"), 99).err().unwrap();
    assert_eq!(e.code, SAPIENT_ERR_INVALID_ARGUMENT);
    assert!(e.message.starts_with("unknown backend 99"));
    let req = load_request(Some(b"qwen"), Some(b"sys"), SAPIENT_BACKEND_CPU).ok().unwrap();
    assert_eq!(req.model, "qwen");
    assert_eq!(req.system_prompt.as_deref(), Some("sys"));
    assert_eq!(req.backend, Backend::Cpu);
    let req = load_request(Some(b"m"), None, SAPIENT_BACKEND_AUTO).ok().unwrap();
    assert!(req.system_prompt.is_none());
}

#[test]
fn null_handles_and_out_params_are_rejected() {
    let e = session::<&u8>(None).unwrap_err();
    assert_eq!(e.code, SAPIENT_ERR_INVALID_ARGUMENT);
    assert_eq!(e.message, "session must not be NULL");
    assert_eq!(*session(Some(&3u8)).unwrap(), 3);
    assert_eq!(require_out(false).unwrap_err().message, "out must not be NULL");
    assert!(require_out(true).is_ok());
}

#[test]
fn escaping_fragments_matches_escaping_the_whole() {
    let whole = escape_nul("a\0b\0c");
    let parts = format!("{}{}", escape_nul("a\0"), escape_nul("b\0c"));
    assert_eq!(whole, parts);
}

#[test]
fn null_inputs_are_rejected_not_dereferenced() {
    let e = load_request(None, None, SAPIENT_BACKEND_AUTO).err().unwrap();
    assert_eq!(error_code(Some(&e)), SAPIENT_ERR_INVALID_ARGUMENT);
    let e = session::<&u8>(None).unwrap_err();
    assert_eq!(error_code(Some(&e)), SAPIENT_ERR_INVALID_ARGUMENT);
    assert_eq!(error_code(None), SAPIENT_ERR_INVALID_ARGUMENT);
}

#[test]
fn null_token_callback_is_rejected() {
    let e = require_callback(false).unwrap_err();
    assert_eq!(e.code, SAPIENT_ERR_INVALID_ARGUMENT);
    assert_eq!(e.message, "on_token must not be NULL");
    assert!(require_callback(true).is_ok());
}

#[test]
fn engine_failures_carry_their_own_codes() {
    let e = load_failed("no such repo".to_string());
    assert_eq!((e.code, e.message.as_str()), (SAPIENT_ERR_LOAD, "no such repo"));
    let e = generation_failed("oom".to_string());
    assert_eq!((e.code, e.message.as_str()), (SAPIENT_ERR_GENERATION, "oom"));
    let e = encoding_failed("token");
    assert_eq!((e.code, e.message.as_str()), (SAPIENT_ERR_INTERNAL, "could not encode token for C"));
}
