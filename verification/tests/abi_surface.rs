use sapient::abi::SAPIENT_H;

/// The public C ABI. Sorted.
const EXPECTED_SYMBOLS: &[&str] = &[
    "sapient_api_version",
    "sapient_chat",
    "sapient_chat_stream",
    "sapient_error_code",
    "sapient_error_free",
    "sapient_error_message",
    "sapient_model_alias",
    "sapient_model_count",
    "sapient_options_default",
    "sapient_resolve_alias",
    "sapient_session_backend",
    "sapient_session_free",
    "sapient_session_is_mmap",
    "sapient_session_load",
    "sapient_session_model",
    "sapient_session_reset",
    "sapient_set_cache_dir",
    "sapient_string_free",
    "sapient_transcript_at",
    "sapient_transcript_len",
    "sapient_version",
];

/// Function names declared in the header: `name(` preceded by a return type.
fn symbols_in_header() -> Vec<String> {
    let mut found: Vec<String> = Vec::new();
    for line in SAPIENT_H.lines() {
        let t = line.trim();
        if t.starts_with('*') || t.starts_with("/*") || t.starts_with('#') || t.starts_with("typedef")
        {
            continue;
        }
        let Some(open) = t.find('(') else { continue };
        let before = &t[..open];
        let Some(name) = before.split([' ', '*', '\t']).next_back() else {
            continue;
        };
        if name.starts_with("sapient_") && !found.contains(&name.to_string()) {
            found.push(name.to_string());
        }
    }
    found.sort();
    found
}

#[test]
fn header_declares_exactly_the_expected_symbols() {
    let expected: Vec<String> = EXPECTED_SYMBOLS.iter().map(|s| s.to_string()).collect();
    assert_eq!(symbols_in_header(), expected);
}

#[test]
fn api_version_agrees_between_header_and_source() {
    let hdr = SAPIENT_H
        .lines()
        .find(|l| l.contains("#define SAPIENT_API_VERSION"))
        .and_then(|l| l.split_whitespace().nth(2))
        .map(|v| v.trim_end_matches('u').to_string())
        .expect("SAPIENT_API_VERSION not found in sapient.h");
    assert_eq!(
        hdr,
        sapient::SAPIENT_API_VERSION.to_string(),
        "SAPIENT_API_VERSION differs between sapient.h and the library"
    );
}

#[test]
fn status_and_backend_constants_agree_between_header_and_source() {
    let defines: Vec<(&str, i32)> = vec![
        ("SAPIENT_OK", sapient::SAPIENT_OK),
        ("SAPIENT_ERR_INVALID_ARGUMENT", sapient::SAPIENT_ERR_INVALID_ARGUMENT),
        ("SAPIENT_ERR_LOAD", sapient::SAPIENT_ERR_LOAD),
        ("SAPIENT_ERR_GENERATION", sapient::SAPIENT_ERR_GENERATION),
        ("SAPIENT_ERR_INTERNAL", sapient::SAPIENT_ERR_INTERNAL),
        ("SAPIENT_ERR_PANIC", sapient::SAPIENT_ERR_PANIC),
        ("SAPIENT_BACKEND_AUTO", sapient::SAPIENT_BACKEND_AUTO),
        ("SAPIENT_BACKEND_CPU", sapient::SAPIENT_BACKEND_CPU),
        ("SAPIENT_BACKEND_METAL", sapient::SAPIENT_BACKEND_METAL),
        ("SAPIENT_BACKEND_WGPU", sapient::SAPIENT_BACKEND_WGPU),
    ];
    for (name, rust_value) in defines {
        let needle = format!("#define {name} ");
        let line = SAPIENT_H
            .lines()
            .find(|l| l.trim_start().starts_with(&needle))
            .unwrap_or_else(|| panic!("{name} not #defined in sapient.h"));
        let hdr_value: i32 = line
            .trim_start()
            .trim_start_matches(&needle)
            .split_whitespace()
            .next()
            .and_then(|v| v.parse().ok())
            .unwrap_or_else(|| panic!("could not parse the value of {name} in sapient.h"));
        assert_eq!(
            hdr_value, rust_value,
            "{name} is {hdr_value} in sapient.h but {rust_value} in the library"
        );
    }
}

#[test]
fn every_exported_function_is_documented_in_the_header() {
    for sym in EXPECTED_SYMBOLS {
        let idx = SAPIENT_H
            .find(&format!("{sym}("))
            .unwrap_or_else(|| panic!("{sym} missing from sapient.h"));
        let preceding = &SAPIENT_H[..idx];
        let has_comment = preceding
            .lines()
            .rev()
            .take(8)
            .any(|l| l.trim_start().starts_with("/*") || l.trim_start().starts_with('*'));
        assert!(has_comment, "{sym} is declared in sapient.h with no comment");
    }
}
