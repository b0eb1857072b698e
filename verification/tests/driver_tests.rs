use watt::arena::Arena;
use watt::driver::{extract_result, find_export, push_inputs, resolve, resolve_imports, Op};
use watt::error::HostError;
use watt::token::TokenStream;

#[test]
fn known_imports_resolve_under_the_abi_namespace() {
    assert_eq!(resolve("env", "token_stream_new").unwrap(), Op::TokenStreamNew);
    assert_eq!(resolve("env", "watt_print_panic").unwrap(), Op::WattPrintPanic);
    assert_eq!(resolve("env", "literal_u128_suffixed").unwrap(), Op::LiteralU128Suffixed);
    assert_eq!(resolve("env", "ident_cmp").unwrap(), Op::IdentCmp);
}

#[test]
fn wrong_namespace_or_unknown_name_is_fatal() {
    match resolve("wasi", "token_stream_new") {
        Err(HostError::UnresolvedImport { name }) => assert_eq!(name, "token_stream_new"),
        _ => panic!("expected unresolved import"),
    }
    match resolve("env", "token_stream_set_on_fire") {
        Err(HostError::UnresolvedImport { name }) => {
            assert_eq!(name, "token_stream_set_on_fire")
        }
        _ => panic!("expected unresolved import"),
    }
}

#[test]
fn import_lists_resolve_in_order() {
    let imports = vec![
        ("env".to_string(), "token_stream_new".to_string()),
        ("env".to_string(), "span_call_site".to_string()),
    ];
    let ops = resolve_imports(&imports).unwrap();
    assert_eq!(ops, vec![Op::TokenStreamNew, Op::SpanCallSite]);

    let bad = vec![("env".to_string(), "nope".to_string())];
    assert!(resolve_imports(&bad).is_err());
}

#[test]
fn missing_export_is_the_unresolved_macro_failure() {
    let exports = vec!["other".to_string(), "helper".to_string()];
    let a = Arena::new();
    match find_export(&exports, "identity") {
        Err(HostError::UnresolvedMacro { name }) => assert_eq!(name, "identity"),
        _ => panic!("expected unresolved macro"),
    }
    // the failure comes before any arena work: nothing was allocated
    assert!(a.streams.is_empty() && a.spans.is_empty());
}

#[test]
fn present_export_is_found_at_its_position() {
    let exports = vec!["other".to_string(), "identity".to_string()];
    assert_eq!(find_export(&exports, "identity").unwrap(), 1);
}

/// An invocation of a trivial guest whose export returns its input handle
/// unchanged: the driver's steps around it give back the input stream.
#[test]
fn identity_invocation_round_trips_the_stream() {
    let mut a = Arena::new();
    let input = TokenStream::from_str("a b c").unwrap();
    let inputs = vec![input];
    let handles = push_inputs(&mut a, &inputs).unwrap();
    assert_eq!(handles.len(), 1);
    // the guest runs here; the identity guest hands its argument back
    let results = vec![Some(handles[0])];
    let out = extract_result(&a, &results).unwrap();
    a.end_scope();
    assert_eq!(out.display_string(), "a b c");
}

#[test]
fn wrong_return_shape_is_fatal() {
    let mut a = Arena::new();
    let inputs = vec![TokenStream::new()];
    let handles = push_inputs(&mut a, &inputs).unwrap();
    // no results at all
    assert!(matches!(extract_result(&a, &vec![]), Err(HostError::BadReturn)));
    // two results
    let two = vec![Some(handles[0]), Some(handles[0])];
    assert!(matches!(extract_result(&a, &two), Err(HostError::BadReturn)));
    // one result of a non-handle type
    assert!(matches!(extract_result(&a, &vec![None]), Err(HostError::BadReturn)));
    // a handle that is no stream
    match extract_result(&a, &vec![Some(99)]) {
        Err(HostError::InvalidHandle { handle, .. }) => assert_eq!(handle, 99),
        _ => panic!("expected invalid handle"),
    }
}
