use debugger::rust_symbol::normalize_lldb_rust_function_name;
use debugger::rust_symbol::MIN_HASH_DIGITS;

#[test]
fn strips_trailing_disambiguator() {
    assert_eq!(
        normalize_lldb_rust_function_name("call_chain::head::h4766c160f69ecd87"),
        "call_chain::head"
    );
}

#[test]
fn leaves_short_or_non_hex_suffix() {
    assert_eq!(
        normalize_lldb_rust_function_name("call_chain::head::h12ab"),
        "call_chain::head::h12ab"
    );
    assert_eq!(
        normalize_lldb_rust_function_name("call_chain::hash::module"),
        "call_chain::hash::module"
    );
}

#[test]
fn appended_hash_is_removed_for_any_base() {
    let bases = ["", "main", "a::b::c", "<gen::Container as gen::Contains>::first", "é::ß"];
    let hashes = ["4766c160f69ecd87", "DEADBEEF", "0123456789abcdefABCDEF"];
    for base in bases.iter() {
        for hash in hashes.iter() {
            let name = format!("{}::h{}", base, hash);
            assert_eq!(normalize_lldb_rust_function_name(&name), *base);
        }
    }
}

#[test]
fn exactly_min_digits_is_stripped() {
    assert_eq!(MIN_HASH_DIGITS, 8);
    assert_eq!(normalize_lldb_rust_function_name("f::h12345678"), "f");
    assert_eq!(normalize_lldb_rust_function_name("f::h1234567"), "f::h1234567");
}

#[test]
fn non_hex_tail_is_kept() {
    assert_eq!(normalize_lldb_rust_function_name("f::h1234567g"), "f::h1234567g");
    assert_eq!(normalize_lldb_rust_function_name("f::hdéadbeef0"), "f::hdéadbeef0");
    assert_eq!(normalize_lldb_rust_function_name("f::h12345678 "), "f::h12345678 ");
}

#[test]
fn only_the_last_marker_counts() {
    assert_eq!(
        normalize_lldb_rust_function_name("a::h12345678::h87654321"),
        "a::h12345678"
    );
    assert_eq!(
        normalize_lldb_rust_function_name("a::h12345678::x"),
        "a::h12345678::x"
    );
    assert_eq!(
        normalize_lldb_rust_function_name("a::h12345678::h12"),
        "a::h12345678::h12"
    );
}

#[test]
fn names_without_marker_are_unchanged() {
    assert_eq!(normalize_lldb_rust_function_name(""), "");
    assert_eq!(normalize_lldb_rust_function_name("::"), "::");
    assert_eq!(normalize_lldb_rust_function_name("main"), "main");
    assert_eq!(normalize_lldb_rust_function_name(":h12345678"), ":h12345678");
}

#[test]
fn marker_at_start_strips_everything() {
    assert_eq!(normalize_lldb_rust_function_name("::hffffffffffffffff"), "");
}

#[test]
fn result_is_prefix_of_input() {
    let names = [
        "call_chain::end::h0123456789abcdef",
        "call_chain::end::h0123",
        "x::hh12345678",
        ":::h12345678",
    ];
    for name in names.iter() {
        let out = normalize_lldb_rust_function_name(name);
        assert!(name.starts_with(out.as_str()));
    }
    assert_eq!(normalize_lldb_rust_function_name("x::hh12345678"), "x::hh12345678");
    assert_eq!(normalize_lldb_rust_function_name(":::h12345678"), ":");
}
