use feo::paths::should_skip;

#[test]
fn skips_runtime_component() {
    assert!(should_skip("node/runtime/build.rs"));
    assert!(should_skip("runtime"));
    assert!(should_skip("/home/feo/node/runtime"));
    assert!(should_skip("node/runtime/"));
    assert!(should_skip("./runtime/x"));
}

#[test]
fn keeps_other_paths() {
    assert!(!should_skip("node/src/main.rs"));
    assert!(!should_skip("node/runtimes/x"));
    assert!(!should_skip("node/myruntime/x"));
    assert!(!should_skip("runtime.rs"));
    assert!(!should_skip(""));
    assert!(!should_skip("Runtime"));
}
