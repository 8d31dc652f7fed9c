use lib::compile::{generate_test_main, TestFunction};

#[test]
fn generates_test_runner_source() {
    let source = generate_test_main(
        "main",
        &[
            TestFunction {
                name: "test_add".to_string(),
            },
            TestFunction {
                name: "test_sub".to_string(),
            },
        ],
    );

    assert!(source.contains("package main"));
    assert!(source.contains("import \"std/testing\""));
    assert!(source.contains("test_add(t0)"));
    assert!(source.contains("test_sub(t1)"));
}

#[test]
fn runner_without_tests_reports_zero_and_succeeds() {
    let source = generate_test_main("main", &[]);
    assert!(source.starts_with("package main\n\nimport \"std/testing\"\n\nfn main() i32 {\n"));
    assert!(!source.contains("t0"));
    assert!(source.ends_with("    return 0\n}\n"));
}

#[test]
fn runner_runs_tests_in_the_order_given() {
    let source = generate_test_main(
        "app",
        &[
            TestFunction { name: "test_b".to_string() },
            TestFunction { name: "test_a".to_string() },
        ],
    );
    assert!(source.starts_with("package app\n"));
    let b = source.find("test_b(t0)").unwrap();
    let a = source.find("test_a(t1)").unwrap();
    assert!(b < a);
    assert!(source.contains("PASS: test_b"));
    assert!(source.contains("PASS: test_a"));
}
