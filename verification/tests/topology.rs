use cpu_affinity_tool::topology::{detect_cpu_model, detect_total_threads, processor_name_model};

#[test]
fn total_threads_override_wins() {
    assert_eq!(detect_total_threads(6), 6);
    assert!(detect_total_threads(0) >= 1);
}

#[test]
fn cpu_model_override_wins_when_set() {
    assert_eq!(detect_cpu_model("Test CPU", "Real CPU".to_string()), "Test CPU");
    assert_eq!(detect_cpu_model("", "Real CPU".to_string()), "Real CPU");
}

#[test]
fn registry_cpu_name_is_trimmed_of_spaces_and_nuls() {
    assert_eq!(processor_name_model(Some("  AMD Ryzen 9 7950X 16-Core Processor  \0\0")), "AMD Ryzen 9 7950X 16-Core Processor");
    assert_eq!(processor_name_model(Some("\0 \0")), "");
    assert_eq!(processor_name_model(None), "Unknown CPU");
}
