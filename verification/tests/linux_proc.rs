use cpu_affinity_tool::linux_proc::{
    cpu_model_from_cpuinfo, parse_proc_stat, parse_u32, priority_from_nice, to_nice, IntParseError,
};
use cpu_affinity_tool::process::PriorityClass;

fn chars(s: &str) -> Vec<char> {
    s.chars().collect()
}

#[test]
fn nice_values_follow_priority_classes() {
    assert_eq!(to_nice(PriorityClass::Idle), 19);
    assert_eq!(to_nice(PriorityClass::BelowNormal), 10);
    assert_eq!(to_nice(PriorityClass::Normal), 0);
    assert_eq!(to_nice(PriorityClass::AboveNormal), -5);
    assert_eq!(to_nice(PriorityClass::High), -10);
    assert_eq!(to_nice(PriorityClass::Realtime), -20);
}

#[test]
fn nice_values_read_back_as_priority_classes() {
    assert_eq!(priority_from_nice(19), PriorityClass::Idle);
    assert_eq!(priority_from_nice(15), PriorityClass::Idle);
    assert_eq!(priority_from_nice(14), PriorityClass::BelowNormal);
    assert_eq!(priority_from_nice(5), PriorityClass::BelowNormal);
    assert_eq!(priority_from_nice(4), PriorityClass::Normal);
    assert_eq!(priority_from_nice(-4), PriorityClass::Normal);
    assert_eq!(priority_from_nice(-5), PriorityClass::AboveNormal);
    assert_eq!(priority_from_nice(-9), PriorityClass::AboveNormal);
    assert_eq!(priority_from_nice(-10), PriorityClass::High);
    assert_eq!(priority_from_nice(-20), PriorityClass::High);
    for p in [PriorityClass::Idle, PriorityClass::BelowNormal, PriorityClass::Normal, PriorityClass::AboveNormal, PriorityClass::High] {
        assert_eq!(priority_from_nice(to_nice(p)), p);
    }
}

#[test]
fn u32_parsing_matches_std() {
    for text in ["0", "42", "+7", "4294967295", "4294967296", "", "+", "-", "-1", "12a", "99999999999x", "007"] {
        let expected = text.parse::<u32>();
        let got = parse_u32(&chars(text));
        match expected {
            Ok(v) => assert_eq!(got, Ok(v), "{text}"),
            Err(e) => {
                let err = got.unwrap_err();
                assert_eq!(err.message(), e.to_string(), "{text}");
            }
        }
    }
    assert_eq!(parse_u32(&chars("")), Err(IntParseError::Empty));
}

#[test]
fn proc_stat_gives_parent_and_command() {
    let stat = "1234 (my (odd) app) S 1 1234 1234 0 -1 4194560";
    assert_eq!(parse_proc_stat(1234, stat), Ok((1, "my (odd) app".to_string())));
    assert_eq!(parse_proc_stat(7, "7 (bash) S 42"), Err("failed to parse parent pid for /proc/7/stat".to_string()));
    assert_eq!(parse_proc_stat(7, "no brackets"), Err("failed to parse /proc/7/stat".to_string()));
    assert_eq!(
        parse_proc_stat(7, "7 (bash) S x 1"),
        Err("failed to parse parent pid for /proc/7: invalid digit found in string".to_string())
    );
}

#[test]
fn cpuinfo_model_is_the_first_model_name_value() {
    let cpuinfo = "processor\t: 0\nvendor_id\t: GenuineIntel\nmodel name\t: Intel(R) Core(TM) i7 CPU @ 2.80GHz\nmodel name\t: other\n";
    assert_eq!(cpu_model_from_cpuinfo(cpuinfo), "Intel(R) Core(TM) i7 CPU @ 2.80GHz");
    assert_eq!(cpu_model_from_cpuinfo("model name: A:B"), "A");
    assert_eq!(cpu_model_from_cpuinfo("model name without colon"), "Unknown CPU");
    assert_eq!(cpu_model_from_cpuinfo("processor : 0"), "Unknown CPU");
}
