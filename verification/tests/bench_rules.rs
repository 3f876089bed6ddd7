use gflick::bench::{
    count_started_processes, counter_deltas, default_output_file_name, next_sample_at, default_rediscovery_seconds, duration_ms,
    normalize_process_name, plural_suffix, report_set_label, validate_record_args, Counters,
    ProcessKey, RecordArgs,
};

#[test]
fn computes_only_continuing_process_deltas() {
    let continuing = ProcessKey {
        pid: 1,
        start_time: 10,
    };
    let new_process = ProcessKey {
        pid: 2,
        start_time: 20,
    };
    let previous = vec![(
        continuing,
        Counters {
            cpu_ms: 10,
            read_bytes: 100,
            write_bytes: 200,
        },
    )];
    let current = vec![
        (
            continuing,
            Counters {
                cpu_ms: 14,
                read_bytes: 130,
                write_bytes: 250,
            },
        ),
        (
            new_process,
            Counters {
                cpu_ms: 8,
                read_bytes: 80,
                write_bytes: 90,
            },
        ),
    ];
    assert_eq!(counter_deltas(&previous, &current), (4, 30, 50));
}

#[test]
fn counters_that_went_down_count_nothing_and_sums_saturate() {
    let key = ProcessKey { pid: 1, start_time: 1 };
    let other = ProcessKey { pid: 2, start_time: 1 };
    let previous = vec![
        (key, Counters { cpu_ms: 10, read_bytes: 0, write_bytes: 0 }),
        (other, Counters { cpu_ms: 0, read_bytes: 0, write_bytes: 0 }),
    ];
    let current = vec![
        (key, Counters { cpu_ms: 5, read_bytes: u64::MAX, write_bytes: 1 }),
        (other, Counters { cpu_ms: 3, read_bytes: 7, write_bytes: 1 }),
    ];
    assert_eq!(counter_deltas(&previous, &current), (3, u64::MAX, 2));
}

#[test]
fn normalizes_windows_and_unix_process_names() {
    assert_eq!(normalize_process_name("Open-Hub-Agent.EXE"), "open-hub-agent");
    assert_eq!(normalize_process_name("open-hub-agent"), "open-hub-agent");
}

#[test]
fn report_names_are_safe_and_counted_in_seconds() {
    assert_eq!(
        default_output_file_name("--My run/2--", 1_700_000_123_999),
        "My-run-2-1700000123.json"
    );
    assert_eq!(default_output_file_name("!!", 999), "-0.json");
}

#[test]
fn small_helpers() {
    assert_eq!(duration_ms(1500), 1500);
    assert_eq!(duration_ms(u128::MAX), u64::MAX);
    assert_eq!(default_rediscovery_seconds(), 5);
    assert_eq!(plural_suffix(1), "");
    assert_eq!(plural_suffix(2), "s");
    assert_eq!(report_set_label(&vec!["a".to_owned(), "a".to_owned()]), "a");
    assert_eq!(report_set_label(&vec!["a".to_owned(), "b".to_owned()]), "mixed labels");
    assert_eq!(report_set_label(&vec![]), "mixed labels");
}

fn record_args() -> RecordArgs {
    RecordArgs {
        label: "baseline".to_owned(),
        processes: vec!["open-hub-agent".to_owned()],
        warmup_seconds: 60,
        duration_seconds: 600,
        interval_ms: 2000,
        rediscovery_seconds: 5,
        output: None,
    }
}

#[test]
fn record_arguments_are_checked_in_order() {
    assert_eq!(validate_record_args(&record_args(), 200), Ok(()));
    let mut blank = record_args();
    blank.label = "  ".to_owned();
    assert_eq!(
        validate_record_args(&blank, 200),
        Err("--label cannot be empty".to_owned())
    );
    let mut fast = record_args();
    fast.interval_ms = 100;
    assert_eq!(
        validate_record_args(&fast, 200),
        Err("--interval-ms must be at least 200 ms on this platform".to_owned())
    );
    let mut long = record_args();
    long.duration_seconds = 1;
    assert_eq!(
        validate_record_args(&long, 200),
        Err("the sample interval cannot exceed the measurement duration".to_owned())
    );
}

#[test]
fn samples_follow_the_interval_and_stop_at_the_end() {
    // On time: one interval after the last scheduled sample.
    assert_eq!(next_sample_at(1_000, 1_010, 500, 10_000), 1_500);
    // Late: one interval after the sample that was just taken.
    assert_eq!(next_sample_at(1_000, 2_200, 500, 10_000), 2_700);
    // Never after the end of the measurement.
    assert_eq!(next_sample_at(9_800, 9_810, 500, 10_000), 10_000);
    assert_eq!(next_sample_at(9_000, 9_900, 500, 10_000), 10_000);
}

#[test]
fn only_processes_that_appear_later_count_as_started() {
    let a = ProcessKey { pid: 1, start_time: 10 };
    let b = ProcessKey { pid: 2, start_time: 20 };
    let c = ProcessKey { pid: 3, start_time: 30 };
    let reused = ProcessKey { pid: 1, start_time: 40 };
    let initial = vec![a, b];
    let mut seen = initial.clone();
    assert_eq!(count_started_processes(&mut seen, &initial, &vec![a, b]), 0);
    assert_eq!(count_started_processes(&mut seen, &initial, &vec![a, c, reused]), 2);
    assert_eq!(count_started_processes(&mut seen, &initial, &vec![c, reused]), 0);
    assert_eq!(seen.len(), 4);
}
