use pipa_collector::system_stats::{
    cpu_usage_deltas, parse_cpu_stats_from_content, parse_cpu_stats_from_line,
    parse_memory_stats_from_content, CpuStats, MemoryStats, PipaCollectorError,
};

#[test]
fn test_parse_cpu_stats_happy_path_two_spaces() {
    let line = "cpu  74608 2520 24433 1117073 6176 4054 0 0 0 0";
    let stats = parse_cpu_stats_from_line(line).unwrap();

    assert_eq!(stats.user, 74608);
    assert_eq!(stats.nice, 2520);
    assert_eq!(stats.system, 24433);
    assert_eq!(stats.idle, 1117073);
    assert_eq!(stats.iowait, 6176);
    assert_eq!(stats.irq, 4054);
    assert_eq!(stats.softirq, 0);
    assert_eq!(stats.steal, 0);
    assert_eq!(stats.guest, 0);
    assert_eq!(stats.guest_nice, 0);
}

#[test]
fn test_parse_cpu_stats_happy_path_one_space() {
    let line = "cpu 74608 2520 24433 1117073 6176 4054 0 0 0 0";
    let stats = parse_cpu_stats_from_line(line).unwrap();
    assert_eq!(stats.user, 74608);
}

#[test]
fn test_parse_cpu_stats_invalid_prefix() {
    let line = "cqu 74608 2520 24433 1117073 6176 4054 0 0 0 0";
    let result = parse_cpu_stats_from_line(line);
    assert!(result.is_err());
    assert!(matches!(result.unwrap_err(), PipaCollectorError::InvalidFormat(_)));
}

#[test]
fn test_parse_cpu_stats_not_enough_values() {
    let line = "cpu  74608 2520 24433";
    let result = parse_cpu_stats_from_line(line);
    assert!(result.is_err());
    assert!(matches!(result.unwrap_err(), PipaCollectorError::MissingData(_)));
}

#[test]
fn test_parse_cpu_stats_non_numeric_value() {
    let line = "cpu  74608 2520 not-a-number 1117073 6176 4054 0 0 0 0";
    let result = parse_cpu_stats_from_line(line);
    assert!(result.is_err());
    assert!(matches!(result.unwrap_err(), PipaCollectorError::Parse(_)));
}

#[test]
fn test_parse_memory_stats_happy_path() {
    let content = "MemTotal:       65029028 kB\n\
                   MemFree:        26013012 kB\n\
                   MemAvailable:   50841208 kB\n\
                   SomeOtherLine:  12345 kB\n\
                   Buffers:            4504 kB\n\
                   Cached:         25023892 kB";

    let stats = parse_memory_stats_from_content(content).unwrap();

    assert_eq!(stats.total, 65029028);
    assert_eq!(stats.free, 26013012);
    assert_eq!(stats.available, 50841208);
    assert_eq!(stats.buffers, 4504);
    assert_eq!(stats.cached, 25023892);
}

#[test]
fn test_parse_memory_stats_missing_fields() {
    let content = "MemTotal:       65029028 kB\n\
                   MemFree:        26013012 kB";

    let result = parse_memory_stats_from_content(content);
    assert!(result.is_err());
    assert!(matches!(result.unwrap_err(), PipaCollectorError::MissingData(_)));
}

#[test]
fn test_parse_memory_stats_malformed_value() {
    let content = "MemTotal:       not-a-number kB\n\
                   MemFree:        26013012 kB\n\
                   MemAvailable:   50841208 kB\n\
                   Buffers:            4504 kB\n\
                   Cached:         25023892 kB";

    // A malformed value line is skipped, so MemTotal is never found and the
    // parse fails for want of that field.
    let result = parse_memory_stats_from_content(content);
    assert!(result.is_err());
    assert!(matches!(result.unwrap_err(), PipaCollectorError::MissingData(_)));
}

#[test]
fn test_parse_cpu_stats_missing_value_names_the_field() {
    // Three fields present: the first missing one is idle.
    match parse_cpu_stats_from_line("cpu  74608 2520 24433") {
        Err(PipaCollectorError::MissingData(m)) => assert_eq!(m, "Missing value for idle"),
        _ => panic!("expected a missing-data error"),
    }
    // No fields at all: the first missing one is user.
    match parse_cpu_stats_from_line("cpu ") {
        Err(PipaCollectorError::MissingData(m)) => assert_eq!(m, "Missing value for user"),
        _ => panic!("expected a missing-data error"),
    }
    // Nine fields present: the last one, guest_nice, is named.
    match parse_cpu_stats_from_line("cpu 1 2 3 4 5 6 7 8 9") {
        Err(PipaCollectorError::MissingData(m)) => assert_eq!(m, "Missing value for guest_nice"),
        _ => panic!("expected a missing-data error"),
    }
}

#[test]
fn test_parse_cpu_stats_from_content_uses_first_line() {
    let content = "cpu  74608 2520 24433 1117073 6176 4054 0 0 0 0\n\
                   cpu0 1 2 3 4 5 6 7 8 9 10\n";
    let stats = parse_cpu_stats_from_content(content).unwrap();
    assert_eq!(stats.user, 74608);
    assert_eq!(stats.idle, 1117073);
}

#[test]
fn test_parse_cpu_stats_from_content_empty() {
    match parse_cpu_stats_from_content("") {
        Err(PipaCollectorError::InvalidFormat(m)) => {
            assert_eq!(m, "Cannot read first line from /proc/stat");
        }
        _ => panic!("expected the invalid-format error"),
    }
}

#[test]
fn test_parse_cpu_stats_extra_fields_ignored() {
    let line = "cpu  1 2 3 4 5 6 7 8 9 10 11 12";
    let stats = parse_cpu_stats_from_line(line).unwrap();
    assert_eq!(stats.user, 1);
    assert_eq!(stats.guest_nice, 10);
}

#[test]
fn test_parse_cpu_stats_plus_sign_and_max_value() {
    let line = "cpu  +74608 2520 24433 18446744073709551615 6176 4054 0 0 0 0";
    let stats = parse_cpu_stats_from_line(line).unwrap();
    assert_eq!(stats.user, 74608);
    assert_eq!(stats.idle, u64::MAX);
}

#[test]
fn test_parse_cpu_stats_overflowing_value() {
    let line = "cpu  18446744073709551616 2520 24433 1117073 6176 4054 0 0 0 0";
    let result = parse_cpu_stats_from_line(line);
    assert!(matches!(result.unwrap_err(), PipaCollectorError::Parse(_)));
}

#[test]
fn test_parse_cpu_stats_bare_cpu_line() {
    // The prefix check needs the space after "cpu".
    let result = parse_cpu_stats_from_line("cpu");
    assert!(matches!(result.unwrap_err(), PipaCollectorError::InvalidFormat(_)));
}

#[test]
fn test_parse_memory_stats_empty_content() {
    let result = parse_memory_stats_from_content("");
    assert!(matches!(result.unwrap_err(), PipaCollectorError::MissingData(_)));
}

#[test]
fn test_parse_memory_stats_crlf_lines() {
    let content = "MemTotal:       65029028 kB\r\n\
                   MemFree:        26013012 kB\r\n\
                   MemAvailable:   50841208 kB\r\n\
                   Buffers:            4504 kB\r\n\
                   Cached:         25023892 kB\r\n";
    let stats = parse_memory_stats_from_content(content).unwrap();
    assert_eq!(stats.total, 65029028);
    assert_eq!(stats.cached, 25023892);
}

#[test]
fn test_parse_memory_stats_counts_each_find() {
    // Each recognized line counts as one find, so five MemTotal lines
    // satisfy the scan even though the other fields stay zero.
    let content = "MemTotal: 1 kB\n\
                   MemTotal: 2 kB\n\
                   MemTotal: 3 kB\n\
                   MemTotal: 4 kB\n\
                   MemTotal: 5 kB";
    let stats = parse_memory_stats_from_content(content).unwrap();
    assert_eq!(stats.total, 5);
    assert_eq!(stats.free, 0);
}

#[test]
fn test_cpu_usage_deltas_basic() {
    let prev = CpuStats {
        user: 100,
        nice: 10,
        system: 50,
        idle: 1000,
        iowait: 20,
        irq: 5,
        softirq: 5,
        steal: 0,
        guest: 0,
        guest_nice: 0,
    };
    let current = CpuStats {
        user: 200,
        nice: 10,
        system: 100,
        idle: 1100,
        iowait: 20,
        irq: 10,
        softirq: 5,
        steal: 0,
        guest: 0,
        guest_nice: 0,
    };
    // Idle delta = (1100 + 20) - (1000 + 20) = 100.
    // Busy delta = 100 + 50 + 5 = 155; total delta = 255.
    let (idle_delta, total_delta) = cpu_usage_deltas(&prev, &current);
    assert_eq!(idle_delta, 100);
    assert_eq!(total_delta, 255);
}

#[test]
fn test_cpu_usage_deltas_no_change() {
    let prev = CpuStats { idle: 100, ..Default::default() };
    let current = CpuStats { idle: 100, ..Default::default() };
    assert_eq!(cpu_usage_deltas(&prev, &current), (0, 0));
}

#[test]
fn test_memory_stats_default_is_zero() {
    let stats = MemoryStats::default();
    assert_eq!(stats.total, 0);
    assert_eq!(stats.available, 0);
}
