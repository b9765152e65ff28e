use proc_status::{MemUsage, ProcEntries, ProcEntry, ProcRef, ProcStatus, ProcStatusError};

const SAMPLE: &str = "Name:\tcargo\nUmask:\t0022\nState:\tR (running)\nTgid:\t4242\nPid:\t4242\nVmPeak:\t  141428 kB\nVmSize:\t  141428 kB\nVmHWM:\t    8812 kB\nVmRSS:\t    8812 kB\nThreads:\t1\n";

const SCENARIO: &str = "Name:\tbash\nVmRSS:\t  1234 kB\nVmPeak:\t  5678 kB\n\n";

fn snapshot(text: &str) -> ProcStatus {
    ProcStatus::from_content(text.to_string())
}

fn collect(mut entries: ProcEntries<'_>) -> Vec<Result<(String, String), ProcStatusError>> {
    let mut out = Vec::new();
    while let Some(item) = entries.next() {
        out.push(item.map(|e| (e.key.to_string(), e.value.to_string())));
    }
    out
}

#[test]
fn test_read() {
    let ps = snapshot(SAMPLE);
    let name = ps.value("Name").unwrap();
    println!("name: {:?}", name);
    println!("VM peak: {:?}", ps.value("VmPeak").unwrap());
    println!("VM peak KiB: {:?}", ps.entry("VmPeak").unwrap().in_KiB().unwrap());
    ps.mem_usage().unwrap();
    assert_eq!(name, "cargo");
    assert_eq!(ps.value("VmPeak").unwrap(), "141428 kB");
    assert_eq!(ps.entry("VmPeak").unwrap().in_KiB().unwrap(), 141428);
}

#[test]
fn scenario_entry_name() {
    let ps = snapshot(SCENARIO);
    let e = ps.entry("Name").unwrap();
    assert_eq!(e.key, "Name");
    assert_eq!(e.value, "bash");
}

#[test]
fn scenario_value_kib() {
    let ps = snapshot(SCENARIO);
    assert_eq!(ps.value_KiB("VmRSS").unwrap(), 1234);
    assert_eq!(ps.value_KiB("VmPeak").unwrap(), 5678);
}

#[test]
fn scenario_mem_usage() {
    let ps = snapshot(SCENARIO);
    let m: MemUsage = ps.mem_usage().unwrap();
    assert_eq!(m.current, 1263616);
    assert_eq!(m.peak, 5814272);
    assert_eq!(m.current, 1234 * 1024);
    assert_eq!(m.peak, 5678 * 1024);
}

#[test]
fn scenario_line_without_colon() {
    let ps = snapshot("Bad line without colon\n");
    let mut entries = ps.entries();
    match entries.next() {
        Some(Err(ProcStatusError::NoColon(line))) => assert_eq!(line, "Bad line without colon"),
        other => panic!("unexpected {:?}", other),
    }
    assert!(entries.next().is_none());
}

#[test]
fn entries_are_the_nonblank_lines_in_order() {
    let ps = snapshot("A: 1\n\nB:2\n\n\nC :  x y  \n");
    let got = collect(ps.entries());
    assert_eq!(got.len(), 3);
    assert_eq!(got[0].as_ref().unwrap(), &("A".to_string(), "1".to_string()));
    assert_eq!(got[1].as_ref().unwrap(), &("B".to_string(), "2".to_string()));
    assert_eq!(got[2].as_ref().unwrap(), &("C ".to_string(), "x y".to_string()));
}

#[test]
fn entries_split_at_the_first_colon() {
    let ps = snapshot("Cpus_allowed_list:\t0-3:7\nlast:");
    let got = collect(ps.entries());
    assert_eq!(got.len(), 2);
    assert_eq!(got[0].as_ref().unwrap(), &("Cpus_allowed_list".to_string(), "0-3:7".to_string()));
    assert_eq!(got[1].as_ref().unwrap(), &("last".to_string(), "".to_string()));
}

#[test]
fn entries_of_empty_text() {
    let ps = snapshot("");
    assert!(ps.entries().next().is_none());
    let ps = snapshot("\n\n");
    assert!(ps.entries().next().is_none());
}

#[test]
fn entries_can_be_walked_again() {
    let ps = snapshot(SCENARIO);
    assert_eq!(collect(ps.entries()).len(), 3);
    assert_eq!(collect(ps.entries()).len(), 3);
}

#[test]
fn value_is_trimmed_of_unicode_white_space() {
    let e = ProcEntry::new("Key:\u{a0} \tv a l\u{3000}\r\n").unwrap();
    assert_eq!(e.key, "Key");
    assert_eq!(e.value, "v a l");
}

#[test]
fn key_is_not_trimmed() {
    let e = ProcEntry::new(" Key\t: v").unwrap();
    assert_eq!(e.key, " Key\t");
    assert_eq!(e.value, "v");
}

#[test]
fn direct_parse_without_colon_fails() {
    match ProcEntry::new("broken") {
        Err(ProcStatusError::NoColon(line)) => assert_eq!(line, "broken"),
        other => panic!("unexpected {:?}", other),
    }
}

#[test]
fn lookup_is_case_sensitive() {
    let ps = snapshot("name: foo\n");
    match ps.entry("Name") {
        Err(ProcStatusError::EntryNotFound(key)) => assert_eq!(key, "Name"),
        other => panic!("unexpected {:?}", other),
    }
    assert_eq!(ps.value("name").unwrap(), "foo");
}

#[test]
fn malformed_line_stops_lookup() {
    let ps = snapshot("Name: a\nbroken line\nVmRSS: 1 kB\n");
    match ps.value("VmRSS") {
        Err(ProcStatusError::NoColon(line)) => assert_eq!(line, "broken line"),
        other => panic!("unexpected {:?}", other),
    }
    assert_eq!(ps.value("Name").unwrap(), "a");
}

#[test]
fn absent_key_is_not_found() {
    let ps = snapshot(SCENARIO);
    match ps.value("VmSwap") {
        Err(ProcStatusError::EntryNotFound(key)) => assert_eq!(key, "VmSwap"),
        other => panic!("unexpected {:?}", other),
    }
}

#[test]
fn size_round_trip() {
    let e = ProcEntry::new("VmRSS: 1234 kB").unwrap();
    assert_eq!(e.in_KiB().unwrap(), 1234);
    let e = ProcEntry::new("VmRSS: 0 kB").unwrap();
    assert_eq!(e.in_KiB().unwrap(), 0);
    let e = ProcEntry::new("VmRSS: +7 kB").unwrap();
    assert_eq!(e.in_KiB().unwrap(), 7);
    let max = format!("VmRSS: {} kB", usize::MAX);
    let e = ProcEntry::new(&max).unwrap();
    assert_eq!(e.in_KiB().unwrap(), usize::MAX);
}

#[test]
fn value_without_suffix_is_no_size() {
    for line in ["a: 1234 KB", "a: 1234kB", "a: 1234", "a: kB", "a: 12 mB", "a: bash"] {
        let e = ProcEntry::new(line).unwrap();
        assert!(matches!(e.in_KiB(), Err(ProcStatusError::NotInKib)), "{}", line);
    }
}

#[test]
fn bad_number_is_a_parse_error() {
    let too_big = format!("a: {}0 kB", usize::MAX);
    for line in ["a: 12a kB", "a: -1 kB", "a: 0x1 kB", "a: 1 2 kB", "a: + kB", too_big.as_str()] {
        let e = ProcEntry::new(line).unwrap();
        assert!(matches!(e.in_KiB(), Err(ProcStatusError::ParseInt(_))), "{}", line);
    }
}

#[test]
fn value_kib_of_a_non_size() {
    let ps = snapshot(SCENARIO);
    assert!(matches!(ps.value_KiB("Name"), Err(ProcStatusError::NotInKib)));
}

#[test]
fn mem_usage_reports_rss_error_first() {
    let ps = snapshot("Name: x\n");
    match ps.mem_usage() {
        Err(ProcStatusError::EntryNotFound(key)) => assert_eq!(key, "VmRSS"),
        other => panic!("unexpected {:?}", other),
    }
    let ps = snapshot("VmRSS: 3 kB\nVmPeak: lots\n");
    assert!(matches!(ps.mem_usage(), Err(ProcStatusError::NotInKib)));
}

#[test]
fn mem_usage_overflow_is_an_error() {
    let text = format!("VmRSS: {} kB\nVmPeak: 2 kB\n", usize::MAX / 1024 + 1);
    match snapshot(&text).mem_usage() {
        Err(ProcStatusError::SizeOverflow(key)) => assert_eq!(key, "VmRSS"),
        other => panic!("unexpected {:?}", other),
    }
    let text = format!("VmRSS: 2 kB\nVmPeak: {} kB\n", usize::MAX / 1024 + 1);
    match snapshot(&text).mem_usage() {
        Err(ProcStatusError::SizeOverflow(key)) => assert_eq!(key, "VmPeak"),
        other => panic!("unexpected {:?}", other),
    }
    let text = format!("VmRSS: {} kB\nVmPeak: {} kB\n", usize::MAX, usize::MAX);
    match snapshot(&text).mem_usage() {
        Err(ProcStatusError::SizeOverflow(key)) => assert_eq!(key, "VmRSS"),
        other => panic!("unexpected {:?}", other),
    }
}

#[test]
fn mem_usage_lookup_errors_come_before_overflow() {
    let text = format!("VmRSS: {} kB\n", usize::MAX);
    match snapshot(&text).mem_usage() {
        Err(ProcStatusError::EntryNotFound(key)) => assert_eq!(key, "VmPeak"),
        other => panic!("unexpected {:?}", other),
    }
    let text = format!("VmRSS: {} kB\nVmPeak: lots\n", usize::MAX);
    assert!(matches!(snapshot(&text).mem_usage(), Err(ProcStatusError::NotInKib)));
}

#[test]
fn mem_usage_at_the_largest_size() {
    let text = format!("VmRSS: {} kB\nVmPeak: 2 kB\n", usize::MAX / 1024);
    let m = snapshot(&text).mem_usage().unwrap();
    assert_eq!(m.current, (usize::MAX / 1024) * 1024);
    assert_eq!(m.peak, 2048);
}

#[test]
fn errors_convert_from_std() {
    let io = std::io::Error::new(std::io::ErrorKind::NotFound, "gone");
    assert!(matches!(ProcStatusError::from(io), ProcStatusError::Io(_)));
    let bad = "x".parse::<usize>().unwrap_err();
    assert!(matches!(ProcStatusError::from(bad), ProcStatusError::ParseInt(_)));
}

#[test]
fn status_paths() {
    assert_eq!(ProcRef::ProcSelf.status_path(), "/proc/self/status");
    assert_eq!(ProcRef::ProcId(4242).status_path(), "/proc/4242/status");
    assert_eq!(ProcRef::ProcId(0).status_path(), "/proc/0/status");
}
