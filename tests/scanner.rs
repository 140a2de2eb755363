use arch_health::audit::{render_audit, AuditOutcome};
use arch_health::config::{resolve_settings, Checks, Config, Output};
use arch_health::elf::{collect_candidates, is_elf, scan_roots, DirEntryInfo};
use arch_health::probe::{classify_output, classify_probe, ProbeOutput, ProbeResult};
use arch_health::progress::{create_progress_bar, should_report_progress};
use arch_health::render::render_report;
use arch_health::report::{Failure, ScanReport};

fn entry(path: &str, is_file: bool, header: &[u8]) -> DirEntryInfo {
    DirEntryInfo { path: path.to_string(), is_file, header: header.to_vec() }
}

fn missing(lines: &[&str]) -> ProbeResult {
    ProbeResult::MissingDependencies(lines.iter().map(|l| l.to_string()).collect())
}

#[test]
fn non_elf_headers_are_rejected() {
    assert!(!is_elf(&[]));
    assert!(!is_elf(&[0x7f]));
    assert!(!is_elf(&[0x7f, b'E', b'L']));
    assert!(!is_elf(b"#!/bin/sh\n"));
    assert!(!is_elf(&[0x7f, b'E', b'L', b'f']));
    assert!(!is_elf(&[0x00, 0x7f, b'E', b'L', b'F']));
}

#[test]
fn elf_headers_are_accepted() {
    assert!(is_elf(&[0x7f, b'E', b'L', b'F']));
    assert!(is_elf(&[0x7f, b'E', b'L', b'F', 2, 1, 1, 0, 0xff]));
}

#[test]
fn walk_keeps_regular_elf_files_in_order() {
    let elf = [0x7f, b'E', b'L', b'F', 2];
    let listings = vec![
        Some(vec![
            entry("/usr/bin/a", true, &elf),
            entry("/usr/bin/script", true, b"#!/b"),
            entry("/usr/bin/dir", false, &elf),
            entry("/usr/bin/b", true, &elf),
        ]),
        None,
        Some(vec![entry("/usr/local/bin/c", true, &elf), entry("/usr/local/bin/empty", true, &[])]),
    ];
    let found = collect_candidates(&listings);
    assert_eq!(found, vec!["/usr/bin/a", "/usr/bin/b", "/usr/local/bin/c"]);
}

#[test]
fn absent_roots_yield_no_candidates() {
    let listings: Vec<Option<Vec<DirEntryInfo>>> = vec![None, None, None, None];
    assert!(collect_candidates(&listings).is_empty());
    let empty: Vec<Option<Vec<DirEntryInfo>>> = Vec::new();
    assert!(collect_candidates(&empty).is_empty());
}

#[test]
fn absent_roots_report_zero_files_satisfied() {
    let listings: Vec<Option<Vec<DirEntryInfo>>> = vec![None, None];
    let found = collect_candidates(&listings);
    let entries: Vec<(String, ProbeResult)> =
        found.into_iter().map(|p| (p, ProbeResult::Clean)).collect();
    let report = ScanReport::aggregate(entries);
    assert_eq!(report.scanned(), 0);
    assert_eq!(
        render_report(&report, "text"),
        vec![
            "✅ All 0 ELF files have satisfied dependencies!".to_string(),
            "🔗 No missing shared libraries detected".to_string(),
        ]
    );
}

#[test]
fn scan_roots_are_the_four_system_directories() {
    assert_eq!(scan_roots(), vec!["/usr/bin", "/usr/lib", "/usr/local/bin", "/usr/local/lib"]);
}

#[test]
fn missing_library_line_is_reported_trimmed() {
    let stdout = "\tlinux-vdso.so.1 (0x00007ffd)\n\tlibfoo.so.2 => not found\n\tlibc.so.6 => /usr/lib/libc.so.6 (0x7f)\n";
    let r = classify_output(stdout, "");
    assert_eq!(r, missing(&["libfoo.so.2 => not found"]));
}

#[test]
fn missing_dependency_scenario_is_rendered() {
    let r = classify_output("\tlibfoo.so.2 => not found\n", "");
    assert_eq!(r, missing(&["libfoo.so.2 => not found"]));
    let report = ScanReport::aggregate(vec![
        ("/usr/bin/sample".to_string(), r),
        ("/usr/bin/ok".to_string(), ProbeResult::Clean),
    ]);
    let out = render_report(&report, "text");
    assert_eq!(
        out,
        vec![
            "❌ Found 1 files with missing dependencies:\n".to_string(),
            "📄 /usr/bin/sample\n   ❌ Missing dependencies:\n      libfoo.so.2 => not found"
                .to_string(),
            "\n📊 Summary: 1/2 files have dependency issues".to_string(),
        ]
    );
}

#[test]
fn several_missing_lines_keep_their_order() {
    let stdout = "  libb.so => not found  \r\nlibok.so => /lib/libok.so\nliba.so => not found";
    assert_eq!(
        classify_output(stdout, ""),
        missing(&["libb.so => not found", "liba.so => not found"])
    );
}

#[test]
fn clean_output_is_clean() {
    let stdout = "\tlinux-vdso.so.1 (0x00007ffd)\n\tlibc.so.6 => /usr/lib/libc.so.6\n";
    assert_eq!(classify_output(stdout, ""), ProbeResult::Clean);
    assert_eq!(classify_output("", ""), ProbeResult::Clean);
}

#[test]
fn marker_is_case_sensitive() {
    assert_eq!(classify_output("libx.so => Not Found\n", "NOT FOUND"), ProbeResult::Clean);
}

#[test]
fn marker_only_on_stderr_gives_no_lines() {
    assert_eq!(classify_output("", "ldd: ./x: not found\n"), missing(&[]));
}

#[test]
fn launch_failure_keeps_its_reason() {
    let r = classify_probe(Err("No such file or directory (os error 2)".to_string()));
    assert_eq!(r, ProbeResult::ProbeFailed("No such file or directory (os error 2)".to_string()));
    let ok = classify_probe(Ok(ProbeOutput {
        stdout: "libq.so => not found\n".to_string(),
        stderr: String::new(),
    }));
    assert_eq!(ok, missing(&["libq.so => not found"]));
}

#[test]
fn every_candidate_is_clean_or_failed() {
    let entries = vec![
        ("/a".to_string(), ProbeResult::Clean),
        ("/b".to_string(), missing(&["x => not found"])),
        ("/c".to_string(), ProbeResult::ProbeFailed("gone".to_string())),
        ("/d".to_string(), ProbeResult::Clean),
        ("/e".to_string(), ProbeResult::Clean),
    ];
    let report = ScanReport::aggregate(entries);
    assert_eq!(report.scanned(), 5);
    assert_eq!(report.clean_count(), 3);
    assert_eq!(report.failure_count(), 2);
    assert_eq!(report.failures().len() + report.clean_count(), report.scanned());
    assert_eq!(report.failures()[0].path, "/b");
    assert_eq!(report.failures()[1].path, "/c");
}

#[test]
fn record_counts_one_result_at_a_time() {
    let mut report = ScanReport::new();
    assert_eq!(report.scanned(), 0);
    report.record("/x".to_string(), ProbeResult::Clean);
    report.record("/y".to_string(), ProbeResult::ProbeFailed("e".to_string()));
    assert_eq!(report.scanned(), 2);
    assert_eq!(report.clean_count(), 1);
    assert_eq!(
        report.failures().clone(),
        vec![Failure { path: "/y".to_string(), result: ProbeResult::ProbeFailed("e".to_string()) }]
    );
}

#[test]
fn report_does_not_depend_on_completion_order() {
    let a = vec![
        ("/1".to_string(), missing(&["l1 => not found"])),
        ("/2".to_string(), ProbeResult::Clean),
        ("/3".to_string(), ProbeResult::ProbeFailed("r".to_string())),
        ("/4".to_string(), missing(&["l4 => not found"])),
    ];
    let mut b = a.clone();
    b.reverse();
    b.swap(0, 2);
    let ra = ScanReport::aggregate(a);
    let rb = ScanReport::aggregate(b);
    assert_eq!(ra.scanned(), rb.scanned());
    assert_eq!(ra.clean_count(), rb.clean_count());
    assert_eq!(ra.failure_count(), rb.failure_count());
    for f in ra.failures() {
        let in_a = ra.failures().iter().filter(|g| *g == f).count();
        let in_b = rb.failures().iter().filter(|g| *g == f).count();
        assert_eq!(in_a, in_b);
    }
}

#[test]
fn ten_clean_files_render_success() {
    let entries: Vec<(String, ProbeResult)> = (0..10)
        .map(|i| (format!("/usr/bin/p{}", i), classify_output("\tlibc.so.6 => /usr/lib/libc.so.6\n", "")))
        .collect();
    let report = ScanReport::aggregate(entries);
    assert_eq!(report.failure_count(), 0);
    let out = render_report(&report, "text");
    assert_eq!(out.len(), 2);
    assert_eq!(out[0], "✅ All 10 ELF files have satisfied dependencies!");
}

#[test]
fn missing_probe_utility_renders_launch_failures() {
    let paths = ["/usr/bin/a", "/usr/bin/b", "/usr/lib/c.so"];
    let entries: Vec<(String, ProbeResult)> = paths
        .iter()
        .map(|p| (p.to_string(), classify_probe(Err("No such file or directory (os error 2)".to_string()))))
        .collect();
    let report = ScanReport::aggregate(entries);
    assert_eq!(report.failure_count(), 3);
    assert!(report.failures().iter().all(|f| matches!(f.result, ProbeResult::ProbeFailed(_))));
    let out = render_report(&report, "text");
    assert_eq!(out.len(), 5);
    assert_eq!(out[0], "❌ Found 3 files with missing dependencies:\n");
    assert_eq!(out[1], "⚠️  Failed to analyze: /usr/bin/a (No such file or directory (os error 2))");
    assert_eq!(out[2], "\n⚠️  Failed to analyze: /usr/bin/b (No such file or directory (os error 2))");
    for block in &out[1..4] {
        assert!(block.contains("Failed to analyze"));
        assert!(!block.contains("Missing dependencies"));
    }
    assert_eq!(out[4], "\n📊 Summary: 3/3 files have dependency issues");
}

#[test]
fn other_formats_render_nothing() {
    let report = ScanReport::aggregate(vec![("/a".to_string(), ProbeResult::ProbeFailed("x".to_string()))]);
    assert!(render_report(&report, "json").is_empty());
    assert!(render_report(&report, "").is_empty());
}

#[test]
fn several_missing_lines_are_indented_and_joined() {
    let report = ScanReport::aggregate(vec![(
        "/usr/lib/libz.so".to_string(),
        missing(&["a.so => not found", "b.so => not found"]),
    )]);
    let out = render_report(&report, "text");
    assert_eq!(
        out[1],
        "📄 /usr/lib/libz.so\n   ❌ Missing dependencies:\n      a.so => not found\n      b.so => not found"
    );
    assert_eq!(out[2], "\n📊 Summary: 1/1 files have dependency issues");
}

#[test]
fn progress_is_reported_every_25_and_at_the_end() {
    assert!(should_report_progress(25, 100));
    assert!(should_report_progress(50, 100));
    assert!(!should_report_progress(24, 100));
    assert!(!should_report_progress(26, 100));
    assert!(should_report_progress(7, 7));
    assert!(should_report_progress(100, 100));
}

#[test]
fn progress_bar_partial() {
    assert_eq!(create_progress_bar(1, 4, 4), "│█░░░ │  25% (   1/   4)");
    assert_eq!(create_progress_bar(1, 3, 35), format!("│{}{} │  33% (   1/   3)", "█".repeat(11), "░".repeat(24)));
}

#[test]
fn progress_bar_full_and_wide_counts() {
    assert_eq!(create_progress_bar(3, 3, 5), "│█████ │ 100% (   3/   3)");
    assert_eq!(create_progress_bar(0, 12345, 2), "│░░ │   0% (   0/12345)");
}

#[test]
fn settings_without_config_use_defaults() {
    let s = resolve_settings(None, "text".to_string());
    assert_eq!(s.format, "text");
    assert!(s.checks.library && s.checks.pacman && !s.checks.audit);
    assert_eq!(Checks::defaults(), Checks { library: true, pacman: true, audit: false });
}

#[test]
fn settings_from_config_override_command_line() {
    let c = Config {
        checks: Checks { library: false, pacman: true, audit: true },
        output: Output { format: "json".to_string() },
    };
    let s = resolve_settings(Some(c), "text".to_string());
    assert_eq!(s.format, "json");
    assert_eq!(s.checks, Checks { library: false, pacman: true, audit: true });
}

#[test]
fn audit_messages() {
    assert_eq!(
        render_audit(&AuditOutcome::NotInstalled, "text"),
        Some("⚠️  [audit] arch-audit not found in PATH".to_string())
    );
    assert_eq!(
        render_audit(&AuditOutcome::Completed(String::new()), "text"),
        Some("✅ [audit] No known vulnerabilities".to_string())
    );
    assert_eq!(
        render_audit(&AuditOutcome::Completed("pkg is affected\n".to_string()), "text"),
        Some("⚠️  [audit] Vulnerabilities found:\npkg is affected\n".to_string())
    );
    assert_eq!(
        render_audit(&AuditOutcome::LaunchFailed("denied".to_string()), "text"),
        Some("❌ [audit] Failed to run arch-audit: denied".to_string())
    );
    assert_eq!(render_audit(&AuditOutcome::NotInstalled, "json"), None);
}
