//! The system health monitor: reads one statistics snapshot and renders
//! memory usage, totals and a health rating onto the terminal.
//!
//! Percentages are carried as tenths of a percent, so every comparison
//! and every printed figure is exact integer arithmetic.

use vstd::prelude::*;
use vstd::string::StringExecFns;
use crate::allocator::MemoryStats;
use crate::terminal::Terminal;
use crate::text::spec_dec;
use crate::text::digit_char;
use crate::text::u64_to_string;
use crate::text::digit_str;

verus! {

/// The health rating of one statistics snapshot.
#[derive(Debug, Clone, Copy, PartialEq, Eq, Structural)]
pub enum MemoryHealthStatus {
    Healthy,
    Warning,
    Critical,
    Error,
}

/// The full health report: the rating, the three figures in tenths of a
/// percent, and the advice that goes with them.
pub struct MemoryHealth {
    pub status: MemoryHealthStatus,
    pub usage_tenths: u64,
    pub free_tenths: u64,
    pub fragmentation_tenths: u64,
    pub warnings: Vec<&'static str>,
    pub recommendations: Vec<&'static str>,
}

/// A snapshot the monitor can do arithmetic on: a real region, and
/// outstanding and free bytes that fit in it.
pub open spec fn stats_wf(s: MemoryStats) -> bool {
    &&& s.total_heap_size > 0
    &&& s.current_allocated <= s.total_heap_size
    &&& s.free_memory <= s.total_heap_size
}

/// Usage strictly above ninety percent.
pub open spec fn spec_usage_critical(s: MemoryStats) -> bool {
    s.current_allocated * 10 > s.total_heap_size * 9
}

/// Usage strictly above seventy-five percent.
pub open spec fn spec_usage_warning(s: MemoryStats) -> bool {
    s.current_allocated * 4 > s.total_heap_size * 3
}

/// Fragmentation strictly above eighty percent, counted only while
/// something is outstanding.
pub open spec fn spec_frag_high(s: MemoryStats) -> bool {
    s.current_allocated > 0 && (s.total_heap_size - s.free_memory) * 5 > s.total_heap_size * 4
}

/// Bytes were counted out without being handed out: the bookkeeping is
/// inconsistent.
pub open spec fn spec_alloc_anomaly(s: MemoryStats) -> bool {
    s.allocated == 0 && s.allocation_count > 0
}

/// The rating: an anomaly is an error; otherwise usage decides.
pub open spec fn spec_health_status(s: MemoryStats) -> MemoryHealthStatus {
    if spec_alloc_anomaly(s) {
        MemoryHealthStatus::Error
    } else if spec_usage_critical(s) {
        MemoryHealthStatus::Critical
    } else if spec_usage_warning(s) {
        MemoryHealthStatus::Warning
    } else {
        MemoryHealthStatus::Healthy
    }
}

/// `part` of `whole`, in tenths of a percent, rounded down.
pub open spec fn spec_tenths(part: u64, whole: u64) -> int
    recommends
        whole > 0,
{
    part * 1000 / whole as int
}

/// The fragmentation figure: zero while nothing is outstanding.
pub open spec fn spec_frag_tenths(s: MemoryStats) -> int {
    if s.current_allocated > 0 {
        spec_tenths((s.total_heap_size - s.free_memory) as u64, s.total_heap_size)
    } else {
        0
    }
}

/// Computes `part * 1000 / whole` exactly.
fn tenths_of(part: u64, whole: u64) -> (r: u64)
    requires
        whole > 0,
        part <= whole,
    ensures
        r == spec_tenths(part, whole),
        r <= 1000,
{
    let wide: u128 = (part as u128) * 1000 / (whole as u128);
    proof {
        let p = part as int;
        let w = whole as int;
        vstd::arithmetic::div_mod::lemma_div_is_ordered(p * 1000, w * 1000, w);
        vstd::arithmetic::div_mod::lemma_div_by_multiple(1000, w);
        assert(p * 1000 <= w * 1000) by (nonlinear_arith)
            requires
                p <= w,
        ;
        assert(w * 1000 == 1000 * w);
    }
    wide as u64
}

/// Renders one byte count as text.
fn bytes_string(bytes: u64) -> (r: String)
    ensures
        r@ == spec_format_bytes(bytes),
{
    if bytes < 1024 {
        let mut s = u64_to_string(bytes);
        s.append(" B");
        proof {
            reveal_strlit(" B");
            assert(s@ =~= spec_format_bytes(bytes));
        }
        s
    } else if bytes < 1048576 {
        let mut s = u64_to_string(bytes / 1024);
        s.append(".");
        s.append(digit_str((bytes % 1024) * 10 / 1024));
        s.append(" KB");
        proof {
            reveal_strlit(".");
            reveal_strlit(" KB");
            assert(s@ =~= spec_format_bytes(bytes));
        }
        s
    } else {
        let mut s = u64_to_string(bytes / 1048576);
        s.append(".");
        s.append(digit_str((bytes % 1048576) * 10 / 1048576));
        s.append(" MB");
        proof {
            reveal_strlit(".");
            reveal_strlit(" MB");
            assert(s@ =~= spec_format_bytes(bytes));
        }
        s
    }
}

/// Renders tenths of a percent as text.
fn percentage_string(tenths: u64) -> (r: String)
    ensures
        r@ == spec_format_percentage(tenths),
{
    let mut s = u64_to_string(tenths / 10);
    s.append(".");
    s.append(digit_str(tenths % 10));
    s.append("%");
    proof {
        reveal_strlit(".");
        reveal_strlit("%");
        assert(s@ =~= spec_format_percentage(tenths));
    }
    s
}

/// The system monitor over one statistics snapshot.
pub struct SystemMonitor {
    stats: MemoryStats,
}

impl SystemMonitor {
    /// The snapshot the monitor reads.
    pub closed spec fn snapshot(&self) -> MemoryStats {
        self.stats
    }

    /// A monitor over the given snapshot.
    pub fn new(stats: MemoryStats) -> (r: Self)
        ensures
            r.snapshot() == stats,
    {
        SystemMonitor { stats }
    }

    /// The snapshot the monitor was built over.
    pub fn get_memory_stats(&self) -> (r: MemoryStats)
        ensures
            r == self.snapshot(),
    {
        self.stats
    }

    /// Renders one byte count: plain bytes below a kibibyte, otherwise
    /// the unit and one decimal place, rounded down.
    pub fn format_bytes(&self, bytes: u64, terminal: &mut Terminal)
        requires
            old(terminal).wf(),
        ensures
            terminal_wrote(old(terminal), final(terminal), spec_format_bytes(bytes)),
    {
        let s = bytes_string(bytes);
        terminal.write_str(s.as_str());
    }

    /// Renders tenths of a percent as a figure with one decimal place.
    pub fn format_percentage(&self, tenths: u64, terminal: &mut Terminal)
        requires
            old(terminal).wf(),
        ensures
            terminal_wrote(old(terminal), final(terminal), spec_format_percentage(tenths)),
    {
        let s = percentage_string(tenths);
        terminal.write_str(s.as_str());
    }

    /// Renders a plain number.
    pub fn format_number(&self, number: u64, terminal: &mut Terminal)
        requires
            old(terminal).wf(),
        ensures
            terminal_wrote(old(terminal), final(terminal), spec_dec(number as nat)),
    {
        let s = u64_to_string(number);
        terminal.write_str(s.as_str());
    }

    /// Writes the full memory report: sizes, usage and free percentages,
    /// the high-water mark, the call counters, the running totals, and
    /// the derived averages and rates — exactly the text
    /// `spec_memory_report` gives for the snapshot.
    #[verifier::rlimit(80)]
    pub fn display_memory_info(&self, terminal: &mut Terminal)
        requires
            old(terminal).wf(),
            stats_wf(self.snapshot()),
        ensures
            terminal_wrote(old(terminal), final(terminal), spec_memory_report(self.snapshot())),
    {
        let stats = self.stats;
        let mut report = String::new();
        report.append("=== Memory Monitor ===\n");
        report.append("Total heap size:   ");
        let piece = bytes_string(stats.total_heap_size);
        report.append(piece.as_str());
        report.append("\n");

        report.append("Currently used:    ");
        let piece = bytes_string(stats.current_allocated);
        report.append(piece.as_str());
        report.append(" (");
        let piece = percentage_string(tenths_of(stats.current_allocated, stats.total_heap_size));
        report.append(piece.as_str());
        report.append(")\n");

        report.append("Currently free:    ");
        let piece = bytes_string(stats.free_memory);
        report.append(piece.as_str());
        report.append(" (");
        let piece = percentage_string(tenths_of(stats.free_memory, stats.total_heap_size));
        report.append(piece.as_str());
        report.append(")\n");

        report.append("Peak usage:        ");
        let piece = bytes_string(stats.max_allocated);
        report.append(piece.as_str());
        if stats.max_allocated <= stats.total_heap_size {
            report.append(" (");
            let piece = percentage_string(tenths_of(stats.max_allocated, stats.total_heap_size));
            report.append(piece.as_str());
            report.append(")");
        }
        report.append("\n");
        proof {
            assert(report@ =~= spec_report_head(stats));
        }

        report.append("\n=== Allocation Counters ===\n");
        report.append("Allocations:       ");
        let piece = u64_to_string(stats.allocation_count);
        report.append(piece.as_str());
        report.append("\n");
        report.append("Deallocations:     ");
        let piece = u64_to_string(stats.deallocation_count);
        report.append(piece.as_str());
        report.append("\n");
        report.append("Bytes handed out:  ");
        let piece = bytes_string(stats.allocated);
        report.append(piece.as_str());
        report.append("\n");
        report.append("Bytes taken back:  ");
        let piece = bytes_string(stats.freed);
        report.append(piece.as_str());
        report.append("\n");

        report.append("\n=== Derived Figures ===\n");
        if stats.allocation_count > 0 {
            let avg = stats.allocated / stats.allocation_count;
            report.append("Average handed out: ");
            let piece = bytes_string(avg);
            report.append(piece.as_str());
            report.append("\n");
        }
        if stats.deallocation_count > 0 {
            let avg = stats.freed / stats.deallocation_count;
            report.append("Average taken back: ");
            let piece = bytes_string(avg);
            report.append(piece.as_str());
            report.append("\n");
        }

        report.append("Memory utilization: ");
        let piece = percentage_string(tenths_of(stats.current_allocated, stats.total_heap_size));
        report.append(piece.as_str());
        report.append("\n");

        report.append("Fragmentation:      ");
        let frag = if stats.current_allocated > 0 {
            tenths_of(stats.total_heap_size - stats.free_memory, stats.total_heap_size)
        } else {
            0
        };
        let piece = percentage_string(frag);
        report.append(piece.as_str());
        report.append("\n");
        proof {
            assert(report@ =~= spec_memory_report(stats));
        }

        terminal.write_str(report.as_str());
    }

    /// Writes the static system description, exactly the text
    /// `spec_system_report` gives.
    pub fn display_system_info(&self, terminal: &mut Terminal)
        requires
            old(terminal).wf(),
        ensures
            terminal_wrote(old(terminal), final(terminal), spec_system_report()),
    {
        let mut report = String::new();
        report.append("=== System Information ===\n");
        report.append("Operating system:  TerraOS (Rust kernel)\n");
        report.append("Kernel version:    0.1.0\n");
        report.append("Build:             runtime statistics\n");
        report.append("Architecture:      x86-64\n");
        report.append("\n=== System State ===\n");
        report.append("System state:      running\n");
        report.append("Terminal:          initialized\n");
        report.append("Memory management: enabled\n");
        report.append("Display buffer:    double-buffered\n");
        proof {
            assert(report@ =~= spec_system_report());
        }
        terminal.write_str(report.as_str());
    }

    /// Judges the snapshot: the rating, the three figures in tenths of
    /// a percent, and the warnings and recommendations each condition
    /// contributes.
    pub fn check_memory_health(&self) -> (r: MemoryHealth)
        requires
            stats_wf(self.snapshot()),
        ensures
            r.status == spec_health_status(self.snapshot()),
            r.usage_tenths == spec_tenths(
                self.snapshot().current_allocated,
                self.snapshot().total_heap_size,
            ),
            r.free_tenths == spec_tenths(
                self.snapshot().free_memory,
                self.snapshot().total_heap_size,
            ),
            r.fragmentation_tenths == spec_frag_tenths(self.snapshot()),
            r.warnings.deep_view() =~= spec_health_warnings(self.snapshot()),
            r.recommendations.deep_view() =~= spec_health_recs(self.snapshot()),
    {
        let stats = self.stats;
        let usage_tenths = tenths_of(stats.current_allocated, stats.total_heap_size);
        let free_tenths = tenths_of(stats.free_memory, stats.total_heap_size);

        let mut status = MemoryHealthStatus::Healthy;
        let mut warnings: Vec<&'static str> = Vec::new();
        let mut recommendations: Vec<&'static str> = Vec::new();

        let critical = (stats.current_allocated as u128) * 10 > (stats.total_heap_size as u128) * 9;
        let warning = (stats.current_allocated as u128) * 4 > (stats.total_heap_size as u128) * 3;
        if critical {
            status = MemoryHealthStatus::Critical;
            warnings.push("memory usage above ninety percent");
            recommendations.push("release allocations that are no longer needed");
        } else if warning {
            status = MemoryHealthStatus::Warning;
            warnings.push("memory usage above seventy-five percent");
            recommendations.push("watch memory usage");
        }

        let fragmentation_tenths = if stats.current_allocated > 0 {
            tenths_of(stats.total_heap_size - stats.free_memory, stats.total_heap_size)
        } else {
            0
        };
        let frag_high = stats.current_allocated > 0 && ((stats.total_heap_size
            - stats.free_memory) as u128) * 5 > (stats.total_heap_size as u128) * 4;
        if frag_high {
            warnings.push("memory heavily fragmented");
            recommendations.push("reconsider the allocation pattern");
        }

        if stats.allocated == 0 && stats.allocation_count > 0 {
            status = MemoryHealthStatus::Error;
            warnings.push("allocation bookkeeping is inconsistent");
        }
        proof {
            assert(warnings.deep_view() =~= spec_health_warnings(stats));
            assert(recommendations.deep_view() =~= spec_health_recs(stats));
        }

        MemoryHealth {
            status,
            usage_tenths,
            free_tenths,
            fragmentation_tenths,
            warnings,
            recommendations,
        }
    }

    /// Writes the health report: the rating, the collected warnings and
    /// recommendations, and the three figures — exactly the text
    /// `spec_health_report` gives for the snapshot.
    #[verifier::rlimit(80)]
    #[verifier::loop_isolation(false)]
    pub fn display_health_check(&self, terminal: &mut Terminal)
        requires
            old(terminal).wf(),
            stats_wf(self.snapshot()),
        ensures
            terminal_wrote(old(terminal), final(terminal), spec_health_report(self.snapshot())),
    {
        let ghost s = self.snapshot();
        let health = self.check_memory_health();
        let mut report = String::new();
        report.append("=== Memory Health Check ===\n");
        report.append("Health state:      ");
        match health.status {
            MemoryHealthStatus::Healthy => {
                report.append("healthy\n");
                report.append("Memory state is good\n");
            },
            MemoryHealthStatus::Warning => {
                report.append("warning\n");
                report.append("Memory usage is high; keep an eye on it\n");
            },
            MemoryHealthStatus::Critical => {
                report.append("critical\n");
                report.append("Memory usage is too high\n");
            },
            MemoryHealthStatus::Error => {
                report.append("error\n");
                report.append("Allocation bookkeeping looks inconsistent\n");
            },
        }

        if health.warnings.len() > 0 {
            report.append("\nWarnings:\n");
            let ghost base = report@;
            let ghost wdv = health.warnings.deep_view();
            let mut i: usize = 0;
            while i < health.warnings.len()
                invariant
                    0 <= i <= wdv.len(),
                    wdv.len() == health.warnings@.len(),
                    report@ + spec_bullets(wdv, i as int) =~= base + spec_bullets(wdv, 0),
                decreases health.warnings@.len() - i,
            {
                let ghost before = report@;
                report.append("- ");
                report.append(health.warnings[i]);
                report.append("\n");
                proof {
                    assert(health.warnings@[i as int]@ == wdv[i as int]);
                    assert(report@ =~= before + ("- "@ + wdv[i as int] + "\n"@));
                    assert(spec_bullets(wdv, i as int) == "- "@ + wdv[i as int] + "\n"@
                        + spec_bullets(wdv, i as int + 1));
                    assert(report@ + spec_bullets(wdv, i as int + 1) =~= before + spec_bullets(
                        wdv,
                        i as int,
                    ));
                }
                i = i + 1;
            }
            proof {
                assert(spec_bullets(wdv, wdv.len() as int) =~= Seq::<char>::empty());
                assert(report@ =~= base + spec_bullets(wdv, 0));
            }
        }
        if health.recommendations.len() > 0 {
            report.append("\nRecommendations:\n");
            let ghost base = report@;
            let ghost rdv = health.recommendations.deep_view();
            let mut i: usize = 0;
            while i < health.recommendations.len()
                invariant
                    0 <= i <= rdv.len(),
                    rdv.len() == health.recommendations@.len(),
                    report@ + spec_bullets(rdv, i as int) =~= base + spec_bullets(rdv, 0),
                decreases health.recommendations@.len() - i,
            {
                let ghost before = report@;
                report.append("- ");
                report.append(health.recommendations[i]);
                report.append("\n");
                proof {
                    assert(health.recommendations@[i as int]@ == rdv[i as int]);
                    assert(report@ =~= before + ("- "@ + rdv[i as int] + "\n"@));
                    assert(spec_bullets(rdv, i as int) == "- "@ + rdv[i as int] + "\n"@
                        + spec_bullets(rdv, i as int + 1));
                    assert(report@ + spec_bullets(rdv, i as int + 1) =~= before + spec_bullets(
                        rdv,
                        i as int,
                    ));
                }
                i = i + 1;
            }
            proof {
                assert(spec_bullets(rdv, rdv.len() as int) =~= Seq::<char>::empty());
                assert(report@ =~= base + spec_bullets(rdv, 0));
            }
        }

        report.append("\nMemory utilization: ");
        let piece = percentage_string(health.usage_tenths);
        report.append(piece.as_str());
        report.append("\n");
        report.append("Free memory share:  ");
        let piece = percentage_string(health.free_tenths);
        report.append(piece.as_str());
        report.append("\n");
        report.append("Fragmentation:      ");
        let piece = percentage_string(health.fragmentation_tenths);
        report.append(piece.as_str());
        report.append("\n");
        proof {
            assert(report@ =~= spec_health_report(s));
        }
        terminal.write_str(report.as_str());
    }
}

/// The text one byte count is rendered as.
pub open spec fn spec_format_bytes(bytes: u64) -> Seq<char> {
    if bytes < 1024 {
        spec_dec(bytes as nat) + seq![' ', 'B']
    } else if bytes < 1048576 {
        spec_dec((bytes / 1024) as nat) + seq!['.'] + seq![
            digit_char(((bytes % 1024) * 10 / 1024) as nat),
        ] + seq![' ', 'K', 'B']
    } else {
        spec_dec((bytes / 1048576) as nat) + seq!['.'] + seq![
            digit_char(((bytes % 1048576) * 10 / 1048576) as nat),
        ] + seq![' ', 'M', 'B']
    }
}

/// The text tenths of a percent are rendered as.
pub open spec fn spec_format_percentage(tenths: u64) -> Seq<char> {
    spec_dec((tenths / 10) as nat) + seq!['.'] + seq![digit_char((tenths % 10) as nat)] + seq!['%']
}

/// The sizes-and-percentages half of the memory report.
pub open spec fn spec_report_head(s: MemoryStats) -> Seq<char> {
    "=== Memory Monitor ===\n"@ + "Total heap size:   "@ + spec_format_bytes(s.total_heap_size)
        + "\n"@ + "Currently used:    "@ + spec_format_bytes(s.current_allocated) + " ("@
        + spec_format_percentage(spec_tenths(s.current_allocated, s.total_heap_size) as u64)
        + ")\n"@ + "Currently free:    "@ + spec_format_bytes(s.free_memory) + " ("@
        + spec_format_percentage(spec_tenths(s.free_memory, s.total_heap_size) as u64) + ")\n"@
        + "Peak usage:        "@ + spec_format_bytes(s.max_allocated) + (if s.max_allocated
        <= s.total_heap_size {
        " ("@ + spec_format_percentage(spec_tenths(s.max_allocated, s.total_heap_size) as u64)
            + ")"@
    } else {
        Seq::<char>::empty()
    }) + "\n"@
}

/// The whole memory report: sizes and percentages, the call counters,
/// the running totals, and the derived averages, with each average
/// present only when its counter is nonzero.
pub open spec fn spec_memory_report(s: MemoryStats) -> Seq<char> {
    spec_report_head(s) + "\n=== Allocation Counters ===\n"@ + "Allocations:       "@ + spec_dec(
        s.allocation_count as nat,
    ) + "\n"@ + "Deallocations:     "@ + spec_dec(s.deallocation_count as nat) + "\n"@
        + "Bytes handed out:  "@ + spec_format_bytes(s.allocated) + "\n"@
        + "Bytes taken back:  "@ + spec_format_bytes(s.freed) + "\n"@
        + "\n=== Derived Figures ===\n"@ + (if s.allocation_count > 0 {
        "Average handed out: "@ + spec_format_bytes(
            (s.allocated as int / s.allocation_count as int) as u64,
        ) + "\n"@
    } else {
        Seq::<char>::empty()
    }) + (if s.deallocation_count > 0 {
        "Average taken back: "@ + spec_format_bytes(
            (s.freed as int / s.deallocation_count as int) as u64,
        ) + "\n"@
    } else {
        Seq::<char>::empty()
    }) + "Memory utilization: "@ + spec_format_percentage(
        spec_tenths(s.current_allocated, s.total_heap_size) as u64,
    ) + "\n"@ + "Fragmentation:      "@ + spec_format_percentage(spec_frag_tenths(s) as u64)
        + "\n"@
}

/// The static system description.
pub open spec fn spec_system_report() -> Seq<char> {
    "=== System Information ===\n"@ + "Operating system:  TerraOS (Rust kernel)\n"@
        + "Kernel version:    0.1.0\n"@ + "Build:             runtime statistics\n"@
        + "Architecture:      x86-64\n"@ + "\n=== System State ===\n"@
        + "System state:      running\n"@ + "Terminal:          initialized\n"@
        + "Memory management: enabled\n"@ + "Display buffer:    double-buffered\n"@
}

/// The warnings the health check collects, in the order it collects
/// them.
pub open spec fn spec_health_warnings(s: MemoryStats) -> Seq<Seq<char>> {
    (if spec_usage_critical(s) {
        seq!["memory usage above ninety percent"@]
    } else if spec_usage_warning(s) {
        seq!["memory usage above seventy-five percent"@]
    } else {
        Seq::<Seq<char>>::empty()
    }) + (if spec_frag_high(s) {
        seq!["memory heavily fragmented"@]
    } else {
        Seq::<Seq<char>>::empty()
    }) + (if spec_alloc_anomaly(s) {
        seq!["allocation bookkeeping is inconsistent"@]
    } else {
        Seq::<Seq<char>>::empty()
    })
}

/// The recommendations the health check collects, in order.
pub open spec fn spec_health_recs(s: MemoryStats) -> Seq<Seq<char>> {
    (if spec_usage_critical(s) {
        seq!["release allocations that are no longer needed"@]
    } else if spec_usage_warning(s) {
        seq!["watch memory usage"@]
    } else {
        Seq::<Seq<char>>::empty()
    }) + (if spec_frag_high(s) {
        seq!["reconsider the allocation pattern"@]
    } else {
        Seq::<Seq<char>>::empty()
    })
}

/// One bullet line per entry, from position `i` on.
pub open spec fn spec_bullets(lines: Seq<Seq<char>>, i: int) -> Seq<char>
    decreases lines.len() - i,
{
    if i < 0 || i >= lines.len() {
        Seq::<char>::empty()
    } else {
        "- "@ + lines[i] + "\n"@ + spec_bullets(lines, i + 1)
    }
}

/// The whole health report: the rating line and its explanation, the
/// bulleted warnings and recommendations when there are any, and the
/// three figures.
pub open spec fn spec_health_report(s: MemoryStats) -> Seq<char> {
    "=== Memory Health Check ===\n"@ + "Health state:      "@ + (match spec_health_status(s) {
        MemoryHealthStatus::Healthy => "healthy\n"@ + "Memory state is good\n"@,
        MemoryHealthStatus::Warning => "warning\n"@ + "Memory usage is high; keep an eye on it\n"@,
        MemoryHealthStatus::Critical => "critical\n"@ + "Memory usage is too high\n"@,
        MemoryHealthStatus::Error => "error\n"@ + "Allocation bookkeeping looks inconsistent\n"@,
    }) + (if spec_health_warnings(s).len() > 0 {
        "\nWarnings:\n"@ + spec_bullets(spec_health_warnings(s), 0)
    } else {
        Seq::<char>::empty()
    }) + (if spec_health_recs(s).len() > 0 {
        "\nRecommendations:\n"@ + spec_bullets(spec_health_recs(s), 0)
    } else {
        Seq::<char>::empty()
    }) + "\nMemory utilization: "@ + spec_format_percentage(
        spec_tenths(s.current_allocated, s.total_heap_size) as u64,
    ) + "\n"@ + "Free memory share:  "@ + spec_format_percentage(
        spec_tenths(s.free_memory, s.total_heap_size) as u64,
    ) + "\n"@ + "Fragmentation:      "@ + spec_format_percentage(spec_frag_tenths(s) as u64)
        + "\n"@
}

/// The terminal advanced exactly by drawing `text`.
pub open spec fn terminal_wrote(t0: &Terminal, t1: &Terminal, text: Seq<char>) -> bool {
    &&& t1.wf()
    &&& (t1.grid(), t1.col()) == crate::terminal::spec_write_bytes(
        t0.grid(),
        t0.col(),
        t0.color(),
        crate::terminal::str_bytes(text),
    )
    &&& t1.color() == t0.color()
}

} // verus!
