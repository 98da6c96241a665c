//! The layout of the report of a run.

use crate::decimal::{decimal, push_decimal};
use vstd::prelude::*;

verus! {

/// One line of the report: a label, a value, and what ends the line.
pub open spec fn line(label: Seq<char>, value: Seq<char>, end: Seq<char>) -> Seq<char> {
    label + value + end
}

/// The text of the report. It names the average, the median, the longest
/// and the shortest duration, each as the given text in milliseconds, then
/// the number of requests, then the chart of the percentile points and the
/// chart of the histogram, each under its heading and after an empty line.
pub open spec fn report_text(
    average_ms: Seq<char>,
    median_ms: Seq<char>,
    longest_ms: Seq<char>,
    shortest_ms: Seq<char>,
    count: nat,
    percentile_chart: Seq<char>,
    histogram_chart: Seq<char>,
) -> Seq<char> {
    "Summary\n"@
        + line("  Average:   "@, average_ms, " ms\n"@)
        + line("  Median:    "@, median_ms, " ms\n"@)
        + line("  Longest:   "@, longest_ms, " ms\n"@)
        + line("  Shortest:  "@, shortest_ms, " ms\n"@)
        + line("  Requests:  "@, decimal(count), "\n"@)
        + "\n"@
        + line("Latency Percentiles (2% of requests per bar):\n"@, percentile_chart, "\n"@)
        + "\n"@
        + line("Latency Histogram (each bar is 2% of max latency)\n"@, histogram_chart, "\n"@)
}

/// Appends a line of the report to `out`.
fn push_line(out: &mut String, label: &str, value: &str, end: &str)
    ensures
        final(out)@ == old(out)@ + line(label@, value@, end@),
{
    out.append(label);
    out.append(value);
    out.append(end);
    assert(out@ =~= old(out)@ + line(label@, value@, end@));
}

/// The report of a run. The durations come as text in milliseconds and the
/// charts as drawn, since both are made outside this library.
pub fn report(
    average_ms: &str,
    median_ms: &str,
    longest_ms: &str,
    shortest_ms: &str,
    count: usize,
    percentile_chart: &str,
    histogram_chart: &str,
) -> (text: String)
    ensures
        text@ == report_text(
            average_ms@,
            median_ms@,
            longest_ms@,
            shortest_ms@,
            count as nat,
            percentile_chart@,
            histogram_chart@,
        ),
{
    let mut text = String::new();
    text.append("Summary\n");
    push_line(&mut text, "  Average:   ", average_ms, " ms\n");
    push_line(&mut text, "  Median:    ", median_ms, " ms\n");
    push_line(&mut text, "  Longest:   ", longest_ms, " ms\n");
    push_line(&mut text, "  Shortest:  ", shortest_ms, " ms\n");
    text.append("  Requests:  ");
    push_decimal(&mut text, count as u128);
    text.append("\n");
    text.append("\n");
    push_line(&mut text, "Latency Percentiles (2% of requests per bar):\n", percentile_chart, "\n");
    text.append("\n");
    push_line(
        &mut text,
        "Latency Histogram (each bar is 2% of max latency)\n",
        histogram_chart,
        "\n",
    );
    assert(text@ =~= report_text(
        average_ms@,
        median_ms@,
        longest_ms@,
        shortest_ms@,
        count as nat,
        percentile_chart@,
        histogram_chart@,
    ));
    text
}

} // verus!
