//! The report renderer: composes the Markdown document for a single
//! suite or for an aggregated set of suites out of headers, tables and
//! failure-detail sections.
//!
//! Every section renderer appends to the caller's `String` and its
//! contract pins the appended text to a spec-level description, so a
//! whole report is byte-for-byte determined by the suites and the
//! render options.

use vstd::prelude::*;
use vstd::string::*;
use crate::lang_specific::{omit_java_package, simplified};
use crate::md::{
    Cell, cell_text, dec_str, rows_text, md_table, h1_md, h2_md, h3_md, code_detail_md,
    create_h1, create_h2, create_h3, create_code_detail, create_md_table, dec_string,
};
use crate::model::{
    TestSuite, TestCase, TestNegativeResult, TestProperty, RenderOptions, skipped_count,
    disabled_count, failed_count, success_count, percentage, is_negative_case, first_negative,
};

verus! {

/// An optional display string, a missing one standing for empty text.
pub open spec fn text_or_empty(t: Option<String>) -> Seq<char> {
    match t {
        Some(s) => s@,
        None => Seq::empty(),
    }
}

/// The sentence reporting host, timestamp and duration, shown when all
/// three are present.
pub open spec fn started_line(s: TestSuite) -> Seq<char> {
    seq!['\n'] + "Testset was started on host "@ + s.hostname->0@ + " at "@ + s.timestamp->0@
        + " and took "@ + s.time->0@ + " seconds to finish."@ + seq!['\n']
}

/// The `name: value` bullet lines of the first `n` suite properties.
pub open spec fn property_lines_upto(props: Seq<TestProperty>, n: int) -> Seq<char>
    decreases n,
{
    if n <= 0 {
        Seq::empty()
    } else {
        property_lines_upto(props, n - 1) + seq!['\n'] + "* "@ + props[n - 1].name@ + ": "@
            + props[n - 1].value@
    }
}

/// The bulleted properties block, present when the suite carries a
/// properties element.
pub open spec fn properties_block(s: TestSuite) -> Seq<char> {
    match s.properties {
        None => Seq::empty(),
        Some(ps) => seq!['\n'] + "Properties:"@ + property_lines_upto(
            ps.properties@,
            ps.properties@.len() as int,
        ) + seq!['\n'],
    }
}

/// The suite-properties section: nothing unless verbose; in verbose
/// mode the start sentence when host, timestamp and duration are all
/// present, then the properties block.
pub open spec fn suite_properties_md(s: TestSuite, verbose: bool) -> Seq<char> {
    if !verbose {
        Seq::empty()
    } else {
        (if s.timestamp is Some && s.hostname is Some && s.time is Some {
            started_line(s)
        } else {
            Seq::empty()
        }) + properties_block(s)
    }
}

/// Adds the suite-properties section to the report. There can be lots
/// of properties, so the section only appears in verbose mode.
pub fn add_suite_properties(md: &mut String, suite: &TestSuite, opts: RenderOptions)
    ensures
        final(md)@ == old(md)@ + suite_properties_md(*suite, opts.verbose),
{
    if !opts.verbose {
        // not needed unless in verbose mode, bail out
        return ;
    }
    match (&suite.timestamp, &suite.hostname, &suite.time) {
        (Some(timestamp), Some(hostname), Some(time)) => {
            md.append("\n");
            md.append("Testset was started on host ");
            md.append(hostname.as_str());
            md.append(" at ");
            md.append(timestamp.as_str());
            md.append(" and took ");
            md.append(time.as_str());
            md.append(" seconds to finish.");
            md.append("\n");
            proof {
                reveal_strlit("\n");
                assert(md@ =~= old(md)@ + started_line(*suite));
            }
        },
        _ => {},
    }
    let ghost after_line = md@;
    match &suite.properties {
        None => {},
        Some(desc) => {
            md.append("\n");
            md.append("Properties:");
            proof {
                reveal_strlit("\n");
            }
            let mut i: usize = 0;
            while i < desc.properties.len()
                invariant
                    i <= desc.properties@.len(),
                    md@ == after_line + seq!['\n'] + "Properties:"@ + property_lines_upto(
                        desc.properties@,
                        i as int,
                    ),
                decreases desc.properties@.len() - i,
            {
                let prop = &desc.properties[i];
                md.append("\n");
                md.append("* ");
                md.append(prop.name.as_str());
                md.append(": ");
                md.append(prop.value.as_str());
                proof {
                    reveal_strlit("\n");
                    assert(md@ =~= after_line + seq!['\n'] + "Properties:"@ + property_lines_upto(
                        desc.properties@,
                        i + 1,
                    ));
                }
                i += 1;
            }
            md.append("\n");
        },
    }
    proof {
        assert(md@ =~= old(md)@ + suite_properties_md(*suite, opts.verbose));
    }
}

/// The rows of the "Overall status" table: the header, then one row
/// per status kind with its count and its truncated percentage of the
/// declared total, a zero total counting as 0%.
pub open spec fn totals_singular_rows(s: TestSuite) -> Seq<Seq<Seq<char>>> {
    seq![
        seq!["Type"@, "Number of tests"@, "% of total"@],
        seq![
            "Skipped"@,
            dec_str(skipped_count(s)),
            dec_str(percentage(skipped_count(s), s.tests as int)),
        ],
        seq![
            "Disabled"@,
            dec_str(disabled_count(s)),
            dec_str(percentage(disabled_count(s), s.tests as int)),
        ],
        seq![
            "Failed"@,
            dec_str(failed_count(s)),
            dec_str(percentage(failed_count(s), s.tests as int)),
        ],
        seq![
            "**Success**"@,
            dec_str(success_count(s)),
            dec_str(percentage(success_count(s), s.tests as int)),
        ],
    ]
}

/// The "Overall status" section of a single-suite report.
pub open spec fn totals_singular_md(s: TestSuite) -> Seq<char> {
    h2_md("Overall status"@) + md_table(totals_singular_rows(s), false)
}

/// The integer percentage of `part` in a declared total, truncating
/// toward zero, 0 when the total is zero.
fn percentage_of(part: i128, total: u64) -> (r: i128)
    requires
        -0x1000_0000_0000_0000_0000 <= part <= 0x1000_0000_0000_0000_0000,
    ensures
        r == percentage(part as int, total as int),
{
    if total == 0 {
        0
    } else if part >= 0 {
        part * 100 / (total as i128)
    } else {
        -((-part) * 100 / (total as i128))
    }
}

/// Adds the summary table of a single suite: the number of tests with
/// each status, with its share of the declared total.
pub fn add_totals_singular(md: &mut String, suite: &TestSuite)
    ensures
        final(md)@ == old(md)@ + totals_singular_md(*suite),
{
    create_h2(md, "Overall status");
    let skipped: u64 = match suite.skipped {
        Some(n) => n,
        None => 0,
    };
    let disabled: u64 = match suite.disabled {
        Some(n) => n,
        None => 0,
    };
    let failures: u64 = match suite.failures {
        Some(n) => n,
        None => 0,
    };
    let errors: u64 = match suite.errors {
        Some(n) => n,
        None => 0,
    };
    let failed: i128 = failures as i128 + errors as i128;
    let success: i128 = suite.tests as i128 - failed - disabled as i128 - skipped as i128;

    let mut table: Vec<Vec<Cell>> = Vec::new();
    let mut header: Vec<Cell> = Vec::new();
    header.push(Cell::Text(String::from_str("Type")));
    header.push(Cell::Text(String::from_str("Number of tests")));
    header.push(Cell::Text(String::from_str("% of total")));
    table.push(header);

    let mut row_skipped: Vec<Cell> = Vec::new();
    row_skipped.push(Cell::Text(String::from_str("Skipped")));
    row_skipped.push(Cell::Integer(skipped as i128));
    row_skipped.push(Cell::Integer(percentage_of(skipped as i128, suite.tests)));
    table.push(row_skipped);

    let mut row_disabled: Vec<Cell> = Vec::new();
    row_disabled.push(Cell::Text(String::from_str("Disabled")));
    row_disabled.push(Cell::Integer(disabled as i128));
    row_disabled.push(Cell::Integer(percentage_of(disabled as i128, suite.tests)));
    table.push(row_disabled);

    let mut row_failed: Vec<Cell> = Vec::new();
    row_failed.push(Cell::Text(String::from_str("Failed")));
    row_failed.push(Cell::Integer(failed));
    row_failed.push(Cell::Integer(percentage_of(failed, suite.tests)));
    table.push(row_failed);

    let mut row_success: Vec<Cell> = Vec::new();
    row_success.push(Cell::Text(String::from_str("**Success**")));
    row_success.push(Cell::Integer(success));
    row_success.push(Cell::Integer(percentage_of(success, suite.tests)));
    table.push(row_success);

    proof {
        assert(rows_text(table@) =~~= totals_singular_rows(*suite));
        assert(forall|i: int|
            0 <= i < table@.len() ==> (#[trigger] table@[i])@.len() == table@[0]@.len());
    }
    create_md_table(md, table, false);
}

/// How many of the first `n` test cases are negative: the failure
/// index the `n`-th case gets if it is itself negative. The counter is
/// shared across error, failure and skip kinds.
pub open spec fn fail_count_before(tests: Seq<TestCase>, n: int) -> int
    decreases n,
{
    if n <= 0 {
        0
    } else {
        fail_count_before(tests, n - 1) + (if is_negative_case(tests[n - 1]) {
            1int
        } else {
            0int
        })
    }
}

/// The status glyph of a test case: error, failure, skip, or success.
pub open spec fn status_glyph(t: TestCase) -> Seq<char> {
    if t.errors@.len() > 0 {
        "‼"@
    } else if t.failures@.len() > 0 {
        "✗"@
    } else if t.skipped is Some {
        "✂"@
    } else {
        "✓"@
    }
}

/// The Markdown link from a breakdown row to its failure details.
pub open spec fn cause_link(idx: int) -> Seq<char> {
    "[["@ + dec_str(idx) + "]](#c-"@ + dec_str(idx) + ")"@
}

/// One breakdown row: simplified name, status glyph, verbatim time,
/// and for a negative case the link to its detail section.
pub open spec fn summary_row(t: TestCase, idx: int) -> Seq<Seq<char>> {
    seq![
        simplified(t.name@),
        status_glyph(t),
        text_or_empty(t.time),
        if is_negative_case(t) {
            cause_link(idx)
        } else {
            Seq::empty()
        },
    ]
}

/// The header plus the breakdown rows of the first `n` test cases, in
/// declaration order, each negative case linked under its shared
/// failure index.
pub open spec fn summary_rows_upto(tests: Seq<TestCase>, n: int) -> Seq<Seq<Seq<char>>>
    decreases n,
{
    if n <= 0 {
        seq![seq!["Testcase name"@, "Status"@, "Time"@, "Cause"@]]
    } else {
        summary_rows_upto(tests, n - 1).push(
            summary_row(tests[n - 1], fail_count_before(tests, n - 1)),
        )
    }
}

/// The "Breakdown by testcases" section of a single-suite report.
pub open spec fn testcases_summary_md(s: TestSuite) -> Seq<char> {
    h2_md("Breakdown by testcases"@) + md_table(
        summary_rows_upto(s.testcases@, s.testcases@.len() as int),
        true,
    )
}

/// Adds the summary table for the suite's test cases. Each test is
/// reported, and non-passing tests link to their detail section.
pub fn add_testcases_summary(md: &mut String, suite: &TestSuite)
    ensures
        final(md)@ == old(md)@ + testcases_summary_md(*suite),
{
    create_h2(md, "Breakdown by testcases");
    let tests = &suite.testcases;
    let mut table: Vec<Vec<Cell>> = Vec::new();
    let mut header: Vec<Cell> = Vec::new();
    header.push(Cell::Text(String::from_str("Testcase name")));
    header.push(Cell::Text(String::from_str("Status")));
    header.push(Cell::Text(String::from_str("Time")));
    header.push(Cell::Text(String::from_str("Cause")));
    table.push(header);
    proof {
        assert(rows_text(table@) =~~= summary_rows_upto(tests@, 0));
    }

    let mut fail_index: usize = 0;
    let mut i: usize = 0;
    while i < tests.len()
        invariant
            i <= tests@.len(),
            fail_index <= i,
            fail_index as int == fail_count_before(tests@, i as int),
            rows_text(table@) == summary_rows_upto(tests@, i as int),
            table@.len() == i + 1,
            forall|a: int| 0 <= a < table@.len() ==> (#[trigger] table@[a])@.len() == 4,
        decreases tests@.len() - i,
    {
        let test = &tests[i];
        let name = String::from_str(omit_java_package(test.name.as_str()));
        let time: Cell = match &test.time {
            Some(t) => Cell::Text(t.clone()),
            None => Cell::Text(String::new()),
        };
        let negative: bool = test.errors.len() > 0 || test.failures.len() > 0
            || test.skipped.is_some();
        let glyph: &str = if test.errors.len() > 0 {
            "‼"
        } else if test.failures.len() > 0 {
            "✗"
        } else if test.skipped.is_some() {
            "✂"
        } else {
            "✓"
        };
        let cause: Cell = if negative {
            let mut link = String::new();
            link.append("[[");
            let digits = dec_string(fail_index as i128);
            link.append(digits.as_str());
            link.append("]](#c-");
            link.append(digits.as_str());
            link.append(")");
            proof {
                assert(link@ =~= cause_link(fail_index as int));
            }
            Cell::Text(link)
        } else {
            Cell::Text(String::new())
        };
        let mut row: Vec<Cell> = Vec::new();
        row.push(Cell::Text(name));
        row.push(Cell::Text(String::from_str(glyph)));
        row.push(time);
        row.push(cause);
        table.push(row);
        proof {
            assert(rows_text(table@) =~~= summary_rows_upto(tests@, i + 1));
        }
        if negative {
            fail_index += 1;
        }
        i += 1;
    }
    proof {
        assert(forall|a: int|
            0 <= a < table@.len() ==> (#[trigger] table@[a])@.len() == table@[0]@.len());
    }
    create_md_table(md, table, true);
}

/// The anchor a breakdown row's link points at.
pub open spec fn anchor_md(idx: int) -> Seq<char> {
    "<a id=\"c-"@ + dec_str(idx) + "\"/>\n\n"@
}

/// The classname line of a failure entry, when the case has one.
pub open spec fn classname_line(t: TestCase) -> Seq<char> {
    match t.classname {
        None => Seq::empty(),
        Some(c) => "* Classname: "@ + simplified(c@) + "\n"@,
    }
}

/// The fail-reason line: the result's message, or a placeholder when
/// none was given.
pub open spec fn fail_reason_line(r: TestNegativeResult) -> Seq<char> {
    "* Fail reason: `"@ + (match r.message {
        Some(m) => m@,
        None => "Not specified"@,
    }) + "`\n"@
}

/// The collapsible block holding the result's long-form body, when it
/// has one.
pub open spec fn body_block(r: TestNegativeResult) -> Seq<char> {
    match r.body {
        None => Seq::empty(),
        Some(b) => code_detail_md("Click to show details"@, b@),
    }
}

/// The collapsible blocks for captured stdout and stderr, shown only
/// in verbose mode.
pub open spec fn streams_block(t: TestCase, verbose: bool) -> Seq<char> {
    if !verbose {
        Seq::empty()
    } else {
        match t.outputs {
            None => Seq::empty(),
            Some(o) => (match o.system_out {
                Some(s) => code_detail_md("Click to show test stdout"@, s@),
                None => Seq::empty(),
            }) + (match o.system_err {
                Some(s) => code_detail_md("Click to show test stderr"@, s@),
                None => Seq::empty(),
            }),
        }
    }
}

/// One failure-detail entry: the anchor under the shared index, a
/// header with the simplified test name, the classname if present, the
/// fail reason, and the collapsible body and stream blocks.
#[verifier::opaque]
pub open spec fn negative_result_entry(
    idx: int,
    t: TestCase,
    r: TestNegativeResult,
    verbose: bool,
) -> Seq<char> {
    anchor_md(idx) + h3_md(simplified(t.name@)) + seq!['\n'] + classname_line(t)
        + fail_reason_line(r) + body_block(r) + streams_block(t, verbose)
}

/// Reports one negative result in a human-readable way, wrapping long
/// bodies and captured streams into collapsible blocks.
#[verifier::rlimit(50)]
pub fn report_negative_result(
    md: &mut String,
    fail_index: usize,
    test: &TestCase,
    result: &TestNegativeResult,
    opts: RenderOptions,
)
    ensures
        final(md)@ == old(md)@ + negative_result_entry(
            fail_index as int,
            *test,
            *result,
            opts.verbose,
        ),
{
    md.append("<a id=\"c-");
    let digits = dec_string(fail_index as i128);
    md.append(digits.as_str());
    md.append("\"/>\n\n");
    proof {
        assert(md@ =~= old(md)@ + anchor_md(fail_index as int));
    }
    let ghost after_anchor = md@;
    create_h3(md, omit_java_package(test.name.as_str()));
    let ghost after_h3 = md@;
    md.append("\n");
    let ghost after_nl = md@;
    proof {
        reveal_strlit("\n");
        assert(after_nl == after_h3 + "\n"@);
        assert("\n"@ =~= seq!['\n']);
    }

    match &test.classname {
        Some(classname) => {
            md.append("* Classname: ");
            md.append(omit_java_package(classname.as_str()));
            md.append("\n");
            proof {
                assert(md@ =~= after_nl + classname_line(*test));
            }
        },
        None => {
            proof {
                assert(md@ =~= after_nl + classname_line(*test));
            }
        },
    }
    let ghost after_classname = md@;

    md.append("* Fail reason: `");
    match &result.message {
        Some(message) => md.append(message.as_str()),
        None => md.append("Not specified"),
    }
    md.append("`\n");
    proof {
        assert(md@ =~= after_classname + fail_reason_line(*result));
    }
    let ghost after_reason = md@;

    match &result.body {
        Some(body) => create_code_detail(md, "Click to show details", body.as_str()),
        None => {},
    }
    proof {
        assert(md@ =~= after_reason + body_block(*result));
    }
    let ghost after_body = md@;

    if opts.verbose {
        match &test.outputs {
            Some(outputs) => {
                let ghost before_streams = md@;
                match &outputs.system_out {
                    Some(out) => create_code_detail(md, "Click to show test stdout", out.as_str()),
                    None => {},
                }
                match &outputs.system_err {
                    Some(err) => create_code_detail(md, "Click to show test stderr", err.as_str()),
                    None => {},
                }
                proof {
                    assert(md@ =~= before_streams + streams_block(*test, opts.verbose));
                }
            },
            None => {},
        }
    }
    proof {
        reveal(negative_result_entry);
        assert(md@ == after_body + streams_block(*test, opts.verbose));
        assert(after_nl == after_anchor + h3_md(simplified(test.name@)) + seq!['\n']);
        assert(md@ =~= old(md)@ + negative_result_entry(
            fail_index as int,
            *test,
            *result,
            opts.verbose,
        ));
    }
}

/// The failure-detail entries of the first `n` test cases, the entry
/// of each negative case indexed by `base` plus the count of negative
/// cases before it; passing cases contribute nothing.
pub open spec fn fail_sections_upto(
    tests: Seq<TestCase>,
    base: int,
    n: int,
    verbose: bool,
) -> Seq<char>
    decreases n,
{
    if n <= 0 {
        Seq::empty()
    } else {
        fail_sections_upto(tests, base, n - 1, verbose) + (if is_negative_case(tests[n - 1]) {
            negative_result_entry(
                base + fail_count_before(tests, n - 1),
                tests[n - 1],
                first_negative(tests[n - 1]),
                verbose,
            )
        } else {
            Seq::empty()
        })
    }
}

/// Whether any of the test cases is negative.
pub open spec fn any_negative(tests: Seq<TestCase>) -> bool {
    exists|k: int| 0 <= k < tests.len() && is_negative_case(tests[k])
}

/// The "Failures" section over the given cases, omitted entirely when
/// every case passes.
pub open spec fn fail_details_md(tests: Seq<TestCase>, verbose: bool) -> Seq<char> {
    if !any_negative(tests) {
        Seq::empty()
    } else {
        h2_md("Failures"@) + fail_sections_upto(tests, 0, tests.len() as int, verbose)
    }
}

/// The count of negative cases among the first `n` never exceeds `n`.
pub proof fn lemma_fail_count_le(tests: Seq<TestCase>, n: int)
    requires
        n >= 0,
    ensures
        0 <= fail_count_before(tests, n) <= n,
    decreases n,
{
    if n > 0 {
        lemma_fail_count_le(tests, n - 1);
    }
}

fn has_negative(tests: &Vec<TestCase>) -> (r: bool)
    ensures
        r == any_negative(tests@),
{
    let mut i: usize = 0;
    while i < tests.len()
        invariant
            i <= tests@.len(),
            forall|k: int| 0 <= k < i ==> !is_negative_case(tests@[k]),
        decreases tests@.len() - i,
    {
        let test = &tests[i];
        if test.errors.len() > 0 || test.failures.len() > 0 || test.skipped.is_some() {
            return true;
        }
        i += 1;
    }
    false
}

/// Appends the failure-detail entries of every negative case among
/// `tests`, numbering them from `start_index` on, and returns the next
/// free index.
fn add_fail_sections(
    md: &mut String,
    tests: &Vec<TestCase>,
    start_index: usize,
    opts: RenderOptions,
) -> (next: usize)
    requires
        start_index + tests@.len() <= usize::MAX,
    ensures
        final(md)@ == old(md)@ + fail_sections_upto(
            tests@,
            start_index as int,
            tests@.len() as int,
            opts.verbose,
        ),
        next as int == start_index + fail_count_before(tests@, tests@.len() as int),
{
    let mut fail_index: usize = start_index;
    let mut i: usize = 0;
    while i < tests.len()
        invariant
            i <= tests@.len(),
            start_index + tests@.len() <= usize::MAX,
            fail_index as int == start_index + fail_count_before(tests@, i as int),
            fail_index <= start_index + i,
            md@ == old(md)@ + fail_sections_upto(
                tests@,
                start_index as int,
                i as int,
                opts.verbose,
            ),
        decreases tests@.len() - i,
    {
        let test = &tests[i];
        if test.errors.len() > 0 {
            let error = &test.errors[0];
            report_negative_result(md, fail_index, test, error, opts);
            fail_index += 1;
        } else if test.failures.len() > 0 {
            let failure = &test.failures[0];
            report_negative_result(md, fail_index, test, failure, opts);
            fail_index += 1;
        } else {
            match &test.skipped {
                Some(skipped_desc) => {
                    report_negative_result(md, fail_index, test, skipped_desc, opts);
                    fail_index += 1;
                },
                None => {},
            }
        }
        i += 1;
    }
    fail_index
}

/// Adds the failure details for every non-passing test among `tests`,
/// in declaration order and under the same indices as the breakdown
/// table's links. Nothing is added when every test passes.
pub fn add_testcases_fail_details(md: &mut String, tests: &Vec<TestCase>, opts: RenderOptions)
    ensures
        final(md)@ == old(md)@ + fail_details_md(tests@, opts.verbose),
{
    if !has_negative(tests) {
        // no failures to report
        return ;
    }
    let count: usize = tests.len();
    assert(count + 0 <= usize::MAX);
    create_h2(md, "Failures");
    add_fail_sections(md, tests, 0, opts);
    proof {
        assert(md@ =~= old(md)@ + fail_details_md(tests@, opts.verbose));
    }
}

/// One row of the aggregated totals table: the suite's simplified
/// name, its verbatim time, and its per-status counts.
pub open spec fn suite_total_row(s: TestSuite) -> Seq<Seq<char>> {
    seq![
        simplified(s.name@),
        text_or_empty(s.time),
        dec_str(success_count(s)),
        dec_str(skipped_count(s)),
        dec_str(disabled_count(s)),
        dec_str(failed_count(s)),
        dec_str(s.tests as int),
    ]
}

/// The skipped counts of the first `n` suites, summed.
pub open spec fn sum_skipped(suites: Seq<TestSuite>, n: int) -> int
    decreases n,
{
    if n <= 0 {
        0
    } else {
        sum_skipped(suites, n - 1) + skipped_count(suites[n - 1])
    }
}

/// The disabled counts of the first `n` suites, summed.
pub open spec fn sum_disabled(suites: Seq<TestSuite>, n: int) -> int
    decreases n,
{
    if n <= 0 {
        0
    } else {
        sum_disabled(suites, n - 1) + disabled_count(suites[n - 1])
    }
}

/// The failed counts of the first `n` suites, summed.
pub open spec fn sum_failed(suites: Seq<TestSuite>, n: int) -> int
    decreases n,
{
    if n <= 0 {
        0
    } else {
        sum_failed(suites, n - 1) + failed_count(suites[n - 1])
    }
}

/// The derived successful counts of the first `n` suites, summed.
pub open spec fn sum_success(suites: Seq<TestSuite>, n: int) -> int
    decreases n,
{
    if n <= 0 {
        0
    } else {
        sum_success(suites, n - 1) + success_count(suites[n - 1])
    }
}

/// The declared test totals of the first `n` suites, summed.
pub open spec fn sum_tests(suites: Seq<TestSuite>, n: int) -> int
    decreases n,
{
    if n <= 0 {
        0
    } else {
        sum_tests(suites, n - 1) + suites[n - 1].tests
    }
}

/// The header plus the totals rows of the first `n` suites.
pub open spec fn totals_multiple_rows(suites: Seq<TestSuite>, n: int) -> Seq<Seq<Seq<char>>>
    decreases n,
{
    if n <= 0 {
        seq![
            seq![
                "Suite name"@,
                "Time taken, s"@,
                "Success"@,
                "Skipped"@,
                "Disabled"@,
                "Failures"@,
                "Total"@,
            ],
        ]
    } else {
        totals_multiple_rows(suites, n - 1).push(suite_total_row(suites[n - 1]))
    }
}

/// The bold final row of the aggregated totals table: every column
/// summed over all suites, the time column showing "N/A".
pub open spec fn grand_total_row(suites: Seq<TestSuite>) -> Seq<Seq<char>> {
    let n = suites.len() as int;
    seq![
        "**Total**"@,
        "N/A"@,
        dec_str(sum_success(suites, n)),
        dec_str(sum_skipped(suites, n)),
        dec_str(sum_disabled(suites, n)),
        dec_str(sum_failed(suites, n)),
        dec_str(sum_tests(suites, n)),
    ]
}

/// The aggregated totals section: one row per suite plus the summed
/// total row.
pub open spec fn totals_multiple_md(suites: Seq<TestSuite>) -> Seq<char> {
    seq!['\n'] + md_table(
        totals_multiple_rows(suites, suites.len() as int).push(grand_total_row(suites)),
        true,
    )
}

/// Every per-suite count lies within four test-count units, so the
/// sums over `n` suites are bounded linearly in `n`.
proof fn lemma_sum_bounds(suites: Seq<TestSuite>, n: int)
    requires
        n >= 0,
    ensures
        0 <= sum_skipped(suites, n) <= n * 0x4_0000_0000_0000_0000,
        0 <= sum_disabled(suites, n) <= n * 0x4_0000_0000_0000_0000,
        0 <= sum_failed(suites, n) <= n * 0x4_0000_0000_0000_0000,
        0 <= sum_tests(suites, n) <= n * 0x4_0000_0000_0000_0000,
        -(n * 0x4_0000_0000_0000_0000) <= sum_success(suites, n) <= n * 0x4_0000_0000_0000_0000,
    decreases n,
{
    if n > 0 {
        lemma_sum_bounds(suites, n - 1);
    }
}

/// Adds the totals table over several suites: each suite's counts on
/// one row, and a final row summing every column.
#[verifier::rlimit(50)]
pub fn add_totals_multiple(md: &mut String, suites: &Vec<TestSuite>)
    requires
        suites@.len() <= 0xffff_ffff,
    ensures
        final(md)@ == old(md)@ + totals_multiple_md(suites@),
{
    md.append("\n");

    let mut table: Vec<Vec<Cell>> = Vec::new();
    let mut header: Vec<Cell> = Vec::new();
    header.push(Cell::Text(String::from_str("Suite name")));
    header.push(Cell::Text(String::from_str("Time taken, s")));
    header.push(Cell::Text(String::from_str("Success")));
    header.push(Cell::Text(String::from_str("Skipped")));
    header.push(Cell::Text(String::from_str("Disabled")));
    header.push(Cell::Text(String::from_str("Failures")));
    header.push(Cell::Text(String::from_str("Total")));
    table.push(header);
    proof {
        assert(rows_text(table@) =~~= totals_multiple_rows(suites@, 0));
    }

    let mut skipped_total: i128 = 0;
    let mut disabled_total: i128 = 0;
    let mut failed_total: i128 = 0;
    let mut success_total: i128 = 0;
    let mut overall_total: i128 = 0;
    let mut i: usize = 0;
    while i < suites.len()
        invariant
            i <= suites@.len(),
            suites@.len() <= 0xffff_ffff,
            skipped_total as int == sum_skipped(suites@, i as int),
            disabled_total as int == sum_disabled(suites@, i as int),
            failed_total as int == sum_failed(suites@, i as int),
            success_total as int == sum_success(suites@, i as int),
            overall_total as int == sum_tests(suites@, i as int),
            rows_text(table@) == totals_multiple_rows(suites@, i as int),
            table@.len() == i + 1,
            forall|a: int| 0 <= a < table@.len() ==> (#[trigger] table@[a])@.len() == 7,
        decreases suites@.len() - i,
    {
        let suite = &suites[i];
        let name = String::from_str(omit_java_package(suite.name.as_str()));
        let time: Cell = match &suite.time {
            Some(t) => Cell::Text(t.clone()),
            None => Cell::Text(String::new()),
        };
        let skipped: u64 = match suite.skipped {
            Some(n) => n,
            None => 0,
        };
        let disabled: u64 = match suite.disabled {
            Some(n) => n,
            None => 0,
        };
        let failures: u64 = match suite.failures {
            Some(n) => n,
            None => 0,
        };
        let errors: u64 = match suite.errors {
            Some(n) => n,
            None => 0,
        };
        let failed: i128 = failures as i128 + errors as i128;
        let success: i128 = suite.tests as i128 - failed - disabled as i128 - skipped as i128;

        let mut row: Vec<Cell> = Vec::new();
        row.push(Cell::Text(name));
        row.push(time);
        row.push(Cell::Integer(success));
        row.push(Cell::Integer(skipped as i128));
        row.push(Cell::Integer(disabled as i128));
        row.push(Cell::Integer(failed));
        row.push(Cell::Integer(suite.tests as i128));
        table.push(row);
        proof {
            assert(rows_text(table@) =~~= totals_multiple_rows(suites@, i + 1));
            lemma_sum_bounds(suites@, i + 1);
        }
        skipped_total += skipped as i128;
        disabled_total += disabled as i128;
        failed_total += failed;
        success_total += success;
        overall_total += suite.tests as i128;
        i += 1;
    }

    let mut total_row: Vec<Cell> = Vec::new();
    total_row.push(Cell::Text(String::from_str("**Total**")));
    total_row.push(Cell::Text(String::from_str("N/A")));
    total_row.push(Cell::Integer(success_total));
    total_row.push(Cell::Integer(skipped_total));
    total_row.push(Cell::Integer(disabled_total));
    total_row.push(Cell::Integer(failed_total));
    total_row.push(Cell::Integer(overall_total));
    table.push(total_row);
    proof {
        assert(rows_text(table@) =~~= totals_multiple_rows(
            suites@,
            suites@.len() as int,
        ).push(grand_total_row(suites@)));
        assert(forall|a: int|
            0 <= a < table@.len() ==> (#[trigger] table@[a])@.len() == table@[0]@.len());
        reveal_strlit("\n");
    }
    create_md_table(md, table, true);
    proof {
        assert(md@ =~= old(md)@ + totals_multiple_md(suites@));
    }
}

/// The whole single-suite report: header, optional properties, status
/// totals, per-test breakdown, and failure details.
pub open spec fn suite_md_single(s: TestSuite, verbose: bool) -> Seq<char> {
    h1_md(simplified(s.name@)) + suite_properties_md(s, verbose) + totals_singular_md(s)
        + testcases_summary_md(s) + fail_details_md(s.testcases@, verbose)
}

/// Converts a single suite to Markdown, consuming it: totals for the
/// suite, the status of every test case, and details of the failed
/// ones.
pub fn suite_to_md_single(suite: TestSuite, opts: RenderOptions) -> (r: String)
    ensures
        r@ == suite_md_single(suite, opts.verbose),
{
    let mut md = String::new();
    create_h1(&mut md, omit_java_package(suite.name.as_str()));
    add_suite_properties(&mut md, &suite, opts);
    add_totals_singular(&mut md, &suite);
    add_testcases_summary(&mut md, &suite);
    add_testcases_fail_details(&mut md, &suite.testcases, opts);
    proof {
        assert(md@ =~= suite_md_single(suite, opts.verbose));
    }
    md
}

/// The number of test cases across the first `n` suites.
pub open spec fn total_cases(suites: Seq<TestSuite>, n: int) -> int
    decreases n,
{
    if n <= 0 {
        0
    } else {
        total_cases(suites, n - 1) + suites[n - 1].testcases@.len()
    }
}

/// How many negative cases the first `n` suites hold: the failure
/// index the `n`-th suite's first negative case gets, since indices
/// keep counting across suite boundaries.
pub open spec fn suites_fail_count(suites: Seq<TestSuite>, n: int) -> int
    decreases n,
{
    if n <= 0 {
        0
    } else {
        suites_fail_count(suites, n - 1) + fail_count_before(
            suites[n - 1].testcases@,
            suites[n - 1].testcases@.len() as int,
        )
    }
}

/// The failure-detail entries of the first `n` suites' negative cases,
/// concatenated in suite order under the shared running index.
pub open spec fn suites_fail_sections_upto(
    suites: Seq<TestSuite>,
    n: int,
    verbose: bool,
) -> Seq<char>
    decreases n,
{
    if n <= 0 {
        Seq::empty()
    } else {
        suites_fail_sections_upto(suites, n - 1, verbose) + fail_sections_upto(
            suites[n - 1].testcases@,
            suites_fail_count(suites, n - 1),
            suites[n - 1].testcases@.len() as int,
            verbose,
        )
    }
}

/// Whether any suite holds a negative test case.
pub open spec fn any_negative_in_suites(suites: Seq<TestSuite>) -> bool {
    exists|k: int| 0 <= k < suites.len() && any_negative(suites[k].testcases@)
}

/// The combined "Failures" section over every suite's negative cases,
/// omitted entirely when every case of every suite passes.
pub open spec fn suites_fail_details_md(suites: Seq<TestSuite>, verbose: bool) -> Seq<char> {
    if !any_negative_in_suites(suites) {
        Seq::empty()
    } else {
        h2_md("Failures"@) + suites_fail_sections_upto(suites, suites.len() as int, verbose)
    }
}

/// The whole aggregated report: the fixed header, the per-suite totals
/// table with its summed final row, and the combined failure details.
pub open spec fn suites_md_mult(suites: Seq<TestSuite>, verbose: bool) -> Seq<char> {
    h1_md("Aggregated test report"@) + totals_multiple_md(suites) + suites_fail_details_md(
        suites,
        verbose,
    )
}

/// The suites' negative cases are never more numerous than their cases.
proof fn lemma_suites_fail_count_le(suites: Seq<TestSuite>, n: int)
    requires
        n >= 0,
    ensures
        0 <= suites_fail_count(suites, n) <= total_cases(suites, n),
    decreases n,
{
    if n > 0 {
        lemma_suites_fail_count_le(suites, n - 1);
        lemma_fail_count_le(suites[n - 1].testcases@, suites[n - 1].testcases@.len() as int);
    }
}

/// Case totals only grow with more suites.
proof fn lemma_total_cases_mono(suites: Seq<TestSuite>, i: int, n: int)
    requires
        0 <= i <= n,
    ensures
        total_cases(suites, i) <= total_cases(suites, n),
    decreases n,
{
    if i < n {
        lemma_total_cases_mono(suites, i, n - 1);
    }
}

/// Converts multiple suites to Markdown, consuming them: totals for
/// each suite, and details of every failed test case, their indices
/// running across suite boundaries. The suite count and the combined
/// case count must fit the machine's limits.
pub fn suites_to_md_mult(suites: Vec<TestSuite>, opts: RenderOptions) -> (r: String)
    requires
        suites@.len() <= 0xffff_ffff,
        total_cases(suites@, suites@.len() as int) <= usize::MAX,
    ensures
        r@ == suites_md_mult(suites@, opts.verbose),
{
    let mut md = String::new();
    create_h1(&mut md, "Aggregated test report");
    add_totals_multiple(&mut md, &suites);
    let ghost after_totals = md@;

    let mut any: bool = false;
    let mut i: usize = 0;
    while i < suites.len()
        invariant
            i <= suites@.len(),
            any <==> exists|k: int| 0 <= k < i && any_negative(suites@[k].testcases@),
        decreases suites@.len() - i,
    {
        if has_negative(&suites[i].testcases) {
            any = true;
        }
        i += 1;
    }
    if !any {
        proof {
            assert(md@ =~= suites_md_mult(suites@, opts.verbose));
        }
        return md;
    }
    create_h2(&mut md, "Failures");
    let mut idx: usize = 0;
    let mut i: usize = 0;
    while i < suites.len()
        invariant
            i <= suites@.len(),
            suites@.len() <= 0xffff_ffff,
            total_cases(suites@, suites@.len() as int) <= usize::MAX,
            idx as int == suites_fail_count(suites@, i as int),
            md@ == after_totals + h2_md("Failures"@) + suites_fail_sections_upto(
                suites@,
                i as int,
                opts.verbose,
            ),
        decreases suites@.len() - i,
    {
        proof {
            lemma_suites_fail_count_le(suites@, i as int);
            lemma_total_cases_mono(suites@, i as int, suites@.len() as int);
            lemma_total_cases_mono(suites@, i + 1, suites@.len() as int);
        }
        let suite = &suites[i];
        idx = add_fail_sections(&mut md, &suite.testcases, idx, opts);
        proof {
            assert(md@ =~= after_totals + h2_md("Failures"@) + suites_fail_sections_upto(
                suites@,
                i + 1,
                opts.verbose,
            ));
        }
        i += 1;
    }
    proof {
        assert(md@ =~= suites_md_mult(suites@, opts.verbose));
    }
    md
}

/// Counting negative cases never decreases along the case list.
proof fn lemma_fail_count_mono(tests: Seq<TestCase>, i: int, j: int)
    requires
        0 <= i <= j,
    ensures
        fail_count_before(tests, i) <= fail_count_before(tests, j),
    decreases j,
{
    if i < j {
        lemma_fail_count_mono(tests, i, j - 1);
    }
}

/// Failure indices form a zero-based, strictly increasing sequence,
/// shared across the error, failure and skip kinds: the first case
/// gets index 0, and of two negative cases the later one always gets
/// the larger index, whatever kinds the two are.
pub proof fn lemma_fail_indices_strictly_increase(tests: Seq<TestCase>, i: int, j: int)
    requires
        0 <= i < j < tests.len(),
        is_negative_case(tests[i]),
        is_negative_case(tests[j]),
    ensures
        fail_count_before(tests, 0) == 0,
        fail_count_before(tests, i) < fail_count_before(tests, j),
{
    assert(fail_count_before(tests, i + 1) == fail_count_before(tests, i) + 1);
    lemma_fail_count_mono(tests, i + 1, j);
}

proof fn lemma_summary_rows_len(tests: Seq<TestCase>, n: int)
    requires
        n >= 0,
    ensures
        summary_rows_upto(tests, n).len() == n + 1,
    decreases n,
{
    if n > 0 {
        lemma_summary_rows_len(tests, n - 1);
    }
}

/// The breakdown table and the failure-detail section agree on every
/// negative case's index: the case's breakdown row links under the
/// count of negative cases before it, and its detail entry both starts
/// the section's increment and opens with the anchor of that same
/// count.
pub proof fn lemma_link_anchor_consistent(tests: Seq<TestCase>, i: int, verbose: bool)
    requires
        0 <= i < tests.len(),
        is_negative_case(tests[i]),
    ensures
        summary_rows_upto(tests, i + 1)[i + 1] == summary_row(
            tests[i],
            fail_count_before(tests, i),
        ),
        summary_row(tests[i], fail_count_before(tests, i))[3] == cause_link(
            fail_count_before(tests, i),
        ),
        fail_sections_upto(tests, 0, i + 1, verbose) == fail_sections_upto(tests, 0, i, verbose)
            + negative_result_entry(
            fail_count_before(tests, i),
            tests[i],
            first_negative(tests[i]),
            verbose,
        ),
        negative_result_entry(
            fail_count_before(tests, i),
            tests[i],
            first_negative(tests[i]),
            verbose,
        ).take(anchor_md(fail_count_before(tests, i)).len() as int) == anchor_md(
            fail_count_before(tests, i),
        ),
{
    lemma_summary_rows_len(tests, i);
    reveal(negative_result_entry);
    let idx = fail_count_before(tests, i);
    let entry = negative_result_entry(idx, tests[i], first_negative(tests[i]), verbose);
    assert(entry.take(anchor_md(idx).len() as int) =~= anchor_md(idx));
}

/// The five aggregated sums agree on any two suite lists that share
/// their first `n` entries.
proof fn lemma_sums_prefix(s1: Seq<TestSuite>, s2: Seq<TestSuite>, n: int)
    requires
        0 <= n,
        forall|k: int| 0 <= k < n ==> s1[k] == s2[k],
    ensures
        sum_skipped(s1, n) == sum_skipped(s2, n),
        sum_disabled(s1, n) == sum_disabled(s2, n),
        sum_failed(s1, n) == sum_failed(s2, n),
        sum_success(s1, n) == sum_success(s2, n),
        sum_tests(s1, n) == sum_tests(s2, n),
    decreases n,
{
    if n > 0 {
        lemma_sums_prefix(s1, s2, n - 1);
    }
}

proof fn lemma_sums_concat(a: Seq<TestSuite>, b: Seq<TestSuite>, m: int)
    requires
        0 <= m <= b.len(),
    ensures
        sum_skipped(a + b, a.len() + m) == sum_skipped(a, a.len() as int) + sum_skipped(b, m),
        sum_disabled(a + b, a.len() + m) == sum_disabled(a, a.len() as int) + sum_disabled(b, m),
        sum_failed(a + b, a.len() + m) == sum_failed(a, a.len() as int) + sum_failed(b, m),
        sum_success(a + b, a.len() + m) == sum_success(a, a.len() as int) + sum_success(b, m),
        sum_tests(a + b, a.len() + m) == sum_tests(a, a.len() as int) + sum_tests(b, m),
    decreases m,
{
    if m == 0 {
        lemma_sums_prefix(a + b, a, a.len() as int);
    } else {
        lemma_sums_concat(a, b, m - 1);
        assert((a + b)[a.len() + m - 1] == b[m - 1]);
    }
}

/// The aggregated report's totals equal the sum of the per-suite
/// values: each of the five summed columns is additive over suite
/// lists, so the total over all rendered suites is the per-suite
/// values added up, however the suites are grouped.
pub proof fn lemma_totals_additive(a: Seq<TestSuite>, b: Seq<TestSuite>)
    ensures
        sum_skipped(a + b, (a + b).len() as int) == sum_skipped(a, a.len() as int) + sum_skipped(
            b,
            b.len() as int,
        ),
        sum_disabled(a + b, (a + b).len() as int) == sum_disabled(a, a.len() as int)
            + sum_disabled(b, b.len() as int),
        sum_failed(a + b, (a + b).len() as int) == sum_failed(a, a.len() as int) + sum_failed(
            b,
            b.len() as int,
        ),
        sum_success(a + b, (a + b).len() as int) == sum_success(a, a.len() as int) + sum_success(
            b,
            b.len() as int,
        ),
        sum_tests(a + b, (a + b).len() as int) == sum_tests(a, a.len() as int) + sum_tests(
            b,
            b.len() as int,
        ),
{
    lemma_sums_concat(a, b, b.len() as int);
}

} // verus!
