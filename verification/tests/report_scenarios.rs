//! End-to-end rendering scenarios over whole suites, plus the document
//! classification policy.

use junit2md::model::{
    classify_document, DocumentClass, RenderOptions, TestCase, TestNegativeResult, TestOutputs,
    TestProperties, TestProperty, TestSuite,
};
use junit2md::report::{
    add_suite_properties, add_testcases_fail_details, add_testcases_summary, add_totals_multiple,
    add_totals_singular, report_negative_result, suite_to_md_single, suites_to_md_mult,
};

fn pass_case(name: &str) -> TestCase {
    TestCase {
        name: String::from(name),
        assertions: None,
        time: None,
        classname: None,
        status: None,
        outputs: None,
        skipped: None,
        errors: Vec::new(),
        failures: Vec::new(),
    }
}

fn negative(message: Option<&str>) -> TestNegativeResult {
    TestNegativeResult {
        error_type: None,
        message: message.map(String::from),
        body: None,
    }
}

fn failure_case(name: &str, message: &str) -> TestCase {
    let mut case = pass_case(name);
    case.failures = vec![negative(Some(message))];
    case
}

fn error_case(name: &str, message: &str) -> TestCase {
    let mut case = pass_case(name);
    case.errors = vec![negative(Some(message))];
    case
}

fn skipped_case(name: &str) -> TestCase {
    let mut case = pass_case(name);
    case.skipped = Some(negative(None));
    case
}

fn suite(name: &str, tests: u64, testcases: Vec<TestCase>) -> TestSuite {
    TestSuite {
        name: String::from(name),
        tests,
        id: None,
        package: None,
        failures: None,
        disabled: None,
        skipped: None,
        errors: None,
        time: None,
        timestamp: None,
        hostname: None,
        properties: None,
        outputs: TestOutputs { system_out: None, system_err: None },
        testcases,
    }
}

fn brief() -> RenderOptions {
    RenderOptions { verbose: false }
}

fn verbose() -> RenderOptions {
    RenderOptions { verbose: true }
}

#[test]
fn single_suite_end_to_end() {
    let mut s = suite(
        "pkg.Foo",
        3,
        vec![pass_case("A"), failure_case("B", "boom"), pass_case("C")],
    );
    s.failures = Some(1);
    let md = suite_to_md_single(s, brief());

    // the package prefix is stripped from the level-1 header
    assert!(md.starts_with("\nFoo\n===\n"));
    assert!(!md.contains("pkg.Foo"));
    // status table: Failed=1 at 33%, Successful=2 at 66%
    assert!(md.contains("\nOverall status\n--------------\n"));
    assert!(md.contains("|  Failed   |       1       |    33    |\n"));
    assert!(md.contains("|**Success**|       2       |    66    |\n"));
    // breakdown rows with glyphs and the link for B
    assert!(md.contains("|A            |  ✓   |    |           |\n"));
    assert!(md.contains("|B            |  ✗   |    |[[0]](#c-0)|\n"));
    assert!(md.contains("|C            |  ✓   |    |           |\n"));
    // one failure entry anchored c-0, titled B, with the fail reason
    assert!(md.contains("\nFailures\n--------\n"));
    assert!(md.contains("<a id=\"c-0\"/>\n\n\n### B ###\n"));
    assert!(md.contains("* Fail reason: `boom`\n"));
    assert!(!md.contains("c-1"));
}

#[test]
fn empty_suite_renders_zero_percentages() {
    let s = suite("Empty", 0, Vec::new());
    let md = suite_to_md_single(s, brief());
    assert!(md.contains("|  Skipped  |       0       |    0     |\n"));
    assert!(md.contains("| Disabled  |       0       |    0     |\n"));
    assert!(md.contains("|  Failed   |       0       |    0     |\n"));
    assert!(md.contains("|**Success**|       0       |    0     |\n"));
    // no test rows and no failures section
    assert!(!md.contains("Failures"));
}

#[test]
fn overcounted_suite_renders_negative_success() {
    let mut s = suite("Odd", 1, Vec::new());
    s.failures = Some(2);
    let mut md = String::new();
    add_totals_singular(&mut md, &s);
    assert!(md.contains("|  Failed   |       2       |   200    |\n"));
    assert!(md.contains("|**Success**|      -1       |   -100   |\n"));
}

#[test]
fn fail_indices_are_shared_and_increasing() {
    let cases = vec![
        pass_case("p1"),
        error_case("e", "err"),
        pass_case("p2"),
        failure_case("f", "fail"),
        skipped_case("s"),
    ];
    let s = suite("Mixed", 5, cases);
    let md = suite_to_md_single(s, brief());

    // links in the breakdown table, one per negative case, shared counter
    assert!(md.contains("[[0]](#c-0)"));
    assert!(md.contains("[[1]](#c-1)"));
    assert!(md.contains("[[2]](#c-2)"));
    assert!(!md.contains("c-3"));
    // anchors in the details under the same indices, in order
    let a0 = md.find("<a id=\"c-0\"/>").expect("anchor 0");
    let a1 = md.find("<a id=\"c-1\"/>").expect("anchor 1");
    let a2 = md.find("<a id=\"c-2\"/>").expect("anchor 2");
    assert!(a0 < a1 && a1 < a2);
    // the error gets 0, the failure 1, the skip 2
    let e = md.find("### e ###").expect("error entry");
    let f = md.find("### f ###").expect("failure entry");
    let sk = md.find("### s ###").expect("skip entry");
    assert!(a0 < e && e < a1);
    assert!(a1 < f && f < a2);
    assert!(a2 < sk);
}

#[test]
fn first_negative_result_of_each_kind_wins() {
    let mut case = pass_case("multi");
    case.errors = vec![negative(Some("first error")), negative(Some("second error"))];
    case.failures = vec![negative(Some("a failure"))];
    let s = suite("Multi", 1, vec![case]);
    let md = suite_to_md_single(s, brief());
    // the first error is surfaced; later duplicates and failures are not
    assert!(md.contains("|  ‼   |"));
    assert!(md.contains("* Fail reason: `first error`\n"));
    assert!(!md.contains("second error"));
    assert!(!md.contains("a failure"));
}

#[test]
fn missing_message_uses_placeholder() {
    let mut case = pass_case("quiet");
    case.failures = vec![negative(None)];
    let s = suite("Quiet", 1, vec![case]);
    let md = suite_to_md_single(s, brief());
    assert!(md.contains("* Fail reason: `Not specified`\n"));
}

fn detailed_failure() -> TestNegativeResult {
    let mut result = negative(Some("why"));
    result.body = Some(String::from("trace\nline2"));
    result
}

#[test]
fn negative_result_details_respect_verbosity() {
    let mut case = pass_case("pkg.Case");
    case.failures = vec![detailed_failure()];
    case.classname = Some(String::from("pkg.Klass"));
    case.outputs = Some(TestOutputs {
        system_out: Some(String::from("out line")),
        system_err: Some(String::from("err line")),
    });

    let mut quiet = String::new();
    report_negative_result(&mut quiet, 0, &case, &detailed_failure(), brief());
    assert!(quiet.contains("### Case ###"));
    assert!(quiet.contains("* Classname: Klass\n"));
    assert!(quiet.contains("* Fail reason: `why`\n"));
    assert!(quiet.contains("<summary>Click to show details</summary>\n\n    trace\n    line2\n"));
    assert!(!quiet.contains("stdout"));
    assert!(!quiet.contains("stderr"));

    let mut chatty = String::new();
    report_negative_result(&mut chatty, 0, &case, &detailed_failure(), verbose());
    assert!(chatty.contains("<summary>Click to show test stdout</summary>\n\n    out line\n"));
    assert!(chatty.contains("<summary>Click to show test stderr</summary>\n\n    err line\n"));
}

#[test]
fn suite_properties_only_in_verbose_mode() {
    let mut s = suite("Meta", 0, Vec::new());
    s.hostname = Some(String::from("ci-host"));
    s.timestamp = Some(String::from("2020-01-01T00:00:00"));
    s.time = Some(String::from("1.5"));
    s.properties = Some(TestProperties {
        properties: vec![TestProperty {
            name: String::from("os"),
            value: String::from("linux"),
        }],
    });

    let mut quiet = String::new();
    add_suite_properties(&mut quiet, &s, brief());
    assert_eq!(quiet, "");

    let mut chatty = String::new();
    add_suite_properties(&mut chatty, &s, verbose());
    assert_eq!(
        chatty,
        "\nTestset was started on host ci-host at 2020-01-01T00:00:00 \
         and took 1.5 seconds to finish.\n\nProperties:\n* os: linux\n"
    );
}

#[test]
fn properties_keep_order_and_repeated_keys() {
    let mut s = suite("Meta", 0, Vec::new());
    s.properties = Some(TestProperties {
        properties: vec![
            TestProperty { name: String::from("k"), value: String::from("first") },
            TestProperty { name: String::from("other"), value: String::from("x") },
            TestProperty { name: String::from("k"), value: String::from("second") },
        ],
    });
    let mut md = String::new();
    add_suite_properties(&mut md, &s, verbose());
    assert_eq!(md, "\nProperties:\n* k: first\n* other: x\n* k: second\n");
}

#[test]
fn suite_name_with_trailing_separator_stays_whole() {
    let s = suite("pkg.", 0, Vec::new());
    let md = suite_to_md_single(s, brief());
    assert!(md.starts_with("\npkg.\n====\n"));
}

#[test]
fn start_sentence_needs_all_three_fields() {
    let mut s = suite("Meta", 0, Vec::new());
    s.hostname = Some(String::from("ci-host"));
    s.time = Some(String::from("1.5"));
    let mut md = String::new();
    add_suite_properties(&mut md, &s, verbose());
    assert_eq!(md, "");
}

#[test]
fn summary_table_shows_verbatim_time() {
    let mut case = pass_case("timed");
    case.time = Some(String::from("0.25"));
    let s = suite("Timed", 1, vec![case]);
    let mut md = String::new();
    add_testcases_summary(&mut md, &s);
    assert!(md.contains("|timed        |  ✓   |0.25|"));
}

#[test]
fn no_failures_section_when_all_pass() {
    let cases = vec![pass_case("a"), pass_case("b")];
    let mut md = String::new();
    add_testcases_fail_details(&mut md, &cases, brief());
    assert_eq!(md, "");
}

#[test]
fn aggregated_report_end_to_end() {
    // two input documents, each one singular suite, rendered aggregated
    let mut s1 = suite("pkg.One", 2, vec![pass_case("a"), failure_case("b", "broke")]);
    s1.failures = Some(1);
    s1.time = Some(String::from("0.5"));
    let mut s2 = suite("pkg.Two", 1, vec![skipped_case("c")]);
    s2.skipped = Some(1);

    let md = suites_to_md_mult(vec![s1, s2], brief());
    assert!(md.starts_with("\nAggregated test report\n======================\n"));
    // one row per suite plus the summed total row
    assert!(md.contains("|One       |     0.5     |   1   |   0   |   0    |   1    |  2  |\n"));
    assert!(md.contains("|Two       |             |   0   |   1   |   0    |   0    |  1  |\n"));
    assert!(md.contains("|**Total** |     N/A     |   1   |   1   |   0    |   1    |  3  |\n"));
    // a single combined failures section in file order
    let failures = md.find("\nFailures\n--------\n").expect("failures header");
    let b = md.find("### b ###").expect("first suite's failure");
    let c = md.find("### c ###").expect("second suite's skip");
    assert!(failures < b && b < c);
    assert!(md.contains("<a id=\"c-0\"/>"));
    assert!(md.contains("<a id=\"c-1\"/>"));
    assert!(!md.contains("c-2"));
}

#[test]
fn aggregated_totals_sum_each_column() {
    let mut s1 = suite("A", 10, Vec::new());
    s1.failures = Some(1);
    s1.errors = Some(2);
    s1.disabled = Some(1);
    s1.skipped = Some(1);
    let mut s2 = suite("B", 4, Vec::new());
    s2.skipped = Some(2);
    let mut md = String::new();
    add_totals_multiple(&mut md, &vec![s1, s2]);
    // success 10-4-1-1=5 and 4-2=2, so 7; skipped 3; disabled 1; failed 3; total 14
    assert!(md.contains("|**Total** |     N/A     |   7   |   3   |   1    |   3    | 14  |\n"));
}

#[test]
fn aggregated_report_without_failures_has_no_failures_section() {
    let s1 = suite("A", 1, vec![pass_case("a")]);
    let md = suites_to_md_mult(vec![s1], brief());
    assert!(!md.contains("\nFailures\n--------\n"));
    assert!(!md.contains("<a id="));
}

#[test]
fn classification_prefers_aggregated_with_suites() {
    let agg = vec![suite("A", 0, Vec::new())];
    let r = classify_document(Some(agg), Err(String::from("unused")));
    match r {
        DocumentClass::Aggregated(suites) => assert_eq!(suites.len(), 1),
        _ => panic!("expected the aggregated classification"),
    }
}

#[test]
fn classification_falls_back_on_empty_aggregate() {
    let r = classify_document(Some(Vec::new()), Ok(suite("S", 0, Vec::new())));
    match r {
        DocumentClass::Singular(s) => assert_eq!(s.name, "S"),
        _ => panic!("expected the singular classification"),
    }
}

#[test]
fn classification_falls_back_on_failed_aggregate() {
    let r = classify_document(None, Ok(suite("S", 0, Vec::new())));
    assert!(matches!(r, DocumentClass::Singular(_)));
}

#[test]
fn classification_surfaces_the_singular_error() {
    let r = classify_document(None, Err(String::from("missing field `name`")));
    match r {
        DocumentClass::Unparsable(e) => assert_eq!(e, "missing field `name`"),
        _ => panic!("expected the unparsable classification"),
    }
}
