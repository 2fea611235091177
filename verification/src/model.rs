//! The report data model: a test suite, its test cases and their
//! negative outcomes, plus the rules that classify an input document
//! as a single suite or an aggregated set of suites.
//!
//! All entities are immutable value trees built once from the parsed
//! input and consumed by the renderer. Optional fields reflect the
//! looseness of real-world report producers; a missing count stands
//! for zero. The declared `tests` count is expected to cover the
//! negative counts but that is not enforced: an over-counted suite
//! yields a negative derived "successful" value, which is rendered as
//! it is rather than treated as a crash condition.

use vstd::prelude::*;

verus! {

/// A named group of test cases with aggregate counts and optional
/// timing, host and property metadata.
pub struct TestSuite {
    pub name: String,
    pub tests: u64,
    pub id: Option<String>,
    pub package: Option<String>,
    pub failures: Option<u64>,
    pub disabled: Option<u64>,
    pub skipped: Option<u64>,
    pub errors: Option<u64>,
    pub time: Option<String>,
    pub timestamp: Option<String>,
    pub hostname: Option<String>,
    /// Properties of a certain test suite, common for all tests inside
    pub properties: Option<TestProperties>,
    pub outputs: TestOutputs,
    /// Test cases that this test suite consists of
    pub testcases: Vec<TestCase>,
}

/// Captured standard streams of a suite or a test case.
pub struct TestOutputs {
    pub system_out: Option<String>,
    pub system_err: Option<String>,
}

/// The key-value properties of a suite, order-preserving; keys may
/// repeat.
pub struct TestProperties {
    pub properties: Vec<TestProperty>,
}

/// One key-value property of a suite.
pub struct TestProperty {
    pub name: String,
    pub value: String,
}

/// One test case: its name, optional metadata, captured outputs, and
/// any negative results attached to it. Execution time is an opaque
/// string, preserved verbatim for display. A case may structurally
/// carry several errors or failures; rendering only ever surfaces the
/// first of each kind.
pub struct TestCase {
    pub name: String,
    pub assertions: Option<String>,
    pub time: Option<String>,
    pub classname: Option<String>,
    pub status: Option<String>,
    pub outputs: Option<TestOutputs>,
    pub skipped: Option<TestNegativeResult>,
    pub errors: Vec<TestNegativeResult>,
    pub failures: Vec<TestNegativeResult>,
}

/// A non-passing outcome: an optional free-text message, an optional
/// type label, and an optional long-form body (trace or reason).
pub struct TestNegativeResult {
    pub error_type: Option<String>,
    pub message: Option<String>,
    pub body: Option<String>,
}

/// The renderer's configuration, set once per invocation and never
/// mutated: verbose reports add host/property details and captured
/// standard streams.
#[derive(Clone, Copy)]
pub struct RenderOptions {
    pub verbose: bool,
}

/// What an input document turned out to be: an aggregated multi-suite
/// document, a single suite, or unparsable with the underlying
/// structural error message.
pub enum DocumentClass {
    Aggregated(Vec<TestSuite>),
    Singular(TestSuite),
    Unparsable(String),
}

/// An optional count, a missing one standing for zero.
pub open spec fn count_or_zero(c: Option<u64>) -> int {
    match c {
        Some(n) => n as int,
        None => 0,
    }
}

/// The suite's skipped-test count.
pub open spec fn skipped_count(s: TestSuite) -> int {
    count_or_zero(s.skipped)
}

/// The suite's disabled-test count.
pub open spec fn disabled_count(s: TestSuite) -> int {
    count_or_zero(s.disabled)
}

/// The suite's failed-test count: failures and errors together.
pub open spec fn failed_count(s: TestSuite) -> int {
    count_or_zero(s.failures) + count_or_zero(s.errors)
}

/// The suite's derived successful-test count: what the declared total
/// leaves after the negative counts. May be negative when the suite
/// over-counts; that is rendered as it is.
pub open spec fn success_count(s: TestSuite) -> int {
    s.tests - failed_count(s) - disabled_count(s) - skipped_count(s)
}

/// The integer percentage `part * 100 / total`, truncating toward
/// zero. A total of zero yields 0 instead of a division by zero.
pub open spec fn percentage(part: int, total: int) -> int {
    if total == 0 {
        0
    } else if part >= 0 {
        (part * 100) / total
    } else {
        -((-part * 100) / total)
    }
}

/// Whether the case carries any negative result and so is not a pass.
pub open spec fn is_negative_case(t: TestCase) -> bool {
    t.errors@.len() > 0 || t.failures@.len() > 0 || t.skipped is Some
}

/// The negative result rendering surfaces for the case: the first
/// error if any, else the first failure, else the skip marker.
pub open spec fn first_negative(t: TestCase) -> TestNegativeResult
    recommends
        is_negative_case(t),
{
    if t.errors@.len() > 0 {
        t.errors@[0]
    } else if t.failures@.len() > 0 {
        t.failures@[0]
    } else {
        t.skipped->Some_0
    }
}

/// The four status-table counts always partition the declared total:
/// skipped, disabled, failed and the derived successful count sum to
/// exactly `tests`.
pub proof fn lemma_status_counts_sum(s: TestSuite)
    ensures
        skipped_count(s) + disabled_count(s) + failed_count(s) + success_count(s) == s.tests,
{
}

/// How a document is classified, trying the aggregated shape first: an
/// aggregated parse with at least one suite wins; an aggregated parse
/// with none, or a failed one, falls back to the singular parse; when
/// that failed too the document is unparsable, with the singular
/// parse's structural error.
pub open spec fn classify_spec(
    aggregated: Option<Vec<TestSuite>>,
    singular: Result<TestSuite, String>,
) -> DocumentClass {
    match aggregated {
        Some(suites) => if suites@.len() > 0 {
            DocumentClass::Aggregated(suites)
        } else {
            singular_fallback(singular)
        },
        None => singular_fallback(singular),
    }
}

/// The singular fallback of document classification.
pub open spec fn singular_fallback(singular: Result<TestSuite, String>) -> DocumentClass {
    match singular {
        Ok(suite) => DocumentClass::Singular(suite),
        Err(e) => DocumentClass::Unparsable(e),
    }
}

/// Classifies a document from the two parse attempts: the outcome of
/// interpreting it as the aggregated multi-suite shape (`None` when
/// that failed structurally), and the outcome of interpreting it as a
/// singular suite, carrying the structural error message when that
/// failed too.
pub fn classify_document(
    aggregated: Option<Vec<TestSuite>>,
    singular: Result<TestSuite, String>,
) -> (r: DocumentClass)
    ensures
        r == classify_spec(aggregated, singular),
{
    match aggregated {
        Some(suites) => {
            if suites.len() > 0 {
                DocumentClass::Aggregated(suites)
            } else {
                match singular {
                    Ok(suite) => DocumentClass::Singular(suite),
                    Err(e) => DocumentClass::Unparsable(e),
                }
            }
        },
        None => {
            match singular {
                Ok(suite) => DocumentClass::Singular(suite),
                Err(e) => DocumentClass::Unparsable(e),
            }
        },
    }
}

} // verus!
