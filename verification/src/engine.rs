//! The assertion engine: a per-case state machine that turns the subject's
//! raw answer bytes and the case's assertion mode into an outcome.
//!
//! The machine decodes the answer into a [`Response`]; a decode failure
//! fails the case, never the run. A skip answer yields a skipped outcome
//! whatever the assertion mode. Error-expecting modes pass exactly on their
//! error kind. The JSON mode parses the answer and runs the registered
//! predicate for the case's name. The equivalence mode needs a message
//! codec to render both payloads to canonical text, so the engine returns
//! the pending comparison, and [`resolve_equivalence`] finishes the case
//! from the two rendered texts, diffing them line by line.

use crate::differ::{diff, spec_split_lines, spec_unlines};
use crate::json::{json_parse_of, JsonValue};
use crate::test_case::{AssertBy, TestCase};
use crate::validator::{
    msg_unimplemented, spec_registered, spec_validator_for, spec_violation, Validator,
};
use crate::wire::{
    parse_request_type, parse_response, spec_describe, spec_parse_response, spec_request_type,
    RespModel, Response,
};
use vstd::prelude::*;

verus! {

/// A case's status.
#[derive(PartialEq, Eq, Structural, Clone, Copy, Debug)]
pub enum Case {
    Skipped,
    Failed,
    Passed,
}

/// A case's outcome: its status and its diagnostic lines, in order.
pub struct Outcome {
    pub case: Case,
    pub diagnostics: Vec<String>,
}

/// The mathematical shape of an [`Outcome`].
pub struct OutcomeModel {
    pub case: Case,
    pub diagnostics: Seq<Seq<char>>,
}

impl View for Outcome {
    type V = OutcomeModel;

    open spec fn view(&self) -> OutcomeModel {
        OutcomeModel { case: self.case, diagnostics: self.diagnostics.deep_view() }
    }
}

pub open spec fn om(case: Case, diagnostics: Seq<Seq<char>>) -> OutcomeModel {
    OutcomeModel { case, diagnostics }
}

impl Outcome {
    /// A fresh outcome: failed until judged otherwise, with no diagnostics.
    pub fn new() -> (o: Outcome)
        ensures
            o@ == om(Case::Failed, Seq::<Seq<char>>::empty()),
    {
        let o = Outcome { case: Case::Failed, diagnostics: Vec::new() };
        proof {
            assert(o.diagnostics.deep_view() =~= Seq::<Seq<char>>::empty());
        }
        o
    }

    /// This outcome with its status set.
    pub fn set_case(self, case: Case) -> (o: Outcome)
        ensures
            o@ == om(case, self@.diagnostics),
    {
        Outcome { case, diagnostics: self.diagnostics }
    }

    /// Appends one diagnostic line.
    pub fn add_diagnostic(&mut self, diagnostic: String)
        ensures
            final(self)@ == om(old(self)@.case, old(self)@.diagnostics.push(diagnostic@)),
    {
        let ghost before = self.diagnostics.deep_view();
        self.diagnostics.push(diagnostic);
        proof {
            assert(self.diagnostics.deep_view() =~= before.push(diagnostic@));
        }
    }

    pub fn passed(&self) -> (r: bool)
        ensures
            r == (self.case is Passed),
    {
        match self.case {
            Case::Passed => true,
            _ => false,
        }
    }

    pub fn failed(&self) -> (r: bool)
        ensures
            r == (self.case is Failed),
    {
        match self.case {
            Case::Failed => true,
            _ => false,
        }
    }

    pub fn skipped(&self) -> (r: bool)
        ensures
            r == (self.case is Skipped),
    {
        match self.case {
            Case::Skipped => true,
            _ => false,
        }
    }

    /// The diagnostic lines joined with newlines.
    pub fn text(&self) -> (r: String)
        ensures
            r@ == spec_join_lines(self@.diagnostics),
    {
        let ghost ds = self.diagnostics.deep_view();
        let n = self.diagnostics.len();
        if n == 0 {
            return String::new();
        }
        let mut s: String = self.diagnostics[0].as_str().to_owned();
        let mut i: usize = 1;
        proof {
            assert(ds.take(1).len() == 1);
            assert(ds.take(1)[0] == ds[0]);
            assert(ds[0] == self.diagnostics@[0]@);
            assert(s@ == spec_join_lines(ds.take(1)));
        }
        while i < n
            invariant
                1 <= i <= n,
                n == self.diagnostics@.len(),
                ds == self.diagnostics.deep_view(),
                ds.len() == n,
                s@ == spec_join_lines(ds.take(i as int)),
            decreases n - i,
        {
            s.append("\n");
            s.append(self.diagnostics[i].as_str());
            proof {
                lemma_join_snoc(ds.take(i + 1));
                assert(ds.take(i + 1).drop_last() =~= ds.take(i as int));
                assert(ds.take(i + 1).last() == ds[i as int]);
                assert(ds[i as int] == self.diagnostics@[i as int]@);
            }
            i = i + 1;
        }
        proof {
            assert(ds.take(n as int) =~= ds);
        }
        s
    }
}

proof fn lemma_join_snoc(ds: Seq<Seq<char>>)
    requires
        ds.len() >= 2,
    ensures
        spec_join_lines(ds) == spec_join_lines(ds.drop_last()) + "\n"@ + ds.last(),
    decreases ds.len(),
{
    if ds.len() == 2 {
        assert(ds.drop_first().len() == 1);
        assert(spec_join_lines(ds.drop_first()) == ds[1]);
        assert(ds.drop_last().len() == 1);
        assert(ds.drop_last()[0] == ds[0]);
        assert(spec_join_lines(ds.drop_last()) == ds[0]);
    } else {
        lemma_join_snoc(ds.drop_first());
        assert(ds.drop_last().drop_first() =~= ds.drop_first().drop_last());
        assert(ds.drop_last()[0] == ds[0]);
        assert(ds.drop_last().len() >= 2);
        assert(ds.drop_first().last() == ds.last());
        assert(spec_join_lines(ds.drop_last()) == ds[0] + "\n"@ + spec_join_lines(
            ds.drop_last().drop_first(),
        ));
        assert(spec_join_lines(ds) == ds[0] + "\n"@ + spec_join_lines(ds.drop_first()));
    }
}

/// The diagnostic lines joined with newlines between them.
pub open spec fn spec_join_lines(ds: Seq<Seq<char>>) -> Seq<char>
    decreases ds.len(),
{
    if ds.len() == 0 {
        Seq::empty()
    } else if ds.len() == 1 {
        ds[0]
    } else {
        ds[0] + "\n"@ + spec_join_lines(ds.drop_first())
    }
}

/// The payload form the subject answered with, for rendering.
pub enum PayloadForm {
    /// Encoded message bytes.
    Wire(Vec<u8>),
    /// JSON text.
    Json(String),
}

/// The mathematical shape of a [`PayloadForm`].
pub enum PayloadModel {
    Wire(Seq<u8>),
    Json(Seq<char>),
}

impl View for PayloadForm {
    type V = PayloadModel;

    open spec fn view(&self) -> PayloadModel {
        match self {
            PayloadForm::Wire(b) => PayloadModel::Wire(b@),
            PayloadForm::Json(t) => PayloadModel::Json(t@),
        }
    }
}

/// An equivalence comparison waiting on the outside message codec: both
/// sides must be decoded as the named message type and rendered to canonical
/// text.
pub struct EquivalenceCheck {
    pub message_type: String,
    pub actual: PayloadForm,
    pub expected: Vec<u8>,
}

/// The mathematical shape of an [`EquivalenceCheck`].
pub struct EquivModel {
    pub message_type: Seq<char>,
    pub actual: PayloadModel,
    pub expected: Seq<u8>,
}

impl View for EquivalenceCheck {
    type V = EquivModel;

    open spec fn view(&self) -> EquivModel {
        EquivModel { message_type: self.message_type@, actual: self.actual@, expected: self.expected@ }
    }
}

/// What the engine decides for a case from the answer alone: either the
/// outcome, or an equivalence comparison that still needs the codec's
/// renderings, beside the outcome built so far.
pub enum Verdict {
    Done(Outcome),
    NeedsRender(EquivalenceCheck, Outcome),
}

/// The mathematical shape of a [`Verdict`].
pub enum VerdictModel {
    Done(OutcomeModel),
    NeedsRender(EquivModel, OutcomeModel),
}

impl View for Verdict {
    type V = VerdictModel;

    open spec fn view(&self) -> VerdictModel {
        match self {
            Verdict::Done(o) => VerdictModel::Done(o@),
            Verdict::NeedsRender(eq, o) => VerdictModel::NeedsRender(eq@, o@),
        }
    }
}

/// Whether a response is one of the four error kinds.
pub open spec fn resp_is_err(m: RespModel) -> bool {
    m is ParseError || m is RuntimeError || m is SerializeError || m is TimeoutError
}

/// The JSON-validation branch, from the parsed document on: the registered
/// predicate for the case's name judges it, and its violation text is the
/// diagnostic.
pub open spec fn spec_validate_value(name: Seq<char>, doc: JsonValue) -> VerdictModel {
    match spec_violation(spec_validator_for(name), doc) {
        None => VerdictModel::Done(om(Case::Passed, Seq::empty())),
        Some(msg) => VerdictModel::Done(om(Case::Failed, seq![msg])),
    }
}

/// The JSON-validation branch: the answer must be non-empty JSON text that
/// parses; then the registered predicate judges it.
pub open spec fn spec_validate_branch(name: Seq<char>, resp: RespModel) -> VerdictModel {
    match resp {
        RespModel::JsonPayload(t) => if t.len() == 0 {
            VerdictModel::Done(om(Case::Failed, seq!["expected json payload"@]))
        } else {
            match json_parse_of(t) {
                None => VerdictModel::Done(
                    om(Case::Failed, seq!["failed to parse the response json"@]),
                ),
                Some(doc) => spec_validate_value(name, doc),
            }
        },
        _ => VerdictModel::Done(om(Case::Failed, seq!["expected json payload"@])),
    }
}

/// The engine's decision once the answer is decoded.
pub open spec fn spec_classify_decoded(
    name: Seq<char>,
    assertion: AssertModel,
    payload: Seq<u8>,
    resp: RespModel,
) -> VerdictModel {
    if resp is Skipped {
        VerdictModel::Done(om(Case::Skipped, seq![spec_describe(resp)]))
    } else {
        match assertion {
            AssertModel::Equivalence(expected, _w) => match spec_request_type(payload) {
                None => VerdictModel::Done(om(Case::Failed, seq!["failed to parse request"@])),
                Some(mt) => match resp {
                    RespModel::ProtobufPayload(b) => VerdictModel::NeedsRender(
                        EquivModel { message_type: mt, actual: PayloadModel::Wire(b), expected },
                        om(Case::Failed, Seq::empty()),
                    ),
                    RespModel::JsonPayload(t) => VerdictModel::NeedsRender(
                        EquivModel { message_type: mt, actual: PayloadModel::Json(t), expected },
                        om(Case::Failed, Seq::empty()),
                    ),
                    RespModel::TextPayload(_) => VerdictModel::Done(
                        om(Case::Failed, seq!["text output is not supported."@]),
                    ),
                    RespModel::JspbPayload(_) => VerdictModel::Done(
                        om(Case::Failed, seq!["jspb output is not supported."@]),
                    ),
                    _ => VerdictModel::Done(om(Case::Failed, seq![spec_describe(resp)])),
                },
            },
            AssertModel::ParseError => if resp is ParseError {
                VerdictModel::Done(om(Case::Passed, Seq::empty()))
            } else {
                VerdictModel::Done(
                    om(Case::Failed, seq!["should have failed to parse but didn't."@]),
                )
            },
            AssertModel::SerializationError => if resp is SerializeError {
                VerdictModel::Done(om(Case::Passed, Seq::empty()))
            } else {
                VerdictModel::Done(
                    om(Case::Failed, seq!["should have failed to serialize but didn't."@]),
                )
            },
            AssertModel::Validator => spec_validate_branch(name, resp),
        }
    }
}

/// The mathematical shape of an [`AssertBy`].
pub enum AssertModel {
    Equivalence(Seq<u8>, bool),
    ParseError,
    SerializationError,
    Validator,
}

impl View for AssertBy {
    type V = AssertModel;

    open spec fn view(&self) -> AssertModel {
        match self {
            AssertBy::Equivalence(e, w) => AssertModel::Equivalence(e@, *w),
            AssertBy::ParseError => AssertModel::ParseError,
            AssertBy::SerializationError => AssertModel::SerializationError,
            AssertBy::Validator => AssertModel::Validator,
        }
    }
}

/// The engine's whole decision, from the raw answer bytes.
pub open spec fn spec_classify(
    name: Seq<char>,
    assertion: AssertModel,
    payload: Seq<u8>,
    res: Seq<u8>,
) -> VerdictModel {
    match spec_parse_response(res) {
        None => VerdictModel::Done(om(Case::Failed, seq!["failed to parse response"@])),
        Some(None) => VerdictModel::Done(om(Case::Failed, seq!["response was not set."@])),
        Some(Some(resp)) => spec_classify_decoded(name, assertion, payload, resp),
    }
}

fn fail_with(msg: &str) -> (o: Outcome)
    ensures
        o@ == om(Case::Failed, seq![msg@]),
{
    let mut o = Outcome::new();
    o.add_diagnostic(msg.to_owned());
    proof {
        assert(o@.diagnostics =~= seq![msg@]);
    }
    o
}

fn copy_bytes(v: &Vec<u8>) -> (r: Vec<u8>)
    ensures
        r@ == v@,
{
    let n = v.len();
    let mut r: Vec<u8> = Vec::new();
    let mut i: usize = 0;
    while i < n
        invariant
            i <= n,
            n == v@.len(),
            r@ =~= v@.take(i as int),
        decreases n - i,
    {
        r.push(v[i]);
        i = i + 1;
    }
    proof {
        assert(r@ =~= v@);
    }
    r
}

/// Classifies the subject's raw answer to a case: the outcome, or the
/// equivalence comparison the outside codec must render first.
pub fn classify(case: &TestCase, res: &Vec<u8>) -> (v: Verdict)
    ensures
        v@ == spec_classify(case.name@, case.assertion@, case.payload@, res@),
{
    let resp = match parse_response(res) {
        None => {
            return Verdict::Done(fail_with("failed to parse response"));
        },
        Some(None) => {
            return Verdict::Done(fail_with("response was not set."));
        },
        Some(Some(resp)) => resp,
    };
    if resp.is_skipped() {
        let mut o = Outcome::new();
        o.add_diagnostic(resp.describe());
        proof {
            assert(o@.diagnostics =~= seq![spec_describe(resp@)]);
        }
        return Verdict::Done(o.set_case(Case::Skipped));
    }
    match &case.assertion {
        AssertBy::Equivalence(expected, _w) => {
            let mt = match parse_request_type(&case.payload) {
                None => {
                    return Verdict::Done(fail_with("failed to parse request"));
                },
                Some(mt) => mt,
            };
            if resp.is_err() {
                let mut o = Outcome::new();
                o.add_diagnostic(resp.describe());
                proof {
                    assert(o@.diagnostics =~= seq![spec_describe(resp@)]);
                }
                return Verdict::Done(o);
            }
            match resp {
                Response::ProtobufPayload(b) => Verdict::NeedsRender(
                    EquivalenceCheck {
                        message_type: mt,
                        actual: PayloadForm::Wire(b),
                        expected: copy_bytes(expected),
                    },
                    Outcome::new(),
                ),
                Response::JsonPayload(t) => Verdict::NeedsRender(
                    EquivalenceCheck {
                        message_type: mt,
                        actual: PayloadForm::Json(t),
                        expected: copy_bytes(expected),
                    },
                    Outcome::new(),
                ),
                Response::TextPayload(_) => Verdict::Done(
                    fail_with("text output is not supported."),
                ),
                Response::JspbPayload(_) => Verdict::Done(
                    fail_with("jspb output is not supported."),
                ),
                // error and skip answers already returned above
                _ => Verdict::Done(Outcome::new()),
            }
        },
        AssertBy::ParseError => {
            if resp.is_parse_error() {
                Verdict::Done(Outcome::new().set_case(Case::Passed))
            } else {
                Verdict::Done(fail_with("should have failed to parse but didn't."))
            }
        },
        AssertBy::SerializationError => {
            if resp.is_serialize_error() {
                Verdict::Done(Outcome::new().set_case(Case::Passed))
            } else {
                Verdict::Done(fail_with("should have failed to serialize but didn't."))
            }
        },
        AssertBy::Validator => {
            let t = match &resp {
                Response::JsonPayload(t) => t,
                _ => {
                    return Verdict::Done(fail_with("expected json payload"));
                },
            };
            if t.unicode_len() == 0 {
                return Verdict::Done(fail_with("expected json payload"));
            }
            let doc = match crate::json::parse_json(t.as_str()) {
                None => {
                    return Verdict::Done(fail_with("failed to parse the response json"));
                },
                Some(doc) => doc,
            };
            let validator = Validator::for_case_name(case.name.as_str());
            match validator.check(&doc) {
                Ok(()) => Verdict::Done(Outcome::new().set_case(Case::Passed)),
                Err(msg) => {
                    let mut o = Outcome::new();
                    o.add_diagnostic(msg);
                    proof {
                        assert(o@.diagnostics =~= seq![
                            spec_violation(spec_validator_for(case.name@), doc)->Some_0,
                        ]);
                    }
                    Verdict::Done(o)
                },
            }
        },
    }
}

/// The status an equivalence comparison resolves to, given the two
/// renderings: any decode failure fails it; otherwise it passes exactly when
/// the two texts have the same lines.
pub open spec fn spec_resolve_status(
    actual: Result<Seq<char>, Seq<char>>,
    expected: Result<Seq<char>, Seq<char>>,
) -> Case {
    match actual {
        Err(_) => Case::Failed,
        Ok(at) => match expected {
            Err(_) => Case::Failed,
            Ok(et) => if spec_split_lines(at) == spec_split_lines(et) {
                Case::Passed
            } else {
                Case::Failed
            },
        },
    }
}

/// Finishes an equivalence case from the codec's two renderings: `actual` is
/// the canonical text of the subject's payload, `expected` that of the
/// case's expected bytes, each an `Err` with the decode error's text where
/// decoding failed. The diff of the two texts becomes the final diagnostic;
/// for equal texts it is the text itself, reproduced verbatim line by line.
pub fn resolve_equivalence(
    so_far: Outcome,
    actual: Result<String, String>,
    expected: Result<String, String>,
) -> (r: Outcome)
    requires
        actual matches Ok(t) ==> t@.len() + 2 <= usize::MAX,
        expected matches Ok(t) ==> t@.len() + 2 <= usize::MAX,
    ensures
        r@.case == spec_resolve_status(result_view(&actual), result_view(&expected)),
        r@.diagnostics.len() == so_far@.diagnostics.len() + 1,
        r@.diagnostics.take(so_far@.diagnostics.len() as int) == so_far@.diagnostics,
        actual is Err ==> r@.diagnostics.last() == "failed to decode the response payload: "@
            + actual->Err_0@,
        actual is Ok && expected is Err ==> r@.diagnostics.last()
            == "failed to decode the expected payload: "@ + expected->Err_0@,
        actual is Ok && expected is Ok && spec_split_lines(actual->Ok_0@) == spec_split_lines(
            expected->Ok_0@,
        ) ==> r@.diagnostics.last() == spec_unlines(spec_split_lines(actual->Ok_0@)),
{
    let mut o = so_far;
    let at = match actual {
        Err(e) => {
            let mut msg: String = "failed to decode the response payload: ".to_owned();
            msg.append(e.as_str());
            o.add_diagnostic(msg);
            proof {
                lemma_take_push(o@.diagnostics);
            }
            return o.set_case(Case::Failed);
        },
        Ok(t) => t,
    };
    let et = match expected {
        Err(e) => {
            let mut msg: String = "failed to decode the expected payload: ".to_owned();
            msg.append(e.as_str());
            o.add_diagnostic(msg);
            proof {
                lemma_take_push(o@.diagnostics);
            }
            return o.set_case(Case::Failed);
        },
        Ok(t) => t,
    };
    let (differs, rendered) = diff(at.as_str(), et.as_str());
    o.add_diagnostic(rendered);
    proof {
        lemma_take_push(o@.diagnostics);
    }
    if differs {
        o.set_case(Case::Failed)
    } else {
        o.set_case(Case::Passed)
    }
}

/// The views of a result's strings.
pub open spec fn result_view(r: &Result<String, String>) -> Result<Seq<char>, Seq<char>> {
    match r {
        Ok(t) => Ok(t@),
        Err(e) => Err(e@),
    }
}

proof fn lemma_take_push(ds: Seq<Seq<char>>)
    requires
        ds.len() > 0,
    ensures
        ds.take(ds.len() - 1).push(ds.last()) == ds,
        ds.take(ds.len() - 1) == ds.drop_last(),
{
    assert(ds.take(ds.len() - 1) =~= ds.drop_last());
    assert(ds.take(ds.len() - 1).push(ds.last()) =~= ds);
}

/// The older equivalence-suite result: the diagnostics, and flat flags in
/// place of the status.
pub struct CaseResult {
    pub diagnostics: Vec<String>,
    pub passed: bool,
    pub skipped: bool,
}

/// The mathematical shape of a [`CaseResult`].
pub struct CaseResultModel {
    pub diagnostics: Seq<Seq<char>>,
    pub passed: bool,
    pub skipped: bool,
}

impl View for CaseResult {
    type V = CaseResultModel;

    open spec fn view(&self) -> CaseResultModel {
        CaseResultModel {
            diagnostics: self.diagnostics.deep_view(),
            passed: self.passed,
            skipped: self.skipped,
        }
    }
}

/// The flags an outcome flattens to: a skip counts as not failed.
pub open spec fn case_result_of(o: OutcomeModel) -> CaseResultModel {
    CaseResultModel {
        diagnostics: o.diagnostics,
        passed: o.case is Passed || o.case is Skipped,
        skipped: o.case is Skipped,
    }
}

/// Flattens an outcome to the older result shape.
pub fn outcome_to_case_result(o: Outcome) -> (r: CaseResult)
    ensures
        r@ == case_result_of(o@),
{
    let passed = match o.case {
        Case::Passed => true,
        Case::Skipped => true,
        Case::Failed => false,
    };
    let skipped = match o.case {
        Case::Skipped => true,
        _ => false,
    };
    CaseResult { diagnostics: o.diagnostics, passed, skipped }
}

/// What the engine decides for an equivalence-suite case: the result, or the
/// comparison the codec must render first.
pub enum CaseVerdict {
    Done(CaseResult),
    NeedsRender(EquivalenceCheck, CaseResult),
}

/// The mathematical shape of a [`CaseVerdict`].
pub enum CaseVerdictModel {
    Done(CaseResultModel),
    NeedsRender(EquivModel, CaseResultModel),
}

impl View for CaseVerdict {
    type V = CaseVerdictModel;

    open spec fn view(&self) -> CaseVerdictModel {
        match self {
            CaseVerdict::Done(r) => CaseVerdictModel::Done(r@),
            CaseVerdict::NeedsRender(eq, r) => CaseVerdictModel::NeedsRender(eq@, r@),
        }
    }
}

/// The older entry point's decision, always by equivalence.
pub open spec fn spec_case(
    payload: Seq<u8>,
    equivalent: Seq<u8>,
    same_wire: bool,
    res: Seq<u8>,
) -> CaseVerdictModel {
    match spec_classify(
        Seq::empty(),
        AssertModel::Equivalence(equivalent, same_wire),
        payload,
        res,
    ) {
        VerdictModel::Done(o) => CaseVerdictModel::Done(case_result_of(o)),
        VerdictModel::NeedsRender(eq, o) => CaseVerdictModel::NeedsRender(eq, case_result_of(o)),
    }
}

/// Judges an equivalence-suite case from the subject's raw answer bytes.
pub fn case(c: &crate::case::Case, res: &Vec<u8>) -> (r: CaseVerdict)
    ensures
        r@ == spec_case(c.payload@, c.equivalent@, c.require_same_write_format, res@),
{
    let tc = TestCase {
        name: String::new(),
        level: crate::test_case::Level::Required,
        syntax: String::new(),
        payload: copy_bytes(&c.payload),
        assertion: AssertBy::Equivalence(copy_bytes(&c.equivalent), c.require_same_write_format),
    };
    match classify(&tc, res) {
        Verdict::Done(o) => CaseVerdict::Done(outcome_to_case_result(o)),
        Verdict::NeedsRender(eq, o) => CaseVerdict::NeedsRender(eq, outcome_to_case_result(o)),
    }
}

/// A skip answer yields a skipped outcome, whatever the assertion mode.
pub proof fn lemma_skip_overrides(
    name: Seq<char>,
    assertion: AssertModel,
    payload: Seq<u8>,
    reason: Seq<char>,
)
    ensures
        spec_classify_decoded(name, assertion, payload, RespModel::Skipped(reason))
            matches VerdictModel::Done(o) && o.case is Skipped,
{
}

/// An equivalence case with an encoded-payload answer hands the codec
/// exactly the answer's bytes and the case's expected bytes; when the answer
/// repeats the expected bytes, the two sides of the comparison are the same
/// input, so any deterministic rendering makes them equal.
pub proof fn lemma_equivalence_pending(
    name: Seq<char>,
    payload: Seq<u8>,
    expected: Seq<u8>,
    same_wire: bool,
    answer: Seq<u8>,
)
    requires
        spec_request_type(payload) is Some,
    ensures
        spec_classify_decoded(
            name,
            AssertModel::Equivalence(expected, same_wire),
            payload,
            RespModel::ProtobufPayload(answer),
        ) matches VerdictModel::NeedsRender(eq, o) && eq.actual == PayloadModel::Wire(answer)
            && eq.expected == expected && o.diagnostics.len() == 0,
{
}

/// The same, from the raw bytes on the pipe: an equivalence case whose
/// answer arrives as one encoded payload field hands the codec exactly the
/// answer's bytes and the case's expected bytes.
pub proof fn lemma_equivalence_pending_bytes(
    name: Seq<char>,
    payload: Seq<u8>,
    expected: Seq<u8>,
    same_wire: bool,
    answer: Seq<u8>,
)
    requires
        spec_request_type(payload) is Some,
        answer.len() <= 0xffff_ffff_ffff_ffff,
    ensures
        spec_classify(
            name,
            AssertModel::Equivalence(expected, same_wire),
            payload,
            crate::wire::spec_encode_field(3, answer),
        ) matches VerdictModel::NeedsRender(eq, o) && eq.actual == PayloadModel::Wire(answer)
            && eq.expected == expected && o.diagnostics.len() == 0,
{
    crate::wire::lemma_payload_response_round_trip(answer);
}

/// Equal canonical renderings resolve an equivalence comparison to a pass.
pub proof fn lemma_equal_renders_pass(text: Seq<char>)
    ensures
        spec_resolve_status(Ok(text), Ok(text)) == Case::Passed,
{
}

/// A JSON-validation case whose name has no registered predicate fails, its
/// sole diagnostic exactly the placeholder's violation text, for every
/// parsed document.
pub proof fn lemma_unregistered_validator_fails(name: Seq<char>, doc: JsonValue)
    requires
        !spec_registered(name),
    ensures
        spec_validate_value(name, doc) matches VerdictModel::Done(o) && o.case is Failed
            && o.diagnostics == seq![msg_unimplemented()],
{
    crate::validator::lemma_unimplemented_always_fails(doc);
}

} // verus!
