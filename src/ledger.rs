//! The per-sandbox test ledger and the native bindings that sandboxed
//! code calls to fill it and read it back.
use vstd::prelude::*;

use crate::text::{chars_of, equals_exec};
use crate::json::{bool_text, decimal, json_quoted, push_bool, push_decimal, push_quoted};

verus! {

/// One recorded test case. `error` is present exactly when the case failed.
pub struct TestResult {
    pub name: String,
    pub passed: bool,
    pub error: Option<String>,
    pub duration: u128,
}

impl TestResult {
    /// The error is present exactly when the case failed.
    pub open spec fn wf(&self) -> bool {
        self.passed <==> self.error is None
    }
}

pub open spec fn passed_case(name: String) -> TestResult {
    TestResult { name, passed: true, error: None, duration: 0 }
}

pub open spec fn failed_case(name: String, error: String) -> TestResult {
    TestResult { name, passed: false, error: Some(error), duration: 0 }
}

/// The ledger as a value: the active suite and the results in call order.
pub ghost struct Ledger {
    pub suite: Option<String>,
    pub results: Seq<TestResult>,
}

pub open spec fn empty_ledger() -> Ledger {
    Ledger { suite: None, results: seq![] }
}

/// Test state of one sandbox.
pub struct TestStorage {
    pub current_suite: Option<String>,
    pub test_results: Vec<TestResult>,
}

impl TestStorage {
    /// Every recorded result carries an error exactly when it failed.
    pub open spec fn wf(&self) -> bool {
        forall|i: int| 0 <= i < self.test_results@.len() ==> (#[trigger] self.test_results@[i]).wf()
    }
}

impl View for TestStorage {
    type V = Ledger;

    open spec fn view(&self) -> Ledger {
        Ledger { suite: self.current_suite, results: self.test_results@ }
    }
}

impl Default for TestStorage {
    fn default() -> (r: TestStorage)
        ensures
            r@ == empty_ledger(),
            r.wf(),
    {
        TestStorage { current_suite: None, test_results: Vec::new() }
    }
}

/// A call that sandboxed code makes into the host, one per native binding.
pub enum BindingCall {
    Reset,
    Describe(String),
    ItPassed(String),
    ItFailed(String, String),
    GetResults,
}

/// What a call does to the ledger.
pub open spec fn apply_call(l: Ledger, c: BindingCall) -> Ledger {
    match c {
        BindingCall::Reset => empty_ledger(),
        BindingCall::Describe(name) => Ledger { suite: Some(name), ..l },
        BindingCall::ItPassed(name) => Ledger { results: l.results.push(passed_case(name)), ..l },
        BindingCall::ItFailed(name, error) => Ledger {
            results: l.results.push(failed_case(name, error)),
            ..l
        },
        BindingCall::GetResults => l,
    }
}

/// What a sequence of calls, in order, does to the ledger.
pub open spec fn apply_calls(l: Ledger, cs: Seq<BindingCall>) -> Ledger
    decreases cs.len(),
{
    if cs.len() == 0 {
        l
    } else {
        apply_call(apply_calls(l, cs.drop_last()), cs.last())
    }
}

/// The ledger after a test file whose body makes the calls `cs`: the
/// wrapped source resets the ledger first.
pub open spec fn file_ledger(l: Ledger, cs: Seq<BindingCall>) -> Ledger {
    apply_calls(apply_call(l, BindingCall::Reset), cs)
}

pub open spec fn error_text(e: Option<String>) -> Seq<char> {
    match e {
        Some(t) => json_quoted(t@),
        None => "null"@,
    }
}

/// One result as a JSON object.
pub open spec fn record_text(r: TestResult) -> Seq<char> {
    "{\"name\":"@ + json_quoted(r.name@) + ",\"passed\":"@ + bool_text(r.passed) + ",\"error\":"@
        + error_text(r.error) + ",\"duration\":"@ + decimal(r.duration as nat) + "}"@
}

/// The records, separated by commas.
pub open spec fn records_text(rs: Seq<TestResult>) -> Seq<char>
    decreases rs.len(),
{
    if rs.len() == 0 {
        seq![]
    } else if rs.len() == 1 {
        record_text(rs[0])
    } else {
        records_text(rs.drop_last()) + ","@ + record_text(rs.last())
    }
}

/// The results as a JSON array of records.
pub open spec fn results_text(rs: Seq<TestResult>) -> Seq<char> {
    "["@ + records_text(rs) + "]"@
}

fn push_record(out: &mut String, r: &TestResult)
    ensures
        final(out)@ == old(out)@ + record_text(*r),
{
    out.append("{\"name\":");
    push_quoted(out, r.name.as_str());
    out.append(",\"passed\":");
    push_bool(out, r.passed);
    out.append(",\"error\":");
    match &r.error {
        Some(e) => push_quoted(out, e.as_str()),
        None => out.append("null"),
    }
    out.append(",\"duration\":");
    push_decimal(out, r.duration);
    out.append("}");
    assert(final(out)@ =~= old(out)@ + record_text(*r));
}

/// Encodes results as a JSON array of records, in order.
pub fn encode_results(rs: &Vec<TestResult>) -> (r: String)
    ensures
        r@ == results_text(rs@),
{
    let mut out = String::new();
    out.append("[");
    let mut i: usize = 0;
    while i < rs.len()
        invariant
            i <= rs@.len(),
            out@ == "["@ + records_text(rs@.subrange(0, i as int)),
        decreases rs@.len() - i,
    {
        let ghost prefix = rs@.subrange(0, i + 1);
        assert(prefix.drop_last() =~= rs@.subrange(0, i as int));
        if i > 0 {
            out.append(",");
        } else {
            assert(records_text(rs@.subrange(0, 0)) =~= Seq::<char>::empty());
        }
        push_record(&mut out, &rs[i]);
        assert(out@ =~= "["@ + records_text(prefix));
        i += 1;
    }
    assert(rs@.subrange(0, i as int) =~= rs@);
    out.append("]");
    out
}

/// One host function that the extension registers: its global name and
/// the number of arguments it takes.
pub struct ExtensionOp {
    pub name: String,
    pub arity: usize,
}

/// The extension's fixed table of host functions.
pub struct Extension {
    pub name: String,
    pub ops: Vec<ExtensionOp>,
}

pub open spec fn reset_op() -> Seq<char> {
    "__andromeda_test_reset"@
}

pub open spec fn describe_op() -> Seq<char> {
    "__andromeda_test_describe"@
}

pub open spec fn it_passed_op() -> Seq<char> {
    "__andromeda_test_it_passed"@
}

pub open spec fn it_failed_op() -> Seq<char> {
    "__andromeda_test_it_failed"@
}

pub open spec fn get_results_op() -> Seq<char> {
    "__andromeda_test_get_results"@
}

/// The text of argument `i`; an argument that was not passed reads as
/// `undefined`, as the script engine renders it.
pub open spec fn arg_text(args: Seq<String>, i: int) -> Seq<char> {
    if 0 <= i < args.len() {
        args[i]@
    } else {
        "undefined"@
    }
}

fn arg_string(args: &Vec<String>, i: usize) -> (r: String)
    ensures
        r@ == arg_text(args@, i as int),
{
    if i < args.len() {
        args[i].clone()
    } else {
        let mut s = String::new();
        s.append("undefined");
        s
    }
}

fn op(name: &str, arity: usize) -> (r: ExtensionOp)
    ensures
        r.name@ == name@,
        r.arity == arity,
{
    let mut s = String::new();
    s.append(name);
    ExtensionOp { name: s, arity }
}

/// The native bindings of the test extension.
pub struct TestExt;

impl TestExt {
    /// Sets the active suite; the last call wins.
    pub fn describe(storage: &mut TestStorage, name: String)
        ensures
            final(storage)@ == apply_call(old(storage)@, BindingCall::Describe(name)),
            final(storage).current_suite == Some(name),
            final(storage).test_results@ == old(storage).test_results@,
            old(storage).wf() ==> final(storage).wf(),
    {
        storage.current_suite = Some(name);
    }

    /// Records a passing case.
    pub fn it_passed(storage: &mut TestStorage, name: String)
        ensures
            final(storage)@ == apply_call(old(storage)@, BindingCall::ItPassed(name)),
            final(storage).test_results@ == old(storage).test_results@.push(passed_case(name)),
            final(storage).current_suite == old(storage).current_suite,
            old(storage).wf() ==> final(storage).wf(),
    {
        storage.test_results.push(TestResult { name, passed: true, error: None, duration: 0 });
        assert(storage.test_results@.last().wf());
    }

    /// Records a failing case with its error text, verbatim.
    pub fn it_failed(storage: &mut TestStorage, name: String, error: String)
        ensures
            final(storage)@ == apply_call(old(storage)@, BindingCall::ItFailed(name, error)),
            final(storage).test_results@ == old(storage).test_results@.push(
                failed_case(name, error),
            ),
            final(storage).current_suite == old(storage).current_suite,
            old(storage).wf() ==> final(storage).wf(),
    {
        storage.test_results.push(
            TestResult { name, passed: false, error: Some(error), duration: 0 },
        );
        assert(storage.test_results@.last().wf());
    }

    /// The recorded results, in order, as a JSON array; the suite is left out.
    pub fn get_test_results(storage: &TestStorage) -> (r: String)
        ensures
            r@ == results_text(storage.test_results@),
    {
        encode_results(&storage.test_results)
    }

    /// Clears the ledger: no suite, no results.
    pub fn reset_test_state(storage: &mut TestStorage)
        ensures
            final(storage)@ == apply_call(old(storage)@, BindingCall::Reset),
            final(storage)@ == empty_ledger(),
            final(storage).wf(),
    {
        storage.current_suite = None;
        storage.test_results.clear();
        assert(storage.test_results@ =~= Seq::<TestResult>::empty());
    }

    /// The host functions that sandboxed code reaches, by global name and
    /// arity, one for each call.
    pub fn new_extension() -> (r: Extension)
        ensures
            r.name@ == "test"@,
            r.ops@.len() == 5,
            r.ops@[0].name@ == describe_op() && r.ops@[0].arity == 1,
            r.ops@[1].name@ == it_passed_op() && r.ops@[1].arity == 1,
            r.ops@[2].name@ == it_failed_op() && r.ops@[2].arity == 2,
            r.ops@[3].name@ == get_results_op() && r.ops@[3].arity == 0,
            r.ops@[4].name@ == reset_op() && r.ops@[4].arity == 0,
    {
        let mut name = String::new();
        name.append("test");
        let mut ops: Vec<ExtensionOp> = Vec::new();
        ops.push(op("__andromeda_test_describe", 1));
        ops.push(op("__andromeda_test_it_passed", 1));
        ops.push(op("__andromeda_test_it_failed", 2));
        ops.push(op("__andromeda_test_get_results", 0));
        ops.push(op("__andromeda_test_reset", 0));
        Extension { name, ops }
    }

    /// The call that a host function's name and its arguments' texts stand
    /// for; `None` for a name that is not in the table.
    pub fn binding_call(name: &str, args: &Vec<String>) -> (r: Option<BindingCall>)
        ensures
            name@ == reset_op() ==> r matches Some(BindingCall::Reset),
            name@ == describe_op() ==> (r matches Some(BindingCall::Describe(n)) && n@ == arg_text(
                args@,
                0,
            )),
            name@ == it_passed_op() ==> (r matches Some(BindingCall::ItPassed(n)) && n@ == arg_text(
                args@,
                0,
            )),
            name@ == it_failed_op() ==> (r matches Some(BindingCall::ItFailed(n, e)) && n@
                == arg_text(args@, 0) && e@ == arg_text(args@, 1)),
            name@ == get_results_op() ==> r matches Some(BindingCall::GetResults),
            name@ != reset_op() && name@ != describe_op() && name@ != it_passed_op() && name@
                != it_failed_op() && name@ != get_results_op() ==> r is None,
    {
        let s = chars_of(name);
        proof {
            reveal_strlit("__andromeda_test_reset");
            reveal_strlit("__andromeda_test_describe");
            reveal_strlit("__andromeda_test_it_passed");
            reveal_strlit("__andromeda_test_it_failed");
            reveal_strlit("__andromeda_test_get_results");
            assert(reset_op().len() == 22 && describe_op().len() == 25);
            assert(it_passed_op().len() == 26 && it_failed_op().len() == 26);
            assert(get_results_op().len() == 28);
            assert(it_passed_op()[20] != it_failed_op()[20]);
        }
        if equals_exec(&s, "__andromeda_test_reset") {
            Some(BindingCall::Reset)
        } else if equals_exec(&s, "__andromeda_test_describe") {
            Some(BindingCall::Describe(arg_string(args, 0)))
        } else if equals_exec(&s, "__andromeda_test_it_passed") {
            Some(BindingCall::ItPassed(arg_string(args, 0)))
        } else if equals_exec(&s, "__andromeda_test_it_failed") {
            Some(BindingCall::ItFailed(arg_string(args, 0), arg_string(args, 1)))
        } else if equals_exec(&s, "__andromeda_test_get_results") {
            Some(BindingCall::GetResults)
        } else {
            None
        }
    }

    /// Performs one call against the ledger; `get_results` hands back the
    /// encoded results, the other calls nothing.
    pub fn dispatch(storage: &mut TestStorage, call: BindingCall) -> (r: Option<String>)
        ensures
            final(storage)@ == apply_call(old(storage)@, call),
            call is GetResults ==> r is Some && r->0@ == results_text(old(storage).test_results@),
            !(call is GetResults) ==> r is None,
            old(storage).wf() ==> final(storage).wf(),
    {
        match call {
            BindingCall::Reset => {
                TestExt::reset_test_state(storage);
                None
            },
            BindingCall::Describe(name) => {
                TestExt::describe(storage, name);
                None
            },
            BindingCall::ItPassed(name) => {
                TestExt::it_passed(storage, name);
                None
            },
            BindingCall::ItFailed(name, error) => {
                TestExt::it_failed(storage, name, error);
                None
            },
            BindingCall::GetResults => Some(TestExt::get_test_results(storage)),
        }
    }
}


/// `reset` is idempotent: once or twice, the ledger ends with no suite and
/// no results, whatever it held before.
pub proof fn lemma_reset_idempotent(l: Ledger)
    ensures
        apply_call(l, BindingCall::Reset) == empty_ledger(),
        apply_call(apply_call(l, BindingCall::Reset), BindingCall::Reset) == apply_call(
            l,
            BindingCall::Reset,
        ),
{
}

/// Whether a call records a case.
pub open spec fn records_case(c: BindingCall) -> bool {
    c is ItPassed || c is ItFailed
}

proof fn lemma_passing_calls(l: Ledger, cs: Seq<BindingCall>)
    requires
        forall|i: int| 0 <= i < cs.len() ==> #[trigger] cs[i] is ItPassed,
    ensures
        apply_calls(l, cs).results.len() == l.results.len() + cs.len(),
        forall|i: int|
            0 <= i < l.results.len() ==> apply_calls(l, cs).results[i] == l.results[i],
        forall|i: int|
            0 <= i < cs.len() ==> apply_calls(l, cs).results[l.results.len() + i]
                == passed_case(#[trigger] cs[i]->ItPassed_0),
    decreases cs.len(),
{
    if cs.len() > 0 {
        let rest = cs.drop_last();
        assert forall|i: int| 0 <= i < rest.len() implies #[trigger] rest[i] is ItPassed by {
            assert(rest[i] == cs[i]);
        }
        lemma_passing_calls(l, rest);
        assert forall|i: int| 0 <= i < cs.len() implies apply_calls(l, cs).results[l.results.len()
            + i] == passed_case(#[trigger] cs[i]->ItPassed_0) by {
            if i < rest.len() {
                assert(rest[i] == cs[i]);
            }
        }
    }
}

/// A file whose body only records passing cases yields one entry per call,
/// in call order, each passing with no error.
pub proof fn lemma_passing_file(l: Ledger, cs: Seq<BindingCall>)
    requires
        forall|i: int| 0 <= i < cs.len() ==> #[trigger] cs[i] is ItPassed,
    ensures
        file_ledger(l, cs).results.len() == cs.len(),
        forall|i: int|
            0 <= i < cs.len() ==> file_ledger(l, cs).results[i] == passed_case(
                #[trigger] cs[i]->ItPassed_0,
            ),
        forall|i: int|
            0 <= i < cs.len() ==> (#[trigger] file_ledger(l, cs).results[i]).passed
                && file_ledger(l, cs).results[i].error is None,
{
    lemma_passing_calls(empty_ledger(), cs);
    assert forall|i: int| 0 <= i < cs.len() implies (#[trigger] file_ledger(
        l,
        cs,
    ).results[i]).passed && file_ledger(l, cs).results[i].error is None by {
        assert(file_ledger(l, cs).results[i] == passed_case(cs[i]->ItPassed_0));
    }
}

/// A file whose body records no case yields no entries, whatever the
/// ledger held before the run.
pub proof fn lemma_quiet_file(l: Ledger, cs: Seq<BindingCall>)
    requires
        forall|i: int| 0 <= i < cs.len() ==> !records_case(#[trigger] cs[i]),
    ensures
        file_ledger(l, cs).results.len() == 0,
{
    lemma_quiet_any(empty_ledger(), cs);
}

proof fn lemma_prefix_kept(l: Ledger, cs: Seq<BindingCall>, j: int)
    requires
        0 <= j <= cs.len(),
        forall|k: int| 0 <= k < cs.len() ==> !(#[trigger] cs[k] is Reset),
    ensures
        apply_calls(l, cs.subrange(0, j)).results.len() <= apply_calls(l, cs).results.len(),
        forall|k: int|
            0 <= k < apply_calls(l, cs.subrange(0, j)).results.len() ==> apply_calls(
                l,
                cs.subrange(0, j),
            ).results[k] == #[trigger] apply_calls(l, cs).results[k],
    decreases cs.len(),
{
    if j == cs.len() {
        assert(cs.subrange(0, j) =~= cs);
    } else {
        let rest = cs.drop_last();
        assert forall|k: int| 0 <= k < rest.len() implies !(#[trigger] rest[k] is Reset) by {
            assert(rest[k] == cs[k]);
        }
        assert(rest.subrange(0, j) =~= cs.subrange(0, j));
        lemma_prefix_kept(l, rest, j);
        assert(!(cs[cs.len() - 1] is Reset));
    }
}

/// A failing case keeps its error verbatim: for a file whose body makes
/// `it_failed(name, error)` and does not reset the ledger itself, the
/// harvested results hold that entry, failing, with that very error.
pub proof fn lemma_failing_file(l: Ledger, cs: Seq<BindingCall>, i: int)
    requires
        0 <= i < cs.len(),
        cs[i] is ItFailed,
        forall|k: int| 0 <= k < cs.len() ==> !(#[trigger] cs[k] is Reset),
    ensures
        exists|k: int|
            0 <= k < file_ledger(l, cs).results.len() && #[trigger] file_ledger(l, cs).results[k]
                == failed_case(cs[i]->ItFailed_0, cs[i]->ItFailed_1),
{
    let e = empty_ledger();
    let pre = cs.subrange(0, i + 1);
    assert(pre.drop_last() =~= cs.subrange(0, i));
    assert(pre.last() == cs[i]);
    lemma_prefix_kept(e, cs, i + 1);
    let k = apply_calls(e, pre).results.len() - 1;
    assert(file_ledger(l, cs).results[k] == failed_case(cs[i]->ItFailed_0, cs[i]->ItFailed_1));
}

proof fn lemma_quiet_any(l: Ledger, cs: Seq<BindingCall>)
    requires
        l.results.len() == 0,
        forall|i: int| 0 <= i < cs.len() ==> !records_case(#[trigger] cs[i]),
    ensures
        apply_calls(l, cs).results.len() == 0,
    decreases cs.len(),
{
    if cs.len() > 0 {
        let rest = cs.drop_last();
        assert forall|i: int| 0 <= i < rest.len() implies !records_case(#[trigger] rest[i]) by {
            assert(rest[i] == cs[i]);
        }
        lemma_quiet_any(l, rest);
        assert(!records_case(cs[cs.len() - 1]));
    }
}

} // verus!
