//! Group-by execution around the kernels: everything up to the first dispatch,
//! the choice of what to dispatch next, and the encoding of the result.

use vstd::prelude::*;

use crate::error::{outcome, Failure, Fault};
use crate::text;
use crate::text::quoted;
use crate::udf::common::{columns_of, read_columns, Column, ColumnWording};
use crate::udf::groupby_agg::{
    any_expression, build_value_column, decide_groupby_dispatch, execute_peragg,
    find_value_columns, fused_column_complaint, has_expression, is_request, requests_fault,
    takes_fused, value_columns_of, AggRequest, GroupByDispatchChoice, ValueColumn, ValueDtype,
};
use crate::udf::groupby_encode::{
    agg_encoding, encode_agg_output, encode_decoded_column, key_encoding, AggOutput, DecodedColumn,
    Encoded,
};
use crate::udf::groupby_keys::{build_key_columns, key_columns_outcome, KeyColumn};
use crate::udf::groupby_plan::{
    parse_groupby_plan, plan_outcome, ParseFault, ParsedAgg, ParsedGroupByPlan, ParsedKey,
};
use crate::wire::{WireDict, WireValue};

verus! {

/// How group-by words its complaints about column tuples.
pub open spec fn wording() -> ColumnWording {
    ColumnWording {
        lead: "polars_metal: execute_groupby ",
        not_tuple: " must be a tuple",
        arity: " must have 4 elements (name, dtype, data, valid), got ",
        names_column: false,
    }
}

/// A group-by that is ready to be dispatched.
pub struct GroupByRun<'a> {
    pub plan: ParsedGroupByPlan,
    pub n_rows: usize,
    pub columns: Vec<Column<'a>>,
    pub keys: Vec<KeyColumn<'a>>,
}

/// The key columns cannot be built, for the reason `e`.
pub open spec fn keys_refused(cols: Seq<Column>, keys: Seq<ParsedKey>, rows: usize, e: Fault) -> bool {
    key_columns_outcome(cols, keys, rows, Err(e))
}

/// The key columns can be built.
pub open spec fn keys_built(cols: Seq<Column>, keys: Seq<ParsedKey>, rows: usize) -> bool {
    exists|ks: Seq<KeyColumn>| key_columns_outcome(cols, keys, rows, Ok(ks))
}

/// What stops a group-by whose plan is `plan`, in the order in which it is
/// looked at: the column tuples, the key columns, the value columns.
pub open spec fn request_refused(
    plan: ParsedGroupByPlan,
    columns: Seq<WireValue>,
    rows: usize,
    e: Fault,
) -> bool {
    match columns_of(wording(), columns, columns.len() as int) {
        Err(f) => e == f,
        Ok(cols) => {
            ||| keys_refused(cols, plan.keys@, rows, e)
            ||| keys_built(cols, plan.keys@, rows) && value_columns_of(cols, plan.aggs@) == Err::<
                Seq<Column>,
                Fault,
            >(e)
        },
    }
}

/// The group-by is stopped by its plan, for the reason `f`.
pub open spec fn plan_refused(plan: WireDict, f: ParseFault) -> bool {
    plan_outcome(plan, Err(f))
}

/// The group-by is stopped before anything is dispatched, for the reason `e`.
pub open spec fn refused(
    plan: WireDict,
    columns: Seq<WireValue>,
    rows: usize,
    e: Fault,
) -> bool {
    ||| exists|f: ParseFault| #[trigger]
        plan_refused(plan, f) && e == Fault::Value(
            "polars_metal: plan parse error: "@ + f.message(),
        )
    ||| exists|p: ParsedGroupByPlan| #[trigger]
        plan_outcome(plan, Ok(p)) && request_refused(p, columns, rows, e)
}

/// The run that a request leads to.
pub open spec fn ready<'a>(
    plan: WireDict,
    columns: Seq<WireValue<'a>>,
    rows: usize,
    run: GroupByRun<'a>,
) -> bool {
    &&& plan_outcome(plan, Ok(run.plan))
    &&& run.n_rows == rows
    &&& columns_of(wording(), columns, columns.len() as int) == Ok::<Seq<Column<'a>>, Fault>(
        run.columns@,
    )
    &&& key_columns_outcome(run.columns@, run.plan.keys@, rows, Ok(run.keys@))
    &&& value_columns_of(run.columns@, run.plan.aggs@) is Ok
}

/// Interprets a group-by request: a plan, the number of rows, and one tuple of
/// name, type tag, data and validity per column.
pub fn execute_groupby<'a>(plan: &WireDict, n_rows: usize, columns: &Vec<WireValue<'a>>) -> (r:
    Result<GroupByRun<'a>, Failure>)
    ensures
        match r {
            Ok(run) => ready(*plan, columns@, n_rows, run),
            Err(e) => refused(*plan, columns@, n_rows, e@),
        },
{
    let parsed: ParsedGroupByPlan = match parse_groupby_plan(plan) {
        Ok(p) => p,
        Err(f) => {
            let mut out: String = "polars_metal: plan parse error: ".to_owned();
            let detail: String = f.message();
            out.append(detail.as_str());
            assert(plan_refused(*plan, f@));
            return Err(Failure::Value(out));
        },
    };
    let w: ColumnWording = ColumnWording {
        lead: "polars_metal: execute_groupby ",
        not_tuple: " must be a tuple",
        arity: " must have 4 elements (name, dtype, data, valid), got ",
        names_column: false,
    };
    let cols: Vec<Column<'a>> = match read_columns(&w, columns) {
        Ok(c) => c,
        Err(e) => {
            assert(request_refused(parsed, columns@, n_rows, e@));
            return Err(e);
        },
    };
    let keys: Vec<KeyColumn<'a>> = match build_key_columns(&cols, &parsed.keys, n_rows) {
        Ok(k) => k,
        Err(e) => {
            assert(keys_refused(cols@, parsed.keys@, n_rows, e@));
            assert(request_refused(parsed, columns@, n_rows, e@));
            return Err(e);
        },
    };
    match find_value_columns(&cols, &parsed.aggs) {
        Ok(_) => {},
        Err(e) => {
            assert(keys_built(cols@, parsed.keys@, n_rows));
            assert(request_refused(parsed, columns@, n_rows, e@));
            return Err(e);
        },
    }
    Ok(GroupByRun { plan: parsed, n_rows, columns: cols, keys })
}

/// What came of a dispatch of the fused kernel. Its refusals are carried by
/// their texts.
#[derive(Debug)]
pub enum FusedOutcome {
    Done,
    TooManyGroups(String),
    Failed(String),
}

/// What has happened to a run.
#[derive(Debug)]
pub enum GroupByEvent {
    /// Nothing yet.
    Ready,
    /// The fused kernel was dispatched.
    Fused(FusedOutcome),
    /// One kernel per aggregation was dispatched.
    PerAgg,
    /// The dispatch of one kernel per aggregation failed with this text.
    PerAggFailed(String),
}

/// What is to be done next in a run.
pub enum GroupByAction<'a> {
    /// Dispatch the fused kernel on these value columns.
    DispatchFused(Vec<NamedValues<'a>>),
    /// Dispatch these requests, one kernel each.
    DispatchPerAgg(Vec<(AggRequest, ValueColumn<'a>)>),
    /// Encode the result of the last dispatch.
    Encode,
}

/// What follows a dispatch of the fused kernel.
#[derive(Debug, Clone, Copy, PartialEq, Eq, Structural)]
pub enum AfterFused {
    UseResult,
    RunPerAgg,
}

/// The failure of the fused path.
pub open spec fn fused_failure(text: Seq<char>) -> Fault {
    Fault::Value("polars_metal: fused groupby dispatch: "@ + text)
}

fn raise_fused(text: &str) -> (r: Failure)
    ensures
        r@ == fused_failure(text@),
{
    let mut out: String = "polars_metal: fused groupby dispatch: ".to_owned();
    out.append(text);
    Failure::Value(out)
}

/// A value column of the fused kernel with its name.
pub struct NamedValues<'a> {
    pub name: String,
    pub column: ValueColumn<'a>,
}

/// The complaint of the fused path about a value column.
pub open spec fn fused_column_fault(c: Column, rows: nat) -> Option<Fault> {
    match fused_column_complaint(c.tag@, c.data@.len(), rows) {
        None => None,
        Some(why) => Some(
            Fault::Value(
                "polars_metal: fused groupby — value column "@ + quoted(c.name@) + ": "@ + why,
            ),
        ),
    }
}

/// The first complaint about the first `n` value columns.
pub open spec fn fused_columns_fault(cols: Seq<Column>, rows: nat, n: int) -> Option<Fault>
    decreases n,
{
    if n <= 0 {
        None
    } else {
        match fused_columns_fault(cols, rows, n - 1) {
            Some(e) => Some(e),
            None => fused_column_fault(cols[n - 1], rows),
        }
    }
}

proof fn lemma_fused_fault_kept(cols: Seq<Column>, rows: nat, n: int, m: int)
    requires
        0 <= n <= m,
        fused_columns_fault(cols, rows, n) is Some,
    ensures
        fused_columns_fault(cols, rows, m) == fused_columns_fault(cols, rows, n),
    decreases m,
{
    if n < m {
        lemma_fused_fault_kept(cols, rows, n, m - 1);
    }
}

/// The column as the fused kernel takes it.
pub open spec fn is_fused_column(c: Column, rows: nat, v: NamedValues) -> bool {
    &&& v.name == c.name
    &&& v.column.views(
        if c.tag@ == "I32"@ {
            ValueDtype::I32
        } else {
            ValueDtype::F32
        },
        c.data@,
        c.valid@,
        rows,
    )
}

/// The value columns that the fused kernel is given, or why it is not
/// dispatched.
pub open spec fn fused_columns_outcome(
    cols: Seq<Column>,
    rows: nat,
    r: Result<Seq<NamedValues>, Fault>,
) -> bool {
    match r {
        Err(e) => fused_columns_fault(cols, rows, cols.len() as int) == Some(e),
        Ok(v) => {
            &&& fused_columns_fault(cols, rows, cols.len() as int) is None
            &&& v.len() == cols.len()
            &&& forall|i: int| 0 <= i < v.len() ==> is_fused_column(cols[i], rows, #[trigger] v[i])
        },
    }
}

impl<'a> GroupByRun<'a> {
    /// The value columns of the run.
    pub open spec fn value_columns(self) -> Result<Seq<Column<'a>>, Fault> {
        value_columns_of(self.columns@, self.plan.aggs@)
    }

    /// The kernel path to try first.
    pub fn first_choice(&self) -> (r: GroupByDispatchChoice)
        ensures
            r == (if takes_fused(self.columns@, self.plan.aggs@) {
                GroupByDispatchChoice::Fused
            } else {
                GroupByDispatchChoice::PerAgg
            }),
    {
        decide_groupby_dispatch(&self.plan.aggs, &self.columns)
    }

    /// The value columns for the fused kernel.
    pub fn fused_columns(&self) -> (r: Result<Vec<NamedValues<'a>>, Failure>)
        requires
            self.value_columns() is Ok,
        ensures
            match r {
                Ok(v) => fused_columns_outcome(
                    self.value_columns()->Ok_0,
                    self.n_rows as nat,
                    Ok(v@),
                ),
                Err(e) => fused_columns_outcome(
                    self.value_columns()->Ok_0,
                    self.n_rows as nat,
                    Err(e@),
                ),
            },
    {
        let found: Vec<&Column<'a>> = match find_value_columns(&self.columns, &self.plan.aggs) {
            Ok(v) => v,
            Err(e) => return Err(e),
        };
        let ghost cols = self.value_columns()->Ok_0;
        let ghost rows = self.n_rows as nat;
        let mut out: Vec<NamedValues<'a>> = Vec::new();
        let mut i: usize = 0;
        while i < found.len()
            invariant
                i <= found@.len(),
                cols == self.value_columns()->Ok_0,
                rows == self.n_rows as nat,
                cols.len() == found@.len(),
                forall|j: int| 0 <= j < found@.len() ==> *(#[trigger] found@[j]) == cols[j],
                out@.len() == i,
                fused_columns_fault(cols, rows, i as int) is None,
                forall|j: int| 0 <= j < i ==> is_fused_column(cols[j], rows, #[trigger] out@[j]),
            decreases found@.len() - i,
        {
            let c: &Column<'a> = found[i];
            assert(*c == cols[i as int]);
            match build_value_column(c.tag.as_str(), c.data, c.valid, self.n_rows) {
                Ok(column) => {
                    out.push(NamedValues { name: c.name.clone(), column });
                },
                Err(why) => {
                    let mut message: String = "polars_metal: fused groupby — value column ".to_owned();
                    text::push_quoted(&mut message, c.name.as_str());
                    message.append(": ");
                    message.append(why.as_str());
                    proof {
                        lemma_fused_fault_kept(cols, rows, i + 1, cols.len() as int);
                    }
                    return Err(Failure::Value(message));
                },
            }
            i = i + 1;
        }
        Ok(out)
    }

    /// What follows a dispatch of the fused kernel: its result is used; or,
    /// when it met more groups than it holds, one kernel per aggregation is
    /// run, unless an inline expression needs the fused kernel; or the failure
    /// is raised.
    pub fn after_fused(&self, outcome: &FusedOutcome) -> (r: Result<AfterFused, Failure>)
        ensures
            match *outcome {
                FusedOutcome::Done => r == Ok::<AfterFused, Failure>(AfterFused::UseResult),
                FusedOutcome::TooManyGroups(text) => if has_expression(self.plan.aggs@) {
                    r matches Err(e) && e@ == fused_failure(text@)
                } else {
                    r == Ok::<AfterFused, Failure>(AfterFused::RunPerAgg)
                },
                FusedOutcome::Failed(text) => r matches Err(e) && e@ == fused_failure(text@),
            },
    {
        match outcome {
            FusedOutcome::Done => Ok(AfterFused::UseResult),
            FusedOutcome::TooManyGroups(text) => if any_expression(&self.plan.aggs) {
                Err(raise_fused(text.as_str()))
            } else {
                Ok(AfterFused::RunPerAgg)
            },
            FusedOutcome::Failed(text) => Err(raise_fused(text.as_str())),
        }
    }

    /// The requests of the path with one kernel per aggregation.
    pub fn peragg_requests(&self) -> (r: Result<Vec<(AggRequest, ValueColumn<'a>)>, Failure>)
        ensures
            match r {
                Ok(v) => {
                    &&& requests_fault(
                        self.columns@,
                        self.plan.aggs@,
                        self.n_rows as nat,
                        self.plan.aggs@.len() as int,
                    ) is None
                    &&& v@.len() == self.plan.aggs@.len()
                    &&& forall|i: int|
                        0 <= i < v@.len() ==> is_request(
                            self.columns@,
                            self.plan.aggs@[i],
                            self.n_rows as nat,
                            i,
                            #[trigger] v@[i],
                        )
                },
                Err(e) => requests_fault(
                    self.columns@,
                    self.plan.aggs@,
                    self.n_rows as nat,
                    self.plan.aggs@.len() as int,
                ) == Some(e@),
            },
    {
        execute_peragg(&self.columns, &self.plan.aggs, self.n_rows)
    }
}

/// The requests of a run are dispatched one kernel each, or the run fails on
/// them.
pub open spec fn peragg_follows(
    run: GroupByRun,
    r: Result<GroupByAction, Fault>,
) -> bool {
    match requests_fault(
        run.columns@,
        run.plan.aggs@,
        run.n_rows as nat,
        run.plan.aggs@.len() as int,
    ) {
        Some(e) => r == Err::<GroupByAction, Fault>(e),
        None => r matches Ok(GroupByAction::DispatchPerAgg(v)) && v@.len() == run.plan.aggs@.len()
            && forall|i: int|
            0 <= i < v@.len() ==> is_request(
                run.columns@,
                run.plan.aggs@[i],
                run.n_rows as nat,
                i,
                #[trigger] v@[i],
            ),
    }
}

/// The fused kernel is dispatched, or the run fails on its columns.
pub open spec fn fused_follows(run: GroupByRun, r: Result<GroupByAction, Fault>) -> bool {
    match r {
        Ok(GroupByAction::DispatchFused(v)) => fused_columns_outcome(
            run.value_columns()->Ok_0,
            run.n_rows as nat,
            Ok(v@),
        ),
        Ok(_) => false,
        Err(e) => fused_columns_outcome(run.value_columns()->Ok_0, run.n_rows as nat, Err(e)),
    }
}

/// What an event leads to.
pub open spec fn step_outcome(
    run: GroupByRun,
    event: GroupByEvent,
    r: Result<GroupByAction, Fault>,
) -> bool {
    match event {
        GroupByEvent::Ready => if takes_fused(run.columns@, run.plan.aggs@) {
            fused_follows(run, r)
        } else {
            peragg_follows(run, r)
        },
        GroupByEvent::Fused(FusedOutcome::Done) => r matches Ok(a) && a is Encode,
        GroupByEvent::Fused(FusedOutcome::TooManyGroups(text)) => if has_expression(
            run.plan.aggs@,
        ) {
            r == Err::<GroupByAction, Fault>(fused_failure(text@))
        } else {
            peragg_follows(run, r)
        },
        GroupByEvent::Fused(FusedOutcome::Failed(text)) => r == Err::<GroupByAction, Fault>(
            fused_failure(text@),
        ),
        GroupByEvent::PerAgg => r matches Ok(a) && a is Encode,
        GroupByEvent::PerAggFailed(text) => r == Err::<GroupByAction, Fault>(
            Fault::Value("polars_metal: dispatch_groupby failed: "@ + text@),
        ),
    }
}

impl<'a> GroupByRun<'a> {
    /// What is to be done next, given what has happened.
    pub fn step(&self, event: &GroupByEvent) -> (r: Result<GroupByAction<'a>, Failure>)
        requires
            self.value_columns() is Ok,
        ensures
            step_outcome(*self, *event, outcome(r)),
    {
        let per_agg: bool = match event {
            GroupByEvent::Ready => match self.first_choice() {
                GroupByDispatchChoice::Fused => {
                    return match self.fused_columns() {
                        Ok(v) => Ok(GroupByAction::DispatchFused(v)),
                        Err(e) => Err(e),
                    };
                },
                GroupByDispatchChoice::PerAgg => true,
            },
            GroupByEvent::Fused(o) => match self.after_fused(o) {
                Ok(AfterFused::UseResult) => false,
                Ok(AfterFused::RunPerAgg) => true,
                Err(e) => return Err(e),
            },
            GroupByEvent::PerAgg => false,
            GroupByEvent::PerAggFailed(text) => {
                let mut out: String = "polars_metal: dispatch_groupby failed: ".to_owned();
                out.append(text.as_str());
                return Err(Failure::Value(out));
            },
        };
        if per_agg {
            match self.peragg_requests() {
                Ok(v) => Ok(GroupByAction::DispatchPerAgg(v)),
                Err(e) => Err(e),
            }
        } else {
            Ok(GroupByAction::Encode)
        }
    }
}

impl<'a> GroupByAction<'a> {
    /// Something is to be dispatched.
    pub open spec fn dispatches(self) -> bool {
        self !is Encode
    }
}

/// A run dispatches at most twice: the fused kernel is dispatched only at the
/// start, and after one kernel per aggregation, whatever came of it, nothing
/// is dispatched any more.
pub proof fn a_run_dispatches_at_most_twice(
    run: GroupByRun,
    event: GroupByEvent,
    r: Result<GroupByAction, Fault>,
)
    requires
        step_outcome(run, event, r),
    ensures
        r matches Ok(a) ==> a is DispatchFused ==> event is Ready,
        event is PerAgg || event is PerAggFailed ==> !(r matches Ok(a) && a.dispatches()),
{
}

/// A column of the answer.
pub struct OutputColumn {
    pub name: String,
    pub encoded: Encoded,
}

/// The answer of a group-by: the key columns in plan order, then the
/// aggregations in plan order under their aliases.
pub open spec fn is_answer(
    plan: ParsedGroupByPlan,
    decoded_keys: Seq<DecodedColumn>,
    agg_outputs: Seq<AggOutput>,
    out: Seq<OutputColumn>,
) -> bool {
    let k = plan.keys@.len() as int;
    &&& out.len() == k + plan.aggs@.len()
    &&& forall|i: int|
        0 <= i < k ==> (#[trigger] out[i]).name == plan.keys@[i].name && key_encoding(
            decoded_keys[i],
            out[i].encoded,
        )
    &&& forall|i: int|
        k <= i < out.len() ==> (#[trigger] out[i]).name@ == plan.aggs@[i - k].alias()@
            && agg_encoding(agg_outputs[i - k], out[i].encoded)
}

/// Encodes the result of a group-by. There must be a decoded column for every
/// key and an output for every aggregation.
pub fn encode_groupby_result(
    plan: &ParsedGroupByPlan,
    decoded_keys: &Vec<DecodedColumn>,
    agg_outputs: &Vec<AggOutput>,
) -> (out: Vec<OutputColumn>)
    requires
        plan.keys@.len() <= decoded_keys@.len(),
        plan.aggs@.len() <= agg_outputs@.len(),
    ensures
        is_answer(*plan, decoded_keys@, agg_outputs@, out@),
{
    let mut out: Vec<OutputColumn> = Vec::new();
    let mut i: usize = 0;
    while i < plan.keys.len()
        invariant
            i <= plan.keys@.len() <= decoded_keys@.len(),
            out@.len() == i,
            forall|j: int|
                0 <= j < i ==> (#[trigger] out@[j]).name == plan.keys@[j].name && key_encoding(
                    decoded_keys@[j],
                    out@[j].encoded,
                ),
        decreases plan.keys@.len() - i,
    {
        let encoded: Encoded = encode_decoded_column(&decoded_keys[i]);
        out.push(OutputColumn { name: plan.keys[i].name.clone(), encoded });
        i = i + 1;
    }
    let ghost k = plan.keys@.len() as int;
    let mut i: usize = 0;
    while i < plan.aggs.len()
        invariant
            i <= plan.aggs@.len() <= agg_outputs@.len(),
            k == plan.keys@.len(),
            out@.len() == k + i,
            forall|j: int|
                0 <= j < k ==> (#[trigger] out@[j]).name == plan.keys@[j].name && key_encoding(
                    decoded_keys@[j],
                    out@[j].encoded,
                ),
            forall|j: int|
                k <= j < k + i ==> (#[trigger] out@[j]).name@ == plan.aggs@[j - k].alias()@
                    && agg_encoding(agg_outputs@[j - k], out@[j].encoded),
        decreases plan.aggs@.len() - i,
    {
        let encoded: Encoded = encode_agg_output(&agg_outputs[i]);
        out.push(OutputColumn { name: plan.aggs[i].output_alias().to_owned(), encoded });
        i = i + 1;
    }
    out
}

/// An aggregation over an inline expression is never handed to the path with
/// one kernel per aggregation: building its requests fails.
pub proof fn expressions_have_no_peragg_requests(
    cols: Seq<Column>,
    aggs: Seq<ParsedAgg>,
    rows: nat,
    i: int,
)
    requires
        0 <= i < aggs.len(),
        aggs[i] is Expression,
    ensures
        requests_fault(cols, aggs, rows, aggs.len() as int) is Some,
{
    lemma_fault_by(cols, aggs, rows, i, aggs.len() as int);
}

/// A run with an inline expression never asks for one kernel per aggregation,
/// whatever has happened.
pub proof fn expressions_never_run_per_agg(
    run: GroupByRun,
    event: GroupByEvent,
    r: Result<GroupByAction, Fault>,
)
    requires
        has_expression(run.plan.aggs@),
        step_outcome(run, event, r),
    ensures
        !(r matches Ok(a) && a is DispatchPerAgg),
{
    let aggs = run.plan.aggs@;
    let i = choose|i: int| 0 <= i < aggs.len() && #[trigger] aggs[i] is Expression;
    expressions_have_no_peragg_requests(run.columns@, aggs, run.n_rows as nat, i);
}

proof fn lemma_fault_by(cols: Seq<Column>, aggs: Seq<ParsedAgg>, rows: nat, i: int, n: int)
    requires
        0 <= i < n <= aggs.len(),
        aggs[i] is Expression,
    ensures
        requests_fault(cols, aggs, rows, n) is Some,
    decreases n,
{
    if i < n - 1 {
        lemma_fault_by(cols, aggs, rows, i, n - 1);
    }
}

} // verus!
