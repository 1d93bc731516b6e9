//! What holds of every closed trace and its two exported forms.

use crate::inspector::InstructionResult;
use crate::primitives::{Address, U256};
use crate::tracing::geth::{call_frame_of, CallFrameView};
use crate::tracing::model::{frame_wf, linked_down, linked_up, tree_wf, CompletedView};
use crate::tracing::parity::{
    selfdestruct_trace_of, trace_of, ActionView, TraceOutputView, TransactionTraceView,
};
use crate::tracing::types::FrameView;
use vstd::prelude::*;

verus! {

/// What both exported forms say of a frame: where it stands, whether it is a
/// create, who called whom with what value, gas and input, and how it failed.
pub struct FrameSummary {
    pub trace_address: Seq<usize>,
    pub is_create: bool,
    pub from: Address,
    pub to: Option<Address>,
    pub value: U256,
    pub gas: u64,
    pub input: Seq<u8>,
    pub error: Option<InstructionResult>,
}

/// Whether a record of the flat form is the record of a frame, not that of a
/// self-destruct or a reward.
pub open spec fn is_frame_record(record: TransactionTraceView) -> bool {
    record.action is Call || record.action is Create
}

/// What a frame's record in the flat form says of the frame.
pub open spec fn summary_of_record(record: TransactionTraceView) -> FrameSummary {
    match record.action {
        ActionView::Call { from, call_type, gas, input, to, value } => FrameSummary {
            trace_address: record.trace_address,
            is_create: false,
            from,
            to: Some(to),
            value,
            gas,
            input,
            error: record.error,
        },
        ActionView::Create { from, gas, init, value } => FrameSummary {
            trace_address: record.trace_address,
            is_create: true,
            from,
            to: match record.result {
                Some(TraceOutputView::Create { address, code, gas_used }) => Some(address),
                _ => None,
            },
            value,
            gas,
            input: init,
            error: record.error,
        },
        _ => arbitrary(),
    }
}

/// What the records of frames among `records` say, in the order of the
/// records.
pub open spec fn frame_summaries(records: Seq<TransactionTraceView>) -> Seq<FrameSummary>
    decreases records.len(),
{
    if records.len() == 0 {
        Seq::empty()
    } else if is_frame_record(records.last()) {
        frame_summaries(records.drop_last()).push(summary_of_record(records.last()))
    } else {
        frame_summaries(records.drop_last())
    }
}

/// What a frame of the nested form, found at `path` below the root, says of
/// the frame. A value that is absent stands for zero.
pub open spec fn summary_of_frame(frame: CallFrameView, path: Seq<usize>) -> FrameSummary {
    FrameSummary {
        trace_address: path,
        is_create: frame.typ.is_any_create(),
        from: frame.from,
        to: frame.to,
        value: match frame.value {
            Some(value) => value,
            None => U256::from_u64(0),
        },
        gas: frame.gas,
        input: frame.input,
        error: frame.error,
    }
}

/// What a nested frame and the frames inside it say, in pre-order, where the
/// frame is found at `path` and its `k`-th inner frame at `path` with `k`
/// appended.
pub open spec fn nested_summaries(frame: CallFrameView, path: Seq<usize>) -> Seq<FrameSummary>
    decreases frame, 0int,
{
    seq![summary_of_frame(frame, path)] + calls_summaries(frame.calls, path, frame.calls.len() as int)
}

/// What the first `k` of the frames `calls`, found below `path`, and the
/// frames inside them say.
pub open spec fn calls_summaries(calls: Seq<CallFrameView>, path: Seq<usize>, k: int) -> Seq<
    FrameSummary,
>
    decreases calls, k,
{
    if 0 < k <= calls.len() {
        calls_summaries(calls, path, k - 1) + nested_summaries(
            calls[k - 1],
            path.push((k - 1) as usize),
        )
    } else {
        Seq::empty()
    }
}

/// The summaries of two lists of records, one after the other, are those of
/// the lists joined.
proof fn lemma_frame_summaries_add(a: Seq<TransactionTraceView>, b: Seq<TransactionTraceView>)
    ensures
        frame_summaries(a + b) == frame_summaries(a) + frame_summaries(b),
    decreases b.len(),
{
    if b.len() == 0 {
        assert(a + b =~= a);
        assert(frame_summaries(a) + frame_summaries(b) =~= frame_summaries(a));
    } else {
        lemma_frame_summaries_add(a, b.drop_last());
        assert((a + b).drop_last() =~= a + b.drop_last());
        assert((a + b).last() == b.last());
        if is_frame_record(b.last()) {
            assert(frame_summaries(a + b) =~= frame_summaries(a) + frame_summaries(b));
        } else {
            assert(frame_summaries(a + b) =~= frame_summaries(a) + frame_summaries(b));
        }
    }
}

/// The nested frames of the first `k` children are those of the children, one
/// for each.
proof fn lemma_nested_children(trace: CompletedView, i: int, k: int)
    requires
        trace.wf(),
        0 <= i < trace.frames.len(),
        0 <= k <= trace.frames[i].children.len(),
    ensures
        trace.nested_children(i, k).len() == k,
        forall|j: int|
            0 <= j < k ==> #[trigger] trace.nested_children(i, k)[j] == trace.nested_from(
                trace.frames[i].children[j] as int,
            ),
    decreases k,
{
    if k > 0 {
        lemma_nested_children(trace, i, k - 1);
        assert(linked_down(trace.frames, i, k - 1));
    }
}

/// Of a frame, its record in the flat form and its frame in the nested form
/// say the same.
proof fn lemma_summaries_agree(frame: FrameView, gas_used: u64, calls: Seq<CallFrameView>)
    requires
        frame_wf(frame),
    ensures
        is_frame_record(trace_of(frame, gas_used)),
        summary_of_record(trace_of(frame, gas_used)) == summary_of_frame(
            call_frame_of(frame, gas_used, calls),
            frame.trace_address,
        ),
        !is_frame_record(selfdestruct_trace_of(frame)),
{
}

/// From frame `i` down, the flat form and the nested form say the same of the
/// same frames in the same order.
proof fn lemma_agree_from(trace: CompletedView, i: int)
    requires
        trace.wf(),
        0 <= i < trace.frames.len(),
    ensures
        frame_summaries(trace.flat_from(i)) == nested_summaries(
            trace.nested_from(i),
            trace.frames[i].trace_address,
        ),
    decreases trace.frames.len() - i, trace.frames[i].children.len() + 1,
{
    let frame = trace.frames[i];
    let m = frame.children.len() as int;
    let calls = trace.nested_children(i, m);
    lemma_nested_children(trace, i, m);
    lemma_agree_children(trace, i, m);
    lemma_summaries_agree(frame, trace.gas_used(i), calls);
    lemma_frame_summaries_add(trace.records_of(i), trace.flat_children(i, m));
    let own = trace_of(frame, trace.gas_used(i));
    lemma_frame_summaries_one(own);
    if frame.selfdestruct is Some {
        let both = seq![own, selfdestruct_trace_of(frame)];
        assert(both.drop_last() =~= seq![own]);
        assert(frame_summaries(both) =~= seq![summary_of_record(own)]);
    }
}

/// A single record of a frame has a single summary.
proof fn lemma_frame_summaries_one(record: TransactionTraceView)
    requires
        is_frame_record(record),
    ensures
        frame_summaries(seq![record]) == seq![summary_of_record(record)],
{
    let one = seq![record];
    assert(one.drop_last() =~= Seq::<TransactionTraceView>::empty());
    assert(frame_summaries(one.drop_last()) =~= Seq::<FrameSummary>::empty());
    assert(one.last() == record);
    assert(frame_summaries(one) =~= seq![summary_of_record(record)]);
}

/// For the first `k` children of frame `i`, the flat form and the nested form
/// say the same of the same frames in the same order.
proof fn lemma_agree_children(trace: CompletedView, i: int, k: int)
    requires
        trace.wf(),
        0 <= i < trace.frames.len(),
        0 <= k <= trace.frames[i].children.len(),
    ensures
        frame_summaries(trace.flat_children(i, k)) == calls_summaries(
            trace.nested_children(i, trace.frames[i].children.len() as int),
            trace.frames[i].trace_address,
            k,
        ),
    decreases trace.frames.len() - i, k,
{
    let m = trace.frames[i].children.len() as int;
    let calls = trace.nested_children(i, m);
    lemma_nested_children(trace, i, m);
    if k > 0 {
        let child = trace.frames[i].children[k - 1] as int;
        assert(linked_down(trace.frames, i, k - 1));
        lemma_agree_children(trace, i, k - 1);
        lemma_agree_from(trace, child);
        lemma_frame_summaries_add(trace.flat_children(i, k - 1), trace.flat_from(child));
        assert(calls[k - 1] == trace.nested_from(child));
    } else {
        assert(frame_summaries(trace.flat_children(i, k)) =~= Seq::<FrameSummary>::empty());
    }
}

/// The two exported forms of a closed trace tell of the same frames: read in
/// order, the records of frames in the flat form and the frames of the
/// nested form, taken in pre-order, agree on path, kind, caller, target,
/// value, gas, input and error.
pub proof fn lemma_exports_agree(trace: CompletedView)
    requires
        trace.wf(),
    ensures
        frame_summaries(trace.flat()) == nested_summaries(trace.nested(), Seq::empty()),
{
    lemma_agree_from(trace, 0);
}

/// The flat form and the nested form of a closed trace hold the same number
/// of frames, the records of self-destructs left aside, and the same paths
/// in the same order.
pub proof fn lemma_same_frames(trace: CompletedView)
    requires
        trace.wf(),
    ensures
        frame_summaries(trace.flat()).len() == nested_summaries(trace.nested(), Seq::empty()).len(),
        forall|j: int|
            0 <= j < frame_summaries(trace.flat()).len() ==> (#[trigger] frame_summaries(
                trace.flat(),
            )[j]).trace_address == nested_summaries(trace.nested(), Seq::empty())[j].trace_address,
{
    lemma_exports_agree(trace);
}

/// Whether `part` stands in `whole` from place `at` on.
pub open spec fn occurs_at(
    whole: Seq<TransactionTraceView>,
    part: Seq<TransactionTraceView>,
    at: int,
) -> bool {
    &&& 0 <= at
    &&& at + part.len() <= whole.len()
    &&& forall|j: int| 0 <= j < part.len() ==> whole[at + j] == #[trigger] part[j]
}

/// The records of the first `k` children open those of the first `m`.
proof fn lemma_children_prefix(trace: CompletedView, i: int, k: int, m: int)
    requires
        trace.wf(),
        0 <= i < trace.frames.len(),
        0 <= k <= m <= trace.frames[i].children.len(),
    ensures
        occurs_at(trace.flat_children(i, m), trace.flat_children(i, k), 0),
    decreases m,
{
    if k < m {
        lemma_children_prefix(trace, i, k, m - 1);
        assert(linked_down(trace.frames, i, m - 1));
    }
}

/// The records of a frame's `k`-th child stand in the frame's records, after
/// its own and those of the children before.
proof fn lemma_child_position(trace: CompletedView, i: int, k: int)
    requires
        trace.wf(),
        0 <= i < trace.frames.len(),
        0 <= k < trace.frames[i].children.len(),
    ensures
        occurs_at(
            trace.flat_from(i),
            trace.flat_from(trace.frames[i].children[k] as int),
            (trace.records_of(i).len() + trace.flat_children(i, k).len()) as int,
        ),
{
    let m = trace.frames[i].children.len() as int;
    let child = trace.frames[i].children[k] as int;
    assert(linked_down(trace.frames, i, k));
    lemma_children_prefix(trace, i, k + 1, m);
    let upto = trace.flat_children(i, k + 1);
    let before = trace.flat_children(i, k);
    assert(upto == before + trace.flat_from(child));
    assert forall|j: int| 0 <= j < trace.flat_from(child).len() implies trace.flat_from(
        i,
    )[trace.records_of(i).len() + before.len() + j] == #[trigger] trace.flat_from(child)[j] by {
        assert(upto[before.len() + j] == trace.flat_from(child)[j]);
        assert(trace.flat_children(i, m)[0 + (before.len() + j)] == upto[before.len() + j]);
    }
}

/// Where the records of frame `i` and of the frames below it stand in the
/// flat form.
proof fn lemma_position(trace: CompletedView, i: int) -> (at: int)
    requires
        trace.wf(),
        0 <= i < trace.frames.len(),
    ensures
        occurs_at(trace.flat(), trace.flat_from(i), at),
    decreases i,
{
    if i == 0 {
        0
    } else {
        assert(linked_up(trace.frames, i));
        let p = trace.frames[i].parent->0 as int;
        let k = trace.frames[i].trace_address.last() as int;
        let above = lemma_position(trace, p);
        lemma_child_position(trace, p, k);
        let inside = trace.records_of(p).len() + trace.flat_children(p, k).len();
        assert forall|j: int| 0 <= j < trace.flat_from(i).len() implies trace.flat()[above + inside
            + j] == #[trigger] trace.flat_from(i)[j] by {
            assert(trace.flat_from(p)[inside + j] == trace.flat_from(i)[j]);
            assert(trace.flat()[above + (inside + j)] == trace.flat_from(p)[inside + j]);
        }
        above + inside
    }
}

/// Every frame of the trace has its record in the flat form, and the record
/// states the frame's path and the number of its children. Returns the place
/// of the record.
pub proof fn lemma_frame_present(trace: CompletedView, i: int) -> (at: int)
    requires
        trace.wf(),
        0 <= i < trace.frames.len(),
    ensures
        0 <= at < trace.flat().len(),
        trace.flat()[at] == trace_of(trace.frames[i], trace.gas_used(i)),
        trace.flat()[at].trace_address == trace.frames[i].trace_address,
        trace.flat()[at].subtraces == trace.frames[i].children.len(),
{
    let at = lemma_position(trace, i);
    let part = trace.flat_from(i);
    let own = trace_of(trace.frames[i], trace.gas_used(i));
    assert(part.len() > 0 && part[0] == own) by {
        let records = trace.records_of(i);
        let below = trace.flat_children(i, trace.frames[i].children.len() as int);
        assert(part == records + below);
        assert(records.len() > 0 && records[0] == own);
    }
    assert(trace.flat()[at + 0] == part[0]);
    assert(own.subtraces == trace.frames[i].children.len()) by {
        assert(frame_wf(trace.frames[i]));
    }
    at
}

/// A frame that recorded a self-destruct has its record in the flat form, and
/// right after it stands the record of the self-destruct, with the same path.
/// Returns the place of the frame's record.
pub proof fn lemma_selfdestruct_companion(trace: CompletedView, i: int) -> (at: int)
    requires
        trace.wf(),
        0 <= i < trace.frames.len(),
        trace.frames[i].selfdestruct is Some,
    ensures
        0 <= at,
        at + 1 < trace.flat().len(),
        trace.flat()[at] == trace_of(trace.frames[i], trace.gas_used(i)),
        is_frame_record(trace.flat()[at]),
        trace.flat()[at + 1] == selfdestruct_trace_of(trace.frames[i]),
        trace.flat()[at + 1].action is Selfdestruct,
        trace.flat()[at + 1].trace_address == trace.flat()[at].trace_address,
{
    let at = lemma_position(trace, i);
    let part = trace.flat_from(i);
    let own = trace_of(trace.frames[i], trace.gas_used(i));
    let companion = selfdestruct_trace_of(trace.frames[i]);
    assert(part.len() > 1 && part[0] == own && part[1] == companion) by {
        let records = trace.records_of(i);
        let below = trace.flat_children(i, trace.frames[i].children.len() as int);
        assert(part == records + below);
        assert(records.len() == 2 && records[0] == own && records[1] == companion);
    }
    assert(trace.flat()[at + 0] == part[0]);
    assert(trace.flat()[at + 1] == part[1]);
    at
}

/// Whether the record at place `j` of `records` comes from frame `m`: it is
/// the frame's own record, or the record of its self-destruct and stands
/// right after the frame's own.
pub open spec fn comes_from(
    trace: CompletedView,
    records: Seq<TransactionTraceView>,
    j: int,
    m: int,
) -> bool {
    &&& 0 <= m < trace.frames.len()
    &&& {
        ||| records[j] == trace_of(trace.frames[m], trace.gas_used(m))
        ||| {
            &&& trace.frames[m].selfdestruct is Some
            &&& j > 0
            &&& records[j] == selfdestruct_trace_of(trace.frames[m])
            &&& records[j - 1] == trace_of(trace.frames[m], trace.gas_used(m))
        }
    }
}

/// The frame that a record among those of frame `i` and the frames below it
/// comes from.
proof fn lemma_source_from(trace: CompletedView, i: int, j: int) -> (m: int)
    requires
        trace.wf(),
        0 <= i < trace.frames.len(),
        0 <= j < trace.flat_from(i).len(),
    ensures
        comes_from(trace, trace.flat_from(i), j, m),
    decreases trace.frames.len() - i, trace.frames[i].children.len() + 1,
{
    let own = trace.records_of(i);
    let below = trace.flat_children(i, trace.frames[i].children.len() as int);
    if j < own.len() {
        i
    } else {
        let m = lemma_source_children(trace, i, trace.frames[i].children.len() as int, j - own.len());
        assert(trace.flat_from(i)[j] == below[j - own.len()]);
        if j - own.len() > 0 {
            assert(trace.flat_from(i)[j - 1] == below[j - own.len() - 1]);
        }
        m
    }
}

/// The frame that a record among those of the first `k` children of frame `i`
/// and the frames below them comes from.
proof fn lemma_source_children(trace: CompletedView, i: int, k: int, j: int) -> (m: int)
    requires
        trace.wf(),
        0 <= i < trace.frames.len(),
        0 <= k <= trace.frames[i].children.len(),
        0 <= j < trace.flat_children(i, k).len(),
    ensures
        comes_from(trace, trace.flat_children(i, k), j, m),
    decreases trace.frames.len() - i, k,
{
    let before = trace.flat_children(i, k - 1);
    let child = trace.frames[i].children[k - 1] as int;
    assert(linked_down(trace.frames, i, k - 1));
    if j < before.len() {
        let m = lemma_source_children(trace, i, k - 1, j);
        m
    } else {
        let m = lemma_source_from(trace, child, j - before.len());
        let part = trace.flat_from(child);
        assert(trace.flat_children(i, k)[j] == part[j - before.len()]);
        if j - before.len() > 0 {
            assert(trace.flat_children(i, k)[j - 1] == part[j - before.len() - 1]);
        }
        m
    }
}

/// Every record of the flat form comes from a frame of the trace: it is a
/// frame's own record, or the record of a frame's self-destruct, and then it
/// stands right after the frame's own record and has the same path. Returns
/// the frame.
pub proof fn lemma_record_source(trace: CompletedView, j: int) -> (m: int)
    requires
        trace.wf(),
        0 <= j < trace.flat().len(),
    ensures
        comes_from(trace, trace.flat(), j, m),
        trace.flat()[j].action is Selfdestruct ==> j > 0 && is_frame_record(trace.flat()[j - 1])
            && trace.flat()[j - 1].trace_address == trace.flat()[j].trace_address,
        !(trace.flat()[j].action is Reward),
{
    lemma_source_from(trace, 0, j)
}

/// Whether `path` goes through `prefix`.
pub open spec fn has_prefix(path: Seq<usize>, prefix: Seq<usize>) -> bool {
    prefix.len() <= path.len() && path.subrange(0, prefix.len() as int) == prefix
}

/// Whether a record is that of a frame called by the frame at `path`.
pub open spec fn is_child_record(record: TransactionTraceView, path: Seq<usize>) -> bool {
    &&& is_frame_record(record)
    &&& record.trace_address.len() == path.len() + 1
    &&& record.trace_address.drop_last() == path
}

/// The number of records among `records` of frames called by the frame at
/// `path`.
pub open spec fn child_count(records: Seq<TransactionTraceView>, path: Seq<usize>) -> nat
    decreases records.len(),
{
    if records.len() == 0 {
        0
    } else if is_child_record(records.last(), path) {
        child_count(records.drop_last(), path) + 1
    } else {
        child_count(records.drop_last(), path)
    }
}

/// The count over two lists joined is the sum of the counts.
proof fn lemma_child_count_add(
    a: Seq<TransactionTraceView>,
    b: Seq<TransactionTraceView>,
    path: Seq<usize>,
)
    ensures
        child_count(a + b, path) == child_count(a, path) + child_count(b, path),
    decreases b.len(),
{
    if b.len() == 0 {
        assert(a + b =~= a);
    } else {
        lemma_child_count_add(a, b.drop_last(), path);
        assert((a + b).drop_last() =~= a + b.drop_last());
        assert((a + b).last() == b.last());
    }
}

/// Where no record is that of a child, the count is zero.
proof fn lemma_child_count_none(records: Seq<TransactionTraceView>, path: Seq<usize>)
    requires
        forall|j: int| 0 <= j < records.len() ==> !is_child_record(#[trigger] records[j], path),
    ensures
        child_count(records, path) == 0,
    decreases records.len(),
{
    if records.len() > 0 {
        assert(!is_child_record(records[records.len() - 1], path));
        assert forall|j: int| 0 <= j < records.drop_last().len() implies !is_child_record(
            #[trigger] records.drop_last()[j],
            path,
        ) by {
            assert(records.drop_last()[j] == records[j]);
        }
        lemma_child_count_none(records.drop_last(), path);
    }
}

/// Every record of frame `i` and the frames below it has a path through that
/// of frame `i`.
proof fn lemma_below_from(trace: CompletedView, i: int)
    requires
        trace.wf(),
        0 <= i < trace.frames.len(),
    ensures
        forall|j: int|
            0 <= j < trace.flat_from(i).len() ==> has_prefix(
                (#[trigger] trace.flat_from(i)[j]).trace_address,
                trace.frames[i].trace_address,
            ),
    decreases trace.frames.len() - i, trace.frames[i].children.len() + 1,
{
    let path = trace.frames[i].trace_address;
    let m = trace.frames[i].children.len() as int;
    lemma_below_children(trace, i, m);
    assert(path.subrange(0, path.len() as int) =~= path);
    assert forall|j: int| 0 <= j < trace.flat_from(i).len() implies has_prefix(
        (#[trigger] trace.flat_from(i)[j]).trace_address,
        path,
    ) by {
        let own = trace.records_of(i);
        if j >= own.len() {
            assert(trace.flat_from(i)[j] == trace.flat_children(i, m)[j - own.len()]);
        }
    }
}

/// Every record of the children of frame `i` and the frames below them has a
/// path that goes through that of frame `i` and on.
proof fn lemma_below_children(trace: CompletedView, i: int, k: int)
    requires
        trace.wf(),
        0 <= i < trace.frames.len(),
        0 <= k <= trace.frames[i].children.len(),
    ensures
        forall|j: int|
            0 <= j < trace.flat_children(i, k).len() ==> has_prefix(
                (#[trigger] trace.flat_children(i, k)[j]).trace_address,
                trace.frames[i].trace_address,
            ) && trace.flat_children(i, k)[j].trace_address.len()
                > trace.frames[i].trace_address.len(),
    decreases trace.frames.len() - i, k,
{
    if k > 0 {
        let path = trace.frames[i].trace_address;
        let before = trace.flat_children(i, k - 1);
        let child = trace.frames[i].children[k - 1] as int;
        assert(linked_down(trace.frames, i, k - 1));
        lemma_below_children(trace, i, k - 1);
        lemma_below_from(trace, child);
        let part = trace.flat_from(child);
        assert forall|j: int| 0 <= j < trace.flat_children(i, k).len() implies has_prefix(
            (#[trigger] trace.flat_children(i, k)[j]).trace_address,
            path,
        ) && trace.flat_children(i, k)[j].trace_address.len() > path.len() by {
            if j >= before.len() {
                let record = part[j - before.len()];
                assert(trace.flat_children(i, k)[j] == record);
                assert(has_prefix(record.trace_address, trace.frames[child].trace_address));
                let deeper = trace.frames[child].trace_address;
                assert(deeper == path.push((k - 1) as usize));
                assert(record.trace_address.subrange(0, path.len() as int)
                    =~= record.trace_address.subrange(0, deeper.len() as int).subrange(
                    0,
                    path.len() as int,
                ));
                assert(deeper.subrange(0, path.len() as int) =~= path);
            } else {
                assert(trace.flat_children(i, k)[j] == before[j]);
            }
        }
    }
}

/// The records of a frame itself hold no record of a frame called by the
/// frame at `path`, unless the frame itself is one.
proof fn lemma_own_count(trace: CompletedView, i: int, path: Seq<usize>)
    requires
        trace.wf(),
        0 <= i < trace.frames.len(),
    ensures
        child_count(trace.records_of(i), path) == (if is_child_record(
            trace_of(trace.frames[i], trace.gas_used(i)),
            path,
        ) {
            1nat
        } else {
            0nat
        }),
{
    let own = trace_of(trace.frames[i], trace.gas_used(i));
    let one = seq![own];
    assert(one.drop_last() =~= Seq::<TransactionTraceView>::empty());
    assert(child_count(one.drop_last(), path) == 0);
    assert(one.last() == own);
    assert(child_count(one, path) == (if is_child_record(own, path) {
        1nat
    } else {
        0nat
    }));
    if trace.frames[i].selfdestruct is Some {
        let both = seq![own, selfdestruct_trace_of(trace.frames[i])];
        assert(both.drop_last() =~= one);
        assert(!is_child_record(both.last(), path));
        assert(child_count(both, path) == child_count(one, path));
        assert(trace.records_of(i) == both);
    } else {
        assert(trace.records_of(i) == one);
    }
}

/// Among the records of the first `k` children of frame `i` and the frames
/// below them, `k` are records of frames that frame `i` called.
proof fn lemma_children_counted(trace: CompletedView, i: int, k: int)
    requires
        trace.wf(),
        0 <= i < trace.frames.len(),
        0 <= k <= trace.frames[i].children.len(),
    ensures
        child_count(trace.flat_children(i, k), trace.frames[i].trace_address) == k,
    decreases k,
{
    if k > 0 {
        let path = trace.frames[i].trace_address;
        let child = trace.frames[i].children[k - 1] as int;
        assert(linked_down(trace.frames, i, k - 1));
        lemma_children_counted(trace, i, k - 1);
        lemma_child_count_add(trace.flat_children(i, k - 1), trace.flat_from(child), path);
        let deeper = trace.frames[child].trace_address;
        assert(deeper.drop_last() =~= path);
        let m = trace.frames[child].children.len() as int;
        lemma_own_count(trace, child, path);
        lemma_below_children(trace, child, m);
        lemma_child_count_none(trace.flat_children(child, m), path);
        lemma_child_count_add(trace.records_of(child), trace.flat_children(child, m), path);
    }
}

/// Among the records of the first `k` children of frame `p`, those of frames
/// called by a frame at or below the child at place `through` are all among
/// the records of that child.
proof fn lemma_step_children(trace: CompletedView, p: int, through: int, k: int, path: Seq<usize>)
    requires
        trace.wf(),
        0 <= p < trace.frames.len(),
        0 <= through < trace.frames[p].children.len(),
        0 <= k <= trace.frames[p].children.len(),
        has_prefix(path, trace.frames[p].trace_address.push(through as usize)),
    ensures
        child_count(trace.flat_children(p, k), path) == (if k > through {
            child_count(trace.flat_from(trace.frames[p].children[through] as int), path)
        } else {
            0nat
        }),
    decreases k,
{
    if k > 0 {
        let above = trace.frames[p].trace_address;
        let child = trace.frames[p].children[k - 1] as int;
        assert(linked_down(trace.frames, p, k - 1));
        lemma_step_children(trace, p, through, k - 1, path);
        lemma_child_count_add(trace.flat_children(p, k - 1), trace.flat_from(child), path);
        if k - 1 != through {
            lemma_below_from(trace, child);
            let part = trace.flat_from(child);
            let side = above.push((k - 1) as usize);
            let main = above.push(through as usize);
            assert forall|j: int| 0 <= j < part.len() implies !is_child_record(
                #[trigger] part[j],
                path,
            ) by {
                let address = part[j].trace_address;
                if is_child_record(part[j], path) {
                    assert(has_prefix(address, side));
                    assert(address.subrange(0, side.len() as int)[above.len() as int]
                        == side[above.len() as int]);
                    assert(path.subrange(0, main.len() as int)[above.len() as int]
                        == main[above.len() as int]);
                    assert(address.drop_last()[above.len() as int] == address[above.len() as int]);
                    assert(false);
                }
            }
            lemma_child_count_none(part, path);
        }
    }
}

/// Going up by one frame changes nothing: the records of frames called by a
/// frame at or below frame `i` are as many among the records of the parent
/// of `i` as among those of `i`.
proof fn lemma_step(trace: CompletedView, i: int, path: Seq<usize>)
    requires
        trace.wf(),
        0 < i < trace.frames.len(),
        has_prefix(path, trace.frames[i].trace_address),
    ensures
        trace.frames[i].parent is Some,
        child_count(trace.flat_from(trace.frames[i].parent->0 as int), path) == child_count(
            trace.flat_from(i),
            path,
        ),
{
    assert(linked_up(trace.frames, i));
    let p = trace.frames[i].parent->0 as int;
    let through = trace.frames[i].trace_address.last() as int;
    assert(linked_down(trace.frames, p, through));
    let m = trace.frames[p].children.len() as int;
    lemma_step_children(trace, p, through, m, path);
    lemma_own_count(trace, p, path);
    lemma_child_count_add(trace.records_of(p), trace.flat_children(p, m), path);
}

/// From frame `i` up to the root, the count of the records of frames called
/// by frame `m` stays what it is among the records of frame `i`.
proof fn lemma_counted_up(trace: CompletedView, m: int, i: int)
    requires
        trace.wf(),
        0 <= m < trace.frames.len(),
        0 <= i < trace.frames.len(),
        has_prefix(trace.frames[m].trace_address, trace.frames[i].trace_address),
    ensures
        child_count(trace.flat(), trace.frames[m].trace_address) == child_count(
            trace.flat_from(i),
            trace.frames[m].trace_address,
        ),
    decreases i,
{
    if i > 0 {
        let path = trace.frames[m].trace_address;
        lemma_step(trace, i, path);
        assert(linked_up(trace.frames, i));
        let p = trace.frames[i].parent->0 as int;
        let through = trace.frames[i].trace_address.last() as int;
        assert(linked_down(trace.frames, p, through));
        let above = trace.frames[p].trace_address;
        let here = trace.frames[i].trace_address;
        assert(path.subrange(0, above.len() as int) =~= path.subrange(
            0,
            here.len() as int,
        ).subrange(0, above.len() as int));
        assert(here.subrange(0, above.len() as int) =~= above);
        lemma_counted_up(trace, m, p);
    }
}

/// The flat form holds as many records of frames called by frame `m` as frame
/// `m` has children.
pub proof fn lemma_children_present(trace: CompletedView, m: int)
    requires
        trace.wf(),
        0 <= m < trace.frames.len(),
    ensures
        child_count(trace.flat(), trace.frames[m].trace_address) == trace.frames[m].children.len(),
{
    let path = trace.frames[m].trace_address;
    let count = trace.frames[m].children.len() as int;
    lemma_children_counted(trace, m, count);
    lemma_own_count(trace, m, path);
    lemma_child_count_add(trace.records_of(m), trace.flat_children(m, count), path);
    assert(path.subrange(0, path.len() as int) =~= path);
    lemma_counted_up(trace, m, m);
}

/// In the flat form, the number of subtraces that a frame's record states is
/// the number of records of frames that the frame called: those whose path
/// is the frame's path with one more step.
pub proof fn lemma_subtraces_counted(trace: CompletedView, j: int)
    requires
        trace.wf(),
        0 <= j < trace.flat().len(),
        is_frame_record(trace.flat()[j]),
    ensures
        trace.flat()[j].subtraces == child_count(trace.flat(), trace.flat()[j].trace_address),
{
    let m = lemma_record_source(trace, j);
    assert(frame_wf(trace.frames[m]));
    lemma_children_present(trace, m);
}

/// No two frames of a tree have the same path.
pub proof fn lemma_paths_distinct(frames: Seq<FrameView>, a: int, b: int)
    requires
        tree_wf(frames),
        0 <= a < frames.len(),
        0 <= b < frames.len(),
        a != b,
    ensures
        frames[a].trace_address != frames[b].trace_address,
    decreases a + b,
{
    if frames[a].trace_address == frames[b].trace_address {
        if a == 0 {
            assert(linked_up(frames, b));
        } else if b == 0 {
            assert(linked_up(frames, a));
        } else {
            assert(linked_up(frames, a));
            assert(linked_up(frames, b));
            let above_a = frames[a].parent->0 as int;
            let above_b = frames[b].parent->0 as int;
            let place = frames[a].trace_address.last() as int;
            assert(linked_down(frames, above_a, place));
            assert(linked_down(frames, above_b, place));
            assert(frames[above_a].trace_address.push(place as usize).drop_last()
                =~= frames[above_a].trace_address);
            assert(frames[above_b].trace_address.push(place as usize).drop_last()
                =~= frames[above_b].trace_address);
            if above_a != above_b {
                lemma_paths_distinct(frames, above_a, above_b);
            }
        }
    }
}

/// Whether the frame at path `first` comes before the frame at path `second`
/// in pre-order: `second` lies below `first`, or where the paths part,
/// `first` goes to the earlier child.
pub open spec fn path_before(first: Seq<usize>, second: Seq<usize>) -> bool {
    ||| first.len() < second.len() && has_prefix(second, first)
    ||| exists|at: int|
        0 <= at < first.len() && at < second.len() && first.subrange(0, at) == second.subrange(
            0,
            at,
        ) && first[at] < second[at]
}

/// A path that goes through `prefix` and on to child `k` comes before every
/// path that goes through `prefix` and on to a later child.
proof fn lemma_earlier_child_before(first: Seq<usize>, second: Seq<usize>, prefix: Seq<usize>, k: int, later: int)
    requires
        0 <= k < later <= usize::MAX,
        has_prefix(first, prefix.push(k as usize)),
        has_prefix(second, prefix.push(later as usize)),
    ensures
        path_before(first, second),
{
    let at = prefix.len() as int;
    let left = prefix.push(k as usize);
    let right = prefix.push(later as usize);
    assert(first.subrange(0, left.len() as int)[at] == left[at]);
    assert(second.subrange(0, right.len() as int)[at] == right[at]);
    assert(first.subrange(0, at) =~= first.subrange(0, left.len() as int).subrange(0, at));
    assert(second.subrange(0, at) =~= second.subrange(0, right.len() as int).subrange(0, at));
    assert(left.subrange(0, at) =~= prefix);
    assert(right.subrange(0, at) =~= prefix);
}

/// Whether `path` goes through `prefix` and on to child `k`.
pub open spec fn below_child(path: Seq<usize>, prefix: Seq<usize>, k: int) -> bool {
    has_prefix(path, prefix.push(k as usize))
}

/// Whether the records of frames among `records` stand in pre-order of their
/// paths.
pub open spec fn in_pre_order(records: Seq<TransactionTraceView>) -> bool {
    forall|j: int, l: int|
        0 <= j < l < records.len() && is_frame_record(#[trigger] records[j]) && is_frame_record(
            #[trigger] records[l],
        ) ==> path_before(records[j].trace_address, records[l].trace_address)
}

/// The records of frame `i` and the frames below it stand in pre-order.
proof fn lemma_ordered_from(trace: CompletedView, i: int)
    requires
        trace.wf(),
        0 <= i < trace.frames.len(),
    ensures
        in_pre_order(trace.flat_from(i)),
    decreases trace.frames.len() - i, trace.frames[i].children.len() + 1,
{
    let path = trace.frames[i].trace_address;
    let m = trace.frames[i].children.len() as int;
    let own = trace.records_of(i);
    let below = trace.flat_children(i, m);
    let all = trace.flat_from(i);
    lemma_ordered_children(trace, i, m);
    lemma_below_children(trace, i, m);
    assert forall|j: int, l: int|
        0 <= j < l < all.len() && is_frame_record(#[trigger] all[j]) && is_frame_record(
            #[trigger] all[l],
        ) implies path_before(all[j].trace_address, all[l].trace_address) by {
        if j < own.len() {
            assert(j == 0);
            assert(l >= own.len());
            assert(all[l] == below[l - own.len()]);
        } else {
            assert(all[j] == below[j - own.len()]);
            assert(all[l] == below[l - own.len()]);
        }
    }
}

/// The records of the first `k` children of frame `i` and the frames below
/// them stand in pre-order.
proof fn lemma_ordered_children(trace: CompletedView, i: int, k: int)
    requires
        trace.wf(),
        0 <= i < trace.frames.len(),
        0 <= k <= trace.frames[i].children.len(),
    ensures
        in_pre_order(trace.flat_children(i, k)),
        forall|j: int|
            0 <= j < trace.flat_children(i, k).len() ==> exists|earlier: int|
                0 <= earlier < k && #[trigger] below_child(
                    (#[trigger] trace.flat_children(i, k)[j]).trace_address,
                    trace.frames[i].trace_address,
                    earlier,
                ),
    decreases trace.frames.len() - i, k,
{
    if k > 0 {
        let path = trace.frames[i].trace_address;
        let before = trace.flat_children(i, k - 1);
        let child = trace.frames[i].children[k - 1] as int;
        assert(linked_down(trace.frames, i, k - 1));
        assert(frame_wf(trace.frames[i]));
        lemma_ordered_children(trace, i, k - 1);
        lemma_ordered_from(trace, child);
        lemma_below_from(trace, child);
        let part = trace.flat_from(child);
        let all = trace.flat_children(i, k);
        assert forall|j: int| 0 <= j < all.len() implies exists|earlier: int|
            0 <= earlier < k && #[trigger] below_child(
                (#[trigger] all[j]).trace_address,
                path,
                earlier,
            ) by {
            if j < before.len() {
                assert(all[j] == before[j]);
                let earlier = choose|earlier: int|
                    0 <= earlier < k - 1 && #[trigger] below_child(
                        before[j].trace_address,
                        path,
                        earlier,
                    );
                assert(below_child(all[j].trace_address, path, earlier));
            } else {
                assert(all[j] == part[j - before.len()]);
                assert(below_child(all[j].trace_address, path, k - 1));
            }
        }
        assert forall|j: int, l: int|
            0 <= j < l < all.len() && is_frame_record(#[trigger] all[j]) && is_frame_record(
                #[trigger] all[l],
            ) implies path_before(all[j].trace_address, all[l].trace_address) by {
            if l < before.len() {
                assert(all[j] == before[j]);
                assert(all[l] == before[l]);
            } else if j >= before.len() {
                assert(all[j] == part[j - before.len()]);
                assert(all[l] == part[l - before.len()]);
            } else {
                assert(all[j] == before[j]);
                assert(all[l] == part[l - before.len()]);
                let earlier = choose|earlier: int|
                    0 <= earlier < k - 1 && #[trigger] below_child(
                        before[j].trace_address,
                        path,
                        earlier,
                    );
                lemma_earlier_child_before(
                    all[j].trace_address,
                    all[l].trace_address,
                    path,
                    earlier,
                    k - 1,
                );
            }
        }
    }
}

/// The flat form is in pre-order: of two records of frames, the earlier is
/// that of a frame above the other, or of a frame on a branch that was
/// called before the other's. So a frame comes before all frames below it,
/// and the children of a frame come in call order.
pub proof fn lemma_flat_in_pre_order(trace: CompletedView)
    requires
        trace.wf(),
    ensures
        in_pre_order(trace.flat()),
{
    lemma_ordered_from(trace, 0);
}

} // verus!
