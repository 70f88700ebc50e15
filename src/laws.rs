use vstd::prelude::*;
use crate::ids::hex16_spec;
use crate::jaeger::{
    converted, correlation_id, first_appearances, group, lemma_group, process_key, process_keys,
    trace_is, trace_order, span_is,
};
use crate::models::{JaegerTrace, LogEntry};

verus! {

/// Keeping first appearances drops repetitions and nothing else.
pub proof fn lemma_first_appearances(s: Seq<Seq<char>>)
    ensures
        forall|x: Seq<char>| first_appearances(s).contains(x) <==> s.contains(x),
        first_appearances(s).no_duplicates(),
    decreases s.len(),
{
    if s.len() > 0 {
        let before = s.drop_last();
        lemma_first_appearances(before);
        let d = first_appearances(before);
        assert forall|x: Seq<char>| first_appearances(s).contains(x) <==> s.contains(x) by {
            let l = s.last();
            if s.contains(x) {
                let i = choose|i: int| 0 <= i < s.len() && s[i] == x;
                if i < s.len() - 1 {
                    assert(before[i] == x);
                    assert(before.contains(x));
                    assert(d.contains(x));
                    let j = choose|j: int| 0 <= j < d.len() && d[j] == x;
                    if !d.contains(l) {
                        assert(d.push(l)[j] == x);
                    }
                } else if !d.contains(x) {
                    assert(first_appearances(s)[d.len() as int] == x);
                }
            }
            if first_appearances(s).contains(x) {
                if d.contains(x) {
                    assert(before.contains(x));
                    let i = choose|i: int| 0 <= i < before.len() && before[i] == x;
                    assert(s[i] == x);
                } else {
                    assert(first_appearances(s) == d.push(s.last()));
                    let i = choose|i: int| 0 <= i < d.len() + 1 && d.push(s.last())[i] == x;
                    assert(s[s.len() - 1] == x);
                }
            }
        }
    }
}

/// A trace holds one span per entry carrying its correlation id, in input order:
/// span `m` is built from the `m`-th such entry.
pub proof fn law_spans_follow_input(logs: Seq<LogEntry>, times: Seq<Option<i64>>, traces: Seq<JaegerTrace>, k: int)
    requires
        converted(logs, times, traces),
        0 <= k < traces.len(),
    ensures
        ({
            let id = trace_order(logs)[k];
            let members = logs.filter(|e: LogEntry| correlation_id(e) == Some(id));
            &&& traces[k].spans@.len() == members.len()
            &&& forall|m: int| 0 <= m < members.len() ==>
                span_is(
                    #[trigger] traces[k].spans@[m],
                    traces[k].trace_id@,
                    m,
                    members[m],
                    times[group(logs, id)[m]]->0,
                )
        }),
{
    let id = trace_order(logs)[k];
    assert(trace_is(traces[k], logs, times, id));
    lemma_group_members(logs, id);
}

/// The entries at the positions of `id`'s group are exactly those that carry `id`.
pub proof fn lemma_group_members(logs: Seq<LogEntry>, id: Seq<char>)
    ensures
        group(logs, id).map_values(|i: int| logs[i]) == logs.filter(|e: LogEntry| correlation_id(e) == Some(id)),
    decreases logs.len(),
{
    let pred = |e: LogEntry| correlation_id(e) == Some(id);
    reveal(Seq::filter);
    if logs.len() > 0 {
        let before = logs.drop_last();
        lemma_group_members(before, id);
        lemma_group(before, id);
        let g = group(before, id);
        assert(g.map_values(|i: int| before[i]) =~= g.map_values(|i: int| logs[i]));
        if pred(logs.last()) {
            assert(group(logs, id).map_values(|i: int| logs[i]) =~= g.map_values(|i: int| logs[i]).push(logs.last()));
        } else {
            assert(group(logs, id).map_values(|i: int| logs[i]) =~= g.map_values(|i: int| logs[i]));
        }
    } else {
        assert(group(logs, id).map_values(|i: int| logs[i]) =~= logs.filter(pred));
    }
}

/// Every span but the first names the span before it as its parent; the first has none.
pub proof fn law_parent_chain(logs: Seq<LogEntry>, times: Seq<Option<i64>>, traces: Seq<JaegerTrace>, k: int)
    requires
        converted(logs, times, traces),
        0 <= k < traces.len(),
    ensures
        traces[k].spans@.len() > 0 ==> traces[k].spans@[0].parent_span_id is None,
        forall|m: int| 0 < m < traces[k].spans@.len() ==>
            ((#[trigger] traces[k].spans@[m]).parent_span_id matches Some(p)
                && p@ == traces[k].spans@[m - 1].span_id@),
        forall|m: int| 0 <= m < traces[k].spans@.len() ==>
            (#[trigger] traces[k].spans@[m]).span_id@ == hex16_spec((m + 1) as nat),
{
    let id = trace_order(logs)[k];
    assert(trace_is(traces[k], logs, times, id));
    assert forall|m: int| 0 < m < traces[k].spans@.len() implies
        ((#[trigger] traces[k].spans@[m]).parent_span_id matches Some(p)
            && p@ == traces[k].spans@[m - 1].span_id@) by {
        assert(traces[k].spans@[m - 1] == traces[k].spans@[m - 1]);
    }
}

/// An entry without a correlation id is in no trace's group.
pub proof fn law_uncorrelated_excluded(logs: Seq<LogEntry>, times: Seq<Option<i64>>, traces: Seq<JaegerTrace>, i: int)
    requires
        converted(logs, times, traces),
        0 <= i < logs.len(),
        correlation_id(logs[i]) is None,
    ensures
        forall|k: int| 0 <= k < traces.len() ==> !group(logs, #[trigger] trace_order(logs)[k]).contains(i),
{
    assert forall|k: int| 0 <= k < traces.len() implies !group(logs, #[trigger] trace_order(logs)[k]).contains(i) by {
        let id = trace_order(logs)[k];
        lemma_group(logs, id);
        if group(logs, id).contains(i) {
            let m = choose|m: int| 0 <= m < group(logs, id).len() && group(logs, id)[m] == i;
            assert(correlation_id(logs[group(logs, id)[m]]) == Some(id));
        }
    }
}

/// A trace registers each process key once, exactly the keys of its entries, and
/// every span names a registered process.
pub proof fn law_processes(logs: Seq<LogEntry>, times: Seq<Option<i64>>, traces: Seq<JaegerTrace>, k: int)
    requires
        converted(logs, times, traces),
        0 <= k < traces.len(),
    ensures
        ({
            let id = trace_order(logs)[k];
            let keys = traces[k].processes@.map_values(|p: (String, crate::models::JaegerProcess)| p.0@);
            &&& keys.no_duplicates()
            &&& forall|x: Seq<char>| keys.contains(x) <==> process_keys(logs, group(logs, id)).contains(x)
            &&& forall|m: int| 0 <= m < traces[k].spans@.len() ==>
                keys.contains((#[trigger] traces[k].spans@[m]).process_id@)
        }),
{
    let id = trace_order(logs)[k];
    let g = group(logs, id);
    assert(trace_is(traces[k], logs, times, id));
    let keys = traces[k].processes@.map_values(|p: (String, crate::models::JaegerProcess)| p.0@);
    assert(keys =~= first_appearances(process_keys(logs, g)));
    lemma_first_appearances(process_keys(logs, g));
    assert forall|m: int| 0 <= m < traces[k].spans@.len() implies
        keys.contains((#[trigger] traces[k].spans@[m]).process_id@) by {
        assert(span_is(traces[k].spans@[m], traces[k].trace_id@, m, logs[g[m]], times[g[m]]->0));
        assert(process_keys(logs, g)[m] == process_key(logs[g[m]]));
        assert(process_keys(logs, g).contains(traces[k].spans@[m].process_id@));
    }
}

} // verus!
