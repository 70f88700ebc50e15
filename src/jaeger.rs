use vstd::prelude::*;
use crate::ids::{hex16, hex16_spec, normalize_trace_id, strip_separators};
use crate::models::{ConvertError, JaegerProcess, JaegerSpan, JaegerTrace, LogEntry};
use crate::tags::{create_tags, tags_for};
use crate::timestamp::{micros_of_timestamp, parse_timestamp};

verus! {

/// Every span lasts this long, in microseconds: log entries are points in time.
pub const SPAN_DURATION_MICROS: i64 = 1000;

/// The correlation id of `e`, if it has one.
pub open spec fn correlation_id(e: LogEntry) -> Option<Seq<char>> {
    match e.request_id {
        Some(s) => Some(s@),
        None => None,
    }
}

/// The service that emitted `e`, `unknown` where it is not given.
pub open spec fn service_of(e: LogEntry) -> Seq<char> {
    match e.service_name {
        Some(s) => s@,
        None => "unknown"@,
    }
}

/// The key under which the process of `e` is registered: `p` and the service name.
pub open spec fn process_key(e: LogEntry) -> Seq<char> {
    seq!['p'] + service_of(e)
}

/// The operation name of the span for `e`: its tag where present and non-empty,
/// else its message.
pub open spec fn operation_of(e: LogEntry) -> Seq<char> {
    match e.tag {
        Some(t) => if t@.len() > 0 { t@ } else { e.message@ },
        None => e.message@,
    }
}

/// The correlation ids of `logs` in input order, repetitions kept, entries
/// without one skipped.
pub open spec fn ids_in(logs: Seq<LogEntry>) -> Seq<Seq<char>>
    decreases logs.len(),
{
    if logs.len() == 0 {
        Seq::empty()
    } else {
        let before = ids_in(logs.drop_last());
        match correlation_id(logs.last()) {
            Some(id) => before.push(id),
            None => before,
        }
    }
}

/// The distinct values of `s`, each at the place where it first appears.
pub open spec fn first_appearances(s: Seq<Seq<char>>) -> Seq<Seq<char>>
    decreases s.len(),
{
    if s.len() == 0 {
        s
    } else {
        let before = first_appearances(s.drop_last());
        if before.contains(s.last()) {
            before
        } else {
            before.push(s.last())
        }
    }
}

/// The correlation ids that get a trace, in the order the traces are produced.
pub open spec fn trace_order(logs: Seq<LogEntry>) -> Seq<Seq<char>> {
    first_appearances(ids_in(logs))
}

/// The positions in `logs` of the entries whose correlation id is `id`, ascending.
pub open spec fn group(logs: Seq<LogEntry>, id: Seq<char>) -> Seq<int>
    decreases logs.len(),
{
    if logs.len() == 0 {
        Seq::empty()
    } else {
        let before = group(logs.drop_last(), id);
        if correlation_id(logs.last()) == Some(id) {
            before.push(logs.len() - 1)
        } else {
            before
        }
    }
}

/// The process keys of the entries at positions `g`, in that order.
pub open spec fn process_keys(logs: Seq<LogEntry>, g: Seq<int>) -> Seq<Seq<char>> {
    g.map_values(|i: int| process_key(logs[i]))
}

/// Entry `i` takes part in tracing but its timestamp could not be read.
pub open spec fn is_bad(logs: Seq<LogEntry>, times: Seq<Option<i64>>, i: int) -> bool {
    correlation_id(logs[i]) is Some && times[i] is None
}

/// `s` is the `k`-th span (from 0) of trace `trace_id`, built from entry `e`
/// whose timestamp reads as `t`.
pub open spec fn span_is(s: JaegerSpan, trace_id: Seq<char>, k: int, e: LogEntry, t: i64) -> bool {
    &&& s.trace_id@ == trace_id
    &&& s.span_id@ == hex16_spec((k + 1) as nat)
    &&& if k == 0 {
        s.parent_span_id is None
    } else {
        s.parent_span_id matches Some(p) && p@ == hex16_spec(k as nat)
    }
    &&& s.operation_name@ == operation_of(e)
    &&& s.start_time == t
    &&& s.duration == SPAN_DURATION_MICROS
    &&& tags_for(s.tags@, e)
    &&& s.process_id@ == process_key(e)
}

/// `ps` registers exactly the process keys `keys`, in that order, each for its
/// own service and with no tags.
pub open spec fn processes_are(ps: Seq<(String, JaegerProcess)>, keys: Seq<Seq<char>>) -> bool {
    &&& ps.len() == keys.len()
    &&& forall|m: int|
        0 <= m < ps.len() ==> {
            &&& (#[trigger] ps[m]).0@ == keys[m]
            &&& keys[m] == seq!['p'] + ps[m].1.service_name@
            &&& ps[m].1.tags@.len() == 0
        }
}

/// `tr` is the trace of correlation id `id`.
pub open spec fn trace_is(tr: JaegerTrace, logs: Seq<LogEntry>, times: Seq<Option<i64>>, id: Seq<char>) -> bool {
    let g = group(logs, id);
    &&& tr.trace_id@ == strip_separators(id)
    &&& tr.spans@.len() == g.len()
    &&& forall|k: int|
        0 <= k < g.len() ==> span_is(#[trigger] tr.spans@[k], strip_separators(id), k, logs[g[k]], times[g[k]]->0)
    &&& processes_are(tr.processes@, first_appearances(process_keys(logs, g)))
}

/// `traces` holds one trace per correlation id of `logs`, in order of first appearance.
pub open spec fn converted(logs: Seq<LogEntry>, times: Seq<Option<i64>>, traces: Seq<JaegerTrace>) -> bool {
    let order = trace_order(logs);
    &&& traces.len() == order.len()
    &&& forall|k: int| 0 <= k < order.len() ==> trace_is(#[trigger] traces[k], logs, times, order[k])
}

/// What converting `logs` gives where entry `i`'s timestamp reads as `times[i]`:
/// the error of the first correlated entry whose timestamp cannot be read, if
/// there is one, and otherwise all traces.
pub open spec fn conversion_result(
    logs: Seq<LogEntry>,
    times: Seq<Option<i64>>,
    r: Result<Vec<JaegerTrace>, ConvertError>,
) -> bool {
    &&& (exists|i: int| 0 <= i < logs.len() && is_bad(logs, times, i)) <==> r is Err
    &&& r matches Err(ConvertError::MalformedTimestamp(raw)) ==> exists|i: int|
        0 <= i < logs.len() && is_bad(logs, times, i) && raw@ == logs[i].timestamp@
            && forall|j: int| 0 <= j < i ==> !is_bad(logs, times, j)
    &&& r matches Ok(traces) ==> converted(logs, times, traces@)
}

/// What each entry's timestamp reads as.
pub open spec fn timestamps_of(logs: Seq<LogEntry>) -> Seq<Option<i64>> {
    logs.map_values(|e: LogEntry| micros_of_timestamp(e.timestamp@))
}

/// The group of `id` lists, in ascending order, exactly the positions of the
/// entries whose correlation id is `id`.
pub proof fn lemma_group(logs: Seq<LogEntry>, id: Seq<char>)
    ensures
        group(logs, id).len() <= logs.len(),
        forall|k: int| 0 <= k < group(logs, id).len() ==> {
            &&& 0 <= #[trigger] group(logs, id)[k] < logs.len()
            &&& correlation_id(logs[group(logs, id)[k]]) == Some(id)
        },
        forall|k1: int, k2: int| 0 <= k1 < k2 < group(logs, id).len() ==>
            #[trigger] group(logs, id)[k1] < #[trigger] group(logs, id)[k2],
        forall|i: int| 0 <= i < logs.len() && correlation_id(#[trigger] logs[i]) == Some(id) ==>
            group(logs, id).contains(i),
    decreases logs.len(),
{
    if logs.len() > 0 {
        let before = logs.drop_last();
        lemma_group(before, id);
        let g = group(before, id);
        assert forall|i: int| 0 <= i < logs.len() && correlation_id(#[trigger] logs[i]) == Some(id) implies
            group(logs, id).contains(i) by {
            if i < logs.len() - 1 {
                assert(before[i] == logs[i]);
                let k = choose|k: int| 0 <= k < g.len() && g[k] == i;
                assert(group(logs, id)[k] == i);
            } else {
                assert(group(logs, id) == g.push(i));
                assert(group(logs, id)[g.len() as int] == i);
            }
        }
        assert forall|k: int| 0 <= k < group(logs, id).len() implies {
            &&& 0 <= #[trigger] group(logs, id)[k] < logs.len()
            &&& correlation_id(logs[group(logs, id)[k]]) == Some(id)
        } by {
            if k < g.len() {
                assert(before[g[k]] == logs[g[k]]);
            }
        }
    }
}

/// The position of the first correlated entry whose timestamp could not be read.
fn first_bad(logs: &[LogEntry], times: &[Option<i64>]) -> (r: Option<usize>)
    requires
        logs@.len() == times@.len(),
    ensures
        r is None <==> forall|i: int| 0 <= i < logs@.len() ==> !is_bad(logs@, times@, i),
        r matches Some(i) ==> i < logs@.len() && is_bad(logs@, times@, i as int)
            && forall|j: int| 0 <= j < i ==> !is_bad(logs@, times@, j),
{
    let mut i: usize = 0;
    while i < logs.len()
        invariant
            logs@.len() == times@.len(),
            i <= logs@.len(),
            forall|j: int| 0 <= j < i ==> !is_bad(logs@, times@, j),
        decreases logs@.len() - i,
    {
        if logs[i].request_id.is_some() && times[i].is_none() {
            assert(is_bad(logs@, times@, i as int));
            return Some(i);
        }
        i = i + 1;
    }
    None
}

/// Whether `key` is among the views of `v`.
fn contains_str(v: &Vec<String>, key: &String) -> (r: bool)
    ensures
        r == v@.map_values(|s: String| s@).contains(key@),
{
    let mut i: usize = 0;
    while i < v.len()
        invariant
            i <= v@.len(),
            forall|j: int| 0 <= j < i ==> v@[j]@ != key@,
        decreases v@.len() - i,
    {
        if v[i] == *key {
            assert(v@.map_values(|s: String| s@)[i as int] == key@);
            return true;
        }
        i = i + 1;
    }
    proof {
        if v@.map_values(|s: String| s@).contains(key@) {
            let views = v@.map_values(|s: String| s@);
            let j = choose|j: int| 0 <= j < views.len() && #[trigger] views[j] == key@;
            assert(v@[j]@ == key@);
        }
    }
    false
}

/// The correlation ids of `logs`, each once, in order of first appearance.
fn collect_trace_ids(logs: &[LogEntry]) -> (ids: Vec<String>)
    ensures
        ids@.map_values(|s: String| s@) == trace_order(logs@),
{
    let mut ids: Vec<String> = Vec::new();
    let mut i: usize = 0;
    while i < logs.len()
        invariant
            i <= logs@.len(),
            ids@.map_values(|s: String| s@) == first_appearances(ids_in(logs@.subrange(0, i as int))),
        decreases logs@.len() - i,
    {
        let ghost before = ids@.map_values(|s: String| s@);
        let ghost prev = ids_in(logs@.subrange(0, i as int));
        let ghost next = logs@.subrange(0, i as int + 1);
        assert(next.drop_last() =~= logs@.subrange(0, i as int));
        assert(next.last() == logs@[i as int]);
        match &logs[i].request_id {
            Some(id) => {
                assert(ids_in(next) == prev.push(id@));
                assert(prev.push(id@).drop_last() =~= prev);
                if !contains_str(&ids, id) {
                    ids.push(id.clone());
                    assert(ids@.map_values(|s: String| s@) =~= before.push(id@));
                }
            },
            None => {
                assert(ids_in(next) == prev);
            },
        }
        i = i + 1;
    }
    assert(logs@.subrange(0, logs@.len() as int) =~= logs@);
    ids
}

/// Whether a process is registered under `key` in `ps`.
fn process_registered(ps: &Vec<(String, JaegerProcess)>, key: &String) -> (r: bool)
    ensures
        r == ps@.map_values(|p: (String, JaegerProcess)| p.0@).contains(key@),
{
    let mut i: usize = 0;
    while i < ps.len()
        invariant
            i <= ps@.len(),
            forall|j: int| 0 <= j < i ==> ps@[j].0@ != key@,
        decreases ps@.len() - i,
    {
        if ps[i].0 == *key {
            assert(ps@.map_values(|p: (String, JaegerProcess)| p.0@)[i as int] == key@);
            return true;
        }
        i = i + 1;
    }
    proof {
        let keys = ps@.map_values(|p: (String, JaegerProcess)| p.0@);
        if keys.contains(key@) {
            let j = choose|j: int| 0 <= j < keys.len() && #[trigger] keys[j] == key@;
            assert(ps@[j].0@ == key@);
        }
    }
    false
}

/// Builds the trace of correlation id `id` from the entries of `logs` that carry it.
fn build_trace(logs: &[LogEntry], times: &[Option<i64>], id: &String) -> (tr: JaegerTrace)
    requires
        logs@.len() == times@.len(),
        forall|i: int| 0 <= i < logs@.len() ==> !is_bad(logs@, times@, i),
    ensures
        trace_is(tr, logs@, times@, id@),
{
    let trace_id = normalize_trace_id(id.as_str());
    let mut spans: Vec<JaegerSpan> = Vec::new();
    let mut processes: Vec<(String, JaegerProcess)> = Vec::new();
    let mut j: usize = 0;
    while j < logs.len()
        invariant
            logs@.len() == times@.len(),
            forall|i: int| 0 <= i < logs@.len() ==> !is_bad(logs@, times@, i),
            j <= logs@.len(),
            trace_id@ == strip_separators(id@),
            spans@.len() == group(logs@.subrange(0, j as int), id@).len(),
            forall|i: int| 0 <= i < group(logs@.subrange(0, j as int), id@).len() ==>
                0 <= #[trigger] group(logs@.subrange(0, j as int), id@)[i] < j,
            forall|k: int| 0 <= k < spans@.len() ==> {
                let g = group(logs@.subrange(0, j as int), id@);
                span_is(#[trigger] spans@[k], strip_separators(id@), k, logs@[g[k]], times@[g[k]]->0)
            },
            processes_are(
                processes@,
                first_appearances(process_keys(logs@, group(logs@.subrange(0, j as int), id@))),
            ),
        decreases logs@.len() - j,
    {
        let ghost sub = logs@.subrange(0, j as int);
        let ghost next = logs@.subrange(0, j as int + 1);
        let ghost g = group(sub, id@);
        let ghost keys = first_appearances(process_keys(logs@, g));
        assert(next.drop_last() =~= sub);
        assert(next.last() == logs@[j as int]);
        let log = &logs[j];
        let matches_id = match &log.request_id {
            Some(r) => *r == *id,
            None => false,
        };
        if matches_id {
            assert(correlation_id(logs@[j as int]) == Some(id@));
            assert(!is_bad(logs@, times@, j as int));
            assert(group(next, id@) == g.push(j as int));
            proof {
                lemma_group(sub, id@);
            }
            let k = spans.len();
            let service = match &log.service_name {
                Some(s) => s.clone(),
                None => String::from_str("unknown"),
            };
            let process_id = String::from_str("p").concat(service.as_str());
            proof {
                reveal_strlit("p");
            }
            assert(process_id@ == process_key(logs@[j as int]));
            let ghost pk = process_keys(logs@, g.push(j as int));
            assert(pk =~= process_keys(logs@, g).push(process_key(logs@[j as int])));
            assert(pk.drop_last() =~= process_keys(logs@, g));
            assert(processes@.map_values(|p: (String, JaegerProcess)| p.0@) =~= keys);
            if !process_registered(&processes, &process_id) {
                processes.push((process_id.clone(), JaegerProcess { service_name: service, tags: Vec::new() }));
                assert(first_appearances(pk) == keys.push(process_id@));
            } else {
                assert(first_appearances(pk) == keys);
            }
            let start_time = times[j].unwrap();
            let operation_name = match &log.tag {
                Some(t) => if t.as_str().unicode_len() > 0 {
                    t.clone()
                } else {
                    log.message.clone()
                },
                None => log.message.clone(),
            };
            let parent_span_id = if k > 0 {
                Some(hex16(k as u64))
            } else {
                None
            };
            let span = JaegerSpan {
                trace_id: trace_id.clone(),
                span_id: hex16((k + 1) as u64),
                parent_span_id,
                operation_name,
                start_time,
                duration: SPAN_DURATION_MICROS,
                tags: create_tags(log),
                process_id,
            };
            spans.push(span);
        } else {
            assert(group(next, id@) == g);
        }
        j = j + 1;
    }
    assert(logs@.subrange(0, logs@.len() as int) =~= logs@);
    JaegerTrace { trace_id, spans, processes }
}

/// Converts `logs` into traces, where the timestamp of entry `i` reads as `times[i]`
/// (`None`: it could not be read).
///
/// Fails with the raw timestamp of the first correlated entry whose timestamp could
/// not be read; otherwise yields one trace per correlation id, in order of first
/// appearance.
pub fn convert_with_times(logs: &[LogEntry], times: &[Option<i64>]) -> (r: Result<Vec<JaegerTrace>, ConvertError>)
    requires
        logs@.len() == times@.len(),
    ensures
        conversion_result(logs@, times@, r),
{
    match first_bad(logs, times) {
        Some(i) => {
            return Err(ConvertError::MalformedTimestamp(logs[i].timestamp.clone()));
        },
        None => {},
    }
    let ids = collect_trace_ids(logs);
    let ghost order = trace_order(logs@);
    let mut traces: Vec<JaegerTrace> = Vec::new();
    let mut k: usize = 0;
    while k < ids.len()
        invariant
            logs@.len() == times@.len(),
            forall|i: int| 0 <= i < logs@.len() ==> !is_bad(logs@, times@, i),
            ids@.map_values(|s: String| s@) == order,
            order == trace_order(logs@),
            k <= ids@.len(),
            traces@.len() == k,
            forall|m: int| 0 <= m < k ==> trace_is(#[trigger] traces@[m], logs@, times@, order[m]),
        decreases ids@.len() - k,
    {
        assert(ids@.map_values(|s: String| s@)[k as int] == ids@[k as int]@);
        let tr = build_trace(logs, times, &ids[k]);
        traces.push(tr);
        k = k + 1;
    }
    Ok(traces)
}

/// Converts `logs` into traces, reading each entry's timestamp under the fixed layout.
///
/// Fails with `MalformedTimestamp` if any entry that has a correlation id has a
/// timestamp that cannot be read, and then produces no trace at all.
pub fn convert_to_jaeger(logs: &[LogEntry]) -> (r: Result<Vec<JaegerTrace>, ConvertError>)
    ensures
        conversion_result(logs@, timestamps_of(logs@), r),
{
    let mut times: Vec<Option<i64>> = Vec::new();
    let mut i: usize = 0;
    while i < logs.len()
        invariant
            i <= logs@.len(),
            times@ =~= timestamps_of(logs@.subrange(0, i as int)),
        decreases logs@.len() - i,
    {
        let t = match parse_timestamp(logs[i].timestamp.as_str()) {
            Ok(us) => Some(us),
            Err(_) => None,
        };
        times.push(t);
        i = i + 1;
        assert(times@ =~= timestamps_of(logs@.subrange(0, i as int)));
    }
    assert(logs@.subrange(0, logs@.len() as int) =~= logs@);
    convert_with_times(logs, times.as_slice())
}

/// The number of entries that carry no correlation id and so take no part in tracing.
pub fn count_uncorrelated(logs: &[LogEntry]) -> (n: usize)
    ensures
        n == logs@.filter(|e: LogEntry| correlation_id(e) is None).len(),
{
    let mut n: usize = 0;
    let mut i: usize = 0;
    while i < logs.len()
        invariant
            i <= logs@.len(),
            n == logs@.subrange(0, i as int).filter(|e: LogEntry| correlation_id(e) is None).len(),
            n <= i,
        decreases logs@.len() - i,
    {
        proof {
            reveal(Seq::filter);
            let next = logs@.subrange(0, i as int + 1);
            assert(next.drop_last() =~= logs@.subrange(0, i as int));
            assert(next.last() == logs@[i as int]);
        }
        if logs[i].request_id.is_none() {
            n = n + 1;
        }
        i = i + 1;
    }
    assert(logs@.subrange(0, logs@.len() as int) =~= logs@);
    n
}

} // verus!
