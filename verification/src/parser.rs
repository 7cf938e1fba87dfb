//! The line parser. The envelope pattern is strict: a line either splits into
//! its four structural groups — timestamp, severity, component, message — or
//! the whole line is rejected. The enrichments that then run over the message
//! are lenient and each defaults to empty. A record never stores an
//! empty-string field: such enrichments are omitted.

use vstd::prelude::*;
use crate::pattern::{
    is_ws, is_upper, is_ts_head, is_ts_tail, is_upper_tok, ByteClass, in_class, spec_find,
    find_from, lemma_find_first, none_in, check_none_in, copy_range,
};
use crate::extract::{
    MetricName, spec_metrics, extract_metrics, spec_exec_time, extract_execution_time,
    spec_plan_summary, extract_plan_summary, spec_command_write, extract_command_write,
    spec_db_write, extract_db_write, spec_coll_write, extract_coll_write, spec_command_read,
    extract_command_read, spec_db_read, extract_db_read, spec_coll_read, extract_coll_read,
    spec_is_write, is_write_component,
};

verus! {

// ---- the envelope pattern -------------------------------------------------

/// The four structural groups of a matched line.
pub struct EnvelopeModel {
    pub timestamp: Seq<u8>,
    pub severity: u8,
    pub component: Seq<u8>,
    pub message: Seq<u8>,
}

/// End of the timestamp token: the line starts with digits or `-`, then the
/// first `T` of the line, then timestamp characters up to the first blank.
pub open spec fn spec_ts_end(s: Seq<u8>) -> Option<int> {
    match spec_find(s, 0, ByteClass::Exact(84)) {
        None => None,
        Some(t) => match spec_find(s, t + 1, ByteClass::Ws) {
            None => None,
            Some(j) => if t >= 1 && j >= t + 2 && none_in(s, 0, t, ByteClass::NonTsHead)
                && none_in(s, t + 1, j, ByteClass::NonTsTail) {
                Some(j)
            } else {
                None
            },
        },
    }
}

/// Position of the severity group: the first byte after the timestamp's
/// blanks, a single upper-case letter itself followed by a blank.
pub open spec fn spec_sev_pos(s: Seq<u8>) -> Option<int> {
    match spec_ts_end(s) {
        None => None,
        Some(j) => match spec_find(s, j, ByteClass::NonWs) {
            None => None,
            Some(k) => if is_upper(s[k]) && k + 1 < s.len() && is_ws(s[k + 1]) {
                Some(k)
            } else {
                None
            },
        },
    }
}

/// Bounds of the component group: the blank-delimited token after the
/// severity, made of upper-case letters and `_`.
pub open spec fn spec_comp_range(s: Seq<u8>) -> Option<(int, int)> {
    match spec_sev_pos(s) {
        None => None,
        Some(k) => match spec_find(s, k + 1, ByteClass::NonWs) {
            None => None,
            Some(m) => match spec_find(s, m, ByteClass::Ws) {
                None => None,
                Some(c) => if m < c && none_in(s, m, c, ByteClass::NonUpperTok) {
                    Some((m, c))
                } else {
                    None
                },
            },
        },
    }
}

/// First index at or after `i` holding a `]` that a blank follows.
pub open spec fn spec_find_ctx_end(s: Seq<u8>, i: int) -> Option<int>
    decreases s.len() - i,
{
    if i < 0 || i >= s.len() {
        None
    } else if s[i] == 93 && i + 1 < s.len() && is_ws(s[i + 1]) {
        Some(i)
    } else {
        spec_find_ctx_end(s, i + 1)
    }
}

proof fn lemma_find_ctx_end_bounds(s: Seq<u8>, i: int)
    requires
        0 <= i,
    ensures
        spec_find_ctx_end(s, i) matches Some(e) ==> i <= e && e + 1 < s.len(),
    decreases s.len() - i,
{
    if 0 <= i < s.len() && !(s[i] == 93 && i + 1 < s.len() && is_ws(s[i + 1])) {
        lemma_find_ctx_end_bounds(s, i + 1);
    }
}

/// Index of the `]` that closes the bracketed context after the component.
/// The context itself holds at least one byte and is not kept.
pub open spec fn spec_ctx_close(s: Seq<u8>) -> Option<int> {
    match spec_comp_range(s) {
        None => None,
        Some((m, c)) => match spec_find(s, c, ByteClass::NonWs) {
            None => None,
            Some(b) => if s[b] == 91 {
                spec_find_ctx_end(s, b + 2)
            } else {
                None
            },
        },
    }
}

/// Start of the message group: the first non-blank byte after the context's
/// closing bracket. The message runs to the end of the line.
pub open spec fn spec_msg_start(s: Seq<u8>) -> Option<int> {
    match spec_ctx_close(s) {
        None => None,
        Some(e) => spec_find(s, e + 1, ByteClass::NonWs),
    }
}

/// The envelope pattern: a line either splits into its four groups or the
/// whole line is unparseable — there is no partial structural result.
pub open spec fn spec_match_line(s: Seq<u8>) -> Option<EnvelopeModel> {
    match spec_ts_end(s) {
        None => None,
        Some(j) => match spec_sev_pos(s) {
            None => None,
            Some(k) => match spec_comp_range(s) {
                None => None,
                Some((m, c)) => match spec_msg_start(s) {
                    None => None,
                    Some(g) => Some(
                        EnvelopeModel {
                            timestamp: s.subrange(0, j),
                            severity: s[k],
                            component: s.subrange(m, c),
                            message: s.subrange(g, s.len() as int),
                        },
                    ),
                },
            },
        },
    }
}

/// The four structural groups of a matched line, as owned values.
pub struct Envelope {
    pub timestamp: Vec<u8>,
    pub severity: u8,
    pub component: Vec<u8>,
    pub message: Vec<u8>,
}

impl View for Envelope {
    type V = EnvelopeModel;

    open spec fn view(&self) -> EnvelopeModel {
        EnvelopeModel {
            timestamp: self.timestamp@,
            severity: self.severity,
            component: self.component@,
            message: self.message@,
        }
    }
}

fn find_ctx_end(v: &[u8], i: usize) -> (r: Option<usize>)
    ensures
        match r {
            Some(e) => spec_find_ctx_end(v@, i as int) == Some(e as int) && i <= e < v@.len(),
            None => spec_find_ctx_end(v@, i as int) is None,
        },
    decreases v@.len() - i,
{
    let n = v.len();
    if i >= n {
        None
    } else if v[i] == 93 && n - i >= 2 && (v[i + 1] == 32 || v[i + 1] == 9) {
        Some(i)
    } else {
        find_ctx_end(v, i + 1)
    }
}

/// Applies the envelope pattern to one raw line.
pub fn match_line(v: &[u8]) -> (r: Option<Envelope>)
    ensures
        match r {
            Some(e) => spec_match_line(v@) == Some(e@),
            None => spec_match_line(v@) is None,
        },
{
    let n = v.len();
    // timestamp: head, first `T`, tail, first blank
    let t = match find_from(v, 0, ByteClass::Exact(84)) {
        None => {
            return None;
        },
        Some(t) => t,
    };
    let j = match find_from(v, t + 1, ByteClass::Ws) {
        None => {
            return None;
        },
        Some(j) => j,
    };
    if !(t >= 1 && j >= t + 2 && check_none_in(v, 0, t, ByteClass::NonTsHead) && check_none_in(
        v,
        t + 1,
        j,
        ByteClass::NonTsTail,
    )) {
        return None;
    }
    proof {
        assert(spec_ts_end(v@) == Some(j as int));
    }
    // severity: one upper-case letter between blanks
    let k = match find_from(v, j, ByteClass::NonWs) {
        None => {
            return None;
        },
        Some(k) => k,
    };
    if !(v[k] >= 65 && v[k] <= 90 && n - k >= 2 && (v[k + 1] == 32 || v[k + 1] == 9)) {
        return None;
    }
    proof {
        assert(spec_sev_pos(v@) == Some(k as int));
    }
    // component: an upper-case token delimited by blanks
    let m = match find_from(v, k + 1, ByteClass::NonWs) {
        None => {
            return None;
        },
        Some(m) => m,
    };
    let c = match find_from(v, m, ByteClass::Ws) {
        None => {
            return None;
        },
        Some(c) => c,
    };
    if !(m < c && check_none_in(v, m, c, ByteClass::NonUpperTok)) {
        return None;
    }
    proof {
        assert(spec_comp_range(v@) == Some((m as int, c as int)));
    }
    // bracketed context
    let b = match find_from(v, c, ByteClass::NonWs) {
        None => {
            return None;
        },
        Some(b) => b,
    };
    if v[b] != 91 {
        return None;
    }
    if n - b < 2 {
        proof {
            assert(spec_find_ctx_end(v@, b + 2) is None);
        }
        return None;
    }
    let e = match find_ctx_end(v, b + 2) {
        None => {
            return None;
        },
        Some(e) => e,
    };
    proof {
        assert(spec_ctx_close(v@) == Some(e as int));
    }
    // message: the verbatim remainder
    let g = match find_from(v, e + 1, ByteClass::NonWs) {
        None => {
            return None;
        },
        Some(g) => g,
    };
    let env = Envelope {
        timestamp: copy_range(v, 0, j),
        severity: v[k],
        component: copy_range(v, m, c),
        message: copy_range(v, g, n),
    };
    proof {
        assert(spec_match_line(v@) == Some(env@));
    }
    Some(env)
}

// ---- timestamps -----------------------------------------------------------

/// The epoch milliseconds a timestamp token denotes under the envelope's
/// date-time format, when it parses; what the value is on given bytes, only
/// the date-time library defines.
pub uninterp spec fn timestamp_millis_of(ts: Seq<u8>) -> Option<i64>;

/// Relies on chrono::NaiveDateTime::parse_from_str with the format
/// `%Y-%m-%dT%H:%M:%S%.3f%z`: it reads the date-time fields, checks their
/// calendar ranges, parses and then discards the offset, and its result is a
/// function of the input bytes alone.
#[verifier::external_body]
fn parse_timestamp_millis(ts: &[u8]) -> (r: Option<i64>)
    ensures
        r == timestamp_millis_of(ts@),
{
    match std::str::from_utf8(ts) {
        Ok(s) => match chrono::NaiveDateTime::parse_from_str(s, "%Y-%m-%dT%H:%M:%S%.3f%z") {
            Ok(dt) => Some(dt.and_utc().timestamp_millis()),
            Err(_) => None,
        },
        Err(_) => None,
    }
}

// ---- records --------------------------------------------------------------

/// Why a line was skipped. Either error is recovered by the caller: the line
/// is dropped and the run continues.
#[derive(Clone, Copy, Debug, PartialEq, Eq, Structural)]
pub enum ParseError {
    /// The line does not match the envelope pattern.
    NoStructuralMatch,
    /// The envelope matched but the timestamp does not parse.
    BadTimestamp,
}

/// The mathematical content of a parsed record.
pub struct RecordModel {
    pub timestamp: i64,
    pub severity: u8,
    pub component: Seq<u8>,
    pub message_raw: Seq<u8>,
    pub execution_time: i64,
    pub plan_summary: Option<Seq<u8>>,
    pub command: Option<Seq<u8>>,
    pub db: Option<Seq<u8>>,
    pub collection: Option<Seq<u8>>,
    pub metrics: Seq<(MetricName, i64)>,
}

/// The structured output of one line. An enrichment field that resolved to
/// the empty string is held as `None` and never stored.
pub struct ParsedRecord {
    pub timestamp: i64,
    pub severity: u8,
    pub component: Vec<u8>,
    pub message_raw: Vec<u8>,
    pub execution_time: i64,
    pub plan_summary: Option<Vec<u8>>,
    pub command: Option<Vec<u8>>,
    pub db: Option<Vec<u8>>,
    pub collection: Option<Vec<u8>>,
    pub metrics: Vec<(MetricName, i64)>,
}

pub open spec fn opt_view(o: Option<Vec<u8>>) -> Option<Seq<u8>> {
    match o {
        Some(v) => Some(v@),
        None => None,
    }
}

impl View for ParsedRecord {
    type V = RecordModel;

    open spec fn view(&self) -> RecordModel {
        RecordModel {
            timestamp: self.timestamp,
            severity: self.severity,
            component: self.component@,
            message_raw: self.message_raw@,
            execution_time: self.execution_time,
            plan_summary: opt_view(self.plan_summary),
            command: opt_view(self.command),
            db: opt_view(self.db),
            collection: opt_view(self.collection),
            metrics: self.metrics@,
        }
    }
}

/// The enrichments drawn from one message, before empty fields are dropped.
pub struct QueryDataModel {
    pub metrics: Seq<(MetricName, i64)>,
    pub execution_time: i64,
    pub plan_summary: Seq<u8>,
    pub command: Seq<u8>,
    pub db: Seq<u8>,
    pub collection: Seq<u8>,
}

/// What every enrichment rule yields on a message, with the pattern family —
/// write-path or read-path — selected by the component.
pub open spec fn spec_query_data(msg: Seq<u8>, comp: Seq<u8>) -> QueryDataModel {
    QueryDataModel {
        metrics: spec_metrics(msg),
        execution_time: spec_exec_time(msg),
        plan_summary: spec_plan_summary(msg),
        command: if spec_is_write(comp) {
            spec_command_write(msg)
        } else {
            spec_command_read(msg)
        },
        db: if spec_is_write(comp) {
            spec_db_write(msg)
        } else {
            spec_db_read(msg)
        },
        collection: if spec_is_write(comp) {
            spec_coll_write(msg)
        } else {
            spec_coll_read(msg)
        },
    }
}

pub struct QueryData {
    pub metrics: Vec<(MetricName, i64)>,
    pub execution_time: i64,
    pub plan_summary: Vec<u8>,
    pub command: Vec<u8>,
    pub db: Vec<u8>,
    pub collection: Vec<u8>,
}

impl View for QueryData {
    type V = QueryDataModel;

    open spec fn view(&self) -> QueryDataModel {
        QueryDataModel {
            metrics: self.metrics@,
            execution_time: self.execution_time,
            plan_summary: self.plan_summary@,
            command: self.command@,
            db: self.db@,
            collection: self.collection@,
        }
    }
}

/// An enrichment that resolved to the empty string is dropped.
pub open spec fn opt_nonempty(s: Seq<u8>) -> Option<Seq<u8>> {
    if s.len() == 0 {
        None
    } else {
        Some(s)
    }
}

fn opt_field(v: Vec<u8>) -> (r: Option<Vec<u8>>)
    ensures
        opt_view(r) == opt_nonempty(v@),
{
    if v.len() == 0 {
        None
    } else {
        Some(v)
    }
}

/// The record a matched envelope and its parsed timestamp assemble into.
pub open spec fn spec_record(ms: i64, e: EnvelopeModel) -> RecordModel {
    let q = spec_query_data(e.message, e.component);
    RecordModel {
        timestamp: ms,
        severity: e.severity,
        component: e.component,
        message_raw: e.message,
        execution_time: q.execution_time,
        plan_summary: opt_nonempty(q.plan_summary),
        command: opt_nonempty(q.command),
        db: opt_nonempty(q.db),
        collection: opt_nonempty(q.collection),
        metrics: q.metrics,
    }
}

/// What parsing one line yields: the record when the envelope matches and the
/// timestamp parses, otherwise exactly one of the two line-level errors.
pub open spec fn spec_parse_line(l: Seq<u8>) -> Result<RecordModel, ParseError> {
    match spec_match_line(l) {
        None => Err(ParseError::NoStructuralMatch),
        Some(e) => match timestamp_millis_of(e.timestamp) {
            None => Err(ParseError::BadTimestamp),
            Some(ms) => Ok(spec_record(ms, e)),
        },
    }
}

/// The compiled rule set. The extraction rules are fixed, so the parser
/// carries no mutable state and is safe to share read-only across workers.
#[derive(Clone)]
pub struct Parser {}

impl Parser {
    pub fn new() -> Parser {
        Parser {  }
    }

    /// All enrichment rules over one message, with the pattern family chosen
    /// by the component; every rule defaults to empty or zero on a miss.
    pub fn get_metrics_from_string(&self, message: &[u8], component: &[u8]) -> (q: QueryData)
        ensures
            q@ == spec_query_data(message@, component@),
    {
        let write = is_write_component(component);
        QueryData {
            metrics: extract_metrics(message),
            execution_time: extract_execution_time(message),
            plan_summary: extract_plan_summary(message),
            command: if write {
                extract_command_write(message)
            } else {
                extract_command_read(message)
            },
            db: if write {
                extract_db_write(message)
            } else {
                extract_db_read(message)
            },
            collection: if write {
                extract_coll_write(message)
            } else {
                extract_coll_read(message)
            },
        }
    }

    /// Parses one raw line into a record, or reports why it was skipped.
    pub fn parse_line(&self, line: &[u8]) -> (r: Result<ParsedRecord, ParseError>)
        ensures
            match r {
                Ok(rec) => spec_parse_line(line@) == Ok::<RecordModel, ParseError>(rec@),
                Err(err) => spec_parse_line(line@) == Err::<RecordModel, ParseError>(err),
            },
    {
        let env = match match_line(line) {
            None => {
                return Err(ParseError::NoStructuralMatch);
            },
            Some(env) => env,
        };
        let ms = match parse_timestamp_millis(env.timestamp.as_slice()) {
            None => {
                return Err(ParseError::BadTimestamp);
            },
            Some(ms) => ms,
        };
        let q = self.get_metrics_from_string(env.message.as_slice(), env.component.as_slice());
        let rec = ParsedRecord {
            timestamp: ms,
            severity: env.severity,
            component: env.component,
            message_raw: env.message,
            execution_time: q.execution_time,
            plan_summary: opt_field(q.plan_summary),
            command: opt_field(q.command),
            db: opt_field(q.db),
            collection: opt_field(q.collection),
            metrics: q.metrics,
        };
        Ok(rec)
    }
}

// ---- laws of the parser ----------------------------------------------------

/// A line that fails the envelope pattern yields the structural error, and
/// only such a line does; no record is produced for it.
pub proof fn lemma_no_match_is_structural_error(l: Seq<u8>)
    ensures
        (spec_match_line(l) is None) <==> (spec_parse_line(l) == Err::<RecordModel, ParseError>(
            ParseError::NoStructuralMatch,
        )),
{
}

/// Parsing is a pure function of the line: two parses of equal lines agree in
/// every field, timestamps and metrics included.
pub proof fn lemma_parse_line_deterministic(l1: Seq<u8>, l2: Seq<u8>)
    requires
        l1 == l2,
    ensures
        spec_parse_line(l1) == spec_parse_line(l2),
{
}

/// Any enrichment field that resolved to the empty string is absent from the
/// record's field set.
pub proof fn lemma_empty_fields_omitted(l: Seq<u8>, rec: RecordModel)
    requires
        spec_parse_line(l) == Ok::<RecordModel, ParseError>(rec),
    ensures
        rec.plan_summary matches Some(p) ==> p.len() > 0,
        rec.command matches Some(c) ==> c.len() > 0,
        rec.db matches Some(d) ==> d.len() > 0,
        rec.collection matches Some(c) ==> c.len() > 0,
{
}

/// A timestamp token's shape around the `T` at index `x`: digits and `-`
/// before it, timestamp characters after it.
pub open spec fn timestamp_shape(ts: Seq<u8>, x: int) -> bool {
    &&& 0 < x < ts.len()
    &&& ts[x] == 84
    &&& forall|y: int| 0 <= y < x ==> is_ts_head(ts[y])
    &&& forall|y: int| x < y < ts.len() ==> is_ts_tail(ts[y])
}

/// The structural facts that hold of the four groups of a matched line: the
/// timestamp is the line's first blank-delimited token, shaped around its
/// `T`; the severity is a single upper-case letter; the component is a
/// non-empty token of upper-case letters and `_`; and the message is the
/// verbatim remainder of the line, running to its end.
pub open spec fn envelope_groups(l: Seq<u8>, e: EnvelopeModel) -> bool {
    &&& 3 <= e.timestamp.len() < l.len()
    &&& e.timestamp == l.subrange(0, e.timestamp.len() as int)
    &&& is_ws(l[e.timestamp.len() as int])
    &&& exists|x: int| timestamp_shape(e.timestamp, x)
    &&& is_upper(e.severity)
    &&& e.component.len() >= 1
    &&& forall|x: int| 0 <= x < e.component.len() ==> is_upper_tok(e.component[x])
    &&& 1 <= e.message.len() <= l.len()
    &&& e.message == l.subrange(l.len() - e.message.len(), l.len() as int)
}

/// A structurally matched line yields exactly the four groups, with the
/// message the verbatim remainder of the line.
pub proof fn lemma_match_line_groups(l: Seq<u8>)
    requires
        spec_match_line(l) is Some,
    ensures
        envelope_groups(l, spec_match_line(l)->Some_0),
{
    let e = spec_match_line(l)->Some_0;
    let t = spec_find(l, 0, ByteClass::Exact(84))->Some_0;
    lemma_find_first(l, 0, ByteClass::Exact(84));
    let j = spec_ts_end(l)->Some_0;
    lemma_find_first(l, t + 1, ByteClass::Ws);
    assert(e.timestamp == l.subrange(0, j));
    assert(e.timestamp[t] == 84);
    let k = spec_sev_pos(l)->Some_0;
    lemma_find_first(l, j, ByteClass::NonWs);
    assert(is_upper(l[k]));
    let (m, c) = spec_comp_range(l)->Some_0;
    lemma_find_first(l, k + 1, ByteClass::NonWs);
    lemma_find_first(l, m, ByteClass::Ws);
    assert forall|x: int| 0 <= x < e.component.len() implies is_upper_tok(e.component[x]) by {
        assert(e.component[x] == l[m + x]);
        assert(!in_class(ByteClass::NonUpperTok, l[m + x]));
    }
    let b = spec_find(l, c, ByteClass::NonWs)->Some_0;
    lemma_find_first(l, c, ByteClass::NonWs);
    lemma_find_ctx_end_bounds(l, b + 2);
    let g = spec_msg_start(l)->Some_0;
    let ee = spec_ctx_close(l)->Some_0;
    lemma_find_first(l, ee + 1, ByteClass::NonWs);
    assert(e.message == l.subrange(g, l.len() as int));
    assert(e.message.len() == l.len() - g);
    assert forall|y: int| 0 <= y < t implies is_ts_head(e.timestamp[y]) by {
        assert(!in_class(ByteClass::NonTsHead, l[y]));
    }
    assert forall|y: int| t < y < e.timestamp.len() implies is_ts_tail(e.timestamp[y]) by {
        assert(!in_class(ByteClass::NonTsTail, l[y]));
    }
    assert(timestamp_shape(e.timestamp, t));
    assert(envelope_groups(l, e));
}

} // verus!
