//! The field-extraction rules: the envelope-independent enrichments that run
//! over a log message. Each rule has a specification function that defines the
//! grammar exactly, and an executable scanner proved equal to it. Every rule
//! is lenient: a miss yields an empty result, never an error.

use vstd::prelude::*;
use crate::pattern::{
    is_ws, is_digit, is_upper_tok, is_alpha_tok, ByteClass, spec_find, find_from,
    lemma_find_first, spec_lit_at, has_lit_at, copy_range, sat_i64, parse_digits_sat,
};

verus! {

/// The bytes of `bytesRead`.
pub open spec fn lit_bytes_read() -> Seq<u8> {
    seq![98u8, 121u8, 116u8, 101u8, 115u8, 82u8, 101u8, 97u8, 100u8]
}

pub fn lit_vec_bytes_read() -> (r: Vec<u8>)
    ensures
        r@ == lit_bytes_read(),
{
    let mut v: Vec<u8> = Vec::new();
    v.push(98u8);
    v.push(121u8);
    v.push(116u8);
    v.push(101u8);
    v.push(115u8);
    v.push(82u8);
    v.push(101u8);
    v.push(97u8);
    v.push(100u8);
    proof { assert(v@ =~= lit_bytes_read()); }
    v
}

/// The bytes of `nreturned`.
pub open spec fn lit_nreturned() -> Seq<u8> {
    seq![110u8, 114u8, 101u8, 116u8, 117u8, 114u8, 110u8, 101u8, 100u8]
}

pub fn lit_vec_nreturned() -> (r: Vec<u8>)
    ensures
        r@ == lit_nreturned(),
{
    let mut v: Vec<u8> = Vec::new();
    v.push(110u8);
    v.push(114u8);
    v.push(101u8);
    v.push(116u8);
    v.push(117u8);
    v.push(114u8);
    v.push(110u8);
    v.push(101u8);
    v.push(100u8);
    proof { assert(v@ =~= lit_nreturned()); }
    v
}

/// The bytes of `docsExamined`.
pub open spec fn lit_docs_examined() -> Seq<u8> {
    seq![100u8, 111u8, 99u8, 115u8, 69u8, 120u8, 97u8, 109u8, 105u8, 110u8, 101u8, 100u8]
}

pub fn lit_vec_docs_examined() -> (r: Vec<u8>)
    ensures
        r@ == lit_docs_examined(),
{
    let mut v: Vec<u8> = Vec::new();
    v.push(100u8);
    v.push(111u8);
    v.push(99u8);
    v.push(115u8);
    v.push(69u8);
    v.push(120u8);
    v.push(97u8);
    v.push(109u8);
    v.push(105u8);
    v.push(110u8);
    v.push(101u8);
    v.push(100u8);
    proof { assert(v@ =~= lit_docs_examined()); }
    v
}

/// The bytes of `keysExamined`.
pub open spec fn lit_keys_examined() -> Seq<u8> {
    seq![107u8, 101u8, 121u8, 115u8, 69u8, 120u8, 97u8, 109u8, 105u8, 110u8, 101u8, 100u8]
}

pub fn lit_vec_keys_examined() -> (r: Vec<u8>)
    ensures
        r@ == lit_keys_examined(),
{
    let mut v: Vec<u8> = Vec::new();
    v.push(107u8);
    v.push(101u8);
    v.push(121u8);
    v.push(115u8);
    v.push(69u8);
    v.push(120u8);
    v.push(97u8);
    v.push(109u8);
    v.push(105u8);
    v.push(110u8);
    v.push(101u8);
    v.push(100u8);
    proof { assert(v@ =~= lit_keys_examined()); }
    v
}

/// The bytes of `reslen`.
pub open spec fn lit_reslen() -> Seq<u8> {
    seq![114u8, 101u8, 115u8, 108u8, 101u8, 110u8]
}

pub fn lit_vec_reslen() -> (r: Vec<u8>)
    ensures
        r@ == lit_reslen(),
{
    let mut v: Vec<u8> = Vec::new();
    v.push(114u8);
    v.push(101u8);
    v.push(115u8);
    v.push(108u8);
    v.push(101u8);
    v.push(110u8);
    proof { assert(v@ =~= lit_reslen()); }
    v
}

/// The bytes of `planSummary: `.
pub open spec fn lit_plan_summary_key() -> Seq<u8> {
    seq![112u8, 108u8, 97u8, 110u8, 83u8, 117u8, 109u8, 109u8, 97u8, 114u8, 121u8, 58u8, 32u8]
}

pub fn lit_vec_plan_summary_key() -> (r: Vec<u8>)
    ensures
        r@ == lit_plan_summary_key(),
{
    let mut v: Vec<u8> = Vec::new();
    v.push(112u8);
    v.push(108u8);
    v.push(97u8);
    v.push(110u8);
    v.push(83u8);
    v.push(117u8);
    v.push(109u8);
    v.push(109u8);
    v.push(97u8);
    v.push(114u8);
    v.push(121u8);
    v.push(58u8);
    v.push(32u8);
    proof { assert(v@ =~= lit_plan_summary_key()); }
    v
}

/// The bytes of `command: `.
pub open spec fn lit_command_key() -> Seq<u8> {
    seq![99u8, 111u8, 109u8, 109u8, 97u8, 110u8, 100u8, 58u8, 32u8]
}

pub fn lit_vec_command_key() -> (r: Vec<u8>)
    ensures
        r@ == lit_command_key(),
{
    let mut v: Vec<u8> = Vec::new();
    v.push(99u8);
    v.push(111u8);
    v.push(109u8);
    v.push(109u8);
    v.push(97u8);
    v.push(110u8);
    v.push(100u8);
    v.push(58u8);
    v.push(32u8);
    proof { assert(v@ =~= lit_command_key()); }
    v
}

/// The bytes of the quoted-db key.
pub open spec fn lit_dollar_db_key() -> Seq<u8> {
    seq![36u8, 100u8, 98u8, 58u8, 32u8, 34u8]
}

pub fn lit_vec_dollar_db_key() -> (r: Vec<u8>)
    ensures
        r@ == lit_dollar_db_key(),
{
    let mut v: Vec<u8> = Vec::new();
    v.push(36u8);
    v.push(100u8);
    v.push(98u8);
    v.push(58u8);
    v.push(32u8);
    v.push(34u8);
    proof { assert(v@ =~= lit_dollar_db_key()); }
    v
}

/// The bytes of `update`.
pub open spec fn lit_update() -> Seq<u8> {
    seq![117u8, 112u8, 100u8, 97u8, 116u8, 101u8]
}

pub fn lit_vec_update() -> (r: Vec<u8>)
    ensures
        r@ == lit_update(),
{
    let mut v: Vec<u8> = Vec::new();
    v.push(117u8);
    v.push(112u8);
    v.push(100u8);
    v.push(97u8);
    v.push(116u8);
    v.push(101u8);
    proof { assert(v@ =~= lit_update()); }
    v
}

/// The bytes of `remove`.
pub open spec fn lit_remove() -> Seq<u8> {
    seq![114u8, 101u8, 109u8, 111u8, 118u8, 101u8]
}

pub fn lit_vec_remove() -> (r: Vec<u8>)
    ensures
        r@ == lit_remove(),
{
    let mut v: Vec<u8> = Vec::new();
    v.push(114u8);
    v.push(101u8);
    v.push(109u8);
    v.push(111u8);
    v.push(118u8);
    v.push(101u8);
    proof { assert(v@ =~= lit_remove()); }
    v
}

/// The bytes of `insert`.
pub open spec fn lit_insert() -> Seq<u8> {
    seq![105u8, 110u8, 115u8, 101u8, 114u8, 116u8]
}

pub fn lit_vec_insert() -> (r: Vec<u8>)
    ensures
        r@ == lit_insert(),
{
    let mut v: Vec<u8> = Vec::new();
    v.push(105u8);
    v.push(110u8);
    v.push(115u8);
    v.push(101u8);
    v.push(114u8);
    v.push(116u8);
    proof { assert(v@ =~= lit_insert()); }
    v
}

/// The bytes of `find`.
pub open spec fn lit_find() -> Seq<u8> {
    seq![102u8, 105u8, 110u8, 100u8]
}

pub fn lit_vec_find() -> (r: Vec<u8>)
    ensures
        r@ == lit_find(),
{
    let mut v: Vec<u8> = Vec::new();
    v.push(102u8);
    v.push(105u8);
    v.push(110u8);
    v.push(100u8);
    proof { assert(v@ =~= lit_find()); }
    v
}

/// The bytes of `aggregate`.
pub open spec fn lit_aggregate() -> Seq<u8> {
    seq![97u8, 103u8, 103u8, 114u8, 101u8, 103u8, 97u8, 116u8, 101u8]
}

pub fn lit_vec_aggregate() -> (r: Vec<u8>)
    ensures
        r@ == lit_aggregate(),
{
    let mut v: Vec<u8> = Vec::new();
    v.push(97u8);
    v.push(103u8);
    v.push(103u8);
    v.push(114u8);
    v.push(101u8);
    v.push(103u8);
    v.push(97u8);
    v.push(116u8);
    v.push(101u8);
    proof { assert(v@ =~= lit_aggregate()); }
    v
}

/// The bytes of `count`.
pub open spec fn lit_count() -> Seq<u8> {
    seq![99u8, 111u8, 117u8, 110u8, 116u8]
}

pub fn lit_vec_count() -> (r: Vec<u8>)
    ensures
        r@ == lit_count(),
{
    let mut v: Vec<u8> = Vec::new();
    v.push(99u8);
    v.push(111u8);
    v.push(117u8);
    v.push(110u8);
    v.push(116u8);
    proof { assert(v@ =~= lit_count()); }
    v
}

/// The bytes of `distinct`.
pub open spec fn lit_distinct() -> Seq<u8> {
    seq![100u8, 105u8, 115u8, 116u8, 105u8, 110u8, 99u8, 116u8]
}

pub fn lit_vec_distinct() -> (r: Vec<u8>)
    ensures
        r@ == lit_distinct(),
{
    let mut v: Vec<u8> = Vec::new();
    v.push(100u8);
    v.push(105u8);
    v.push(115u8);
    v.push(116u8);
    v.push(105u8);
    v.push(110u8);
    v.push(99u8);
    v.push(116u8);
    proof { assert(v@ =~= lit_distinct()); }
    v
}

/// The bytes of `findAndModify`.
pub open spec fn lit_find_and_modify() -> Seq<u8> {
    seq![102u8, 105u8, 110u8, 100u8, 65u8, 110u8, 100u8, 77u8, 111u8, 100u8, 105u8, 102u8, 121u8]
}

pub fn lit_vec_find_and_modify() -> (r: Vec<u8>)
    ensures
        r@ == lit_find_and_modify(),
{
    let mut v: Vec<u8> = Vec::new();
    v.push(102u8);
    v.push(105u8);
    v.push(110u8);
    v.push(100u8);
    v.push(65u8);
    v.push(110u8);
    v.push(100u8);
    v.push(77u8);
    v.push(111u8);
    v.push(100u8);
    v.push(105u8);
    v.push(102u8);
    v.push(121u8);
    proof { assert(v@ =~= lit_find_and_modify()); }
    v
}

/// The bytes of `WRITE`.
pub open spec fn lit_write_component() -> Seq<u8> {
    seq![87u8, 82u8, 73u8, 84u8, 69u8]
}

pub fn lit_vec_write_component() -> (r: Vec<u8>)
    ensures
        r@ == lit_write_component(),
{
    let mut v: Vec<u8> = Vec::new();
    v.push(87u8);
    v.push(82u8);
    v.push(73u8);
    v.push(84u8);
    v.push(69u8);
    proof { assert(v@ =~= lit_write_component()); }
    v
}

// ---- metric pairs -------------------------------------------------------

/// A metric name the extraction rules know about.
#[derive(Clone, Copy, Debug, PartialEq, Eq, Structural)]
pub enum MetricName {
    BytesRead,
    Nreturned,
    DocsExamined,
    KeysExamined,
    Reslen,
}

pub open spec fn metric_lit(m: MetricName) -> Seq<u8> {
    match m {
        MetricName::BytesRead => lit_bytes_read(),
        MetricName::Nreturned => lit_nreturned(),
        MetricName::DocsExamined => lit_docs_examined(),
        MetricName::KeysExamined => lit_keys_examined(),
        MetricName::Reslen => lit_reslen(),
    }
}

/// The metric name whose literal occurs at `i`, if any. The five names start
/// with five distinct bytes, so at most one can occur at a given index.
pub open spec fn spec_metric_name_at(s: Seq<u8>, i: int) -> Option<MetricName> {
    if spec_lit_at(s, i, lit_bytes_read()) {
        Some(MetricName::BytesRead)
    } else if spec_lit_at(s, i, lit_nreturned()) {
        Some(MetricName::Nreturned)
    } else if spec_lit_at(s, i, lit_docs_examined()) {
        Some(MetricName::DocsExamined)
    } else if spec_lit_at(s, i, lit_keys_examined()) {
        Some(MetricName::KeysExamined)
    } else if spec_lit_at(s, i, lit_reslen()) {
        Some(MetricName::Reslen)
    } else {
        None
    }
}

fn metric_name_at(v: &[u8], i: usize) -> (r: Option<MetricName>)
    ensures
        r == spec_metric_name_at(v@, i as int),
{
    let l0 = lit_vec_bytes_read();
    let l1 = lit_vec_nreturned();
    let l2 = lit_vec_docs_examined();
    let l3 = lit_vec_keys_examined();
    let l4 = lit_vec_reslen();
    if has_lit_at(v, i, l0.as_slice()) {
        Some(MetricName::BytesRead)
    } else if has_lit_at(v, i, l1.as_slice()) {
        Some(MetricName::Nreturned)
    } else if has_lit_at(v, i, l2.as_slice()) {
        Some(MetricName::DocsExamined)
    } else if has_lit_at(v, i, l3.as_slice()) {
        Some(MetricName::KeysExamined)
    } else if has_lit_at(v, i, l4.as_slice()) {
        Some(MetricName::Reslen)
    } else {
        None
    }
}

/// First index at or after `i` that is not a digit; the sequence's length when
/// every remaining byte is one.
pub open spec fn spec_digit_run_end(s: Seq<u8>, i: int) -> int {
    match spec_find(s, i, ByteClass::NonDigit) {
        None => s.len() as int,
        Some(j) => j,
    }
}

/// After a metric name ending at `p`: an optional `:`, an optional single
/// blank, then at least one digit. Yields the digit run's bounds.
pub open spec fn spec_metric_tail(s: Seq<u8>, p: int) -> Option<(int, int)> {
    let p2 = if 0 <= p < s.len() && s[p] == 58 {
        p + 1
    } else {
        p
    };
    let p3 = if 0 <= p2 < s.len() && is_ws(s[p2]) {
        p2 + 1
    } else {
        p2
    };
    if 0 <= p3 < s.len() && is_digit(s[p3]) {
        Some((p3, spec_digit_run_end(s, p3)))
    } else {
        None
    }
}

fn metric_tail(v: &[u8], p: usize) -> (r: Option<(usize, usize)>)
    requires
        p <= v@.len(),
    ensures
        match r {
            Some((d, e)) => {
                &&& spec_metric_tail(v@, p as int) == Some((d as int, e as int))
                &&& p <= d < e <= v@.len()
                &&& forall|k: int| d <= k < e ==> is_digit(v@[k])
            },
            None => spec_metric_tail(v@, p as int) is None,
        },
{
    let p2 = if p < v.len() && v[p] == 58 {
        p + 1
    } else {
        p
    };
    let p3 = if p2 < v.len() && (v[p2] == 32 || v[p2] == 9) {
        p2 + 1
    } else {
        p2
    };
    if p3 < v.len() && v[p3] >= 48 && v[p3] <= 57 {
        let e = match find_from(v, p3, ByteClass::NonDigit) {
            None => v.len(),
            Some(j) => j,
        };
        proof {
            lemma_find_first(v@, p3 as int, ByteClass::NonDigit);
        }
        Some((p3, e))
    } else {
        None
    }
}

/// Every non-overlapping metric pair at or after `i`, in order of occurrence.
pub open spec fn spec_metrics_from(s: Seq<u8>, i: int) -> Seq<(MetricName, i64)>
    decreases s.len() - i,
{
    if i < 0 || i >= s.len() {
        Seq::empty()
    } else {
        match spec_metric_name_at(s, i) {
            Some(m) => match spec_metric_tail(s, i + metric_lit(m).len()) {
                Some((d, e)) => {
                    // the digit run always ends past i and inside the sequence;
                    // the bound below only serves the termination measure
                    let nxt = if i < e <= s.len() {
                        e
                    } else {
                        i + 1
                    };
                    seq![(m, sat_i64(s.subrange(d, e)))] + spec_metrics_from(s, nxt)
                },
                None => spec_metrics_from(s, i + 1),
            },
            None => spec_metrics_from(s, i + 1),
        }
    }
}

pub open spec fn spec_metrics(s: Seq<u8>) -> Seq<(MetricName, i64)> {
    spec_metrics_from(s, 0)
}

fn metric_lit_len(m: MetricName) -> (r: usize)
    ensures
        r == metric_lit(m).len(),
{
    match m {
        MetricName::BytesRead => 9,
        MetricName::Nreturned => 9,
        MetricName::DocsExamined => 12,
        MetricName::KeysExamined => 12,
        MetricName::Reslen => 6,
    }
}

fn metrics_from(v: &[u8], i: usize) -> (r: Vec<(MetricName, i64)>)
    ensures
        r@ == spec_metrics_from(v@, i as int),
    decreases v@.len() - i,
{
    if i >= v.len() {
        let r: Vec<(MetricName, i64)> = Vec::new();
        proof {
            assert(r@ =~= spec_metrics_from(v@, i as int));
        }
        r
    } else {
        match metric_name_at(v, i) {
            Some(m) => {
                proof {
                    assert(i + metric_lit(m).len() <= v@.len());
                }
                let p = i + metric_lit_len(m);
                match metric_tail(v, p) {
                    Some((d, e)) => {
                        let val = parse_digits_sat(v, d, e);
                        let mut rest = metrics_from(v, e);
                        let mut r: Vec<(MetricName, i64)> = Vec::new();
                        r.push((m, val));
                        r.append(&mut rest);
                        proof {
                            assert(r@ =~= seq![(m, val)] + spec_metrics_from(v@, e as int));
                        }
                        r
                    },
                    None => metrics_from(v, i + 1),
                }
            },
            None => metrics_from(v, i + 1),
        }
    }
}

/// Every metric pair of the message, in order of occurrence.
pub fn extract_metrics(v: &[u8]) -> (r: Vec<(MetricName, i64)>)
    ensures
        r@ == spec_metrics(v@),
{
    metrics_from(v, 0)
}

// ---- execution time -----------------------------------------------------

/// Start of the digit run that ends just before `i`.
pub open spec fn spec_digits_run_start(s: Seq<u8>, i: int) -> int
    decreases i,
{
    if 0 < i <= s.len() && is_digit(s[i - 1]) {
        spec_digits_run_start(s, i - 1)
    } else {
        i
    }
}

/// The trailing `<digits>ms` token of a message, read as an integer;
/// `0` when the message does not end in one.
pub open spec fn spec_exec_time(s: Seq<u8>) -> i64 {
    let n = s.len() as int;
    if n >= 3 && s[n - 1] == 115 && s[n - 2] == 109 && is_digit(s[n - 3]) {
        sat_i64(s.subrange(spec_digits_run_start(s, n - 2), n - 2))
    } else {
        0
    }
}

fn digits_run_start(v: &[u8], i: usize) -> (r: usize)
    requires
        i <= v@.len(),
    ensures
        r as int == spec_digits_run_start(v@, i as int),
        r <= i,
        forall|k: int| r <= k < i ==> is_digit(v@[k]),
    decreases i,
{
    if i > 0 && v[i - 1] >= 48 && v[i - 1] <= 57 {
        digits_run_start(v, i - 1)
    } else {
        i
    }
}

/// The trailing `<digits>ms` token, or `0` when there is none.
pub fn extract_execution_time(v: &[u8]) -> (r: i64)
    ensures
        r == spec_exec_time(v@),
{
    let n = v.len();
    if n >= 3 && v[n - 1] == 115 && v[n - 2] == 109 && v[n - 3] >= 48 && v[n - 3] <= 57 {
        let st = digits_run_start(v, n - 2);
        parse_digits_sat(v, st, n - 2)
    } else {
        0
    }
}

// ---- plan summary -------------------------------------------------------

/// First index at or after `i` that is not an upper-case letter or `_`.
pub open spec fn spec_upper_run_end(s: Seq<u8>, i: int) -> int {
    match spec_find(s, i, ByteClass::NonUpperTok) {
        None => s.len() as int,
        Some(j) => j,
    }
}

fn upper_run_end(v: &[u8], i: usize) -> (r: usize)
    requires
        i <= v@.len(),
    ensures
        r as int == spec_upper_run_end(v@, i as int),
        i <= r <= v@.len(),
{
    match find_from(v, i, ByteClass::NonUpperTok) {
        None => v.len(),
        Some(j) => j,
    }
}

/// First index where the plan-summary key occurs followed by its token.
pub open spec fn spec_find_plan(s: Seq<u8>, i: int) -> Option<int>
    decreases s.len() - i,
{
    if i < 0 || i >= s.len() {
        None
    } else if spec_lit_at(s, i, lit_plan_summary_key()) && i + 13 < s.len() && is_upper_tok(
        s[i + 13],
    ) {
        Some(i)
    } else {
        spec_find_plan(s, i + 1)
    }
}

/// The token after the first `planSummary: ` key; empty when there is none.
pub open spec fn spec_plan_summary(s: Seq<u8>) -> Seq<u8> {
    match spec_find_plan(s, 0) {
        None => Seq::empty(),
        Some(i) => s.subrange(i + 13, spec_upper_run_end(s, i + 13)),
    }
}

fn find_plan(v: &[u8], i: usize, key: &[u8]) -> (r: Option<usize>)
    requires
        key@ == lit_plan_summary_key(),
    ensures
        match r {
            Some(j) => spec_find_plan(v@, i as int) == Some(j as int) && j + 14 <= v@.len(),
            None => spec_find_plan(v@, i as int) is None,
        },
    decreases v@.len() - i,
{
    if i >= v.len() {
        None
    } else if has_lit_at(v, i, key) && i + 13 < v.len() && (v[i + 13] == 95 || (v[i + 13] >= 65
        && v[i + 13] <= 90)) {
        Some(i)
    } else {
        find_plan(v, i + 1, key)
    }
}

/// The `planSummary: <TOKEN>` enrichment; empty when the key is absent.
pub fn extract_plan_summary(v: &[u8]) -> (r: Vec<u8>)
    ensures
        r@ == spec_plan_summary(v@),
{
    let n = v.len();
    let key = lit_vec_plan_summary_key();
    match find_plan(v, 0, key.as_slice()) {
        None => {
            let r: Vec<u8> = Vec::new();
            proof {
                assert(r@ =~= spec_plan_summary(v@));
            }
            r
        },
        Some(i) => {
            let e = upper_run_end(v, i + 13);
            copy_range(v, i + 13, e)
        },
    }
}

// ---- write-path rules: verb, db, collection -----------------------------

/// An imperative verb of the write path.
#[derive(Clone, Copy, Debug, PartialEq, Eq, Structural)]
pub enum Verb {
    Update,
    Remove,
    Insert,
}

pub open spec fn verb_lit(vb: Verb) -> Seq<u8> {
    match vb {
        Verb::Update => lit_update(),
        Verb::Remove => lit_remove(),
        Verb::Insert => lit_insert(),
    }
}

/// The verb whose literal occurs at `i`, if any. The three verbs start with
/// three distinct bytes, so at most one can occur at a given index.
pub open spec fn spec_verb_at(s: Seq<u8>, i: int) -> Option<Verb> {
    if spec_lit_at(s, i, lit_update()) {
        Some(Verb::Update)
    } else if spec_lit_at(s, i, lit_remove()) {
        Some(Verb::Remove)
    } else if spec_lit_at(s, i, lit_insert()) {
        Some(Verb::Insert)
    } else {
        None
    }
}

fn verb_at(v: &[u8], i: usize) -> (r: Option<Verb>)
    ensures
        r == spec_verb_at(v@, i as int),
{
    let up = lit_vec_update();
    let rm = lit_vec_remove();
    let ins = lit_vec_insert();
    if has_lit_at(v, i, up.as_slice()) {
        Some(Verb::Update)
    } else if has_lit_at(v, i, rm.as_slice()) {
        Some(Verb::Remove)
    } else if has_lit_at(v, i, ins.as_slice()) {
        Some(Verb::Insert)
    } else {
        None
    }
}

/// First index at or after `i` where a verb occurs.
pub open spec fn spec_find_verb(s: Seq<u8>, i: int) -> Option<int>
    decreases s.len() - i,
{
    if i < 0 || i >= s.len() {
        None
    } else if spec_verb_at(s, i) is Some {
        Some(i)
    } else {
        spec_find_verb(s, i + 1)
    }
}

/// The first verb of a write-path message; empty when there is none.
pub open spec fn spec_command_write(s: Seq<u8>) -> Seq<u8> {
    match spec_find_verb(s, 0) {
        None => Seq::empty(),
        Some(i) => match spec_verb_at(s, i) {
            Some(vb) => verb_lit(vb),
            None => Seq::empty(),
        },
    }
}

fn find_verb(v: &[u8], i: usize) -> (r: Option<(usize, Verb)>)
    ensures
        match r {
            Some((j, vb)) => spec_find_verb(v@, i as int) == Some(j as int) && spec_verb_at(
                v@,
                j as int,
            ) == Some(vb),
            None => spec_find_verb(v@, i as int) is None,
        },
    decreases v@.len() - i,
{
    if i >= v.len() {
        None
    } else {
        match verb_at(v, i) {
            Some(vb) => Some((i, vb)),
            None => find_verb(v, i + 1),
        }
    }
}

fn verb_vec(vb: Verb) -> (r: Vec<u8>)
    ensures
        r@ == verb_lit(vb),
{
    match vb {
        Verb::Update => lit_vec_update(),
        Verb::Remove => lit_vec_remove(),
        Verb::Insert => lit_vec_insert(),
    }
}

/// The write-path `command` enrichment: the first verb of the message.
pub fn extract_command_write(v: &[u8]) -> (r: Vec<u8>)
    ensures
        r@ == spec_command_write(v@),
{
    match find_verb(v, 0) {
        None => {
            let r: Vec<u8> = Vec::new();
            proof {
                assert(r@ =~= spec_command_write(v@));
            }
            r
        },
        Some((_, vb)) => verb_vec(vb),
    }
}

/// A verb at `i` followed by a blank, the run of blanks, and a later `.`:
/// yields the bounds of the database name between them.
pub open spec fn spec_db_write_at(s: Seq<u8>, i: int) -> Option<(int, int)> {
    match spec_verb_at(s, i) {
        None => None,
        Some(vb) => {
            let p = i + verb_lit(vb).len();
            if 0 <= p < s.len() && is_ws(s[p]) {
                match spec_find(s, p, ByteClass::NonWs) {
                    None => None,
                    Some(q) => match spec_find(s, q + 1, ByteClass::Exact(46)) {
                        None => None,
                        Some(dot) => Some((q, dot)),
                    },
                }
            } else {
                None
            }
        },
    }
}

fn db_write_at(v: &[u8], i: usize) -> (r: Option<(usize, usize)>)
    requires
        i < v@.len(),
    ensures
        match r {
            Some((q, dot)) => spec_db_write_at(v@, i as int) == Some((q as int, dot as int))
                && i <= q < dot < v@.len(),
            None => spec_db_write_at(v@, i as int) is None,
        },
{
    let n = v.len();
    match verb_at(v, i) {
        None => None,
        Some(vb) => {
            proof {
                assert(i + verb_lit(vb).len() <= v@.len());
                assert(verb_lit(vb).len() == 6);
            }
            let p = i + 6;
            if p < v.len() && (v[p] == 32 || v[p] == 9) {
                match find_from(v, p, ByteClass::NonWs) {
                    None => None,
                    Some(q) => match find_from(v, q + 1, ByteClass::Exact(46)) {
                        None => None,
                        Some(dot) => Some((q, dot)),
                    },
                }
            } else {
                None
            }
        },
    }
}

pub open spec fn spec_find_db_write(s: Seq<u8>, i: int) -> Option<(int, int)>
    decreases s.len() - i,
{
    if i < 0 || i >= s.len() {
        None
    } else {
        match spec_db_write_at(s, i) {
            Some(r) => Some(r),
            None => spec_find_db_write(s, i + 1),
        }
    }
}

/// The write-path `db` enrichment: the token between the first verb's
/// trailing blanks and the next `.`; empty when no verb is followed by one.
pub open spec fn spec_db_write(s: Seq<u8>) -> Seq<u8> {
    match spec_find_db_write(s, 0) {
        None => Seq::empty(),
        Some((q, dot)) => s.subrange(q, dot),
    }
}

fn find_db_write(v: &[u8], i: usize) -> (r: Option<(usize, usize)>)
    ensures
        match r {
            Some((q, dot)) => spec_find_db_write(v@, i as int) == Some((q as int, dot as int))
                && q < dot < v@.len(),
            None => spec_find_db_write(v@, i as int) is None,
        },
    decreases v@.len() - i,
{
    if i >= v.len() {
        None
    } else {
        match db_write_at(v, i) {
            Some(r) => Some(r),
            None => find_db_write(v, i + 1),
        }
    }
}

pub fn extract_db_write(v: &[u8]) -> (r: Vec<u8>)
    ensures
        r@ == spec_db_write(v@),
{
    match find_db_write(v, 0) {
        None => {
            let r: Vec<u8> = Vec::new();
            proof {
                assert(r@ =~= spec_db_write(v@));
            }
            r
        },
        Some((q, dot)) => copy_range(v, q, dot),
    }
}

/// The write-path collection: after the `.` that ends the database name,
/// the bytes up to the next blank, which must exist.
pub open spec fn spec_coll_write_at(s: Seq<u8>, i: int) -> Option<(int, int)> {
    match spec_db_write_at(s, i) {
        None => None,
        Some((q, dot)) => match spec_find(s, dot + 2, ByteClass::Ws) {
            None => None,
            Some(w) => Some((dot + 1, w)),
        },
    }
}

pub open spec fn spec_find_coll_write(s: Seq<u8>, i: int) -> Option<(int, int)>
    decreases s.len() - i,
{
    if i < 0 || i >= s.len() {
        None
    } else {
        match spec_coll_write_at(s, i) {
            Some(r) => Some(r),
            None => spec_find_coll_write(s, i + 1),
        }
    }
}

pub open spec fn spec_coll_write(s: Seq<u8>) -> Seq<u8> {
    match spec_find_coll_write(s, 0) {
        None => Seq::empty(),
        Some((a, w)) => s.subrange(a, w),
    }
}

fn coll_write_at(v: &[u8], i: usize) -> (r: Option<(usize, usize)>)
    requires
        i < v@.len(),
    ensures
        match r {
            Some((a, w)) => spec_coll_write_at(v@, i as int) == Some((a as int, w as int))
                && a <= w < v@.len(),
            None => spec_coll_write_at(v@, i as int) is None,
        },
{
    match db_write_at(v, i) {
        None => None,
        Some((_, dot)) => {
            if v.len() - dot >= 2 {
                match find_from(v, dot + 2, ByteClass::Ws) {
                    None => None,
                    Some(w) => Some((dot + 1, w)),
                }
            } else {
                proof {
                    assert(spec_find(v@, dot + 2, ByteClass::Ws) is None);
                }
                None
            }
        },
    }
}

fn find_coll_write(v: &[u8], i: usize) -> (r: Option<(usize, usize)>)
    ensures
        match r {
            Some((a, w)) => spec_find_coll_write(v@, i as int) == Some((a as int, w as int))
                && a <= w < v@.len(),
            None => spec_find_coll_write(v@, i as int) is None,
        },
    decreases v@.len() - i,
{
    if i >= v.len() {
        None
    } else {
        match coll_write_at(v, i) {
            Some(r) => Some(r),
            None => find_coll_write(v, i + 1),
        }
    }
}

pub fn extract_coll_write(v: &[u8]) -> (r: Vec<u8>)
    ensures
        r@ == spec_coll_write(v@),
{
    match find_coll_write(v, 0) {
        None => {
            let r: Vec<u8> = Vec::new();
            proof {
                assert(r@ =~= spec_coll_write(v@));
            }
            r
        },
        Some((a, w)) => copy_range(v, a, w),
    }
}

// ---- read-path rules: command, db, collection ---------------------------

/// First index at or after `i` that is not a letter or `_`.
pub open spec fn spec_alpha_run_end(s: Seq<u8>, i: int) -> int {
    match spec_find(s, i, ByteClass::NonAlphaTok) {
        None => s.len() as int,
        Some(j) => j,
    }
}

fn alpha_run_end(v: &[u8], i: usize) -> (r: usize)
    requires
        i <= v@.len(),
    ensures
        r as int == spec_alpha_run_end(v@, i as int),
        i <= r <= v@.len(),
{
    match find_from(v, i, ByteClass::NonAlphaTok) {
        None => v.len(),
        Some(j) => j,
    }
}

/// A `command: ` key at `i` followed by at least one name character:
/// yields the bounds of the command name.
pub open spec fn spec_cmd_read_at(s: Seq<u8>, i: int) -> Option<(int, int)> {
    if spec_lit_at(s, i, lit_command_key()) && i + 9 < s.len() && is_alpha_tok(s[i + 9]) {
        Some((i + 9, spec_alpha_run_end(s, i + 9)))
    } else {
        None
    }
}

pub open spec fn spec_find_cmd_read(s: Seq<u8>, i: int) -> Option<(int, int)>
    decreases s.len() - i,
{
    if i < 0 || i >= s.len() {
        None
    } else {
        match spec_cmd_read_at(s, i) {
            Some(r) => Some(r),
            None => spec_find_cmd_read(s, i + 1),
        }
    }
}

/// The read-path `command` enrichment: the name after the first
/// `command: ` key; empty when the key is absent.
pub open spec fn spec_command_read(s: Seq<u8>) -> Seq<u8> {
    match spec_find_cmd_read(s, 0) {
        None => Seq::empty(),
        Some((a, e)) => s.subrange(a, e),
    }
}

fn find_cmd_read(v: &[u8], i: usize, key: &[u8]) -> (r: Option<(usize, usize)>)
    requires
        key@ == lit_command_key(),
    ensures
        match r {
            Some((a, e)) => spec_find_cmd_read(v@, i as int) == Some((a as int, e as int))
                && a <= e <= v@.len(),
            None => spec_find_cmd_read(v@, i as int) is None,
        },
    decreases v@.len() - i,
{
    let n = v.len();
    if i >= n {
        None
    } else if has_lit_at(v, i, key) && n - i > 9 && (v[i + 9] == 95 || (v[i + 9] >= 65 && v[i + 9]
        <= 90) || (v[i + 9] >= 97 && v[i + 9] <= 122)) {
        let e = alpha_run_end(v, i + 9);
        Some((i + 9, e))
    } else {
        find_cmd_read(v, i + 1, key)
    }
}

pub fn extract_command_read(v: &[u8]) -> (r: Vec<u8>)
    ensures
        r@ == spec_command_read(v@),
{
    let key = lit_vec_command_key();
    match find_cmd_read(v, 0, key.as_slice()) {
        None => {
            let r: Vec<u8> = Vec::new();
            proof {
                assert(r@ =~= spec_command_read(v@));
            }
            r
        },
        Some((a, e)) => copy_range(v, a, e),
    }
}

/// A `$db: "` key at `i` with a later closing quote: yields the bounds of
/// the quoted database name.
pub open spec fn spec_db_read_at(s: Seq<u8>, i: int) -> Option<(int, int)> {
    if spec_lit_at(s, i, lit_dollar_db_key()) {
        match spec_find(s, i + 7, ByteClass::Exact(34)) {
            None => None,
            Some(c) => Some((i + 6, c)),
        }
    } else {
        None
    }
}

pub open spec fn spec_find_db_read(s: Seq<u8>, i: int) -> Option<(int, int)>
    decreases s.len() - i,
{
    if i < 0 || i >= s.len() {
        None
    } else {
        match spec_db_read_at(s, i) {
            Some(r) => Some(r),
            None => spec_find_db_read(s, i + 1),
        }
    }
}

/// The read-path `db` enrichment: the quoted name after the first `$db`
/// field; empty when the field is absent.
pub open spec fn spec_db_read(s: Seq<u8>) -> Seq<u8> {
    match spec_find_db_read(s, 0) {
        None => Seq::empty(),
        Some((a, c)) => s.subrange(a, c),
    }
}

fn db_read_at(v: &[u8], i: usize, key: &[u8]) -> (r: Option<(usize, usize)>)
    requires
        key@ == lit_dollar_db_key(),
    ensures
        match r {
            Some((a, c)) => spec_db_read_at(v@, i as int) == Some((a as int, c as int))
                && a <= c <= v@.len(),
            None => spec_db_read_at(v@, i as int) is None,
        },
{
    let n = v.len();
    if has_lit_at(v, i, key) {
        if n - i >= 7 {
            match find_from(v, i + 7, ByteClass::Exact(34)) {
                None => None,
                Some(c) => Some((i + 6, c)),
            }
        } else {
            proof {
                assert(spec_find(v@, i + 7, ByteClass::Exact(34)) is None);
            }
            None
        }
    } else {
        None
    }
}

fn find_db_read(v: &[u8], i: usize, key: &[u8]) -> (r: Option<(usize, usize)>)
    requires
        key@ == lit_dollar_db_key(),
    ensures
        match r {
            Some((a, c)) => spec_find_db_read(v@, i as int) == Some((a as int, c as int))
                && a <= c <= v@.len(),
            None => spec_find_db_read(v@, i as int) is None,
        },
    decreases v@.len() - i,
{
    if i >= v.len() {
        None
    } else {
        match db_read_at(v, i, key) {
            Some(r) => Some(r),
            None => find_db_read(v, i + 1, key),
        }
    }
}

pub fn extract_db_read(v: &[u8]) -> (r: Vec<u8>)
    ensures
        r@ == spec_db_read(v@),
{
    let key = lit_vec_dollar_db_key();
    match find_db_read(v, 0, key.as_slice()) {
        None => {
            let r: Vec<u8> = Vec::new();
            proof {
                assert(r@ =~= spec_db_read(v@));
            }
            r
        },
        Some((a, c)) => copy_range(v, a, c),
    }
}

/// A read keyword at `i` followed directly by `:`: yields the index just
/// after the `:`. `findAndModify` is tried before its prefix `find`; the
/// trailing `:` makes at most one keyword fit at a given index.
pub open spec fn spec_read_kw_end(s: Seq<u8>, i: int) -> Option<int> {
    if spec_lit_at(s, i, lit_find_and_modify()) && i + 13 < s.len() && s[i + 13] == 58 {
        Some(i + 14)
    } else if spec_lit_at(s, i, lit_find()) && i + 4 < s.len() && s[i + 4] == 58 {
        Some(i + 5)
    } else if spec_lit_at(s, i, lit_aggregate()) && i + 9 < s.len() && s[i + 9] == 58 {
        Some(i + 10)
    } else if spec_lit_at(s, i, lit_count()) && i + 5 < s.len() && s[i + 5] == 58 {
        Some(i + 6)
    } else if spec_lit_at(s, i, lit_distinct()) && i + 8 < s.len() && s[i + 8] == 58 {
        Some(i + 9)
    } else {
        None
    }
}

/// A read keyword with `:`, at least one blank, a quote, and a later closing
/// quote: yields the bounds of the quoted collection name.
pub open spec fn spec_coll_read_at(s: Seq<u8>, i: int) -> Option<(int, int)> {
    match spec_read_kw_end(s, i) {
        None => None,
        Some(j) => if j < s.len() && is_ws(s[j]) {
            match spec_find(s, j, ByteClass::NonWs) {
                None => None,
                Some(q) => if s[q] == 34 {
                    match spec_find(s, q + 2, ByteClass::Exact(34)) {
                        None => None,
                        Some(c) => Some((q + 1, c)),
                    }
                } else {
                    None
                },
            }
        } else {
            None
        },
    }
}

pub open spec fn spec_find_coll_read(s: Seq<u8>, i: int) -> Option<(int, int)>
    decreases s.len() - i,
{
    if i < 0 || i >= s.len() {
        None
    } else {
        match spec_coll_read_at(s, i) {
            Some(r) => Some(r),
            None => spec_find_coll_read(s, i + 1),
        }
    }
}

/// The read-path `collection` enrichment: the quoted name after the first
/// operation keyword; empty when no keyword is followed by one.
pub open spec fn spec_coll_read(s: Seq<u8>) -> Seq<u8> {
    match spec_find_coll_read(s, 0) {
        None => Seq::empty(),
        Some((a, c)) => s.subrange(a, c),
    }
}

struct ReadKeys {
    find: Vec<u8>,
    aggregate: Vec<u8>,
    count: Vec<u8>,
    distinct: Vec<u8>,
    find_and_modify: Vec<u8>,
}

impl ReadKeys {
    spec fn wf(&self) -> bool {
        &&& self.find@ == lit_find()
        &&& self.aggregate@ == lit_aggregate()
        &&& self.count@ == lit_count()
        &&& self.distinct@ == lit_distinct()
        &&& self.find_and_modify@ == lit_find_and_modify()
    }
}

fn read_kw_end(v: &[u8], i: usize, keys: &ReadKeys) -> (r: Option<usize>)
    requires
        keys.wf(),
    ensures
        match r {
            Some(j) => spec_read_kw_end(v@, i as int) == Some(j as int) && i < j <= v@.len(),
            None => spec_read_kw_end(v@, i as int) is None,
        },
{
    let n = v.len();
    if has_lit_at(v, i, keys.find_and_modify.as_slice()) && n - i > 13 && v[i + 13] == 58 {
        Some(i + 14)
    } else if has_lit_at(v, i, keys.find.as_slice()) && n - i > 4 && v[i + 4] == 58 {
        Some(i + 5)
    } else if has_lit_at(v, i, keys.aggregate.as_slice()) && n - i > 9 && v[i + 9] == 58 {
        Some(i + 10)
    } else if has_lit_at(v, i, keys.count.as_slice()) && n - i > 5 && v[i + 5] == 58 {
        Some(i + 6)
    } else if has_lit_at(v, i, keys.distinct.as_slice()) && n - i > 8 && v[i + 8] == 58 {
        Some(i + 9)
    } else {
        None
    }
}

fn coll_read_at(v: &[u8], i: usize, keys: &ReadKeys) -> (r: Option<(usize, usize)>)
    requires
        keys.wf(),
    ensures
        match r {
            Some((a, c)) => spec_coll_read_at(v@, i as int) == Some((a as int, c as int))
                && a <= c <= v@.len(),
            None => spec_coll_read_at(v@, i as int) is None,
        },
{
    match read_kw_end(v, i, keys) {
        None => None,
        Some(j) => if j < v.len() && (v[j] == 32 || v[j] == 9) {
            match find_from(v, j, ByteClass::NonWs) {
                None => None,
                Some(q) => if v[q] == 34 {
                    if v.len() - q >= 2 {
                        match find_from(v, q + 2, ByteClass::Exact(34)) {
                            None => None,
                            Some(c) => Some((q + 1, c)),
                        }
                    } else {
                        proof {
                            assert(spec_find(v@, q + 2, ByteClass::Exact(34)) is None);
                        }
                        None
                    }
                } else {
                    None
                },
            }
        } else {
            None
        },
    }
}

fn find_coll_read(v: &[u8], i: usize, keys: &ReadKeys) -> (r: Option<(usize, usize)>)
    requires
        keys.wf(),
    ensures
        match r {
            Some((a, c)) => spec_find_coll_read(v@, i as int) == Some((a as int, c as int))
                && a <= c <= v@.len(),
            None => spec_find_coll_read(v@, i as int) is None,
        },
    decreases v@.len() - i,
{
    if i >= v.len() {
        None
    } else {
        match coll_read_at(v, i, keys) {
            Some(r) => Some(r),
            None => find_coll_read(v, i + 1, keys),
        }
    }
}

pub fn extract_coll_read(v: &[u8]) -> (r: Vec<u8>)
    ensures
        r@ == spec_coll_read(v@),
{
    let keys = ReadKeys {
        find: lit_vec_find(),
        aggregate: lit_vec_aggregate(),
        count: lit_vec_count(),
        distinct: lit_vec_distinct(),
        find_and_modify: lit_vec_find_and_modify(),
    };
    match find_coll_read(v, 0, &keys) {
        None => {
            let r: Vec<u8> = Vec::new();
            proof {
                assert(r@ =~= spec_coll_read(v@));
            }
            r
        },
        Some((a, c)) => copy_range(v, a, c),
    }
}

// ---- component category --------------------------------------------------

/// The component that selects the write-path pattern family.
pub open spec fn spec_is_write(comp: Seq<u8>) -> bool {
    comp == lit_write_component()
}

pub fn is_write_component(comp: &[u8]) -> (r: bool)
    ensures
        r == spec_is_write(comp@),
{
    let w = lit_vec_write_component();
    if comp.len() == 5 {
        let r = has_lit_at(comp, 0, w.as_slice());
        proof {
            assert(comp@.subrange(0, 5) =~= comp@);
        }
        r
    } else {
        proof {
            assert(lit_write_component().len() == 5);
        }
        false
    }
}

/// A message that does not end in a `<digits>ms` token has execution time
/// zero.
pub proof fn lemma_no_trailing_ms_is_zero(msg: Seq<u8>)
    requires
        !(msg.len() >= 3 && msg[msg.len() - 1] == 115 && msg[msg.len() - 2] == 109 && is_digit(
            msg[msg.len() - 3],
        )),
    ensures
        spec_exec_time(msg) == 0,
{
}
} // verus!
