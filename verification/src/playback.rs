//! Playing back recorded quotes: the records of one stock, in timestamp
//! order, and the quote each record gives.
use crate::json::text_eq;
use crate::models::Quote;
use crate::quote::NANOS_PER_SECOND;
use vstd::prelude::*;
use vstd::string::*;

verus! {

/// A recorded quote: price in thousandths of a yuan, time as RFC 3339 text.
#[derive(Debug, Clone)]
pub struct TestQuoteRecord {
    pub code: String,
    pub price: u64,
    pub timestamp: String,
}

/// A file of recorded quotes.
#[derive(Debug, Clone)]
pub struct TestDataFile {
    pub records: Vec<TestQuoteRecord>,
}

/// `a` comes before `b` or equals it, comparing characters one by one (the
/// order of Rust's `String`).
pub open spec fn text_le(a: Seq<char>, b: Seq<char>) -> bool
    decreases a.len(),
{
    if a.len() == 0 {
        true
    } else if b.len() == 0 {
        false
    } else if a[0] != b[0] {
        (a[0] as int) < (b[0] as int)
    } else {
        text_le(a.drop_first(), b.drop_first())
    }
}

pub proof fn lemma_text_le_reflexive(a: Seq<char>)
    ensures
        text_le(a, a),
    decreases a.len(),
{
    if a.len() > 0 {
        lemma_text_le_reflexive(a.drop_first());
    }
}

pub proof fn lemma_text_le_total(a: Seq<char>, b: Seq<char>)
    ensures
        text_le(a, b) || text_le(b, a),
    decreases a.len(),
{
    if a.len() > 0 && b.len() > 0 && a[0] == b[0] {
        lemma_text_le_total(a.drop_first(), b.drop_first());
    }
}

pub proof fn lemma_text_le_transitive(a: Seq<char>, b: Seq<char>, c: Seq<char>)
    requires
        text_le(a, b),
        text_le(b, c),
    ensures
        text_le(a, c),
    decreases a.len(),
{
    if a.len() > 0 && b.len() > 0 && c.len() > 0 && a[0] == b[0] && b[0] == c[0] {
        lemma_text_le_transitive(a.drop_first(), b.drop_first(), c.drop_first());
    }
}

/// Compares two texts character by character (see `text_le`).
pub fn text_le_exec(a: &str, b: &str) -> (r: bool)
    ensures
        r == text_le(a@, b@),
{
    let n = a.unicode_len();
    let m = b.unicode_len();
    let mut i: usize = 0;
    assert(a@.skip(0) =~= a@);
    assert(b@.skip(0) =~= b@);
    while i < n && i < m && a.get_char(i) == b.get_char(i)
        invariant
            i <= n == a@.len(),
            i <= m == b@.len(),
            text_le(a@, b@) == text_le(a@.skip(i as int), b@.skip(i as int)),
        decreases n - i,
    {
        proof {
            let sa = a@.skip(i as int);
            let sb = b@.skip(i as int);
            assert(sa[0] == a@[i as int]);
            assert(sb[0] == b@[i as int]);
            assert(sa.drop_first() =~= a@.skip(i + 1));
            assert(sb.drop_first() =~= b@.skip(i + 1));
        }
        i = i + 1;
    }
    if i == n {
        true
    } else if i == m {
        false
    } else {
        let ca = a.get_char(i);
        let cb = b.get_char(i);
        assert(a@.skip(i as int)[0] == ca);
        assert(b@.skip(i as int)[0] == cb);
        (ca as u32) < (cb as u32)
    }
}

/// The records of stock `code`, in order.
pub open spec fn records_of(s: Seq<TestQuoteRecord>, code: Seq<char>) -> Seq<TestQuoteRecord>
    decreases s.len(),
{
    if s.len() == 0 {
        Seq::empty()
    } else {
        let rest = records_of(s.drop_last(), code);
        if s.last().code@ == code {
            rest.push(s.last())
        } else {
            rest
        }
    }
}

/// The records of `s` with timestamp text `t`, in order.
pub open spec fn records_at(s: Seq<TestQuoteRecord>, t: Seq<char>) -> Seq<TestQuoteRecord>
    decreases s.len(),
{
    if s.len() == 0 {
        Seq::empty()
    } else {
        let rest = records_at(s.drop_last(), t);
        if s.last().timestamp@ == t {
            rest.push(s.last())
        } else {
            rest
        }
    }
}

pub open spec fn timestamp_ordered(s: Seq<TestQuoteRecord>) -> bool {
    forall|i: int, j: int| 0 <= i < j < s.len() ==> text_le(s[i].timestamp@, s[j].timestamp@)
}

/// `out` is `inp` ordered by timestamp text, records with the same text in
/// their order in `inp`.
pub open spec fn stable_timestamp_order(out: Seq<TestQuoteRecord>, inp: Seq<TestQuoteRecord>) -> bool {
    &&& timestamp_ordered(out)
    &&& forall|t: Seq<char>| #[trigger] records_at(out, t) == records_at(inp, t)
}

pub proof fn lemma_records_at_concat(a: Seq<TestQuoteRecord>, b: Seq<TestQuoteRecord>, t: Seq<char>)
    ensures
        records_at(a + b, t) == records_at(a, t) + records_at(b, t),
    decreases b.len(),
{
    if b.len() == 0 {
        assert(a + b =~= a);
        assert(records_at(a, t) + records_at(b, t) =~= records_at(a, t));
    } else {
        lemma_records_at_concat(a, b.drop_last(), t);
        assert((a + b).drop_last() =~= a + b.drop_last());
        assert((a + b).last() == b.last());
        if b.last().timestamp@ == t {
            assert(records_at(a, t) + records_at(b.drop_last(), t).push(b.last()) =~= (records_at(
                a,
                t,
            ) + records_at(b.drop_last(), t)).push(b.last()));
        }
    }
}

pub proof fn lemma_records_at_none(s: Seq<TestQuoteRecord>, t: Seq<char>)
    requires
        forall|i: int| 0 <= i < s.len() ==> s[i].timestamp@ != t,
    ensures
        records_at(s, t) == Seq::<TestQuoteRecord>::empty(),
    decreases s.len(),
{
    if s.len() > 0 {
        lemma_records_at_none(s.drop_last(), t);
    }
}

/// Orders records by timestamp text; records with the same text keep their
/// order.
pub fn sort_records_by_timestamp(v: Vec<TestQuoteRecord>) -> (out: Vec<TestQuoteRecord>)
    ensures
        stable_timestamp_order(out@, v@),
{
    let ghost all = v@;
    let mut rest = v;
    let mut out: Vec<TestQuoteRecord> = Vec::new();
    let n = rest.len();
    let mut i: usize = 0;
    while i < n
        invariant
            n == all.len(),
            i <= n,
            rest@ == all.skip(i as int),
            timestamp_ordered(out@),
            forall|t: Seq<char>| #[trigger] records_at(out@, t) == records_at(all.take(i as int), t),
        decreases n - i,
    {
        assert(rest@[0] == all[i as int]);
        let x = rest.remove(0);
        assert(rest@ =~= all.skip(i + 1));
        let mut p: usize = 0;
        while p < out.len() && text_le_exec(out[p].timestamp.as_str(), x.timestamp.as_str())
            invariant
                p <= out@.len(),
                forall|j: int| 0 <= j < p ==> text_le(out@[j].timestamp@, x.timestamp@),
            decreases out.len() - p,
        {
            p = p + 1;
        }
        let ghost old_out = out@;
        proof {
            assert forall|j: int| p <= j < old_out.len() implies !text_le(
                old_out[j].timestamp@,
                x.timestamp@,
            ) by {
                if text_le(old_out[j].timestamp@, x.timestamp@) {
                    lemma_text_le_transitive(
                        old_out[p as int].timestamp@,
                        old_out[j].timestamp@,
                        x.timestamp@,
                    );
                }
            }
        }
        out.insert(p, x);
        proof {
            let pre = old_out.take(p as int);
            let post = old_out.skip(p as int);
            assert(out@ =~= pre + seq![x] + post);
            assert(old_out =~= pre + post);
            assert forall|t: Seq<char>| #[trigger] records_at(out@, t) == records_at(
                all.take(i + 1),
                t,
            ) by {
                lemma_records_at_concat(pre + seq![x], post, t);
                lemma_records_at_concat(pre, seq![x], t);
                lemma_records_at_concat(pre, post, t);
                assert(all.take(i + 1).drop_last() =~= all.take(i as int));
                assert(all.take(i + 1).last() == x);
                assert(seq![x].drop_last() =~= Seq::<TestQuoteRecord>::empty());
                assert(records_at(Seq::<TestQuoteRecord>::empty(), t)
                    =~= Seq::<TestQuoteRecord>::empty());
                assert(records_at(all.take(i as int), t) == records_at(old_out, t));
                if x.timestamp@ == t {
                    assert(records_at(seq![x], t) =~= seq![x]);
                    assert forall|j: int| 0 <= j < post.len() implies post[j].timestamp@ != t by {
                        assert(post[j] == old_out[j + p]);
                        lemma_text_le_reflexive(t);
                    }
                    lemma_records_at_none(post, t);
                    assert(records_at(out@, t) =~= records_at(pre, t).push(x));
                    assert(records_at(old_out, t) =~= records_at(pre, t));
                } else {
                    assert(records_at(seq![x], t) =~= Seq::<TestQuoteRecord>::empty());
                    assert(records_at(out@, t) =~= records_at(pre, t) + records_at(post, t));
                }
            }
            assert forall|a: int, b: int| 0 <= a < b < out@.len() implies text_le(
                out@[a].timestamp@,
                out@[b].timestamp@,
            ) by {
                if b < p {
                    assert(out@[a] == old_out[a]);
                    assert(out@[b] == old_out[b]);
                } else if b == p {
                    assert(out@[a] == old_out[a]);
                } else if a < p {
                    assert(out@[a] == old_out[a]);
                    assert(out@[b] == old_out[b - 1]);
                    lemma_text_le_total(old_out[b - 1].timestamp@, x.timestamp@);
                    lemma_text_le_transitive(
                        old_out[a].timestamp@,
                        x.timestamp@,
                        old_out[b - 1].timestamp@,
                    );
                } else if a == p {
                    assert(out@[b] == old_out[b - 1]);
                    lemma_text_le_total(old_out[b - 1].timestamp@, x.timestamp@);
                } else {
                    assert(out@[a] == old_out[a - 1]);
                    assert(out@[b] == old_out[b - 1]);
                }
            }
        }
        i = i + 1;
    }
    assert(all.take(n as int) =~= all);
    out
}

/// The records of stock `code` to play back: those of that code, in
/// timestamp order (records with the same timestamp in file order).
pub fn playback_records(records: Vec<TestQuoteRecord>, code: &str) -> (out: Vec<TestQuoteRecord>)
    ensures
        stable_timestamp_order(out@, records_of(records@, code@)),
{
    let ghost all = records@;
    let mut rest = records;
    let mut chosen: Vec<TestQuoteRecord> = Vec::new();
    let n = rest.len();
    let mut i: usize = 0;
    while i < n
        invariant
            n == all.len(),
            i <= n,
            rest@ == all.skip(i as int),
            chosen@ == records_of(all.take(i as int), code@),
        decreases n - i,
    {
        assert(rest@[0] == all[i as int]);
        let x = rest.remove(0);
        assert(rest@ =~= all.skip(i + 1));
        assert(all.take(i + 1).drop_last() =~= all.take(i as int));
        assert(all.take(i + 1).last() == x);
        if text_eq(x.code.as_str(), code) {
            chosen.push(x);
        }
        i = i + 1;
    }
    assert(all.take(n as int) =~= all);
    sort_records_by_timestamp(chosen)
}

/// What `chrono::DateTime::parse_from_rfc3339` reads from a text, as whole
/// seconds and nanoseconds since the Unix epoch; `None` where it reports an
/// error.
pub uninterp spec fn rfc3339_instant(text: Seq<char>) -> Option<(i64, u32)>;

/// Calls `chrono::DateTime::parse_from_rfc3339(text)` and returns the
/// instant's `timestamp()` and `timestamp_subsec_nanos()`. The result is
/// named.
#[verifier::external_body]
fn parse_rfc3339(text: &str) -> (r: Option<(i64, u32)>)
    ensures
        r == rfc3339_instant(text@),
{
    match chrono::DateTime::parse_from_rfc3339(text) {
        Ok(t) => Some((t.timestamp(), t.timestamp_subsec_nanos())),
        Err(_) => None,
    }
}

/// The quote a record plays: its code and price, no volume, and its time
/// in nanoseconds; none when the time does not read as RFC 3339.
pub fn record_quote(record: &TestQuoteRecord) -> (r: Option<Quote>)
    ensures
        match rfc3339_instant(record.timestamp@) {
            Some((s, n)) => r matches Some(q) && q.code@ == record.code@ && q.price
                == record.price && q.volume is None && q.timestamp == s * NANOS_PER_SECOND + n,
            None => r is None,
        },
{
    match parse_rfc3339(record.timestamp.as_str()) {
        Some((s, n)) => Some(
            Quote {
                code: record.code.clone(),
                price: record.price,
                volume: None,
                timestamp: s as i128 * NANOS_PER_SECOND + n as i128,
            },
        ),
        None => None,
    }
}

} // verus!
