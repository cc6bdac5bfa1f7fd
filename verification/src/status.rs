//! The text-source detection backend: a scan of the process's status text
//! for the tracer field.
//!
//! The status source is line-oriented `key: value` text. The scan looks for
//! the first line labelled `TracerPid:`, takes the text between the label's
//! colon and the next colon (or the end of the line), trims surrounding
//! whitespace, and reads any value other than the literal zero as an
//! attached tracer. When no line carries the label, the scan failed to
//! produce a verdict.

use vstd::prelude::*;

use crate::DebuggerPresence;
use crate::DetectionError;

verus! {

/// The line separator of the status text.
pub const LINE_FEED: u8 = 10;

/// The `key: value` separator of the status text.
pub const COLON: u8 = 58;

/// The digit zero: the one value of the tracer field that means no tracer.
pub const DIGIT_ZERO: u8 = 48;

/// ASCII whitespace, which is trimmed around the tracer field's value.
pub open spec fn is_ws(b: u8) -> bool {
    b == 32 || b == 9 || b == 10 || b == 11 || b == 12 || b == 13
}

/// Every byte of `s` is ASCII whitespace.
pub open spec fn all_ws(s: Seq<u8>) -> bool {
    forall|k: int| 0 <= k < s.len() ==> is_ws(s[k])
}

/// Index of the first occurrence of `b` in `s`, or `s.len()` when `b` does
/// not occur.
pub open spec fn first_at(s: Seq<u8>, b: u8) -> nat
    decreases s.len(),
{
    if s.len() == 0 {
        0
    } else if s[0] == b {
        0
    } else {
        (1 + first_at(s.drop_first(), b)) as nat
    }
}

/// `first_at` names the first occurrence: it is within bounds, nothing
/// before it is `b`, and it lands on `b` unless `b` is absent.
pub proof fn lemma_first_at(s: Seq<u8>, b: u8)
    ensures
        first_at(s, b) <= s.len(),
        forall|k: int| 0 <= k < first_at(s, b) ==> s[k] != b,
        first_at(s, b) < s.len() ==> s[first_at(s, b) as int] == b,
    decreases s.len(),
{
    if s.len() > 0 && s[0] != b {
        lemma_first_at(s.drop_first(), b);
        assert forall|k: int| 0 <= k < first_at(s, b) implies s[k] != b by {
            if k > 0 {
                assert(s.drop_first()[k - 1] == s[k]);
            }
        }
        if first_at(s, b) < s.len() {
            assert(s.drop_first()[first_at(s.drop_first(), b) as int] == s[first_at(s, b) as int]);
        }
    }
}

/// The characterization of `lemma_first_at` pins `first_at` down: any index
/// with those properties is it.
pub proof fn lemma_first_at_unique(s: Seq<u8>, b: u8, m: nat)
    requires
        m <= s.len(),
        forall|k: int| 0 <= k < m ==> s[k] != b,
        m < s.len() ==> s[m as int] == b,
    ensures
        first_at(s, b) == m,
{
    lemma_first_at(s, b);
    if first_at(s, b) < m {
        assert(s[first_at(s, b) as int] == b);
    }
    if first_at(s, b) > m {
        assert(s[m as int] != b);
    }
}

/// The bytes of the label `TracerPid:` open `line`.
pub open spec fn is_tracer_line(line: Seq<u8>) -> bool {
    &&& line.len() >= 10
    &&& line[0] == 84  // 'T'
    &&& line[1] == 114  // 'r'
    &&& line[2] == 97  // 'a'
    &&& line[3] == 99  // 'c'
    &&& line[4] == 101  // 'e'
    &&& line[5] == 114  // 'r'
    &&& line[6] == 80  // 'P'
    &&& line[7] == 105  // 'i'
    &&& line[8] == 100  // 'd'
    &&& line[9] == 58  // ':'
}

/// The value of the tracer field: the bytes after the label's colon, up to
/// the next colon or the end of the line.
pub open spec fn tracer_value(line: Seq<u8>) -> Seq<u8> {
    let rest = line.subrange(10, line.len() as int);
    rest.subrange(0, first_at(rest, COLON) as int)
}

/// `s` with its leading ASCII whitespace removed.
pub open spec fn trim_front(s: Seq<u8>) -> Seq<u8>
    decreases s.len(),
{
    if s.len() > 0 && is_ws(s[0]) {
        trim_front(s.drop_first())
    } else {
        s
    }
}

/// `s` with its trailing ASCII whitespace removed.
pub open spec fn trim_back(s: Seq<u8>) -> Seq<u8>
    decreases s.len(),
{
    if s.len() > 0 && is_ws(s.last()) {
        trim_back(s.drop_last())
    } else {
        s
    }
}

/// `s` with whitespace removed from both ends.
pub open spec fn trim(s: Seq<u8>) -> Seq<u8> {
    trim_back(trim_front(s))
}

/// `trim_front` drops exactly the leading whitespace run: it keeps the
/// suffix that starts at the first non-whitespace byte.
pub proof fn lemma_trim_front_is(s: Seq<u8>, lo: nat)
    requires
        lo <= s.len(),
        forall|k: int| 0 <= k < lo ==> is_ws(s[k]),
        lo < s.len() ==> !is_ws(s[lo as int]),
    ensures
        trim_front(s) == s.subrange(lo as int, s.len() as int),
    decreases s.len(),
{
    if s.len() > 0 && is_ws(s[0]) {
        assert(lo >= 1);
        let d = s.drop_first();
        assert(forall|k: int| 0 <= k < lo - 1 ==> d[k] == s[k + 1] && is_ws(s[k + 1]));
        if lo - 1 < d.len() {
            assert(d[lo - 1] == s[lo as int]);
        }
        lemma_trim_front_is(d, (lo - 1) as nat);
        assert(d.subrange(lo - 1, d.len() as int) =~= s.subrange(lo as int, s.len() as int));
    } else {
        assert(lo == 0);
        assert(s.subrange(0, s.len() as int) =~= s);
    }
}

/// `trim_back` drops exactly the trailing whitespace run: it keeps the
/// prefix that ends after the last non-whitespace byte.
pub proof fn lemma_trim_back_is(s: Seq<u8>, hi: nat)
    requires
        hi <= s.len(),
        forall|k: int| hi <= k < s.len() ==> is_ws(s[k]),
        hi > 0 ==> !is_ws(s[hi - 1]),
    ensures
        trim_back(s) == s.subrange(0, hi as int),
    decreases s.len(),
{
    if s.len() > 0 && is_ws(s.last()) {
        assert(hi < s.len());
        let d = s.drop_last();
        assert(forall|k: int| hi <= k < d.len() ==> d[k] == s[k] && is_ws(s[k]));
        if hi > 0 {
            assert(d[hi - 1] == s[hi - 1]);
        }
        lemma_trim_back_is(d, hi);
        assert(d.subrange(0, hi as int) =~= s.subrange(0, hi as int));
    } else {
        assert(hi == s.len());
        assert(s.subrange(0, s.len() as int) =~= s);
    }
}

/// `trim` keeps exactly the bytes between the leading and the trailing
/// whitespace run.
pub proof fn lemma_trim_is(s: Seq<u8>, lo: nat, hi: nat)
    requires
        lo <= hi <= s.len(),
        forall|k: int| 0 <= k < lo ==> is_ws(s[k]),
        forall|k: int| hi <= k < s.len() ==> is_ws(s[k]),
        lo < hi ==> !is_ws(s[lo as int]) && !is_ws(s[hi - 1]),
        lo == hi ==> lo == s.len(),
    ensures
        trim(s) == s.subrange(lo as int, hi as int),
{
    if lo == hi {
        lemma_trim_front_is(s, lo);
        assert(s.subrange(lo as int, s.len() as int).len() == 0);
        assert(trim(s) =~= s.subrange(lo as int, hi as int));
    } else {
        lemma_trim_front_is(s, lo);
        let t = s.subrange(lo as int, s.len() as int);
        assert(forall|k: int| hi - lo <= k < t.len() ==> t[k] == s[k + lo] && is_ws(s[k + lo]));
        assert(t[hi - lo - 1] == s[hi - 1]);
        lemma_trim_back_is(t, (hi - lo) as nat);
        assert(t.subrange(0, hi - lo) =~= s.subrange(lo as int, hi as int));
    }
}

/// A run of whitespace before anything else is dropped whole by
/// `trim_front`.
proof fn lemma_trim_front_ws_prefix(pad: Seq<u8>, tail: Seq<u8>)
    requires
        all_ws(pad),
    ensures
        trim_front(pad + tail) == trim_front(tail),
    decreases pad.len(),
{
    if pad.len() == 0 {
        assert(pad + tail =~= tail);
    } else {
        assert((pad + tail)[0] == pad[0]);
        assert((pad + tail).drop_first() =~= pad.drop_first() + tail);
        assert(forall|k: int| 0 <= k < pad.drop_first().len() ==> pad.drop_first()[k] == pad[k + 1]);
        lemma_trim_front_ws_prefix(pad.drop_first(), tail);
    }
}

/// A run of whitespace after anything else is dropped whole by `trim_back`.
proof fn lemma_trim_back_ws_suffix(head: Seq<u8>, pad: Seq<u8>)
    requires
        all_ws(pad),
    ensures
        trim_back(head + pad) == trim_back(head),
    decreases pad.len(),
{
    if pad.len() == 0 {
        assert(head + pad =~= head);
    } else {
        assert((head + pad).last() == pad.last());
        assert((head + pad).drop_last() =~= head + pad.drop_last());
        assert(forall|k: int| 0 <= k < pad.drop_last().len() ==> pad.drop_last()[k] == pad[k]);
        lemma_trim_back_ws_suffix(head, pad.drop_last());
    }
}

/// When `head` holds a non-whitespace byte, `trim_front` never reaches the
/// tail behind it.
proof fn lemma_trim_front_concat(head: Seq<u8>, tail: Seq<u8>)
    requires
        !all_ws(head),
    ensures
        trim_front(head + tail) == trim_front(head) + tail,
    decreases head.len(),
{
    let w = choose|k: int| 0 <= k < head.len() && !is_ws(head[k]);
    assert((head + tail)[0] == head[0]);
    if is_ws(head[0]) {
        let d = head.drop_first();
        assert(!is_ws(d[w - 1]));
        assert((head + tail).drop_first() =~= d + tail);
        lemma_trim_front_concat(d, tail);
    }
}

/// Whitespace padding around a value does not change what `trim` keeps:
/// the tracer field's value is read the same however it is padded.
pub proof fn lemma_trim_tolerates_padding(pad_left: Seq<u8>, value: Seq<u8>, pad_right: Seq<u8>)
    requires
        all_ws(pad_left),
        all_ws(pad_right),
    ensures
        trim(pad_left + value + pad_right) == trim(value),
{
    assert(pad_left + value + pad_right =~= pad_left + (value + pad_right));
    lemma_trim_front_ws_prefix(pad_left, value + pad_right);
    if all_ws(value) {
        assert(forall|k: int| 0 <= k < value.len() ==> (value + pad_right)[k] == value[k]);
        assert(forall|k: int|
            value.len() <= k < (value + pad_right).len() ==> (value + pad_right)[k] == pad_right[
                k - value.len()
            ]);
        lemma_trim_front_is(value + pad_right, (value + pad_right).len());
        lemma_trim_front_is(value, value.len());
        assert(trim_front(value + pad_right) =~= trim_front(value));
    } else {
        lemma_trim_front_concat(value, pad_right);
        lemma_trim_back_ws_suffix(trim_front(value), pad_right);
    }
}

/// Verdict of one tracer line: the field reports an attached tracer unless
/// its trimmed value is the single digit zero.
pub open spec fn tracer_verdict(line: Seq<u8>) -> DebuggerPresence {
    if trim(tracer_value(line)) == seq![DIGIT_ZERO] {
        DebuggerPresence::NotDetected
    } else {
        DebuggerPresence::Detected
    }
}

/// What a scan of the status text yields: the verdict of the first line
/// labelled `TracerPid:`, or `DetectionFailed` when no line carries the
/// label.
pub open spec fn status_query(s: Seq<u8>) -> Result<DebuggerPresence, DetectionError>
    decreases s.len(),
{
    if s.len() == 0 {
        Err(DetectionError::DetectionFailed)
    } else {
        let line = s.subrange(0, first_at(s, LINE_FEED) as int);
        if is_tracer_line(line) {
            Ok(tracer_verdict(line))
        } else if first_at(s, LINE_FEED) >= s.len() {
            Err(DetectionError::DetectionFailed)
        } else {
            status_query(s.subrange(first_at(s, LINE_FEED) as int + 1, s.len() as int))
        }
    }
}

/// Whether `b` is ASCII whitespace.
fn byte_is_ws(b: u8) -> (r: bool)
    ensures
        r == is_ws(b),
{
    b == 32 || b == 9 || b == 10 || b == 11 || b == 12 || b == 13
}

/// Index of the first occurrence of `b` in `v[from..to]`, or `to` when `b`
/// does not occur there.
fn find_byte(v: &Vec<u8>, from: usize, to: usize, b: u8) -> (r: usize)
    requires
        from <= to <= v@.len(),
    ensures
        from <= r <= to,
        forall|k: int| from <= k < r ==> v@[k] != b,
        r < to ==> v@[r as int] == b,
{
    let mut j: usize = from;
    while j < to
        invariant
            from <= j <= to <= v@.len(),
            forall|k: int| from <= k < j ==> v@[k] != b,
        decreases to - j,
    {
        if v[j] == b {
            return j;
        }
        j = j + 1;
    }
    j
}

/// Scan status text for the tracer field, as the text-source backend reads
/// it: the verdict of the first line labelled `TracerPid:`, and
/// `DetectionFailed` when no line carries the label.
#[verifier::rlimit(50)]
pub fn scan_tracer_status(content: &Vec<u8>) -> (r: Result<DebuggerPresence, DetectionError>)
    ensures
        r == status_query(content@),
{
    let n = content.len();
    let mut i: usize = 0;
    proof {
        assert(content@.subrange(0, n as int) =~= content@);
    }
    loop
        invariant
            i <= n,
            n == content@.len(),
            status_query(content@) == status_query(content@.subrange(i as int, n as int)),
        decreases n - i,
    {
        let ghost rest = content@.subrange(i as int, n as int);
        if i >= n {
            proof {
                assert(rest.len() == 0);
            }
            return Err(DetectionError::DetectionFailed);
        }
        let j = find_byte(content, i, n, LINE_FEED);
        proof {
            assert(forall|k: int| 0 <= k < j - i ==> rest[k] == content@[i + k]);
            if j - i < rest.len() {
                assert(rest[j - i] == content@[j as int]);
            }
            lemma_first_at_unique(rest, LINE_FEED, (j - i) as nat);
        }
        let ghost line = content@.subrange(i as int, j as int);
        proof {
            assert(rest.subrange(0, (j - i) as int) =~= line);
        }
        let is_tracer = if j - i >= 10 {
            content[i] == 84 && content[i + 1] == 114 && content[i + 2] == 97 && content[i + 3]
                == 99 && content[i + 4] == 101 && content[i + 5] == 114 && content[i + 6] == 80
                && content[i + 7] == 105 && content[i + 8] == 100 && content[i + 9] == 58
        } else {
            false
        };
        proof {
            assert(is_tracer == is_tracer_line(line));
        }
        if is_tracer {
            let ve = find_byte(content, i + 10, j, COLON);
            let ghost after_label = line.subrange(10, line.len() as int);
            proof {
                assert(forall|k: int| 0 <= k < ve - (i + 10) ==> after_label[k] == content@[
                    i + 10 + k
                ]);
                if ve - (i + 10) < after_label.len() {
                    assert(after_label[ve - (i + 10)] == content@[ve as int]);
                }
                lemma_first_at_unique(after_label, COLON, (ve - (i + 10)) as nat);
                assert(tracer_value(line) =~= content@.subrange(i + 10, ve as int));
            }
            let mut lo = i + 10;
            while lo < ve && byte_is_ws(content[lo])
                invariant
                    i + 10 <= lo <= ve <= n,
                    n == content@.len(),
                    forall|k: int| i + 10 <= k < lo ==> is_ws(content@[k]),
                decreases ve - lo,
            {
                lo = lo + 1;
            }
            let mut hi = ve;
            while hi > lo && byte_is_ws(content[hi - 1])
                invariant
                    lo <= hi <= ve <= n,
                    n == content@.len(),
                    forall|k: int| hi <= k < ve ==> is_ws(content@[k]),
                decreases hi,
            {
                hi = hi - 1;
            }
            let ghost value = content@.subrange(i + 10, ve as int);
            proof {
                assert(forall|k: int| 0 <= k < value.len() ==> value[k] == content@[i + 10 + k]);
                lemma_trim_is(value, (lo - (i + 10)) as nat, (hi - (i + 10)) as nat);
                assert(trim(value) =~= content@.subrange(lo as int, hi as int));
            }
            let zero_value = hi - lo == 1 && content[lo] == DIGIT_ZERO;
            proof {
                let trimmed = content@.subrange(lo as int, hi as int);
                if zero_value {
                    assert(trimmed =~= seq![DIGIT_ZERO]);
                } else {
                    if trimmed == seq![DIGIT_ZERO] {
                        assert(trimmed.len() == 1);
                        assert(trimmed[0] == DIGIT_ZERO);
                        assert(content@[lo as int] == DIGIT_ZERO);
                    }
                }
                assert(zero_value == (trim(tracer_value(line)) == seq![DIGIT_ZERO]));
            }
            if zero_value {
                return Ok(DebuggerPresence::NotDetected);
            } else {
                return Ok(DebuggerPresence::Detected);
            }
        }
        if j >= n {
            proof {
                assert(j - i == rest.len());
            }
            return Err(DetectionError::DetectionFailed);
        }
        proof {
            assert(rest.subrange(j - i + 1, rest.len() as int) =~= content@.subrange(
                j + 1,
                n as int,
            ));
        }
        i = j + 1;
    }
}

/// The status-text scan is idempotent: two scans that observe equal
/// snapshots of the status text return equal verdicts.
pub proof fn lemma_status_query_idempotent(first: Seq<u8>, second: Seq<u8>)
    requires
        first == second,
    ensures
        status_query(first) == status_query(second),
{
}

/// The scan itself never reports the capability as absent: `Unsupported`
/// can only arise when the status source cannot be opened at all, never
/// from its content.
pub proof fn lemma_status_query_not_unsupported(s: Seq<u8>)
    ensures
        status_query(s) != Err::<DebuggerPresence, DetectionError>(DetectionError::Unsupported),
    decreases s.len(),
{
    if s.len() > 0 {
        let line = s.subrange(0, first_at(s, LINE_FEED) as int);
        if !is_tracer_line(line) && first_at(s, LINE_FEED) < s.len() {
            lemma_status_query_not_unsupported(
                s.subrange(first_at(s, LINE_FEED) as int + 1, s.len() as int),
            );
        }
    }
}

} // verus!
