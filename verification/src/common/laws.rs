//! Round trip of the values that both protocol versions share.

use crate::common::error::ErrorView;
use crate::common::types::{spec_read_qos_pid, Protocol, QosPidView};
use crate::common::utils::{
    spec_read_bytes, spec_read_string, spec_read_u16, spec_read_u8,
    lemma_bytes_suffix, lemma_string_suffix, lemma_u16_suffix, lemma_u8_suffix, spec_field_bytes,
    spec_read_opt_bytes, spec_read_opt_string, spec_string_bytes, FIELD_MAX,
};
use vstd::prelude::*;
use vstd::utf8::encode_utf8;

verus! {

/// A protocol name and level at the head of what is left of `s` is read.
#[verifier::rlimit(50)]
pub proof fn lemma_protocol_suffix(s: Seq<u8>, off: int, p: Protocol, tail: Seq<u8>)
    requires
        0 <= off <= s.len(),
        s.subrange(off, s.len() as int) == p.spec_bytes() + tail,
    ensures
        Protocol::spec_decode(s, off) == Ok::<(Protocol, int), ErrorView>(
            (p, off + p.spec_bytes().len()),
        ),
        s.subrange(off + p.spec_bytes().len(), s.len() as int) == tail,
        off + p.spec_bytes().len() <= s.len(),
{
    p.lemma_name_is_short();
    let name = p.spec_name();
    let level = p.spec_level();
    assert(p.spec_bytes() + tail =~= spec_string_bytes(name) + (seq![level] + tail));
    lemma_string_suffix(s, off, name, seq![level] + tail);
    let off1 = off + 2 + encode_utf8(name).len();
    lemma_u8_suffix(s, off1, level, tail);
    assert(crate::common::types::name_mqtt().len() == 4);
    assert(crate::common::types::name_mqisdp().len() == 6);
}

/// A string that is there or not, at the head of what is left of `s`, is
/// read.
#[verifier::rlimit(50)]
pub proof fn lemma_opt_string_suffix(s: Seq<u8>, off: int, v: Option<Seq<char>>, tail: Seq<u8>)
    requires
        0 <= off <= s.len(),
        v matches Some(x) ==> encode_utf8(x).len() <= FIELD_MAX,
        s.subrange(off, s.len() as int) == (match v {
            Some(x) => spec_string_bytes(x),
            None => Seq::empty(),
        }) + tail,
    ensures
        spec_read_opt_string(s, off, v is Some) matches Ok((w, end)) && w == v && 0 <= end
            <= s.len() && s.subrange(end, s.len() as int) == tail,
{
    match v {
        Some(x) => {
            lemma_string_suffix(s, off, x, tail);
        },
        None => {
            assert(s.subrange(off, s.len() as int) =~= tail);
        },
    }
}

/// A field that is there or not, at the head of what is left of `s`, is
/// read.
#[verifier::rlimit(50)]
pub proof fn lemma_opt_bytes_suffix(s: Seq<u8>, off: int, v: Option<Seq<u8>>, tail: Seq<u8>)
    requires
        0 <= off <= s.len(),
        v matches Some(x) ==> x.len() <= FIELD_MAX,
        s.subrange(off, s.len() as int) == (match v {
            Some(x) => spec_field_bytes(x),
            None => Seq::empty(),
        }) + tail,
    ensures
        spec_read_opt_bytes(s, off, v is Some) matches Ok((w, end)) && w == v && 0 <= end
            <= s.len() && s.subrange(end, s.len() as int) == tail,
{
    match v {
        Some(x) => {
            lemma_bytes_suffix(s, off, x, tail);
        },
        None => {
            assert(s.subrange(off, s.len() as int) =~= tail);
        },
    }
}

/// The packet identifier of a publish packet at the head of what is left of
/// `s` is read.
#[verifier::rlimit(50)]
pub proof fn lemma_qos_pid_suffix(s: Seq<u8>, off: int, q: QosPidView, tail: Seq<u8>)
    requires
        q.wf(),
        0 <= off <= s.len(),
        s.subrange(off, s.len() as int) == q.pid_bytes() + tail,
    ensures
        spec_read_qos_pid(s, off, q.qos()) matches Ok((w, end)) && w == q && 0 <= end <= s.len()
            && s.subrange(end, s.len() as int) == tail,
{
    match q {
        QosPidView::Level0 => {
            assert(s.subrange(off, s.len() as int) =~= tail);
        },
        QosPidView::Level1(p) => {
            lemma_u16_suffix(s, off, p, tail);
        },
        QosPidView::Level2(p) => {
            lemma_u16_suffix(s, off, p, tail);
        },
    }
}

/// What a parser gives on a sequence cut at `k`, against what it gives on
/// the whole: the same where it ends at or before `k`, and `UnexpectedEof`
/// where it reaches beyond.
pub open spec fn spec_cut<T>(
    whole: Result<(T, int), ErrorView>,
    cut: Result<(T, int), ErrorView>,
    k: int,
) -> bool {
    whole matches Ok((_, end)) ==> (if end <= k {
        cut == whole
    } else {
        cut is Err && cut->Err_0 == ErrorView::UnexpectedEof
    })
}

/// One byte read from a cut sequence.
#[verifier::rlimit(50)]
pub proof fn lemma_u8_cut(s: Seq<u8>, k: int, off: int)
    requires
        0 <= k <= s.len(),
    ensures
        spec_cut(spec_read_u8(s, off), spec_read_u8(s.subrange(0, k), off), k),
{
}

/// A 16-bit integer read from a cut sequence.
#[verifier::rlimit(50)]
pub proof fn lemma_u16_cut(s: Seq<u8>, k: int, off: int)
    requires
        0 <= k <= s.len(),
    ensures
        spec_cut(spec_read_u16(s, off), spec_read_u16(s.subrange(0, k), off), k),
{
}

/// A length-prefixed field read from a cut sequence.
#[verifier::rlimit(50)]
pub proof fn lemma_bytes_cut(s: Seq<u8>, k: int, off: int)
    requires
        0 <= k <= s.len(),
    ensures
        spec_cut(spec_read_bytes(s, off), spec_read_bytes(s.subrange(0, k), off), k),
{
    let t = s.subrange(0, k);
    lemma_u16_cut(s, k, off);
    if spec_read_bytes(s, off) is Ok {
        let end = spec_read_bytes(s, off)->Ok_0.1;
        if end <= k {
            assert(t.subrange(off + 2, end) =~= s.subrange(off + 2, end));
        }
    }
}

/// A string read from a cut sequence.
#[verifier::rlimit(50)]
pub proof fn lemma_string_cut(s: Seq<u8>, k: int, off: int)
    requires
        0 <= k <= s.len(),
    ensures
        spec_cut(spec_read_string(s, off), spec_read_string(s.subrange(0, k), off), k),
{
    lemma_bytes_cut(s, k, off);
}

/// A string that is there or not, read from a cut sequence.
#[verifier::rlimit(50)]
pub proof fn lemma_opt_string_cut(s: Seq<u8>, k: int, off: int, present: bool)
    requires
        0 <= k <= s.len(),
        0 <= off <= k,
    ensures
        spec_cut(
            spec_read_opt_string(s, off, present),
            spec_read_opt_string(s.subrange(0, k), off, present),
            k,
        ),
{
    lemma_string_cut(s, k, off);
}

/// A field that is there or not, read from a cut sequence.
#[verifier::rlimit(50)]
pub proof fn lemma_opt_bytes_cut(s: Seq<u8>, k: int, off: int, present: bool)
    requires
        0 <= k <= s.len(),
        0 <= off <= k,
    ensures
        spec_cut(
            spec_read_opt_bytes(s, off, present),
            spec_read_opt_bytes(s.subrange(0, k), off, present),
            k,
        ),
{
    lemma_bytes_cut(s, k, off);
}

/// A protocol name and level read from a cut sequence.
#[verifier::rlimit(50)]
pub proof fn lemma_protocol_cut(s: Seq<u8>, k: int, off: int)
    requires
        0 <= k <= s.len(),
    ensures
        spec_cut(Protocol::spec_decode(s, off), Protocol::spec_decode(s.subrange(0, k), off), k),
{
    lemma_string_cut(s, k, off);
    if spec_read_string(s, off) is Ok {
        let off1 = spec_read_string(s, off)->Ok_0.1;
        lemma_u8_cut(s, k, off1);
    }
}

} // verus!
