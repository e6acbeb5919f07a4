//! Round trip: what the 3.1.1 encoders write, the decoders read back.

use crate::common::error::ErrorView;
use crate::common::laws::{
    lemma_bytes_cut, lemma_opt_bytes_cut, lemma_opt_string_cut, lemma_protocol_cut,
    lemma_string_cut, lemma_u16_cut, lemma_u8_cut, spec_cut,
    lemma_opt_bytes_suffix, lemma_opt_string_suffix, lemma_protocol_suffix, lemma_qos_pid_suffix,
};
use crate::common::topic::spec_topic_filter;
use crate::common::types::{Protocol, QoS};
use crate::common::utils::{
    lemma_bytes_suffix, lemma_concat_assoc3, lemma_push_concat, lemma_string_suffix,
    lemma_u16_suffix, lemma_u8_suffix, lemma_whole, spec_field_bytes, spec_read_opt_bytes,
    spec_read_opt_string, spec_read_string, spec_read_u16, spec_read_u8, spec_string_bytes,
    spec_u16_bytes, VAR_INT_MAX,
};
use crate::v3::connect::{spec_read_last_will, Connack, ConnectView, LastWillView};
use crate::v3::header::{lemma_header_round_trip, Header};
use crate::v3::packet::{
    spec_body_connack, spec_body_connect, spec_body_puback, spec_body_pubcomp, spec_body_publish,
    spec_body_pubrec, spec_body_pubrel, spec_body_suback, spec_body_subscribe, spec_body_unsuback,
    spec_body_unsubscribe, spec_decode_body, spec_decode_packet, spec_decode_pid_body, PacketView,
};
use crate::v3::publish::PublishView;
use crate::v3::subscribe::{
    spec_entries_bytes, spec_filters_bytes, spec_read_codes, spec_read_entries, spec_read_filters,
    SubackView, SubscribeReturnCode, SubscribeView, UnsubscribeView,
};
use vstd::prelude::*;
use vstd::utf8::encode_utf8;

verus! {

/// What the connect flags say of a packet's parts.
#[verifier::rlimit(50)]
pub proof fn lemma_connect_flags(c: ConnectView)
    ensures
        c.spec_flags() % 2 == 0,
        ((c.spec_flags() / 2) % 2 == 1) == c.clean_session,
        ((c.spec_flags() / 4) % 2 == 1) == (c.last_will is Some),
        c.last_will matches Some(w) ==> (c.spec_flags() / 8) % 4 == w.qos.spec_to_u8() && ((
        c.spec_flags() / 32) % 2 == 1) == w.retain,
        c.last_will is None ==> (c.spec_flags() / 8) % 8 == 0,
        ((c.spec_flags() / 64) % 2 == 1) == (c.password is Some),
        (c.spec_flags() / 128 == 1) == (c.username is Some),
{
    let a: int = if c.clean_session {
        2
    } else {
        0
    };
    let w: int = match c.last_will {
        Some(w) => w.spec_flags(),
        None => 0,
    };
    let p: int = if c.password is Some {
        64
    } else {
        0
    };
    let u: int = if c.username is Some {
        128
    } else {
        0
    };
    assert(c.spec_flags() == a + w + p + u);
    assert(w == 0 || w == 4 || w == 12 || w == 20 || w == 36 || w == 44 || w == 52);
}

/// The will of a connect packet at the head of what is left of `s` is read.
#[verifier::rlimit(50)]
pub proof fn lemma_last_will_suffix(
    s: Seq<u8>,
    off: int,
    will: Option<LastWillView>,
    flags: u8,
    tail: Seq<u8>,
)
    requires
        0 <= off <= s.len(),
        will matches Some(w) ==> w.wf() && (flags / 8) % 4 == w.qos.spec_to_u8() && ((flags / 32)
            % 2 == 1) == w.retain,
        ((flags / 4) % 2 == 1) == (will is Some),
        will is None ==> (flags / 8) % 8 == 0,
        s.subrange(off, s.len() as int) == (match will {
            Some(w) => w.spec_bytes(),
            None => Seq::empty(),
        }) + tail,
    ensures
        spec_read_last_will(s, off, flags) matches Ok((w, end)) && w == will && 0 <= end
            <= s.len() && s.subrange(end, s.len() as int) == tail,
{
    match will {
        Some(w) => {
            assert(w.spec_bytes() + tail =~= spec_string_bytes(w.topic_name) + (spec_field_bytes(
                w.message,
            ) + tail));
            lemma_string_suffix(s, off, w.topic_name, spec_field_bytes(w.message) + tail);
            let off1 = off + 2 + encode_utf8(w.topic_name).len();
            lemma_bytes_suffix(s, off1, w.message, tail);
        },
        None => {
            assert(s.subrange(off, s.len() as int) =~= tail);
        },
    }
}

/// What follows the client identifier of a connect packet is read back.
#[verifier::rlimit(50)]
pub proof fn lemma_connect_payload_suffix(s: Seq<u8>, off: int, c: ConnectView)
    requires
        c.wf(),
        0 <= off <= s.len(),
        s.subrange(off, s.len() as int) == (match c.last_will {
            Some(w) => w.spec_bytes(),
            None => Seq::empty(),
        }) + (match c.username {
            Some(u) => spec_string_bytes(u),
            None => Seq::empty(),
        }) + (match c.password {
            Some(p) => spec_field_bytes(p),
            None => Seq::empty(),
        }),
    ensures
        ConnectView::spec_decode_payload(
            s,
            off,
            c.protocol,
            c.spec_flags(),
            c.keep_alive,
            c.client_id,
        ) == Ok::<(ConnectView, int), ErrorView>((c, s.len() as int)),
{
    lemma_connect_flags(c);
    let flags = c.spec_flags();
    let will_bytes = match c.last_will {
        Some(w) => w.spec_bytes(),
        None => Seq::empty(),
    };
    let user_bytes = match c.username {
        Some(u) => spec_string_bytes(u),
        None => Seq::empty(),
    };
    let pass_bytes = match c.password {
        Some(p) => spec_field_bytes(p),
        None => Seq::empty(),
    };
    assert(will_bytes + user_bytes + pass_bytes =~= will_bytes + (user_bytes + pass_bytes));
    lemma_last_will_suffix(s, off, c.last_will, flags, user_bytes + pass_bytes);
    let off1 = spec_read_last_will(s, off, flags)->Ok_0.1;
    lemma_opt_string_suffix(s, off1, c.username, pass_bytes);
    let off2 = spec_read_opt_string(s, off1, c.username is Some)->Ok_0.1;
    assert(pass_bytes =~= pass_bytes + Seq::<u8>::empty());
    lemma_opt_bytes_suffix(s, off2, c.password, Seq::empty());
    let off3 = spec_read_opt_bytes(s, off2, c.password is Some)->Ok_0.1;
    assert(s.subrange(off3, s.len() as int).len() == 0);
}

/// What follows the keep-alive of a connect packet is read back.
#[verifier::rlimit(50)]
pub proof fn lemma_connect_after_keep_alive(s: Seq<u8>, off: int, c: ConnectView)
    requires
        c.wf(),
        0 <= off <= s.len(),
        s.subrange(off, s.len() as int) == c.spec_payload_bytes(),
    ensures
        spec_read_string(s, off) matches Ok((id, off3)) && id == c.client_id
            && ConnectView::spec_decode_payload(
            s,
            off3,
            c.protocol,
            c.spec_flags(),
            c.keep_alive,
            c.client_id,
        ) == Ok::<(ConnectView, int), ErrorView>((c, s.len() as int)),
{
    let will_bytes = match c.last_will {
        Some(w) => w.spec_bytes(),
        None => Seq::empty(),
    };
    let user_bytes = match c.username {
        Some(u) => spec_string_bytes(u),
        None => Seq::empty(),
    };
    let pass_bytes = match c.password {
        Some(p) => spec_field_bytes(p),
        None => Seq::empty(),
    };
    let after_id = will_bytes + user_bytes + pass_bytes;
    assert(c.spec_payload_bytes() =~= spec_string_bytes(c.client_id) + after_id);
    lemma_string_suffix(s, off, c.client_id, after_id);
    let off3 = off + 2 + encode_utf8(c.client_id).len();
    lemma_connect_payload_suffix(s, off3, c);
}

/// What follows the protocol of a connect packet is read back.
#[verifier::rlimit(50)]
pub proof fn lemma_connect_after_protocol(s: Seq<u8>, off: int, c: ConnectView)
    requires
        c.wf(),
        0 <= off <= s.len(),
        s.subrange(off, s.len() as int) == seq![c.spec_flags()] + (spec_u16_bytes(c.keep_alive)
            + c.spec_payload_bytes()),
    ensures
        ConnectView::spec_decode_with_protocol(s, off, c.protocol) == Ok::<
            (ConnectView, int),
            ErrorView,
        >((c, s.len() as int)),
{
    lemma_connect_flags(c);
    lemma_u8_suffix(s, off, c.spec_flags(), spec_u16_bytes(c.keep_alive) + c.spec_payload_bytes());
    lemma_u16_suffix(s, off + 1, c.keep_alive, c.spec_payload_bytes());
    lemma_connect_after_keep_alive(s, off + 3, c);
}

/// The body of a connect packet is read back from its own bytes.
#[verifier::rlimit(50)]
pub proof fn lemma_connect_round_trip(c: ConnectView)
    requires
        c.wf(),
    ensures
        ConnectView::spec_decode(c.spec_bytes(), 0) == Ok::<(ConnectView, int), ErrorView>(
            (c, c.spec_bytes().len() as int),
        ),
{
    let s = c.spec_bytes();
    let rest1 = seq![c.spec_flags()] + (spec_u16_bytes(c.keep_alive) + c.spec_payload_bytes());
    lemma_concat_assoc3(
        c.protocol.spec_bytes().push(c.spec_flags()),
        spec_u16_bytes(c.keep_alive),
        c.spec_payload_bytes(),
    );
    lemma_push_concat(
        c.protocol.spec_bytes(),
        c.spec_flags(),
        spec_u16_bytes(c.keep_alive) + c.spec_payload_bytes(),
    );
    lemma_whole(s);
    lemma_protocol_suffix(s, 0, c.protocol, rest1);
    lemma_connect_after_protocol(s, c.protocol.spec_bytes().len() as int, c);
}

/// The will of a connect packet read from a cut sequence.
#[verifier::rlimit(50)]
pub proof fn lemma_last_will_cut(s: Seq<u8>, k: int, off: int, flags: u8)
    requires
        0 <= k <= s.len(),
        0 <= off <= k,
    ensures
        spec_cut(
            spec_read_last_will(s, off, flags),
            spec_read_last_will(s.subrange(0, k), off, flags),
            k,
        ),
{
    lemma_string_cut(s, k, off);
    if spec_read_string(s, off) is Ok {
        let off1 = spec_read_string(s, off)->Ok_0.1;
        lemma_bytes_cut(s, k, off1);
    }
}

/// What follows the client identifier of a connect packet, read from a cut
/// sequence.
#[verifier::rlimit(50)]
pub proof fn lemma_connect_payload_cut(
    s: Seq<u8>,
    k: int,
    off: int,
    protocol: Protocol,
    flags: u8,
    keep_alive: u16,
    client_id: Seq<char>,
)
    requires
        0 <= k <= s.len(),
        0 <= off <= k,
    ensures
        spec_cut(
            ConnectView::spec_decode_payload(s, off, protocol, flags, keep_alive, client_id),
            ConnectView::spec_decode_payload(
                s.subrange(0, k),
                off,
                protocol,
                flags,
                keep_alive,
                client_id,
            ),
            k,
        ),
{
    let t = s.subrange(0, k);
    lemma_last_will_cut(s, k, off, flags);
    if spec_read_last_will(s, off, flags) is Ok {
        let off1 = spec_read_last_will(s, off, flags)->Ok_0.1;
        if off1 <= k {
            lemma_opt_string_cut(s, k, off1, flags / 128 == 1);
            if spec_read_opt_string(s, off1, flags / 128 == 1) is Ok {
                let off2 = spec_read_opt_string(s, off1, flags / 128 == 1)->Ok_0.1;
                if off2 <= k {
                    lemma_opt_bytes_cut(s, k, off2, (flags / 64) % 2 == 1);
                }
            }
        }
    }
}

/// What follows the protocol of a connect packet, read from a cut sequence.
#[verifier::rlimit(50)]
pub proof fn lemma_connect_fields_cut(s: Seq<u8>, k: int, off: int, protocol: Protocol)
    requires
        0 <= k <= s.len(),
        0 <= off <= k,
    ensures
        spec_cut(
            ConnectView::spec_decode_with_protocol(s, off, protocol),
            ConnectView::spec_decode_with_protocol(s.subrange(0, k), off, protocol),
            k,
        ),
{
    lemma_u8_cut(s, k, off);
    if spec_read_u8(s, off) is Ok {
        let flags = spec_read_u8(s, off)->Ok_0.0;
        let off1 = spec_read_u8(s, off)->Ok_0.1;
        lemma_u16_cut(s, k, off1);
        if spec_read_u16(s, off1) is Ok {
            let keep_alive = spec_read_u16(s, off1)->Ok_0.0;
            let off2 = spec_read_u16(s, off1)->Ok_0.1;
            lemma_string_cut(s, k, off2);
            if spec_read_string(s, off2) is Ok {
                let client_id = spec_read_string(s, off2)->Ok_0.0;
                let off3 = spec_read_string(s, off2)->Ok_0.1;
                if off3 <= k {
                    lemma_connect_payload_cut(s, k, off3, protocol, flags, keep_alive, client_id);
                }
            }
        }
    }
}

/// The body of a connect packet, read from a cut sequence.
#[verifier::rlimit(50)]
pub proof fn lemma_connect_cut(s: Seq<u8>, k: int)
    requires
        0 <= k <= s.len(),
    ensures
        spec_cut(ConnectView::spec_decode(s, 0), ConnectView::spec_decode(s.subrange(0, k), 0), k),
{
    lemma_protocol_cut(s, k, 0);
    if Protocol::spec_decode(s, 0) is Ok {
        let protocol = Protocol::spec_decode(s, 0)->Ok_0.0;
        let off1 = Protocol::spec_decode(s, 0)->Ok_0.1;
        if off1 <= k {
            lemma_connect_fields_cut(s, k, off1, protocol);
        }
    }
}

/// Truncation of a connect packet's body: of the bytes that a connect
/// packet is written as, every proper beginning ends the decoder with
/// `UnexpectedEof`, and with nothing else.
#[verifier::rlimit(50)]
pub proof fn lemma_connect_truncation(c: ConnectView, k: int)
    requires
        c.wf(),
        0 <= k < c.spec_bytes().len(),
    ensures
        ConnectView::spec_decode(c.spec_bytes().subrange(0, k), 0) == Err::<
            (ConnectView, int),
            ErrorView,
        >(ErrorView::UnexpectedEof),
{
    lemma_connect_round_trip(c);
    lemma_connect_cut(c.spec_bytes(), k);
}

/// The body of a connack packet is read back from its own bytes.
#[verifier::rlimit(50)]
pub proof fn lemma_connack_round_trip(c: Connack)
    ensures
        Connack::spec_decode(c.spec_bytes(), 0) == Ok::<(Connack, int), ErrorView>((c, 2)),
{
}

/// A body that is a packet identifier is read back from its own bytes.
#[verifier::rlimit(50)]
pub proof fn lemma_pid_round_trip(pid: u16)
    requires
        pid != 0,
    ensures
        spec_decode_pid_body(spec_u16_bytes(pid)) == Ok::<(u16, int), ErrorView>((pid, 2)),
{
    let s = spec_u16_bytes(pid);
    assert(s.subrange(0, 2) =~= spec_u16_bytes(pid) + Seq::<u8>::empty());
    lemma_u16_suffix(s, 0, pid, Seq::empty());
}

/// The body of a publish packet is read back from its own bytes.
#[verifier::rlimit(50)]
pub proof fn lemma_publish_round_trip(p: PublishView, h: Header)
    requires
        p.wf(),
        h.dup == p.dup,
        h.retain == p.retain,
        h.qos == p.qos_pid.qos(),
    ensures
        PublishView::spec_decode(p.spec_bytes(), 0, h) == Ok::<(PublishView, int), ErrorView>(
            (p, p.spec_bytes().len() as int),
        ),
{
    let s = p.spec_bytes();
    let rest1 = p.qos_pid.pid_bytes() + p.payload;
    lemma_concat_assoc3(spec_string_bytes(p.topic_name), p.qos_pid.pid_bytes(), p.payload);
    lemma_whole(s);
    lemma_string_suffix(s, 0, p.topic_name, rest1);
    let off1 = (2 + encode_utf8(p.topic_name).len()) as int;
    lemma_qos_pid_suffix(s, off1, p.qos_pid, p.payload);
}

/// The bytes of a list of entries that begins with `x`.
#[verifier::rlimit(50)]
pub proof fn lemma_entries_bytes_front(x: (Seq<char>, QoS), rest: Seq<(Seq<char>, QoS)>)
    ensures
        spec_entries_bytes(seq![x] + rest) == spec_string_bytes(x.0).push(x.1.spec_to_u8())
            + spec_entries_bytes(rest),
    decreases rest.len(),
{
    let all = seq![x] + rest;
    if rest.len() == 0 {
        assert(all.drop_last() =~= Seq::empty());
        assert(spec_entries_bytes(all.drop_last()) =~= Seq::empty());
        assert(spec_entries_bytes(all) =~= spec_string_bytes(x.0).push(x.1.spec_to_u8())
            + spec_entries_bytes(rest));
    } else {
        assert(all.drop_last() =~= seq![x] + rest.drop_last());
        lemma_entries_bytes_front(x, rest.drop_last());
        assert(all.last() == rest.last());
        assert(spec_entries_bytes(all) =~= spec_string_bytes(x.0).push(x.1.spec_to_u8())
            + spec_entries_bytes(rest));
    }
}

/// The entries of a subscribe packet are read back from their own bytes.
#[verifier::rlimit(50)]
pub proof fn lemma_entries_round_trip(
    s: Seq<u8>,
    off: int,
    acc: Seq<(Seq<char>, QoS)>,
    rest: Seq<(Seq<char>, QoS)>,
)
    requires
        0 <= off <= s.len(),
        s.subrange(off, s.len() as int) == spec_entries_bytes(rest),
        forall|i: int| 0 <= i < rest.len() ==> spec_topic_filter(#[trigger] rest[i].0) is Ok,
    ensures
        spec_read_entries(s, off, spec_entries_bytes(rest).len() as int, acc) == Ok::<
            (Seq<(Seq<char>, QoS)>, int),
            ErrorView,
        >((acc + rest, s.len() as int)),
    decreases rest.len(),
{
    if rest.len() == 0 {
        assert(acc + rest =~= acc);
    } else {
        let x = rest[0];
        let more = rest.drop_first();
        assert(rest =~= seq![x] + more);
        lemma_entries_bytes_front(x, more);
        assert(spec_topic_filter(x.0) is Ok);
        let tail1 = seq![x.1.spec_to_u8()] + spec_entries_bytes(more);
        assert(spec_entries_bytes(rest) =~= spec_string_bytes(x.0) + tail1);
        lemma_string_suffix(s, off, x.0, tail1);
        let off1 = off + 2 + encode_utf8(x.0).len();
        lemma_u8_suffix(s, off1, x.1.spec_to_u8(), spec_entries_bytes(more));
        assert forall|i: int| 0 <= i < more.len() implies spec_topic_filter(
            #[trigger] more[i].0,
        ) is Ok by {
            assert(more[i] == rest[i + 1]);
        }
        lemma_entries_round_trip(s, off1 + 1, acc.push(x), more);
        assert(acc.push(x) + more =~= acc + rest);
    }
}

/// The parser of subscribe packets puts together what its parts give.
#[verifier::rlimit(50)]
pub proof fn lemma_subscribe_assemble(s: Seq<u8>, p: SubscribeView, remaining: int)
    requires
        p.pid != 0,
        remaining >= 2,
        2 < s.len(),
        spec_read_u16(s, 0) == Ok::<(u16, int), ErrorView>((p.pid, 2)),
        spec_read_entries(s, 2, remaining - 2, Seq::empty()) == Ok::<
            (Seq<(Seq<char>, QoS)>, int),
            ErrorView,
        >((p.topics, s.len() as int)),
    ensures
        SubscribeView::spec_decode(s, 0, remaining) == Ok::<(SubscribeView, int), ErrorView>(
            (p, s.len() as int),
        ),
{
}

/// One entry or more have three bytes or more.
#[verifier::rlimit(50)]
pub proof fn lemma_entries_not_empty(topics: Seq<(Seq<char>, QoS)>)
    requires
        topics.len() > 0,
    ensures
        spec_entries_bytes(topics).len() >= 3,
{
    let x = topics[0];
    assert(topics =~= seq![x] + topics.drop_first());
    lemma_entries_bytes_front(x, topics.drop_first());
}

/// The entries that fill what is left of `s` are read back.
#[verifier::rlimit(50)]
pub proof fn lemma_entries_whole(s: Seq<u8>, off: int, topics: Seq<(Seq<char>, QoS)>)
    requires
        0 <= off <= s.len(),
        s.subrange(off, s.len() as int) == spec_entries_bytes(topics),
        forall|i: int| 0 <= i < topics.len() ==> spec_topic_filter(#[trigger] topics[i].0) is Ok,
    ensures
        spec_read_entries(s, off, spec_entries_bytes(topics).len() as int, Seq::empty()) == Ok::<
            (Seq<(Seq<char>, QoS)>, int),
            ErrorView,
        >((topics, s.len() as int)),
{
    lemma_entries_round_trip(s, off, Seq::empty(), topics);
    assert(Seq::<(Seq<char>, QoS)>::empty() + topics =~= topics);
}

/// The body of a subscribe packet is read back from its own bytes.
#[verifier::rlimit(50)]
pub proof fn lemma_subscribe_round_trip(p: SubscribeView)
    requires
        p.wf(),
    ensures
        SubscribeView::spec_decode(p.spec_bytes(), 0, p.spec_bytes().len() as int) == Ok::<
            (SubscribeView, int),
            ErrorView,
        >((p, p.spec_bytes().len() as int)),
{
    let s = p.spec_bytes();
    let entries = spec_entries_bytes(p.topics);
    lemma_whole(s);
    lemma_u16_suffix(s, 0, p.pid, entries);
    lemma_entries_whole(s, 2, p.topics);
    lemma_entries_not_empty(p.topics);
    lemma_subscribe_assemble(s, p, s.len() as int);
}

/// The return codes of a suback packet are read back from their own bytes.
#[verifier::rlimit(50)]
pub proof fn lemma_codes_round_trip(
    s: Seq<u8>,
    off: int,
    acc: Seq<SubscribeReturnCode>,
    rest: Seq<SubscribeReturnCode>,
)
    requires
        0 <= off <= s.len(),
        s.subrange(off, s.len() as int) == rest.map_values(
            |c: SubscribeReturnCode| c.spec_to_u8(),
        ),
    ensures
        spec_read_codes(s, off, rest.len() as int, acc) == Ok::<
            (Seq<SubscribeReturnCode>, int),
            ErrorView,
        >((acc + rest, s.len() as int)),
    decreases rest.len(),
{
    let bytes = rest.map_values(|c: SubscribeReturnCode| c.spec_to_u8());
    if rest.len() == 0 {
        assert(acc + rest =~= acc);
        assert(s.subrange(off, s.len() as int).len() == 0);
    } else {
        let x = rest[0];
        let more = rest.drop_first();
        assert(s.subrange(off, s.len() as int).len() == rest.len());
        assert(s[off] == s.subrange(off, s.len() as int)[0]);
        assert(bytes[0] == x.spec_to_u8());
        assert(s.subrange(off + 1, s.len() as int) =~= more.map_values(
            |c: SubscribeReturnCode| c.spec_to_u8(),
        )) by {
            let a = s.subrange(off + 1, s.len() as int);
            let b = more.map_values(|c: SubscribeReturnCode| c.spec_to_u8());
            assert(a.len() == b.len());
            assert forall|i: int| 0 <= i < a.len() implies a[i] == b[i] by {
                assert(a[i] == s.subrange(off, s.len() as int)[i + 1]);
                assert(bytes[i + 1] == rest[i + 1].spec_to_u8());
            }
        }
        lemma_codes_round_trip(s, off + 1, acc.push(x), more);
        assert(acc.push(x) + more =~= acc + rest);
    }
}

/// The parser of suback packets puts together what its parts give.
#[verifier::rlimit(50)]
pub proof fn lemma_suback_assemble(s: Seq<u8>, p: SubackView, remaining: int)
    requires
        p.pid != 0,
        remaining >= 2,
        spec_read_u16(s, 0) == Ok::<(u16, int), ErrorView>((p.pid, 2)),
        spec_read_codes(s, 2, remaining - 2, Seq::empty()) == Ok::<
            (Seq<SubscribeReturnCode>, int),
            ErrorView,
        >((p.topics, s.len() as int)),
    ensures
        SubackView::spec_decode(s, 0, remaining) == Ok::<(SubackView, int), ErrorView>(
            (p, s.len() as int),
        ),
{
}

/// The return codes that fill what is left of `s` are read back.
#[verifier::rlimit(50)]
pub proof fn lemma_codes_whole(s: Seq<u8>, off: int, codes: Seq<SubscribeReturnCode>)
    requires
        0 <= off <= s.len(),
        s.subrange(off, s.len() as int) == codes.map_values(
            |c: SubscribeReturnCode| c.spec_to_u8(),
        ),
    ensures
        spec_read_codes(s, off, codes.len() as int, Seq::empty()) == Ok::<
            (Seq<SubscribeReturnCode>, int),
            ErrorView,
        >((codes, s.len() as int)),
{
    lemma_codes_round_trip(s, off, Seq::empty(), codes);
    assert(Seq::<SubscribeReturnCode>::empty() + codes =~= codes);
}

/// The body of a suback packet is read back from its own bytes.
#[verifier::rlimit(50)]
pub proof fn lemma_suback_round_trip(p: SubackView)
    requires
        p.wf(),
    ensures
        SubackView::spec_decode(p.spec_bytes(), 0, p.spec_bytes().len() as int) == Ok::<
            (SubackView, int),
            ErrorView,
        >((p, p.spec_bytes().len() as int)),
{
    let s = p.spec_bytes();
    let codes = p.topics.map_values(|c: SubscribeReturnCode| c.spec_to_u8());
    lemma_whole(s);
    lemma_u16_suffix(s, 0, p.pid, codes);
    lemma_codes_whole(s, 2, p.topics);
    lemma_suback_assemble(s, p, s.len() as int);
}

/// The bytes of a list of filters that begins with `x`.
#[verifier::rlimit(50)]
pub proof fn lemma_filters_bytes_front(x: Seq<char>, rest: Seq<Seq<char>>)
    ensures
        spec_filters_bytes(seq![x] + rest) == spec_string_bytes(x) + spec_filters_bytes(rest),
    decreases rest.len(),
{
    let all = seq![x] + rest;
    if rest.len() == 0 {
        assert(all.drop_last() =~= Seq::empty());
        assert(spec_filters_bytes(all.drop_last()) =~= Seq::empty());
        assert(spec_filters_bytes(all) =~= spec_string_bytes(x) + spec_filters_bytes(rest));
    } else {
        assert(all.drop_last() =~= seq![x] + rest.drop_last());
        lemma_filters_bytes_front(x, rest.drop_last());
        assert(all.last() == rest.last());
        assert(spec_filters_bytes(all) =~= spec_string_bytes(x) + spec_filters_bytes(rest));
    }
}

/// The filters of an unsubscribe packet are read back from their own bytes.
#[verifier::rlimit(50)]
pub proof fn lemma_filters_round_trip(
    s: Seq<u8>,
    off: int,
    acc: Seq<Seq<char>>,
    rest: Seq<Seq<char>>,
)
    requires
        0 <= off <= s.len(),
        s.subrange(off, s.len() as int) == spec_filters_bytes(rest),
        forall|i: int| 0 <= i < rest.len() ==> spec_topic_filter(#[trigger] rest[i]) is Ok,
    ensures
        spec_read_filters(s, off, spec_filters_bytes(rest).len() as int, acc) == Ok::<
            (Seq<Seq<char>>, int),
            ErrorView,
        >((acc + rest, s.len() as int)),
    decreases rest.len(),
{
    if rest.len() == 0 {
        assert(acc + rest =~= acc);
    } else {
        let x = rest[0];
        let more = rest.drop_first();
        assert(rest =~= seq![x] + more);
        lemma_filters_bytes_front(x, more);
        assert(spec_topic_filter(x) is Ok);
        lemma_string_suffix(s, off, x, spec_filters_bytes(more));
        let off1 = off + 2 + encode_utf8(x).len();
        assert forall|i: int| 0 <= i < more.len() implies spec_topic_filter(
            #[trigger] more[i],
        ) is Ok by {
            assert(more[i] == rest[i + 1]);
        }
        lemma_filters_round_trip(s, off1, acc.push(x), more);
        assert(acc.push(x) + more =~= acc + rest);
    }
}

/// The parser of unsubscribe packets puts together what its parts give.
#[verifier::rlimit(50)]
pub proof fn lemma_unsubscribe_assemble(s: Seq<u8>, p: UnsubscribeView, remaining: int)
    requires
        p.pid != 0,
        remaining > 2,
        spec_read_u16(s, 0) == Ok::<(u16, int), ErrorView>((p.pid, 2)),
        spec_read_filters(s, 2, remaining - 2, Seq::empty()) == Ok::<
            (Seq<Seq<char>>, int),
            ErrorView,
        >((p.topics, s.len() as int)),
    ensures
        UnsubscribeView::spec_decode(s, 0, remaining) == Ok::<(UnsubscribeView, int), ErrorView>(
            (p, s.len() as int),
        ),
{
}

/// One filter or more have two bytes or more.
#[verifier::rlimit(50)]
pub proof fn lemma_filters_not_empty(topics: Seq<Seq<char>>)
    requires
        topics.len() > 0,
    ensures
        spec_filters_bytes(topics).len() >= 2,
{
    let x = topics[0];
    assert(topics =~= seq![x] + topics.drop_first());
    lemma_filters_bytes_front(x, topics.drop_first());
}

/// The filters that fill what is left of `s` are read back.
#[verifier::rlimit(50)]
pub proof fn lemma_filters_whole(s: Seq<u8>, off: int, topics: Seq<Seq<char>>)
    requires
        0 <= off <= s.len(),
        s.subrange(off, s.len() as int) == spec_filters_bytes(topics),
        forall|i: int| 0 <= i < topics.len() ==> spec_topic_filter(#[trigger] topics[i]) is Ok,
    ensures
        spec_read_filters(s, off, spec_filters_bytes(topics).len() as int, Seq::empty()) == Ok::<
            (Seq<Seq<char>>, int),
            ErrorView,
        >((topics, s.len() as int)),
{
    lemma_filters_round_trip(s, off, Seq::empty(), topics);
    assert(Seq::<Seq<char>>::empty() + topics =~= topics);
}

/// The body of an unsubscribe packet is read back from its own bytes.
#[verifier::rlimit(50)]
pub proof fn lemma_unsubscribe_round_trip(p: UnsubscribeView)
    requires
        p.wf(),
    ensures
        UnsubscribeView::spec_decode(p.spec_bytes(), 0, p.spec_bytes().len() as int) == Ok::<
            (UnsubscribeView, int),
            ErrorView,
        >((p, p.spec_bytes().len() as int)),
{
    let s = p.spec_bytes();
    lemma_whole(s);
    lemma_u16_suffix(s, 0, p.pid, spec_filters_bytes(p.topics));
    lemma_filters_whole(s, 2, p.topics);
    lemma_filters_not_empty(p.topics);
    lemma_unsubscribe_assemble(s, p, s.len() as int);
}

/// The whole body of a connect packet is read back.
#[verifier::rlimit(50)]
pub proof fn lemma_body_connect(c: ConnectView, h: Header)
    requires
        c.wf(),
    ensures
        spec_body_connect(h, c.spec_bytes()) == Ok::<PacketView, ErrorView>(PacketView::Connect(c)),
{
    lemma_connect_round_trip(c);
}

/// The whole body of a connack packet is read back.
#[verifier::rlimit(50)]
pub proof fn lemma_body_connack(c: Connack, h: Header)
    requires
    ensures
        spec_body_connack(h, c.spec_bytes()) == Ok::<PacketView, ErrorView>(PacketView::Connack(c)),
{
    lemma_connack_round_trip(c);
}

/// The whole body of a publish packet is read back.
#[verifier::rlimit(50)]
pub proof fn lemma_body_publish(x: PublishView, h: Header)
    requires
        x.wf(),
        h.dup == x.dup,
        h.retain == x.retain,
        h.qos == x.qos_pid.qos(),
    ensures
        spec_body_publish(h, x.spec_bytes()) == Ok::<PacketView, ErrorView>(PacketView::Publish(x)),
{
    lemma_publish_round_trip(x, h);
}

/// The whole body of a puback packet is read back.
#[verifier::rlimit(50)]
pub proof fn lemma_body_puback(pid: u16, h: Header)
    requires
        pid != 0,
    ensures
        spec_body_puback(h, spec_u16_bytes(pid)) == Ok::<PacketView, ErrorView>(PacketView::Puback(pid)),
{
    lemma_pid_round_trip(pid);
}

/// The whole body of a pubrec packet is read back.
#[verifier::rlimit(50)]
pub proof fn lemma_body_pubrec(pid: u16, h: Header)
    requires
        pid != 0,
    ensures
        spec_body_pubrec(h, spec_u16_bytes(pid)) == Ok::<PacketView, ErrorView>(PacketView::Pubrec(pid)),
{
    lemma_pid_round_trip(pid);
}

/// The whole body of a pubrel packet is read back.
#[verifier::rlimit(50)]
pub proof fn lemma_body_pubrel(pid: u16, h: Header)
    requires
        pid != 0,
    ensures
        spec_body_pubrel(h, spec_u16_bytes(pid)) == Ok::<PacketView, ErrorView>(PacketView::Pubrel(pid)),
{
    lemma_pid_round_trip(pid);
}

/// The whole body of a pubcomp packet is read back.
#[verifier::rlimit(50)]
pub proof fn lemma_body_pubcomp(pid: u16, h: Header)
    requires
        pid != 0,
    ensures
        spec_body_pubcomp(h, spec_u16_bytes(pid)) == Ok::<PacketView, ErrorView>(PacketView::Pubcomp(pid)),
{
    lemma_pid_round_trip(pid);
}

/// The whole body of a unsuback packet is read back.
#[verifier::rlimit(50)]
pub proof fn lemma_body_unsuback(pid: u16, h: Header)
    requires
        pid != 0,
    ensures
        spec_body_unsuback(h, spec_u16_bytes(pid)) == Ok::<PacketView, ErrorView>(PacketView::Unsuback(pid)),
{
    lemma_pid_round_trip(pid);
}

/// The whole body of a subscribe packet is read back.
#[verifier::rlimit(50)]
pub proof fn lemma_body_subscribe(x: SubscribeView, h: Header)
    requires
        x.wf(),
        h.remaining_len == x.spec_bytes().len(),
    ensures
        spec_body_subscribe(h, x.spec_bytes()) == Ok::<PacketView, ErrorView>(PacketView::Subscribe(x)),
{
    lemma_subscribe_round_trip(x);
}

/// The whole body of a suback packet is read back.
#[verifier::rlimit(50)]
pub proof fn lemma_body_suback(x: SubackView, h: Header)
    requires
        x.wf(),
        h.remaining_len == x.spec_bytes().len(),
    ensures
        spec_body_suback(h, x.spec_bytes()) == Ok::<PacketView, ErrorView>(PacketView::Suback(x)),
{
    lemma_suback_round_trip(x);
}

/// The whole body of a unsubscribe packet is read back.
#[verifier::rlimit(50)]
pub proof fn lemma_body_unsubscribe(x: UnsubscribeView, h: Header)
    requires
        x.wf(),
        h.remaining_len == x.spec_bytes().len(),
    ensures
        spec_body_unsubscribe(h, x.spec_bytes()) == Ok::<PacketView, ErrorView>(PacketView::Unsubscribe(x)),
{
    lemma_unsubscribe_round_trip(x);
}

/// The body of every packet is read back from its own bytes, under the
/// header that the packet is sent with.
#[verifier::rlimit(50)]
pub proof fn lemma_body_round_trip(p: PacketView)
    requires
        p.wf(),
        p.spec_body_bytes().len() <= VAR_INT_MAX,
    ensures
        spec_decode_body(p.spec_header(p.spec_body_bytes().len() as u32), p.spec_body_bytes())
            == Ok::<PacketView, ErrorView>(p),
{
    reveal(spec_decode_body);
    let h = p.spec_header(p.spec_body_bytes().len() as u32);
    match p {
        PacketView::Connect(c) => lemma_body_connect(c, h),
        PacketView::Connack(c) => lemma_body_connack(c, h),
        PacketView::Publish(x) => lemma_body_publish(x, h),
        PacketView::Puback(pid) => lemma_body_puback(pid, h),
        PacketView::Pubrec(pid) => lemma_body_pubrec(pid, h),
        PacketView::Pubrel(pid) => lemma_body_pubrel(pid, h),
        PacketView::Pubcomp(pid) => lemma_body_pubcomp(pid, h),
        PacketView::Subscribe(x) => lemma_body_subscribe(x, h),
        PacketView::Suback(x) => lemma_body_suback(x, h),
        PacketView::Unsubscribe(x) => lemma_body_unsubscribe(x, h),
        PacketView::Unsuback(pid) => lemma_body_unsuback(pid, h),
        PacketView::Pingreq => {},
        PacketView::Pingresp => {},
        PacketView::Disconnect => {},
    }
}

/// Round trip: every packet that can be carried is decoded from its own
/// encoding, which is used up.
#[verifier::rlimit(50)]
pub proof fn lemma_packet_round_trip(p: PacketView)
    requires
        p.wf(),
        p.spec_body_bytes().len() <= VAR_INT_MAX,
    ensures
        p.spec_encode() is Ok,
        spec_decode_packet(p.spec_encode()->Ok_0) == Ok::<Option<(PacketView, int)>, ErrorView>(
            Some((p, p.spec_encode()->Ok_0.len() as int)),
        ),
{
    let body = p.spec_body_bytes();
    let h = p.spec_header(body.len() as u32);
    let s = h.spec_bytes() + body;
    lemma_header_round_trip(h, body);
    lemma_body_round_trip(p);
    let start = h.spec_bytes().len() as int;
    assert(s.subrange(start, start + h.remaining_len) =~= body);
}

} // verus!
