//! Round trip: what the 5.0 encoders write, the decoders read back.

use crate::common::error::ErrorView;
use crate::common::laws::{
    lemma_opt_bytes_suffix, lemma_opt_string_suffix, lemma_protocol_suffix, lemma_qos_pid_suffix,
};
use crate::common::topic::{spec_topic_filter, spec_topic_name};
use crate::common::types::{spec_read_qos_pid, Protocol};
use crate::common::utils::{
    lemma_bytes_suffix, lemma_concat_assoc4, lemma_push_concat, lemma_string_suffix,
    lemma_u16_suffix, lemma_u32_suffix, lemma_u8_suffix, lemma_var_int_suffix, lemma_whole,
    spec_field_bytes, spec_read_opt_bytes, spec_read_opt_string, spec_read_string, spec_read_u16,
    spec_read_u8, spec_string_bytes, spec_u16_bytes, spec_var_int_bytes, spec_var_int_len,
    FIELD_MAX, VAR_INT_MAX,
};
use crate::v5::connect::{
    spec_read_last_will, spec_reason_ok, spec_reason_scope, ConnackView, ConnectView, LastWillView,
    ReasonView,
};
use crate::v5::error::ErrorV5View;
use crate::v5::header::{lemma_header_round_trip, Header, PacketType};
use crate::v5::packet::{
    spec_body_auth, spec_body_connack, spec_body_connect, spec_body_disconnect, spec_body_puback,
    spec_body_pubcomp, spec_body_publish, spec_body_pubrec, spec_body_pubrel, spec_body_suback,
    spec_body_subscribe, spec_body_unsuback, spec_body_unsubscribe, spec_decode_body,
    spec_decode_packet, PacketView,
};
use crate::v5::properties::{
    contains_id, spec_find, spec_items_bytes, spec_items_fit, spec_opt_item, spec_properties_bytes,
    spec_read_items, spec_read_properties, spec_read_value, spec_user_items, spec_user_properties,
    spec_value_ok, PropertyId, PropertyScope, PropertyValueView, PropertyView,
};
use crate::v5::publish::{
    spec_ack_code_ok, spec_ack_scope, spec_flag_byte, spec_read_publish_properties,
    AckPropertiesView, AckView, PublishPropertiesView, PublishView,
};
use crate::v5::subscribe::{
    lemma_options_round_trip, spec_entries_bytes, spec_filters_bytes, spec_read_entries,
    spec_read_filters, spec_read_pid_properties, spec_read_suback_codes, spec_read_unsuback_codes,
    SubackView, SubscribeReasonCode, SubscribeView, SubscriptionOptions, UnsubackView,
    UnsubscribeReasonCode, UnsubscribeView,
};
use vstd::prelude::*;
use vstd::utf8::encode_utf8;

verus! {

/// The value of a property at the head of what is left of `s` is read, and
/// its tail is what is left then.
#[verifier::rlimit(50)]
pub proof fn lemma_value_suffix(s: Seq<u8>, off: int, v: PropertyValueView, tail: Seq<u8>)
    requires
        v.fits(),
        0 <= off <= s.len(),
        s.subrange(off, s.len() as int) == v.spec_bytes() + tail,
    ensures
        spec_read_value(s, off, v.kind()) == Ok::<(PropertyValueView, int), ErrorView>(
            (v, off + v.spec_bytes().len()),
        ),
        s.subrange(off + v.spec_bytes().len(), s.len() as int) == tail,
        off + v.spec_bytes().len() <= s.len(),
        v.spec_bytes().len() >= 1,
{
    match v {
        PropertyValueView::Byte(b) => {
            lemma_u8_suffix(s, off, b, tail);
        },
        PropertyValueView::TwoByte(x) => {
            lemma_u16_suffix(s, off, x, tail);
        },
        PropertyValueView::FourByte(x) => {
            lemma_u32_suffix(s, off, x, tail);
        },
        PropertyValueView::VarInt(x) => {
            lemma_var_int_suffix(s, off, x, tail);
        },
        PropertyValueView::Binary(b) => {
            lemma_bytes_suffix(s, off, b, tail);
        },
        PropertyValueView::Text(t) => {
            lemma_string_suffix(s, off, t, tail);
        },
        PropertyValueView::Pair(k, w) => {
            assert(v.spec_bytes() + tail =~= spec_string_bytes(k) + (spec_string_bytes(w) + tail));
            lemma_string_suffix(s, off, k, spec_string_bytes(w) + tail);
            lemma_string_suffix(s, off + 2 + encode_utf8(k).len(), w, tail);
        },
    }
}

/// The bytes of a list of properties that begins with `x`.
#[verifier::rlimit(50)]
pub proof fn lemma_items_bytes_front(x: PropertyView, rest: Seq<PropertyView>)
    ensures
        spec_items_bytes(seq![x] + rest) == x.spec_bytes() + spec_items_bytes(rest),
    decreases rest.len(),
{
    let all = seq![x] + rest;
    if rest.len() == 0 {
        assert(all.drop_last() =~= Seq::empty());
        assert(spec_items_bytes(all.drop_last()) =~= Seq::empty());
        assert(spec_items_bytes(all) =~= x.spec_bytes() + spec_items_bytes(rest));
    } else {
        assert(all.drop_last() =~= seq![x] + rest.drop_last());
        lemma_items_bytes_front(x, rest.drop_last());
        assert(all.last() == rest.last());
        assert(spec_items_bytes(all) =~= x.spec_bytes() + spec_items_bytes(rest));
    }
}

/// Each property is one that a block at this place can hold: allowed there,
/// with a value of its kind, in its domain, that has an encoding.
pub open spec fn spec_items_ok(items: Seq<PropertyView>, scope: PropertyScope) -> bool {
    forall|i: int|
        0 <= i < items.len() ==> {
            let x = #[trigger] items[i];
            &&& scope.spec_allows(x.id)
            &&& x.value.kind() == x.id.spec_kind()
            &&& spec_value_ok(x.id, x.value)
            &&& x.value.fits()
        }
}

/// No property that must not repeat stands twice in the list.
pub open spec fn spec_no_repeat(items: Seq<PropertyView>) -> bool {
    forall|i: int, j: int|
        0 <= i < j < items.len() && (#[trigger] items[i]).id == (#[trigger] items[j]).id
            ==> items[i].id.spec_repeatable()
}

/// A block of properties that can be carried at the given place.
pub open spec fn spec_properties_wf(items: Seq<PropertyView>, scope: PropertyScope) -> bool {
    &&& spec_items_ok(items, scope)
    &&& spec_no_repeat(items)
    &&& spec_items_fit(items)
}

/// An identifier is read back from its byte.
#[verifier::rlimit(50)]
pub proof fn lemma_property_id_round_trip(id: PropertyId)
    ensures
        PropertyId::spec_from_u8(id.spec_to_u8()) == Some(id),
{
}

/// Reading a block goes past the properties that it begins with, where they
/// are such as a block at this place can hold.
#[verifier::rlimit(50)]
pub proof fn lemma_items_prefix(
    s: Seq<u8>,
    off: int,
    scope: PropertyScope,
    acc: Seq<PropertyView>,
    rest: Seq<PropertyView>,
    tail: Seq<u8>,
)
    requires
        0 <= off <= s.len(),
        s.subrange(off, s.len() as int) == spec_items_bytes(rest) + tail,
        spec_items_ok(rest, scope),
        spec_no_repeat(acc + rest),
    ensures
        spec_read_items(s, off, scope, acc) == spec_read_items(
            s,
            off + spec_items_bytes(rest).len(),
            scope,
            acc + rest,
        ),
        off + spec_items_bytes(rest).len() <= s.len(),
        s.subrange(off + spec_items_bytes(rest).len(), s.len() as int) == tail,
    decreases rest.len(),
{
    if rest.len() == 0 {
        assert(acc + rest =~= acc);
        assert(s.subrange(off, s.len() as int) =~= tail);
    } else {
        let x = rest[0];
        let more = rest.drop_first();
        assert(rest =~= seq![x] + more);
        lemma_items_bytes_front(x, more);
        let after_id = x.value.spec_bytes() + (spec_items_bytes(more) + tail);
        assert(spec_items_bytes(rest) + tail =~= seq![x.id.spec_to_u8()] + after_id);
        lemma_u8_suffix(s, off, x.id.spec_to_u8(), after_id);
        lemma_property_id_round_trip(x.id);
        lemma_value_suffix(s, off + 1, x.value, spec_items_bytes(more) + tail);
        assert(!x.id.spec_repeatable() ==> !contains_id(acc, x.id)) by {
            if !x.id.spec_repeatable() && contains_id(acc, x.id) {
                let i = choose|i: int| 0 <= i < acc.len() && (#[trigger] acc[i]).id == x.id;
                assert((acc + rest)[i] == acc[i]);
                assert((acc + rest)[acc.len() as int] == x);
            }
        }
        let next = off + 1 + x.value.spec_bytes().len();
        assert(acc.push(x) + more =~= acc + rest);
        assert forall|i: int| 0 <= i < more.len() implies {
            let y = #[trigger] more[i];
            &&& scope.spec_allows(y.id)
            &&& y.value.kind() == y.id.spec_kind()
            &&& spec_value_ok(y.id, y.value)
            &&& y.value.fits()
        } by {
            assert(more[i] == rest[i + 1]);
        }
        lemma_items_prefix(s, next, scope, acc.push(x), more, tail);
        assert(x.spec_bytes().len() == 1 + x.value.spec_bytes().len());
    }
}

/// What is left of `s` parts where its two parts meet.
#[verifier::rlimit(50)]
pub proof fn lemma_split(s: Seq<u8>, start: int, a: Seq<u8>, b: Seq<u8>)
    requires
        0 <= start <= s.len(),
        s.subrange(start, s.len() as int) == a + b,
    ensures
        start + a.len() <= s.len(),
        s.subrange(start, start + a.len()) == a,
        s.subrange(start + a.len(), s.len() as int) == b,
{
    let rest = s.subrange(start, s.len() as int);
    assert(rest.len() == a.len() + b.len());
    assert(s.subrange(start, start + a.len()) =~= rest.subrange(0, a.len() as int));
    assert(rest.subrange(0, a.len() as int) =~= a);
    assert(s.subrange(start + a.len(), s.len() as int) =~= rest.subrange(
        a.len() as int,
        rest.len() as int,
    ));
    assert(rest.subrange(a.len() as int, rest.len() as int) =~= b);
}

/// The properties that fill a block are read back from their own bytes.
#[verifier::rlimit(50)]
pub proof fn lemma_items_round_trip(scope: PropertyScope, items: Seq<PropertyView>)
    requires
        spec_items_ok(items, scope),
        spec_no_repeat(items),
    ensures
        spec_read_items(spec_items_bytes(items), 0, scope, Seq::empty()) == Ok::<
            Seq<PropertyView>,
            ErrorV5View,
        >(items),
{
    let block = spec_items_bytes(items);
    assert(block.subrange(0, block.len() as int) =~= block + Seq::<u8>::empty());
    assert(Seq::<PropertyView>::empty() + items =~= items);
    lemma_items_prefix(block, 0, scope, Seq::empty(), items, Seq::empty());
}

/// A block of properties at the head of what is left of `s` is read, and
/// its tail is what is left then.
#[verifier::rlimit(50)]
pub proof fn lemma_properties_suffix(
    s: Seq<u8>,
    off: int,
    scope: PropertyScope,
    items: Seq<PropertyView>,
    tail: Seq<u8>,
)
    requires
        spec_properties_wf(items, scope),
        0 <= off <= s.len(),
        s.subrange(off, s.len() as int) == spec_properties_bytes(items) + tail,
    ensures
        spec_read_properties(s, off, scope) == Ok::<(Seq<PropertyView>, int), ErrorV5View>(
            (items, off + spec_properties_bytes(items).len()),
        ),
        s.subrange(off + spec_properties_bytes(items).len(), s.len() as int) == tail,
        off + spec_properties_bytes(items).len() <= s.len(),
{
    let body = spec_items_bytes(items);
    let len = body.len() as u32;
    assert(spec_properties_bytes(items) + tail =~= spec_var_int_bytes(len) + (body + tail));
    lemma_var_int_suffix(s, off, len, body + tail);
    let start = off + spec_var_int_len(len as int);
    lemma_split(s, start, body, tail);
    lemma_items_round_trip(scope, items);
}

/// A property that must not repeat and stands in a block behind one of its
/// kind makes the block fail with `DuplicatedProperty`, whatever follows.
#[verifier::rlimit(50)]
pub proof fn lemma_duplicate_is_rejected(
    scope: PropertyScope,
    before: Seq<PropertyView>,
    id: PropertyId,
    after: Seq<u8>,
)
    requires
        spec_items_ok(before, scope),
        spec_no_repeat(before),
        contains_id(before, id),
        !id.spec_repeatable(),
        scope.spec_allows(id),
    ensures
        spec_read_items(
            spec_items_bytes(before) + (seq![id.spec_to_u8()] + after),
            0,
            scope,
            Seq::empty(),
        ) == Err::<Seq<PropertyView>, ErrorV5View>(
            ErrorV5View::DuplicatedProperty(id),
        ),
{
    let tail = seq![id.spec_to_u8()] + after;
    let s = spec_items_bytes(before) + tail;
    lemma_whole(s);
    assert(Seq::<PropertyView>::empty() + before =~= before);
    lemma_items_prefix(s, 0, scope, Seq::empty(), before, tail);
    let off = spec_items_bytes(before).len() as int;
    assert(s[off] == tail[0]);
    lemma_property_id_round_trip(id);
}

/// The bytes of two lists of properties, one behind the other.
#[verifier::rlimit(50)]
pub proof fn lemma_items_bytes_concat(a: Seq<PropertyView>, b: Seq<PropertyView>)
    ensures
        spec_items_bytes(a + b) == spec_items_bytes(a) + spec_items_bytes(b),
    decreases b.len(),
{
    if b.len() == 0 {
        assert(a + b =~= a);
        assert(spec_items_bytes(a) + spec_items_bytes(b) =~= spec_items_bytes(a));
    } else {
        assert((a + b).drop_last() =~= a + b.drop_last());
        assert((a + b).last() == b.last());
        lemma_items_bytes_concat(a, b.drop_last());
        assert(spec_items_bytes(a + b) =~= spec_items_bytes(a) + spec_items_bytes(b));
    }
}

/// The place of the first property of `items` that repeats one before it
/// which must not repeat; the length of `items` where there is none.
pub open spec fn spec_first_repeat(items: Seq<PropertyView>) -> int
    decreases items.len(),
{
    if items.len() == 0 {
        0
    } else if spec_first_repeat(items.drop_last()) < items.len() - 1 {
        spec_first_repeat(items.drop_last())
    } else if !items.last().id.spec_repeatable() && contains_id(
        items.drop_last(),
        items.last().id,
    ) {
        items.len() - 1
    } else {
        items.len() as int
    }
}

/// What stands before the first repeat holds no repeat, and the first
/// repeat repeats one of it; a list without a first repeat holds no repeat.
#[verifier::rlimit(50)]
pub proof fn lemma_first_repeat(items: Seq<PropertyView>)
    ensures
        0 <= spec_first_repeat(items) <= items.len(),
        spec_no_repeat(items.subrange(0, spec_first_repeat(items))),
        spec_first_repeat(items) == items.len() <==> spec_no_repeat(items),
        spec_first_repeat(items) < items.len() ==> !items[spec_first_repeat(
            items,
        )].id.spec_repeatable() && contains_id(
            items.subrange(0, spec_first_repeat(items)),
            items[spec_first_repeat(items)].id,
        ),
    decreases items.len(),
{
    if items.len() == 0 {
        assert(items.subrange(0, 0) =~= items);
    } else {
        let front = items.drop_last();
        let n = items.len() - 1;
        lemma_first_repeat(front);
        let j = spec_first_repeat(front);
        if j < n {
            assert(front.subrange(0, j) =~= items.subrange(0, j));
            assert(front[j] == items[j]);
            if spec_no_repeat(items) {
                assert forall|a: int, b: int|
                    0 <= a < b < front.len() && (#[trigger] front[a]).id == (
                    #[trigger] front[b]).id implies front[a].id.spec_repeatable() by {
                    assert(items[a] == front[a] && items[b] == front[b]);
                }
            }
        } else {
            assert(front.subrange(0, j) =~= front);
            assert(items.subrange(0, n) =~= front);
            if !items.last().id.spec_repeatable() && contains_id(front, items.last().id) {
                let i = choose|i: int| 0 <= i < front.len() && (#[trigger] front[i]).id
                    == items.last().id;
                assert(items[i] == front[i]);
                assert(items[n] == items.last());
            } else {
                assert(items.subrange(0, items.len() as int) =~= items);
                assert forall|a: int, b: int|
                    0 <= a < b < items.len() && (#[trigger] items[a]).id == (
                    #[trigger] items[b]).id implies items[a].id.spec_repeatable() by {
                    if b < n {
                        assert(front[a] == items[a] && front[b] == items[b]);
                    } else {
                        assert(front[a] == items[a]);
                        assert(items[b] == items.last());
                    }
                }
            }
        }
    }
}

/// A block of properties, each such as a block at this place can hold, is
/// read back whole where none repeats that must not; else it fails with
/// `DuplicatedProperty` of the first that does.
#[verifier::rlimit(50)]
pub proof fn lemma_items_decode(scope: PropertyScope, items: Seq<PropertyView>)
    requires
        spec_items_ok(items, scope),
    ensures
        spec_read_items(spec_items_bytes(items), 0, scope, Seq::empty()) == (if spec_no_repeat(
            items,
        ) {
            Ok::<Seq<PropertyView>, ErrorV5View>(items)
        } else {
            Err::<Seq<PropertyView>, ErrorV5View>(
                ErrorV5View::DuplicatedProperty(items[spec_first_repeat(items)].id),
            )
        }),
{
    lemma_first_repeat(items);
    if spec_no_repeat(items) {
        lemma_items_round_trip(scope, items);
    } else {
        let j = spec_first_repeat(items);
        let before = items.subrange(0, j);
        let x = items[j];
        let behind = items.subrange(j + 1, items.len() as int);
        assert(items =~= before + (seq![x] + behind));
        lemma_items_bytes_concat(before, seq![x] + behind);
        lemma_items_bytes_front(x, behind);
        let after = x.value.spec_bytes() + spec_items_bytes(behind);
        assert(x.spec_bytes() + spec_items_bytes(behind) =~= seq![x.id.spec_to_u8()] + after);
        assert forall|i: int| 0 <= i < before.len() implies {
            let y = #[trigger] before[i];
            &&& scope.spec_allows(y.id)
            &&& y.value.kind() == y.id.spec_kind()
            &&& spec_value_ok(y.id, y.value)
            &&& y.value.fits()
        } by {
            assert(before[i] == items[i]);
        }
        lemma_duplicate_is_rejected(scope, before, x.id, after);
    }
}

/// A block of properties with its length before it, each property such as
/// a block at this place can hold, is read back whole where none repeats
/// that must not; else it fails with `DuplicatedProperty` of the first
/// that does.
#[verifier::rlimit(50)]
pub proof fn lemma_properties_decode(scope: PropertyScope, items: Seq<PropertyView>)
    requires
        spec_items_ok(items, scope),
        spec_items_bytes(items).len() <= VAR_INT_MAX,
    ensures
        spec_read_properties(spec_properties_bytes(items), 0, scope) == (if spec_no_repeat(items) {
            Ok::<(Seq<PropertyView>, int), ErrorV5View>(
                (items, spec_properties_bytes(items).len() as int),
            )
        } else {
            Err::<(Seq<PropertyView>, int), ErrorV5View>(
                ErrorV5View::DuplicatedProperty(items[spec_first_repeat(items)].id),
            )
        }),
{
    let s = spec_properties_bytes(items);
    let body = spec_items_bytes(items);
    let len = body.len() as u32;
    lemma_whole(s);
    lemma_var_int_suffix(s, 0, len, body);
    let start = spec_var_int_len(len as int);
    assert(body =~= body + Seq::<u8>::empty());
    lemma_split(s, start, body, Seq::empty());
    lemma_items_decode(scope, items);
}

impl LastWillView {
    /// A will that can be carried: a topic that obeys the grammar, a
    /// payload that fits its length prefix, and properties that a will can
    /// hold.
    pub open spec fn wf(self) -> bool {
        &&& spec_topic_name(self.topic_name) is Ok
        &&& self.payload.len() <= FIELD_MAX
        &&& spec_properties_wf(self.properties, PropertyScope::Will)
    }
}

impl ConnectView {
    /// A connect packet that can be carried: protocol 5.0, fields that fit,
    /// properties that a connect packet can hold, and a will that can be
    /// carried.
    pub open spec fn wf(self) -> bool {
        &&& self.protocol == Protocol::V50
        &&& encode_utf8(self.client_id).len() <= FIELD_MAX
        &&& spec_properties_wf(self.properties, PropertyScope::Connect)
        &&& self.last_will matches Some(w) ==> w.wf()
        &&& self.username matches Some(u) ==> encode_utf8(u).len() <= FIELD_MAX
        &&& self.password matches Some(p) ==> p.len() <= FIELD_MAX
    }
}

/// What the connect flags say of a packet's parts.
#[verifier::rlimit(50)]
pub proof fn lemma_connect_flags(c: ConnectView)
    ensures
        c.spec_flags() % 2 == 0,
        ((c.spec_flags() / 2) % 2 == 1) == c.clean_start,
        ((c.spec_flags() / 4) % 2 == 1) == (c.last_will is Some),
        c.last_will matches Some(w) ==> (c.spec_flags() / 8) % 4 == w.qos.spec_to_u8() && ((
        c.spec_flags() / 32) % 2 == 1) == w.retain,
        c.last_will is None ==> (c.spec_flags() / 8) % 8 == 0,
        ((c.spec_flags() / 64) % 2 == 1) == (c.password is Some),
        (c.spec_flags() / 128 == 1) == (c.username is Some),
{
    let a: int = if c.clean_start {
        2
    } else {
        0
    };
    let w: int = match c.last_will {
        Some(w) => w.spec_flags(),
        None => 0,
    };
    let p: int = if c.password is Some {
        64
    } else {
        0
    };
    let u: int = if c.username is Some {
        128
    } else {
        0
    };
    assert(c.spec_flags() == a + w + p + u);
    assert(w == 0 || w == 4 || w == 12 || w == 20 || w == 36 || w == 44 || w == 52);
}

/// The will of a connect packet at the head of what is left of `s` is read.
#[verifier::rlimit(50)]
pub proof fn lemma_last_will_suffix(
    s: Seq<u8>,
    off: int,
    will: Option<LastWillView>,
    flags: u8,
    tail: Seq<u8>,
)
    requires
        0 <= off <= s.len(),
        will matches Some(w) ==> w.wf() && (flags / 8) % 4 == w.qos.spec_to_u8() && ((flags / 32)
            % 2 == 1) == w.retain,
        ((flags / 4) % 2 == 1) == (will is Some),
        will is None ==> (flags / 8) % 8 == 0,
        s.subrange(off, s.len() as int) == (match will {
            Some(w) => w.spec_bytes(),
            None => Seq::empty(),
        }) + tail,
    ensures
        spec_read_last_will(s, off, flags) matches Ok((w, end)) && w == will && 0 <= end
            <= s.len() && s.subrange(end, s.len() as int) == tail,
{
    match will {
        Some(w) => {
            let rest1 = spec_string_bytes(w.topic_name) + (spec_field_bytes(w.payload) + tail);
            assert(w.spec_bytes() + tail =~= spec_properties_bytes(w.properties) + rest1);
            lemma_properties_suffix(s, off, PropertyScope::Will, w.properties, rest1);
            let off0 = off + spec_properties_bytes(w.properties).len();
            lemma_string_suffix(s, off0, w.topic_name, spec_field_bytes(w.payload) + tail);
            let off1 = off0 + 2 + encode_utf8(w.topic_name).len();
            lemma_bytes_suffix(s, off1, w.payload, tail);
        },
        None => {
            assert(s.subrange(off, s.len() as int) =~= tail);
        },
    }
}

/// What follows the client identifier of a connect packet is read back.
#[verifier::rlimit(50)]
pub proof fn lemma_connect_payload_suffix(s: Seq<u8>, off: int, c: ConnectView)
    requires
        c.wf(),
        0 <= off <= s.len(),
        s.subrange(off, s.len() as int) == (match c.last_will {
            Some(w) => w.spec_bytes(),
            None => Seq::empty(),
        }) + (match c.username {
            Some(u) => spec_string_bytes(u),
            None => Seq::empty(),
        }) + (match c.password {
            Some(p) => spec_field_bytes(p),
            None => Seq::empty(),
        }),
    ensures
        ConnectView::spec_decode_payload(
            s,
            off,
            c.spec_flags(),
            c.keep_alive,
            c.properties,
            c.client_id,
        ) == Ok::<(ConnectView, int), ErrorV5View>((c, s.len() as int)),
{
    lemma_connect_flags(c);
    let flags = c.spec_flags();
    let will_bytes = match c.last_will {
        Some(w) => w.spec_bytes(),
        None => Seq::empty(),
    };
    let user_bytes = match c.username {
        Some(u) => spec_string_bytes(u),
        None => Seq::empty(),
    };
    let pass_bytes = match c.password {
        Some(p) => spec_field_bytes(p),
        None => Seq::empty(),
    };
    assert(will_bytes + user_bytes + pass_bytes =~= will_bytes + (user_bytes + pass_bytes));
    lemma_last_will_suffix(s, off, c.last_will, flags, user_bytes + pass_bytes);
    let off1 = spec_read_last_will(s, off, flags)->Ok_0.1;
    lemma_opt_string_suffix(s, off1, c.username, pass_bytes);
    let off2 = spec_read_opt_string(s, off1, c.username is Some)->Ok_0.1;
    assert(pass_bytes =~= pass_bytes + Seq::<u8>::empty());
    lemma_opt_bytes_suffix(s, off2, c.password, Seq::empty());
    let off3 = spec_read_opt_bytes(s, off2, c.password is Some)->Ok_0.1;
    assert(s.subrange(off3, s.len() as int).len() == 0);
}

/// What follows the keep-alive of a connect packet is read back.
#[verifier::rlimit(50)]
pub proof fn lemma_connect_after_keep_alive(s: Seq<u8>, off: int, c: ConnectView)
    requires
        c.wf(),
        0 <= off <= s.len(),
        s.subrange(off, s.len() as int) == spec_properties_bytes(c.properties)
            + c.spec_payload_bytes(),
    ensures
        spec_read_properties(s, off, PropertyScope::Connect) == Ok::<
            (Seq<PropertyView>, int),
            ErrorV5View,
        >((c.properties, off + spec_properties_bytes(c.properties).len())),
        spec_read_string(s, off + spec_properties_bytes(c.properties).len()) == Ok::<
            (Seq<char>, int),
            ErrorView,
        >(
            (
                c.client_id,
                off + spec_properties_bytes(c.properties).len() + 2 + encode_utf8(
                    c.client_id,
                ).len(),
            ),
        ),
        ConnectView::spec_decode_payload(
            s,
            off + spec_properties_bytes(c.properties).len() + 2 + encode_utf8(c.client_id).len(),
            c.spec_flags(),
            c.keep_alive,
            c.properties,
            c.client_id,
        ) == Ok::<(ConnectView, int), ErrorV5View>((c, s.len() as int)),
{
    lemma_properties_suffix(s, off, PropertyScope::Connect, c.properties, c.spec_payload_bytes());
    let off3 = off + spec_properties_bytes(c.properties).len();
    let will_bytes = match c.last_will {
        Some(w) => w.spec_bytes(),
        None => Seq::empty(),
    };
    let user_bytes = match c.username {
        Some(u) => spec_string_bytes(u),
        None => Seq::empty(),
    };
    let pass_bytes = match c.password {
        Some(p) => spec_field_bytes(p),
        None => Seq::empty(),
    };
    let after_id = will_bytes + user_bytes + pass_bytes;
    assert(c.spec_payload_bytes() =~= spec_string_bytes(c.client_id) + after_id);
    lemma_string_suffix(s, off3, c.client_id, after_id);
    let off4 = off3 + 2 + encode_utf8(c.client_id).len();
    lemma_connect_payload_suffix(s, off4, c);
}

/// What follows the protocol of a connect packet is read back.
#[verifier::rlimit(50)]
pub proof fn lemma_connect_after_protocol(s: Seq<u8>, off: int, c: ConnectView)
    requires
        c.wf(),
        0 <= off <= s.len(),
        s.subrange(off, s.len() as int) == seq![c.spec_flags()] + (spec_u16_bytes(c.keep_alive) + (
        spec_properties_bytes(c.properties) + c.spec_payload_bytes())),
    ensures
        spec_read_u8(s, off) == Ok::<(u8, int), ErrorView>((c.spec_flags(), off + 1)),
        spec_read_u16(s, off + 1) == Ok::<(u16, int), ErrorView>((c.keep_alive, off + 3)),
        0 <= off + 3 <= s.len(),
        s.subrange(off + 3, s.len() as int) == spec_properties_bytes(c.properties)
            + c.spec_payload_bytes(),
{
    let rest3 = spec_properties_bytes(c.properties) + c.spec_payload_bytes();
    lemma_u8_suffix(s, off, c.spec_flags(), spec_u16_bytes(c.keep_alive) + rest3);
    lemma_u16_suffix(s, off + 1, c.keep_alive, rest3);
}

/// The parser of connect packets puts together what its parts give.
#[verifier::rlimit(50)]
pub proof fn lemma_connect_assemble(s: Seq<u8>, c: ConnectView, off0: int, off3: int, off4: int)
    requires
        c.protocol == Protocol::V50,
        c.spec_flags() % 2 == 0,
        Protocol::spec_decode(s, 0) == Ok::<(Protocol, int), ErrorView>((c.protocol, off0)),
        spec_read_u8(s, off0) == Ok::<(u8, int), ErrorView>((c.spec_flags(), off0 + 1)),
        spec_read_u16(s, off0 + 1) == Ok::<(u16, int), ErrorView>((c.keep_alive, off0 + 3)),
        spec_read_properties(s, off0 + 3, PropertyScope::Connect) == Ok::<
            (Seq<PropertyView>, int),
            ErrorV5View,
        >((c.properties, off3)),
        spec_read_string(s, off3) == Ok::<(Seq<char>, int), ErrorView>((c.client_id, off4)),
        ConnectView::spec_decode_payload(
            s,
            off4,
            c.spec_flags(),
            c.keep_alive,
            c.properties,
            c.client_id,
        ) == Ok::<(ConnectView, int), ErrorV5View>((c, s.len() as int)),
    ensures
        ConnectView::spec_decode(s, 0) == Ok::<(ConnectView, int), ErrorV5View>(
            (c, s.len() as int),
        ),
{
}

/// The parts of the body of a connect packet are read one after the other.
#[verifier::rlimit(50)]
pub proof fn lemma_connect_parts(s: Seq<u8>, c: ConnectView)
    requires
        c.wf(),
        s == c.protocol.spec_bytes() + (seq![c.spec_flags()] + (spec_u16_bytes(c.keep_alive) + (
        spec_properties_bytes(c.properties) + c.spec_payload_bytes()))),
    ensures
        ConnectView::spec_decode(s, 0) == Ok::<(ConnectView, int), ErrorV5View>(
            (c, s.len() as int),
        ),
{
    let rest1 = seq![c.spec_flags()] + (spec_u16_bytes(c.keep_alive) + (spec_properties_bytes(
        c.properties,
    ) + c.spec_payload_bytes()));
    lemma_whole(s);
    lemma_protocol_suffix(s, 0, c.protocol, rest1);
    let off0 = c.protocol.spec_bytes().len() as int;
    lemma_connect_after_protocol(s, off0, c);
    lemma_connect_after_keep_alive(s, off0 + 3, c);
    lemma_connect_flags_even(c);
    let off3 = off0 + 3 + spec_properties_bytes(c.properties).len();
    let off4 = off3 + 2 + encode_utf8(c.client_id).len();
    lemma_connect_assemble(s, c, off0, off3, off4);
}

/// The reserved bit of the connect flags is clear.
#[verifier::rlimit(50)]
pub proof fn lemma_connect_flags_even(c: ConnectView)
    ensures
        c.spec_flags() % 2 == 0,
{
    lemma_connect_flags(c);
}

/// The body of a connect packet is read back from its own bytes.
#[verifier::rlimit(50)]
pub proof fn lemma_connect_round_trip(c: ConnectView)
    requires
        c.wf(),
    ensures
        ConnectView::spec_decode(c.spec_bytes(), 0) == Ok::<(ConnectView, int), ErrorV5View>(
            (c, c.spec_bytes().len() as int),
        ),
{
    let s = c.protocol.spec_bytes() + (seq![c.spec_flags()] + (spec_u16_bytes(c.keep_alive) + (
    spec_properties_bytes(c.properties) + c.spec_payload_bytes())));
    lemma_concat_assoc4(
        c.protocol.spec_bytes().push(c.spec_flags()),
        spec_u16_bytes(c.keep_alive),
        spec_properties_bytes(c.properties),
        c.spec_payload_bytes(),
    );
    lemma_push_concat(
        c.protocol.spec_bytes(),
        c.spec_flags(),
        spec_u16_bytes(c.keep_alive) + (spec_properties_bytes(c.properties)
            + c.spec_payload_bytes()),
    );
    lemma_connect_parts(s, c);
}

impl ConnackView {
    /// A connack packet that can be carried: properties that a connack
    /// packet can hold.
    pub open spec fn wf(self) -> bool {
        spec_properties_wf(self.properties, PropertyScope::Connack)
    }
}

/// The body of a connack packet is read back from its own bytes.
#[verifier::rlimit(50)]
pub proof fn lemma_connack_round_trip(c: ConnackView)
    requires
        c.wf(),
    ensures
        ConnackView::spec_decode(c.spec_bytes(), 0) == Ok::<(ConnackView, int), ErrorV5View>(
            (c, c.spec_bytes().len() as int),
        ),
{
    let s = c.spec_bytes();
    let flag: u8 = if c.session_present {
        1
    } else {
        0
    };
    let rest1 = seq![c.reason_code.spec_to_u8()] + spec_properties_bytes(c.properties);
    assert(s.subrange(0, s.len() as int) =~= seq![flag] + rest1);
    lemma_u8_suffix(s, 0, flag, rest1);
    lemma_u8_suffix(s, 1, c.reason_code.spec_to_u8(), spec_properties_bytes(c.properties));
    assert(spec_properties_bytes(c.properties) =~= spec_properties_bytes(c.properties)
        + Seq::<u8>::empty());
    lemma_properties_suffix(s, 2, PropertyScope::Connack, c.properties, Seq::empty());
    lemma_connect_code_round_trip(c.reason_code);
}

/// A reason code of a connack packet is read back from its byte.
#[verifier::rlimit(50)]
pub proof fn lemma_connect_code_round_trip(c: crate::v5::connect::ConnectReasonCode)
    ensures
        crate::v5::connect::ConnectReasonCode::spec_from_u8(c.spec_to_u8()) == Some(c),
{
}

impl ReasonView {
    /// A disconnect or auth packet that can be carried: a reason code of
    /// its type, and properties that it can hold.
    pub open spec fn wf(self, typ: PacketType) -> bool {
        &&& spec_reason_ok(typ, self.reason_code)
        &&& spec_properties_wf(self.properties, spec_reason_scope(typ))
    }
}

/// The body of a disconnect or auth packet is read back from its own bytes,
/// under a header that gives their number.
#[verifier::rlimit(50)]
pub proof fn lemma_reason_round_trip(v: ReasonView, typ: PacketType)
    requires
        v.wf(typ),
    ensures
        ReasonView::spec_decode(v.spec_bytes(), 0, v.spec_bytes().len() as int, typ) == Ok::<
            (ReasonView, int),
            ErrorV5View,
        >((v, v.spec_bytes().len() as int)),
{
    let s = v.spec_bytes();
    if v.properties.len() == 0 {
        assert(v.properties =~= Seq::empty());
    } else {
        let props = spec_properties_bytes(v.properties);
        assert(s.subrange(0, s.len() as int) =~= seq![v.reason_code] + props);
        lemma_u8_suffix(s, 0, v.reason_code, props);
        assert(props =~= props + Seq::<u8>::empty());
        lemma_properties_suffix(s, 1, spec_reason_scope(typ), v.properties, Seq::empty());
        crate::common::utils::lemma_var_int_round_trip(
            spec_items_bytes(v.properties).len() as u32,
            Seq::empty(),
            Seq::empty(),
        );
    }
}

/// A packet identifier and a block of properties at the head of what is
/// left of `s` are read.
#[verifier::rlimit(50)]
pub proof fn lemma_pid_properties_suffix(
    s: Seq<u8>,
    off: int,
    pid: u16,
    items: Seq<PropertyView>,
    scope: PropertyScope,
    tail: Seq<u8>,
)
    requires
        pid != 0,
        spec_properties_wf(items, scope),
        0 <= off <= s.len(),
        s.subrange(off, s.len() as int) == spec_u16_bytes(pid) + spec_properties_bytes(items)
            + tail,
    ensures
        spec_read_pid_properties(s, off, scope) == Ok::<
            ((u16, Seq<PropertyView>), int),
            ErrorV5View,
        >(((pid, items), off + 2 + spec_properties_bytes(items).len())),
        s.subrange(off + 2 + spec_properties_bytes(items).len(), s.len() as int) == tail,
        off + 2 + spec_properties_bytes(items).len() <= s.len(),
{
    assert(spec_u16_bytes(pid) + spec_properties_bytes(items) + tail =~= spec_u16_bytes(pid) + (
    spec_properties_bytes(items) + tail));
    lemma_u16_suffix(s, off, pid, spec_properties_bytes(items) + tail);
    lemma_properties_suffix(s, off + 2, scope, items, tail);
}

impl SubscribeView {
    /// A subscribe packet that can be carried: a nonzero identifier,
    /// properties that it can hold, and at least one entry, each with a
    /// filter that obeys the grammar.
    pub open spec fn wf(self) -> bool {
        &&& self.pid != 0
        &&& spec_properties_wf(self.properties, PropertyScope::Subscribe)
        &&& self.topics.len() > 0
        &&& forall|i: int|
            0 <= i < self.topics.len() ==> spec_topic_filter(#[trigger] self.topics[i].0) is Ok
    }
}

/// The bytes of a list of entries that begins with `x`.
#[verifier::rlimit(50)]
pub proof fn lemma_entries_bytes_front(
    x: (Seq<char>, SubscriptionOptions),
    rest: Seq<(Seq<char>, SubscriptionOptions)>,
)
    ensures
        spec_entries_bytes(seq![x] + rest) == spec_string_bytes(x.0).push(x.1.spec_to_u8())
            + spec_entries_bytes(rest),
    decreases rest.len(),
{
    let all = seq![x] + rest;
    if rest.len() == 0 {
        assert(all.drop_last() =~= Seq::empty());
        assert(spec_entries_bytes(all.drop_last()) =~= Seq::empty());
        assert(spec_entries_bytes(all) =~= spec_string_bytes(x.0).push(x.1.spec_to_u8())
            + spec_entries_bytes(rest));
    } else {
        assert(all.drop_last() =~= seq![x] + rest.drop_last());
        lemma_entries_bytes_front(x, rest.drop_last());
        assert(all.last() == rest.last());
        assert(spec_entries_bytes(all) =~= spec_string_bytes(x.0).push(x.1.spec_to_u8())
            + spec_entries_bytes(rest));
    }
}

/// The entries of a subscribe packet are read back from their own bytes.
#[verifier::rlimit(50)]
pub proof fn lemma_entries_round_trip(
    s: Seq<u8>,
    off: int,
    acc: Seq<(Seq<char>, SubscriptionOptions)>,
    rest: Seq<(Seq<char>, SubscriptionOptions)>,
)
    requires
        0 <= off <= s.len(),
        s.subrange(off, s.len() as int) == spec_entries_bytes(rest),
        forall|i: int| 0 <= i < rest.len() ==> spec_topic_filter(#[trigger] rest[i].0) is Ok,
    ensures
        spec_read_entries(s, off, acc) == Ok::<
            (Seq<(Seq<char>, SubscriptionOptions)>, int),
            ErrorV5View,
        >((acc + rest, s.len() as int)),
    decreases rest.len(),
{
    assert(s.subrange(off, s.len() as int).len() == s.len() - off);
    if rest.len() == 0 {
        assert(acc + rest =~= acc);
        assert(spec_entries_bytes(rest).len() == 0);
    } else {
        let x = rest[0];
        let more = rest.drop_first();
        assert(rest =~= seq![x] + more);
        lemma_entries_bytes_front(x, more);
        assert(spec_topic_filter(x.0) is Ok);
        let tail1 = seq![x.1.spec_to_u8()] + spec_entries_bytes(more);
        assert(spec_entries_bytes(rest) =~= spec_string_bytes(x.0) + tail1);
        lemma_string_suffix(s, off, x.0, tail1);
        let off1 = off + 2 + encode_utf8(x.0).len();
        lemma_u8_suffix(s, off1, x.1.spec_to_u8(), spec_entries_bytes(more));
        lemma_options_round_trip(x.1);
        assert forall|i: int| 0 <= i < more.len() implies spec_topic_filter(
            #[trigger] more[i].0,
        ) is Ok by {
            assert(more[i] == rest[i + 1]);
        }
        lemma_entries_round_trip(s, off1 + 1, acc.push(x), more);
        assert(acc.push(x) + more =~= acc + rest);
    }
}

/// The body of a subscribe packet is read back from its own bytes.
#[verifier::rlimit(50)]
pub proof fn lemma_subscribe_round_trip(p: SubscribeView)
    requires
        p.wf(),
    ensures
        SubscribeView::spec_decode(p.spec_bytes(), 0) == Ok::<(SubscribeView, int), ErrorV5View>(
            (p, p.spec_bytes().len() as int),
        ),
{
    let s = p.spec_bytes();
    lemma_whole(s);
    lemma_pid_properties_suffix(
        s,
        0,
        p.pid,
        p.properties,
        PropertyScope::Subscribe,
        spec_entries_bytes(p.topics),
    );
    let off1 = 2 + spec_properties_bytes(p.properties).len();
    lemma_entries_round_trip(s, off1 as int, Seq::empty(), p.topics);
    assert(Seq::<(Seq<char>, SubscriptionOptions)>::empty() + p.topics =~= p.topics);
    lemma_entries_not_empty(p.topics);
}

/// One entry or more have three bytes or more.
#[verifier::rlimit(50)]
pub proof fn lemma_entries_not_empty(topics: Seq<(Seq<char>, SubscriptionOptions)>)
    requires
        topics.len() > 0,
    ensures
        spec_entries_bytes(topics).len() >= 3,
{
    let x = topics[0];
    assert(topics =~= seq![x] + topics.drop_first());
    lemma_entries_bytes_front(x, topics.drop_first());
}

impl UnsubscribeView {
    /// An unsubscribe packet that can be carried: a nonzero identifier,
    /// properties that it can hold, and at least one filter, each obeying
    /// the grammar.
    pub open spec fn wf(self) -> bool {
        &&& self.pid != 0
        &&& spec_properties_wf(self.properties, PropertyScope::Unsubscribe)
        &&& self.topics.len() > 0
        &&& forall|i: int|
            0 <= i < self.topics.len() ==> spec_topic_filter(#[trigger] self.topics[i]) is Ok
    }
}

/// The bytes of a list of filters that begins with `x`.
#[verifier::rlimit(50)]
pub proof fn lemma_filters_bytes_front(x: Seq<char>, rest: Seq<Seq<char>>)
    ensures
        spec_filters_bytes(seq![x] + rest) == spec_string_bytes(x) + spec_filters_bytes(rest),
    decreases rest.len(),
{
    let all = seq![x] + rest;
    if rest.len() == 0 {
        assert(all.drop_last() =~= Seq::empty());
        assert(spec_filters_bytes(all.drop_last()) =~= Seq::empty());
        assert(spec_filters_bytes(all) =~= spec_string_bytes(x) + spec_filters_bytes(rest));
    } else {
        assert(all.drop_last() =~= seq![x] + rest.drop_last());
        lemma_filters_bytes_front(x, rest.drop_last());
        assert(all.last() == rest.last());
        assert(spec_filters_bytes(all) =~= spec_string_bytes(x) + spec_filters_bytes(rest));
    }
}

/// The filters of an unsubscribe packet are read back from their own bytes.
#[verifier::rlimit(50)]
pub proof fn lemma_filters_round_trip(
    s: Seq<u8>,
    off: int,
    acc: Seq<Seq<char>>,
    rest: Seq<Seq<char>>,
)
    requires
        0 <= off <= s.len(),
        s.subrange(off, s.len() as int) == spec_filters_bytes(rest),
        forall|i: int| 0 <= i < rest.len() ==> spec_topic_filter(#[trigger] rest[i]) is Ok,
    ensures
        spec_read_filters(s, off, acc) == Ok::<(Seq<Seq<char>>, int), ErrorV5View>(
            (acc + rest, s.len() as int),
        ),
    decreases rest.len(),
{
    assert(s.subrange(off, s.len() as int).len() == s.len() - off);
    if rest.len() == 0 {
        assert(acc + rest =~= acc);
        assert(spec_filters_bytes(rest).len() == 0);
    } else {
        let x = rest[0];
        let more = rest.drop_first();
        assert(rest =~= seq![x] + more);
        lemma_filters_bytes_front(x, more);
        assert(spec_topic_filter(x) is Ok);
        lemma_string_suffix(s, off, x, spec_filters_bytes(more));
        let off1 = off + 2 + encode_utf8(x).len();
        assert forall|i: int| 0 <= i < more.len() implies spec_topic_filter(
            #[trigger] more[i],
        ) is Ok by {
            assert(more[i] == rest[i + 1]);
        }
        lemma_filters_round_trip(s, off1, acc.push(x), more);
        assert(acc.push(x) + more =~= acc + rest);
    }
}

/// The body of an unsubscribe packet is read back from its own bytes.
#[verifier::rlimit(50)]
pub proof fn lemma_unsubscribe_round_trip(p: UnsubscribeView)
    requires
        p.wf(),
    ensures
        UnsubscribeView::spec_decode(p.spec_bytes(), 0) == Ok::<
            (UnsubscribeView, int),
            ErrorV5View,
        >((p, p.spec_bytes().len() as int)),
{
    let s = p.spec_bytes();
    lemma_whole(s);
    lemma_pid_properties_suffix(
        s,
        0,
        p.pid,
        p.properties,
        PropertyScope::Unsubscribe,
        spec_filters_bytes(p.topics),
    );
    let off1 = 2 + spec_properties_bytes(p.properties).len();
    lemma_filters_round_trip(s, off1 as int, Seq::empty(), p.topics);
    assert(Seq::<Seq<char>>::empty() + p.topics =~= p.topics);
    lemma_filters_not_empty(p.topics);
}

/// One filter or more have two bytes or more.
#[verifier::rlimit(50)]
pub proof fn lemma_filters_not_empty(topics: Seq<Seq<char>>)
    requires
        topics.len() > 0,
    ensures
        spec_filters_bytes(topics).len() >= 2,
{
    let x = topics[0];
    assert(topics =~= seq![x] + topics.drop_first());
    lemma_filters_bytes_front(x, topics.drop_first());
}

impl SubackView {
    /// A suback packet that can be carried: a nonzero identifier and
    /// properties that it can hold.
    pub open spec fn wf(self) -> bool {
        &&& self.pid != 0
        &&& spec_properties_wf(self.properties, PropertyScope::Suback)
    }
}

/// The reason codes of a suback packet are read back from their own
/// bytes.
#[verifier::rlimit(50)]
pub proof fn lemma_suback_codes_round_trip(s: Seq<u8>, off: int, acc: Seq<SubscribeReasonCode>, rest: Seq<SubscribeReasonCode>)
    requires
        0 <= off <= s.len(),
        s.subrange(off, s.len() as int) == rest.map_values(|c: SubscribeReasonCode| c.spec_to_u8()),
    ensures
        spec_read_suback_codes(s, off, acc) == Ok::<(Seq<SubscribeReasonCode>, int), ErrorV5View>(
            (acc + rest, s.len() as int),
        ),
    decreases rest.len(),
{
    let bytes = rest.map_values(|c: SubscribeReasonCode| c.spec_to_u8());
    assert(s.subrange(off, s.len() as int).len() == rest.len());
    if rest.len() == 0 {
        assert(acc + rest =~= acc);
    } else {
        let x = rest[0];
        let more = rest.drop_first();
        assert(s[off] == s.subrange(off, s.len() as int)[0]);
        assert(bytes[0] == x.spec_to_u8());
        lemma_suback_code_round_trip(x);
        assert(s.subrange(off + 1, s.len() as int) =~= more.map_values(|c: SubscribeReasonCode| c.spec_to_u8()))
            by {
            let a = s.subrange(off + 1, s.len() as int);
            let b = more.map_values(|c: SubscribeReasonCode| c.spec_to_u8());
            assert(a.len() == b.len());
            assert forall|i: int| 0 <= i < a.len() implies a[i] == b[i] by {
                assert(a[i] == s.subrange(off, s.len() as int)[i + 1]);
                assert(bytes[i + 1] == rest[i + 1].spec_to_u8());
            }
        }
        lemma_suback_codes_round_trip(s, off + 1, acc.push(x), more);
        assert(acc.push(x) + more =~= acc + rest);
    }
}

/// A reason code of a suback packet is read back from its byte.
#[verifier::rlimit(50)]
pub proof fn lemma_suback_code_round_trip(c: SubscribeReasonCode)
    ensures
        SubscribeReasonCode::spec_from_u8(c.spec_to_u8()) == Some(c),
{
}

/// The body of a suback packet is read back from its own bytes.
#[verifier::rlimit(50)]
pub proof fn lemma_suback_round_trip(p: SubackView)
    requires
        p.wf(),
    ensures
        SubackView::spec_decode(p.spec_bytes(), 0) == Ok::<(SubackView, int), ErrorV5View>(
            (p, p.spec_bytes().len() as int),
        ),
{
    let s = p.spec_bytes();
    let codes = p.topics.map_values(|c: SubscribeReasonCode| c.spec_to_u8());
    lemma_whole(s);
    lemma_pid_properties_suffix(s, 0, p.pid, p.properties, PropertyScope::Suback, codes);
    let off1 = 2 + spec_properties_bytes(p.properties).len();
    lemma_suback_codes_round_trip(s, off1 as int, Seq::empty(), p.topics);
    assert(Seq::<SubscribeReasonCode>::empty() + p.topics =~= p.topics);
}

impl UnsubackView {
    /// An unsuback packet that can be carried: a nonzero identifier and
    /// properties that it can hold.
    pub open spec fn wf(self) -> bool {
        &&& self.pid != 0
        &&& spec_properties_wf(self.properties, PropertyScope::Unsuback)
    }
}

/// The reason codes of an unsuback packet are read back from their own
/// bytes.
#[verifier::rlimit(50)]
pub proof fn lemma_unsuback_codes_round_trip(s: Seq<u8>, off: int, acc: Seq<UnsubscribeReasonCode>, rest: Seq<UnsubscribeReasonCode>)
    requires
        0 <= off <= s.len(),
        s.subrange(off, s.len() as int) == rest.map_values(|c: UnsubscribeReasonCode| c.spec_to_u8()),
    ensures
        spec_read_unsuback_codes(s, off, acc) == Ok::<(Seq<UnsubscribeReasonCode>, int), ErrorV5View>(
            (acc + rest, s.len() as int),
        ),
    decreases rest.len(),
{
    let bytes = rest.map_values(|c: UnsubscribeReasonCode| c.spec_to_u8());
    assert(s.subrange(off, s.len() as int).len() == rest.len());
    if rest.len() == 0 {
        assert(acc + rest =~= acc);
    } else {
        let x = rest[0];
        let more = rest.drop_first();
        assert(s[off] == s.subrange(off, s.len() as int)[0]);
        assert(bytes[0] == x.spec_to_u8());
        lemma_unsuback_code_round_trip(x);
        assert(s.subrange(off + 1, s.len() as int) =~= more.map_values(|c: UnsubscribeReasonCode| c.spec_to_u8()))
            by {
            let a = s.subrange(off + 1, s.len() as int);
            let b = more.map_values(|c: UnsubscribeReasonCode| c.spec_to_u8());
            assert(a.len() == b.len());
            assert forall|i: int| 0 <= i < a.len() implies a[i] == b[i] by {
                assert(a[i] == s.subrange(off, s.len() as int)[i + 1]);
                assert(bytes[i + 1] == rest[i + 1].spec_to_u8());
            }
        }
        lemma_unsuback_codes_round_trip(s, off + 1, acc.push(x), more);
        assert(acc.push(x) + more =~= acc + rest);
    }
}

/// A reason code of an unsuback packet is read back from its byte.
#[verifier::rlimit(50)]
pub proof fn lemma_unsuback_code_round_trip(c: UnsubscribeReasonCode)
    ensures
        UnsubscribeReasonCode::spec_from_u8(c.spec_to_u8()) == Some(c),
{
}

/// The body of an unsuback packet is read back from its own bytes.
#[verifier::rlimit(50)]
pub proof fn lemma_unsuback_round_trip(p: UnsubackView)
    requires
        p.wf(),
    ensures
        UnsubackView::spec_decode(p.spec_bytes(), 0) == Ok::<(UnsubackView, int), ErrorV5View>(
            (p, p.spec_bytes().len() as int),
        ),
{
    let s = p.spec_bytes();
    let codes = p.topics.map_values(|c: UnsubscribeReasonCode| c.spec_to_u8());
    lemma_whole(s);
    lemma_pid_properties_suffix(s, 0, p.pid, p.properties, PropertyScope::Unsuback, codes);
    let off1 = 2 + spec_properties_bytes(p.properties).len();
    lemma_unsuback_codes_round_trip(s, off1 as int, Seq::empty(), p.topics);
    assert(Seq::<UnsubscribeReasonCode>::empty() + p.topics =~= p.topics);
}

/// The first property of a kind in two lists, one behind the other, is the
/// first of the first list, or else of the second.
#[verifier::rlimit(50)]
pub proof fn lemma_find_concat(a: Seq<PropertyView>, b: Seq<PropertyView>, id: PropertyId)
    ensures
        spec_find(a + b, id) == (if spec_find(a, id) is Some {
            spec_find(a, id)
        } else {
            spec_find(b, id)
        }),
    decreases a.len(),
{
    if a.len() == 0 {
        assert(a + b =~= b);
    } else {
        assert((a + b)[0] == a[0]);
        assert((a + b).drop_first() =~= a.drop_first() + b);
        lemma_find_concat(a.drop_first(), b, id);
    }
}

/// The user properties of two lists, one behind the other, are those of the
/// first, then those of the second.
#[verifier::rlimit(50)]
pub proof fn lemma_users_concat(a: Seq<PropertyView>, b: Seq<PropertyView>)
    ensures
        spec_user_properties(a + b) == spec_user_properties(a) + spec_user_properties(b),
    decreases b.len(),
{
    if b.len() == 0 {
        assert(a + b =~= a);
        assert(spec_user_properties(a) + spec_user_properties(b) =~= spec_user_properties(a));
    } else {
        assert((a + b).last() == b.last());
        assert((a + b).drop_last() =~= a + b.drop_last());
        lemma_users_concat(a, b.drop_last());
        match b.last().value {
            PropertyValueView::Pair(k, v) => {
                assert(spec_user_properties(a + b) =~= spec_user_properties(a)
                    + spec_user_properties(b));
            },
            _ => {},
        }
    }
}

/// The first property of a kind in a list of at most one property.
#[verifier::rlimit(50)]
pub proof fn lemma_find_opt_item(id2: PropertyId, v: Option<PropertyValueView>, id: PropertyId)
    ensures
        spec_find(spec_opt_item(id2, v), id) == (if id2 == id {
            v
        } else {
            None
        }),
{
    let l = spec_opt_item(id2, v);
    if v is Some {
        assert(l.len() == 1);
        assert(l.drop_first().len() == 0);
        assert(spec_find(l.drop_first(), id) is None);
    }
}

/// A list of at most one property that is no pair holds no user property.
#[verifier::rlimit(50)]
pub proof fn lemma_users_opt_item(id2: PropertyId, v: Option<PropertyValueView>)
    requires
        v matches Some(x) ==> x.kind() != crate::v5::properties::PropertyKind::Pair,
    ensures
        spec_user_properties(spec_opt_item(id2, v)) == Seq::<(Seq<char>, Seq<char>)>::empty(),
{
    let l = spec_opt_item(id2, v);
    if v is Some {
        assert(l.len() == 1);
        assert(l.drop_last().len() == 0);
        assert(spec_user_properties(l.drop_last()) =~= Seq::empty());
    }
}

/// Among user properties there is no property of another kind.
#[verifier::rlimit(50)]
pub proof fn lemma_find_user_items(users: Seq<(Seq<char>, Seq<char>)>, id: PropertyId)
    requires
        id != PropertyId::UserProperty,
    ensures
        spec_find(spec_user_items(users), id) is None,
    decreases users.len(),
{
    let l = spec_user_items(users);
    if users.len() > 0 {
        assert(l[0].id == PropertyId::UserProperty);
        assert(l.drop_first() =~= spec_user_items(users.drop_first()));
        lemma_find_user_items(users.drop_first(), id);
    }
}

/// The user properties of a list of user properties are all of them.
#[verifier::rlimit(50)]
pub proof fn lemma_users_user_items(users: Seq<(Seq<char>, Seq<char>)>)
    ensures
        spec_user_properties(spec_user_items(users)) == users,
    decreases users.len(),
{
    let l = spec_user_items(users);
    if users.len() == 0 {
        assert(spec_user_properties(l) =~= users);
    } else {
        assert(l.last().value == PropertyValueView::Pair(users.last().0, users.last().1));
        assert(l.drop_last() =~= spec_user_items(users.drop_last()));
        lemma_users_user_items(users.drop_last());
        assert(users.drop_last().push((users.last().0, users.last().1)) =~= users);
    }
}

/// Two lists of properties that a block can hold make one, one behind the
/// other.
#[verifier::rlimit(50)]
pub proof fn lemma_items_ok_concat(a: Seq<PropertyView>, b: Seq<PropertyView>, scope: PropertyScope)
    requires
        spec_items_ok(a, scope),
        spec_items_ok(b, scope),
    ensures
        spec_items_ok(a + b, scope),
{
    assert forall|i: int| 0 <= i < (a + b).len() implies {
        let x = #[trigger] (a + b)[i];
        &&& scope.spec_allows(x.id)
        &&& x.value.kind() == x.id.spec_kind()
        &&& spec_value_ok(x.id, x.value)
        &&& x.value.fits()
    } by {
        if i < a.len() {
            assert((a + b)[i] == a[i]);
        } else {
            assert((a + b)[i] == b[i - a.len()]);
        }
    }
}

/// Two lists without a repeated property make one, one behind the other,
/// where no property of the first stands in the second, repeatable ones
/// aside.
#[verifier::rlimit(50)]
pub proof fn lemma_no_repeat_concat(a: Seq<PropertyView>, b: Seq<PropertyView>)
    requires
        spec_no_repeat(a),
        spec_no_repeat(b),
        forall|i: int, j: int|
            0 <= i < a.len() && 0 <= j < b.len() && (#[trigger] a[i]).id == (#[trigger] b[j]).id
                ==> a[i].id.spec_repeatable(),
    ensures
        spec_no_repeat(a + b),
{
    let c = a + b;
    assert forall|i: int, j: int|
        0 <= i < j < c.len() && (#[trigger] c[i]).id == (#[trigger] c[j]).id implies c[i].id.spec_repeatable() by {
        if j < a.len() {
            assert(c[i] == a[i] && c[j] == a[j]);
        } else if i >= a.len() {
            assert(c[i] == b[i - a.len()] && c[j] == b[j - a.len()]);
        } else {
            assert(c[i] == a[i] && c[j] == b[j - a.len()]);
        }
    }
}

/// Every property of the list has one of the given identifiers.
pub open spec fn spec_ids_among(items: Seq<PropertyView>, ids: Set<PropertyId>) -> bool {
    forall|i: int| 0 <= i < items.len() ==> ids.contains((#[trigger] items[i]).id)
}

/// A list without a repeated property, and behind it at most one property
/// of a kind that the list does not hold, make a list without a repeated
/// property.
#[verifier::rlimit(50)]
pub proof fn lemma_append_slot(
    a: Seq<PropertyView>,
    ids: Set<PropertyId>,
    id: PropertyId,
    v: Option<PropertyValueView>,
    scope: PropertyScope,
)
    requires
        spec_no_repeat(a),
        spec_ids_among(a, ids),
        spec_items_ok(a, scope),
        !ids.contains(id),
        v matches Some(x) ==> scope.spec_allows(id) && x.kind() == id.spec_kind() && spec_value_ok(
            id,
            x,
        ) && x.fits(),
    ensures
        spec_no_repeat(a + spec_opt_item(id, v)),
        spec_ids_among(a + spec_opt_item(id, v), ids.insert(id)),
        spec_items_ok(a + spec_opt_item(id, v), scope),
{
    let b = spec_opt_item(id, v);
    lemma_no_repeat_concat(a, b);
    lemma_items_ok_concat(a, b, scope);
    let c = a + b;
    assert forall|i: int| 0 <= i < c.len() implies ids.insert(id).contains(
        (#[trigger] c[i]).id,
    ) by {
        if i < a.len() {
            assert(c[i] == a[i]);
        } else {
            assert(c[i] == b[i - a.len()]);
        }
    }
}

/// A list without a repeated property that holds no user property, and
/// behind it user properties, make a list without a repeated property.
#[verifier::rlimit(50)]
pub proof fn lemma_append_users(
    a: Seq<PropertyView>,
    ids: Set<PropertyId>,
    users: Seq<(Seq<char>, Seq<char>)>,
    scope: PropertyScope,
)
    requires
        spec_no_repeat(a),
        spec_ids_among(a, ids),
        spec_items_ok(a, scope),
        !ids.contains(PropertyId::UserProperty),
        forall|i: int|
            0 <= i < users.len() ==> encode_utf8((#[trigger] users[i]).0).len() <= FIELD_MAX
                && encode_utf8(users[i].1).len() <= FIELD_MAX,
    ensures
        spec_no_repeat(a + spec_user_items(users)),
        spec_items_ok(a + spec_user_items(users), scope),
{
    let b = spec_user_items(users);
    assert(spec_no_repeat(b));
    assert(spec_items_ok(b, scope)) by {
        assert forall|i: int| 0 <= i < b.len() implies {
            let x = #[trigger] b[i];
            &&& scope.spec_allows(x.id)
            &&& x.value.kind() == x.id.spec_kind()
            &&& spec_value_ok(x.id, x.value)
            &&& x.value.fits()
        } by {
            assert(b[i].id == PropertyId::UserProperty);
            assert(b[i].value == PropertyValueView::Pair(users[i].0, users[i].1));
        }
    }
    lemma_no_repeat_concat(a, b);
    lemma_items_ok_concat(a, b, scope);
}

impl AckPropertiesView {
    /// Properties of an acknowledgement that can be carried.
    pub open spec fn wf(self) -> bool {
        &&& self.reason_string matches Some(t) ==> encode_utf8(t).len() <= FIELD_MAX
        &&& forall|i: int|
            0 <= i < self.user_properties.len() ==> encode_utf8(
                (#[trigger] self.user_properties[i]).0,
            ).len() <= FIELD_MAX && encode_utf8(self.user_properties[i].1).len() <= FIELD_MAX
        &&& spec_items_bytes(self.spec_items()).len() <= VAR_INT_MAX
    }
}

/// The reason string as a property value.
pub open spec fn spec_text_value(t: Option<Seq<char>>) -> Option<PropertyValueView> {
    match t {
        Some(v) => Some(PropertyValueView::Text(v)),
        None => None,
    }
}

/// The properties of an acknowledgement are picked out of their own list.
#[verifier::rlimit(50)]
pub proof fn lemma_ack_properties_round_trip(v: AckPropertiesView)
    ensures
        AckPropertiesView::spec_from_items(v.spec_items()) == v,
{
    let o1 = spec_opt_item(PropertyId::ReasonString, spec_text_value(v.reason_string));
    let u = spec_user_items(v.user_properties);
    assert(v.spec_items() == o1 + u);
    lemma_find_concat(o1, u, PropertyId::ReasonString);
    lemma_find_opt_item(
        PropertyId::ReasonString,
        spec_text_value(v.reason_string),
        PropertyId::ReasonString,
    );
    lemma_find_user_items(v.user_properties, PropertyId::ReasonString);
    lemma_users_concat(o1, u);
    lemma_users_opt_item(PropertyId::ReasonString, spec_text_value(v.reason_string));
    lemma_users_user_items(v.user_properties);
    assert(Seq::<(Seq<char>, Seq<char>)>::empty() + v.user_properties =~= v.user_properties);
}

/// The properties of an acknowledgement that can be carried make a block
/// that can be carried.
#[verifier::rlimit(50)]
pub proof fn lemma_ack_properties_wf(v: AckPropertiesView, typ: PacketType)
    requires
        v.wf(),
        typ == PacketType::Puback || typ == PacketType::Pubrec || typ == PacketType::Pubrel || typ
            == PacketType::Pubcomp,
    ensures
        spec_properties_wf(v.spec_items(), spec_ack_scope(typ)),
{
    let scope = spec_ack_scope(typ);
    let e = Seq::<PropertyView>::empty();
    let ids = Set::<PropertyId>::empty();
    lemma_append_slot(e, ids, PropertyId::ReasonString, spec_text_value(v.reason_string), scope);
    let o1 = spec_opt_item(PropertyId::ReasonString, spec_text_value(v.reason_string));
    assert(e + o1 =~= o1);
    lemma_append_users(o1, ids.insert(PropertyId::ReasonString), v.user_properties, scope);
}

impl AckView {
    /// An acknowledgement of the given type that can be carried: a nonzero
    /// identifier, a reason code of the type, and properties that can be
    /// carried.
    pub open spec fn wf(self, typ: PacketType) -> bool {
        &&& typ == PacketType::Puback || typ == PacketType::Pubrec || typ == PacketType::Pubrel
            || typ == PacketType::Pubcomp
        &&& self.pid != 0
        &&& spec_ack_code_ok(typ, self.reason_code)
        &&& self.properties.wf()
    }
}

/// The body of an acknowledgement is read back from its own bytes, under a
/// header that gives their number.
#[verifier::rlimit(50)]
pub proof fn lemma_ack_round_trip(v: AckView, typ: PacketType)
    requires
        v.wf(typ),
    ensures
        AckView::spec_decode(v.spec_bytes(), 0, v.spec_bytes().len() as int, typ) == Ok::<
            (AckView, int),
            ErrorV5View,
        >((v, v.spec_bytes().len() as int)),
{
    let s = v.spec_bytes();
    if v.properties == AckPropertiesView::empty() {
        if v.reason_code == 0 {
            assert(s =~= spec_u16_bytes(v.pid));
            assert(s.subrange(0, s.len() as int) =~= spec_u16_bytes(v.pid) + Seq::<u8>::empty());
            lemma_u16_suffix(s, 0, v.pid, Seq::empty());
        } else {
            assert(s.subrange(0, s.len() as int) =~= spec_u16_bytes(v.pid) + seq![v.reason_code]);
            lemma_u16_suffix(s, 0, v.pid, seq![v.reason_code]);
            assert(seq![v.reason_code] =~= seq![v.reason_code] + Seq::<u8>::empty());
            lemma_u8_suffix(s, 2, v.reason_code, Seq::empty());
        }
    } else {
        let items = v.properties.spec_items();
        let props = spec_properties_bytes(items);
        let rest = seq![v.reason_code] + props;
        assert(s.subrange(0, s.len() as int) =~= spec_u16_bytes(v.pid) + rest);
        lemma_u16_suffix(s, 0, v.pid, rest);
        lemma_u8_suffix(s, 2, v.reason_code, props);
        lemma_ack_properties_wf(v.properties, typ);
        assert(props =~= props + Seq::<u8>::empty());
        lemma_properties_suffix(s, 3, spec_ack_scope(typ), items, Seq::empty());
        lemma_ack_properties_round_trip(v.properties);
        crate::common::utils::lemma_var_int_round_trip(
            spec_items_bytes(items).len() as u32,
            Seq::empty(),
            Seq::empty(),
        );
    }
}

/// The value that a publish packet's properties give the property with
/// the given identifier.
pub open spec fn spec_publish_slot(v: PublishPropertiesView, id: PropertyId) -> Option<
    PropertyValueView,
> {
    match id {
        PropertyId::PayloadFormatIndicator => match v.payload_is_utf8 {
            Some(x) => Some(PropertyValueView::Byte(spec_flag_byte(x))),
            None => None,
        },
        PropertyId::MessageExpiryInterval => match v.message_expiry_interval {
            Some(x) => Some(PropertyValueView::FourByte(x)),
            None => None,
        },
        PropertyId::TopicAlias => match v.topic_alias {
            Some(x) => Some(PropertyValueView::TwoByte(x)),
            None => None,
        },
        PropertyId::ResponseTopic => match v.response_topic {
            Some(x) => Some(PropertyValueView::Text(x)),
            None => None,
        },
        PropertyId::CorrelationData => match v.correlation_data {
            Some(x) => Some(PropertyValueView::Binary(x)),
            None => None,
        },
        PropertyId::SubscriptionIdentifier => match v.subscription_id {
            Some(x) => Some(PropertyValueView::VarInt(x)),
            None => None,
        },
        PropertyId::ContentType => match v.content_type {
            Some(x) => Some(PropertyValueView::Text(x)),
            None => None,
        },
        _ => None,
    }
}

/// The identifiers of a publish packet's properties, in the order in which
/// they are written, user properties aside.
pub open spec fn spec_publish_id(k: int) -> PropertyId {
    if k == 1 {
        PropertyId::PayloadFormatIndicator
    } else if k == 2 {
        PropertyId::MessageExpiryInterval
    } else if k == 3 {
        PropertyId::TopicAlias
    } else if k == 4 {
        PropertyId::ResponseTopic
    } else if k == 5 {
        PropertyId::CorrelationData
    } else if k == 6 {
        PropertyId::SubscriptionIdentifier
    } else {
        PropertyId::ContentType
    }
}

/// The first `k` of a publish packet's properties, as they are written.
pub open spec fn spec_publish_prefix(v: PublishPropertiesView, k: int) -> Seq<PropertyView>
    decreases k,
{
    if k <= 0 {
        Seq::empty()
    } else {
        spec_publish_prefix(v, k - 1) + spec_opt_item(
            spec_publish_id(k),
            spec_publish_slot(v, spec_publish_id(k)),
        )
    }
}

/// The identifiers of the first `k` of a publish packet's properties.
pub open spec fn spec_publish_ids(k: int) -> Set<PropertyId>
    decreases k,
{
    if k <= 0 {
        Set::empty()
    } else {
        spec_publish_ids(k - 1).insert(spec_publish_id(k))
    }
}

/// A publish packet's properties are the seven that are written first, then
/// the user properties.
#[verifier::rlimit(50)]
pub proof fn lemma_publish_items_shape(v: PublishPropertiesView)
    ensures
        v.spec_items() == spec_publish_prefix(v, 7) + spec_user_items(v.user_properties),
{
    reveal_with_fuel(spec_publish_prefix, 9);
    let e = Seq::<PropertyView>::empty();
    let o1 = spec_opt_item(spec_publish_id(1), spec_publish_slot(v, spec_publish_id(1)));
    assert(e + o1 =~= o1);
}

/// Among the first `k` of a publish packet's properties, the first of a kind
/// is the one the packet gives that kind, if the kind is among them.
#[verifier::rlimit(50)]
pub proof fn lemma_publish_find_prefix(v: PublishPropertiesView, k: int, id: PropertyId)
    requires
        0 <= k <= 7,
    ensures
        spec_find(spec_publish_prefix(v, k), id) == (if exists|j: int|
            1 <= j <= k && spec_publish_id(j) == id {
            spec_publish_slot(v, id)
        } else {
            None
        }),
    decreases k,
{
    if k == 0 {
    } else {
        let a = spec_publish_prefix(v, k - 1);
        let idk = spec_publish_id(k);
        let b = spec_opt_item(idk, spec_publish_slot(v, idk));
        lemma_publish_find_prefix(v, k - 1, id);
        lemma_find_concat(a, b, id);
        lemma_find_opt_item(idk, spec_publish_slot(v, idk), id);
        if idk == id {
            assert(spec_publish_id(k) == id);
            assert(!exists|j: int| 1 <= j <= k - 1 && spec_publish_id(j) == id) by {
                assert forall|j: int| 1 <= j <= k - 1 implies spec_publish_id(j) != id by {}
            }
        } else {
            if exists|j: int| 1 <= j <= k && spec_publish_id(j) == id {
                let j = choose|j: int| 1 <= j <= k && spec_publish_id(j) == id;
                assert(1 <= j <= k - 1 && spec_publish_id(j) == id);
            }
        }
    }
}

/// Among a publish packet's properties, the first of a kind is the one the
/// packet gives that kind.
#[verifier::rlimit(50)]
pub proof fn lemma_publish_find(v: PublishPropertiesView, id: PropertyId)
    requires
        id != PropertyId::UserProperty,
    ensures
        spec_find(v.spec_items(), id) == spec_publish_slot(v, id),
{
    lemma_publish_items_shape(v);
    lemma_publish_find_prefix(v, 7, id);
    lemma_find_concat(spec_publish_prefix(v, 7), spec_user_items(v.user_properties), id);
    lemma_find_user_items(v.user_properties, id);
    if spec_publish_slot(v, id) is Some {
        assert(spec_publish_id(1) == id || spec_publish_id(2) == id || spec_publish_id(3) == id
            || spec_publish_id(4) == id || spec_publish_id(5) == id || spec_publish_id(6) == id
            || spec_publish_id(7) == id);
    }
}

/// The first `k` of a publish packet's properties hold no user property.
#[verifier::rlimit(50)]
pub proof fn lemma_publish_users_prefix(v: PublishPropertiesView, k: int)
    requires
        0 <= k <= 7,
    ensures
        spec_user_properties(spec_publish_prefix(v, k)) == Seq::<(Seq<char>, Seq<char>)>::empty(),
    decreases k,
{
    if k == 0 {
    } else {
        let a = spec_publish_prefix(v, k - 1);
        let idk = spec_publish_id(k);
        let b = spec_opt_item(idk, spec_publish_slot(v, idk));
        lemma_publish_users_prefix(v, k - 1);
        lemma_users_concat(a, b);
        lemma_users_opt_item(idk, spec_publish_slot(v, idk));
        assert(spec_user_properties(a) + spec_user_properties(b) =~= Seq::empty());
    }
}

impl PublishPropertiesView {
    /// Properties of a publish packet that can be carried: a response topic
    /// that obeys the grammar of topic names, a subscription identifier
    /// that is not zero, and values that have an encoding.
    pub open spec fn wf(self) -> bool {
        &&& self.response_topic matches Some(t) ==> spec_topic_name(t) is Ok
        &&& self.correlation_data matches Some(d) ==> d.len() <= FIELD_MAX
        &&& self.subscription_id matches Some(n) ==> 0 < n <= VAR_INT_MAX
        &&& self.content_type matches Some(t) ==> encode_utf8(t).len() <= FIELD_MAX
        &&& forall|i: int|
            0 <= i < self.user_properties.len() ==> encode_utf8(
                (#[trigger] self.user_properties[i]).0,
            ).len() <= FIELD_MAX && encode_utf8(self.user_properties[i].1).len() <= FIELD_MAX
        &&& spec_items_bytes(self.spec_items()).len() <= VAR_INT_MAX
    }
}

/// The properties of a publish packet are picked out of their own list.
#[verifier::rlimit(50)]
pub proof fn lemma_publish_properties_round_trip(v: PublishPropertiesView)
    requires
        v.wf(),
    ensures
        PublishPropertiesView::spec_from_items(v.spec_items()) == Ok::<
            PublishPropertiesView,
            ErrorV5View,
        >(v),
{
    lemma_publish_find(v, PropertyId::PayloadFormatIndicator);
    lemma_publish_find(v, PropertyId::MessageExpiryInterval);
    lemma_publish_find(v, PropertyId::TopicAlias);
    lemma_publish_find(v, PropertyId::ResponseTopic);
    lemma_publish_find(v, PropertyId::CorrelationData);
    lemma_publish_find(v, PropertyId::SubscriptionIdentifier);
    lemma_publish_find(v, PropertyId::ContentType);
    lemma_publish_items_shape(v);
    lemma_publish_users_prefix(v, 7);
    lemma_users_concat(spec_publish_prefix(v, 7), spec_user_items(v.user_properties));
    lemma_users_user_items(v.user_properties);
    assert(Seq::<(Seq<char>, Seq<char>)>::empty() + v.user_properties =~= v.user_properties);
    let r = PublishPropertiesView::spec_from_items(v.spec_items());
    assert(r is Ok);
    assert(r->Ok_0.payload_is_utf8 == v.payload_is_utf8);
    assert(r->Ok_0.user_properties == v.user_properties);
}

/// The first `k` of a publish packet's properties are such as a block of a
/// publish packet can hold, and none repeats.
#[verifier::rlimit(50)]
pub proof fn lemma_publish_prefix_ok(v: PublishPropertiesView, k: int)
    requires
        v.wf(),
        0 <= k <= 7,
    ensures
        spec_no_repeat(spec_publish_prefix(v, k)),
        spec_ids_among(spec_publish_prefix(v, k), spec_publish_ids(k)),
        spec_items_ok(spec_publish_prefix(v, k), PropertyScope::Publish),
        forall|j: int| k < j <= 7 ==> !spec_publish_ids(k).contains(#[trigger] spec_publish_id(j)),
        !spec_publish_ids(k).contains(PropertyId::UserProperty),
    decreases k,
{
    if k == 0 {
    } else {
        lemma_publish_prefix_ok(v, k - 1);
        let idk = spec_publish_id(k);
        assert(!spec_publish_ids(k - 1).contains(spec_publish_id(k)));
        lemma_append_slot(
            spec_publish_prefix(v, k - 1),
            spec_publish_ids(k - 1),
            idk,
            spec_publish_slot(v, idk),
            PropertyScope::Publish,
        );
        assert forall|j: int| k < j <= 7 implies !spec_publish_ids(k).contains(
            #[trigger] spec_publish_id(j),
        ) by {
            assert(!spec_publish_ids(k - 1).contains(spec_publish_id(j)));
        }
    }
}

/// The properties of a publish packet that can be carried make a block that
/// can be carried.
#[verifier::rlimit(50)]
pub proof fn lemma_publish_properties_wf(v: PublishPropertiesView)
    requires
        v.wf(),
    ensures
        spec_properties_wf(v.spec_items(), PropertyScope::Publish),
{
    lemma_publish_items_shape(v);
    lemma_publish_prefix_ok(v, 7);
    lemma_append_users(
        spec_publish_prefix(v, 7),
        spec_publish_ids(7),
        v.user_properties,
        PropertyScope::Publish,
    );
}

/// The block of properties of a publish packet at the head of what is left
/// of `s` is read.
#[verifier::rlimit(50)]
pub proof fn lemma_publish_properties_suffix(
    s: Seq<u8>,
    off: int,
    v: PublishPropertiesView,
    tail: Seq<u8>,
)
    requires
        v.wf(),
        0 <= off <= s.len(),
        s.subrange(off, s.len() as int) == v.spec_bytes() + tail,
    ensures
        spec_read_publish_properties(s, off) == Ok::<(PublishPropertiesView, int), ErrorV5View>(
            (v, off + v.spec_bytes().len()),
        ),
        off + v.spec_bytes().len() <= s.len(),
        s.subrange(off + v.spec_bytes().len(), s.len() as int) == tail,
{
    lemma_publish_properties_wf(v);
    lemma_properties_suffix(s, off, PropertyScope::Publish, v.spec_items(), tail);
    lemma_publish_properties_round_trip(v);
}

/// The parts of the body of a publish packet are read one after the other.
#[verifier::rlimit(50)]
pub proof fn lemma_publish_parts(s: Seq<u8>, p: PublishView, h: Header)
    requires
        p.wf(),
        p.properties.wf(),
        h.qos == p.qos_pid.qos(),
        s == spec_string_bytes(p.topic_name) + (p.qos_pid.pid_bytes() + (p.properties.spec_bytes()
            + p.payload)),
    ensures
        spec_read_string(s, 0) matches Ok((text, off1)) && (text == p.topic_name && (
        spec_read_qos_pid(s, off1, h.qos) matches Ok((q, off2)) && (q == p.qos_pid && (
        spec_read_publish_properties(s, off2) matches Ok((v, off3)) && (v == p.properties && 0
            <= off3 <= s.len() && s.subrange(off3, s.len() as int) == p.payload))))),
{
    let rest2 = p.properties.spec_bytes() + p.payload;
    let rest1 = p.qos_pid.pid_bytes() + rest2;
    lemma_whole(s);
    lemma_string_suffix(s, 0, p.topic_name, rest1);
    let off1 = (2 + encode_utf8(p.topic_name).len()) as int;
    lemma_qos_pid_suffix(s, off1, p.qos_pid, rest2);
    let off2 = spec_read_qos_pid(s, off1, h.qos)->Ok_0.1;
    lemma_publish_properties_suffix(s, off2, p.properties, p.payload);
}

/// The body of a publish packet is read back from its own bytes.
#[verifier::rlimit(50)]
pub proof fn lemma_publish_round_trip(p: PublishView, h: Header)
    requires
        p.wf(),
        p.properties.wf(),
        h.dup == p.dup,
        h.retain == p.retain,
        h.qos == p.qos_pid.qos(),
    ensures
        PublishView::spec_decode(p.spec_bytes(), 0, h) == Ok::<(PublishView, int), ErrorV5View>(
            (p, p.spec_bytes().len() as int),
        ),
{
    let s = spec_string_bytes(p.topic_name) + (p.qos_pid.pid_bytes() + (
    p.properties.spec_bytes() + p.payload));
    lemma_concat_assoc4(
        spec_string_bytes(p.topic_name),
        p.qos_pid.pid_bytes(),
        p.properties.spec_bytes(),
        p.payload,
    );
    lemma_publish_parts(s, p, h);
}

impl PacketView {
    /// A packet that can be carried: every part obeys its rules.
    pub open spec fn wf(self) -> bool {
        match self {
            PacketView::Connect(x) => x.wf(),
            PacketView::Connack(x) => x.wf(),
            PacketView::Publish(x) => x.wf() && x.properties.wf(),
            PacketView::Puback(x) => x.wf(PacketType::Puback),
            PacketView::Pubrec(x) => x.wf(PacketType::Pubrec),
            PacketView::Pubrel(x) => x.wf(PacketType::Pubrel),
            PacketView::Pubcomp(x) => x.wf(PacketType::Pubcomp),
            PacketView::Subscribe(x) => x.wf(),
            PacketView::Suback(x) => x.wf(),
            PacketView::Unsubscribe(x) => x.wf(),
            PacketView::Unsuback(x) => x.wf(),
            PacketView::Disconnect(x) => x.wf(PacketType::Disconnect),
            PacketView::Auth(x) => x.wf(PacketType::Auth),
            PacketView::Pingreq => true,
            PacketView::Pingresp => true,
        }
    }
}

/// The whole body of a connect packet is read back.
#[verifier::rlimit(50)]
pub proof fn lemma_body_connect(x: ConnectView, h: Header)
    requires
        x.wf(),
    ensures
        spec_body_connect(h, x.spec_bytes()) == Ok::<PacketView, ErrorV5View>(PacketView::Connect(x)),
{
    lemma_connect_round_trip(x);
}

/// The whole body of a connack packet is read back.
#[verifier::rlimit(50)]
pub proof fn lemma_body_connack(x: ConnackView, h: Header)
    requires
        x.wf(),
    ensures
        spec_body_connack(h, x.spec_bytes()) == Ok::<PacketView, ErrorV5View>(PacketView::Connack(x)),
{
    lemma_connack_round_trip(x);
}

/// The whole body of a publish packet is read back.
#[verifier::rlimit(50)]
pub proof fn lemma_body_publish(x: PublishView, h: Header)
    requires
        x.wf() && x.properties.wf(),
        h.dup == x.dup,
        h.retain == x.retain,
        h.qos == x.qos_pid.qos(),
    ensures
        spec_body_publish(h, x.spec_bytes()) == Ok::<PacketView, ErrorV5View>(PacketView::Publish(x)),
{
    lemma_publish_round_trip(x, h);
}

/// The whole body of a puback packet is read back.
#[verifier::rlimit(50)]
pub proof fn lemma_body_puback(x: AckView, h: Header)
    requires
        x.wf(PacketType::Puback),
        h.remaining_len == x.spec_bytes().len(),
    ensures
        spec_body_puback(h, x.spec_bytes()) == Ok::<PacketView, ErrorV5View>(PacketView::Puback(x)),
{
    lemma_ack_round_trip(x, PacketType::Puback);
}

/// The whole body of a pubrec packet is read back.
#[verifier::rlimit(50)]
pub proof fn lemma_body_pubrec(x: AckView, h: Header)
    requires
        x.wf(PacketType::Pubrec),
        h.remaining_len == x.spec_bytes().len(),
    ensures
        spec_body_pubrec(h, x.spec_bytes()) == Ok::<PacketView, ErrorV5View>(PacketView::Pubrec(x)),
{
    lemma_ack_round_trip(x, PacketType::Pubrec);
}

/// The whole body of a pubrel packet is read back.
#[verifier::rlimit(50)]
pub proof fn lemma_body_pubrel(x: AckView, h: Header)
    requires
        x.wf(PacketType::Pubrel),
        h.remaining_len == x.spec_bytes().len(),
    ensures
        spec_body_pubrel(h, x.spec_bytes()) == Ok::<PacketView, ErrorV5View>(PacketView::Pubrel(x)),
{
    lemma_ack_round_trip(x, PacketType::Pubrel);
}

/// The whole body of a pubcomp packet is read back.
#[verifier::rlimit(50)]
pub proof fn lemma_body_pubcomp(x: AckView, h: Header)
    requires
        x.wf(PacketType::Pubcomp),
        h.remaining_len == x.spec_bytes().len(),
    ensures
        spec_body_pubcomp(h, x.spec_bytes()) == Ok::<PacketView, ErrorV5View>(PacketView::Pubcomp(x)),
{
    lemma_ack_round_trip(x, PacketType::Pubcomp);
}

/// The whole body of a subscribe packet is read back.
#[verifier::rlimit(50)]
pub proof fn lemma_body_subscribe(x: SubscribeView, h: Header)
    requires
        x.wf(),
    ensures
        spec_body_subscribe(h, x.spec_bytes()) == Ok::<PacketView, ErrorV5View>(PacketView::Subscribe(x)),
{
    lemma_subscribe_round_trip(x);
}

/// The whole body of a suback packet is read back.
#[verifier::rlimit(50)]
pub proof fn lemma_body_suback(x: SubackView, h: Header)
    requires
        x.wf(),
    ensures
        spec_body_suback(h, x.spec_bytes()) == Ok::<PacketView, ErrorV5View>(PacketView::Suback(x)),
{
    lemma_suback_round_trip(x);
}

/// The whole body of a unsubscribe packet is read back.
#[verifier::rlimit(50)]
pub proof fn lemma_body_unsubscribe(x: UnsubscribeView, h: Header)
    requires
        x.wf(),
    ensures
        spec_body_unsubscribe(h, x.spec_bytes()) == Ok::<PacketView, ErrorV5View>(PacketView::Unsubscribe(x)),
{
    lemma_unsubscribe_round_trip(x);
}

/// The whole body of a unsuback packet is read back.
#[verifier::rlimit(50)]
pub proof fn lemma_body_unsuback(x: UnsubackView, h: Header)
    requires
        x.wf(),
    ensures
        spec_body_unsuback(h, x.spec_bytes()) == Ok::<PacketView, ErrorV5View>(PacketView::Unsuback(x)),
{
    lemma_unsuback_round_trip(x);
}

/// The whole body of a disconnect packet is read back.
#[verifier::rlimit(50)]
pub proof fn lemma_body_disconnect(x: ReasonView, h: Header)
    requires
        x.wf(PacketType::Disconnect),
        h.remaining_len == x.spec_bytes().len(),
    ensures
        spec_body_disconnect(h, x.spec_bytes()) == Ok::<PacketView, ErrorV5View>(PacketView::Disconnect(x)),
{
    lemma_reason_round_trip(x, PacketType::Disconnect);
}

/// The whole body of a auth packet is read back.
#[verifier::rlimit(50)]
pub proof fn lemma_body_auth(x: ReasonView, h: Header)
    requires
        x.wf(PacketType::Auth),
        h.remaining_len == x.spec_bytes().len(),
    ensures
        spec_body_auth(h, x.spec_bytes()) == Ok::<PacketView, ErrorV5View>(PacketView::Auth(x)),
{
    lemma_reason_round_trip(x, PacketType::Auth);
}

/// The body of a connect packet is read back under its header.
#[verifier::rlimit(50)]
pub proof fn lemma_decode_body_connect(p: PacketView)
    requires
        p is Connect,
        p.wf(),
        p.spec_body_bytes().len() <= VAR_INT_MAX,
    ensures
        spec_decode_body(p.spec_header(p.spec_body_bytes().len() as u32), p.spec_body_bytes())
            == Ok::<PacketView, ErrorV5View>(p),
{
    reveal(spec_decode_body);
    let h = p.spec_header(p.spec_body_bytes().len() as u32);
    lemma_body_connect(p->Connect_0, h);
}

/// The body of a connack packet is read back under its header.
#[verifier::rlimit(50)]
pub proof fn lemma_decode_body_connack(p: PacketView)
    requires
        p is Connack,
        p.wf(),
        p.spec_body_bytes().len() <= VAR_INT_MAX,
    ensures
        spec_decode_body(p.spec_header(p.spec_body_bytes().len() as u32), p.spec_body_bytes())
            == Ok::<PacketView, ErrorV5View>(p),
{
    reveal(spec_decode_body);
    let h = p.spec_header(p.spec_body_bytes().len() as u32);
    lemma_body_connack(p->Connack_0, h);
}

/// The body of a publish packet is read back under its header.
#[verifier::rlimit(50)]
pub proof fn lemma_decode_body_publish(p: PacketView)
    requires
        p is Publish,
        p.wf(),
        p.spec_body_bytes().len() <= VAR_INT_MAX,
    ensures
        spec_decode_body(p.spec_header(p.spec_body_bytes().len() as u32), p.spec_body_bytes())
            == Ok::<PacketView, ErrorV5View>(p),
{
    reveal(spec_decode_body);
    let h = p.spec_header(p.spec_body_bytes().len() as u32);
    lemma_body_publish(p->Publish_0, h);
}

/// The body of a puback packet is read back under its header.
#[verifier::rlimit(50)]
pub proof fn lemma_decode_body_puback(p: PacketView)
    requires
        p is Puback,
        p.wf(),
        p.spec_body_bytes().len() <= VAR_INT_MAX,
    ensures
        spec_decode_body(p.spec_header(p.spec_body_bytes().len() as u32), p.spec_body_bytes())
            == Ok::<PacketView, ErrorV5View>(p),
{
    reveal(spec_decode_body);
    let h = p.spec_header(p.spec_body_bytes().len() as u32);
    lemma_body_puback(p->Puback_0, h);
}

/// The body of a pubrec packet is read back under its header.
#[verifier::rlimit(50)]
pub proof fn lemma_decode_body_pubrec(p: PacketView)
    requires
        p is Pubrec,
        p.wf(),
        p.spec_body_bytes().len() <= VAR_INT_MAX,
    ensures
        spec_decode_body(p.spec_header(p.spec_body_bytes().len() as u32), p.spec_body_bytes())
            == Ok::<PacketView, ErrorV5View>(p),
{
    reveal(spec_decode_body);
    let h = p.spec_header(p.spec_body_bytes().len() as u32);
    lemma_body_pubrec(p->Pubrec_0, h);
}

/// The body of a pubrel packet is read back under its header.
#[verifier::rlimit(50)]
pub proof fn lemma_decode_body_pubrel(p: PacketView)
    requires
        p is Pubrel,
        p.wf(),
        p.spec_body_bytes().len() <= VAR_INT_MAX,
    ensures
        spec_decode_body(p.spec_header(p.spec_body_bytes().len() as u32), p.spec_body_bytes())
            == Ok::<PacketView, ErrorV5View>(p),
{
    reveal(spec_decode_body);
    let h = p.spec_header(p.spec_body_bytes().len() as u32);
    lemma_body_pubrel(p->Pubrel_0, h);
}

/// The body of a pubcomp packet is read back under its header.
#[verifier::rlimit(50)]
pub proof fn lemma_decode_body_pubcomp(p: PacketView)
    requires
        p is Pubcomp,
        p.wf(),
        p.spec_body_bytes().len() <= VAR_INT_MAX,
    ensures
        spec_decode_body(p.spec_header(p.spec_body_bytes().len() as u32), p.spec_body_bytes())
            == Ok::<PacketView, ErrorV5View>(p),
{
    reveal(spec_decode_body);
    let h = p.spec_header(p.spec_body_bytes().len() as u32);
    lemma_body_pubcomp(p->Pubcomp_0, h);
}

/// The body of a subscribe packet is read back under its header.
#[verifier::rlimit(50)]
pub proof fn lemma_decode_body_subscribe(p: PacketView)
    requires
        p is Subscribe,
        p.wf(),
        p.spec_body_bytes().len() <= VAR_INT_MAX,
    ensures
        spec_decode_body(p.spec_header(p.spec_body_bytes().len() as u32), p.spec_body_bytes())
            == Ok::<PacketView, ErrorV5View>(p),
{
    reveal(spec_decode_body);
    let h = p.spec_header(p.spec_body_bytes().len() as u32);
    lemma_body_subscribe(p->Subscribe_0, h);
}

/// The body of a suback packet is read back under its header.
#[verifier::rlimit(50)]
pub proof fn lemma_decode_body_suback(p: PacketView)
    requires
        p is Suback,
        p.wf(),
        p.spec_body_bytes().len() <= VAR_INT_MAX,
    ensures
        spec_decode_body(p.spec_header(p.spec_body_bytes().len() as u32), p.spec_body_bytes())
            == Ok::<PacketView, ErrorV5View>(p),
{
    reveal(spec_decode_body);
    let h = p.spec_header(p.spec_body_bytes().len() as u32);
    lemma_body_suback(p->Suback_0, h);
}

/// The body of a unsubscribe packet is read back under its header.
#[verifier::rlimit(50)]
pub proof fn lemma_decode_body_unsubscribe(p: PacketView)
    requires
        p is Unsubscribe,
        p.wf(),
        p.spec_body_bytes().len() <= VAR_INT_MAX,
    ensures
        spec_decode_body(p.spec_header(p.spec_body_bytes().len() as u32), p.spec_body_bytes())
            == Ok::<PacketView, ErrorV5View>(p),
{
    reveal(spec_decode_body);
    let h = p.spec_header(p.spec_body_bytes().len() as u32);
    lemma_body_unsubscribe(p->Unsubscribe_0, h);
}

/// The body of a unsuback packet is read back under its header.
#[verifier::rlimit(50)]
pub proof fn lemma_decode_body_unsuback(p: PacketView)
    requires
        p is Unsuback,
        p.wf(),
        p.spec_body_bytes().len() <= VAR_INT_MAX,
    ensures
        spec_decode_body(p.spec_header(p.spec_body_bytes().len() as u32), p.spec_body_bytes())
            == Ok::<PacketView, ErrorV5View>(p),
{
    reveal(spec_decode_body);
    let h = p.spec_header(p.spec_body_bytes().len() as u32);
    lemma_body_unsuback(p->Unsuback_0, h);
}

/// The body of a disconnect packet is read back under its header.
#[verifier::rlimit(50)]
pub proof fn lemma_decode_body_disconnect(p: PacketView)
    requires
        p is Disconnect,
        p.wf(),
        p.spec_body_bytes().len() <= VAR_INT_MAX,
    ensures
        spec_decode_body(p.spec_header(p.spec_body_bytes().len() as u32), p.spec_body_bytes())
            == Ok::<PacketView, ErrorV5View>(p),
{
    reveal(spec_decode_body);
    let h = p.spec_header(p.spec_body_bytes().len() as u32);
    lemma_body_disconnect(p->Disconnect_0, h);
}

/// The body of a auth packet is read back under its header.
#[verifier::rlimit(50)]
pub proof fn lemma_decode_body_auth(p: PacketView)
    requires
        p is Auth,
        p.wf(),
        p.spec_body_bytes().len() <= VAR_INT_MAX,
    ensures
        spec_decode_body(p.spec_header(p.spec_body_bytes().len() as u32), p.spec_body_bytes())
            == Ok::<PacketView, ErrorV5View>(p),
{
    reveal(spec_decode_body);
    let h = p.spec_header(p.spec_body_bytes().len() as u32);
    lemma_body_auth(p->Auth_0, h);
}

/// The body of a ping request or response is read back under its header.
#[verifier::rlimit(50)]
pub proof fn lemma_decode_body_ping(p: PacketView)
    requires
        p is Pingreq || p is Pingresp,
    ensures
        spec_decode_body(p.spec_header(p.spec_body_bytes().len() as u32), p.spec_body_bytes())
            == Ok::<PacketView, ErrorV5View>(p),
{
    reveal(spec_decode_body);
}

/// The body of every packet is read back from its own bytes, under the
/// header that the packet is sent with.
#[verifier::rlimit(50)]
pub proof fn lemma_body_round_trip(p: PacketView)
    requires
        p.wf(),
        p.spec_body_bytes().len() <= VAR_INT_MAX,
    ensures
        spec_decode_body(p.spec_header(p.spec_body_bytes().len() as u32), p.spec_body_bytes())
            == Ok::<PacketView, ErrorV5View>(p),
{
    match p {
        PacketView::Connect(_) => lemma_decode_body_connect(p),
        PacketView::Connack(_) => lemma_decode_body_connack(p),
        PacketView::Publish(_) => lemma_decode_body_publish(p),
        PacketView::Puback(_) => lemma_decode_body_puback(p),
        PacketView::Pubrec(_) => lemma_decode_body_pubrec(p),
        PacketView::Pubrel(_) => lemma_decode_body_pubrel(p),
        PacketView::Pubcomp(_) => lemma_decode_body_pubcomp(p),
        PacketView::Subscribe(_) => lemma_decode_body_subscribe(p),
        PacketView::Suback(_) => lemma_decode_body_suback(p),
        PacketView::Unsubscribe(_) => lemma_decode_body_unsubscribe(p),
        PacketView::Unsuback(_) => lemma_decode_body_unsuback(p),
        PacketView::Disconnect(_) => lemma_decode_body_disconnect(p),
        PacketView::Auth(_) => lemma_decode_body_auth(p),
        PacketView::Pingreq => lemma_decode_body_ping(p),
        PacketView::Pingresp => lemma_decode_body_ping(p),
    }
}

/// A packet that can be carried has an encoding, unless its body is too
/// long.
#[verifier::rlimit(50)]
pub proof fn lemma_wf_fits(p: PacketView)
    requires
        p.wf(),
    ensures
        p.fits(),
{
    match p {
        PacketView::Connect(x) => {},
        PacketView::Connack(x) => {},
        PacketView::Publish(x) => {},
        PacketView::Puback(x) => {
            lemma_ack_properties_wf(x.properties, PacketType::Puback);
        },
        PacketView::Pubrec(x) => {
            lemma_ack_properties_wf(x.properties, PacketType::Pubrec);
        },
        PacketView::Pubrel(x) => {
            lemma_ack_properties_wf(x.properties, PacketType::Pubrel);
        },
        PacketView::Pubcomp(x) => {
            lemma_ack_properties_wf(x.properties, PacketType::Pubcomp);
        },
        PacketView::Subscribe(x) => {},
        PacketView::Suback(x) => {},
        PacketView::Unsubscribe(x) => {},
        PacketView::Unsuback(x) => {},
        PacketView::Pingreq => {},
        PacketView::Pingresp => {},
        PacketView::Disconnect(x) => {},
        PacketView::Auth(x) => {},
    }
}

/// Round trip: every packet that can be carried is decoded from its own
/// encoding, which is used up.
#[verifier::rlimit(50)]
pub proof fn lemma_packet_round_trip(p: PacketView)
    requires
        p.wf(),
        p.spec_body_bytes().len() <= VAR_INT_MAX,
    ensures
        p.spec_encode() is Ok,
        spec_decode_packet(p.spec_encode()->Ok_0) == Ok::<
            Option<(PacketView, int)>,
            ErrorV5View,
        >(Some((p, p.spec_encode()->Ok_0.len() as int))),
{
    lemma_wf_fits(p);
    let body = p.spec_body_bytes();
    let h = p.spec_header(body.len() as u32);
    let s = h.spec_bytes() + body;
    lemma_header_round_trip(h, body);
    lemma_body_round_trip(p);
    let start = h.spec_bytes().len() as int;
    assert(s.subrange(start, start + h.remaining_len) =~= body);
    match p {
        PacketView::Disconnect(x) => {
            if body.len() == 0 {
                assert(x.properties =~= Seq::empty());
            }
        },
        PacketView::Auth(x) => {
            if body.len() == 0 {
                assert(x.properties =~= Seq::empty());
            }
        },
        _ => {},
    }
}

} // verus!
