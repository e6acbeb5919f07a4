//! Topic names and topic filters.
//!
//! The grammar is stated over the UTF-8 bytes of the text: the separator and
//! the wildcards are ASCII, so a byte with one of their values is that
//! character.

use crate::common::error::{agrees, Error, ErrorView};
use vstd::prelude::*;
use vstd::std_specs::convert::TryFromSpecImpl;
use vstd::utf8::encode_utf8;

verus! {

/// Separates the levels of a topic.
pub const LEVEL_SEP: u8 = 47;

/// Wildcard for exactly one level.
pub const MATCH_ONE: u8 = 43;

/// Wildcard for all remaining levels.
pub const MATCH_ALL: u8 = 35;

/// First byte of the topics that a server keeps for itself.
pub const DOLLAR: u8 = 36;

/// The bytes of `$share/`.
pub open spec fn shared_prefix() -> Seq<u8> {
    seq![36u8, 115u8, 104u8, 97u8, 114u8, 101u8, 47u8]
}

/// No byte of `b` is NUL.
pub open spec fn no_nul(b: Seq<u8>) -> bool {
    forall|i: int| 0 <= i < b.len() ==> #[trigger] b[i] != 0
}

/// No byte of `b` is a wildcard.
pub open spec fn no_wildcard(b: Seq<u8>) -> bool {
    forall|i: int| 0 <= i < b.len() ==> #[trigger] b[i] != MATCH_ONE && b[i] != MATCH_ALL
}

/// The byte at `i` is where a level of `b` begins.
pub open spec fn level_start(b: Seq<u8>, i: int) -> bool {
    i == 0 || b[i - 1] == LEVEL_SEP
}

/// The byte at `i` is where a level of `b` ends.
pub open spec fn level_end(b: Seq<u8>, i: int) -> bool {
    i == b.len() - 1 || b[i + 1] == LEVEL_SEP
}

/// The wildcard rule at position `i`: `+` is a whole level, `#` is a whole
/// level and the last one.
pub open spec fn wildcard_ok_at(b: Seq<u8>, i: int) -> bool {
    &&& b[i] == MATCH_ONE ==> level_start(b, i) && level_end(b, i)
    &&& b[i] == MATCH_ALL ==> level_start(b, i) && i == b.len() - 1
}

/// Every wildcard of `b` obeys the wildcard rule.
pub open spec fn wildcards_ok(b: Seq<u8>) -> bool {
    forall|i: int| 0 <= i < b.len() ==> #[trigger] wildcard_ok_at(b, i)
}

/// `b` begins with `$share/`.
pub open spec fn has_shared_prefix(b: Seq<u8>) -> bool {
    b.len() >= 7 && b.subrange(0, 7) == shared_prefix()
}

/// `j` is where the group of the shared subscription `b` ends: the first
/// separator behind the prefix, with a group before it that is not empty
/// and holds no wildcard, and a filter behind it that is not empty.
pub open spec fn shared_group_ends_at(b: Seq<u8>, j: int) -> bool {
    &&& 7 < j < b.len() - 1
    &&& b[j] == LEVEL_SEP
    &&& forall|k: int|
        7 <= k < j ==> #[trigger] b[k] != LEVEL_SEP && b[k] != MATCH_ONE && b[k] != MATCH_ALL
}

/// `b` does not begin with `$share/`, or is `$share/{group}/{filter}` with a
/// proper group and a filter.
pub open spec fn shared_ok(b: Seq<u8>) -> bool {
    has_shared_prefix(b) ==> exists|j: int| shared_group_ends_at(b, j)
}

/// The grammar of topic names: not empty, at most 65535 bytes, no NUL and
/// no wildcard.
pub open spec fn topic_name_check(b: Seq<u8>) -> Result<(), ErrorView> {
    if b.len() == 0 {
        Err(ErrorView::EmptyTopic)
    } else if b.len() > 65535 {
        Err(ErrorView::PayloadTooLong)
    } else if !(no_nul(b) && no_wildcard(b)) {
        Err(ErrorView::InvalidTopic)
    } else {
        Ok(())
    }
}

/// The grammar of topic filters: not empty, at most 65535 bytes, no NUL,
/// wildcards only as whole levels with `#` last, and a proper group in a
/// shared subscription.
pub open spec fn topic_filter_check(b: Seq<u8>) -> Result<(), ErrorView> {
    if b.len() == 0 {
        Err(ErrorView::EmptyTopic)
    } else if b.len() > 65535 {
        Err(ErrorView::PayloadTooLong)
    } else if !(no_nul(b) && wildcards_ok(b) && shared_ok(b)) {
        Err(ErrorView::InvalidTopic)
    } else {
        Ok(())
    }
}

/// What [`TopicName::from_string`] returns for the text `chars`.
pub open spec fn spec_topic_name(chars: Seq<char>) -> Result<Seq<char>, ErrorView> {
    match topic_name_check(encode_utf8(chars)) {
        Ok(_) => Ok(chars),
        Err(e) => Err(e),
    }
}

/// What [`TopicFilter::from_string`] returns for the text `chars`.
pub open spec fn spec_topic_filter(chars: Seq<char>) -> Result<Seq<char>, ErrorView> {
    match topic_filter_check(encode_utf8(chars)) {
        Ok(_) => Ok(chars),
        Err(e) => Err(e),
    }
}

/// Whether `b` holds neither NUL nor, where `wild` is false, a wildcard.
fn scan_plain(b: &[u8], wild: bool) -> (ok: bool)
    ensures
        ok == (no_nul(b@) && (wild || no_wildcard(b@))),
{
    let mut i: usize = 0;
    while i < b.len()
        invariant
            i <= b@.len(),
            no_nul(b@.subrange(0, i as int)),
            wild || no_wildcard(b@.subrange(0, i as int)),
        decreases b@.len() - i,
    {
        let c: u8 = b[i];
        if c == 0 || (!wild && (c == MATCH_ONE || c == MATCH_ALL)) {
            return false;
        }
        i = i + 1;
        assert forall|k: int| 0 <= k < i implies #[trigger] b@.subrange(0, i as int)[k] != 0 by {
            if k < i - 1 {
                assert(b@.subrange(0, i - 1)[k] != 0);
            }
        }
        if !wild {
            assert forall|k: int| 0 <= k < i implies #[trigger] b@.subrange(0, i as int)[k]
                != MATCH_ONE && b@.subrange(0, i as int)[k] != MATCH_ALL by {
                if k < i - 1 {
                    assert(b@.subrange(0, i - 1)[k] != MATCH_ONE);
                }
            }
        }
    }
    assert(b@.subrange(0, i as int) =~= b@);
    true
}

/// Whether every wildcard of `b` obeys the wildcard rule.
fn scan_wildcards(b: &[u8]) -> (ok: bool)
    ensures
        ok == wildcards_ok(b@),
{
    let n: usize = b.len();
    let mut i: usize = 0;
    while i < n
        invariant
            n == b@.len(),
            i <= n,
            forall|k: int| 0 <= k < i ==> #[trigger] wildcard_ok_at(b@, k),
        decreases n - i,
    {
        let c: u8 = b[i];
        if c == MATCH_ONE || c == MATCH_ALL {
            let starts: bool = i == 0 || b[i - 1] == LEVEL_SEP;
            let ends: bool = if c == MATCH_ALL {
                i == n - 1
            } else {
                i == n - 1 || b[i + 1] == LEVEL_SEP
            };
            if !(starts && ends) {
                assert(!wildcard_ok_at(b@, i as int));
                return false;
            }
        }
        assert(wildcard_ok_at(b@, i as int));
        i = i + 1;
    }
    true
}

/// Whether `b` begins with `$share/`.
fn starts_shared(b: &[u8]) -> (yes: bool)
    ensures
        yes == has_shared_prefix(b@),
{
    if b.len() < 7 {
        return false;
    }
    let yes = b[0] == 36 && b[1] == 115 && b[2] == 104 && b[3] == 97 && b[4] == 114 && b[5] == 101
        && b[6] == 47;
    proof {
        let p = b@.subrange(0, 7);
        if yes {
            assert(p =~= shared_prefix());
        } else {
            assert(p[0] == b@[0] && p[1] == b@[1] && p[2] == b@[2] && p[3] == b@[3] && p[4]
                == b@[4] && p[5] == b@[5] && p[6] == b@[6]);
        }
    }
    yes
}

/// For `b` that begins with `$share/`: where the filter begins, if the
/// group and the filter are proper.
#[verifier::rlimit(50)]
fn scan_shared(b: &[u8]) -> (at: Option<usize>)
    requires
        has_shared_prefix(b@),
    ensures
        at is Some == shared_ok(b@),
        at matches Some(j) ==> shared_group_ends_at(b@, j - 1),
{
    let n: usize = b.len();
    let mut j: usize = 7;
    while j < n
        invariant
            n == b@.len(),
            7 <= j <= n,
            has_shared_prefix(b@),
            forall|k: int|
                7 <= k < j ==> #[trigger] b@[k] != LEVEL_SEP && b@[k] != MATCH_ONE && b@[k]
                    != MATCH_ALL,
        decreases n - j,
    {
        let c: u8 = b[j];
        if c == LEVEL_SEP {
            if 7 < j && j < n - 1 {
                assert(shared_group_ends_at(b@, j as int));
                return Some(j + 1);
            }
            assert forall|x: int| !shared_group_ends_at(b@, x) by {
                if shared_group_ends_at(b@, x) {
                    if x < j {
                        assert(b@[x] != LEVEL_SEP);
                    } else if x > j {
                        assert(b@[j as int] != LEVEL_SEP);
                    }
                }
            }
            return None;
        }
        if c == MATCH_ONE || c == MATCH_ALL {
            assert forall|x: int| !shared_group_ends_at(b@, x) by {
                if shared_group_ends_at(b@, x) {
                    if x < j {
                        assert(b@[x] != LEVEL_SEP);
                    } else if x > j {
                        assert(b@[j as int] != MATCH_ONE && b@[j as int] != MATCH_ALL);
                    }
                }
            }
            return None;
        }
        j = j + 1;
    }
    assert forall|x: int| !shared_group_ends_at(b@, x) by {
        if shared_group_ends_at(b@, x) {
            assert(b@[x] != LEVEL_SEP);
        }
    }
    None
}

/// Checks the bytes of a topic name against the grammar.
pub fn check_topic_name(b: &[u8]) -> (res: Result<(), Error>)
    ensures
        agrees(res, topic_name_check(b@)),
{
    if b.len() == 0 {
        Err(Error::EmptyTopic)
    } else if b.len() > 65535 {
        Err(Error::PayloadTooLong)
    } else if !scan_plain(b, false) {
        Err(Error::InvalidTopic)
    } else {
        Ok(())
    }
}

/// Checks the bytes of a topic filter against the grammar.
pub fn check_topic_filter(b: &[u8]) -> (res: Result<(), Error>)
    ensures
        agrees(res, topic_filter_check(b@)),
{
    if b.len() == 0 {
        Err(Error::EmptyTopic)
    } else if b.len() > 65535 {
        Err(Error::PayloadTooLong)
    } else if !scan_plain(b, true) || !scan_wildcards(b) {
        Err(Error::InvalidTopic)
    } else if starts_shared(b) {
        match scan_shared(b) {
            Some(_) => Ok(()),
            None => Err(Error::InvalidTopic),
        }
    } else {
        Ok(())
    }
}

/// A topic name: where a message is published.
#[derive(Debug, PartialEq, Eq, Hash)]
pub struct TopicName {
    inner: String,
}

impl Clone for TopicName {
    fn clone(&self) -> (res: TopicName)
        ensures
            res@ == self@,
    {
        proof {
            use_type_invariant(self);
        }
        TopicName { inner: self.inner.clone() }
    }
}

impl View for TopicName {
    type V = Seq<char>;

    closed spec fn view(&self) -> Seq<char> {
        self.inner@
    }
}

impl TopicName {
    /// The topic name with the given text.
    pub closed spec fn spec_new(s: String) -> TopicName {
        TopicName { inner: s }
    }

    /// The topic name with a given text has that text.
    pub proof fn lemma_spec_new(s: String)
        ensures
            Self::spec_new(s)@ == s@,
    {
    }

    /// The name obeys the grammar of topic names.
    pub open spec fn wf(&self) -> bool {
        topic_name_check(encode_utf8(self@)) is Ok
    }

    /// The name is empty: that of a 5.0 publish packet which names its
    /// topic by an alias.
    pub open spec fn spec_is_empty(&self) -> bool {
        encode_utf8(self@).len() == 0
    }

    #[verifier::type_invariant]
    spec fn inv(self) -> bool {
        encode_utf8(self.inner@).len() == 0 || topic_name_check(encode_utf8(self.inner@)) is Ok
    }

    /// The empty name, for a 5.0 publish packet which names its topic by an
    /// alias.
    pub fn empty() -> (t: TopicName)
        ensures
            t@ == Seq::<char>::empty(),
            t.spec_is_empty(),
    {
        let s = String::new();
        assert(encode_utf8(s@).len() == 0) by {
            reveal_with_fuel(encode_utf8, 1);
        }
        TopicName { inner: s }
    }

    /// Whether the name is empty.
    pub fn is_empty(&self) -> (b: bool)
        ensures
            b == self.spec_is_empty(),
    {
        self.inner.as_str().as_bytes().len() == 0
    }

    /// The topic name with text `s`, or the error of the grammar's first
    /// broken rule.
    pub fn from_string(s: String) -> (res: Result<TopicName, Error>)
        ensures
            agrees(res, spec_topic_name(s@)),
            res matches Ok(t) ==> t.wf() && !t.spec_is_empty() && t == Self::spec_new(s),
    {
        check_topic_name(s.as_str().as_bytes())?;
        Ok(TopicName { inner: s })
    }

    /// The name's text. Every topic name is empty or obeys the grammar:
    /// there is no other way to make one.
    pub fn as_str(&self) -> (s: &str)
        ensures
            s@ == self@,
            self.spec_is_empty() || self.wf(),
            encode_utf8(self@).len() <= 65535,
    {
        proof {
            use_type_invariant(self);
        }
        self.inner.as_str()
    }

    /// The name's UTF-8 bytes.
    pub fn as_bytes(&self) -> (b: &[u8])
        ensures
            b@ == encode_utf8(self@),
    {
        self.inner.as_str().as_bytes()
    }

    /// The number of the name's UTF-8 bytes.
    pub fn len(&self) -> (n: usize)
        ensures
            n == encode_utf8(self@).len(),
            n <= 65535,
    {
        proof {
            use_type_invariant(self);
        }
        self.inner.as_str().as_bytes().len()
    }

    /// Whether the name begins with `$`: such names are valid, and kept by
    /// servers for their own use.
    pub fn is_sys(&self) -> (b: bool)
        ensures
            b == (encode_utf8(self@).len() > 0 && encode_utf8(self@)[0] == DOLLAR),
    {
        let bytes = self.inner.as_str().as_bytes();
        bytes.len() > 0 && bytes[0] == DOLLAR
    }
}

impl TryFrom<String> for TopicName {
    type Error = Error;

    fn try_from(s: String) -> (res: Result<TopicName, Error>) {
        TopicName::from_string(s)
    }
}

impl TryFromSpecImpl<String> for TopicName {
    open spec fn obeys_try_from_spec() -> bool {
        true
    }

    open spec fn try_from_spec(s: String) -> Result<TopicName, Error> {
        match topic_name_check(encode_utf8(s@)) {
            Ok(_) => Ok(TopicName::spec_new(s)),
            Err(ErrorView::EmptyTopic) => Err(Error::EmptyTopic),
            Err(ErrorView::PayloadTooLong) => Err(Error::PayloadTooLong),
            Err(_) => Err(Error::InvalidTopic),
        }
    }
}

/// A topic filter: what a subscription asks for.
#[derive(Debug, PartialEq, Eq, Hash)]
pub struct TopicFilter {
    inner: String,
    shared_filter_at: Option<usize>,
}

impl Clone for TopicFilter {
    fn clone(&self) -> (res: TopicFilter)
        ensures
            res@ == self@,
            res.spec_shared_filter_at() == self.spec_shared_filter_at(),
    {
        proof {
            use_type_invariant(self);
        }
        TopicFilter { inner: self.inner.clone(), shared_filter_at: self.shared_filter_at }
    }
}

impl View for TopicFilter {
    type V = Seq<char>;

    closed spec fn view(&self) -> Seq<char> {
        self.inner@
    }
}

/// The group of a shared subscription ends at one place only.
pub proof fn lemma_group_end_unique(b: Seq<u8>, i: int, j: int)
    requires
        shared_group_ends_at(b, i),
        shared_group_ends_at(b, j),
    ensures
        i == j,
{
    if i < j {
        assert(b[i] != LEVEL_SEP);
    } else if j < i {
        assert(b[j] != LEVEL_SEP);
    }
}

/// Where the filter of the shared subscription `b` begins, if `b` is one.
pub open spec fn spec_shared_filter_start(b: Seq<u8>) -> Option<usize> {
    if has_shared_prefix(b) && exists|j: int| shared_group_ends_at(b, j) {
        Some(((choose|j: int| shared_group_ends_at(b, j)) + 1) as usize)
    } else {
        None
    }
}

impl TopicFilter {
    /// The topic filter with the given text.
    pub closed spec fn spec_new(s: String) -> TopicFilter {
        TopicFilter { inner: s, shared_filter_at: spec_shared_filter_start(encode_utf8(s@)) }
    }

    /// The topic filter with a given text has that text, and knows where
    /// the filter of a shared subscription begins.
    pub proof fn lemma_spec_new(s: String)
        ensures
            Self::spec_new(s)@ == s@,
            Self::spec_new(s).spec_shared_filter_at() == spec_shared_filter_start(
                encode_utf8(s@),
            ),
    {
    }

    /// The filter obeys the grammar of topic filters.
    pub open spec fn wf(&self) -> bool {
        topic_filter_check(encode_utf8(self@)) is Ok
    }

    #[verifier::type_invariant]
    spec fn inv(self) -> bool {
        &&& topic_filter_check(encode_utf8(self.inner@)) is Ok
        &&& self.shared_filter_at == spec_shared_filter_start(encode_utf8(self.inner@))
    }

    /// Where the filter of a shared subscription begins, as recorded at
    /// construction.
    pub closed spec fn spec_shared_filter_at(&self) -> Option<usize> {
        self.shared_filter_at
    }

    /// The topic filter with text `s`, or the error of the grammar's first
    /// broken rule.
    pub fn from_string(s: String) -> (res: Result<TopicFilter, Error>)
        ensures
            agrees(res, spec_topic_filter(s@)),
            res matches Ok(t) ==> t.wf() && t == Self::spec_new(s) && (
            t.spec_shared_filter_at() is Some == has_shared_prefix(encode_utf8(s@))) && (
            t.spec_shared_filter_at() matches Some(j) ==> shared_group_ends_at(
                encode_utf8(s@),
                j - 1,
            )),
    {
        let at = {
            let b = s.as_str().as_bytes();
            check_topic_filter(b)?;
            if starts_shared(b) {
                let at = scan_shared(b);
                proof {
                    let j = choose|j: int| shared_group_ends_at(b@, j);
                    lemma_group_end_unique(b@, j, at->Some_0 - 1);
                }
                at
            } else {
                None
            }
        };
        Ok(TopicFilter { inner: s, shared_filter_at: at })
    }

    /// The filter's text. Every topic filter obeys the grammar: there is no
    /// other way to make one.
    pub fn as_str(&self) -> (s: &str)
        ensures
            s@ == self@,
            self.wf(),
    {
        proof {
            use_type_invariant(self);
        }
        self.inner.as_str()
    }

    /// The filter's UTF-8 bytes.
    pub fn as_bytes(&self) -> (b: &[u8])
        ensures
            b@ == encode_utf8(self@),
    {
        self.inner.as_str().as_bytes()
    }

    /// The number of the filter's UTF-8 bytes.
    pub fn len(&self) -> (n: usize)
        ensures
            n == encode_utf8(self@).len(),
            0 < n <= 65535,
    {
        proof {
            use_type_invariant(self);
        }
        self.inner.as_str().as_bytes().len()
    }

    /// Whether the filter is a shared subscription: whether its text
    /// begins with `$share/`.
    pub fn is_shared(&self) -> (b: bool)
        ensures
            b == (self.spec_shared_filter_at() is Some),
            b == has_shared_prefix(encode_utf8(self@)),
    {
        proof {
            use_type_invariant(self);
        }
        self.shared_filter_at.is_some()
    }

    /// The byte offset at which the filter of a shared subscription begins,
    /// behind `$share/{group}/`. The text of the filter alone decides it.
    pub fn shared_filter_at(&self) -> (at: Option<usize>)
        ensures
            at == self.spec_shared_filter_at(),
            at == spec_shared_filter_start(encode_utf8(self@)),
            at matches Some(j) ==> shared_group_ends_at(encode_utf8(self@), j - 1),
    {
        proof {
            use_type_invariant(self);
            if has_shared_prefix(encode_utf8(self@)) {
                let j = choose|j: int| shared_group_ends_at(encode_utf8(self@), j);
                assert(shared_group_ends_at(encode_utf8(self@), j));
            }
        }
        self.shared_filter_at
    }
}

impl TryFrom<String> for TopicFilter {
    type Error = Error;

    fn try_from(s: String) -> (res: Result<TopicFilter, Error>) {
        TopicFilter::from_string(s)
    }
}

impl TryFromSpecImpl<String> for TopicFilter {
    open spec fn obeys_try_from_spec() -> bool {
        true
    }

    open spec fn try_from_spec(s: String) -> Result<TopicFilter, Error> {
        match topic_filter_check(encode_utf8(s@)) {
            Ok(_) => Ok(TopicFilter::spec_new(s)),
            Err(ErrorView::EmptyTopic) => Err(Error::EmptyTopic),
            Err(ErrorView::PayloadTooLong) => Err(Error::PayloadTooLong),
            Err(_) => Err(Error::InvalidTopic),
        }
    }
}

/// An ASCII character of a text stands among the bytes of the text as
/// itself.
pub proof fn lemma_ascii_char_in_bytes(chars: Seq<char>, i: int)
    requires
        0 <= i < chars.len(),
        chars[i] as u32 <= 0x7F,
    ensures
        exists|j: int|
            0 <= j < encode_utf8(chars).len() && #[trigger] encode_utf8(chars)[j] == (
            chars[i] as u32) as u8,
    decreases i,
{
    let first = vstd::utf8::encode_scalar(chars[0] as u32);
    let rest = encode_utf8(chars.drop_first());
    assert(encode_utf8(chars) == first + rest);
    if i == 0 {
        let c = chars[0] as u32;
        assert((c & 0x7F) as u8 == c as u8) by (bit_vector)
            requires
                c <= 0x7F,
        ;
        assert(vstd::utf8::has_width_1_encoding(c));
        assert(first =~= seq![vstd::utf8::leading_byte_width_1(c)]);
        assert(first[0] == (c & 0x7F) as u8);
        assert(encode_utf8(chars)[0] == first[0]);
    } else {
        assert(chars.drop_first()[i - 1] == chars[i]);
        lemma_ascii_char_in_bytes(chars.drop_first(), i - 1);
        let j = choose|j: int|
            0 <= j < rest.len() && #[trigger] rest[j] == (chars[i] as u32) as u8;
        assert(encode_utf8(chars)[first.len() + j] == rest[j]);
    }
}

/// A text that holds `+` or `#` is no topic name.
pub proof fn lemma_topic_name_rejects_wildcards(chars: Seq<char>, i: int)
    requires
        0 <= i < chars.len(),
        chars[i] == '+' || chars[i] == '#',
    ensures
        spec_topic_name(chars) is Err,
{
    lemma_ascii_char_in_bytes(chars, i);
    let b = encode_utf8(chars);
    let j = choose|j: int| 0 <= j < b.len() && #[trigger] b[j] == (chars[i] as u32) as u8;
    assert('+' as u32 == 43 && '#' as u32 == 35);
    assert(b[j] == MATCH_ONE || b[j] == MATCH_ALL);
    assert(!no_wildcard(b));
}

} // verus!
