//! Vendor trace state: an ordered list of key-value pairs with unique keys,
//! edited through a builder that puts the latest key first.

use crate::error::{CapacityError, ValidationError};
use crate::internal::{byte_count, byte_len, is_printable, lemma_printable_byte_len};
use vstd::prelude::*;
use vstd::string::*;
use vstd::utf8::*;

verus! {

/// The longest key, in bytes.
pub const MAX_KEY_LEN: usize = 255;

/// The longest value, in bytes.
pub const MAX_VAL_LEN: usize = 255;

/// The largest number of entries in a trace state.
pub const MAX_KEY_VALUE_PAIRS: usize = 32;

/// A character that may open a key: a lowercase letter.
pub open spec fn is_key_start(c: char) -> bool {
    'a' <= c <= 'z'
}

/// A character that may stand in a key: a lowercase letter, a digit, or one
/// of `_`, `-`, `*`, `/`.
pub open spec fn is_key_char(c: char) -> bool {
    ('a' <= c <= 'z') || ('0' <= c <= '9') || c == '_' || c == '-' || c == '*' || c == '/'
}

/// A character that may stand in a value: printable ASCII other than `,`
/// and `=`.
pub open spec fn is_value_char(c: char) -> bool {
    is_printable(c) && c != ',' && c != '='
}

/// Every character may stand in a key.
pub open spec fn all_key_chars(key: Seq<char>) -> bool {
    forall|i: int| 0 <= i < key.len() ==> is_key_char(#[trigger] key[i])
}

/// Every character may stand in a value.
pub open spec fn all_value_chars(value: Seq<char>) -> bool {
    forall|i: int| 0 <= i < value.len() ==> is_value_char(#[trigger] value[i])
}

/// What is wrong with `key`, if anything: its length is judged first, then
/// its first character, then the rest.
pub open spec fn key_fault(key: Seq<char>) -> Option<ValidationError> {
    if byte_len(key) > MAX_KEY_LEN {
        Some(ValidationError::TooLong)
    } else if key.len() == 0 {
        Some(ValidationError::Empty)
    } else if !is_key_start(key[0]) {
        Some(ValidationError::InvalidFirstChar)
    } else if !all_key_chars(key) {
        Some(ValidationError::InvalidChar)
    } else {
        None
    }
}

/// What is wrong with `value`, if anything: its length is judged first.
pub open spec fn value_fault(value: Seq<char>) -> Option<ValidationError> {
    if byte_len(value) > MAX_VAL_LEN {
        Some(ValidationError::TooLong)
    } else if !all_value_chars(value) {
        Some(ValidationError::InvalidChar)
    } else {
        None
    }
}

/// The key grammar: one to 255 characters, the first a lowercase letter, all
/// of them key characters.
pub open spec fn valid_key(key: Seq<char>) -> bool {
    &&& 1 <= key.len() <= MAX_KEY_LEN
    &&& is_key_start(key[0])
    &&& all_key_chars(key)
}

/// The value grammar: at most 255 characters, all of them value characters.
pub open spec fn valid_value(value: Seq<char>) -> bool {
    &&& value.len() <= MAX_VAL_LEN
    &&& all_value_chars(value)
}

/// A key has no fault exactly when it matches the key grammar.
pub proof fn lemma_key_fault_none(key: Seq<char>)
    ensures
        key_fault(key) is None <==> valid_key(key),
{
    if all_key_chars(key) {
        assert forall|i: int| 0 <= i < key.len() implies is_printable(#[trigger] key[i]) by {
            assert(is_key_char(key[i]));
        }
        lemma_printable_byte_len(key);
    }
}

/// A value has no fault exactly when it matches the value grammar.
pub proof fn lemma_value_fault_none(value: Seq<char>)
    ensures
        value_fault(value) is None <==> valid_value(value),
{
    if all_value_chars(value) {
        assert forall|i: int| 0 <= i < value.len() implies is_printable(#[trigger] value[i]) by {
            assert(is_value_char(value[i]));
        }
        lemma_printable_byte_len(value);
    }
}

/// A key with a control character or a character beyond ASCII is rejected.
pub proof fn lemma_key_rejects_unprintable(key: Seq<char>, at: int)
    requires
        0 <= at < key.len(),
        key[at] < ' ' || key[at] > '~',
    ensures
        key_fault(key) is Some,
{
    assert(!is_key_char(key[at]));
}

/// A value with a control character or a character beyond ASCII is rejected.
pub proof fn lemma_value_rejects_unprintable(value: Seq<char>, at: int)
    requires
        0 <= at < value.len(),
        value[at] < ' ' || value[at] > '~',
    ensures
        value_fault(value) is Some,
{
    assert(!is_value_char(value[at]));
}

/// Whether the byte is a key character.
fn is_key_byte(b: u8) -> (r: bool)
    ensures
        r == is_key_char(b as char),
{
    (b >= 0x61 && b <= 0x7a) || (b >= 0x30 && b <= 0x39) || b == 0x5f || b == 0x2d || b == 0x2a
        || b == 0x2f
}

/// Whether the byte is a value character.
fn is_value_byte(b: u8) -> (r: bool)
    ensures
        r == is_value_char(b as char),
{
    b >= 0x20 && b <= 0x7e && b != 0x2c && b != 0x3d
}

/// Whether every character of `key` is a key character.
fn has_only_key_chars(key: &str) -> (r: bool)
    ensures
        r == all_key_chars(key@),
{
    if !key.is_ascii() {
        proof {
            let i = choose|i: int| 0 <= i < key@.len() && !('\0' <= #[trigger] key@[i] <= '\u{7f}');
            assert(!is_key_char(key@[i]));
        }
        return false;
    }
    proof {
        is_ascii_chars_encode_utf8(key@);
    }
    let n: usize = byte_count(key);
    let mut i: usize = 0;
    while i < n
        invariant
            i <= n,
            n == key@.len(),
            is_ascii(key),
            forall|j: int| 0 <= j < i ==> is_key_char(#[trigger] key@[j]),
        decreases n - i,
    {
        let b: u8 = key.get_ascii(i);
        proof {
            lemma_ascii_byte(key@[i as int], b);
        }
        if !is_key_byte(b) {
            return false;
        }
        i = i + 1;
    }
    true
}

/// Whether every character of `value` is a value character.
fn has_only_value_chars(value: &str) -> (r: bool)
    ensures
        r == all_value_chars(value@),
{
    if !value.is_ascii() {
        proof {
            let i = choose|i: int|
                0 <= i < value@.len() && !('\0' <= #[trigger] value@[i] <= '\u{7f}');
            assert(!is_value_char(value@[i]));
        }
        return false;
    }
    proof {
        is_ascii_chars_encode_utf8(value@);
    }
    let n: usize = byte_count(value);
    let mut i: usize = 0;
    while i < n
        invariant
            i <= n,
            n == value@.len(),
            is_ascii(value),
            forall|j: int| 0 <= j < i ==> is_value_char(#[trigger] value@[j]),
        decreases n - i,
    {
        let b: u8 = value.get_ascii(i);
        proof {
            lemma_ascii_byte(value@[i as int], b);
        }
        if !is_value_byte(b) {
            return false;
        }
        i = i + 1;
    }
    true
}

/// An ASCII character is the character of its byte.
proof fn lemma_ascii_byte(c: char, b: u8)
    requires
        c <= '\u{7f}',
        c as u8 == b,
    ensures
        b as char == c,
{
}

/// What is wrong with `key`, if anything.
pub fn check_key(key: &str) -> (r: Option<ValidationError>)
    ensures
        r == key_fault(key@),
{
    if byte_count(key) > MAX_KEY_LEN {
        return Some(ValidationError::TooLong);
    }
    if key.is_empty() {
        return Some(ValidationError::Empty);
    }
    let first: char = key.get_char(0);
    if !(first >= 'a' && first <= 'z') {
        return Some(ValidationError::InvalidFirstChar);
    }
    if !has_only_key_chars(key) {
        return Some(ValidationError::InvalidChar);
    }
    None
}

/// What is wrong with `value`, if anything.
pub fn check_value(value: &str) -> (r: Option<ValidationError>)
    ensures
        r == value_fault(value@),
{
    if byte_count(value) > MAX_VAL_LEN {
        return Some(ValidationError::TooLong);
    }
    if !has_only_value_chars(value) {
        return Some(ValidationError::InvalidChar);
    }
    None
}

/// Accepts a key that matches the key grammar and hands it back unchanged;
/// otherwise says what is wrong with it.
pub fn validate_key(key: String) -> (r: Result<String, ValidationError>)
    ensures
        match key_fault(key@) {
            Some(fault) => r == Err::<String, ValidationError>(fault),
            None => r == Ok::<String, ValidationError>(key),
        },
        valid_key(key@) ==> r == Ok::<String, ValidationError>(key),
        !valid_key(key@) ==> r is Err,
{
    proof {
        lemma_key_fault_none(key@);
    }
    match check_key(key.as_str()) {
        Some(fault) => Err(fault),
        None => Ok(key),
    }
}

/// Accepts a value that matches the value grammar and hands it back
/// unchanged; otherwise says what is wrong with it.
pub fn validate_value(value: String) -> (r: Result<String, ValidationError>)
    ensures
        match value_fault(value@) {
            Some(fault) => r == Err::<String, ValidationError>(fault),
            None => r == Ok::<String, ValidationError>(value),
        },
        valid_value(value@) ==> r == Ok::<String, ValidationError>(value),
        !valid_value(value@) ==> r is Err,
{
    proof {
        lemma_value_fault_none(value@);
    }
    match check_value(value.as_str()) {
        Some(fault) => Err(fault),
        None => Ok(value),
    }
}

/// A key with its value.
#[derive(PartialEq, Eq, PartialOrd, Ord, Hash, Debug)]
pub struct Entry {
    pub key: String,
    pub value: String,
}

impl View for Entry {
    type V = (Seq<char>, Seq<char>);

    open spec fn view(&self) -> (Seq<char>, Seq<char>) {
        (self.key@, self.value@)
    }
}

impl Clone for Entry {
    fn clone(&self) -> (r: Self)
        ensures
            r@ == self@,
    {
        Entry { key: self.key.clone(), value: self.value.clone() }
    }
}

/// The key-value pairs that a list of entries stands for.
pub open spec fn pairs_of(entries: Seq<Entry>) -> Seq<(Seq<char>, Seq<char>)> {
    entries.map_values(|e: Entry| e@)
}

/// No two pairs have the same key.
pub open spec fn unique_keys(pairs: Seq<(Seq<char>, Seq<char>)>) -> bool {
    forall|i: int, j: int| 0 <= i < j < pairs.len() ==> pairs[i].0 != pairs[j].0
}

/// Every key matches the key grammar and every value the value grammar.
pub open spec fn valid_pairs(pairs: Seq<(Seq<char>, Seq<char>)>) -> bool {
    forall|i: int|
        0 <= i < pairs.len() ==> valid_key((#[trigger] pairs[i]).0) && valid_value(pairs[i].1)
}

/// No pair has the key.
pub open spec fn lacks_key(pairs: Seq<(Seq<char>, Seq<char>)>, key: Seq<char>) -> bool {
    forall|i: int| 0 <= i < pairs.len() ==> (#[trigger] pairs[i]).0 != key
}

/// What a trace state may hold: at most 32 valid pairs with unique keys.
pub open spec fn well_formed(pairs: Seq<(Seq<char>, Seq<char>)>) -> bool {
    &&& pairs.len() <= MAX_KEY_VALUE_PAIRS
    &&& unique_keys(pairs)
    &&& valid_pairs(pairs)
}

/// The pairs without those that have the key, in their order.
pub open spec fn without_key(pairs: Seq<(Seq<char>, Seq<char>)>, key: Seq<char>) -> Seq<
    (Seq<char>, Seq<char>),
>
    decreases pairs.len(),
{
    if pairs.len() == 0 {
        Seq::empty()
    } else if pairs.last().0 == key {
        without_key(pairs.drop_last(), key)
    } else {
        without_key(pairs.drop_last(), key).push(pairs.last())
    }
}

/// The pairs after `key` is set to `value`: the new pair first, then the
/// others in their order.
pub open spec fn with_pair(
    pairs: Seq<(Seq<char>, Seq<char>)>,
    key: Seq<char>,
    value: Seq<char>,
) -> Seq<(Seq<char>, Seq<char>)> {
    seq![(key, value)] + without_key(pairs, key)
}

/// Removing a key leaves only pairs that were there, none of them with the
/// key, and no more than before.
pub proof fn lemma_without_key_members(pairs: Seq<(Seq<char>, Seq<char>)>, key: Seq<char>)
    ensures
        without_key(pairs, key).len() <= pairs.len(),
        lacks_key(without_key(pairs, key), key),
        forall|i: int|
            0 <= i < without_key(pairs, key).len() ==> pairs.contains(
                #[trigger] without_key(pairs, key)[i],
            ),
    decreases pairs.len(),
{
    if pairs.len() > 0 {
        let front = pairs.drop_last();
        lemma_without_key_members(front, key);
        let kept = without_key(pairs, key);
        assert forall|i: int| 0 <= i < kept.len() implies pairs.contains(#[trigger] kept[i]) by {
            if i < without_key(front, key).len() {
                let e = without_key(front, key)[i];
                assert(front.contains(e));
                let j = choose|j: int| 0 <= j < front.len() && front[j] == e;
                assert(pairs[j] == e);
            } else {
                assert(pairs[pairs.len() - 1] == kept[i]);
            }
        }
    }
}

/// Removing a key keeps every pair with another key.
pub proof fn lemma_without_key_keeps(pairs: Seq<(Seq<char>, Seq<char>)>, key: Seq<char>, at: int)
    requires
        0 <= at < pairs.len(),
        pairs[at].0 != key,
    ensures
        without_key(pairs, key).contains(pairs[at]),
    decreases pairs.len(),
{
    let front = pairs.drop_last();
    let kept = without_key(pairs, key);
    if at == pairs.len() - 1 {
        assert(kept[kept.len() - 1] == pairs[at]);
    } else {
        lemma_without_key_keeps(front, key, at);
        let j = choose|j: int|
            0 <= j < without_key(front, key).len() && without_key(front, key)[j] == front[at];
        assert(kept[j] == pairs[at]);
    }
}

/// Removing a key from pairs that lack it changes nothing.
pub proof fn lemma_without_key_absent(pairs: Seq<(Seq<char>, Seq<char>)>, key: Seq<char>)
    requires
        lacks_key(pairs, key),
    ensures
        without_key(pairs, key) == pairs,
    decreases pairs.len(),
{
    if pairs.len() > 0 {
        let front = pairs.drop_last();
        assert(lacks_key(front, key)) by {
            assert forall|i: int| 0 <= i < front.len() implies (#[trigger] front[i]).0 != key by {
                assert(pairs[i].0 != key);
            }
        }
        lemma_without_key_absent(front, key);
        assert(pairs.last() == pairs[pairs.len() - 1]);
        assert(without_key(pairs, key) =~= pairs);
    } else {
        assert(without_key(pairs, key) =~= pairs);
    }
}

/// Removing a key keeps keys unique and pairs valid.
pub proof fn lemma_without_key_preserves(pairs: Seq<(Seq<char>, Seq<char>)>, key: Seq<char>)
    requires
        unique_keys(pairs),
        valid_pairs(pairs),
    ensures
        unique_keys(without_key(pairs, key)),
        valid_pairs(without_key(pairs, key)),
    decreases pairs.len(),
{
    if pairs.len() > 0 {
        let front = pairs.drop_last();
        let last = pairs.last();
        assert(unique_keys(front) && valid_pairs(front)) by {
            assert forall|i: int, j: int| 0 <= i < j < front.len() implies front[i].0
                != front[j].0 by {
                assert(pairs[i].0 != pairs[j].0);
            }
            assert forall|i: int| 0 <= i < front.len() implies valid_key((#[trigger] front[i]).0)
                && valid_value(front[i].1) by {
                assert(valid_key(pairs[i].0));
            }
        }
        lemma_without_key_preserves(front, key);
        lemma_without_key_members(front, key);
        let kept_front = without_key(front, key);
        let kept = without_key(pairs, key);
        if last.0 != key {
            assert(valid_key(pairs[pairs.len() - 1].0));
            assert forall|i: int, j: int| 0 <= i < j < kept.len() implies kept[i].0
                != kept[j].0 by {
                if j == kept.len() - 1 {
                    assert(front.contains(kept_front[i]));
                    let k = choose|k: int| 0 <= k < front.len() && front[k] == kept_front[i];
                    assert(pairs[k].0 != pairs[pairs.len() - 1].0);
                } else {
                    assert(kept_front[i].0 != kept_front[j].0);
                }
            }
            assert forall|i: int| 0 <= i < kept.len() implies valid_key((#[trigger] kept[i]).0)
                && valid_value(kept[i].1) by {
                if i < kept_front.len() {
                    assert(valid_key(kept_front[i].0));
                }
            }
        }
    }
}

/// Setting a valid pair keeps keys unique and pairs valid, puts the new pair
/// first, and adds at most one pair.
pub proof fn lemma_with_pair_preserves(
    pairs: Seq<(Seq<char>, Seq<char>)>,
    key: Seq<char>,
    value: Seq<char>,
)
    requires
        unique_keys(pairs),
        valid_pairs(pairs),
        valid_key(key),
        valid_value(value),
    ensures
        unique_keys(with_pair(pairs, key, value)),
        valid_pairs(with_pair(pairs, key, value)),
        with_pair(pairs, key, value)[0] == (key, value),
        with_pair(pairs, key, value).len() <= pairs.len() + 1,
{
    lemma_without_key_preserves(pairs, key);
    lemma_without_key_members(pairs, key);
    let kept = without_key(pairs, key);
    let set = with_pair(pairs, key, value);
    assert forall|i: int, j: int| 0 <= i < j < set.len() implies set[i].0 != set[j].0 by {
        if i == 0 {
            assert(kept[j - 1].0 != key);
        } else {
            assert(kept[i - 1].0 != kept[j - 1].0);
        }
    }
    assert forall|i: int| 0 <= i < set.len() implies valid_key((#[trigger] set[i]).0)
        && valid_value(set[i].1) by {
        if i > 0 {
            assert(valid_key(kept[i - 1].0));
        }
    }
}

/// Copies the entries whose key is not `key`, in their order.
fn entries_without(entries: &Vec<Entry>, key: &String) -> (kept: Vec<Entry>)
    ensures
        pairs_of(kept@) == without_key(pairs_of(entries@), key@),
{
    let mut kept: Vec<Entry> = Vec::new();
    let mut i: usize = 0;
    while i < entries.len()
        invariant
            i <= entries.len(),
            pairs_of(kept@) == without_key(pairs_of(entries@.subrange(0, i as int)), key@),
        decreases entries.len() - i,
    {
        let ghost before = pairs_of(entries@.subrange(0, i as int));
        let ghost after = pairs_of(entries@.subrange(0, i + 1));
        let ghost kept_before = pairs_of(kept@);
        proof {
            assert(after.drop_last() =~= before);
            assert(after.last() == entries@[i as int]@);
        }
        if entries[i].key != *key {
            let copy = entries[i].clone();
            kept.push(copy);
            proof {
                assert(pairs_of(kept@) =~= kept_before.push(entries@[i as int]@));
            }
        }
        i = i + 1;
    }
    proof {
        assert(entries@.subrange(0, i as int) =~= entries@);
    }
    kept
}

/// Copies all the entries.
fn entries_copy(entries: &Vec<Entry>) -> (copy: Vec<Entry>)
    ensures
        pairs_of(copy@) == pairs_of(entries@),
{
    let mut copy: Vec<Entry> = Vec::new();
    let mut i: usize = 0;
    while i < entries.len()
        invariant
            i <= entries.len(),
            pairs_of(copy@) == pairs_of(entries@.subrange(0, i as int)),
        decreases entries.len() - i,
    {
        let ghost before = pairs_of(copy@);
        let one = entries[i].clone();
        copy.push(one);
        proof {
            assert(pairs_of(copy@) =~= before.push(entries@[i as int]@));
            assert(pairs_of(entries@.subrange(0, i + 1)) =~= before.push(entries@[i as int]@));
        }
        i = i + 1;
    }
    proof {
        assert(entries@.subrange(0, i as int) =~= entries@);
    }
    copy
}

/// Vendor-specific context carried with a trace: at most 32 key-value pairs
/// with unique keys, the most recently set first. A trace state is made by a
/// `TraceStateBuilder` and not changed afterwards.
#[derive(PartialEq, Eq, PartialOrd, Ord, Hash, Debug)]
pub struct TraceState {
    entries: Vec<Entry>,
}

impl View for TraceState {
    type V = Seq<(Seq<char>, Seq<char>)>;

    closed spec fn view(&self) -> Seq<(Seq<char>, Seq<char>)> {
        pairs_of(self.entries@)
    }
}

impl Default for TraceState {
    fn default() -> (r: Self)
        ensures
            r@ == Seq::<(Seq<char>, Seq<char>)>::empty(),
    {
        let entries: Vec<Entry> = Vec::new();
        proof {
            assert(pairs_of(entries@) =~= Seq::empty());
        }
        TraceState { entries }
    }
}

impl Clone for TraceState {
    fn clone(&self) -> (r: Self)
        ensures
            r@ == self@,
    {
        proof {
            use_type_invariant(self);
        }
        TraceState { entries: entries_copy(&self.entries) }
    }
}

impl TraceState {
    #[verifier::type_invariant]
    spec fn inv(&self) -> bool {
        well_formed(pairs_of(self.entries@))
    }

    /// Makes a trace state of entries that are few enough.
    fn new(entries: Vec<Entry>) -> (r: Self)
        requires
            well_formed(pairs_of(entries@)),
        ensures
            r@ == pairs_of(entries@),
    {
        TraceState { entries }
    }

    /// The entries, the most recently set first.
    pub fn entries(&self) -> (r: &Vec<Entry>)
        ensures
            pairs_of(r@) == self@,
            well_formed(self@),
    {
        proof {
            use_type_invariant(self);
        }
        &self.entries
    }

    /// The entry with the given key, if there is one.
    pub fn get(&self, key: &str) -> (r: Option<&Entry>)
        ensures
            well_formed(self@),
            match r {
                Some(entry) => exists|i: int|
                    0 <= i < self@.len() && self@[i] == entry@ && entry@.0 == key@,
                None => lacks_key(self@, key@),
            },
    {
        proof {
            use_type_invariant(self);
        }
        let wanted: String = key.to_owned();
        let mut i: usize = 0;
        while i < self.entries.len()
            invariant
                i <= self.entries.len(),
                wanted@ == key@,
                well_formed(self@),
                forall|j: int| 0 <= j < i ==> (#[trigger] self@[j]).0 != key@,
            decreases self.entries.len() - i,
        {
            if self.entries[i].key == wanted {
                assert(self@[i as int] == self.entries[i as int]@);
                return Some(&self.entries[i]);
            }
            i = i + 1;
        }
        None
    }

    /// A builder that starts from this trace state. The builder keeps the
    /// state as its parent and has no edit list yet: nothing is copied
    /// before the first change.
    pub fn as_builder<'a>(&'a self) -> (r: TraceStateBuilder<'a>)
        ensures
            r@ == self@,
            r.spec_parent() == Some(self@),
            r.spec_edits() is None,
    {
        TraceStateBuilder { parent: Some(self), entries: None }
    }
}

/// Edits a trace state. A builder starts from a parent trace state, or from
/// nothing, and copies the parent's entries when the first change is made.
/// Its view is the pairs that `build` would give: those of the edit list
/// once there is one, else those of the parent, else none.
#[derive(PartialEq, Eq, PartialOrd, Ord, Hash, Debug)]
pub struct TraceStateBuilder<'a> {
    parent: Option<&'a TraceState>,
    entries: Option<Vec<Entry>>,
}

impl<'a> View for TraceStateBuilder<'a> {
    type V = Seq<(Seq<char>, Seq<char>)>;

    open spec fn view(&self) -> Seq<(Seq<char>, Seq<char>)> {
        match self.spec_edits() {
            Some(edits) => edits,
            None => match self.spec_parent() {
                Some(parent) => parent,
                None => Seq::empty(),
            },
        }
    }
}

impl<'a> Default for TraceStateBuilder<'a> {
    fn default() -> (r: Self)
        ensures
            r.spec_parent() is None,
            r.spec_edits() is None,
    {
        TraceStateBuilder { parent: None, entries: None }
    }
}

impl<'a> Clone for TraceStateBuilder<'a> {
    fn clone(&self) -> (r: Self)
        ensures
            r.spec_parent() == self.spec_parent(),
            r.spec_edits() == self.spec_edits(),
    {
        proof {
            use_type_invariant(self);
        }
        let entries = match &self.entries {
            Some(entries) => Some(entries_copy(entries)),
            None => None,
        };
        TraceStateBuilder { parent: self.parent, entries }
    }
}

impl<'a> TraceStateBuilder<'a> {
    #[verifier::type_invariant]
    spec fn inv(&self) -> bool {
        match self.entries {
            Some(entries) => unique_keys(pairs_of(entries@)) && valid_pairs(pairs_of(entries@)),
            None => true,
        }
    }

    /// The pairs of the trace state that the builder started from, if it
    /// started from one.
    pub closed spec fn spec_parent(&self) -> Option<Seq<(Seq<char>, Seq<char>)>> {
        match self.parent {
            Some(parent) => Some(parent@),
            None => None,
        }
    }

    /// The pairs of the builder's own edit list, once a change has been
    /// made; `None` before the first change.
    pub closed spec fn spec_edits(&self) -> Option<Seq<(Seq<char>, Seq<char>)>> {
        match self.entries {
            Some(entries) => Some(pairs_of(entries@)),
            None => None,
        }
    }

    /// The pairs without `key`, copied from the edit list or, before the
    /// first change, from the parent.
    fn copy_without(&self, key: &String) -> (kept: Vec<Entry>)
        ensures
            pairs_of(kept@) == without_key(self@, key@),
            unique_keys(self@),
            valid_pairs(self@),
    {
        proof {
            use_type_invariant(self);
        }
        match &self.entries {
            Some(entries) => entries_without(entries, key),
            None => match self.parent {
                Some(parent) => {
                    proof {
                        use_type_invariant(parent);
                    }
                    entries_without(&parent.entries, key)
                },
                None => {
                    let kept: Vec<Entry> = Vec::new();
                    proof {
                        assert(pairs_of(kept@) =~= without_key(self@, key@));
                    }
                    kept
                },
            },
        }
    }

    /// Sets `key` to `value`: an entry with that key is dropped, and the new
    /// entry goes to the front. A key or a value outside its grammar is
    /// refused, the key's fault first. The result is held in the builder's
    /// own edit list; the parent stays as it is.
    pub fn set(self, key: &str, value: &str) -> (r: Result<Self, ValidationError>)
        ensures
            match (key_fault(key@), value_fault(value@)) {
                (Some(fault), _) => r == Err::<Self, ValidationError>(fault),
                (None, Some(fault)) => r == Err::<Self, ValidationError>(fault),
                (None, None) => {
                    &&& r is Ok
                    &&& r->Ok_0.spec_parent() == self.spec_parent()
                    &&& r->Ok_0.spec_edits() == Some(with_pair(self@, key@, value@))
                    &&& r->Ok_0@ == with_pair(self@, key@, value@)
                    &&& r->Ok_0@[0] == (key@, value@)
                },
            },
    {
        if let Some(fault) = check_key(key) {
            return Err(fault);
        }
        if let Some(fault) = check_value(value) {
            return Err(fault);
        }
        let key: String = key.to_owned();
        let value: String = value.to_owned();
        let mut entries = self.copy_without(&key);
        proof {
            lemma_key_fault_none(key@);
            lemma_value_fault_none(value@);
            lemma_with_pair_preserves(self@, key@, value@);
        }
        entries.insert(0, Entry { key, value });
        proof {
            assert(pairs_of(entries@) =~= with_pair(self@, key@, value@));
        }
        Ok(TraceStateBuilder { parent: self.parent, entries: Some(entries) })
    }

    /// Removes the entry with the given key, if there is one. A key outside
    /// the key grammar is refused. The result is held in the builder's own
    /// edit list; the parent stays as it is.
    pub fn remove(self, key: &str) -> (r: Result<Self, ValidationError>)
        ensures
            match key_fault(key@) {
                Some(fault) => r == Err::<Self, ValidationError>(fault),
                None => {
                    &&& r is Ok
                    &&& r->Ok_0.spec_parent() == self.spec_parent()
                    &&& r->Ok_0.spec_edits() == Some(without_key(self@, key@))
                    &&& r->Ok_0@ == without_key(self@, key@)
                },
            },
    {
        if let Some(fault) = check_key(key) {
            return Err(fault);
        }
        let key: String = key.to_owned();
        let entries = self.copy_without(&key);
        proof {
            lemma_without_key_preserves(self@, key@);
        }
        Ok(TraceStateBuilder { parent: self.parent, entries: Some(entries) })
    }

    /// A builder that starts from the empty trace state: it has no parent
    /// and no edit list.
    pub fn builder() -> (r: Self)
        ensures
            r@ == Seq::<(Seq<char>, Seq<char>)>::empty(),
            r.spec_parent() is None,
            r.spec_edits() is None,
    {
        TraceStateBuilder::default()
    }

    /// Makes the trace state. More than 32 entries are refused.
    pub fn build(self) -> (r: Result<TraceState, CapacityError>)
        ensures
            unique_keys(self@),
            valid_pairs(self@),
            match r {
                Ok(state) => self@.len() <= MAX_KEY_VALUE_PAIRS && state@ == self@ && well_formed(
                    state@,
                ),
                Err(fault) => self@.len() > MAX_KEY_VALUE_PAIRS && fault.entries == self@.len(),
            },
    {
        proof {
            use_type_invariant(&self);
        }
        match self.entries {
            None => match self.parent {
                Some(parent) => {
                    proof {
                        use_type_invariant(parent);
                    }
                    Ok(parent.clone())
                },
                None => Ok(TraceState::default()),
            },
            Some(entries) => {
                if entries.len() > MAX_KEY_VALUE_PAIRS {
                    Err(CapacityError { entries: entries.len() })
                } else {
                    Ok(TraceState::new(entries))
                }
            },
        }
    }
}

} // verus!
