//! Resources: the labels of the entity that telemetry is recorded for, such
//! as a host, a process or a container.

use crate::assoc::{
    distinct_keys, lemma_map_of_keys, lemma_map_of_update, lemma_map_of_value, map_of,
};
use crate::error::ValidationError;
use crate::internal::{
    all_printable, byte_count, byte_len, check_text, is_all_printable, is_printable, text_fault,
};
use vstd::prelude::*;

verus! {

/// The longest label key or label value, in bytes.
pub const MAX_LABEL_LEN: usize = 255;

/// What is wrong with a label key, if anything: it is printable ASCII of one
/// to 255 bytes. Length is judged first.
pub open spec fn label_key_fault(key: Seq<char>) -> Option<ValidationError> {
    if byte_len(key) > MAX_LABEL_LEN {
        Some(ValidationError::TooLong)
    } else if key.len() == 0 {
        Some(ValidationError::Empty)
    } else if !all_printable(key) {
        Some(ValidationError::InvalidChar)
    } else {
        None
    }
}

/// What is wrong with a label value, if anything: it is printable ASCII of
/// at most 255 bytes, and may be empty, which stands for "not known yet".
pub open spec fn label_value_fault(value: Seq<char>) -> Option<ValidationError> {
    text_fault(value, MAX_LABEL_LEN as nat)
}

/// What is wrong with a label, if anything: the key is judged first.
pub open spec fn label_fault(label: (Seq<char>, Seq<char>)) -> Option<ValidationError> {
    match label_key_fault(label.0) {
        Some(fault) => Some(fault),
        None => label_value_fault(label.1),
    }
}

/// The fault of the first label that has one.
pub open spec fn labels_fault(labels: Seq<(Seq<char>, Seq<char>)>) -> Option<ValidationError>
    decreases labels.len(),
{
    if labels.len() == 0 {
        None
    } else {
        match labels_fault(labels.drop_last()) {
            Some(fault) => Some(fault),
            None => label_fault(labels.last()),
        }
    }
}

/// The keys and values that a list of labels stands for.
pub open spec fn label_pairs(labels: Seq<(String, String)>) -> Seq<(Seq<char>, Seq<char>)> {
    labels.map_values(|label: (String, String)| (label.0@, label.1@))
}

/// No label has a fault.
pub open spec fn valid_labels(labels: Seq<(Seq<char>, Seq<char>)>) -> bool {
    forall|i: int| 0 <= i < labels.len() ==> label_fault(#[trigger] labels[i]) is None
}

/// Every key and value of the mapping is without fault.
pub open spec fn valid_map(labels: Map<Seq<char>, Seq<char>>) -> bool {
    forall|key: Seq<char>| #[trigger]
        labels.contains_key(key) ==> label_fault((key, labels[key])) is None
}

/// The labels of `mine` merged with those of `theirs`. A label of `theirs`
/// comes in where `mine` has no such key or has the empty value for it;
/// every other label of `mine` stays as it is.
pub open spec fn merged(mine: Map<Seq<char>, Seq<char>>, theirs: Map<Seq<char>, Seq<char>>) -> Map<
    Seq<char>,
    Seq<char>,
> {
    Map::new(
        |key: Seq<char>| mine.contains_key(key) || theirs.contains_key(key),
        |key: Seq<char>|
            if theirs.contains_key(key) && (!mine.contains_key(key) || mine[key].len() == 0) {
                theirs[key]
            } else {
                mine[key]
            },
    )
}

/// Valid labels with distinct keys stand for a valid mapping.
pub proof fn lemma_map_of_valid(labels: Seq<(Seq<char>, Seq<char>)>)
    requires
        distinct_keys(labels),
        valid_labels(labels),
    ensures
        valid_map(map_of(labels)),
{
    assert forall|key: Seq<char>| #[trigger]
        map_of(labels).contains_key(key) implies label_fault((key, map_of(labels)[key]))
        is None by {
        lemma_map_of_keys(labels, key);
        let i = choose|i: int| 0 <= i < labels.len() && (#[trigger] labels[i]).0 == key;
        lemma_map_of_value(labels, i);
        assert(label_fault(labels[i]) is None);
    }
}

/// Merging in one more label of `theirs` is one step on what was merged so
/// far: the label comes in where the key is new or its value is empty.
pub proof fn lemma_merged_step(
    mine: Map<Seq<char>, Seq<char>>,
    theirs: Map<Seq<char>, Seq<char>>,
    key: Seq<char>,
    value: Seq<char>,
)
    requires
        !theirs.contains_key(key),
    ensures
        merged(mine, theirs.insert(key, value)) == if !merged(mine, theirs).contains_key(key)
            || merged(mine, theirs)[key].len() == 0 {
            merged(mine, theirs).insert(key, value)
        } else {
            merged(mine, theirs)
        },
{
    let so_far = merged(mine, theirs);
    let next = merged(mine, theirs.insert(key, value));
    if !so_far.contains_key(key) || so_far[key].len() == 0 {
        assert(next =~= so_far.insert(key, value));
    } else {
        assert(next =~= so_far);
    }
}

/// Merging with no labels changes nothing, whichever side has none; the
/// keys of a merge are those of both sides; and no label that is set is
/// changed by a merge.
pub proof fn lemma_merged_facts(mine: Map<Seq<char>, Seq<char>>, theirs: Map<Seq<char>, Seq<char>>)
    ensures
        merged(mine, Map::empty()) == mine,
        merged(Map::empty(), theirs) == theirs,
        merged(mine, mine) == mine,
        merged(mine, theirs).dom() == mine.dom().union(theirs.dom()),
        forall|key: Seq<char>|
            mine.contains_key(key) && mine[key].len() > 0 ==> #[trigger] merged(mine, theirs)[key]
                == mine[key],
{
    assert(merged(mine, Map::empty()) =~= mine);
    assert(merged(Map::empty(), theirs) =~= theirs);
    assert(merged(mine, mine) =~= mine);
    assert(merged(mine, theirs).dom() =~= mine.dom().union(theirs.dom()));
}

/// A label key or value with a control character or a character beyond
/// ASCII is rejected.
pub proof fn lemma_label_rejects_unprintable(text: Seq<char>, at: int)
    requires
        0 <= at < text.len(),
        text[at] < ' ' || text[at] > '~',
    ensures
        label_key_fault(text) is Some,
        label_value_fault(text) is Some,
{
    assert(!is_printable(text[at]));
}

/// What is wrong with a label key, if anything.
pub fn check_label_key(key: &str) -> (r: Option<ValidationError>)
    ensures
        r == label_key_fault(key@),
{
    if byte_count(key) > MAX_LABEL_LEN {
        Some(ValidationError::TooLong)
    } else if key.is_empty() {
        Some(ValidationError::Empty)
    } else if !is_all_printable(key) {
        Some(ValidationError::InvalidChar)
    } else {
        None
    }
}

/// What is wrong with a label value, if anything.
pub fn check_label_value(value: &str) -> (r: Option<ValidationError>)
    ensures
        r == label_value_fault(value@),
{
    check_text(value, MAX_LABEL_LEN)
}

/// The place of the label with the given key, if there is one.
fn find_label(labels: &Vec<(String, String)>, key: &String) -> (r: Option<usize>)
    ensures
        match r {
            Some(at) => at < labels.len() && label_pairs(labels@)[at as int].0 == key@,
            None => forall|i: int|
                0 <= i < labels.len() ==> (#[trigger] label_pairs(labels@)[i]).0 != key@,
        },
{
    let mut i: usize = 0;
    while i < labels.len()
        invariant
            i <= labels.len(),
            forall|j: int| 0 <= j < i ==> (#[trigger] label_pairs(labels@)[j]).0 != key@,
        decreases labels.len() - i,
    {
        if labels[i].0 == *key {
            return Some(i);
        }
        i = i + 1;
    }
    None
}

/// Puts one label into the list: a label with a new key is added; the value
/// of a key that is there is replaced, under `only_empty` only where that
/// value is empty.
fn put_label(labels: &mut Vec<(String, String)>, key: String, value: String, only_empty: bool)
    requires
        distinct_keys(label_pairs(old(labels)@)),
    ensures
        distinct_keys(label_pairs(final(labels)@)),
        map_of(label_pairs(final(labels)@)) == {
            let before = map_of(label_pairs(old(labels)@));
            if !before.contains_key(key@) || !only_empty || before[key@].len() == 0 {
                before.insert(key@, value@)
            } else {
                before
            }
        },
        forall|i: int|
            0 <= i < final(labels)@.len() ==> {
                ||| (i < old(labels)@.len() && (#[trigger] label_pairs(final(labels)@)[i])
                    == label_pairs(old(labels)@)[i])
                ||| label_pairs(final(labels)@)[i] == (key@, value@)
            },
{
    let ghost before = label_pairs(labels@);
    proof {
        lemma_map_of_keys(before, key@);
    }
    match find_label(labels, &key) {
        None => {
            labels.push((key, value));
            proof {
                let after = label_pairs(labels@);
                assert(after =~= before.push((key@, value@)));
                assert(after.drop_last() =~= before);
                assert forall|i: int, j: int| 0 <= i < j < after.len() implies after[i].0
                    != after[j].0 by {
                    if j < before.len() {
                        assert(before[i].0 != before[j].0);
                    } else {
                        assert(before[i].0 != key@);
                    }
                }
            }
        },
        Some(at) => {
            proof {
                lemma_map_of_value(before, at as int);
            }
            if !only_empty || labels[at].1.as_str().is_empty() {
                labels.set(at, (key, value));
                proof {
                    let after = label_pairs(labels@);
                    assert(after =~= before.update(at as int, (before[at as int].0, value@)));
                    lemma_map_of_update(before, at as int, value@);
                }
            }
        },
    }
}

/// The labels that describe the entity for which telemetry is recorded: a
/// mapping from keys to values, all of them validated. The labels are held
/// as a list in which each key occurs once; the view is the mapping that
/// the list stands for.
#[derive(Debug)]
pub struct Resource {
    labels: Vec<(String, String)>,
}

impl View for Resource {
    type V = Map<Seq<char>, Seq<char>>;

    closed spec fn view(&self) -> Map<Seq<char>, Seq<char>> {
        map_of(label_pairs(self.labels@))
    }
}

impl Default for Resource {
    fn default() -> (r: Self)
        ensures
            r@ == Map::<Seq<char>, Seq<char>>::empty(),
    {
        Resource::empty()
    }
}

impl Resource {
    #[verifier::type_invariant]
    spec fn inv(&self) -> bool {
        distinct_keys(label_pairs(self.labels@)) && valid_labels(label_pairs(self.labels@))
    }

    /// A resource of labels that were validated.
    fn new(labels: Vec<(String, String)>) -> (r: Self)
        requires
            distinct_keys(label_pairs(labels@)),
            valid_labels(label_pairs(labels@)),
        ensures
            r@ == map_of(label_pairs(labels@)),
    {
        Resource { labels }
    }

    /// Makes a resource of the given labels. Every key and value is checked
    /// first, and the fault of the first label that has one refuses them
    /// all. Where a key is given more than once, its last value counts.
    pub fn create(labels: Vec<(String, String)>) -> (r: Result<Self, ValidationError>)
        ensures
            match labels_fault(label_pairs(labels@)) {
                Some(fault) => r is Err && r->Err_0 == fault,
                None => r is Ok && r->Ok_0@ == map_of(label_pairs(labels@)) && valid_map(
                    r->Ok_0@,
                ),
            },
    {
        let ghost given = label_pairs(labels@);
        let mut checked: Vec<(String, String)> = Vec::new();
        let mut i: usize = 0;
        while i < labels.len()
            invariant
                i <= labels.len(),
                given == label_pairs(labels@),
                labels_fault(given.subrange(0, i as int)) is None,
                distinct_keys(label_pairs(checked@)),
                valid_labels(label_pairs(checked@)),
                map_of(label_pairs(checked@)) == map_of(given.subrange(0, i as int)),
            decreases labels.len() - i,
        {
            proof {
                assert(given.subrange(0, i + 1).drop_last() =~= given.subrange(0, i as int));
                assert(given.subrange(0, i + 1).last() == given[i as int]);
            }
            let fault = match check_label_key(labels[i].0.as_str()) {
                Some(fault) => Some(fault),
                None => check_label_value(labels[i].1.as_str()),
            };
            if let Some(fault) = fault {
                proof {
                    lemma_labels_fault_prefix(given, i + 1);
                }
                return Err(fault);
            }
            let key = labels[i].0.clone();
            let value = labels[i].1.clone();
            put_label(&mut checked, key, value, false);
            i = i + 1;
        }
        proof {
            assert(given.subrange(0, i as int) =~= given);
            lemma_map_of_valid(label_pairs(checked@));
        }
        Ok(Resource::new(checked))
    }

    /// Merges the labels of `other` into this resource. A label of `other`
    /// comes in where this resource has no such key or has the empty value
    /// for it; a label that is set here stays as it is.
    pub fn merge(&mut self, other: Self)
        ensures
            final(self)@ == merged(old(self)@, other@),
            valid_map(final(self)@),
    {
        proof {
            use_type_invariant(&*self);
            use_type_invariant(&other);
        }
        let mut mine: Vec<(String, String)> = Vec::new();
        std::mem::swap(&mut self.labels, &mut mine);
        merge_labels(&mut mine, &other.labels);
        proof {
            lemma_map_of_valid(label_pairs(mine@));
        }
        std::mem::swap(&mut self.labels, &mut mine);
    }

    /// The labels, each key once, in no particular order.
    pub fn labels(&self) -> (r: Vec<(String, String)>)
        ensures
            distinct_keys(label_pairs(r@)),
            map_of(label_pairs(r@)) == self@,
            valid_map(self@),
    {
        proof {
            use_type_invariant(self);
            lemma_map_of_valid(label_pairs(self.labels@));
        }
        let mut copy: Vec<(String, String)> = Vec::new();
        let mut i: usize = 0;
        while i < self.labels.len()
            invariant
                i <= self.labels.len(),
                label_pairs(copy@) == label_pairs(self.labels@.subrange(0, i as int)),
            decreases self.labels.len() - i,
        {
            let ghost before = label_pairs(copy@);
            let key = self.labels[i].0.clone();
            let value = self.labels[i].1.clone();
            copy.push((key, value));
            proof {
                let next = label_pairs(self.labels@)[i as int];
                assert(label_pairs(copy@) =~= before.push(next));
                assert(label_pairs(self.labels@.subrange(0, i + 1)) =~= before.push(next));
            }
            i = i + 1;
        }
        proof {
            assert(self.labels@.subrange(0, i as int) =~= self.labels@);
        }
        copy
    }

    /// The value of the given label, if the resource has it.
    pub fn get(&self, label: &str) -> (r: Option<&str>)
        ensures
            match r {
                Some(value) => self@.contains_key(label@) && self@[label@] == value@,
                None => !self@.contains_key(label@),
            },
    {
        proof {
            use_type_invariant(self);
            lemma_map_of_keys(label_pairs(self.labels@), label@);
        }
        let wanted: String = label.to_owned();
        match find_label(&self.labels, &wanted) {
            Some(at) => {
                proof {
                    lemma_map_of_value(label_pairs(self.labels@), at as int);
                }
                Some(self.labels[at].1.as_str())
            },
            None => None,
        }
    }

    /// The resource without labels.
    pub fn empty() -> (r: Self)
        ensures
            r@ == Map::<Seq<char>, Seq<char>>::empty(),
    {
        let labels: Vec<(String, String)> = Vec::new();
        proof {
            assert(label_pairs(labels@) =~= Seq::empty());
        }
        Resource { labels }
    }
}

/// The fault of a prefix that has one is the fault of the whole list.
pub proof fn lemma_labels_fault_prefix(labels: Seq<(Seq<char>, Seq<char>)>, len: int)
    requires
        0 <= len <= labels.len(),
        labels_fault(labels.subrange(0, len)) is Some,
    ensures
        labels_fault(labels) == labels_fault(labels.subrange(0, len)),
    decreases labels.len() - len,
{
    if len < labels.len() {
        assert(labels.subrange(0, len + 1).drop_last() =~= labels.subrange(0, len));
        lemma_labels_fault_prefix(labels, len + 1);
    } else {
        assert(labels.subrange(0, len) =~= labels);
    }
}

/// Merges the labels of `theirs` into `mine`.
fn merge_labels(mine: &mut Vec<(String, String)>, theirs: &Vec<(String, String)>)
    requires
        distinct_keys(label_pairs(old(mine)@)),
        valid_labels(label_pairs(old(mine)@)),
        distinct_keys(label_pairs(theirs@)),
        valid_labels(label_pairs(theirs@)),
    ensures
        distinct_keys(label_pairs(final(mine)@)),
        valid_labels(label_pairs(final(mine)@)),
        map_of(label_pairs(final(mine)@)) == merged(
            map_of(label_pairs(old(mine)@)),
            map_of(label_pairs(theirs@)),
        ),
{
    let ghost mine_before = map_of(label_pairs(mine@));
    let ghost given = label_pairs(theirs@);
    proof {
        assert(merged(mine_before, map_of(given.subrange(0, 0))) =~= mine_before);
    }
    let mut i: usize = 0;
    while i < theirs.len()
        invariant
            i <= theirs.len(),
            given == label_pairs(theirs@),
            distinct_keys(given),
            valid_labels(given),
            distinct_keys(label_pairs(mine@)),
            valid_labels(label_pairs(mine@)),
            map_of(label_pairs(mine@)) == merged(mine_before, map_of(given.subrange(0, i as int))),
        decreases theirs.len() - i,
    {
        let key = theirs[i].0.clone();
        let value = theirs[i].1.clone();
        proof {
            let seen = given.subrange(0, i as int);
            assert(given.subrange(0, i + 1).drop_last() =~= seen);
            assert(given.subrange(0, i + 1).last() == given[i as int]);
            assert(!map_of(seen).contains_key(key@)) by {
                lemma_map_of_keys(seen, key@);
                if map_of(seen).contains_key(key@) {
                    let j = choose|j: int| 0 <= j < seen.len() && (#[trigger] seen[j]).0 == key@;
                    assert(given[j].0 != given[i as int].0);
                }
            }
            lemma_merged_step(mine_before, map_of(seen), key@, value@);
            assert(label_fault(given[i as int]) is None);
        }
        put_label(mine, key, value, true);
        i = i + 1;
    }
    proof {
        assert(given.subrange(0, i as int) =~= given);
    }
}

} // verus!
