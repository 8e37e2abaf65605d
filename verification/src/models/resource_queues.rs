//! Work queues of the server, read from a flat mapping of statistics.
//!
//! A key of the mapping is a path of segments joined by dashes. A key of the
//! form `namespace-queue-name-field` tells one field of the queue `name`:
//! the namespace is the first segment, the field is the last one, and the
//! name is what stands between `-queue-` and the last dash. The queues are
//! built anew from every mapping.

use vstd::prelude::*;
use vstd::string::*;
use crate::catalog::{Catalog, has_name, lemma_map_at, lemma_update};
use crate::text::{chars_of, same_text, text_between};

verus! {

/// One work queue. The figures are kept as the texts that the server sent.
#[derive(Debug, Clone)]
pub struct ResourceQueue {
    pub name: String,
    pub avg_items_per_second: String,
    pub length_current_try_peak: String,
    pub length_lifetime_peak: String,
    pub current_idle_time: Option<String>,
    pub total_items_processed: String,
    pub in_progress_message: String,
    pub last_processed_message: String,
}

/// The mathematical content of a `ResourceQueue`.
pub ghost struct ResourceQueueContent {
    pub name: Seq<char>,
    pub avg_items_per_second: Seq<char>,
    pub length_current_try_peak: Seq<char>,
    pub length_lifetime_peak: Seq<char>,
    pub current_idle_time: Option<Seq<char>>,
    pub total_items_processed: Seq<char>,
    pub in_progress_message: Seq<char>,
    pub last_processed_message: Seq<char>,
}

impl View for ResourceQueue {
    type V = ResourceQueueContent;

    open spec fn view(&self) -> ResourceQueueContent {
        ResourceQueueContent {
            name: self.name@,
            avg_items_per_second: self.avg_items_per_second@,
            length_current_try_peak: self.length_current_try_peak@,
            length_lifetime_peak: self.length_lifetime_peak@,
            current_idle_time: match self.current_idle_time {
                Some(t) => Some(t@),
                None => None,
            },
            total_items_processed: self.total_items_processed@,
            in_progress_message: self.in_progress_message@,
            last_processed_message: self.last_processed_message@,
        }
    }
}

/// What marks a key as one of a queue: the segment `queue` between dashes.
pub open spec fn marker() -> Seq<char> {
    seq!['-', 'q', 'u', 'e', 'u', 'e', '-']
}

/// A key has the shape `*-queue-*-*`: somewhere it holds `-queue-`, and
/// after that another dash.
pub open spec fn has_queue_shape(key: Seq<char>) -> bool {
    exists|i: int, j: int|
        0 <= i && i + 7 <= j < key.len() && #[trigger] key.subrange(i, i + 7) == marker()
            && #[trigger] key[j] == '-'
}

/// The key splits at `i` and `j`: its first dash is at `i` and starts
/// `-queue-`, and its last dash is at `j`, after that.
pub open spec fn splits_at(key: Seq<char>, i: int, j: int) -> bool {
    &&& 0 <= i
    &&& i + 7 <= j < key.len()
    &&& forall|k: int| 0 <= k < i ==> key[k] != '-'
    &&& key.subrange(i, i + 7) == marker()
    &&& key[j] == '-'
    &&& forall|k: int| j < k < key.len() ==> key[k] != '-'
}

/// The key tells a field of a queue.
pub open spec fn is_queue_key(key: Seq<char>) -> bool {
    exists|i: int, j: int| splits_at(key, i, j)
}

/// Where a queue key splits.
pub open spec fn split_of(key: Seq<char>) -> (int, int) {
    choose|p: (int, int)| splits_at(key, p.0, p.1)
}

/// The name of the queue that a queue key speaks of.
pub open spec fn queue_name(key: Seq<char>) -> Seq<char> {
    key.subrange(split_of(key).0 + 7, split_of(key).1)
}

/// The field that a queue key tells.
pub open spec fn queue_field(key: Seq<char>) -> Seq<char> {
    key.subrange(split_of(key).1 + 1, key.len() as int)
}

/// A key splits in one way at most.
pub proof fn lemma_split_unique(key: Seq<char>, i: int, j: int)
    requires
        splits_at(key, i, j),
    ensures
        is_queue_key(key),
        split_of(key) == (i, j),
{
    let p = (i, j);
    assert(splits_at(key, p.0, p.1));
    let q = split_of(key);
    assert(splits_at(key, q.0, q.1));
    assert(key.subrange(i, i + 7)[0] == '-');
    assert(key.subrange(q.0, q.0 + 7)[0] == '-');
    assert(key[i] == '-');
    assert(key[q.0] == '-');
}

/// A key that tells a field of a queue has the shape `*-queue-*-*`.
pub proof fn lemma_queue_key_has_shape(key: Seq<char>)
    requires
        is_queue_key(key),
    ensures
        has_queue_shape(key),
{
    let (i, j) = choose|i: int, j: int| splits_at(key, i, j);
    assert(key.subrange(i, i + 7) == marker() && key[j] == '-');
}

/// A queue of which only the name is known.
pub open spec fn blank(name: Seq<char>) -> ResourceQueueContent {
    ResourceQueueContent {
        name,
        avg_items_per_second: Seq::empty(),
        length_current_try_peak: Seq::empty(),
        length_lifetime_peak: Seq::empty(),
        current_idle_time: None,
        total_items_processed: Seq::empty(),
        in_progress_message: Seq::empty(),
        last_processed_message: Seq::empty(),
    }
}

/// A queue after one of its fields was told. A field that is not known
/// leaves the queue as it is, and so does an idle time of `null`.
pub open spec fn with_field(q: ResourceQueueContent, field: Seq<char>, value: Seq<char>) -> ResourceQueueContent {
    if field == "avgItemsPerSecond"@ {
        ResourceQueueContent { avg_items_per_second: value, ..q }
    } else if field == "lengthCurrentTryPeak"@ {
        ResourceQueueContent { length_current_try_peak: value, ..q }
    } else if field == "lengthLifetimePeak"@ {
        ResourceQueueContent { length_lifetime_peak: value, ..q }
    } else if field == "currentIdleTime"@ {
        if value == "null"@ {
            q
        } else {
            ResourceQueueContent { current_idle_time: Some(value), ..q }
        }
    } else if field == "totalItemsProcessed"@ {
        ResourceQueueContent { total_items_processed: value, ..q }
    } else if field == "inProgressMessage"@ {
        ResourceQueueContent { in_progress_message: value, ..q }
    } else if field == "lastProcessedMessage"@ {
        ResourceQueueContent { last_processed_message: value, ..q }
    } else {
        q
    }
}

/// The queues after one more pair of the mapping. A key that tells no field
/// of a queue changes nothing; one that does creates the queue where it is
/// new, and sets the field where the field is known.
pub open spec fn after_pair(
    queues: Map<Seq<char>, ResourceQueueContent>,
    key: Seq<char>,
    value: Seq<char>,
) -> Map<Seq<char>, ResourceQueueContent> {
    if is_queue_key(key) {
        let name = queue_name(key);
        let before = if queues.contains_key(name) {
            queues[name]
        } else {
            blank(name)
        };
        queues.insert(name, with_field(before, queue_field(key), value))
    } else {
        queues
    }
}

/// The queues after the pairs of a mapping, the first pair first.
pub open spec fn after_pairs(
    queues: Map<Seq<char>, ResourceQueueContent>,
    pairs: Seq<(String, String)>,
) -> Map<Seq<char>, ResourceQueueContent>
    decreases pairs.len(),
{
    if pairs.len() == 0 {
        queues
    } else {
        after_pair(after_pairs(queues, pairs.drop_last()), pairs.last().0@, pairs.last().1@)
    }
}

/// The queues that a mapping tells of.
pub open spec fn queues_of(pairs: Seq<(String, String)>) -> Map<Seq<char>, ResourceQueueContent> {
    after_pairs(Map::empty(), pairs)
}

/// A key outside the shape `*-queue-*-*` is ignored: it changes no queue and
/// creates none.
pub proof fn lemma_other_keys_are_ignored(
    queues: Map<Seq<char>, ResourceQueueContent>,
    key: Seq<char>,
    value: Seq<char>,
)
    requires
        !has_queue_shape(key),
    ensures
        after_pair(queues, key, value) == queues,
{
    if is_queue_key(key) {
        lemma_queue_key_has_shape(key);
    }
}

/// A mapping in which no key has the shape `*-queue-*-*` tells of no queue.
pub proof fn lemma_no_queue_without_queue_keys(pairs: Seq<(String, String)>)
    requires
        forall|i: int| 0 <= i < pairs.len() ==> !has_queue_shape(#[trigger] pairs[i].0@),
    ensures
        queues_of(pairs) == Map::<Seq<char>, ResourceQueueContent>::empty(),
    decreases pairs.len(),
{
    if pairs.len() > 0 {
        lemma_no_queue_without_queue_keys(pairs.drop_last());
        lemma_other_keys_are_ignored(
            queues_of(pairs.drop_last()),
            pairs.last().0@,
            pairs.last().1@,
        );
    }
}

/// Every queue that a mapping tells of is named by a key of the mapping that
/// has the shape `*-queue-*-*`.
pub proof fn lemma_queues_come_from_queue_keys(pairs: Seq<(String, String)>, name: Seq<char>)
    requires
        queues_of(pairs).contains_key(name),
    ensures
        exists|i: int|
            0 <= i < pairs.len() && has_queue_shape(#[trigger] pairs[i].0@) && queue_name(
                pairs[i].0@,
            ) == name,
    decreases pairs.len(),
{
    if pairs.len() > 0 {
        let key = pairs.last().0@;
        if is_queue_key(key) && queue_name(key) == name {
            lemma_queue_key_has_shape(key);
            assert(pairs[pairs.len() - 1].0@ == key);
        } else {
            lemma_queues_come_from_queue_keys(pairs.drop_last(), name);
            let i = choose|i: int|
                0 <= i < pairs.drop_last().len() && has_queue_shape(
                    #[trigger] pairs.drop_last()[i].0@,
                ) && queue_name(pairs.drop_last()[i].0@) == name;
            assert(pairs[i] == pairs.drop_last()[i]);
        }
    }
}

/// Position of the first dash, if there is one.
fn find_first_dash(chars: &Vec<char>) -> (at: Option<usize>)
    ensures
        at is Some ==> at->0 < chars.len() && chars@[at->0 as int] == '-' && forall|k: int|
            0 <= k < at->0 ==> chars@[k] != '-',
        at is None ==> forall|k: int| 0 <= k < chars.len() ==> chars@[k] != '-',
{
    let mut i: usize = 0;
    while i < chars.len()
        invariant
            i <= chars.len(),
            forall|k: int| 0 <= k < i ==> chars@[k] != '-',
        decreases chars.len() - i,
    {
        if chars[i] == '-' {
            return Some(i);
        }
        i = i + 1;
    }
    None
}

/// Position of the last dash, if there is one.
fn find_last_dash(chars: &Vec<char>) -> (at: Option<usize>)
    ensures
        at is Some ==> at->0 < chars.len() && chars@[at->0 as int] == '-' && forall|k: int|
            at->0 < k < chars.len() ==> chars@[k] != '-',
        at is None ==> forall|k: int| 0 <= k < chars.len() ==> chars@[k] != '-',
{
    let mut i: usize = chars.len();
    while i > 0
        invariant
            i <= chars.len(),
            forall|k: int| i <= k < chars.len() ==> chars@[k] != '-',
        decreases i,
    {
        i = i - 1;
        if chars[i] == '-' {
            return Some(i);
        }
    }
    None
}

/// Whether `-queue-` stands at a position.
fn marker_at(chars: &Vec<char>, i: usize) -> (r: bool)
    ensures
        r == (i + 7 <= chars.len() && chars@.subrange(i as int, i + 7) == marker()),
{
    if chars.len() < 7 || i > chars.len() - 7 {
        return false;
    }
    let r = chars[i] == '-' && chars[i + 1] == 'q' && chars[i + 2] == 'u' && chars[i + 3] == 'e'
        && chars[i + 4] == 'u' && chars[i + 5] == 'e' && chars[i + 6] == '-';
    proof {
        let part = chars@.subrange(i as int, i + 7);
        if r {
            assert(part =~= marker());
        } else {
            assert(part[0] == chars@[i as int]);
            assert(part[1] == chars@[i + 1]);
            assert(part[2] == chars@[i + 2]);
            assert(part[3] == chars@[i + 3]);
            assert(part[4] == chars@[i + 4]);
            assert(part[5] == chars@[i + 5]);
            assert(part[6] == chars@[i + 6]);
        }
    }
    r
}

/// Splits a key into the name of a queue and a field, if it tells a field of
/// a queue.
pub fn split_queue_key(key: &str) -> (parts: Option<(String, String)>)
    ensures
        match parts {
            Some((name, field)) => is_queue_key(key@) && name@ == queue_name(key@) && field@
                == queue_field(key@),
            None => !is_queue_key(key@),
        },
{
    let chars = chars_of(key);
    let first = match find_first_dash(&chars) {
        Some(i) => i,
        None => {
            assert(!is_queue_key(key@)) by {
                if is_queue_key(key@) {
                    let (i, j) = choose|i: int, j: int| splits_at(key@, i, j);
                    assert(key@[j] == '-');
                }
            }
            return None;
        },
    };
    if !marker_at(&chars, first) {
        assert(!is_queue_key(key@)) by {
            if is_queue_key(key@) {
                let (i, j) = choose|i: int, j: int| splits_at(key@, i, j);
                assert(key@.subrange(i, i + 7)[0] == '-');
                assert(key@[i] == '-');
                assert(i == first);
            }
        }
        return None;
    }
    let last = match find_last_dash(&chars) {
        Some(j) => j,
        None => {
            return None;
        },
    };
    if last < first + 7 {
        assert(!is_queue_key(key@)) by {
            if is_queue_key(key@) {
                let (i, j) = choose|i: int, j: int| splits_at(key@, i, j);
                assert(key@.subrange(i, i + 7)[0] == '-');
                assert(key@[i] == '-');
                assert(i == first);
                assert(j == last);
            }
        }
        return None;
    }
    proof {
        lemma_split_unique(key@, first as int, last as int);
    }
    let name = text_between(&chars, first + 7, last);
    let field = text_between(&chars, last + 1, chars.len());
    Some((name, field))
}

/// A queue of which only the name is known.
fn blank_queue(name: String) -> (q: ResourceQueue)
    ensures
        q@ == blank(name@),
{
    ResourceQueue {
        name,
        avg_items_per_second: String::new(),
        length_current_try_peak: String::new(),
        length_lifetime_peak: String::new(),
        current_idle_time: None,
        total_items_processed: String::new(),
        in_progress_message: String::new(),
        last_processed_message: String::new(),
    }
}

/// Sets a field of a queue, if the field is known.
fn set_field(queue: &mut ResourceQueue, field: &str, value: String)
    ensures
        final(queue)@ == with_field(old(queue)@, field@, value@),
{
    if same_text(field, "avgItemsPerSecond") {
        queue.avg_items_per_second = value;
    } else if same_text(field, "lengthCurrentTryPeak") {
        queue.length_current_try_peak = value;
    } else if same_text(field, "lengthLifetimePeak") {
        queue.length_lifetime_peak = value;
    } else if same_text(field, "currentIdleTime") {
        if !same_text(value.as_str(), "null") {
            queue.current_idle_time = Some(value);
        }
    } else if same_text(field, "totalItemsProcessed") {
        queue.total_items_processed = value;
    } else if same_text(field, "inProgressMessage") {
        queue.in_progress_message = value;
    } else if same_text(field, "lastProcessedMessage") {
        queue.last_processed_message = value;
    }
}

/// The content of the queues of a catalog, by name.
pub open spec fn content(queues: Catalog<ResourceQueue>) -> Map<Seq<char>, ResourceQueueContent> {
    queues.map().map_values(|q: ResourceQueue| q@)
}

/// Takes one pair of the mapping into the queues.
fn take_pair(queues: &mut Catalog<ResourceQueue>, key: &str, value: String)
    requires
        old(queues).wf(),
    ensures
        final(queues).wf(),
        content(*final(queues)) == after_pair(content(*old(queues)), key@, value@),
{
    match split_queue_key(key) {
        Some((name, field)) => {
            let ghost had = has_name(queues@, name@);
            let ghost name_text = name@;
            let ghost seen = queues.map();
            let fresh = blank_queue(name.clone());
            let idx = queues.entry(name.as_str(), fresh);
            let ghost listed = queues@;
            let ghost before = listed[idx as int].1;
            proof {
                lemma_map_at(listed, idx as int);
                if had {
                    assert(seen.contains_key(name_text));
                } else {
                    assert(!seen.contains_key(name_text));
                }
            }
            set_field(&mut queues.entries[idx].value, field.as_str(), value);
            let ghost after = queues@[idx as int].1;
            proof {
                assert(queues@ =~= listed.update(idx as int, (listed[idx as int].0, after)));
                lemma_update(listed, idx as int, after);
                assert(queues.map() == seen.insert(name_text, after));
                assert(content(*queues) =~= content(*old(queues)).insert(name_text, after@));
            }
        },
        None => {},
    }
}

/// The queues that a mapping of statistics tells of, in ascending order of
/// their names.
pub fn parse_resource_queues(mapping: Vec<(String, String)>) -> (queues: Catalog<ResourceQueue>)
    ensures
        queues.wf(),
        content(queues) == queues_of(mapping@),
{
    let mut queues: Catalog<ResourceQueue> = Catalog::new();
    let ghost pairs = mapping@;
    assert(content(queues) =~= Map::<Seq<char>, ResourceQueueContent>::empty());
    for pair in iter: mapping
        invariant
            iter.seq() == pairs,
            queues.wf(),
            content(queues) == queues_of(pairs.take(iter.index() as int)),
    {
        proof {
            assert(pairs.take(iter.index() + 1).drop_last() =~= pairs.take(iter.index() as int));
            assert(pairs.take(iter.index() + 1).last() == pair);
        }
        let (key, value) = pair;
        take_pair(&mut queues, key.as_str(), value);
    }
    assert(pairs.take(pairs.len() as int) =~= pairs);
    queues
}

} // verus!
