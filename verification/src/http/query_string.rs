//! The query string of a request target: a mapping from each key to the one
//! value, or the several values, that the raw text gives it.

use crate::text::{cut, free_of, lemma_cut_count, split_first, text_eq};
use vstd::prelude::*;
use vstd::std_specs::convert::FromSpecImpl;
use vstd::utf8::is_ascii_chars;

verus! {

/// What a key of a query string maps to.
#[derive(Debug)]
pub enum Value<'buf> {
    /// The key occurs once.
    Single(&'buf str),
    /// The key occurs more than once; the values stand in the order in which
    /// the raw text gives them.
    Multiple(Vec<&'buf str>),
}

/// The mathematical value of a [`Value`].
pub enum ValueView {
    Single(Seq<char>),
    Multiple(Seq<Seq<char>>),
}

/// The texts that `items` borrow, in order.
pub open spec fn texts(items: Seq<&str>) -> Seq<Seq<char>> {
    Seq::new(items.len(), |i: int| items[i]@)
}

impl<'buf> View for Value<'buf> {
    type V = ValueView;

    open spec fn view(&self) -> ValueView {
        match self {
            Value::Single(text) => ValueView::Single(text@),
            Value::Multiple(items) => ValueView::Multiple(texts(items@)),
        }
    }
}

impl ValueView {
    /// The values in the order of their occurrence, whichever the variant.
    pub open spec fn values(self) -> Seq<Seq<char>> {
        match self {
            ValueView::Single(text) => seq![text],
            ValueView::Multiple(items) => items,
        }
    }
}

/// The segments of a raw query string: the texts between its `&` characters.
/// A text without `&` is one segment, the empty text included.
pub open spec fn segments(raw: Seq<char>) -> Seq<Seq<char>>
    decreases raw.len(),
{
    let i = crate::text::first_of(raw, "&"@);
    if 0 <= i < raw.len() {
        seq![raw.subrange(0, i)] + segments(raw.subrange(i + 1, raw.len() as int))
    } else {
        seq![raw]
    }
}

/// The key and the value of one segment: the texts before and after its
/// first `=`. A segment without `=` is a key with the empty value.
pub open spec fn pair_of(segment: Seq<char>) -> (Seq<char>, Seq<char>) {
    match cut(segment, "="@) {
        Some(pair) => pair,
        None => (segment, Seq::empty()),
    }
}

/// The key-value pairs of a raw query string, in the order of the text.
pub open spec fn pairs(raw: Seq<char>) -> Seq<(Seq<char>, Seq<char>)> {
    Seq::new(segments(raw).len(), |i: int| pair_of(segments(raw)[i]))
}

/// The values that `pairs` give to `key`, in the order of the pairs.
pub open spec fn values_for(pairs: Seq<(Seq<char>, Seq<char>)>, key: Seq<char>) -> Seq<Seq<char>>
    decreases pairs.len(),
{
    if pairs.len() == 0 {
        Seq::empty()
    } else {
        let earlier = values_for(pairs.drop_last(), key);
        if pairs.last().0 == key {
            earlier.push(pairs.last().1)
        } else {
            earlier
        }
    }
}

/// One value stays single; several become a multiple value.
pub open spec fn value_of(values: Seq<Seq<char>>) -> ValueView {
    if values.len() == 1 {
        ValueView::Single(values[0])
    } else {
        ValueView::Multiple(values)
    }
}

/// The mapping that pairs stand for: every key that occurs, with all of its
/// values in order.
pub open spec fn map_of(pairs: Seq<(Seq<char>, Seq<char>)>) -> Map<Seq<char>, ValueView> {
    Map::new(
        |key: Seq<char>| values_for(pairs, key).len() > 0,
        |key: Seq<char>| value_of(values_for(pairs, key)),
    )
}

/// The mapping that a raw query string stands for.
pub open spec fn query_map(raw: Seq<char>) -> Map<Seq<char>, ValueView> {
    map_of(pairs(raw))
}

/// How many of the first `i` pairs have the key `key`.
pub open spec fn rank(pairs: Seq<(Seq<char>, Seq<char>)>, key: Seq<char>, i: int) -> nat {
    values_for(pairs.subrange(0, i), key).len()
}

/// The values of a key are those of the pairs with that key, in the order of
/// the pairs: the value of such a pair stands at the place that is the
/// number of earlier pairs with the key, and a later such pair stands at a
/// later place.
pub proof fn lemma_values_in_order(
    pairs: Seq<(Seq<char>, Seq<char>)>,
    key: Seq<char>,
    i: int,
    j: int,
)
    requires
        0 <= i <= j < pairs.len(),
        pairs[i].0 == key,
        pairs[j].0 == key,
    ensures
        rank(pairs, key, j) < values_for(pairs, key).len(),
        values_for(pairs, key)[rank(pairs, key, i) as int] == pairs[i].1,
        values_for(pairs, key)[rank(pairs, key, j) as int] == pairs[j].1,
        i < j ==> rank(pairs, key, i) < rank(pairs, key, j),
    decreases pairs.len(),
{
    let n = pairs.len() as int;
    let earlier = pairs.drop_last();
    assert(pairs.subrange(0, n - 1) =~= earlier);
    if j < n - 1 {
        lemma_values_in_order(earlier, key, i, j);
        assert(earlier.subrange(0, i) =~= pairs.subrange(0, i));
        assert(earlier.subrange(0, j) =~= pairs.subrange(0, j));
    } else if i < j {
        lemma_values_in_order(earlier, key, i, i);
        assert(earlier.subrange(0, i) =~= pairs.subrange(0, i));
    }
}

/// Every value of a key comes from a pair with that key: the pair whose
/// rank is the value's place.
pub proof fn lemma_values_from_pairs(
    pairs: Seq<(Seq<char>, Seq<char>)>,
    key: Seq<char>,
    place: int,
) -> (i: int)
    requires
        0 <= place < values_for(pairs, key).len(),
    ensures
        0 <= i < pairs.len(),
        pairs[i] == (key, values_for(pairs, key)[place]),
        rank(pairs, key, i) == place,
    decreases pairs.len(),
{
    let n = pairs.len() as int;
    let earlier = pairs.drop_last();
    assert(pairs.subrange(0, n - 1) =~= earlier);
    if pairs.last().0 == key && place == values_for(earlier, key).len() {
        n - 1
    } else {
        let i = lemma_values_from_pairs(earlier, key, place);
        assert(earlier.subrange(0, i) =~= pairs.subrange(0, i));
        i
    }
}

/// A key that occurs once maps to a single value, a key that occurs more
/// than once maps to a multiple value that holds all its values in the order
/// of the text, and a key that does not occur is absent.
pub proof fn lemma_single_or_multiple(raw: Seq<char>, key: Seq<char>)
    ensures
        values_for(pairs(raw), key).len() == 0 <==> !query_map(raw).contains_key(key),
        values_for(pairs(raw), key).len() == 1 ==> query_map(raw)[key] == ValueView::Single(
            values_for(pairs(raw), key)[0],
        ),
        values_for(pairs(raw), key).len() >= 2 ==> query_map(raw)[key] == ValueView::Multiple(
            values_for(pairs(raw), key),
        ),
        query_map(raw).contains_key(key) ==> query_map(raw)[key].values() == values_for(
            pairs(raw),
            key,
        ),
{
    let values = values_for(pairs(raw), key);
    if values.len() == 1 {
        assert(seq![values[0]] =~= values);
    }
}

/// A segment without `=` is a key with the empty text as a value: the key is
/// present, and the value at the segment's rank is empty.
pub proof fn lemma_bare_segment(raw: Seq<char>, i: int)
    requires
        0 <= i < segments(raw).len(),
        free_of(segments(raw)[i], "="@),
    ensures
        pairs(raw)[i] == (segments(raw)[i], Seq::<char>::empty()),
        query_map(raw).contains_key(segments(raw)[i]),
        query_map(raw)[segments(raw)[i]].values()[rank(pairs(raw), segments(raw)[i], i) as int]
            == Seq::<char>::empty(),
{
    let key = segments(raw)[i];
    lemma_cut_count(key, "="@);
    crate::text::lemma_first_of(key, "="@);
    lemma_values_in_order(pairs(raw), key, i, i);
    lemma_single_or_multiple(raw, key);
}

/// Every text has at least one segment, so no query string is empty: the
/// key of the first segment is always present.
pub proof fn lemma_never_empty(raw: Seq<char>)
    ensures
        segments(raw).len() >= 1,
        query_map(raw).contains_key(pairs(raw)[0].0),
{
    lemma_values_in_order(pairs(raw), pairs(raw)[0].0, 0, 0);
}

/// A key with what it maps to.
#[derive(Debug)]
struct Entry<'buf> {
    key: &'buf str,
    value: Value<'buf>,
}

/// A parsed query string. Keys and values borrow from the text it was built
/// from.
#[derive(Debug)]
pub struct QueryString<'buf> {
    /// One entry for each key, in the order in which the keys first occur.
    entries: Vec<Entry<'buf>>,
}

/// No key has two entries, and a multiple value holds at least two values.
spec fn well_formed(entries: Seq<Entry>) -> bool {
    &&& forall|i: int, j: int|
        0 <= i < j < entries.len() ==> (#[trigger] entries[i]).key@ != (#[trigger] entries[j]).key@
    &&& forall|i: int|
        0 <= i < entries.len() ==> ((#[trigger] entries[i]).value matches Value::Multiple(items)
            ==> items@.len() >= 2)
}

/// Whether some entry has the key `key`.
spec fn has_key(entries: Seq<Entry>, key: Seq<char>) -> bool {
    exists|i: int| 0 <= i < entries.len() && (#[trigger] entries[i]).key@ == key
}

/// The index of an entry with the key `key`.
spec fn index_of(entries: Seq<Entry>, key: Seq<char>) -> int {
    choose|i: int| 0 <= i < entries.len() && (#[trigger] entries[i]).key@ == key
}

/// The mapping that entries hold.
spec fn entries_map(entries: Seq<Entry>) -> Map<Seq<char>, ValueView> {
    Map::new(
        |key: Seq<char>| has_key(entries, key),
        |key: Seq<char>| entries[index_of(entries, key)].value@,
    )
}

/// The entries hold exactly what the pairs say.
spec fn agrees(entries: Seq<Entry>, pairs: Seq<(Seq<char>, Seq<char>)>) -> bool {
    &&& well_formed(entries)
    &&& forall|i: int|
        0 <= i < entries.len() ==> {
            &&& values_for(pairs, (#[trigger] entries[i]).key@).len() > 0
            &&& entries[i].value@ == value_of(values_for(pairs, entries[i].key@))
        }
    &&& forall|key: Seq<char>| #[trigger]
        values_for(pairs, key).len() > 0 ==> has_key(entries, key)
}

impl<'buf> View for QueryString<'buf> {
    type V = Map<Seq<char>, ValueView>;

    closed spec fn view(&self) -> Map<Seq<char>, ValueView> {
        entries_map(self.entries@)
    }
}

/// Adding a pair leaves the values of every other key as they were and
/// appends its value to those of its own key.
proof fn lemma_values_push(
    pairs: Seq<(Seq<char>, Seq<char>)>,
    pair: (Seq<char>, Seq<char>),
    key: Seq<char>,
)
    ensures
        values_for(pairs.push(pair), key) == if pair.0 == key {
            values_for(pairs, key).push(pair.1)
        } else {
            values_for(pairs, key)
        },
{
    assert(pairs.push(pair).drop_last() =~= pairs);
}

/// The index of the entry with the key `key`, if there is one.
fn position(entries: &Vec<Entry<'_>>, key: &str) -> (r: Option<usize>)
    ensures
        match r {
            Some(i) => i < entries@.len() && entries@[i as int].key@ == key@,
            None => forall|j: int| 0 <= j < entries@.len() ==> (#[trigger] entries@[j]).key@ != key@,
        },
{
    let mut i: usize = 0;
    while i < entries.len()
        invariant
            i <= entries.len(),
            forall|j: int| 0 <= j < i ==> (#[trigger] entries@[j]).key@ != key@,
        decreases entries.len() - i,
    {
        if text_eq(entries[i].key, key) {
            return Some(i);
        }
        i += 1;
    }
    None
}

/// Records one more segment: a new key gets a single value, a key seen once
/// before gets a multiple value of both, and a multiple value grows.
fn record<'buf>(
    entries: &mut Vec<Entry<'buf>>,
    segment: &'buf str,
    Ghost(before): Ghost<Seq<(Seq<char>, Seq<char>)>>,
)
    requires
        agrees(old(entries)@, before),
    ensures
        agrees(final(entries)@, before.push(pair_of(segment@))),
{
    proof {
        reveal_strlit("=");
    }
    let (key, value) = match split_first(segment, "=") {
        Some(pair) => pair,
        None => (segment, ""),
    };
    proof {
        reveal_strlit("");
        assert(""@ =~= Seq::<char>::empty());
        assert((key@, value@) == pair_of(segment@));
    }
    let ghost pair = (key@, value@);
    let ghost after = before.push(pair);
    proof {
        assert forall|k: Seq<char>|
            values_for(after, k) == if k == key@ {
                values_for(before, k).push(value@)
            } else {
                values_for(before, k)
            } by {
            lemma_values_push(before, pair, k);
        }
    }
    match position(entries, key) {
        Some(i) => {
            let ghost prior = entries@;
            let ghost known = values_for(before, key@);
            let slot = &mut entries[i];
            match &mut slot.value {
                Value::Single(first) => {
                    let first: &'buf str = *first;
                    let both: Vec<&'buf str> = vec![first, value];
                    proof {
                        assert(texts(both@) =~= known.push(value@));
                    }
                    slot.value = Value::Multiple(both);
                },
                Value::Multiple(items) => {
                    proof {
                        assert(texts(items@.push(value)) =~= texts(items@).push(value@));
                    }
                    items.push(value);
                },
            }
            proof {
                let now = entries@;
                assert(now.len() == prior.len());
                assert forall|j: int| 0 <= j < now.len() implies (#[trigger] now[j]).key@
                    == prior[j].key@ by {}
                assert forall|k: Seq<char>| #[trigger]
                    values_for(after, k).len() > 0 implies has_key(now, k) by {
                    if k == key@ {
                        assert(now[i as int].key@ == k);
                    } else {
                        let j = index_of(prior, k);
                        assert(has_key(prior, k));
                        assert(now[j].key@ == k);
                    }
                }
                assert(agrees(now, after));
            }
        },
        None => {
            let ghost prior = entries@;
            proof {
                if values_for(before, key@).len() > 0 {
                    assert(has_key(prior, key@));
                    let j = index_of(prior, key@);
                    assert(prior[j].key@ == key@);
                }
                assert(values_for(after, key@) =~= seq![value@]);
            }
            entries.push(Entry { key, value: Value::Single(value) });
            proof {
                let now = entries@;
                assert forall|k: Seq<char>| #[trigger]
                    values_for(after, k).len() > 0 implies has_key(now, k) by {
                    if k == key@ {
                        assert(now[prior.len() as int].key@ == k);
                    } else {
                        let j = index_of(prior, k);
                        assert(has_key(prior, k));
                        assert(now[j].key@ == k);
                    }
                }
                assert(agrees(now, after));
            }
        },
    }
}

/// Entries that hold what the pairs say hold the mapping of the pairs.
proof fn lemma_agrees_map(entries: Seq<Entry>, pairs: Seq<(Seq<char>, Seq<char>)>)
    requires
        agrees(entries, pairs),
    ensures
        entries_map(entries) == map_of(pairs),
{
    assert forall|key: Seq<char>| has_key(entries, key) implies values_for(pairs, key).len()
        > 0 && entries[index_of(entries, key)].value@ == value_of(values_for(pairs, key)) by {
        let i = index_of(entries, key);
        assert(entries[i].key@ == key);
    }
    assert(entries_map(entries) =~= map_of(pairs));
}

impl<'buf> QueryString<'buf> {
    #[verifier::type_invariant]
    spec fn inv(&self) -> bool {
        well_formed(self.entries@)
    }

    /// Reads a raw query string. Every text is accepted: each segment gives
    /// its key one more value, in the order of the text.
    pub fn build(raw: &'buf str) -> (qs: QueryString<'buf>)
        ensures
            qs@ == query_map(raw@),
    {
        let mut entries: Vec<Entry<'buf>> = Vec::new();
        let mut rest = raw;
        let ghost mut done: Seq<Seq<char>> = Seq::empty();
        proof {
            reveal_strlit("&");
            assert(done + segments(rest@) =~= segments(raw@));
        }
        loop
            invariant_except_break
                is_ascii_chars("&"@),
                segments(raw@) == done + segments(rest@),
                agrees(entries@, Seq::new(done.len(), |i: int| pair_of(done[i]))),
            ensures
                agrees(entries@, pairs(raw@)),
            decreases rest@.len(),
        {
            let ghost recorded = Seq::new(done.len(), |i: int| pair_of(done[i]));
            proof {
                crate::text::lemma_first_of(rest@, "&"@);
            }
            match split_first(rest, "&") {
                Some((segment, tail)) => {
                    record(&mut entries, segment, Ghost(recorded));
                    proof {
                        assert(done.push(segment@) + segments(tail@) =~= done + segments(rest@));
                        assert(Seq::new(
                            done.push(segment@).len(),
                            |i: int| pair_of(done.push(segment@)[i]),
                        ) =~= recorded.push(pair_of(segment@)));
                        done = done.push(segment@);
                    }
                    rest = tail;
                },
                None => {
                    record(&mut entries, rest, Ghost(recorded));
                    proof {
                        assert(segments(raw@) =~= done.push(rest@));
                        assert(pairs(raw@) =~= recorded.push(pair_of(rest@)));
                    }
                    break ;
                },
            }
        }
        proof {
            lemma_agrees_map(entries@, pairs(raw@));
        }
        QueryString { entries }
    }

    /// What `key` maps to, if the query string has the key.
    pub fn get(&self, key: &str) -> (r: Option<&Value<'buf>>)
        ensures
            match r {
                Some(value) => self@.contains_key(key@) && self@[key@] == value@,
                None => !self@.contains_key(key@),
            },
            r matches Some(Value::Multiple(items)) ==> items@.len() >= 2,
    {
        proof {
            use_type_invariant(self);
        }
        match position(&self.entries, key) {
            Some(i) => {
                proof {
                    let j = index_of(self.entries@, key@);
                    assert(has_key(self.entries@, key@));
                    assert(self.entries@[j].key@ == key@);
                }
                Some(&self.entries[i].value)
            },
            None => None,
        }
    }
}

impl<'buf> From<&'buf str> for QueryString<'buf> {
    /// The same as [`QueryString::build`].
    fn from(s: &'buf str) -> (qs: QueryString<'buf>)
        ensures
            qs@ == query_map(s@),
    {
        QueryString::build(s)
    }
}

impl<'buf> FromSpecImpl<&'buf str> for QueryString<'buf> {
    /// A query string is known by its view, so the conversion is specified
    /// by the `ensures` of `from` and not by a value of `QueryString`.
    open spec fn obeys_from_spec() -> bool {
        false
    }

    open spec fn from_spec(s: &'buf str) -> QueryString<'buf> {
        arbitrary()
    }
}

} // verus!
