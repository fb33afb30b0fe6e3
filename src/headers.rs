use vstd::prelude::*;

verus! {

/// One header as the model sees it: a lower-case name and the value's bytes.
pub type EntryView = (Seq<char>, Seq<u8>);

/// The values held under `name`, in the order in which they appear.
pub open spec fn values_of(h: Seq<EntryView>, name: Seq<char>) -> Seq<Seq<u8>>
    decreases h.len(),
{
    if h.len() == 0 {
        Seq::empty()
    } else {
        let rest = values_of(h.drop_last(), name);
        if h.last().0 == name {
            rest.push(h.last().1)
        } else {
            rest
        }
    }
}

/// The entries whose name differs from `name`, in their order.
pub open spec fn without(h: Seq<EntryView>, name: Seq<char>) -> Seq<EntryView>
    decreases h.len(),
{
    if h.len() == 0 {
        Seq::empty()
    } else {
        let rest = without(h.drop_last(), name);
        if h.last().0 == name {
            rest
        } else {
            rest.push(h.last())
        }
    }
}

/// Whether some entry carries `name`.
pub open spec fn has_header(h: Seq<EntryView>, name: Seq<char>) -> bool {
    values_of(h, name).len() > 0
}

/// The list after replacing every value under `name` by the single `value`.
pub open spec fn replaced(h: Seq<EntryView>, name: Seq<char>, value: Seq<u8>) -> Seq<EntryView> {
    without(h, name).push((name, value))
}

/// The list after adding `value` under `name`, unless that name is already present.
pub open spec fn added_if_absent(h: Seq<EntryView>, name: Seq<char>, value: Seq<u8>) -> Seq<
    EntryView,
> {
    if has_header(h, name) {
        h
    } else {
        h.push((name, value))
    }
}

pub proof fn lemma_values_of_push(h: Seq<EntryView>, e: EntryView, name: Seq<char>)
    ensures
        values_of(h.push(e), name) == (if e.0 == name {
            values_of(h, name).push(e.1)
        } else {
            values_of(h, name)
        }),
{
    assert(h.push(e).drop_last() =~= h);
}

pub proof fn lemma_without_push(h: Seq<EntryView>, e: EntryView, name: Seq<char>)
    ensures
        without(h.push(e), name) == (if e.0 == name {
            without(h, name)
        } else {
            without(h, name).push(e)
        }),
{
    assert(h.push(e).drop_last() =~= h);
}

/// Dropping a name leaves no value under it and every other name's values as they were.
pub proof fn lemma_values_of_without(h: Seq<EntryView>, name: Seq<char>, other: Seq<char>)
    ensures
        values_of(without(h, name), other) == (if other == name {
            Seq::<Seq<u8>>::empty()
        } else {
            values_of(h, other)
        }),
    decreases h.len(),
{
    if h.len() > 0 {
        lemma_values_of_without(h.drop_last(), name, other);
        let rest = without(h.drop_last(), name);
        if h.last().0 != name {
            lemma_values_of_push(rest, h.last(), other);
        }
    }
}

/// After a replacement, `name` holds exactly the new value and other names are untouched.
pub proof fn lemma_values_of_replaced(
    h: Seq<EntryView>,
    name: Seq<char>,
    value: Seq<u8>,
    other: Seq<char>,
)
    ensures
        values_of(replaced(h, name, value), other) == (if other == name {
            seq![value]
        } else {
            values_of(h, other)
        }),
{
    lemma_values_of_without(h, name, other);
    lemma_values_of_push(without(h, name), (name, value), other);
    if other == name {
        assert(Seq::<Seq<u8>>::empty().push(value) =~= seq![value]);
    }
}

/// The headers of a response, in order; a name may occur more than once.
/// Names are held in lower case, as `http::HeaderName` gives them.
pub struct HeaderList {
    pub entries: Vec<(String, Vec<u8>)>,
}

impl View for HeaderList {
    type V = Seq<EntryView>;

    open spec fn view(&self) -> Seq<EntryView> {
        Seq::new(self.entries@.len(), |i: int| (self.entries@[i].0@, self.entries@[i].1@))
    }
}

impl HeaderList {
    pub fn new() -> (r: HeaderList)
        ensures
            r@ == Seq::<EntryView>::empty(),
    {
        let r = HeaderList { entries: Vec::new() };
        assert(r@ =~= Seq::<EntryView>::empty());
        r
    }

    /// Adds a value under `name` after the existing entries.
    pub fn append(&mut self, name: String, value: Vec<u8>)
        ensures
            final(self)@ == old(self)@.push((name@, value@)),
    {
        self.entries.push((name, value));
        assert(final(self)@ =~= old(self)@.push((name@, value@)));
    }

    pub fn len(&self) -> (r: usize)
        ensures
            r == self@.len(),
    {
        self.entries.len()
    }

    /// Whether some entry carries `name`.
    pub fn contains(&self, name: &str) -> (r: bool)
        ensures
            r == has_header(self@, name@),
    {
        let key = name.to_string();
        let mut i: usize = 0;
        let mut found = false;
        while i < self.entries.len()
            invariant
                i <= self.entries@.len(),
                key@ == name@,
                found == has_header(self@.subrange(0, i as int), name@),
            decreases self.entries@.len() - i,
        {
            proof {
                assert(self@.subrange(0, i + 1) =~= self@.subrange(0, i as int).push(self@[i as int]));
                lemma_values_of_push(self@.subrange(0, i as int), self@[i as int], name@);
            }
            if self.entries[i].0 == key {
                found = true;
            }
            i = i + 1;
        }
        assert(self@.subrange(0, i as int) =~= self@);
        found
    }

    /// Replaces every value under `name` by the single `value`, placed last.
    pub fn insert(&mut self, name: &str, value: Vec<u8>)
        ensures
            final(self)@ == replaced(old(self)@, name@, value@),
    {
        let key = name.to_string();
        let ghost before = self@;
        let mut kept: Vec<(String, Vec<u8>)> = Vec::new();
        let mut i: usize = 0;
        while i < self.entries.len()
            invariant
                i <= self.entries@.len(),
                key@ == name@,
                before == self@,
                before.len() == self.entries@.len(),
                forall|j: int|
                    0 <= j < before.len() ==> #[trigger] before[j] == (
                        self.entries@[j].0@,
                        self.entries@[j].1@,
                    ),
                (HeaderList { entries: kept })@ == without(before.subrange(0, i as int), name@),
            decreases self.entries@.len() - i,
        {
            proof {
                assert(before.subrange(0, i + 1) =~= before.subrange(0, i as int).push(before[i as int]));
                lemma_without_push(before.subrange(0, i as int), before[i as int], name@);
            }
            let e = &self.entries[i];
            if e.0 != key {
                let ghost prev = (HeaderList { entries: kept })@;
                kept.push((e.0.clone(), e.1.clone()));
                assert((HeaderList { entries: kept })@ =~= prev.push(before[i as int]));
            }
            i = i + 1;
        }
        assert(before.subrange(0, i as int) =~= before);
        kept.push((key, value));
        self.entries = kept;
        assert(self@ =~= replaced(before, name@, value@));
    }

    /// Adds `value` under `name` unless some entry already carries that name.
    pub fn insert_if_absent(&mut self, name: &str, value: Vec<u8>)
        ensures
            final(self)@ == added_if_absent(old(self)@, name@, value@),
    {
        if !self.contains(name) {
            self.append(name.to_string(), value);
        }
    }
}

} // verus!
