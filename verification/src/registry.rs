//! Lists of numbered things, kept by increasing number.
//!
//! A contract numbers its rounds as it creates them and keeps them in that
//! order. What is proved here holds of every such list.

use vstd::prelude::*;

verus! {

/// A thing that carries the number it was given when it was created.
pub trait Numbered {
    /// The number of this thing.
    spec fn number(&self) -> u32;

    fn iid(&self) -> (iid: u32)
        ensures
            iid == self.number(),
    ;
}

/// Whether the things are listed by strictly increasing number.
pub open spec fn ascending<T: Numbered>(list: Seq<T>) -> bool {
    forall|i: int, j: int| 0 <= i < j < list.len() ==> list[i].number() < list[j].number()
}

/// Whether a thing numbered `iid` is listed.
pub open spec fn has_iid<T: Numbered>(list: Seq<T>, iid: u32) -> bool {
    exists|i: int| 0 <= i < list.len() && (#[trigger] list[i]).number() == iid
}

/// Where the thing numbered `iid` is listed.
pub open spec fn index_of<T: Numbered>(list: Seq<T>, iid: u32) -> int {
    choose|i: int| 0 <= i < list.len() && (#[trigger] list[i]).number() == iid
}

/// The thing numbered `iid`, if it is listed.
pub open spec fn lookup<T: Numbered>(list: Seq<T>, iid: u32) -> Option<T> {
    if has_iid(list, iid) {
        Some(list[index_of(list, iid)])
    } else {
        None
    }
}

/// In an ascending list, the thing at `i` is the one that `lookup` finds
/// under its number.
pub proof fn lemma_lookup_at<T: Numbered>(list: Seq<T>, i: int)
    requires
        ascending(list),
        0 <= i < list.len(),
    ensures
        has_iid(list, list[i].number()),
        index_of(list, list[i].number()) == i,
        lookup(list, list[i].number()) == Some(list[i]),
{
    let iid = list[i].number();
    assert(has_iid(list, iid));
    let j = index_of(list, iid);
    assert(0 <= j < list.len() && list[j].number() == iid);
    if j < i {
        assert(list[j].number() < list[i].number());
    } else if i < j {
        assert(list[i].number() < list[j].number());
    }
}

/// An ascending list of things numbered from one on cannot hold more
/// things than its last number.
pub proof fn lemma_ascending_numbers<T: Numbered>(list: Seq<T>, i: int)
    requires
        ascending(list),
        forall|k: int| 0 <= k < list.len() ==> (#[trigger] list[k]).number() >= 1,
        0 <= i < list.len(),
    ensures
        list[i].number() >= i + 1,
    decreases i,
{
    if i > 0 {
        lemma_ascending_numbers(list, i - 1);
        assert(list[i - 1].number() < list[i].number());
    }
}

/// The function that picks the number of a thing if the thing is
/// `wanted`.
pub open spec fn number_if<T: Numbered>(wanted: spec_fn(T) -> bool) -> spec_fn(T) -> Option<u32> {
    |inst: T|
        if wanted(inst) {
            Some(inst.number())
        } else {
            None
        }
}

/// The numbers of the listed things that are `wanted`, in the order of
/// the list.
pub open spec fn iids_where<T: Numbered>(list: Seq<T>, wanted: spec_fn(T) -> bool) -> Seq<u32> {
    list.filter_map(number_if(wanted))
}

/// What the thing at `i` adds to the numbers found among those before
/// it.
pub proof fn lemma_iids_where_step<T: Numbered>(list: Seq<T>, wanted: spec_fn(T) -> bool, i: int)
    requires
        0 <= i < list.len(),
    ensures
        iids_where(list.take(i + 1), wanted) == if wanted(list[i]) {
            iids_where(list.take(i), wanted).push(list[i].number())
        } else {
            iids_where(list.take(i), wanted)
        },
        iids_where(list.take(i + 1), wanted).len() <= i + 1,
{
    list.lemma_filter_map_take_succ(number_if(wanted), i);
    lemma_iids_where_len(list.take(i + 1), wanted);
    if wanted(list[i]) {
        assert(iids_where(list.take(i), wanted) + seq![list[i].number()] == iids_where(
            list.take(i),
            wanted,
        ).push(list[i].number()));
    } else {
        assert(iids_where(list.take(i), wanted) + Seq::<u32>::empty() == iids_where(
            list.take(i),
            wanted,
        ));
    }
}

/// Nothing is found among no things, and the whole list is its own
/// longest prefix.
pub proof fn lemma_iids_where_ends<T: Numbered>(list: Seq<T>, wanted: spec_fn(T) -> bool)
    ensures
        iids_where(list.take(0), wanted) == Seq::<u32>::empty(),
        iids_where(list.take(list.len() as int), wanted) == iids_where(list, wanted),
{
    assert(list.take(list.len() as int) == list);
    assert(list.take(0).len() == 0);
}

/// No more numbers are found tha things are listed.
pub proof fn lemma_iids_where_len<T: Numbered>(list: Seq<T>, wanted: spec_fn(T) -> bool)
    ensures
        iids_where(list, wanted).len() <= list.len(),
    decreases list.len(),
{
    if list.len() > 0 {
        lemma_iids_where_len(list.drop_last(), wanted);
    }
}

/// Taking the thing at `i` out of an ascending list leaves an ascending
/// list in which every other number is found as before, and the number that
/// was taken out is not found.
pub proof fn lemma_lookup_removed<T: Numbered>(list: Seq<T>, i: int, iid: u32)
    requires
        ascending(list),
        0 <= i < list.len(),
    ensures
        ascending(list.remove(i)),
        lookup(list.remove(i), iid) == if iid == list[i].number() {
            None
        } else {
            lookup(list, iid)
        },
{
    let rest = list.remove(i);
    assert forall|a: int, b: int| 0 <= a < b < rest.len() implies rest[a].number() < rest[b].number() by {
        let a0 = if a < i { a } else { a + 1 };
        let b0 = if b < i { b } else { b + 1 };
        assert(rest[a] == list[a0] && rest[b] == list[b0]);
    }
    if has_iid(rest, iid) {
        let j = index_of(rest, iid);
        let j0 = if j < i { j } else { j + 1 };
        assert(rest[j] == list[j0]);
        lemma_lookup_at(list, j0);
        lemma_lookup_at(rest, j);
        if iid == list[i].number() {
            lemma_lookup_at(list, i);
        }
    } else if has_iid(list, iid) {
        let j0 = index_of(list, iid);
        lemma_lookup_at(list, j0);
        if j0 != i {
            let j = if j0 < i { j0 } else { j0 - 1 };
            assert(rest[j] == list[j0]);
        } else {
        }
    }
}

/// Whether no two of the listed things carry the same number.
pub open spec fn distinct_numbers<T: Numbered>(list: Seq<T>) -> bool {
    forall|i: int, j: int| 0 <= i < j < list.len() ==> list[i].number() != list[j].number()
}

/// In an ascending list no number occurs twice.
pub proof fn lemma_ascending_is_distinct<T: Numbered>(list: Seq<T>)
    requires
        ascending(list),
    ensures
        distinct_numbers(list),
{
}

/// Where no number occurs twice, the thing at `i` is the one that `lookup`
/// finds under its number.
pub proof fn lemma_distinct_lookup_at<T: Numbered>(list: Seq<T>, i: int)
    requires
        distinct_numbers(list),
        0 <= i < list.len(),
    ensures
        has_iid(list, list[i].number()),
        index_of(list, list[i].number()) == i,
        lookup(list, list[i].number()) == Some(list[i]),
{
    let iid = list[i].number();
    assert(has_iid(list, iid));
    let j = index_of(list, iid);
    assert(0 <= j < list.len() && list[j].number() == iid);
    if j < i {
        assert(list[j].number() != list[i].number());
    } else if i < j {
        assert(list[i].number() != list[j].number());
    }
}

/// Putting another thing with the same number in the place of the thing at
/// `i` changes what is found under that number, and nothing else.
pub proof fn lemma_lookup_updated<T: Numbered>(list: Seq<T>, i: int, thing: T, iid: u32)
    requires
        distinct_numbers(list),
        0 <= i < list.len(),
        thing.number() == list[i].number(),
    ensures
        distinct_numbers(list.update(i, thing)),
        lookup(list.update(i, thing), iid) == if iid == thing.number() {
            Some(thing)
        } else {
            lookup(list, iid)
        },
{
    let after = list.update(i, thing);
    assert forall|a: int, b: int| 0 <= a < b < after.len() implies after[a].number()
        != after[b].number() by {
        assert(after[a].number() == list[a].number() && after[b].number() == list[b].number());
    }
    lemma_distinct_lookup_at(after, i);
    if iid != thing.number() {
        if has_iid(after, iid) {
            let j = index_of(after, iid);
            assert(after[j].number() == list[j].number());
            lemma_distinct_lookup_at(list, j);
            lemma_distinct_lookup_at(after, j);
        } else if has_iid(list, iid) {
            let j = index_of(list, iid);
            assert(after[j].number() == iid);
        }
    }
}

/// Listing one more thing, under a number that was not listed, adds what is
/// found under that number, and changes nothing else.
pub proof fn lemma_lookup_pushed<T: Numbered>(list: Seq<T>, thing: T, iid: u32)
    requires
        distinct_numbers(list),
        !has_iid(list, thing.number()),
    ensures
        distinct_numbers(list.push(thing)),
        lookup(list.push(thing), iid) == if iid == thing.number() {
            Some(thing)
        } else {
            lookup(list, iid)
        },
{
    let after = list.push(thing);
    assert forall|a: int, b: int| 0 <= a < b < after.len() implies after[a].number()
        != after[b].number() by {
        if b == list.len() {
            assert(list[a].number() != thing.number());
        }
    }
    lemma_distinct_lookup_at(after, list.len() as int);
    if iid != thing.number() {
        if has_iid(after, iid) {
            let j = index_of(after, iid);
            assert(j < list.len());
            assert(list[j].number() == iid);
            lemma_distinct_lookup_at(list, j);
            lemma_distinct_lookup_at(after, j);
        } else if has_iid(list, iid) {
            let j = index_of(list, iid);
            assert(after[j].number() == iid);
        }
    }
}

/// Taking the thing at `i` out of a list without repeated numbers leaves
/// such a list in which every other number is found as before, and the
/// number that was taken out is not found.
pub proof fn lemma_distinct_lookup_removed<T: Numbered>(list: Seq<T>, i: int, iid: u32)
    requires
        distinct_numbers(list),
        0 <= i < list.len(),
    ensures
        distinct_numbers(list.remove(i)),
        lookup(list.remove(i), iid) == if iid == list[i].number() {
            None
        } else {
            lookup(list, iid)
        },
{
    let rest = list.remove(i);
    assert forall|a: int, b: int| 0 <= a < b < rest.len() implies rest[a].number()
        != rest[b].number() by {
        let a0 = if a < i { a } else { a + 1 };
        let b0 = if b < i { b } else { b + 1 };
        assert(rest[a] == list[a0] && rest[b] == list[b0]);
    }
    if has_iid(rest, iid) {
        let j = index_of(rest, iid);
        let j0 = if j < i { j } else { j + 1 };
        assert(rest[j] == list[j0]);
        lemma_distinct_lookup_at(list, j0);
        lemma_distinct_lookup_at(rest, j);
        if iid == list[i].number() {
            lemma_distinct_lookup_at(list, i);
        }
    } else if has_iid(list, iid) {
        let j0 = index_of(list, iid);
        lemma_distinct_lookup_at(list, j0);
        if j0 != i {
            let j = if j0 < i { j0 } else { j0 - 1 };
            assert(rest[j] == list[j0]);
        }
    }
}

/// Whether no two of the listed things carry the same number.
pub fn is_distinct<T: Numbered>(list: &Vec<T>) -> (yes: bool)
    ensures
        yes == distinct_numbers(list@),
{
    let mut i: usize = 0;
    while i < list.len()
        invariant
            i <= list@.len(),
            forall|a: int, b: int| 0 <= a < b < i ==> list@[a].number() != list@[b].number(),
        decreases list@.len() - i,
    {
        let mut j: usize = 0;
        while j < i
            invariant
                i < list@.len(),
                j <= i,
                forall|a: int| 0 <= a < j ==> list@[a].number() != list@[i as int].number(),
            decreases i - j,
        {
            if list[j].iid() == list[i].iid() {
                return false;
            }
            j += 1;
        }
        i += 1;
    }
    true
}

/// Where the thing numbered `iid` is listed, if it is, in a list without
/// repeated numbers.
pub fn find_distinct<T: Numbered>(list: &Vec<T>, iid: u32) -> (at: Option<usize>)
    requires
        distinct_numbers(list@),
    ensures
        match at {
            Some(i) => i < list@.len() && list@[i as int].number() == iid && lookup(list@, iid)
                == Some(list@[i as int]) && index_of(list@, iid) == i,
            None => lookup(list@, iid) is None,
        },
{
    let mut i: usize = 0;
    while i < list.len()
        invariant
            distinct_numbers(list@),
            i <= list@.len(),
            forall|j: int| 0 <= j < i ==> (#[trigger] list@[j]).number() != iid,
        decreases list@.len() - i,
    {
        if list[i].iid() == iid {
            proof {
                lemma_distinct_lookup_at(list@, i as int);
            }
            return Some(i);
        }
        i += 1;
    }
    None
}

/// Whether the things are listed by strictly increasing number.
pub fn is_ascending<T: Numbered>(list: &Vec<T>) -> (yes: bool)
    ensures
        yes == ascending(list@),
{
    if list.len() < 2 {
        return true;
    }
    let mut i: usize = 1;
    while i < list.len()
        invariant
            1 <= i <= list@.len(),
            forall|a: int, b: int| 0 <= a < b < i ==> list@[a].number() < list@[b].number(),
        decreases list@.len() - i,
    {
        if list[i - 1].iid() >= list[i].iid() {
            return false;
        }
        proof {
            assert forall|a: int, b: int| 0 <= a < b < i + 1 implies list@[a].number()
                < list@[b].number() by {
                if b == i && a < i - 1 {
                    assert(list@[a].number() < list@[i - 1].number());
                }
            }
        }
        i += 1;
    }
    true
}

/// Where the thing numbered `iid` is listed, if it is.
pub fn find<T: Numbered>(list: &Vec<T>, iid: u32) -> (at: Option<usize>)
    requires
        ascending(list@),
    ensures
        match at {
            Some(i) => i < list@.len() && list@[i as int].number() == iid && lookup(list@, iid)
                == Some(list@[i as int]) && index_of(list@, iid) == i,
            None => lookup(list@, iid) is None,
        },
{
    let mut i: usize = 0;
    while i < list.len()
        invariant
            ascending(list@),
            i <= list@.len(),
            forall|j: int| 0 <= j < i ==> (#[trigger] list@[j]).number() != iid,
        decreases list@.len() - i,
    {
        if list[i].iid() == iid {
            proof {
                lemma_lookup_at(list@, i as int);
            }
            return Some(i);
        }
        i += 1;
    }
    None
}

} // verus!
