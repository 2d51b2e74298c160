//! Subscriptions that are kept for as long as they are wanted.

use vstd::prelude::*;

verus! {

/// Live subscriptions, one for each key. Dropping a handle unsubscribes.
#[derive(Debug)]
pub struct Subscriptions<H> {
    live: Vec<(String, H)>,
}

/// Whether no key occurs twice.
spec fn distinct<H>(entries: Seq<(String, H)>) -> bool {
    forall|i: int, j: int|
        0 <= i < j < entries.len() ==> (#[trigger] entries[i]).0@ != (#[trigger] entries[j]).0@
}

/// The handle of a key.
spec fn lookup<H>(entries: Seq<(String, H)>, key: Seq<char>) -> Option<H>
    decreases entries.len(),
{
    if entries.len() == 0 {
        None
    } else if entries.last().0@ == key {
        Some(entries.last().1)
    } else {
        lookup(entries.drop_last(), key)
    }
}

proof fn lemma_lookup<H>(entries: Seq<(String, H)>, i: int)
    requires
        distinct(entries),
        0 <= i < entries.len(),
    ensures
        lookup(entries, entries[i].0@) == Some(entries[i].1),
    decreases entries.len(),
{
    if i < entries.len() - 1 {
        assert(entries[i].0@ != entries[entries.len() - 1].0@);
        let rest = entries.drop_last();
        assert forall|a: int, b: int| 0 <= a < b < rest.len() implies (#[trigger] rest[a]).0@ != (
        #[trigger] rest[b]).0@ by {
            assert(rest[a] == entries[a] && rest[b] == entries[b]);
        }
        lemma_lookup(rest, i);
    }
}

proof fn lemma_absent<H>(entries: Seq<(String, H)>, key: Seq<char>)
    ensures
        lookup(entries, key) is None <==> forall|i: int|
            0 <= i < entries.len() ==> (#[trigger] entries[i]).0@ != key,
    decreases entries.len(),
{
    if entries.len() > 0 {
        let rest = entries.drop_last();
        lemma_absent(rest, key);
        if lookup(entries, key) is None {
            assert forall|i: int| 0 <= i < entries.len() implies (#[trigger] entries[i]).0@
                != key by {
                if i < entries.len() - 1 {
                    assert(rest[i] == entries[i]);
                }
            }
        } else {
            if entries.last().0@ == key {
                assert(entries[entries.len() - 1].0@ == key);
            } else {
                let i = choose|i: int| 0 <= i < rest.len() && (#[trigger] rest[i]).0@ == key;
                assert(entries[i].0@ == key);
            }
        }
    }
}

/// The first wanted item of a key.
pub open spec fn first_wanted<T>(wanted: Seq<(String, T)>, key: Seq<char>) -> Option<T>
    decreases wanted.len(),
{
    if wanted.len() == 0 {
        None
    } else {
        match first_wanted(wanted.drop_last(), key) {
            Some(item) => Some(item),
            None => if wanted.last().0@ == key {
                Some(wanted.last().1)
            } else {
                None
            },
        }
    }
}

/// Whether two lists of wanted items have the same keys.
pub open spec fn same_keys<T, U>(a: Seq<(String, T)>, b: Seq<(String, U)>) -> bool {
    forall|key: Seq<char>|
        (#[trigger] first_wanted(a, key)) is Some <==> (#[trigger] first_wanted(b, key)) is Some
}

/// Where a key is wanted first, and the length of the list where it is not.
pub open spec fn first_place<T>(wanted: Seq<(String, T)>, key: Seq<char>) -> int
    decreases wanted.len(),
{
    if wanted.len() == 0 {
        0
    } else if first_wanted(wanted.drop_last(), key) is None && wanted.last().0@ != key {
        wanted.len() as int
    } else {
        first_place(wanted.drop_last(), key)
    }
}

/// Keys, each with its item.
pub open spec fn keyed<T>(entries: Seq<(String, T)>) -> Seq<(Seq<char>, T)> {
    entries.map_values(|entry: (String, T)| (entry.0@, entry.1))
}

/// What is opened to have the wanted keys live: the first item of each that is
/// not, in the order in which they are wanted.
pub open spec fn fresh<H, T>(live: Subscriptions<H>, wanted: Seq<(String, T)>) -> Seq<
    (Seq<char>, T),
>
    decreases wanted.len(),
{
    if wanted.len() == 0 {
        Seq::empty()
    } else {
        let before = fresh(live, wanted.drop_last());
        let key = wanted.last().0@;
        if live.handle(key) is Some || first_wanted(wanted.drop_last(), key) is Some {
            before
        } else {
            before.push((key, wanted.last().1))
        }
    }
}

/// Whether exactly the wanted keys are live in the end, with the handles that
/// they had if they were live in the beginning.
pub open spec fn reconciled<H, T>(
    before: Subscriptions<H>,
    wanted: Seq<(String, T)>,
    after: Subscriptions<H>,
) -> bool {
    &&& forall|key: Seq<char>|
        (#[trigger] after.handle(key)) is Some <==> first_wanted(wanted, key) is Some
    &&& forall|key: Seq<char>|
        first_wanted(wanted, key) is Some && before.handle(key) is Some ==> (
        #[trigger] after.handle(key)) == before.handle(key)
}

/// The items that go with keys.
pub open spec fn items_of<T>(entries: Seq<(Seq<char>, T)>) -> Seq<T> {
    entries.map_values(|entry: (Seq<char>, T)| entry.1)
}

/// The handles that are live for keys.
pub open spec fn handles_for<H, T>(live: Subscriptions<H>, entries: Seq<(Seq<char>, T)>) -> Seq<H> {
    entries.map_values(|entry: (Seq<char>, T)| live.handle(entry.0)->0)
}

/// Whether an opener that was run on items, once on each and one after the other,
/// can have given these handles and gone through these states.
pub open spec fn steps<S, T, H, F: Fn(S, T) -> (S, H)>(
    open: F,
    items: Seq<T>,
    states: Seq<S>,
    handles: Seq<H>,
) -> bool {
    &&& states.len() == items.len() + 1
    &&& handles.len() == items.len()
    &&& forall|i: int|
        0 <= i < items.len() ==> open.ensures(
            (states[i], items[i]),
            (states[i + 1], #[trigger] handles[i]),
        )
}

/// Whether an opener that was run on items, once on each and one after the other,
/// can have given these handles. What it works on is handed from run to run.
pub open spec fn ran<S, T, H, F: Fn(S, T) -> (S, H)>(
    open: F,
    items: Seq<T>,
    before: S,
    handles: Seq<H>,
    after: S,
) -> bool {
    exists|states: Seq<S>|
        #[trigger] steps(open, items, states, handles) && states[0] == before && states.last()
            == after
}

/// Whether an opener can be run on items one after the other.
pub open spec fn can_run<S, T, H, F: Fn(S, T) -> (S, H)>(open: F, items: Seq<T>, before: S) -> bool {
    forall|n: int, handles: Seq<H>, last: S|
        0 <= n < items.len() && #[trigger] ran(open, items.take(n), before, handles, last)
            ==> open.requires((last, items[n]))
}

/// Whether a key is among others.
spec fn names(keys: Seq<String>, key: Seq<char>) -> bool {
    exists|k: int| 0 <= k < keys.len() && (#[trigger] keys[k])@ == key
}

impl<H> Subscriptions<H> {
    #[verifier::type_invariant]
    spec fn each_once(self) -> bool {
        distinct(self.live@)
    }

    /// The handle that is live for a key.
    pub closed spec fn handle(&self, key: Seq<char>) -> Option<H> {
        lookup(self.live@, key)
    }

    /// No subscription.
    pub fn new() -> (r: Self)
        ensures
            forall|key: Seq<char>| (#[trigger] r.handle(key)) is None,
    {
        Subscriptions { live: Vec::new() }
    }

    /// Whether a key is live.
    pub fn is_live(&self, key: &String) -> (r: bool)
        ensures
            r == (self.handle(key@) is Some),
    {
        proof {
            lemma_absent(self.live@, key@);
        }
        has_key(&self.live, key)
    }

    /// What is to be opened to have the wanted keys live.
    pub fn unopened<T>(&self, wanted: Vec<(String, T)>) -> (r: Vec<(String, T)>)
        ensures
            keyed(r@) == fresh(*self, wanted@),
    {
        let ghost all = wanted@;
        let ghost mut n: int = 0;
        let mut wanted = wanted;
        let mut r: Vec<(String, T)> = Vec::new();
        proof {
            assert(all.skip(0) =~= all);
            assert(all.take(0) =~= Seq::empty());
            assert(keyed(r@) =~= Seq::empty());
        }
        while wanted.len() > 0
            invariant
                0 <= n,
                n + wanted@.len() == all.len(),
                wanted@ == all.skip(n),
                keyed(r@) == fresh(*self, all.take(n)),
            decreases wanted@.len(),
        {
            let ghost was = r@;
            let (key, item) = wanted.remove(0);
            proof {
                assert(all[n].0 == key && all[n].1 == item);
                assert(all.take(n + 1).drop_last() =~= all.take(n));
                lemma_fresh(*self, all.take(n), key@);
                assert forall|i: int| 0 <= i < was.len() implies keyed(was)[i].0
                    == (#[trigger] was[i]).0@ by {}
                if first_wanted(all.take(n), key@) is Some && self.handle(key@) is None {
                    let i = choose|i: int|
                        0 <= i < fresh(*self, all.take(n)).len() && (#[trigger] fresh(
                            *self,
                            all.take(n),
                        )[i]).0 == key@;
                    assert(was[i].0@ == key@);
                }
            }
            if !self.is_live(&key) && !has_key(&r, &key) {
                proof {
                    assert(first_wanted(all.take(n), key@) is None) by {
                        if first_wanted(all.take(n), key@) is Some {
                            let i = choose|i: int|
                                0 <= i < was.len() && (#[trigger] was[i]).0@ == key@;
                        }
                    }
                }
                r.push((key, item));
                proof {
                    assert(keyed(r@) =~= keyed(was).push((key@, item)));
                }
            } else {
                proof {
                    if self.handle(key@) is None {
                        let i = choose|i: int| 0 <= i < was.len() && (#[trigger] was[i]).0@ == key@;
                        assert(keyed(was)[i].0 == key@);
                    }
                }
            }
            proof {
                n = n + 1;
                assert(wanted@ =~= all.skip(n));
            }
        }
        proof {
            assert(all.take(all.len() as int) =~= all);
        }
        r
    }

    /// Take in the subscriptions that were opened, and drop those whose key is
    /// not among the given ones.
    fn settle(&mut self, keys: Vec<String>, opened: Vec<(String, H)>)
        requires
            distinct(opened@),
            forall|i: int|
                0 <= i < opened@.len() ==> old(self).handle((#[trigger] opened@[i]).0@) is None,
        ensures
            forall|key: Seq<char>|
                (#[trigger] final(self).handle(key)) == (if !names(keys@, key) {
                    None
                } else if old(self).handle(key) is Some {
                    old(self).handle(key)
                } else {
                    lookup(opened@, key)
                }),
    {
        proof {
            use_type_invariant(&*self);
        }
        let ghost before = self.live@;
        let ghost new = opened@;
        let mut opened = opened;
        let mut live: Vec<(String, H)> = Vec::new();
        std::mem::swap(&mut live, &mut self.live);
        live.append(&mut opened);
        let ghost full = before + new;
        proof {
            assert(live@ =~= full);
            assert forall|a: int, b: int| 0 <= a < b < full.len() implies (#[trigger] full[a]).0@
                != (#[trigger] full[b]).0@ by {
                if b < before.len() {
                    assert(before[a].0@ != before[b].0@);
                } else if a >= before.len() {
                    assert(new[a - before.len()].0@ != new[b - before.len()].0@);
                } else {
                    assert(lookup(before, new[b - before.len()].0@) is None);
                    lemma_absent(before, full[b].0@);
                    assert(before[a].0@ != full[b].0@);
                }
            }
            assert forall|key: Seq<char>| (#[trigger] lookup(full, key)) == (if lookup(before, key)
                is Some {
                lookup(before, key)
            } else {
                lookup(new, key)
            }) by {
                lemma_lookup_both(before, new, key);
            }
        }
        let mut kept: Vec<(String, H)> = Vec::new();
        let ghost mut done: int = 0;
        proof {
            assert(full.skip(0) =~= full);
        }
        while live.len() > 0
            invariant
                done + live@.len() == full.len(),
                0 <= done,
                live@ == full.skip(done),
                distinct(full),
                distinct(kept@),
                forall|k: int|
                    0 <= k < kept@.len() ==> exists|j: int|
                        0 <= j < done && full[j] == #[trigger] kept@[k],
                forall|k: int|
                    0 <= k < kept@.len() ==> names(keys@, (#[trigger] kept@[k]).0@),
                forall|j: int|
                    0 <= j < done && names(keys@, (#[trigger] full[j]).0@) ==> kept@.contains(
                        full[j],
                    ),
            decreases live@.len(),
        {
            let ghost was = kept@;
            let entry = live.remove(0);
            proof {
                assert(full[done] == entry);
            }
            if has_name(&keys, &entry.0) {
                proof {
                    assert forall|k: int| 0 <= k < was.len() implies (#[trigger] was[k]).0@
                        != entry.0@ by {
                        let j = choose|j: int| 0 <= j < done && full[j] == was[k];
                        assert(full[j].0@ != full[done].0@);
                    }
                }
                kept.push(entry);
                proof {
                    assert(kept@[was.len() as int] == full[done]);
                    assert forall|k: int| 0 <= k < kept@.len() implies exists|j: int|
                        0 <= j < done + 1 && full[j] == #[trigger] kept@[k] by {
                        if k < was.len() {
                            let j = choose|j: int| 0 <= j < done && full[j] == was[k];
                            assert(full[j] == kept@[k]);
                        } else {
                            assert(full[done] == kept@[k]);
                        }
                    }
                    assert forall|j: int|
                        0 <= j < done + 1 && names(
                            keys@,
                            (#[trigger] full[j]).0@,
                        ) implies kept@.contains(full[j]) by {
                        if j < done {
                            let k = choose|k: int| 0 <= k < was.len() && was[k] == full[j];
                            assert(kept@[k] == full[j]);
                        }
                    }
                }
            }
            proof {
                done = done + 1;
            }
        }
        proof {
            assert forall|key: Seq<char>| (#[trigger] lookup(kept@, key)) == (if names(keys@, key) {
                lookup(full, key)
            } else {
                None
            }) by {
                lemma_kept(full, kept@, keys@, key);
            }
        }
        self.live = kept;
    }

    /// Have exactly the wanted keys live: those that are not are opened, those
    /// that are stay as they are, and the rest is dropped. The opener is run once
    /// for each key that is not live, on the first item wanted for it, in the order
    /// in which the keys are wanted. What it works on goes through its hands from
    /// one run to the next, and comes back from the last.
    pub fn reconcile<S, T, F: Fn(S, T) -> (S, H)>(
        &mut self,
        wanted: Vec<(String, T)>,
        state: S,
        open: F,
    ) -> (r: S)
        requires
            can_run(open, items_of(fresh(*old(self), wanted@)), state),
        ensures
            reconciled(*old(self), wanted@, *final(self)),
            ran(
                open,
                items_of(fresh(*old(self), wanted@)),
                state,
                handles_for(*final(self), fresh(*old(self), wanted@)),
                r,
            ),
    {
        let ghost before = *self;
        let ghost all = wanted@;
        let mut keys: Vec<String> = Vec::new();
        let mut i: usize = 0;
        while i < wanted.len()
            invariant
                i <= wanted@.len(),
                keys@.len() == i,
                forall|k: int| 0 <= k < i ==> (#[trigger] keys@[k])@ == wanted@[k].0@,
            decreases wanted@.len() - i,
        {
            keys.push(wanted[i].0.clone());
            i = i + 1;
        }
        proof {
            assert forall|key: Seq<char>| (#[trigger] names(keys@, key)) == (first_wanted(all, key)
                is Some) by {
                lemma_wanted(all, key);
                if names(keys@, key) {
                    let k = choose|k: int| 0 <= k < keys@.len() && (#[trigger] keys@[k])@ == key;
                    assert(all[k].0@ == key);
                }
                if first_wanted(all, key) is Some {
                    let k = choose|k: int| 0 <= k < all.len() && (#[trigger] all[k]).0@ == key;
                    assert(keys@[k]@ == key);
                }
            }
        }
        let missing = self.unopened(wanted);
        proof {
            the_first_of_each_missing_key_is_opened(before, all);
            assert(items_of(keyed(missing@)) =~= missing@.map_values(
                |entry: (String, T)| entry.1,
            ));
        }
        let ghost asked = missing@;
        let (opened, after) = open_each(missing, state, open);
        proof {
            assert forall|i: int| 0 <= i < opened@.len() implies (#[trigger] opened@[i]).0@
                == fresh(before, all)[i].0 by {
                assert(keyed(asked)[i] == fresh(before, all)[i]);
            }
            assert forall|i: int| 0 <= i < opened@.len() implies before.handle(
                (#[trigger] opened@[i]).0@,
            ) is None by {
                assert(opened@[i].0@ == fresh(before, all)[i].0);
            }
            assert forall|a: int, b: int| 0 <= a < b < opened@.len() implies (
            #[trigger] opened@[a]).0@ != (#[trigger] opened@[b]).0@ by {
                assert(fresh(before, all)[a].0 != fresh(before, all)[b].0);
            }
        }
        let ghost new = opened@;
        self.settle(keys, opened);
        proof {
            assert forall|key: Seq<char>|
                first_wanted(all, key) is Some && before.handle(key) is None implies (
            #[trigger] lookup(new, key)) is Some by {
                lemma_fresh(before, all, key);
                let i = choose|i: int|
                    0 <= i < fresh(before, all).len() && (#[trigger] fresh(before, all)[i]).0 == key;
                assert(new[i].0@ == key);
                lemma_absent(new, key);
            }
            assert forall|key: Seq<char>|
                (#[trigger] self.handle(key)) is Some <==> first_wanted(all, key) is Some by {
                assert(names(keys@, key) == (first_wanted(all, key) is Some));
                if first_wanted(all, key) is Some && before.handle(key) is None {
                    assert(lookup(new, key) is Some);
                }
            }
            let handles = handles_for(*self, fresh(before, all));
            assert(handles =~= new.map_values(|entry: (String, H)| entry.1)) by {
                assert forall|i: int| 0 <= i < handles.len() implies #[trigger] handles[i]
                    == new[i].1 by {
                    let key = fresh(before, all)[i].0;
                    assert(new[i].0@ == key);
                    lemma_lookup(new, i);
                    assert(names(keys@, key));
                    assert(self.handle(key) == Some(new[i].1));
                }
            }
        }
        after
    }
}

/// Open each entry, in their order.
fn open_each<S, T, H, F: Fn(S, T) -> (S, H)>(
    entries: Vec<(String, T)>,
    state: S,
    open: F,
) -> (r: (Vec<(String, H)>, S))
    requires
        can_run(open, entries@.map_values(|entry: (String, T)| entry.1), state),
    ensures
        r.0@.len() == entries@.len(),
        forall|i: int| 0 <= i < r.0@.len() ==> (#[trigger] r.0@[i]).0@ == entries@[i].0@,
        ran(
            open,
            entries@.map_values(|entry: (String, T)| entry.1),
            state,
            r.0@.map_values(|entry: (String, H)| entry.1),
            r.1,
        ),
{
    let ghost all = entries@;
    let ghost items = all.map_values(|entry: (String, T)| entry.1);
    let ghost begun = state;
    let mut entries = entries;
    let mut state = state;
    let mut r: Vec<(String, H)> = Vec::new();
    proof {
        assert(all.skip(0) =~= all);
        assert(items.take(0) =~= Seq::empty());
        assert(r@.map_values(|entry: (String, H)| entry.1) =~= Seq::empty());
        assert(steps(open, items.take(0), seq![state], Seq::<H>::empty()));
    }
    while entries.len() > 0
        invariant
            r@.len() + entries@.len() == all.len(),
            entries@ == all.skip(r@.len() as int),
            items == all.map_values(|entry: (String, T)| entry.1),
            can_run(open, items, begun),
            forall|i: int| 0 <= i < r@.len() ==> (#[trigger] r@[i]).0@ == all[i].0@,
            ran(
                open,
                items.take(r@.len() as int),
                begun,
                r@.map_values(|entry: (String, H)| entry.1),
                state,
            ),
        decreases entries@.len(),
    {
        let ghost n = r@.len() as int;
        let ghost handles = r@.map_values(|entry: (String, H)| entry.1);
        let ghost last = state;
        let (key, item) = entries.remove(0);
        proof {
            assert(all[n].0 == key && all[n].1 == item);
            assert(items[n] == item);
        }
        let (next, handle) = open(state, item);
        state = next;
        r.push((key, handle));
        proof {
            assert(entries@ =~= all.skip(r@.len() as int));
            let more = r@.map_values(|entry: (String, H)| entry.1);
            assert(more =~= handles.push(handle));
            let states = choose|states: Seq<S>|
                #[trigger] steps(open, items.take(n), states, handles) && states[0] == begun
                    && states.last() == last;
            let further = states.push(state);
            assert forall|i: int| 0 <= i < n + 1 implies open.ensures(
                (further[i], items.take(n + 1)[i]),
                (further[i + 1], #[trigger] more[i]),
            ) by {
                if i < n {
                    assert(items.take(n)[i] == items.take(n + 1)[i]);
                    assert(handles[i] == more[i]);
                }
            }
            assert(steps(open, items.take(n + 1), further, more));
        }
    }
    proof {
        assert(items.take(items.len() as int) =~= items);
    }
    (r, state)
}

fn has_name(keys: &Vec<String>, key: &String) -> (r: bool)
    ensures
        r == names(keys@, key@),
{
    let mut i: usize = 0;
    while i < keys.len()
        invariant
            i <= keys@.len(),
            forall|k: int| 0 <= k < i ==> (#[trigger] keys@[k])@ != key@,
        decreases keys@.len() - i,
    {
        if keys[i] == *key {
            return true;
        }
        i = i + 1;
    }
    false
}

fn has_key<H>(entries: &Vec<(String, H)>, key: &String) -> (r: bool)
    ensures
        r == exists|i: int| 0 <= i < entries@.len() && (#[trigger] entries@[i]).0@ == key@,
{
    let mut i: usize = 0;
    while i < entries.len()
        invariant
            i <= entries@.len(),
            forall|k: int| 0 <= k < i ==> (#[trigger] entries@[k]).0@ != key@,
        decreases entries@.len() - i,
    {
        if entries[i].0 == *key {
            return true;
        }
        i = i + 1;
    }
    false
}

proof fn lemma_wanted<T>(wanted: Seq<(String, T)>, key: Seq<char>)
    ensures
        first_wanted(wanted, key) is Some <==> exists|k: int|
            0 <= k < wanted.len() && (#[trigger] wanted[k]).0@ == key,
    decreases wanted.len(),
{
    if wanted.len() > 0 {
        let rest = wanted.drop_last();
        lemma_wanted(rest, key);
        if first_wanted(rest, key) is Some {
            let k = choose|k: int| 0 <= k < rest.len() && (#[trigger] rest[k]).0@ == key;
            assert(wanted[k].0@ == key);
        }
        if exists|k: int| 0 <= k < wanted.len() && (#[trigger] wanted[k]).0@ == key {
            let k = choose|k: int| 0 <= k < wanted.len() && (#[trigger] wanted[k]).0@ == key;
            if k < rest.len() {
                assert(rest[k].0@ == key);
            }
        }
        if wanted.last().0@ == key {
            assert(wanted[wanted.len() - 1].0@ == key);
        }
    }
}

/// A key is found where it is wanted first, with the item that it has there.
proof fn lemma_first_is_wanted<T>(wanted: Seq<(String, T)>, key: Seq<char>)
    requires
        first_wanted(wanted, key) is Some,
    ensures
        0 <= first_place(wanted, key) < wanted.len(),
        wanted[first_place(wanted, key)].0@ == key,
        first_wanted(wanted, key) == Some(wanted[first_place(wanted, key)].1),
    decreases wanted.len(),
{
    let rest = wanted.drop_last();
    if first_wanted(rest, key) is Some {
        lemma_first_is_wanted(rest, key);
    } else {
        lemma_no_place(rest, key);
    }
}

proof fn lemma_no_place<T>(wanted: Seq<(String, T)>, key: Seq<char>)
    requires
        first_wanted(wanted, key) is None,
    ensures
        first_place(wanted, key) == wanted.len(),
{
}

proof fn lemma_fresh<H, T>(live: Subscriptions<H>, wanted: Seq<(String, T)>, key: Seq<char>)
    ensures
        (first_wanted(wanted, key) is Some && live.handle(key) is None) <==> exists|i: int|
            0 <= i < fresh(live, wanted).len() && (#[trigger] fresh(live, wanted)[i]).0 == key,
    decreases wanted.len(),
{
    if wanted.len() > 0 {
        let rest = wanted.drop_last();
        let now = fresh(live, wanted);
        let before = fresh(live, rest);
        lemma_fresh(live, rest, key);
        if first_wanted(rest, key) is Some && live.handle(key) is None {
            let i = choose|i: int| 0 <= i < before.len() && (#[trigger] before[i]).0 == key;
            assert(now[i].0 == key);
        } else {
            if first_wanted(wanted, key) is Some && live.handle(key) is None {
                assert(now[before.len() as int].0 == key);
            }
            assert forall|i: int| 0 <= i < now.len() && (#[trigger] now[i]).0
                == key implies first_wanted(wanted, key) is Some && live.handle(key) is None by {
                if i < before.len() {
                    assert(before[i].0 == key);
                }
            }
        }
    }
}

proof fn lemma_lookup_both<H>(a: Seq<(String, H)>, b: Seq<(String, H)>, key: Seq<char>)
    requires
        forall|i: int| 0 <= i < b.len() ==> lookup(a, (#[trigger] b[i]).0@) is None,
    ensures
        lookup(a + b, key) == (if lookup(a, key) is Some {
            lookup(a, key)
        } else {
            lookup(b, key)
        }),
    decreases b.len(),
{
    if b.len() == 0 {
        assert(a + b =~= a);
    } else {
        assert((a + b).drop_last() =~= a + b.drop_last());
        assert forall|i: int| 0 <= i < b.drop_last().len() implies lookup(
            a,
            (#[trigger] b.drop_last()[i]).0@,
        ) is None by {
            assert(b[i] == b.drop_last()[i]);
        }
        lemma_lookup_both(a, b.drop_last(), key);
        assert(lookup(a, b[b.len() - 1].0@) is None);
    }
}

proof fn lemma_kept<H>(
    full: Seq<(String, H)>,
    kept: Seq<(String, H)>,
    keys: Seq<String>,
    key: Seq<char>,
)
    requires
        distinct(full),
        distinct(kept),
        forall|k: int|
            0 <= k < kept.len() ==> exists|j: int| 0 <= j < full.len() && full[j] == #[trigger] kept[k],
        forall|k: int| 0 <= k < kept.len() ==> names(keys, (#[trigger] kept[k]).0@),
        forall|j: int|
            0 <= j < full.len() && names(keys, (#[trigger] full[j]).0@) ==> kept.contains(full[j]),
    ensures
        lookup(kept, key) == (if names(keys, key) {
            lookup(full, key)
        } else {
            None
        }),
{
    lemma_absent(kept, key);
    lemma_absent(full, key);
    if lookup(kept, key) is Some {
        let k = choose|k: int| 0 <= k < kept.len() && (#[trigger] kept[k]).0@ == key;
        lemma_lookup(kept, k);
        let j = choose|j: int| 0 <= j < full.len() && full[j] == kept[k];
        lemma_lookup(full, j);
    } else if names(keys, key) && lookup(full, key) is Some {
        let j = choose|j: int| 0 <= j < full.len() && (#[trigger] full[j]).0@ == key;
        let k = choose|k: int| 0 <= k < kept.len() && kept[k] == full[j];
        assert(kept[k].0@ == key);
    }
}

/// What is opened is the first item of each wanted key that is not live, once,
/// in the order in which the keys are wanted first. A live key is never opened.
pub proof fn the_first_of_each_missing_key_is_opened<H, T>(
    live: Subscriptions<H>,
    wanted: Seq<(String, T)>,
)
    ensures
        forall|key: Seq<char>|
            (#[trigger] live.handle(key) is None && first_wanted(wanted, key) is Some)
                <==> exists|i: int|
                0 <= i < fresh(live, wanted).len() && (#[trigger] fresh(live, wanted)[i]).0 == key,
        forall|i: int|
            0 <= i < fresh(live, wanted).len() ==> {
                let (key, item) = #[trigger] fresh(live, wanted)[i];
                live.handle(key) is None && first_wanted(wanted, key) == Some(item)
            },
        forall|i: int, j: int|
            0 <= i < j < fresh(live, wanted).len() ==> first_place(
                wanted,
                (#[trigger] fresh(live, wanted)[i]).0,
            ) < first_place(wanted, (#[trigger] fresh(live, wanted)[j]).0),
        forall|i: int, j: int|
            0 <= i < j < fresh(live, wanted).len() ==> (#[trigger] fresh(live, wanted)[i]).0 != (
            #[trigger] fresh(live, wanted)[j]).0,
    decreases wanted.len(),
{
    let now = fresh(live, wanted);
    assert forall|key: Seq<char>|
        (#[trigger] live.handle(key) is None && first_wanted(wanted, key) is Some) <==> exists|
            i: int,
        | 0 <= i < now.len() && (#[trigger] now[i]).0 == key by {
        lemma_fresh(live, wanted, key);
    }
    if wanted.len() > 0 {
        let rest = wanted.drop_last();
        let before = fresh(live, rest);
        the_first_of_each_missing_key_is_opened(live, rest);
        assert forall|i: int| 0 <= i < now.len() implies ({
            let (key, item) = #[trigger] now[i];
            live.handle(key) is None && first_wanted(wanted, key) == Some(item)
        }) by {
            if i < before.len() {
                assert(before[i] == now[i]);
            }
        }
        assert forall|i: int, j: int| 0 <= i < j < now.len() implies first_place(
            wanted,
            (#[trigger] now[i]).0,
        ) < first_place(wanted, (#[trigger] now[j]).0) by {
            assert(before[i] == now[i]);
            lemma_first_is_wanted(rest, now[i].0);
            if j < before.len() {
                assert(before[j] == now[j]);
                lemma_first_is_wanted(rest, now[j].0);
            } else {
                lemma_no_place(rest, now[j].0);
            }
        }
    }
}

/// An opener that writes down what it is run on has written down each item, once,
/// in their order.
pub proof fn each_item_is_opened_once_in_order<S, T, H, F: Fn(S, T) -> (S, H)>(
    open: F,
    items: Seq<T>,
    before: S,
    handles: Seq<H>,
    after: S,
    log: spec_fn(S) -> Seq<T>,
)
    requires
        ran(open, items, before, handles, after),
        forall|s: S, item: T, next: S, handle: H|
            #[trigger] open.ensures((s, item), (next, handle)) ==> log(next) == log(s).push(item),
    ensures
        log(after) == log(before) + items,
    decreases items.len(),
{
    let states = choose|states: Seq<S>|
        #[trigger] steps(open, items, states, handles) && states[0] == before && states.last()
            == after;
    if items.len() == 0 {
        assert(log(before) + items =~= log(before));
    } else {
        let n = items.len() - 1;
        let rest = items.drop_last();
        let earlier = states.drop_last();
        let given = handles.drop_last();
        assert forall|i: int| 0 <= i < rest.len() implies open.ensures(
            (earlier[i], rest[i]),
            (earlier[i + 1], #[trigger] given[i]),
        ) by {
            assert(handles[i] == given[i]);
        }
        assert(steps(open, rest, earlier, given));
        each_item_is_opened_once_in_order(open, rest, before, given, earlier.last(), log);
        assert(open.ensures((states[n], items[n]), (states[n + 1], handles[n])));
        assert(log(before) + items =~= (log(before) + rest).push(items.last()));
    }
}

/// To reconcile the same keys once more opens nothing and leaves every handle as
/// it is.
pub proof fn reconciling_again_changes_nothing<H, T, U>(
    before: Subscriptions<H>,
    wanted: Seq<(String, T)>,
    after: Subscriptions<H>,
    again: Seq<(String, U)>,
    last: Subscriptions<H>,
)
    requires
        reconciled(before, wanted, after),
        same_keys(wanted, again),
        reconciled(after, again, last),
    ensures
        fresh(after, again).len() == 0,
        forall|key: Seq<char>| (#[trigger] last.handle(key)) == after.handle(key),
{
    the_first_of_each_missing_key_is_opened(after, again);
    if fresh(after, again).len() > 0 {
        let (key, item) = fresh(after, again)[0];
        assert(first_wanted(again, key) is Some && first_wanted(wanted, key) is Some);
        assert(after.handle(key) is Some);
    }
    assert forall|key: Seq<char>| (#[trigger] last.handle(key)) == after.handle(key) by {
        assert(after.handle(key) is Some <==> first_wanted(wanted, key) is Some);
        assert(first_wanted(wanted, key) is Some <==> first_wanted(again, key) is Some);
    }
}

/// A key that was given up is not live, and is opened again when it returns.
pub proof fn a_key_that_returns_is_opened_again<H, T, U>(
    before: Subscriptions<H>,
    without: Seq<(String, T)>,
    after: Subscriptions<H>,
    wanted: Seq<(String, U)>,
    key: Seq<char>,
)
    requires
        reconciled(before, without, after),
        first_wanted(without, key) is None,
        first_wanted(wanted, key) is Some,
    ensures
        after.handle(key) is None,
        fresh(after, wanted).contains((key, first_wanted(wanted, key)->0)),
{
    assert(after.handle(key) is None);
    the_first_of_each_missing_key_is_opened(after, wanted);
    let i = choose|i: int|
        0 <= i < fresh(after, wanted).len() && (#[trigger] fresh(after, wanted)[i]).0 == key;
    assert(fresh(after, wanted)[i] == (key, first_wanted(wanted, key)->0));
}

/// Once keys are reconciled, exactly the wanted ones are live. One that was live before
/// has the handle that it had, and what is not wanted has none.
pub proof fn exactly_the_wanted_keys_are_live<H, T>(
    before: Subscriptions<H>,
    wanted: Seq<(String, T)>,
    after: Subscriptions<H>,
    key: Seq<char>,
)
    requires
        reconciled(before, wanted, after),
    ensures
        after.handle(key) is Some <==> exists|i: int|
            0 <= i < wanted.len() && (#[trigger] wanted[i]).0@ == key,
        after.handle(key) is Some && before.handle(key) is Some ==> after.handle(key)
            == before.handle(key),
{
    lemma_wanted(wanted, key);
}

} // verus!
