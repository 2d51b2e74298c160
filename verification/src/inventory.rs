//! Merging inventories of devices into what is shown.
//!
//! A device that an inventory leaves out is kept for a while, since a probe can
//! miss one that is there. A device whose unit was not read is some device that
//! is known, not a new one, and is folded into it.

use vstd::prelude::*;

use crate::data::Data;
use crate::device::{DeviceKey, DeviceKind, DeviceRecord, DeviceRecordModel};
use crate::keyed::{in_order, is_among, Table};
use crate::state::{blank_ui, DeviceStore, DeviceUiState, DeviceUiStateModel, StoreModel};
use crate::text::{
    chars_of, lemma_lex_total, lemma_lex_transitive, lex_lt, starts_with, text_of,
};

verus! {

/// How many inventories in a row may leave a device out before it goes.
pub const INVENTORY_MISS_GRACE: u8 = 2;

/// Where the next colon at or after `from` is, or the end.
pub open spec fn next_colon(text: Seq<char>, from: int) -> int
    decreases text.len() - from,
{
    if from >= text.len() || from < 0 {
        text.len() as int
    } else if text[from] == ':' {
        from
    } else {
        next_colon(text, from + 1)
    }
}

/// The vendor and product that the key of a device without a receiver names: of
/// `direct:vendor:product:unit`, everything before the unit.
pub open spec fn wire_of(key: Seq<char>) -> Option<Seq<char>> {
    let head = "direct:"@;
    if head.len() <= key.len() && key.take(head.len() as int) == head {
        let vendor_end = next_colon(key, head.len() as int);
        let product_end = next_colon(key, vendor_end + 1);
        if vendor_end < key.len() && product_end < key.len() {
            Some(key.take(product_end))
        } else {
            None
        }
    } else {
        None
    }
}

fn find_colon(chars: &Vec<char>, from: usize) -> (r: usize)
    ensures
        r == next_colon(chars@, from as int),
        from <= chars@.len() ==> from <= r <= chars@.len(),
        r <= chars@.len(),
{
    let mut i: usize = from;
    while i < chars.len() && chars[i] != ':'
        invariant
            from <= i,
            from <= chars@.len() ==> i <= chars@.len(),
            next_colon(chars@, from as int) == next_colon(chars@, i as int),
        decreases chars@.len() - i,
    {
        i = i + 1;
    }
    if i > chars.len() {
        chars.len()
    } else {
        i
    }
}

/// The vendor and product that the key of a device without a receiver names.
pub fn direct_key_prefix(key: &str) -> (r: Option<String>)
    ensures
        r.deep_view() == wire_of(key@),
{
    if !starts_with(key, "direct:") {
        return None;
    }
    let chars = chars_of(key);
    proof {
        reveal_strlit("direct:");
    }
    let vendor_end = find_colon(&chars, 7);
    if vendor_end >= chars.len() {
        return None;
    }
    let product_end = find_colon(&chars, vendor_end + 1);
    if product_end >= chars.len() {
        return None;
    }
    let r = text_of(&chars, 0, product_end);
    proof {
        assert(chars@.subrange(0, product_end as int) =~= key@.take(product_end as int));
    }
    Some(r)
}

/// A known device that a reading without a unit is taken for: it stays who it
/// is, and takes over what is live.
pub open spec fn taken_for(known: DeviceRecordModel, live: DeviceRecordModel) -> DeviceRecordModel {
    DeviceRecordModel {
        online: live.online,
        slot: live.slot,
        route: live.route,
        route_key: live.route_key,
        order: live.order,
        battery: live.battery,
        ..known
    }
}

/// A known device that a reading without a unit is taken for.
pub fn adopt_transient_record(known: &DeviceRecord, live: &DeviceRecord) -> (r: DeviceRecord)
    ensures
        r.deep_view() == taken_for(known.deep_view(), live.deep_view()),
{
    let mut r = known.duplicate();
    r.online = live.online;
    r.slot = live.slot;
    r.route = live.route.duplicate();
    r.route_key = live.route_key.duplicate();
    r.order = live.order;
    r.battery = live.battery;
    r
}

/// A list of devices by their keys; a later one replaces an earlier one.
pub open spec fn by_inventory_key(list: Seq<DeviceRecordModel>) -> Map<Seq<char>, DeviceRecordModel>
    decreases list.len(),
{
    if list.len() == 0 {
        Map::empty()
    } else {
        by_inventory_key(list.drop_last()).insert(list.last().inventory_key, list.last())
    }
}

fn index_records(list: &Vec<DeviceRecord>) -> (r: Table<String, DeviceRecord>)
    ensures
        r.deep_view() == by_inventory_key(list.deep_view()),
{
    let mut r: Table<String, DeviceRecord> = Table::new();
    let ghost all = list.deep_view();
    let mut i: usize = 0;
    proof {
        assert(all.take(0) =~= Seq::empty());
    }
    while i < list.len()
        invariant
            i <= list@.len(),
            all == list.deep_view(),
            r.deep_view() == by_inventory_key(all.take(i as int)),
        decreases list@.len() - i,
    {
        proof {
            assert(all.take(i as int + 1).drop_last() =~= all.take(i as int));
            assert(all.take(i as int + 1).last() == list@[i as int].deep_view());
        }
        r.insert(list[i].inventory_key.clone(), list[i].duplicate());
        i = i + 1;
    }
    proof {
        assert(all.take(all.len() as int) =~= all);
    }
    r
}

/// Whether a device keeps settings and has the given vendor and product.
pub open spec fn same_wire(key: Seq<char>, record: DeviceRecordModel, wire: Seq<char>) -> bool {
    record.persistent && wire_of(key) == Some(wire)
}

fn is_same_wire(key: &String, record: &DeviceRecord, wire: &String) -> (r: bool)
    ensures
        r == same_wire(key@, record.deep_view(), wire@),
{
    if !record.is_persistent() {
        return false;
    }
    match direct_key_prefix(key.as_str()) {
        Some(prefix) => prefix == *wire,
        None => false,
    }
}

/// The devices of an inventory that are not live and could be the one that was
/// read without its unit.
pub open spec fn idle_candidates(
    by_key: Map<Seq<char>, DeviceRecordModel>,
    keys: Seq<Seq<char>>,
    wire: Seq<char>,
) -> Seq<Seq<char>>
    decreases keys.len(),
{
    if keys.len() == 0 {
        Seq::empty()
    } else {
        let rest = idle_candidates(by_key, keys.drop_last(), wire);
        let key = keys.last();
        if same_wire(key, by_key[key], wire) && !by_key[key].online {
            rest.push(key)
        } else {
            rest
        }
    }
}

/// Those, and the known devices that the inventory leaves out.
pub open spec fn candidates(
    by_key: Map<Seq<char>, DeviceRecordModel>,
    known: Seq<DeviceRecordModel>,
    wire: Seq<char>,
) -> Seq<Seq<char>>
    decreases known.len(),
{
    if known.len() == 0 {
        idle_candidates(by_key, in_order::<String, DeviceRecordModel>(by_key), wire)
    } else {
        let rest = candidates(by_key, known.drop_last(), wire);
        let record = known.last();
        if same_wire(record.config_key, record, wire) && !by_key.contains_key(record.config_key)
            && !rest.contains(record.config_key) {
            rest.push(record.config_key)
        } else {
            rest
        }
    }
}

/// Whether a live device of the inventory has the given vendor and product.
pub open spec fn has_live(by_key: Map<Seq<char>, DeviceRecordModel>, wire: Seq<char>) -> bool {
    exists|key: Seq<char>|
        by_key.contains_key(key) && same_wire(key, #[trigger] by_key[key], wire)
            && by_key[key].online
}

/// The first known device of a key.
pub open spec fn first_of(known: Seq<DeviceRecordModel>, key: Seq<char>) -> Option<
    DeviceRecordModel,
>
    decreases known.len(),
{
    if known.len() == 0 {
        None
    } else {
        match first_of(known.drop_last(), key) {
            Some(record) => Some(record),
            None => if known.last().config_key == key {
                Some(known.last())
            } else {
                None
            },
        }
    }
}

fn find_first(known: &Vec<DeviceRecord>, key: &String) -> (r: Option<DeviceRecord>)
    ensures
        r.deep_view() == first_of(known.deep_view(), key@),
{
    let ghost all = known.deep_view();
    let mut i: usize = 0;
    proof {
        assert(all.take(0) =~= Seq::empty());
    }
    let mut r: Option<DeviceRecord> = None;
    while i < known.len()
        invariant
            i <= known@.len(),
            all == known.deep_view(),
            r.deep_view() == first_of(all.take(i as int), key@),
        decreases known@.len() - i,
    {
        proof {
            assert(all.take(i as int + 1).drop_last() =~= all.take(i as int));
            assert(all.take(i as int + 1).last() == known@[i as int].deep_view());
        }
        if r.is_none() && known[i].config_key == *key {
            r = Some(known[i].duplicate());
        }
        i = i + 1;
    }
    proof {
        assert(all.take(all.len() as int) =~= all);
    }
    r
}

/// What is left of an inventory, and what was folded into known devices.
pub ghost struct Adoption {
    pub by_key: Map<Seq<char>, DeviceRecordModel>,
    pub adopted: Map<Seq<char>, DeviceRecordModel>,
}

/// One device without a unit settled. Where exactly one known device could be
/// it, it is folded into that one. Where none could, and a live device has the
/// same vendor and product, it is dropped. Otherwise it is left alone.
pub open spec fn settled_transient(
    a: Adoption,
    known: Seq<DeviceRecordModel>,
    key: Seq<char>,
) -> Adoption {
    match wire_of(key) {
        None => a,
        Some(wire) => {
            let could_be = candidates(a.by_key, known, wire);
            if could_be.len() == 1 {
                let whose = could_be[0];
                let record = match first_of(known, whose) {
                    Some(record) => Some(record),
                    None => if a.by_key.contains_key(whose) {
                        Some(a.by_key[whose])
                    } else {
                        None
                    },
                };
                match record {
                    None => a,
                    Some(record) => {
                        let without = a.by_key.remove(whose);
                        if without.contains_key(key) {
                            Adoption {
                                by_key: without.remove(key),
                                adopted: a.adopted.insert(whose, taken_for(record, without[key])),
                            }
                        } else {
                            Adoption { by_key: without, ..a }
                        }
                    },
                }
            } else if could_be.len() == 0 && has_live(a.by_key, wire) {
                Adoption { by_key: a.by_key.remove(key), ..a }
            } else {
                a
            }
        },
    }
}

/// Devices without a unit settled one after the other.
pub open spec fn settled_transients(
    by_key: Map<Seq<char>, DeviceRecordModel>,
    known: Seq<DeviceRecordModel>,
    keys: Seq<Seq<char>>,
) -> Adoption
    decreases keys.len(),
{
    if keys.len() == 0 {
        Adoption { by_key, adopted: Map::empty() }
    } else {
        settled_transient(
            settled_transients(by_key, known, keys.drop_last()),
            known,
            keys.last(),
        )
    }
}

/// The keys of the devices of an inventory that keep no settings.
pub open spec fn transient_keys(
    by_key: Map<Seq<char>, DeviceRecordModel>,
    keys: Seq<Seq<char>>,
) -> Seq<Seq<char>>
    decreases keys.len(),
{
    if keys.len() == 0 {
        Seq::empty()
    } else {
        let rest = transient_keys(by_key, keys.drop_last());
        let record = by_key[keys.last()];
        if record.persistent {
            rest
        } else {
            rest.push(record.config_key)
        }
    }
}

/// An inventory with its devices without a unit settled.
pub open spec fn adoption(
    by_key: Map<Seq<char>, DeviceRecordModel>,
    known: Seq<DeviceRecordModel>,
) -> Adoption {
    settled_transients(
        by_key,
        known,
        transient_keys(by_key, in_order::<String, DeviceRecordModel>(by_key)),
    )
}

fn find_transient_keys(by_key: &Table<String, DeviceRecord>) -> (r: Vec<String>)
    ensures
        r.deep_view() == transient_keys(
            by_key.deep_view(),
            in_order::<String, DeviceRecordModel>(by_key.deep_view()),
        ),
{
    let mut r: Vec<String> = Vec::new();
    let ghost m = by_key.deep_view();
    let ghost keys = by_key.keys();
    let n: usize = by_key.len();
    let mut i: usize = 0;
    proof {
        assert(keys.take(0) =~= Seq::empty());
        assert(r.deep_view() =~= Seq::empty());
    }
    while i < n
        invariant
            i <= n,
            n == keys.len(),
            keys == by_key.keys(),
            m == by_key.deep_view(),
            r.deep_view() == transient_keys(m, keys.take(i as int)),
        decreases n - i,
    {
        let ghost before = r.deep_view();
        let record = by_key.value_at(i);
        proof {
            assert(keys.take(i as int + 1).drop_last() =~= keys.take(i as int));
        }
        if !record.is_persistent() {
            r.push(record.config_key.clone());
            proof {
                assert(r.deep_view() =~= before.push(record.config_key@));
            }
        }
        i = i + 1;
    }
    proof {
        assert(keys.take(n as int) =~= keys);
    }
    r
}

fn find_candidates(
    by_key: &Table<String, DeviceRecord>,
    known: &Vec<DeviceRecord>,
    wire: &String,
) -> (r: Vec<String>)
    ensures
        r.deep_view() == candidates(by_key.deep_view(), known.deep_view(), wire@),
{
    let mut r: Vec<String> = Vec::new();
    let ghost m = by_key.deep_view();
    let ghost keys = by_key.keys();
    let n: usize = by_key.len();
    let mut i: usize = 0;
    proof {
        assert(keys.take(0) =~= Seq::empty());
        assert(r.deep_view() =~= Seq::empty());
    }
    while i < n
        invariant
            i <= n,
            n == keys.len(),
            keys == by_key.keys(),
            m == by_key.deep_view(),
            r.deep_view() == idle_candidates(m, keys.take(i as int), wire@),
        decreases n - i,
    {
        let ghost before = r.deep_view();
        let key = by_key.key_at(i);
        let record = by_key.value_at(i);
        proof {
            assert(keys.take(i as int + 1).drop_last() =~= keys.take(i as int));
        }
        if is_same_wire(key, record, wire) && !record.online {
            r.push(key.clone());
            proof {
                assert(r.deep_view() =~= before.push(key@));
            }
        }
        i = i + 1;
    }
    let ghost all = known.deep_view();
    let mut j: usize = 0;
    proof {
        assert(keys.take(n as int) =~= keys);
        assert(all.take(0) =~= Seq::empty());
    }
    while j < known.len()
        invariant
            j <= known@.len(),
            all == known.deep_view(),
            m == by_key.deep_view(),
            r.deep_view() == candidates(m, all.take(j as int), wire@),
        decreases known@.len() - j,
    {
        let ghost before = r.deep_view();
        let record = &known[j];
        proof {
            assert(all.take(j as int + 1).drop_last() =~= all.take(j as int));
            assert(all.take(j as int + 1).last() == record.deep_view());
        }
        if is_same_wire(&record.config_key, record, wire) && !by_key.contains(&record.config_key)
            && !is_among(&record.config_key, &r) {
            r.push(record.config_key.clone());
            proof {
                assert(r.deep_view() =~= before.push(record.config_key@));
            }
        }
        j = j + 1;
    }
    proof {
        assert(all.take(all.len() as int) =~= all);
    }
    r
}

fn find_live(by_key: &Table<String, DeviceRecord>, wire: &String) -> (r: bool)
    ensures
        r == has_live(by_key.deep_view(), wire@),
{
    let ghost m = by_key.deep_view();
    let ghost keys = by_key.keys();
    let n: usize = by_key.len();
    let mut i: usize = 0;
    while i < n
        invariant
            i <= n,
            n == keys.len(),
            keys == by_key.keys(),
            m == by_key.deep_view(),
            keys.to_set() == m.dom(),
            forall|k: int|
                0 <= k < i ==> !(same_wire(#[trigger] keys[k], m[keys[k]], wire@)
                    && m[keys[k]].online),
        decreases n - i,
    {
        let key = by_key.key_at(i);
        let record = by_key.value_at(i);
        if is_same_wire(key, record, wire) && record.online {
            proof {
                assert(m.contains_key(key@) && same_wire(key@, m[key@], wire@));
            }
            return true;
        }
        i = i + 1;
    }
    proof {
        if has_live(m, wire@) {
            let key = choose|key: Seq<char>|
                m.contains_key(key) && same_wire(key, #[trigger] m[key], wire@) && m[key].online;
            assert(keys.to_set().contains(key));
            let k = choose|k: int| 0 <= k < keys.len() && keys[k] == key;
        }
    }
    false
}

/// Settle the devices of an inventory without a unit, returning those that were
/// folded into known devices.
pub fn adopt_transient_records(
    known: &Vec<DeviceRecord>,
    by_key: &mut Table<String, DeviceRecord>,
) -> (r: Table<String, DeviceRecord>)
    ensures
        final(by_key).deep_view() == adoption(old(by_key).deep_view(), known.deep_view()).by_key,
        r.deep_view() == adoption(old(by_key).deep_view(), known.deep_view()).adopted,
{
    let keys = find_transient_keys(by_key);
    let ghost start = by_key.deep_view();
    let ghost all = keys.deep_view();
    let ghost prev = known.deep_view();
    let mut adopted: Table<String, DeviceRecord> = Table::new();
    let mut i: usize = 0;
    proof {
        assert(all.take(0) =~= Seq::empty());
    }
    while i < keys.len()
        invariant
            i <= keys@.len(),
            all == keys.deep_view(),
            prev == known.deep_view(),
            by_key.deep_view() == settled_transients(start, prev, all.take(i as int)).by_key,
            adopted.deep_view() == settled_transients(start, prev, all.take(i as int)).adopted,
        decreases keys@.len() - i,
    {
        proof {
            assert(all.take(i as int + 1).drop_last() =~= all.take(i as int));
            assert(all.take(i as int + 1).last() == keys@[i as int]@);
        }
        let key = &keys[i];
        if let Some(wire) = direct_key_prefix(key.as_str()) {
            let could_be = find_candidates(by_key, known, &wire);
            proof {
                assert(could_be.deep_view().len() == could_be@.len());
            }
            if could_be.len() == 1 {
                let whose = could_be[0].clone();
                proof {
                    assert(could_be.deep_view()[0] == whose@);
                }
                let record = match find_first(known, &whose) {
                    Some(record) => Some(record),
                    None => match by_key.get(&whose) {
                        Some(record) => Some(record.duplicate()),
                        None => None,
                    },
                };
                if let Some(record) = record {
                    by_key.remove(&whose);
                    if let Some(live) = by_key.remove(key) {
                        adopted.insert(whose, adopt_transient_record(&record, &live));
                    } else {
                        proof {
                            assert(by_key.deep_view() =~= settled_transients(
                                start,
                                prev,
                                all.take(i as int),
                            ).by_key.remove(whose@));
                        }
                    }
                }
            } else if could_be.len() == 0 && find_live(by_key, &wire) {
                by_key.remove(key);
            }
        }
        i = i + 1;
    }
    proof {
        assert(all.take(all.len() as int) =~= all);
    }
    adopted
}

/// A sorted list with one more device: after those of its place or before.
pub open spec fn placed(sorted: Seq<DeviceRecordModel>, record: DeviceRecordModel) -> Seq<
    DeviceRecordModel,
>
    decreases sorted.len(),
{
    if sorted.len() == 0 || sorted.last().order <= record.order {
        sorted.push(record)
    } else {
        placed(sorted.drop_last(), record).push(sorted.last())
    }
}

/// A list in the canonical order; devices of one place keep their order.
pub open spec fn ordered(list: Seq<DeviceRecordModel>) -> Seq<DeviceRecordModel>
    decreases list.len(),
{
    if list.len() == 0 {
        Seq::empty()
    } else {
        placed(ordered(list.drop_last()), list.last())
    }
}

proof fn lemma_placed(
    sorted: Seq<DeviceRecordModel>,
    tail: Seq<DeviceRecordModel>,
    record: DeviceRecordModel,
)
    requires
        forall|i: int| 0 <= i < tail.len() ==> (#[trigger] tail[i]).order > record.order,
    ensures
        placed(sorted + tail, record) == placed(sorted, record) + tail,
    decreases tail.len(),
{
    if tail.len() == 0 {
        assert(sorted + tail =~= sorted);
        assert(placed(sorted, record) + tail =~= placed(sorted, record));
    } else {
        let rest = tail.drop_last();
        assert((sorted + tail).drop_last() =~= sorted + rest);
        assert((sorted + tail).last() == tail[tail.len() - 1]);
        lemma_placed(sorted, rest, record);
        assert(placed(sorted, record) + tail =~= (placed(sorted, record) + rest).push(tail.last()));
    }
}

/// Put a device into a sorted list.
fn place(sorted: &mut Vec<DeviceRecord>, record: DeviceRecord)
    ensures
        final(sorted).deep_view() == placed(old(sorted).deep_view(), record.deep_view()),
{
    let ghost all = sorted.deep_view();
    let ghost x = record.deep_view();
    let mut at: usize = sorted.len();
    proof {
        assert(all.skip(at as int) =~= Seq::empty());
    }
    while at > 0 && sorted[at - 1].order > record.order
        invariant
            at <= sorted@.len(),
            all == sorted.deep_view(),
            forall|i: int| at <= i < all.len() ==> (#[trigger] all[i]).order > record.order,
        decreases at,
    {
        at = at - 1;
        proof {
            assert(all[at as int] == sorted@[at as int].deep_view());
        }
    }
    proof {
        let head = all.take(at as int);
        let tail = all.skip(at as int);
        assert(head + tail =~= all);
        lemma_placed(head, tail, x);
        if at > 0 {
            assert(head.last() == sorted@[at - 1].deep_view());
        }
        assert(placed(head, x) == head.push(x));
    }
    let ghost was = sorted@;
    sorted.insert(at, record);
    proof {
        let head = all.take(at as int);
        let tail = all.skip(at as int);
        assert(sorted.deep_view() =~= head.push(x) + tail) by {
            assert forall|i: int| 0 <= i < sorted@.len() implies #[trigger] sorted.deep_view()[i]
                == (head.push(x) + tail)[i] by {
                if i < at {
                    assert(sorted@[i] == was[i]);
                } else if i > at {
                    assert(sorted@[i] == was[i - 1]);
                    assert(all[i - 1] == was[i - 1].deep_view());
                }
            }
        }
    }
}

/// Put a list into the canonical order.
pub fn sort_device_list(list: &Vec<DeviceRecord>) -> (r: Vec<DeviceRecord>)
    ensures
        r.deep_view() == ordered(list.deep_view()),
{
    let mut r: Vec<DeviceRecord> = Vec::new();
    let ghost all = list.deep_view();
    let mut i: usize = 0;
    proof {
        assert(all.take(0) =~= Seq::empty());
        assert(r.deep_view() =~= Seq::empty());
    }
    while i < list.len()
        invariant
            i <= list@.len(),
            all == list.deep_view(),
            r.deep_view() == ordered(all.take(i as int)),
        decreases list@.len() - i,
    {
        proof {
            assert(all.take(i as int + 1).drop_last() =~= all.take(i as int));
            assert(all.take(i as int + 1).last() == list@[i as int].deep_view());
        }
        place(&mut r, list[i].duplicate());
        i = i + 1;
    }
    proof {
        assert(all.take(all.len() as int) =~= all);
    }
    r
}

/// Whether a list is in the canonical order.
pub open spec fn in_place(list: Seq<DeviceRecordModel>) -> bool {
    forall|i: int, j: int|
        0 <= i < j < list.len() ==> (#[trigger] list[i]).order <= (#[trigger] list[j]).order
}

proof fn lemma_placed_in_place(sorted: Seq<DeviceRecordModel>, record: DeviceRecordModel)
    requires
        in_place(sorted),
    ensures
        in_place(placed(sorted, record)),
        placed(sorted, record).to_multiset() =~= sorted.to_multiset().insert(record),
        forall|k: int|
            0 <= k < placed(sorted, record).len() ==> (sorted.contains(
                #[trigger] placed(sorted, record)[k],
            ) || placed(sorted, record)[k] == record),
    decreases sorted.len(),
{
    broadcast use vstd::seq_lib::group_to_multiset_ensures;

    if sorted.len() == 0 || sorted.last().order <= record.order {
        let next = sorted.push(record);
        assert forall|i: int, j: int| 0 <= i < j < next.len() implies (#[trigger] next[i]).order
            <= (#[trigger] next[j]).order by {
            if j == sorted.len() && i < sorted.len() - 1 {
                assert(sorted[i].order <= sorted[sorted.len() - 1].order);
            }
        }
        assert forall|k: int| 0 <= k < next.len() implies (sorted.contains(#[trigger] next[k])
            || next[k] == record) by {
            if k < sorted.len() {
                assert(sorted[k] == next[k]);
            }
        }
    } else {
        let rest = sorted.drop_last();
        lemma_placed_in_place(rest, record);
        let inner = placed(rest, record);
        let next = inner.push(sorted.last());
        assert forall|i: int, j: int| 0 <= i < j < next.len() implies (#[trigger] next[i]).order
            <= (#[trigger] next[j]).order by {
            if j == inner.len() {
                if inner[i] != record {
                    assert(rest.contains(inner[i]));
                    let k = choose|k: int| 0 <= k < rest.len() && rest[k] == inner[i];
                    assert(sorted[k].order <= sorted[sorted.len() - 1].order);
                }
            }
        }
        assert(sorted =~= rest.push(sorted.last()));
        assert forall|k: int| 0 <= k < next.len() implies (sorted.contains(#[trigger] next[k])
            || next[k] == record) by {
            if k < inner.len() {
                if inner[k] != record {
                    let j = choose|j: int| 0 <= j < rest.len() && rest[j] == inner[k];
                    assert(sorted[j] == next[k]);
                }
            } else {
                assert(sorted[sorted.len() - 1] == next[k]);
            }
        }
    }
}

/// Sorting a list puts it into the canonical order, and neither adds nor drops a
/// device.
pub proof fn sorting_keeps_every_device(list: Seq<DeviceRecordModel>)
    ensures
        in_place(ordered(list)),
        ordered(list).to_multiset() =~= list.to_multiset(),
    decreases list.len(),
{
    broadcast use vstd::seq_lib::group_to_multiset_ensures;

    if list.len() > 0 {
        sorting_keeps_every_device(list.drop_last());
        lemma_placed_in_place(ordered(list.drop_last()), list.last());
        assert(list =~= list.drop_last().push(list.last()));
    } else {
        assert(list =~= Seq::empty());
    }
}

/// What is kept of a device with its misses cleared; nothing where nothing is
/// kept.
pub open spec fn cleared(
    runtime: Map<Seq<char>, DeviceUiStateModel>,
    key: Seq<char>,
) -> Map<Seq<char>, DeviceUiStateModel> {
    if runtime.contains_key(key) {
        runtime.insert(key, DeviceUiStateModel { inventory_misses: 0, ..runtime[key] })
    } else {
        runtime
    }
}

/// Clear the misses of a device.
pub fn clear_inventory_misses(runtime: &mut Table<DeviceKey, DeviceUiState>, key: &String)
    ensures
        final(runtime).deep_view() == cleared(old(runtime).deep_view(), key@),
{
    let key = DeviceKey { text: key.clone() };
    let entry = match runtime.get(&key) {
        None => {
            return ;
        },
        Some(entry) => {
            let mut entry = entry.duplicate();
            entry.inventory_misses = 0;
            entry
        },
    };
    runtime.insert(key, entry);
}

/// What a merge is made of while it is under way.
pub ghost struct Merge {
    pub by_key: Map<Seq<char>, DeviceRecordModel>,
    pub adopted: Map<Seq<char>, DeviceRecordModel>,
    pub runtime: Map<Seq<char>, DeviceUiStateModel>,
    pub merged: Seq<DeviceRecordModel>,
}

/// How many inventories in a row have left a device out, with this one.
pub open spec fn misses_after(runtime: Map<Seq<char>, DeviceUiStateModel>, key: Seq<char>) -> u8 {
    let misses = if runtime.contains_key(key) {
        runtime[key].inventory_misses
    } else {
        0
    };
    if misses < u8::MAX {
        (misses + 1) as u8
    } else {
        u8::MAX
    }
}

/// One known device merged. It is shown as the inventory has it, or as the one
/// that was folded into it. One that the inventory leaves out is kept for a
/// while, unless it keeps no settings or is a camera.
pub open spec fn merged_known(m: Merge, known: DeviceRecordModel) -> Merge {
    let key = known.inventory_key;
    if m.by_key.contains_key(key) {
        Merge {
            by_key: m.by_key.remove(key),
            runtime: cleared(m.runtime, key),
            merged: m.merged.push(m.by_key[key]),
            ..m
        }
    } else if m.adopted.contains_key(key) {
        Merge {
            adopted: m.adopted.remove(key),
            runtime: cleared(m.runtime, key),
            merged: m.merged.push(m.adopted[key]),
            ..m
        }
    } else if !known.persistent || known.kind == DeviceKind::Camera {
        Merge { runtime: cleared(m.runtime, key), ..m }
    } else {
        let misses = misses_after(m.runtime, key);
        let ui = if m.runtime.contains_key(key) {
            m.runtime[key]
        } else {
            blank_ui()
        };
        Merge {
            runtime: m.runtime.insert(key, DeviceUiStateModel { inventory_misses: misses, ..ui }),
            merged: if misses <= INVENTORY_MISS_GRACE {
                m.merged.push(known)
            } else {
                m.merged
            },
            ..m
        }
    }
}

/// Known devices merged one after the other.
pub open spec fn merged_all_known(m: Merge, known: Seq<DeviceRecordModel>) -> Merge
    decreases known.len(),
{
    if known.len() == 0 {
        m
    } else {
        merged_known(merged_all_known(m, known.drop_last()), known.last())
    }
}

/// New devices added one after the other.
pub open spec fn merged_new(m: Merge, keys: Seq<Seq<char>>) -> Merge
    decreases keys.len(),
{
    if keys.len() == 0 {
        m
    } else {
        let before = merged_new(m, keys.drop_last());
        Merge {
            runtime: cleared(before.runtime, keys.last()),
            merged: before.merged.push(m.by_key[keys.last()]),
            ..before
        }
    }
}

/// Devices of a table added one after the other.
pub open spec fn extended(
    merged: Seq<DeviceRecordModel>,
    table: Map<Seq<char>, DeviceRecordModel>,
    keys: Seq<Seq<char>>,
) -> Seq<DeviceRecordModel>
    decreases keys.len(),
{
    if keys.len() == 0 {
        merged
    } else {
        extended(merged, table, keys.drop_last()).push(table[keys.last()])
    }
}

/// The keys of a list of devices.
pub open spec fn keys_of_list(list: Seq<DeviceRecordModel>) -> Seq<Seq<char>> {
    Seq::new(list.len(), |i: int| list[i].inventory_key)
}

/// An inventory merged into the known devices, before it is put in order.
pub open spec fn merge_of(store: StoreModel, list: Seq<DeviceRecordModel>) -> Merge {
    let a = adoption(by_inventory_key(list), store.records);
    let known = merged_all_known(
        Merge {
            by_key: a.by_key,
            adopted: a.adopted,
            runtime: store.runtime,
            merged: Seq::empty(),
        },
        store.records,
    );
    let added = merged_new(known, in_order::<String, DeviceRecordModel>(known.by_key));
    let merged = extended(
        added.merged,
        known.adopted,
        in_order::<String, DeviceRecordModel>(known.adopted),
    );
    Merge {
        merged,
        runtime: added.runtime.restrict(keys_of_list(merged).to_set()),
        ..added
    }
}

fn inventory_keys(list: &Vec<DeviceRecord>) -> (r: Vec<DeviceKey>)
    ensures
        r.deep_view() == keys_of_list(list.deep_view()),
{
    let mut r: Vec<DeviceKey> = Vec::new();
    let mut i: usize = 0;
    while i < list.len()
        invariant
            i <= list@.len(),
            r@.len() == i,
            forall|k: int|
                0 <= k < i ==> (#[trigger] r@[k]).deep_view() == list@[k].inventory_key@,
        decreases list@.len() - i,
    {
        r.push(DeviceKey { text: list[i].inventory_key.clone() });
        i = i + 1;
    }
    proof {
        assert(r.deep_view() =~= keys_of_list(list.deep_view()));
    }
    r
}

impl DeviceStore {
    /// Merge an inventory into the known devices, in the canonical order. What
    /// is kept of devices that are not shown goes.
    pub fn merge_inventory_snapshot(&mut self, list: &Vec<DeviceRecord>) -> (r: Vec<DeviceRecord>)
        ensures
            r.deep_view() == ordered(merge_of(old(self).deep_view(), list.deep_view()).merged),
            final(self).deep_view() == (StoreModel {
                runtime: merge_of(old(self).deep_view(), list.deep_view()).runtime,
                ..old(self).deep_view()
            }),
    {
        let ghost store = self.deep_view();
        let ghost all = store.records;
        let mut by_key = index_records(list);
        let mut adopted = adopt_transient_records(&self.records, &mut by_key);
        let ghost a = adoption(by_inventory_key(list.deep_view()), store.records);
        let ghost start = Merge {
            by_key: a.by_key,
            adopted: a.adopted,
            runtime: store.runtime,
            merged: Seq::empty(),
        };
        let mut merged: Vec<DeviceRecord> = Vec::new();
        let mut i: usize = 0;
        proof {
            assert(all.take(0) =~= Seq::empty());
            assert(merged.deep_view() =~= Seq::empty());
        }
        while i < self.records.len()
            invariant
                i <= self.records@.len(),
                all == self.records.deep_view(),
                self.selected == store.selected,
                by_key.deep_view() == merged_all_known(start, all.take(i as int)).by_key,
                adopted.deep_view() == merged_all_known(start, all.take(i as int)).adopted,
                self.runtime.deep_view() == merged_all_known(start, all.take(i as int)).runtime,
                merged.deep_view() == merged_all_known(start, all.take(i as int)).merged,
            decreases self.records@.len() - i,
        {
            let ghost before = merged_all_known(start, all.take(i as int));
            let previous = &self.records[i];
            let key = &previous.inventory_key;
            proof {
                assert(all.take(i as int + 1).drop_last() =~= all.take(i as int));
                assert(all.take(i as int + 1).last() == previous.deep_view());
            }
            if let Some(record) = by_key.remove(key) {
                clear_inventory_misses(&mut self.runtime, key);
                push_record(&mut merged, record);
            } else if let Some(record) = adopted.remove(key) {
                proof {
                    assert(by_key.deep_view() =~= before.by_key);
                }
                clear_inventory_misses(&mut self.runtime, key);
                push_record(&mut merged, record);
            } else {
                proof {
                    assert(by_key.deep_view() =~= before.by_key);
                    assert(adopted.deep_view() =~= before.adopted);
                }
                if !previous.is_persistent() || previous.kind == DeviceKind::Camera {
                    clear_inventory_misses(&mut self.runtime, key);
                } else {
                    let device = DeviceKey { text: key.clone() };
                    let mut entry = match self.runtime.get(&device) {
                        Some(entry) => entry.duplicate(),
                        None => DeviceUiState::default(),
                    };
                    if entry.inventory_misses < u8::MAX {
                        entry.inventory_misses = entry.inventory_misses + 1;
                    }
                    let misses: u8 = entry.inventory_misses;
                    self.runtime.insert(device, entry);
                    if misses <= INVENTORY_MISS_GRACE {
                        push_record(&mut merged, previous.duplicate());
                    }
                }
            }
            i = i + 1;
        }
        let ghost known = merged_all_known(start, all);
        proof {
            assert(all.take(all.len() as int) =~= all);
        }
        let ghost keys = by_key.keys();
        let n: usize = by_key.len();
        let mut j: usize = 0;
        proof {
            assert(keys.take(0) =~= Seq::empty());
        }
        while j < n
            invariant
                j <= n,
                n == keys.len(),
                keys == by_key.keys(),
                by_key.deep_view() == known.by_key,
                all == self.records.deep_view(),
                self.selected == store.selected,
                self.runtime.deep_view() == merged_new(known, keys.take(j as int)).runtime,
                merged.deep_view() == merged_new(known, keys.take(j as int)).merged,
            decreases n - j,
        {
            proof {
                assert(keys.take(j as int + 1).drop_last() =~= keys.take(j as int));
            }
            clear_inventory_misses(&mut self.runtime, by_key.key_at(j));
            push_record(&mut merged, by_key.value_at(j).duplicate());
            j = j + 1;
        }
        let ghost added = merged_new(known, keys);
        proof {
            assert(keys.take(n as int) =~= keys);
        }
        let ghost rest = adopted.keys();
        let count: usize = adopted.len();
        let mut k: usize = 0;
        proof {
            assert(rest.take(0) =~= Seq::empty());
        }
        while k < count
            invariant
                k <= count,
                count == rest.len(),
                rest == adopted.keys(),
                adopted.deep_view() == known.adopted,
                merged.deep_view() == extended(added.merged, known.adopted, rest.take(k as int)),
            decreases count - k,
        {
            proof {
                assert(rest.take(k as int + 1).drop_last() =~= rest.take(k as int));
            }
            push_record(&mut merged, adopted.value_at(k).duplicate());
            k = k + 1;
        }
        proof {
            assert(rest.take(count as int) =~= rest);
        }
        let live = inventory_keys(&merged);
        self.runtime.keep_only(&live);
        sort_device_list(&merged)
    }
}

fn push_record(list: &mut Vec<DeviceRecord>, record: DeviceRecord)
    ensures
        final(list).deep_view() == old(list).deep_view().push(record.deep_view()),
{
    let ghost before = list.deep_view();
    let ghost added = record.deep_view();
    list.push(record);
    proof {
        assert(list.deep_view() =~= before.push(added));
    }
}

/// Whether the devices of a list have different keys.
pub open spec fn told_apart(list: Seq<DeviceRecordModel>) -> bool {
    forall|i: int, j: int|
        0 <= i < j < list.len() ==> (#[trigger] list[i]).inventory_key != (
        #[trigger] list[j]).inventory_key
}

/// Whether an inventory that shows what is shown already leaves a device as it
/// is: the device keeps settings, or its key names no vendor and product, or more
/// than one known device could be it, or none could and no live device has its
/// vendor and product. Else it is left only where it is not listed by its key.
pub open spec fn left_alone(list: Seq<DeviceRecordModel>, record: DeviceRecordModel) -> bool {
    let by_key = by_inventory_key(list);
    record.persistent || match wire_of(record.config_key) {
        None => true,
        Some(wire) => {
            let could_be = candidates(by_key, list, wire);
            ||| could_be.len() > 1
            ||| could_be.len() == 0 && !has_live(by_key, wire)
            ||| !by_key.contains_key(record.config_key) && (could_be.len() == 1
                ==> !by_key.contains_key(could_be[0]))
        },
    }
}

proof fn lemma_by_key(list: Seq<DeviceRecordModel>)
    requires
        told_apart(list),
    ensures
        forall|i: int|
            0 <= i < list.len() ==> by_inventory_key(list).contains_key(
                (#[trigger] list[i]).inventory_key,
            ) && by_inventory_key(list)[list[i].inventory_key] == list[i],
        forall|key: Seq<char>|
            #[trigger] by_inventory_key(list).contains_key(key) ==> exists|i: int|
                0 <= i < list.len() && (#[trigger] list[i]).inventory_key == key,
        by_inventory_key(list).dom().finite(),
    decreases list.len(),
{
    if list.len() > 0 {
        let rest = list.drop_last();
        assert forall|i: int, j: int| 0 <= i < j < rest.len() implies (
        #[trigger] rest[i]).inventory_key != (#[trigger] rest[j]).inventory_key by {
            assert(rest[i] == list[i] && rest[j] == list[j]);
        }
        lemma_by_key(rest);
        assert forall|i: int| 0 <= i < list.len() implies by_inventory_key(list).contains_key(
            (#[trigger] list[i]).inventory_key,
        ) && by_inventory_key(list)[list[i].inventory_key] == list[i] by {
            if i < list.len() - 1 {
                assert(rest[i] == list[i]);
                assert(list[i].inventory_key != list[list.len() - 1].inventory_key);
            }
        }
        assert forall|key: Seq<char>|
            #[trigger] by_inventory_key(list).contains_key(key) implies exists|i: int|
            0 <= i < list.len() && (#[trigger] list[i]).inventory_key == key by {
            if key == list.last().inventory_key {
                assert(list[list.len() - 1].inventory_key == key);
            } else {
                assert(by_inventory_key(rest).contains_key(key));
                let i = choose|i: int|
                    0 <= i < rest.len() && (#[trigger] rest[i]).inventory_key == key;
                assert(list[i].inventory_key == key);
            }
        }
    }
}

/// Devices without a unit that are left alone are where they were.
proof fn lemma_none_settled(list: Seq<DeviceRecordModel>, keys: Seq<Seq<char>>)
    requires
        forall|i: int|
            0 <= i < keys.len() ==> left_alone(list, by_inventory_key(list)[#[trigger] keys[i]]),
    ensures
        settled_transients(
            by_inventory_key(list),
            list,
            transient_keys(by_inventory_key(list), keys),
        ) == (Adoption { by_key: by_inventory_key(list), adopted: Map::empty() }),
    decreases keys.len(),
{
    if keys.len() > 0 {
        let by_key = by_inventory_key(list);
        let rest = keys.drop_last();
        assert forall|i: int| 0 <= i < rest.len() implies left_alone(
            list,
            by_key[#[trigger] rest[i]],
        ) by {
            assert(rest[i] == keys[i]);
        }
        lemma_none_settled(list, rest);
        let record = by_key[keys[keys.len() - 1]];
        assert(left_alone(list, record));
        if !record.persistent {
            let transients = transient_keys(by_key, keys);
            assert(transients.drop_last() =~= transient_keys(by_key, rest));
            if let Some(wire) = wire_of(record.config_key) {
                let could_be = candidates(by_key, list, wire);
                if could_be.len() == 1 && !by_key.contains_key(could_be[0]) {
                    assert(by_key.remove(could_be[0]) =~= by_key);
                }
                if !by_key.contains_key(record.config_key) {
                    assert(by_key.remove(record.config_key) =~= by_key);
                }
            }
        }
    }
}

/// The keys of a finite map in order are its keys.
proof fn lemma_in_order<X>(m: Map<Seq<char>, X>)
    requires
        m.dom().finite(),
    ensures
        in_order::<String, X>(m).to_set() == m.dom(),
        crate::keyed::ascending::<String>(in_order::<String, X>(m)),
    decreases m.dom().len(),
{
    lemma_order_exists::<X>(m);
}

proof fn lemma_order_exists<X>(m: Map<Seq<char>, X>)
    requires
        m.dom().finite(),
    ensures
        exists|keys: Seq<Seq<char>>|
            #![auto]
            crate::keyed::ascending::<String>(keys) && keys.to_set() == m.dom(),
    decreases m.dom().len(),
{
    if m.dom().len() == 0 {
        let keys = Seq::<Seq<char>>::empty();
        assert(keys.to_set() =~= m.dom());
        assert(crate::keyed::ascending::<String>(keys) && keys.to_set() == m.dom());
    } else {
        let k = m.dom().choose();
        let rest = m.remove(k);
        assert(rest.dom() =~= m.dom().remove(k));
        lemma_order_exists::<X>(rest);
        let keys = choose|keys: Seq<Seq<char>>|
            #![auto]
            crate::keyed::ascending::<String>(keys) && keys.to_set() == rest.dom();
        assert forall|i: int| 0 <= i < keys.len() implies #[trigger] keys[i] != k by {
            assert(keys.to_set().contains(keys[i]));
        }
        let with = lemma_order_insert(keys, k);
        assert(with.to_set() =~= m.dom());
        assert(crate::keyed::ascending::<String>(with) && with.to_set() == m.dom());
    }
}

proof fn lemma_order_insert(keys: Seq<Seq<char>>, k: Seq<char>) -> (r: Seq<Seq<char>>)
    requires
        crate::keyed::ascending::<String>(keys),
        forall|i: int| 0 <= i < keys.len() ==> #[trigger] keys[i] != k,
    ensures
        crate::keyed::ascending::<String>(r),
        r.to_set() == keys.to_set().insert(k),
        forall|i: int| 0 <= i < r.len() ==> keys.contains(#[trigger] r[i]) || r[i] == k,
    decreases keys.len(),
{
    if keys.len() == 0 || lex_lt(keys.last(), k) {
        let r = keys.push(k);
        assert forall|i: int, j: int| 0 <= i < j < r.len() implies lex_lt(
            #[trigger] r[i],
            #[trigger] r[j],
        ) by {
            if j == keys.len() {
                if i < keys.len() - 1 {
                    assert(<String as crate::keyed::Key>::lt(keys[i], keys[keys.len() - 1]));
                    lemma_lex_transitive(keys[i], keys.last(), k);
                }
            } else {
                assert(<String as crate::keyed::Key>::lt(keys[i], keys[j]));
            }
        }
        assert forall|i: int| 0 <= i < r.len() implies keys.contains(#[trigger] r[i]) || r[i]
            == k by {
            if i < keys.len() {
                assert(keys[i] == r[i]);
            }
        }
        lemma_push_set(keys, k);
        r
    } else {
        lemma_lex_total(keys.last(), k);
        let head = keys.drop_last();
        assert forall|i: int, j: int| 0 <= i < j < head.len() implies lex_lt(
            #[trigger] head[i],
            #[trigger] head[j],
        ) by {
            assert(<String as crate::keyed::Key>::lt(keys[i], keys[j]));
        }
        assert forall|i: int| 0 <= i < head.len() implies #[trigger] head[i] != k by {
            assert(keys[i] == head[i]);
        }
        let inner = lemma_order_insert(head, k);
        let r = inner.push(keys.last());
        assert forall|i: int, j: int| 0 <= i < j < r.len() implies lex_lt(
            #[trigger] r[i],
            #[trigger] r[j],
        ) by {
            if j == inner.len() {
                if inner[i] != k {
                    assert(head.contains(inner[i]));
                    let x = choose|x: int| 0 <= x < head.len() && head[x] == inner[i];
                    assert(<String as crate::keyed::Key>::lt(keys[x], keys[keys.len() - 1]));
                }
            } else {
                assert(<String as crate::keyed::Key>::lt(inner[i], inner[j]));
            }
        }
        assert forall|i: int| 0 <= i < r.len() implies keys.contains(#[trigger] r[i]) || r[i]
            == k by {
            if i < inner.len() {
                if inner[i] != k {
                    let x = choose|x: int| 0 <= x < head.len() && head[x] == inner[i];
                    assert(keys[x] == r[i]);
                }
            } else {
                assert(keys[keys.len() - 1] == r[i]);
            }
        }
        lemma_push_set(inner, keys.last());
        lemma_push_set(head, keys.last());
        assert(keys =~= head.push(keys.last()));
        assert(r.to_set() =~= keys.to_set().insert(k));
        r
    }
}

proof fn lemma_push_set(s: Seq<Seq<char>>, k: Seq<char>)
    ensures
        s.push(k).to_set() == s.to_set().insert(k),
{
    let t = s.push(k);
    assert forall|x: Seq<char>| t.to_set().contains(x) == s.to_set().insert(k).contains(x) by {
        if x == k {
            assert(t[s.len() as int] == k);
        }
        if s.contains(x) {
            let j = choose|j: int| 0 <= j < s.len() && s[j] == x;
            assert(t[j] == x);
        }
        if t.contains(x) && x != k {
            let j = choose|j: int| 0 <= j < t.len() && t[j] == x;
            assert(s[j] == x);
        }
    }
    assert(t.to_set() =~= s.to_set().insert(k));
}

proof fn lemma_in_place_stays(list: Seq<DeviceRecordModel>)
    requires
        in_place(list),
    ensures
        ordered(list) == list,
    decreases list.len(),
{
    if list.len() > 0 {
        let rest = list.drop_last();
        assert forall|i: int, j: int| 0 <= i < j < rest.len() implies (#[trigger] rest[i]).order
            <= (#[trigger] rest[j]).order by {
            assert(rest[i] == list[i] && rest[j] == list[j]);
        }
        lemma_in_place_stays(rest);
        if rest.len() > 0 {
            assert(list[rest.len() - 1].order <= list[rest.len() as int].order);
        }
        assert(rest.push(list.last()) =~= list);
    } else {
        assert(list =~= Seq::empty());
    }
}

/// The known devices of the same inventory are all found in it.
proof fn lemma_all_found(start: Merge, list: Seq<DeviceRecordModel>, n: int)
    requires
        told_apart(list),
        0 <= n <= list.len(),
        forall|i: int|
            0 <= i < list.len() ==> start.by_key.contains_key((#[trigger] list[i]).inventory_key)
                && start.by_key[list[i].inventory_key] == list[i],
    ensures
        ({
            let m = merged_all_known(start, list.take(n));
            &&& m.merged == start.merged + list.take(n)
            &&& m.adopted == start.adopted
            &&& forall|key: Seq<char>|
                #[trigger] m.by_key.contains_key(key) <==> start.by_key.contains_key(key)
                    && forall|i: int| 0 <= i < n ==> (#[trigger] list[i]).inventory_key != key
            &&& forall|key: Seq<char>|
                #[trigger] m.by_key.contains_key(key) ==> m.by_key[key] == start.by_key[key]
        }),
    decreases n,
{
    if n == 0 {
        assert(list.take(0) =~= Seq::empty());
        assert(start.merged + list.take(0) =~= start.merged);
    } else {
        lemma_all_found(start, list, n - 1);
        let before = merged_all_known(start, list.take(n - 1));
        assert(list.take(n).drop_last() =~= list.take(n - 1));
        let record = list[n - 1];
        assert(list.take(n).last() == record);
        assert(before.by_key.contains_key(record.inventory_key)) by {
            assert forall|i: int| 0 <= i < n - 1 implies (#[trigger] list[i]).inventory_key
                != record.inventory_key by {
                assert(list[i].inventory_key != list[n - 1].inventory_key);
            }
        }
        let m = merged_all_known(start, list.take(n));
        assert(m.merged =~= start.merged + list.take(n));
        assert forall|key: Seq<char>|
            #[trigger] m.by_key.contains_key(key) <==> start.by_key.contains_key(key) && forall|
                i: int,
            |
                0 <= i < n ==> (#[trigger] list[i]).inventory_key != key by {
            if m.by_key.contains_key(key) {
                assert(before.by_key.contains_key(key));
                assert forall|i: int| 0 <= i < n implies (#[trigger] list[i]).inventory_key
                    != key by {
                    if i == n - 1 {
                    } else {
                        assert(list[i].inventory_key != key);
                    }
                }
            }
            if start.by_key.contains_key(key) && forall|i: int|
                0 <= i < n ==> (#[trigger] list[i]).inventory_key != key {
                assert(list[n - 1].inventory_key != key);
                assert(before.by_key.contains_key(key));
            }
        }
    }
}

/// An inventory that shows what is shown already changes nothing, unless it is
/// settled who one of its devices without a unit is.
pub proof fn an_identical_inventory_changes_nothing(store: StoreModel)
    requires
        told_apart(store.records),
        in_place(store.records),
        forall|i: int|
            0 <= i < store.records.len() ==> left_alone(
                store.records,
                #[trigger] store.records[i],
            ),
    ensures
        ordered(merge_of(store, store.records).merged) == store.records,
{
    let list = store.records;
    lemma_by_key(list);
    let by_key = by_inventory_key(list);
    lemma_in_order::<DeviceRecordModel>(by_key);
    let keys = in_order::<String, DeviceRecordModel>(by_key);
    assert forall|i: int| 0 <= i < keys.len() implies left_alone(
        list,
        by_key[#[trigger] keys[i]],
    ) by {
        assert(keys.to_set().contains(keys[i]));
        assert(by_key.contains_key(keys[i]));
        let k = choose|k: int| 0 <= k < list.len() && (#[trigger] list[k]).inventory_key == keys[i];
        assert(by_key[list[k].inventory_key] == list[k]);
    }
    lemma_none_settled(list, keys);
    let a = adoption(by_key, list);
    assert(a.by_key == by_key && a.adopted == Map::<Seq<char>, DeviceRecordModel>::empty());
    let start = Merge {
        by_key: a.by_key,
        adopted: a.adopted,
        runtime: store.runtime,
        merged: Seq::empty(),
    };
    lemma_all_found(start, list, list.len() as int);
    assert(list.take(list.len() as int) =~= list);
    let known = merged_all_known(start, list);
    assert(Seq::<DeviceRecordModel>::empty() + list =~= list);
    assert forall|key: Seq<char>| !#[trigger] known.by_key.contains_key(key) by {
        if known.by_key.contains_key(key) {
            assert(by_key.contains_key(key));
            let k = choose|k: int| 0 <= k < list.len() && (#[trigger] list[k]).inventory_key == key;
            assert(list[k].inventory_key != key);
        }
    }
    assert(known.by_key.dom() =~= Set::empty());
    assert(known.by_key =~= Map::empty());
    lemma_in_order::<DeviceRecordModel>(known.by_key);
    let none = in_order::<String, DeviceRecordModel>(known.by_key);
    if none.len() > 0 {
        assert(none.to_set().contains(none[0]));
    }
    lemma_in_order::<DeviceRecordModel>(known.adopted);
    let also_none = in_order::<String, DeviceRecordModel>(known.adopted);
    if also_none.len() > 0 {
        assert(also_none.to_set().contains(also_none[0]));
    }
    lemma_in_place_stays(list);
}

/// A device that keeps settings and is no camera is still shown when one or two
/// inventories in a row leave it out, and no longer when a third does.
pub proof fn a_device_is_kept_through_two_misses(m: Merge, known: DeviceRecordModel)
    requires
        known.persistent,
        known.kind != DeviceKind::Camera,
        !m.by_key.contains_key(known.inventory_key),
        !m.adopted.contains_key(known.inventory_key),
        misses_after(m.runtime, known.inventory_key) == 1,
    ensures
        ({
            let once = merged_known(m, known);
            let twice = merged_known(once, known);
            let thrice = merged_known(twice, known);
            &&& once.merged == m.merged.push(known)
            &&& twice.merged == once.merged.push(known)
            &&& thrice.merged == twice.merged
        }),
{
}

/// Being seen again clears the misses of a device.
pub proof fn being_seen_clears_the_misses(m: Merge, known: DeviceRecordModel)
    requires
        m.by_key.contains_key(known.inventory_key),
    ensures
        misses_after(merged_known(m, known).runtime, known.inventory_key) == 1,
        merged_known(m, known).merged.last() == m.by_key[known.inventory_key],
{
}

/// A device without a unit that exactly one known device can be is never shown
/// beside it: the inventory holds neither any more, and the known one is shown
/// with what is live.
pub proof fn a_half_read_device_is_never_shown_twice(
    a: Adoption,
    known: Seq<DeviceRecordModel>,
    key: Seq<char>,
    whose: Seq<char>,
)
    requires
        wire_of(key) is Some,
        candidates(a.by_key, known, wire_of(key)->0) == seq![whose],
        first_of(known, whose) is Some || a.by_key.contains_key(whose),
        a.by_key.contains_key(key),
        key != whose,
    ensures
        ({
            let after = settled_transient(a, known, key);
            &&& !after.by_key.contains_key(key)
            &&& !after.by_key.contains_key(whose)
            &&& after.adopted.contains_key(whose)
            &&& after.adopted[whose].online == a.by_key[key].online
            &&& after.adopted[whose].route == a.by_key[key].route
        }),
{
}

/// Where two known devices could be the one that was read without its unit,
/// neither is.
pub proof fn an_ambiguous_reading_is_left_alone(
    a: Adoption,
    known: Seq<DeviceRecordModel>,
    key: Seq<char>,
)
    requires
        wire_of(key) is Some,
        candidates(a.by_key, known, wire_of(key)->0).len() >= 2,
    ensures
        settled_transient(a, known, key) == a,
{
}

/// A known device that a half-read one is taken for stays who it is: its keys, its
/// name, its model and what it can do. What is live of it is what was just read: that
/// it is there, where, and how full it is.
pub proof fn a_known_device_stays_who_it_is(known: DeviceRecordModel, live: DeviceRecordModel)
    ensures
        ({
            let r = taken_for(known, live);
            &&& r.config_key == known.config_key
            &&& r.inventory_key == known.inventory_key
            &&& r.record_key == known.record_key
            &&& r.model_name == known.model_name
            &&& r.kind == known.kind
            &&& r.persistent == known.persistent
            &&& r.capabilities == known.capabilities
            &&& r.model_info == known.model_info
            &&& r.online == live.online
            &&& r.slot == live.slot
            &&& r.route == live.route
            &&& r.route_key == live.route_key
            &&& r.order == live.order
            &&& r.battery == live.battery
        }),
{
}

proof fn lemma_next_colon(text: Seq<char>, from: int, at: int)
    requires
        0 <= from <= at <= text.len(),
        forall|i: int| from <= i < at ==> #[trigger] text[i] != ':',
        at < text.len() ==> text[at] == ':',
    ensures
        next_colon(text, from) == at,
    decreases at - from,
{
    if from < at {
        assert(text[from] != ':');
        lemma_next_colon(text, from + 1, at);
    }
}

/// The key of a device without a receiver names its vendor and product before its
/// unit, and units of one model share them.
pub proof fn units_of_a_model_share_its_wire(
    vendor: Seq<char>,
    product: Seq<char>,
    unit: Seq<char>,
)
    requires
        !vendor.contains(':'),
        !product.contains(':'),
    ensures
        wire_of("direct:"@ + vendor + seq![':'] + product + seq![':'] + unit) == Some(
            "direct:"@ + vendor + seq![':'] + product,
        ),
{
    reveal_strlit("direct:");
    let head = "direct:"@;
    let key = head + vendor + seq![':'] + product + seq![':'] + unit;
    let vendor_end = 7 + vendor.len() as int;
    let product_end = vendor_end + 1 + product.len();
    assert(key.take(7) =~= head);
    assert forall|i: int| 7 <= i < vendor_end implies #[trigger] key[i] != ':' by {
        assert(key[i] == vendor[i - 7]);
        assert(vendor.contains(vendor[i - 7]));
    }
    assert(key[vendor_end] == ':');
    lemma_next_colon(key, 7, vendor_end);
    assert forall|i: int| vendor_end + 1 <= i < product_end implies #[trigger] key[i] != ':' by {
        assert(key[i] == product[i - vendor_end - 1]);
        assert(product.contains(product[i - vendor_end - 1]));
    }
    assert(key[product_end] == ':');
    lemma_next_colon(key, vendor_end + 1, product_end);
    assert(key.take(product_end) =~= head + vendor + seq![':'] + product);
}

/// A key that begins otherwise names no vendor and product.
pub proof fn only_a_direct_key_names_a_wire(key: Seq<char>)
    requires
        wire_of(key) is Some,
    ensures
        key.len() >= 7,
        key.take(7) == "direct:"@,
{
    reveal_strlit("direct:");
}

/// A known device that the inventory has is shown as the inventory has it, and one
/// that was folded into is shown as it came out of that; both have no more misses.
/// One that is left out is shown as it was while it is within its grace. One that
/// keeps no settings, and a camera, go at once.
pub proof fn a_known_device_is_shown_as_it_is_now(m: Merge, known: DeviceRecordModel)
    ensures
        ({
            let key = known.inventory_key;
            let after = merged_known(m, known);
            let here = m.by_key.contains_key(key);
            let folded = m.adopted.contains_key(key);
            &&& here ==> after.merged == m.merged.push(m.by_key[key])
                && !after.by_key.contains_key(key)
            &&& !here && folded ==> after.merged == m.merged.push(m.adopted[key])
                && !after.adopted.contains_key(key)
            &&& (here || folded) && m.runtime.contains_key(key) ==> after.runtime[key]
                == (DeviceUiStateModel { inventory_misses: 0, ..m.runtime[key] })
            &&& !here && !folded && (!known.persistent || known.kind == DeviceKind::Camera)
                ==> after.merged == m.merged
            &&& !here && !folded && known.persistent && known.kind != DeviceKind::Camera ==> {
                let before = if m.runtime.contains_key(key) {
                    m.runtime[key].inventory_misses as int
                } else {
                    0
                };
                &&& after.runtime.contains_key(key)
                &&& before < 255 ==> after.runtime[key].inventory_misses == before + 1
                &&& before < 2 ==> after.merged == m.merged.push(known)
                &&& before >= 2 ==> after.merged == m.merged
            }
            &&& after.runtime.remove(key) == m.runtime.remove(key)
        }),
{
    let after = merged_known(m, known);
    assert(after.runtime.remove(known.inventory_key) =~= m.runtime.remove(known.inventory_key));
}

proof fn lemma_merge_keeps(m: Merge, known: Seq<DeviceRecordModel>, key: Seq<char>)
    requires
        m.by_key.contains_key(key),
    ensures
        ({
            let after = merged_all_known(m, known);
            ||| after.by_key.contains_key(key) && after.by_key[key] == m.by_key[key]
            ||| after.merged.contains(m.by_key[key])
        }),
    decreases known.len(),
{
    if known.len() > 0 {
        let rest = known.drop_last();
        lemma_merge_keeps(m, rest, key);
        let before = merged_all_known(m, rest);
        let after = merged_all_known(m, known);
        let record = m.by_key[key];
        if before.merged.contains(record) {
            let i = choose|i: int| 0 <= i < before.merged.len() && before.merged[i] == record;
            assert(after.merged[i] == record);
        } else if known.last().inventory_key == key {
            assert(after.merged[before.merged.len() as int] == record);
        }
    }
}

proof fn lemma_merged_new(m: Merge, keys: Seq<Seq<char>>, i: int)
    requires
        0 <= i < keys.len(),
    ensures
        merged_new(m, keys).merged.contains(m.by_key[keys[i]]),
    decreases keys.len(),
{
    let rest = keys.drop_last();
    let before = merged_new(m, rest).merged;
    let after = merged_new(m, keys).merged;
    if i < rest.len() {
        lemma_merged_new(m, rest, i);
        let k = choose|k: int| 0 <= k < before.len() && before[k] == m.by_key[rest[i]];
        assert(after[k] == m.by_key[keys[i]]);
    } else {
        assert(after[before.len() as int] == m.by_key[keys[i]]);
    }
}

proof fn lemma_merged_new_keeps(m: Merge, keys: Seq<Seq<char>>, record: DeviceRecordModel)
    requires
        m.merged.contains(record),
    ensures
        merged_new(m, keys).merged.contains(record),
    decreases keys.len(),
{
    if keys.len() > 0 {
        lemma_merged_new_keeps(m, keys.drop_last(), record);
        let before = merged_new(m, keys.drop_last()).merged;
        let k = choose|k: int| 0 <= k < before.len() && before[k] == record;
        assert(merged_new(m, keys).merged[k] == record);
    }
}

proof fn lemma_extended_keeps(
    merged: Seq<DeviceRecordModel>,
    table: Map<Seq<char>, DeviceRecordModel>,
    keys: Seq<Seq<char>>,
    record: DeviceRecordModel,
)
    requires
        merged.contains(record),
    ensures
        extended(merged, table, keys).contains(record),
    decreases keys.len(),
{
    if keys.len() > 0 {
        lemma_extended_keeps(merged, table, keys.drop_last(), record);
        let before = extended(merged, table, keys.drop_last());
        let k = choose|k: int| 0 <= k < before.len() && before[k] == record;
        assert(extended(merged, table, keys)[k] == record);
    }
}

proof fn lemma_no_transients(by_key: Map<Seq<char>, DeviceRecordModel>, keys: Seq<Seq<char>>)
    requires
        forall|i: int| 0 <= i < keys.len() ==> by_key[#[trigger] keys[i]].persistent,
    ensures
        transient_keys(by_key, keys) == Seq::<Seq<char>>::empty(),
    decreases keys.len(),
{
    if keys.len() > 0 {
        assert forall|i: int| 0 <= i < keys.drop_last().len() implies by_key[
            #[trigger] keys.drop_last()[i]
        ].persistent by {
            assert(keys.drop_last()[i] == keys[i]);
        }
        lemma_no_transients(by_key, keys.drop_last());
        assert(by_key[keys[keys.len() - 1]].persistent);
    }
}

proof fn lemma_merge_finite(m: Merge, known: Seq<DeviceRecordModel>)
    requires
        m.by_key.dom().finite(),
    ensures
        merged_all_known(m, known).by_key.dom().finite(),
    decreases known.len(),
{
    if known.len() > 0 {
        lemma_merge_finite(m, known.drop_last());
    }
}

/// Every device of an inventory whose units were read is shown as the inventory has
/// it, whether it was known before or is new.
pub proof fn every_device_of_an_inventory_is_shown(
    store: StoreModel,
    list: Seq<DeviceRecordModel>,
    i: int,
)
    requires
        told_apart(list),
        forall|k: int| 0 <= k < list.len() ==> (#[trigger] list[k]).persistent,
        0 <= i < list.len(),
    ensures
        merge_of(store, list).merged.contains(list[i]),
{
    lemma_by_key(list);
    let by_key = by_inventory_key(list);
    lemma_in_order::<DeviceRecordModel>(by_key);
    let keys = in_order::<String, DeviceRecordModel>(by_key);
    assert forall|k: int| 0 <= k < keys.len() implies by_key[#[trigger] keys[k]].persistent by {
        assert(keys.to_set().contains(keys[k]));
        assert(by_key.contains_key(keys[k]));
        let j = choose|j: int| 0 <= j < list.len() && (#[trigger] list[j]).inventory_key == keys[k];
        assert(by_key[list[j].inventory_key] == list[j]);
    }
    lemma_no_transients(by_key, keys);
    let start = Merge {
        by_key,
        adopted: Map::empty(),
        runtime: store.runtime,
        merged: Seq::empty(),
    };
    let key = list[i].inventory_key;
    lemma_merge_keeps(start, store.records, key);
    lemma_merge_finite(start, store.records);
    let known = merged_all_known(start, store.records);
    let left = in_order::<String, DeviceRecordModel>(known.by_key);
    lemma_in_order::<DeviceRecordModel>(known.by_key);
    if known.merged.contains(list[i]) {
        lemma_merged_new_keeps(known, left, list[i]);
    } else {
        assert(known.by_key.dom().contains(key));
        assert(left.to_set().contains(key));
        let k = choose|k: int| 0 <= k < left.len() && left[k] == key;
        lemma_merged_new(known, left, k);
    }
    let added = merged_new(known, left);
    lemma_extended_keeps(
        added.merged,
        known.adopted,
        in_order::<String, DeviceRecordModel>(known.adopted),
        list[i],
    );
}

/// Clearing the misses of a device clears just those.
pub proof fn clearing_misses_clears_just_those(
    runtime: Map<Seq<char>, DeviceUiStateModel>,
    key: Seq<char>,
)
    ensures
        cleared(runtime, key).contains_key(key) <==> runtime.contains_key(key),
        runtime.contains_key(key) ==> cleared(runtime, key)[key].inventory_misses == 0
            && cleared(runtime, key)[key].smartshift_write_status
            == runtime[key].smartshift_write_status && cleared(
            runtime,
            key,
        )[key].smartshift_pending_confirm == runtime[key].smartshift_pending_confirm,
        cleared(runtime, key).remove(key) == runtime.remove(key),
{
    assert(cleared(runtime, key).remove(key) =~= runtime.remove(key));
}

proof fn lemma_idle_candidates(
    by_key: Map<Seq<char>, DeviceRecordModel>,
    keys: Seq<Seq<char>>,
    wire: Seq<char>,
    key: Seq<char>,
)
    ensures
        idle_candidates(by_key, keys, wire).contains(key) <==> keys.contains(key)
            && by_key[key].persistent && wire_of(key) == Some(wire) && !by_key[key].online,
    decreases keys.len(),
{
    let now = idle_candidates(by_key, keys, wire);
    if keys.len() == 0 {
        assert(!keys.contains(key));
    } else {
        let rest = keys.drop_last();
        let before = idle_candidates(by_key, rest, wire);
        lemma_idle_candidates(by_key, rest, wire, key);
        assert(keys =~= rest.push(keys.last()));
        lemma_has_pushed(rest, keys.last(), key);
        lemma_has_pushed(before, keys.last(), key);
    }
}

proof fn lemma_has_pushed(s: Seq<Seq<char>>, x: Seq<char>, y: Seq<char>)
    ensures
        s.push(x).contains(y) <==> s.contains(y) || y == x,
{
    if s.contains(y) {
        let i = choose|i: int| 0 <= i < s.len() && s[i] == y;
        assert(s.push(x)[i] == y);
    }
    if y == x {
        assert(s.push(x)[s.len() as int] == y);
    }
    if s.push(x).contains(y) {
        let i = choose|i: int| 0 <= i < s.push(x).len() && s.push(x)[i] == y;
        if i < s.len() {
            assert(s[i] == y);
        }
    }
}

/// A half-read device could be one that keeps settings, has its vendor and product, and
/// is accounted for by nothing live: one of the inventory that is not live, or a known
/// one that the inventory leaves out. Each counts once.
pub proof fn a_half_read_device_could_be_one_that_is_not_live(
    by_key: Map<Seq<char>, DeviceRecordModel>,
    known: Seq<DeviceRecordModel>,
    wire: Seq<char>,
    key: Seq<char>,
)
    requires
        by_key.dom().finite(),
    ensures
        candidates(by_key, known, wire).contains(key) <==> {
            ||| by_key.contains_key(key) && by_key[key].persistent && wire_of(key) == Some(wire)
                && !by_key[key].online
            ||| !by_key.contains_key(key) && wire_of(key) == Some(wire) && exists|i: int|
                0 <= i < known.len() && (#[trigger] known[i]).config_key == key
                    && known[i].persistent
        },
    decreases known.len(),
{
    let now = candidates(by_key, known, wire);
    if known.len() == 0 {
        let keys = in_order::<String, DeviceRecordModel>(by_key);
        lemma_in_order::<DeviceRecordModel>(by_key);
        lemma_idle_candidates(by_key, keys, wire, key);
        assert(keys.to_set().contains(key) <==> by_key.dom().contains(key));
    } else {
        let rest = known.drop_last();
        let before = candidates(by_key, rest, wire);
        let last = known.last();
        a_half_read_device_could_be_one_that_is_not_live(by_key, rest, wire, key);
        lemma_has_pushed(before, last.config_key, key);
        assert forall|i: int| 0 <= i < rest.len() implies #[trigger] rest[i] == known[i] by {}
        if exists|i: int|
            0 <= i < rest.len() && (#[trigger] rest[i]).config_key == key && rest[i].persistent {
            let i = choose|i: int|
                0 <= i < rest.len() && (#[trigger] rest[i]).config_key == key && rest[i].persistent;
            assert(known[i].config_key == key);
        }
        if exists|i: int|
            0 <= i < known.len() && (#[trigger] known[i]).config_key == key && known[i].persistent {
            let i = choose|i: int|
                0 <= i < known.len() && (#[trigger] known[i]).config_key == key
                    && known[i].persistent;
            if i < rest.len() {
                assert(rest[i].config_key == key);
            } else {
                assert(known[known.len() - 1] == last);
            }
        }
        if last.config_key == key && last.persistent {
            assert(known[known.len() - 1].config_key == key);
        }
    }
}

/// A half-read device is folded into the one known device that it could be, which is
/// then shown as what is known with what is live; where it could be none and a live one
/// is alike, it is dropped; and it is left alone otherwise.
pub proof fn a_half_read_device_is_settled(
    a: Adoption,
    known: Seq<DeviceRecordModel>,
    key: Seq<char>,
    wire: Seq<char>,
)
    requires
        wire_of(key) == Some(wire),
    ensures
        ({
            let could_be = candidates(a.by_key, known, wire);
            let after = settled_transient(a, known, key);
            &&& could_be.len() > 1 ==> after == a
            &&& could_be.len() == 0 && has_live(a.by_key, wire) ==> after.by_key
                == a.by_key.remove(key) && after.adopted == a.adopted
            &&& could_be.len() == 0 && !has_live(a.by_key, wire) ==> after == a
            &&& could_be.len() == 1 && first_of(known, could_be[0]) is Some && a.by_key.contains_key(
                key,
            ) && could_be[0] != key ==> {
                let whose = could_be[0];
                &&& !after.by_key.contains_key(key)
                &&& !after.by_key.contains_key(whose)
                &&& after.adopted.contains_key(whose)
                &&& after.adopted[whose].config_key == first_of(known, whose)->0.config_key
                &&& after.adopted[whose].model_name == first_of(known, whose)->0.model_name
                &&& after.adopted[whose].online == a.by_key[key].online
                &&& after.adopted[whose].battery == a.by_key[key].battery
                &&& after.adopted[whose].route == a.by_key[key].route
            }
        }),
        wire_of(Seq::empty()) is None,
{
    reveal_strlit("direct:");
}

/// The first known device of a key is the one that a half-read one is taken for.
pub proof fn the_first_known_device_of_a_key_counts(
    known: Seq<DeviceRecordModel>,
    key: Seq<char>,
)
    ensures
        match first_of(known, key) {
            Some(record) => exists|i: int|
                0 <= i < known.len() && #[trigger] known[i] == record && record.config_key == key
                    && forall|j: int| 0 <= j < i ==> (#[trigger] known[j]).config_key != key,
            None => forall|j: int| 0 <= j < known.len() ==> (#[trigger] known[j]).config_key != key,
        },
    decreases known.len(),
{
    if known.len() > 0 {
        let rest = known.drop_last();
        let last = known.len() - 1;
        the_first_known_device_of_a_key_counts(rest, key);
        assert forall|j: int| 0 <= j < rest.len() implies #[trigger] rest[j] == known[j] by {}
        match first_of(rest, key) {
            Some(record) => {
                let i = choose|i: int|
                    0 <= i < rest.len() && #[trigger] rest[i] == record && record.config_key == key
                        && forall|j: int| 0 <= j < i ==> (#[trigger] rest[j]).config_key != key;
                assert(known[i] == record);
                assert forall|j: int| 0 <= j < i implies (#[trigger] known[j]).config_key != key by {
                    assert(rest[j] == known[j]);
                }
            },
            None => {
                assert forall|j: int| 0 <= j < last implies (#[trigger] known[j]).config_key
                    != key by {
                    assert(rest[j] == known[j]);
                }
                if known.last().config_key == key {
                    assert(known[last] == known.last());
                }
            },
        }
    }
}

} // verus!
