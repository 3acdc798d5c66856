//! Local handles for remote things.
//!
//! A remote workspace, tab or terminal keeps its handle as long as it lives,
//! whatever happens to its name, its place or its aliases.

use std::collections::HashMap;
use vstd::prelude::*;

use crate::ssh::herdr::metadata::{IdEntry, GROUP, PANE, WORKSPACE};
use crate::ssh::herdr::wire::{HerdrGroup, HerdrPane, HerdrWorkspace};
use crate::text::same_text;

verus! {

broadcast use vstd::std_specs::hash::group_hash_axioms;

/// What a handle stands for.
#[derive(Debug, PartialEq, Eq)]
pub struct RemoteKey {
    pub kind: u8,
    pub remote: String,
}

#[verifier::ext_equal]
pub struct KeyView {
    pub kind: u8,
    pub remote: Seq<char>,
}

impl View for RemoteKey {
    type V = KeyView;

    open spec fn view(&self) -> KeyView {
        KeyView { kind: self.kind, remote: self.remote@ }
    }
}

pub open spec fn key_views(keys: Seq<RemoteKey>) -> Seq<KeyView> {
    Seq::new(keys.len(), |i: int| keys[i]@)
}

pub open spec fn key_of(entry: IdEntry) -> KeyView {
    KeyView { kind: entry.kind, remote: entry.remote@ }
}

/// The handles of a table; the first entry of a key counts.
pub open spec fn table(ids: Seq<IdEntry>) -> Map<KeyView, u64>
    decreases ids.len(),
{
    if ids.len() == 0 {
        Map::empty()
    } else {
        let front = table(ids.drop_last());
        if front.contains_key(key_of(ids.last())) {
            front
        } else {
            front.insert(key_of(ids.last()), ids.last().handle)
        }
    }
}

/// Gives every key that is not in the map the next fresh value, in the order
/// of the keys.  Also the number of fresh values used.
pub open spec fn assigned<K>(m: Map<K, u64>, keys: Seq<K>, fresh: Seq<u64>) -> (Map<K, u64>, nat)
    decreases keys.len(),
{
    if keys.len() == 0 {
        (m, 0)
    } else {
        let (front, used) = assigned(m, keys.drop_last(), fresh);
        if front.contains_key(keys.last()) {
            (front, used)
        } else {
            (front.insert(keys.last(), fresh[used as int]), used + 1)
        }
    }
}

/// The number of different keys that are not in the map.
pub open spec fn unknown<K>(m: Map<K, u64>, keys: Seq<K>) -> nat
    decreases keys.len(),
{
    if keys.len() == 0 {
        0
    } else {
        unknown(m, keys.drop_last()) + (if m.contains_key(keys.last())
            || keys.drop_last().contains(keys.last()) {
            0nat
        } else {
            1nat
        })
    }
}

/// Afterwards exactly the old keys and the new ones have values, the old ones
/// the same as before, and as many fresh values were used as keys were new.
pub proof fn law_assigned<K>(m: Map<K, u64>, keys: Seq<K>, fresh: Seq<u64>)
    ensures
        forall|k: K|
            #![trigger assigned(m, keys, fresh).0.contains_key(k)]
            assigned(m, keys, fresh).0.contains_key(k) <==> m.contains_key(k) || keys.contains(k),
        forall|k: K| m.contains_key(k) ==> #[trigger] assigned(m, keys, fresh).0[k] == m[k],
        assigned(m, keys, fresh).1 == unknown(m, keys),
        unknown(m, keys) <= keys.len(),
    decreases keys.len(),
{
    if keys.len() > 0 {
        let front = keys.drop_last();
        law_assigned(m, front, fresh);
        assert forall|k: K| keys.contains(k) == (front.contains(k) || k == keys.last()) by {
            if keys.contains(k) {
                let i = choose|i: int| 0 <= i < keys.len() && keys[i] == k;
                if i < front.len() {
                    assert(front[i] == k);
                }
            }
            if front.contains(k) {
                let i = choose|i: int| 0 <= i < front.len() && front[i] == k;
                assert(keys[i] == k);
            }
            assert(keys[keys.len() - 1] == keys.last());
        }
    }
}

proof fn lemma_table_grows(ids: Seq<IdEntry>, entry: IdEntry)
    ensures
        table(ids.push(entry)) == (if table(ids).contains_key(key_of(entry)) {
            table(ids)
        } else {
            table(ids).insert(key_of(entry), entry.handle)
        }),
{
    assert(ids.push(entry).drop_last() == ids);
}

/// The handle of a remote thing, if it has one.
pub fn find_handle(ids: &Vec<IdEntry>, kind: u8, remote: &str) -> (r: Option<u64>)
    ensures
        r == (if table(ids@).contains_key(KeyView { kind, remote: remote@ }) {
            Some(table(ids@)[KeyView { kind, remote: remote@ }])
        } else {
            None
        }),
{
    let ghost key = KeyView { kind, remote: remote@ };
    let mut i: usize = 0;
    assert(ids@.take(0) == Seq::<IdEntry>::empty());
    while i < ids.len()
        invariant
            i <= ids@.len(),
            key == (KeyView { kind, remote: remote@ }),
            !table(ids@.take(i as int)).contains_key(key),
        decreases ids@.len() - i,
    {
        assert(ids@.take(i + 1).drop_last() == ids@.take(i as int));
        if ids[i].kind == kind && same_text(ids[i].remote.as_str(), remote) {
            proof {
                lemma_first_counts(ids@, i + 1, key);
            }
            return Some(ids[i].handle);
        }
        assert(key_of(ids@[i as int]) != key) by {
            if key_of(ids@[i as int]) == key {
                assert(ids@[i as int].remote@ == remote@);
            }
        }
        i = i + 1;
    }
    assert(ids@.take(i as int) == ids@);
    None
}

proof fn lemma_first_counts(ids: Seq<IdEntry>, n: int, key: KeyView)
    requires
        0 <= n <= ids.len(),
        table(ids.take(n)).contains_key(key),
    ensures
        table(ids).contains_key(key),
        table(ids)[key] == table(ids.take(n))[key],
    decreases ids.len() - n,
{
    if n < ids.len() {
        assert(ids.take(n + 1).drop_last() == ids.take(n));
        lemma_first_counts(ids, n + 1, key);
    } else {
        assert(ids.take(n) == ids);
    }
}

pub open spec fn pane_keys(panes: Seq<HerdrPane>) -> Seq<KeyView> {
    Seq::new(panes.len(), |i: int| KeyView { kind: PANE, remote: panes[i].terminal_id@ })
}

pub open spec fn group_keys(groups: Seq<HerdrGroup>) -> Seq<KeyView>
    decreases groups.len(),
{
    if groups.len() == 0 {
        seq![]
    } else {
        group_keys(groups.drop_last()) + seq![
            KeyView { kind: GROUP, remote: groups.last().tab_id@ },
        ] + pane_keys(groups.last().panes@)
    }
}

/// The keys of everything that a snapshot shows, in its order.
pub open spec fn snapshot_keys(workspaces: Seq<HerdrWorkspace>) -> Seq<KeyView>
    decreases workspaces.len(),
{
    if workspaces.len() == 0 {
        seq![]
    } else {
        snapshot_keys(workspaces.drop_last()) + seq![
            KeyView { kind: WORKSPACE, remote: workspaces.last().workspace_id@ },
        ] + group_keys(workspaces.last().groups@)
    }
}

fn push_pane_keys(out: &mut Vec<RemoteKey>, panes: &Vec<HerdrPane>)
    ensures
        key_views(final(out)@) == key_views(old(out)@) + pane_keys(panes@),
{
    let ghost start = key_views(out@);
    let mut i: usize = 0;
    assert(pane_keys(panes@).take(0) == Seq::<KeyView>::empty());
    while i < panes.len()
        invariant
            i <= panes@.len(),
            start == key_views(old(out)@),
            key_views(out@) == start + pane_keys(panes@).take(i as int),
        decreases panes@.len() - i,
    {
        let ghost before = out@;
        out.push(RemoteKey { kind: PANE, remote: panes[i].terminal_id.clone() });
        assert(key_views(out@) == key_views(before).push(pane_keys(panes@)[i as int]));
        assert(pane_keys(panes@).take(i + 1) == pane_keys(panes@).take(i as int).push(
            pane_keys(panes@)[i as int],
        ));
        i = i + 1;
    }
    assert(pane_keys(panes@).take(i as int) == pane_keys(panes@));
}

fn push_group_keys(out: &mut Vec<RemoteKey>, groups: &Vec<HerdrGroup>)
    ensures
        key_views(final(out)@) == key_views(old(out)@) + group_keys(groups@),
{
    let ghost start = key_views(out@);
    let mut i: usize = 0;
    assert(groups@.take(0) == Seq::<HerdrGroup>::empty());
    while i < groups.len()
        invariant
            i <= groups@.len(),
            start == key_views(old(out)@),
            key_views(out@) == start + group_keys(groups@.take(i as int)),
        decreases groups@.len() - i,
    {
        let ghost before = out@;
        out.push(RemoteKey { kind: GROUP, remote: groups[i].tab_id.clone() });
        assert(key_views(out@) == key_views(before).push(
            KeyView { kind: GROUP, remote: groups@[i as int].tab_id@ },
        ));
        push_pane_keys(out, &groups[i].panes);
        assert(groups@.take(i + 1).drop_last() == groups@.take(i as int));
        i = i + 1;
    }
    assert(groups@.take(i as int) == groups@);
}

/// Collects the keys of everything that a snapshot shows.
pub fn live_keys(workspaces: &Vec<HerdrWorkspace>) -> (r: Vec<RemoteKey>)
    ensures
        key_views(r@) == snapshot_keys(workspaces@),
{
    let mut out: Vec<RemoteKey> = Vec::new();
    let mut i: usize = 0;
    assert(workspaces@.take(0) == Seq::<HerdrWorkspace>::empty());
    while i < workspaces.len()
        invariant
            i <= workspaces@.len(),
            key_views(out@) == snapshot_keys(workspaces@.take(i as int)),
        decreases workspaces@.len() - i,
    {
        let ghost before = out@;
        out.push(RemoteKey { kind: WORKSPACE, remote: workspaces[i].workspace_id.clone() });
        assert(key_views(out@) == key_views(before).push(
            KeyView { kind: WORKSPACE, remote: workspaces@[i as int].workspace_id@ },
        ));
        push_group_keys(&mut out, &workspaces[i].groups);
        assert(workspaces@.take(i + 1).drop_last() == workspaces@.take(i as int));
        i = i + 1;
    }
    assert(workspaces@.take(i as int) == workspaces@);
    out
}

fn occurs_before(keys: &Vec<RemoteKey>, at: usize) -> (r: bool)
    requires
        at < keys@.len(),
    ensures
        r == key_views(keys@).take(at as int).contains(keys@[at as int]@),
{
    let ghost front = key_views(keys@).take(at as int);
    let mut i: usize = 0;
    while i < at
        invariant
            i <= at,
            at < keys@.len(),
            front == key_views(keys@).take(at as int),
            forall|j: int| 0 <= j < i ==> front[j] != keys@[at as int]@,
        decreases at - i,
    {
        assert(front[i as int] == keys@[i as int]@);
        if keys[i].kind == keys[at].kind && same_text(
            keys[i].remote.as_str(),
            keys[at].remote.as_str(),
        ) {
            assert(front[i as int] == keys@[at as int]@);
            return true;
        }
        assert(front[i as int] != keys@[at as int]@) by {
            if front[i as int] == keys@[at as int]@ {
                assert(keys@[i as int].remote@ == keys@[at as int].remote@);
            }
        }
        i = i + 1;
    }
    false
}

/// The number of fresh handles that a snapshot needs.
pub fn handles_needed(ids: &Vec<IdEntry>, keys: &Vec<RemoteKey>) -> (r: usize)
    ensures
        r == unknown(table(ids@), key_views(keys@)),
{
    let ghost all = key_views(keys@);
    let ghost known = table(ids@);
    let mut count: usize = 0;
    let mut i: usize = 0;
    assert(all.take(0) == Seq::<KeyView>::empty());
    while i < keys.len()
        invariant
            i <= keys@.len(),
            count <= i,
            all == key_views(keys@),
            known == table(ids@),
            count == unknown(known, all.take(i as int)),
        decreases keys@.len() - i,
    {
        assert(all.take(i + 1).drop_last() == all.take(i as int));
        assert(all.take(i + 1).last() == keys@[i as int]@);
        assert(keys@[i as int]@ == (KeyView {
            kind: keys@[i as int].kind,
            remote: keys@[i as int].remote@,
        }));
        let found = find_handle(ids, keys[i].kind, keys[i].remote.as_str());
        if found.is_none() && !occurs_before(keys, i) {
            count = count + 1;
        }
        i = i + 1;
    }
    assert(all.take(i as int) == all);
    count
}

/// Gives every key without a handle a fresh one.
pub fn assign_handles(ids: &mut Vec<IdEntry>, keys: &Vec<RemoteKey>, fresh: &Vec<u64>)
    requires
        unknown(table(old(ids)@), key_views(keys@)) <= fresh@.len(),
    ensures
        table(final(ids)@) == assigned(table(old(ids)@), key_views(keys@), fresh@).0,
{
    let ghost all = key_views(keys@);
    let ghost start = table(ids@);
    let mut used: usize = 0;
    let mut i: usize = 0;
    assert(all.take(0) == Seq::<KeyView>::empty());
    while i < keys.len()
        invariant
            i <= keys@.len(),
            all == key_views(keys@),
            start == table(old(ids)@),
            (table(ids@), used as nat) == assigned(start, all.take(i as int), fresh@),
            unknown(start, all) <= fresh@.len(),
        decreases keys@.len() - i,
    {
        assert(all.take(i + 1).drop_last() == all.take(i as int));
        assert(all.take(i + 1).last() == keys@[i as int]@);
        let found = find_handle(ids, keys[i].kind, keys[i].remote.as_str());
        if found.is_none() {
            proof {
                law_assigned(start, all.take(i + 1), fresh@);
                law_assigned(start, all.take(i as int), fresh@);
                lemma_unknown_grows(start, all, i + 1);
            }
            let entry = IdEntry {
                kind: keys[i].kind,
                remote: keys[i].remote.clone(),
                handle: fresh[used],
            };
            proof {
                lemma_table_grows(ids@, entry);
                assert(key_of(entry) == keys@[i as int]@);
            }
            ids.push(entry);
            used = used + 1;
        }
        i = i + 1;
    }
    assert(all.take(i as int) == all);
}

proof fn lemma_unknown_grows<K>(m: Map<K, u64>, keys: Seq<K>, n: int)
    requires
        0 <= n <= keys.len(),
    ensures
        unknown(m, keys.take(n)) <= unknown(m, keys),
    decreases keys.len() - n,
{
    if n < keys.len() {
        assert(keys.take(n + 1).drop_last() == keys.take(n));
        lemma_unknown_grows(m, keys, n + 1);
    } else {
        assert(keys.take(n) == keys);
    }
}

/// The number of fresh values that a map of handles needs.
pub fn values_needed(map: &HashMap<u64, u64>, keys: &Vec<u64>) -> (r: usize)
    ensures
        r == unknown(map@, keys@),
{
    let mut count: usize = 0;
    let mut i: usize = 0;
    assert(keys@.take(0) == Seq::<u64>::empty());
    while i < keys.len()
        invariant
            i <= keys@.len(),
            count <= i,
            count == unknown(map@, keys@.take(i as int)),
        decreases keys@.len() - i,
    {
        assert(keys@.take(i + 1).drop_last() == keys@.take(i as int));
        let mut repeated = false;
        let mut j: usize = 0;
        while j < i
            invariant
                j <= i < keys@.len(),
                repeated == exists|k: int| 0 <= k < j && keys@[k] == keys@[i as int],
            decreases i - j,
        {
            if keys[j] == keys[i] {
                repeated = true;
            }
            j = j + 1;
        }
        proof {
            let front = keys@.take(i as int);
            if repeated {
                let k = choose|k: int| 0 <= k < i && keys@[k] == keys@[i as int];
                assert(front[k] == keys@[i as int]);
            }
            if front.contains(keys@[i as int]) {
                let k = choose|k: int| 0 <= k < front.len() && front[k] == keys@[i as int];
                assert(keys@[k] == keys@[i as int]);
            }
        }
        if !map.contains_key(&keys[i]) && !repeated {
            count = count + 1;
        }
        i = i + 1;
    }
    assert(keys@.take(i as int) == keys@);
    count
}

/// Gives every handle without a value a fresh one.
pub fn assign_values(map: &mut HashMap<u64, u64>, keys: &Vec<u64>, fresh: &Vec<u64>)
    requires
        unknown(old(map)@, keys@) <= fresh@.len(),
    ensures
        final(map)@ == assigned(old(map)@, keys@, fresh@).0,
{
    let ghost start = map@;
    let mut used: usize = 0;
    let mut i: usize = 0;
    assert(keys@.take(0) == Seq::<u64>::empty());
    while i < keys.len()
        invariant
            i <= keys@.len(),
            start == old(map)@,
            (map@, used as nat) == assigned(start, keys@.take(i as int), fresh@),
            unknown(start, keys@) <= fresh@.len(),
        decreases keys@.len() - i,
    {
        assert(keys@.take(i + 1).drop_last() == keys@.take(i as int));
        if !map.contains_key(&keys[i]) {
            proof {
                law_assigned(start, keys@.take(i + 1), fresh@);
                law_assigned(start, keys@.take(i as int), fresh@);
                lemma_unknown_grows(start, keys@, i + 1);
            }
            map.insert(keys[i], fresh[used]);
            used = used + 1;
        }
        i = i + 1;
    }
    assert(keys@.take(i as int) == keys@);
}

/// The entries of live keys.
pub open spec fn kept_entries(ids: Seq<IdEntry>, keys: Seq<KeyView>) -> Seq<IdEntry>
    decreases ids.len(),
{
    if ids.len() == 0 {
        seq![]
    } else if keys.contains(key_of(ids.last())) {
        kept_entries(ids.drop_last(), keys).push(ids.last())
    } else {
        kept_entries(ids.drop_last(), keys)
    }
}

fn is_live(keys: &Vec<RemoteKey>, entry: &IdEntry) -> (r: bool)
    ensures
        r == key_views(keys@).contains(key_of(*entry)),
{
    let mut i: usize = 0;
    while i < keys.len()
        invariant
            i <= keys@.len(),
            forall|j: int| 0 <= j < i ==> #[trigger] key_views(keys@)[j] != key_of(*entry),
        decreases keys@.len() - i,
    {
        assert(key_views(keys@)[i as int] == keys@[i as int]@);
        if keys[i].kind == entry.kind && same_text(keys[i].remote.as_str(), entry.remote.as_str()) {
            assert(key_views(keys@)[i as int] == key_of(*entry));
            return true;
        }
        assert(key_views(keys@)[i as int] != key_of(*entry)) by {
            if key_views(keys@)[i as int] == key_of(*entry) {
                assert(keys@[i as int].remote@ == entry.remote@);
            }
        }
        i = i + 1;
    }
    false
}

/// Drops the handles of what a snapshot no longer shows.
pub fn retain_live(ids: &Vec<IdEntry>, keys: &Vec<RemoteKey>) -> (r: Vec<IdEntry>)
    ensures
        r@ == kept_entries(ids@, key_views(keys@)),
{
    let mut out: Vec<IdEntry> = Vec::new();
    let mut i: usize = 0;
    assert(ids@.take(0) == Seq::<IdEntry>::empty());
    while i < ids.len()
        invariant
            i <= ids@.len(),
            out@ == kept_entries(ids@.take(i as int), key_views(keys@)),
        decreases ids@.len() - i,
    {
        assert(ids@.take(i + 1).drop_last() == ids@.take(i as int));
        if is_live(keys, &ids[i]) {
            out.push(
                IdEntry {
                    kind: ids[i].kind,
                    remote: ids[i].remote.clone(),
                    handle: ids[i].handle,
                },
            );
        }
        i = i + 1;
    }
    assert(ids@.take(i as int) == ids@);
    out
}

/// Dropping what is gone changes no handle of what is left.
pub proof fn law_live_handles_stay(ids: Seq<IdEntry>, keys: Seq<KeyView>)
    ensures
        forall|k: KeyView|
            #![trigger table(kept_entries(ids, keys)).contains_key(k)]
            table(kept_entries(ids, keys)).contains_key(k) <==> table(ids).contains_key(k)
                && keys.contains(k),
        forall|k: KeyView|
            table(kept_entries(ids, keys)).contains_key(k) ==> #[trigger] table(
                kept_entries(ids, keys),
            )[k] == table(ids)[k],
    decreases ids.len(),
{
    if ids.len() > 0 {
        law_live_handles_stay(ids.drop_last(), keys);
        let front = kept_entries(ids.drop_last(), keys);
        if keys.contains(key_of(ids.last())) {
            lemma_table_grows(front, ids.last());
        }
    }
}

} // verus!
