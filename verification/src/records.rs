//! Lists of records in name order, one record per name.
use vstd::prelude::*;
use crate::model::{ContainerInfo, ContainerInfoView, info_views};
use crate::order::{
    lemma_text_le_antisymmetric, lemma_text_le_reflexive, lemma_text_le_total,
    lemma_text_le_transitive, name_le, text_le, text_lt,
};
use crate::text::{contains_name, has_name, same_text, views};

verus! {

/// Whether the records stand in strictly rising name order, which also means
/// that no two share a name.
pub open spec fn strictly_sorted(s: Seq<ContainerInfoView>) -> bool {
    forall|i: int, j: int|
        0 <= i < j < s.len() ==> text_lt((#[trigger] s[i]).name, (#[trigger] s[j]).name)
}

/// Whether some record of `s` bears the name `name`.
pub open spec fn has_record(s: Seq<ContainerInfoView>, name: Seq<char>) -> bool {
    exists|i: int| 0 <= i < s.len() && (#[trigger] s[i]).name == name
}

/// `x` put into `s` at its place in name order; `s` as it is where it already
/// holds a record of that name.
pub open spec fn insert_by_name(s: Seq<ContainerInfoView>, x: ContainerInfoView) -> Seq<
    ContainerInfoView,
>
    decreases s.len(),
{
    if s.len() == 0 {
        seq![x]
    } else if s[0].name == x.name {
        s
    } else if text_le(x.name, s[0].name) {
        seq![x] + s
    } else {
        seq![s[0]] + insert_by_name(s.drop_first(), x)
    }
}

/// The records of `s` in name order; of several with one name, the first.
pub open spec fn sorted_by_name(s: Seq<ContainerInfoView>) -> Seq<ContainerInfoView>
    decreases s.len(),
{
    if s.len() == 0 {
        Seq::empty()
    } else {
        insert_by_name(sorted_by_name(s.drop_last()), s.last())
    }
}

/// Number of leading records of `s` that stand strictly before `x`.
pub open spec fn place_of(s: Seq<ContainerInfoView>, x: ContainerInfoView) -> nat
    decreases s.len(),
{
    if s.len() > 0 && s[0].name != x.name && !text_le(x.name, s[0].name) {
        1 + place_of(s.drop_first(), x)
    } else {
        0
    }
}

/// Putting `x` in leaves the list as it is where it holds `x`'s name, and
/// else puts `x` at its place: after the records that stand strictly before
/// it, and before the next one.
pub proof fn lemma_insert_shape(s: Seq<ContainerInfoView>, x: ContainerInfoView)
    ensures
        place_of(s, x) <= s.len(),
        forall|j: int|
            0 <= j < place_of(s, x) ==> (#[trigger] s[j]).name != x.name && !text_le(
                x.name,
                s[j].name,
            ),
        place_of(s, x) < s.len() && s[place_of(s, x) as int].name == x.name ==> insert_by_name(
            s,
            x,
        ) == s,
        !(place_of(s, x) < s.len() && s[place_of(s, x) as int].name == x.name) ==> insert_by_name(
            s,
            x,
        ) == s.insert(place_of(s, x) as int, x),
        place_of(s, x) < s.len() ==> text_le(x.name, s[place_of(s, x) as int].name),
    decreases s.len(),
{
    if s.len() > 0 && s[0].name != x.name && !text_le(x.name, s[0].name) {
        let t = s.drop_first();
        lemma_insert_shape(t, x);
        assert forall|j: int| 0 <= j < place_of(s, x) implies (#[trigger] s[j]).name != x.name
            && !text_le(x.name, s[j].name) by {
            if j > 0 {
                assert(t[j - 1] == s[j]);
            }
        }
    } else if s.len() > 0 && s[0].name == x.name {
        lemma_text_le_reflexive(x.name);
    }
}

/// Putting a record into a list in name order leaves it in name order.
pub proof fn lemma_insert_sorted(s: Seq<ContainerInfoView>, x: ContainerInfoView)
    requires
        strictly_sorted(s),
    ensures
        strictly_sorted(insert_by_name(s, x)),
{
    lemma_insert_shape(s, x);
    let k = place_of(s, x) as int;
    let r = insert_by_name(s, x);
    if !(k < s.len() && s[k].name == x.name) {
        assert forall|i: int, j: int| 0 <= i < j < r.len() implies text_lt(
            (#[trigger] r[i]).name,
            (#[trigger] r[j]).name,
        ) by {
            if i == k {
                if j - 1 > k {
                    lemma_text_le_transitive(x.name, s[k].name, s[j - 1].name);
                    if x.name == s[j - 1].name {
                        lemma_text_le_antisymmetric(s[k].name, s[j - 1].name);
                    }
                }
            } else if j == k {
                lemma_text_le_total(x.name, s[i].name);
            }
        }
    }
}

/// After putting `x` in, the list holds the names it held and `x`'s.
pub proof fn lemma_insert_names(s: Seq<ContainerInfoView>, x: ContainerInfoView, name: Seq<char>)
    ensures
        has_record(insert_by_name(s, x), name) <==> (has_record(s, name) || name == x.name),
{
    lemma_insert_shape(s, x);
    let k = place_of(s, x) as int;
    let r = insert_by_name(s, x);
    if !(k < s.len() && s[k].name == x.name) {
        if has_record(s, name) {
            let j = choose|j: int| 0 <= j < s.len() && (#[trigger] s[j]).name == name;
            if j < k {
                assert(r[j].name == name);
            } else {
                assert(r[j + 1].name == name);
            }
        }
        if name == x.name {
            assert(r[k].name == name);
        }
    }
}

/// After putting `x` in, each record of the list is `x` or one it held.
pub proof fn lemma_insert_members(s: Seq<ContainerInfoView>, x: ContainerInfoView, k: int)
    requires
        0 <= k < insert_by_name(s, x).len(),
    ensures
        insert_by_name(s, x)[k] == x || s.contains(insert_by_name(s, x)[k]),
{
    lemma_insert_shape(s, x);
}

/// If the first `k` records stand strictly before `x` and the next one, if
/// any, does not, `x`'s place is `k`.
pub proof fn lemma_place_is(s: Seq<ContainerInfoView>, x: ContainerInfoView, k: nat)
    requires
        k <= s.len(),
        forall|j: int|
            0 <= j < k ==> (#[trigger] s[j]).name != x.name && !text_le(x.name, s[j].name),
        k < s.len() ==> s[k as int].name == x.name || text_le(x.name, s[k as int].name),
    ensures
        place_of(s, x) == k,
    decreases k,
{
    if k > 0 {
        let t = s.drop_first();
        lemma_place_is(t, x, (k - 1) as nat);
    }
}

/// Puts `x` into `list` at its place in name order, unless `list` already
/// holds a record of that name.
pub fn insert_sorted(list: &mut Vec<ContainerInfo>, x: ContainerInfo)
    ensures
        info_views(final(list)@) == insert_by_name(info_views(old(list)@), x@),
{
    let ghost s = info_views(list@);
    let mut k: usize = 0;
    let mut found = false;
    while k < list.len() && !found
        invariant
            k <= list.len(),
            s == info_views(list@),
            forall|j: int|
                0 <= j < k ==> (#[trigger] s[j]).name != x@.name && !text_le(x@.name, s[j].name),
            found ==> k < list.len() && (s[k as int].name == x@.name || text_le(
                x@.name,
                s[k as int].name,
            )),
        decreases list.len() - k + (if found { 0int } else { 1int }),
    {
        if same_text(list[k].name.as_str(), x.name.as_str()) || name_le(
            x.name.as_str(),
            list[k].name.as_str(),
        ) {
            found = true;
        } else {
            k += 1;
        }
    }
    proof {
        lemma_place_is(s, x@, k as nat);
        lemma_insert_shape(s, x@);
    }
    if k < list.len() {
        if same_text(list[k].name.as_str(), x.name.as_str()) {
            return ;
        }
    }
    list.insert(k, x);
}

/// The records worth keeping of what a collection round gave: those that
/// were collected at all and whose name is on the allow-list, in the order
/// given.
pub open spec fn admitted(
    collected: Seq<Option<ContainerInfoView>>,
    allowed: Seq<Seq<char>>,
) -> Seq<ContainerInfoView>
    decreases collected.len(),
{
    if collected.len() == 0 {
        Seq::empty()
    } else {
        let rest = admitted(collected.drop_last(), allowed);
        match collected.last() {
            Some(r) => if has_name(allowed, r.name) {
                rest.push(r)
            } else {
                rest
            },
            None => rest,
        }
    }
}

/// What a collection round gave, as views.
pub open spec fn collected_views(v: Seq<Option<ContainerInfo>>) -> Seq<Option<ContainerInfoView>> {
    Seq::new(
        v.len(),
        |i: int|
            match v[i] {
                Some(r) => Some(r@),
                None => None,
            },
    )
}

/// The record list of a collection round: the admitted records in name
/// order, one per name.
pub open spec fn gathered(
    collected: Seq<Option<ContainerInfoView>>,
    allowed: Seq<Seq<char>>,
) -> Seq<ContainerInfoView> {
    sorted_by_name(admitted(collected, allowed))
}

/// The record list of a collection round. A container whose collection
/// failed is `None` and leaves no record; the others are not touched by it.
pub fn gather(collected: &Vec<Option<ContainerInfo>>, allowed: &Vec<String>) -> (r: Vec<
    ContainerInfo,
>)
    ensures
        info_views(r@) == gathered(collected_views(collected@), views(allowed@)),
{
    let ghost all = collected_views(collected@);
    let mut out: Vec<ContainerInfo> = Vec::new();
    let mut i: usize = 0;
    while i < collected.len()
        invariant
            i <= collected.len(),
            all == collected_views(collected@),
            info_views(out@) == gathered(all.take(i as int), views(allowed@)),
        decreases collected.len() - i,
    {
        let ghost head = all.take(i + 1);
        assert(head.drop_last() =~= all.take(i as int));
        match &collected[i] {
            Some(record) => {
                if contains_name(allowed, record.name.as_str()) {
                    let ghost kept = admitted(all.take(i as int), views(allowed@));
                    assert(kept.push(record@).drop_last() =~= kept);
                    insert_sorted(&mut out, record.clone());
                }
            },
            None => {},
        }
        i += 1;
    }
    assert(all.take(i as int) =~= all);
    out
}

/// Sorting by name gives a list in name order that holds the same names, and
/// only records of the list sorted.
pub proof fn lemma_sorted_by_name(s: Seq<ContainerInfoView>)
    ensures
        strictly_sorted(sorted_by_name(s)),
        forall|name: Seq<char>| has_record(sorted_by_name(s), name) <==> has_record(s, name),
        forall|k: int|
            0 <= k < sorted_by_name(s).len() ==> s.contains(#[trigger] sorted_by_name(s)[k]),
    decreases s.len(),
{
    if s.len() > 0 {
        let t = s.drop_last();
        let x = s.last();
        let st = sorted_by_name(t);
        let r = sorted_by_name(s);
        lemma_sorted_by_name(t);
        lemma_insert_sorted(st, x);
        assert forall|name: Seq<char>| has_record(r, name) <==> has_record(s, name) by {
            lemma_insert_names(st, x, name);
            if has_record(t, name) {
                let j = choose|j: int| 0 <= j < t.len() && (#[trigger] t[j]).name == name;
                assert(s[j].name == name);
            }
            if has_record(s, name) {
                let j = choose|j: int| 0 <= j < s.len() && (#[trigger] s[j]).name == name;
                if j < t.len() {
                    assert(t[j].name == name);
                }
            }
            if name == x.name {
                assert(s[s.len() - 1].name == name);
            }
        }
        assert forall|k: int| 0 <= k < r.len() implies s.contains(#[trigger] r[k]) by {
            lemma_insert_members(st, x, k);
            if r[k] == x {
                assert(s[s.len() - 1] == x);
            } else {
                let m = choose|m: int| 0 <= m < st.len() && st[m] == r[k];
                assert(t.contains(st[m]));
                let j = choose|j: int| 0 <= j < t.len() && t[j] == st[m];
                assert(s[j] == r[k]);
            }
        }
    }
}

/// The admitted records are the collected ones whose name is allowed.
pub proof fn lemma_admitted(collected: Seq<Option<ContainerInfoView>>, allowed: Seq<Seq<char>>)
    ensures
        forall|k: int|
            0 <= k < admitted(collected, allowed).len() ==> has_name(
                allowed,
                (#[trigger] admitted(collected, allowed)[k]).name,
            ) && collected.contains(Some(admitted(collected, allowed)[k])),
        forall|i: int|
            0 <= i < collected.len() && (#[trigger] collected[i]) is Some && has_name(
                allowed,
                collected[i]->0.name,
            ) ==> admitted(collected, allowed).contains(collected[i]->0),
    decreases collected.len(),
{
    if collected.len() > 0 {
        let t = collected.drop_last();
        let a = admitted(collected, allowed);
        let at = admitted(t, allowed);
        lemma_admitted(t, allowed);
        assert forall|i: int|
            0 <= i < collected.len() && (#[trigger] collected[i]) is Some && has_name(
                allowed,
                collected[i]->0.name,
            ) implies a.contains(collected[i]->0) by {
            if i < t.len() {
                assert(t[i] == collected[i]);
                let k = choose|k: int| 0 <= k < at.len() && at[k] == collected[i]->0;
                assert(a[k] == collected[i]->0);
            } else {
                assert(a[a.len() - 1] == collected[i]->0);
            }
        }
    }
}

/// The record list of a collection round stands in name order and holds no
/// record whose name is not on the allow-list.
pub proof fn lemma_gathered_allowed(
    collected: Seq<Option<ContainerInfoView>>,
    allowed: Seq<Seq<char>>,
)
    ensures
        strictly_sorted(gathered(collected, allowed)),
        forall|k: int|
            0 <= k < gathered(collected, allowed).len() ==> has_name(
                allowed,
                (#[trigger] gathered(collected, allowed)[k]).name,
            ),
{
    let a = admitted(collected, allowed);
    lemma_sorted_by_name(a);
    lemma_admitted(collected, allowed);
}

/// One container's failure costs no other container its record: every record
/// that was collected under an allowed name has its name in the list, and
/// where no other record was collected under that name, the list holds that
/// very record.
pub proof fn lemma_gathered_keeps(
    collected: Seq<Option<ContainerInfoView>>,
    allowed: Seq<Seq<char>>,
    i: int,
)
    requires
        0 <= i < collected.len(),
        collected[i] is Some,
        has_name(allowed, collected[i]->0.name),
    ensures
        has_record(gathered(collected, allowed), collected[i]->0.name),
        (forall|j: int|
            0 <= j < collected.len() && j != i && (#[trigger] collected[j]) is Some
                ==> collected[j]->0.name != collected[i]->0.name) ==> gathered(
            collected,
            allowed,
        ).contains(collected[i]->0),
{
    let a = admitted(collected, allowed);
    let g = gathered(collected, allowed);
    let x = collected[i]->0;
    lemma_sorted_by_name(a);
    lemma_admitted(collected, allowed);
    assert(has_record(a, x.name));
    if forall|j: int|
        0 <= j < collected.len() && j != i && (#[trigger] collected[j]) is Some
            ==> collected[j]->0.name != x.name {
        let k = choose|k: int| 0 <= k < g.len() && (#[trigger] g[k]).name == x.name;
    }
}

/// A list that stands in name order is its own sorting.
pub proof fn lemma_sorted_fixed(s: Seq<ContainerInfoView>)
    requires
        strictly_sorted(s),
    ensures
        sorted_by_name(s) == s,
    decreases s.len(),
{
    if s.len() > 0 {
        let t = s.drop_last();
        let x = s.last();
        lemma_sorted_fixed(t);
        assert forall|j: int| 0 <= j < t.len() implies (#[trigger] t[j]).name != x.name
            && !text_le(x.name, t[j].name) by {
            if text_le(x.name, t[j].name) {
                lemma_text_le_antisymmetric(x.name, t[j].name);
            }
        }
        lemma_place_is(t, x, t.len());
        lemma_insert_shape(t, x);
    }
}

/// The records in name order; of several with one name, the first.
pub fn sort_records(records: &Vec<ContainerInfo>) -> (r: Vec<ContainerInfo>)
    ensures
        info_views(r@) == sorted_by_name(info_views(records@)),
{
    let ghost all = info_views(records@);
    let mut out: Vec<ContainerInfo> = Vec::new();
    let mut i: usize = 0;
    while i < records.len()
        invariant
            i <= records.len(),
            all == info_views(records@),
            info_views(out@) == sorted_by_name(all.take(i as int)),
        decreases records.len() - i,
    {
        let ghost head = all.take(i + 1);
        assert(head.drop_last() =~= all.take(i as int));
        insert_sorted(&mut out, records[i].clone());
        i += 1;
    }
    assert(all.take(i as int) =~= all);
    out
}

} // verus!
