//! Report generation over any entity exposing a name and an id: a full
//! text report, an id-only text report, an id list, and a name-to-id
//! mapping. All four are pure and fail on empty input.

use vstd::prelude::*;

use crate::models::Item;

verus! {

/// Failure of report generation.
#[derive(Debug, Clone, Copy, PartialEq, Eq, Structural)]
pub enum DoubleError {
    EmptyVec,
    Parse,
}

impl DoubleError {
    /// The text shown for this error.
    pub fn text(&self) -> (r: String)
        ensures
            *self == DoubleError::EmptyVec ==> r@ == "Error EmptyValue"@,
            *self == DoubleError::Parse ==> r@ == "parse error"@,
    {
        match self {
            DoubleError::EmptyVec => String::from_str("Error EmptyValue"),
            DoubleError::Parse => String::from_str("parse error"),
        }
    }
}

/// The name and id of each entity in a batch, in order.
pub open spec fn name_id_of<U: Item>(s: Seq<U>) -> Seq<(Seq<char>, Seq<char>)> {
    s.map_values(|u: U| (u.name_spec(), u.id_spec()))
}

/// The id of each entity in a batch, in order.
pub open spec fn ids_of<U: Item>(s: Seq<U>) -> Seq<Seq<char>> {
    s.map_values(|u: U| u.id_spec())
}

/// One " Имя N, id I" entry per item, concatenated in order.
pub open spec fn item_entries(items: Seq<(Seq<char>, Seq<char>)>) -> Seq<char>
    decreases items.len(),
{
    if items.len() == 0 {
        Seq::<char>::empty()
    } else {
        item_entries(items.drop_last()) + " Имя "@ + items.last().0 + ", id "@ + items.last().1
    }
}

/// The full text report: a type-labeled header, then one entry per item.
pub open spec fn full_report_spec(label: Seq<char>, items: Seq<(Seq<char>, Seq<char>)>) -> Seq<
    char,
> {
    "Отчет для устройств "@ + label + ":"@ + item_entries(items)
}

/// One " id I" entry per id, concatenated in order.
pub open spec fn id_entries(ids: Seq<Seq<char>>) -> Seq<char>
    decreases ids.len(),
{
    if ids.len() == 0 {
        Seq::<char>::empty()
    } else {
        id_entries(ids.drop_last()) + " id "@ + ids.last()
    }
}

/// The id-only text report: a type-labeled header, then one id per item.
pub open spec fn id_report_spec(label: Seq<char>, ids: Seq<Seq<char>>) -> Seq<char> {
    "Список id для устройств "@ + label + ":"@ + id_entries(ids)
}

/// The name-to-id mapping of a batch, later entries overwriting earlier
/// ones that share a name.
pub open spec fn name_id_map(items: Seq<(Seq<char>, Seq<char>)>) -> Map<Seq<char>, Seq<char>>
    decreases items.len(),
{
    if items.len() == 0 {
        Map::<Seq<char>, Seq<char>>::empty()
    } else {
        name_id_map(items.drop_last()).insert(items.last().0, items.last().1)
    }
}

/// `pairs` lists exactly the entries of `m`, each name once.
pub open spec fn pairs_match(pairs: Seq<(String, String)>, m: Map<Seq<char>, Seq<char>>) -> bool {
    &&& forall|i: int, j: int|
        0 <= i < j < pairs.len() ==> (#[trigger] pairs[i]).0@ != (#[trigger] pairs[j]).0@
    &&& forall|i: int| 0 <= i < pairs.len() ==> m.contains_pair((#[trigger] pairs[i]).0@, pairs[i].1@)
    &&& forall|k: Seq<char>|
        m.dom().contains(k) ==> exists|i: int| 0 <= i < pairs.len() && (#[trigger] pairs[i]).0@ == k
}

proof fn lemma_item_entries_step(v: Seq<(Seq<char>, Seq<char>)>, i: int)
    requires
        0 <= i < v.len(),
    ensures
        item_entries(v.take(i + 1)) == item_entries(v.take(i)) + " Имя "@ + v[i].0 + ", id "@
            + v[i].1,
{
    assert(v.take(i + 1).drop_last() =~= v.take(i));
    assert(v.take(i + 1).last() == v[i]);
}

proof fn lemma_id_entries_step(v: Seq<Seq<char>>, i: int)
    requires
        0 <= i < v.len(),
    ensures
        id_entries(v.take(i + 1)) == id_entries(v.take(i)) + " id "@ + v[i],
{
    assert(v.take(i + 1).drop_last() =~= v.take(i));
    assert(v.take(i + 1).last() == v[i]);
}

proof fn lemma_name_id_map_step(v: Seq<(Seq<char>, Seq<char>)>, i: int)
    requires
        0 <= i < v.len(),
    ensures
        name_id_map(v.take(i + 1)) == name_id_map(v.take(i)).insert(v[i].0, v[i].1),
{
    assert(v.take(i + 1).drop_last() =~= v.take(i));
    assert(v.take(i + 1).last() == v[i]);
}

proof fn lemma_pairs_replace(
    old_rep: Seq<(String, String)>,
    nm: String,
    idv: String,
    pos: int,
    m: Map<Seq<char>, Seq<char>>,
)
    requires
        pairs_match(old_rep, m),
        0 <= pos < old_rep.len(),
        old_rep[pos].0@ == nm@,
    ensures
        pairs_match(old_rep.update(pos, (nm, idv)), m.insert(nm@, idv@)),
{
    let new_rep = old_rep.update(pos, (nm, idv));
    let m2 = m.insert(nm@, idv@);
    assert forall|a: int| 0 <= a < new_rep.len() implies (#[trigger] new_rep[a]).0@
        == old_rep[a].0@ by {
        if a == pos {
            assert(new_rep[a].0 == nm);
        }
    }
    assert forall|a: int, b: int| 0 <= a < b < new_rep.len() implies (#[trigger] new_rep[a]).0@
        != (#[trigger] new_rep[b]).0@ by {
        assert(old_rep[a].0@ != old_rep[b].0@);
    }
    assert forall|a: int| 0 <= a < new_rep.len() implies m2.contains_pair(
        (#[trigger] new_rep[a]).0@,
        new_rep[a].1@,
    ) by {
        if a == pos {
            assert(new_rep[a] == (nm, idv));
        } else {
            assert(m.contains_pair(old_rep[a].0@, old_rep[a].1@));
            if a < pos {
                assert(old_rep[a].0@ != old_rep[pos].0@);
            } else {
                assert(old_rep[pos].0@ != old_rep[a].0@);
            }
            assert(new_rep[a] == old_rep[a]);
        }
    }
    assert forall|k: Seq<char>| m2.dom().contains(k) implies exists|t: int|
        0 <= t < new_rep.len() && (#[trigger] new_rep[t]).0@ == k by {
        if k == nm@ {
            assert(new_rep[pos].0@ == k);
        } else {
            assert(m.dom().contains(k));
            let t0 = choose|t: int| 0 <= t < old_rep.len() && (#[trigger] old_rep[t]).0@ == k;
            assert(new_rep[t0].0@ == k);
        }
    }
}

proof fn lemma_pairs_push(
    old_rep: Seq<(String, String)>,
    nm: String,
    idv: String,
    m: Map<Seq<char>, Seq<char>>,
)
    requires
        pairs_match(old_rep, m),
        forall|t: int| 0 <= t < old_rep.len() ==> (#[trigger] old_rep[t]).0@ != nm@,
    ensures
        pairs_match(old_rep.push((nm, idv)), m.insert(nm@, idv@)),
{
    let new_rep = old_rep.push((nm, idv));
    let m2 = m.insert(nm@, idv@);
    let n = old_rep.len() as int;
    assert forall|a: int, b: int| 0 <= a < b < new_rep.len() implies (#[trigger] new_rep[a]).0@
        != (#[trigger] new_rep[b]).0@ by {
        if b == n {
            assert(new_rep[a] == old_rep[a]);
            assert(new_rep[b].0 == nm);
        } else {
            assert(new_rep[a] == old_rep[a]);
            assert(new_rep[b] == old_rep[b]);
        }
    }
    assert forall|a: int| 0 <= a < new_rep.len() implies m2.contains_pair(
        (#[trigger] new_rep[a]).0@,
        new_rep[a].1@,
    ) by {
        if a == n {
            assert(new_rep[a] == (nm, idv));
        } else {
            assert(new_rep[a] == old_rep[a]);
            assert(m.contains_pair(old_rep[a].0@, old_rep[a].1@));
            assert(old_rep[a].0@ != nm@);
        }
    }
    assert forall|k: Seq<char>| m2.dom().contains(k) implies exists|t: int|
        0 <= t < new_rep.len() && (#[trigger] new_rep[t]).0@ == k by {
        if k == nm@ {
            assert(new_rep[n].0@ == k);
        } else {
            assert(m.dom().contains(k));
            let t0 = choose|t: int| 0 <= t < old_rep.len() && (#[trigger] old_rep[t]).0@ == k;
            assert(new_rep[t0].0@ == k);
        }
    }
}

/// Full text report over a batch: fails on an empty batch, otherwise a
/// header labeled with the entity kind followed by a name/id entry per
/// item.
pub fn generate_report<U: Item>(data: Vec<U>) -> (r: Result<String, DoubleError>)
    ensures
        data@.len() == 0 ==> r == Result::<String, DoubleError>::Err(DoubleError::EmptyVec),
        data@.len() > 0 ==> r is Ok && r->Ok_0@ == full_report_spec(
            U::label_spec(),
            name_id_of(data@),
        ),
{
    if data.len() == 0 {
        return Err(DoubleError::EmptyVec);
    }
    let item_type = U::type_label();
    let mut report = String::new();
    report.append("Отчет для устройств ");
    report.append(item_type.as_str());
    report.append(":");
    let ghost entries = name_id_of(data@);
    proof {
        assert(entries.take(0) =~= Seq::<(Seq<char>, Seq<char>)>::empty());
    }
    let mut i: usize = 0;
    while i < data.len()
        invariant
            i <= data@.len(),
            entries == name_id_of(data@),
            entries.len() == data@.len(),
            report@ == "Отчет для устройств "@ + U::label_spec() + ":"@
                + item_entries(entries.take(i as int)),
        decreases data@.len() - i,
    {
        let nm = data[i].name();
        let idv = data[i].id();
        report.append(" Имя ");
        report.append(nm.as_str());
        report.append(", id ");
        report.append(idv.as_str());
        proof {
            assert(entries[i as int] == (data@[i as int].name_spec(), data@[i as int].id_spec()));
            lemma_item_entries_step(entries, i as int);
            assert(report@ == "Отчет для устройств "@ + U::label_spec() + ":"@
                + item_entries(entries.take(i + 1)));
        }
        i = i + 1;
    }
    proof {
        assert(entries.take(data@.len() as int) =~= entries);
    }
    Ok(report)
}

/// Id-only text report over a batch: fails on an empty batch, otherwise
/// a header labeled with the entity kind followed by an id entry per
/// item.
pub fn generate_report_id<U: Item>(data: Vec<U>) -> (r: Result<String, DoubleError>)
    ensures
        data@.len() == 0 ==> r == Result::<String, DoubleError>::Err(DoubleError::EmptyVec),
        data@.len() > 0 ==> r is Ok && r->Ok_0@ == id_report_spec(U::label_spec(), ids_of(data@)),
{
    if data.len() == 0 {
        return Err(DoubleError::EmptyVec);
    }
    let item_type = U::type_label();
    let mut report = String::new();
    report.append("Список id для устройств ");
    report.append(item_type.as_str());
    report.append(":");
    let ghost ids = ids_of(data@);
    proof {
        assert(ids.take(0) =~= Seq::<Seq<char>>::empty());
    }
    let mut i: usize = 0;
    while i < data.len()
        invariant
            i <= data@.len(),
            ids == ids_of(data@),
            ids.len() == data@.len(),
            report@ == "Список id для устройств "@ + U::label_spec() + ":"@
                + id_entries(ids.take(i as int)),
        decreases data@.len() - i,
    {
        let idv = data[i].id();
        report.append(" id ");
        report.append(idv.as_str());
        proof {
            assert(ids[i as int] == data@[i as int].id_spec());
            lemma_id_entries_step(ids, i as int);
            assert(report@ == "Список id для устройств "@ + U::label_spec() + ":"@
                + id_entries(ids.take(i + 1)));
        }
        i = i + 1;
    }
    proof {
        assert(ids.take(data@.len() as int) =~= ids);
    }
    Ok(report)
}

/// Id list over a batch: fails on an empty batch, otherwise one element
/// per item, the id followed by a single trailing space.
pub fn generate_list_id<U: Item>(data: Vec<U>) -> (r: Result<Vec<String>, DoubleError>)
    ensures
        data@.len() == 0 ==> r == Result::<Vec<String>, DoubleError>::Err(DoubleError::EmptyVec),
        data@.len() > 0 ==> r is Ok && r->Ok_0@.len() == data@.len() && (forall|i: int|
            0 <= i < data@.len() ==> (#[trigger] r->Ok_0@[i])@ == data@[i].id_spec() + " "@),
{
    if data.len() == 0 {
        return Err(DoubleError::EmptyVec);
    }
    let mut report: Vec<String> = Vec::new();
    let mut i: usize = 0;
    while i < data.len()
        invariant
            i <= data@.len(),
            report@.len() == i,
            forall|j: int|
                0 <= j < i ==> (#[trigger] report@[j])@ == data@[j].id_spec() + " "@,
        decreases data@.len() - i,
    {
        let mut idv = data[i].id();
        idv.append(" ");
        report.push(idv);
        i = i + 1;
    }
    Ok(report)
}

/// Name-to-id mapping over a batch: fails on an empty batch, otherwise
/// one pair per distinct name, the id of the last item carrying it.
pub fn generate_name_id<U: Item>(data: Vec<U>) -> (r: Result<Vec<(String, String)>, DoubleError>)
    ensures
        data@.len() == 0 ==> r == Result::<Vec<(String, String)>, DoubleError>::Err(
            DoubleError::EmptyVec,
        ),
        data@.len() > 0 ==> r is Ok && pairs_match(r->Ok_0@, name_id_map(name_id_of(data@))),
{
    if data.len() == 0 {
        return Err(DoubleError::EmptyVec);
    }
    let ghost entries = name_id_of(data@);
    proof {
        assert(entries.take(0) =~= Seq::<(Seq<char>, Seq<char>)>::empty());
        assert(name_id_map(entries.take(0)) =~= Map::<Seq<char>, Seq<char>>::empty());
    }
    let mut report: Vec<(String, String)> = Vec::new();
    let mut i: usize = 0;
    while i < data.len()
        invariant
            i <= data@.len(),
            entries == name_id_of(data@),
            entries.len() == data@.len(),
            pairs_match(report@, name_id_map(entries.take(i as int))),
        decreases data@.len() - i,
    {
        let nm = data[i].name();
        let idv = data[i].id();
        proof {
            assert(entries[i as int] == (data@[i as int].name_spec(), data@[i as int].id_spec()));
        }
        let mut pos: usize = report.len();
        let mut j: usize = 0;
        while j < report.len()
            invariant
                j <= report@.len(),
                pos <= report@.len(),
                pos == report@.len() ==> forall|t: int|
                    0 <= t < j ==> (#[trigger] report@[t]).0@ != nm@,
                pos < report@.len() ==> report@[pos as int].0@ == nm@,
            decreases report@.len() - j,
        {
            if report[j].0 == nm {
                pos = j;
            }
            j = j + 1;
        }
        let ghost m = name_id_map(entries.take(i as int));
        let ghost old_rep = report@;
        if pos < report.len() {
            report.remove(pos);
            report.insert(pos, (nm, idv));
            proof {
                assert(report@ =~= old_rep.update(pos as int, (nm, idv)));
                lemma_pairs_replace(old_rep, nm, idv, pos as int, m);
            }
        } else {
            report.push((nm, idv));
            proof {
                lemma_pairs_push(old_rep, nm, idv, m);
            }
        }
        proof {
            lemma_name_id_map_step(entries, i as int);
        }
        i = i + 1;
    }
    proof {
        assert(entries.take(data@.len() as int) =~= entries);
    }
    Ok(report)
}

} // verus!
