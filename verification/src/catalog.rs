//! The instance types that the service offers.

use vstd::prelude::*;

use crate::model::{InstanceTypeData, InstanceTypeResponse, Region};
use crate::text::{
    ascending, law_ascending_is_determined_by_its_set, law_text_less_is_a_strict_total_order,
    lemma_insert_at_its_place, lemma_push_to_set, str_less, str_same, text_less, texts,
};

verus! {

/// The instance types of one answer, by name. No name occurs twice.
#[derive(Debug)]
pub struct InstanceTypes {
    entries: Vec<(String, InstanceTypeResponse)>,
}

/// The names of a list of entries.
spec fn names_of(entries: Seq<(String, InstanceTypeResponse)>) -> Seq<Seq<char>> {
    entries.map_values(|entry: (String, InstanceTypeResponse)| entry.0@)
}

/// What a list of entries comes to, where a later entry takes the place of an earlier one with
/// the same name.
pub open spec fn entries_map(entries: Seq<(String, InstanceTypeResponse)>) -> Map<
    Seq<char>,
    InstanceTypeResponse,
>
    decreases entries.len(),
{
    if entries.len() == 0 {
        Map::empty()
    } else {
        entries_map(entries.drop_last()).insert(entries.last().0@, entries.last().1)
    }
}

impl View for InstanceTypes {
    type V = Map<Seq<char>, InstanceTypeResponse>;

    closed spec fn view(&self) -> Map<Seq<char>, InstanceTypeResponse> {
        entries_map(self.entries@)
    }
}

/// The entry under `name`, if there is one.
pub open spec fn entry_of(
    types: Map<Seq<char>, InstanceTypeResponse>,
    name: Seq<char>,
) -> Option<InstanceTypeResponse> {
    if types.dom().contains(name) {
        Some(types[name])
    } else {
        None
    }
}

/// The names of a list of regions.
pub open spec fn region_texts(regions: Seq<Region>) -> Seq<Seq<char>> {
    regions.map_values(|region: Region| region.name@)
}

/// The names of a list of regions, in their order.
pub fn region_names(regions: &Vec<Region>) -> (names: Vec<String>)
    ensures
        texts(names@) == region_texts(regions@),
{
    let mut names: Vec<String> = Vec::new();
    let mut i: usize = 0;
    while i < regions.len()
        invariant
            i <= regions@.len(),
            texts(names@) == region_texts(regions@).take(i as int),
        decreases regions@.len() - i,
    {
        let ghost before = names@;
        names.push(regions[i].name.clone());
        proof {
            assert(texts(names@) =~= texts(before).push(regions@[i as int].name@));
            assert(region_texts(regions@).take(i + 1) =~= region_texts(regions@).take(
                i as int,
            ).push(regions@[i as int].name@));
        }
        i += 1;
    }
    assert(region_texts(regions@).take(i as int) =~= region_texts(regions@));
    names
}

/// An `InstanceTypeData`, with texts for strings.
pub struct TypeRow {
    pub name: Seq<char>,
    pub description: Seq<char>,
    pub price_cents_per_hour: i32,
    pub vcpus: u32,
    pub memory_gib: u32,
    pub storage_gib: u32,
    pub regions_available: Seq<Seq<char>>,
}

impl View for InstanceTypeData {
    type V = TypeRow;

    open spec fn view(&self) -> TypeRow {
        TypeRow {
            name: self.name@,
            description: self.description@,
            price_cents_per_hour: self.price_cents_per_hour,
            vcpus: self.vcpus,
            memory_gib: self.memory_gib,
            storage_gib: self.storage_gib,
            regions_available: texts(self.regions_available@),
        }
    }
}

/// The row of one instance type.
pub open spec fn type_row(name: Seq<char>, data: InstanceTypeResponse) -> TypeRow {
    TypeRow {
        name,
        description: data.instance_type.description@,
        price_cents_per_hour: data.instance_type.price_cents_per_hour,
        vcpus: data.instance_type.specs.vcpus,
        memory_gib: data.instance_type.specs.memory_gib,
        storage_gib: data.instance_type.specs.storage_gib,
        regions_available: region_texts(data.regions_with_capacity_available@),
    }
}

pub open spec fn row_names(rows: Seq<TypeRow>) -> Seq<Seq<char>> {
    rows.map_values(|row: TypeRow| row.name)
}

pub open spec fn type_rows(list: Seq<InstanceTypeData>) -> Seq<TypeRow> {
    list.map_values(|data: InstanceTypeData| data@)
}

/// `rows` lists `types`: one row for each, in the order of the names.
pub open spec fn listed(
    types: Map<Seq<char>, InstanceTypeResponse>,
    rows: Seq<TypeRow>,
) -> bool {
    &&& ascending(row_names(rows))
    &&& row_names(rows).to_set() == types.dom()
    &&& forall|k: int|
        0 <= k < rows.len() ==> #[trigger] rows[k] == type_row(rows[k].name, types[rows[k].name])
}

/// The instance types of one answer can be listed in one way only, whatever order they came in.
pub proof fn law_listing_is_unique(
    types: Map<Seq<char>, InstanceTypeResponse>,
    rows: Seq<TypeRow>,
    others: Seq<TypeRow>,
)
    requires
        listed(types, rows),
        listed(types, others),
    ensures
        rows == others,
{
    let a = row_names(rows);
    let b = row_names(others);
    law_ascending_is_determined_by_its_set(a, b);
    assert(a.len() == rows.len() && b.len() == others.len());
    assert forall|k: int| 0 <= k < rows.len() implies #[trigger] rows[k] == others[k] by {
        assert(a[k] == rows[k].name && b[k] == others[k].name);
    }
    assert(rows =~= others);
}

/// The names of a list of entries are the names of what it comes to.
proof fn lemma_entries_map_dom(entries: Seq<(String, InstanceTypeResponse)>)
    ensures
        entries_map(entries).dom() == names_of(entries).to_set(),
    decreases entries.len(),
{
    let names = names_of(entries);
    if entries.len() > 0 {
        let shorter = entries.drop_last();
        lemma_entries_map_dom(shorter);
        assert(names =~= names_of(shorter).push(entries.last().0@));
        lemma_push_to_set(names_of(shorter), entries.last().0@);
        assert(entries_map(entries).dom() =~= names.to_set());
    } else {
        assert(entries_map(entries).dom() =~= names.to_set());
    }
}

/// Where no name occurs twice, an entry of the list is the entry of the map.
proof fn lemma_entries_map_at(entries: Seq<(String, InstanceTypeResponse)>, i: int)
    requires
        names_of(entries).no_duplicates(),
        0 <= i < entries.len(),
    ensures
        entries_map(entries).dom().contains(entries[i].0@),
        entries_map(entries)[entries[i].0@] == entries[i].1,
    decreases entries.len(),
{
    if i < entries.len() - 1 {
        let shorter = entries.drop_last();
        let names = names_of(entries);
        assert(names_of(shorter) =~= names.drop_last());
        assert(names[i] != names[entries.len() - 1]);
        assert(names_of(shorter).no_duplicates()) by {
            assert forall|a: int, b: int|
                0 <= a < b < shorter.len() implies names_of(shorter)[a] != names_of(shorter)[b] by {
                assert(names[a] != names[b]);
            }
        }
        lemma_entries_map_at(shorter, i);
        assert(shorter[i] == entries[i]);
    }
}

/// The place of `name` among the entries.
fn position(entries: &Vec<(String, InstanceTypeResponse)>, name: &str) -> (place: Option<usize>)
    ensures
        place is Some <==> names_of(entries@).contains(name@),
        place is Some ==> place->0 < entries@.len() && entries@[place->0 as int].0@ == name@,
{
    let mut i: usize = 0;
    while i < entries.len()
        invariant
            i <= entries@.len(),
            forall|k: int| 0 <= k < i ==> (#[trigger] names_of(entries@)[k]) != name@,
        decreases entries@.len() - i,
    {
        assert(names_of(entries@)[i as int] == entries@[i as int].0@);
        if str_same(entries[i].0.as_str(), name) {
            return Some(i);
        }
        i += 1;
    }
    None
}

/// The row of one instance type.
fn to_row(name: String, data: InstanceTypeResponse) -> (row: InstanceTypeData)
    ensures
        row@ == type_row(name@, data),
{
    let regions_available = region_names(&data.regions_with_capacity_available);
    InstanceTypeData {
        name,
        description: data.instance_type.description,
        price_cents_per_hour: data.instance_type.price_cents_per_hour,
        vcpus: data.instance_type.specs.vcpus,
        memory_gib: data.instance_type.specs.memory_gib,
        storage_gib: data.instance_type.specs.storage_gib,
        regions_available,
    }
}

/// A row more in the list, at its place.
proof fn lemma_listed_insert(
    types: Map<Seq<char>, InstanceTypeResponse>,
    rows: Seq<TypeRow>,
    name: Seq<char>,
    data: InstanceTypeResponse,
    at: int,
)
    requires
        listed(types, rows),
        !types.dom().contains(name),
        0 <= at <= rows.len(),
        forall|k: int| 0 <= k < at ==> text_less((#[trigger] rows[k]).name, name),
        at < rows.len() ==> text_less(name, rows[at].name),
    ensures
        listed(types.insert(name, data), rows.insert(at, type_row(name, data))),
{
    let after = rows.insert(at, type_row(name, data));
    let more = types.insert(name, data);
    let before_names = row_names(rows);
    let names = row_names(after);
    assert(names =~= before_names.insert(at, name));
    assert forall|k: int| 0 <= k < at implies text_less(#[trigger] before_names[k], name) by {
        assert(before_names[k] == rows[k].name);
    }
    lemma_insert_at_its_place(before_names, at, name);
    assert(names.to_set() =~= more.dom());
    assert forall|k: int| 0 <= k < after.len() implies #[trigger] after[k] == type_row(
        after[k].name,
        more[after[k].name],
    ) by {
        if k != at {
            let k2 = if k < at { k } else { k - 1 };
            assert(after[k] == rows[k2]);
            assert(before_names[k2] == rows[k2].name);
            assert(before_names.contains(rows[k2].name));
            assert(before_names.to_set().contains(rows[k2].name));
        }
    }
}

impl InstanceTypes {
    #[verifier::type_invariant]
    spec fn distinct(self) -> bool {
        names_of(self.entries@).no_duplicates()
    }

    /// The instance types of a list of entries. Of several entries with one name the last counts.
    pub fn from_entries(entries: Vec<(String, InstanceTypeResponse)>) -> (types: InstanceTypes)
        ensures
            types@ == entries_map(entries@),
    {
        let ghost all = entries_map(entries@);
        let mut rest = entries;
        let mut kept: Vec<(String, InstanceTypeResponse)> = Vec::new();
        assert(all.union_prefer_right(entries_map(kept@)) =~= all);
        while rest.len() > 0
            invariant
                all == entries_map(rest@).union_prefer_right(entries_map(kept@)),
                names_of(kept@).no_duplicates(),
            decreases rest@.len(),
        {
            let ghost before = rest@;
            let ghost held = kept@;
            if let Some(entry) = rest.pop() {
                assert(rest@ =~= before.drop_last());
                proof {
                    lemma_entries_map_dom(held);
                    assert(names_of(held).to_set().contains(entry.0@) == names_of(held).contains(
                        entry.0@,
                    ));
                }
                let place = position(&kept, entry.0.as_str());
                if place.is_none() {
                    kept.push(entry);
                    proof {
                        assert(kept@.drop_last() =~= held);
                        assert(names_of(kept@) =~= names_of(held).push(entry.0@));
                    }
                }
                assert(all =~= entries_map(rest@).union_prefer_right(entries_map(kept@)));
            }
        }
        assert(all =~= entries_map(kept@));
        InstanceTypes { entries: kept }
    }

    /// The instance type with this name.
    pub fn take(self, name: &str) -> (found: Option<InstanceTypeResponse>)
        ensures
            found == entry_of(self@, name@),
    {
        proof {
            use_type_invariant(&self);
            lemma_entries_map_dom(self.entries@);
            assert(names_of(self.entries@).to_set().contains(name@) == names_of(
                self.entries@,
            ).contains(name@));
        }
        let mut entries = self.entries;
        match position(&entries, name) {
            Some(i) => {
                proof {
                    lemma_entries_map_at(entries@, i as int);
                }
                let entry = entries.swap_remove(i);
                Some(entry.1)
            },
            None => None,
        }
    }

    /// The list of the instance types, sorted by name.
    pub fn list(self) -> (list: Vec<InstanceTypeData>)
        ensures
            listed(self@, type_rows(list@)),
    {
        proof {
            use_type_invariant(&self);
        }
        let ghost all = self@;
        let mut rest = self.entries;
        let mut list: Vec<InstanceTypeData> = Vec::new();
        let ghost mut done = Map::<Seq<char>, InstanceTypeResponse>::empty();
        proof {
            assert(all =~= entries_map(rest@).union_prefer_right(done));
            assert(row_names(type_rows(list@)).to_set() =~= done.dom());
        }
        while rest.len() > 0
            invariant
                all == entries_map(rest@).union_prefer_right(done),
                names_of(rest@).no_duplicates(),
                forall|t: Seq<char>| names_of(rest@).contains(t) ==> !done.dom().contains(t),
                listed(done, type_rows(list@)),
            decreases rest@.len(),
        {
            let ghost before = rest@;
            let ghost rows = type_rows(list@);
            if let Some(entry) = rest.pop() {
                let ghost name = entry.0@;
                let ghost data = entry.1;
                proof {
                    assert(rest@ =~= before.drop_last());
                    assert(names_of(rest@) =~= names_of(before).drop_last());
                    assert(names_of(before)[before.len() - 1] == name);
                    assert forall|t: Seq<char>| names_of(rest@).contains(t) implies t != name
                        && names_of(before).contains(t) by {
                        let k = choose|k: int| 0 <= k < rest@.len() && names_of(rest@)[k] == t;
                        assert(names_of(before)[k] == t);
                    }
                }
                let row = to_row(entry.0, entry.1);
                let mut at: usize = 0;
                while at < list.len() && str_less(list[at].name.as_str(), row.name.as_str())
                    invariant
                        at <= list@.len(),
                        rows == type_rows(list@),
                        row@.name == name,
                        forall|k: int| 0 <= k < at ==> text_less((#[trigger] rows[k]).name, name),
                    decreases list@.len() - at,
                {
                    assert(rows[at as int] == list@[at as int]@);
                    at += 1;
                }
                proof {
                    if at < rows.len() {
                        assert(rows[at as int] == list@[at as int]@);
                        assert(row_names(rows)[at as int] == rows[at as int].name);
                        assert(row_names(rows).to_set().contains(rows[at as int].name));
                        law_text_less_is_a_strict_total_order(rows[at as int].name, name, name);
                    }
                    lemma_listed_insert(done, rows, name, data, at as int);
                    done = done.insert(name, data);
                }
                list.insert(at, row);
                proof {
                    assert(type_rows(list@) =~= rows.insert(at as int, type_row(name, data)));
                    lemma_entries_map_dom(rest@);
                    assert(names_of(rest@).to_set().contains(name) == names_of(rest@).contains(
                        name,
                    ));
                    assert(all =~= entries_map(rest@).union_prefer_right(done));
                }
            }
        }
        assert(all =~= done);
        list
    }
}

/// The names of a list of regions are those of its regions, one by one: none is left out, none is
/// added, and their order stays.
pub proof fn law_region_names_one_by_one(regions: Seq<Region>)
    ensures
        region_texts(regions).len() == regions.len(),
        forall|k: int|
            0 <= k < regions.len() ==> #[trigger] region_texts(regions)[k] == regions[k].name@,
{
}

/// Every row of a listing says of its instance type what the answer says under that name, field by
/// field; which regions there are has no bearing on the other fields.
pub proof fn law_row_says_what_the_answer_says(
    types: Map<Seq<char>, InstanceTypeResponse>,
    list: Seq<InstanceTypeData>,
    k: int,
)
    requires
        listed(types, type_rows(list)),
        0 <= k < list.len(),
    ensures
        types.dom().contains(list[k].name@),
        list[k].description@ == types[list[k].name@].instance_type.description@,
        list[k].price_cents_per_hour == types[list[k].name@].instance_type.price_cents_per_hour,
        list[k].vcpus == types[list[k].name@].instance_type.specs.vcpus,
        list[k].memory_gib == types[list[k].name@].instance_type.specs.memory_gib,
        list[k].storage_gib == types[list[k].name@].instance_type.specs.storage_gib,
        list[k].regions_available@.len() == types[list[k].name@].regions_with_capacity_available@.len(),
        forall|r: int|
            0 <= r < list[k].regions_available@.len() ==> (
            #[trigger] list[k].regions_available@[r])@
                == types[list[k].name@].regions_with_capacity_available@[r].name@,
{
    let rows = type_rows(list);
    let names = row_names(rows);
    assert(rows[k] == list[k]@);
    assert(names[k] == list[k].name@);
    assert(names.to_set().contains(names[k]));
    let data = types[list[k].name@];
    let regions = texts(list[k].regions_available@);
    assert(regions == region_texts(data.regions_with_capacity_available@));
    assert(regions.len() == list[k].regions_available@.len());
    assert forall|r: int| 0 <= r < list[k].regions_available@.len() implies (
    #[trigger] list[k].regions_available@[r])@ == data.regions_with_capacity_available@[r].name@ by {
        assert(regions[r] == list[k].regions_available@[r]@);
    }
}

/// A listing has a row for every instance type of the answer, and its rows come in the order of the
/// names, each once.
pub proof fn law_listing_is_complete_and_in_order(
    types: Map<Seq<char>, InstanceTypeResponse>,
    list: Seq<InstanceTypeData>,
)
    requires
        listed(types, type_rows(list)),
    ensures
        forall|name: Seq<char>| #[trigger]
            types.dom().contains(name) ==> exists|k: int|
                0 <= k < list.len() && (#[trigger] list[k]).name@ == name,
        forall|i: int, j: int|
            0 <= i < j < list.len() ==> text_less(
                (#[trigger] list[i]).name@,
                (#[trigger] list[j]).name@,
            ) && list[i].name@ != list[j].name@,
{
    let rows = type_rows(list);
    let names = row_names(rows);
    assert forall|k: int| 0 <= k < list.len() implies #[trigger] names[k] == list[k].name@ by {
        assert(rows[k] == list[k]@);
    }
    assert forall|name: Seq<char>| #[trigger] types.dom().contains(name) implies exists|k: int|
        0 <= k < list.len() && (#[trigger] list[k]).name@ == name by {
        assert(names.to_set().contains(name));
        let k = choose|k: int| 0 <= k < names.len() && names[k] == name;
        assert(list[k].name@ == name);
    }
    assert forall|i: int, j: int| 0 <= i < j < list.len() implies text_less(
        (#[trigger] list[i]).name@,
        (#[trigger] list[j]).name@,
    ) && list[i].name@ != list[j].name@ by {
        assert(text_less(names[i], names[j]));
        law_text_less_is_a_strict_total_order(names[i], names[j], names[j]);
    }
}

/// Under each name of a list of entries stands what the last entry with that name says.
pub proof fn law_last_entry_of_a_name_counts(
    entries: Seq<(String, InstanceTypeResponse)>,
    i: int,
)
    requires
        0 <= i < entries.len(),
        forall|j: int| i < j < entries.len() ==> (#[trigger] entries[j]).0@ != entries[i].0@,
    ensures
        entries_map(entries).dom().contains(entries[i].0@),
        entries_map(entries)[entries[i].0@] == entries[i].1,
    decreases entries.len(),
{
    let last = entries.len() - 1;
    assert(entries[last] == entries.last());
    if i < last {
        let shorter = entries.drop_last();
        assert(shorter[i] == entries[i]);
        assert(entries[last].0@ != entries[i].0@);
        assert forall|j: int| i < j < shorter.len() implies (#[trigger] shorter[j]).0@
            != shorter[i].0@ by {
            assert(shorter[j] == entries[j]);
        }
        law_last_entry_of_a_name_counts(shorter, i);
    }
}

/// Only names that occur in a list of entries are in what it comes to.
pub proof fn law_no_name_is_made_up(
    entries: Seq<(String, InstanceTypeResponse)>,
    name: Seq<char>,
)
    requires
        forall|i: int| 0 <= i < entries.len() ==> (#[trigger] entries[i]).0@ != name,
    ensures
        !entries_map(entries).dom().contains(name),
    decreases entries.len(),
{
    if entries.len() > 0 {
        let shorter = entries.drop_last();
        assert(entries[entries.len() - 1] == entries.last());
        assert forall|i: int| 0 <= i < shorter.len() implies (#[trigger] shorter[i]).0@ != name by {
            assert(shorter[i] == entries[i]);
        }
        law_no_name_is_made_up(shorter, name);
    }
}

/// Looking a name up finds what stands under it, and nothing under a name that is not there.
pub proof fn law_lookup_finds_what_is_there(
    types: Map<Seq<char>, InstanceTypeResponse>,
    name: Seq<char>,
)
    ensures
        types.dom().contains(name) ==> entry_of(types, name) == Some(types[name]),
        !types.dom().contains(name) ==> entry_of(types, name) is None,
{
}

} // verus!
