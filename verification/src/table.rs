//! The mapping from material identifiers to materials.

use vstd::prelude::*;
use crate::material::Material;

verus! {

/// One identifier and the material it names.
#[derive(Clone, Debug, PartialEq, Eq)]
pub struct MaterialEntry {
    pub id: String,
    pub material: Material,
}

/// The map that a list of entries stands for. Where an identifier occurs
/// twice the later entry wins; a well-formed table has no such list.
pub open spec fn table_of(entries: Seq<MaterialEntry>) -> Map<Seq<char>, Material>
    decreases entries.len(),
{
    if entries.len() == 0 {
        Map::empty()
    } else {
        table_of(entries.drop_last()).insert(entries.last().id@, entries.last().material)
    }
}

/// No identifier occurs twice.
pub open spec fn distinct_ids(entries: Seq<MaterialEntry>) -> bool {
    forall|i: int, j: int|
        0 <= i < j < entries.len() ==> (#[trigger] entries[i]).id@ != (#[trigger] entries[j]).id@
}

/// A key is in the map exactly when some entry carries it.
pub proof fn lemma_table_keys(entries: Seq<MaterialEntry>, key: Seq<char>)
    ensures
        table_of(entries).contains_key(key) <==> exists|i: int|
            0 <= i < entries.len() && (#[trigger] entries[i]).id@ == key,
    decreases entries.len(),
{
    if entries.len() > 0 {
        let front = entries.drop_last();
        lemma_table_keys(front, key);
        if table_of(front).contains_key(key) {
            let i = choose|i: int| 0 <= i < front.len() && (#[trigger] front[i]).id@ == key;
            assert(entries[i].id@ == key);
        }
        if exists|i: int| 0 <= i < entries.len() && (#[trigger] entries[i]).id@ == key {
            let i = choose|i: int| 0 <= i < entries.len() && (#[trigger] entries[i]).id@ == key;
            if i < front.len() {
                assert(front[i].id@ == key);
            }
        }
    }
}

/// Dropping the last entry keeps the identifiers distinct.
proof fn lemma_front_distinct(entries: Seq<MaterialEntry>)
    requires
        distinct_ids(entries),
        entries.len() > 0,
    ensures
        distinct_ids(entries.drop_last()),
{
    let front = entries.drop_last();
    assert forall|a: int, b: int| 0 <= a < b < front.len() implies (#[trigger] front[a]).id@ != (
    #[trigger] front[b]).id@ by {
        assert(front[a] == entries[a] && front[b] == entries[b]);
    }
}

/// With distinct identifiers, each entry's material is what the map gives
/// for its identifier.
pub proof fn lemma_table_value(entries: Seq<MaterialEntry>, i: int)
    requires
        distinct_ids(entries),
        0 <= i < entries.len(),
    ensures
        table_of(entries).contains_key(entries[i].id@),
        table_of(entries)[entries[i].id@] == entries[i].material,
    decreases entries.len(),
{
    if i < entries.len() - 1 {
        lemma_front_distinct(entries);
        lemma_table_value(entries.drop_last(), i);
        assert(entries[i].id@ != entries.last().id@);
    }
}

/// With distinct identifiers, the map has as many keys as there are entries.
pub proof fn lemma_table_len(entries: Seq<MaterialEntry>)
    requires
        distinct_ids(entries),
    ensures
        table_of(entries).dom().finite(),
        table_of(entries).dom().len() == entries.len(),
    decreases entries.len(),
{
    if entries.len() > 0 {
        let front = entries.drop_last();
        lemma_front_distinct(entries);
        lemma_table_len(front);
        lemma_table_keys(front, entries.last().id@);
        if table_of(front).contains_key(entries.last().id@) {
            let i = choose|i: int|
                0 <= i < front.len() && (#[trigger] front[i]).id@ == entries.last().id@;
            assert(entries[i].id@ == entries[entries.len() - 1].id@);
        }
    }
}

/// An entry under a new identifier goes to the end of the list.
proof fn lemma_table_push(entries: Seq<MaterialEntry>, entry: MaterialEntry)
    requires
        distinct_ids(entries),
        !table_of(entries).contains_key(entry.id@),
    ensures
        distinct_ids(entries.push(entry)),
        table_of(entries.push(entry)) == table_of(entries).insert(entry.id@, entry.material),
{
    let after = entries.push(entry);
    assert(after.drop_last() == entries);
    lemma_table_keys(entries, entry.id@);
    assert forall|a: int, b: int| 0 <= a < b < after.len() implies (#[trigger] after[a]).id@ != (
    #[trigger] after[b]).id@ by {
        assert(after[a] == entries[a]);
        if b < entries.len() {
            assert(after[b] == entries[b]);
        }
    }
}

/// An entry under an identifier that is there already takes the place of
/// the entry that carries it.
proof fn lemma_table_replace(entries: Seq<MaterialEntry>, i: int, entry: MaterialEntry)
    requires
        distinct_ids(entries),
        0 <= i < entries.len(),
        entries[i].id@ == entry.id@,
    ensures
        distinct_ids(entries.update(i, entry)),
        table_of(entries.update(i, entry)) == table_of(entries).insert(entry.id@, entry.material),
    decreases entries.len(),
{
    let after = entries.update(i, entry);
    let front = entries.drop_last();
    assert forall|a: int, b: int| 0 <= a < b < after.len() implies (#[trigger] after[a]).id@ != (
    #[trigger] after[b]).id@ by {
        assert(after[a].id@ == entries[a].id@ && after[b].id@ == entries[b].id@);
    }
    if i == entries.len() - 1 {
        assert(after.drop_last() == front);
        assert(table_of(after) == table_of(entries).insert(entry.id@, entry.material));
    } else {
        lemma_front_distinct(entries);
        lemma_table_replace(front, i, entry);
        assert(after.drop_last() == front.update(i, entry));
        assert(entries[i].id@ != entries.last().id@);
        assert(table_of(after) == table_of(entries).insert(entry.id@, entry.material));
    }
}

/// A mapping from material identifiers to materials that remembers the
/// order in which identifiers first came in.
#[derive(Clone, Debug, PartialEq, Eq)]
pub struct MaterialTable {
    pub entries: Vec<MaterialEntry>,
}

impl View for MaterialTable {
    type V = Map<Seq<char>, Material>;

    open spec fn view(&self) -> Map<Seq<char>, Material> {
        table_of(self.entries@)
    }
}

impl MaterialTable {
    /// Every identifier has one entry.
    pub open spec fn wf(&self) -> bool {
        distinct_ids(self.entries@)
    }

    /// The empty table.
    pub fn new() -> (table: MaterialTable)
        ensures
            table.wf(),
            table@ == Map::<Seq<char>, Material>::empty(),
    {
        MaterialTable { entries: Vec::new() }
    }

    /// The number of identifiers.
    pub fn len(&self) -> (n: usize)
        requires
            self.wf(),
        ensures
            self@.dom().finite(),
            n == self@.dom().len(),
    {
        proof {
            lemma_table_len(self.entries@);
        }
        self.entries.len()
    }

    /// Where the entry of `id` stands, if it has one.
    fn position(&self, id: &String) -> (found: Option<usize>)
        ensures
            match found {
                Some(i) => i < self.entries@.len() && self.entries@[i as int].id@ == id@,
                None => !self@.contains_key(id@),
            },
    {
        let mut i: usize = 0;
        while i < self.entries.len()
            invariant
                i <= self.entries@.len(),
                forall|k: int| 0 <= k < i ==> (#[trigger] self.entries@[k]).id@ != id@,
            decreases self.entries@.len() - i,
        {
            if self.entries[i].id == *id {
                return Some(i);
            }
            i += 1;
        }
        proof {
            lemma_table_keys(self.entries@, id@);
        }
        None
    }

    /// Whether `id` names a material.
    pub fn contains(&self, id: &String) -> (present: bool)
        ensures
            present == self@.contains_key(id@),
    {
        proof {
            lemma_table_keys(self.entries@, id@);
        }
        self.position(id).is_some()
    }

    /// The material that `id` names.
    pub fn get(&self, id: &String) -> (found: Option<Material>)
        requires
            self.wf(),
        ensures
            found == (if self@.contains_key(id@) {
                Some(self@[id@])
            } else {
                None
            }),
    {
        match self.position(id) {
            Some(i) => {
                proof {
                    lemma_table_value(self.entries@, i as int);
                }
                Some(self.entries[i].material)
            },
            None => None,
        }
    }

    /// Lets `id` name `material`, and returns what it named before.
    pub fn insert(&mut self, id: String, material: Material) -> (previous: Option<Material>)
        requires
            old(self).wf(),
        ensures
            final(self).wf(),
            final(self)@ == old(self)@.insert(id@, material),
            previous == (if old(self)@.contains_key(id@) {
                Some(old(self)@[id@])
            } else {
                None
            }),
    {
        let ghost before = self.entries@;
        let entry = MaterialEntry { id, material };
        match self.position(&entry.id) {
            Some(i) => {
                let previous = self.entries[i].material;
                proof {
                    lemma_table_value(before, i as int);
                    lemma_table_replace(before, i as int, entry);
                }
                self.entries.set(i, entry);
                Some(previous)
            },
            None => {
                proof {
                    lemma_table_push(before, entry);
                }
                self.entries.push(entry);
                None
            },
        }
    }
}

} // verus!
