//! How much storage the documents and the indexes of each table take up.

use crate::order;
use crate::table_mapping::TableKey;
use crate::types::{TableName, TableNamespace};
use vstd::prelude::*;

verus! {

/// The storage of one table.
pub struct TableStorage {
    pub namespace: TableNamespace,
    pub table_name: TableName,
    pub document_size: usize,
    pub index_size: usize,
}

impl TableStorage {
    pub open spec fn key(self) -> TableKey {
        (self.namespace, self.table_name@)
    }

    /// The size of the documents, and that of the indexes.
    pub open spec fn sizes(self) -> (usize, usize) {
        (self.document_size, self.index_size)
    }
}

/// The tables of a list come in order, each once.
pub open spec fn tables_ascend(entries: Seq<TableStorage>) -> bool {
    forall|i: int, j: int|
        #![trigger entries[i], entries[j]]
        0 <= i < j < entries.len() ==> order::key_before(entries[i].key(), entries[j].key())
}

/// The sizes under each table of a list.
pub open spec fn sizes_by_table(entries: Seq<TableStorage>) -> Map<TableKey, (usize, usize)> {
    Map::new(
        |k: TableKey| exists|i: int| 0 <= i < entries.len() && (#[trigger] entries[i]).key() == k,
        |k: TableKey|
            entries[choose|i: int|
                0 <= i < entries.len() && (#[trigger] entries[i]).key() == k].sizes(),
    )
}

/// Storage by table, in the order of [`crate::order`].
pub struct StorageByTable {
    entries: Vec<TableStorage>,
}

impl View for StorageByTable {
    type V = Map<TableKey, (usize, usize)>;

    closed spec fn view(&self) -> Map<TableKey, (usize, usize)> {
        sizes_by_table(self.entries@)
    }
}

impl StorageByTable {
    #[verifier::type_invariant]
    spec fn inv(self) -> bool {
        tables_ascend(self.entries@)
    }

    /// The storage of no tables.
    pub fn new() -> (storage: StorageByTable)
        ensures
            storage@.dom() == Set::<TableKey>::empty(),
    {
        let storage = StorageByTable { entries: Vec::new() };
        assert(storage@.dom() =~= Set::<TableKey>::empty());
        storage
    }

    /// All tables with their storage, in order.
    pub fn entries(&self) -> (entries: &Vec<TableStorage>)
        ensures
            tables_ascend(entries@),
            sizes_by_table(entries@) == self@,
    {
        proof {
            use_type_invariant(self);
        }
        &self.entries
    }

    /// The place of the first table that does not come before the given one.
    fn position(&self, namespace: TableNamespace, table_name: &TableName) -> (place: usize)
        ensures
            place <= self.entries@.len(),
            forall|i: int|
                #![trigger self.entries@[i]]
                0 <= i < place ==> order::key_before(
                    self.entries@[i].key(),
                    (namespace, table_name@),
                ),
            place < self.entries@.len() ==> !order::key_before(
                self.entries@[place as int].key(),
                (namespace, table_name@),
            ),
    {
        let mut i: usize = 0;
        while i < self.entries.len()
            invariant
                i <= self.entries@.len(),
                forall|j: int|
                    #![trigger self.entries@[j]]
                    0 <= j < i ==> order::key_before(
                        self.entries@[j].key(),
                        (namespace, table_name@),
                    ),
            decreases self.entries@.len() - i,
        {
            let entry = &self.entries[i];
            if !order::table_is_before(
                entry.namespace,
                &entry.table_name,
                namespace,
                table_name,
            ) {
                return i;
            }
            i = i + 1;
        }
        i
    }

    /// The document and index size of a table, if it is there.
    pub fn get(&self, namespace: TableNamespace, table_name: &TableName) -> (sizes: Option<
        (usize, usize),
    >)
        ensures
            sizes == (if self@.contains_key((namespace, table_name@)) {
                Some(self@[(namespace, table_name@)])
            } else {
                None::<(usize, usize)>
            }),
    {
        proof {
            use_type_invariant(self);
        }
        let place: usize = self.position(namespace, table_name);
        let ghost key = (namespace, table_name@);
        if place < self.entries.len() && self.entries[place].namespace == namespace
            && self.entries[place].table_name == *table_name {
            proof {
                lemma_sizes_at(self.entries@, place as int);
            }
            return Some((self.entries[place].document_size, self.entries[place].index_size));
        }
        proof {
            assert forall|i: int| 0 <= i < self.entries@.len() implies (
            #[trigger] self.entries@[i]).key() != key by {
                order::lemma_key_irreflexive(key);
                if place < i {
                    let first = self.entries@[place as int].key();
                    order::lemma_key_total(first, key);
                    if self.entries@[i].key() == key {
                        assert(order::key_before(first, key));
                    }
                }
            }
        }
        None
    }

    /// Puts the sizes under a table, in place of what stood there.
    pub fn insert(
        &mut self,
        namespace: TableNamespace,
        table_name: TableName,
        document_size: usize,
        index_size: usize,
    )
        ensures
            final(self)@ == old(self)@.insert(
                (namespace, table_name@),
                (document_size, index_size),
            ),
    {
        proof {
            use_type_invariant(&*self);
        }
        let place: usize = self.position(namespace, &table_name);
        let ghost before = self.entries@;
        let ghost key = (namespace, table_name@);
        let present: bool = place < self.entries.len() && self.entries[place].namespace
            == namespace && self.entries[place].table_name == table_name;
        let mut entries: Vec<TableStorage> = Vec::new();
        std::mem::swap(&mut entries, &mut self.entries);
        let entry = TableStorage { namespace, table_name, document_size, index_size };
        if present {
            entries.set(place, entry);
            proof {
                lemma_replace(before, place as int, entry);
            }
        } else {
            entries.insert(place, entry);
            proof {
                if place < before.len() {
                    order::lemma_key_total(before[place as int].key(), key);
                }
                lemma_insert(before, place as int, entry);
            }
        }
        self.entries = entries;
    }
}

/// In an ordered list the sizes under a table are those of its one entry.
proof fn lemma_sizes_at(entries: Seq<TableStorage>, i: int)
    requires
        tables_ascend(entries),
        0 <= i < entries.len(),
    ensures
        sizes_by_table(entries).contains_key(entries[i].key()),
        sizes_by_table(entries)[entries[i].key()] == entries[i].sizes(),
{
    let k = entries[i].key();
    let c = choose|c: int| 0 <= c < entries.len() && (#[trigger] entries[c]).key() == k;
    assert(0 <= c < entries.len() && entries[c].key() == k);
    order::lemma_key_irreflexive(k);
    if c < i {
        assert(order::key_before(entries[c].key(), entries[i].key()));
    }
    if i < c {
        assert(order::key_before(entries[i].key(), entries[c].key()));
    }
}

/// Replacing the entry of a table changes the sizes under that table.
proof fn lemma_replace(entries: Seq<TableStorage>, place: int, entry: TableStorage)
    requires
        tables_ascend(entries),
        0 <= place < entries.len(),
        entries[place].key() == entry.key(),
    ensures
        tables_ascend(entries.update(place, entry)),
        sizes_by_table(entries.update(place, entry)) == sizes_by_table(entries).insert(
            entry.key(),
            entry.sizes(),
        ),
{
    let after = entries.update(place, entry);
    assert forall|i: int, j: int| 0 <= i < j < after.len() implies order::key_before(
        (#[trigger] after[i]).key(),
        (#[trigger] after[j]).key(),
    ) by {
        assert(order::key_before(entries[i].key(), entries[j].key()));
    }
    let expected = sizes_by_table(entries).insert(entry.key(), entry.sizes());
    assert forall|k: TableKey|
        #![trigger sizes_by_table(after).dom().contains(k)]
        #![trigger expected.dom().contains(k)]
        sizes_by_table(after).contains_key(k) == expected.contains_key(k) && (
        expected.contains_key(k) ==> sizes_by_table(after)[k] == expected[k]) by {
        if k == entry.key() {
            lemma_sizes_at(after, place);
            assert(after[place].key() == k);
        } else {
            if sizes_by_table(after).contains_key(k) {
                let i = choose|i: int| 0 <= i < after.len() && (#[trigger] after[i]).key() == k;
                assert(entries[i].key() == k);
                lemma_sizes_at(after, i);
                lemma_sizes_at(entries, i);
            }
            if sizes_by_table(entries).contains_key(k) {
                let i = choose|i: int| 0 <= i < entries.len() && (#[trigger] entries[i]).key() == k;
                assert(after[i].key() == k);
            }
        }
    }
    assert(sizes_by_table(after) =~= expected);
}

/// A new entry between those before and those after it adds its table.
proof fn lemma_insert(entries: Seq<TableStorage>, place: int, entry: TableStorage)
    requires
        tables_ascend(entries),
        0 <= place <= entries.len(),
        forall|i: int|
            #![trigger entries[i]]
            0 <= i < place ==> order::key_before(entries[i].key(), entry.key()),
        place < entries.len() ==> order::key_before(entry.key(), entries[place].key()),
    ensures
        tables_ascend(entries.insert(place, entry)),
        sizes_by_table(entries.insert(place, entry)) == sizes_by_table(entries).insert(
            entry.key(),
            entry.sizes(),
        ),
{
    let after = entries.insert(place, entry);
    assert forall|i: int| place <= i < entries.len() implies order::key_before(
        entry.key(),
        (#[trigger] entries[i]).key(),
    ) by {
        if place < i {
            let first = entries[place].key();
            assert(order::key_before(first, entries[i].key()));
            order::lemma_key_transitive(entry.key(), first, entries[i].key());
        }
    }
    assert forall|i: int, j: int| 0 <= i < j < after.len() implies order::key_before(
        (#[trigger] after[i]).key(),
        (#[trigger] after[j]).key(),
    ) by {
        let x = if i < place {
            i
        } else {
            i - 1
        };
        let y = if j < place {
            j
        } else {
            j - 1
        };
        if i != place {
            assert(after[i] == entries[x]);
        }
        if j != place {
            assert(after[j] == entries[y]);
        }
    }
    let expected = sizes_by_table(entries).insert(entry.key(), entry.sizes());
    assert forall|k: TableKey|
        #![trigger sizes_by_table(after).dom().contains(k)]
        #![trigger expected.dom().contains(k)]
        sizes_by_table(after).contains_key(k) == expected.contains_key(k) && (
        expected.contains_key(k) ==> sizes_by_table(after)[k] == expected[k]) by {
        if k == entry.key() {
            assert(after[place] == entry);
            lemma_sizes_at(after, place);
        } else {
            if sizes_by_table(after).contains_key(k) {
                let i = choose|i: int| 0 <= i < after.len() && (#[trigger] after[i]).key() == k;
                let x = if i < place {
                    i
                } else {
                    i - 1
                };
                assert(after[i] == entries[x]);
                lemma_sizes_at(after, i);
                lemma_sizes_at(entries, x);
            }
            if sizes_by_table(entries).contains_key(k) {
                let i = choose|i: int| 0 <= i < entries.len() && (#[trigger] entries[i]).key() == k;
                let x = if i < place {
                    i
                } else {
                    i + 1
                };
                assert(after[x] == entries[i]);
            }
        }
    }
    assert(sizes_by_table(after) =~= expected);
}

} // verus!
