//! The order in which tables are listed: by namespace, then by name.

use crate::table_mapping::TableKey;
use crate::types::{TableName, TableNamespace};
use vstd::prelude::*;

verus! {

/// The order of byte strings: the first byte that differs decides, and a
/// string comes before those that it is the beginning of.
pub open spec fn bytes_before(a: Seq<u8>, b: Seq<u8>) -> bool
    decreases a.len(),
{
    if b.len() == 0 {
        false
    } else if a.len() == 0 {
        true
    } else if a[0] != b[0] {
        a[0] < b[0]
    } else {
        bytes_before(a.drop_first(), b.drop_first())
    }
}

/// The order of names, which is that of their bytes.
pub open spec fn name_before(a: Seq<char>, b: Seq<char>) -> bool {
    bytes_before(vstd::utf8::encode_utf8(a), vstd::utf8::encode_utf8(b))
}

/// The order of namespaces: the global one first, then the components by their
/// identifier.
pub open spec fn namespace_before(a: TableNamespace, b: TableNamespace) -> bool {
    match (a, b) {
        (TableNamespace::Global, TableNamespace::Global) => false,
        (TableNamespace::Global, TableNamespace::ByComponent(_)) => true,
        (TableNamespace::ByComponent(_), TableNamespace::Global) => false,
        (TableNamespace::ByComponent(x), TableNamespace::ByComponent(y)) => x < y,
    }
}

/// The order of tables: by namespace, and by name within a namespace.
pub open spec fn key_before(a: TableKey, b: TableKey) -> bool {
    namespace_before(a.0, b.0) || (a.0 == b.0 && name_before(a.1, b.1))
}

proof fn lemma_bytes_irreflexive(a: Seq<u8>)
    ensures
        !bytes_before(a, a),
    decreases a.len(),
{
    if a.len() != 0 {
        lemma_bytes_irreflexive(a.drop_first());
    }
}

proof fn lemma_bytes_transitive(a: Seq<u8>, b: Seq<u8>, c: Seq<u8>)
    requires
        bytes_before(a, b),
        bytes_before(b, c),
    ensures
        bytes_before(a, c),
    decreases a.len(),
{
    if a.len() != 0 && a[0] == b[0] && b[0] == c[0] {
        lemma_bytes_transitive(a.drop_first(), b.drop_first(), c.drop_first());
    }
}

proof fn lemma_bytes_total(a: Seq<u8>, b: Seq<u8>)
    ensures
        a == b || bytes_before(a, b) || bytes_before(b, a),
    decreases a.len(),
{
    if a.len() == 0 || b.len() == 0 {
        if a.len() == b.len() {
            assert(a =~= b);
        }
    } else if a[0] == b[0] {
        lemma_bytes_total(a.drop_first(), b.drop_first());
        if a.drop_first() == b.drop_first() {
            assert(a =~= seq![a[0]] + a.drop_first());
            assert(b =~= seq![b[0]] + b.drop_first());
        }
    }
}

/// No table comes before itself.
pub proof fn lemma_key_irreflexive(a: TableKey)
    ensures
        !key_before(a, a),
{
    lemma_bytes_irreflexive(vstd::utf8::encode_utf8(a.1));
}

/// What comes before a table comes before all that the table comes before.
pub proof fn lemma_key_transitive(a: TableKey, b: TableKey, c: TableKey)
    requires
        key_before(a, b),
        key_before(b, c),
    ensures
        key_before(a, c),
{
    if a.0 == b.0 && b.0 == c.0 && !namespace_before(a.0, b.0) && !namespace_before(b.0, c.0) {
        lemma_bytes_transitive(
            vstd::utf8::encode_utf8(a.1),
            vstd::utf8::encode_utf8(b.1),
            vstd::utf8::encode_utf8(c.1),
        );
    }
}

/// Of two different tables one comes before the other.
pub proof fn lemma_key_total(a: TableKey, b: TableKey)
    ensures
        a == b || key_before(a, b) || key_before(b, a),
{
    lemma_bytes_total(vstd::utf8::encode_utf8(a.1), vstd::utf8::encode_utf8(b.1));
    vstd::utf8::encode_utf8_decode_utf8(a.1);
    vstd::utf8::encode_utf8_decode_utf8(b.1);
}

/// Whether the first byte string comes before the second.
fn bytes_are_before(a: &[u8], b: &[u8]) -> (before: bool)
    ensures
        before == bytes_before(a@, b@),
{
    let mut i: usize = 0;
    proof {
        assert(a@.skip(0) =~= a@);
        assert(b@.skip(0) =~= b@);
    }
    while i < a.len() && i < b.len()
        invariant
            i <= a.len(),
            i <= b.len(),
            bytes_before(a@, b@) == bytes_before(a@.skip(i as int), b@.skip(i as int)),
        decreases a.len() - i,
    {
        if a[i] != b[i] {
            return a[i] < b[i];
        }
        proof {
            assert(a@.skip(i as int).drop_first() =~= a@.skip(i + 1));
            assert(b@.skip(i as int).drop_first() =~= b@.skip(i + 1));
        }
        i = i + 1;
    }
    i < b.len()
}

/// Whether the first table comes before the second.
pub fn table_is_before(
    namespace: TableNamespace,
    name: &TableName,
    other_namespace: TableNamespace,
    other_name: &TableName,
) -> (before: bool)
    ensures
        before == key_before((namespace, name@), (other_namespace, other_name@)),
{
    match (namespace, other_namespace) {
        (TableNamespace::Global, TableNamespace::ByComponent(_)) => {
            return true;
        },
        (TableNamespace::ByComponent(_), TableNamespace::Global) => {
            return false;
        },
        (TableNamespace::ByComponent(x), TableNamespace::ByComponent(y)) => {
            if x != y {
                return x < y;
            }
        },
        (TableNamespace::Global, TableNamespace::Global) => {},
    }
    bytes_are_before(name.as_str().as_bytes(), other_name.as_str().as_bytes())
}

} // verus!
