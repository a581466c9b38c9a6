//! Schema of the message table and its additive evolution: the optional
//! columns that older files lack are found by looking, then added once.

use crate::order::{contains_text, texts_of};
use vstd::prelude::*;

verus! {

/// How many optional columns the message table has gained over time.
pub const OPTIONAL_COLUMNS: usize = 4;

/// Name of the `i`-th optional column of the message table.
pub open spec fn optional_column_spec(i: int) -> Seq<char> {
    if i == 0 {
        "input_type"@
    } else if i == 1 {
        "image_path"@
    } else if i == 2 {
        "image_filename"@
    } else {
        "image_size"@
    }
}

/// The `i`-th optional column is missing from a table with these columns.
pub open spec fn is_pending(existing: Seq<Seq<char>>, i: int) -> bool {
    !existing.contains(optional_column_spec(i))
}

/// Name of the `i`-th optional column.
pub fn optional_column(i: usize) -> (r: &'static str)
    requires
        i < OPTIONAL_COLUMNS,
    ensures
        r@ == optional_column_spec(i as int),
{
    if i == 0 {
        "input_type"
    } else if i == 1 {
        "image_path"
    } else if i == 2 {
        "image_filename"
    } else {
        "image_size"
    }
}

/// Type and default of the `i`-th optional column, as declared.
pub open spec fn column_decl_spec(i: int) -> Seq<char> {
    if i == 0 {
        " TEXT DEFAULT 'text'"@
    } else if i == 1 || i == 2 {
        " TEXT"@
    } else {
        " INTEGER"@
    }
}

/// The statement that adds the `i`-th optional column.
pub open spec fn add_column_spec(i: int) -> Seq<char> {
    "ALTER TABLE messages ADD COLUMN "@ + optional_column_spec(i) + column_decl_spec(i)
}

/// The optional columns from the `i`-th on that a table with these
/// columns lacks, in order.
pub open spec fn pending_from(existing: Seq<Seq<char>>, i: nat) -> Seq<usize>
    decreases OPTIONAL_COLUMNS - i,
{
    if i >= OPTIONAL_COLUMNS {
        Seq::empty()
    } else if is_pending(existing, i as int) {
        seq![i as usize] + pending_from(existing, i + 1)
    } else {
        pending_from(existing, i + 1)
    }
}

fn column_decl(i: usize) -> (r: &'static str)
    requires
        i < OPTIONAL_COLUMNS,
    ensures
        r@ == column_decl_spec(i as int),
{
    if i == 0 {
        " TEXT DEFAULT 'text'"
    } else if i == 1 || i == 2 {
        " TEXT"
    } else {
        " INTEGER"
    }
}

/// The statement that adds the `i`-th optional column.
pub fn add_column_statement(i: usize) -> (r: String)
    requires
        i < OPTIONAL_COLUMNS,
    ensures
        r@ == add_column_spec(i as int),
{
    String::from_str("ALTER TABLE messages ADD COLUMN ").concat(optional_column(i)).concat(
        column_decl(i),
    )
}

/// The statements that bring a message table with these columns up to
/// date: one per missing optional column, in order.
pub fn upgrade_statements(existing: &Vec<String>) -> (r: Vec<String>)
    ensures
        r@.len() == pending_from(texts_of(existing@), 0).len(),
        forall|k: int|
            0 <= k < r@.len() ==> (#[trigger] r@[k])@ == add_column_spec(
                pending_from(texts_of(existing@), 0)[k] as int,
            ),
{
    let pending = pending_columns(existing);
    let ghost p = pending_from(texts_of(existing@), 0);
    let mut r: Vec<String> = Vec::new();
    let mut k: usize = 0;
    while k < pending.len()
        invariant
            pending@ == p,
            k <= pending@.len(),
            r@.len() == k,
            forall|j: int| 0 <= j < pending@.len() ==> pending@[j] < OPTIONAL_COLUMNS,
            forall|j: int| 0 <= j < k ==> (#[trigger] r@[j])@ == add_column_spec(p[j] as int),
        decreases pending.len() - k,
    {
        r.push(add_column_statement(pending[k]));
        k = k + 1;
    }
    r
}

/// The optional columns, in order, that a table with these columns lacks.
pub fn pending_columns(existing: &Vec<String>) -> (r: Vec<usize>)
    ensures
        r@ == pending_from(texts_of(existing@), 0),
        forall|k: int| 0 <= k < r@.len() ==> r@[k] < OPTIONAL_COLUMNS,
        forall|k: int, l: int| 0 <= k < l < r@.len() ==> r@[k] < r@[l],
        forall|i: int|
            0 <= i < OPTIONAL_COLUMNS ==> (r@.contains(i as usize) <==> is_pending(
                texts_of(existing@),
                i,
            )),
{
    let mut r: Vec<usize> = Vec::new();
    let mut i: usize = 0;
    while i < OPTIONAL_COLUMNS
        invariant
            i <= OPTIONAL_COLUMNS,
            r@ + pending_from(texts_of(existing@), i as nat) == pending_from(texts_of(existing@), 0),
            forall|k: int| 0 <= k < r@.len() ==> r@[k] < i,
            forall|k: int, l: int| 0 <= k < l < r@.len() ==> r@[k] < r@[l],
            forall|j: int|
                0 <= j < i ==> (r@.contains(j as usize) <==> is_pending(texts_of(existing@), j)),
        decreases OPTIONAL_COLUMNS - i,
    {
        let present = contains_text(existing, optional_column(i));
        let ghost before = r@;
        if !present {
            r.push(i);
        }
        proof {
            assert(r@ + pending_from(texts_of(existing@), (i + 1) as nat) =~= before + pending_from(
                texts_of(existing@),
                i as nat,
            ));
            assert forall|j: int| 0 <= j < i + 1 implies (r@.contains(j as usize) <==> is_pending(
                texts_of(existing@),
                j,
            )) by {
                if j < i {
                    if before.contains(j as usize) {
                        let k = choose|k: int| 0 <= k < before.len() && before[k] == j as usize;
                        assert(r@[k] == j as usize);
                    }
                    if r@.contains(j as usize) {
                        let k = choose|k: int| 0 <= k < r@.len() && r@[k] == j as usize;
                        if k < before.len() {
                            assert(before[k] == j as usize);
                        }
                    }
                } else {
                    if !present {
                        assert(r@[r@.len() - 1] == i);
                    } else {
                        assert(r@ == before);
                    }
                }
            }
        }
        i = i + 1;
    }
    proof {
        assert(r@ + pending_from(texts_of(existing@), i as nat) =~= r@);
    }
    r
}

/// The columns of a table after the given optional columns were added.
pub open spec fn migrated(existing: Seq<Seq<char>>, added: Seq<usize>) -> Seq<Seq<char>> {
    existing + added.map_values(|c: usize| optional_column_spec(c as int))
}

/// Adding the missing optional columns leaves none missing: a second
/// opening of the same file plans no further change.
pub proof fn lemma_migration_idempotent(existing: Seq<Seq<char>>, added: Seq<usize>)
    requires
        forall|i: int|
            0 <= i < OPTIONAL_COLUMNS ==> (added.contains(i as usize) <==> is_pending(
                existing,
                i,
            )),
    ensures
        forall|i: int|
            0 <= i < OPTIONAL_COLUMNS ==> !#[trigger] is_pending(migrated(existing, added), i),
{
    let after = migrated(existing, added);
    assert forall|i: int| 0 <= i < OPTIONAL_COLUMNS implies !is_pending(after, i) by {
        if existing.contains(optional_column_spec(i)) {
            let j = choose|j: int| 0 <= j < existing.len() && existing[j] == optional_column_spec(i);
            assert(after[j] == optional_column_spec(i));
        } else {
            assert(is_pending(existing, i));
            assert(added.contains(i as usize));
            let k = choose|k: int| 0 <= k < added.len() && added[k] == i as usize;
            let names = added.map_values(|c: usize| optional_column_spec(c as int));
            assert(names[k] == optional_column_spec(i));
            assert(after[existing.len() + k] == names[k]);
        }
    }
}

} // verus!
