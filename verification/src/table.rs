//! Rows that are told apart by a number or by a text, and the scans that
//! find one of them or check that no two agree.

use vstd::prelude::*;
use crate::text::same_text;

verus! {

/// A row with a numeric identity.
pub trait RowId: Sized {
    /// The number that identifies this row.
    spec fn row_id(&self) -> int;

    /// Reads the number that identifies this row.
    fn id_number(&self) -> (n: i64)
        ensures
            n == self.row_id(),
    ;
}

/// A row that carries a text no other row of its table may carry.
pub trait UniqueKey: Sized {
    /// The text that must be unique.
    spec fn unique_key(&self) -> Seq<char>;

    /// Borrows the text that must be unique.
    fn unique_text(&self) -> (k: &str)
        ensures
            k@ == self.unique_key(),
    ;
}

/// No two rows carry the same number.
pub open spec fn ids_distinct<T: RowId>(s: Seq<T>) -> bool {
    forall|i: int, j: int|
        0 <= i < j < s.len() ==> #[trigger] s[i].row_id() != #[trigger] s[j].row_id()
}

/// No two rows carry the same unique text.
pub open spec fn keys_distinct<T: UniqueKey>(s: Seq<T>) -> bool {
    forall|i: int, j: int|
        0 <= i < j < s.len() ==> #[trigger] s[i].unique_key() != #[trigger] s[j].unique_key()
}

/// Some row carries the number `id`.
pub open spec fn has_id<T: RowId>(s: Seq<T>, id: int) -> bool {
    exists|i: int| 0 <= i < s.len() && #[trigger] s[i].row_id() == id
}

/// Some row carries the unique text `key`.
pub open spec fn has_key<T: UniqueKey>(s: Seq<T>, key: Seq<char>) -> bool {
    exists|i: int| 0 <= i < s.len() && #[trigger] s[i].unique_key() == key
}

/// The row that carries the number `id`, if there is one.
pub open spec fn row_with_id<T: RowId>(s: Seq<T>, id: int) -> Option<T> {
    if has_id(s, id) {
        Some(s[choose|i: int| 0 <= i < s.len() && #[trigger] s[i].row_id() == id])
    } else {
        None
    }
}

/// The row that carries the unique text `key`, if there is one.
pub open spec fn row_with_key<T: UniqueKey>(s: Seq<T>, key: Seq<char>) -> Option<T> {
    if has_key(s, key) {
        Some(s[choose|i: int| 0 <= i < s.len() && #[trigger] s[i].unique_key() == key])
    } else {
        None
    }
}

/// Where numbers are distinct, a row that carries `id` is the row that
/// `row_with_id` names.
pub proof fn lemma_row_with_id<T: RowId>(s: Seq<T>, id: int, i: int)
    requires
        ids_distinct(s),
        0 <= i < s.len(),
        s[i].row_id() == id,
    ensures
        row_with_id(s, id) == Some(s[i]),
{
    let c = choose|k: int| 0 <= k < s.len() && #[trigger] s[k].row_id() == id;
    if c < i {
        assert(s[c].row_id() != s[i].row_id());
    } else if i < c {
        assert(s[i].row_id() != s[c].row_id());
    }
}

/// Where unique texts are distinct, a row that carries `key` is the row
/// that `row_with_key` names.
pub proof fn lemma_row_with_key<T: UniqueKey>(s: Seq<T>, key: Seq<char>, i: int)
    requires
        keys_distinct(s),
        0 <= i < s.len(),
        s[i].unique_key() == key,
    ensures
        row_with_key(s, key) == Some(s[i]),
{
    let c = choose|k: int| 0 <= k < s.len() && #[trigger] s[k].unique_key() == key;
    if c < i {
        assert(s[c].unique_key() != s[i].unique_key());
    } else if i < c {
        assert(s[i].unique_key() != s[c].unique_key());
    }
}

/// The position of the first row that carries the number `id`.
pub fn find_id<T: RowId>(rows: &Vec<T>, id: i64) -> (r: Option<usize>)
    ensures
        match r {
            Some(i) => {
                &&& i < rows.len()
                &&& rows[i as int].row_id() == id
                &&& forall|k: int| 0 <= k < i ==> #[trigger] rows[k].row_id() != id
            },
            None => !has_id(rows@, id as int),
        },
{
    let mut i: usize = 0;
    while i < rows.len()
        invariant
            0 <= i <= rows.len(),
            forall|k: int| 0 <= k < i ==> #[trigger] rows[k].row_id() != id,
        decreases rows.len() - i,
    {
        if rows[i].id_number() == id {
            return Some(i);
        }
        i += 1;
    }
    None
}

/// The position of the first row that carries the unique text `key`.
pub fn find_key<T: UniqueKey>(rows: &Vec<T>, key: &str) -> (r: Option<usize>)
    ensures
        match r {
            Some(i) => {
                &&& i < rows.len()
                &&& rows[i as int].unique_key() == key@
                &&& forall|k: int| 0 <= k < i ==> #[trigger] rows[k].unique_key() != key@
            },
            None => !has_key(rows@, key@),
        },
{
    let mut i: usize = 0;
    while i < rows.len()
        invariant
            0 <= i <= rows.len(),
            forall|k: int| 0 <= k < i ==> #[trigger] rows[k].unique_key() != key@,
        decreases rows.len() - i,
    {
        if same_text(rows[i].unique_text(), key) {
            return Some(i);
        }
        i += 1;
    }
    None
}

/// Decides `ids_distinct`.
pub fn check_ids_distinct<T: RowId>(rows: &Vec<T>) -> (ok: bool)
    ensures
        ok == ids_distinct(rows@),
{
    let mut j: usize = 0;
    while j < rows.len()
        invariant
            0 <= j <= rows.len(),
            forall|a: int, b: int|
                0 <= a < b < j ==> #[trigger] rows[a].row_id() != #[trigger] rows[b].row_id(),
        decreases rows.len() - j,
    {
        let id = rows[j].id_number();
        let mut i: usize = 0;
        while i < j
            invariant
                0 <= i <= j < rows.len(),
                id == rows[j as int].row_id(),
                forall|a: int| 0 <= a < i ==> #[trigger] rows[a].row_id() != id,
            decreases j - i,
        {
            if rows[i].id_number() == id {
                return false;
            }
            i += 1;
        }
        j += 1;
    }
    true
}

/// Decides `keys_distinct`.
pub fn check_keys_distinct<T: UniqueKey>(rows: &Vec<T>) -> (ok: bool)
    ensures
        ok == keys_distinct(rows@),
{
    let mut j: usize = 0;
    while j < rows.len()
        invariant
            0 <= j <= rows.len(),
            forall|a: int, b: int|
                0 <= a < b < j ==> #[trigger] rows[a].unique_key()
                    != #[trigger] rows[b].unique_key(),
        decreases rows.len() - j,
    {
        let mut i: usize = 0;
        while i < j
            invariant
                0 <= i <= j < rows.len(),
                forall|a: int|
                    0 <= a < i ==> #[trigger] rows[a].unique_key() != rows[j as int].unique_key(),
            decreases j - i,
        {
            if same_text(rows[i].unique_text(), rows[j].unique_text()) {
                return false;
            }
            i += 1;
        }
        j += 1;
    }
    true
}

} // verus!
