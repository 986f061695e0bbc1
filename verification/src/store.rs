//! What the key store does with the values it reads and writes: every key
//! blob is sealed for its user before it is written, opened when it is read,
//! and plaintext rows from before sealing are sealed once at startup.

use vstd::prelude::*;

use crate::crypto::{sealed_means_v1_prefix, is_sealed_text, open_outcome, seal_fits, text_outcome, KeyCipher};

verus! {

/// The view of a row lookup outcome.
pub open spec fn row_outcome(r: Result<Option<String>, String>) -> Result<
    Option<Seq<char>>,
    Seq<char>,
> {
    match r {
        Ok(Some(s)) => Ok(Some(s@)),
        Ok(None) => Ok(None),
        Err(m) => Err(m@),
    }
}

/// The key blob held by a stored row for `user_id`: nothing when there is no
/// row, else the row opened for that user.
pub fn key_from_row(cipher: &KeyCipher, user_id: &str, row: Option<String>) -> (res: Result<
    Option<String>,
    String,
>)
    ensures
        match row {
            None => res matches Ok(None),
            Some(stored) => match open_outcome(cipher@, user_id@, stored@) {
                Ok(key) => res matches Ok(Some(k)) && k@ == key,
                Err(e) => res matches Err(m) && m@ == e,
            },
        },
{
    match row {
        None => Ok(None),
        Some(stored) => {
            let opened = cipher.open(user_id, stored.as_str());
            assert(text_outcome(opened) == open_outcome(cipher@, user_id@, stored@));
            match opened {
                Ok(key) => Ok(Some(key)),
                Err(e) => Err(e),
            }
        },
    }
}

/// What a stored row becomes when plaintext rows are sealed at startup:
/// nothing to do for a sealed row; a plaintext row is sealed for its user,
/// and opening the result gives the plaintext back.
pub fn migrated_value(cipher: &KeyCipher, user_id: &str, stored: &str) -> (res: Result<
    Option<String>,
    String,
>)
    ensures
        is_sealed_text(stored@) ==> res matches Ok(None),
        !is_sealed_text(stored@) ==> (res is Ok <==> seal_fits(user_id@, stored@)),
        !is_sealed_text(stored@) && seal_fits(user_id@, stored@) ==> res matches Ok(Some(_)),
        res matches Ok(None) ==> is_sealed_text(stored@),
        !(stored@.len() >= 3 && stored@[0] == 'v' && stored@[1] == '1' && stored@[2] == '|')
            && seal_fits(user_id@, stored@) ==> res matches Ok(Some(_)),
        res matches Ok(None) ==> (stored@.len() >= 3 && stored@[0] == 'v' && stored@[1] == '1'
            && stored@[2] == '|'),
        res matches Ok(Some(sealed)) ==> {
            &&& !is_sealed_text(stored@)
            &&& is_sealed_text(sealed@)
            &&& open_outcome(cipher@, user_id@, sealed@) == Ok::<Seq<char>, Seq<char>>(stored@)
        },
{
    if KeyCipher::is_sealed(stored) {
        return Ok(None);
    }
    match cipher.seal(user_id, stored) {
        Ok(sealed) => Ok(Some(sealed)),
        Err(e) => Err(e),
    }
}

/// A stored row: a user id and the value held for it.
#[derive(Debug, Clone, PartialEq, Eq)]
pub struct StoredRow {
    pub user_id: String,
    pub value: String,
}

/// `sealed` is the sealed form of `row`'s plaintext value: a sealed text that
/// opens, for the row's user, to what the row held.
#[verifier::opaque]
pub open spec fn seals_row(key: Seq<u8>, row: StoredRow, sealed: Seq<char>) -> bool {
    &&& !is_sealed_text(row.value@)
    &&& is_sealed_text(sealed)
    &&& open_outcome(key, row.user_id@, sealed) == Ok::<Seq<char>, Seq<char>>(row.value@)
}

/// The row can be migrated: it is sealed already, or its value can be sealed.
pub open spec fn row_migrates(row: StoredRow) -> bool {
    is_sealed_text(row.value@) || seal_fits(row.user_id@, row.value@)
}

/// A new value for the row at index `row` of a table.
#[derive(Debug, Clone, PartialEq, Eq)]
pub struct RowUpdate {
    pub row: usize,
    pub value: String,
}

/// The updates that seal the plaintext rows of a table at startup: exactly
/// one for each plaintext row, in table order, and none for the sealed rows.
/// After writing them every row opens to what it held before.
pub fn rows_to_seal(cipher: &KeyCipher, rows: &Vec<StoredRow>) -> (res: Result<
    Vec<RowUpdate>,
    String,
>)
    ensures
        res is Ok <==> forall|i: int| 0 <= i < rows@.len() ==> row_migrates(#[trigger] rows@[i]),
        res matches Ok(updates) ==> {
            &&& forall|j: int|
                0 <= j < updates@.len() ==> (#[trigger] updates@[j]).row < rows@.len() && seals_row(
                    cipher@,
                    rows@[updates@[j].row as int],
                    updates@[j].value@,
                )
            &&& forall|j: int, k: int|
                0 <= j < k < updates@.len() ==> (#[trigger] updates@[j]).row < (
                #[trigger] updates@[k]).row
            &&& forall|i: int|
                0 <= i < rows@.len() && !is_sealed_text(#[trigger] rows@[i].value@) ==> exists|
                    j: int,
                | 0 <= j < updates@.len() && (#[trigger] updates@[j]).row == i
            &&& forall|i: int|
                0 <= i < rows@.len() && !((#[trigger] rows@[i]).value@.len() >= 3
                    && rows@[i].value@[0] == 'v' && rows@[i].value@[1] == '1' && rows@[i].value@[2]
                    == '|') ==> exists|j: int| 0 <= j < updates@.len() && (#[trigger] updates@[j]).row == i
        },
{
    let mut updates: Vec<RowUpdate> = Vec::new();
    let mut i: usize = 0;
    while i < rows.len()
        invariant
            i <= rows@.len(),
            forall|j: int|
                0 <= j < updates@.len() ==> (#[trigger] updates@[j]).row < i && seals_row(
                    cipher@,
                    rows@[updates@[j].row as int],
                    updates@[j].value@,
                ),
            forall|j: int, k: int|
                0 <= j < k < updates@.len() ==> (#[trigger] updates@[j]).row < (
                #[trigger] updates@[k]).row,
            forall|k: int|
                0 <= k < i && !is_sealed_text(#[trigger] rows@[k].value@) ==> exists|j: int|
                    0 <= j < updates@.len() && (#[trigger] updates@[j]).row == k,
            forall|k: int| 0 <= k < i ==> row_migrates(#[trigger] rows@[k]),
        decreases rows@.len() - i,
    {
        let row = &rows[i];
        match migrated_value(cipher, row.user_id.as_str(), row.value.as_str()) {
            Ok(Some(sealed)) => {
                let ghost before = updates@;
                let update = RowUpdate { row: i, value: sealed };
                proof {
                    reveal(seals_row);
                    assert(seals_row(cipher@, rows@[i as int], update.value@));
                }
                updates.push(update);
                proof {
                    assert forall|j: int| 0 <= j < updates@.len() implies (#[trigger] updates@[
                        j]).row < i + 1 && seals_row(
                        cipher@,
                        rows@[updates@[j].row as int],
                        updates@[j].value@,
                    ) by {
                        if j < before.len() {
                            assert(updates@[j] == before[j]);
                        }
                    }
                    assert forall|k: int|
                        0 <= k < i + 1 && !is_sealed_text(#[trigger] rows@[k].value@) implies exists|
                            j: int,
                        | 0 <= j < updates@.len() && (#[trigger] updates@[j]).row == k by {
                        if k == i {
                            assert(updates@[updates@.len() - 1].row == k);
                        } else {
                            let j0 = choose|j: int| 0 <= j < before.len() && (#[trigger] before[j]).row == k;
                            assert(updates@[j0] == before[j0]);
                        }
                    }
                }
            },
            Ok(None) => {},
            Err(e) => {
                proof {
                    assert(!row_migrates(rows@[i as int]));
                }
                return Err(e);
            },
        }
        i = i + 1;
    }
    proof {
        assert forall|k: int|
            0 <= k < rows@.len() && !((#[trigger] rows@[k]).value@.len() >= 3 && rows@[k].value@[0]
                == 'v' && rows@[k].value@[1] == '1' && rows@[k].value@[2] == '|') implies exists|
            j: int,
        | 0 <= j < updates@.len() && (#[trigger] updates@[j]).row == k by {
            sealed_means_v1_prefix(rows@[k].value@);
            assert(!is_sealed_text(rows@[k].value@));
        }
    }
    Ok(updates)
}

} // verus!
