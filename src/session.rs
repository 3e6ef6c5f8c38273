//! The session strategy. A token is an opaque random key; it is valid while
//! exactly one stored session carries it. The store lookup itself happens
//! outside the library: what it found (the sessions joined with their
//! users) or that it failed is handed in here and judged.

use vstd::prelude::*;

use crate::gateway::{decision_of, Decision, Verdict};
use crate::model::{Principal, Session, User};
use crate::text::same_text;

verus! {

/// The backing store could not be consulted (unreachable, pool exhausted or
/// timed out).
#[derive(Clone, Copy, Debug, PartialEq, Eq)]
pub struct StoreUnavailable;

/// Whether a stored session, joined with a user, is the session of `key`
/// and belongs to that user.
pub open spec fn row_matches(row: (Session, User), key: Seq<char>) -> bool {
    row.0.key@ == key && row.0.user_id == row.1.id
}

/// How many rows are sessions of `key`.
pub open spec fn match_count(rows: Seq<(Session, User)>, key: Seq<char>) -> nat
    decreases rows.len(),
{
    if rows.len() == 0 {
        0
    } else {
        match_count(rows.drop_last(), key) + if row_matches(rows.last(), key) {
            1nat
        } else {
            0nat
        }
    }
}

/// The index of the last row that is a session of `key`, or -1.
pub open spec fn last_match(rows: Seq<(Session, User)>, key: Seq<char>) -> int
    decreases rows.len(),
{
    if rows.len() == 0 {
        -1
    } else if row_matches(rows.last(), key) {
        rows.len() - 1
    } else {
        last_match(rows.drop_last(), key)
    }
}

/// The principal of a user.
pub open spec fn user_principal(u: User) -> Principal {
    Principal { user_id: u.id, name: u.name }
}

/// What the session strategy says of `key`, given the store's answer: valid
/// exactly when one stored session carries the key, with the principal of
/// its user; a failed lookup is a store failure.
pub open spec fn session_verdict_of(
    lookup: Result<Seq<(Session, User)>, StoreUnavailable>,
    key: Seq<char>,
) -> Verdict {
    match lookup {
        Err(_) => Verdict::StoreFailure,
        Ok(rows) => if match_count(rows, key) == 1 {
            Verdict::Valid(user_principal(rows[last_match(rows, key)].1))
        } else {
            Verdict::Invalid
        },
    }
}

/// The store's answer as a sequence.
pub open spec fn lookup_view(lookup: Result<Vec<(Session, User)>, StoreUnavailable>) -> Result<
    Seq<(Session, User)>,
    StoreUnavailable,
> {
    match lookup {
        Ok(rows) => Ok(rows@),
        Err(e) => Err(e),
    }
}

proof fn lemma_last_match_in_range(rows: Seq<(Session, User)>, key: Seq<char>)
    ensures
        match_count(rows, key) > 0 ==> 0 <= last_match(rows, key) < rows.len() && row_matches(
            rows[last_match(rows, key)],
            key,
        ),
        match_count(rows, key) == 0 ==> last_match(rows, key) == -1,
    decreases rows.len(),
{
    if rows.len() > 0 {
        lemma_last_match_in_range(rows.drop_last(), key);
    }
}

/// Judges a session key from what the store found for it: valid with the
/// principal of the owning user when exactly one session carries the key,
/// invalid when none or several do, a store failure when the lookup failed.
pub fn session_verdict(lookup: &Result<Vec<(Session, User)>, StoreUnavailable>, key: &str) -> (r:
    Verdict)
    ensures
        r == session_verdict_of(lookup_view(*lookup), key@),
{
    let rows = match lookup {
        Err(_) => {
            return Verdict::StoreFailure;
        },
        Ok(rows) => rows,
    };
    let mut count: usize = 0;
    let mut found: usize = 0;
    let mut i: usize = 0;
    while i < rows.len()
        invariant
            i <= rows.len(),
            count == match_count(rows@.subrange(0, i as int), key@),
            count <= i,
            count > 0 ==> found == last_match(rows@.subrange(0, i as int), key@),
        decreases rows.len() - i,
    {
        let ghost before = rows@.subrange(0, i + 1);
        assert(before.drop_last() =~= rows@.subrange(0, i as int));
        assert(before.last() == rows@[i as int]);
        let row = &rows[i];
        if same_text(row.0.key.as_str(), key) && row.0.user_id == row.1.id {
            count = count + 1;
            found = i;
        }
        i = i + 1;
    }
    assert(rows@.subrange(0, rows@.len() as int) =~= rows@);
    if count == 1 {
        proof {
            lemma_last_match_in_range(rows@, key@);
        }
        let user = &rows[found].1;
        Verdict::Valid(Principal { user_id: user.id, name: user.name.clone() })
    } else {
        Verdict::Invalid
    }
}

/// The hexadecimal digit for a value below sixteen.
pub open spec fn hex_char(n: int) -> char {
    if n < 10 {
        (n + 48) as char
    } else {
        (n + 87) as char
    }
}

/// Lower-case hexadecimal text of a byte string, two digits per byte, high
/// digit first.
pub open spec fn hex_of(bytes: Seq<u8>) -> Seq<char>
    decreases bytes.len(),
{
    if bytes.len() == 0 {
        Seq::empty()
    } else {
        hex_of(bytes.drop_last()) + seq![
            hex_char(bytes.last() as int / 16),
            hex_char(bytes.last() as int % 16),
        ]
    }
}

/// The one-character text of a hexadecimal digit.
fn hex_digit(n: u8) -> (r: &'static str)
    requires
        n < 16,
    ensures
        r@ == seq![hex_char(n as int)],
{
    proof {
        reveal_strlit("0");
        reveal_strlit("1");
        reveal_strlit("2");
        reveal_strlit("3");
        reveal_strlit("4");
        reveal_strlit("5");
        reveal_strlit("6");
        reveal_strlit("7");
        reveal_strlit("8");
        reveal_strlit("9");
        reveal_strlit("a");
        reveal_strlit("b");
        reveal_strlit("c");
        reveal_strlit("d");
        reveal_strlit("e");
        reveal_strlit("f");
    }
    match n {
        0 => "0",
        1 => "1",
        2 => "2",
        3 => "3",
        4 => "4",
        5 => "5",
        6 => "6",
        7 => "7",
        8 => "8",
        9 => "9",
        10 => "a",
        11 => "b",
        12 => "c",
        13 => "d",
        14 => "e",
        _ => "f",
    }
}

/// Writes a byte string as lower-case hexadecimal text.
pub fn to_hex(bytes: &Vec<u8>) -> (r: String)
    ensures
        r@ == hex_of(bytes@),
{
    let mut out = String::new();
    let mut i: usize = 0;
    while i < bytes.len()
        invariant
            i <= bytes.len(),
            out@ == hex_of(bytes@.subrange(0, i as int)),
        decreases bytes.len() - i,
    {
        let ghost before = bytes@.subrange(0, i + 1);
        assert(before.drop_last() =~= bytes@.subrange(0, i as int));
        let b = bytes[i];
        out.append(hex_digit(b / 16));
        out.append(hex_digit(b % 16));
        assert(out@ =~= hex_of(before));
        i = i + 1;
    }
    assert(bytes@.subrange(0, bytes@.len() as int) =~= bytes@);
    out
}

/// How many random bytes a session key carries.
pub const SESSION_KEY_BYTES: usize = 32;

/// Relies on rand::random, drawing an array of bytes from the thread-local
/// cryptographically secure generator. Only the length is known.
#[verifier::external_body]
fn random_key_bytes() -> (r: Vec<u8>)
    ensures
        r@.len() == SESSION_KEY_BYTES,
{
    rand::random::<[u8; 32]>().to_vec()
}

/// A fresh session key: thirty-two random bytes written as sixty-four
/// hexadecimal digits. The caller stores it with the user's id.
pub fn new_session_key() -> (r: String)
    ensures
        exists|b: Seq<u8>| b.len() == SESSION_KEY_BYTES && r@ == hex_of(b),
{
    let bytes = random_key_bytes();
    to_hex(&bytes)
}

proof fn lemma_remove_row_count(rows: Seq<(Session, User)>, i: int, key: Seq<char>)
    requires
        0 <= i < rows.len(),
    ensures
        match_count(rows.remove(i), key) + (if row_matches(rows[i], key) {
            1nat
        } else {
            0nat
        }) == match_count(rows, key),
    decreases rows.len(),
{
    if i == rows.len() - 1 {
        assert(rows.remove(i) =~= rows.drop_last());
    } else {
        lemma_remove_row_count(rows.drop_last(), i, key);
        assert(rows.remove(i).drop_last() =~= rows.drop_last().remove(i));
        assert(rows.remove(i).last() == rows.last());
    }
}

/// Once the stored session of a key is deleted, the key no longer
/// validates: a store that held exactly one session for `key`, with the row
/// at `i` removed, makes `key` invalid on the next check.
pub proof fn lemma_deleted_session_invalid(rows: Seq<(Session, User)>, i: int, key: Seq<char>)
    requires
        0 <= i < rows.len(),
        match_count(rows, key) == 1,
        row_matches(rows[i], key),
    ensures
        session_verdict_of(Ok(rows.remove(i)), key) == Verdict::Invalid,
{
    lemma_remove_row_count(rows, i, key);
}

/// A request bearing a key that exactly one stored session carries is
/// admitted with exactly the principal of that session's user.
pub proof fn lemma_stored_session_admits(rows: Seq<(Session, User)>, i: int, key: Seq<char>)
    requires
        0 <= i < rows.len(),
        match_count(rows, key) == 1,
        row_matches(rows[i], key),
    ensures
        decision_of(session_verdict_of(Ok(rows), key)) == Decision::Admit(user_principal(rows[i].1)),
{
    lemma_last_match_in_range(rows, key);
    lemma_unique_match(rows, i, last_match(rows, key), key);
}

proof fn lemma_unique_match(rows: Seq<(Session, User)>, i: int, j: int, key: Seq<char>)
    requires
        0 <= i < rows.len(),
        0 <= j < rows.len(),
        match_count(rows, key) == 1,
        row_matches(rows[i], key),
        row_matches(rows[j], key),
    ensures
        i == j,
{
    if i != j {
        lemma_remove_row_count(rows, i, key);
        let rest = rows.remove(i);
        let jj = if j < i { j } else { j - 1 };
        assert(rest[jj] == rows[j]);
        lemma_remove_row_count(rest, jj, key);
    }
}

} // verus!
