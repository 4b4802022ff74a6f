//! The commands over a history: listing, storing, looking up, removing and clearing,
//! with the queries that name a position.
//!
//! Positions are zero-based, as the history stores them: position 0 is the newest
//! record, and `list_items` numbers its lines the same way.

use vstd::prelude::*;

use crate::classify::{classification, ClassifyError};
use crate::size::{decimal, decimal_string};
use crate::store::{added, content_key, has_key, AddOutcome, ClipboardItem, DataManager, StoreError};
use crate::text::{single_line, strip_newlines, trim_text, trimmed};

verus! {

/// Why a query names no position.
#[derive(Debug, Clone, Copy, PartialEq, Eq, Structural)]
pub enum QueryError {
    /// What precedes the first `:` is not an unsigned integer that fits in `usize`.
    NotAnIndex,
}

/// Why a command failed.
#[derive(Debug, Clone, Copy, PartialEq, Eq, Structural)]
pub enum CommandError {
    Query(QueryError),
    Store(StoreError),
}

/// The position of the first `:` of `s` at or after `i`, or the length of `s`.
pub open spec fn colon_from(s: Seq<char>, i: int) -> int
    decreases s.len() - i,
{
    if i >= s.len() {
        s.len() as int
    } else if s[i] == ':' {
        i
    } else {
        colon_from(s, i + 1)
    }
}

/// What precedes the first `:` of `s`; all of `s` if it has none.
pub open spec fn before_colon(s: Seq<char>) -> Seq<char> {
    s.take(colon_from(s, 0))
}

/// Whether `c` is an ASCII decimal digit.
pub open spec fn is_digit(c: char) -> bool {
    '0' <= c && c <= '9'
}

/// The value of the ASCII digit `c`.
pub open spec fn digit_value(c: char) -> nat {
    (c as u32 - '0' as u32) as nat
}

/// The value of a string of decimal digits.
pub open spec fn digits_value(s: Seq<char>) -> nat
    decreases s.len(),
{
    if s.len() == 0 {
        0
    } else {
        digits_value(s.drop_last()) * 10 + digit_value(s.last())
    }
}

/// `s` without one leading `+`.
pub open spec fn unsigned_digits(s: Seq<char>) -> Seq<char> {
    if s.len() > 0 && s[0] == '+' {
        s.drop_first()
    } else {
        s
    }
}

/// The `usize` that `s` spells: an optional `+`, then one or more decimal digits whose
/// value fits in `usize`.
pub open spec fn parsed_index(s: Seq<char>) -> Option<nat> {
    let d = unsigned_digits(s);
    if d.len() > 0 && (forall|i: int| 0 <= i < d.len() ==> is_digit(#[trigger] d[i]))
        && digits_value(d) <= usize::MAX {
        Some(digits_value(d))
    } else {
        None
    }
}

/// The position that a query names: what precedes its first `:`, trimmed, read as an
/// unsigned integer. What follows the `:` is a note for people and is not read.
pub open spec fn query_index(q: Seq<char>) -> Option<nat> {
    parsed_index(trimmed(before_colon(q)))
}

/// What a lookup by query gives in a history of `len` records: nothing for an empty
/// query, else the position it names where that position holds a record.
pub open spec fn lookup(q: Seq<char>, len: nat) -> Result<Option<usize>, CommandError> {
    if q.len() == 0 {
        Ok(None)
    } else {
        match query_index(q) {
            None => Err(CommandError::Query(QueryError::NotAnIndex)),
            Some(n) => if n < len {
                Ok(Some(n as usize))
            } else {
                Err(CommandError::Store(StoreError::InvalidPosition))
            },
        }
    }
}

/// The line that shows the record at position `i` with preview `preview`.
pub open spec fn list_line(i: nat, preview: Seq<char>) -> Seq<char> {
    decimal(i) + ": "@ + trimmed(strip_newlines(preview))
}

fn parse_unsigned(s: &str) -> (r: Option<usize>)
    ensures
        r matches Some(n) ==> parsed_index(s@) == Some(n as nat),
        r is None ==> parsed_index(s@) is None,
{
    let n = s.unicode_len();
    let mut i: usize = 0;
    if n > 0 && s.get_char(0) == '+' {
        i = 1;
    }
    let start = i;
    let ghost d = unsigned_digits(s@);
    assert(d =~= s@.subrange(start as int, n as int));
    if start == n {
        return None;
    }
    let mut acc: u128 = 0;
    let mut over = false;
    while i < n
        invariant
            n == s@.len(),
            start <= i <= n,
            d == s@.subrange(start as int, n as int),
            d == unsigned_digits(s@),
            forall|j: int| 0 <= j < i - start ==> is_digit(#[trigger] d[j]),
            !over ==> acc == digits_value(d.take(i - start)) && acc <= usize::MAX,
            over ==> digits_value(d.take(i - start)) > usize::MAX,
        decreases n - i,
    {
        let c = s.get_char(i);
        if c < '0' || c > '9' {
            assert(d[i - start] == c);
            return None;
        }
        let ghost k = i - start;
        assert(d.take(k + 1).drop_last() =~= d.take(k));
        assert(d.take(k + 1).last() == c);
        if !over {
            let v = acc * 10 + (c as u32 - '0' as u32) as u128;
            if v > usize::MAX as u128 {
                over = true;
            } else {
                acc = v;
            }
        }
        i = i + 1;
    }
    assert(d.take(n - start) =~= d);
    if over {
        None
    } else {
        Some(acc as usize)
    }
}

/// Reads the position that a query names, such as `2` or `2: a note`.
pub fn parse_query(query: &str) -> (r: Result<usize, QueryError>)
    ensures
        query_index(query@) matches Some(n) ==> r == Ok::<usize, QueryError>(n as usize),
        query_index(query@) is None ==> r == Err::<usize, QueryError>(QueryError::NotAnIndex),
{
    let n = query.unicode_len();
    let mut i: usize = 0;
    while i < n && query.get_char(i) != ':'
        invariant
            n == query@.len(),
            i <= n,
            colon_from(query@, i as int) == colon_from(query@, 0),
        decreases n - i,
    {
        i = i + 1;
    }
    let head = trim_text(query.substring_char(0, i));
    match parse_unsigned(head.as_str()) {
        Some(k) => Ok(k),
        None => Err(QueryError::NotAnIndex),
    }
}

/// The lines that list a history, one per record in order: its position, `: `, and
/// its preview on one line.
pub fn list_items(data_manager: &DataManager) -> (r: Vec<String>)
    ensures
        r@.len() == data_manager@.len(),
        forall|i: int|
            0 <= i < r@.len() ==> #[trigger] r@[i]@ == list_line(
                i as nat,
                data_manager@[i].preview,
            ),
{
    let n = data_manager.manifest_data.len();
    let mut lines: Vec<String> = Vec::new();
    let mut i: usize = 0;
    while i < n
        invariant
            n == data_manager@.len(),
            i <= n,
            lines@.len() == i,
            forall|j: int|
                0 <= j < i ==> #[trigger] lines@[j]@ == list_line(
                    j as nat,
                    data_manager@[j].preview,
                ),
        decreases n - i,
    {
        let mut line = decimal_string(i as u128);
        line.append(": ");
        line.append(single_line(data_manager.manifest_data[i].preview.as_str()).as_str());
        lines.push(line);
        i = i + 1;
    }
    lines
}

/// Adds a payload read for the `store` command.
pub fn store_item(data_manager: &mut DataManager, input: &[u8]) -> (r: Result<
    AddOutcome,
    StoreError,
>)
    requires
        old(data_manager).well_formed(),
    ensures
        final(data_manager).well_formed(),
        final(data_manager)@ == added(old(data_manager)@, input@),
        final(data_manager).data_folder == old(data_manager).data_folder,
        final(data_manager).manifest_file == old(data_manager).manifest_file,
        has_key(old(data_manager)@, content_key(input@)) ==> r == Ok::<AddOutcome, StoreError>(
            AddOutcome::Duplicate),
        !has_key(old(data_manager)@, content_key(input@)) && classification(input@) is Some ==> r
            == Ok::<AddOutcome, StoreError>(AddOutcome::Added),
        !has_key(old(data_manager)@, content_key(input@)) && classification(input@) is None ==> r
            == Err::<AddOutcome, StoreError>(StoreError::Classify(ClassifyError::ImageHeader)),
{
    data_manager.add_item(input)
}

/// Empties a history for the `clear` command.
pub fn clear_database(data_manager: &mut DataManager)
    ensures
        final(data_manager)@.len() == 0,
        final(data_manager).data_folder == old(data_manager).data_folder,
        final(data_manager).manifest_file == old(data_manager).manifest_file,
{
    data_manager.clear_db();
}

/// Looks up the record that a query names for the `get` command: `Ok(None)` for an
/// empty query, else its position.
pub fn get_item(data_manager: &DataManager, query: &str) -> (r: Result<Option<usize>, CommandError>)
    ensures
        r == lookup(query@, data_manager@.len()),
{
    if query.unicode_len() == 0 {
        return Ok(None);
    }
    match parse_query(query) {
        Err(e) => Err(CommandError::Query(e)),
        Ok(n) => if n < data_manager.manifest_data.len() {
            Ok(Some(n))
        } else {
            Err(CommandError::Store(StoreError::InvalidPosition))
        },
    }
}

/// Removes the record that a query names for the `remove` command and returns it; an
/// empty query, or one that names no record, changes nothing.
pub fn remove_item(data_manager: &mut DataManager, query: &str) -> (r: Result<
    Option<ClipboardItem>,
    CommandError,
>)
    requires
        old(data_manager).well_formed(),
    ensures
        final(data_manager).well_formed(),
        final(data_manager).data_folder == old(data_manager).data_folder,
        final(data_manager).manifest_file == old(data_manager).manifest_file,
        match lookup(query@, old(data_manager)@.len()) {
            Ok(Some(n)) => r matches Ok(Some(item)) && item@ == old(data_manager)@[n as int]
                && final(data_manager)@ == old(data_manager)@.remove(n as int),
            Ok(None) => r matches Ok(None) && final(data_manager)@ == old(data_manager)@,
            Err(e) => r == Err::<Option<ClipboardItem>, CommandError>(e) && final(data_manager)@
                == old(data_manager)@,
        },
{
    match get_item(data_manager, query) {
        Err(e) => Err(e),
        Ok(None) => Ok(None),
        Ok(Some(n)) => match data_manager.remove_item(n) {
            Ok(item) => Ok(Some(item)),
            Err(e) => Err(CommandError::Store(e)),
        },
    }
}

} // verus!
