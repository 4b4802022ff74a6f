//! Properties of the history that relate several operations.

use vstd::prelude::*;

use crate::classify::classification;
use crate::commands::{
    before_colon, colon_from, digit_value, digits_value, is_digit, list_line, lookup,
    parsed_index, query_index, unsigned_digits,
};
use crate::size::{decimal, digit_char};
use crate::store::{added, content_key, has_key, keys_unique, lemma_added_keys_unique, new_item, ItemView};
use crate::text::{is_white_space, trim_end, trim_start, trimmed};

verus! {

/// Adding the same payload a second time changes nothing: the history is the one that
/// the first add left, its keys stay unique, and where the first add succeeded or the
/// payload was already there, exactly one record carries the payload's key.
pub proof fn lemma_add_twice(entries: Seq<ItemView>, data: Seq<u8>)
    requires
        keys_unique(entries),
    ensures
        added(added(entries, data), data) == added(entries, data),
        keys_unique(added(entries, data)),
        classification(data) is Some || has_key(entries, content_key(data)) ==> has_key(
            added(entries, data),
            content_key(data),
        ),
{
    lemma_added_keys_unique(entries, data);
    let once = added(entries, data);
    if !has_key(entries, content_key(data)) && classification(data) is Some {
        assert(once[0] == new_item(data));
        assert(once[0].key == content_key(data));
    }
}

/// Adding three payloads with distinct new keys, each of which can be classified,
/// puts them in front in the reverse order of their adding: the last added first.
pub proof fn lemma_add_order(entries: Seq<ItemView>, a: Seq<u8>, b: Seq<u8>, c: Seq<u8>)
    requires
        keys_unique(entries),
        classification(a) is Some,
        classification(b) is Some,
        classification(c) is Some,
        content_key(a) != content_key(b),
        content_key(b) != content_key(c),
        content_key(a) != content_key(c),
        !has_key(entries, content_key(a)),
        !has_key(entries, content_key(b)),
        !has_key(entries, content_key(c)),
    ensures
        added(added(added(entries, a), b), c) == seq![new_item(c), new_item(b), new_item(a)]
            + entries,
{
    let e1 = added(entries, a);
    assert(e1 == seq![new_item(a)] + entries);
    if has_key(e1, content_key(b)) {
        let i = choose|i: int| 0 <= i < e1.len() && #[trigger] e1[i].key == content_key(b);
        if i > 0 {
            assert(entries[i - 1].key == content_key(b));
        }
    }
    let e2 = added(e1, b);
    assert(e2 == seq![new_item(b)] + e1);
    if has_key(e2, content_key(c)) {
        let i = choose|i: int| 0 <= i < e2.len() && #[trigger] e2[i].key == content_key(c);
        if i > 1 {
            assert(entries[i - 2].key == content_key(c));
        }
    }
    assert(added(e2, c) =~= seq![new_item(c), new_item(b), new_item(a)] + entries);
}

/// After a successful add of a payload whose key was new, the record at position 0
/// names the payload's blob by its key and carries the payload's classification; and
/// whatever was there before, some record carries the key.
pub proof fn lemma_added_item(entries: Seq<ItemView>, data: Seq<u8>)
    requires
        keys_unique(entries),
        classification(data) is Some,
    ensures
        has_key(added(entries, data), content_key(data)),
        !has_key(entries, content_key(data)) ==> {
            let c = classification(data)->Some_0;
            &&& added(entries, data)[0].key == content_key(data)
            &&& added(entries, data)[0].preview == c.0
            &&& added(entries, data)[0].mime == c.1
        },
{
    lemma_add_twice(entries, data);
}

/// A record stays with its payload across a later add: where position `i` holds the
/// record made for `data`, adding any payload keeps that record, at `i` or, where a new
/// record came in front, at `i + 1`.
pub proof fn lemma_record_kept_by_add(entries: Seq<ItemView>, data: Seq<u8>, i: int, other: Seq<u8>)
    requires
        0 <= i < entries.len(),
        entries[i] == new_item(data),
    ensures
        added(entries, other) == entries || added(entries, other)[i + 1] == new_item(data),
{
}

/// A record stays with its payload across the removal of another record: where position
/// `i` holds the record made for `data`, removing position `p` keeps it, at `i - 1` where
/// `p` came before it and at `i` where `p` came after.
pub proof fn lemma_record_kept_by_remove(entries: Seq<ItemView>, data: Seq<u8>, i: int, p: int)
    requires
        0 <= i < entries.len(),
        entries[i] == new_item(data),
        0 <= p < entries.len(),
        p != i,
    ensures
        p < i ==> entries.remove(p)[i - 1] == new_item(data),
        p > i ==> entries.remove(p)[i] == new_item(data),
{
}

/// Removing the record at `p` keeps the records before it in place, moves each one
/// after it one place forward, and leaves no record with the removed key.
pub proof fn lemma_remove_shifts(entries: Seq<ItemView>, p: int)
    requires
        keys_unique(entries),
        0 <= p < entries.len(),
    ensures
        entries.remove(p).len() == entries.len() - 1,
        forall|j: int| 0 <= j < p ==> #[trigger] entries.remove(p)[j] == entries[j],
        forall|j: int| p <= j < entries.len() - 1 ==> #[trigger] entries.remove(p)[j] == entries[j + 1],
        !has_key(entries.remove(p), entries[p].key),
        keys_unique(entries.remove(p)),
{
    let r = entries.remove(p);
    if has_key(r, entries[p].key) {
        let i = choose|i: int| 0 <= i < r.len() && #[trigger] r[i].key == entries[p].key;
        if i < p {
            assert(entries[i].key == entries[p].key);
        } else {
            assert(entries[i + 1].key == entries[p].key);
        }
    }
    assert forall|i: int, j: int|
        0 <= i < r.len() && 0 <= j < r.len() && #[trigger] r[i].key == #[trigger] r[j].key implies i
        == j by {
        let oi = if i < p { i } else { i + 1 };
        let oj = if j < p { j } else { j + 1 };
        assert(entries[oi].key == entries[oj].key);
    }
}

/// A cleared history refers to no blob, and a lookup in it finds no record.
pub proof fn lemma_cleared(key: Seq<char>, q: Seq<char>)
    ensures
        !has_key(Seq::<ItemView>::empty(), key),
        lookup(q, 0) is Ok ==> lookup(q, 0) == Ok::<Option<usize>, crate::commands::CommandError>(None),
{
}

proof fn lemma_digit_char(d: nat)
    requires
        d < 10,
    ensures
        is_digit(digit_char(d)),
        digit_value(digit_char(d)) == d,
        !is_white_space(digit_char(d)),
        digit_char(d) != ':',
        digit_char(d) != '+',
{
}

proof fn lemma_decimal_digits(n: nat)
    ensures
        decimal(n).len() > 0,
        forall|j: int| 0 <= j < decimal(n).len() ==> is_digit(#[trigger] decimal(n)[j]),
        forall|j: int|
            0 <= j < decimal(n).len() ==> !is_white_space(#[trigger] decimal(n)[j]) && decimal(
                n,
            )[j] != ':' && decimal(n)[j] != '+',
        digits_value(decimal(n)) == n,
    decreases n,
{
    lemma_digit_char(n % 10);
    if n >= 10 {
        lemma_decimal_digits(n / 10);
        let s = decimal(n);
        assert(s.drop_last() =~= decimal(n / 10));
        assert(s.last() == digit_char(n % 10));
        assert(digits_value(s) == digits_value(decimal(n / 10)) * 10 + digit_value(digit_char(n % 10)));
        assert((n / 10) * 10 + n % 10 == n) by (nonlinear_arith);
    } else {
        lemma_digit_char(n);
        let s = decimal(n);
        assert(s.drop_last() =~= Seq::<char>::empty());
        assert(digits_value(s) == digits_value(s.drop_last()) * 10 + digit_value(s.last()));
    }
}

proof fn lemma_colon_from(s: Seq<char>, i: int, k: int)
    requires
        0 <= i <= k <= s.len(),
        forall|j: int| i <= j < k ==> s[j] != ':',
        k == s.len() || s[k] == ':',
    ensures
        colon_from(s, i) == k,
    decreases k - i,
{
    if i < k {
        lemma_colon_from(s, i + 1, k);
    }
}

proof fn lemma_trim_digits(s: Seq<char>)
    requires
        s.len() > 0,
        forall|j: int| 0 <= j < s.len() ==> !is_white_space(#[trigger] s[j]),
    ensures
        trimmed(s) == s,
{
    assert(trim_start(s) == s);
    assert(trim_end(s) == s);
}

proof fn lemma_parse_decimal(n: nat)
    requires
        n <= usize::MAX,
    ensures
        trimmed(decimal(n)) == decimal(n),
        parsed_index(decimal(n)) == Some(n),
{
    lemma_decimal_digits(n);
    lemma_trim_digits(decimal(n));
    assert(unsigned_digits(decimal(n)) == decimal(n));
}

/// A position written in decimal, alone or as the start of a listed line (`3: text`),
/// reads back as that position: a line that `list_items` shows is a query for its record.
pub proof fn lemma_query_round_trip(i: nat, preview: Seq<char>)
    requires
        i <= usize::MAX,
    ensures
        query_index(decimal(i)) == Some(i),
        query_index(list_line(i, preview)) == Some(i),
{
    lemma_decimal_digits(i);
    lemma_parse_decimal(i);
    let d = decimal(i);
    lemma_colon_from(d, 0, d.len() as int);
    assert(before_colon(d) =~= d);
    let line = list_line(i, preview);
    reveal_strlit(": ");
    assert(line[d.len() as int] == ':');
    assert forall|j: int| 0 <= j < d.len() implies line[j] != ':' by {
        assert(line[j] == d[j]);
    }
    lemma_colon_from(line, 0, d.len() as int);
    assert(before_colon(line) =~= d);
}

/// Looking up the query that shows position `i` of a history of `len` records finds
/// that position.
pub proof fn lemma_lookup_listed(i: nat, len: nat, preview: Seq<char>)
    requires
        i < len,
        i <= usize::MAX,
    ensures
        lookup(list_line(i, preview), len) == Ok::<Option<usize>, crate::commands::CommandError>(
            Some(i as usize),
        ),
        lookup(decimal(i), len) == Ok::<Option<usize>, crate::commands::CommandError>(
            Some(i as usize),
        ),
{
    lemma_query_round_trip(i, preview);
    lemma_decimal_digits(i);
    assert(list_line(i, preview).len() > 0);
}

} // verus!
