//! What readers accept, in whatever order and form it comes, and what they refuse.
use crate::cbor::fields::{
    blank, blank_table, body_at, codes_at, entries_at, field_at, header_at, headers_at,
    limited_text_at, list_end, map_at, texts_at, value_at, value_bytes, within, Field,
    Kind, Layout, Table, Value,
};
use crate::cbor::item::{
    head_at, head_bytes, head_round_trip, lemma_stands_at_split, stands_at, text_bytes,
    text_round_trip, uint_at, uint_bytes, uint_round_trip, MAP,
};
use crate::cbor::laws::{fits, lemma_prefix_stands, value_round_trip};
use crate::common::big_endian::{be_bytes, lemma_be_round_trip};
use crate::common::error::MessageError;
use vstd::prelude::*;
use vstd::utf8::encode_utf8;

verus! {

// ---- Integers of any width ----

/// The number of bytes that hold the argument of a head of this form.
spec fn width_of(info: u8) -> nat {
    if info == 24 {
        1
    } else if info == 25 {
        2
    } else if info == 26 {
        4
    } else {
        8
    }
}

/// An integer is read from any of the forms that can hold it, not only from the shortest: in
/// one, two, four or eight bytes behind a first byte that ends in 24, 25, 26 or 27.
pub proof fn wide_heads_are_read(major: u8, info: u8, n: nat, data: Seq<u8>, pos: int)
    requires
        major < 8,
        24 <= info < 28,
        info == 24 ==> n < 0x100,
        info == 25 ==> n < 0x1_0000,
        info == 26 ==> n < 0x1_0000_0000,
        n <= u64::MAX,
        stands_at(
            data,
            pos,
            seq![(32 * major + info) as u8] + be_bytes(
                n,
                if info == 24 {
                    1
                } else if info == 25 {
                    2
                } else if info == 26 {
                    4
                } else {
                    8
                },
            ),
        ),
    ensures
        head_at(major, data, pos) == Some(
            (
                n,
                pos + 1 + if info == 24 {
                    1int
                } else if info == 25 {
                    2
                } else if info == 26 {
                    4
                } else {
                    8
                },
            ),
        ),
{
    let width = width_of(info);
    crate::common::big_endian::lemma_byte_ranges();
    lemma_be_round_trip(n, width);
    let first = seq![(32 * major + info) as u8];
    lemma_stands_at_split(data, pos, first, be_bytes(n, width));
    assert(data[pos] == data.subrange(pos, pos + 1)[0]);
    assert(first[0] == 32 * major + info);
    assert(data[pos] / 32 == major && data[pos] % 32 == info) by {
        assert(data[pos] == 32 * major + info);
    }
}

// ---- What is accepted keeps to the limits ----

/// Whether a value that was read is of a kind and keeps to its limits.
pub open spec fn keeps_to(kind: Kind, value: Value) -> bool {
    match (kind, value) {
        (Kind::Uint { limit }, Value::Uint(n)) => n <= limit,
        (Kind::Code { allowed }, Value::Uint(n)) => n <= 255 && allowed.contains(n as u8),
        (Kind::Text { max }, Value::Text(text)) => within(max, encode_utf8(text).len()),
        (Kind::Blob { max }, Value::Blob(content)) => within(max, content.len()),
        (Kind::Content, Value::Blob(_)) => true,
        (Kind::Status, Value::Status(text)) => encode_utf8(text).len() <= 256,
        (Kind::Token, Value::Token(Some(text))) => encode_utf8(text).len() <= 256,
        (Kind::Token, Value::Token(None)) => true,
        (Kind::Codes { allowed, cap, .. }, Value::Codes(codes)) => codes.len() <= cap && forall|
            i: int,
        |
            0 <= i < codes.len() ==> allowed.contains(#[trigger] codes[i]),
        (Kind::Texts { max, cap, .. }, Value::Texts(texts)) => texts.len() <= cap && forall|i: int|
            0 <= i < texts.len() ==> within(max, encode_utf8(#[trigger] texts[i]).len()),
        (Kind::Headers { cap }, Value::Headers(headers)) => headers.len() <= cap && forall|i: int|
            0 <= i < headers.len() ==> encode_utf8((#[trigger] headers[i]).0).len() <= 256
                && encode_utf8(headers[i].1).len() <= 256,
        _ => false,
    }
}

/// Whether every value of a table keeps to its limits, and what is no list that grows is known
/// only from an entry.
pub open spec fn all_keep_to(fields: Seq<Field>, table: Table) -> bool {
    &&& table.len() == fields.len()
    &&& forall|i: int|
        0 <= i < fields.len() ==> match #[trigger] table[i] {
            Some(value) => keeps_to(fields[i].kind, value),
            None => true,
        }
}

proof fn lemma_codes_keep(
    allowed: Set<u8>,
    cap: nat,
    held: Seq<u8>,
    data: Seq<u8>,
    pos: int,
    left: Option<nat>,
)
    requires
        held.len() <= cap,
        forall|i: int| 0 <= i < held.len() ==> allowed.contains(#[trigger] held[i]),
    ensures
        codes_at(allowed, cap, held, data, pos, left) matches Ok((codes, _)) ==> codes.len() <= cap
            && forall|i: int| 0 <= i < codes.len() ==> allowed.contains(#[trigger] codes[i]),
    decreases cap - held.len(),
{
    reveal_with_fuel(codes_at, 1);
    if list_end(left, data, pos) is None {
        if let Some((code, next)) = uint_at(u8::MAX as nat, data, pos) {
            if allowed.contains(code as u8) && held.len() < cap {
                let more = held.push(code as u8);
                lemma_codes_keep(
                    allowed,
                    cap,
                    more,
                    data,
                    next,
                    crate::cbor::fields::one_less(left),
                );
            }
        }
    }
}

proof fn lemma_texts_keep(
    max: Option<nat>,
    cap: nat,
    held: Seq<Seq<char>>,
    data: Seq<u8>,
    pos: int,
    left: Option<nat>,
)
    requires
        held.len() <= cap,
        forall|i: int| 0 <= i < held.len() ==> within(max, encode_utf8(#[trigger] held[i]).len()),
    ensures
        texts_at(max, cap, held, data, pos, left) matches Ok((texts, _)) ==> texts.len() <= cap
            && forall|i: int|
            0 <= i < texts.len() ==> within(max, encode_utf8(#[trigger] texts[i]).len()),
    decreases cap - held.len(),
{
    reveal_with_fuel(texts_at, 1);
    if list_end(left, data, pos) is None {
        if let Ok((text, next)) = limited_text_at(max, data, pos) {
            if held.len() < cap {
                lemma_texts_keep(
                    max,
                    cap,
                    held.push(text),
                    data,
                    next,
                    crate::cbor::fields::one_less(left),
                );
            }
        }
    }
}

proof fn lemma_headers_keep(
    cap: nat,
    held: Seq<(Seq<char>, Seq<char>)>,
    data: Seq<u8>,
    pos: int,
    left: Option<nat>,
)
    requires
        held.len() <= cap,
        forall|i: int|
            0 <= i < held.len() ==> encode_utf8((#[trigger] held[i]).0).len() <= 256
                && encode_utf8(held[i].1).len() <= 256,
    ensures
        headers_at(cap, held, data, pos, left) matches Ok((headers, _)) ==> headers.len() <= cap
            && forall|i: int|
            0 <= i < headers.len() ==> encode_utf8((#[trigger] headers[i]).0).len() <= 256
                && encode_utf8(headers[i].1).len() <= 256,
    decreases cap - held.len(),
{
    reveal_with_fuel(headers_at, 1);
    if list_end(left, data, pos) is None {
        if let Ok((header, next)) = header_at(data, pos) {
            if held.len() < cap {
                lemma_headers_keep(
                    cap,
                    held.push(header),
                    data,
                    next,
                    crate::cbor::fields::one_less(left),
                );
            }
        }
    }
}

/// A value that is accepted keeps to the limits of its kind.
pub proof fn accepted_values_keep_to_limits(
    kind: Kind,
    entry: Option<Value>,
    data: Seq<u8>,
    pos: int,
)
    requires
        entry matches Some(value) ==> keeps_to(kind, value),
    ensures
        value_at(kind, entry, data, pos) matches Ok((value, _)) ==> keeps_to(kind, value),
{
    match kind {
        Kind::Codes { allowed, cap, grows } => {
            if let Some((left, next)) = crate::cbor::item::collection_at(
                crate::cbor::item::ARRAY,
                data,
                pos,
            ) {
                lemma_codes_keep(
                    allowed,
                    cap,
                    crate::cbor::fields::held_codes(entry, grows),
                    data,
                    next,
                    left,
                );
            }
        },
        Kind::Texts { max, cap, grows } => {
            if let Some((left, next)) = crate::cbor::item::collection_at(
                crate::cbor::item::ARRAY,
                data,
                pos,
            ) {
                lemma_texts_keep(
                    max,
                    cap,
                    crate::cbor::fields::held_texts(entry, grows),
                    data,
                    next,
                    left,
                );
            }
        },
        Kind::Headers { cap } => {
            if let Some((left, next)) = crate::cbor::item::collection_at(
                crate::cbor::item::ARRAY,
                data,
                pos,
            ) {
                lemma_headers_keep(
                    cap,
                    crate::cbor::fields::held_headers(entry),
                    data,
                    next,
                    left,
                );
            }
        },
        _ => {},
    }
}

proof fn lemma_entries_keep(fields: Seq<Field>, table: Table, data: Seq<u8>, pos: int, n: nat)
    requires
        all_keep_to(fields, table),
    ensures
        entries_at(fields, table, data, pos, n) matches Ok((after, _)) ==> all_keep_to(
            fields,
            after,
        ) && (forall|i: int|
            0 <= i < fields.len() && table[i] is Some ==> (#[trigger] after[i]) is Some),
    decreases n,
{
    reveal_with_fuel(entries_at, 1);
    if n > 0 {
        if let Some((key, value_pos)) = uint_at(u8::MAX as nat, data, pos) {
            if key < fields.len() {
                let k = key as int;
                accepted_values_keep_to_limits(fields[k].kind, table[k], data, value_pos);
                if let Ok((after, next)) = field_at(fields, table, key, data, value_pos) {
                    assert(all_keep_to(fields, after));
                    lemma_entries_keep(fields, after, data, next, (n - 1) as nat);
                }
            }
        }
    }
}

/// A body that is accepted holds a value for every required field and for every list that
/// grows, and every value keeps to its limits.
pub proof fn accepted_bodies_keep_to_limits(layout: Layout, data: Seq<u8>, pos: int)
    ensures
        body_at(layout, data, pos) matches Ok(table) ==> all_keep_to(layout.fields, table) && (
        forall|i: int|
            0 <= i < layout.fields.len() && (layout.fields[i].presence is Required
                || layout.fields[i].kind is Headers
                || layout.fields[i].kind matches Kind::Codes { grows: true, .. }) ==> (
            #[trigger] table[i]) is Some),
{
    let blanks = blank_table(layout.fields);
    assert(all_keep_to(layout.fields, blanks));
    if let Some((Some(n), next)) = crate::cbor::item::collection_at(MAP, data, pos) {
        lemma_entries_keep(layout.fields, blanks, data, next, n);
    }
}

// ---- What is refused ----

/// A key that no field has is refused.
pub proof fn unknown_keys_are_refused(
    fields: Seq<Field>,
    table: Table,
    key: nat,
    data: Seq<u8>,
    pos: int,
    n: nat,
)
    requires
        n > 0,
        fields.len() <= key <= 255,
        stands_at(data, pos, uint_bytes(key)),
    ensures
        entries_at(fields, table, data, pos, n) == Err::<(Table, int), MessageError>(
            MessageError::InvalidField,
        ),
{
    reveal_with_fuel(entries_at, 1);
    uint_round_trip(255, key, data, pos);
}

/// A map without a required field is refused.
pub proof fn missing_fields_are_refused(layout: Layout, data: Seq<u8>, pos: int, i: int)
    requires
        map_at(layout, data, pos) is Ok,
        0 <= i < layout.fields.len(),
        layout.fields[i].presence is Required,
        map_at(layout, data, pos)->Ok_0.0[i] is None,
    ensures
        body_at(layout, data, pos) == Err::<Table, MessageError>(MessageError::MissingField),
{
}

/// A map with a number of entries that the layout does not allow is refused, and so is one that
/// leaves the number open.
pub proof fn other_counts_are_refused(layout: Layout, n: nat, data: Seq<u8>, pos: int)
    requires
        n <= u64::MAX,
    ensures
        stands_at(data, pos, head_bytes(MAP, n)) && !(layout.min <= n <= layout.max) ==> body_at(
            layout,
            data,
            pos,
        ) == Err::<Table, MessageError>(layout.count_error),
        stands_at(data, pos, seq![0xbfu8]) ==> body_at(layout, data, pos) == Err::<
            Table,
            MessageError,
        >(layout.count_error),
{
    if stands_at(data, pos, head_bytes(MAP, n)) {
        head_round_trip(MAP, n, data, pos);
    }
    if stands_at(data, pos, seq![0xbfu8]) {
        assert(data[pos] == data.subrange(pos, pos + 1)[0]);
    }
}

/// A text that is longer than its kind allows is refused for that, and so is a number that is
/// no code.
pub proof fn values_beyond_limits_are_refused(
    kind: Kind,
    text: Seq<char>,
    n: nat,
    data: Seq<u8>,
    pos: int,
)
    requires
        encode_utf8(text).len() <= u64::MAX,
        n <= 255,
    ensures
        (kind matches Kind::Text { max: Some(max) } && encode_utf8(text).len() > max) && stands_at(
            data,
            pos,
            text_bytes(text),
        ) ==> value_at(kind, None, data, pos) == Err::<(Value, int), MessageError>(
            MessageError::FieldTooLong,
        ),
        (kind matches Kind::Code { allowed } && !allowed.contains(n as u8)) && stands_at(
            data,
            pos,
            uint_bytes(n),
        ) ==> value_at(kind, None, data, pos) == Err::<(Value, int), MessageError>(
            MessageError::InvalidField,
        ),
{
    if stands_at(data, pos, text_bytes(text)) {
        text_round_trip(text, data, pos);
    }
    if stands_at(data, pos, uint_bytes(n)) {
        uint_round_trip(255, n, data, pos);
    }
}

// ---- Entries in any order ----

/// Entries, one after the other: each a key and a value.
pub open spec fn entries_in_order(entries: Seq<(nat, Value)>) -> Seq<u8>
    decreases entries.len(),
{
    if entries.len() == 0 {
        Seq::empty()
    } else {
        entries_in_order(entries.drop_last()) + uint_bytes(entries.last().0) + value_bytes(
            entries.last().1,
        )
    }
}

/// What is known of the field `k` after entries: the value of the last one for it, or what was
/// known before any.
pub open spec fn last_entry_for(fields: Seq<Field>, entries: Seq<(nat, Value)>, k: int) -> Option<
    Value,
>
    decreases entries.len(),
{
    if entries.len() == 0 {
        blank(fields[k].kind)
    } else if entries.last().0 == k {
        Some(entries.last().1)
    } else {
        last_entry_for(fields, entries.drop_last(), k)
    }
}

/// Whether entries are some that fields may have: the keys are those of fields, the values fit,
/// and a list that grows comes once.
pub open spec fn are_entries(fields: Seq<Field>, entries: Seq<(nat, Value)>) -> bool {
    &&& fields.len() <= u8::MAX
    &&& forall|i: int|
        0 <= i < entries.len() ==> {
            &&& (#[trigger] entries[i]).0 < fields.len()
            &&& fits(fields[entries[i].0 as int].kind, entries[i].1)
        }
    &&& forall|i: int, j: int|
        0 <= i < j < entries.len() && (#[trigger] entries[i]).0 == (#[trigger] entries[j]).0
            ==> blank(fields[entries[i].0 as int].kind) is None
}

/// What a table holds after the first `k` entries.
spec fn table_after(fields: Seq<Field>, entries: Seq<(nat, Value)>) -> Table {
    Seq::new(fields.len(), |k: int| last_entry_for(fields, entries, k))
}

proof fn lemma_value_again(kind: Kind, entry: Option<Value>, data: Seq<u8>, pos: int)
    requires
        blank(kind) is None,
    ensures
        value_at(kind, entry, data, pos) == value_at(kind, None, data, pos),
{
    match kind {
        Kind::Codes { grows, .. } => {
            assert(!grows);
        },
        Kind::Texts { grows, .. } => {
            assert(!grows);
        },
        _ => {},
    }
}

proof fn lemma_untouched(fields: Seq<Field>, entries: Seq<(nat, Value)>, k: int)
    requires
        forall|i: int| 0 <= i < entries.len() ==> (#[trigger] entries[i]).0 != k,
    ensures
        last_entry_for(fields, entries, k) == blank(fields[k].kind),
    decreases entries.len(),
{
    if entries.len() > 0 {
        assert(entries[entries.len() - 1].0 != k);
        lemma_untouched(fields, entries.drop_last(), k);
    }
}

proof fn lemma_order_prefix(entries: Seq<(nat, Value)>, k: int)
    requires
        0 <= k <= entries.len(),
    ensures
        entries_in_order(entries.take(k)).is_prefix_of(entries_in_order(entries)),
    decreases entries.len(),
{
    if k == entries.len() {
        assert(entries.take(k) =~= entries);
    } else {
        lemma_order_prefix(entries.drop_last(), k);
        assert(entries.drop_last().take(k) =~= entries.take(k));
        let before = entries_in_order(entries.drop_last());
        assert(before.is_prefix_of(entries_in_order(entries)));
    }
}

proof fn lemma_read_in_order(
    fields: Seq<Field>,
    entries: Seq<(nat, Value)>,
    k: int,
    data: Seq<u8>,
    pos: int,
)
    requires
        are_entries(fields, entries),
        0 <= k <= entries.len(),
        stands_at(data, pos, entries_in_order(entries)),
    ensures
        entries_at(
            fields,
            table_after(fields, entries.take(k)),
            data,
            pos + entries_in_order(entries.take(k)).len(),
            (entries.len() - k) as nat,
        ) == Ok::<(Table, int), MessageError>(
            (table_after(fields, entries), pos + entries_in_order(entries).len()),
        ),
    decreases entries.len() - k,
{
    reveal_with_fuel(entries_at, 1);
    let done = entries.take(k);
    if k == entries.len() {
        assert(done =~= entries);
    } else {
        let more = entries.take(k + 1);
        let (key, value) = entries[k];
        let kind = fields[key as int].kind;
        assert(more.drop_last() =~= done);
        assert(more.last() == entries[k]);
        lemma_read_in_order(fields, entries, k + 1, data, pos);
        lemma_order_prefix(entries, k + 1);
        lemma_prefix_stands(data, pos, entries_in_order(entries), entries_in_order(more));
        let before = entries_in_order(done);
        lemma_stands_at_split(data, pos, before + uint_bytes(key), value_bytes(value));
        lemma_stands_at_split(data, pos, before, uint_bytes(key));
        let at = pos + before.len();
        uint_round_trip(255, key, data, at);
        let value_pos = at + uint_bytes(key).len();
        value_round_trip(kind, value, data, value_pos);
        let now = table_after(fields, done);
        if blank(kind) is None {
            lemma_value_again(kind, now[key as int], data, value_pos);
        } else {
            assert forall|i: int| 0 <= i < done.len() implies (#[trigger] done[i]).0 != key by {
                assert(entries[i] == done[i]);
                assert(entries[i].0 != entries[k].0);
            }
            lemma_untouched(fields, done, key as int);
        }
        assert(now.update(key as int, Some(value)) =~= table_after(fields, more));
    }
}

/// The entries of a body may come in any order, and an entry may come again: each field is what
/// its last entry says, wherever that stands, and what follows the map does not matter.
pub proof fn entries_may_come_in_any_order(
    layout: Layout,
    entries: Seq<(nat, Value)>,
    data: Seq<u8>,
    pos: int,
)
    requires
        are_entries(layout.fields, entries),
        layout.min <= entries.len() <= layout.max,
        entries.len() <= u64::MAX,
        stands_at(data, pos, head_bytes(MAP, entries.len()) + entries_in_order(entries)),
        forall|k: int|
            0 <= k < layout.fields.len() && (#[trigger] layout.fields[k]).presence is Required ==> (
            exists|i: int| 0 <= i < entries.len() && (#[trigger] entries[i]).0 == k),
    ensures
        body_at(layout, data, pos) matches Ok(table) && table.len() == layout.fields.len() && (
        forall|k: int|
            0 <= k < layout.fields.len() ==> #[trigger] table[k] == last_entry_for(
                layout.fields,
                entries,
                k,
            )),
{
    let fields = layout.fields;
    let head = head_bytes(MAP, entries.len());
    lemma_stands_at_split(data, pos, head, entries_in_order(entries));
    head_round_trip(MAP, entries.len(), data, pos);
    lemma_read_in_order(fields, entries, 0, data, pos + head.len());
    assert(entries.take(0) =~= Seq::empty());
    assert(table_after(fields, entries.take(0)) =~= blank_table(fields));
    let table = table_after(fields, entries);
    assert forall|k: int| 0 <= k < fields.len() && fields[k].presence is Required implies (
    #[trigger] table[k]) is Some by {
        assert(layout.fields[k].presence is Required);
        let i = choose|i: int| 0 <= i < entries.len() && (#[trigger] entries[i]).0 == k;
        lemma_touched(fields, entries, k, i);
    }
}

proof fn lemma_touched(fields: Seq<Field>, entries: Seq<(nat, Value)>, k: int, i: int)
    requires
        0 <= i < entries.len(),
        entries[i].0 == k,
    ensures
        last_entry_for(fields, entries, k) is Some,
    decreases entries.len(),
{
    if entries.last().0 != k {
        assert(entries.drop_last()[i] == entries[i]);
        lemma_touched(fields, entries.drop_last(), k, i);
    }
}

} // verus!
