//! What is read of a body that was written: the same fields.
use crate::cbor::fields::{
    blank, blank_table, body_at, body_bytes, code_items, codes_at, entries_at, entries_bytes,
    entry_count, field_at, header_bytes, header_items, headers_at, is_written, map_at, text_items,
    text_limit, text_map_bytes, texts_at, value_at, value_bytes, within, Field, Kind, Layout,
    Table, Value, BREAK,
};
use crate::cbor::item::{
    blob_round_trip, head_bytes, head_round_trip, lemma_stands_at_split, stands_at, text_bytes,
    text_round_trip, uint_bytes, uint_round_trip, ARRAY, MAP,
};
use crate::cbor::reader::{body_of, message_at};
use crate::common::error::MessageError;
use crate::common::type_key::{type_key_bytes, type_key_round_trip};
use vstd::prelude::*;
use vstd::utf8::encode_utf8;

verus! {

/// Whether a text keeps to a limit and its length can be written down.
pub open spec fn text_fits(max: Option<nat>, text: Seq<char>) -> bool {
    within(max, encode_utf8(text).len()) && encode_utf8(text).len() <= u64::MAX
}

/// Whether a value is one that a field of this kind may have.
pub open spec fn fits(kind: Kind, value: Value) -> bool {
    match (kind, value) {
        (Kind::Uint { limit }, Value::Uint(n)) => n <= limit && n <= u64::MAX,
        (Kind::Code { allowed }, Value::Uint(n)) => n <= u8::MAX && allowed.contains(n as u8),
        (Kind::Text { max }, Value::Text(text)) => text_fits(max, text),
        (Kind::Blob { max }, Value::Blob(content)) => within(max, content.len()) && content.len()
            <= u64::MAX,
        (Kind::Content, Value::Blob(content)) => content.len() <= u64::MAX,
        (Kind::Status, Value::Status(text)) => text_fits(text_limit(), text),
        (Kind::Token, Value::Token(Some(text))) => text_fits(text_limit(), text),
        (Kind::Token, Value::Token(None)) => true,
        (Kind::Codes { allowed, cap, .. }, Value::Codes(codes)) => {
            &&& codes.len() <= cap
            &&& codes.len() <= u64::MAX
            &&& forall|i: int| 0 <= i < codes.len() ==> allowed.contains(#[trigger] codes[i])
        },
        (Kind::Texts { max, cap, .. }, Value::Texts(texts)) => {
            &&& texts.len() <= cap
            &&& texts.len() <= u64::MAX
            &&& forall|i: int| 0 <= i < texts.len() ==> text_fits(max, #[trigger] texts[i])
        },
        (Kind::Headers { cap }, Value::Headers(headers)) => {
            &&& headers.len() <= cap
            &&& headers.len() <= u64::MAX
            &&& forall|i: int|
                0 <= i < headers.len() ==> text_fits(text_limit(), (#[trigger] headers[i]).0)
                    && text_fits(text_limit(), headers[i].1)
        },
        _ => false,
    }
}

/// Whether a table holds what a message with these fields may hold: values that fit, an
/// absent value only where the field may be absent and is no list that grows.
pub open spec fn conforms(fields: Seq<Field>, table: Table) -> bool {
    &&& table.len() == fields.len()
    &&& fields.len() <= u8::MAX
    &&& forall|i: int|
        0 <= i < fields.len() ==> match #[trigger] table[i] {
            Some(value) => fits(fields[i].kind, value) && (fields[i].presence is NonEmpty ==> blank(
                fields[i].kind,
            ) is Some),
            None => !(fields[i].presence is Required) && blank(fields[i].kind) is None,
        }
}

pub proof fn lemma_prefix_stands(data: Seq<u8>, pos: int, whole: Seq<u8>, part: Seq<u8>)
    requires
        stands_at(data, pos, whole),
        part.is_prefix_of(whole),
    ensures
        stands_at(data, pos, part),
{
    let rest = whole.subrange(part.len() as int, whole.len() as int);
    assert(part + rest =~= whole);
    lemma_stands_at_split(data, pos, part, rest);
}

// ---- Lists ----

/// Whether a break stands at `pos`.
pub open spec fn is_break(data: Seq<u8>, pos: int) -> bool {
    0 <= pos < data.len() && data[pos] == BREAK
}

/// What is still to come of a list with `n` more items: that many if they are counted, or
/// all up to the break.
spec fn still_to_come(counted: bool, n: int) -> Option<nat> {
    if counted {
        Some(n as nat)
    } else {
        None
    }
}

/// The length of what ends a list.
spec fn end_len(counted: bool) -> int {
    if counted {
        0
    } else {
        1
    }
}

proof fn lemma_code_items_prefix(codes: Seq<u8>, k: int)
    requires
        0 <= k <= codes.len(),
    ensures
        code_items(codes.take(k)).is_prefix_of(code_items(codes)),
    decreases codes.len(),
{
    if k == codes.len() {
        assert(codes.take(k) =~= codes);
    } else {
        lemma_code_items_prefix(codes.drop_last(), k);
        assert(codes.drop_last().take(k) =~= codes.take(k));
    }
}

proof fn lemma_codes_from(
    allowed: Set<u8>,
    cap: nat,
    codes: Seq<u8>,
    k: int,
    counted: bool,
    data: Seq<u8>,
    pos: int,
)
    requires
        0 <= k <= codes.len() <= cap,
        forall|i: int| 0 <= i < codes.len() ==> allowed.contains(#[trigger] codes[i]),
        stands_at(data, pos, code_items(codes)),
        counted || is_break(data, pos + code_items(codes).len()),
    ensures
        codes_at(
            allowed,
            cap,
            codes.take(k),
            data,
            pos + code_items(codes.take(k)).len(),
            still_to_come(counted, codes.len() - k),
        ) == Ok::<(Seq<u8>, int), MessageError>((codes, pos + code_items(codes).len() + end_len(counted))),
    decreases codes.len() - k,
{
    reveal_with_fuel(codes_at, 1);
    if k == codes.len() {
        assert(codes.take(k) =~= codes);
    } else {
        lemma_codes_from(allowed, cap, codes, k + 1, counted, data, pos);
        lemma_code_items_prefix(codes, k + 1);
        let done = codes.take(k);
        let more = codes.take(k + 1);
        assert(more.drop_last() =~= done);
        assert(more =~= done.push(codes[k]));
        lemma_prefix_stands(data, pos, code_items(codes), code_items(more));
        lemma_stands_at_split(data, pos, code_items(done), uint_bytes(codes[k] as nat));
        uint_round_trip(
            u8::MAX as nat,
            codes[k] as nat,
            data,
            pos + code_items(done).len(),
        );
    }
}

proof fn lemma_text_items_prefix(texts: Seq<Seq<char>>, k: int)
    requires
        0 <= k <= texts.len(),
    ensures
        text_items(texts.take(k)).is_prefix_of(text_items(texts)),
    decreases texts.len(),
{
    if k == texts.len() {
        assert(texts.take(k) =~= texts);
    } else {
        lemma_text_items_prefix(texts.drop_last(), k);
        assert(texts.drop_last().take(k) =~= texts.take(k));
    }
}

proof fn lemma_texts_from(
    max: Option<nat>,
    cap: nat,
    texts: Seq<Seq<char>>,
    k: int,
    counted: bool,
    data: Seq<u8>,
    pos: int,
)
    requires
        0 <= k <= texts.len() <= cap,
        forall|i: int| 0 <= i < texts.len() ==> text_fits(max, #[trigger] texts[i]),
        stands_at(data, pos, text_items(texts)),
        counted || is_break(data, pos + text_items(texts).len()),
    ensures
        texts_at(
            max,
            cap,
            texts.take(k),
            data,
            pos + text_items(texts.take(k)).len(),
            still_to_come(counted, texts.len() - k),
        ) == Ok::<(Seq<Seq<char>>, int), MessageError>((texts, pos + text_items(texts).len() + end_len(counted))),
    decreases texts.len() - k,
{
    reveal_with_fuel(texts_at, 1);
    if k == texts.len() {
        assert(texts.take(k) =~= texts);
    } else {
        lemma_texts_from(max, cap, texts, k + 1, counted, data, pos);
        lemma_text_items_prefix(texts, k + 1);
        let done = texts.take(k);
        let more = texts.take(k + 1);
        assert(more.drop_last() =~= done);
        assert(more =~= done.push(texts[k]));
        lemma_prefix_stands(data, pos, text_items(texts), text_items(more));
        lemma_stands_at_split(data, pos, text_items(done), text_bytes(texts[k]));
        text_round_trip(texts[k], data, pos + text_items(done).len());
    }
}

proof fn lemma_header_items_prefix(headers: Seq<(Seq<char>, Seq<char>)>, k: int)
    requires
        0 <= k <= headers.len(),
    ensures
        header_items(headers.take(k)).is_prefix_of(header_items(headers)),
    decreases headers.len(),
{
    if k == headers.len() {
        assert(headers.take(k) =~= headers);
    } else {
        lemma_header_items_prefix(headers.drop_last(), k);
        assert(headers.drop_last().take(k) =~= headers.take(k));
    }
}

proof fn lemma_headers_from(
    cap: nat,
    headers: Seq<(Seq<char>, Seq<char>)>,
    k: int,
    counted: bool,
    data: Seq<u8>,
    pos: int,
)
    requires
        0 <= k <= headers.len() <= cap,
        forall|i: int|
            0 <= i < headers.len() ==> text_fits(text_limit(), (#[trigger] headers[i]).0)
                && text_fits(text_limit(), headers[i].1),
        stands_at(data, pos, header_items(headers)),
        counted || is_break(data, pos + header_items(headers).len()),
    ensures
        headers_at(
            cap,
            headers.take(k),
            data,
            pos + header_items(headers.take(k)).len(),
            still_to_come(counted, headers.len() - k),
        ) == Ok::<(Seq<(Seq<char>, Seq<char>)>, int), MessageError>(
            (headers, pos + header_items(headers).len() + end_len(counted)),
        ),
    decreases headers.len() - k,
{
    reveal_with_fuel(headers_at, 1);
    if k == headers.len() {
        assert(headers.take(k) =~= headers);
    } else {
        lemma_headers_from(cap, headers, k + 1, counted, data, pos);
        lemma_header_items_prefix(headers, k + 1);
        let done = headers.take(k);
        let more = headers.take(k + 1);
        let header = headers[k];
        assert(more.drop_last() =~= done);
        assert(more =~= done.push(header));
        lemma_prefix_stands(data, pos, header_items(headers), header_items(more));
        lemma_stands_at_split(data, pos, header_items(done), header_bytes(header));
        let at = pos + header_items(done).len();
        lemma_stands_at_split(
            data,
            at,
            head_bytes(ARRAY, 2) + text_bytes(header.0),
            text_bytes(header.1),
        );
        lemma_stands_at_split(data, at, head_bytes(ARRAY, 2), text_bytes(header.0));
        head_round_trip(ARRAY, 2, data, at);
        text_round_trip(header.0, data, at + head_bytes(ARRAY, 2).len());
        text_round_trip(
            header.1,
            data,
            at + head_bytes(ARRAY, 2).len() + text_bytes(header.0).len(),
        );
    }
}

// ---- Values ----

proof fn lemma_text_map(text: Seq<char>, data: Seq<u8>, pos: int)
    requires
        text_fits(text_limit(), text),
        stands_at(data, pos, text_map_bytes(text)),
    ensures
        crate::cbor::fields::status_at(data, pos) == Ok::<(Seq<char>, int), MessageError>(
            (text, pos + text_map_bytes(text).len()),
        ),
        crate::cbor::fields::token_at(data, pos) == Ok::<(Option<Seq<char>>, int), MessageError>(
            (Some(text), pos + text_map_bytes(text).len()),
        ),
{
    let head = head_bytes(MAP, 1);
    lemma_stands_at_split(data, pos, head + uint_bytes(0), text_bytes(text));
    lemma_stands_at_split(data, pos, head, uint_bytes(0));
    head_round_trip(MAP, 1, data, pos);
    uint_round_trip(u8::MAX as nat, 0, data, pos + head.len());
    text_round_trip(text, data, pos + head.len() + uint_bytes(0).len());
}

/// A value that fits is read back from wherever its bytes stand.
pub proof fn value_round_trip(kind: Kind, value: Value, data: Seq<u8>, pos: int)
    requires
        fits(kind, value),
        stands_at(data, pos, value_bytes(value)),
    ensures
        value_at(kind, blank(kind), data, pos) == Ok::<(Value, int), MessageError>(
            (value, pos + value_bytes(value).len()),
        ),
{
    match (kind, value) {
        (Kind::Uint { limit }, Value::Uint(n)) => {
            uint_round_trip(limit, n, data, pos);
        },
        (Kind::Code { allowed }, Value::Uint(n)) => {
            uint_round_trip(u8::MAX as nat, n, data, pos);
        },
        (Kind::Text { max }, Value::Text(text)) => {
            text_round_trip(text, data, pos);
        },
        (Kind::Blob { max }, Value::Blob(content)) => {
            blob_round_trip(content, data, pos);
        },
        (Kind::Content, Value::Blob(content)) => {
            blob_round_trip(content, data, pos);
        },
        (Kind::Status, Value::Status(text)) => {
            lemma_text_map(text, data, pos);
        },
        (Kind::Token, Value::Token(Some(text))) => {
            lemma_text_map(text, data, pos);
        },
        (Kind::Token, Value::Token(None)) => {
            head_round_trip(MAP, 0, data, pos);
        },
        (Kind::Codes { allowed, cap, grows }, Value::Codes(codes)) => {
            let head = head_bytes(ARRAY, codes.len());
            lemma_stands_at_split(data, pos, head, code_items(codes));
            head_round_trip(ARRAY, codes.len(), data, pos);
            lemma_codes_from(allowed, cap, codes, 0, true, data, pos + head.len());
            assert(codes.take(0) =~= Seq::empty());
        },
        (Kind::Texts { max, cap, grows }, Value::Texts(texts)) => {
            let head = head_bytes(ARRAY, texts.len());
            lemma_stands_at_split(data, pos, head, text_items(texts));
            head_round_trip(ARRAY, texts.len(), data, pos);
            lemma_texts_from(max, cap, texts, 0, true, data, pos + head.len());
            assert(texts.take(0) =~= Seq::empty());
        },
        (Kind::Headers { cap }, Value::Headers(headers)) => {
            let head = head_bytes(ARRAY, headers.len());
            lemma_stands_at_split(data, pos, head, header_items(headers));
            head_round_trip(ARRAY, headers.len(), data, pos);
            lemma_headers_from(cap, headers, 0, true, data, pos + head.len());
            assert(headers.take(0) =~= Seq::empty());
        },
        _ => {},
    }
}

/// Where bytes or a text may stand, the bytes of a text are read from it.
pub proof fn text_content_is_read(text: Seq<char>, data: Seq<u8>, pos: int)
    requires
        encode_utf8(text).len() <= u64::MAX,
        stands_at(data, pos, text_bytes(text)),
    ensures
        value_at(Kind::Content, None, data, pos) == Ok::<(Value, int), MessageError>(
            (Value::Blob(encode_utf8(text)), pos + text_bytes(text).len()),
        ),
{
    text_round_trip(text, data, pos);
}

/// The items of a list, one after the other.
pub open spec fn item_bytes(value: Value) -> Seq<u8> {
    match value {
        Value::Codes(codes) => code_items(codes),
        Value::Texts(texts) => text_items(texts),
        Value::Headers(headers) => header_items(headers),
        _ => Seq::empty(),
    }
}

/// A list that grows and fits is read in full, in order, from an array of indefinite length
/// too: a head that leaves the length open, the items, and a break.
pub proof fn open_list_is_read(kind: Kind, value: Value, data: Seq<u8>, pos: int)
    requires
        blank(kind) is Some,
        fits(kind, value),
        stands_at(
            data,
            pos,
            seq![(32 * ARRAY + 31) as u8] + item_bytes(value) + seq![BREAK],
        ),
    ensures
        value_at(kind, blank(kind), data, pos) == Ok::<(Value, int), MessageError>(
            (value, pos + item_bytes(value).len() + 2),
        ),
{
    let head = seq![(32 * ARRAY + 31) as u8];
    let items = item_bytes(value);
    lemma_stands_at_split(data, pos, head + items, seq![BREAK]);
    lemma_stands_at_split(data, pos, head, items);
    assert(data[pos] == data.subrange(pos, pos + 1)[0]);
    let end = pos + 1 + items.len();
    assert(data[end] == data.subrange(end, end + 1)[0]);
    match (kind, value) {
        (Kind::Codes { allowed, cap, .. }, Value::Codes(codes)) => {
            lemma_codes_from(allowed, cap, codes, 0, false, data, pos + 1);
            assert(codes.take(0) =~= Seq::empty());
        },
        (Kind::Texts { max, cap, .. }, Value::Texts(texts)) => {
            lemma_texts_from(max, cap, texts, 0, false, data, pos + 1);
            assert(texts.take(0) =~= Seq::empty());
        },
        (Kind::Headers { cap }, Value::Headers(headers)) => {
            lemma_headers_from(cap, headers, 0, false, data, pos + 1);
            assert(headers.take(0) =~= Seq::empty());
        },
        _ => {},
    }
}

// ---- Bodies ----

/// The table when the first `k` fields have been read.
spec fn partly_read(fields: Seq<Field>, table: Table, k: int) -> Table {
    Seq::new(
        fields.len(),
        |i: int|
            if i < k {
                table[i]
            } else {
                blank(fields[i].kind)
            },
    )
}

proof fn lemma_entries_prefix(start: Seq<u8>, fields: Seq<Field>, table: Table, j: nat, k: nat)
    requires
        j <= k,
    ensures
        entries_bytes(start, fields, table, j).is_prefix_of(
            entries_bytes(start, fields, table, k),
        ),
        entry_count(fields, table, j) <= entry_count(fields, table, k),
    decreases k,
{
    if j < k {
        lemma_entries_prefix(start, fields, table, j, (k - 1) as nat);
        let before = entries_bytes(start, fields, table, (k - 1) as nat);
        assert(before.is_prefix_of(entries_bytes(start, fields, table, k)));
    }
}

proof fn lemma_entries_from(
    start: Seq<u8>,
    fields: Seq<Field>,
    table: Table,
    k: nat,
    data: Seq<u8>,
    pos: int,
)
    requires
        conforms(fields, table),
        k <= fields.len(),
        stands_at(data, pos, entries_bytes(start, fields, table, fields.len())),
    ensures
        entries_at(
            fields,
            partly_read(fields, table, k as int),
            data,
            pos + entries_bytes(start, fields, table, k).len(),
            (entry_count(fields, table, fields.len()) - entry_count(fields, table, k)) as nat,
        ) == Ok::<(Table, int), MessageError>(
            (table, pos + entries_bytes(start, fields, table, fields.len()).len()),
        ),
    decreases fields.len() - k,
{
    reveal_with_fuel(entries_at, 1);
    let n = fields.len();
    if k == n {
        assert(partly_read(fields, table, k as int) =~= table);
    } else {
        let i = k as int;
        lemma_entries_from(start, fields, table, k + 1, data, pos);
        lemma_entries_prefix(start, fields, table, k + 1, n);
        let before = entries_bytes(start, fields, table, k);
        let now = partly_read(fields, table, i);
        let then_table = partly_read(fields, table, i + 1);
        if is_written(fields[i], table[i]) {
            let value = table[i]->0;
            let with = entries_bytes(start, fields, table, k + 1);
            lemma_prefix_stands(data, pos, entries_bytes(start, fields, table, n), with);
            lemma_stands_at_split(data, pos, before + uint_bytes(k), value_bytes(value));
            lemma_stands_at_split(data, pos, before, uint_bytes(k));
            let at = pos + before.len();
            uint_round_trip(u8::MAX as nat, k, data, at);
            value_round_trip(fields[i].kind, value, data, at + uint_bytes(k).len());
            assert(now.update(i, Some(value)) =~= then_table);
        } else {
            assert(table[i] == blank(fields[i].kind)) by {
                if let Some(value) = table[i] {
                    match value {
                        Value::Codes(codes) => {
                            assert(codes =~= Seq::empty());
                        },
                        Value::Texts(texts) => {
                            assert(texts =~= Seq::empty());
                        },
                        Value::Headers(headers) => {
                            assert(headers =~= Seq::empty());
                        },
                        _ => {},
                    }
                }
            }
            assert(now =~= then_table);
        }
    }
}

/// The fields of a body are read back from wherever its bytes stand, whatever follows
/// them.
pub proof fn body_round_trip(layout: Layout, table: Table, data: Seq<u8>, pos: int)
    requires
        conforms(layout.fields, table),
        layout.min <= entry_count(layout.fields, table, layout.fields.len()) <= layout.max,
        stands_at(data, pos, body_bytes(layout.fields, table)),
    ensures
        map_at(layout, data, pos) == Ok::<(Table, int), MessageError>(
            (table, pos + body_bytes(layout.fields, table).len()),
        ),
        body_at(layout, data, pos) == Ok::<Table, MessageError>(table),
{
    let fields = layout.fields;
    let n = fields.len();
    let count = entry_count(fields, table, n);
    let head = head_bytes(MAP, count);
    lemma_entry_count_bound(fields, table, n);
    lemma_entries_from(head, fields, table, 0, data, pos);
    lemma_entries_prefix(head, fields, table, 0, n);
    lemma_prefix_stands(data, pos, body_bytes(fields, table), head);
    head_round_trip(MAP, count, data, pos);
    assert(partly_read(fields, table, 0) =~= blank_table(fields));
}

/// Entries are read up to one whose value is refused.
proof fn lemma_entries_refused(
    start: Seq<u8>,
    fields: Seq<Field>,
    table: Table,
    k: nat,
    refused: nat,
    error: MessageError,
    data: Seq<u8>,
    pos: int,
)
    requires
        table.len() == fields.len() <= u8::MAX,
        k <= refused < fields.len(),
        forall|i: int|
            0 <= i < refused ==> (#[trigger] table[i]) is Some && fits(fields[i].kind, table[i]->0)
                && fields[i].presence is Required,
        is_written(fields[refused as int], table[refused as int]),
        stands_at(data, pos, entries_bytes(start, fields, table, refused + 1)),
        value_at(
            fields[refused as int].kind,
            blank(fields[refused as int].kind),
            data,
            pos + entries_bytes(start, fields, table, refused).len() + uint_bytes(refused).len(),
        ) == Err::<(Value, int), MessageError>(error),
    ensures
        forall|n: nat|
            n > refused - k ==> #[trigger] entries_at(
                fields,
                partly_read(fields, table, k as int),
                data,
                pos + entries_bytes(start, fields, table, k).len(),
                n,
            ) == Err::<(Table, int), MessageError>(error),
    decreases refused - k,
{
    let i = k as int;
    let value = table[i]->0;
    let before = entries_bytes(start, fields, table, k);
    let with = entries_bytes(start, fields, table, k + 1);
    let at = pos + before.len();
    lemma_entries_prefix(start, fields, table, k + 1, refused + 1);
    lemma_prefix_stands(data, pos, entries_bytes(start, fields, table, refused + 1), with);
    lemma_stands_at_split(data, pos, before + uint_bytes(k), value_bytes(value));
    lemma_stands_at_split(data, pos, before, uint_bytes(k));
    uint_round_trip(u8::MAX as nat, k, data, at);
    let now = partly_read(fields, table, i);
    if k < refused {
        lemma_entries_refused(start, fields, table, k + 1, refused, error, data, pos);
        value_round_trip(fields[i].kind, value, data, at + uint_bytes(k).len());
        assert(now.update(i, Some(value)) =~= partly_read(fields, table, i + 1));
    }
    assert forall|n: nat| n > refused - k implies #[trigger] entries_at(fields, now, data, at, n)
        == Err::<(Table, int), MessageError>(error) by {
        reveal_with_fuel(entries_at, 1);
        if k < refused {
            let then_table = partly_read(fields, table, (k + 1) as int);
            assert(field_at(fields, now, k, data, at + uint_bytes(k).len()) == Ok::<
                (Table, int),
                MessageError,
            >((then_table, pos + with.len())));
            assert(entries_at(fields, then_table, data, pos + with.len(), (n - 1) as nat) == Err::<
                (Table, int),
                MessageError,
            >(error));
        }
    }
}

/// A body with a value that is refused is refused with the same error, whatever follows. The
/// fields before that value are required ones whose values fit.
pub proof fn body_refused(
    layout: Layout,
    table: Table,
    refused: nat,
    error: MessageError,
    data: Seq<u8>,
    pos: int,
)
    requires
        table.len() == layout.fields.len() <= u8::MAX,
        refused < layout.fields.len(),
        forall|i: int|
            0 <= i < refused ==> (#[trigger] table[i]) is Some && fits(
                layout.fields[i].kind,
                table[i]->0,
            ) && layout.fields[i].presence is Required,
        is_written(layout.fields[refused as int], table[refused as int]),
        layout.min <= entry_count(layout.fields, table, layout.fields.len()) <= layout.max,
        stands_at(data, pos, body_bytes(layout.fields, table)),
        value_at(
            layout.fields[refused as int].kind,
            blank(layout.fields[refused as int].kind),
            data,
            pos + entries_bytes(
                head_bytes(MAP, entry_count(layout.fields, table, layout.fields.len())),
                layout.fields,
                table,
                refused,
            ).len() + uint_bytes(refused).len(),
        ) == Err::<(Value, int), MessageError>(error),
    ensures
        body_at(layout, data, pos) == Err::<Table, MessageError>(error),
{
    let fields = layout.fields;
    let n = fields.len();
    let count = entry_count(fields, table, n);
    let head = head_bytes(MAP, count);
    lemma_entry_count_bound(fields, table, n);
    lemma_entry_count_least(fields, table, refused + 1, n);
    lemma_entries_prefix(head, fields, table, refused + 1, n);
    lemma_prefix_stands(
        data,
        pos,
        body_bytes(fields, table),
        entries_bytes(head, fields, table, refused + 1),
    );
    lemma_entries_refused(head, fields, table, 0, refused, error, data, pos);
    lemma_entries_prefix(head, fields, table, 0, n);
    lemma_prefix_stands(data, pos, body_bytes(fields, table), head);
    head_round_trip(MAP, count, data, pos);
    assert(partly_read(fields, table, 0) =~= blank_table(fields));
}

/// Where the first `k` fields are written, there are at least that many entries.
proof fn lemma_entry_count_least(fields: Seq<Field>, table: Table, k: nat, n: nat)
    requires
        k <= n,
        forall|i: int| 0 <= i < k ==> #[trigger] is_written(fields[i], table[i]),
    ensures
        entry_count(fields, table, n) >= k,
    decreases n,
{
    if n > 0 {
        lemma_entry_count_least(
            fields,
            table,
            if k < n {
                k
            } else {
                (n - 1) as nat
            },
            (n - 1) as nat,
        );
        if k == n {
            assert(is_written(fields[n - 1], table[n - 1]));
        }
    }
}

proof fn lemma_entry_count_bound(fields: Seq<Field>, table: Table, k: nat)
    ensures
        entry_count(fields, table, k) <= k,
    decreases k,
{
    if k > 0 {
        lemma_entry_count_bound(fields, table, (k - 1) as nat);
    }
}

/// Entries do not depend on what they follow.
pub proof fn lemma_entries_start(
    before: Seq<u8>,
    start: Seq<u8>,
    fields: Seq<Field>,
    table: Table,
    k: nat,
)
    ensures
        entries_bytes(before + start, fields, table, k) == before + entries_bytes(
            start,
            fields,
            table,
            k,
        ),
    decreases k,
{
    if k > 0 {
        lemma_entries_start(before, start, fields, table, (k - 1) as nat);
        assert(entries_bytes(before + start, fields, table, k) =~= before + entries_bytes(
            start,
            fields,
            table,
            k,
        ));
    }
}

/// Whether these bytes are read as a message with this type key whose fields are those of
/// `table`.
pub open spec fn reads_as(type_key: u16, layout: Layout, table: Table, bytes: Seq<u8>) -> bool {
    message_at(type_key, layout, bytes) == Ok::<Table, MessageError>(table)
}

/// Whether this body is read as one whose fields are those of `table`.
pub open spec fn body_reads_as(layout: Layout, table: Table, body: Seq<u8>) -> bool {
    body_at(layout, body, 0) == Ok::<Table, MessageError>(table)
}

/// A message is read back from its type key and its body, whatever follows them.
pub proof fn message_round_trip(
    type_key: u16,
    layout: Layout,
    table: Table,
    body: Seq<u8>,
    rest: Seq<u8>,
)
    requires
        conforms(layout.fields, table),
        layout.min <= entry_count(layout.fields, table, layout.fields.len()) <= layout.max,
        body == body_bytes(layout.fields, table),
    ensures
        reads_as(type_key, layout, table, type_key_bytes(type_key) + body + rest),
        body_reads_as(layout, table, body + rest),
{
    lemma_body_of(type_key, body, rest);
    assert((body + rest).subrange(0, body.len() as int) =~= body);
    body_round_trip(layout, table, body + rest, 0);
}

/// What follows the type key of a message is its body.
pub proof fn lemma_body_of(type_key: u16, body: Seq<u8>, rest: Seq<u8>)
    ensures
        body_of(type_key, type_key_bytes(type_key) + body + rest) == Ok::<Seq<u8>, MessageError>(
            body + rest,
        ),
{
    let key = type_key_bytes(type_key);
    type_key_round_trip(type_key, body + rest);
    assert(key + body + rest =~= key + (body + rest));
    assert((key + (body + rest)).skip(key.len() as int) =~= body + rest);
}

} // verus!
