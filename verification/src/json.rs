//! The crate's model of wire JSON values. Daemon lines and request bodies are
//! parsed into [`Json`]; outbound envelopes and reply bodies are rendered from
//! it. Numbers keep their wire lexeme (this bridge never does arithmetic on
//! them), strings are decoded bytes, and objects keep their entries in wire
//! order, with the last entry winning on duplicate keys, as the upstream
//! parser's map insertion does.
use vstd::prelude::*;

use crate::util::{ascii, is_digit, lit, parsed_u64, skip_ws};

verus! {

/// A JSON value as carried on the wire.
#[derive(Debug)]
pub enum Json {
    Null,
    Boolean(bool),
    /// A number, kept as its wire lexeme.
    Num(Vec<u8>),
    /// A string, as decoded bytes.
    Text(Vec<u8>),
    Arr(Vec<Json>),
    Obj(Vec<(Vec<u8>, Json)>),
}

/// The mathematical shape of a [`Json`] value, used by every contract.
#[verifier::ext_equal]
pub enum JsonModel {
    Null,
    Boolean(bool),
    Num(Seq<u8>),
    Text(Seq<u8>),
    Arr(Seq<JsonModel>),
    Obj(Seq<(Seq<u8>, JsonModel)>),
}

impl Json {
    /// The model of this value.
    pub open spec fn deep(self) -> JsonModel
        decreases self,
    {
        match self {
            Json::Null => JsonModel::Null,
            Json::Boolean(b) => JsonModel::Boolean(b),
            Json::Num(s) => JsonModel::Num(s@),
            Json::Text(s) => JsonModel::Text(s@),
            Json::Arr(items) => JsonModel::Arr(deep_list(items@)),
            Json::Obj(entries) => JsonModel::Obj(deep_entries(entries@)),
        }
    }
}

/// Models of a sequence of values.
pub open spec fn deep_list(items: Seq<Json>) -> Seq<JsonModel>
    decreases items,
{
    if items.len() == 0 {
        Seq::empty()
    } else {
        seq![items[0].deep()] + deep_list(items.drop_first())
    }
}

/// Models of a sequence of object entries.
pub open spec fn deep_entries(entries: Seq<(Vec<u8>, Json)>) -> Seq<(Seq<u8>, JsonModel)>
    decreases entries,
{
    if entries.len() == 0 {
        Seq::empty()
    } else {
        seq![(entries[0].0@, entries[0].1.deep())] + deep_entries(entries.drop_first())
    }
}

pub proof fn lemma_deep_list_props(items: Seq<Json>)
    ensures
        deep_list(items).len() == items.len(),
        forall|i: int| 0 <= i < items.len() ==> deep_list(items)[i] == #[trigger] items[i].deep(),
    decreases items.len(),
{
    if items.len() > 0 {
        lemma_deep_list_props(items.drop_first());
        assert forall|i: int| 0 <= i < items.len() implies deep_list(items)[i]
            == #[trigger] items[i].deep() by {
            if i > 0 {
                assert(items.drop_first()[i - 1] == items[i]);
                assert(deep_list(items)[i] == deep_list(items.drop_first())[i - 1]);
            }
        }
    }
}

pub proof fn lemma_deep_entries_props(entries: Seq<(Vec<u8>, Json)>)
    ensures
        deep_entries(entries).len() == entries.len(),
        forall|i: int|
            0 <= i < entries.len() ==> deep_entries(entries)[i] == (
            #[trigger] entries[i].0@,
            entries[i].1.deep(),
            ),
    decreases entries.len(),
{
    if entries.len() > 0 {
        lemma_deep_entries_props(entries.drop_first());
        assert forall|i: int| 0 <= i < entries.len() implies deep_entries(entries)[i] == (
        #[trigger] entries[i].0@,
        entries[i].1.deep(),
        ) by {
            if i > 0 {
                assert(entries.drop_first()[i - 1] == entries[i]);
                assert(deep_entries(entries)[i] == deep_entries(entries.drop_first())[i - 1]);
            }
        }
    }
}

pub proof fn lemma_deep_list_push(items: Seq<Json>, x: Json)
    ensures
        deep_list(items.push(x)) == deep_list(items).push(x.deep()),
    decreases items.len(),
{
    if items.len() == 0 {
        assert(items.push(x).drop_first() =~= Seq::<Json>::empty());
        assert(items.push(x)[0] == x);
        assert(deep_list(items.push(x)) == seq![x.deep()] + deep_list(items.push(x).drop_first()));
        assert(deep_list(items) == Seq::<JsonModel>::empty());
        assert(deep_list(items.push(x)) =~= deep_list(items).push(x.deep()));
    } else {
        lemma_deep_list_push(items.drop_first(), x);
        assert(items.push(x).drop_first() =~= items.drop_first().push(x));
        assert(items.push(x)[0] == items[0]);
        assert(deep_list(items.push(x)) == seq![items[0].deep()] + deep_list(
            items.drop_first(),
        ).push(x.deep()));
        assert(deep_list(items) == seq![items[0].deep()] + deep_list(items.drop_first()));
        assert(seq![items[0].deep()] + deep_list(items.drop_first()).push(x.deep()) =~= (
        seq![items[0].deep()] + deep_list(items.drop_first())).push(x.deep()));
        assert(deep_list(items.push(x)) =~= deep_list(items).push(x.deep()));
    }
}

pub proof fn lemma_deep_entries_push(entries: Seq<(Vec<u8>, Json)>, k: Vec<u8>, v: Json)
    ensures
        deep_entries(entries.push((k, v))) == deep_entries(entries).push((k@, v.deep())),
    decreases entries.len(),
{
    if entries.len() == 0 {
        assert(entries.push((k, v)).drop_first() =~= Seq::<(Vec<u8>, Json)>::empty());
        assert(entries.push((k, v))[0] == (k, v));
        assert(deep_entries(entries.push((k, v))) == seq![(k@, v.deep())] + deep_entries(
            entries.push((k, v)).drop_first(),
        ));
        assert(deep_entries(entries) == Seq::<(Seq<u8>, JsonModel)>::empty());
        assert(deep_entries(entries.push((k, v))) =~= deep_entries(entries).push((k@, v.deep())));
    } else {
        lemma_deep_entries_push(entries.drop_first(), k, v);
        assert(entries.push((k, v)).drop_first() =~= entries.drop_first().push((k, v)));
        assert(entries.push((k, v))[0] == entries[0]);
        assert(deep_entries(entries.push((k, v))) == seq![(entries[0].0@, entries[0].1.deep())]
            + deep_entries(entries.drop_first()).push((k@, v.deep())));
        assert(deep_entries(entries) == seq![(entries[0].0@, entries[0].1.deep())] + deep_entries(
            entries.drop_first(),
        ));
        assert(seq![(entries[0].0@, entries[0].1.deep())] + deep_entries(
            entries.drop_first(),
        ).push((k@, v.deep())) =~= (seq![(entries[0].0@, entries[0].1.deep())] + deep_entries(
            entries.drop_first(),
        )).push((k@, v.deep())));
        assert(deep_entries(entries.push((k, v))) =~= deep_entries(entries).push((k@, v.deep())));
    }
}

/// Lower-case hex digit for a value below 16.
pub open spec fn hex_digit(d: nat) -> u8 {
    if d < 10 {
        (48 + d) as u8
    } else {
        (87 + d) as u8
    }
}

/// The escaped form of one string byte, as the compact wire encoding writes
/// it: the two-character shorthands for quote, backslash and the common
/// control characters, `\u00xx` for the remaining control bytes, and the byte
/// itself otherwise.
pub open spec fn esc_byte(b: u8) -> Seq<u8> {
    if b == 34 {
        seq![92u8, 34u8]
    } else if b == 92 {
        seq![92u8, 92u8]
    } else if b == 8 {
        seq![92u8, 98u8]
    } else if b == 9 {
        seq![92u8, 116u8]
    } else if b == 10 {
        seq![92u8, 110u8]
    } else if b == 12 {
        seq![92u8, 102u8]
    } else if b == 13 {
        seq![92u8, 114u8]
    } else if b < 32 {
        seq![92u8, 117u8, 48u8, 48u8, hex_digit((b / 16) as nat), hex_digit((b % 16) as nat)]
    } else {
        seq![b]
    }
}

/// The escaped form of a whole string.
pub open spec fn esc(s: Seq<u8>) -> Seq<u8>
    decreases s.len(),
{
    if s.len() == 0 {
        Seq::empty()
    } else {
        esc(s.drop_last()) + esc_byte(s.last())
    }
}

/// The compact wire text of a value: no added whitespace, object entries in
/// model order, strings escaped by [`esc`].
pub open spec fn text_of(m: JsonModel) -> Seq<u8>
    decreases m,
{
    match m {
        JsonModel::Null => ascii("null"@),
        JsonModel::Boolean(b) => if b {
            ascii("true"@)
        } else {
            ascii("false"@)
        },
        JsonModel::Num(lex) => lex,
        JsonModel::Text(s) => seq![34u8] + esc(s) + seq![34u8],
        JsonModel::Arr(items) => seq![91u8] + text_list(items) + seq![93u8],
        JsonModel::Obj(entries) => seq![123u8] + text_entries(entries) + seq![125u8],
    }
}

/// Comma-separated texts of a sequence of values.
pub open spec fn text_list(items: Seq<JsonModel>) -> Seq<u8>
    decreases items, 1int,
{
    if items.len() == 0 {
        Seq::empty()
    } else {
        text_of(items[0]) + text_rest(items.drop_first())
    }
}

/// The tail of a comma-separated list: a comma before every element.
pub open spec fn text_rest(items: Seq<JsonModel>) -> Seq<u8>
    decreases items, 0int,
{
    if items.len() == 0 {
        Seq::empty()
    } else {
        seq![44u8] + text_of(items[0]) + text_rest(items.drop_first())
    }
}

/// The text of one object entry: quoted key, colon, value text.
pub open spec fn entry_text(e: (Seq<u8>, JsonModel)) -> Seq<u8>
    decreases e,
{
    seq![34u8] + esc(e.0) + seq![34u8, 58u8] + text_of(e.1)
}

/// Comma-separated texts of a sequence of object entries.
pub open spec fn text_entries(entries: Seq<(Seq<u8>, JsonModel)>) -> Seq<u8>
    decreases entries, 1int,
{
    if entries.len() == 0 {
        Seq::empty()
    } else {
        entry_text(entries[0]) + text_entries_rest(entries.drop_first())
    }
}

/// The tail of an entry list: a comma before every entry.
pub open spec fn text_entries_rest(entries: Seq<(Seq<u8>, JsonModel)>) -> Seq<u8>
    decreases entries, 0int,
{
    if entries.len() == 0 {
        Seq::empty()
    } else {
        seq![44u8] + entry_text(entries[0]) + text_entries_rest(entries.drop_first())
    }
}

/// Append the escaped form of `s` to `out`.
pub fn escape_into(out: &mut Vec<u8>, s: &[u8])
    ensures
        final(out)@ == old(out)@ + esc(s@),
{
    let mut i: usize = 0;
    while i < s.len()
        invariant
            i <= s@.len(),
            out@ == old(out)@ + esc(s@.take(i as int)),
        decreases s@.len() - i,
    {
        let b = s[i];
        proof {
            assert(s@.take(i + 1 as int).drop_last() =~= s@.take(i as int));
            assert(s@.take(i + 1 as int).last() == s@[i as int]);
        }
        if b == 34 {
            out.push(92);
            out.push(34);
        } else if b == 92 {
            out.push(92);
            out.push(92);
        } else if b == 8 {
            out.push(92);
            out.push(98);
        } else if b == 9 {
            out.push(92);
            out.push(116);
        } else if b == 10 {
            out.push(92);
            out.push(110);
        } else if b == 12 {
            out.push(92);
            out.push(102);
        } else if b == 13 {
            out.push(92);
            out.push(114);
        } else if b < 32 {
            out.push(92);
            out.push(117);
            out.push(48);
            out.push(48);
            let hi = b / 16;
            let lo = b % 16;
            if hi < 10 {
                out.push(48 + hi);
            } else {
                out.push(87 + hi);
            }
            if lo < 10 {
                out.push(48 + lo);
            } else {
                out.push(87 + lo);
            }
        } else {
            out.push(b);
        }
        proof {
            assert(out@ =~= old(out)@ + esc(s@.take(i + 1 as int)));
        }
        i = i + 1;
    }
    proof {
        assert(s@.take(s@.len() as int) =~= s@);
    }
}

/// Append the compact wire text of `j` to `out`.
#[verifier::rlimit(100)]
pub fn write_json(out: &mut Vec<u8>, j: &Json)
    ensures
        final(out)@ == old(out)@ + text_of(j.deep()),
    decreases j,
{
    match j {
        Json::Null => {
            proof {
                reveal_strlit("null");
                assert("null".is_ascii());
            }
            let l = lit("null");
            crate::util::append_slice(out, l);
        },
        Json::Boolean(b) => {
            if *b {
                proof {
                    reveal_strlit("true");
                    assert("true".is_ascii());
                }
                let l = lit("true");
                crate::util::append_slice(out, l);
            } else {
                proof {
                    reveal_strlit("false");
                    assert("false".is_ascii());
                }
                let l = lit("false");
                crate::util::append_slice(out, l);
            }
        },
        Json::Num(lex) => {
            crate::util::append_slice(out, lex.as_slice());
        },
        Json::Text(s) => {
            out.push(34);
            escape_into(out, s.as_slice());
            out.push(34);
            proof {
                assert(j.deep() == JsonModel::Text(s@));
                assert(text_of(j.deep()) == seq![34u8] + esc(s@) + seq![34u8]);
                assert(out@ =~= old(out)@ + text_of(j.deep()));
            }
        },
        Json::Arr(items) => {
            let ghost whole = deep_list(items@);
            proof {
                lemma_deep_list_props(items@);
            }
            out.push(91);
            let mut i: usize = 0;
            while i < items.len()
                invariant
                    i <= items@.len(),
                    whole == deep_list(items@),
                    whole.len() == items@.len(),
                    forall|k: int| 0 <= k < items@.len() ==> whole[k] == #[trigger] items@[k].deep(),
                    out@ + rest_from(whole, i as int) == old(out)@ + seq![91u8] + text_list(whole) + seq![93u8],
                decreases items@.len() - i,
            {
                let ghost pre = out@;
                if i > 0 {
                    out.push(44);
                }
                proof {
                    assert(*j == Json::Arr(*items));
                    assert(decreases_to!(*j => *items));
                    assert(decreases_to!(*items => items@));
                    assert(decreases_to!(items@ => items@[i as int]));
                    assert(decreases_to!(*j => items@[i as int]));
                }
                write_json(out, &items[i]);
                proof {
                    let piece = text_of(items@[i as int].deep());
                    assert(piece == text_of(whole[i as int]));
                    if i == 0 {
                        assert(out@ == pre + piece);
                        assert(whole.skip(0) =~= whole);
                        assert(text_list(whole) == text_of(whole[0]) + text_rest(
                            whole.drop_first(),
                        ));
                        assert(whole.drop_first() =~= whole.skip(1));
                    } else {
                        assert(out@ == pre + seq![44u8] + piece);
                        assert(text_rest(whole.skip(i as int)) == seq![44u8] + text_of(
                            whole.skip(i as int)[0],
                        ) + text_rest(whole.skip(i as int).drop_first()));
                        assert(whole.skip(i as int)[0] == whole[i as int]);
                        assert(whole.skip(i as int).drop_first() =~= whole.skip(i + 1 as int));
                    }
                    assert(out@ + rest_from(whole, i + 1 as int) =~= old(out)@ + seq![91u8]
                        + text_list(whole) + seq![93u8]);
                }
                i = i + 1;
            }
            let ghost prefinal = out@;
            out.push(93);
            proof {
                assert(j.deep() == JsonModel::Arr(whole));
                assert(text_of(j.deep()) == seq![91u8] + text_list(whole) + seq![93u8]);
                if items@.len() == 0 {
                    assert(whole =~= Seq::<JsonModel>::empty());
                    assert(text_list(whole) == Seq::<u8>::empty());
                } else {
                    assert(whole.skip(items@.len() as int) =~= Seq::<JsonModel>::empty());
                    assert(text_rest(whole.skip(items@.len() as int)) == Seq::<u8>::empty());
                }
                assert(rest_from(whole, i as int) =~= seq![93u8]);
                assert(prefinal + seq![93u8] == old(out)@ + seq![91u8] + text_list(whole)
                    + seq![93u8]);
                assert(out@ =~= prefinal + seq![93u8]);
                assert(out@ =~= old(out)@ + text_of(j.deep()));
            }
        },
        Json::Obj(entries) => {
            let ghost whole = deep_entries(entries@);
            proof {
                lemma_deep_entries_props(entries@);
            }
            out.push(123);
            let mut i: usize = 0;
            while i < entries.len()
                invariant
                    i <= entries@.len(),
                    whole == deep_entries(entries@),
                    whole.len() == entries@.len(),
                    forall|k: int|
                        0 <= k < entries@.len() ==> whole[k] == (
                        #[trigger] entries@[k].0@,
                        entries@[k].1.deep(),
                        ),
                    out@ + entries_rest_from(whole, i as int) == old(out)@ + seq![123u8]
                        + text_entries(whole) + seq![125u8],
                decreases entries@.len() - i,
            {
                let ghost pre = out@;
                if i > 0 {
                    out.push(44);
                }
                out.push(34);
                escape_into(out, entries[i].0.as_slice());
                out.push(34);
                out.push(58);
                proof {
                    assert(*j == Json::Obj(*entries));
                    assert(decreases_to!(*j => *entries));
                    assert(decreases_to!(*entries => entries@));
                    assert(decreases_to!(entries@ => entries@[i as int]));
                    assert(decreases_to!(entries@[i as int] => entries@[i as int].1));
                    assert(decreases_to!(*j => entries@[i as int].1));
                }
                write_json(out, &entries[i].1);
                proof {
                    let piece = entry_text(whole[i as int]);
                    assert(whole[i as int].0 == entries@[i as int].0@);
                    assert(whole[i as int].1 == entries@[i as int].1.deep());
                    if i == 0 {
                        assert(out@ == pre + seq![34u8] + esc(entries@[0].0@) + seq![34u8, 58u8]
                            + text_of(entries@[0].1.deep()));
                        assert(out@ =~= pre + piece);
                        assert(whole.skip(0) =~= whole);
                        assert(text_entries(whole) == entry_text(whole[0]) + text_entries_rest(
                            whole.drop_first(),
                        ));
                        assert(whole.drop_first() =~= whole.skip(1));
                    } else {
                        assert(out@ == pre + seq![44u8] + seq![34u8] + esc(entries@[i as int].0@)
                            + seq![34u8, 58u8] + text_of(entries@[i as int].1.deep()));
                        assert(out@ =~= pre + seq![44u8] + piece);
                        assert(text_entries_rest(whole.skip(i as int)) == seq![44u8] + entry_text(
                            whole.skip(i as int)[0],
                        ) + text_entries_rest(whole.skip(i as int).drop_first()));
                        assert(whole.skip(i as int)[0] == whole[i as int]);
                        assert(whole.skip(i as int).drop_first() =~= whole.skip(i + 1 as int));
                    }
                    assert(out@ + entries_rest_from(whole, i + 1 as int) =~= old(out)@
                        + seq![123u8] + text_entries(whole) + seq![125u8]);
                }
                i = i + 1;
            }
            let ghost prefinal = out@;
            out.push(125);
            proof {
                assert(j.deep() == JsonModel::Obj(whole));
                assert(text_of(j.deep()) == seq![123u8] + text_entries(whole) + seq![125u8]);
                if entries@.len() == 0 {
                    assert(whole =~= Seq::<(Seq<u8>, JsonModel)>::empty());
                    assert(text_entries(whole) == Seq::<u8>::empty());
                } else {
                    assert(whole.skip(entries@.len() as int) =~= Seq::<(
                        Seq<u8>,
                        JsonModel,
                    )>::empty());
                    assert(text_entries_rest(whole.skip(entries@.len() as int))
                        == Seq::<u8>::empty());
                }
                assert(entries_rest_from(whole, i as int) =~= seq![125u8]);
                assert(prefinal + seq![125u8] == old(out)@ + seq![123u8] + text_entries(whole)
                    + seq![125u8]);
                assert(out@ =~= prefinal + seq![125u8]);
                assert(out@ =~= old(out)@ + text_of(j.deep()));
            }
        },
    }
}

/// The wire text still to be written once the first `i` list elements are out.
spec fn rest_from(items: Seq<JsonModel>, i: int) -> Seq<u8> {
    if i == 0 {
        text_list(items) + seq![93u8]
    } else {
        text_rest(items.skip(i)) + seq![93u8]
    }
}

/// The wire text still to be written once the first `i` entries are out.
spec fn entries_rest_from(entries: Seq<(Seq<u8>, JsonModel)>, i: int) -> Seq<u8> {
    if i == 0 {
        text_entries(entries) + seq![125u8]
    } else {
        text_entries_rest(entries.skip(i)) + seq![125u8]
    }
}

/// The compact wire text of a value, as an owned vector.
pub fn to_bytes(j: &Json) -> (r: Vec<u8>)
    ensures
        r@ == text_of(j.deep()),
{
    let mut out: Vec<u8> = Vec::new();
    write_json(&mut out, j);
    out
}


/// The value of the last entry with the given key, if the model is an object.
pub open spec fn lookup_entries(entries: Seq<(Seq<u8>, JsonModel)>, key: Seq<u8>) -> Option<
    JsonModel,
>
    decreases entries.len(),
{
    if entries.len() == 0 {
        None
    } else if entries.last().0 == key {
        Some(entries.last().1)
    } else {
        lookup_entries(entries.drop_last(), key)
    }
}

impl JsonModel {
    /// Field lookup: objects answer with their last entry under the key
    /// (duplicate keys on the wire overwrite earlier ones); any other shape
    /// has no fields.
    pub open spec fn get_field(self, key: Seq<u8>) -> Option<JsonModel> {
        match self {
            JsonModel::Obj(entries) => lookup_entries(entries, key),
            _ => None,
        }
    }

    /// The unsigned integer a number denotes, if its lexeme is a plain digit
    /// run that fits in a `u64`; anything else (fractions, exponents, signs,
    /// non-numbers) has none.
    pub open spec fn to_u64(self) -> Option<u64> {
        match self {
            JsonModel::Num(lex) => parsed_u64(lex),
            _ => None,
        }
    }

    /// The bytes of a string value.
    pub open spec fn to_text(self) -> Option<Seq<u8>> {
        match self {
            JsonModel::Text(s) => Some(s),
            _ => None,
        }
    }
}

impl Json {
    /// Look up a field of an object, the last entry under the key winning.
    pub fn get<'a>(&'a self, key: &[u8]) -> (r: Option<&'a Json>)
        ensures
            match r {
                Some(v) => self.deep().get_field(key@) == Some(v.deep()),
                None => self.deep().get_field(key@) is None,
            },
    {
        match self {
            Json::Obj(entries) => {
                let ghost me = deep_entries(entries@);
                proof {
                    lemma_deep_entries_props(entries@);
                    assert(me.take(entries@.len() as int) =~= me);
                }
                let mut i: usize = entries.len();
                while i > 0
                    invariant
                        i <= entries@.len(),
                        lookup_entries(me, key@) == lookup_entries(me.take(i as int), key@),
                    decreases i,
                {
                    i = i - 1;
                    if crate::util::bytes_eq(entries[i].0.as_slice(), key) {
                        proof {
                            assert(me.take(i + 1 as int).last() == me[i as int]);
                            assert(me[i as int].0 == key@);
                        }
                        return Some(&entries[i].1);
                    }
                    proof {
                        assert(me.take(i + 1 as int).last() == me[i as int]);
                        assert(me.take(i + 1 as int).drop_last() =~= me.take(i as int));
                    }
                }
                proof {
                    assert(me.take(0) =~= Seq::<(Seq<u8>, JsonModel)>::empty());
                }
                None
            },
            _ => None,
        }
    }

    /// The `u64` a number value denotes, as [`JsonModel::to_u64`] states.
    pub fn as_u64(&self) -> (r: Option<u64>)
        ensures
            r == self.deep().to_u64(),
    {
        match self {
            Json::Num(lex) => crate::util::parse_u64(lex.as_slice()),
            _ => None,
        }
    }

    /// The bytes of a string value.
    pub fn as_text<'a>(&'a self) -> (r: Option<&'a Vec<u8>>)
        ensures
            match r {
                Some(s) => self.deep().to_text() == Some(s@),
                None => self.deep().to_text() is None,
            },
    {
        match self {
            Json::Text(s) => Some(s),
            _ => None,
        }
    }

    /// Whether this value is an object.
    pub fn is_obj(&self) -> (r: bool)
        ensures
            r == (self.deep() is Obj),
    {
        match self {
            Json::Obj(_) => true,
            _ => false,
        }
    }

    /// Whether this value is an array; its elements if so.
    pub fn as_arr<'a>(&'a self) -> (r: Option<&'a Vec<Json>>)
        ensures
            match r {
                Some(items) => self.deep() == JsonModel::Arr(deep_list(items@)),
                None => !(self.deep() is Arr),
            },
    {
        match self {
            Json::Arr(items) => Some(items),
            _ => None,
        }
    }
}

/// A structural copy with the same model.
pub fn clone_json(j: &Json) -> (r: Json)
    ensures
        r.deep() == j.deep(),
    decreases j,
{
    match j {
        Json::Null => Json::Null,
        Json::Boolean(b) => Json::Boolean(*b),
        Json::Num(lex) => Json::Num(crate::util::to_vec(lex.as_slice())),
        Json::Text(s) => Json::Text(crate::util::to_vec(s.as_slice())),
        Json::Arr(items) => {
            let mut out: Vec<Json> = Vec::new();
            let mut i: usize = 0;
            proof {
                lemma_deep_list_props(items@);
                assert(deep_list(out@) =~= deep_list(items@).take(0));
            }
            while i < items.len()
                invariant
                    i <= items@.len(),
                    deep_list(out@) == deep_list(items@).take(i as int),
                decreases items@.len() - i,
            {
                proof {
                    assert(decreases_to!(*j => *items));
                    assert(decreases_to!(*items => items@));
                    assert(decreases_to!(items@ => items@[i as int]));
                    assert(decreases_to!(*j => items@[i as int]));
                }
                let c = clone_json(&items[i]);
                proof {
                    lemma_deep_list_push(out@, c);
                    assert(deep_list(items@).take(i + 1 as int) =~= deep_list(items@).take(
                        i as int,
                    ).push(deep_list(items@)[i as int]));
                }
                out.push(c);
                i = i + 1;
            }
            proof {
                assert(deep_list(items@).take(items@.len() as int) =~= deep_list(items@));
            }
            Json::Arr(out)
        },
        Json::Obj(entries) => {
            let mut out: Vec<(Vec<u8>, Json)> = Vec::new();
            let mut i: usize = 0;
            proof {
                lemma_deep_entries_props(entries@);
                assert(deep_entries(out@) =~= deep_entries(entries@).take(0));
            }
            while i < entries.len()
                invariant
                    i <= entries@.len(),
                    deep_entries(out@) == deep_entries(entries@).take(i as int),
                decreases entries@.len() - i,
            {
                proof {
                    assert(decreases_to!(*j => *entries));
                    assert(decreases_to!(*entries => entries@));
                    assert(decreases_to!(entries@ => entries@[i as int]));
                    assert(decreases_to!(entries@[i as int] => entries@[i as int].1));
                    assert(decreases_to!(*j => entries@[i as int].1));
                }
                let k = crate::util::to_vec(entries[i].0.as_slice());
                let c = clone_json(&entries[i].1);
                proof {
                    lemma_deep_entries_push(out@, k, c);
                    assert(deep_entries(entries@).take(i + 1 as int) =~= deep_entries(
                        entries@,
                    ).take(i as int).push(deep_entries(entries@)[i as int]));
                }
                out.push((k, c));
                i = i + 1;
            }
            proof {
                assert(deep_entries(entries@).take(entries@.len() as int) =~= deep_entries(
                    entries@,
                ));
            }
            Json::Obj(out)
        },
    }
}

/// Append one object entry while building an object value.
pub fn obj_push(entries: &mut Vec<(Vec<u8>, Json)>, key: &[u8], v: Json)
    ensures
        deep_entries(final(entries)@) == deep_entries(old(entries)@).push((key@, v.deep())),
{
    let k = crate::util::to_vec(key);
    proof {
        lemma_deep_entries_push(entries@, k, v);
    }
    entries.push((k, v));
}


/// Exec mirror of [`skip_ws`].
pub fn skip_ws_exec(s: &[u8], i: usize) -> (r: usize)
    requires
        i <= s@.len(),
    ensures
        r as int == skip_ws(s@, i as int),
        i <= r <= s@.len(),
{
    proof {
        crate::util::lemma_skip_ws_bounds(s@, i as int);
    }
    let mut k = i;
    while k < s.len() && crate::util::ws_byte(s[k])
        invariant
            i <= k <= s@.len(),
            skip_ws(s@, i as int) == skip_ws(s@, k as int),
        decreases s@.len() - k,
    {
        k = k + 1;
    }
    proof {
        assert(skip_ws(s@, k as int) == k as int);
    }
    k
}

/// Parse a JSON string body starting at an opening quote; yields the decoded
/// bytes and the position after the closing quote. Escape handling covers the
/// short escapes and `\u00xx` for ASCII code points; other `\u` escapes and
/// raw control bytes are rejected, as is an unterminated string.
/// Prefix one decoded byte onto the rest of a string parse.
pub open spec fn sp_cons(b: u8, rest: Option<(Seq<u8>, int)>) -> Option<(Seq<u8>, int)> {
    match rest {
        Some(p) => Some((seq![b] + p.0, p.1)),
        None => None,
    }
}

/// The decoded content and end position of a string body read from `j`
/// (just inside the quotes): the short escapes and `\u00xx` for ASCII code
/// points decode, other `\u` escapes, raw control bytes and an unterminated
/// string are refused.
pub open spec fn sp_string_tail(s: Seq<u8>, j: int) -> Option<(Seq<u8>, int)>
    decreases s.len() - j,
{
    if j < 0 || j >= s.len() {
        None
    } else if s[j] == 34 {
        Some((Seq::empty(), j + 1))
    } else if s[j] == 92 {
        if s.len() - j < 2 {
            None
        } else {
            let e = s[j + 1];
            if e == 34 || e == 92 || e == 47 {
                sp_cons(e, sp_string_tail(s, j + 2))
            } else if e == 98 {
                sp_cons(8, sp_string_tail(s, j + 2))
            } else if e == 102 {
                sp_cons(12, sp_string_tail(s, j + 2))
            } else if e == 110 {
                sp_cons(10, sp_string_tail(s, j + 2))
            } else if e == 114 {
                sp_cons(13, sp_string_tail(s, j + 2))
            } else if e == 116 {
                sp_cons(9, sp_string_tail(s, j + 2))
            } else if e == 117 {
                if s.len() - j < 6 {
                    None
                } else if s[j + 2] != 48 || s[j + 3] != 48 {
                    None
                } else {
                    match (crate::util::hex_val(s[j + 4]), crate::util::hex_val(s[j + 5])) {
                        (Some(h), Some(l)) => if h * 16 + l >= 128 {
                            None
                        } else {
                            sp_cons((h * 16 + l) as u8, sp_string_tail(s, j + 6))
                        },
                        _ => None,
                    }
                }
            } else {
                None
            }
        }
    } else if s[j] < 32 {
        None
    } else {
        sp_cons(s[j], sp_string_tail(s, j + 1))
    }
}

/// The decoded content and end position of a string starting at its opening
/// quote.
pub open spec fn sp_string(s: Seq<u8>, i: int) -> Option<(Seq<u8>, int)> {
    if 0 <= i < s.len() && s[i] == 34 {
        sp_string_tail(s, i + 1)
    } else {
        None
    }
}

/// The parse so far: the bytes already decoded, then the rest of the body.
spec fn sp_string_with(acc: Seq<u8>, s: Seq<u8>, j: int) -> Option<(Seq<u8>, int)> {
    match sp_string_tail(s, j) {
        Some(p) => Some((acc + p.0, p.1)),
        None => None,
    }
}

/// Parse a JSON string body starting at an opening quote, as [`sp_string`]
/// states it; yields the decoded bytes and the position after the closing
/// quote.
fn parse_string(s: &[u8], pos: usize) -> (r: Option<(Vec<u8>, usize)>)
    requires
        pos < s@.len(),
    ensures
        r matches Some(p) ==> pos < p.1 <= s@.len(),
        match r {
            Some(p) => sp_string(s@, pos as int) == Some((p.0@, p.1 as int)),
            None => sp_string(s@, pos as int) is None,
        },
{
    if s[pos] != 34 {
        return None;
    }
    let mut out: Vec<u8> = Vec::new();
    let mut j = pos + 1;
    proof {
        match sp_string_tail(s@, pos + 1 as int) {
            Some(p) => {
                assert(Seq::<u8>::empty() + p.0 =~= p.0);
            },
            None => {},
        }
        assert(sp_string_with(out@, s@, j as int) == sp_string_tail(s@, pos + 1 as int));
    }
    while j < s.len()
        invariant
            pos < j <= s@.len(),
            sp_string_with(out@, s@, j as int) == sp_string_tail(s@, pos + 1 as int),
        decreases s@.len() - j,
    {
        let b = s[j];
        if b == 34 {
            proof {
                assert(out@ + Seq::<u8>::empty() =~= out@);
            }
            return Some((out, j + 1));
        } else if b == 92 {
            if s.len() - j < 2 {
                return None;
            }
            let e = s[j + 1];
            let ghost before = out@;
            let decoded: u8;
            let step: usize;
            if e == 34 || e == 92 || e == 47 {
                decoded = e;
                step = 2;
            } else if e == 98 {
                decoded = 8;
                step = 2;
            } else if e == 102 {
                decoded = 12;
                step = 2;
            } else if e == 110 {
                decoded = 10;
                step = 2;
            } else if e == 114 {
                decoded = 13;
                step = 2;
            } else if e == 116 {
                decoded = 9;
                step = 2;
            } else if e == 117 {
                if s.len() - j < 6 {
                    return None;
                }
                if s[j + 2] != 48 || s[j + 3] != 48 {
                    return None;
                }
                let hi = match crate::util::from_hex(s[j + 4]) {
                    Some(h) => h,
                    None => {
                        return None;
                    },
                };
                let lo = match crate::util::from_hex(s[j + 5]) {
                    Some(l) => l,
                    None => {
                        return None;
                    },
                };
                let code = hi * 16 + lo;
                if code >= 128 {
                    return None;
                }
                decoded = code;
                step = 6;
            } else {
                return None;
            }
            out.push(decoded);
            proof {
                assert(sp_string_tail(s@, j as int) == sp_cons(
                    decoded,
                    sp_string_tail(s@, j + step as int),
                ));
                match sp_string_tail(s@, j + step as int) {
                    Some(p) => {
                        assert(before.push(decoded) + p.0 =~= before + (seq![decoded] + p.0));
                    },
                    None => {},
                }
            }
            j = j + step;
        } else if b < 32 {
            return None;
        } else {
            let ghost before = out@;
            out.push(b);
            proof {
                assert(sp_string_tail(s@, j as int) == sp_cons(b, sp_string_tail(s@, j + 1)));
                match sp_string_tail(s@, j + 1) {
                    Some(p) => {
                        assert(before.push(b) + p.0 =~= before + (seq![b] + p.0));
                    },
                    None => {},
                }
            }
            j = j + 1;
        }
    }
    None
}

/// First position at or after `j` that does not hold a decimal digit./// First position at or after `j` that does not hold a decimal digit.
pub open spec fn digit_run(s: Seq<u8>, j: int) -> int
    decreases s.len() - j,
{
    if j < 0 || j >= s.len() || !is_digit(s[j]) {
        j
    } else {
        digit_run(s, j + 1)
    }
}

/// Where a number lexeme starting at `i` ends: an optional minus, then `0`
/// alone or a digit run without a leading zero, then the optional fraction
/// and exponent, each demanding at least one digit.
pub open spec fn sp_number(s: Seq<u8>, i: int) -> Option<int>
    recommends
        0 <= i < s.len(),
{
    let j0 = if s[i] == 45 {
        i + 1
    } else {
        i
    };
    if j0 >= s.len() {
        None
    } else if s[j0] == 48 {
        sp_number_frac(s, j0 + 1)
    } else if 49 <= s[j0] && s[j0] <= 57 {
        sp_number_frac(s, digit_run(s, j0 + 1))
    } else {
        None
    }
}

/// The rest of a number lexeme after its integer part.
pub open spec fn sp_number_frac(s: Seq<u8>, j: int) -> Option<int> {
    if j < s.len() && s[j] == 46 {
        if j + 1 < s.len() && is_digit(s[j + 1]) {
            sp_number_exp(s, digit_run(s, j + 1))
        } else {
            None
        }
    } else {
        sp_number_exp(s, j)
    }
}

/// The rest of a number lexeme after its fraction, if any.
pub open spec fn sp_number_exp(s: Seq<u8>, j: int) -> Option<int> {
    if j < s.len() && (s[j] == 101 || s[j] == 69) {
        let k = if j + 1 < s.len() && (s[j + 1] == 43 || s[j + 1] == 45) {
            j + 2
        } else {
            j + 1
        };
        if k < s.len() && is_digit(s[k]) {
            Some(digit_run(s, k))
        } else {
            None
        }
    } else {
        Some(j)
    }
}

/// Scan a number lexeme, as [`sp_number`] states it; yields the lexeme and
/// the position after it.
fn parse_number(s: &[u8], pos: usize) -> (r: Option<(Vec<u8>, usize)>)
    requires
        pos < s@.len(),
    ensures
        r matches Some(p) ==> pos < p.1 <= s@.len(),
        match r {
            Some(p) => sp_number(s@, pos as int) == Some(p.1 as int) && p.0@ == s@.subrange(
                pos as int,
                p.1 as int,
            ),
            None => sp_number(s@, pos as int) is None,
        },
{
    let mut j = pos;
    if s[j] == 45 {
        j = j + 1;
    }
    let ghost j0 = j as int;
    if j >= s.len() {
        return None;
    }
    if s[j] == 48 {
        j = j + 1;
    } else if 49 <= s[j] && s[j] <= 57 {
        j = j + 1;
        let ghost anchor = j as int;
        while j < s.len() && 48 <= s[j] && s[j] <= 57
            invariant
                pos < j <= s@.len(),
                digit_run(s@, anchor) == digit_run(s@, j as int),
            decreases s@.len() - j,
        {
            j = j + 1;
        }
        proof {
            assert(digit_run(s@, j as int) == j as int);
            assert(j as int == digit_run(s@, j0 + 1));
        }
    } else {
        return None;
    }
    let ghost jint = j as int;
    proof {
        assert(sp_number(s@, pos as int) == sp_number_frac(s@, jint));
    }
    if j < s.len() && s[j] == 46 {
        j = j + 1;
        if j >= s.len() || s[j] < 48 || s[j] > 57 {
            proof {
                assert(sp_number_frac(s@, jint) is None);
            }
            return None;
        }
        let ghost anchor = j as int;
        while j < s.len() && 48 <= s[j] && s[j] <= 57
            invariant
                pos < j <= s@.len(),
                digit_run(s@, anchor) == digit_run(s@, j as int),
            decreases s@.len() - j,
        {
            j = j + 1;
        }
        proof {
            assert(digit_run(s@, j as int) == j as int);
            assert(j as int == digit_run(s@, jint + 1));
        }
    }
    let ghost jfrac = j as int;
    proof {
        assert(sp_number_frac(s@, jint) == sp_number_exp(s@, jfrac));
    }
    if j < s.len() && (s[j] == 101 || s[j] == 69) {
        j = j + 1;
        if j < s.len() && (s[j] == 43 || s[j] == 45) {
            j = j + 1;
        }
        if j >= s.len() || s[j] < 48 || s[j] > 57 {
            proof {
                assert(sp_number_exp(s@, jfrac) is None);
            }
            return None;
        }
        let ghost anchor = j as int;
        while j < s.len() && 48 <= s[j] && s[j] <= 57
            invariant
                pos < j <= s@.len(),
                digit_run(s@, anchor) == digit_run(s@, j as int),
            decreases s@.len() - j,
        {
            j = j + 1;
        }
        proof {
            assert(digit_run(s@, j as int) == j as int);
            assert(sp_number_exp(s@, jfrac) == Some(j as int));
        }
    } else {
        proof {
            assert(sp_number_exp(s@, jfrac) == Some(j as int));
        }
    }
    let piece = vstd::slice::slice_subrange(s, pos, j);
    Some((crate::util::to_vec(piece), j))
}

/// One parsed JSON value starting at `pos`, leading whitespace skipped:
/// the scalar keywords, strings as [`sp_string`] decodes them, numbers as
/// [`sp_number`] delimits them, and bracketed containers, with nesting
/// bounded by `depth`. Yields the value's model and the position after it.
pub open spec fn sp_value(s: Seq<u8>, pos: int, depth: int) -> Option<(JsonModel, int)>
    decreases depth, s.len() + 1 - pos, 1int,
{
    let i = skip_ws(s, pos);
    if i >= s.len() {
        None
    } else {
        let b = s[i];
        if b == 110 {
            if s.len() - i >= 4 && s[i + 1] == 117 && s[i + 2] == 108 && s[i + 3] == 108 {
                Some((JsonModel::Null, i + 4))
            } else {
                None
            }
        } else if b == 116 {
            if s.len() - i >= 4 && s[i + 1] == 114 && s[i + 2] == 117 && s[i + 3] == 101 {
                Some((JsonModel::Boolean(true), i + 4))
            } else {
                None
            }
        } else if b == 102 {
            if s.len() - i >= 5 && s[i + 1] == 97 && s[i + 2] == 108 && s[i + 3] == 115 && s[i
                + 4] == 101 {
                Some((JsonModel::Boolean(false), i + 5))
            } else {
                None
            }
        } else if b == 34 {
            match sp_string(s, i) {
                Some(p) => Some((JsonModel::Text(p.0), p.1)),
                None => None,
            }
        } else if b == 45 || (48 <= b && b <= 57) {
            match sp_number(s, i) {
                Some(e) => Some((JsonModel::Num(s.subrange(i, e)), e)),
                None => None,
            }
        } else if b == 91 {
            if depth <= 0 {
                None
            } else {
                let j = skip_ws(s, i + 1);
                if j < s.len() && s[j] == 93 {
                    Some((JsonModel::Arr(Seq::empty()), j + 1))
                } else {
                    let ja = if j > pos && j <= s.len() {
                        j
                    } else {
                        pos + 1
                    };
                    match sp_elems(s, ja, depth) {
                        Some(p) => Some((JsonModel::Arr(p.0), p.1)),
                        None => None,
                    }
                }
            }
        } else if b == 123 {
            if depth <= 0 {
                None
            } else {
                let j = skip_ws(s, i + 1);
                if j < s.len() && s[j] == 125 {
                    Some((JsonModel::Obj(Seq::empty()), j + 1))
                } else {
                    let ja = if j > pos && j <= s.len() {
                        j
                    } else {
                        pos + 1
                    };
                    match sp_members(s, ja, depth) {
                        Some(p) => Some((JsonModel::Obj(p.0), p.1)),
                        None => None,
                    }
                }
            }
        } else {
            None
        }
    }
}

/// The elements of a non-empty array read from `j` (at the first element):
/// comma-separated values up to the closing bracket. The recursion position
/// is forced forward where the grammar already forces it, keeping the
/// definition well-founded.
pub open spec fn sp_elems(s: Seq<u8>, j: int, depth: int) -> Option<(Seq<JsonModel>, int)>
    decreases depth, s.len() + 1 - j, 0int,
{
    if depth <= 0 || j < 0 || j > s.len() {
        None
    } else {
        match sp_value(s, j, depth - 1) {
            None => None,
            Some(p) => {
                let a = skip_ws(s, p.1);
                if a >= s.len() {
                    None
                } else if s[a] == 44 {
                    let nxt = if a + 1 > j + 1 {
                        a + 1
                    } else {
                        j + 1
                    };
                    match sp_elems(s, nxt, depth) {
                        Some(q) => Some((seq![p.0] + q.0, q.1)),
                        None => None,
                    }
                } else if s[a] == 93 {
                    Some((seq![p.0], a + 1))
                } else {
                    None
                }
            },
        }
    }
}

/// The entries of a non-empty object read from `j` (at the first key):
/// quoted keys, colons, values, commas, up to the closing brace.
pub open spec fn sp_members(s: Seq<u8>, j: int, depth: int) -> Option<
    (Seq<(Seq<u8>, JsonModel)>, int),
>
    decreases depth, s.len() + 1 - j, 0int,
{
    if depth <= 0 || j < 0 || j > s.len() {
        None
    } else {
        match sp_string(s, j) {
            None => None,
            Some(k) => {
                let c = skip_ws(s, k.1);
                if c >= s.len() || s[c] != 58 {
                    None
                } else {
                    match sp_value(s, c + 1, depth - 1) {
                        None => None,
                        Some(p) => {
                            let a = skip_ws(s, p.1);
                            if a >= s.len() {
                                None
                            } else if s[a] == 44 {
                                let w = skip_ws(s, a + 1);
                                let nxt = if w > j && w <= s.len() {
                                    w
                                } else {
                                    j + 1
                                };
                                match sp_members(s, nxt, depth) {
                                    Some(q) => Some((seq![(k.0, p.0)] + q.0, q.1)),
                                    None => None,
                                }
                            } else if s[a] == 125 {
                                Some((seq![(k.0, p.0)], a + 1))
                            } else {
                                None
                            }
                        },
                    }
                }
            },
        }
    }
}

/// Parse one JSON value starting at `pos`, as [`sp_value`] states it.
/// `depth` bounds container nesting, as the upstream parser's recursion
/// limit does. On success the returned position strictly advances.
#[verifier::rlimit(100)]
pub fn parse_value(s: &[u8], pos: usize, depth: u32) -> (r: Option<(Json, usize)>)
    requires
        pos <= s@.len(),
    ensures
        r matches Some(p) ==> pos < p.1 <= s@.len(),
        match r {
            Some(p) => sp_value(s@, pos as int, depth as int) == Some((p.0.deep(), p.1 as int)),
            None => sp_value(s@, pos as int, depth as int) is None,
        },
    decreases depth,
{
    proof {
        crate::util::lemma_skip_ws_bounds(s@, pos as int);
    }
    let i = skip_ws_exec(s, pos);
    if i >= s.len() {
        return None;
    }
    let b = s[i];
    if b == 110 {
        if s.len() - i >= 4 && s[i + 1] == 117 && s[i + 2] == 108 && s[i + 3] == 108 {
            Some((Json::Null, i + 4))
        } else {
            None
        }
    } else if b == 116 {
        if s.len() - i >= 4 && s[i + 1] == 114 && s[i + 2] == 117 && s[i + 3] == 101 {
            Some((Json::Boolean(true), i + 4))
        } else {
            None
        }
    } else if b == 102 {
        if s.len() - i >= 5 && s[i + 1] == 97 && s[i + 2] == 108 && s[i + 3] == 115 && s[i + 4]
            == 101 {
            Some((Json::Boolean(false), i + 5))
        } else {
            None
        }
    } else if b == 34 {
        match parse_string(s, i) {
            Some((text, j)) => Some((Json::Text(text), j)),
            None => None,
        }
    } else if b == 45 || (48 <= b && b <= 57) {
        match parse_number(s, i) {
            Some((lex, j)) => Some((Json::Num(lex), j)),
            None => None,
        }
    } else if b == 91 {
        if depth == 0 {
            return None;
        }
        let mut j = skip_ws_exec(s, i + 1);
        let ghost j0 = j as int;
        let mut items: Vec<Json> = Vec::new();
        if j < s.len() && s[j] == 93 {
            proof {
                assert(deep_list(items@) == Seq::<JsonModel>::empty());
            }
            return Some((Json::Arr(items), j + 1));
        }
        proof {
            assert(deep_list(items@) == Seq::<JsonModel>::empty());
            match sp_elems(s@, j0, depth as int) {
                Some(q) => {
                    assert(deep_list(items@) + q.0 =~= q.0);
                },
                None => {},
            }
        }
        loop
            invariant
                i < j <= s@.len(),
                match sp_elems(s@, j as int, depth as int) {
                    Some(q) => sp_elems(s@, j0, depth as int) == Some(
                        (deep_list(items@) + q.0, q.1),
                    ),
                    None => sp_elems(s@, j0, depth as int) is None,
                },
            decreases s@.len() - j,
        {
            let ghost j_top = j as int;
            let ghost items_pre = deep_list(items@);
            let pair = match parse_value(s, j, depth - 1) {
                Some(pair) => pair,
                None => {
                    proof {
                        assert(sp_elems(s@, j_top, depth as int) is None);
                    }
                    return None;
                },
            };
            let (v, j2) = pair;
            let ghost vm = v.deep();
            proof {
                lemma_deep_list_push(items@, v);
            }
            items.push(v);
            j = skip_ws_exec(s, j2);
            proof {
                assert(deep_list(items@) == items_pre.push(vm));
            }
            if j >= s.len() {
                proof {
                    assert(sp_elems(s@, j_top, depth as int) is None);
                }
                return None;
            }
            if s[j] == 44 {
                proof {
                    match sp_elems(s@, j + 1 as int, depth as int) {
                        Some(q) => {
                            assert(sp_elems(s@, j_top, depth as int) == Some(
                                (seq![vm] + q.0, q.1),
                            ));
                            assert(items_pre.push(vm) + q.0 =~= items_pre + (seq![vm] + q.0));
                        },
                        None => {
                            assert(sp_elems(s@, j_top, depth as int) is None);
                        },
                    }
                }
                j = j + 1;
            } else if s[j] == 93 {
                proof {
                    assert(sp_elems(s@, j_top, depth as int) == Some((seq![vm], j + 1 as int)));
                    assert(items_pre + seq![vm] =~= items_pre.push(vm));
                    assert(sp_elems(s@, j0, depth as int) == Some(
                        (deep_list(items@), j + 1 as int),
                    ));
                }
                return Some((Json::Arr(items), j + 1));
            } else {
                proof {
                    assert(sp_elems(s@, j_top, depth as int) is None);
                }
                return None;
            }
        }
    } else if b == 123 {
        if depth == 0 {
            return None;
        }
        let mut j = skip_ws_exec(s, i + 1);
        let ghost j0 = j as int;
        let mut entries: Vec<(Vec<u8>, Json)> = Vec::new();
        if j < s.len() && s[j] == 125 {
            proof {
                assert(deep_entries(entries@) == Seq::<(Seq<u8>, JsonModel)>::empty());
            }
            return Some((Json::Obj(entries), j + 1));
        }
        proof {
            assert(deep_entries(entries@) == Seq::<(Seq<u8>, JsonModel)>::empty());
            match sp_members(s@, j0, depth as int) {
                Some(q) => {
                    assert(deep_entries(entries@) + q.0 =~= q.0);
                },
                None => {},
            }
        }
        loop
            invariant
                i < j <= s@.len(),
                match sp_members(s@, j as int, depth as int) {
                    Some(q) => sp_members(s@, j0, depth as int) == Some(
                        (deep_entries(entries@) + q.0, q.1),
                    ),
                    None => sp_members(s@, j0, depth as int) is None,
                },
            decreases s@.len() - j,
        {
            let ghost j_top = j as int;
            let ghost entries_pre = deep_entries(entries@);
            if j >= s.len() {
                proof {
                    assert(sp_members(s@, j_top, depth as int) is None);
                }
                return None;
            }
            let (key, jk) = match parse_string(s, j) {
                Some(kp) => kp,
                None => {
                    proof {
                        assert(sp_members(s@, j_top, depth as int) is None);
                    }
                    return None;
                },
            };
            let ghost km = key@;
            j = skip_ws_exec(s, jk);
            if j >= s.len() || s[j] != 58 {
                proof {
                    assert(sp_members(s@, j_top, depth as int) is None);
                }
                return None;
            }
            let pair = match parse_value(s, j + 1, depth - 1) {
                Some(pair) => pair,
                None => {
                    proof {
                        assert(sp_members(s@, j_top, depth as int) is None);
                    }
                    return None;
                },
            };
            let (v, j2) = pair;
            let ghost vm = v.deep();
            proof {
                lemma_deep_entries_push(entries@, key, v);
            }
            entries.push((key, v));
            j = skip_ws_exec(s, j2);
            proof {
                assert(deep_entries(entries@) == entries_pre.push((km, vm)));
            }
            if j >= s.len() {
                proof {
                    assert(sp_members(s@, j_top, depth as int) is None);
                }
                return None;
            }
            if s[j] == 44 {
                let jn = skip_ws_exec(s, j + 1);
                proof {
                    match sp_members(s@, jn as int, depth as int) {
                        Some(q) => {
                            assert(sp_members(s@, j_top, depth as int) == Some(
                                (seq![(km, vm)] + q.0, q.1),
                            ));
                            assert(entries_pre.push((km, vm)) + q.0 =~= entries_pre + (
                            seq![(km, vm)] + q.0));
                        },
                        None => {
                            assert(sp_members(s@, j_top, depth as int) is None);
                        },
                    }
                }
                j = jn;
            } else if s[j] == 125 {
                proof {
                    assert(sp_members(s@, j_top, depth as int) == Some(
                        (seq![(km, vm)], j + 1 as int),
                    ));
                    assert(entries_pre + seq![(km, vm)] =~= entries_pre.push((km, vm)));
                    assert(sp_members(s@, j0, depth as int) == Some(
                        (deep_entries(entries@), j + 1 as int),
                    ));
                }
                return Some((Json::Obj(entries), j + 1));
            } else {
                proof {
                    assert(sp_members(s@, j_top, depth as int) is None);
                }
                return None;
            }
        }
    } else {
        None
    }
}

/// A complete document: one value with nothing but whitespace around it.
pub open spec fn sp_parse(s: Seq<u8>) -> Option<JsonModel> {
    match sp_value(s, 0, 128) {
        Some(p) => if skip_ws(s, p.1) == s.len() {
            Some(p.0)
        } else {
            None
        },
        None => None,
    }
}

/// Parse a complete JSON document, as [`sp_parse`] states it, with nesting
/// bounded as the upstream parser bounds it.
pub fn parse_json(s: &[u8]) -> (r: Option<Json>)
    ensures
        match r {
            Some(v) => sp_parse(s@) == Some(v.deep()),
            None => sp_parse(s@) is None,
        },
{
    match parse_value(s, 0, 128) {
        Some((v, end)) => {
            let tail = skip_ws_exec(s, end);
            if tail == s.len() {
                Some(v)
            } else {
                None
            }
        },
        None => None,
    }
}

} // verus!
