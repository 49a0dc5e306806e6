use vstd::prelude::*;

use crate::wire::{arg_view, wire_view, JsonArg, RecordModel, WireRecord, WireValue};

verus! {

/// The JSON string literal for `s`, quotes and escapes included, as
/// serde_json writes it.
pub uninterp spec fn json_string_literal(s: Seq<char>) -> Seq<char>;

/// A character that a JSON string literal must escape.
pub open spec fn needs_escape(c: char) -> bool {
    (c as u32) < 0x20 || c == '"' || c == '\\'
}

/// Relies on `serde_json::to_string` applied to a `str`: the result is the
/// JSON string literal for `s`, which is `s` between double quotes when no
/// character of `s` needs escaping. Serializing a `str` writes into a
/// `Vec<u8>`, which cannot fail.
#[verifier::external_body]
fn quote(s: &str) -> (r: String)
    ensures
        r@ == json_string_literal(s@),
        (forall|i: int| 0 <= i < s@.len() ==> !needs_escape(#[trigger] s@[i])) ==> r@ == seq!['"']
            + s@ + seq!['"'],
{
    match serde_json::to_string(s) {
        Ok(t) => t,
        Err(_) => String::new(),
    }
}

pub open spec fn digit_char(d: nat) -> char {
    ((d + 48) as u8) as char
}

/// The decimal digits of `n`, most significant first.
pub open spec fn decimal_spec(n: nat) -> Seq<char>
    decreases n,
{
    if n < 10 {
        seq![digit_char(n)]
    } else {
        decimal_spec(n / 10).push(digit_char(n % 10))
    }
}

/// `parts`, separated by commas.
pub open spec fn join(parts: Seq<Seq<char>>) -> Seq<char>
    decreases parts.len(),
{
    if parts.len() == 0 {
        Seq::empty()
    } else if parts.len() == 1 {
        parts[0]
    } else {
        join(parts.drop_last()) + seq![','] + parts.last()
    }
}

/// The JSON text of one argument value.
pub open spec fn arg_text(a: JsonArg) -> Seq<char>
    decreases a,
{
    match a {
        JsonArg::Text(s) => json_string_literal(s),
        JsonArg::OutputOf(n) => seq!['{'] + json_string_literal("useOutputOfCallAt"@) + seq![':']
            + decimal_spec(n) + seq!['}'],
        JsonArg::Array(items) => seq!['['] + join(item_texts(items)) + seq![']'],
    }
}

/// The JSON text of each of `items`.
pub open spec fn item_texts(items: Seq<JsonArg>) -> Seq<Seq<char>>
    decreases items,
{
    Seq::new(
        items.len(),
        |j: int|
            if 0 <= j < items.len() {
                arg_text(items[j])
            } else {
                Seq::empty()
            },
    )
}

/// `"name":value`
pub open spec fn member_text(p: (Seq<char>, JsonArg)) -> Seq<char> {
    json_string_literal(p.0) + seq![':'] + arg_text(p.1)
}

/// The JSON object of one serialized transaction.
pub open spec fn record_text(r: RecordModel) -> Seq<char> {
    seq!['{'] + json_string_literal("protocol"@) + seq![':'] + json_string_literal(r.protocol)
        + seq![','] + json_string_literal("action"@) + seq![':'] + json_string_literal(r.action)
        + seq![','] + json_string_literal("args"@) + seq![':'] + seq!['{'] + join(
        member_texts(r.args),
    ) + seq!['}'] + seq!['}']
}

pub open spec fn member_texts(args: Seq<(Seq<char>, JsonArg)>) -> Seq<Seq<char>> {
    Seq::new(args.len(), |k: int| member_text(args[k]))
}

/// The JSON array of serialized transactions.
pub open spec fn records_text(rs: Seq<RecordModel>) -> Seq<char> {
    seq!['['] + join(record_texts(rs)) + seq![']']
}

pub open spec fn record_texts(rs: Seq<RecordModel>) -> Seq<Seq<char>> {
    Seq::new(rs.len(), |i: int| record_text(rs[i]))
}

pub proof fn lemma_join_step(parts: Seq<Seq<char>>, k: int)
    requires
        0 < k < parts.len(),
    ensures
        join(parts.subrange(0, k + 1)) == join(parts.subrange(0, k)) + seq![','] + parts[k],
{
    assert(parts.subrange(0, k + 1).drop_last() =~= parts.subrange(0, k));
}

pub proof fn lemma_join_first(parts: Seq<Seq<char>>)
    requires
        0 < parts.len(),
    ensures
        join(parts.subrange(0, 1)) == parts[0],
{
}

fn push_str(out: &mut String, s: &str)
    ensures
        final(out)@ == old(out)@ + s@,
{
    out.append(s);
}

/// Appends the decimal digits of `n`.
pub fn write_decimal(out: &mut String, n: usize)
    ensures
        final(out)@ == old(out)@ + decimal_spec(n as nat),
    decreases n,
{
    if n >= 10 {
        write_decimal(out, n / 10);
    }
    let d = (n % 10) as u8;
    out.push((d + 48u8) as char);
    proof {
        if n >= 10 {
            assert(old(out)@ + decimal_spec(n as nat) =~= old(out)@ + decimal_spec((n / 10) as nat)
                + seq![digit_char((n % 10) as nat)]);
        }
    }
    assert(out@ =~= old(out)@ + decimal_spec(n as nat));
}

/// Appends the JSON text of `w`.
pub fn write_arg(out: &mut String, w: &WireValue)
    ensures
        final(out)@ == old(out)@ + arg_text(w@),
    decreases w,
{
    match w {
        WireValue::Text(s) => {
            let q = quote(s.as_str());
            push_str(out, q.as_str());
        },
        WireValue::OutputOf(n) => {
            out.push('{');
            let key = quote("useOutputOfCallAt");
            push_str(out, key.as_str());
            out.push(':');
            write_decimal(out, *n);
            out.push('}');
            assert(out@ =~= old(out)@ + arg_text(w@));
        },
        WireValue::Array(items) => {
            proof {
                assert(decreases_to!(*w => w->Array_0));
            }
            let ghost start = out@;
            let ghost parts = Seq::new(
                items.len() as nat,
                |j: int| arg_text(wire_view(items@[j])),
            );
            out.push('[');
            let mut k: usize = 0;
            while k < items.len()
                invariant
                    k <= items.len(),
                    *w == WireValue::Array(*items),
                    decreases_to!(*w => *items),
                    parts.len() == items.len(),
                    forall|j: int|
                        0 <= j < items.len() ==> #[trigger] parts[j] == arg_text(
                            wire_view(items@[j]),
                        ),
                    out@ == start + seq!['['] + join(parts.subrange(0, k as int)),
                decreases items.len() - k,
            {
                proof {
                    assert(decreases_to!(*items => items[k as int]));
                }
                let ghost before = out@;
                if k > 0 {
                    out.push(',');
                }
                write_arg(out, &items[k]);
                proof {
                    if k > 0 {
                        lemma_join_step(parts, k as int);
                        assert(out@ =~= before + seq![','] + parts[k as int]);
                    } else {
                        lemma_join_first(parts);
                        assert(join(parts.subrange(0, 0)) =~= Seq::<char>::empty());
                        assert(out@ =~= before + parts[0]);
                    }
                }
                k += 1;
            }
            out.push(']');
            proof {
                assert(parts.subrange(0, items.len() as int) =~= parts);
                let inner = w@->Array_0;
                assert(item_texts(inner) =~= parts);
                assert(out@ =~= old(out)@ + arg_text(w@));
            }
        },
    }
}

/// Appends the JSON object of `r`.
pub fn write_record(out: &mut String, r: &WireRecord)
    ensures
        final(out)@ == old(out)@ + record_text(r@),
{
    proof {
        reveal_strlit("{");
        reveal_strlit("}");
        reveal_strlit(":");
        reveal_strlit(",");
    }
    let ghost parts = member_texts(r@.args);
    push_str(out, "{");
    push_str(out, quote("protocol").as_str());
    push_str(out, ":");
    push_str(out, quote(r.protocol.as_str()).as_str());
    push_str(out, ",");
    push_str(out, quote("action").as_str());
    push_str(out, ":");
    push_str(out, quote(r.action.as_str()).as_str());
    push_str(out, ",");
    push_str(out, quote("args").as_str());
    push_str(out, ":");
    push_str(out, "{");
    let ghost start = out@;
    let mut k: usize = 0;
    while k < r.args.len()
        invariant
            k <= r.args@.len(),
            parts == member_texts(r@.args),
            ":"@ == seq![':'],
            ","@ == seq![','],
            out@ == start + join(parts.subrange(0, k as int)),
        decreases r.args@.len() - k,
    {
        let ghost before = out@;
        if k > 0 {
            push_str(out, ",");
        }
        let ghost mid = out@;
        push_str(out, quote(r.args[k].0.as_str()).as_str());
        push_str(out, ":");
        write_arg(out, &r.args[k].1);
        proof {
            assert(r@.args[k as int] == arg_view(r.args@[k as int]));
            assert(out@ =~= mid + parts[k as int]);
            if k > 0 {
                lemma_join_step(parts, k as int);
                assert(mid =~= before + seq![',']);
            } else {
                lemma_join_first(parts);
                assert(join(parts.subrange(0, 0)) =~= Seq::<char>::empty());
            }
            assert(out@ =~= start + join(parts.subrange(0, k + 1)));
        }
        k += 1;
    }
    push_str(out, "}");
    push_str(out, "}");
    proof {
        assert(parts.subrange(0, r.args@.len() as int) =~= parts);
        assert(out@ =~= old(out)@ + record_text(r@));
    }
}

} // verus!
