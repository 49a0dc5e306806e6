use vstd::prelude::*;

use crate::catalog::{
    action_call, enso_protocol, is_call_action, is_enso_protocol, Action, Protocol,
};
use crate::json::{
    decimal_spec, join, lemma_join_first, lemma_join_step, record_texts, records_text,
    write_decimal, write_record,
};
use crate::wire::{wire_view, JsonArg, RecordModel, WireRecord, WireValue};

verus! {

/// A transaction argument.
#[derive(Debug)]
pub enum ParamValue {
    /// A literal string.
    Value(String),
    /// The output of the transaction just before this one.
    LastTransaction,
    /// The output of the transaction at the given position in the bundle.
    Transaction(usize),
    /// An array argument; nested references are relative to the enclosing
    /// transaction.
    ValueArray(Vec<ParamValue>),
}

impl Clone for ParamValue {
    fn clone(&self) -> (r: Self)
        decreases self,
    {
        match self {
            ParamValue::Value(v) => ParamValue::Value(v.clone()),
            ParamValue::LastTransaction => ParamValue::LastTransaction,
            ParamValue::Transaction(t) => ParamValue::Transaction(*t),
            ParamValue::ValueArray(values) => {
                proof {
                    assert(decreases_to!(*self => self->ValueArray_0));
                }
                let mut items: Vec<ParamValue> = Vec::new();
                let mut k: usize = 0;
                while k < values.len()
                    invariant
                        k <= values.len(),
                        decreases_to!(*self => *values),
                    decreases values.len() - k,
                {
                    proof {
                        assert(decreases_to!(*values => values[k as int]));
                    }
                    let item = values[k].clone();
                    items.push(item);
                    k += 1;
                }
                ParamValue::ValueArray(items)
            },
        }
    }
}

/// The wire meaning of `v` when it is an argument of the transaction at
/// position `i`.
pub open spec fn resolve_spec(v: ParamValue, i: nat) -> JsonArg
    decreases v,
{
    match v {
        ParamValue::Value(s) => JsonArg::Text(s@),
        ParamValue::LastTransaction => if i > 0 {
            JsonArg::OutputOf((i - 1) as nat)
        } else {
            JsonArg::Text(seq!['0'])
        },
        ParamValue::Transaction(n) => JsonArg::OutputOf(n as nat),
        ParamValue::ValueArray(items) => JsonArg::Array(
            Seq::new(
                items.len() as nat,
                |j: int|
                    if 0 <= j < items.len() {
                        resolve_spec(items[j], i)
                    } else {
                        JsonArg::Text(Seq::empty())
                    },
            ),
        ),
    }
}

/// Resolves one argument of the transaction at position `current_tx`.
pub fn resolve(value: &ParamValue, current_tx: usize) -> (r: WireValue)
    ensures
        r@ == resolve_spec(*value, current_tx as nat),
    decreases value,
{
    match value {
        ParamValue::Value(v) => WireValue::Text(v.clone()),
        ParamValue::LastTransaction => {
            if current_tx > 0 {
                WireValue::OutputOf(current_tx - 1)
            } else {
                let mut zero = String::new();
                zero.push('0');
                WireValue::Text(zero)
            }
        },
        ParamValue::Transaction(t) => WireValue::OutputOf(*t),
        ParamValue::ValueArray(values) => {
            proof {
                assert(decreases_to!(*value => value->ValueArray_0));
            }
            let mut array: Vec<WireValue> = Vec::new();
            let mut k: usize = 0;
            while k < values.len()
                invariant
                    k <= values.len(),
                    array@.len() == k,
                    *value == ParamValue::ValueArray(*values),
                    decreases_to!(*value => *values),
                    forall|j: int|
                        0 <= j < k ==> wire_view(#[trigger] array@[j]) == resolve_spec(
                            values@[j],
                            current_tx as nat,
                        ),
                decreases values.len() - k,
            {
                proof {
                    assert(decreases_to!(*values => values[k as int]));
                }
                let item = resolve(&values[k], current_tx);
                array.push(item);
                k += 1;
            }
            let r = WireValue::Array(array);
            proof {
                let got = r@->Array_0;
                let want = resolve_spec(*value, current_tx as nat)->Array_0;
                assert(got.len() == want.len());
                assert forall|j: int| 0 <= j < got.len() implies got[j] == want[j] by {
                    assert(got[j] == wire_view(array@[j]));
                }
                assert(got =~= want);
            }
            r
        },
    }
}

/// One action bound to its arguments; `args[k]` binds to `action.inputs[k]`.
pub struct Transaction {
    pub protocol: Protocol,
    pub action: Action,
    pub args: Vec<ParamValue>,
}

/// An ordered batch of transactions for one chain. A transaction's index is
/// its position in `transactions`.
pub struct Bundle {
    pub chain_id: u32,
    pub transactions: Vec<Transaction>,
}

/// How many arguments of `tx` reach the wire: those that have a parameter.
pub open spec fn bound_len(tx: Transaction) -> nat {
    if tx.args@.len() <= tx.action.inputs@.len() {
        tx.args@.len()
    } else {
        tx.action.inputs@.len()
    }
}

/// The record that `tx` serializes to when it stands at index `i`.
pub open spec fn record_spec(tx: Transaction, i: nat) -> RecordModel {
    RecordModel {
        protocol: tx.protocol.slug@,
        action: tx.action.action@,
        args: Seq::new(
            bound_len(tx),
            |k: int| (tx.action.inputs@[k].0@, resolve_spec(tx.args@[k], i)),
        ),
    }
}

/// The records that `b` serializes to, one per transaction, in order.
pub open spec fn wire_spec(b: Bundle) -> Seq<RecordModel> {
    Seq::new(
        b.transactions@.len(),
        |i: int| record_spec(b.transactions@[i], i as nat),
    )
}

impl Bundle {
    /// An empty bundle for the given chain.
    pub fn new(chain_id: u32) -> (r: Bundle)
        ensures
            r.chain_id == chain_id,
            r.transactions@.len() == 0,
    {
        Bundle { chain_id, transactions: Vec::new() }
    }

    /// Appends a transaction of the aggregator's own protocol.
    pub fn add_enso_action(&mut self, action: Action, args: Vec<ParamValue>)
        ensures
            final(self).chain_id == old(self).chain_id,
            final(self).transactions@.len() == old(self).transactions@.len() + 1,
            final(self).transactions@.drop_last() == old(self).transactions@,
            is_enso_protocol(final(self).transactions@.last().protocol),
            final(self).transactions@.last().action == action,
            final(self).transactions@.last().args == args,
    {
        self.add_action(enso_protocol(), action, args);
    }

    /// Appends a transaction; neither the number nor the content of the
    /// arguments is checked.
    pub fn add_action(&mut self, protocol: Protocol, action: Action, args: Vec<ParamValue>)
        ensures
            final(self).chain_id == old(self).chain_id,
            final(self).transactions@ == old(self).transactions@.push(
                Transaction { protocol, action, args },
            ),
    {
        self.transactions.push(Transaction { protocol, action, args });
    }

    /// Appends a direct call: `args` holds address, method and abi, and
    /// `abi_args` becomes the array bound to the call's last parameter.
    pub fn add_call(&mut self, args: Vec<ParamValue>, abi_args: Vec<ParamValue>)
        ensures
            final(self).chain_id == old(self).chain_id,
            final(self).transactions@.len() == old(self).transactions@.len() + 1,
            final(self).transactions@.drop_last() == old(self).transactions@,
            is_enso_protocol(final(self).transactions@.last().protocol),
            is_call_action(final(self).transactions@.last().action),
            final(self).transactions@.last().args@ == args@.push(ParamValue::ValueArray(abi_args)),
    {
        let mut args = args;
        args.push(ParamValue::ValueArray(abi_args));
        self.add_action(enso_protocol(), action_call(), args);
    }

    /// The records of this bundle, one per transaction, in order; each
    /// transaction's arguments resolved against its own index.
    pub fn to_wire(&self) -> (r: Vec<WireRecord>)
        ensures
            r@.len() == self.transactions@.len(),
            forall|i: int|
                0 <= i < r@.len() ==> (#[trigger] r@[i])@ == wire_spec(*self)[i],
    {
        let mut records: Vec<WireRecord> = Vec::new();
        let mut i: usize = 0;
        while i < self.transactions.len()
            invariant
                i <= self.transactions@.len(),
                records@.len() == i,
                forall|j: int| 0 <= j < i ==> (#[trigger] records@[j])@ == wire_spec(*self)[j],
            decreases self.transactions@.len() - i,
        {
            let tx = &self.transactions[i];
            let record = serialize_transaction(tx, i);
            records.push(record);
            i += 1;
        }
        records
    }

    /// The query of the submission request: the chain id in decimal and the
    /// sender's address.
    pub fn submission_query(&self, from_address: &str) -> (r: Vec<(String, String)>)
        ensures
            r@.len() == 2,
            r@[0].0@ == "chainId"@,
            r@[0].1@ == decimal_spec(self.chain_id as nat),
            r@[1].0@ == "fromAddress"@,
            r@[1].1@ == from_address@,
    {
        let mut chain = String::new();
        write_decimal(&mut chain, self.chain_id as usize);
        let mut r: Vec<(String, String)> = Vec::new();
        r.push((String::from_str("chainId"), chain));
        r.push((String::from_str("fromAddress"), String::from_str(from_address)));
        r
    }

    /// The bundle as JSON text: an array with one object per transaction,
    /// in order, each holding `protocol`, `action` and `args`.
    pub fn to_json(&self) -> (r: String)
        ensures
            r@ == records_text(wire_spec(*self)),
    {
        let records = self.to_wire();
        let ghost parts = record_texts(wire_spec(*self));
        let mut out = String::new();
        out.push('[');
        let mut k: usize = 0;
        while k < records.len()
            invariant
                k <= records@.len(),
                records@.len() == self.transactions@.len(),
                forall|i: int|
                    0 <= i < records@.len() ==> (#[trigger] records@[i])@ == wire_spec(*self)[i],
                parts == record_texts(wire_spec(*self)),
                out@ == seq!['['] + join(parts.subrange(0, k as int)),
            decreases records@.len() - k,
        {
            let ghost before = out@;
            if k > 0 {
                out.push(',');
            }
            let ghost mid = out@;
            write_record(&mut out, &records[k]);
            proof {
                assert(out@ =~= mid + parts[k as int]);
                if k > 0 {
                    lemma_join_step(parts, k as int);
                } else {
                    lemma_join_first(parts);
                    assert(join(parts.subrange(0, 0)) =~= Seq::<char>::empty());
                }
                assert(out@ =~= seq!['['] + join(parts.subrange(0, k + 1)));
            }
            k += 1;
        }
        out.push(']');
        proof {
            assert(parts.subrange(0, records@.len() as int) =~= parts);
            assert(out@ =~= records_text(wire_spec(*self)));
        }
        out
    }
}

/// Serializes `tx` as the transaction at index `current_tx`: arguments bind
/// to parameters by position, and those without a parameter are left out.
pub fn serialize_transaction(tx: &Transaction, current_tx: usize) -> (r: WireRecord)
    ensures
        r@ == record_spec(*tx, current_tx as nat),
{
    let mut args: Vec<(String, WireValue)> = Vec::new();
    let mut k: usize = 0;
    let n = if tx.args.len() <= tx.action.inputs.len() {
        tx.args.len()
    } else {
        tx.action.inputs.len()
    };
    while k < n
        invariant
            n == bound_len(*tx),
            k <= n,
            args@.len() == k,
            forall|j: int|
                0 <= j < k ==> (#[trigger] args@[j]).0@ == tx.action.inputs@[j].0@
                    && args@[j].1@ == resolve_spec(tx.args@[j], current_tx as nat),
        decreases n - k,
    {
        let name = tx.action.inputs[k].0.clone();
        let value = resolve(&tx.args[k], current_tx);
        args.push((name, value));
        k += 1;
    }
    let r = WireRecord {
        protocol: tx.protocol.slug.clone(),
        action: tx.action.action.clone(),
        args,
    };
    proof {
        let want = record_spec(*tx, current_tx as nat);
        assert(r@.args =~= want.args);
    }
    r
}

/// A reference to the previous output, on the transaction at index `i`,
/// serializes to a reference to index `i - 1`, or to the string "0" on the
/// first transaction.
pub proof fn lemma_previous_output_resolution(b: Bundle, i: int, k: int)
    requires
        0 <= i < b.transactions@.len(),
        0 <= k < bound_len(b.transactions@[i]),
        b.transactions@[i].args@[k] is LastTransaction,
    ensures
        wire_spec(b)[i].args[k].1 == (if i > 0 {
            JsonArg::OutputOf((i - 1) as nat)
        } else {
            JsonArg::Text(seq!['0'])
        }),
{
}

/// Appending a transaction keeps every earlier record as it was and adds
/// one record, for the new transaction at the next index: a bundle of `k`
/// transactions serializes to `k` records, in insertion order.
pub proof fn lemma_append_keeps_records(before: Bundle, after: Bundle, tx: Transaction)
    requires
        after.transactions@ == before.transactions@.push(tx),
    ensures
        wire_spec(before).len() == before.transactions@.len(),
        wire_spec(after).len() == wire_spec(before).len() + 1,
        forall|j: int|
            0 <= j < wire_spec(before).len() ==> #[trigger] wire_spec(after)[j] == wire_spec(
                before,
            )[j],
        wire_spec(after).last() == record_spec(tx, before.transactions@.len()),
{
    assert forall|j: int| 0 <= j < wire_spec(before).len() implies #[trigger] wire_spec(after)[j]
        == wire_spec(before)[j] by {
        assert(after.transactions@[j] == before.transactions@[j]);
    }
}

/// Arguments bind to parameters by position: a record names the first
/// parameters of its schema, as many as there are arguments, and arguments
/// beyond the last parameter are dropped without error.
pub proof fn lemma_positional_binding(tx: Transaction, i: nat)
    ensures
        record_spec(tx, i).args.len() == (if tx.args@.len() <= tx.action.inputs@.len() {
            tx.args@.len()
        } else {
            tx.action.inputs@.len()
        }),
        forall|k: int|
            0 <= k < record_spec(tx, i).args.len() ==> (#[trigger] record_spec(tx, i).args[k]).0
                == tx.action.inputs@[k].0@,
{
}

} // verus!
