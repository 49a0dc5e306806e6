use vstd::prelude::*;

verus! {

/// What a resolved argument means on the wire: a string, a reference to the
/// output of the transaction at an index, or an array of such values.
pub enum JsonArg {
    Text(Seq<char>),
    OutputOf(nat),
    Array(Seq<JsonArg>),
}

/// A resolved argument, ready to be written out.
#[derive(Debug)]
pub enum WireValue {
    Text(String),
    OutputOf(usize),
    Array(Vec<WireValue>),
}

pub open spec fn wire_view(w: WireValue) -> JsonArg
    decreases w,
{
    match w {
        WireValue::Text(s) => JsonArg::Text(s@),
        WireValue::OutputOf(n) => JsonArg::OutputOf(n as nat),
        WireValue::Array(items) => JsonArg::Array(
            Seq::new(
                items.len() as nat,
                |j: int|
                    if 0 <= j < items.len() {
                        wire_view(items[j])
                    } else {
                        JsonArg::Text(Seq::empty())
                    },
            ),
        ),
    }
}

impl View for WireValue {
    type V = JsonArg;

    open spec fn view(&self) -> JsonArg {
        wire_view(*self)
    }
}

/// What one serialized transaction means: its protocol slug, its action name,
/// and its arguments as (parameter name, value) pairs in parameter order.
pub struct RecordModel {
    pub protocol: Seq<char>,
    pub action: Seq<char>,
    pub args: Seq<(Seq<char>, JsonArg)>,
}

/// One serialized transaction.
#[derive(Debug)]
pub struct WireRecord {
    pub protocol: String,
    pub action: String,
    pub args: Vec<(String, WireValue)>,
}

pub open spec fn arg_view(p: (String, WireValue)) -> (Seq<char>, JsonArg) {
    (p.0@, p.1@)
}

impl View for WireRecord {
    type V = RecordModel;

    open spec fn view(&self) -> RecordModel {
        RecordModel {
            protocol: self.protocol@,
            action: self.action@,
            args: self.args@.map_values(|p: (String, WireValue)| arg_view(p)),
        }
    }
}

} // verus!
