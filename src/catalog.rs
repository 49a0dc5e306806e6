use vstd::prelude::*;

verus! {

/// A named remote operation with its parameters, in positional order:
/// each entry is (parameter name, description).
#[derive(Clone, Debug)]
pub struct Action {
    pub action: String,
    pub inputs: Vec<(String, String)>,
}

/// A protocol that an action belongs to.
#[derive(Clone, Debug)]
pub struct Protocol {
    pub slug: String,
    pub url: String,
}

/// A chain that the service supports.
#[derive(Clone, Debug)]
pub struct Network {
    pub id: u32,
    pub name: String,
}

/// The parameters of a schema from the fields of its catalog entry, in the
/// order they came: a field whose value is not a string gets an empty
/// description.
pub fn inputs_from_fields(fields: Vec<(String, Option<String>)>) -> (r: Vec<(String, String)>)
    ensures
        r@.len() == fields@.len(),
        forall|i: int|
            0 <= i < r@.len() ==> (#[trigger] r@[i]).0 == fields@[i].0 && match fields@[i].1 {
                Some(d) => r@[i].1 == d,
                None => r@[i].1@.len() == 0,
            },
{
    let ghost all = fields@;
    let mut rest = fields;
    let mut r: Vec<(String, String)> = Vec::new();
    while rest.len() > 0
        invariant
            r@.len() + rest@.len() == all.len(),
            rest@ == all.subrange(r@.len() as int, all.len() as int),
            forall|i: int|
                0 <= i < r@.len() ==> (#[trigger] r@[i]).0 == all[i].0 && match all[i].1 {
                    Some(d) => r@[i].1 == d,
                    None => r@[i].1@.len() == 0,
                },
        decreases rest@.len(),
    {
        let ghost done = r@.len() as int;
        let (name, value) = rest.remove(0);
        let description = match value {
            Some(d) => d,
            None => String::new(),
        };
        r.push((name, description));
        assert(rest@ =~= all.subrange(done + 1, all.len() as int));
    }
    r
}

/// `p` is the aggregator's own protocol.
pub open spec fn is_enso_protocol(p: Protocol) -> bool {
    &&& p.slug@ == "enso"@
    &&& p.url@ == "https://api.enso.finance"@
}

/// `a` is the built-in direct-call schema: parameters address, method, abi
/// and args, in that order, with empty descriptions.
pub open spec fn is_call_action(a: Action) -> bool {
    &&& a.action@ == "call"@
    &&& a.inputs@.len() == 4
    &&& a.inputs@[0].0@ == "address"@
    &&& a.inputs@[1].0@ == "method"@
    &&& a.inputs@[2].0@ == "abi"@
    &&& a.inputs@[3].0@ == "args"@
    &&& forall|k: int| 0 <= k < 4 ==> (#[trigger] a.inputs@[k]).1@.len() == 0
}

fn named_input(name: &str) -> (r: (String, String))
    ensures
        r.0@ == name@,
        r.1@.len() == 0,
{
    (String::from_str(name), String::new())
}

/// The built-in direct-call schema, available without any remote fetch.
pub fn action_call() -> (r: Action)
    ensures
        is_call_action(r),
{
    let mut inputs: Vec<(String, String)> = Vec::new();
    inputs.push(named_input("address"));
    inputs.push(named_input("method"));
    inputs.push(named_input("abi"));
    inputs.push(named_input("args"));
    Action { action: String::from_str("call"), inputs }
}

/// The aggregator's own protocol descriptor.
pub fn enso_protocol() -> (r: Protocol)
    ensures
        is_enso_protocol(r),
{
    Protocol { slug: String::from_str("enso"), url: String::from_str("https://api.enso.finance") }
}

} // verus!
