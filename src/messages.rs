use vstd::prelude::*;

use crate::bundle::{Bundle, ParamValue, Transaction};
use crate::catalog::{Action, Network, Protocol};

verus! {

/// Transactions as the interface composes them.
pub type DataTransaction = Vec<(Action, Protocol, Vec<ParamValue>)>;

/// What the interface asks of the business side.
#[derive(Debug)]
pub enum UIRequest {
    GetNetworks,
    SetNetwork(u32),
    GetTokens,
    GetProtocols,
    GetActions,
    SendBundle(DataTransaction),
    Quit,
}

/// What the business side hands back to the interface.
#[derive(Debug)]
pub enum BusinessResponse {
    Tokens(Vec<String>),
    Protocols(Vec<Protocol>),
    Actions(Vec<Action>),
    Networks(Vec<Network>),
}

/// The work that one request calls for.
pub enum Task {
    /// Read every page of the token listing of the chain.
    FetchTokens(u32),
    FetchProtocols,
    FetchActions,
    FetchNetworks,
    /// Submit the bundle.
    SubmitBundle(Bundle),
    /// Nothing to fetch or send.
    Nothing,
    /// Stop serving requests.
    Stop,
}

/// The chain used when none was selected.
pub open spec fn default_chain() -> u32 {
    1
}

/// `b` holds the transactions of `data`, in order, for the default chain.
pub open spec fn bundle_of(b: Bundle, data: Seq<(Action, Protocol, Vec<ParamValue>)>) -> bool {
    &&& b.chain_id == default_chain()
    &&& b.transactions@.len() == data.len()
    &&& forall|i: int|
        0 <= i < data.len() ==> (#[trigger] b.transactions@[i]) == (Transaction {
            protocol: data[i].1,
            action: data[i].0,
            args: data[i].2,
        })
}

/// Builds the bundle to submit from the transactions the interface composed.
pub fn bundle_from_data(data: DataTransaction) -> (r: Bundle)
    ensures
        bundle_of(r, data@),
{
    let ghost all = data@;
    let mut rest = data;
    let mut bundle = Bundle::new(1);
    while rest.len() > 0
        invariant
            bundle.chain_id == default_chain(),
            bundle.transactions@.len() + rest@.len() == all.len(),
            rest@ == all.subrange(bundle.transactions@.len() as int, all.len() as int),
            forall|i: int|
                0 <= i < bundle.transactions@.len() ==> (#[trigger] bundle.transactions@[i]) == (
                Transaction { protocol: all[i].1, action: all[i].0, args: all[i].2 }),
        decreases rest@.len(),
    {
        let ghost done = bundle.transactions@.len() as int;
        let (action, protocol, args) = rest.remove(0);
        bundle.add_action(protocol, action, args);
        assert(rest@ =~= all.subrange(done + 1, all.len() as int));
    }
    bundle
}

/// Decides what a request calls for; `chain_id` is the selected chain,
/// which `SetNetwork` changes. A closed channel (`None`) stops the loop.
pub fn plan_request(chain_id: &mut Option<u32>, request: Option<UIRequest>) -> (r: Task)
    ensures
        request matches Some(UIRequest::SetNetwork(id)) ==> *final(chain_id) == Some(id) && r is Nothing,
        !(request matches Some(UIRequest::SetNetwork(_))) ==> *final(chain_id) == *old(chain_id),
        request matches Some(UIRequest::GetTokens) ==> r == Task::FetchTokens(
            match *old(chain_id) {
                Some(id) => id,
                None => default_chain(),
            },
        ),
        request matches Some(UIRequest::GetProtocols) ==> r is FetchProtocols,
        request matches Some(UIRequest::GetActions) ==> r is FetchActions,
        request matches Some(UIRequest::GetNetworks) ==> r is FetchNetworks,
        request matches Some(UIRequest::SendBundle(data)) ==> r matches Task::SubmitBundle(b)
            && bundle_of(b, data@),
        request matches Some(UIRequest::Quit) ==> r is Stop,
        request is None ==> r is Stop,
{
    match request {
        Some(UIRequest::GetTokens) => Task::FetchTokens(
            match *chain_id {
                Some(id) => id,
                None => 1,
            },
        ),
        Some(UIRequest::GetProtocols) => Task::FetchProtocols,
        Some(UIRequest::GetActions) => Task::FetchActions,
        Some(UIRequest::GetNetworks) => Task::FetchNetworks,
        Some(UIRequest::SendBundle(data)) => Task::SubmitBundle(bundle_from_data(data)),
        Some(UIRequest::SetNetwork(id)) => {
            *chain_id = Some(id);
            Task::Nothing
        },
        Some(UIRequest::Quit) => Task::Stop,
        None => Task::Stop,
    }
}

} // verus!
