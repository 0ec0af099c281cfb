//! Texts of the progress events that contract lifecycle steps publish.

use vstd::prelude::*;
use crate::address::address_text;
use crate::client::{ContractHandle, HandleView};
use crate::registry::{PlanView, ResolvePlan};

verus! {

/// An event text tagged with the contract it concerns.
pub open spec fn tagged(name: Seq<char>, text: Seq<char>) -> Seq<char> {
    "<b>["@ + name + "]</b> "@ + text
}

/// The event published when a resolution starts.
pub open spec fn resolving_text(name: Seq<char>, plan: PlanView) -> Seq<char> {
    match plan {
        PlanView::Attach(a) => tagged(name, "recreating contract "@ + name + ".sol from address "@ + a),
        PlanView::Deploy => tagged(name, "deploying contract "@ + name + ".sol ..."@),
    }
}

/// The event published when a deployment has been mined.
pub open spec fn deployed_text(h: HandleView) -> Seq<char> {
    tagged(h.name, h.name + ".sol deployed to address "@ + address_text(h.address))
}

/// `<b>[name]</b> ` followed by `text`.
pub fn contract_event(name: &str, text: &str) -> (r: String)
    ensures
        r@ == tagged(name@, text@),
{
    String::from_str("<b>[").concat(name).concat("]</b> ").concat(text)
}

/// The event for the start of a resolution of `name` along `plan`.
pub fn resolving_event(name: &str, plan: &ResolvePlan) -> (r: String)
    ensures
        r@ == resolving_text(name@, plan@),
{
    let text = match plan {
        ResolvePlan::Attach(a) => String::from_str("recreating contract ").concat(name).concat(
            ".sol from address ",
        ).concat(a.as_str()),
        ResolvePlan::Deploy => String::from_str("deploying contract ").concat(name).concat(
            ".sol ...",
        ),
    };
    let r = contract_event(name, text.as_str());
    match plan {
        ResolvePlan::Attach(a) => {
            assert(r@ =~= resolving_text(name@, plan@));
        },
        ResolvePlan::Deploy => {
            assert(r@ =~= resolving_text(name@, plan@));
        },
    }
    r
}

/// The event for a mined deployment.
pub fn deployed_event(handle: &ContractHandle) -> (r: String)
    ensures
        r@ == deployed_text(handle@),
{
    let text = handle.name.clone().concat(".sol deployed to address ").concat(
        handle.address_hex().as_str(),
    );
    let r = contract_event(handle.name.as_str(), text.as_str());
    assert(r@ =~= deployed_text(handle@));
    r
}

} // verus!
