use vstd::prelude::*;

use vstd::string::StringExecFns;

verus! {

/// Where an order stands in its life. `Active` is the state set at creation;
/// `Expired` (paid out) and `Terminated` (refunded) are terminal; `Exception`
/// is the administrative detour from which termination is reachable.
#[derive(Clone, Copy, Debug, PartialEq, Eq, Structural)]
pub enum OrderStatus {
    Active,
    Expired,
    Exception,
    Terminated,
}

impl Default for OrderStatus {
    /// Unstated orders count as exceptional until settled by hand.
    fn default() -> (r: Self)
        ensures
            r is Exception,
    {
        OrderStatus::Exception
    }
}

/// What an administrator may do to an order through `handle_exception`.
#[derive(Clone, Copy, Debug, PartialEq, Eq, Structural)]
pub enum HandleAction {
    MarkAsNormal,
    MarkAsException,
    Terminate,
}

impl Default for HandleAction {
    fn default() -> (r: Self)
        ensures
            r is Terminate,
    {
        HandleAction::Terminate
    }
}

/// A rental record: which resource is leased, by whom, over which block
/// window, and how much is held in escrow. `locked_funds` is fixed at
/// creation and never recomputed. Orders are kept forever, never deleted.
#[derive(Debug, PartialEq, Eq)]
pub struct Order {
    pub id: String,
    pub resource_id: String,
    pub initiator: String,
    pub start_height: u64,
    pub end_height: u64,
    pub locked_funds: u128,
    pub status: OrderStatus,
}

impl Clone for Order {
    fn clone(&self) -> (res: Self)
        ensures
            res == *self,
    {
        Order {
            id: self.id.clone(),
            resource_id: self.resource_id.clone(),
            initiator: self.initiator.clone(),
            start_height: self.start_height,
            end_height: self.end_height,
            locked_funds: self.locked_funds,
            status: self.status,
        }
    }
}

/// One denomination of attached payment, as handed in by the host.
#[derive(Debug, PartialEq, Eq)]
pub struct Coin {
    pub denom: String,
    pub amount: u128,
}

impl Clone for Coin {
    fn clone(&self) -> (res: Self)
        ensures
            res == *self,
    {
        Coin { denom: self.denom.clone(), amount: self.amount }
    }
}

/// An instruction to the host's bank: send `amount` of `denom` to `to`.
/// Settlement and refund are expressed as such instructions; the core never
/// talks to a bank itself.
#[derive(Debug, PartialEq, Eq)]
pub struct Payment {
    pub to: String,
    pub amount: u128,
    pub denom: String,
}

impl Clone for Payment {
    fn clone(&self) -> (res: Self)
        ensures
            res == *self,
    {
        Payment { to: self.to.clone(), amount: self.amount, denom: self.denom.clone() }
    }
}

/// The single denomination accepted for settlement; coins of any other
/// denomination are ignored when checking sufficiency.
pub open spec fn default_denom() -> Seq<char> {
    "uttnt"@
}

/// The settlement denomination as a `String`, for building and checking
/// payments.
pub fn default_denom_string() -> (r: String)
    ensures
        r@ == default_denom(),
{
    String::from_str("uttnt")
}

/// The first attached coin of the settlement denomination, if any: only that
/// coin counts towards the price of an order.
pub open spec fn spec_find_payment(funds: Seq<Coin>) -> Option<Coin>
    decreases funds.len(),
{
    if funds.len() == 0 {
        None
    } else if funds[0].denom@ == default_denom() {
        Some(funds[0])
    } else {
        spec_find_payment(funds.drop_first())
    }
}

/// Whether the attached funds cover `cost` in the settlement denomination.
pub open spec fn spec_funds_cover(funds: Seq<Coin>, cost: int) -> bool {
    match spec_find_payment(funds) {
        Some(coin) => coin.amount >= cost,
        None => false,
    }
}

} // verus!
