use vstd::prelude::*;

use vstd::string::StringExecFns;

use crate::error::ContractError;
use crate::order_type::{
    default_denom, default_denom_string, spec_find_payment, spec_funds_cover, Coin, HandleAction,
    Order, OrderStatus, Payment,
};
use crate::resource::ResourceLedger;
use crate::resource_type::{Resource, Status};

verus! {

/// The book of orders: a keyed store owning one `Order` per order id,
/// viewed abstractly as a map from id to record. Orders are never deleted.
pub struct OrderLedger {
    entries: Vec<Order>,
}

impl View for OrderLedger {
    type V = Map<Seq<char>, Order>;

    closed spec fn view(&self) -> Map<Seq<char>, Order> {
        Map::new(
            |k: Seq<char>|
                exists|i: int| 0 <= i < self.entries@.len() && self.entries@[i].id@ == k,
            |k: Seq<char>| self.entries@[order_idx_of(self.entries@, k)],
        )
    }
}

/// The index of the entry carrying id `k`; meaningful only while some entry
/// does and ids are unique.
spec fn order_idx_of(s: Seq<Order>, k: Seq<char>) -> int {
    choose|i: int| 0 <= i < s.len() && s[i].id@ == k
}

/// No two entries share an id.
spec fn order_ids_unique(s: Seq<Order>) -> bool {
    forall|i: int, j: int|
        0 <= i < j < s.len() ==> (#[trigger] s[i]).id@ != (#[trigger] s[j]).id@
}

impl OrderLedger {
    /// The representation invariant: ids are unique, so the map view loses
    /// nothing.
    pub closed spec fn inv(self) -> bool {
        order_ids_unique(self.entries@)
    }

    /// The ledger invariant: a faithful representation with each order filed
    /// under its own id.
    pub open spec fn wf(self) -> bool {
        &&& self.inv()
        &&& forall|k: Seq<char>| #[trigger] self@.contains_key(k) ==> self@[k].id@ == k
    }

    /// Entry `i` is what the map view stores under its id.
    proof fn lemma_entry_is_viewed(self, i: int)
        requires
            self.inv(),
            0 <= i < self.entries@.len(),
        ensures
            self@.contains_key(self.entries@[i].id@),
            self@[self.entries@[i].id@] == self.entries@[i],
    {
        let s = self.entries@;
        let k = s[i].id@;
        assert(exists|j: int| 0 <= j < s.len() && s[j].id@ == k);
        let j = order_idx_of(s, k);
        assert(0 <= j < s.len() && s[j].id@ == k);
        if i != j {
            assert(false);
        }
    }

    pub fn new() -> (r: Self)
        ensures
            r.wf(),
            r@ == Map::<Seq<char>, Order>::empty(),
    {
        let r = OrderLedger { entries: Vec::new() };
        proof {
            assert(r@ =~= Map::<Seq<char>, Order>::empty());
        }
        r
    }

    /// The index of the entry with the given id, if one is present.
    fn find(&self, id: &String) -> (r: Option<usize>)
        ensures
            match r {
                Some(i) => i < self.entries@.len() && self.entries@[i as int].id@ == id@,
                None => !self@.contains_key(id@),
            },
    {
        let mut i: usize = 0;
        while i < self.entries.len()
            invariant
                i <= self.entries@.len(),
                forall|j: int| 0 <= j < i ==> (#[trigger] self.entries@[j]).id@ != id@,
            decreases self.entries@.len() - i,
        {
            if self.entries[i].id == *id {
                return Some(i);
            }
            i = i + 1;
        }
        None
    }

    pub fn contains(&self, id: &String) -> (r: bool)
        requires
            self.inv(),
        ensures
            r == self@.contains_key(id@),
    {
        match self.find(id) {
            Some(i) => {
                proof {
                    self.lemma_entry_is_viewed(i as int);
                }
                true
            },
            None => false,
        }
    }

    /// Looks an order up by id, handing back a copy of the record.
    pub fn get(&self, id: &String) -> (r: Option<Order>)
        requires
            self.inv(),
        ensures
            match r {
                Some(order) => self@.contains_key(id@) && order == self@[id@],
                None => !self@.contains_key(id@),
            },
    {
        match self.find(id) {
            Some(i) => {
                proof {
                    self.lemma_entry_is_viewed(i as int);
                }
                Some(self.entries[i].clone())
            },
            None => None,
        }
    }

    /// Files `order` under its id, overwriting any record already there.
    pub fn put(&mut self, order: Order)
        requires
            old(self).inv(),
        ensures
            final(self).inv(),
            final(self)@ == old(self)@.insert(order.id@, order),
    {
        let ghost k = order.id@;
        let found = self.find(&order.id);
        match found {
            Some(i) => {
                proof {
                    self.lemma_entry_is_viewed(i as int);
                }
                self.entries[i] = order;
                proof {
                    let s0 = old(self).entries@;
                    let s1 = self.entries@;
                    assert(s1 =~= s0.update(i as int, order));
                    assert forall|k2: Seq<char>| #[trigger]
                        self@.contains_key(k2) implies old(self)@.insert(k, order).contains_key(k2)
                        && self@[k2] == old(self)@.insert(k, order)[k2] by {
                        let j = choose|j: int| 0 <= j < s1.len() && s1[j].id@ == k2;
                        self.lemma_entry_is_viewed(j);
                        if j != i {
                            old(self).lemma_entry_is_viewed(j);
                        }
                    }
                    assert forall|k2: Seq<char>| #[trigger]
                        old(self)@.insert(k, order).contains_key(k2) implies self@.contains_key(
                        k2,
                    ) by {
                        if k2 == k {
                            self.lemma_entry_is_viewed(i as int);
                        } else {
                            let j = choose|j: int| 0 <= j < s0.len() && s0[j].id@ == k2;
                            assert(0 <= j < s0.len() && s0[j].id@ == k2);
                            if j != i {
                                self.lemma_entry_is_viewed(j);
                            }
                        }
                    }
                    assert(self@ =~= old(self)@.insert(k, order));
                }
            },
            None => {
                self.entries.push(order);
                proof {
                    let s0 = old(self).entries@;
                    let s1 = self.entries@;
                    let n = s0.len() as int;
                    assert forall|i: int, j: int| 0 <= i < j < s1.len() implies (
                    #[trigger] s1[i]).id@ != (#[trigger] s1[j]).id@ by {
                        if j == n {
                            old(self).lemma_entry_is_viewed(i);
                        }
                    }
                    assert forall|k2: Seq<char>| #[trigger]
                        self@.contains_key(k2) implies old(self)@.insert(k, order).contains_key(k2)
                        && self@[k2] == old(self)@.insert(k, order)[k2] by {
                        let j = choose|j: int| 0 <= j < s1.len() && s1[j].id@ == k2;
                        self.lemma_entry_is_viewed(j);
                        if j != n {
                            old(self).lemma_entry_is_viewed(j);
                        }
                    }
                    assert forall|k2: Seq<char>| #[trigger]
                        old(self)@.insert(k, order).contains_key(k2) implies self@.contains_key(
                        k2,
                    ) by {
                        if k2 == k {
                            self.lemma_entry_is_viewed(n);
                        } else {
                            let j = choose|j: int| 0 <= j < s0.len() && s0[j].id@ == k2;
                            assert(0 <= j < s0.len() && s0[j].id@ == k2);
                            self.lemma_entry_is_viewed(j);
                        }
                    }
                    assert(self@ =~= old(self)@.insert(k, order));
                }
            },
        }
    }
}

/// The decimal digit for one value below ten.
pub open spec fn spec_digit_char(d: int) -> char {
    if d == 0 {
        '0'
    } else if d == 1 {
        '1'
    } else if d == 2 {
        '2'
    } else if d == 3 {
        '3'
    } else if d == 4 {
        '4'
    } else if d == 5 {
        '5'
    } else if d == 6 {
        '6'
    } else if d == 7 {
        '7'
    } else if d == 8 {
        '8'
    } else {
        '9'
    }
}

/// The usual decimal rendering of a nonnegative number, most significant
/// digit first, no leading zeroes.
pub open spec fn spec_dec_str(n: int) -> Seq<char>
    decreases n,
{
    if n < 10 {
        seq![spec_digit_char(n)]
    } else {
        spec_dec_str(n / 10).push(spec_digit_char(n % 10))
    }
}

/// The decimal digit for one value below ten, as a string slice.
fn digit_str(d: u64) -> (r: &'static str)
    requires
        d < 10,
    ensures
        r@ == seq![spec_digit_char(d as int)],
{
    let r = match d {
        0 => "0",
        1 => "1",
        2 => "2",
        3 => "3",
        4 => "4",
        5 => "5",
        6 => "6",
        7 => "7",
        8 => "8",
        _ => "9",
    };
    proof {
        reveal_strlit("0");
        reveal_strlit("1");
        reveal_strlit("2");
        reveal_strlit("3");
        reveal_strlit("4");
        reveal_strlit("5");
        reveal_strlit("6");
        reveal_strlit("7");
        reveal_strlit("8");
        reveal_strlit("9");
        assert(r@ =~= seq![spec_digit_char(d as int)]);
    }
    r
}

/// Renders a block height in decimal; order ids are derived this way from
/// the height of the creating block.
pub fn u64_to_dec_string(n: u64) -> (r: String)
    ensures
        r@ == spec_dec_str(n as int),
    decreases n,
{
    if n < 10 {
        String::from_str(digit_str(n))
    } else {
        let prefix = u64_to_dec_string(n / 10);
        let r = prefix.concat(digit_str(n % 10));
        proof {
            assert(r@ =~= spec_dec_str(n as int));
        }
        r
    }
}

/// The first attached coin of the settlement denomination, if any.
pub fn find_payment(funds: &Vec<Coin>) -> (r: Option<Coin>)
    ensures
        r == spec_find_payment(funds@),
{
    let denom = default_denom_string();
    let mut i: usize = 0;
    proof {
        assert(funds@.skip(0) =~= funds@);
    }
    while i < funds.len()
        invariant
            i <= funds@.len(),
            denom@ == default_denom(),
            spec_find_payment(funds@) == spec_find_payment(funds@.skip(i as int)),
        decreases funds@.len() - i,
    {
        proof {
            assert(funds@.skip(i as int).drop_first() =~= funds@.skip(i + 1));
            assert(funds@.skip(i as int)[0] == funds@[i as int]);
        }
        if funds[i].denom == denom {
            return Some(funds[i].clone());
        }
        i = i + 1;
    }
    proof {
        assert(funds@.skip(funds@.len() as int) =~= Seq::<Coin>::empty());
    }
    None
}

/// When `create_order` succeeds: the resource is registered, free to lease,
/// the attached funds cover its price for the whole duration, and the id the
/// creating height derives is not already taken (orders are permanent
/// records, never overwritten).
pub open spec fn spec_create_ok(
    rm: Map<Seq<char>, Resource>,
    om: Map<Seq<char>, Order>,
    resource_id: Seq<char>,
    height: u64,
    duration: u64,
    funds: Seq<Coin>,
) -> bool {
    &&& rm.contains_key(resource_id)
    &&& rm[resource_id].status is Unused
    &&& spec_funds_cover(funds, rm[resource_id].spec_price() * duration)
    &&& !om.contains_key(spec_dec_str(height as int))
}

/// Opens a rental order on a resource. Anyone may call; the caller locks
/// `price(resource) * duration` out of the attached funds of the settlement
/// denomination. On success the order (id derived from the creating block
/// height, window `[height, height + duration]`, status `Active`) is filed
/// and the resource is allocated in full, turning `Suspended`. An id already
/// taken (a second order in the same block) is refused: order records are
/// permanent and never overwritten. On any failure neither ledger changes.
pub fn create_order(
    resources: &mut ResourceLedger,
    orders: &mut OrderLedger,
    height: u64,
    sender: String,
    funds: Vec<Coin>,
    resource_id: String,
    duration: u64,
) -> (r: Result<Order, ContractError>)
    requires
        old(resources).wf(),
        old(orders).wf(),
        height + duration <= u64::MAX,
        old(resources)@.contains_key(resource_id@) && old(resources)@[resource_id@].status
            is Unused ==> old(resources)@[resource_id@].spec_price() <= u128::MAX && old(
            resources,
        )@[resource_id@].spec_price() * duration <= u128::MAX,
    ensures
        final(resources).wf(),
        final(orders).wf(),
        r is Ok <==> spec_create_ok(
            old(resources)@,
            old(orders)@,
            resource_id@,
            height,
            duration,
            funds@,
        ),
        r matches Ok(order) ==> {
            &&& order.id@ == spec_dec_str(height as int)
            &&& order.resource_id == resource_id
            &&& order.initiator == sender
            &&& order.start_height == height
            &&& order.end_height == height + duration
            &&& order.locked_funds == old(resources)@[resource_id@].spec_price() * duration
            &&& order.status is Active
            &&& final(orders)@ == old(orders)@.insert(order.id@, order)
            &&& final(resources)@ == old(resources)@.insert(
                resource_id@,
                old(resources)@[resource_id@].after_use(),
            )
        },
        r is Err ==> final(resources)@ == old(resources)@ && final(orders)@ == old(orders)@,
        !old(resources)@.contains_key(resource_id@) ==> r == Err::<Order, ContractError>(
            ContractError::NotFound,
        ),
        old(resources)@.contains_key(resource_id@) && !(old(resources)@[resource_id@].status
            is Unused && spec_funds_cover(
            funds@,
            old(resources)@[resource_id@].spec_price() * duration,
        )) ==> r == Err::<Order, ContractError>(ContractError::OtherError),
        old(resources)@.contains_key(resource_id@) && old(resources)@[resource_id@].status
            is Unused && spec_funds_cover(
            funds@,
            old(resources)@[resource_id@].spec_price() * duration,
        ) && old(orders)@.contains_key(spec_dec_str(height as int)) ==> r == Err::<
            Order,
            ContractError,
        >(ContractError::AlreadyExists),
{
    let mut resource = match resources.get(&resource_id) {
        None => {
            return Err(ContractError::NotFound);
        },
        Some(resource) => resource,
    };

    if resource.get_status() != Status::Unused {
        return Err(ContractError::OtherError);
    }

    let total_cost = resource.get_resource_price() * (duration as u128);

    match find_payment(&funds) {
        Some(coin) => {
            if coin.amount < total_cost {
                return Err(ContractError::OtherError);
            }
        },
        None => {
            return Err(ContractError::OtherError);
        },
    }

    let order_id = u64_to_dec_string(height);
    if orders.contains(&order_id) {
        return Err(ContractError::AlreadyExists);
    }

    let order = Order {
        id: order_id,
        resource_id,
        initiator: sender,
        start_height: height,
        end_height: height + duration,
        locked_funds: total_cost,
        status: OrderStatus::Active,
    };

    orders.put(order.clone());

    // cannot fail: the resource was just seen to be Unused
    let _ = resource.use_resource();
    resources.put(resource);

    Ok(order)
}

/// When `end_order` succeeds: the order is on the books, still `Active`
/// (escrow is paid out at most once; a settled, terminated or exceptional
/// order is refused) and past its end height, and the leased resource is
/// still registered and allocated.
pub open spec fn spec_end_ok(
    om: Map<Seq<char>, Order>,
    rm: Map<Seq<char>, Resource>,
    order_id: Seq<char>,
    height: u64,
) -> bool {
    &&& om.contains_key(order_id)
    &&& om[order_id].status is Active
    &&& height >= om[order_id].end_height
    &&& rm.contains_key(om[order_id].resource_id@)
    &&& rm[om[order_id].resource_id@].status is Suspended
}

/// Settles an expired order. Anyone may call (settlement is a permissionless
/// sweep): once the current height has reached an `Active` order's end
/// height, the escrowed funds go to the resource's owner, the order turns
/// `Expired` and the resource is freed. Only an `Active` order can be
/// settled, so escrow moves at most once; before the end height, and on any
/// other failure, nothing changes.
pub fn end_order(
    resources: &mut ResourceLedger,
    orders: &mut OrderLedger,
    height: u64,
    order_id: String,
) -> (r: Result<Payment, ContractError>)
    requires
        old(resources).wf(),
        old(orders).wf(),
    ensures
        final(resources).wf(),
        final(orders).wf(),
        r is Ok <==> spec_end_ok(old(orders)@, old(resources)@, order_id@, height),
        r matches Ok(payment) ==> {
            let order = old(orders)@[order_id@];
            &&& payment.to@ == old(resources)@[order.resource_id@].owner@
            &&& payment.amount == order.locked_funds
            &&& payment.denom@ == default_denom()
            &&& final(orders)@ == old(orders)@.insert(
                order_id@,
                Order { status: OrderStatus::Expired, ..order },
            )
            &&& final(resources)@ == old(resources)@.insert(
                order.resource_id@,
                old(resources)@[order.resource_id@].after_release(),
            )
        },
        r is Err ==> final(resources)@ == old(resources)@ && final(orders)@ == old(orders)@,
        !old(orders)@.contains_key(order_id@) ==> r == Err::<Payment, ContractError>(
            ContractError::NotFound,
        ),
        old(orders)@.contains_key(order_id@) && !(old(orders)@[order_id@].status is Active) ==> r
            == Err::<Payment, ContractError>(ContractError::OtherError),
        old(orders)@.contains_key(order_id@) && old(orders)@[order_id@].status is Active && height
            < old(orders)@[order_id@].end_height ==> r == Err::<Payment, ContractError>(
            ContractError::OtherError,
        ),
        old(orders)@.contains_key(order_id@) && old(orders)@[order_id@].status is Active && height
            >= old(orders)@[order_id@].end_height && !old(resources)@.contains_key(
            old(orders)@[order_id@].resource_id@,
        ) ==> r == Err::<Payment, ContractError>(ContractError::NotFound),
        old(orders)@.contains_key(order_id@) && old(orders)@[order_id@].status is Active && height
            >= old(orders)@[order_id@].end_height && old(resources)@.contains_key(
            old(orders)@[order_id@].resource_id@,
        ) && !(old(resources)@[old(orders)@[order_id@].resource_id@].status is Suspended) ==> r
            == Err::<Payment, ContractError>(ContractError::OtherError),
{
    let mut order = match orders.get(&order_id) {
        None => {
            return Err(ContractError::NotFound);
        },
        Some(order) => order,
    };

    if order.status != OrderStatus::Active {
        return Err(ContractError::OtherError);
    }

    if height < order.end_height {
        return Err(ContractError::OtherError);
    }

    let mut resource = match resources.get(&order.resource_id) {
        None => {
            return Err(ContractError::NotFound);
        },
        Some(resource) => resource,
    };

    if resource.get_status() != Status::Suspended {
        return Err(ContractError::OtherError);
    }

    let payment = Payment {
        to: resource.get_owner(),
        amount: order.locked_funds,
        denom: default_denom_string(),
    };

    order.status = OrderStatus::Expired;
    orders.put(order);

    // cannot fail: the resource was just seen to be Suspended
    let _ = resource.release_resource();
    resources.put(resource);

    Ok(payment)
}

/// When `handle_exception` succeeds (for an admin, on an order that is on
/// the books): each action demands its source status, and termination
/// additionally demands the leased resource registered and allocated.
pub open spec fn spec_handle_ok(
    om: Map<Seq<char>, Order>,
    rm: Map<Seq<char>, Resource>,
    order_id: Seq<char>,
    action: HandleAction,
) -> bool {
    &&& om.contains_key(order_id)
    &&& match action {
        HandleAction::MarkAsNormal => om[order_id].status is Exception,
        HandleAction::MarkAsException => om[order_id].status is Active,
        HandleAction::Terminate => om[order_id].status is Exception && rm.contains_key(
            om[order_id].resource_id@,
        ) && rm[om[order_id].resource_id@].status is Suspended,
    }
}

/// Administers an exceptional order; admin-only. `MarkAsException` parks an
/// `Active` order in `Exception`; `MarkAsNormal` brings it back to `Active`;
/// `Terminate` ends an `Exception` order for good, refunding the escrow to
/// the initiator and freeing the resource. Any action from a disallowed
/// source status fails with no effect at all.
pub fn handle_exception(
    resources: &mut ResourceLedger,
    orders: &mut OrderLedger,
    is_admin: bool,
    order_id: String,
    action: HandleAction,
) -> (r: Result<Option<Payment>, ContractError>)
    requires
        old(resources).wf(),
        old(orders).wf(),
    ensures
        final(resources).wf(),
        final(orders).wf(),
        r is Ok <==> is_admin && spec_handle_ok(old(orders)@, old(resources)@, order_id@, action),
        r is Ok ==> ({
            let order = old(orders)@[order_id@];
            match action {
                HandleAction::MarkAsNormal => r == Ok::<Option<Payment>, ContractError>(None)
                    && final(orders)@ == old(orders)@.insert(
                    order_id@,
                    Order { status: OrderStatus::Active, ..order },
                ) && final(resources)@ == old(resources)@,
                HandleAction::MarkAsException => r == Ok::<Option<Payment>, ContractError>(None)
                    && final(orders)@ == old(orders)@.insert(
                    order_id@,
                    Order { status: OrderStatus::Exception, ..order },
                ) && final(resources)@ == old(resources)@,
                HandleAction::Terminate => {
                    &&& r matches Ok(Some(payment)) && payment.to@ == order.initiator@
                        && payment.amount == order.locked_funds && payment.denom@
                        == default_denom()
                    &&& final(orders)@ == old(orders)@.insert(
                        order_id@,
                        Order { status: OrderStatus::Terminated, ..order },
                    )
                    &&& final(resources)@ == old(resources)@.insert(
                        order.resource_id@,
                        old(resources)@[order.resource_id@].after_release(),
                    )
                },
            }
        }),
        r is Err ==> final(resources)@ == old(resources)@ && final(orders)@ == old(orders)@,
        !is_admin ==> r == Err::<Option<Payment>, ContractError>(ContractError::Unauthorized),
        is_admin && !old(orders)@.contains_key(order_id@) ==> r == Err::<
            Option<Payment>,
            ContractError,
        >(ContractError::NotFound),
        is_admin && old(orders)@.contains_key(order_id@) && !spec_handle_ok(
            old(orders)@,
            old(resources)@,
            order_id@,
            action,
        ) ==> r == Err::<Option<Payment>, ContractError>(
            if action is Terminate && old(orders)@[order_id@].status is Exception && !old(
                resources,
            )@.contains_key(old(orders)@[order_id@].resource_id@) {
                ContractError::NotFound
            } else {
                ContractError::OtherError
            },
        ),
{
    if !is_admin {
        return Err(ContractError::Unauthorized);
    }

    let mut order = match orders.get(&order_id) {
        None => {
            return Err(ContractError::NotFound);
        },
        Some(order) => order,
    };

    match action {
        HandleAction::MarkAsNormal => {
            if order.status == OrderStatus::Exception {
                order.status = OrderStatus::Active;
                orders.put(order);
                Ok(None)
            } else {
                Err(ContractError::OtherError)
            }
        },
        HandleAction::MarkAsException => {
            if order.status == OrderStatus::Active {
                order.status = OrderStatus::Exception;
                orders.put(order);
                Ok(None)
            } else {
                Err(ContractError::OtherError)
            }
        },
        HandleAction::Terminate => {
            if order.status == OrderStatus::Exception {
                let mut resource = match resources.get(&order.resource_id) {
                    None => {
                        return Err(ContractError::NotFound);
                    },
                    Some(resource) => resource,
                };

                if resource.get_status() != Status::Suspended {
                    return Err(ContractError::OtherError);
                }

                let payment = Payment {
                    to: order.initiator.clone(),
                    amount: order.locked_funds,
                    denom: default_denom_string(),
                };

                order.status = OrderStatus::Terminated;
                orders.put(order);

                // cannot fail: the resource was just seen to be Suspended
                let _ = resource.release_resource();
                resources.put(resource);

                Ok(Some(payment))
            } else {
                Err(ContractError::OtherError)
            }
        },
    }
}

/// A resource under lease cannot be leased again: after a successful
/// `create_order` against `resource_id` has allocated the resource, a second
/// `create_order` against the same resource is never owed success -- at any
/// height, for any duration, any attached funds and any state of the order
/// book -- until the resource is released.
pub proof fn lemma_no_second_lease(
    rm: Map<Seq<char>, Resource>,
    om: Map<Seq<char>, Order>,
    resource_id: Seq<char>,
    height: u64,
    duration: u64,
    funds: Seq<Coin>,
    om2: Map<Seq<char>, Order>,
    height2: u64,
    duration2: u64,
    funds2: Seq<Coin>,
)
    requires
        spec_create_ok(rm, om, resource_id, height, duration, funds),
    ensures
        !spec_create_ok(
            rm.insert(resource_id, rm[resource_id].after_use()),
            om2,
            resource_id,
            height2,
            duration2,
            funds2,
        ),
{
}

/// Escrow leaves the contract at most once per order: after a successful
/// settlement has marked the order `Expired`, a second settlement of the
/// same order is never owed success -- at any height and whatever the
/// resource ledger has come to hold (even with the resource leased again).
pub proof fn lemma_settle_at_most_once(
    om: Map<Seq<char>, Order>,
    rm: Map<Seq<char>, Resource>,
    order_id: Seq<char>,
    height: u64,
    rm2: Map<Seq<char>, Resource>,
    height2: u64,
)
    requires
        spec_end_ok(om, rm, order_id, height),
    ensures
        !spec_end_ok(
            om.insert(order_id, Order { status: OrderStatus::Expired, ..om[order_id] }),
            rm2,
            order_id,
            height2,
        ),
{
}

/// Termination is reachable only through `Exception`: on an order whose
/// status is anything else -- in particular a still `Active` one -- the
/// `Terminate` action is never owed success, whatever the resource ledger
/// holds.
pub proof fn lemma_terminate_needs_exception(
    om: Map<Seq<char>, Order>,
    rm: Map<Seq<char>, Resource>,
    order_id: Seq<char>,
)
    requires
        om.contains_key(order_id),
        !(om[order_id].status is Exception),
    ensures
        !spec_handle_ok(om, rm, order_id, HandleAction::Terminate),
{
}

} // verus!
