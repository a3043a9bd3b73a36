use lease_market::error::ContractError;
use lease_market::order::{
    create_order, end_order, find_payment, handle_exception, u64_to_dec_string, OrderLedger,
};
use lease_market::order_type::{Coin, HandleAction, OrderStatus, Payment};
use lease_market::resource::{add_resources, update_resources, ResourceLedger};
use lease_market::resource_type::{
    Region, Resource, ResourceAttr, ResourceDetails, ResourceType, Status, NAT,
};

fn coins(amount: u128) -> Vec<Coin> {
    vec![Coin { denom: "uttnt".to_string(), amount }]
}

/// The resource of the worked scenario: base price 0, cpu ceiling 10 at unit
/// price 2, memory and bandwidth zeroed, so one block costs 20.
fn r1() -> Resource {
    Resource::new(
        "r1".to_string(),
        "owner".to_string(),
        0,
        ResourceAttr::new(
            ResourceDetails::new(10, 2),
            ResourceDetails::default(),
            ResourceDetails::default(),
            Region::Unknown,
            NAT::UnKnown,
        ),
        Status::Unused,
    )
}

fn market_with_r1() -> (ResourceLedger, OrderLedger) {
    let mut resources = ResourceLedger::new();
    assert_eq!(add_resources(&mut resources, true, vec![r1()]), Ok(()));
    (resources, OrderLedger::new())
}

#[test]
fn dec_string_renders_heights() {
    assert_eq!(u64_to_dec_string(0), "0");
    assert_eq!(u64_to_dec_string(7), "7");
    assert_eq!(u64_to_dec_string(100), "100");
    assert_eq!(u64_to_dec_string(90210), "90210");
    assert_eq!(u64_to_dec_string(u64::MAX), "18446744073709551615");
}

#[test]
fn find_payment_takes_first_settlement_coin() {
    let funds = vec![
        Coin { denom: "gold".to_string(), amount: 999 },
        Coin { denom: "uttnt".to_string(), amount: 3 },
        Coin { denom: "uttnt".to_string(), amount: 888 },
    ];
    assert_eq!(
        find_payment(&funds),
        Some(Coin { denom: "uttnt".to_string(), amount: 3 })
    );
    assert_eq!(
        find_payment(&vec![Coin { denom: "gold".to_string(), amount: 999 }]),
        None
    );
    assert_eq!(find_payment(&vec![]), None);
}

#[test]
fn create_order_locks_price_times_duration() {
    let (mut resources, mut orders) = market_with_r1();
    let order = create_order(
        &mut resources,
        &mut orders,
        100,
        "payer".to_string(),
        coins(60),
        "r1".to_string(),
        3,
    )
    .unwrap();
    assert_eq!(order.id, "100");
    assert_eq!(order.resource_id, "r1");
    assert_eq!(order.initiator, "payer");
    assert_eq!(order.start_height, 100);
    assert_eq!(order.end_height, 103);
    assert_eq!(order.locked_funds, 60);
    assert_eq!(order.status, OrderStatus::Active);
    assert_eq!(orders.get(&"100".to_string()).unwrap(), order);
    // the resource at once shows as unavailable
    assert_eq!(
        resources.get(&"r1".to_string()).unwrap().get_status(),
        Status::Suspended
    );
}

#[test]
fn create_order_rejects_bad_inputs() {
    let (mut resources, mut orders) = market_with_r1();
    assert_eq!(
        create_order(
            &mut resources,
            &mut orders,
            100,
            "payer".to_string(),
            coins(60),
            "ghost".to_string(),
            3
        ),
        Err(ContractError::NotFound)
    );
    // insufficient funds, and funds of the wrong denomination, are refused
    assert_eq!(
        create_order(
            &mut resources,
            &mut orders,
            100,
            "payer".to_string(),
            coins(59),
            "r1".to_string(),
            3
        ),
        Err(ContractError::OtherError)
    );
    assert_eq!(
        create_order(
            &mut resources,
            &mut orders,
            100,
            "payer".to_string(),
            vec![Coin { denom: "gold".to_string(), amount: 60 }],
            "r1".to_string(),
            3
        ),
        Err(ContractError::OtherError)
    );
    assert_eq!(
        create_order(
            &mut resources,
            &mut orders,
            100,
            "payer".to_string(),
            vec![],
            "r1".to_string(),
            3
        ),
        Err(ContractError::OtherError)
    );
    assert!(orders.get(&"100".to_string()).is_none());
    assert_eq!(
        resources.get(&"r1".to_string()).unwrap().get_status(),
        Status::Unused
    );
}

#[test]
fn second_lease_on_same_resource_fails() {
    let (mut resources, mut orders) = market_with_r1();
    assert!(create_order(
        &mut resources,
        &mut orders,
        100,
        "payer".to_string(),
        coins(60),
        "r1".to_string(),
        3
    )
    .is_ok());
    assert_eq!(
        create_order(
            &mut resources,
            &mut orders,
            101,
            "other".to_string(),
            coins(1000),
            "r1".to_string(),
            1
        ),
        Err(ContractError::OtherError)
    );
}

#[test]
fn end_order_pays_owner_at_expiry_and_not_before() {
    let (mut resources, mut orders) = market_with_r1();
    assert!(create_order(
        &mut resources,
        &mut orders,
        100,
        "payer".to_string(),
        coins(60),
        "r1".to_string(),
        3
    )
    .is_ok());

    // before the end height settlement always fails and changes nothing
    for height in [100, 101, 102] {
        assert_eq!(
            end_order(&mut resources, &mut orders, height, "100".to_string()),
            Err(ContractError::OtherError)
        );
        assert_eq!(
            orders.get(&"100".to_string()).unwrap().status,
            OrderStatus::Active
        );
        assert_eq!(
            resources.get(&"r1".to_string()).unwrap().get_status(),
            Status::Suspended
        );
    }

    // at the end height it pays exactly the locked funds to the owner
    let payment = end_order(&mut resources, &mut orders, 103, "100".to_string()).unwrap();
    assert_eq!(
        payment,
        Payment { to: "owner".to_string(), amount: 60, denom: "uttnt".to_string() }
    );
    assert_eq!(
        orders.get(&"100".to_string()).unwrap().status,
        OrderStatus::Expired
    );
    let freed = resources.get(&"r1".to_string()).unwrap();
    assert_eq!(freed.get_status(), Status::Unused);
    assert_eq!(freed.get_resource_attr().cpu.get_used(), 0);

    // an expired order cannot be settled a second time
    assert_eq!(
        end_order(&mut resources, &mut orders, 104, "100".to_string()),
        Err(ContractError::OtherError)
    );
    assert_eq!(
        end_order(&mut resources, &mut orders, 104, "999".to_string()),
        Err(ContractError::NotFound)
    );
}

#[test]
fn locked_funds_survive_later_resource_updates() {
    let (mut resources, mut orders) = market_with_r1();
    assert!(create_order(
        &mut resources,
        &mut orders,
        100,
        "payer".to_string(),
        coins(60),
        "r1".to_string(),
        3
    )
    .is_ok());
    assert!(end_order(&mut resources, &mut orders, 103, "100".to_string()).is_ok());

    // repricing the freed resource never touches the recorded escrow
    assert_eq!(
        update_resources(
            &mut resources,
            true,
            vec!["r1".to_string()],
            vec![ResourceType::Cpu(1000)]
        ),
        Ok(())
    );
    assert_eq!(orders.get(&"100".to_string()).unwrap().locked_funds, 60);
}

#[test]
fn handle_exception_is_admin_only() {
    let (mut resources, mut orders) = market_with_r1();
    assert!(create_order(
        &mut resources,
        &mut orders,
        100,
        "payer".to_string(),
        coins(60),
        "r1".to_string(),
        3
    )
    .is_ok());
    assert_eq!(
        handle_exception(
            &mut resources,
            &mut orders,
            false,
            "100".to_string(),
            HandleAction::MarkAsException
        ),
        Err(ContractError::Unauthorized)
    );
    assert_eq!(
        handle_exception(
            &mut resources,
            &mut orders,
            true,
            "999".to_string(),
            HandleAction::MarkAsException
        ),
        Err(ContractError::NotFound)
    );
}

#[test]
fn exception_toggle_between_active_and_exception() {
    let (mut resources, mut orders) = market_with_r1();
    assert!(create_order(
        &mut resources,
        &mut orders,
        100,
        "payer".to_string(),
        coins(60),
        "r1".to_string(),
        3
    )
    .is_ok());

    // an active order cannot be "restored to normal"
    assert_eq!(
        handle_exception(
            &mut resources,
            &mut orders,
            true,
            "100".to_string(),
            HandleAction::MarkAsNormal
        ),
        Err(ContractError::OtherError)
    );
    assert_eq!(
        handle_exception(
            &mut resources,
            &mut orders,
            true,
            "100".to_string(),
            HandleAction::MarkAsException
        ),
        Ok(None)
    );
    assert_eq!(
        orders.get(&"100".to_string()).unwrap().status,
        OrderStatus::Exception
    );
    // an exceptional order cannot be marked exceptional again
    assert_eq!(
        handle_exception(
            &mut resources,
            &mut orders,
            true,
            "100".to_string(),
            HandleAction::MarkAsException
        ),
        Err(ContractError::OtherError)
    );
    assert_eq!(
        handle_exception(
            &mut resources,
            &mut orders,
            true,
            "100".to_string(),
            HandleAction::MarkAsNormal
        ),
        Ok(None)
    );
    assert_eq!(
        orders.get(&"100".to_string()).unwrap().status,
        OrderStatus::Active
    );
}

#[test]
fn terminate_unreachable_from_active() {
    let (mut resources, mut orders) = market_with_r1();
    assert!(create_order(
        &mut resources,
        &mut orders,
        100,
        "payer".to_string(),
        coins(60),
        "r1".to_string(),
        3
    )
    .is_ok());
    // terminating an order that is still active fails and changes nothing
    assert_eq!(
        handle_exception(
            &mut resources,
            &mut orders,
            true,
            "100".to_string(),
            HandleAction::Terminate
        ),
        Err(ContractError::OtherError)
    );
    assert_eq!(
        orders.get(&"100".to_string()).unwrap().status,
        OrderStatus::Active
    );
    assert_eq!(
        resources.get(&"r1".to_string()).unwrap().get_status(),
        Status::Suspended
    );
}

#[test]
fn terminate_refunds_initiator_and_frees_resource() {
    let (mut resources, mut orders) = market_with_r1();
    assert!(create_order(
        &mut resources,
        &mut orders,
        100,
        "payer".to_string(),
        coins(60),
        "r1".to_string(),
        3
    )
    .is_ok());
    assert_eq!(
        handle_exception(
            &mut resources,
            &mut orders,
            true,
            "100".to_string(),
            HandleAction::MarkAsException
        ),
        Ok(None)
    );
    let refund = handle_exception(
        &mut resources,
        &mut orders,
        true,
        "100".to_string(),
        HandleAction::Terminate,
    )
    .unwrap();
    assert_eq!(
        refund,
        Some(Payment { to: "payer".to_string(), amount: 60, denom: "uttnt".to_string() })
    );
    assert_eq!(
        orders.get(&"100".to_string()).unwrap().status,
        OrderStatus::Terminated
    );
    assert_eq!(
        resources.get(&"r1".to_string()).unwrap().get_status(),
        Status::Unused
    );
    // a second termination of the same order fails: it is already terminated
    assert_eq!(
        handle_exception(
            &mut resources,
            &mut orders,
            true,
            "100".to_string(),
            HandleAction::Terminate
        ),
        Err(ContractError::OtherError)
    );
}

#[test]
fn order_status_defaults() {
    assert_eq!(OrderStatus::default(), OrderStatus::Exception);
    assert_eq!(HandleAction::default(), HandleAction::Terminate);
}

#[test]
fn settled_order_is_never_paid_twice() {
    let (mut resources, mut orders) = market_with_r1();
    assert!(create_order(
        &mut resources,
        &mut orders,
        100,
        "payer".to_string(),
        coins(60),
        "r1".to_string(),
        3
    )
    .is_ok());
    assert!(end_order(&mut resources, &mut orders, 103, "100".to_string()).is_ok());

    // the freed resource is leased again by a second order
    assert!(create_order(
        &mut resources,
        &mut orders,
        104,
        "other".to_string(),
        coins(60),
        "r1".to_string(),
        3
    )
    .is_ok());
    assert_eq!(
        resources.get(&"r1".to_string()).unwrap().get_status(),
        Status::Suspended
    );

    // settling the first order again must fail even though its resource is
    // suspended again: the escrow moved once already
    assert_eq!(
        end_order(&mut resources, &mut orders, 104, "100".to_string()),
        Err(ContractError::OtherError)
    );
    assert_eq!(
        orders.get(&"100".to_string()).unwrap().status,
        OrderStatus::Expired
    );
    // the second lease is untouched by the refused sweep
    assert_eq!(
        orders.get(&"104".to_string()).unwrap().status,
        OrderStatus::Active
    );
    assert_eq!(
        resources.get(&"r1".to_string()).unwrap().get_status(),
        Status::Suspended
    );
}

#[test]
fn exception_order_cannot_be_swept_by_settlement() {
    let (mut resources, mut orders) = market_with_r1();
    assert!(create_order(
        &mut resources,
        &mut orders,
        100,
        "payer".to_string(),
        coins(60),
        "r1".to_string(),
        3
    )
    .is_ok());
    assert_eq!(
        handle_exception(
            &mut resources,
            &mut orders,
            true,
            "100".to_string(),
            HandleAction::MarkAsException
        ),
        Ok(None)
    );
    // an order on administrative hold is not settleable, however expired
    assert_eq!(
        end_order(&mut resources, &mut orders, 200, "100".to_string()),
        Err(ContractError::OtherError)
    );
    assert_eq!(
        orders.get(&"100".to_string()).unwrap().status,
        OrderStatus::Exception
    );
    assert_eq!(
        resources.get(&"r1".to_string()).unwrap().get_status(),
        Status::Suspended
    );
}

#[test]
fn order_id_collision_is_refused() {
    let (mut resources, mut orders) = market_with_r1();
    let r2 = Resource::new(
        "r2".to_string(),
        "owner".to_string(),
        0,
        ResourceAttr::new(
            ResourceDetails::new(10, 2),
            ResourceDetails::default(),
            ResourceDetails::default(),
            Region::Unknown,
            NAT::UnKnown,
        ),
        Status::Unused,
    );
    assert_eq!(add_resources(&mut resources, true, vec![r2]), Ok(()));

    assert!(create_order(
        &mut resources,
        &mut orders,
        100,
        "payer".to_string(),
        coins(60),
        "r1".to_string(),
        3
    )
    .is_ok());
    // a second order in the same block would reuse id "100": refused whole
    assert_eq!(
        create_order(
            &mut resources,
            &mut orders,
            100,
            "other".to_string(),
            coins(1000),
            "r2".to_string(),
            3
        ),
        Err(ContractError::AlreadyExists)
    );
    // the first record is intact and the second resource was never allocated
    assert_eq!(orders.get(&"100".to_string()).unwrap().resource_id, "r1");
    assert_eq!(
        resources.get(&"r2".to_string()).unwrap().get_status(),
        Status::Unused
    );
}
