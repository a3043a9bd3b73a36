use lease_market::error::ContractError;
use lease_market::resource::{
    add_resources, delete_resources, query_resources, release_resources, update_resources,
    use_resources, ResourceLedger,
};
use lease_market::resource_type::{
    Region, Resource, ResourceAttr, ResourceDetails, ResourceType, Status, NAT,
};

fn attr(cpu: ResourceDetails, memory: ResourceDetails, bandwidth: ResourceDetails) -> ResourceAttr {
    ResourceAttr::new(cpu, memory, bandwidth, Region::Unknown, NAT::UnKnown)
}

fn machine(id: &str, owner: &str, base_price: u128, cpu_total: u128, cpu_price: u128) -> Resource {
    Resource::new(
        id.to_string(),
        owner.to_string(),
        base_price,
        attr(
            ResourceDetails::new(cpu_total, cpu_price),
            ResourceDetails::default(),
            ResourceDetails::default(),
        ),
        Status::Unused,
    )
}

#[test]
fn details_add_used_within_ceiling() {
    let mut d = ResourceDetails::new(10, 2);
    assert_eq!(d.add_used(4), Ok(()));
    assert_eq!(d.get_used(), 4);
    assert_eq!(d.get_total(), 10);
    assert_eq!(d.add_used(6), Ok(()));
    assert_eq!(d.get_used(), 10);
    assert_eq!(d.get_total(), 10);
}

#[test]
fn details_add_used_overflow_rejected() {
    let mut d = ResourceDetails::new(10, 2);
    assert_eq!(d.add_used(4), Ok(()));
    assert_eq!(d.add_used(7), Err(ContractError::ResourceOverflow));
    // the failed attempt changed nothing, and usage never exceeds the ceiling
    assert_eq!(d.get_used(), 4);
    assert_eq!(d.get_total(), 10);
    assert!(d.get_used() <= d.get_total());
}

#[test]
fn details_release_used_and_over_release() {
    let mut d = ResourceDetails::new(10, 2);
    assert_eq!(d.add_used(8), Ok(()));
    assert_eq!(d.release_used(3), Ok(()));
    assert_eq!(d.get_used(), 5);
    assert_eq!(
        d.release_used(6),
        Err(ContractError::OverRelease { requested: 6, used: 5 })
    );
    assert_eq!(d.get_used(), 5);
}

#[test]
fn attr_routes_by_dimension_and_rejects_classifications() {
    let mut a = attr(
        ResourceDetails::new(10, 1),
        ResourceDetails::new(20, 1),
        ResourceDetails::new(30, 1),
    );
    assert_eq!(a.use_resource(ResourceType::Cpu(10)), Ok(()));
    assert_eq!(a.use_resource(ResourceType::Memory(5)), Ok(()));
    assert_eq!(a.use_resource(ResourceType::Bandwidth(30)), Ok(()));
    assert_eq!(a.cpu.get_used(), 10);
    assert_eq!(a.memory.get_used(), 5);
    assert_eq!(a.bandwidth.get_used(), 30);
    assert_eq!(
        a.use_resource(ResourceType::Nat(NAT::FullCone)),
        Err(ContractError::OtherError)
    );
    assert_eq!(
        a.release_resource(ResourceType::Region(Region::USA)),
        Err(ContractError::OtherError)
    );
    assert_eq!(a.release_resource(ResourceType::Memory(5)), Ok(()));
    assert_eq!(a.memory.get_used(), 0);
}

#[test]
fn attr_update_and_reset() {
    let mut a = attr(
        ResourceDetails::new(10, 1),
        ResourceDetails::new(20, 1),
        ResourceDetails::new(30, 1),
    );
    a.update_resource(ResourceType::Cpu(42));
    a.update_resource(ResourceType::Region(Region::Other("moon".to_string())));
    a.update_resource(ResourceType::Nat(NAT::Symmetric));
    assert_eq!(a.cpu.get_total(), 42);
    assert_eq!(a.region, Region::Other("moon".to_string()));
    assert_eq!(a.nat, NAT::Symmetric);

    assert_eq!(a.use_resource(ResourceType::Cpu(7)), Ok(()));
    a.reset();
    assert_eq!(a.cpu.get_used(), 0);
    assert_eq!(a.cpu.get_total(), 42);
}

#[test]
fn price_counts_provisioned_capacity_not_consumption() {
    // base 5 + cpu 2*10 + memory 3*4 + bandwidth 0*9 = 37
    let r = Resource::new(
        "r".to_string(),
        "o".to_string(),
        5,
        attr(
            ResourceDetails::new(10, 2),
            ResourceDetails::new(4, 3),
            ResourceDetails::new(9, 0),
        ),
        Status::Unused,
    );
    assert_eq!(r.get_resource_price(), 37);

    // allocating everything changes consumption, never the quote
    let mut leased = r.clone();
    assert_eq!(leased.use_resource(), Ok(()));
    assert_eq!(leased.get_resource_price(), 37);
}

#[test]
fn resource_use_and_release_cycle() {
    let mut r = machine("r", "o", 0, 10, 2);
    assert_eq!(r.use_resource(), Ok(()));
    assert_eq!(r.get_status(), Status::Suspended);
    assert_eq!(r.get_resource_attr().cpu.get_used(), 10);
    // a suspended resource cannot be allocated or updated again
    assert_eq!(r.use_resource(), Err(ContractError::OtherError));
    assert_eq!(
        r.update_resource(ResourceType::Cpu(99)),
        Err(ContractError::OtherError)
    );
    assert_eq!(r.set_base_price(1), Err(ContractError::OtherError));
    assert_eq!(
        r.set_price(ResourceType::Cpu(0), 1),
        Err(ContractError::OtherError)
    );

    assert_eq!(r.release_resource(), Ok(()));
    assert_eq!(r.get_status(), Status::Unused);
    assert_eq!(r.get_resource_attr().cpu.get_used(), 0);
    // releasing an already free resource fails
    assert_eq!(r.release_resource(), Err(ContractError::OtherError));
}

#[test]
fn resource_setters_while_unused() {
    let mut r = machine("r", "o", 1, 10, 2);
    assert_eq!(r.set_base_price(7), Ok(()));
    assert_eq!(r.set_price(ResourceType::Memory(0), 4), Ok(()));
    assert_eq!(
        r.set_price(ResourceType::Region(Region::USA), 4),
        Err(ContractError::OtherError)
    );
    assert_eq!(r.update_resource(ResourceType::Memory(6)), Ok(()));
    // 7 + 2*10 + 4*6 = 51
    assert_eq!(r.get_resource_price(), 51);
}

#[test]
fn add_resources_requires_admin() {
    let mut ledger = ResourceLedger::new();
    let r = machine("r1", "o", 0, 10, 2);
    assert_eq!(
        add_resources(&mut ledger, false, vec![r]),
        Err(ContractError::Unauthorized)
    );
    assert!(!ledger.contains(&"r1".to_string()));
}

#[test]
fn add_resources_rejects_duplicates_atomically() {
    let mut ledger = ResourceLedger::new();
    let a = machine("a", "o", 0, 1, 1);
    let b = machine("b", "o", 0, 1, 1);
    assert_eq!(add_resources(&mut ledger, true, vec![a.clone(), b]), Ok(()));
    // one id of the new batch is taken: the whole batch is refused
    let c = machine("c", "o", 0, 1, 1);
    assert_eq!(
        add_resources(&mut ledger, true, vec![c, a]),
        Err(ContractError::AlreadyExists)
    );
    assert!(!ledger.contains(&"c".to_string()));
    // a batch repeating an id within itself is refused too
    let d = machine("d", "o", 0, 1, 1);
    assert_eq!(
        add_resources(&mut ledger, true, vec![d.clone(), d]),
        Err(ContractError::AlreadyExists)
    );
    assert!(!ledger.contains(&"d".to_string()));
}

#[test]
fn query_resources_omits_missing_ids() {
    let mut ledger = ResourceLedger::new();
    let a = machine("a", "o", 0, 1, 1);
    let b = machine("b", "o", 0, 2, 1);
    assert_eq!(
        add_resources(&mut ledger, true, vec![a.clone(), b.clone()]),
        Ok(())
    );
    let found = query_resources(
        &ledger,
        vec!["b".to_string(), "ghost".to_string(), "a".to_string()],
    );
    assert_eq!(found, vec![b, a]);
    assert_eq!(query_resources(&ledger, vec![]), vec![]);
}

#[test]
fn use_resources_allocates_everything_or_nothing() {
    let mut ledger = ResourceLedger::new();
    let a = machine("a", "o", 0, 5, 1);
    let b = machine("b", "o", 0, 6, 1);
    assert_eq!(add_resources(&mut ledger, true, vec![a, b]), Ok(()));

    assert_eq!(
        use_resources(&mut ledger, false, vec!["a".to_string()]),
        Err(ContractError::Unauthorized)
    );
    // a missing id fails the whole batch: "a" stays untouched
    assert_eq!(
        use_resources(&mut ledger, true, vec!["a".to_string(), "ghost".to_string()]),
        Err(ContractError::NotFound)
    );
    assert_eq!(
        ledger.get(&"a".to_string()).unwrap().get_status(),
        Status::Unused
    );
    // a repeated id fails its second turn: again nothing sticks
    assert_eq!(
        use_resources(&mut ledger, true, vec!["a".to_string(), "a".to_string()]),
        Err(ContractError::OtherError)
    );
    assert_eq!(
        ledger.get(&"a".to_string()).unwrap().get_status(),
        Status::Unused
    );

    assert_eq!(
        use_resources(&mut ledger, true, vec!["a".to_string(), "b".to_string()]),
        Ok(())
    );
    for id in ["a", "b"] {
        let r = ledger.get(&id.to_string()).unwrap();
        assert_eq!(r.get_status(), Status::Suspended);
        let attr = r.get_resource_attr();
        assert!(attr.cpu.get_used() <= attr.cpu.get_total());
        assert_eq!(attr.cpu.get_used(), attr.cpu.get_total());
    }
}

#[test]
fn release_resources_frees_suspended_only() {
    let mut ledger = ResourceLedger::new();
    let a = machine("a", "o", 0, 5, 1);
    assert_eq!(add_resources(&mut ledger, true, vec![a]), Ok(()));
    assert_eq!(
        release_resources(&mut ledger, true, vec!["a".to_string()]),
        Err(ContractError::OtherError)
    );
    assert_eq!(use_resources(&mut ledger, true, vec!["a".to_string()]), Ok(()));
    assert_eq!(
        release_resources(&mut ledger, false, vec!["a".to_string()]),
        Err(ContractError::Unauthorized)
    );
    assert_eq!(
        release_resources(&mut ledger, true, vec!["a".to_string()]),
        Ok(())
    );
    let r = ledger.get(&"a".to_string()).unwrap();
    assert_eq!(r.get_status(), Status::Unused);
    assert_eq!(r.get_resource_attr().cpu.get_used(), 0);
}

#[test]
fn update_resources_checks_lengths_and_status() {
    let mut ledger = ResourceLedger::new();
    let a = machine("a", "o", 0, 5, 1);
    assert_eq!(add_resources(&mut ledger, true, vec![a]), Ok(()));
    assert_eq!(
        update_resources(&mut ledger, true, vec!["a".to_string()], vec![]),
        Err(ContractError::OtherError)
    );
    assert_eq!(
        update_resources(
            &mut ledger,
            true,
            vec!["ghost".to_string()],
            vec![ResourceType::Cpu(9)]
        ),
        Err(ContractError::NotFound)
    );
    assert_eq!(
        update_resources(
            &mut ledger,
            true,
            vec!["a".to_string()],
            vec![ResourceType::Cpu(9)]
        ),
        Ok(())
    );
    assert_eq!(
        ledger
            .get(&"a".to_string())
            .unwrap()
            .get_resource_attr()
            .cpu
            .get_total(),
        9
    );
    // a suspended resource cannot be updated, and the failure mutates nothing
    assert_eq!(use_resources(&mut ledger, true, vec!["a".to_string()]), Ok(()));
    assert_eq!(
        update_resources(
            &mut ledger,
            true,
            vec!["a".to_string()],
            vec![ResourceType::Cpu(1)]
        ),
        Err(ContractError::OtherError)
    );
    assert_eq!(
        ledger
            .get(&"a".to_string())
            .unwrap()
            .get_resource_attr()
            .cpu
            .get_total(),
        9
    );
}

#[test]
fn delete_resources_only_when_unused() {
    let mut ledger = ResourceLedger::new();
    let a = machine("a", "o", 0, 5, 1);
    let b = machine("b", "o", 0, 6, 1);
    assert_eq!(add_resources(&mut ledger, true, vec![a, b]), Ok(()));
    assert_eq!(use_resources(&mut ledger, true, vec!["a".to_string()]), Ok(()));

    // deleting a suspended resource fails and deletes nothing, not even the
    // unused one named alongside it
    assert_eq!(
        delete_resources(&mut ledger, true, vec!["b".to_string(), "a".to_string()]),
        Err(ContractError::OtherError)
    );
    assert!(ledger.contains(&"a".to_string()));
    assert!(ledger.contains(&"b".to_string()));

    assert_eq!(
        delete_resources(&mut ledger, true, vec!["b".to_string()]),
        Ok(())
    );
    assert!(!ledger.contains(&"b".to_string()));
    // a deleted resource is omitted by queries and cannot be deleted again
    assert_eq!(query_resources(&ledger, vec!["b".to_string()]), vec![]);
    assert_eq!(
        delete_resources(&mut ledger, true, vec!["b".to_string()]),
        Err(ContractError::NotFound)
    );
}

#[test]
fn classification_defaults() {
    assert_eq!(Region::default(), Region::Unknown);
    assert_eq!(NAT::default(), NAT::UnKnown);
    assert_eq!(Status::default(), Status::Exception);
    let d = ResourceDetails::default();
    assert_eq!((d.get_total(), d.get_used(), d.unit_price), (0, 0, 0));
}
