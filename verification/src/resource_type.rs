use vstd::prelude::*;

use crate::error::ContractError;

verus! {

/// Geographic classification of a resource. Not an accounting dimension.
#[derive(Debug, PartialEq, Eq)]
pub enum Region {
    USA,
    Germany,
    Singapore,
    HongKong,
    Other(String),
    Unknown,
}

impl Clone for Region {
    fn clone(&self) -> (res: Self)
        ensures
            res == *self,
    {
        match self {
            Region::USA => Region::USA,
            Region::Germany => Region::Germany,
            Region::Singapore => Region::Singapore,
            Region::HongKong => Region::HongKong,
            Region::Other(s) => Region::Other(s.clone()),
            Region::Unknown => Region::Unknown,
        }
    }
}

impl Default for Region {
    /// The classification a resource carries until one is stated.
    fn default() -> (r: Self)
        ensures
            r is Unknown,
    {
        Region::Unknown
    }
}

/// NAT classification of a resource. Not an accounting dimension.
#[derive(Clone, Copy, Debug, PartialEq, Eq, Structural)]
pub enum NAT {
    NoNat,
    FullCone,
    RestrictedCone,
    PortRestrictedCone,
    Symmetric,
    UnKnown,
}

impl Default for NAT {
    /// The classification a resource carries until one is stated.
    fn default() -> (r: Self)
        ensures
            r is UnKnown,
    {
        NAT::UnKnown
    }
}

/// One capacity dimension: a fixed capacity ceiling `total`, the amount
/// `used` currently allocated out of it, and the price of one unit of
/// capacity. The invariant `used <= total` holds at all times: `total` is a
/// fixed ceiling, never redefined by usage.
#[derive(Clone, Copy, Debug, PartialEq, Eq, Structural)]
pub struct ResourceDetails {
    pub total: u128,
    pub used: u128,
    pub unit_price: u128,
}

impl ResourceDetails {
    /// The capacity invariant of one dimension.
    pub open spec fn wf(self) -> bool {
        self.used <= self.total
    }

    pub fn new(total: u128, unit_price: u128) -> (r: Self)
        ensures
            r == (ResourceDetails { total, used: 0, unit_price }),
            r.wf(),
    {
        ResourceDetails { total, used: 0, unit_price }
    }

    pub fn default() -> (r: Self)
        ensures
            r == (ResourceDetails { total: 0u128, used: 0u128, unit_price: 0u128 }),
            r.wf(),
    {
        ResourceDetails { total: 0, used: 0, unit_price: 0 }
    }

    pub fn get_total(&self) -> (r: u128)
        ensures
            r == self.total,
    {
        self.total
    }

    /// Overwrites the capacity ceiling. The new ceiling must not fall below
    /// the amount currently in use, or the capacity invariant would break.
    pub fn set_total(&mut self, total: u128)
        requires
            old(self).used <= total,
        ensures
            *final(self) == (ResourceDetails { total, ..*old(self) }),
            final(self).wf(),
    {
        self.total = total
    }

    pub fn set_price(&mut self, price: u128)
        ensures
            *final(self) == (ResourceDetails { unit_price: price, ..*old(self) }),
    {
        self.unit_price = price
    }

    pub fn get_used(&self) -> (r: u128)
        ensures
            r == self.used,
    {
        self.used
    }

    /// Allocates `used` more units. Fails with `ResourceOverflow`, changing
    /// nothing, if the allocation would exceed the capacity ceiling.
    pub fn add_used(&mut self, used: u128) -> (r: Result<(), ContractError>)
        requires
            old(self).wf(),
        ensures
            r is Ok <==> old(self).used + used <= old(self).total,
            r is Ok ==> *final(self) == (ResourceDetails {
                used: (old(self).used + used) as u128,
                ..*old(self)
            }),
            r is Err ==> *final(self) == *old(self) && r == Err::<(), ContractError>(
                ContractError::ResourceOverflow,
            ),
            final(self).wf(),
    {
        if used > self.total - self.used {
            return Err(ContractError::ResourceOverflow);
        }
        self.used = self.used + used;
        Ok(())
    }

    /// Returns `used` units to the pool. Fails with `OverRelease`, changing
    /// nothing, if more is released than is currently in use.
    pub fn release_used(&mut self, used: u128) -> (r: Result<(), ContractError>)
        requires
            old(self).wf(),
        ensures
            r is Ok <==> used <= old(self).used,
            r is Ok ==> *final(self) == (ResourceDetails {
                used: (old(self).used - used) as u128,
                ..*old(self)
            }),
            r is Err ==> *final(self) == *old(self) && r == Err::<(), ContractError>(
                ContractError::OverRelease { requested: used, used: old(self).used },
            ),
            final(self).wf(),
    {
        if self.used < used {
            return Err(ContractError::OverRelease { requested: used, used: self.used });
        }
        self.used = self.used - used;
        Ok(())
    }
}

/// A typed argument for the per-dimension operations: the three accounting
/// dimensions carry an amount; region and NAT carry a classification.
#[derive(Debug, PartialEq, Eq)]
pub enum ResourceType {
    Cpu(u128),
    Memory(u128),
    Bandwidth(u128),
    Nat(NAT),
    Region(Region),
}

impl Clone for ResourceType {
    fn clone(&self) -> (res: Self)
        ensures
            res == *self,
    {
        match self {
            ResourceType::Cpu(v) => ResourceType::Cpu(*v),
            ResourceType::Memory(v) => ResourceType::Memory(*v),
            ResourceType::Bandwidth(v) => ResourceType::Bandwidth(*v),
            ResourceType::Nat(n) => ResourceType::Nat(*n),
            ResourceType::Region(r) => ResourceType::Region(r.clone()),
        }
    }
}

/// The three capacity dimensions of a resource plus its classification.
#[derive(Debug, PartialEq, Eq)]
pub struct ResourceAttr {
    pub cpu: ResourceDetails,
    pub memory: ResourceDetails,
    pub bandwidth: ResourceDetails,
    pub region: Region,
    pub nat: NAT,
}

impl Clone for ResourceAttr {
    fn clone(&self) -> (res: Self)
        ensures
            res == *self,
    {
        ResourceAttr {
            cpu: self.cpu,
            memory: self.memory,
            bandwidth: self.bandwidth,
            region: self.region.clone(),
            nat: self.nat,
        }
    }
}

impl ResourceAttr {
    /// Every dimension respects its capacity ceiling.
    pub open spec fn wf(self) -> bool {
        self.cpu.wf() && self.memory.wf() && self.bandwidth.wf()
    }

    /// No dimension has anything allocated.
    pub open spec fn idle(self) -> bool {
        self.cpu.used == 0 && self.memory.used == 0 && self.bandwidth.used == 0
    }

    /// What `update_resource` turns `self` into.
    pub open spec fn updated(self, resource_type: ResourceType) -> ResourceAttr {
        match resource_type {
            ResourceType::Cpu(total) => ResourceAttr {
                cpu: ResourceDetails { total, ..self.cpu },
                ..self
            },
            ResourceType::Memory(total) => ResourceAttr {
                memory: ResourceDetails { total, ..self.memory },
                ..self
            },
            ResourceType::Bandwidth(total) => ResourceAttr {
                bandwidth: ResourceDetails { total, ..self.bandwidth },
                ..self
            },
            ResourceType::Nat(n) => ResourceAttr { nat: n, ..self },
            ResourceType::Region(region) => ResourceAttr { region, ..self },
        }
    }

    /// `update_resource` may not push a capacity ceiling below the amount in
    /// use; the other updates are always allowed.
    pub open spec fn update_allowed(self, resource_type: ResourceType) -> bool {
        match resource_type {
            ResourceType::Cpu(total) => self.cpu.used <= total,
            ResourceType::Memory(total) => self.memory.used <= total,
            ResourceType::Bandwidth(total) => self.bandwidth.used <= total,
            ResourceType::Nat(_) => true,
            ResourceType::Region(_) => true,
        }
    }

    /// Whether routing `resource_type` to its dimension's `add_used` succeeds.
    pub open spec fn use_ok(self, resource_type: ResourceType) -> bool {
        match resource_type {
            ResourceType::Cpu(a) => self.cpu.used + a <= self.cpu.total,
            ResourceType::Memory(a) => self.memory.used + a <= self.memory.total,
            ResourceType::Bandwidth(a) => self.bandwidth.used + a <= self.bandwidth.total,
            ResourceType::Nat(_) => false,
            ResourceType::Region(_) => false,
        }
    }

    /// What a successful `use_resource` turns `self` into.
    pub open spec fn with_use(self, resource_type: ResourceType) -> ResourceAttr {
        match resource_type {
            ResourceType::Cpu(a) => ResourceAttr {
                cpu: ResourceDetails { used: (self.cpu.used + a) as u128, ..self.cpu },
                ..self
            },
            ResourceType::Memory(a) => ResourceAttr {
                memory: ResourceDetails { used: (self.memory.used + a) as u128, ..self.memory },
                ..self
            },
            ResourceType::Bandwidth(a) => ResourceAttr {
                bandwidth: ResourceDetails {
                    used: (self.bandwidth.used + a) as u128,
                    ..self.bandwidth
                },
                ..self
            },
            _ => self,
        }
    }

    /// The error a failing `use_resource` reports.
    pub open spec fn use_err(self, resource_type: ResourceType) -> ContractError {
        match resource_type {
            ResourceType::Cpu(_) => ContractError::ResourceOverflow,
            ResourceType::Memory(_) => ContractError::ResourceOverflow,
            ResourceType::Bandwidth(_) => ContractError::ResourceOverflow,
            _ => ContractError::OtherError,
        }
    }

    /// Whether routing `resource_type` to its dimension's `release_used`
    /// succeeds.
    pub open spec fn release_ok(self, resource_type: ResourceType) -> bool {
        match resource_type {
            ResourceType::Cpu(a) => a <= self.cpu.used,
            ResourceType::Memory(a) => a <= self.memory.used,
            ResourceType::Bandwidth(a) => a <= self.bandwidth.used,
            ResourceType::Nat(_) => false,
            ResourceType::Region(_) => false,
        }
    }

    /// What a successful `release_resource` turns `self` into.
    pub open spec fn with_release(self, resource_type: ResourceType) -> ResourceAttr {
        match resource_type {
            ResourceType::Cpu(a) => ResourceAttr {
                cpu: ResourceDetails { used: (self.cpu.used - a) as u128, ..self.cpu },
                ..self
            },
            ResourceType::Memory(a) => ResourceAttr {
                memory: ResourceDetails { used: (self.memory.used - a) as u128, ..self.memory },
                ..self
            },
            ResourceType::Bandwidth(a) => ResourceAttr {
                bandwidth: ResourceDetails {
                    used: (self.bandwidth.used - a) as u128,
                    ..self.bandwidth
                },
                ..self
            },
            _ => self,
        }
    }

    /// The error a failing `release_resource` reports.
    pub open spec fn release_err(self, resource_type: ResourceType) -> ContractError {
        match resource_type {
            ResourceType::Cpu(a) => ContractError::OverRelease { requested: a, used: self.cpu.used },
            ResourceType::Memory(a) => ContractError::OverRelease {
                requested: a,
                used: self.memory.used,
            },
            ResourceType::Bandwidth(a) => ContractError::OverRelease {
                requested: a,
                used: self.bandwidth.used,
            },
            _ => ContractError::OtherError,
        }
    }

    pub fn new(
        cpu_detail: ResourceDetails,
        mem_detail: ResourceDetails,
        bandwidth_detail: ResourceDetails,
        region: Region,
        nat_class: NAT,
    ) -> (r: Self)
        ensures
            r == (ResourceAttr {
                cpu: cpu_detail,
                memory: mem_detail,
                bandwidth: bandwidth_detail,
                region,
                nat: nat_class,
            }),
    {
        ResourceAttr {
            cpu: cpu_detail,
            memory: mem_detail,
            bandwidth: bandwidth_detail,
            region,
            nat: nat_class,
        }
    }

    /// Administrative recovery primitive: zeroes the `used` counter of every
    /// dimension, leaving ceilings, prices and classification untouched.
    pub fn reset(&mut self)
        ensures
            *final(self) == (ResourceAttr {
                cpu: ResourceDetails { used: 0u128, ..old(self).cpu },
                memory: ResourceDetails { used: 0u128, ..old(self).memory },
                bandwidth: ResourceDetails { used: 0u128, ..old(self).bandwidth },
                ..*old(self)
            }),
            final(self).wf(),
            final(self).idle(),
    {
        self.cpu.used = 0;
        self.memory.used = 0;
        self.bandwidth.used = 0;
    }

    /// Unconditionally overwrites the named dimension's capacity ceiling, or
    /// the region/NAT classification. The status gate belongs to the caller;
    /// only the capacity invariant is demanded here.
    pub fn update_resource(&mut self, resource_type: ResourceType)
        requires
            old(self).update_allowed(resource_type),
        ensures
            *final(self) == old(self).updated(resource_type),
    {
        match resource_type {
            ResourceType::Cpu(total) => self.cpu.set_total(total),
            ResourceType::Memory(total) => self.memory.set_total(total),
            ResourceType::Bandwidth(total) => self.bandwidth.set_total(total),
            ResourceType::Nat(n) => self.nat = n,
            ResourceType::Region(region) => self.region = region,
        }
    }

    /// Routes a typed amount to the matching dimension's `add_used`; fails
    /// with a generic error if the tag is Region/NAT (not accounting
    /// dimensions).
    pub fn use_resource(&mut self, resource_type: ResourceType) -> (r: Result<(), ContractError>)
        requires
            old(self).wf(),
        ensures
            r is Ok <==> old(self).use_ok(resource_type),
            r is Ok ==> *final(self) == old(self).with_use(resource_type),
            r is Err ==> *final(self) == *old(self) && r == Err::<(), ContractError>(
                old(self).use_err(resource_type),
            ),
            final(self).wf(),
    {
        match resource_type {
            ResourceType::Cpu(used) => self.cpu.add_used(used),
            ResourceType::Memory(used) => self.memory.add_used(used),
            ResourceType::Bandwidth(used) => self.bandwidth.add_used(used),
            _ => Err(ContractError::OtherError),
        }
    }

    /// Routes a typed amount to the matching dimension's `release_used`;
    /// fails with a generic error if the tag is Region/NAT.
    pub fn release_resource(&mut self, resource_type: ResourceType) -> (r: Result<
        (),
        ContractError,
    >)
        requires
            old(self).wf(),
        ensures
            r is Ok <==> old(self).release_ok(resource_type),
            r is Ok ==> *final(self) == old(self).with_release(resource_type),
            r is Err ==> *final(self) == *old(self) && r == Err::<(), ContractError>(
                old(self).release_err(resource_type),
            ),
            final(self).wf(),
    {
        match resource_type {
            ResourceType::Cpu(used) => self.cpu.release_used(used),
            ResourceType::Memory(used) => self.memory.release_used(used),
            ResourceType::Bandwidth(used) => self.bandwidth.release_used(used),
            _ => Err(ContractError::OtherError),
        }
    }
}

/// Availability of a resource. `Unused` is the only state from which a lease
/// may start; `Suspended` means the whole capacity is allocated to a running
/// order; `Exception` means the resource cannot provide service.
#[derive(Clone, Copy, Debug, PartialEq, Eq, Structural)]
pub enum Status {
    Unused,
    Suspended,
    Exception,
}

impl Default for Status {
    /// Until an administrator says otherwise, a resource cannot serve.
    fn default() -> (r: Self)
        ensures
            r is Exception,
    {
        Status::Exception
    }
}

/// A leasable unit: identity, owner, base price, per-dimension capacity and
/// availability. While a resource is `Unused` nothing is allocated on it.
#[derive(Debug, PartialEq, Eq)]
pub struct Resource {
    pub id: String,
    pub owner: String,
    pub base_price: u128,
    pub resources_attr: ResourceAttr,
    pub status: Status,
}

impl Clone for Resource {
    fn clone(&self) -> (res: Self)
        ensures
            res == *self,
    {
        Resource {
            id: self.id.clone(),
            owner: self.owner.clone(),
            base_price: self.base_price,
            resources_attr: self.resources_attr.clone(),
            status: self.status,
        }
    }
}

impl Resource {
    /// The resource invariant: every dimension respects its ceiling, and an
    /// `Unused` resource has nothing allocated.
    pub open spec fn wf(self) -> bool {
        self.resources_attr.wf() && (self.status is Unused ==> self.resources_attr.idle())
    }

    /// The quoted price of one block of lease: the base price plus, for each
    /// dimension, unit price times *provisioned* capacity (not consumption).
    pub open spec fn spec_price(self) -> int {
        self.base_price + self.resources_attr.cpu.unit_price * self.resources_attr.cpu.total
            + self.resources_attr.memory.unit_price * self.resources_attr.memory.total
            + self.resources_attr.bandwidth.unit_price * self.resources_attr.bandwidth.total
    }

    /// What a successful `use_resource` turns `self` into: the entire ceiling
    /// of every dimension allocated, availability `Suspended`.
    pub open spec fn after_use(self) -> Resource {
        Resource {
            resources_attr: ResourceAttr {
                cpu: ResourceDetails { used: self.resources_attr.cpu.total, ..self.resources_attr.cpu },
                memory: ResourceDetails {
                    used: self.resources_attr.memory.total,
                    ..self.resources_attr.memory
                },
                bandwidth: ResourceDetails {
                    used: self.resources_attr.bandwidth.total,
                    ..self.resources_attr.bandwidth
                },
                ..self.resources_attr
            },
            status: Status::Suspended,
            ..self
        }
    }

    /// What a successful `release_resource` turns `self` into: nothing
    /// allocated, availability `Unused`.
    pub open spec fn after_release(self) -> Resource {
        Resource {
            resources_attr: ResourceAttr {
                cpu: ResourceDetails { used: 0u128, ..self.resources_attr.cpu },
                memory: ResourceDetails { used: 0u128, ..self.resources_attr.memory },
                bandwidth: ResourceDetails { used: 0u128, ..self.resources_attr.bandwidth },
                ..self.resources_attr
            },
            status: Status::Unused,
            ..self
        }
    }

    pub fn new(
        id: String,
        owner: String,
        base_price: u128,
        resources_attr: ResourceAttr,
        status: Status,
    ) -> (r: Self)
        requires
            resources_attr.wf(),
            status is Unused ==> resources_attr.idle(),
        ensures
            r == (Resource { id, owner, base_price, resources_attr, status }),
            r.wf(),
    {
        Resource { id, owner, base_price, resources_attr, status }
    }

    pub fn get_id(&self) -> (r: String)
        ensures
            r == self.id,
    {
        self.id.clone()
    }

    pub fn get_owner(&self) -> (r: String)
        ensures
            r == self.owner,
    {
        self.owner.clone()
    }

    /// Quotes the price of one block of lease. The quote must fit the
    /// machine word; a caller that cannot guarantee that checks first.
    pub fn get_resource_price(&self) -> (r: u128)
        requires
            self.spec_price() <= u128::MAX,
        ensures
            r == self.spec_price(),
    {
        let cpu_price = self.resources_attr.cpu.unit_price * self.resources_attr.cpu.total;
        let memory_price = self.resources_attr.memory.unit_price * self.resources_attr.memory.total;
        let bandwidth_price = self.resources_attr.bandwidth.unit_price
            * self.resources_attr.bandwidth.total;

        self.base_price + cpu_price + memory_price + bandwidth_price
    }

    pub fn get_resource_attr(&self) -> (r: ResourceAttr)
        ensures
            r == self.resources_attr,
    {
        self.resources_attr.clone()
    }

    pub fn get_status(&self) -> (r: Status)
        ensures
            r == self.status,
    {
        self.status
    }

    /// Raw availability setter. Marking a resource `Unused` asserts that
    /// nothing is allocated on it, so that is demanded of the caller.
    pub fn set_status(&mut self, status: Status)
        requires
            status is Unused ==> old(self).resources_attr.idle(),
        ensures
            *final(self) == (Resource { status, ..*old(self) }),
    {
        self.status = status;
    }

    /// Changes the base price; allowed only while the resource is `Unused`.
    pub fn set_base_price(&mut self, price: u128) -> (r: Result<(), ContractError>)
        ensures
            r is Ok <==> old(self).status is Unused,
            r is Ok ==> *final(self) == (Resource { base_price: price, ..*old(self) }),
            r is Err ==> *final(self) == *old(self) && r == Err::<(), ContractError>(
                ContractError::OtherError,
            ),
    {
        if self.status != Status::Unused {
            return Err(ContractError::OtherError);
        }

        self.base_price = price;

        Ok(())
    }

    /// Changes one dimension's unit price; allowed only while the resource is
    /// `Unused`, and only for the three accounting dimensions.
    pub fn set_price(&mut self, resource_type: ResourceType, price: u128) -> (r: Result<
        (),
        ContractError,
    >)
        ensures
            r is Ok <==> old(self).status is Unused && (resource_type is Cpu || resource_type
                is Memory || resource_type is Bandwidth),
            r is Ok ==> *final(self) == (Resource {
                resources_attr: match resource_type {
                    ResourceType::Cpu(_) => ResourceAttr {
                        cpu: ResourceDetails { unit_price: price, ..old(self).resources_attr.cpu },
                        ..old(self).resources_attr
                    },
                    ResourceType::Memory(_) => ResourceAttr {
                        memory: ResourceDetails {
                            unit_price: price,
                            ..old(self).resources_attr.memory
                        },
                        ..old(self).resources_attr
                    },
                    _ => ResourceAttr {
                        bandwidth: ResourceDetails {
                            unit_price: price,
                            ..old(self).resources_attr.bandwidth
                        },
                        ..old(self).resources_attr
                    },
                },
                ..*old(self)
            }),
            r is Err ==> *final(self) == *old(self) && r == Err::<(), ContractError>(
                ContractError::OtherError,
            ),
    {
        if self.status != Status::Unused {
            return Err(ContractError::OtherError);
        }

        match resource_type {
            ResourceType::Cpu(_) => {
                self.resources_attr.cpu.set_price(price);
                Ok(())
            },
            ResourceType::Memory(_) => {
                self.resources_attr.memory.set_price(price);
                Ok(())
            },
            ResourceType::Bandwidth(_) => {
                self.resources_attr.bandwidth.set_price(price);
                Ok(())
            },
            _ => Err(ContractError::OtherError),
        }
    }

    /// Allocates the *entire* current ceiling of every dimension and flips
    /// the availability to `Suspended`; allowed only while `Unused`.
    pub fn use_resource(&mut self) -> (r: Result<(), ContractError>)
        requires
            old(self).wf(),
        ensures
            r is Ok <==> old(self).status is Unused,
            r is Ok ==> *final(self) == old(self).after_use(),
            r is Err ==> *final(self) == *old(self) && r == Err::<(), ContractError>(
                ContractError::OtherError,
            ),
            final(self).wf(),
    {
        if self.status != Status::Unused {
            return Err(ContractError::OtherError);
        }

        let cpu_total = self.resources_attr.cpu.get_total();
        self.resources_attr.cpu.add_used(cpu_total)?;
        let memory_total = self.resources_attr.memory.get_total();
        self.resources_attr.memory.add_used(memory_total)?;
        let bandwidth_total = self.resources_attr.bandwidth.get_total();
        self.resources_attr.bandwidth.add_used(bandwidth_total)?;

        self.status = Status::Suspended;

        Ok(())
    }

    /// Overwrites one dimension's ceiling or the classification; allowed only
    /// while `Unused` (when nothing is allocated, so any ceiling is legal).
    pub fn update_resource(&mut self, resources_type: ResourceType) -> (r: Result<
        (),
        ContractError,
    >)
        requires
            old(self).wf(),
        ensures
            r is Ok <==> old(self).status is Unused,
            r is Ok ==> *final(self) == (Resource {
                resources_attr: old(self).resources_attr.updated(resources_type),
                ..*old(self)
            }),
            r is Err ==> *final(self) == *old(self) && r == Err::<(), ContractError>(
                ContractError::OtherError,
            ),
            final(self).wf(),
    {
        if self.status != Status::Unused {
            return Err(ContractError::OtherError);
        }

        self.resources_attr.update_resource(resources_type);

        Ok(())
    }

    /// Returns the entire allocated amount of every dimension to the pool and
    /// flips the availability to `Unused`; allowed only while `Suspended`.
    pub fn release_resource(&mut self) -> (r: Result<(), ContractError>)
        requires
            old(self).wf(),
        ensures
            r is Ok <==> old(self).status is Suspended,
            r is Ok ==> *final(self) == old(self).after_release(),
            r is Err ==> *final(self) == *old(self) && r == Err::<(), ContractError>(
                ContractError::OtherError,
            ),
            final(self).wf(),
    {
        if self.get_status() != Status::Suspended {
            return Err(ContractError::OtherError);
        }

        let cpu_used = self.resources_attr.cpu.get_used();
        self.resources_attr.release_resource(ResourceType::Cpu(cpu_used))?;
        let memory_used = self.resources_attr.memory.get_used();
        self.resources_attr.release_resource(ResourceType::Memory(memory_used))?;
        let bandwidth_used = self.resources_attr.bandwidth.get_used();
        self.resources_attr.release_resource(ResourceType::Bandwidth(bandwidth_used))?;

        self.set_status(Status::Unused);

        Ok(())
    }
}

} // verus!
