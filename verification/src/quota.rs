use vstd::prelude::*;

verus! {

/// Resources requested by one workspace.
#[derive(Debug, Clone, Copy, Default, PartialEq, Eq)]
pub struct Resources {
    pub cpu_millis: u64,
    pub memory_mib: u64,
    pub gpu_count: u32,
    pub disk_gib: u64,
}

/// Resources counted against a quota, including temporary storage.
#[derive(Debug, Clone, Copy, Default, PartialEq, Eq)]
pub struct QuotaResources {
    pub cpu_millis: u64,
    pub memory_mib: u64,
    pub gpu_count: u32,
    pub disk_gib: u64,
    pub temporary_storage_gib: u64,
}

/// An aggregate limit on the resources of an owner.
#[derive(Debug, Clone, Copy, Default, PartialEq, Eq)]
pub struct ResourceQuota {
    pub limit: QuotaResources,
}

#[derive(Debug, PartialEq, Eq)]
pub enum QuotaError {
    Overflow,
    Exceeded { resource: &'static str, requested: u64, limit: u64 },
}

/// Every component of `a + b` fits in its integer type.
pub open spec fn resources_sum_fits(a: Resources, b: Resources) -> bool {
    &&& a.cpu_millis + b.cpu_millis <= u64::MAX
    &&& a.memory_mib + b.memory_mib <= u64::MAX
    &&& a.gpu_count + b.gpu_count <= u32::MAX
    &&& a.disk_gib + b.disk_gib <= u64::MAX
}

/// The componentwise sum, meaningful when `resources_sum_fits(a, b)`.
pub open spec fn resources_sum(a: Resources, b: Resources) -> Resources {
    Resources {
        cpu_millis: (a.cpu_millis + b.cpu_millis) as u64,
        memory_mib: (a.memory_mib + b.memory_mib) as u64,
        gpu_count: (a.gpu_count + b.gpu_count) as u32,
        disk_gib: (a.disk_gib + b.disk_gib) as u64,
    }
}

pub open spec fn quota_sum_fits(a: QuotaResources, b: QuotaResources) -> bool {
    &&& a.cpu_millis + b.cpu_millis <= u64::MAX
    &&& a.memory_mib + b.memory_mib <= u64::MAX
    &&& a.gpu_count + b.gpu_count <= u32::MAX
    &&& a.disk_gib + b.disk_gib <= u64::MAX
    &&& a.temporary_storage_gib + b.temporary_storage_gib <= u64::MAX
}

pub open spec fn quota_sum(a: QuotaResources, b: QuotaResources) -> QuotaResources {
    QuotaResources {
        cpu_millis: (a.cpu_millis + b.cpu_millis) as u64,
        memory_mib: (a.memory_mib + b.memory_mib) as u64,
        gpu_count: (a.gpu_count + b.gpu_count) as u32,
        disk_gib: (a.disk_gib + b.disk_gib) as u64,
        temporary_storage_gib: (a.temporary_storage_gib + b.temporary_storage_gib) as u64,
    }
}

/// Every component of `used` is within the same component of `limit`.
pub open spec fn within(used: QuotaResources, limit: QuotaResources) -> bool {
    &&& used.cpu_millis <= limit.cpu_millis
    &&& used.memory_mib <= limit.memory_mib
    &&& used.gpu_count <= limit.gpu_count
    &&& used.disk_gib <= limit.disk_gib
    &&& used.temporary_storage_gib <= limit.temporary_storage_gib
}

/// The outcome of admitting `request` on top of `usage` under `limit`:
/// the resources are checked in a fixed order and the first one over its
/// limit is reported.
pub open spec fn admission(
    limit: QuotaResources,
    usage: QuotaResources,
    request: QuotaResources,
) -> Result<QuotaResources, QuotaError> {
    if !quota_sum_fits(usage, request) {
        Err(QuotaError::Overflow)
    } else {
        let p = quota_sum(usage, request);
        if p.cpu_millis > limit.cpu_millis {
            Err(QuotaError::Exceeded { resource: "cpu_millis", requested: p.cpu_millis, limit: limit.cpu_millis })
        } else if p.memory_mib > limit.memory_mib {
            Err(QuotaError::Exceeded { resource: "memory_mib", requested: p.memory_mib, limit: limit.memory_mib })
        } else if p.gpu_count > limit.gpu_count {
            Err(QuotaError::Exceeded { resource: "gpu_count", requested: p.gpu_count as u64, limit: limit.gpu_count as u64 })
        } else if p.disk_gib > limit.disk_gib {
            Err(QuotaError::Exceeded { resource: "disk_gib", requested: p.disk_gib, limit: limit.disk_gib })
        } else if p.temporary_storage_gib > limit.temporary_storage_gib {
            Err(QuotaError::Exceeded {
                resource: "temporary_storage_gib",
                requested: p.temporary_storage_gib,
                limit: limit.temporary_storage_gib,
            })
        } else {
            Ok(p)
        }
    }
}

impl Resources {
    /// A workspace must ask for some CPU, memory and disk.
    pub fn valid_workspace_request(self) -> (valid: bool)
        ensures
            valid == (self.cpu_millis > 0 && self.memory_mib > 0 && self.disk_gib > 0),
    {
        self.cpu_millis > 0 && self.memory_mib > 0 && self.disk_gib > 0
    }

    pub fn checked_add(self, other: Self) -> (sum: Result<Self, QuotaError>)
        ensures
            match sum {
                Ok(total) => resources_sum_fits(self, other) && total == resources_sum(self, other),
                Err(error) => !resources_sum_fits(self, other) && error == QuotaError::Overflow,
            },
    {
        let cpu_millis = match self.cpu_millis.checked_add(other.cpu_millis) {
            Some(value) => value,
            None => return Err(QuotaError::Overflow),
        };
        let memory_mib = match self.memory_mib.checked_add(other.memory_mib) {
            Some(value) => value,
            None => return Err(QuotaError::Overflow),
        };
        let gpu_count = match self.gpu_count.checked_add(other.gpu_count) {
            Some(value) => value,
            None => return Err(QuotaError::Overflow),
        };
        let disk_gib = match self.disk_gib.checked_add(other.disk_gib) {
            Some(value) => value,
            None => return Err(QuotaError::Overflow),
        };
        Ok(Self { cpu_millis, memory_mib, gpu_count, disk_gib })
    }
}

impl QuotaResources {
    pub fn for_workspace(resources: Resources, temporary_storage_gib: u64) -> (quota: Self)
        ensures
            quota.cpu_millis == resources.cpu_millis,
            quota.memory_mib == resources.memory_mib,
            quota.gpu_count == resources.gpu_count,
            quota.disk_gib == resources.disk_gib,
            quota.temporary_storage_gib == temporary_storage_gib,
    {
        Self {
            cpu_millis: resources.cpu_millis,
            memory_mib: resources.memory_mib,
            gpu_count: resources.gpu_count,
            disk_gib: resources.disk_gib,
            temporary_storage_gib,
        }
    }

    pub fn checked_add(self, other: Self) -> (sum: Result<Self, QuotaError>)
        ensures
            match sum {
                Ok(total) => quota_sum_fits(self, other) && total == quota_sum(self, other),
                Err(error) => !quota_sum_fits(self, other) && error == QuotaError::Overflow,
            },
    {
        let cpu_millis = match self.cpu_millis.checked_add(other.cpu_millis) {
            Some(value) => value,
            None => return Err(QuotaError::Overflow),
        };
        let memory_mib = match self.memory_mib.checked_add(other.memory_mib) {
            Some(value) => value,
            None => return Err(QuotaError::Overflow),
        };
        let gpu_count = match self.gpu_count.checked_add(other.gpu_count) {
            Some(value) => value,
            None => return Err(QuotaError::Overflow),
        };
        let disk_gib = match self.disk_gib.checked_add(other.disk_gib) {
            Some(value) => value,
            None => return Err(QuotaError::Overflow),
        };
        let temporary_storage_gib = match self.temporary_storage_gib.checked_add(
            other.temporary_storage_gib,
        ) {
            Some(value) => value,
            None => return Err(QuotaError::Overflow),
        };
        Ok(Self { cpu_millis, memory_mib, gpu_count, disk_gib, temporary_storage_gib })
    }
}

impl ResourceQuota {
    /// Admits `request` on top of `usage`, returning the new total.
    pub fn try_admit(&self, usage: QuotaResources, request: QuotaResources) -> (result: Result<
        QuotaResources,
        QuotaError,
    >)
        ensures
            result == admission(self.limit, usage, request),
    {
        let proposed = match usage.checked_add(request) {
            Ok(value) => value,
            Err(error) => return Err(error),
        };
        if let Err(error) = check_limit("cpu_millis", proposed.cpu_millis, self.limit.cpu_millis) {
            return Err(error);
        }
        if let Err(error) = check_limit("memory_mib", proposed.memory_mib, self.limit.memory_mib) {
            return Err(error);
        }
        if let Err(error) = check_limit(
            "gpu_count",
            proposed.gpu_count as u64,
            self.limit.gpu_count as u64,
        ) {
            return Err(error);
        }
        if let Err(error) = check_limit("disk_gib", proposed.disk_gib, self.limit.disk_gib) {
            return Err(error);
        }
        if let Err(error) = check_limit(
            "temporary_storage_gib",
            proposed.temporary_storage_gib,
            self.limit.temporary_storage_gib,
        ) {
            return Err(error);
        }
        Ok(proposed)
    }
}

fn check_limit(resource: &'static str, requested: u64, limit: u64) -> (result: Result<(), QuotaError>)
    ensures
        requested <= limit ==> result == Ok::<(), QuotaError>(()),
        requested > limit ==> result == Err::<(), QuotaError>(
            QuotaError::Exceeded { resource, requested, limit },
        ),
{
    if requested > limit {
        return Err(QuotaError::Exceeded { resource, requested, limit });
    }
    Ok(())
}

/// Admission succeeds exactly when the total fits every limit, and then it
/// returns that total.
pub proof fn lemma_admission_succeeds_iff_within(
    limit: QuotaResources,
    usage: QuotaResources,
    request: QuotaResources,
)
    ensures
        admission(limit, usage, request) is Ok <==> (quota_sum_fits(usage, request) && within(
            quota_sum(usage, request),
            limit,
        )),
        admission(limit, usage, request) is Ok ==> admission(limit, usage, request)->Ok_0
            == quota_sum(usage, request),
{
}

/// Admitting a request that is no larger in any resource than an admitted one
/// also succeeds.
pub proof fn lemma_admission_monotone(
    limit: QuotaResources,
    usage: QuotaResources,
    request: QuotaResources,
    smaller: QuotaResources,
)
    requires
        admission(limit, usage, request) is Ok,
        within(smaller, request),
    ensures
        admission(limit, usage, smaller) is Ok,
{
}

/// The order in which usage and request are added does not matter.
pub proof fn lemma_admission_symmetric(
    limit: QuotaResources,
    usage: QuotaResources,
    request: QuotaResources,
)
    ensures
        admission(limit, usage, request) == admission(limit, request, usage),
{
}

} // verus!
