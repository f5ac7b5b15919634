//! The mapping run as a state machine. The caller performs each system
//! operation (opening the target, reserving memory, writing it, starting
//! the remote routine, polling it) and reports what happened; the mapper
//! decides what comes next and remembers every reservation so that a failed
//! run releases exactly what it reserved.
use vstd::prelude::*;

use crate::error::MapError;
use crate::harden::HardeningOptions;
use crate::image::{image_ok, validation_error_is, validate_image, SourceImage};

verus! {

/// How many polls the mapper waits for the remote side by default.
pub const DEFAULT_MAX_POLLS: u32 = 300;

/// A span of the target's address space reserved by this run.
#[derive(Clone, Copy, PartialEq, Eq, Debug)]
pub struct RemoteAllocation {
    pub process: u64,
    pub base: u64,
    pub size: u64,
}

/// What one poll of the remote side decided.
#[derive(Debug)]
pub enum WaitStep {
    /// The remote side signalled completion.
    Completed,
    /// Not yet; poll again.
    Pending,
    /// The bound was reached: the run failed with `MappingTimeout`, and
    /// these reservations are to be released.
    TimedOut(Vec<RemoteAllocation>),
}

/// The terminal outcome of a run.
#[derive(Debug)]
pub struct MappingResult {
    pub success: bool,
    pub mapped_base: Option<u64>,
    pub error: Option<MapError>,
}

/// The state of one mapping run into one target.
#[derive(Debug)]
pub struct ManualMapper {
    pub target_process: u64,
    pub allocated_base: u64,
    pub original_base: u64,
    pub image_size: u64,
    pub clear_header: bool,
    pub clear_non_needed_sections: bool,
    pub adjust_protections: bool,
    pub max_polls: u32,
    pub polls: u32,
    pub allocations: Vec<RemoteAllocation>,
}

/// What a cleanup releases from `allocs`, and what it leaves owned.
pub open spec fn cleanup_outcome(allocs: Seq<RemoteAllocation>) -> (Seq<RemoteAllocation>, Seq<RemoteAllocation>) {
    (allocs, Seq::empty())
}

/// The kind of step a poll takes after `polls` unsignalled polls, with bound `max`.
pub open spec fn wait_kind(polls: int, max: int, signaled: bool) -> int {
    if signaled {
        0
    } else if polls + 1 < max {
        1
    } else {
        2
    }
}

impl WaitStep {
    pub open spec fn kind(&self) -> int {
        match self {
            WaitStep::Completed => 0,
            WaitStep::Pending => 1,
            WaitStep::TimedOut(_) => 2,
        }
    }
}

impl ManualMapper {
    /// The run's target, image and configuration are the same in both states.
    pub open spec fn same_run(&self, other: &ManualMapper) -> bool {
        &&& self.target_process == other.target_process
        &&& self.original_base == other.original_base
        &&& self.image_size == other.image_size
        &&& self.clear_header == other.clear_header
        &&& self.clear_non_needed_sections == other.clear_non_needed_sections
        &&& self.adjust_protections == other.adjust_protections
        &&& self.max_polls == other.max_polls
    }

    /// A mapper with no target and nothing reserved, which clears the header
    /// and the unneeded sections and adjusts protections, and waits at most
    /// `DEFAULT_MAX_POLLS` polls.
    pub fn new() -> (r: Self)
        ensures
            r.target_process == 0,
            r.allocated_base == 0,
            r.original_base == 0,
            r.image_size == 0,
            r.clear_header && r.clear_non_needed_sections && r.adjust_protections,
            r.max_polls == DEFAULT_MAX_POLLS,
            r.polls == 0,
            r.allocations@.len() == 0,
    {
        ManualMapper {
            target_process: 0,
            allocated_base: 0,
            original_base: 0,
            image_size: 0,
            clear_header: true,
            clear_non_needed_sections: true,
            adjust_protections: true,
            max_polls: DEFAULT_MAX_POLLS,
            polls: 0,
            allocations: Vec::new(),
        }
    }

    /// Chooses which steps run once the image is prepared.
    pub fn configure(&mut self, clear_header: bool, clear_sections: bool, adjust_protections: bool)
        ensures
            final(self).clear_header == clear_header,
            final(self).clear_non_needed_sections == clear_sections,
            final(self).adjust_protections == adjust_protections,
            final(self).target_process == old(self).target_process,
            final(self).allocated_base == old(self).allocated_base,
            final(self).original_base == old(self).original_base,
            final(self).image_size == old(self).image_size,
            final(self).max_polls == old(self).max_polls,
            final(self).polls == old(self).polls,
            final(self).allocations@ == old(self).allocations@,
    {
        self.clear_header = clear_header;
        self.clear_non_needed_sections = clear_sections;
        self.adjust_protections = adjust_protections;
    }

    /// The steps configured to run once the image is prepared.
    pub fn options(&self) -> (r: HardeningOptions)
        ensures
            r.clear_header == self.clear_header,
            r.clear_sections == self.clear_non_needed_sections,
            r.adjust_protections == self.adjust_protections,
    {
        HardeningOptions {
            clear_header: self.clear_header,
            clear_sections: self.clear_non_needed_sections,
            adjust_protections: self.adjust_protections,
        }
    }

    /// Validates `data` for a machine of type `host`.
    pub fn validate_pe_file(&self, data: &Vec<u8>, host: u16) -> (r: Result<SourceImage, MapError>)
        ensures
            match r {
                Ok(img) => image_ok(data@, host) && img.parsed_from(data@) && img.raw_data_within(
                    data@.len() as int,
                ),
                Err(e) => !image_ok(data@, host) && validation_error_is(data@, host, e),
            },
    {
        validate_image(data, host)
    }

    /// Starts a run into `process`: validates the image first. A rejected
    /// image leaves the mapper as it was, so nothing is reserved for it;
    /// an accepted one records the target, the preferred base, and the
    /// size to reserve.
    pub fn begin(&mut self, process: u64, data: &Vec<u8>, host: u16) -> (r: Result<SourceImage, MapError>)
        ensures
            match r {
                Ok(img) => image_ok(data@, host) && img.parsed_from(data@) && img.raw_data_within(
                    data@.len() as int,
                ) && final(self).target_process == process && final(self).original_base
                    == img.preferred_base && final(self).image_size == img.total_virtual_size
                    && final(self).allocations@ == old(self).allocations@ && final(self).polls == 0
                    && final(self).allocated_base == 0 && final(self).clear_header == old(self).clear_header
                    && final(self).clear_non_needed_sections == old(self).clear_non_needed_sections
                    && final(self).adjust_protections == old(self).adjust_protections
                    && final(self).max_polls == old(self).max_polls,
                Err(e) => !image_ok(data@, host) && validation_error_is(data@, host, e)
                    && *final(self) == *old(self),
            },
    {
        match validate_image(data, host) {
            Ok(img) => {
                self.target_process = process;
                self.original_base = img.preferred_base;
                self.image_size = img.total_virtual_size as u64;
                self.allocated_base = 0;
                self.polls = 0;
                Ok(img)
            },
            Err(e) => Err(e),
        }
    }

    /// Records the reservation of the image's region at `base`.
    pub fn image_allocated(&mut self, base: u64)
        ensures
            final(self).allocated_base == base,
            final(self).allocations@ == old(self).allocations@.push(
                RemoteAllocation { process: old(self).target_process, base, size: old(self).image_size },
            ),
            final(self).same_run(old(self)),
            final(self).polls == old(self).polls,
    {
        self.allocated_base = base;
        self.allocations.push(RemoteAllocation { process: self.target_process, base, size: self.image_size });
    }

    /// Records a scratch reservation (for the data or routine handed to the
    /// remote side).
    pub fn scratch_allocated(&mut self, base: u64, size: u64)
        ensures
            final(self).allocations@ == old(self).allocations@.push(
                RemoteAllocation { process: old(self).target_process, base, size },
            ),
            final(self).allocated_base == old(self).allocated_base,
            final(self).same_run(old(self)),
            final(self).polls == old(self).polls,
    {
        self.allocations.push(RemoteAllocation { process: self.target_process, base, size });
    }

    /// Releases every reservation this run still owns: returns them, to be
    /// freed, and forgets them. A second call returns nothing.
    pub fn cleanup_on_failure(&mut self) -> (r: Vec<RemoteAllocation>)
        ensures
            (r@, final(self).allocations@) == cleanup_outcome(old(self).allocations@),
            final(self).allocated_base == 0,
            final(self).same_run(old(self)),
            final(self).polls == old(self).polls,
    {
        let mut freed: Vec<RemoteAllocation> = Vec::new();
        std::mem::swap(&mut freed, &mut self.allocations);
        self.allocated_base = 0;
        assert(self.allocations@ =~= Seq::<RemoteAllocation>::empty());
        freed
    }

    /// One poll of the remote side. A signal completes the wait. Otherwise
    /// the poll is counted, and the poll that reaches `max_polls` ends the
    /// wait with a timeout and releases every reservation of the run.
    pub fn poll_completion(&mut self, signaled: bool) -> (r: WaitStep)
        ensures
            r.kind() == wait_kind(old(self).polls as int, old(self).max_polls as int, signaled),
            r is Completed ==> *final(self) == *old(self),
            r is Pending ==> final(self).polls == old(self).polls + 1 && final(self).allocations@
                == old(self).allocations@ && final(self).allocated_base == old(self).allocated_base,
            r matches WaitStep::TimedOut(freed) ==> (freed@, final(self).allocations@)
                == cleanup_outcome(old(self).allocations@) && final(self).polls == old(self).max_polls
                && final(self).allocated_base == 0,
            final(self).same_run(old(self)),
    {
        if signaled {
            return WaitStep::Completed;
        }
        if self.polls < self.max_polls && self.max_polls - self.polls > 1 {
            self.polls = self.polls + 1;
            WaitStep::Pending
        } else {
            self.polls = self.max_polls;
            WaitStep::TimedOut(self.cleanup_on_failure())
        }
    }

    /// Ends the run with `outcome`. On success the reservations now belong
    /// to the mapped image and are forgotten without being released; on
    /// failure they are returned to be released.
    pub fn finish(&mut self, outcome: Result<u64, MapError>) -> (r: (MappingResult, Vec<RemoteAllocation>))
        ensures
            match outcome {
                Ok(base) => r.0.success && r.0.mapped_base == Some(base) && r.0.error is None
                    && r.1@.len() == 0,
                Err(e) => !r.0.success && r.0.mapped_base is None && r.0.error == Some(e)
                    && r.1@ == old(self).allocations@,
            },
            outcome is Ok ==> final(self).allocated_base == old(self).allocated_base,
            outcome is Err ==> final(self).allocated_base == 0,
            final(self).allocations@.len() == 0,
            final(self).same_run(old(self)),
            final(self).polls == old(self).polls,
    {
        match outcome {
            Ok(base) => {
                self.allocations = Vec::new();
                (MappingResult { success: true, mapped_base: Some(base), error: None }, Vec::new())
            },
            Err(e) => {
                let freed = self.cleanup_on_failure();
                (MappingResult { success: false, mapped_base: None, error: Some(e) }, freed)
            },
        }
    }

    /// The base of the image's region, or 0 before it is reserved.
    pub fn get_mapped_base(&self) -> (r: u64)
        ensures
            r == self.allocated_base,
    {
        self.allocated_base
    }

    /// The image's preferred base.
    pub fn get_original_base(&self) -> (r: u64)
        ensures
            r == self.original_base,
    {
        self.original_base
    }

    /// The size of the image's region.
    pub fn get_image_size(&self) -> (r: u64)
        ensures
            r == self.image_size,
    {
        self.image_size
    }
}

/// Cleanup is idempotent: after one cleanup, a second releases nothing and
/// leaves nothing owned, so no reservation is released twice.
pub proof fn lemma_cleanup_idempotent(allocs: Seq<RemoteAllocation>)
    ensures
        cleanup_outcome(cleanup_outcome(allocs).1).0.len() == 0,
        cleanup_outcome(cleanup_outcome(allocs).1).1.len() == 0,
        cleanup_outcome(allocs).0 == allocs,
{
}

/// Waiting is bounded: with a bound of `max` polls and no signal, each of
/// the first `max - 1` polls is pending and the `max`-th times out.
pub proof fn lemma_wait_is_bounded(max: u32, k: u32)
    requires
        1 <= max,
        k < max,
    ensures
        k + 1 < max ==> wait_kind(k as int, max as int, false) == 1,
        k + 1 == max ==> wait_kind(k as int, max as int, false) == 2,
{
}

} // verus!
