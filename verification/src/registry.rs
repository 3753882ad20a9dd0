//! The driver registry: owns a fixed, ordered collection of devices built
//! all-or-nothing from a configured count, and routes open/read/write calls
//! from the host framework to the device they address.
use vstd::prelude::*;

use crate::device::AccessMode;
use crate::device::Device;
use crate::device::Error;

verus! {

/// The owner of every device. The host framework registers one externally
/// visible endpoint per device (all under one shared logical name) and hands
/// each incoming call to `Registry` with the index of the device its endpoint
/// is bound to; tearing the registry down is dropping it, which releases
/// every device exactly once.
pub struct Registry {
    /// The devices, in ordinal order: `devices[i].number == i`.
    pub devices: Vec<Device>,
}

impl Registry {
    /// Every device sits at the index matching its ordinal.
    pub open spec fn well_formed(self) -> bool {
        forall|i: int|
            0 <= i < self.devices@.len() ==> (#[trigger] self.devices@[i]).number == i
    }

    /// Builds a registry of exactly `count` devices, ordinals `0..count`,
    /// each with an empty store. Fails, yielding no devices at all, exactly
    /// when the configured count is not representable in `usize`.
    pub fn initialize(count: u64) -> (r: Result<Registry, Error>)
        ensures
            r is Ok <==> count <= usize::MAX as u64,
            r matches Ok(reg) ==> {
                &&& reg.devices@.len() == count
                &&& reg.well_formed()
                &&& forall|i: int|
                    0 <= i < count ==> (#[trigger] reg.devices@[i]).contents@ == Seq::<u8>::empty()
            },
            r is Err ==> r == Err::<Registry, Error>(Error::ConfigurationError),
    {
        if count > usize::MAX as u64 {
            return Err(Error::ConfigurationError);
        }
        let n = count as usize;
        let mut devices: Vec<Device> = Vec::new();
        let mut i: usize = 0;
        while i < n
            invariant
                i <= n,
                devices@.len() == i,
                forall|j: int| 0 <= j < i ==> (#[trigger] devices@[j]).number == j,
                forall|j: int|
                    0 <= j < i ==> (#[trigger] devices@[j]).contents@ == Seq::<u8>::empty(),
            decreases n - i,
        {
            devices.push(Device::new(i));
            i = i + 1;
        }
        Ok(Registry { devices })
    }

    /// The number of devices the registry owns.
    pub fn count(&self) -> (n: usize)
        ensures
            n == self.devices@.len(),
    {
        self.devices.len()
    }

    /// A shared view of device `index`, for callers that only read.
    pub fn device(&self, index: usize) -> (d: &Device)
        requires
            index < self.devices@.len(),
        ensures
            *d == self.devices@[index as int],
    {
        &self.devices[index]
    }

    /// Routes an open to device `index`. Only that device changes, and only
    /// when the mode is write-only, which empties its store.
    pub fn device_open(&mut self, index: usize, mode: AccessMode)
        requires
            index < old(self).devices@.len(),
        ensures
            final(self).devices@.len() == old(self).devices@.len(),
            final(self).devices@[index as int].number == old(self).devices@[
                index as int
            ].number,
            mode is WriteOnly ==> final(self).devices@[index as int].contents@
                == Seq::<u8>::empty(),
            !(mode is WriteOnly) ==> final(self).devices@[index as int].contents@ == old(
                self,
            ).devices@[index as int].contents@,
            forall|j: int|
                0 <= j < old(self).devices@.len() && j != index ==> final(self).devices@[j] == old(
                    self,
                ).devices@[j],
            old(self).well_formed() ==> final(self).well_formed(),
    {
        let dev = &mut self.devices[index];
        dev.open(mode);
    }

    /// Routes a read to device `index`; no device changes. The result is the
    /// device's own read contract: the bytes at `offset`, at most `capacity`
    /// of them, none at or past the end of the store.
    pub fn device_read(&self, index: usize, capacity: usize, offset: u64) -> (r: Result<
        Vec<u8>,
        Error,
    >)
        requires
            index < self.devices@.len(),
        ensures
            r is Ok <==> offset <= usize::MAX as u64,
            r matches Ok(out) ==> out@ == crate::device::read_spec(
                self.devices@[index as int].contents@,
                offset as int,
                capacity as int,
            ),
            r is Err ==> r == Err::<Vec<u8>, Error>(Error::InvalidArgument),
    {
        self.devices[index].read(capacity, offset)
    }

    /// Routes a write to device `index`. Exactly that device's store changes,
    /// by the device's own write contract; every other device is left
    /// untouched, so devices under one registry stay fully independent.
    pub fn device_write(&mut self, index: usize, data: &[u8], offset: u64) -> (r: Result<
        usize,
        Error,
    >)
        requires
            index < old(self).devices@.len(),
        ensures
            final(self).devices@.len() == old(self).devices@.len(),
            final(self).devices@[index as int].number == old(self).devices@[
                index as int
            ].number,
            r is Ok <==> offset + data@.len() <= usize::MAX as u64,
            r matches Ok(n) ==> n == data@.len(),
            r is Ok ==> final(self).devices@[index as int].contents@ == crate::device::write_spec(
                old(self).devices@[index as int].contents@,
                data@,
                offset as int,
            ),
            r is Err ==> final(self).devices@[index as int].contents@ == old(self).devices@[
                index as int
            ].contents@,
            forall|j: int|
                0 <= j < old(self).devices@.len() && j != index ==> final(self).devices@[j] == old(
                    self,
                ).devices@[j],
            old(self).well_formed() ==> final(self).well_formed(),
    {
        let dev = &mut self.devices[index];
        dev.write(data, offset)
    }
}

} // verus!
