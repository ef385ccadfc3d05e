//! The registry and the ledger: state, its invariant, and the three operations.
use std::collections::BTreeMap;
use vstd::prelude::*;

use crate::types::{
    ensure_root, ensure_signed, AccountId, BlockNumber, Device, DispatchError, DispatchResult,
    EnergyData, Error, Event, Origin,
};

verus! {

broadcast use vstd::std_specs::btree::group_btree_axioms;

/// The abstract state of the ledger.
pub struct LedgerState {
    /// Number of registered devices.
    pub device_count: u32,
    /// Registered devices by identity.
    pub devices: Map<AccountId, Device>,
    /// Last sequence number assigned to each identity's readings.
    pub data_index: Map<AccountId, u64>,
    /// Readings by identity and sequence number.
    pub items: Map<(AccountId, u64), EnergyData>,
    /// Emitted notifications, oldest first.
    pub events: Seq<Event>,
    /// Current block, as supplied by the host.
    pub block: BlockNumber,
}

impl LedgerState {
    /// The invariant: the count matches the registry, and every reading lies
    /// at or below its identity's sequence counter, so a new sequence number
    /// never overwrites a stored reading.
    pub open spec fn wf(self) -> bool {
        &&& self.devices.dom().finite()
        &&& self.device_count as nat == self.devices.dom().len()
        &&& forall|k: (AccountId, u64)| #[trigger]
            self.items.contains_key(k) ==> 1 <= k.1 <= self.seq_of(k.0)
    }

    /// Whether `who` is a registered device.
    pub open spec fn is_registered(self, who: AccountId) -> bool {
        self.devices.contains_key(who)
    }

    /// The sequence counter of `who`; an identity that never recorded is at 0.
    pub open spec fn seq_of(self, who: AccountId) -> u64 {
        if self.data_index.contains_key(who) {
            self.data_index[who]
        } else {
            0
        }
    }
}

/// The result of `onboard_device` on a state.
pub open spec fn onboard_outcome(s: LedgerState, origin: Origin, address: AccountId, info: Vec<u8>) -> (
    LedgerState,
    DispatchResult,
) {
    if !(origin is Root) {
        (s, Err(DispatchError::BadOrigin))
    } else if s.is_registered(address) {
        (s, Err(DispatchError::Module(Error::DeviceAlreadyExists)))
    } else if s.device_count == u32::MAX {
        (s, Err(DispatchError::ArithmeticOverflow))
    } else {
        (
            LedgerState {
                device_count: (s.device_count + 1) as u32,
                devices: s.devices.insert(address, Device { hash: info, block: s.block }),
                events: s.events.push(Event::NewDeviceAdded(address)),
                ..s
            },
            Ok(()),
        )
    }
}

/// The result of `remove_device` on a state.
pub open spec fn remove_outcome(s: LedgerState, origin: Origin, address: AccountId) -> (
    LedgerState,
    DispatchResult,
) {
    if !(origin is Root) {
        (s, Err(DispatchError::BadOrigin))
    } else if !s.is_registered(address) {
        (s, Err(DispatchError::Module(Error::DeviceDoesNotExist)))
    } else if s.device_count == 0 {
        (s, Err(DispatchError::ArithmeticOverflow))
    } else {
        (
            LedgerState {
                device_count: (s.device_count - 1) as u32,
                devices: s.devices.remove(address),
                events: s.events.push(Event::DeviceRemoved(address)),
                ..s
            },
            Ok(()),
        )
    }
}

/// The result of `record` on a state: the reading goes under the caller's
/// own identity, at the next sequence number.
pub open spec fn record_outcome(
    s: LedgerState,
    origin: Origin,
    voltage: Vec<u8>,
    current: Vec<u8>,
    energy: Vec<u8>,
    energyacum: Vec<u8>,
) -> (LedgerState, DispatchResult) {
    match origin {
        Origin::Signed(who) => {
            if !s.is_registered(who) {
                (s, Err(DispatchError::Module(Error::DeviceDoesNotExist)))
            } else if s.seq_of(who) == u64::MAX {
                (s, Err(DispatchError::ArithmeticOverflow))
            } else {
                let count = (s.seq_of(who) + 1) as u64;
                let data = EnergyData { voltage, current, energy, energyacum, block: s.block };
                (
                    LedgerState {
                        data_index: s.data_index.insert(who, count),
                        items: s.items.insert((who, count), data),
                        events: s.events.push(Event::NewRecord(who)),
                        ..s
                    },
                    Ok(()),
                )
            }
        },
        _ => (s, Err(DispatchError::BadOrigin)),
    }
}

/// The registry of devices and the ledger of their readings.
pub struct Pallet {
    device_count: u32,
    devices: BTreeMap<AccountId, Device>,
    device_data_index: BTreeMap<AccountId, u64>,
    energy_data_item: BTreeMap<(AccountId, u64), EnergyData>,
    events: Vec<Event>,
    block_number: BlockNumber,
}

impl View for Pallet {
    type V = LedgerState;

    closed spec fn view(&self) -> LedgerState {
        LedgerState {
            device_count: self.device_count,
            devices: self.devices@,
            data_index: self.device_data_index@,
            items: self.energy_data_item@,
            events: self.events@,
            block: self.block_number,
        }
    }
}

impl Pallet {
    /// The ledger's invariant holds.
    pub open spec fn wf(&self) -> bool {
        self@.wf()
    }

    /// An empty registry and ledger at block 0.
    pub fn new() -> (r: Pallet)
        ensures
            r.wf(),
            r@.device_count == 0,
            r@.devices == Map::<AccountId, Device>::empty(),
            r@.data_index == Map::<AccountId, u64>::empty(),
            r@.items == Map::<(AccountId, u64), EnergyData>::empty(),
            r@.events == Seq::<Event>::empty(),
            r@.block == 0,
    {
        let r = Pallet {
            device_count: 0,
            devices: BTreeMap::new(),
            device_data_index: BTreeMap::new(),
            energy_data_item: BTreeMap::new(),
            events: Vec::new(),
            block_number: 0,
        };
        proof {
            assert(r.devices@.dom() =~= Set::<AccountId>::empty());
        }
        r
    }

    /// Sets the current block, as the host's clock advances.
    pub fn set_block_number(&mut self, n: BlockNumber)
        requires
            old(self).wf(),
        ensures
            final(self).wf(),
            final(self)@ == (LedgerState { block: n, ..old(self)@ }),
    {
        self.block_number = n;
    }

    /// The current block.
    pub fn block_number(&self) -> (r: BlockNumber)
        ensures
            r == self@.block,
    {
        self.block_number
    }

    /// Registers `address` with descriptor `info` at the current block.
    /// Only the administrator may call it; an identity is registered at most
    /// once, and the count never wraps.
    pub fn onboard_device(&mut self, origin: Origin, address: AccountId, info: Vec<u8>) -> (r:
        DispatchResult)
        requires
            old(self).wf(),
        ensures
            final(self).wf(),
            (final(self)@, r) == onboard_outcome(old(self)@, origin, address, info),
    {
        if let Err(e) = ensure_root(origin) {
            return Err(e);
        }
        if self.devices.contains_key(&address) {
            return Err(DispatchError::Module(Error::DeviceAlreadyExists));
        }
        let count = match self.device_count.checked_add(1) {
            Some(c) => c,
            None => {
                return Err(DispatchError::ArithmeticOverflow);
            },
        };
        let device = Device { block: self.block_number, hash: info };
        self.devices.insert(address, device);
        self.device_count = count;
        self.events.push(Event::NewDeviceAdded(address));
        Ok(())
    }

    /// Unregisters `address`. Only the administrator may call it. Readings
    /// and the sequence counter of `address` are kept.
    pub fn remove_device(&mut self, origin: Origin, address: AccountId) -> (r: DispatchResult)
        requires
            old(self).wf(),
        ensures
            final(self).wf(),
            (final(self)@, r) == remove_outcome(old(self)@, origin, address),
    {
        if let Err(e) = ensure_root(origin) {
            return Err(e);
        }
        if !self.devices.contains_key(&address) {
            return Err(DispatchError::Module(Error::DeviceDoesNotExist));
        }
        let count = match self.device_count.checked_sub(1) {
            Some(c) => c,
            None => {
                return Err(DispatchError::ArithmeticOverflow);
            },
        };
        self.devices.remove(&address);
        self.device_count = count;
        self.events.push(Event::DeviceRemoved(address));
        Ok(())
    }

    /// Appends a reading under the caller's own identity at the next
    /// sequence number. The caller must be a registered device.
    pub fn record(
        &mut self,
        origin: Origin,
        voltage: Vec<u8>,
        current: Vec<u8>,
        energy: Vec<u8>,
        energyacum: Vec<u8>,
    ) -> (r: DispatchResult)
        requires
            old(self).wf(),
        ensures
            final(self).wf(),
            (final(self)@, r) == record_outcome(
                old(self)@,
                origin,
                voltage,
                current,
                energy,
                energyacum,
            ),
    {
        let who = match ensure_signed(origin) {
            Ok(w) => w,
            Err(e) => {
                return Err(e);
            },
        };
        if !self.devices.contains_key(&who) {
            return Err(DispatchError::Module(Error::DeviceDoesNotExist));
        }
        let last: u64 = match self.device_data_index.get(&who) {
            Some(c) => *c,
            None => 0,
        };
        let count = match last.checked_add(1) {
            Some(c) => c,
            None => {
                return Err(DispatchError::ArithmeticOverflow);
            },
        };
        let data = EnergyData {
            voltage,
            current,
            energy,
            energyacum,
            block: self.block_number,
        };
        self.energy_data_item.insert((who, count), data);
        self.device_data_index.insert(who, count);
        self.events.push(Event::NewRecord(who));
        Ok(())
    }

    /// Number of registered devices.
    pub fn get_device_count(&self) -> (r: u32)
        ensures
            r == self@.device_count,
    {
        self.device_count
    }

    /// The record of `address`, if it is registered.
    pub fn get_device(&self, address: AccountId) -> (r: Option<&Device>)
        ensures
            match r {
                Some(d) => self@.devices.contains_key(address) && *d == self@.devices[address],
                None => !self@.devices.contains_key(address),
            },
    {
        self.devices.get(&address)
    }

    /// The reading of `key.0` at sequence number `key.1`, if there is one.
    pub fn get_energydata_item(&self, key: (AccountId, u64)) -> (r: Option<&EnergyData>)
        ensures
            match r {
                Some(d) => self@.items.contains_key(key) && *d == self@.items[key],
                None => !self@.items.contains_key(key),
            },
    {
        self.energy_data_item.get(&key)
    }

    /// The last sequence number assigned to `who`, if it ever recorded.
    pub fn get_device_data_index(&self, who: AccountId) -> (r: Option<u64>)
        ensures
            r == (if self@.data_index.contains_key(who) {
                Some(self@.data_index[who])
            } else {
                None::<u64>
            }),
    {
        match self.device_data_index.get(&who) {
            Some(c) => Some(*c),
            None => None,
        }
    }

    /// The notifications emitted so far, oldest first.
    pub fn events(&self) -> (r: &Vec<Event>)
        ensures
            r@ == self@.events,
    {
        &self.events
    }
}

} // verus!
