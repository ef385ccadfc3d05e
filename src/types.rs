//! Values that cross the ledger's boundary: origins, records, events, errors.
use vstd::prelude::*;

verus! {

/// Identity of a caller or device (an account reference).
pub type AccountId = u64;

/// Host-supplied block marker used to timestamp records.
pub type BlockNumber = u64;

/// Largest payload size, in bytes, that the ledger is configured for.
#[allow(non_snake_case)]
pub fn MaximumDataSize() -> (r: u32)
    ensures
        r == 512,
{
    512u32
}

/// How the host classified the origin of a call.
#[derive(Clone, Copy, Debug, PartialEq, Eq, Structural)]
pub enum Origin {
    /// The privileged administrator.
    Root,
    /// An authenticated caller acting under its own identity.
    Signed(AccountId),
    /// A call that carries no identity.
    Unsigned,
}

/// A registered metering device.
#[derive(Clone, Debug)]
pub struct Device {
    /// Opaque descriptor supplied at onboarding, stored verbatim.
    pub hash: Vec<u8>,
    /// Block at which the device was onboarded.
    pub block: BlockNumber,
}

/// One telemetry sample of a device; all payloads are opaque bytes.
#[derive(Clone, Debug)]
pub struct EnergyData {
    pub voltage: Vec<u8>,
    pub current: Vec<u8>,
    pub energy: Vec<u8>,
    pub energyacum: Vec<u8>,
    /// Block at which the reading was recorded.
    pub block: BlockNumber,
}

/// Operational status of a device; reserved, no operation sets it yet.
#[derive(Clone, Copy, Debug, PartialEq, Eq, Structural)]
pub enum DeviceStatus {
    Up,
    Down,
    DoesNotExist,
}

/// Notifications emitted by successful operations.
#[derive(Clone, Copy, Debug, PartialEq, Eq, Structural)]
pub enum Event {
    NewDeviceAdded(AccountId),
    DeviceRemoved(AccountId),
    NewRecord(AccountId),
}

/// Domain errors of the registry and the ledger.
#[derive(Clone, Copy, Debug, PartialEq, Eq, Structural)]
pub enum Error {
    /// The device is already registered.
    DeviceAlreadyExists,
    /// The device is not registered.
    DeviceDoesNotExist,
    /// A caller acted for an identity other than its own; reserved.
    UnauthorizedDevice,
}

/// Why an operation was rejected. A rejected operation changes nothing.
#[derive(Clone, Copy, Debug, PartialEq, Eq, Structural)]
pub enum DispatchError {
    /// The origin is not of the class the operation requires.
    BadOrigin,
    /// A counter would leave its representable range.
    ArithmeticOverflow,
    /// A domain error of the registry or the ledger.
    Module(Error),
}

/// Outcome of an operation.
pub type DispatchResult = Result<(), DispatchError>;

/// Admits only the administrator.
pub fn ensure_root(origin: Origin) -> (r: DispatchResult)
    ensures
        r == (if origin is Root { Ok::<(), DispatchError>(()) } else { Err(DispatchError::BadOrigin) }),
{
    match origin {
        Origin::Root => Ok(()),
        _ => Err(DispatchError::BadOrigin),
    }
}

/// Admits only an identified caller, and resolves its own identity.
pub fn ensure_signed(origin: Origin) -> (r: Result<AccountId, DispatchError>)
    ensures
        r == (match origin {
            Origin::Signed(who) => Ok::<AccountId, DispatchError>(who),
            _ => Err(DispatchError::BadOrigin),
        }),
{
    match origin {
        Origin::Signed(who) => Ok(who),
        _ => Err(DispatchError::BadOrigin),
    }
}

} // verus!
