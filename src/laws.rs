//! Properties of the ledger over single operations and over sequences of them.
use vstd::prelude::*;

use crate::pallet::{onboard_outcome, record_outcome, remove_outcome, LedgerState};
use crate::types::{AccountId, BlockNumber, DispatchError, DispatchResult, EnergyData, Error, Origin};

verus! {

/// One call on the ledger, or the host's clock moving to a block.
pub enum Op {
    Onboard(Origin, AccountId, Vec<u8>),
    Remove(Origin, AccountId),
    Record(Origin, Vec<u8>, Vec<u8>, Vec<u8>, Vec<u8>),
    SetBlock(BlockNumber),
}

/// The result of applying one operation.
pub open spec fn step(s: LedgerState, op: Op) -> (LedgerState, DispatchResult) {
    match op {
        Op::Onboard(origin, address, info) => onboard_outcome(s, origin, address, info),
        Op::Remove(origin, address) => remove_outcome(s, origin, address),
        Op::Record(origin, v, c, e, ea) => record_outcome(s, origin, v, c, e, ea),
        Op::SetBlock(b) => (LedgerState { block: b, ..s }, Ok(())),
    }
}

/// The state after applying `ops` in order.
pub open spec fn run(s: LedgerState, ops: Seq<Op>) -> LedgerState
    decreases ops.len(),
{
    if ops.len() == 0 {
        s
    } else {
        step(run(s, ops.drop_last()), ops.last()).0
    }
}

/// Whether `op` is a removal of `who`.
pub open spec fn removes(op: Op, who: AccountId) -> bool {
    match op {
        Op::Remove(_, address) => address == who,
        _ => false,
    }
}

/// Whether `op` is a recording call made by `who` itself.
pub open spec fn records_as(op: Op, who: AccountId) -> bool {
    match op {
        Op::Record(Origin::Signed(caller), _, _, _, _) => caller == who,
        _ => false,
    }
}

/// Every operation keeps the ledger's invariant.
pub proof fn lemma_step_wf(s: LedgerState, op: Op)
    requires
        s.wf(),
    ensures
        step(s, op).0.wf(),
{
    let t = step(s, op).0;
    match op {
        Op::Onboard(origin, address, info) => {
            if step(s, op).1 is Ok {
                assert(t.devices.dom() =~= s.devices.dom().insert(address));
            }
        },
        Op::Remove(origin, address) => {
            if step(s, op).1 is Ok {
                assert(t.devices.dom() =~= s.devices.dom().remove(address));
            }
        },
        Op::Record(origin, v, c, e, ea) => {
            if step(s, op).1 is Ok {
                assert forall|k: (AccountId, u64)| #[trigger] t.items.contains_key(k) implies 1
                    <= k.1 <= t.seq_of(k.0) by {
                    if s.items.contains_key(k) {
                        assert(s.seq_of(k.0) <= t.seq_of(k.0));
                    }
                }
            }
        },
        Op::SetBlock(b) => {},
    }
}

/// Count consistency: after any sequence of operations the device count is
/// the number of registered identities.
pub proof fn lemma_count_consistent(s: LedgerState, ops: Seq<Op>)
    requires
        s.wf(),
    ensures
        run(s, ops).wf(),
        run(s, ops).device_count as nat == run(s, ops).devices.dom().len(),
    decreases ops.len(),
{
    if ops.len() > 0 {
        lemma_count_consistent(s, ops.drop_last());
        lemma_step_wf(run(s, ops.drop_last()), ops.last());
    }
}

/// A registered device keeps its record through operations that do not
/// remove it.
proof fn lemma_registration_kept(s: LedgerState, who: AccountId, ops: Seq<Op>)
    requires
        s.is_registered(who),
        forall|k: int| 0 <= k < ops.len() ==> !removes(#[trigger] ops[k], who),
    ensures
        run(s, ops).is_registered(who),
        run(s, ops).devices[who] == s.devices[who],
    decreases ops.len(),
{
    if ops.len() > 0 {
        let prefix = ops.drop_last();
        assert forall|k: int| 0 <= k < prefix.len() implies !removes(#[trigger] prefix[k], who) by {
            assert(prefix[k] == ops[k]);
        }
        lemma_registration_kept(s, who, prefix);
        assert(!removes(ops[ops.len() - 1], who));
    }
}

/// Uniqueness: once `onboard(who, info)` succeeds, a later onboarding of
/// `who` before any removal of it fails with `DeviceAlreadyExists`, and the
/// stored descriptor stays `info`.
pub proof fn lemma_onboard_unique(
    s: LedgerState,
    who: AccountId,
    info: Vec<u8>,
    ops: Seq<Op>,
    other_info: Vec<u8>,
)
    requires
        onboard_outcome(s, Origin::Root, who, info).1 is Ok,
        forall|k: int| 0 <= k < ops.len() ==> !removes(#[trigger] ops[k], who),
    ensures
        ({
            let before = run(onboard_outcome(s, Origin::Root, who, info).0, ops);
            &&& onboard_outcome(before, Origin::Root, who, other_info) == (
                before,
                Err::<(), DispatchError>(DispatchError::Module(Error::DeviceAlreadyExists)),
            )
            &&& before.devices[who].hash == info
        }),
{
    lemma_registration_kept(onboard_outcome(s, Origin::Root, who, info).0, who, ops);
}

/// Existence gating: removing or recording for an unregistered identity
/// fails with `DeviceDoesNotExist` and changes nothing.
pub proof fn lemma_existence_gating(
    s: LedgerState,
    who: AccountId,
    voltage: Vec<u8>,
    current: Vec<u8>,
    energy: Vec<u8>,
    energyacum: Vec<u8>,
)
    requires
        !s.is_registered(who),
    ensures
        remove_outcome(s, Origin::Root, who) == (
            s,
            Err::<(), DispatchError>(DispatchError::Module(Error::DeviceDoesNotExist)),
        ),
        record_outcome(s, Origin::Signed(who), voltage, current, energy, energyacum) == (
            s,
            Err::<(), DispatchError>(DispatchError::Module(Error::DeviceDoesNotExist)),
        ),
{
}

/// A rejected operation leaves the state exactly as it was.
pub proof fn lemma_failure_changes_nothing(s: LedgerState, op: Op)
    requires
        step(s, op).1 is Err,
    ensures
        step(s, op).0 == s,
{
}

/// Self-service: an operation never changes or drops a stored reading, and
/// the only readings it adds are under the identity of the device that made
/// the recording call.
pub proof fn lemma_self_service(s: LedgerState, op: Op)
    requires
        s.wf(),
    ensures
        forall|k: (AccountId, u64)| #[trigger]
            s.items.contains_key(k) ==> step(s, op).0.items.contains_key(k) && step(
                s,
                op,
            ).0.items[k] == s.items[k],
        forall|k: (AccountId, u64)| #[trigger]
            step(s, op).0.items.contains_key(k) && !s.items.contains_key(k) ==> records_as(
                op,
                k.0,
            ),
        forall|who: AccountId| #[trigger]
            step(s, op).0.seq_of(who) != s.seq_of(who) ==> records_as(op, who),
{
    if let Op::Record(Origin::Signed(who), _, _, _, _) = op {
        if s.seq_of(who) < u64::MAX {
            assert(!s.items.contains_key((who, (s.seq_of(who) + 1) as u64)));
        }
    }
}

/// One recording call by `who` of the reading `r`, made at block `r.block`.
pub open spec fn record_step(s: LedgerState, who: AccountId, r: EnergyData) -> (
    LedgerState,
    DispatchResult,
) {
    record_outcome(
        LedgerState { block: r.block, ..s },
        Origin::Signed(who),
        r.voltage,
        r.current,
        r.energy,
        r.energyacum,
    )
}

/// The state after `who` records each of `rs` in order.
pub open spec fn record_run(s: LedgerState, who: AccountId, rs: Seq<EnergyData>) -> LedgerState
    decreases rs.len(),
{
    if rs.len() == 0 {
        s
    } else {
        record_step(record_run(s, who, rs.drop_last()), who, rs.last()).0
    }
}

/// Consecutive recordings by a registered device take the sequence numbers
/// that follow its counter, one each, in call order.
proof fn lemma_records_follow_counter(s: LedgerState, who: AccountId, rs: Seq<EnergyData>)
    requires
        s.wf(),
        s.is_registered(who),
        s.seq_of(who) + rs.len() <= u64::MAX,
    ensures
        record_run(s, who, rs).wf(),
        record_run(s, who, rs).is_registered(who),
        record_run(s, who, rs).seq_of(who) == s.seq_of(who) + rs.len(),
        forall|n: u64|
            s.seq_of(who) < n <= s.seq_of(who) + rs.len() ==> {
                &&& #[trigger] record_run(s, who, rs).items.contains_key((who, n))
                &&& record_run(s, who, rs).items[(who, n)] == rs[n - s.seq_of(who) - 1]
            },
    decreases rs.len(),
{
    if rs.len() > 0 {
        let prefix = rs.drop_last();
        lemma_records_follow_counter(s, who, prefix);
        let t0 = record_run(s, who, prefix);
        let r = rs.last();
        lemma_step_wf(
            LedgerState { block: r.block, ..t0 },
            Op::Record(Origin::Signed(who), r.voltage, r.current, r.energy, r.energyacum),
        );
        assert(r == EnergyData {
            voltage: r.voltage,
            current: r.current,
            energy: r.energy,
            energyacum: r.energyacum,
            block: r.block,
        });
        let t = record_run(s, who, rs);
        assert(t.items == t0.items.insert((who, (s.seq_of(who) + rs.len()) as u64), r));
        assert forall|n: u64| s.seq_of(who) < n <= s.seq_of(who) + rs.len() implies {
            &&& #[trigger] t.items.contains_key((who, n))
            &&& t.items[(who, n)] == rs[n - s.seq_of(who) - 1]
        } by {
            if n < s.seq_of(who) + rs.len() {
                assert(t0.items.contains_key((who, n)));
                assert(prefix[n - s.seq_of(who) - 1] == rs[n - s.seq_of(who) - 1]);
            }
        }
    }
}

/// Monotonic sequencing: when a registered device that has no readings yet
/// records `rs` in order, every call succeeds, the k-th call (from 1) takes
/// sequence number k, and the reading at sequence number n is the n-th one
/// supplied.
pub proof fn lemma_monotonic_sequencing(s: LedgerState, who: AccountId, rs: Seq<EnergyData>)
    requires
        s.wf(),
        s.is_registered(who),
        s.seq_of(who) == 0,
        rs.len() <= u64::MAX,
    ensures
        forall|k: int|
            0 <= k < rs.len() ==> {
                &&& (#[trigger] record_step(record_run(s, who, rs.take(k)), who, rs[k])).1 is Ok
                &&& record_run(s, who, rs.take(k + 1)).seq_of(who) == k + 1
            },
        record_run(s, who, rs).seq_of(who) == rs.len(),
        forall|n: u64|
            1 <= n <= rs.len() ==> {
                &&& #[trigger] record_run(s, who, rs).items.contains_key((who, n))
                &&& record_run(s, who, rs).items[(who, n)] == rs[n - 1]
            },
{
    lemma_records_follow_counter(s, who, rs);
    assert forall|k: int| 0 <= k < rs.len() implies {
        &&& (#[trigger] record_step(record_run(s, who, rs.take(k)), who, rs[k])).1 is Ok
        &&& record_run(s, who, rs.take(k + 1)).seq_of(who) == k + 1
    } by {
        lemma_records_follow_counter(s, who, rs.take(k));
        lemma_records_follow_counter(s, who, rs.take(k + 1));
        assert(rs.take(k + 1).drop_last() =~= rs.take(k));
        assert(rs.take(k + 1).last() == rs[k]);
    }
}

} // verus!
