use vstd::prelude::*;

use crate::error::EscrowError;
use crate::ledger::{balance_or_zero, Balances};
use crate::settlement::{
    cancel_outcome, execute_outcome, open_outcome, records_valid, vault_authority, Records,
};

verus! {

/// The vault authority's address of a pair, where derivation succeeds.
pub open spec fn vault_of(program_id: Seq<u8>, seed: u64, depositor: Seq<u8>) -> Seq<u8> {
    match vault_authority(program_id, seed, depositor) {
        Some((vault, _)) => vault,
        None => Seq::empty(),
    }
}

/// Opening an escrow and then cancelling it as its depositor gives back exactly the ledger and
/// the records from before the Open: the depositor holds its offered amount again, and neither
/// the vault nor the record remains.
pub proof fn lemma_open_then_cancel_restores(
    program_id: Seq<u8>,
    records: Records,
    m: Balances,
    depositor: Seq<u8>,
    seed: u64,
    asset_offered: Seq<u8>,
    asset_requested: Seq<u8>,
    amount_offered: u64,
    amount_requested: u64,
)
    requires
        open_outcome(program_id, records, m, depositor, seed, asset_offered, asset_requested, amount_offered, amount_requested) is Ok,
    ensures
        ({
            let (opened_records, opened) = open_outcome(
                program_id,
                records,
                m,
                depositor,
                seed,
                asset_offered,
                asset_requested,
                amount_offered,
                amount_requested,
            )->Ok_0;
            cancel_outcome(program_id, opened_records, opened, depositor, seed, depositor) == Ok::<(Records, Balances), EscrowError>((records, m))
        }),
{
    let (vault, bump) = vault_authority(program_id, seed, depositor)->Some_0;
    let vk = (vault, asset_offered);
    let dk = (depositor, asset_offered);
    let key = (seed, depositor);
    let m0 = m.insert(vk, 0);
    assert(vault != depositor);
    let funded = m0.insert(dk, (m0[dk] - amount_offered) as u64).insert(vk, (m0[vk] + amount_offered) as u64);
    let (opened_records, opened) = open_outcome(
        program_id,
        records,
        m,
        depositor,
        seed,
        asset_offered,
        asset_requested,
        amount_offered,
        amount_requested,
    )->Ok_0;
    assert(opened == funded);
    assert(opened_records.contains_key(key));
    let returned = funded.insert(vk, 0).insert(dk, (funded[dk] + amount_offered) as u64);
    assert(returned.remove(vk) =~= m);
    assert(opened_records.remove(key) =~= records);
}

/// Opening an escrow of `offered` units of `x` for `requested` units of `y`, then executing it by
/// a taker who holds at least `requested` of `y`, leaves the depositor `requested` more of `y`
/// (and `offered` less of `x`), the taker `offered` more of `x` and `requested` less of `y`,
/// every other account as it was, and neither the vault nor the record.
/// Stated for two distinct assets, a taker that is neither the depositor nor the vault authority,
/// and credited balances that stay within `u64`.
pub proof fn lemma_open_then_execute_exchanges(
    program_id: Seq<u8>,
    records: Records,
    m: Balances,
    depositor: Seq<u8>,
    taker: Seq<u8>,
    seed: u64,
    x: Seq<u8>,
    y: Seq<u8>,
    offered: u64,
    requested: u64,
)
    requires
        open_outcome(program_id, records, m, depositor, seed, x, y, offered, requested) is Ok,
        taker != depositor,
        taker != vault_of(program_id, seed, depositor),
        x != y,
        m.contains_key((taker, y)),
        m[(taker, y)] >= requested,
        balance_or_zero(m, depositor, y) + requested <= u64::MAX,
        balance_or_zero(m, taker, x) + offered <= u64::MAX,
    ensures
        ({
            let (opened_records, opened) = open_outcome(program_id, records, m, depositor, seed, x, y, offered, requested)->Ok_0;
            let expected = m.insert((depositor, x), (m[(depositor, x)] - offered) as u64).insert(
                (depositor, y),
                (balance_or_zero(m, depositor, y) + requested) as u64,
            ).insert((taker, x), (balance_or_zero(m, taker, x) + offered) as u64).insert(
                (taker, y),
                (m[(taker, y)] - requested) as u64,
            );
            execute_outcome(program_id, opened_records, opened, taker, seed, depositor) == Ok::<(Records, Balances), EscrowError>((records, expected))
        }),
{
    let (vault, bump) = vault_authority(program_id, seed, depositor)->Some_0;
    let vx = (vault, x);
    let dx = (depositor, x);
    let dy = (depositor, y);
    let tx = (taker, x);
    let ty = (taker, y);
    let key = (seed, depositor);
    let m0 = m.insert(vx, 0);
    assert(vault != depositor);
    let funded = m0.insert(dx, (m0[dx] - offered) as u64).insert(vx, (m0[vx] + offered) as u64);
    let (opened_records, opened) = open_outcome(program_id, records, m, depositor, seed, x, y, offered, requested)->Ok_0;
    assert(opened == funded);
    let rec = opened_records[key];
    assert(rec.asset_offered == x && rec.asset_requested == y && rec.amount_requested == requested);
    let p1 = if funded.contains_key(dy) { funded } else { funded.insert(dy, 0) };
    let prepared = if p1.contains_key(tx) { p1 } else { p1.insert(tx, 0) };
    assert(prepared[dy] == balance_or_zero(m, depositor, y));
    assert(prepared[tx] == balance_or_zero(m, taker, x));
    assert(prepared[ty] == m[ty]);
    assert(prepared[vx] == offered);
    let paid = prepared.insert(ty, (prepared[ty] - requested) as u64).insert(dy, (prepared[dy] + requested) as u64);
    assert(paid[vx] == offered);
    let delivered = paid.insert(vx, (paid[vx] - offered) as u64).insert(tx, (paid[tx] + offered) as u64);
    assert(delivered[vx] == 0);
    let closed = delivered.remove(vx);
    let expected = m.insert(dx, (m[dx] - offered) as u64).insert(dy, (balance_or_zero(m, depositor, y) + requested) as u64).insert(
        tx,
        (balance_or_zero(m, taker, x) + offered) as u64,
    ).insert(ty, (m[ty] - requested) as u64);
    assert(closed =~= expected);
    assert(opened_records.remove(key) =~= records);
}

/// While an escrow is live, a second Open of the same seed and depositor fails with
/// `VaultAlreadyExists`, whatever it offers or requests.
pub proof fn lemma_open_twice_refused(
    program_id: Seq<u8>,
    records: Records,
    m: Balances,
    depositor: Seq<u8>,
    seed: u64,
    asset_offered: Seq<u8>,
    asset_requested: Seq<u8>,
    amount_offered: u64,
    amount_requested: u64,
    second_offered: Seq<u8>,
    second_requested: Seq<u8>,
    second_amount_offered: u64,
    second_amount_requested: u64,
)
    requires
        open_outcome(program_id, records, m, depositor, seed, asset_offered, asset_requested, amount_offered, amount_requested) is Ok,
    ensures
        ({
            let (opened_records, opened) = open_outcome(
                program_id,
                records,
                m,
                depositor,
                seed,
                asset_offered,
                asset_requested,
                amount_offered,
                amount_requested,
            )->Ok_0;
            open_outcome(
                program_id,
                opened_records,
                opened,
                depositor,
                seed,
                second_offered,
                second_requested,
                second_amount_offered,
                second_amount_requested,
            ) == Err::<(Records, Balances), EscrowError>(EscrowError::VaultAlreadyExists)
        }),
{
}

/// After an Open is cancelled, the same Open succeeds again, with the same effect as the first.
pub proof fn lemma_reopen_after_cancel(
    program_id: Seq<u8>,
    records: Records,
    m: Balances,
    depositor: Seq<u8>,
    seed: u64,
    asset_offered: Seq<u8>,
    asset_requested: Seq<u8>,
    amount_offered: u64,
    amount_requested: u64,
)
    requires
        open_outcome(program_id, records, m, depositor, seed, asset_offered, asset_requested, amount_offered, amount_requested) is Ok,
    ensures
        ({
            let (opened_records, opened) = open_outcome(
                program_id,
                records,
                m,
                depositor,
                seed,
                asset_offered,
                asset_requested,
                amount_offered,
                amount_requested,
            )->Ok_0;
            let (cancelled_records, cancelled) = cancel_outcome(program_id, opened_records, opened, depositor, seed, depositor)->Ok_0;
            open_outcome(
                program_id,
                cancelled_records,
                cancelled,
                depositor,
                seed,
                asset_offered,
                asset_requested,
                amount_offered,
                amount_requested,
            ) == open_outcome(
                program_id,
                records,
                m,
                depositor,
                seed,
                asset_offered,
                asset_requested,
                amount_offered,
                amount_requested,
            )
        }),
{
    lemma_open_then_cancel_restores(
        program_id,
        records,
        m,
        depositor,
        seed,
        asset_offered,
        asset_requested,
        amount_offered,
        amount_requested,
    );
}

/// After an Open is executed, the same Open succeeds again wherever the depositor still holds
/// the offered amount.
pub proof fn lemma_reopen_after_execute(
    program_id: Seq<u8>,
    records: Records,
    m: Balances,
    depositor: Seq<u8>,
    taker: Seq<u8>,
    seed: u64,
    asset_offered: Seq<u8>,
    asset_requested: Seq<u8>,
    amount_offered: u64,
    amount_requested: u64,
)
    requires
        open_outcome(program_id, records, m, depositor, seed, asset_offered, asset_requested, amount_offered, amount_requested) is Ok,
        ({
            let (opened_records, opened) = open_outcome(
                program_id,
                records,
                m,
                depositor,
                seed,
                asset_offered,
                asset_requested,
                amount_offered,
                amount_requested,
            )->Ok_0;
            let done = execute_outcome(program_id, opened_records, opened, taker, seed, depositor);
            &&& done is Ok
            &&& balance_or_zero(done->Ok_0.1, depositor, asset_offered) >= amount_offered
        }),
    ensures
        ({
            let (opened_records, opened) = open_outcome(
                program_id,
                records,
                m,
                depositor,
                seed,
                asset_offered,
                asset_requested,
                amount_offered,
                amount_requested,
            )->Ok_0;
            let (executed_records, executed) = execute_outcome(program_id, opened_records, opened, taker, seed, depositor)->Ok_0;
            open_outcome(
                program_id,
                executed_records,
                executed,
                depositor,
                seed,
                asset_offered,
                asset_requested,
                amount_offered,
                amount_requested,
            ) is Ok
        }),
{
}

/// A Cancel by anyone but the stored depositor of a live escrow fails with `NotDepositor`.
pub proof fn lemma_cancel_by_other_refused(
    program_id: Seq<u8>,
    records: Records,
    m: Balances,
    caller: Seq<u8>,
    seed: u64,
    depositor: Seq<u8>,
)
    requires
        records_valid(program_id, records),
        records.contains_key((seed, depositor)),
        caller != depositor,
    ensures
        cancel_outcome(program_id, records, m, caller, seed, depositor) == Err::<(Records, Balances), EscrowError>(
            EscrowError::NotDepositor,
        ),
{
}

} // verus!
