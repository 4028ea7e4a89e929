use crate::account::Transfer;
use crate::address::Address;
use crate::errors::{first_error, lemma_first_error_ok};
use crate::tokenitis_instruction::execute_transform::execute::{
    input_moves, output_moves, present, swap_transfers, SwapLeg,
};
use crate::tokenitis_instruction::execute_transform::{Direction, ExecuteTransform};
use vstd::prelude::*;

verus! {

/// What the token service does with a transfer, on balances kept by account:
/// where both accounts exist and the source holds the amount, the amount
/// moves; otherwise the transfer is refused.
pub open spec fn settle(ledger: Map<Address, nat>, transfer: Transfer) -> Option<
    Map<Address, nat>,
> {
    if ledger.dom().contains(transfer.source) && ledger.dom().contains(transfer.destination)
        && ledger[transfer.source] >= transfer.amount {
        let debited = ledger.insert(
            transfer.source,
            (ledger[transfer.source] - transfer.amount) as nat,
        );
        Some(
            debited.insert(
                transfer.destination,
                (debited[transfer.destination] + transfer.amount) as nat,
            ),
        )
    } else {
        None
    }
}

/// What the token service does with transfers issued in order: the balances
/// after the last one, or nothing where one is refused.
pub open spec fn settle_all(ledger: Map<Address, nat>, transfers: Seq<Transfer>) -> Option<
    Map<Address, nat>,
>
    decreases transfers.len(),
{
    if transfers.len() == 0 {
        Some(ledger)
    } else {
        match settle_all(ledger, transfers.drop_last()) {
            Some(before) => settle(before, transfers.last()),
            None => None,
        }
    }
}

/// By how much a transfer changes the balance of `account`.
pub open spec fn change(transfer: Transfer, account: Address) -> int {
    (if transfer.destination == account {
        transfer.amount as int
    } else {
        0
    }) - (if transfer.source == account {
        transfer.amount as int
    } else {
        0
    })
}

/// By how much transfers change the balance of `account` in all.
pub open spec fn net_change(transfers: Seq<Transfer>, account: Address) -> int
    decreases transfers.len(),
{
    if transfers.len() == 0 {
        0
    } else {
        net_change(transfers.drop_last(), account) + change(transfers.last(), account)
    }
}

/// A transfer that settles keeps the accounts and changes each balance by
/// the transfer's change.
pub proof fn lemma_settle(ledger: Map<Address, nat>, transfer: Transfer)
    requires
        settle(ledger, transfer) is Some,
    ensures
        settle(ledger, transfer).unwrap().dom() == ledger.dom(),
        forall|account: Address| #[trigger]
            ledger.dom().contains(account) ==> settle(ledger, transfer).unwrap()[account]
                == ledger[account] + change(transfer, account),
{
    assert(settle(ledger, transfer).unwrap().dom() =~= ledger.dom());
}

/// Transfers that settle keep the accounts and change each balance by their
/// net change.
pub proof fn lemma_settle_all(ledger: Map<Address, nat>, transfers: Seq<Transfer>)
    requires
        settle_all(ledger, transfers) is Some,
    ensures
        settle_all(ledger, transfers).unwrap().dom() == ledger.dom(),
        forall|account: Address| #[trigger]
            ledger.dom().contains(account) ==> settle_all(ledger, transfers).unwrap()[account]
                == ledger[account] + net_change(transfers, account),
    decreases transfers.len(),
{
    if transfers.len() > 0 {
        let before = settle_all(ledger, transfers.drop_last()).unwrap();
        lemma_settle_all(ledger, transfers.drop_last());
        lemma_settle(before, transfers.last());
    }
}

/// Settling one list and then another is settling the two in a row.
pub proof fn lemma_settle_all_concat(
    ledger: Map<Address, nat>,
    first: Seq<Transfer>,
    second: Seq<Transfer>,
)
    ensures
        settle_all(ledger, first + second) == match settle_all(ledger, first) {
            Some(between) => settle_all(between, second),
            None => None,
        },
    decreases second.len(),
{
    if second.len() == 0 {
        assert(first + second =~= first);
    } else {
        assert((first + second).drop_last() =~= first + second.drop_last());
        assert((first + second).last() == second.last());
        lemma_settle_all_concat(ledger, first, second.drop_last());
    }
}

/// The net change of two lists in a row is the sum of their net changes.
pub proof fn lemma_net_change_concat(first: Seq<Transfer>, second: Seq<Transfer>, account: Address)
    ensures
        net_change(first + second, account) == net_change(first, account) + net_change(
            second,
            account,
        ),
    decreases second.len(),
{
    if second.len() == 0 {
        assert(first + second =~= first);
    } else {
        assert((first + second).drop_last() =~= first + second.drop_last());
        assert((first + second).last() == second.last());
        lemma_net_change_concat(first, second.drop_last(), account);
    }
}

/// What the input legs move on a reverse swap undoes what they move on a
/// forward one.
pub proof fn lemma_input_moves_cancel(
    legs: Seq<SwapLeg>,
    caller: Address,
    vault: Address,
    account: Address,
)
    ensures
        net_change(input_moves(Direction::Forward, legs, caller, vault), account) + net_change(
            input_moves(Direction::Reverse, legs, caller, vault),
            account,
        ) == 0,
    decreases legs.len(),
{
    if legs.len() > 0 {
        let there = input_moves(Direction::Forward, legs, caller, vault);
        let back = input_moves(Direction::Reverse, legs, caller, vault);
        assert(there.drop_last() =~= input_moves(
            Direction::Forward,
            legs.drop_last(),
            caller,
            vault,
        ));
        assert(back.drop_last() =~= input_moves(
            Direction::Reverse,
            legs.drop_last(),
            caller,
            vault,
        ));
        lemma_input_moves_cancel(legs.drop_last(), caller, vault, account);
    }
}

/// What the output legs move on a reverse swap undoes what they move on a
/// forward one.
pub proof fn lemma_output_moves_cancel(
    legs: Seq<SwapLeg>,
    caller: Address,
    vault: Address,
    account: Address,
)
    ensures
        net_change(output_moves(Direction::Forward, legs, caller, vault), account) + net_change(
            output_moves(Direction::Reverse, legs, caller, vault),
            account,
        ) == 0,
    decreases legs.len(),
{
    if legs.len() > 0 {
        let there = output_moves(Direction::Forward, legs, caller, vault);
        let back = output_moves(Direction::Reverse, legs, caller, vault);
        assert(there.drop_last() =~= output_moves(
            Direction::Forward,
            legs.drop_last(),
            caller,
            vault,
        ));
        assert(back.drop_last() =~= output_moves(
            Direction::Reverse,
            legs.drop_last(),
            caller,
            vault,
        ));
        lemma_output_moves_cancel(legs.drop_last(), caller, vault, account);
    }
}

/// A list of absent fees holds no transfer.
pub proof fn lemma_no_fees_present(fees: Seq<Option<Transfer>>)
    requires
        forall|i: int| 0 <= i < fees.len() ==> (#[trigger] fees[i]) is None,
    ensures
        present(fees) == Seq::<Transfer>::empty(),
    decreases fees.len(),
{
    if fees.len() > 0 {
        lemma_no_fees_present(fees.drop_last());
        assert(fees.last() == fees[fees.len() - 1]);
    }
}

/// A forward swap followed by a reverse swap over the same legs,
/// both settled, leaves every balance as it was but for the fees. The outcome
/// is the one of settling the forward swap's fee transfers alone: each
/// caller's input account is down by the fee on its leg, each fee account is
/// up by it, and every other balance is restored.
pub proof fn lemma_forward_then_reverse(
    fees: Seq<Option<Transfer>>,
    no_fees: Seq<Option<Transfer>>,
    inputs: Seq<SwapLeg>,
    outputs: Seq<SwapLeg>,
    caller: Address,
    vault: Address,
    ledger: Map<Address, nat>,
)
    requires
        forall|i: int| 0 <= i < no_fees.len() ==> (#[trigger] no_fees[i]) is None,
        settle_all(
            ledger,
            swap_transfers(Direction::Forward, fees, inputs, outputs, caller, vault),
        ) is Some,
        settle_all(
            settle_all(
                ledger,
                swap_transfers(Direction::Forward, fees, inputs, outputs, caller, vault),
            ).unwrap(),
            swap_transfers(Direction::Reverse, no_fees, inputs, outputs, caller, vault),
        ) is Some,
    ensures
        settle_all(ledger, present(fees)) == settle_all(
            settle_all(
                ledger,
                swap_transfers(Direction::Forward, fees, inputs, outputs, caller, vault),
            ).unwrap(),
            swap_transfers(Direction::Reverse, no_fees, inputs, outputs, caller, vault),
        ),
        forall|account: Address| #[trigger]
            ledger.dom().contains(account) ==> settle_all(ledger, present(fees)).unwrap()[account]
                == ledger[account] + net_change(present(fees), account),
{
    let there = swap_transfers(Direction::Forward, fees, inputs, outputs, caller, vault);
    let back = swap_transfers(Direction::Reverse, no_fees, inputs, outputs, caller, vault);
    let paid = present(fees);
    let ins_there = input_moves(Direction::Forward, inputs, caller, vault);
    let outs_there = output_moves(Direction::Forward, outputs, caller, vault);
    let ins_back = input_moves(Direction::Reverse, inputs, caller, vault);
    let outs_back = output_moves(Direction::Reverse, outputs, caller, vault);
    let after_forward = settle_all(ledger, there).unwrap();
    let after_reverse = settle_all(after_forward, back).unwrap();
    lemma_no_fees_present(no_fees);
    assert(back =~= ins_back + outs_back);
    assert(there =~= paid + (ins_there + outs_there));
    lemma_settle_all_concat(ledger, paid, ins_there + outs_there);
    let after_fees = settle_all(ledger, paid).unwrap();
    lemma_settle_all(ledger, there);
    lemma_settle_all(after_forward, back);
    lemma_settle_all(ledger, paid);
    assert forall|account: Address| #[trigger]
        ledger.dom().contains(account) implies after_reverse[account] == after_fees[account] by {
        lemma_net_change_concat(paid, ins_there + outs_there, account);
        lemma_net_change_concat(ins_there, outs_there, account);
        lemma_net_change_concat(ins_back, outs_back, account);
        lemma_input_moves_cancel(inputs, caller, vault, account);
        lemma_output_moves_cancel(outputs, caller, vault, account);
    }
    assert(after_reverse =~= after_fees);
}

/// No transfer of `transfers` takes from `account`.
pub open spec fn never_source(transfers: Seq<Transfer>, account: Address) -> bool {
    forall|k: int| 0 <= k < transfers.len() ==> (#[trigger] transfers[k]).source != account
}

/// No transfer of `transfers` takes from `account` or gives to it.
pub open spec fn untouched(transfers: Seq<Transfer>, account: Address) -> bool {
    forall|k: int|
        0 <= k < transfers.len() ==> (#[trigger] transfers[k]).source != account
            && transfers[k].destination != account
}

/// Transfers that do not touch an account leave its balance alone.
pub proof fn lemma_net_change_untouched(transfers: Seq<Transfer>, account: Address)
    requires
        untouched(transfers, account),
    ensures
        net_change(transfers, account) == 0,
    decreases transfers.len(),
{
    if transfers.len() > 0 {
        assert forall|k: int| 0 <= k < transfers.drop_last().len() implies (
        #[trigger] transfers.drop_last()[k]).source != account && transfers.drop_last()[k].destination
            != account by {
            assert(transfers.drop_last()[k] == transfers[k]);
        }
        lemma_net_change_untouched(transfers.drop_last(), account);
        assert(transfers.last() == transfers[transfers.len() - 1]);
    }
}

/// Transfers that never take from an account do not lower its balance; and
/// where one of them gives to it, the balance rises by at least that much.
pub proof fn lemma_net_change_of_receiver(transfers: Seq<Transfer>, account: Address)
    requires
        never_source(transfers, account),
    ensures
        net_change(transfers, account) >= 0,
        forall|k: int|
            0 <= k < transfers.len() && (#[trigger] transfers[k]).destination == account
                ==> net_change(transfers, account) >= transfers[k].amount,
    decreases transfers.len(),
{
    if transfers.len() > 0 {
        let front = transfers.drop_last();
        assert forall|k: int| 0 <= k < front.len() implies (#[trigger] front[k]).source
            != account by {
            assert(front[k] == transfers[k]);
        }
        lemma_net_change_of_receiver(front, account);
        assert(transfers.last() == transfers[transfers.len() - 1]);
        assert forall|k: int|
            0 <= k < transfers.len() && (#[trigger] transfers[k]).destination
                == account implies net_change(transfers, account) >= transfers[k].amount by {
            if k < front.len() {
                assert(front[k] == transfers[k]);
            }
        }
    }
}

/// Transfers that settle name accounts that exist.
pub proof fn lemma_settled_accounts_exist(ledger: Map<Address, nat>, transfers: Seq<Transfer>)
    requires
        settle_all(ledger, transfers) is Some,
    ensures
        forall|k: int|
            0 <= k < transfers.len() ==> ledger.dom().contains((#[trigger] transfers[k]).source)
                && ledger.dom().contains(transfers[k].destination),
    decreases transfers.len(),
{
    if transfers.len() > 0 {
        let front = transfers.drop_last();
        lemma_settled_accounts_exist(ledger, front);
        lemma_settle_all(ledger, front);
        assert forall|k: int| 0 <= k < transfers.len() implies ledger.dom().contains(
            (#[trigger] transfers[k]).source,
        ) && ledger.dom().contains(transfers[k].destination) by {
            if k < front.len() {
                assert(front[k] == transfers[k]);
            } else {
                assert(transfers[k] == transfers.last());
            }
        }
    }
}

/// Transfers settle where every account named exists and every source holds
/// its amount when its turn comes.
pub proof fn lemma_settle_all_succeeds(ledger: Map<Address, nat>, transfers: Seq<Transfer>)
    requires
        forall|k: int|
            0 <= k < transfers.len() ==> {
                &&& ledger.dom().contains((#[trigger] transfers[k]).source)
                &&& ledger.dom().contains(transfers[k].destination)
                &&& ledger[transfers[k].source] + net_change(
                    transfers.take(k),
                    transfers[k].source,
                ) >= transfers[k].amount
            },
    ensures
        settle_all(ledger, transfers) is Some,
    decreases transfers.len(),
{
    if transfers.len() > 0 {
        let front = transfers.drop_last();
        let last = transfers.len() - 1;
        assert forall|k: int| 0 <= k < front.len() implies {
            &&& ledger.dom().contains((#[trigger] front[k]).source)
            &&& ledger.dom().contains(front[k].destination)
            &&& ledger[front[k].source] + net_change(front.take(k), front[k].source)
                >= front[k].amount
        } by {
            assert(front[k] == transfers[k]);
            assert(front.take(k) =~= transfers.take(k));
        }
        lemma_settle_all_succeeds(ledger, front);
        lemma_settle_all(ledger, front);
        assert(transfers[last] == transfers.last());
        assert(transfers.take(last) =~= front);
    }
}

/// The accounts that the legs of a swap use: the caller's for the inputs,
/// the vault's for the inputs, the caller's for the outputs, the vault's for
/// the outputs.
pub open spec fn leg_accounts(inputs: Seq<SwapLeg>, outputs: Seq<SwapLeg>) -> Seq<Address> {
    Seq::new(inputs.len(), |i: int| inputs[i].caller_account) + Seq::new(
        inputs.len(),
        |i: int| inputs[i].vault_account,
    ) + Seq::new(outputs.len(), |i: int| outputs[i].caller_account) + Seq::new(
        outputs.len(),
        |i: int| outputs[i].vault_account,
    )
}

/// No address occurs twice.
pub open spec fn all_distinct(addresses: Seq<Address>) -> bool {
    forall|i: int, j: int|
        #![trigger addresses[i], addresses[j]]
        0 <= i < j < addresses.len() ==> addresses[i] != addresses[j]
}

/// Every fee is taken from an account that is neither a vault's input
/// account nor a caller's output account.
pub open spec fn fees_spare_receivers(
    fees: Seq<Option<Transfer>>,
    inputs: Seq<SwapLeg>,
    outputs: Seq<SwapLeg>,
) -> bool {
    forall|f: int|
        0 <= f < fees.len() && (#[trigger] fees[f]) is Some ==> {
            &&& forall|i: int|
                0 <= i < inputs.len() ==> fees[f].unwrap().source != (
                #[trigger] inputs[i]).vault_account
            &&& forall|j: int|
                0 <= j < outputs.len() ==> fees[f].unwrap().source != (
                #[trigger] outputs[j]).caller_account
        }
}

/// The fee transfers that are present take from no account that `fees`
/// spare.
proof fn lemma_present_never_source(fees: Seq<Option<Transfer>>, account: Address)
    requires
        forall|f: int|
            0 <= f < fees.len() && (#[trigger] fees[f]) is Some ==> fees[f].unwrap().source
                != account,
    ensures
        never_source(present(fees), account),
    decreases fees.len(),
{
    if fees.len() > 0 {
        let front = fees.drop_last();
        assert forall|f: int| 0 <= f < front.len() && (#[trigger] front[f]) is Some implies front[f].unwrap().source
            != account by {
            assert(front[f] == fees[f]);
        }
        lemma_present_never_source(front, account);
        assert(fees.last() == fees[fees.len() - 1]);
        let all = present(fees);
        assert forall|k: int| 0 <= k < all.len() implies (#[trigger] all[k]).source != account by {
            if k < present(front).len() {
                assert(all[k] == present(front)[k]);
            }
        }
    }
}

/// A forward swap that settles leaves the reverse swap over the same legs
/// able to settle: where no account serves two legs, every vault's input
/// account then holds what the reverse swap pays back from it, and every
/// caller's output account what the caller returns.
pub proof fn lemma_reverse_settles_after_forward(
    fees: Seq<Option<Transfer>>,
    no_fees: Seq<Option<Transfer>>,
    inputs: Seq<SwapLeg>,
    outputs: Seq<SwapLeg>,
    caller: Address,
    vault: Address,
    ledger: Map<Address, nat>,
)
    requires
        forall|i: int| 0 <= i < no_fees.len() ==> (#[trigger] no_fees[i]) is None,
        all_distinct(leg_accounts(inputs, outputs)),
        fees_spare_receivers(fees, inputs, outputs),
        settle_all(
            ledger,
            swap_transfers(Direction::Forward, fees, inputs, outputs, caller, vault),
        ) is Some,
    ensures
        settle_all(
            settle_all(
                ledger,
                swap_transfers(Direction::Forward, fees, inputs, outputs, caller, vault),
            ).unwrap(),
            swap_transfers(Direction::Reverse, no_fees, inputs, outputs, caller, vault),
        ) is Some,
{
    let n = inputs.len() as int;
    let m = outputs.len() as int;
    let there = swap_transfers(Direction::Forward, fees, inputs, outputs, caller, vault);
    let back = swap_transfers(Direction::Reverse, no_fees, inputs, outputs, caller, vault);
    let paid = present(fees);
    let ins_there = input_moves(Direction::Forward, inputs, caller, vault);
    let outs_there = output_moves(Direction::Forward, outputs, caller, vault);
    let ins_back = input_moves(Direction::Reverse, inputs, caller, vault);
    let outs_back = output_moves(Direction::Reverse, outputs, caller, vault);
    let after = settle_all(ledger, there).unwrap();
    let used = leg_accounts(inputs, outputs);
    lemma_no_fees_present(no_fees);
    assert(back =~= ins_back + outs_back);
    assert(there =~= paid + ins_there + outs_there);
    lemma_settle_all(ledger, there);
    lemma_settled_accounts_exist(ledger, there);
    assert forall|k: int| 0 <= k < back.len() implies {
        &&& after.dom().contains((#[trigger] back[k]).source)
        &&& after.dom().contains(back[k].destination)
        &&& after[back[k].source] + net_change(back.take(k), back[k].source) >= back[k].amount
    } by {
        let source = back[k].source;
        // The transfer's forward twin names the same two accounts.
        let twin = there[paid.len() + k];
        if k < n {
            assert(back[k] == ins_back[k]);
            assert(twin == ins_there[k]);
            assert(source == used[n + k]);
        } else {
            assert(back[k] == outs_back[k - n]);
            assert(twin == outs_there[k - n]);
            assert(source == used[2 * n + (k - n)]);
        }
        assert(twin.destination == source && twin.source == back[k].destination && twin.amount
            == back[k].amount);
        // Earlier transfers of the reverse swap do not touch the source.
        let earlier = back.take(k);
        assert forall|e: int| 0 <= e < earlier.len() implies (#[trigger] earlier[e]).source
            != source && earlier[e].destination != source by {
            assert(earlier[e] == back[e]);
            if e < n {
                assert(back[e] == ins_back[e]);
                assert(back[e].source == used[n + e]);
                assert(back[e].destination == used[e]);
            } else {
                assert(back[e] == outs_back[e - n]);
                assert(back[e].source == used[2 * n + (e - n)]);
                assert(back[e].destination == used[2 * n + m + (e - n)]);
            }
        }
        lemma_net_change_untouched(earlier, source);
        // The forward swap gave the source its amount and took nothing from it.
        assert forall|f: int| 0 <= f < fees.len() && (#[trigger] fees[f]) is Some implies fees[f].unwrap().source
            != source by {
            if k < n {
                assert(inputs[k].vault_account == source);
            } else {
                assert(outputs[k - n].caller_account == source);
            }
        }
        lemma_present_never_source(fees, source);
        assert forall|t: int| 0 <= t < there.len() implies (#[trigger] there[t]).source
            != source by {
            if t < paid.len() {
                assert(there[t] == paid[t]);
            } else if t < paid.len() + n {
                let i = t - paid.len();
                assert(there[t] == ins_there[i]);
                assert(there[t].source == used[i]);
            } else {
                let j = t - paid.len() - n;
                assert(there[t] == outs_there[j]);
                assert(there[t].source == used[2 * n + m + j]);
            }
        }
        lemma_net_change_of_receiver(there, source);
        assert(net_change(there, source) >= twin.amount);
    }
    lemma_settle_all_succeeds(after, back);
}

/// For two swaps of one transform by one caller: where the
/// forward and the reverse swap are planned over the same legs and both
/// settle, the balances afterwards are those of settling the forward swap's
/// fee transfers alone.
pub proof fn lemma_round_trip(
    forward: ExecuteTransform,
    reverse: ExecuteTransform,
    ledger: Map<Address, nat>,
)
    requires
        forward.args.direction == Direction::Forward,
        reverse.args.direction == Direction::Reverse,
        first_error(forward.steps()) is Ok,
        first_error(reverse.steps()) is Ok,
        forward.accounts.caller.key == reverse.accounts.caller.key,
        forward.accounts.transform.key == reverse.accounts.transform.key,
        forward.accounts.caller_inputs@.len() == reverse.accounts.caller_inputs@.len(),
        forward.accounts.caller_outputs@.len() == reverse.accounts.caller_outputs@.len(),
        forall|i: int|
            0 <= i < forward.accounts.caller_inputs@.len() ==> #[trigger] forward.input_item(i)
                == reverse.input_item(i),
        forall|i: int|
            0 <= i < forward.accounts.caller_outputs@.len() ==> #[trigger] forward.output_item(i)
                == reverse.output_item(i),
        settle_all(ledger, forward.transfers()) is Some,
        settle_all(settle_all(ledger, forward.transfers()).unwrap(), reverse.transfers()) is Some,
    ensures
        settle_all(settle_all(ledger, forward.transfers()).unwrap(), reverse.transfers())
            == settle_all(ledger, forward.fee_transfers()),
        forall|account: Address| #[trigger]
            ledger.dom().contains(account) ==> settle_all(
                ledger,
                forward.fee_transfers(),
            ).unwrap()[account] == ledger[account] + net_change(forward.fee_transfers(), account),
{
    let n = forward.accounts.caller_inputs@.len();
    let m = forward.accounts.caller_outputs@.len();
    let fees = Seq::new(n, |i: int| forward.fee_item(i).unwrap());
    let no_fees = Seq::new(n, |i: int| reverse.fee_item(i).unwrap());
    let inputs = Seq::new(n, |i: int| forward.input_item(i).unwrap());
    let outputs = Seq::new(m, |i: int| forward.output_item(i).unwrap());
    assert(inputs =~= Seq::new(n, |i: int| reverse.input_item(i).unwrap()));
    assert(outputs =~= Seq::new(m, |i: int| reverse.output_item(i).unwrap()));
    lemma_forward_then_reverse(
        fees,
        no_fees,
        inputs,
        outputs,
        forward.accounts.caller.key,
        forward.accounts.transform.key,
        ledger,
    );
}

/// For two swaps of one transform by one caller: where no
/// account serves two legs, a forward swap that settles leaves the reverse
/// swap over the same legs able to settle, and the balances afterwards are
/// those of settling the forward swap's fee transfers alone.
pub proof fn lemma_round_trip_settles(
    forward: ExecuteTransform,
    reverse: ExecuteTransform,
    ledger: Map<Address, nat>,
)
    requires
        forward.args.direction == Direction::Forward,
        reverse.args.direction == Direction::Reverse,
        first_error(forward.steps()) is Ok,
        first_error(reverse.steps()) is Ok,
        forward.accounts.caller.key == reverse.accounts.caller.key,
        forward.accounts.transform.key == reverse.accounts.transform.key,
        forward.accounts.caller_inputs@.len() == reverse.accounts.caller_inputs@.len(),
        forward.accounts.caller_outputs@.len() == reverse.accounts.caller_outputs@.len(),
        forall|i: int|
            0 <= i < forward.accounts.caller_inputs@.len() ==> #[trigger] forward.input_item(i)
                == reverse.input_item(i),
        forall|i: int|
            0 <= i < forward.accounts.caller_outputs@.len() ==> #[trigger] forward.output_item(i)
                == reverse.output_item(i),
        all_distinct(
            leg_accounts(
                Seq::new(
                    forward.accounts.caller_inputs@.len(),
                    |i: int| forward.input_item(i).unwrap(),
                ),
                Seq::new(
                    forward.accounts.caller_outputs@.len(),
                    |i: int| forward.output_item(i).unwrap(),
                ),
            ),
        ),
        settle_all(ledger, forward.transfers()) is Some,
    ensures
        settle_all(settle_all(ledger, forward.transfers()).unwrap(), reverse.transfers()) is Some,
        settle_all(settle_all(ledger, forward.transfers()).unwrap(), reverse.transfers())
            == settle_all(ledger, forward.fee_transfers()),
{
    let n = forward.accounts.caller_inputs@.len();
    let m = forward.accounts.caller_outputs@.len();
    let fees = Seq::new(n, |i: int| forward.fee_item(i).unwrap());
    let no_fees = Seq::new(n, |i: int| reverse.fee_item(i).unwrap());
    let inputs = Seq::new(n, |i: int| forward.input_item(i).unwrap());
    let outputs = Seq::new(m, |i: int| forward.output_item(i).unwrap());
    let used = leg_accounts(inputs, outputs);
    assert(inputs =~= Seq::new(n, |i: int| reverse.input_item(i).unwrap()));
    assert(outputs =~= Seq::new(m, |i: int| reverse.output_item(i).unwrap()));
    lemma_first_error_ok(forward.steps());
    assert forall|f: int| 0 <= f < fees.len() && (#[trigger] fees[f]) is Some implies {
        &&& forall|i: int|
            0 <= i < inputs.len() ==> fees[f].unwrap().source != (#[trigger] inputs[i]).vault_account
        &&& forall|j: int|
            0 <= j < outputs.len() ==> fees[f].unwrap().source != (
            #[trigger] outputs[j]).caller_account
    } by {
        assert(forward.steps()[2 + f] is Ok);
        assert(forward.steps()[2 + n + f] is Ok);
        assert(forward.input_item(f) is Ok);
        assert(forward.fee_item(f) is Ok);
        assert(fees[f].unwrap().source == inputs[f].caller_account);
        assert(inputs[f].caller_account == used[f]);
        assert forall|i: int| 0 <= i < inputs.len() implies fees[f].unwrap().source != (
        #[trigger] inputs[i]).vault_account by {
            assert(inputs[i].vault_account == used[n + i]);
        }
        assert forall|j: int| 0 <= j < outputs.len() implies fees[f].unwrap().source != (
        #[trigger] outputs[j]).caller_account by {
            assert(outputs[j].caller_account == used[2 * n + j]);
        }
    }
    lemma_reverse_settles_after_forward(
        fees,
        no_fees,
        inputs,
        outputs,
        forward.accounts.caller.key,
        forward.accounts.transform.key,
        ledger,
    );
    lemma_forward_then_reverse(
        fees,
        no_fees,
        inputs,
        outputs,
        forward.accounts.caller.key,
        forward.accounts.transform.key,
        ledger,
    );
}

} // verus!
