use crate::account::Transfer;
use crate::address::Address;
use crate::basket::{has_mint, lemma_map_of_entry, map_of, Basket, Leg};
use crate::derivation::{fee_account, find_fee_account, prove_authority, Authorization};
use crate::errors::{first_error, lemma_first_error_at, lemma_first_error_none, TokenitisError};
use crate::state::{
    lemma_taken_transform_ascends, take_transform, transform_address, transform_seed_bytes,
    Tokenitis, Transform, TransformView,
};
use crate::tokenitis_instruction::execute_transform::validate::lemma_valid_swap_is_in_order;
use crate::token::{token_account_unpacked, unpack_token_account, TokenAccount};
use crate::tokenitis_instruction::execute_transform::{Direction, ExecuteTransform};
use crate::util::{calculate_fee, capped_fee};
use vstd::prelude::*;

verus! {

/// One leg of a swap with its amount looked up: the token type, the amount,
/// the caller's account and the vault's.
#[derive(Clone, Copy, Debug, PartialEq, Eq)]
pub struct SwapLeg {
    pub mint: Address,
    pub amount: u64,
    pub caller_account: Address,
    pub vault_account: Address,
}

/// What a swap asks of the token service: the transfers in the order in which
/// they are to be issued, and the proof of the program's authority over the
/// transform's address, for those transfers that the vault authorizes.
/// Should a transfer fail, the ledger undoes the ones before it.
#[derive(Debug)]
pub struct SwapPlan {
    pub transfers: Vec<Transfer>,
    pub authorization: Authorization,
}

/// The fee due on a leg: on a forward swap of a transform with a fee, the
/// fee on the leg's amount; otherwise nothing.
pub open spec fn fee_due(direction: Direction, fee: Option<u64>, amount: u64) -> u64 {
    match fee {
        Some(percent) => if direction == Direction::Forward {
            capped_fee(amount, percent)
        } else {
            0
        },
        None => 0,
    }
}

/// The leg that the account `held` stands for: the basket's entry for the token
/// type that the account holds. An account of a token type that the basket
/// lacks is an `InvalidArgument`; what the token service rejects is reported
/// with its own error.
pub open spec fn resolved(
    basket: Seq<Leg>,
    held: Result<TokenAccount, TokenitisError>,
    caller_account: Address,
    vault_account: Address,
) -> Result<SwapLeg, TokenitisError> {
    match held {
        Err(e) => Err(e),
        Ok(account) => if has_mint(basket, account.mint) {
            Ok(
                SwapLeg {
                    mint: account.mint,
                    amount: map_of(basket)[account.mint].amount,
                    caller_account,
                    vault_account,
                },
            )
        } else {
            Err(TokenitisError::InvalidArgument)
        },
    }
}

/// The fee transfer for a leg, given the fee due and the derivation of the
/// creator's fee account: none where no fee is due, else from the caller's
/// account to the fee account, authorized by the caller.
pub open spec fn fee_transfer(
    due: u64,
    leg: SwapLeg,
    derived: Option<(Address, u8)>,
    caller: Address,
) -> Result<Option<Transfer>, TokenitisError> {
    if due == 0 {
        Ok(None)
    } else {
        match derived {
            None => Err(TokenitisError::InvalidSeeds),
            Some((account, _)) => Ok(
                Some(
                    Transfer {
                        source: leg.caller_account,
                        destination: account,
                        authority: caller,
                        amount: due,
                        vault_signed: false,
                    },
                ),
            ),
        }
    }
}

/// The caller pays a leg into the vault, on the caller's own authority.
pub open spec fn deposit(leg: SwapLeg, caller: Address) -> Transfer {
    Transfer {
        source: leg.caller_account,
        destination: leg.vault_account,
        authority: caller,
        amount: leg.amount,
        vault_signed: false,
    }
}

/// The vault pays a leg out to the caller, on the authority of the
/// transform's derived address.
pub open spec fn withdrawal(leg: SwapLeg, vault: Address) -> Transfer {
    Transfer {
        source: leg.vault_account,
        destination: leg.caller_account,
        authority: vault,
        amount: leg.amount,
        vault_signed: true,
    }
}

/// The transfer for an input leg: paid in on a forward swap, paid back on a
/// reverse one.
pub open spec fn input_move(direction: Direction, leg: SwapLeg, caller: Address, vault: Address)
    -> Transfer {
    if direction == Direction::Forward {
        deposit(leg, caller)
    } else {
        withdrawal(leg, vault)
    }
}

/// The transfer for an output leg: paid out on a forward swap, paid back in
/// on a reverse one.
pub open spec fn output_move(direction: Direction, leg: SwapLeg, caller: Address, vault: Address)
    -> Transfer {
    if direction == Direction::Forward {
        withdrawal(leg, vault)
    } else {
        deposit(leg, caller)
    }
}

/// The transfers that are present in `items`, in order.
pub open spec fn present(items: Seq<Option<Transfer>>) -> Seq<Transfer>
    decreases items.len(),
{
    if items.len() == 0 {
        Seq::<Transfer>::empty()
    } else {
        present(items.drop_last()) + match items.last() {
            Some(transfer) => seq![transfer],
            None => Seq::<Transfer>::empty(),
        }
    }
}

/// The transfers for the input legs, in order.
pub open spec fn input_moves(
    direction: Direction,
    inputs: Seq<SwapLeg>,
    caller: Address,
    vault: Address,
) -> Seq<Transfer> {
    Seq::new(inputs.len(), |i: int| input_move(direction, inputs[i], caller, vault))
}

/// The transfers for the output legs, in order.
pub open spec fn output_moves(
    direction: Direction,
    outputs: Seq<SwapLeg>,
    caller: Address,
    vault: Address,
) -> Seq<Transfer> {
    Seq::new(outputs.len(), |i: int| output_move(direction, outputs[i], caller, vault))
}

/// The transfers of a swap: the fees, then the input legs, then the output legs.
pub open spec fn swap_transfers(
    direction: Direction,
    fees: Seq<Option<Transfer>>,
    inputs: Seq<SwapLeg>,
    outputs: Seq<SwapLeg>,
    caller: Address,
    vault: Address,
) -> Seq<Transfer> {
    present(fees) + input_moves(direction, inputs, caller, vault) + output_moves(
        direction,
        outputs,
        caller,
        vault,
    )
}

/// Whether a step succeeded, leaving out what it produced.
pub open spec fn passed<T>(outcome: Result<T, TokenitisError>) -> Result<(), TokenitisError> {
    match outcome {
        Ok(_) => Ok(()),
        Err(e) => Err(e),
    }
}

/// Looks up the leg that an account stands for, given what the token service
/// reads from the account.
pub fn resolve_leg(
    basket: &Basket,
    held: Result<TokenAccount, TokenitisError>,
    caller_account: &Address,
    vault_account: &Address,
) -> (leg: Result<SwapLeg, TokenitisError>)
    ensures
        leg == resolved(basket@, held, *caller_account, *vault_account),
{
    let account = match held {
        Ok(account) => account,
        Err(e) => {
            return Err(e);
        },
    };
    match basket.get(&account.mint) {
        Some(token) => Ok(
            SwapLeg {
                mint: account.mint,
                amount: token.amount,
                caller_account: *caller_account,
                vault_account: *vault_account,
            },
        ),
        None => Err(TokenitisError::InvalidArgument),
    }
}

/// The fee transfer for a leg, given the fee due and the derivation of the
/// creator's fee account.
pub fn plan_fee(due: u64, leg: &SwapLeg, derived: Option<(Address, u8)>, caller: &Address) -> (fee:
    Result<Option<Transfer>, TokenitisError>)
    ensures
        fee == fee_transfer(due, *leg, derived, *caller),
{
    if due == 0 {
        return Ok(None);
    }
    match derived {
        None => Err(TokenitisError::InvalidSeeds),
        Some((account, _)) => Ok(
            Some(
                Transfer {
                    source: leg.caller_account,
                    destination: account,
                    authority: *caller,
                    amount: due,
                    vault_signed: false,
                },
            ),
        ),
    }
}

/// Lines up the transfers of a swap: the fees that are due, then one
/// transfer per input leg, then one per output leg.
pub fn plan_transfers(
    direction: Direction,
    fees: &Vec<Option<Transfer>>,
    inputs: &Vec<SwapLeg>,
    outputs: &Vec<SwapLeg>,
    caller: &Address,
    vault: &Address,
) -> (transfers: Vec<Transfer>)
    ensures
        transfers@ == swap_transfers(direction, fees@, inputs@, outputs@, *caller, *vault),
{
    let mut transfers: Vec<Transfer> = Vec::new();
    let mut f: usize = 0;
    assert(fees@.take(0) =~= Seq::<Option<Transfer>>::empty());
    while f < fees.len()
        invariant
            0 <= f <= fees@.len(),
            transfers@ == present(fees@.take(f as int)),
        decreases fees@.len() - f,
    {
        proof {
            let done = fees@.take(f + 1);
            assert(done.drop_last() =~= fees@.take(f as int));
            assert(done.last() == fees@[f as int]);
        }
        match fees[f] {
            Some(transfer) => {
                transfers.push(transfer);
            },
            None => {},
        }
        assert(transfers@ =~= present(fees@.take(f + 1)));
        f += 1;
    }
    assert(fees@.take(fees@.len() as int) =~= fees@);
    let forward = direction == Direction::Forward;
    let ghost paid = present(fees@);
    let ghost ins = input_moves(direction, inputs@, *caller, *vault);
    let mut i: usize = 0;
    while i < inputs.len()
        invariant
            0 <= i <= inputs@.len(),
            forward == (direction == Direction::Forward),
            ins == input_moves(direction, inputs@, *caller, *vault),
            transfers@ == paid + ins.take(i as int),
        decreases inputs@.len() - i,
    {
        let leg = inputs[i];
        transfers.push(
            if forward {
                Transfer {
                    source: leg.caller_account,
                    destination: leg.vault_account,
                    authority: *caller,
                    amount: leg.amount,
                    vault_signed: false,
                }
            } else {
                Transfer {
                    source: leg.vault_account,
                    destination: leg.caller_account,
                    authority: *vault,
                    amount: leg.amount,
                    vault_signed: true,
                }
            },
        );
        assert(transfers@ =~= paid + ins.take(i + 1));
        i += 1;
    }
    assert(ins.take(inputs@.len() as int) =~= ins);
    let ghost outs = output_moves(direction, outputs@, *caller, *vault);
    let mut k: usize = 0;
    while k < outputs.len()
        invariant
            0 <= k <= outputs@.len(),
            forward == (direction == Direction::Forward),
            outs == output_moves(direction, outputs@, *caller, *vault),
            transfers@ == paid + ins + outs.take(k as int),
        decreases outputs@.len() - k,
    {
        let leg = outputs[k];
        transfers.push(
            if forward {
                Transfer {
                    source: leg.vault_account,
                    destination: leg.caller_account,
                    authority: *vault,
                    amount: leg.amount,
                    vault_signed: true,
                }
            } else {
                Transfer {
                    source: leg.caller_account,
                    destination: leg.vault_account,
                    authority: *caller,
                    amount: leg.amount,
                    vault_signed: false,
                }
            },
        );
        assert(transfers@ =~= paid + ins + outs.take(k + 1));
        k += 1;
    }
    assert(outs.take(outputs@.len() as int) =~= outs);
    transfers
}

impl<'a> ExecuteTransform<'a> {
    /// The transform that the transform's account holds.
    pub open spec fn stored(&self) -> TransformView {
        take_transform(self.accounts.transform.data@).unwrap().0
    }

    /// The input leg at place `i`, looked up by the token type of the
    /// caller's account.
    pub open spec fn input_item(&self, i: int) -> Result<SwapLeg, TokenitisError> {
        resolved(
            self.stored().inputs,
            token_account_unpacked(self.accounts.caller_inputs@[i].data@),
            self.accounts.caller_inputs@[i].key,
            self.accounts.inputs@[i].key,
        )
    }

    /// The fee transfer for the input leg at place `i`.
    pub open spec fn fee_item(&self, i: int) -> Result<Option<Transfer>, TokenitisError> {
        match self.input_item(i) {
            Ok(leg) => fee_transfer(
                fee_due(self.args.direction, self.stored().fee, leg.amount),
                leg,
                fee_account(self.stored().creator, leg.mint),
                self.accounts.caller.key,
            ),
            Err(_) => Ok(None),
        }
    }

    /// The output leg at place `i`, looked up by the token type of the
    /// vault's account.
    pub open spec fn output_item(&self, i: int) -> Result<SwapLeg, TokenitisError> {
        resolved(
            self.stored().outputs,
            token_account_unpacked(self.accounts.outputs@[i].data@),
            self.accounts.caller_outputs@[i].key,
            self.accounts.outputs@[i].key,
        )
    }

    /// The steps of planning a swap, in order: decoding the transform,
    /// deriving its address, looking up every input leg, working out every
    /// fee, looking up every output leg.
    pub open spec fn steps(&self) -> Seq<Result<(), TokenitisError>> {
        let n = self.accounts.caller_inputs@.len() as int;
        let m = self.accounts.caller_outputs@.len() as int;
        Seq::new(
            (2 + 2 * n + m) as nat,
            |j: int|
                if j == 0 {
                    if take_transform(self.accounts.transform.data@) is Some {
                        Ok(())
                    } else {
                        Err(TokenitisError::BorshIoError)
                    }
                } else if j == 1 {
                    if transform_address(self.program_id, self.stored().id) is Some {
                        Ok(())
                    } else {
                        Err(TokenitisError::InvalidSeeds)
                    }
                } else if j < 2 + n {
                    passed(self.input_item(j - 2))
                } else if j < 2 + 2 * n {
                    passed(self.fee_item(j - 2 - n))
                } else {
                    passed(self.output_item(j - 2 - 2 * n))
                },
        )
    }

    /// The fee transfers that the swap asks for, where every step succeeds.
    pub open spec fn fee_transfers(&self) -> Seq<Transfer> {
        present(Seq::new(self.accounts.caller_inputs@.len(), |i: int| self.fee_item(i).unwrap()))
    }

    /// The transfers that the swap asks for, where every step succeeds.
    pub open spec fn transfers(&self) -> Seq<Transfer> {
        swap_transfers(
            self.args.direction,
            Seq::new(self.accounts.caller_inputs@.len(), |i: int| self.fee_item(i).unwrap()),
            Seq::new(self.accounts.caller_inputs@.len(), |i: int| self.input_item(i).unwrap()),
            Seq::new(self.accounts.caller_outputs@.len(), |i: int| self.output_item(i).unwrap()),
            self.accounts.caller.key,
            self.accounts.transform.key,
        )
    }

    /// Plans the swap: the fee transfers, then a transfer for each input leg,
    /// then one for each output leg. Fails with the error of the first step
    /// that fails. Nothing is transferred here.
    pub fn execute_instruction(&self) -> (planned: Result<SwapPlan, TokenitisError>)
        requires
            self.wf(),
        ensures
            match planned {
                Ok(plan) => {
                    &&& first_error(self.steps()) is Ok
                    &&& plan.transfers@ == self.transfers()
                    &&& plan.authorization.seed@ == transform_seed_bytes(self.stored().id)
                    &&& plan.authorization.nonce == transform_address(
                        self.program_id,
                        self.stored().id,
                    ).unwrap().1
                },
                Err(e) => first_error(self.steps()) == Err::<(), TokenitisError>(e),
            },
    {
        let ghost steps = self.steps();
        let accounts = &self.accounts;
        let direction = self.args.direction;
        let stored = match Transform::deserialize(accounts.transform.data.as_slice()) {
            Ok(stored) => stored,
            Err(e) => {
                proof {
                    lemma_first_error_at(steps, 0);
                }
                return Err(e);
            },
        };
        let authorization = match prove_authority(
            &self.program_id,
            Tokenitis::transform_seed(stored.id),
        ) {
            Some((_, authorization)) => authorization,
            None => {
                proof {
                    assert(steps[0] is Ok);
                    lemma_first_error_at(steps, 1);
                }
                return Err(TokenitisError::InvalidSeeds);
            },
        };
        let n = accounts.caller_inputs.len();
        let m = accounts.caller_outputs.len();
        let mut inputs: Vec<SwapLeg> = Vec::new();
        let mut i: usize = 0;
        while i < n
            invariant
                0 <= i <= n,
                self.wf(),
                accounts == &self.accounts,
                n == accounts.caller_inputs@.len(),
                m == accounts.caller_outputs@.len(),
                take_transform(accounts.transform.data@) is Some,
                stored@ == self.stored(),
                stored.wf(),
                steps == self.steps(),
                forall|j: int| 0 <= j < 2 + i ==> (#[trigger] steps[j]) is Ok,
                inputs@.len() == i,
                forall|j: int| 0 <= j < i ==> self.input_item(j) == Ok::<SwapLeg, TokenitisError>(
                    #[trigger] inputs@[j],
                ),
            decreases n - i,
        {
            let held = unpack_token_account(accounts.caller_inputs[i].data.as_slice());
            let leg = match resolve_leg(
                &stored.inputs,
                held,
                &accounts.caller_inputs[i].key,
                &accounts.inputs[i].key,
            ) {
                Ok(leg) => leg,
                Err(e) => {
                    proof {
                        assert(steps[2 + i] == passed(self.input_item(i as int)));
                        lemma_first_error_at(steps, 2 + i);
                    }
                    return Err(e);
                },
            };
            assert(steps[2 + i] == passed(self.input_item(i as int)));
            inputs.push(leg);
            i += 1;
        }
        let mut fees: Vec<Option<Transfer>> = Vec::new();
        let mut f: usize = 0;
        while f < n
            invariant
                0 <= f <= n,
                self.wf(),
                accounts == &self.accounts,
                direction == self.args.direction,
                n == accounts.caller_inputs@.len(),
                m == accounts.caller_outputs@.len(),
                take_transform(accounts.transform.data@) is Some,
                stored@ == self.stored(),
                steps == self.steps(),
                forall|j: int| 0 <= j < 2 + n + f ==> (#[trigger] steps[j]) is Ok,
                inputs@.len() == n,
                forall|j: int| 0 <= j < n ==> self.input_item(j) == Ok::<SwapLeg, TokenitisError>(
                    #[trigger] inputs@[j],
                ),
                fees@.len() == f,
                forall|j: int|
                    0 <= j < f ==> self.fee_item(j) == Ok::<Option<Transfer>, TokenitisError>(
                        #[trigger] fees@[j],
                    ),
            decreases n - f,
        {
            let leg = inputs[f];
            assert(self.input_item(f as int) == Ok::<SwapLeg, TokenitisError>(inputs@[f as int]));
            let due = match stored.fee {
                Some(percent) => if direction == Direction::Forward {
                    calculate_fee(leg.amount, percent)
                } else {
                    0
                },
                None => 0,
            };
            let derived = if due != 0 {
                find_fee_account(&stored.creator, &leg.mint)
            } else {
                None
            };
            let fee = match plan_fee(due, &leg, derived, &accounts.caller.key) {
                Ok(fee) => fee,
                Err(e) => {
                    proof {
                        assert(steps[2 + n + f] == passed(self.fee_item(f as int)));
                        lemma_first_error_at(steps, 2 + n + f);
                    }
                    return Err(e);
                },
            };
            assert(steps[2 + n + f] == passed(self.fee_item(f as int)));
            fees.push(fee);
            f += 1;
        }
        let mut outputs: Vec<SwapLeg> = Vec::new();
        let mut k: usize = 0;
        while k < m
            invariant
                0 <= k <= m,
                self.wf(),
                accounts == &self.accounts,
                n == accounts.caller_inputs@.len(),
                m == accounts.caller_outputs@.len(),
                take_transform(accounts.transform.data@) is Some,
                stored@ == self.stored(),
                stored.wf(),
                steps == self.steps(),
                forall|j: int| 0 <= j < 2 + 2 * n + k ==> (#[trigger] steps[j]) is Ok,
                outputs@.len() == k,
                forall|j: int|
                    0 <= j < k ==> self.output_item(j) == Ok::<SwapLeg, TokenitisError>(
                        #[trigger] outputs@[j],
                    ),
            decreases m - k,
        {
            let held = unpack_token_account(accounts.outputs[k].data.as_slice());
            let leg = match resolve_leg(
                &stored.outputs,
                held,
                &accounts.caller_outputs[k].key,
                &accounts.outputs[k].key,
            ) {
                Ok(leg) => leg,
                Err(e) => {
                    proof {
                        assert(steps[2 + 2 * n + k] == passed(self.output_item(k as int)));
                        lemma_first_error_at(steps, 2 + 2 * n + k);
                    }
                    return Err(e);
                },
            };
            assert(steps[2 + 2 * n + k] == passed(self.output_item(k as int)));
            outputs.push(leg);
            k += 1;
        }
        let transfers = plan_transfers(
            direction,
            &fees,
            &inputs,
            &outputs,
            &accounts.caller.key,
            &accounts.transform.key,
        );
        proof {
            lemma_first_error_none(steps);
            assert(fees@ =~= Seq::new(
                self.accounts.caller_inputs@.len(),
                |i: int| self.fee_item(i).unwrap(),
            ));
            assert(inputs@ =~= Seq::new(
                self.accounts.caller_inputs@.len(),
                |i: int| self.input_item(i).unwrap(),
            ));
            assert(outputs@ =~= Seq::new(
                self.accounts.caller_outputs@.len(),
                |i: int| self.output_item(i).unwrap(),
            ));
        }
        Ok(SwapPlan { transfers, authorization })
    }
}

/// The leg of a swap that stands for a basket entry and the caller's account
/// for it.
pub open spec fn leg_of(entry: Leg, caller_account: Address) -> SwapLeg {
    SwapLeg {
        mint: entry.mint,
        amount: entry.token.amount,
        caller_account,
        vault_account: entry.token.account,
    }
}

/// A swap that passes validation plans, for the input
/// leg at every place, the amount that the transform stores at that place,
/// between the caller's account and the vault's account supplied for that
/// place. The same holds of the output leg at every place where the vault's
/// account holds the token type of that place.
pub proof fn lemma_valid_swap_moves_stored_amounts(swap: ExecuteTransform)
    requires
        swap.wf(),
        swap.verdict() is Ok,
    ensures
        take_transform(swap.accounts.transform.data@) is Some,
        forall|i: int|
            0 <= i < swap.stored().inputs.len() ==> #[trigger] swap.input_item(i) == Ok::<
                SwapLeg,
                TokenitisError,
            >(leg_of(swap.stored().inputs[i], swap.accounts.caller_inputs@[i].key)),
        forall|i: int|
            0 <= i < swap.stored().outputs.len() && token_account_unpacked(
                swap.accounts.outputs@[i].data@,
            ) is Ok && token_account_unpacked(swap.accounts.outputs@[i].data@).unwrap().mint
                == swap.stored().outputs[i].mint ==> #[trigger] swap.output_item(i) == Ok::<
                SwapLeg,
                TokenitisError,
            >(leg_of(swap.stored().outputs[i], swap.accounts.caller_outputs@[i].key)),
{
    lemma_valid_swap_is_in_order(swap);
    lemma_taken_transform_ascends(swap.accounts.transform.data@);
    let stored = swap.stored();
    assert forall|i: int| 0 <= i < stored.inputs.len() implies #[trigger] swap.input_item(i)
        == Ok::<SwapLeg, TokenitisError>(
        leg_of(stored.inputs[i], swap.accounts.caller_inputs@[i].key),
    ) by {
        assert(swap.accounts.inputs@[i].key == stored.inputs[i].token.account);
        lemma_map_of_entry(stored.inputs, i);
    }
    assert forall|i: int|
        0 <= i < stored.outputs.len() && token_account_unpacked(
            swap.accounts.outputs@[i].data@,
        ) is Ok && token_account_unpacked(swap.accounts.outputs@[i].data@).unwrap().mint
            == stored.outputs[i].mint implies #[trigger] swap.output_item(i) == Ok::<
        SwapLeg,
        TokenitisError,
    >(leg_of(stored.outputs[i], swap.accounts.caller_outputs@[i].key)) by {
        assert(swap.accounts.outputs@[i].key == stored.outputs[i].token.account);
        lemma_map_of_entry(stored.outputs, i);
    }
}

} // verus!
