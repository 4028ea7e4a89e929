use crate::address::{lemma_address_ext, Address};
use crate::basket::Leg;
use crate::derivation::{token_program_bytes, token_program_id};
use crate::errors::{
    first_error, lemma_first_error_at, lemma_first_error_none, lemma_first_error_ok,
    TokenitisError,
};
use crate::state::{take_transform, transform_address, Tokenitis, Transform};
use crate::token::{token_account_unpacked, unpack_token_account, TokenAccount};
use crate::tokenitis_instruction::create_transform::validate::{check_derived, derived_verdict};
use crate::tokenitis_instruction::execute_transform::ExecuteTransform;
use vstd::prelude::*;

verus! {

/// The outcome of checking one leg of a swap, given what the token service
/// reads from the caller's account for it.
///
/// The vault account supplied must be the one that the transform stores for
/// the leg; the caller's account must hold the leg's token type and belong to
/// the caller. Each mismatch is an `InvalidArgument`; what the token service
/// rejects is reported with its own error.
pub open spec fn swap_leg_verdict(
    leg: Leg,
    vault_key: Address,
    caller_account: Result<TokenAccount, TokenitisError>,
    caller_key: Address,
) -> Result<(), TokenitisError> {
    if vault_key != leg.token.account {
        Err(TokenitisError::InvalidArgument)
    } else {
        match caller_account {
            Err(e) => Err(e),
            Ok(account) => if account.mint != leg.mint || account.owner != caller_key {
                Err(TokenitisError::InvalidArgument)
            } else {
                Ok(())
            },
        }
    }
}

/// Checks one leg of a swap, given what the token service reads from the
/// caller's account for it.
pub fn check_swap_leg(
    leg: &Leg,
    vault_key: &Address,
    caller_account: Result<TokenAccount, TokenitisError>,
    caller_key: &Address,
) -> (verdict: Result<(), TokenitisError>)
    ensures
        verdict == swap_leg_verdict(*leg, *vault_key, caller_account, *caller_key),
{
    if !vault_key.same(&leg.token.account) {
        return Err(TokenitisError::InvalidArgument);
    }
    match caller_account {
        Err(e) => Err(e),
        Ok(account) => if !account.mint.same(&leg.mint) || !account.owner.same(caller_key) {
            Err(TokenitisError::InvalidArgument)
        } else {
            Ok(())
        },
    }
}

impl<'a> ExecuteTransform<'a> {
    /// The account supplied as the token program is the token program.
    pub open spec fn program_verdict(&self) -> Result<(), TokenitisError> {
        if self.accounts.token_program.key@ == token_program_bytes() {
            Ok(())
        } else {
            Err(TokenitisError::InvalidArgument)
        }
    }

    /// The transform's account decodes and stands at the address derived for
    /// the id that it stores.
    pub open spec fn transform_verdict(&self) -> Result<(), TokenitisError> {
        match take_transform(self.accounts.transform.data@) {
            None => Err(TokenitisError::BorshIoError),
            Some((stored, _)) => derived_verdict(
                transform_address(self.program_id, stored.id),
                self.accounts.transform.key,
            ),
        }
    }

    /// The outcome of checking the input leg at place `i`.
    pub open spec fn input_verdict(&self, i: int) -> Result<(), TokenitisError> {
        swap_leg_verdict(
            take_transform(self.accounts.transform.data@).unwrap().0.inputs[i],
            self.accounts.inputs@[i].key,
            token_account_unpacked(self.accounts.caller_inputs@[i].data@),
            self.accounts.caller.key,
        )
    }

    /// The outcome of checking the output leg at place `i`.
    pub open spec fn output_verdict(&self, i: int) -> Result<(), TokenitisError> {
        swap_leg_verdict(
            take_transform(self.accounts.transform.data@).unwrap().0.outputs[i],
            self.accounts.outputs@[i].key,
            token_account_unpacked(self.accounts.caller_outputs@[i].data@),
            self.accounts.caller.key,
        )
    }

    /// The outcomes of checking the legs: the inputs in order, then the outputs.
    pub open spec fn leg_verdicts(&self) -> Seq<Result<(), TokenitisError>> {
        Seq::new(self.accounts.inputs@.len(), |i: int| self.input_verdict(i)) + Seq::new(
            self.accounts.outputs@.len(),
            |i: int| self.output_verdict(i),
        )
    }

    /// The outcome of validation: that of the first check that fails, the
    /// checks being made in this order: the token program, the transform's
    /// address, then the legs.
    pub open spec fn verdict(&self) -> Result<(), TokenitisError> {
        first_error(
            seq![
                self.program_verdict(),
                self.transform_verdict(),
                first_error(self.leg_verdicts()),
            ],
        )
    }

    /// Checks the legs against the stored transform: the inputs in order,
    /// then the outputs.
    pub fn validate_legs(&self, stored: &Transform) -> (verdict: Result<(), TokenitisError>)
        requires
            self.wf(),
            take_transform(self.accounts.transform.data@) is Some,
            take_transform(self.accounts.transform.data@).unwrap().0 == stored@,
        ensures
            verdict == first_error(self.leg_verdicts()),
    {
        let ghost verdicts = self.leg_verdicts();
        let caller = &self.accounts.caller.key;
        let n = stored.inputs.len();
        let m = stored.outputs.len();
        let mut i: usize = 0;
        while i < n
            invariant
                0 <= i <= n,
                self.wf(),
                take_transform(self.accounts.transform.data@) is Some,
                take_transform(self.accounts.transform.data@).unwrap().0 == stored@,
                n == stored.inputs@.len(),
                caller == &self.accounts.caller.key,
                verdicts == self.leg_verdicts(),
                forall|j: int| 0 <= j < i ==> (#[trigger] verdicts[j]) is Ok,
            decreases n - i,
        {
            let leg = stored.inputs.leg(i);
            let held = unpack_token_account(self.accounts.caller_inputs[i].data.as_slice());
            let checked = check_swap_leg(&leg, &self.accounts.inputs[i].key, held, caller);
            assert(verdicts[i as int] == self.input_verdict(i as int));
            match checked {
                Ok(()) => {},
                Err(e) => {
                    proof {
                        lemma_first_error_at(verdicts, i as int);
                    }
                    return Err(e);
                },
            }
            i += 1;
        }
        let mut k: usize = 0;
        while k < m
            invariant
                0 <= k <= m,
                self.wf(),
                take_transform(self.accounts.transform.data@) is Some,
                take_transform(self.accounts.transform.data@).unwrap().0 == stored@,
                n == stored.inputs@.len(),
                m == stored.outputs@.len(),
                caller == &self.accounts.caller.key,
                verdicts == self.leg_verdicts(),
                forall|j: int| 0 <= j < n + k ==> (#[trigger] verdicts[j]) is Ok,
            decreases m - k,
        {
            let leg = stored.outputs.leg(k);
            let held = unpack_token_account(self.accounts.caller_outputs[k].data.as_slice());
            let checked = check_swap_leg(&leg, &self.accounts.outputs[k].key, held, caller);
            assert(verdicts[n + k] == self.output_verdict(k as int));
            match checked {
                Ok(()) => {},
                Err(e) => {
                    proof {
                        lemma_first_error_at(verdicts, n + k);
                    }
                    return Err(e);
                },
            }
            k += 1;
        }
        proof {
            lemma_first_error_none(verdicts);
        }
        Ok(())
    }

    /// Validates the swap. Nothing is transferred.
    pub fn validate_instruction(&self) -> (verdict: Result<(), TokenitisError>)
        requires
            self.wf(),
        ensures
            verdict == self.verdict(),
    {
        let ghost checks = seq![
            self.program_verdict(),
            self.transform_verdict(),
            first_error(self.leg_verdicts()),
        ];
        let accounts = &self.accounts;
        let token = token_program_id();
        proof {
            lemma_address_ext(accounts.token_program.key, token);
        }
        if !accounts.token_program.key.same(&token) {
            proof {
                lemma_first_error_at(checks, 0);
            }
            return Err(TokenitisError::InvalidArgument);
        }
        let stored = match Transform::deserialize(accounts.transform.data.as_slice()) {
            Ok(stored) => stored,
            Err(e) => {
                proof {
                    lemma_first_error_at(checks, 1);
                }
                return Err(e);
            },
        };
        let expected = Tokenitis::find_transform_address(&self.program_id, stored.id);
        match check_derived(expected, &accounts.transform.key) {
            Ok(()) => {},
            Err(e) => {
                proof {
                    lemma_first_error_at(checks, 1);
                }
                return Err(e);
            },
        }
        match self.validate_legs(&stored) {
            Ok(()) => {},
            Err(e) => {
                proof {
                    lemma_first_error_at(checks, 2);
                }
                return Err(e);
            },
        }
        proof {
            lemma_first_error_none(checks);
        }
        Ok(())
    }
}

/// A swap that passes validation names, at every
/// place, the vault account that the transform stores for the leg at that
/// place, and an account of the caller's that holds the leg's token type.
pub proof fn lemma_valid_swap_is_in_order(swap: ExecuteTransform)
    requires
        swap.wf(),
        swap.verdict() is Ok,
    ensures
        take_transform(swap.accounts.transform.data@) is Some,
        token_program_bytes() == swap.accounts.token_program.key@,
        transform_address(
            swap.program_id,
            take_transform(swap.accounts.transform.data@).unwrap().0.id,
        ) is Some,
        transform_address(
            swap.program_id,
            take_transform(swap.accounts.transform.data@).unwrap().0.id,
        ).unwrap().0 == swap.accounts.transform.key,
        forall|i: int|
            0 <= i < swap.accounts.inputs@.len() ==> {
                let leg = take_transform(swap.accounts.transform.data@).unwrap().0.inputs[i];
                let held = token_account_unpacked(swap.accounts.caller_inputs@[i].data@);
                &&& (#[trigger] swap.accounts.inputs@[i]).key == leg.token.account
                &&& held is Ok
                &&& held.unwrap().mint == leg.mint
                &&& held.unwrap().owner == swap.accounts.caller.key
            },
        forall|i: int|
            0 <= i < swap.accounts.outputs@.len() ==> {
                let leg = take_transform(swap.accounts.transform.data@).unwrap().0.outputs[i];
                let held = token_account_unpacked(swap.accounts.caller_outputs@[i].data@);
                &&& (#[trigger] swap.accounts.outputs@[i]).key == leg.token.account
                &&& held is Ok
                &&& held.unwrap().mint == leg.mint
                &&& held.unwrap().owner == swap.accounts.caller.key
            },
{
    let checks = seq![
        swap.program_verdict(),
        swap.transform_verdict(),
        first_error(swap.leg_verdicts()),
    ];
    lemma_first_error_ok(checks);
    assert(checks[0] is Ok);
    assert(checks[1] is Ok);
    assert(checks[2] is Ok);
    let legs = swap.leg_verdicts();
    lemma_first_error_ok(legs);
    let n = swap.accounts.inputs@.len() as int;
    assert forall|i: int| 0 <= i < swap.accounts.inputs@.len() implies {
        let leg = take_transform(swap.accounts.transform.data@).unwrap().0.inputs[i];
        let held = token_account_unpacked(swap.accounts.caller_inputs@[i].data@);
        &&& (#[trigger] swap.accounts.inputs@[i]).key == leg.token.account
        &&& held is Ok
        &&& held.unwrap().mint == leg.mint
        &&& held.unwrap().owner == swap.accounts.caller.key
    } by {
        assert(legs[i] == swap.input_verdict(i));
    }
    assert forall|i: int| 0 <= i < swap.accounts.outputs@.len() implies {
        let leg = take_transform(swap.accounts.transform.data@).unwrap().0.outputs[i];
        let held = token_account_unpacked(swap.accounts.caller_outputs@[i].data@);
        &&& (#[trigger] swap.accounts.outputs@[i]).key == leg.token.account
        &&& held is Ok
        &&& held.unwrap().mint == leg.mint
        &&& held.unwrap().owner == swap.accounts.caller.key
    } by {
        assert(legs[n + i] == swap.output_verdict(i));
    }
}

} // verus!
