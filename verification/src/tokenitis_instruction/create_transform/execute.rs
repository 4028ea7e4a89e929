use crate::account::{Allocation, Reassignment};
use crate::address::Address;
use crate::errors::TokenitisError;
use crate::state::{
    enc_tokenitis, enc_transform, encodable, lemma_tokenitis_round_trip, next_id, record_of,
    record_valid, stored_count,
    tokenitis_address, tokenitis_seed_bytes, transform_address, transform_seed_bytes, Tokenitis,
    Transform, TransformMetadata, TransformView,
};
use crate::tokenitis_instruction::create_transform::validate::lemma_valid_creation_passes_every_leg;
use crate::tokenitis_instruction::create_transform::CreateTransform;
use crate::util::{allocation_of, create_pda};
use vstd::prelude::*;

verus! {

/// Size in bytes of the registry's stored form.
pub const REGISTRY_SPACE: usize = 8;

/// What a creation asks of the ledger and of the token service, in the order
/// in which it is to be carried out: allocate the registry where it did not
/// exist, store the registry, allocate the transform's account, store the
/// transform, then hand every basket account to the transform's address.
/// Should a step fail, the ledger undoes the ones before it.
#[derive(Debug)]
pub struct CreatePlan {
    /// The registry's account.
    pub registry_account: Address,
    /// The registry's allocation, where the registry did not exist yet.
    pub registry_allocation: Option<Allocation>,
    /// The registry after the creation.
    pub registry: Tokenitis,
    /// The registry's stored form.
    pub registry_data: Vec<u8>,
    pub transform_allocation: Allocation,
    /// The new transform.
    pub transform: Transform,
    /// The transform's stored form.
    pub transform_data: Vec<u8>,
    /// One reassignment for each input vault, then one for each output
    /// vault, in the order in which the accounts were supplied.
    pub reassignments: Vec<Reassignment>,
}

impl<'a> CreateTransform<'a> {
    /// The transform that the creation stores under the given id.
    pub open spec fn record(&self, id: u64) -> TransformView {
        record_of(self.args, id, self.accounts.creator.key)
    }

    /// Why the creation cannot be carried out, if it cannot: the registry does
    /// not decode, the counter is exhausted, the transform has no stored form,
    /// or an address cannot be derived.
    pub open spec fn execution_error(&self) -> Option<TokenitisError> {
        match stored_count(self.accounts.tokenitis.data@) {
            Err(e) => Some(e),
            Ok(count) => if self.accounts.tokenitis.data@.len() == 0 && tokenitis_address(
                self.program_id,
            ) is None {
                Some(TokenitisError::InvalidSeeds)
            } else if count == u64::MAX {
                Some(TokenitisError::ArithmeticOverflow)
            } else if !encodable(self.record((count + 1) as u64)) {
                Some(TokenitisError::BorshIoError)
            } else if transform_address(self.program_id, (count + 1) as u64) is None {
                Some(TokenitisError::InvalidSeeds)
            } else {
                None
            },
        }
    }

    /// The vault accounts in the order supplied: the inputs, then the outputs.
    pub open spec fn vault_keys(&self) -> Seq<Address> {
        Seq::new(self.accounts.inputs@.len(), |i: int| self.accounts.inputs@[i].key) + Seq::new(
            self.accounts.outputs@.len(),
            |i: int| self.accounts.outputs@[i].key,
        )
    }

    /// `plan` is what the creation asks for.
    pub open spec fn planned(&self, plan: CreatePlan) -> bool {
        let count = stored_count(self.accounts.tokenitis.data@).unwrap();
        let id = (count + 1) as u64;
        &&& plan.registry_account == self.accounts.tokenitis.key
        &&& match plan.registry_allocation {
            Some(allocation) => self.accounts.tokenitis.data@.len() == 0 && allocation_of(
                allocation,
                self.program_id,
                REGISTRY_SPACE,
                self.accounts.creator.key,
                self.accounts.tokenitis.key,
                tokenitis_seed_bytes(),
                tokenitis_address(self.program_id).unwrap().1,
            ),
            None => self.accounts.tokenitis.data@.len() != 0,
        }
        &&& plan.registry == (Tokenitis { num_transforms: id })
        &&& plan.registry_data@ == enc_tokenitis(plan.registry)
        &&& plan.transform@ == self.record(id)
        &&& plan.transform_data@ == enc_transform(self.record(id))
        &&& plan.transform_data@.len() <= usize::MAX
        &&& allocation_of(
            plan.transform_allocation,
            self.program_id,
            plan.transform_data@.len() as usize,
            self.accounts.creator.key,
            self.accounts.transform.key,
            transform_seed_bytes(id),
            transform_address(self.program_id, id).unwrap().1,
        )
        &&& plan.reassignments@ == Seq::new(
            self.vault_keys().len(),
            |i: int|
                Reassignment {
                    account: self.vault_keys()[i],
                    new_owner: self.accounts.transform.key,
                    current_owner: self.accounts.creator.key,
                },
        )
    }

    /// The registry as the creation finds it. Where the registry account is
    /// empty, the registry starts at zero and its allocation is prepared:
    /// room for the counter, at the registry's derived address, owned by the
    /// program and paid by the creator. Otherwise the registry is what the
    /// account holds, and nothing is allocated.
    pub fn get_or_create_registry(&self) -> (found: Result<
        (Tokenitis, Option<Allocation>),
        TokenitisError,
    >)
        ensures
            match found {
                Ok((registry, allocation)) => {
                    &&& stored_count(self.accounts.tokenitis.data@) == Ok::<u64, TokenitisError>(
                        registry.num_transforms,
                    )
                    &&& match allocation {
                        Some(allocation) => {
                            &&& self.accounts.tokenitis.data@.len() == 0
                            &&& tokenitis_address(self.program_id) is Some
                            &&& allocation_of(
                                allocation,
                                self.program_id,
                                REGISTRY_SPACE,
                                self.accounts.creator.key,
                                self.accounts.tokenitis.key,
                                tokenitis_seed_bytes(),
                                tokenitis_address(self.program_id).unwrap().1,
                            )
                        },
                        None => self.accounts.tokenitis.data@.len() != 0,
                    }
                },
                Err(e) => if self.accounts.tokenitis.data@.len() == 0 {
                    e == TokenitisError::InvalidSeeds && tokenitis_address(self.program_id) is None
                } else {
                    stored_count(self.accounts.tokenitis.data@) == Err::<u64, TokenitisError>(e)
                },
            },
    {
        let accounts = &self.accounts;
        if accounts.tokenitis.data.len() == 0 {
            match create_pda(
                &self.program_id,
                REGISTRY_SPACE,
                accounts.creator,
                accounts.tokenitis,
                Tokenitis::tokenitis_seed().as_slice(),
            ) {
                Ok(allocation) => Ok((Tokenitis { num_transforms: 0 }, Some(allocation))),
                Err(e) => Err(e),
            }
        } else {
            match Tokenitis::deserialize(accounts.tokenitis.data.as_slice()) {
                Ok(registry) => Ok((registry, None)),
                Err(e) => Err(e),
            }
        }
    }

    /// Plans the creation: the new registry and transform with their stored
    /// forms, the allocations, and the reassignment of every basket account
    /// to the transform's address. Nothing is carried out here.
    pub fn execute_instruction(&self) -> (planned: Result<CreatePlan, TokenitisError>)
        requires
            self.wf(),
        ensures
            match planned {
                Ok(plan) => self.execution_error() is None && self.planned(plan),
                Err(e) => self.execution_error() == Some(e),
            },
    {
        let accounts = &self.accounts;
        let (found, registry_allocation) = match self.get_or_create_registry() {
            Ok(found) => found,
            Err(e) => {
                return Err(e);
            },
        };
        let count = found.num_transforms;
        if count == u64::MAX {
            return Err(TokenitisError::ArithmeticOverflow);
        }
        let registry = Tokenitis { num_transforms: count + 1 };
        let registry_data = registry.serialize();
        let transform = Transform {
            initialized: true,
            id: registry.num_transforms,
            metadata: TransformMetadata {
                name: self.args.metadata.name.clone(),
                image: self.args.metadata.image.clone(),
            },
            inputs: self.args.inputs.clone(),
            outputs: self.args.outputs.clone(),
            fee: self.args.fee,
            creator: accounts.creator.key,
        };
        let transform_data = match transform.serialize() {
            Ok(bytes) => bytes,
            Err(e) => {
                return Err(e);
            },
        };
        let transform_allocation = match create_pda(
            &self.program_id,
            transform_data.len(),
            accounts.creator,
            accounts.transform,
            Tokenitis::transform_seed(transform.id).as_slice(),
        ) {
            Ok(allocation) => allocation,
            Err(e) => {
                return Err(e);
            },
        };
        let ghost keys = self.vault_keys();
        let mut reassignments: Vec<Reassignment> = Vec::new();
        let n = accounts.inputs.len();
        let m = accounts.outputs.len();
        let mut i: usize = 0;
        while i < n
            invariant
                0 <= i <= n,
                n == accounts.inputs@.len(),
                accounts == &self.accounts,
                keys == self.vault_keys(),
                reassignments@.len() == i,
                forall|j: int|
                    0 <= j < i ==> reassignments@[j] == (Reassignment {
                        account: keys[j],
                        new_owner: accounts.transform.key,
                        current_owner: accounts.creator.key,
                    }),
            decreases n - i,
        {
            reassignments.push(
                Reassignment {
                    account: accounts.inputs[i].key,
                    new_owner: accounts.transform.key,
                    current_owner: accounts.creator.key,
                },
            );
            i += 1;
        }
        let mut k: usize = 0;
        while k < m
            invariant
                0 <= k <= m,
                n == accounts.inputs@.len(),
                m == accounts.outputs@.len(),
                accounts == &self.accounts,
                keys == self.vault_keys(),
                reassignments@.len() == n + k,
                forall|j: int|
                    0 <= j < n + k ==> reassignments@[j] == (Reassignment {
                        account: keys[j],
                        new_owner: accounts.transform.key,
                        current_owner: accounts.creator.key,
                    }),
            decreases m - k,
        {
            reassignments.push(
                Reassignment {
                    account: accounts.outputs[k].key,
                    new_owner: accounts.transform.key,
                    current_owner: accounts.creator.key,
                },
            );
            k += 1;
        }
        let plan = CreatePlan {
            registry_account: accounts.tokenitis.key,
            registry_allocation,
            registry,
            registry_data,
            transform_allocation,
            transform,
            transform_data,
            reassignments,
        };
        assert(plan.reassignments@ =~= Seq::new(
            self.vault_keys().len(),
            |i: int|
                Reassignment {
                    account: self.vault_keys()[i],
                    new_owner: self.accounts.transform.key,
                    current_owner: self.accounts.creator.key,
                },
        ));
        Ok(plan)
    }
}

/// What the registry account holds after `n` creations, the first of which
/// found it empty.
pub open spec fn registry_after(n: nat) -> Seq<u8>
    decreases n,
{
    if n == 0 {
        Seq::<u8>::empty()
    } else {
        match next_id(registry_after((n - 1) as nat)) {
            Ok(id) => enc_tokenitis(Tokenitis { num_transforms: id }),
            Err(_) => registry_after((n - 1) as nat),
        }
    }
}

/// A creation that passes validation and is planned gets the id that
/// follows the registry's counter, stores the counter raised to that id, and
/// has its transform at the address derived from that id.
pub proof fn lemma_creation_takes_next_id(creation: CreateTransform, plan: CreatePlan)
    requires
        creation.verdict() is Ok,
        creation.planned(plan),
    ensures
        next_id(creation.accounts.tokenitis.data@) == Ok::<u64, TokenitisError>(plan.transform.id),
        plan.transform.initialized,
        plan.registry_data@ == enc_tokenitis(Tokenitis { num_transforms: plan.transform.id }),
        transform_address(creation.program_id, plan.transform.id) is Some,
        transform_address(creation.program_id, plan.transform.id).unwrap().0
            == creation.accounts.transform.key,
        plan.transform_allocation.account == creation.accounts.transform.key,
        plan.transform_allocation.authorization.proves(
            creation.program_id,
            creation.accounts.transform.key,
        ),
        plan.transform_allocation.authorization.seed@ == transform_seed_bytes(plan.transform.id),
{
    lemma_valid_creation_passes_every_leg(creation);
}

/// A creation that passes validation stores a transform of which all holds
/// that holds of every stored transform: short texts, a fee that is a
/// percentage, baskets in order, positive amounts, and no holding account
/// that serves two legs.
pub proof fn lemma_valid_creation_stores_valid_record(creation: CreateTransform, plan: CreatePlan)
    requires
        creation.wf(),
        creation.verdict() is Ok,
        creation.planned(plan),
    ensures
        record_valid(plan.transform@),
        plan.transform@.creator == creation.accounts.creator.key,
{
    lemma_valid_creation_passes_every_leg(creation);
}

/// Starting from an empty registry account, the `n`-th
/// creation finds the counter at `n - 1` and so assigns the id `n`.
pub proof fn lemma_nth_creation_gets_id_n(n: nat)
    requires
        1 <= n <= u64::MAX,
    ensures
        stored_count(registry_after((n - 1) as nat)) == Ok::<u64, TokenitisError>((n - 1) as u64),
        next_id(registry_after((n - 1) as nat)) == Ok::<u64, TokenitisError>(n as u64),
        registry_after(n) == enc_tokenitis(Tokenitis { num_transforms: n as u64 }),
    decreases n,
{
    if n > 1 {
        lemma_nth_creation_gets_id_n((n - 1) as nat);
        lemma_tokenitis_round_trip(Tokenitis { num_transforms: (n - 1) as u64 }, Seq::empty());
        assert(enc_tokenitis(Tokenitis { num_transforms: (n - 1) as u64 }) + Seq::<u8>::empty()
            =~= enc_tokenitis(Tokenitis { num_transforms: (n - 1) as u64 }));
    }
}

} // verus!
