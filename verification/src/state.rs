use crate::address::Address;
use crate::basket::{ascending, Basket, Leg};
use crate::codec::{
    enc_bool, enc_fee, enc_legs, enc_string, enc_u64, lemma_take_address, lemma_take_bool,
    lemma_take_fee, lemma_take_legs, lemma_take_string, lemma_take_u32, lemma_take_u64,
    read_address, read_basket, read_bool, read_fee, read_string, read_u64, take_address,
    take_bool, take_fee, take_legs, take_string, take_u64, write_address, write_basket,
    write_bool, write_fee, write_string, write_u64,
};
use crate::derivation::{program_address, seed_views, try_find_program_address};
use crate::errors::{TokenitisError, MAX_STRING_SIZE};
use crate::tokenitis_instruction::create_transform::CreateTransformArgs;
use vstd::prelude::*;
use vstd::utf8::encode_utf8;

verus! {

/// Bytes of the registry's seed, the text `tokenitis`.
pub open spec fn tokenitis_seed_bytes() -> Seq<u8> {
    seq![116u8, 111, 107, 101, 110, 105, 116, 105, 115]
}

/// Bytes of the text `transform-`, with which every transform's seed begins.
pub open spec fn transform_prefix_bytes() -> Seq<u8> {
    seq![116u8, 114, 97, 110, 115, 102, 111, 114, 109, 45]
}

/// The decimal digits of `n`, most significant first, as ASCII bytes.
pub open spec fn decimal(n: nat) -> Seq<u8>
    decreases n,
{
    if n < 10 {
        seq![(48 + n) as u8]
    } else {
        decimal(n / 10).push((48 + n % 10) as u8)
    }
}

/// Bytes of the seed of the transform with the given id: the prefix followed
/// by the id in decimal.
pub open spec fn transform_seed_bytes(transform_num: u64) -> Seq<u8> {
    transform_prefix_bytes() + decimal(transform_num as nat)
}

/// The registry's derived address and disambiguation byte.
pub open spec fn tokenitis_address(program_id: Address) -> Option<(Address, u8)> {
    program_address(seq![tokenitis_seed_bytes()], program_id)
}

/// The derived address and disambiguation byte of the transform with the given id.
pub open spec fn transform_address(program_id: Address, transform_num: u64) -> Option<
    (Address, u8),
> {
    program_address(seq![transform_seed_bytes(transform_num)], program_id)
}

/// The registry: how many transforms have been created so far.
#[derive(Clone, Copy, Debug, PartialEq, Eq, Structural)]
pub struct Tokenitis {
    pub num_transforms: u64,
}

/// A transform's descriptive texts.
#[derive(Clone, Debug, PartialEq, Eq)]
pub struct TransformMetadata {
    pub name: String,
    pub image: String,
}

/// The stored state of one transform.
#[derive(Clone, Debug, PartialEq, Eq)]
pub struct Transform {
    pub initialized: bool,
    pub id: u64,
    pub metadata: TransformMetadata,
    pub inputs: Basket,
    pub outputs: Basket,
    pub fee: Option<u64>,
    pub creator: Address,
}

/// A transform's state as a mathematical value.
pub struct TransformView {
    pub initialized: bool,
    pub id: u64,
    pub name: Seq<char>,
    pub image: Seq<char>,
    pub inputs: Seq<Leg>,
    pub outputs: Seq<Leg>,
    pub fee: Option<u64>,
    pub creator: Address,
}

impl View for Transform {
    type V = TransformView;

    open spec fn view(&self) -> TransformView {
        TransformView {
            initialized: self.initialized,
            id: self.id,
            name: self.metadata.name@,
            image: self.metadata.image@,
            inputs: self.inputs@,
            outputs: self.outputs@,
            fee: self.fee,
            creator: self.creator,
        }
    }
}

/// The stored form of the registry: its counter.
pub open spec fn enc_tokenitis(registry: Tokenitis) -> Seq<u8> {
    enc_u64(registry.num_transforms)
}

/// Reads a registry from the front of `bytes`.
pub open spec fn take_tokenitis(bytes: Seq<u8>) -> Option<(Tokenitis, Seq<u8>)> {
    match take_u64(bytes) {
        Some((num_transforms, rest)) => Some((Tokenitis { num_transforms }, rest)),
        None => None,
    }
}

/// The stored form of a transform: its fields in the order of their declaration.
pub open spec fn enc_transform(t: TransformView) -> Seq<u8> {
    enc_bool(t.initialized) + enc_u64(t.id) + enc_string(t.name) + enc_string(t.image) + enc_legs(
        t.inputs,
    ) + enc_legs(t.outputs) + enc_fee(t.fee) + t.creator@
}

/// Reads a transform from the front of `bytes`.
pub open spec fn take_transform(bytes: Seq<u8>) -> Option<(TransformView, Seq<u8>)> {
    match take_bool(bytes) {
        Some((initialized, bytes)) => match take_u64(bytes) {
            Some((id, bytes)) => match take_string(bytes) {
                Some((name, bytes)) => match take_string(bytes) {
                    Some((image, bytes)) => match take_legs(bytes) {
                        Some((inputs, bytes)) => match take_legs(bytes) {
                            Some((outputs, bytes)) => match take_fee(bytes) {
                                Some((fee, bytes)) => match take_address(bytes) {
                                    Some((creator, bytes)) => Some(
                                        (
                                            TransformView {
                                                initialized,
                                                id,
                                                name,
                                                image,
                                                inputs,
                                                outputs,
                                                fee,
                                                creator,
                                            },
                                            bytes,
                                        ),
                                    ),
                                    None => None,
                                },
                                None => None,
                            },
                            None => None,
                        },
                        None => None,
                    },
                    None => None,
                },
                None => None,
            },
            None => None,
        },
        None => None,
    }
}

/// Every length that the stored form records fits in 32 bits.
pub open spec fn encodable(t: TransformView) -> bool {
    &&& encode_utf8(t.name).len() <= u32::MAX
    &&& encode_utf8(t.image).len() <= u32::MAX
    &&& t.inputs.len() <= u32::MAX
    &&& t.outputs.len() <= u32::MAX
}

/// Number of bytes in a transform's stored form.
pub open spec fn encoded_len(t: TransformView) -> nat {
    (1 + 8 + (4 + encode_utf8(t.name).len()) + (4 + encode_utf8(t.image).len()) + (4 + 72
        * t.inputs.len()) + (4 + 72 * t.outputs.len()) + (if t.fee is Some {
        9int
    } else {
        1int
    }) + 32) as nat
}

/// Both texts are at most `MAX_STRING_SIZE` bytes long in UTF-8.
pub open spec fn metadata_fits(name: Seq<char>, image: Seq<char>) -> bool {
    encode_utf8(name).len() <= MAX_STRING_SIZE && encode_utf8(image).len() <= MAX_STRING_SIZE
}

/// A fee, where there is one, is a percentage: at most 100.
pub open spec fn fee_in_range(fee: Option<u64>) -> bool {
    match fee {
        Some(percent) => percent <= 100,
        None => true,
    }
}

/// Every entry exchanges a positive amount.
pub open spec fn positive_amounts(legs: Seq<Leg>) -> bool {
    forall|i: int| 0 <= i < legs.len() ==> (#[trigger] legs[i]).token.amount > 0
}

/// No holding account occurs twice.
pub open spec fn distinct_accounts(legs: Seq<Leg>) -> bool {
    forall|i: int, j: int|
        #![trigger legs[i], legs[j]]
        0 <= i < j < legs.len() ==> legs[i].token.account != legs[j].token.account
}

/// What holds of every stored transform: the texts are short, the fee is a
/// percentage, the baskets are in order, every amount is positive, and no
/// holding account serves two legs.
pub open spec fn record_valid(t: TransformView) -> bool {
    &&& metadata_fits(t.name, t.image)
    &&& fee_in_range(t.fee)
    &&& ascending(t.inputs)
    &&& ascending(t.outputs)
    &&& positive_amounts(t.inputs)
    &&& positive_amounts(t.outputs)
    &&& distinct_accounts(t.inputs + t.outputs)
}

/// The counter that the registry account holds: zero while the account is
/// empty, else what its contents decode to.
pub open spec fn stored_count(data: Seq<u8>) -> Result<u64, TokenitisError> {
    if data.len() == 0 {
        Ok(0)
    } else {
        match take_tokenitis(data) {
            Some((registry, _)) => Ok(registry.num_transforms),
            None => Err(TokenitisError::BorshIoError),
        }
    }
}

/// The id that the next transform gets: one more than the stored counter.
pub open spec fn next_id(data: Seq<u8>) -> Result<u64, TokenitisError> {
    match stored_count(data) {
        Ok(count) => if count < u64::MAX {
            Ok((count + 1) as u64)
        } else {
            Err(TokenitisError::ArithmeticOverflow)
        },
        Err(e) => Err(e),
    }
}

impl Tokenitis {
    /// Reads the counter that a registry account holds.
    pub fn load_count(data: &[u8]) -> (count: Result<u64, TokenitisError>)
        ensures
            count == stored_count(data@),
    {
        if data.len() == 0 {
            Ok(0)
        } else {
            match Tokenitis::deserialize(data) {
                Ok(registry) => Ok(registry.num_transforms),
                Err(e) => Err(e),
            }
        }
    }

    /// The id that the next transform gets, given what the registry account holds.
    pub fn load_next_id(data: &[u8]) -> (id: Result<u64, TokenitisError>)
        ensures
            id == next_id(data@),
    {
        match Tokenitis::load_count(data) {
            Ok(count) => if count < u64::MAX {
                Ok(count + 1)
            } else {
                Err(TokenitisError::ArithmeticOverflow)
            },
            Err(e) => Err(e),
        }
    }

    /// The seed from which the registry's address is derived.
    pub fn tokenitis_seed() -> (seed: Vec<u8>)
        ensures
            seed@ == tokenitis_seed_bytes(),
    {
        let seed: Vec<u8> = vec![116u8, 111, 107, 101, 110, 105, 116, 105, 115];
        assert(seed@ =~= tokenitis_seed_bytes());
        seed
    }

    /// The seed from which the address of the transform with the given id is derived.
    pub fn transform_seed(transform_num: u64) -> (seed: Vec<u8>)
        ensures
            seed@ == transform_seed_bytes(transform_num),
    {
        let mut seed: Vec<u8> = vec![116u8, 114, 97, 110, 115, 102, 111, 114, 109, 45];
        assert(seed@ =~= transform_prefix_bytes());
        let mut digits = decimal_digits(transform_num);
        seed.append(&mut digits);
        seed
    }

    /// Derives the registry's address and disambiguation byte.
    pub fn find_tokenitis_address(program_id: &Address) -> (found: Option<(Address, u8)>)
        ensures
            found == tokenitis_address(*program_id),
    {
        let mut seeds: Vec<Vec<u8>> = Vec::new();
        seeds.push(Tokenitis::tokenitis_seed());
        assert(seed_views(seeds@) =~= seq![tokenitis_seed_bytes()]);
        try_find_program_address(&seeds, program_id)
    }

    /// Derives the address and disambiguation byte of the transform with the given id.
    pub fn find_transform_address(program_id: &Address, transform_num: u64) -> (found: Option<
        (Address, u8),
    >)
        ensures
            found == transform_address(*program_id, transform_num),
    {
        let mut seeds: Vec<Vec<u8>> = Vec::new();
        seeds.push(Tokenitis::transform_seed(transform_num));
        assert(seed_views(seeds@) =~= seq![transform_seed_bytes(transform_num)]);
        try_find_program_address(&seeds, program_id)
    }

    /// The registry's stored form.
    pub fn serialize(&self) -> (bytes: Vec<u8>)
        ensures
            bytes@ == enc_tokenitis(*self),
    {
        let mut bytes: Vec<u8> = Vec::new();
        write_u64(&mut bytes, self.num_transforms);
        assert(bytes@ =~= enc_tokenitis(*self));
        bytes
    }

    /// Reads a registry from the front of `data`; what follows it is ignored.
    pub fn deserialize(data: &[u8]) -> (read: Result<Tokenitis, TokenitisError>)
        ensures
            match read {
                Ok(registry) => take_tokenitis(data@) is Some && take_tokenitis(data@).unwrap().0
                    == registry,
                Err(e) => e == TokenitisError::BorshIoError && take_tokenitis(data@) is None,
            },
    {
        assert(data@.skip(0) =~= data@);
        match read_u64(data, 0) {
            Some((num_transforms, _)) => Ok(Tokenitis { num_transforms }),
            None => Err(TokenitisError::BorshIoError),
        }
    }
}

/// The decimal digits of `n`, most significant first.
fn decimal_digits(n: u64) -> (digits: Vec<u8>)
    ensures
        digits@ == decimal(n as nat),
    decreases n,
{
    if n < 10 {
        let digits: Vec<u8> = vec![48 + n as u8];
        assert(digits@ =~= decimal(n as nat));
        digits
    } else {
        let mut digits = decimal_digits(n / 10);
        digits.push(48 + (n % 10) as u8);
        digits
    }
}

/// The transform that a creation with the given arguments stores under the
/// given id for the given creator.
pub open spec fn record_of(args: CreateTransformArgs, id: u64, creator: Address) -> TransformView {
    TransformView {
        initialized: true,
        id,
        name: args.metadata.name@,
        image: args.metadata.image@,
        inputs: args.inputs@,
        outputs: args.outputs@,
        fee: args.fee,
        creator,
    }
}

impl Transform {
    /// Number of bytes in the stored form of the transform that a creation
    /// with the given arguments makes, whatever its id and creator. Fails
    /// with `BorshIoError` where the transform has no stored form or its
    /// length does not fit in `usize`.
    pub fn transform_len(args: CreateTransformArgs) -> (len: Result<usize, TokenitisError>)
        ensures
            match len {
                Ok(len) => forall|id: u64, creator: Address|
                    encodable(#[trigger] record_of(args, id, creator)) && len == enc_transform(
                        record_of(args, id, creator),
                    ).len(),
                Err(e) => e == TokenitisError::BorshIoError && forall|id: u64, creator: Address|
                    !encodable(#[trigger] record_of(args, id, creator)) || enc_transform(
                        record_of(args, id, creator),
                    ).len() > usize::MAX,
            },
    {
        let name = args.metadata.name.as_str().as_bytes().len();
        let image = args.metadata.image.as_str().as_bytes().len();
        let inputs = args.inputs.len();
        let outputs = args.outputs.len();
        proof {
            assert forall|id: u64, creator: Address|
                encodable(#[trigger] record_of(args, id, creator)) implies enc_transform(
                record_of(args, id, creator),
            ).len() == encoded_len(record_of(args, id, creator)) by {
                lemma_encoded_len(record_of(args, id, creator));
            }
        }
        if name > u32::MAX as usize || image > u32::MAX as usize || inputs > u32::MAX as usize
            || outputs > u32::MAX as usize {
            return Err(TokenitisError::BorshIoError);
        }
        let fee: u64 = if args.fee.is_some() {
            9
        } else {
            1
        };
        let total: u64 = 1 + 8 + (4 + name as u64) + (4 + image as u64) + (4 + 72 * (inputs as u64))
            + (4 + 72 * (outputs as u64)) + fee + 32;
        if total > usize::MAX as u64 {
            return Err(TokenitisError::BorshIoError);
        }
        Ok(total as usize)
    }

    /// The baskets are in order.
    pub open spec fn wf(&self) -> bool {
        self.inputs.wf() && self.outputs.wf()
    }

    /// The transform's stored form, or `BorshIoError` where a length does not
    /// fit in 32 bits.
    pub fn serialize(&self) -> (written: Result<Vec<u8>, TokenitisError>)
        ensures
            match written {
                Ok(bytes) => encodable(self@) && bytes@ == enc_transform(self@),
                Err(e) => e == TokenitisError::BorshIoError && !encodable(self@),
            },
    {
        if self.metadata.name.as_str().as_bytes().len() > u32::MAX as usize
            || self.metadata.image.as_str().as_bytes().len() > u32::MAX as usize
            || self.inputs.len() > u32::MAX as usize
            || self.outputs.len() > u32::MAX as usize {
            return Err(TokenitisError::BorshIoError);
        }
        let mut bytes: Vec<u8> = Vec::new();
        write_bool(&mut bytes, self.initialized);
        write_u64(&mut bytes, self.id);
        write_string(&mut bytes, self.metadata.name.as_str());
        write_string(&mut bytes, self.metadata.image.as_str());
        write_basket(&mut bytes, &self.inputs);
        write_basket(&mut bytes, &self.outputs);
        write_fee(&mut bytes, self.fee);
        write_address(&mut bytes, &self.creator);
        assert(bytes@ =~= enc_transform(self@));
        Ok(bytes)
    }

    /// Reads a transform from the front of `data`; what follows it is ignored.
    pub fn deserialize(data: &[u8]) -> (read: Result<Transform, TokenitisError>)
        ensures
            match read {
                Ok(transform) => transform.wf() && take_transform(data@) is Some && take_transform(
                    data@,
                ).unwrap().0 == transform@,
                Err(e) => e == TokenitisError::BorshIoError && take_transform(data@) is None,
            },
    {
        assert(data@.skip(0) =~= data@);
        let (initialized, pos) = match read_bool(data, 0) {
            Some(found) => found,
            None => {
                return Err(TokenitisError::BorshIoError);
            },
        };
        let (id, pos) = match read_u64(data, pos) {
            Some(found) => found,
            None => {
                return Err(TokenitisError::BorshIoError);
            },
        };
        let (name, pos) = match read_string(data, pos) {
            Some(found) => found,
            None => {
                return Err(TokenitisError::BorshIoError);
            },
        };
        let (image, pos) = match read_string(data, pos) {
            Some(found) => found,
            None => {
                return Err(TokenitisError::BorshIoError);
            },
        };
        let (inputs, pos) = match read_basket(data, pos) {
            Some(found) => found,
            None => {
                return Err(TokenitisError::BorshIoError);
            },
        };
        let (outputs, pos) = match read_basket(data, pos) {
            Some(found) => found,
            None => {
                return Err(TokenitisError::BorshIoError);
            },
        };
        let (fee, pos) = match read_fee(data, pos) {
            Some(found) => found,
            None => {
                return Err(TokenitisError::BorshIoError);
            },
        };
        let (creator, _) = match read_address(data, pos) {
            Some(found) => found,
            None => {
                return Err(TokenitisError::BorshIoError);
            },
        };
        Ok(
            Transform {
                initialized,
                id,
                metadata: TransformMetadata { name, image },
                inputs,
                outputs,
                fee,
                creator,
            },
        )
    }
}

/// The address derived for a transform, with its
/// disambiguation byte, depends on the program and the id alone; so does the
/// registry's on the program. Deriving twice gives the same twice.
pub proof fn lemma_derivation_is_repeatable(
    program_id: Address,
    again: Address,
    transform_num: u64,
    same_num: u64,
)
    requires
        program_id == again,
        transform_num == same_num,
    ensures
        tokenitis_address(program_id) == tokenitis_address(again),
        transform_address(program_id, transform_num) == transform_address(again, same_num),
{
}

/// A number has at least one decimal digit, and at least two from ten on.
proof fn lemma_decimal_len(n: nat)
    ensures
        decimal(n).len() >= 1,
        n >= 10 ==> decimal(n).len() >= 2,
    decreases n,
{
    if n >= 10 {
        lemma_decimal_len(n / 10);
    }
}

/// Different numbers have different decimal digits.
pub proof fn lemma_decimal_injective(a: nat, b: nat)
    requires
        decimal(a) == decimal(b),
    ensures
        a == b,
    decreases a,
{
    lemma_decimal_len(a);
    lemma_decimal_len(b);
    if a < 10 {
        assert(decimal(a).len() == 1);
        assert(decimal(a)[0] == (48 + a) as u8);
        assert(decimal(b)[0] == (48 + b) as u8);
    } else {
        assert(decimal(b).len() >= 2);
        let front = decimal(a / 10);
        let other = decimal(b / 10);
        let last = (48 + a % 10) as u8;
        let other_last = (48 + b % 10) as u8;
        assert(decimal(a) == front.push(last));
        assert(decimal(b) == other.push(other_last));
        assert(front.push(last).last() == last);
        assert(other.push(other_last).last() == other_last);
        assert(front.push(last).drop_last() =~= front);
        assert(other.push(other_last).drop_last() =~= other);
        lemma_decimal_injective(a / 10, b / 10);
    }
}

/// Different transforms have different seeds.
pub proof fn lemma_transform_seed_injective(transform_num: u64, other: u64)
    requires
        transform_seed_bytes(transform_num) == transform_seed_bytes(other),
    ensures
        transform_num == other,
{
    let prefix = transform_prefix_bytes();
    assert(transform_seed_bytes(transform_num).skip(10) =~= decimal(transform_num as nat));
    assert(transform_seed_bytes(other).skip(10) =~= decimal(other as nat));
    lemma_decimal_injective(transform_num as nat, other as nat);
}

/// The stored form of a transform has the length that `encoded_len` gives.
pub proof fn lemma_encoded_len(t: TransformView)
    requires
        encodable(t),
    ensures
        enc_transform(t).len() == encoded_len(t),
{
    lemma_take_u64(t.id, Seq::empty());
    lemma_take_u32(encode_utf8(t.name).len() as u32, Seq::empty());
    lemma_take_u32(encode_utf8(t.image).len() as u32, Seq::empty());
    lemma_take_u32(t.inputs.len() as u32, Seq::empty());
    lemma_take_u32(t.outputs.len() as u32, Seq::empty());
    crate::codec::lemma_take_legs_body(t.inputs, Seq::empty());
    crate::codec::lemma_take_legs_body(t.outputs, Seq::empty());
    if t.fee is Some {
        lemma_take_u64(t.fee.unwrap(), Seq::empty());
    }
}

/// The baskets of a transform that is read are in order.
pub proof fn lemma_taken_transform_ascends(bytes: Seq<u8>)
    requires
        take_transform(bytes) is Some,
    ensures
        ascending(take_transform(bytes).unwrap().0.inputs),
        ascending(take_transform(bytes).unwrap().0.outputs),
{
}

/// A registry that was stored is read back, whatever follows it.
pub proof fn lemma_tokenitis_round_trip(registry: Tokenitis, rest: Seq<u8>)
    ensures
        enc_tokenitis(registry).len() == 8,
        take_tokenitis(enc_tokenitis(registry) + rest) == Some((registry, rest)),
{
    lemma_take_u64(registry.num_transforms, rest);
}

/// A transform that was stored is read back, whatever follows it.
pub proof fn lemma_transform_round_trip(t: TransformView, rest: Seq<u8>)
    requires
        encodable(t),
        ascending(t.inputs),
        ascending(t.outputs),
    ensures
        take_transform(enc_transform(t) + rest) == Some((t, rest)),
{
    let r7 = t.creator@ + rest;
    let r6 = enc_fee(t.fee) + r7;
    let r5 = enc_legs(t.outputs) + r6;
    let r4 = enc_legs(t.inputs) + r5;
    let r3 = enc_string(t.image) + r4;
    let r2 = enc_string(t.name) + r3;
    let r1 = enc_u64(t.id) + r2;
    let all = enc_transform(t) + rest;
    assert(all =~= enc_bool(t.initialized) + r1);
    assert(take_bool(all) == Some((t.initialized, r1))) by {
        lemma_take_bool(t.initialized, r1);
    }
    assert(take_u64(r1) == Some((t.id, r2))) by {
        lemma_take_u64(t.id, r2);
    }
    assert(take_string(r2) == Some((t.name, r3))) by {
        lemma_take_string(t.name, r3);
    }
    assert(take_string(r3) == Some((t.image, r4))) by {
        lemma_take_string(t.image, r4);
    }
    assert(take_legs(r4) == Some((t.inputs, r5))) by {
        lemma_take_legs(t.inputs, r5);
    }
    assert(take_legs(r5) == Some((t.outputs, r6))) by {
        lemma_take_legs(t.outputs, r6);
    }
    assert(take_fee(r6) == Some((t.fee, r7))) by {
        lemma_take_fee(t.fee, r7);
    }
    assert(take_address(r7) == Some((t.creator, rest))) by {
        lemma_take_address(t.creator, rest);
    }
}

} // verus!
