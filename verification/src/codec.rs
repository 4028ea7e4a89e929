use crate::address::{address_of, lemma_address_ext, lemma_lex_lt_transitive, lex_lt, Address};
use crate::basket::{ascending, Basket, Leg, Token};
use vstd::bytes::{
    lemma_auto_spec_u32_to_from_le_bytes, lemma_auto_spec_u64_to_from_le_bytes,
    spec_u32_from_le_bytes, spec_u32_to_le_bytes, spec_u64_from_le_bytes, spec_u64_to_le_bytes,
    u32_from_le_bytes, u32_to_le_bytes, u64_from_le_bytes, u64_to_le_bytes,
};
use vstd::prelude::*;
use vstd::slice::{slice_subrange, slice_to_vec};
use vstd::utf8::{decode_utf8, encode_utf8, valid_utf8};

verus! {

/// A flag is stored as one byte, 0 or 1.
pub open spec fn enc_bool(flag: bool) -> Seq<u8> {
    seq![if flag { 1u8 } else { 0u8 }]
}

/// Reads a flag from the front of `bytes`.
pub open spec fn take_bool(bytes: Seq<u8>) -> Option<(bool, Seq<u8>)> {
    if bytes.len() >= 1 && bytes[0] == 0 {
        Some((false, bytes.skip(1)))
    } else if bytes.len() >= 1 && bytes[0] == 1 {
        Some((true, bytes.skip(1)))
    } else {
        None
    }
}

/// A 32-bit count is stored as four bytes, least significant first.
pub open spec fn enc_u32(value: u32) -> Seq<u8> {
    spec_u32_to_le_bytes(value)
}

/// Reads a 32-bit count from the front of `bytes`.
pub open spec fn take_u32(bytes: Seq<u8>) -> Option<(u32, Seq<u8>)> {
    if bytes.len() >= 4 {
        Some((spec_u32_from_le_bytes(bytes.take(4)), bytes.skip(4)))
    } else {
        None
    }
}

/// A 64-bit integer is stored as eight bytes, least significant first.
pub open spec fn enc_u64(value: u64) -> Seq<u8> {
    spec_u64_to_le_bytes(value)
}

/// Reads a 64-bit integer from the front of `bytes`.
pub open spec fn take_u64(bytes: Seq<u8>) -> Option<(u64, Seq<u8>)> {
    if bytes.len() >= 8 {
        Some((spec_u64_from_le_bytes(bytes.take(8)), bytes.skip(8)))
    } else {
        None
    }
}

/// Reads an address, stored as its 32 bytes, from the front of `bytes`.
pub open spec fn take_address(bytes: Seq<u8>) -> Option<(Address, Seq<u8>)> {
    if bytes.len() >= 32 {
        Some((address_of(bytes.take(32)), bytes.skip(32)))
    } else {
        None
    }
}

/// An optional fee is stored as a tag byte, 0 for none and 1 for some,
/// followed by the percentage where there is one.
pub open spec fn enc_fee(fee: Option<u64>) -> Seq<u8> {
    match fee {
        None => seq![0u8],
        Some(percent) => seq![1u8] + enc_u64(percent),
    }
}

/// Reads an optional fee from the front of `bytes`.
pub open spec fn take_fee(bytes: Seq<u8>) -> Option<(Option<u64>, Seq<u8>)> {
    if bytes.len() >= 1 && bytes[0] == 0 {
        Some((None, bytes.skip(1)))
    } else if bytes.len() >= 1 && bytes[0] == 1 {
        match take_u64(bytes.skip(1)) {
            Some((percent, rest)) => Some((Some(percent), rest)),
            None => None,
        }
    } else {
        None
    }
}

/// Text is stored as the length of its UTF-8 form in bytes, as a 32-bit count,
/// followed by that form.
pub open spec fn enc_string(text: Seq<char>) -> Seq<u8> {
    enc_u32(encode_utf8(text).len() as u32) + encode_utf8(text)
}

/// Reads text from the front of `bytes`.
pub open spec fn take_string(bytes: Seq<u8>) -> Option<(Seq<char>, Seq<u8>)> {
    match take_u32(bytes) {
        Some((n, rest)) => if rest.len() >= n && valid_utf8(rest.take(n as int)) {
            Some((decode_utf8(rest.take(n as int)), rest.skip(n as int)))
        } else {
            None
        },
        None => None,
    }
}

/// A basket entry is stored as the token type, the holding account and the amount.
pub open spec fn enc_leg(leg: Leg) -> Seq<u8> {
    leg.mint@ + leg.token.account@ + enc_u64(leg.token.amount)
}

/// Reads a basket entry from the front of `bytes`.
pub open spec fn take_leg(bytes: Seq<u8>) -> Option<(Leg, Seq<u8>)> {
    if bytes.len() >= 72 {
        Some(
            (
                Leg {
                    mint: address_of(bytes.subrange(0, 32)),
                    token: Token {
                        account: address_of(bytes.subrange(32, 64)),
                        amount: spec_u64_from_le_bytes(bytes.subrange(64, 72)),
                    },
                },
                bytes.skip(72),
            ),
        )
    } else {
        None
    }
}

/// The entries of a basket, one after the other.
pub open spec fn enc_legs_body(legs: Seq<Leg>) -> Seq<u8>
    decreases legs.len(),
{
    if legs.len() == 0 {
        Seq::<u8>::empty()
    } else {
        enc_legs_body(legs.drop_last()) + enc_leg(legs.last())
    }
}

/// Reads `n` basket entries from the front of `bytes`.
pub open spec fn take_legs_body(bytes: Seq<u8>, n: nat) -> Option<(Seq<Leg>, Seq<u8>)>
    decreases n,
{
    if n == 0 {
        Some((Seq::<Leg>::empty(), bytes))
    } else {
        match take_legs_body(bytes, (n - 1) as nat) {
            Some((legs, rest)) => match take_leg(rest) {
                Some((leg, rest)) => Some((legs.push(leg), rest)),
                None => None,
            },
            None => None,
        }
    }
}

/// A basket is stored as the number of its entries, as a 32-bit count,
/// followed by the entries in ascending order of token type.
pub open spec fn enc_legs(legs: Seq<Leg>) -> Seq<u8> {
    enc_u32(legs.len() as u32) + enc_legs_body(legs)
}

/// Reads a basket from the front of `bytes`. Entries out of order, or two for
/// one token type, are refused.
pub open spec fn take_legs(bytes: Seq<u8>) -> Option<(Seq<Leg>, Seq<u8>)> {
    match take_u32(bytes) {
        Some((n, rest)) => match take_legs_body(rest, n as nat) {
            Some((legs, rest)) => if ascending(legs) {
                Some((legs, rest))
            } else {
                None
            },
            None => None,
        },
        None => None,
    }
}

/// What a read at `pos` of `data` gave, `got`, is what the format prescribes, `want`.
pub open spec fn reads<T>(
    data: Seq<u8>,
    pos: usize,
    got: Option<(T, usize)>,
    want: Option<(T, Seq<u8>)>,
) -> bool {
    match got {
        Some((value, next)) => pos <= next <= data.len() && want == Some(
            (value, data.skip(next as int)),
        ),
        None => want is None,
    }
}

/// Reads a flag at `pos`.
pub fn read_bool(data: &[u8], pos: usize) -> (got: Option<(bool, usize)>)
    requires
        pos <= data@.len(),
    ensures
        reads(data@, pos, got, take_bool(data@.skip(pos as int))),
{
    if pos >= data.len() {
        return None;
    }
    assert(data@.skip(pos as int).skip(1) =~= data@.skip(pos + 1));
    let byte = data[pos];
    if byte == 0 {
        Some((false, pos + 1))
    } else if byte == 1 {
        Some((true, pos + 1))
    } else {
        None
    }
}

/// Reads a 32-bit count at `pos`.
pub fn read_u32(data: &[u8], pos: usize) -> (got: Option<(u32, usize)>)
    requires
        pos <= data@.len(),
    ensures
        reads(data@, pos, got, take_u32(data@.skip(pos as int))),
{
    if data.len() - pos < 4 {
        return None;
    }
    let field = slice_subrange(data, pos, pos + 4);
    assert(data@.skip(pos as int).take(4) =~= data@.subrange(pos as int, pos + 4));
    assert(data@.skip(pos as int).skip(4) =~= data@.skip(pos + 4));
    Some((u32_from_le_bytes(field), pos + 4))
}

/// Reads a 64-bit integer at `pos`.
pub fn read_u64(data: &[u8], pos: usize) -> (got: Option<(u64, usize)>)
    requires
        pos <= data@.len(),
    ensures
        reads(data@, pos, got, take_u64(data@.skip(pos as int))),
{
    if data.len() - pos < 8 {
        return None;
    }
    let field = slice_subrange(data, pos, pos + 8);
    assert(data@.skip(pos as int).take(8) =~= data@.subrange(pos as int, pos + 8));
    assert(data@.skip(pos as int).skip(8) =~= data@.skip(pos + 8));
    Some((u64_from_le_bytes(field), pos + 8))
}

/// Copies the 32 bytes at `pos` into an address.
fn address_at(data: &[u8], pos: usize) -> (address: Address)
    requires
        pos + 32 <= data@.len(),
    ensures
        address@ == data@.subrange(pos as int, pos + 32),
        address == address_of(data@.subrange(pos as int, pos + 32)),
{
    let len = data.len();
    let mut bytes: [u8; 32] = [0u8;32];
    let mut i: usize = 0;
    while i < 32
        invariant
            0 <= i <= 32,
            len == data@.len(),
            pos + 32 <= len,
            forall|j: int| 0 <= j < i ==> bytes@[j] == data@[pos + j],
        decreases 32 - i,
    {
        bytes[i] = data[pos + i];
        i += 1;
    }
    let address = Address { bytes };
    proof {
        assert(address@ =~= data@.subrange(pos as int, pos + 32));
        lemma_address_ext(address, address_of(address@));
    }
    address
}

/// Reads an address at `pos`.
pub fn read_address(data: &[u8], pos: usize) -> (got: Option<(Address, usize)>)
    requires
        pos <= data@.len(),
    ensures
        reads(data@, pos, got, take_address(data@.skip(pos as int))),
{
    if data.len() - pos < 32 {
        return None;
    }
    assert(data@.skip(pos as int).take(32) =~= data@.subrange(pos as int, pos + 32));
    assert(data@.skip(pos as int).skip(32) =~= data@.skip(pos + 32));
    Some((address_at(data, pos), pos + 32))
}

/// Reads an optional fee at `pos`.
pub fn read_fee(data: &[u8], pos: usize) -> (got: Option<(Option<u64>, usize)>)
    requires
        pos <= data@.len(),
    ensures
        reads(data@, pos, got, take_fee(data@.skip(pos as int))),
{
    if pos >= data.len() {
        return None;
    }
    assert(data@.skip(pos as int).skip(1) =~= data@.skip(pos + 1));
    let tag = data[pos];
    if tag == 0 {
        Some((None, pos + 1))
    } else if tag == 1 {
        match read_u64(data, pos + 1) {
            Some((percent, next)) => Some((Some(percent), next)),
            None => None,
        }
    } else {
        None
    }
}

/// Reads a basket entry at `pos`.
pub fn read_leg(data: &[u8], pos: usize) -> (got: Option<(Leg, usize)>)
    requires
        pos <= data@.len(),
    ensures
        reads(data@, pos, got, take_leg(data@.skip(pos as int))),
{
    if data.len() - pos < 72 {
        return None;
    }
    let ghost rest = data@.skip(pos as int);
    assert(rest.subrange(0, 32) =~= data@.subrange(pos as int, pos + 32));
    assert(rest.subrange(32, 64) =~= data@.subrange(pos + 32, pos + 64));
    assert(rest.subrange(64, 72) =~= data@.subrange(pos + 64, pos + 72));
    assert(rest.skip(72) =~= data@.skip(pos + 72));
    let mint = address_at(data, pos);
    let account = address_at(data, pos + 32);
    let amount = u64_from_le_bytes(slice_subrange(data, pos + 64, pos + 72));
    Some((Leg { mint, token: Token { account, amount } }, pos + 72))
}

/// Calls `String::from_utf8`.
///
/// Trusted: the bytes are accepted exactly when they are valid UTF-8, and the
/// text that comes back is the one they encode.
#[verifier::external_body]
fn string_from_utf8(bytes: Vec<u8>) -> (text: Option<String>)
    ensures
        match text {
            Some(text) => valid_utf8(bytes@) && text@ == decode_utf8(bytes@),
            None => !valid_utf8(bytes@),
        },
{
    String::from_utf8(bytes).ok()
}

/// Reads text at `pos`.
pub fn read_string(data: &[u8], pos: usize) -> (got: Option<(String, usize)>)
    requires
        pos <= data@.len(),
    ensures
        match got {
            Some((text, next)) => pos <= next <= data@.len() && take_string(
                data@.skip(pos as int),
            ) == Some((text@, data@.skip(next as int))),
            None => take_string(data@.skip(pos as int)) is None,
        },
{
    let (n, start) = match read_u32(data, pos) {
        Some(count) => count,
        None => {
            return None;
        },
    };
    if data.len() - start < n as usize {
        return None;
    }
    let field = slice_subrange(data, start, start + n as usize);
    assert(data@.skip(start as int).take(n as int) =~= data@.subrange(start as int, start + n));
    assert(data@.skip(start as int).skip(n as int) =~= data@.skip(start + n));
    match string_from_utf8(slice_to_vec(field)) {
        Some(text) => Some((text, start + n as usize)),
        None => None,
    }
}

/// Appends a flag.
pub fn write_bool(out: &mut Vec<u8>, flag: bool)
    ensures
        final(out)@ == old(out)@ + enc_bool(flag),
{
    out.push(if flag { 1u8 } else { 0u8 });
    assert(out@ =~= old(out)@ + enc_bool(flag));
}

/// Appends a 32-bit count.
pub fn write_u32(out: &mut Vec<u8>, value: u32)
    ensures
        final(out)@ == old(out)@ + enc_u32(value),
{
    let mut bytes = u32_to_le_bytes(value);
    out.append(&mut bytes);
}

/// Appends a 64-bit integer.
pub fn write_u64(out: &mut Vec<u8>, value: u64)
    ensures
        final(out)@ == old(out)@ + enc_u64(value),
{
    let mut bytes = u64_to_le_bytes(value);
    out.append(&mut bytes);
}

/// Appends an address.
pub fn write_address(out: &mut Vec<u8>, address: &Address)
    ensures
        final(out)@ == old(out)@ + address@,
{
    let mut bytes = address.to_vec();
    out.append(&mut bytes);
}

/// Appends an optional fee.
pub fn write_fee(out: &mut Vec<u8>, fee: Option<u64>)
    ensures
        final(out)@ == old(out)@ + enc_fee(fee),
{
    match fee {
        None => {
            out.push(0u8);
            assert(out@ =~= old(out)@ + enc_fee(fee));
        },
        Some(percent) => {
            out.push(1u8);
            write_u64(out, percent);
            assert(out@ =~= old(out)@ + enc_fee(fee));
        },
    }
}

/// Appends text whose UTF-8 form has a length that fits in 32 bits.
pub fn write_string(out: &mut Vec<u8>, text: &str)
    requires
        encode_utf8(text@).len() <= u32::MAX,
    ensures
        final(out)@ == old(out)@ + enc_string(text@),
{
    let bytes = text.as_bytes();
    write_u32(out, bytes.len() as u32);
    let mut copy = slice_to_vec(bytes);
    out.append(&mut copy);
    assert(out@ =~= old(out)@ + enc_string(text@));
}

/// Appends a basket entry.
pub fn write_leg(out: &mut Vec<u8>, leg: &Leg)
    ensures
        final(out)@ == old(out)@ + enc_leg(*leg),
{
    write_address(out, &leg.mint);
    write_address(out, &leg.token.account);
    write_u64(out, leg.token.amount);
    assert(out@ =~= old(out)@ + enc_leg(*leg));
}

/// Appends a basket of fewer than 2^32 entries.
pub fn write_basket(out: &mut Vec<u8>, basket: &Basket)
    requires
        basket@.len() <= u32::MAX,
    ensures
        final(out)@ == old(out)@ + enc_legs(basket@),
{
    let n = basket.len();
    write_u32(out, n as u32);
    let ghost start = out@;
    let mut i: usize = 0;
    assert(enc_legs_body(basket@.take(0)) =~= Seq::<u8>::empty());
    while i < n
        invariant
            0 <= i <= n,
            n == basket@.len(),
            out@ == start + enc_legs_body(basket@.take(i as int)),
        decreases n - i,
    {
        let leg = basket.leg(i);
        write_leg(out, &leg);
        proof {
            let done = basket@.take(i + 1);
            assert(done.drop_last() =~= basket@.take(i as int));
            assert(done.last() == basket@[i as int]);
            assert(out@ =~= start + enc_legs_body(done));
        }
        i += 1;
    }
    assert(basket@.take(n as int) =~= basket@);
    assert(out@ =~= old(out)@ + enc_legs(basket@));
}

/// Once the entries run out, asking for more finds none either.
pub proof fn lemma_take_legs_body_fails(bytes: Seq<u8>, k: nat, n: nat)
    requires
        take_legs_body(bytes, k) is None,
        k <= n,
    ensures
        take_legs_body(bytes, n) is None,
    decreases n,
{
    if k < n {
        lemma_take_legs_body_fails(bytes, k, (n - 1) as nat);
    }
}

/// Reads a basket at `pos`.
pub fn read_basket(data: &[u8], pos: usize) -> (got: Option<(Basket, usize)>)
    requires
        pos <= data@.len(),
    ensures
        match got {
            Some((basket, next)) => basket.wf() && pos <= next <= data@.len() && take_legs(
                data@.skip(pos as int),
            ) == Some((basket@, data@.skip(next as int))),
            None => take_legs(data@.skip(pos as int)) is None,
        },
{
    let (n, start) = match read_u32(data, pos) {
        Some(count) => count,
        None => {
            return None;
        },
    };
    let ghost body = data@.skip(start as int);
    let mut legs: Vec<Leg> = Vec::new();
    let mut at: usize = start;
    let mut k: u32 = 0;
    while k < n
        invariant
            0 <= k <= n,
            legs@.len() == k,
            start <= at <= data@.len(),
            body == data@.skip(start as int),
            take_u32(data@.skip(pos as int)) == Some((n, body)),
            take_legs_body(body, k as nat) == Some((legs@, data@.skip(at as int))),
            ascending(legs@),
        decreases n - k,
    {
        let (leg, next) = match read_leg(data, at) {
            Some(found) => found,
            None => {
                proof {
                    assert(take_legs_body(body, (k + 1) as nat) is None);
                    lemma_take_legs_body_fails(body, (k + 1) as nat, n as nat);
                }
                return None;
            },
        };
        let in_order = k == 0 || legs[(k - 1) as usize].mint.precedes(&leg.mint);
        proof {
            assert(take_legs_body(body, (k + 1) as nat) == Some(
                (legs@.push(leg), data@.skip(next as int)),
            ));
        }
        if !in_order {
            proof {
                let following = take_legs_body(body, n as nat);
                if following is Some {
                    lemma_take_legs_body_prefix(body, (k + 1) as nat, n as nat);
                    let all = following.unwrap().0;
                    let read = legs@.push(leg);
                    assert(read == all.take(k + 1));
                    assert(all[k - 1] == read[k - 1]);
                    assert(all[k as int] == read[k as int]);
                }
            }
            return None;
        }
        proof {
            lemma_ascending_push(legs@, leg);
        }
        legs.push(leg);
        at = next;
        k += 1;
    }
    Some((Basket::from_ascending(legs), at))
}

/// Appending an entry whose token type comes after the last one keeps the order.
pub proof fn lemma_ascending_push(legs: Seq<Leg>, leg: Leg)
    requires
        ascending(legs),
        legs.len() > 0 ==> lex_lt(legs.last().mint@, leg.mint@),
    ensures
        ascending(legs.push(leg)),
{
    let after = legs.push(leg);
    assert forall|i: int, j: int|
        #![trigger after[i], after[j]]
        0 <= i < j < after.len() implies lex_lt(after[i].mint@, after[j].mint@) by {
        if j < legs.len() {
            assert(lex_lt(legs[i].mint@, legs[j].mint@));
        } else if i < legs.len() - 1 {
            assert(lex_lt(legs[i].mint@, legs[legs.len() - 1].mint@));
            lemma_lex_lt_transitive(legs[i].mint@, legs.last().mint@, leg.mint@);
        }
    }
}

/// Reading more entries keeps those already read.
pub proof fn lemma_take_legs_body_prefix(bytes: Seq<u8>, k: nat, n: nat)
    requires
        k <= n,
        take_legs_body(bytes, n) is Some,
    ensures
        take_legs_body(bytes, k) is Some,
        take_legs_body(bytes, n).unwrap().0.len() == n,
        take_legs_body(bytes, k).unwrap().0 == take_legs_body(bytes, n).unwrap().0.take(k as int),
    decreases n,
{
    if n > 0 {
        lemma_take_legs_body_prefix(bytes, if k < n { k } else { (n - 1) as nat }, (n - 1) as nat);
        let shorter = take_legs_body(bytes, (n - 1) as nat).unwrap().0;
        let longer = take_legs_body(bytes, n).unwrap().0;
        assert(longer.take(n - 1) =~= shorter);
        if k < n {
            assert(longer.take(k as int) =~= shorter.take(k as int));
        } else {
            assert(longer.take(k as int) =~= longer);
        }
    } else {
        assert(take_legs_body(bytes, n).unwrap().0.take(0) =~= Seq::<Leg>::empty());
    }
}

/// A flag that was written is read back.
pub proof fn lemma_take_bool(flag: bool, rest: Seq<u8>)
    ensures
        take_bool(enc_bool(flag) + rest) == Some((flag, rest)),
{
    assert((enc_bool(flag) + rest).skip(1) =~= rest);
}

/// A 32-bit count that was written is read back.
pub proof fn lemma_take_u32(value: u32, rest: Seq<u8>)
    ensures
        enc_u32(value).len() == 4,
        take_u32(enc_u32(value) + rest) == Some((value, rest)),
{
    lemma_auto_spec_u32_to_from_le_bytes();
    assert((enc_u32(value) + rest).take(4) =~= enc_u32(value));
    assert((enc_u32(value) + rest).skip(4) =~= rest);
}

/// A 64-bit integer that was written is read back.
pub proof fn lemma_take_u64(value: u64, rest: Seq<u8>)
    ensures
        enc_u64(value).len() == 8,
        take_u64(enc_u64(value) + rest) == Some((value, rest)),
{
    lemma_auto_spec_u64_to_from_le_bytes();
    assert((enc_u64(value) + rest).take(8) =~= enc_u64(value));
    assert((enc_u64(value) + rest).skip(8) =~= rest);
}

/// An address that was written is read back.
pub proof fn lemma_take_address(address: Address, rest: Seq<u8>)
    ensures
        take_address(address@ + rest) == Some((address, rest)),
{
    assert((address@ + rest).take(32) =~= address@);
    assert((address@ + rest).skip(32) =~= rest);
    lemma_address_ext(address, address_of(address@));
}

/// An optional fee that was written is read back.
pub proof fn lemma_take_fee(fee: Option<u64>, rest: Seq<u8>)
    ensures
        take_fee(enc_fee(fee) + rest) == Some((fee, rest)),
{
    match fee {
        None => {
            assert((enc_fee(fee) + rest).skip(1) =~= rest);
        },
        Some(percent) => {
            assert((enc_fee(fee) + rest).skip(1) =~= enc_u64(percent) + rest);
            lemma_take_u64(percent, rest);
        },
    }
}

/// Text that was written is read back.
pub proof fn lemma_take_string(text: Seq<char>, rest: Seq<u8>)
    requires
        encode_utf8(text).len() <= u32::MAX,
    ensures
        take_string(enc_string(text) + rest) == Some((text, rest)),
{
    let bytes = encode_utf8(text);
    let n = bytes.len() as u32;
    lemma_take_u32(n, bytes + rest);
    assert(enc_string(text) + rest =~= enc_u32(n) + (bytes + rest));
    assert((bytes + rest).take(n as int) =~= bytes);
    assert((bytes + rest).skip(n as int) =~= rest);
    vstd::utf8::encode_utf8_valid_utf8(text);
    vstd::utf8::encode_utf8_decode_utf8(text);
}

/// A basket entry that was written is read back.
pub proof fn lemma_take_leg(leg: Leg, rest: Seq<u8>)
    ensures
        enc_leg(leg).len() == 72,
        take_leg(enc_leg(leg) + rest) == Some((leg, rest)),
{
    lemma_auto_spec_u64_to_from_le_bytes();
    let bytes = enc_leg(leg) + rest;
    assert(bytes.subrange(0, 32) =~= leg.mint@);
    assert(bytes.subrange(32, 64) =~= leg.token.account@);
    assert(bytes.subrange(64, 72) =~= enc_u64(leg.token.amount));
    assert(bytes.skip(72) =~= rest);
    lemma_address_ext(leg.mint, address_of(leg.mint@));
    lemma_address_ext(leg.token.account, address_of(leg.token.account@));
}

/// Basket entries that were written are read back.
pub proof fn lemma_take_legs_body(legs: Seq<Leg>, rest: Seq<u8>)
    ensures
        enc_legs_body(legs).len() == 72 * legs.len(),
        take_legs_body(enc_legs_body(legs) + rest, legs.len()) == Some((legs, rest)),
    decreases legs.len(),
{
    if legs.len() == 0 {
        assert(enc_legs_body(legs) + rest =~= rest);
    } else {
        let front = legs.drop_last();
        let last = legs.last();
        lemma_take_legs_body(front, enc_leg(last) + rest);
        lemma_take_leg(last, rest);
        assert(enc_legs_body(legs) + rest =~= enc_legs_body(front) + (enc_leg(last) + rest));
        assert(front.push(last) =~= legs);
    }
}

/// A basket that was written is read back.
pub proof fn lemma_take_legs(legs: Seq<Leg>, rest: Seq<u8>)
    requires
        legs.len() <= u32::MAX,
        ascending(legs),
    ensures
        enc_legs(legs).len() == 4 + 72 * legs.len(),
        take_legs(enc_legs(legs) + rest) == Some((legs, rest)),
{
    let n = legs.len() as u32;
    lemma_take_u32(n, enc_legs_body(legs) + rest);
    lemma_take_legs_body(legs, rest);
    assert(enc_legs(legs) + rest =~= enc_u32(n) + (enc_legs_body(legs) + rest));
}

} // verus!
