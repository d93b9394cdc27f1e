//! The stream cipher: data XORed with the keystream of Trivium.
//!
//! The keystream generator is the work of the `trivium` crate. The order in
//! which the bits of key and IV are read can be chosen; keystream bits are
//! always packed into bytes lowest bit first.

use vstd::prelude::*;
use crate::error::EngineError;
use crate::text::{ascii_lowercased, field_text, str_equal, trimmed, trimmed_lowercase};

verus! {

/// The order in which the bits of each key and IV byte are fed to the
/// generator.
#[derive(Clone, Copy, Debug, PartialEq, Eq, Structural)]
pub enum BitOrder {
    /// The highest bit of each byte first.
    Msb,
    /// The lowest bit of each byte first.
    Lsb,
}

/// The order that a spelling names. The spellings are `msb`, `msb-first`,
/// `msb_first`, `lsb`, `lsb-first` and `lsb_first`.
pub open spec fn order_named(name: Seq<char>) -> Option<BitOrder> {
    if name == "msb"@ || name == "msb-first"@ || name == "msb_first"@ {
        Some(BitOrder::Msb)
    } else if name == "lsb"@ || name == "lsb-first"@ || name == "lsb_first"@ {
        Some(BitOrder::Lsb)
    } else {
        None
    }
}

/// The order that a request asks for: the highest bit first where it names
/// none; else what its spelling names, case and surrounding whitespace
/// aside; else the spelling, as it was compared, is handed back.
pub open spec fn requested_order(bit_order: Option<Seq<char>>) -> Result<BitOrder, Seq<char>> {
    match bit_order {
        None => Ok(BitOrder::Msb),
        Some(given) => {
            let name = ascii_lowercased(trimmed(given));
            match order_named(name) {
                Some(order) => Ok(order),
                None => Err(name),
            }
        },
    }
}

/// Reads the bit order of a request.
pub fn parse_bit_order(bit_order: Option<String>) -> (r: Result<BitOrder, EngineError>)
    ensures
        match r {
            Ok(order) => requested_order(field_text(bit_order)) == Ok::<
                BitOrder,
                Seq<char>,
            >(order),
            Err(e) => e matches EngineError::UnsupportedBitOrder(name) && requested_order(
                field_text(bit_order),
            ) == Err::<BitOrder, Seq<char>>(name@),
        },
{
    let given: String = match bit_order {
        None => {
            return Ok(BitOrder::Msb);
        },
        Some(s) => s,
    };
    let name: String = trimmed_lowercase(given.as_str());
    let s: &str = name.as_str();
    if str_equal(s, "msb") || str_equal(s, "msb-first") || str_equal(s, "msb_first") {
        Ok(BitOrder::Msb)
    } else if str_equal(s, "lsb") || str_equal(s, "lsb-first") || str_equal(s, "lsb_first") {
        Ok(BitOrder::Lsb)
    } else {
        Err(EngineError::UnsupportedBitOrder(name))
    }
}

/// Byte `index` of the Trivium keystream for `key` and `iv`, their bits read
/// lowest first if `lsb_first` and highest first if not, the keystream bits
/// packed lowest first.
pub uninterp spec fn trivium_keystream_byte(
    key: Seq<u8>,
    iv: Seq<u8>,
    lsb_first: bool,
    index: nat,
) -> u8;

/// `data` XORed, byte by byte, with the keystream for `key` and `iv`.
pub open spec fn keystream_xor(key: Seq<u8>, iv: Seq<u8>, data: Seq<u8>, order: BitOrder) -> Seq<
    u8,
> {
    Seq::new(
        data.len(),
        |i: int| data[i] ^ trivium_keystream_byte(key, iv, order == BitOrder::Lsb, i as nat),
    )
}

/// `Trivium::new` of the trivium crate, with its `PackOrder::Lsb`, then
/// `Trivium::xor_bytes`. The generator is seeded from key, IV and bit order
/// alone and takes any length of either; each output byte is the data byte
/// XORed with the next keystream byte.
#[verifier::external_body]
fn trivium_apply(key: &[u8], iv: &[u8], order: BitOrder, data: &[u8]) -> (r: Vec<u8>)
    ensures
        r@.len() == data@.len(),
        forall|i: int|
            0 <= i < r@.len() ==> r@[i] == data@[i] ^ trivium_keystream_byte(
                key@,
                iv@,
                order == BitOrder::Lsb,
                i as nat,
            ),
{
    let load = match order {
        BitOrder::Msb => trivium::BitOrder::Msb,
        BitOrder::Lsb => trivium::BitOrder::Lsb,
    };
    trivium::Trivium::new(key, iv, load, trivium::PackOrder::Lsb).xor_bytes(data)
}

/// XORs `data` with the Trivium keystream for `key` and `iv`. The same call
/// encrypts and decrypts.
pub fn trivium_xor(key: Vec<u8>, iv: Vec<u8>, data: Vec<u8>, bit_order: Option<String>) -> (r:
    Result<Vec<u8>, EngineError>)
    ensures
        match r {
            Ok(out) => requested_order(field_text(bit_order)) matches Ok(order)
                && out@ == keystream_xor(key@, iv@, data@, order),
            Err(e) => e matches EngineError::UnsupportedBitOrder(name) && requested_order(
                field_text(bit_order),
            ) == Err::<BitOrder, Seq<char>>(name@),
        },
{
    let order = parse_bit_order(bit_order)?;
    let out = trivium_apply(key.as_slice(), iv.as_slice(), order, data.as_slice());
    assert(out@ =~= keystream_xor(key@, iv@, data@, order));
    Ok(out)
}

/// Applying the keystream twice gives the data back.
pub proof fn lemma_xor_self_inverse(key: Seq<u8>, iv: Seq<u8>, data: Seq<u8>, order: BitOrder)
    ensures
        keystream_xor(key, iv, keystream_xor(key, iv, data, order), order) == data,
        keystream_xor(key, iv, data, order).len() == data.len(),
{
    let once = keystream_xor(key, iv, data, order);
    let twice = keystream_xor(key, iv, once, order);
    assert forall|i: int| 0 <= i < data.len() implies twice[i] == data[i] by {
        let d: u8 = data[i];
        let k: u8 = trivium_keystream_byte(key, iv, order == BitOrder::Lsb, i as nat);
        assert((d ^ k) ^ k == d) by (bit_vector);
    }
    assert(twice =~= data);
}

} // verus!
