//! A local transformation engine: reversible text encodings across several
//! numeral bases, the SM4 block cipher under five modes and three padding
//! schemes, and the Trivium keystream cipher.
//!
//! Every operation is a pure function of its arguments. Calls into the codec
//! and cipher crates stand behind small unverified wrappers, each of which
//! documents what is taken on trust.

pub mod error;
pub mod text;
pub mod fixed_width;
pub mod big_integer;
pub mod static_table;
pub mod basex;
pub mod padding;
pub mod modes;
pub mod sm4;
pub mod stream_cipher;

pub use crate::basex::{basex_decode, basex_encode, Base};
pub use crate::error::{EngineError, MalformedReason};
pub use crate::modes::Sm4Mode;
pub use crate::padding::{apply_padding, remove_padding, Sm4Padding};
pub use crate::sm4::{
    decode_cipher_input,
    parse_fixed_16,
    require_iv,
    sm4_decrypt,
    sm4_encrypt,
    KeyField,
    Sm4Format,
    Sm4KeyType,
    Sm4Request,
};
pub use crate::stream_cipher::{parse_bit_order, trivium_xor, BitOrder};
pub use crate::text::clean_whitespace;
