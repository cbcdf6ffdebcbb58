//! Numeric asset identifiers.
//!
//! Currencies are stored under compact numeric ids: the 32-bit FNV-1a hash of
//! a byte string, or of the host value of a symbol. The ids of the supported
//! corridor currencies are fixed, and `asset_id_to_symbol` maps an id back to
//! its currency symbol, inverting `symbol_to_asset_id` on those symbols.
use vstd::prelude::*;

use crate::types::AssetId;

verus! {

/// The FNV-1a offset basis.
pub const FNV_OFFSET_BASIS: u32 = 2166136261;

/// The FNV-1a prime.
pub const FNV_PRIME: u32 = 16777619;

/// One FNV-1a step: mix in `byte`, then multiply by the prime modulo 2^32.
#[verifier::opaque]
pub open spec fn fnv_step(hash: u32, byte: u8) -> u32 {
    (((hash ^ (byte as u32)) as nat * FNV_PRIME as nat) % 0x1_0000_0000) as u32
}

/// The 32-bit FNV-1a hash of `bytes`.
pub open spec fn fnv1a(bytes: Seq<u8>) -> u32
    decreases bytes.len(),
{
    if bytes.len() == 0 {
        FNV_OFFSET_BASIS
    } else {
        fnv_step(fnv1a(bytes.drop_last()), bytes.last())
    }
}

/// The eight bytes of a 64-bit host value, least significant first.
pub open spec fn payload_bytes(payload: u64) -> Seq<u8> {
    Seq::new(8, |i: int| ((payload >> ((i * 8) as u64)) & 0xffu64) as u8)
}

/// The asset id of the host value whose 64-bit payload is `payload`.
pub open spec fn asset_id_of_payload(payload: u64) -> AssetId {
    fnv1a(payload_bytes(payload))
}

/// A declaration of the host symbol type, carried through opaquely.
#[verifier::external_type_specification]
#[verifier::external_body]
pub struct ExSymbol(soroban_sdk::Symbol);

/// The 64-bit payload of a symbol's host value, as `Symbol::to_val` followed by
/// `Val::get_payload` reads it: the value's bits.
pub uninterp spec fn symbol_payload_of(symbol: soroban_sdk::Symbol) -> u64;

/// The inline symbol that `Symbol::short` builds for a text.
pub uninterp spec fn short_symbol_of(code: Seq<char>) -> soroban_sdk::Symbol;

/// Trusted: `soroban_sdk::Symbol::to_val` followed by `Val::get_payload`, the
/// 64-bit payload of a symbol's host value, named by `symbol_payload_of`.
#[verifier::external_body]
fn symbol_payload(symbol: &soroban_sdk::Symbol) -> (r: u64)
    ensures
        r == symbol_payload_of(*symbol),
{
    symbol.to_val().get_payload()
}

/// Whether `c` may appear in a symbol: an ASCII letter, digit or underscore.
pub open spec fn symbol_char(c: char) -> bool {
    ('a' <= c && c <= 'z') || ('A' <= c && c <= 'Z') || ('0' <= c && c <= '9') || c == '_'
}

/// Whether `s` fits in a short (inline) symbol: at most nine symbol characters.
pub open spec fn short_symbol_text(s: Seq<char>) -> bool {
    s.len() <= 9 && forall|i: int| 0 <= i < s.len() ==> symbol_char(#[trigger] s[i])
}

/// The six-bit code of a symbol character in an inline symbol.
pub open spec fn symbol_char_code(c: char) -> int {
    if c == '_' {
        1
    } else if '0' <= c && c <= '9' {
        2 + (c as int - '0' as int)
    } else if 'A' <= c && c <= 'Z' {
        12 + (c as int - 'A' as int)
    } else {
        38 + (c as int - 'a' as int)
    }
}

/// The body of an inline symbol: its characters' six-bit codes, first
/// character most significant.
pub open spec fn small_symbol_body(s: Seq<char>) -> int
    decreases s.len(),
{
    if s.len() == 0 {
        0
    } else {
        small_symbol_body(s.drop_last()) * 64 + symbol_char_code(s.last())
    }
}

/// The host value of an inline symbol: its body above the eight tag bits,
/// whose tag is 14.
pub open spec fn short_symbol_payload(s: Seq<char>) -> u64 {
    (small_symbol_body(s) * 256 + 14) as u64
}

/// Trusted: `soroban_sdk::Symbol::short`, the inline symbol for `code`, named by
/// `short_symbol_of`. It panics on text that does not fit in a short symbol,
/// which `requires` rules out. Its host value packs the characters' six-bit
/// codes above the tag 14, as `SymbolSmall::try_from_bytes` builds it.
#[verifier::external_body]
#[allow(deprecated)]
fn short_symbol(code: &str) -> (r: soroban_sdk::Symbol)
    requires
        short_symbol_text(code@),
    ensures
        r == short_symbol_of(code@),
        symbol_payload_of(r) == short_symbol_payload(code@),
{
    soroban_sdk::Symbol::short(code)
}

/// The asset id of the 64-bit host value `payload`: FNV-1a over its eight
/// bytes, least significant first.
pub fn asset_id_from_payload(payload: u64) -> (id: AssetId)
    ensures
        id == asset_id_of_payload(payload),
{
    let mut hash: u32 = FNV_OFFSET_BASIS;
    let mut i: u64 = 0;
    while i < 8
        invariant
            i <= 8,
            hash == fnv1a(payload_bytes(payload).subrange(0, i as int)),
        decreases 8 - i,
    {
        let byte = ((payload >> (i * 8)) & 0xff) as u8;
        proof {
            let s = payload_bytes(payload).subrange(0, i + 1);
            assert(s.drop_last() =~= payload_bytes(payload).subrange(0, i as int));
            assert(s.last() == byte);
            reveal(fnv_step);
        }
        hash = (hash ^ (byte as u32)).wrapping_mul(FNV_PRIME);
        i = i + 1;
    }
    assert(payload_bytes(payload).subrange(0, 8) =~= payload_bytes(payload));
    hash
}

/// Convert a currency symbol to its numeric asset id: FNV-1a over the eight
/// bytes of the symbol's host value.
pub fn symbol_to_asset_id(symbol: &soroban_sdk::Symbol) -> (id: AssetId)
    ensures
        id == asset_id_of_payload(symbol_payload_of(*symbol)),
{
    let payload = symbol_payload(symbol);
    asset_id_from_payload(payload)
}

/// The asset id of a byte string: its FNV-1a hash.
pub fn symbol_to_asset_id_const(bytes: &[u8]) -> (id: u32)
    ensures
        id == fnv1a(bytes@),
{
    let mut hash: u32 = FNV_OFFSET_BASIS;
    let mut i: usize = 0;
    while i < bytes.len()
        invariant
            i <= bytes@.len(),
            hash == fnv1a(bytes@.subrange(0, i as int)),
        decreases bytes@.len() - i,
    {
        proof {
            let s = bytes@.subrange(0, i + 1);
            assert(s.drop_last() =~= bytes@.subrange(0, i as int));
            reveal(fnv_step);
        }
        hash = (hash ^ (bytes[i] as u32)).wrapping_mul(FNV_PRIME);
        i = i + 1;
    }
    assert(bytes@.subrange(0, bytes@.len() as int) =~= bytes@);
    hash
}

/// The corridor currencies with a fixed asset id.
#[derive(Copy, Clone, Debug, PartialEq, Eq, Structural)]
pub enum Currency {
    NGN,
    GHS,
    CFA,
    KES,
    ZAR,
    UGX,
}

/// Asset id of NGN: the FNV-1a hash of its code.
pub const ID_NGN: u32 = 2447021828;
/// Asset id of GHS: the FNV-1a hash of its code.
pub const ID_GHS: u32 = 3556963579;
/// Asset id of CFA: the FNV-1a hash of its code.
pub const ID_CFA: u32 = 1548799911;
/// Asset id of KES: the FNV-1a hash of its code.
pub const ID_KES: u32 = 3066754186;
/// Asset id of ZAR: the FNV-1a hash of its code.
pub const ID_ZAR: u32 = 533790082;
/// Asset id of UGX: the FNV-1a hash of its code.
pub const ID_UGX: u32 = 2275236599;

impl Currency {
    /// The three-letter code of the currency, as bytes.
    pub open spec fn code_bytes(self) -> Seq<u8> {
        match self {
            Currency::NGN => seq![78u8, 71u8, 78u8],
            Currency::GHS => seq![71u8, 72u8, 83u8],
            Currency::CFA => seq![67u8, 70u8, 65u8],
            Currency::KES => seq![75u8, 69u8, 83u8],
            Currency::ZAR => seq![90u8, 65u8, 82u8],
            Currency::UGX => seq![85u8, 71u8, 88u8],
        }
    }

    /// The three-letter code of the currency, as text.
    pub open spec fn code_text(self) -> Seq<char> {
        match self {
            Currency::NGN => seq!['N', 'G', 'N'],
            Currency::GHS => seq!['G', 'H', 'S'],
            Currency::CFA => seq!['C', 'F', 'A'],
            Currency::KES => seq!['K', 'E', 'S'],
            Currency::ZAR => seq!['Z', 'A', 'R'],
            Currency::UGX => seq!['U', 'G', 'X'],
        }
    }

    /// The three-letter code of the currency.
    pub fn code(&self) -> (s: &'static str)
        ensures
            s@ == self.code_text(),
    {
        match self {
            Currency::NGN => {
                proof { reveal_strlit("NGN"); }
                "NGN"
            },
            Currency::GHS => {
                proof { reveal_strlit("GHS"); }
                "GHS"
            },
            Currency::CFA => {
                proof { reveal_strlit("CFA"); }
                "CFA"
            },
            Currency::KES => {
                proof { reveal_strlit("KES"); }
                "KES"
            },
            Currency::ZAR => {
                proof { reveal_strlit("ZAR"); }
                "ZAR"
            },
            Currency::UGX => {
                proof { reveal_strlit("UGX"); }
                "UGX"
            },
        }
    }

    /// The asset id that `symbol_to_asset_id` gives the currency's inline
    /// symbol: the FNV-1a hash of that symbol's host value.
    pub open spec fn symbol_id(self) -> u32 {
        match self {
            Currency::NGN => 303994223,
            Currency::GHS => 2699528942,
            Currency::CFA => 2565893355,
            Currency::KES => 3418146798,
            Currency::ZAR => 4172338181,
            Currency::UGX => 3788880796,
        }
    }

    /// The legacy asset id kept for the currency's older stored data.
    pub open spec fn legacy_id(self) -> u32 {
        match self {
            Currency::NGN => 3897123275,
            Currency::GHS => 4026531840,
            Currency::CFA => 4160749568,
            Currency::KES => 2654435761,
            Currency::ZAR => 3219226362,
            Currency::UGX => 2863311530,
        }
    }

    /// Whether `id` is one of the ids that stand for the currency: its fixed
    /// id, its legacy id, or the id of its inline symbol.
    pub open spec fn has_id(self, id: u32) -> bool {
        id == self.asset_id() || id == self.legacy_id() || id == self.symbol_id()
    }

    /// The currency's asset id.
    pub open spec fn asset_id(self) -> u32 {
        match self {
            Currency::NGN => ID_NGN,
            Currency::GHS => ID_GHS,
            Currency::CFA => ID_CFA,
            Currency::KES => ID_KES,
            Currency::ZAR => ID_ZAR,
            Currency::UGX => ID_UGX,
        }
    }
}

/// The currency that `asset_id` stands for: one of the fixed ids, one of the
/// legacy ids kept for older stored data, or the id that `symbol_to_asset_id`
/// gives the currency's inline symbol.
pub open spec fn currency_of(asset_id: u32) -> Option<Currency> {
    if asset_id == ID_NGN {
        Some(Currency::NGN)
    } else if asset_id == ID_GHS {
        Some(Currency::GHS)
    } else if asset_id == ID_CFA {
        Some(Currency::CFA)
    } else if asset_id == ID_KES {
        Some(Currency::KES)
    } else if asset_id == ID_ZAR {
        Some(Currency::ZAR)
    } else if asset_id == ID_UGX {
        Some(Currency::UGX)
    } else if asset_id == 3897123275 {
        Some(Currency::NGN)
    } else if asset_id == 4026531840 {
        Some(Currency::GHS)
    } else if asset_id == 4160749568 {
        Some(Currency::CFA)
    } else if asset_id == 2654435761 {
        Some(Currency::KES)
    } else if asset_id == 3219226362 {
        Some(Currency::ZAR)
    } else if asset_id == 2863311530 {
        Some(Currency::UGX)
    } else if asset_id == 303994223 {
        Some(Currency::NGN)
    } else if asset_id == 2699528942 {
        Some(Currency::GHS)
    } else if asset_id == 2565893355 {
        Some(Currency::CFA)
    } else if asset_id == 3418146798 {
        Some(Currency::KES)
    } else if asset_id == 4172338181 {
        Some(Currency::ZAR)
    } else if asset_id == 3788880796 {
        Some(Currency::UGX)
    } else {
        None
    }
}

/// The currency that `asset_id` stands for, if any.
pub fn currency_of_asset_id(asset_id: u32) -> (r: Option<Currency>)
    ensures
        r == currency_of(asset_id),
        forall|c: Currency| #[trigger] c.has_id(asset_id) ==> r == Some(c),
        r is None ==> forall|c: Currency| !(#[trigger] c.has_id(asset_id)),
{
    if asset_id == ID_NGN {
        Some(Currency::NGN)
    } else if asset_id == ID_GHS {
        Some(Currency::GHS)
    } else if asset_id == ID_CFA {
        Some(Currency::CFA)
    } else if asset_id == ID_KES {
        Some(Currency::KES)
    } else if asset_id == ID_ZAR {
        Some(Currency::ZAR)
    } else if asset_id == ID_UGX {
        Some(Currency::UGX)
    } else if asset_id == 3897123275 {
        Some(Currency::NGN)
    } else if asset_id == 4026531840 {
        Some(Currency::GHS)
    } else if asset_id == 4160749568 {
        Some(Currency::CFA)
    } else if asset_id == 2654435761 {
        Some(Currency::KES)
    } else if asset_id == 3219226362 {
        Some(Currency::ZAR)
    } else if asset_id == 2863311530 {
        Some(Currency::UGX)
    } else if asset_id == 303994223 {
        Some(Currency::NGN)
    } else if asset_id == 2699528942 {
        Some(Currency::GHS)
    } else if asset_id == 2565893355 {
        Some(Currency::CFA)
    } else if asset_id == 3418146798 {
        Some(Currency::KES)
    } else if asset_id == 4172338181 {
        Some(Currency::ZAR)
    } else if asset_id == 3788880796 {
        Some(Currency::UGX)
    } else {
        None
    }
}

/// The currency symbol that `asset_id` stands for. An id that stands for no
/// currency has no symbol: the contract panics on one, so it is ruled out here.
pub fn asset_id_to_symbol(asset_id: u32) -> (r: soroban_sdk::Symbol)
    requires
        currency_of(asset_id) is Some,
    ensures
        r == short_symbol_of(currency_of(asset_id).unwrap().code_text()),
        symbol_payload_of(r) == short_symbol_payload(currency_of(asset_id).unwrap().code_text()),
{
    let c = currency_of_asset_id(asset_id).unwrap();
    let code = c.code();
    proof {
        assert(short_symbol_text(c.code_text()));
    }
    short_symbol(code)
}

/// FNV-1a of three bytes, step by step.
proof fn lemma_fnv_three(a: u8, b: u8, c: u8)
    ensures
        fnv1a(seq![a, b, c]) == fnv_step(fnv_step(fnv_step(FNV_OFFSET_BASIS, a), b), c),
{
    let s = seq![a, b, c];
    assert(s.drop_last() =~= seq![a, b]);
    assert(seq![a, b].drop_last() =~= seq![a]);
    assert(seq![a].drop_last() =~= Seq::<u8>::empty());
    assert(fnv1a(Seq::<u8>::empty()) == FNV_OFFSET_BASIS);
    assert(fnv1a(seq![a]) == fnv_step(FNV_OFFSET_BASIS, a));
    assert(fnv1a(seq![a, b]) == fnv_step(fnv_step(FNV_OFFSET_BASIS, a), b));
}

/// One FNV-1a step on known values.
proof fn lemma_fnv_step_value(hash: u32, byte: u8, mixed: u32, result: u32)
    requires
        hash ^ (byte as u32) == mixed,
        (mixed as nat * FNV_PRIME as nat) % 0x1_0000_0000 == result,
    ensures
        fnv_step(hash, byte) == result,
{
    reveal(fnv_step);
}

proof fn lemma_id_ngn()
    ensures
        fnv1a(Currency::NGN.code_bytes()) == ID_NGN,
{
    lemma_fnv_three(78u8, 71u8, 78u8);
    assert(2166136261u32 ^ 78u32 == 2166136203u32) by (bit_vector);
    lemma_fnv_step_value(2166136261u32, 78u8, 2166136203u32, 3406561745u32);
    assert(3406561745u32 ^ 71u32 == 3406561686u32) by (bit_vector);
    lemma_fnv_step_value(3406561745u32, 71u8, 3406561686u32, 971407138u32);
    assert(971407138u32 ^ 78u32 == 971407212u32) by (bit_vector);
    lemma_fnv_step_value(971407138u32, 78u8, 971407212u32, 2447021828u32);
}

proof fn lemma_id_ghs()
    ensures
        fnv1a(Currency::GHS.code_bytes()) == ID_GHS,
{
    lemma_fnv_three(71u8, 72u8, 83u8);
    assert(2166136261u32 ^ 71u32 == 2166136194u32) by (bit_vector);
    lemma_fnv_step_value(2166136261u32, 71u8, 2166136194u32, 3255563174u32);
    assert(3255563174u32 ^ 72u32 == 3255563246u32) by (bit_vector);
    lemma_fnv_step_value(3255563174u32, 72u8, 3255563246u32, 1724972970u32);
    assert(1724972970u32 ^ 83u32 == 1724973049u32) by (bit_vector);
    lemma_fnv_step_value(1724972970u32, 83u8, 1724973049u32, 3556963579u32);
}

proof fn lemma_id_cfa()
    ensures
        fnv1a(Currency::CFA.code_bytes()) == ID_CFA,
{
    lemma_fnv_three(67u8, 70u8, 65u8);
    assert(2166136261u32 ^ 67u32 == 2166136198u32) by (bit_vector);
    lemma_fnv_step_value(2166136261u32, 67u8, 2166136198u32, 3322673650u32);
    assert(3322673650u32 ^ 70u32 == 3322673588u32) by (bit_vector);
    lemma_fnv_step_value(3322673650u32, 70u8, 3322673588u32, 2027558492u32);
    assert(2027558492u32 ^ 65u32 == 2027558429u32) by (bit_vector);
    lemma_fnv_step_value(2027558492u32, 65u8, 2027558429u32, 1548799911u32);
}

proof fn lemma_id_kes()
    ensures
        fnv1a(Currency::KES.code_bytes()) == ID_KES,
{
    lemma_fnv_three(75u8, 69u8, 83u8);
    assert(2166136261u32 ^ 75u32 == 2166136206u32) by (bit_vector);
    lemma_fnv_step_value(2166136261u32, 75u8, 2166136206u32, 3456894602u32);
    assert(3456894602u32 ^ 69u32 == 3456894671u32) by (bit_vector);
    lemma_fnv_step_value(3456894602u32, 69u8, 3456894671u32, 737064925u32);
    assert(737064925u32 ^ 83u32 == 737064846u32) by (bit_vector);
    lemma_fnv_step_value(737064925u32, 83u8, 737064846u32, 3066754186u32);
}

proof fn lemma_id_zar()
    ensures
        fnv1a(Currency::ZAR.code_bytes()) == ID_ZAR,
{
    lemma_fnv_three(90u8, 65u8, 82u8);
    assert(2166136261u32 ^ 90u32 == 2166136223u32) by (bit_vector);
    lemma_fnv_step_value(2166136261u32, 90u8, 2166136223u32, 3742114125u32);
    assert(3742114125u32 ^ 65u32 == 3742114060u32) by (bit_vector);
    lemma_fnv_step_value(3742114125u32, 65u8, 3742114060u32, 739771876u32);
    assert(739771876u32 ^ 82u32 == 739771830u32) by (bit_vector);
    lemma_fnv_step_value(739771876u32, 82u8, 739771830u32, 533790082u32);
}

proof fn lemma_id_ugx()
    ensures
        fnv1a(Currency::UGX.code_bytes()) == ID_UGX,
{
    lemma_fnv_three(85u8, 71u8, 88u8);
    assert(2166136261u32 ^ 85u32 == 2166136208u32) by (bit_vector);
    lemma_fnv_step_value(2166136261u32, 85u8, 2166136208u32, 3490449840u32);
    assert(3490449840u32 ^ 71u32 == 3490449911u32) by (bit_vector);
    lemma_fnv_step_value(3490449840u32, 71u8, 3490449911u32, 2046013397u32);
    assert(2046013397u32 ^ 88u32 == 2046013325u32) by (bit_vector);
    lemma_fnv_step_value(2046013397u32, 88u8, 2046013325u32, 2275236599u32);
}
/// FNV-1a of eight bytes, step by step.
proof fn lemma_fnv_eight(b: Seq<u8>)
    requires
        b.len() == 8,
    ensures
        fnv1a(b) == fnv_step(
            fnv_step(
                fnv_step(
                    fnv_step(
                        fnv_step(fnv_step(fnv_step(fnv_step(FNV_OFFSET_BASIS, b[0]), b[1]), b[2]), b[3]),
                        b[4],
                    ),
                    b[5],
                ),
                b[6],
            ),
            b[7],
        ),
{
    assert forall|j: int| 1 <= j <= 8 implies fnv1a(#[trigger] b.subrange(0, j)) == fnv_step(
        fnv1a(b.subrange(0, j - 1)),
        b[j - 1],
    ) by {
        assert(b.subrange(0, j).drop_last() =~= b.subrange(0, j - 1));
    }
    assert(b.subrange(0, 0) =~= Seq::<u8>::empty());
    assert(fnv1a(b.subrange(0, 1)) == fnv_step(FNV_OFFSET_BASIS, b[0]));
    assert(fnv1a(b.subrange(0, 2)) == fnv_step(fnv1a(b.subrange(0, 1)), b[1]));
    assert(fnv1a(b.subrange(0, 3)) == fnv_step(fnv1a(b.subrange(0, 2)), b[2]));
    assert(fnv1a(b.subrange(0, 4)) == fnv_step(fnv1a(b.subrange(0, 3)), b[3]));
    assert(fnv1a(b.subrange(0, 5)) == fnv_step(fnv1a(b.subrange(0, 4)), b[4]));
    assert(fnv1a(b.subrange(0, 6)) == fnv_step(fnv1a(b.subrange(0, 5)), b[5]));
    assert(fnv1a(b.subrange(0, 7)) == fnv_step(fnv1a(b.subrange(0, 6)), b[6]));
    assert(fnv1a(b.subrange(0, 8)) == fnv_step(fnv1a(b.subrange(0, 7)), b[7]));
    assert(b.subrange(0, 8) =~= b);
}

/// The eight bytes of a payload whose bytes are known.
proof fn lemma_bytes_of_payload(p: u64, b: Seq<u8>)
    requires
        b.len() == 8,
        (p >> 0u64) & 0xffu64 == b[0] as u64,
        (p >> 8u64) & 0xffu64 == b[1] as u64,
        (p >> 16u64) & 0xffu64 == b[2] as u64,
        (p >> 24u64) & 0xffu64 == b[3] as u64,
        (p >> 32u64) & 0xffu64 == b[4] as u64,
        (p >> 40u64) & 0xffu64 == b[5] as u64,
        (p >> 48u64) & 0xffu64 == b[6] as u64,
        (p >> 56u64) & 0xffu64 == b[7] as u64,
    ensures
        payload_bytes(p) == b,
{
    assert forall|i: int| 0 <= i < 8 implies payload_bytes(p)[i] == b[i] by {
        if i == 0 {
            assert(((i * 8) as u64) == 0u64);
        } else if i == 1 {
            assert(((i * 8) as u64) == 8u64);
        } else if i == 2 {
            assert(((i * 8) as u64) == 16u64);
        } else if i == 3 {
            assert(((i * 8) as u64) == 24u64);
        } else if i == 4 {
            assert(((i * 8) as u64) == 32u64);
        } else if i == 5 {
            assert(((i * 8) as u64) == 40u64);
        } else if i == 6 {
            assert(((i * 8) as u64) == 48u64);
        } else {
            assert(((i * 8) as u64) == 56u64);
        }
    }
    assert(payload_bytes(p) =~= b);
}

/// The host value of a three-character inline symbol.
proof fn lemma_short_payload_three(a: char, b: char, c: char)
    ensures
        small_symbol_body(seq![a, b, c]) == (symbol_char_code(a) * 64 + symbol_char_code(b)) * 64
            + symbol_char_code(c),
{
    let s = seq![a, b, c];
    assert(s.drop_last() =~= seq![a, b]);
    assert(seq![a, b].drop_last() =~= seq![a]);
    assert(seq![a].drop_last() =~= Seq::<char>::empty());
    assert(small_symbol_body(Seq::<char>::empty()) == 0);
    assert(small_symbol_body(seq![a]) == symbol_char_code(a));
    assert(small_symbol_body(seq![a, b]) == symbol_char_code(a) * 64 + symbol_char_code(b));
}

proof fn lemma_symbol_id_ngn()
    ensures
        asset_id_of_payload(short_symbol_payload(Currency::NGN.code_text())) == Currency::NGN.symbol_id(),
{
    lemma_short_payload_three('N', 'G', 'N');
    assert(short_symbol_payload(Currency::NGN.code_text()) == 0x194990eu64);
    assert({
        &&& (0x194990eu64 >> 0u64) & 0xffu64 == 14u64
        &&& (0x194990eu64 >> 8u64) & 0xffu64 == 153u64
        &&& (0x194990eu64 >> 16u64) & 0xffu64 == 148u64
        &&& (0x194990eu64 >> 24u64) & 0xffu64 == 1u64
        &&& (0x194990eu64 >> 32u64) & 0xffu64 == 0u64
        &&& (0x194990eu64 >> 40u64) & 0xffu64 == 0u64
        &&& (0x194990eu64 >> 48u64) & 0xffu64 == 0u64
        &&& (0x194990eu64 >> 56u64) & 0xffu64 == 0u64
    }) by (bit_vector);
    let b = seq![14u8, 153u8, 148u8, 1u8, 0u8, 0u8, 0u8, 0u8];
    lemma_bytes_of_payload(0x194990eu64, b);
    lemma_fnv_eight(b);
    assert({
        &&& 2166136261u32 ^ 14u32 == 2166136267u32
        &&& 185362065u32 ^ 153u32 == 185361928u32
        &&& 1820630680u32 ^ 148u32 == 1820630540u32
        &&& 3770993892u32 ^ 1u32 == 3770993893u32
        &&& 3134098559u32 ^ 0u32 == 3134098559u32
        &&& 2452040685u32 ^ 0u32 == 2452040685u32
        &&& 11150871u32 ^ 0u32 == 11150871u32
        &&& 584709685u32 ^ 0u32 == 584709685u32
    }) by (bit_vector);
    lemma_fnv_step_value(2166136261u32, 14u8, 2166136267u32, 185362065u32);
    lemma_fnv_step_value(185362065u32, 153u8, 185361928u32, 1820630680u32);
    lemma_fnv_step_value(1820630680u32, 148u8, 1820630540u32, 3770993892u32);
    lemma_fnv_step_value(3770993892u32, 1u8, 3770993893u32, 3134098559u32);
    lemma_fnv_step_value(3134098559u32, 0u8, 3134098559u32, 2452040685u32);
    lemma_fnv_step_value(2452040685u32, 0u8, 2452040685u32, 11150871u32);
    lemma_fnv_step_value(11150871u32, 0u8, 11150871u32, 584709685u32);
    lemma_fnv_step_value(584709685u32, 0u8, 584709685u32, 303994223u32);
}

proof fn lemma_symbol_id_ghs()
    ensures
        asset_id_of_payload(short_symbol_payload(Currency::GHS.code_text())) == Currency::GHS.symbol_id(),
{
    lemma_short_payload_three('G', 'H', 'S');
    assert(short_symbol_payload(Currency::GHS.code_text()) == 0x124de0eu64);
    assert({
        &&& (0x124de0eu64 >> 0u64) & 0xffu64 == 14u64
        &&& (0x124de0eu64 >> 8u64) & 0xffu64 == 222u64
        &&& (0x124de0eu64 >> 16u64) & 0xffu64 == 36u64
        &&& (0x124de0eu64 >> 24u64) & 0xffu64 == 1u64
        &&& (0x124de0eu64 >> 32u64) & 0xffu64 == 0u64
        &&& (0x124de0eu64 >> 40u64) & 0xffu64 == 0u64
        &&& (0x124de0eu64 >> 48u64) & 0xffu64 == 0u64
        &&& (0x124de0eu64 >> 56u64) & 0xffu64 == 0u64
    }) by (bit_vector);
    let b = seq![14u8, 222u8, 36u8, 1u8, 0u8, 0u8, 0u8, 0u8];
    lemma_bytes_of_payload(0x124de0eu64, b);
    lemma_fnv_eight(b);
    assert({
        &&& 2166136261u32 ^ 14u32 == 2166136267u32
        &&& 185362065u32 ^ 222u32 == 185361999u32
        &&& 3011841629u32 ^ 36u32 == 3011841657u32
        &&& 326486139u32 ^ 1u32 == 326486138u32
        &&& 476747790u32 ^ 0u32 == 476747790u32
        &&& 3385679370u32 ^ 0u32 == 3385679370u32
        &&& 3091925438u32 ^ 0u32 == 3091925438u32
        &&& 3693106714u32 ^ 0u32 == 3693106714u32
    }) by (bit_vector);
    lemma_fnv_step_value(2166136261u32, 14u8, 2166136267u32, 185362065u32);
    lemma_fnv_step_value(185362065u32, 222u8, 185361999u32, 3011841629u32);
    lemma_fnv_step_value(3011841629u32, 36u8, 3011841657u32, 326486139u32);
    lemma_fnv_step_value(326486139u32, 1u8, 326486138u32, 476747790u32);
    lemma_fnv_step_value(476747790u32, 0u8, 476747790u32, 3385679370u32);
    lemma_fnv_step_value(3385679370u32, 0u8, 3385679370u32, 3091925438u32);
    lemma_fnv_step_value(3091925438u32, 0u8, 3091925438u32, 3693106714u32);
    lemma_fnv_step_value(3693106714u32, 0u8, 3693106714u32, 2699528942u32);
}

proof fn lemma_symbol_id_cfa()
    ensures
        asset_id_of_payload(short_symbol_payload(Currency::CFA.code_text())) == Currency::CFA.symbol_id(),
{
    lemma_short_payload_three('C', 'F', 'A');
    assert(short_symbol_payload(Currency::CFA.code_text()) == 0xe44c0eu64);
    assert({
        &&& (0xe44c0eu64 >> 0u64) & 0xffu64 == 14u64
        &&& (0xe44c0eu64 >> 8u64) & 0xffu64 == 76u64
        &&& (0xe44c0eu64 >> 16u64) & 0xffu64 == 228u64
        &&& (0xe44c0eu64 >> 24u64) & 0xffu64 == 0u64
        &&& (0xe44c0eu64 >> 32u64) & 0xffu64 == 0u64
        &&& (0xe44c0eu64 >> 40u64) & 0xffu64 == 0u64
        &&& (0xe44c0eu64 >> 48u64) & 0xffu64 == 0u64
        &&& (0xe44c0eu64 >> 56u64) & 0xffu64 == 0u64
    }) by (bit_vector);
    let b = seq![14u8, 76u8, 228u8, 0u8, 0u8, 0u8, 0u8, 0u8];
    lemma_bytes_of_payload(0xe44c0eu64, b);
    lemma_fnv_eight(b);
    assert({
        &&& 2166136261u32 ^ 14u32 == 2166136267u32
        &&& 185362065u32 ^ 76u32 == 185362141u32
        &&& 1099296231u32 ^ 228u32 == 1099296003u32
        &&& 684989369u32 ^ 0u32 == 684989369u32
        &&& 4276593723u32 ^ 0u32 == 4276593723u32
        &&& 2175240417u32 ^ 0u32 == 2175240417u32
        &&& 4223433267u32 ^ 0u32 == 4223433267u32
        &&& 2092195401u32 ^ 0u32 == 2092195401u32
    }) by (bit_vector);
    lemma_fnv_step_value(2166136261u32, 14u8, 2166136267u32, 185362065u32);
    lemma_fnv_step_value(185362065u32, 76u8, 185362141u32, 1099296231u32);
    lemma_fnv_step_value(1099296231u32, 228u8, 1099296003u32, 684989369u32);
    lemma_fnv_step_value(684989369u32, 0u8, 684989369u32, 4276593723u32);
    lemma_fnv_step_value(4276593723u32, 0u8, 4276593723u32, 2175240417u32);
    lemma_fnv_step_value(2175240417u32, 0u8, 2175240417u32, 4223433267u32);
    lemma_fnv_step_value(4223433267u32, 0u8, 4223433267u32, 2092195401u32);
    lemma_fnv_step_value(2092195401u32, 0u8, 2092195401u32, 2565893355u32);
}

proof fn lemma_symbol_id_kes()
    ensures
        asset_id_of_payload(short_symbol_payload(Currency::KES.code_text())) == Currency::KES.symbol_id(),
{
    lemma_short_payload_three('K', 'E', 'S');
    assert(short_symbol_payload(Currency::KES.code_text()) == 0x1641e0eu64);
    assert({
        &&& (0x1641e0eu64 >> 0u64) & 0xffu64 == 14u64
        &&& (0x1641e0eu64 >> 8u64) & 0xffu64 == 30u64
        &&& (0x1641e0eu64 >> 16u64) & 0xffu64 == 100u64
        &&& (0x1641e0eu64 >> 24u64) & 0xffu64 == 1u64
        &&& (0x1641e0eu64 >> 32u64) & 0xffu64 == 0u64
        &&& (0x1641e0eu64 >> 40u64) & 0xffu64 == 0u64
        &&& (0x1641e0eu64 >> 48u64) & 0xffu64 == 0u64
        &&& (0x1641e0eu64 >> 56u64) & 0xffu64 == 0u64
    }) by (bit_vector);
    let b = seq![14u8, 30u8, 100u8, 1u8, 0u8, 0u8, 0u8, 0u8];
    lemma_bytes_of_payload(0x1641e0eu64, b);
    lemma_fnv_eight(b);
    assert({
        &&& 2166136261u32 ^ 14u32 == 2166136267u32
        &&& 185362065u32 ^ 30u32 == 185362063u32
        &&& 4085609245u32 ^ 100u32 == 4085609337u32
        &&& 3558131579u32 ^ 1u32 == 3558131578u32
        &&& 1454769422u32 ^ 0u32 == 1454769422u32
        &&& 2391405834u32 ^ 0u32 == 2391405834u32
        &&& 1831648958u32 ^ 0u32 == 1831648958u32
        &&& 2607826202u32 ^ 0u32 == 2607826202u32
    }) by (bit_vector);
    lemma_fnv_step_value(2166136261u32, 14u8, 2166136267u32, 185362065u32);
    lemma_fnv_step_value(185362065u32, 30u8, 185362063u32, 4085609245u32);
    lemma_fnv_step_value(4085609245u32, 100u8, 4085609337u32, 3558131579u32);
    lemma_fnv_step_value(3558131579u32, 1u8, 3558131578u32, 1454769422u32);
    lemma_fnv_step_value(1454769422u32, 0u8, 1454769422u32, 2391405834u32);
    lemma_fnv_step_value(2391405834u32, 0u8, 2391405834u32, 1831648958u32);
    lemma_fnv_step_value(1831648958u32, 0u8, 1831648958u32, 2607826202u32);
    lemma_fnv_step_value(2607826202u32, 0u8, 2607826202u32, 3418146798u32);
}

proof fn lemma_symbol_id_zar()
    ensures
        asset_id_of_payload(short_symbol_payload(Currency::ZAR.code_text())) == Currency::ZAR.symbol_id(),
{
    lemma_short_payload_three('Z', 'A', 'R');
    assert(short_symbol_payload(Currency::ZAR.code_text()) == 0x2531d0eu64);
    assert({
        &&& (0x2531d0eu64 >> 0u64) & 0xffu64 == 14u64
        &&& (0x2531d0eu64 >> 8u64) & 0xffu64 == 29u64
        &&& (0x2531d0eu64 >> 16u64) & 0xffu64 == 83u64
        &&& (0x2531d0eu64 >> 24u64) & 0xffu64 == 2u64
        &&& (0x2531d0eu64 >> 32u64) & 0xffu64 == 0u64
        &&& (0x2531d0eu64 >> 40u64) & 0xffu64 == 0u64
        &&& (0x2531d0eu64 >> 48u64) & 0xffu64 == 0u64
        &&& (0x2531d0eu64 >> 56u64) & 0xffu64 == 0u64
    }) by (bit_vector);
    let b = seq![14u8, 29u8, 83u8, 2u8, 0u8, 0u8, 0u8, 0u8];
    lemma_bytes_of_payload(0x2531d0eu64, b);
    lemma_fnv_eight(b);
    assert({
        &&& 2166136261u32 ^ 14u32 == 2166136267u32
        &&& 185362065u32 ^ 29u32 == 185362060u32
        &&& 4035276388u32 ^ 83u32 == 4035276343u32
        &&& 3641475221u32 ^ 2u32 == 3641475223u32
        &&& 1169059253u32 ^ 0u32 == 1169059253u32
        &&& 1721152495u32 ^ 0u32 == 1721152495u32
        &&& 1849508157u32 ^ 0u32 == 1849508157u32
        &&& 3345855239u32 ^ 0u32 == 3345855239u32
    }) by (bit_vector);
    lemma_fnv_step_value(2166136261u32, 14u8, 2166136267u32, 185362065u32);
    lemma_fnv_step_value(185362065u32, 29u8, 185362060u32, 4035276388u32);
    lemma_fnv_step_value(4035276388u32, 83u8, 4035276343u32, 3641475221u32);
    lemma_fnv_step_value(3641475221u32, 2u8, 3641475223u32, 1169059253u32);
    lemma_fnv_step_value(1169059253u32, 0u8, 1169059253u32, 1721152495u32);
    lemma_fnv_step_value(1721152495u32, 0u8, 1721152495u32, 1849508157u32);
    lemma_fnv_step_value(1849508157u32, 0u8, 1849508157u32, 3345855239u32);
    lemma_fnv_step_value(3345855239u32, 0u8, 3345855239u32, 4172338181u32);
}

proof fn lemma_symbol_id_ugx()
    ensures
        asset_id_of_payload(short_symbol_payload(Currency::UGX.code_text())) == Currency::UGX.symbol_id(),
{
    lemma_short_payload_three('U', 'G', 'X');
    assert(short_symbol_payload(Currency::UGX.code_text()) == 0x204a30eu64);
    assert({
        &&& (0x204a30eu64 >> 0u64) & 0xffu64 == 14u64
        &&& (0x204a30eu64 >> 8u64) & 0xffu64 == 163u64
        &&& (0x204a30eu64 >> 16u64) & 0xffu64 == 4u64
        &&& (0x204a30eu64 >> 24u64) & 0xffu64 == 2u64
        &&& (0x204a30eu64 >> 32u64) & 0xffu64 == 0u64
        &&& (0x204a30eu64 >> 40u64) & 0xffu64 == 0u64
        &&& (0x204a30eu64 >> 48u64) & 0xffu64 == 0u64
        &&& (0x204a30eu64 >> 56u64) & 0xffu64 == 0u64
    }) by (bit_vector);
    let b = seq![14u8, 163u8, 4u8, 2u8, 0u8, 0u8, 0u8, 0u8];
    lemma_bytes_of_payload(0x204a30eu64, b);
    lemma_fnv_eight(b);
    assert({
        &&& 2166136261u32 ^ 14u32 == 2166136267u32
        &&& 185362065u32 ^ 163u32 == 185361970u32
        &&& 2525290678u32 ^ 4u32 == 2525290674u32
        &&& 2771236918u32 ^ 2u32 == 2771236916u32
        &&& 989395420u32 ^ 0u32 == 989395420u32
        &&& 2985383252u32 ^ 0u32 == 2985383252u32
        &&& 1927893820u32 ^ 0u32 == 1927893820u32
        &&& 558761844u32 ^ 0u32 == 558761844u32
    }) by (bit_vector);
    lemma_fnv_step_value(2166136261u32, 14u8, 2166136267u32, 185362065u32);
    lemma_fnv_step_value(185362065u32, 163u8, 185361970u32, 2525290678u32);
    lemma_fnv_step_value(2525290678u32, 4u8, 2525290674u32, 2771236918u32);
    lemma_fnv_step_value(2771236918u32, 2u8, 2771236916u32, 989395420u32);
    lemma_fnv_step_value(989395420u32, 0u8, 989395420u32, 2985383252u32);
    lemma_fnv_step_value(2985383252u32, 0u8, 2985383252u32, 1927893820u32);
    lemma_fnv_step_value(1927893820u32, 0u8, 1927893820u32, 558761844u32);
    lemma_fnv_step_value(558761844u32, 0u8, 558761844u32, 3788880796u32);
}

/// The inline symbol of each currency hashes to its symbol id, and reading that
/// id back gives the currency: `asset_id_to_symbol` inverts `symbol_to_asset_id`
/// on the currencies' symbols.
pub proof fn law_symbol_ids_round_trip(c: Currency)
    ensures
        short_symbol_text(c.code_text()),
        asset_id_of_payload(short_symbol_payload(c.code_text())) == c.symbol_id(),
        currency_of(c.symbol_id()) == Some(c),
{
    match c {
        Currency::NGN => lemma_symbol_id_ngn(),
        Currency::GHS => lemma_symbol_id_ghs(),
        Currency::CFA => lemma_symbol_id_cfa(),
        Currency::KES => lemma_symbol_id_kes(),
        Currency::ZAR => lemma_symbol_id_zar(),
        Currency::UGX => lemma_symbol_id_ugx(),
    }
}

/// Each of a currency's ids (fixed, legacy, and that of its inline symbol)
/// stands for that currency and for no other, and an id that stands for a
/// currency is one of that currency's ids.
pub proof fn law_currency_ids_are_its_own(c: Currency, id: u32)
    ensures
        currency_of(c.asset_id()) == Some(c),
        currency_of(c.legacy_id()) == Some(c),
        currency_of(c.symbol_id()) == Some(c),
        c.has_id(id) ==> currency_of(id) == Some(c),
        currency_of(id) == Some(c) ==> c.has_id(id),
{
}

/// The fixed id of each currency is the FNV-1a hash of its code, and reading
/// that id back gives the currency.
pub proof fn law_currency_ids_round_trip(c: Currency)
    ensures
        fnv1a(c.code_bytes()) == c.asset_id(),
        currency_of(c.asset_id()) == Some(c),
{
    match c {
        Currency::NGN => lemma_id_ngn(),
        Currency::GHS => lemma_id_ghs(),
        Currency::CFA => lemma_id_cfa(),
        Currency::KES => lemma_id_kes(),
        Currency::ZAR => lemma_id_zar(),
        Currency::UGX => lemma_id_ugx(),
    }
}

} // verus!
