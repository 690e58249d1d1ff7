//! Validation of token metadata and embedded logos: name and symbol
//! shape checks, the XML preamble check for SVG logos, and the PNG header
//! check, each with an exact byte-level contract.

use vstd::prelude::*;
use vstd::slice::slice_index_get;
use vstd::string::StringSliceAdditionalSpecFns;
use crate::error::ContractError;

verus! {

/// Maximum accepted embedded-logo size, in bytes.
pub const LOGO_SIZE_CAP: usize = 5 * 1024;

/// Length of the first chunk of `data` split inclusively at byte 62
/// (`'>'`): everything up to and including the first 62, or all of `data`
/// when no 62 occurs.
pub open spec fn preamble_len(data: Seq<u8>) -> int
    decreases data.len(),
{
    if data.len() == 0 {
        0
    } else if data[0] == 62 {
        1
    } else {
        1 + preamble_len(data.drop_first())
    }
}

/// The bytes of `"<?xml "`.
pub open spec fn xml_prefix() -> Seq<u8> {
    seq![60u8, 63u8, 120u8, 109u8, 108u8, 32u8]
}

/// The bytes of `"?>"`.
pub open spec fn xml_postfix() -> Seq<u8> {
    seq![63u8, 62u8]
}

/// Whether `data` opens with a well-formed XML preamble: it is non-empty,
/// and its first inclusive chunk at `'>'` starts with `"<?xml "` and ends
/// with `"?>"`.
pub open spec fn xml_preamble_ok(data: Seq<u8>) -> bool {
    let n = preamble_len(data);
    &&& data.len() > 0
    &&& n >= 6
    &&& data.subrange(0, 6) == xml_prefix()
    &&& data.subrange(n - 2, n) == xml_postfix()
}

/// The first 62 in `data` sits at `j` (or there is none and `j` is the
/// length): then the first inclusive chunk ends right after it.
proof fn lemma_preamble_len_at(data: Seq<u8>, j: int)
    requires
        0 <= j <= data.len(),
        forall|k: int| 0 <= k < j ==> data[k] != 62,
        j == data.len() || data[j] == 62,
    ensures
        preamble_len(data) == if j == data.len() {
            j
        } else {
            j + 1
        },
    decreases data.len(),
{
    if data.len() == 0 {
    } else if data[0] == 62 {
        assert(j == 0);
    } else {
        assert(data[0] != 62);
        assert(j >= 1);
        let d = data.drop_first();
        assert forall|k: int| 0 <= k < j - 1 implies d[k] != 62 by {
            assert(d[k] == data[k + 1]);
        }
        if j < data.len() {
            assert(d[j - 1] == data[j]);
        }
        lemma_preamble_len_at(d, j - 1);
    }
}

/// Check that `data` starts with an XML preamble, as an SVG logo must.
pub fn verify_xml_preamble(data: &[u8]) -> (r: Result<(), ContractError>)
    ensures
        r == if xml_preamble_ok(data@) {
            Ok::<(), ContractError>(())
        } else {
            Err::<(), ContractError>(ContractError::InvalidXmlPreamble)
        },
{
    let n_total = data.len();
    if n_total == 0 {
        return Err(ContractError::InvalidXmlPreamble);
    }
    let mut j: usize = 0;
    while j < n_total && *slice_index_get(data, j) != 62
        invariant
            j <= n_total,
            n_total == data@.len(),
            forall|k: int| 0 <= k < j ==> data@[k] != 62,
        decreases n_total - j,
    {
        j = j + 1;
    }
    proof {
        lemma_preamble_len_at(data@, j as int);
    }
    let end = if j < n_total {
        j + 1
    } else {
        n_total
    };
    let ok_prefix = end >= 6 && *slice_index_get(data, 0) == 60 && *slice_index_get(data, 1)
        == 63 && *slice_index_get(data, 2) == 120 && *slice_index_get(data, 3) == 109
        && *slice_index_get(data, 4) == 108 && *slice_index_get(data, 5) == 32;
    let ok_postfix = end >= 2 && *slice_index_get(data, end - 2) == 63 && *slice_index_get(
        data,
        end - 1,
    ) == 62;
    if ok_prefix && ok_postfix {
        proof {
            assert(data@.subrange(0, 6) =~= xml_prefix());
            assert(data@.subrange(end - 2, end as int) =~= xml_postfix());
        }
        Ok(())
    } else {
        proof {
            if xml_preamble_ok(data@) {
                assert(data@.subrange(0, 6)[0] == data@[0]);
                assert(data@.subrange(0, 6)[1] == data@[1]);
                assert(data@.subrange(0, 6)[2] == data@[2]);
                assert(data@.subrange(0, 6)[3] == data@[3]);
                assert(data@.subrange(0, 6)[4] == data@[4]);
                assert(data@.subrange(0, 6)[5] == data@[5]);
                let n = preamble_len(data@);
                assert(data@.subrange(n - 2, n)[0] == data@[n - 2]);
                assert(data@.subrange(n - 2, n)[1] == data@[n - 1]);
            }
        }
        Err(ContractError::InvalidXmlPreamble)
    }
}

/// Validate an SVG logo: a proper XML preamble and at most
/// [`LOGO_SIZE_CAP`] bytes, in that order of checks.
pub fn verify_xml_logo(logo: &[u8]) -> (r: Result<(), ContractError>)
    ensures
        r == if !xml_preamble_ok(logo@) {
            Err::<(), ContractError>(ContractError::InvalidXmlPreamble)
        } else if logo@.len() > LOGO_SIZE_CAP {
            Err::<(), ContractError>(ContractError::LogoTooBig)
        } else {
            Ok::<(), ContractError>(())
        },
{
    match verify_xml_preamble(logo) {
        Ok(_) => {
            if logo.len() > LOGO_SIZE_CAP {
                Err(ContractError::LogoTooBig)
            } else {
                Ok(())
            }
        },
        Err(e) => Err(e),
    }
}

/// The 8-byte PNG file header.
pub open spec fn png_header() -> Seq<u8> {
    seq![137u8, 80u8, 78u8, 71u8, 13u8, 10u8, 26u8, 10u8]
}

/// Validate a PNG logo: at most [`LOGO_SIZE_CAP`] bytes and the PNG file
/// header, in that order of checks.
pub fn verify_png_logo(logo: &[u8]) -> (r: Result<(), ContractError>)
    ensures
        r == if logo@.len() > LOGO_SIZE_CAP {
            Err::<(), ContractError>(ContractError::LogoTooBig)
        } else if !(logo@.len() >= 8 && logo@.subrange(0, 8) == png_header()) {
            Err::<(), ContractError>(ContractError::InvalidPngHeader)
        } else {
            Ok::<(), ContractError>(())
        },
{
    if logo.len() > LOGO_SIZE_CAP {
        return Err(ContractError::LogoTooBig);
    }
    let ok = logo.len() >= 8 && *slice_index_get(logo, 0) == 137 && *slice_index_get(logo, 1)
        == 80 && *slice_index_get(logo, 2) == 78 && *slice_index_get(logo, 3) == 71
        && *slice_index_get(logo, 4) == 13 && *slice_index_get(logo, 5) == 10
        && *slice_index_get(logo, 6) == 26 && *slice_index_get(logo, 7) == 10;
    if ok {
        proof {
            assert(logo@.subrange(0, 8) =~= png_header());
        }
        Ok(())
    } else {
        proof {
            if logo@.len() >= 8 && logo@.subrange(0, 8) == png_header() {
                assert(logo@.subrange(0, 8)[0] == logo@[0]);
                assert(logo@.subrange(0, 8)[1] == logo@[1]);
                assert(logo@.subrange(0, 8)[2] == logo@[2]);
                assert(logo@.subrange(0, 8)[3] == logo@[3]);
                assert(logo@.subrange(0, 8)[4] == logo@[4]);
                assert(logo@.subrange(0, 8)[5] == logo@[5]);
                assert(logo@.subrange(0, 8)[6] == logo@[6]);
                assert(logo@.subrange(0, 8)[7] == logo@[7]);
            }
        }
        Err(ContractError::InvalidPngHeader)
    }
}

/// A token name is valid when it is 3 to 50 bytes long.
pub fn is_valid_name(name: &str) -> (r: bool)
    ensures
        r == (3 <= name.spec_bytes().len() <= 50),
{
    let bytes = name.as_bytes();
    if bytes.len() < 3 || bytes.len() > 50 {
        return false;
    }
    true
}

/// Whether one byte may occur in a token symbol: `'-'`, `'A'..='Z'` or
/// `'a'..='z'`.
pub open spec fn valid_symbol_byte(b: u8) -> bool {
    b == 45 || (65 <= b <= 90) || (97 <= b <= 122)
}

/// A token symbol is valid when it is 3 to 12 bytes long and made of
/// ASCII letters and dashes only.
pub fn is_valid_symbol(symbol: &str) -> (r: bool)
    ensures
        r == (3 <= symbol.spec_bytes().len() <= 12 && (forall|i: int|
            0 <= i < symbol.spec_bytes().len() ==> valid_symbol_byte(
                #[trigger] symbol.spec_bytes()[i],
            ))),
{
    let bytes = symbol.as_bytes();
    if bytes.len() < 3 || bytes.len() > 12 {
        return false;
    }
    let n = bytes.len();
    for i in 0..n
        invariant
            n == bytes@.len(),
            bytes@ == symbol.spec_bytes(),
            forall|k: int| 0 <= k < i ==> valid_symbol_byte(#[trigger] bytes@[k]),
    {
        let b = *slice_index_get(bytes, i);
        if b != 45 && (b < 65 || b > 90) && (b < 97 || b > 122) {
            return false;
        }
    }
    true
}

} // verus!
