use bloop_vault::error::ContractError;
use bloop_vault::validate::{
    is_valid_name, is_valid_symbol, verify_png_logo, verify_xml_logo, verify_xml_preamble,
    LOGO_SIZE_CAP,
};

#[test]
fn xml_preamble_accepts_proper_header() {
    let data = b"<?xml version=\"1.0\"?><svg/>";
    assert_eq!(verify_xml_preamble(data), Ok(()));
}

#[test]
fn xml_preamble_rejects_missing_prefix() {
    assert_eq!(
        verify_xml_preamble(b"<svg>...</svg>"),
        Err(ContractError::InvalidXmlPreamble)
    );
    assert_eq!(
        verify_xml_preamble(b"<?xml version=\"1.0\""),
        Err(ContractError::InvalidXmlPreamble)
    );
    assert_eq!(verify_xml_preamble(b""), Err(ContractError::InvalidXmlPreamble));
}

#[test]
fn xml_logo_respects_size_cap() {
    let mut data = b"<?xml version=\"1.0\"?>".to_vec();
    data.resize(LOGO_SIZE_CAP + 1, b' ');
    assert_eq!(verify_xml_logo(&data), Err(ContractError::LogoTooBig));
    data.truncate(LOGO_SIZE_CAP);
    assert_eq!(verify_xml_logo(&data), Ok(()));
}

#[test]
fn png_logo_checks_header_and_size() {
    let good = [0x89, b'P', b'N', b'G', 0x0d, 0x0a, 0x1a, 0x0a, 1, 2, 3];
    assert_eq!(verify_png_logo(&good), Ok(()));

    let bad = [0x88, b'P', b'N', b'G', 0x0d, 0x0a, 0x1a, 0x0a];
    assert_eq!(verify_png_logo(&bad), Err(ContractError::InvalidPngHeader));
    assert_eq!(verify_png_logo(&[]), Err(ContractError::InvalidPngHeader));

    let mut big = good.to_vec();
    big.resize(LOGO_SIZE_CAP + 1, 0);
    assert_eq!(verify_png_logo(&big), Err(ContractError::LogoTooBig));
}

#[test]
fn name_length_bounds() {
    assert!(!is_valid_name("ab"));
    assert!(is_valid_name("abc"));
    assert!(is_valid_name(&"x".repeat(50)));
    assert!(!is_valid_name(&"x".repeat(51)));
}

#[test]
fn symbol_shape() {
    assert!(!is_valid_symbol("AB"));
    assert!(is_valid_symbol("ABC"));
    assert!(is_valid_symbol("a-Z"));
    assert!(is_valid_symbol(&"Z".repeat(12)));
    assert!(!is_valid_symbol(&"Z".repeat(13)));
    assert!(!is_valid_symbol("a b"));
    assert!(!is_valid_symbol("ab1"));
}
