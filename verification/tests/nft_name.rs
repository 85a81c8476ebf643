use gpl_nft_voter::{index_from_name, index_from_nft_literal_name, index_from_nft_name, NftMetadata, NftVoterError};

fn padded(name: &str) -> String {
    // token metadata stores names padded with NUL characters to 32 bytes
    let mut s = name.to_string();
    while s.len() < 32 {
        s.push('\0');
    }
    s
}

#[test]
fn literal_name_with_trailing_space() {
    assert_eq!(index_from_nft_literal_name("My Cool NFT #0011 ".to_string()), Ok(11));
    assert_eq!(index_from_nft_literal_name("My Cool NFT #0004 ".to_string()), Ok(4));
    assert_eq!(index_from_nft_literal_name("My Cool NFT #0001 ".to_string()), Ok(1));
    assert_eq!(index_from_nft_literal_name("My Cool NFT #0012 ".to_string()), Ok(12));
}

#[test]
fn literal_name_ending_in_digits_is_refused() {
    assert_eq!(
        index_from_nft_literal_name("My Cool NFT #0001".to_string()),
        Err(NftVoterError::InvalidMetadataName)
    );
}

#[test]
fn metadata_name_padded_with_nul() {
    for i in 1..6u64 {
        let name = format!("My Cool NFT #000{}", i);
        let metadata = NftMetadata { name: padded(&name) };
        assert_eq!(index_from_nft_name(&metadata), Ok(i));
    }
}

#[test]
fn readme_example_name() {
    assert_eq!(index_from_name("My NFT #011 "), Ok(11));
}

#[test]
fn name_without_digits_is_refused() {
    assert_eq!(index_from_name("My Cool NFT"), Err(NftVoterError::InvalidMetadataName));
    assert_eq!(index_from_name(""), Err(NftVoterError::InvalidMetadataName));
    assert_eq!(index_from_name("12345"), Err(NftVoterError::InvalidMetadataName));
}

#[test]
fn only_the_first_digit_run_counts() {
    assert_eq!(index_from_name("A1B22 "), Ok(1));
    assert_eq!(index_from_name("#42-7"), Ok(42));
    assert_eq!(index_from_name("#000 "), Ok(0));
}

#[test]
fn non_ascii_characters_around_the_number() {
    assert_eq!(index_from_name("Ünïcödé №7 ✓"), Ok(7));
    assert_eq!(index_from_name("数字 ٣ 5x"), Ok(5));
}

#[test]
fn numbers_past_u64_are_refused() {
    assert_eq!(index_from_name("NFT #18446744073709551615 "), Ok(u64::MAX));
    assert_eq!(index_from_name("NFT #18446744073709551616 "), Err(NftVoterError::InvalidMetadataName));
    assert_eq!(index_from_name("NFT #99999999999999999999999"), Err(NftVoterError::InvalidMetadataName));
    assert_eq!(index_from_name("NFT #000000000000000000000000000000042 "), Ok(42));
}
