use talent_loadout::bit_reader::BitStreamReader;
use talent_loadout::talent_encoding::{chars_of, TalentEncoding, TalentEncodingError};
use talent_loadout::trait_tree::{TraitTreeEntryType, TraitTreeNodeType, UnknownTypeTag};
use talent_loadout::version::{ProductType, Version};

fn config_with(alphabet: &str) -> TalentEncoding {
    TalentEncoding { base64_chars: alphabet.to_string(), ..TalentEncoding::default() }
}

#[test]
fn default_configuration_values() {
    let c = TalentEncoding::default();
    assert_eq!(c.base64_chars, "ABCDEFGHIJKLMNOPQRSTUVWXYZabcdefghijklmnopqrstuvwxyz0123456789+/");
    assert_eq!(c.serialization_version, 2);
    assert_eq!((c.version_bits, c.spec_bits, c.tree_bits), (8, 16, 128));
    assert_eq!((c.rank_bits, c.choice_bits, c.byte_size), (6, 2, 6));
    assert_eq!(c.version, Version { product: ProductType::WOW, major: 11, patch: 2, minor: 0, build: 63003 });
    assert_eq!(c.clone(), c);
}

#[test]
fn symbol_values_are_alphabet_positions() {
    let c = TalentEncoding::default();
    assert_eq!(c.find_symbol_value('A'), Ok(0));
    assert_eq!(c.find_symbol_value('a'), Ok(26));
    assert_eq!(c.find_symbol_value('/'), Ok(63));
    assert_eq!(c.find_symbol_value('!'), Err(TalentEncodingError::InvalidBase64Charset));
    assert_eq!(config_with("ABA").find_symbol_value('A'), Ok(0));
    assert_eq!(c.symbol_values("Az+"), Ok(vec![0, 51, 62]));
    assert_eq!(c.find_char_unchecked('9'), 61);
    assert_eq!(c.symbol_values("A-"), Err(TalentEncodingError::InvalidBase64Charset));
}

#[test]
fn charset_check_follows_alphabet() {
    let c = TalentEncoding::default();
    assert_eq!(c.valid_base64("CwQA+/"), Ok(()));
    assert_eq!(c.valid_base64(""), Ok(()));
    assert_eq!(c.valid_base64("CwQ A"), Err(TalentEncodingError::InvalidBase64Charset));
    assert_eq!(c.valid_base64("é"), Err(TalentEncodingError::InvalidBase64Charset));
}

#[test]
fn charset_check_takes_special_characters_literally() {
    // a range A-C would admit B; the alphabet holds only A, - and C
    let c = config_with("A-C");
    assert_eq!(c.valid_base64("A-C"), Ok(()));
    assert_eq!(c.valid_base64("B"), Err(TalentEncodingError::InvalidBase64Charset));
    let c = config_with("]^\\[");
    assert_eq!(c.valid_base64("^]\\["), Ok(()));
    assert_eq!(c.valid_base64("a"), Err(TalentEncodingError::InvalidBase64Charset));
}

#[test]
fn charset_check_with_empty_alphabet() {
    let c = config_with("");
    assert_eq!(c.valid_base64(""), Ok(()));
    assert_eq!(c.valid_base64("A"), Err(TalentEncodingError::InvalidBase64Charset));
}

#[test]
fn size_check_needs_whole_header() {
    let c = TalentEncoding::default();
    // 152 header bits need 26 characters of 6 bits
    assert_eq!(c.valid_size(&"A".repeat(26)), Ok(()));
    assert_eq!(c.valid_size(&"A".repeat(25)), Err(TalentEncodingError::StringTooShort));
}

#[test]
fn version_check_compares_serialization_version() {
    let c = TalentEncoding::default();
    assert_eq!(c.valid_version(2), Ok(()));
    assert_eq!(c.valid_version(3), Err(TalentEncodingError::IncorrectSerializationVersion));
}

#[test]
fn checks_report_first_failure() {
    let c = TalentEncoding::default();
    let long = "A".repeat(26);
    assert_eq!(c.is_valid(&long, 2), Ok(()));
    assert_eq!(c.is_valid("!", 3), Err(TalentEncodingError::InvalidBase64Charset));
    assert_eq!(c.is_valid("A", 3), Err(TalentEncodingError::StringTooShort));
    assert_eq!(c.is_valid(&long, 3), Err(TalentEncodingError::IncorrectSerializationVersion));
}

#[test]
fn chars_of_keeps_order() {
    assert_eq!(chars_of("aé/"), vec!['a', 'é', '/']);
}

#[test]
fn reader_reads_least_significant_bit_first() {
    // symbols 2 (bits 0 1) and 3 (bits 1 1), two bits each
    let mut r = BitStreamReader::new(vec![2, 3], 2);
    assert_eq!(r.read_bits(3), Some(0b110));
    assert_eq!(r.read_bits(1), Some(1));
    assert_eq!(r.read_bits(1), None);
    assert_eq!(r.read_bits(0), Some(0));
}

#[test]
fn reader_ignores_bits_beyond_byte_size() {
    // symbol 7 has bit 2 set, but only two bits per symbol count
    let mut r = BitStreamReader::new(vec![7, 0], 2);
    assert_eq!(r.read_bits(4), Some(0b0011));
}

#[test]
fn reader_refuses_without_consuming() {
    let mut r = BitStreamReader::new(vec![1], 6);
    assert_eq!(r.read_bits(7), None);
    assert_eq!(r.read_bits(6), Some(1));
}

#[test]
fn reader_reads_sixty_four_bits() {
    let mut r = BitStreamReader::new(vec![usize::MAX & 0xFF; 8], 8);
    assert_eq!(r.read_bits(64), Some(u64::MAX));
}

#[test]
fn reader_skips_fields() {
    let mut r = BitStreamReader::new(vec![0, 1], 6);
    assert!(r.skip_bits(6));
    assert_eq!(r.read_bits(1), Some(1));
    assert!(!r.skip_bits(6));
    assert!(r.skip_bits(5));
    assert_eq!(r.read_bits(1), None);
}

#[test]
fn node_type_tags() {
    assert_eq!(TraitTreeNodeType::from_tag("single"), Ok(TraitTreeNodeType::Single));
    assert_eq!(TraitTreeNodeType::from_tag("choice"), Ok(TraitTreeNodeType::Choice));
    assert_eq!(TraitTreeNodeType::from_tag("subtree"), Ok(TraitTreeNodeType::SubTree));
    assert_eq!(TraitTreeNodeType::from_tag(""), Err(UnknownTypeTag));
    assert_eq!(TraitTreeNodeType::from_tag("Single"), Err(UnknownTypeTag));
}

#[test]
fn entry_type_tags() {
    assert_eq!(TraitTreeEntryType::from_tag("active"), Ok(Some(TraitTreeEntryType::Active)));
    assert_eq!(TraitTreeEntryType::from_tag("passive"), Ok(Some(TraitTreeEntryType::Passive)));
    assert_eq!(TraitTreeEntryType::from_tag("subtree"), Ok(Some(TraitTreeEntryType::SubTree)));
    assert_eq!(TraitTreeEntryType::from_tag(""), Ok(None));
    assert_eq!(TraitTreeEntryType::from_tag("activ"), Err(UnknownTypeTag));
}

#[test]
fn product_names() {
    assert_eq!(ProductType::WOW.display_name(), "Live");
    assert_eq!(ProductType::WOW_BETA.display_name(), "Beta");
    assert_eq!(ProductType::WOWDEV.display_name(), "Alpha");
    assert_eq!(ProductType::WOWT.display_name(), "PTR");
    assert_eq!(ProductType::WOWXPTR.display_name(), "XPTR");
    assert_eq!(ProductType::default(), ProductType::WOW);
}
