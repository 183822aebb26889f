use finance_miner::error::{CatalogError, MinerError, ParseError, Region};
use finance_miner::transport::{
    decode_document, document_from_decoded, ensure_http_success, profile_url, ICHARTS_URI,
    MARKETS_BASE_URI,
};

#[test]
fn success_statuses_pass() {
    assert_eq!(ensure_http_success(200), Ok(200));
    assert_eq!(ensure_http_success(204), Ok(204));
    assert_eq!(ensure_http_success(299), Ok(299));
}

#[test]
fn other_statuses_are_errors_that_carry_the_status() {
    for status in [0u16, 100, 199, 300, 301, 404, 500, 599, 600, u16::MAX] {
        assert_eq!(ensure_http_success(status), Err(MinerError::HttpErrorStatus(status)));
    }
}

#[test]
fn every_status_is_classified_by_its_range() {
    for status in 0..=1000u16 {
        assert_eq!(ensure_http_success(status).is_ok(), (200..=299).contains(&status));
    }
}

#[test]
fn decode_document_reads_cyrillic() {
    assert_eq!(decode_document(&[0xD1, 0xE1, 0xE5, 0xF0]), Ok("Сбер".to_string()));
    assert_eq!(decode_document(b"var a = [1];"), Ok("var a = [1];".to_string()));
    assert_eq!(decode_document(&[]), Ok(String::new()));
}

#[test]
fn decode_document_maps_every_byte_to_one_character() {
    assert_eq!(decode_document(&[0x41, 0x98, 0x42]), Ok("A\u{98}B".to_string()));
    let all: Vec<u8> = (0..=255u8).collect();
    let decoded = decode_document(&all).unwrap();
    assert_eq!(decoded.chars().count(), 256);
    assert_eq!(decoded.chars().nth(0xC0), Some('А'));
    assert_eq!(decoded.chars().nth(0xFF), Some('я'));
}

#[test]
fn decode_document_keeps_ascii_and_the_length() {
    let bytes: Vec<u8> = (0..=255u8).rev().collect();
    let decoded: Vec<char> = decode_document(&bytes).unwrap().chars().collect();
    assert_eq!(decoded.len(), bytes.len());
    for (byte, character) in bytes.iter().zip(decoded.iter()) {
        if *byte < 0x80 {
            assert_eq!(*character, *byte as char);
        }
    }
}

#[test]
fn document_from_decoded_wraps_the_cause() {
    assert_eq!(document_from_decoded(Ok("text".to_string())), Ok("text".to_string()));
    assert_eq!(
        document_from_decoded(Err("invalid sequence".to_string())),
        Err(MinerError::EncodingError("invalid sequence".to_string()))
    );
}

#[test]
fn profile_url_joins_base_and_slug() {
    assert_eq!(profile_url("sberbank"), "http://www.finam.ru/profile//sberbank");
    assert_eq!(profile_url(""), "http://www.finam.ru/profile//");
    assert_eq!(MARKETS_BASE_URI, "http://www.finam.ru/profile/");
    assert_eq!(ICHARTS_URI, "http://www.finam.ru/cache/icharts/icharts.js");
}

#[test]
fn parse_error_texts() {
    let error = ParseError::BlockNotFound("Emitent captures not found".to_string());
    assert_eq!(error.message(), "Data not found in document: Emitent captures not found");
    assert_eq!(error.description(), "Block we're searching not found in the document");
}

#[test]
fn miner_error_messages() {
    assert_eq!(MinerError::HttpErrorStatus(404).message(), "HTTP request unsuccessful");
    assert_eq!(
        MinerError::EncodingError("bad byte".to_string()).message(),
        "Encoding error: bad byte"
    );
    assert_eq!(
        MinerError::YamlConversionError("id not found".to_string()).message(),
        "Yaml conversion error: id not found"
    );
    assert_eq!(
        MinerError::ParseError(ParseError::BlockNotFound("x".to_string())).message(),
        "Data not found in document: x"
    );
}

#[test]
fn miner_error_descriptions() {
    assert_eq!(MinerError::HttpErrorStatus(500).description(), "HTTP request unsuccessful");
    assert_eq!(MinerError::EncodingError("bad byte".to_string()).description(), "bad byte");
    assert_eq!(
        MinerError::YamlConversionError("id not found".to_string()).description(),
        "Cannot convet between object and Yaml"
    );
    assert_eq!(
        MinerError::ParseError(ParseError::BlockNotFound("x".to_string())).description(),
        "Block we're searching not found in the document"
    );
}

#[test]
fn catalog_errors_name_the_region() {
    assert_ne!(CatalogError::Missing(Region::Ids), CatalogError::Ambiguous(Region::Ids));
    assert_ne!(CatalogError::Missing(Region::Ids), CatalogError::Missing(Region::Urls));
}
