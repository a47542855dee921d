//! The composite wire codec: round trips, NULL handling, and rejection of
//! malformed shapes.

use websites::model::{DomainAsRel, PageAsRel};
use websites::wire::{
    decode_domain_array, decode_domain_record, decode_page_array, decode_page_record,
    encode_domain_array, encode_domain_record, encode_page_array, DecodeError,
};

fn domain_rel(id: i64, domain: &str, status: &str) -> DomainAsRel {
    DomainAsRel {
        domain_id: id,
        domain: domain.to_string(),
        status: status.to_string(),
    }
}

fn page_rel(id: i64, title: &str, is_home_page: bool, path: &str) -> PageAsRel {
    PageAsRel {
        page_id: id,
        page_type: "PAGE_TYPE_STATIC".to_string(),
        content_id: format!("content-{id}"),
        title: title.to_string(),
        is_home_page,
        path: path.to_string(),
    }
}

fn assert_domains_eq(a: &DomainAsRel, b: &DomainAsRel) {
    assert_eq!(a.domain_id, b.domain_id);
    assert_eq!(a.domain, b.domain);
    assert_eq!(a.status, b.status);
}

fn assert_pages_eq(a: &PageAsRel, b: &PageAsRel) {
    assert_eq!(a.page_id, b.page_id);
    assert_eq!(a.page_type, b.page_type);
    assert_eq!(a.content_id, b.content_id);
    assert_eq!(a.title, b.title);
    assert_eq!(a.is_home_page, b.is_home_page);
    assert_eq!(a.path, b.path);
}

#[test]
fn domain_array_round_trip_empty() {
    let rows: Vec<DomainAsRel> = Vec::new();
    let buf = encode_domain_array(&rows);
    let decoded = decode_domain_array(&buf).unwrap();
    assert_eq!(decoded.0.len(), 0);
}

#[test]
fn domain_array_round_trip_single() {
    let rows = vec![domain_rel(7, "shop.example.com", "DOMAIN_STATUS_PENDING")];
    let buf = encode_domain_array(&rows);
    let decoded = decode_domain_array(&buf).unwrap();
    assert_eq!(decoded.0.len(), 1);
    assert_domains_eq(&decoded.0[0], &rows[0]);
}

#[test]
fn domain_array_round_trip_many() {
    let rows = vec![
        domain_rel(1, "a1b2c3d4e5f6g7.sited.example", "DOMAIN_STATUS_INTERNAL"),
        domain_rel(2, "shop.example.com", "DOMAIN_STATUS_PENDING"),
        domain_rel(3, "blog.example.net", "DOMAIN_STATUS_ACTIVE"),
    ];
    let buf = encode_domain_array(&rows);
    let decoded = decode_domain_array(&buf).unwrap();
    assert_eq!(decoded.0.len(), 3);
    for (got, want) in decoded.0.iter().zip(rows.iter()) {
        assert_domains_eq(got, want);
    }
}

#[test]
fn page_array_round_trip_with_unicode_title() {
    let rows = vec![
        page_rel(10, "Home", true, "/"),
        page_rel(11, "Caf\u{e9} & more \u{2014} menu", false, "/cafe-more-menu"),
    ];
    let buf = encode_page_array(&rows);
    let decoded = decode_page_array(&buf).unwrap();
    assert_eq!(decoded.0.len(), 2);
    for (got, want) in decoded.0.iter().zip(rows.iter()) {
        assert_pages_eq(got, want);
    }
}

#[test]
fn domain_record_round_trip() {
    let row = domain_rel(42, "www.example.org", "DOMAIN_STATUS_ACTIVE");
    let buf = encode_domain_record(&row);
    let decoded = decode_domain_record(&buf).unwrap();
    assert_domains_eq(&decoded, &row);
}

#[test]
fn null_elements_are_dropped_not_fatal() {
    // a one-dimensional array of three elements where the middle one is
    // NULL: the decode is best-effort and keeps the two records
    let first = encode_domain_record(&domain_rel(1, "a.example", "DOMAIN_STATUS_PENDING"));
    let second = encode_domain_record(&domain_rel(2, "b.example", "DOMAIN_STATUS_ACTIVE"));
    let mut buf: Vec<u8> = Vec::new();
    buf.extend_from_slice(&1u32.to_be_bytes()); // one dimension
    buf.extend_from_slice(&1u32.to_be_bytes()); // has-nulls flag
    buf.extend_from_slice(&2249u32.to_be_bytes()); // element type: record
    buf.extend_from_slice(&3u32.to_be_bytes()); // three elements
    buf.extend_from_slice(&1u32.to_be_bytes()); // lower bound
    buf.extend_from_slice(&(first.len() as u32).to_be_bytes());
    buf.extend_from_slice(&first);
    buf.extend_from_slice(&0xffff_ffffu32.to_be_bytes()); // NULL element
    buf.extend_from_slice(&(second.len() as u32).to_be_bytes());
    buf.extend_from_slice(&second);
    let decoded = decode_domain_array(&buf).unwrap();
    assert_eq!(decoded.0.len(), 2);
    assert_eq!(decoded.0[0].domain, "a.example");
    assert_eq!(decoded.0[1].domain, "b.example");
}

#[test]
fn two_dimensional_array_is_unsupported_shape() {
    let mut buf: Vec<u8> = Vec::new();
    buf.extend_from_slice(&2u32.to_be_bytes()); // two dimensions
    buf.extend_from_slice(&0u32.to_be_bytes());
    buf.extend_from_slice(&2249u32.to_be_bytes());
    buf.extend_from_slice(&1u32.to_be_bytes());
    buf.extend_from_slice(&1u32.to_be_bytes());
    assert_eq!(
        decode_domain_array(&buf).unwrap_err(),
        DecodeError::UnsupportedShape
    );
    assert_eq!(
        decode_page_array(&buf).unwrap_err(),
        DecodeError::UnsupportedShape
    );
}

#[test]
fn wrong_field_oid_is_type_mismatch() {
    // a record whose first field carries the text type tag where the 8-byte
    // integer is expected: rejected, not silently coerced
    let mut buf: Vec<u8> = Vec::new();
    buf.extend_from_slice(&3u32.to_be_bytes()); // declared field count
    buf.extend_from_slice(&25u32.to_be_bytes()); // text tag, expected int8
    buf.extend_from_slice(&8u32.to_be_bytes());
    buf.extend_from_slice(&7i64.to_be_bytes());
    assert_eq!(
        decode_domain_record(&buf).unwrap_err(),
        DecodeError::TypeMismatch
    );
    assert_eq!(
        decode_page_record(&buf).unwrap_err(),
        DecodeError::TypeMismatch
    );
}

#[test]
fn truncated_buffer_is_rejected() {
    let row = domain_rel(5, "cut.example", "DOMAIN_STATUS_PENDING");
    let buf = encode_domain_record(&row);
    let cut = &buf[..buf.len() - 3];
    assert_eq!(decode_domain_record(cut).unwrap_err(), DecodeError::Truncated);
}
