use network_transfer::error::Error;
use network_transfer::models::{content_path, Metadata, CONTENT_PREFIX};
use network_transfer::server::{
    checked_content_key, parse_content_key, respond, select_range, split_content_key,
    ContentResponse, RangeRequest,
};
use network_transfer::{Client, Range};

fn range(first: usize, last: usize) -> Option<RangeRequest> {
    Some(RangeRequest { first: Some(first), last: Some(last) })
}

fn summary(r: &ContentResponse) -> (u16, Option<&str>, usize, usize) {
    (r.status, r.content_range.as_deref(), r.body_offset, r.body_len)
}

#[test]
fn request_without_range_gets_the_whole_file() {
    let r = respond(None, 5242880);
    assert_eq!(summary(&r), (200, None, 0, 5242880));
    let empty = respond(None, 0);
    assert_eq!(summary(&empty), (200, None, 0, 0));
}

#[test]
fn request_for_the_first_byte_gets_one_byte() {
    let r = respond(range(0, 0), 5242880);
    assert_eq!(summary(&r), (206, Some("bytes 0-0/5242880"), 0, 1));
}

#[test]
fn request_beyond_the_end_is_not_satisfiable() {
    let r = respond(range(5242880, 5242880), 5242880);
    assert_eq!(summary(&r), (416, Some("bytes */5242880"), 0, 0));
    let far = respond(range(9000000, 9000001), 5242880);
    assert_eq!(summary(&far), (416, Some("bytes */5242880"), 0, 0));
    let empty = respond(range(0, 0), 0);
    assert_eq!(summary(&empty), (416, Some("bytes */0"), 0, 0));
}

#[test]
fn request_inside_the_file_gets_its_window() {
    let r = respond(range(1024, 2047), 4200);
    assert_eq!(summary(&r), (206, Some("bytes 1024-2047/4200"), 1024, 1024));
    let last = respond(range(4096, 4199), 4200);
    assert_eq!(summary(&last), (206, Some("bytes 4096-4199/4200"), 4096, 104));
}

#[test]
fn request_that_runs_over_the_end_is_cut_there() {
    let r = respond(range(4096, 5119), 4200);
    assert_eq!(summary(&r), (206, Some("bytes 4096-4199/4200"), 4096, 104));
}

#[test]
fn request_with_open_bounds() {
    let from = respond(Some(RangeRequest { first: Some(100), last: None }), 4200);
    assert_eq!(summary(&from), (206, Some("bytes 100-4199/4200"), 100, 4100));
    let upto = respond(Some(RangeRequest { first: None, last: Some(9) }), 4200);
    assert_eq!(summary(&upto), (206, Some("bytes 0-9/4200"), 0, 10));
    let open = respond(Some(RangeRequest { first: None, last: None }), 4200);
    assert_eq!(summary(&open), (206, Some("bytes 0-4199/4200"), 0, 4200));
}

#[test]
fn request_that_ends_before_it_starts_is_not_satisfiable() {
    let r = respond(range(10, 9), 4200);
    assert_eq!(summary(&r), (416, Some("bytes */4200"), 0, 0));
}

#[test]
fn range_selection() {
    assert_eq!(select_range(None, 4200), Ok(None));
    assert_eq!(select_range(range(0, 0), 4200), Ok(Some(Range::new(0, 0))));
    assert_eq!(select_range(range(4096, 9999), 4200), Ok(Some(Range::new(4096, 4199))));
    assert_eq!(select_range(range(4200, 4200), 4200), Err(Error::RangeNotSatisfiable { total: 4200 }));
    assert_eq!(select_range(range(2, 1), 4200), Err(Error::RangeNotSatisfiable { total: 4200 }));
    assert_eq!(select_range(range(0, 0), 0), Err(Error::RangeNotSatisfiable { total: 0 }));
    assert_eq!(Error::RangeNotSatisfiable { total: 0 }.http_status(), respond(range(0, 0), 0).status);
}

#[test]
fn every_content_response_has_the_fixed_headers() {
    for r in [respond(None, 10), respond(range(0, 0), 10), respond(range(10, 10), 10)] {
        assert_eq!(r.content_type, "application/octet-stream");
        assert_eq!(r.accept_ranges, "bytes");
        assert_eq!(r.server, "Microsoft-HTTPAPI/2.0");
    }
}

#[test]
fn client_reads_the_total_that_the_server_announces() {
    for total in [1usize, 9, 10, 4200, 105205760, usize::MAX] {
        let r = respond(range(0, 0), total);
        assert_eq!(Client::get_item_filesize(r.status, r.content_range.as_deref()), Ok(total));
    }
}

#[test]
fn content_key_with_a_braced_uuid() {
    let key = parse_content_key("{A89ECE52-7E8E-444F-BBD0-C68B76C2ECA4}#11032Reconco.XboxControllerTester_thvmwcgtjwwvy").unwrap();
    assert_eq!(key.drive_id, "{A89ECE52-7E8E-444F-BBD0-C68B76C2ECA4}");
    assert_eq!(key.filename, "11032Reconco.XboxControllerTester_thvmwcgtjwwvy");
}

#[test]
fn content_key_splits_on_the_first_hash() {
    let key = parse_content_key("a89ece52-7e8e-444f-bbd0-c68b76c2eca4#a#b").unwrap();
    assert_eq!(key.drive_id, "a89ece52-7e8e-444f-bbd0-c68b76c2eca4");
    assert_eq!(key.filename, "a#b");
    assert_eq!(split_content_key("é#ü"), Some(("é".to_string(), "ü".to_string())));
    assert_eq!(split_content_key("#x"), Some(("".to_string(), "x".to_string())));
}

#[test]
fn content_key_without_hash_or_filename_is_malformed() {
    assert_eq!(
        parse_content_key("a89ece52-7e8e-444f-bbd0-c68b76c2eca4").unwrap_err(),
        Error::MalformedContentKey
    );
    assert_eq!(
        parse_content_key("a89ece52-7e8e-444f-bbd0-c68b76c2eca4#").unwrap_err(),
        Error::MalformedContentKey
    );
    assert_eq!(parse_content_key("").unwrap_err(), Error::MalformedContentKey);
    assert_eq!(split_content_key("abc"), None);
}

#[test]
fn content_key_with_a_bad_drive_id_is_refused() {
    assert_eq!(parse_content_key("not-a-uuid#file").unwrap_err(), Error::InvalidDriveId);
    assert_eq!(parse_content_key("#file").unwrap_err(), Error::InvalidDriveId);
    assert_eq!(
        parse_content_key("a89ece52-7e8e-444f-bbd0-c68b76c2eca#file").unwrap_err(),
        Error::InvalidDriveId
    );
}

#[test]
fn checked_content_key_goes_by_the_flag() {
    let ok = checked_content_key("d".to_string(), "f".to_string(), true).unwrap();
    assert_eq!((ok.drive_id.as_str(), ok.filename.as_str()), ("d", "f"));
    assert_eq!(
        checked_content_key("d".to_string(), "f".to_string(), false).unwrap_err(),
        Error::InvalidDriveId
    );
}

#[test]
fn errors_map_to_status_codes() {
    assert_eq!(Error::MalformedContentKey.http_status(), 400);
    assert_eq!(Error::InvalidDriveId.http_status(), 400);
    assert_eq!(Error::FileNotFound.http_status(), 404);
    assert_eq!(Error::RangeNotSatisfiable { total: 3 }.http_status(), 416);
    assert_eq!(Error::IoError.http_status(), 500);
    assert_eq!(Error::TimeoutError.http_status(), 500);
}

#[test]
fn errors_have_messages() {
    assert_eq!(Error::MdnsError.message(), "MDNS Error");
    assert_eq!(Error::HttpError.message(), "HTTP Error");
    assert_eq!(Error::IoError.message(), "IO Error");
    assert_eq!(Error::TimeoutError.message(), "Timeout Error");
    assert_eq!(Error::UnexpectedStatus(200).message(), "Unexpected HTTP status, expected 206");
    assert_eq!(Error::MissingContentRange.message(), "No content-range header returned");
    assert_eq!(Error::MalformedContentRange.message(), "Failed to parse content length");
}

#[test]
fn sample_manifest_has_one_application() {
    let m = Metadata::sample();
    assert_eq!(m.items.len(), 1);
    let first = &m.items[0];
    assert_eq!(first.typ, "app");
    assert!(!first.has_content_id);
    assert_eq!(first.is_xvc, None);
    assert_eq!(first.content_id, "");
    assert_eq!(first.product_id, "");
    assert_eq!(first.package_family_name, "11032Reconco.XboxControllerTester_thvmwcgtjwwvy");
    assert_eq!(first.one_store_product_id, "9NBLGGH4PNC7");
    assert_eq!(first.version, "0");
    assert_eq!(first.size, 0);
    assert_eq!(first.allowed_product_id, "");
    assert_eq!(first.allowed_package_family_name, "");
    assert_eq!(
        first.path,
        "/col/content/%7B67601B6E-0294-4007-8682-BEBFBE676320%7D%2311032Reconco.XboxControllerTester_thvmwcgtjwwvy"
    );
    assert_eq!(first.availability, "available");
    assert_eq!(first.generation, "uwpgen9");
    assert!(first.related_media.is_empty());
    assert!(first.related_media_family_names.is_empty());
}

fn url_decoded(text: &str) -> String {
    let bytes = text.as_bytes();
    let mut out = Vec::new();
    let mut i = 0;
    while i < bytes.len() {
        if bytes[i] == b'%' {
            let hex = std::str::from_utf8(&bytes[i + 1..i + 3]).unwrap();
            out.push(u8::from_str_radix(hex, 16).unwrap());
            i += 3;
        } else {
            out.push(bytes[i]);
            i += 1;
        }
    }
    String::from_utf8(out).unwrap()
}

#[test]
fn sample_path_holds_a_content_key() {
    let m = Metadata::sample();
    let key = url_decoded(m.items[0].path.strip_prefix(CONTENT_PREFIX).unwrap());
    assert_eq!(key, "{67601B6E-0294-4007-8682-BEBFBE676320}#11032Reconco.XboxControllerTester_thvmwcgtjwwvy");
    let parsed = parse_content_key(&key).unwrap();
    assert_eq!(parsed.drive_id, "{67601B6E-0294-4007-8682-BEBFBE676320}");
    assert_eq!(parsed.filename, "11032Reconco.XboxControllerTester_thvmwcgtjwwvy");
    assert_eq!(parsed.filename, m.items[0].package_family_name);
}

#[test]
fn content_path_of_a_drive_and_a_file() {
    assert_eq!(
        content_path("A89ECE52-7E8E-444F-BBD0-C68B76C2ECA4", "a.b_c~d"),
        Some("/col/content/%7BA89ECE52-7E8E-444F-BBD0-C68B76C2ECA4%7D%23a.b_c~d".to_string())
    );
    assert_eq!(content_path("", ""), Some("/col/content/%7B%7D%23".to_string()));
    assert_eq!(content_path("a#b", "f"), None);
    assert_eq!(content_path("a", "f g"), None);
    assert_eq!(content_path("a", "f%"), None);
    assert_eq!(content_path("\u{e9}", "f"), None);
}
