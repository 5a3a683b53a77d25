use network_transfer::client::{Request, METADATA_PATH};
use network_transfer::error::Error;
use network_transfer::text::{parse_usize, to_chars};
use network_transfer::transfer::{TransferAction, TransferState};
use network_transfer::{Client, Range};

fn headers(req: &Request) -> Vec<(String, String)> {
    req.headers.iter().map(|h| (h.name.clone(), h.value.clone())).collect()
}

#[test]
fn filesize_is_read_from_content_range() {
    assert_eq!(Client::get_item_filesize(206, Some("bytes 0-0/105205760")), Ok(105205760));
    assert_eq!(Client::get_item_filesize(206, Some("bytes 0-0/0")), Ok(0));
}

#[test]
fn filesize_needs_the_header() {
    assert_eq!(Client::get_item_filesize(206, None), Err(Error::MissingContentRange));
}

#[test]
fn filesize_needs_status_206() {
    assert_eq!(
        Client::get_item_filesize(200, Some("bytes 0-0/105205760")),
        Err(Error::UnexpectedStatus(200))
    );
    assert_eq!(Client::get_item_filesize(416, None), Err(Error::UnexpectedStatus(416)));
}

#[test]
fn filesize_needs_a_number_behind_the_slash() {
    assert_eq!(Client::get_item_filesize(206, Some("bytes 0-0/*")), Err(Error::MalformedContentRange));
    assert_eq!(Client::get_item_filesize(206, Some("bytes 0-0/")), Err(Error::MalformedContentRange));
    assert_eq!(Client::get_item_filesize(206, Some("bytes 0-0")), Err(Error::MalformedContentRange));
    assert_eq!(Client::get_item_filesize(206, Some("bytes 0-0/-5")), Err(Error::MalformedContentRange));
    assert_eq!(Client::get_item_filesize(206, Some("bytes 0-0/12 ")), Err(Error::MalformedContentRange));
    assert_eq!(Client::get_item_filesize(206, Some("")), Err(Error::MalformedContentRange));
}

#[test]
fn filesize_takes_the_part_behind_the_last_slash() {
    assert_eq!(Client::get_item_filesize(206, Some("a/b/42")), Ok(42));
    assert_eq!(Client::get_item_filesize(206, Some("42")), Ok(42));
    assert_eq!(Client::get_item_filesize(206, Some("bytes 0-0/+7")), Ok(7));
}

#[test]
fn filesize_that_does_not_fit_is_malformed() {
    let max = format!("bytes 0-0/{}", usize::MAX);
    assert_eq!(Client::get_item_filesize(206, Some(&max)), Ok(usize::MAX));
    let over = format!("bytes 0-0/{}0", usize::MAX);
    assert_eq!(Client::get_item_filesize(206, Some(&over)), Err(Error::MalformedContentRange));
    assert_eq!(
        Client::get_item_filesize(206, Some("bytes 0-0/18446744073709551616")),
        if usize::MAX as u128 >= 18446744073709551616u128 { Ok(0) } else { Err(Error::MalformedContentRange) }
    );
}

#[test]
fn parse_usize_agrees_with_std() {
    for text in ["0", "007", "+", "+1", "++1", "1+", "12a", "", "９", "4200", "18446744073709551615"] {
        let chars = to_chars(text);
        assert_eq!(parse_usize(&chars, 0), text.parse::<usize>().ok(), "{text}");
    }
}

#[test]
fn parse_usize_starts_where_told() {
    let chars = to_chars("ab123");
    assert_eq!(parse_usize(&chars, 2), Some(123));
    assert_eq!(parse_usize(&chars, 5), None);
    assert_eq!(parse_usize(&chars, 0), None);
}

#[test]
fn chunk_request_asks_for_the_range() {
    let req = Client::download_chunk("http://10.0.0.1:10248/x".to_string(), &Range::new(1024, 2047));
    assert_eq!(req.url, "http://10.0.0.1:10248/x");
    assert_eq!(headers(&req), vec![("range".to_string(), "bytes=1024-2047".to_string())]);
}

#[test]
fn probe_request_asks_for_the_first_byte() {
    let req = Client::probe_request("http://h/p".to_string());
    assert_eq!(req.url, "http://h/p");
    assert_eq!(headers(&req), vec![("range".to_string(), "bytes=0-0".to_string())]);
}

#[test]
fn metadata_request_has_its_three_headers() {
    let req = Client::get_metadata("http://h/col/metadata".to_string());
    assert_eq!(req.url, "http://h/col/metadata");
    assert_eq!(
        headers(&req),
        vec![
            ("Accept".to_string(), "application/json".to_string()),
            ("user-agent".to_string(), "CopyOnLanSvc".to_string()),
            ("x-contract-version".to_string(), "1".to_string()),
        ]
    );
}

#[test]
fn download_starts_with_the_first_piece() {
    let (s, a) = Client::download_chunks(4200, 1024);
    assert_eq!(s, TransferState::Downloading { total: 4200, chunk_size: 1024, index: 0, written: 0 });
    assert_eq!(a, TransferAction::Fetch(Range::new(0, 1023)));
    let (s, a) = Client::download_chunks(0, 1024);
    assert_eq!(s, TransferState::Complete { written: 0 });
    assert_eq!(a, TransferAction::Finish(0));
}

#[test]
fn base_url_is_scheme_address_and_port() {
    let client = Client::new("10.0.0.229", 10248);
    assert_eq!(client.address, "10.0.0.229");
    assert_eq!(client.port, 10248);
    assert_eq!(client.base_url(), "http://10.0.0.229:10248");
    assert_eq!(Client::new("h", 0).base_url(), "http://h:0");
    assert_eq!(Client::new("h", 65535).base_url(), "http://h:65535");
}

#[test]
fn url_of_a_path() {
    let client = Client::new("10.0.0.229", 10248);
    assert_eq!(client.get_url(METADATA_PATH), Ok("http://10.0.0.229:10248/col/metadata".to_string()));
    assert_eq!(
        client.get_url("/col/content/a b"),
        Ok("http://10.0.0.229:10248/col/content/a%20b".to_string())
    );
}

#[test]
fn url_of_an_overlong_path_is_refused() {
    let client = Client::new("10.0.0.229", 10248);
    let long = "a".repeat(65536);
    assert_eq!(client.get_url(&long), Err(Error::PathTooLong));
    let fits = "a".repeat(65535);
    assert_eq!(client.get_url(&fits), Ok(format!("http://10.0.0.229:10248/{fits}")));
    let host = Client::new(&"h".repeat(65536), 1);
    assert_eq!(host.get_url("/x"), Err(Error::InvalidAddress));
}

#[test]
fn url_of_a_bad_address_is_refused() {
    let client = Client::new("not a host", 1);
    assert_eq!(client.get_url("/x"), Err(Error::InvalidAddress));
}

#[test]
fn url_from_goes_by_what_was_made() {
    assert_eq!(Client::url_from(Some("http://h/p".to_string())), Ok("http://h/p".to_string()));
    assert_eq!(Client::url_from(None), Err(Error::InvalidAddress));
}

#[test]
fn url_keeps_what_the_path_encodes() {
    let client = Client::new("10.0.0.229", 10248);
    let path = "/col/content/%7B67601B6E-0294-4007-8682-BEBFBE676320%7D%23file";
    assert_eq!(client.get_url(path), Ok(format!("http://10.0.0.229:10248{path}")));
    assert_eq!(client.get_url("/a?b#c"), Ok("http://10.0.0.229:10248/a%3Fb%23c".to_string()));
}
