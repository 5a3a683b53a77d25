use network_transfer::error::Error;
use network_transfer::interfaces::{choose_bind_addr, Address, Interface};
use network_transfer::models::{Field, Metadata, MetadataItem, Value, WireItem};
use network_transfer::server::{parse_range_header, respond, RangeRequest};
use network_transfer::{Client, Range};

fn wire_value(v: &serde_json::Value) -> Value {
    if let Some(b) = v.as_bool() {
        return Value::Bool(b);
    }
    if let Some(n) = v.as_u64() {
        return Value::Number(n as usize);
    }
    if let Some(s) = v.as_str() {
        return Value::Text(s.to_string());
    }
    if let Some(list) = v.as_array() {
        if list.iter().all(|x| x.is_string()) {
            return Value::TextList(list.iter().map(|x| x.as_str().unwrap().to_string()).collect());
        }
    }
    Value::Other
}

fn wire_items(json: &str) -> Vec<WireItem> {
    let doc: serde_json::Value = serde_json::from_str(json).expect("Failed deserializing");
    let mut out = Vec::new();
    for entry in doc.get("items").and_then(|v| v.as_array()).expect("items") {
        let mut item = WireItem::empty();
        for (name, value) in entry.as_object().expect("object") {
            if let Some(field) = Field::from_wire_name(name) {
                item.set(field, wire_value(value));
            }
        }
        out.push(item);
    }
    out
}

fn item(n: usize, xvc: Option<bool>) -> MetadataItem {
    MetadataItem {
        typ: format!("app{n}"),
        has_content_id: n % 2 == 0,
        is_xvc: xvc,
        content_id: format!("c{n}"),
        product_id: format!("p{n}"),
        package_family_name: format!("pfn{n}"),
        one_store_product_id: format!("os{n}"),
        version: format!("v{n}"),
        size: n * 1000,
        allowed_product_id: format!("ap{n}"),
        allowed_package_family_name: format!("apfn{n}"),
        path: format!("/col/content/{n}"),
        availability: "available".to_string(),
        generation: "uwpgen9".to_string(),
        related_media: vec![format!("m{n}"), "x".to_string()],
        related_media_family_names: vec![],
    }
}

fn same(a: &MetadataItem, b: &MetadataItem) -> bool {
    a.typ == b.typ
        && a.has_content_id == b.has_content_id
        && a.is_xvc == b.is_xvc
        && a.content_id == b.content_id
        && a.product_id == b.product_id
        && a.package_family_name == b.package_family_name
        && a.one_store_product_id == b.one_store_product_id
        && a.version == b.version
        && a.size == b.size
        && a.allowed_product_id == b.allowed_product_id
        && a.allowed_package_family_name == b.allowed_package_family_name
        && a.path == b.path
        && a.availability == b.availability
        && a.generation == b.generation
        && a.related_media == b.related_media
        && a.related_media_family_names == b.related_media_family_names
}

#[test]
fn deserialize_metadata() {
    let json = r#"
        {
            "items": [
                {
                    "type": "app",
                    "hasContentId": false,
                    "contentId": "",
                    "productId": "",
                    "packageFamilyName": "11032Reconco.XboxControllerTester_thvmwcgtjwwvy",
                    "oneStoreProductId": "9NBLGGH4PNC7",
                    "version": "0",
                    "size": 0,
                    "allowedProductId": "",
                    "allowedPackageFamilyName": "",
                    "path": "/col/content/%7BA89ECE52-7E8E-444F-BBD0-C68B76C2ECA4%7D%2311032Reconco.XboxControllerTester_thvmwcgtjwwvy",
                    "availability": "available",
                    "generation": "uwpgen9",
                    "relatedMedia": [],
                    "relatedMediaFamilyNames": []
                }
            ]
        }
        "#;

    let deserialized = Metadata::decode(&wire_items(json)).expect("Failed deserializing");

    let first = deserialized.items.first().expect("Failed getting first entry");
    assert_eq!(first.typ, "app");
    assert!(!first.has_content_id);
    assert_eq!(first.content_id, "");
    assert_eq!(first.product_id, "");
    assert_eq!(first.package_family_name, "11032Reconco.XboxControllerTester_thvmwcgtjwwvy");
    assert_eq!(first.one_store_product_id, "9NBLGGH4PNC7");
    assert_eq!(first.version, "0");
    assert_eq!(first.size, 0);
    assert_eq!(first.allowed_product_id, "");
    assert_eq!(first.allowed_package_family_name, "");
    assert_eq!(first.path, "/col/content/%7BA89ECE52-7E8E-444F-BBD0-C68B76C2ECA4%7D%2311032Reconco.XboxControllerTester_thvmwcgtjwwvy");
    assert_eq!(first.availability, "available");
    assert_eq!(first.generation, "uwpgen9");
    assert!(first.related_media.is_empty());
    assert!(first.related_media_family_names.is_empty());
    assert_eq!(first.is_xvc, None);
}

#[test]
fn manifest_round_trip_keeps_every_member_and_the_order() {
    let manifest = Metadata { items: vec![item(3, None), item(1, Some(true)), item(2, Some(false))] };
    let decoded = Metadata::decode(&manifest.encode()).unwrap();
    assert_eq!(decoded.items.len(), 3);
    for (a, b) in manifest.items.iter().zip(decoded.items.iter()) {
        assert!(same(a, b));
    }
    assert_eq!(decoded.items[0].typ, "app3");
    assert_eq!(decoded.items[1].is_xvc, Some(true));
}

#[test]
fn sample_manifest_round_trips() {
    let sample = Metadata::sample();
    let decoded = Metadata::decode(&sample.encode()).unwrap();
    assert!(same(&sample.items[0], &decoded.items[0]));
}

#[test]
fn absent_optional_member_is_left_out() {
    let w = item(1, None).encode();
    assert!(w.is_xvc.is_none());
    assert!(w.get(Field::IsXvc).is_none());
    let x = item(1, Some(true)).encode();
    assert!(matches!(x.get(Field::IsXvc), Some(Value::Bool(true))));
    assert!(matches!(x.get(Field::Size), Some(Value::Number(1000))));
}

#[test]
fn missing_member_is_reported() {
    let mut w = item(1, None).encode();
    w.path = None;
    assert_eq!(MetadataItem::decode(&w).unwrap_err(), Error::MissingField(Field::Path));
    w.typ = None;
    assert_eq!(MetadataItem::decode(&w).unwrap_err(), Error::MissingField(Field::Type));
    assert_eq!(
        MetadataItem::decode(&WireItem::empty()).unwrap_err(),
        Error::MissingField(Field::Type)
    );
}

#[test]
fn member_of_the_wrong_kind_is_reported() {
    let mut w = item(1, None).encode();
    w.set(Field::Size, Value::Text("12".to_string()));
    assert_eq!(MetadataItem::decode(&w).unwrap_err(), Error::InvalidField(Field::Size));
    let mut x = item(1, None).encode();
    x.set(Field::IsXvc, Value::Other);
    assert_eq!(MetadataItem::decode(&x).unwrap_err(), Error::InvalidField(Field::IsXvc));
    let mut y = item(1, None).encode();
    y.set(Field::RelatedMedia, Value::Bool(true));
    y.set(Field::HasContentId, Value::Number(1));
    assert_eq!(MetadataItem::decode(&y).unwrap_err(), Error::InvalidField(Field::HasContentId));
}

#[test]
fn manifest_fails_with_the_first_faulty_item() {
    let mut list = Metadata { items: vec![item(1, None), item(2, None), item(3, None)] }.encode();
    list[1].version = None;
    list[2].typ = None;
    assert_eq!(Metadata::decode(&list).unwrap_err(), Error::MissingField(Field::Version));
    assert_eq!(Metadata::decode(&Vec::new()).unwrap().items.len(), 0);
}

#[test]
fn wire_names_are_camel_case() {
    let names: Vec<&str> = Field::all().into_iter().map(|f| f.wire_name()).collect();
    assert_eq!(
        names,
        vec![
            "type",
            "hasContentId",
            "isXvc",
            "contentId",
            "productId",
            "packageFamilyName",
            "oneStoreProductId",
            "version",
            "size",
            "allowedProductId",
            "allowedPackageFamilyName",
            "path",
            "availability",
            "generation",
            "relatedMedia",
            "relatedMediaFamilyNames",
        ]
    );
    for f in Field::all() {
        assert_eq!(Field::from_wire_name(f.wire_name()), Some(f));
    }
    assert_eq!(Field::from_wire_name("has_content_id"), None);
    assert_eq!(Field::from_wire_name(""), None);
}

#[test]
fn range_header_is_read() {
    let r = parse_range_header("bytes=0-0").unwrap();
    assert_eq!((r.first, r.last), (Some(0), Some(0)));
    let r = parse_range_header("bytes=1024-2047").unwrap();
    assert_eq!((r.first, r.last), (Some(1024), Some(2047)));
    let r = parse_range_header("bytes=100-").unwrap();
    assert_eq!((r.first, r.last), (Some(100), None));
    let r = parse_range_header("bytes=-5").unwrap();
    assert_eq!((r.first, r.last), (None, Some(5)));
    let r = parse_range_header("bytes=-").unwrap();
    assert_eq!((r.first, r.last), (None, None));
    let r = parse_range_header("bytes=+1-2").unwrap();
    assert_eq!((r.first, r.last), (Some(1), Some(2)));
}

#[test]
fn range_header_with_a_list_gives_its_first_range() {
    let r = parse_range_header("bytes=0-0,5-9").unwrap();
    assert_eq!((r.first, r.last), (Some(0), Some(0)));
    let r = parse_range_header("bytes=7-8, 5-9 ,1-2").unwrap();
    assert_eq!((r.first, r.last), (Some(7), Some(8)));
    let r = parse_range_header("bytes=x, 5-9 ,1-2").unwrap();
    assert_eq!((r.first, r.last), (Some(5), Some(9)));
    let r = parse_range_header("bytes=1-2-3,,\t4-5").unwrap();
    assert_eq!((r.first, r.last), (Some(4), Some(5)));
    let r = parse_range_header("bytes= 1-2 ").unwrap();
    assert_eq!((r.first, r.last), (Some(1), Some(2)));
    let plan = respond(parse_range_header("bytes=0-0,5-9"), 4200);
    assert_eq!(plan.status, 206);
    assert_eq!(plan.content_range.as_deref(), Some("bytes 0-0/4200"));
    assert_eq!((plan.body_offset, plan.body_len), (0, 1));
}

#[test]
fn malformed_range_header_is_refused() {
    for text in ["", "bytes", "bytes=", "bytes=5", "bytes=a-b", "bytes=1 -2", "bytes=1- 2",
                 "items=0-1", "bytes=1-2-3", "bytes=,", "bytes=x,y", "Bytes=1-2", " bytes=1-2",
                 "bytes=99999999999999999999999-1", "bytes=1\u{a0}-2"] {
        assert!(parse_range_header(text).is_none(), "{text}");
    }
}

#[test]
fn server_reads_what_the_client_asks() {
    let req = Client::download_chunk("u".to_string(), &Range::new(1024, 2047));
    let asked = parse_range_header(&req.headers[0].value);
    let r = respond(asked, 4200);
    assert_eq!(r.status, 206);
    assert_eq!(r.content_range.as_deref(), Some("bytes 1024-2047/4200"));
    assert_eq!((r.body_offset, r.body_len), (1024, 1024));
    let none: Option<RangeRequest> = None;
    assert_eq!(respond(none, 4200).status, 200);
}

#[test]
fn client_for_a_console() {
    let console = network_transfer::Console {
        address: [10, 0, 0, 229],
        port: 10248,
        id: "X1".to_string(),
        name: "XBOX".to_string(),
    };
    let client = Client::from_console(&console);
    assert_eq!(client.address, "10.0.0.229");
    assert_eq!(client.port, 10248);
    let zero = network_transfer::Console { address: [0, 255, 100, 9], port: 1, id: String::new(), name: String::new() };
    assert_eq!(Client::from_console(&zero).address, "0.255.100.9");
}

#[test]
fn bind_address_is_the_first_ipv4_of_the_choice() {
    let interfaces = vec![
        Interface { name: "lo".to_string(), addresses: vec![Address::V4([127, 0, 0, 1]), Address::V6] },
        Interface {
            name: "eth0".to_string(),
            addresses: vec![Address::V6, Address::V4([10, 0, 0, 5]), Address::V4([10, 0, 0, 6])],
        },
        Interface { name: "v6".to_string(), addresses: vec![Address::V6] },
    ];
    assert_eq!(choose_bind_addr(&interfaces, 1), Ok([10, 0, 0, 5]));
    assert_eq!(choose_bind_addr(&interfaces, 0), Ok([127, 0, 0, 1]));
    assert_eq!(choose_bind_addr(&interfaces, 2), Err(Error::NoIpv4Address));
    assert_eq!(choose_bind_addr(&interfaces, 3), Err(Error::InvalidChoice));
    assert_eq!(choose_bind_addr(&Vec::new(), 0), Err(Error::InvalidChoice));
    assert!(!interfaces[0].is_candidate());
    assert!(interfaces[1].is_candidate());
    assert!(!interfaces[2].is_candidate());
}
