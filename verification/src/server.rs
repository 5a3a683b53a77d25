//! What a stand-in console answers to a content request: how it reads the
//! content key, and which status, headers and bytes it replies with.

use vstd::prelude::*;
use vstd::string::*;
use crate::client::{content_range_total, probe_result, range_header_text};
use crate::error::Error;
use crate::models::{all_plain, content_key_text, is_plain};
use crate::range::Range;
use crate::text::{
    append_decimal, decimal, find_first, first_index, is_digit, lemma_decimal_value,
    lemma_first_index_unique, lemma_parse_decimal_of_decimal, lemma_suffix_start_unique,
    parse_decimal, parse_usize_in, to_chars,
};

verus! {

/// Whether `uuid::Uuid::parse_str` accepts `text`.
pub uninterp spec fn uuid_well_formed(text: Seq<char>) -> bool;

/// `uuid::Uuid::parse_str`: whether `text` is a UUID in one of the forms that
/// the parser knows. The answer depends on the text alone.
#[verifier::external_body]
fn is_uuid(text: &str) -> (ok: bool)
    ensures
        ok == uuid_well_formed(text@),
{
    uuid::Uuid::parse_str(text).is_ok()
}

/// Content type of every content response.
pub const CONTENT_TYPE: &'static str = "application/octet-stream";

/// Value of the `Accept-Ranges` header of every content response.
pub const ACCEPT_RANGES: &'static str = "bytes";

/// Value of the `Server` header, as the console sends it.
pub const SERVER_NAME: &'static str = "Microsoft-HTTPAPI/2.0";

pub const STATUS_OK: u16 = 200;

pub const STATUS_PARTIAL_CONTENT: u16 = 206;

pub const STATUS_RANGE_NOT_SATISFIABLE: u16 = 416;

/// The two parts of a content key, `{driveId}#{filename}`.
#[derive(Debug)]
pub struct ContentKey {
    pub drive_id: String,
    pub filename: String,
}

/// The bounds of a `Range` header, each as far as the request gives it.
#[derive(Debug, Clone, Copy)]
pub struct RangeRequest {
    pub first: Option<usize>,
    pub last: Option<usize>,
}

/// The answer to a content request, but for the bytes themselves.
#[derive(Debug)]
pub struct ContentResponse {
    pub status: u16,
    pub content_type: &'static str,
    pub accept_ranges: &'static str,
    pub server: &'static str,
    /// Value of the `Content-Range` header, where the response has one.
    pub content_range: Option<String>,
    /// Where in the file the body starts.
    pub body_offset: usize,
    /// How many bytes of the file the body holds.
    pub body_len: usize,
}

/// What a request gets of a file.
pub enum Served {
    /// The whole file.
    Full,
    /// The bytes of a range that lies inside the file.
    Partial(Range),
    /// Nothing: the range asked for holds no byte of the file.
    Unsatisfiable,
}

/// Where a key splits: the parts before and behind its first `#`, if it has
/// one and something follows it.
pub open spec fn key_parts(key: Seq<char>) -> Option<(Seq<char>, Seq<char>)> {
    let k = first_index(key, '#');
    if k + 1 < key.len() {
        Some((key.take(k), key.skip(k + 1)))
    } else {
        None
    }
}

/// What a content key denotes, or why it denotes nothing.
pub open spec fn content_key(key: Seq<char>) -> Result<(Seq<char>, Seq<char>), Error> {
    match key_parts(key) {
        None => Err(Error::MalformedContentKey),
        Some((drive_id, filename)) => if uuid_well_formed(drive_id) {
            Ok((drive_id, filename))
        } else {
            Err(Error::InvalidDriveId)
        },
    }
}

/// First byte that a request asks for: the start of the file unless it says
/// otherwise.
pub open spec fn first_asked(req: RangeRequest) -> int {
    match req.first {
        Some(first) => first as int,
        None => 0,
    }
}

/// Last byte that a request asks for: the end of the file unless it says
/// otherwise.
pub open spec fn last_asked(req: RangeRequest, total: usize) -> int {
    match req.last {
        Some(last) => last as int,
        None => total - 1,
    }
}

/// What a request gets of a file of `total` bytes. Without a range it gets the
/// whole file. A range that starts behind the end, or ends before it starts,
/// gets nothing. Any other range gets its bytes as far as the file has them.
pub open spec fn served(req: Option<RangeRequest>, total: usize) -> Served {
    match req {
        None => Served::Full,
        Some(r) => {
            let first = first_asked(r);
            let last = last_asked(r, total);
            if first >= total || last < first {
                Served::Unsatisfiable
            } else if last >= total {
                Served::Partial(Range { first_byte: first as usize, last_byte: (total - 1) as usize })
            } else {
                Served::Partial(Range { first_byte: first as usize, last_byte: last as usize })
            }
        },
    }
}

/// A blank of a header value: a space or a tab.
pub open spec fn is_blank(c: char) -> bool {
    c == ' ' || c == '\t'
}

/// `text` without the blanks at its start.
pub open spec fn trim_start(text: Seq<char>) -> Seq<char>
    decreases text.len(),
{
    if text.len() > 0 && is_blank(text[0]) {
        trim_start(text.skip(1))
    } else {
        text
    }
}

/// `text` without the blanks at its end.
pub open spec fn trim_end(text: Seq<char>) -> Seq<char>
    decreases text.len(),
{
    if text.len() > 0 && is_blank(text.last()) {
        trim_end(text.drop_last())
    } else {
        text
    }
}

/// One bound of a range: none where the text is empty, a number where it
/// reads as one that fits; nothing else is a bound.
pub open spec fn range_bound(text: Seq<char>) -> Option<Option<usize>> {
    if text.len() == 0 {
        Some(None)
    } else {
        match parse_decimal(text) {
            Some(n) => Some(Some(n)),
            None => None,
        }
    }
}

/// What one range of a list asks for: blanks aside, a first and a last byte
/// around the first `-`, of which either may be left out.
pub open spec fn range_spec(text: Seq<char>) -> Option<RangeRequest> {
    let t = trim_end(trim_start(text));
    let dash = first_index(t, '-');
    if dash >= t.len() {
        None
    } else {
        match (range_bound(t.take(dash)), range_bound(t.skip(dash + 1))) {
            (Some(first), Some(last)) => Some(RangeRequest { first, last }),
            _ => None,
        }
    }
}

/// The first range of a list, separated by commas, that reads as a range.
pub open spec fn first_range(list: Seq<char>) -> Option<RangeRequest>
    decreases list.len(),
{
    let comma = first_index(list, ',');
    match range_spec(list.take(comma)) {
        Some(r) => Some(r),
        None => if 0 <= comma < list.len() {
            first_range(list.skip(comma + 1))
        } else {
            None
        },
    }
}

/// What the value of a `Range` header asks for: `bytes=`, then a list of
/// ranges, of which the first that reads as a range counts.
pub open spec fn range_header(value: Seq<char>) -> Option<RangeRequest> {
    if value.len() < 6 || value.take(6) != "bytes="@ {
        None
    } else {
        first_range(value.skip(6))
    }
}

/// `bytes first-last/total`.
pub open spec fn content_range_text(first: usize, last: usize, total: usize) -> Seq<char> {
    "bytes "@ + decimal(first as nat) + "-"@ + decimal(last as nat) + "/"@ + decimal(
        total as nat,
    )
}

/// `bytes */total`.
pub open spec fn unsatisfied_range_text(total: usize) -> Seq<char> {
    "bytes */"@ + decimal(total as nat)
}

/// The view of an optional text.
pub open spec fn opt_string_view(text: Option<String>) -> Option<Seq<char>> {
    match text {
        Some(t) => Some(t@),
        None => None,
    }
}

/// Splits a key at its first `#`.
pub fn split_content_key(key: &str) -> (r: Option<(String, String)>)
    ensures
        match (key_parts(key@), r) {
            (Some((drive_id, filename)), Some((d, f))) => d@ == drive_id && f@ == filename,
            (None, None) => true,
            _ => false,
        },
{
    let chars = to_chars(key);
    let k = find_first(&chars, '#');
    let n = chars.len();
    if k < n && k + 1 < n {
        let drive_id = key.substring_char(0, k);
        let filename = key.substring_char(k + 1, n);
        proof {
            assert(key@.subrange(0, k as int) =~= key@.take(k as int));
            assert(key@.subrange(k + 1, n as int) =~= key@.skip(k + 1));
        }
        Some((String::from_str(drive_id), String::from_str(filename)))
    } else {
        None
    }
}

/// Makes a content key of its two parts, given whether the drive id is a
/// well-formed UUID.
pub fn checked_content_key(drive_id: String, filename: String, drive_id_ok: bool) -> (r: Result<
    ContentKey,
    Error,
>)
    ensures
        drive_id_ok ==> r is Ok && r->Ok_0.drive_id == drive_id && r->Ok_0.filename == filename,
        !drive_id_ok ==> r == Err::<ContentKey, Error>(Error::InvalidDriveId),
{
    if drive_id_ok {
        Ok(ContentKey { drive_id, filename })
    } else {
        Err(Error::InvalidDriveId)
    }
}

/// Reads a content key: the drive id before the first `#`, which must be a
/// UUID, and the file name behind it, which must not be empty.
pub fn parse_content_key(key: &str) -> (r: Result<ContentKey, Error>)
    ensures
        match content_key(key@) {
            Ok((drive_id, filename)) => r is Ok && r->Ok_0.drive_id@ == drive_id
                && r->Ok_0.filename@ == filename,
            Err(e) => r == Err::<ContentKey, Error>(e),
        },
{
    match split_content_key(key) {
        None => Err(Error::MalformedContentKey),
        Some((drive_id, filename)) => {
            let ok = is_uuid(drive_id.as_str());
            checked_content_key(drive_id, filename, ok)
        },
    }
}

fn parse_bound(chars: &Vec<char>, from: usize, to: usize) -> (r: Option<Option<usize>>)
    requires
        from <= to <= chars.len(),
    ensures
        r == range_bound(chars@.subrange(from as int, to as int)),
{
    if from == to {
        Some(None)
    } else {
        match parse_usize_in(chars, from, to) {
            Some(n) => Some(Some(n)),
            None => None,
        }
    }
}

fn parse_spec(chars: &Vec<char>, from: usize, to: usize) -> (r: Option<RangeRequest>)
    requires
        from <= to <= chars.len(),
    ensures
        r == range_spec(chars@.subrange(from as int, to as int)),
{
    let ghost text = chars@.subrange(from as int, to as int);
    let mut a: usize = from;
    while a < to && (chars[a] == ' ' || chars[a] == '\t')
        invariant
            from <= a <= to,
            to <= chars.len(),
            trim_start(text) == trim_start(chars@.subrange(a as int, to as int)),
        decreases to - a,
    {
        proof {
            let here = chars@.subrange(a as int, to as int);
            assert(here[0] == chars@[a as int]);
            assert(here.skip(1) =~= chars@.subrange(a + 1, to as int));
        }
        a = a + 1;
    }
    proof {
        let here = chars@.subrange(a as int, to as int);
        if a < to {
            assert(here[0] == chars@[a as int]);
        }
        assert(trim_start(text) == here);
    }
    let ghost front = chars@.subrange(a as int, to as int);
    let mut b: usize = to;
    while b > a && (chars[b - 1] == ' ' || chars[b - 1] == '\t')
        invariant
            a <= b <= to,
            to <= chars.len(),
            trim_end(front) == trim_end(chars@.subrange(a as int, b as int)),
        decreases b,
    {
        proof {
            let here = chars@.subrange(a as int, b as int);
            assert(here.last() == chars@[b - 1]);
            assert(here.drop_last() =~= chars@.subrange(a as int, b - 1));
        }
        b = b - 1;
    }
    let ghost t = chars@.subrange(a as int, b as int);
    proof {
        if b > a {
            assert(t.last() == chars@[b - 1]);
        }
        assert(trim_end(front) == t);
    }
    let mut dash: usize = a;
    while dash < b && chars[dash] != '-'
        invariant
            a <= dash <= b,
            b <= chars.len(),
            t == chars@.subrange(a as int, b as int),
            forall|j: int| 0 <= j < dash - a ==> t[j] != '-',
        decreases b - dash,
    {
        proof {
            assert(t[dash - a] == chars@[dash as int]);
        }
        dash = dash + 1;
    }
    proof {
        if dash < b {
            assert(t[dash - a] == chars@[dash as int]);
        }
        lemma_first_index_unique(t, '-', dash - a);
    }
    if dash >= b {
        return None;
    }
    proof {
        assert(t.take(dash - a) =~= chars@.subrange(a as int, dash as int));
        assert(t.skip(dash - a + 1) =~= chars@.subrange(dash + 1, b as int));
    }
    let first = parse_bound(chars, a, dash);
    let last = parse_bound(chars, dash + 1, b);
    match (first, last) {
        (Some(first), Some(last)) => Some(RangeRequest { first, last }),
        _ => None,
    }
}

/// Reads the value of a `Range` header: the first range of its list that
/// reads as one.
pub fn parse_range_header(value: &str) -> (r: Option<RangeRequest>)
    ensures
        r == range_header(value@),
{
    let chars = to_chars(value);
    let n: usize = chars.len();
    proof {
        reveal_strlit("bytes=");
    }
    if n < 6 || chars[0] != 'b' || chars[1] != 'y' || chars[2] != 't' || chars[3] != 'e'
        || chars[4] != 's' || chars[5] != '=' {
        proof {
            if n >= 6 {
                let p = value@.take(6);
                assert(p[0] == value@[0] && p[1] == value@[1] && p[2] == value@[2] && p[3]
                    == value@[3] && p[4] == value@[4] && p[5] == value@[5]);
            }
        }
        return None;
    }
    proof {
        assert(value@.take(6) =~= "bytes="@);
        assert(value@.skip(6) =~= chars@.subrange(6, n as int));
    }
    let mut start: usize = 6;
    loop
        invariant
            6 <= start <= n,
            n == chars.len(),
            range_header(value@) == first_range(chars@.subrange(start as int, n as int)),
        decreases n - start,
    {
        let ghost list = chars@.subrange(start as int, n as int);
        let mut comma: usize = start;
        while comma < n && chars[comma] != ','
            invariant
                start <= comma <= n,
                n == chars.len(),
                list == chars@.subrange(start as int, n as int),
                forall|j: int| 0 <= j < comma - start ==> list[j] != ',',
            decreases n - comma,
        {
            proof {
                assert(list[comma - start] == chars@[comma as int]);
            }
            comma = comma + 1;
        }
        proof {
            if comma < n {
                assert(list[comma - start] == chars@[comma as int]);
            }
            lemma_first_index_unique(list, ',', comma - start);
            assert(list.take(comma - start) =~= chars@.subrange(start as int, comma as int));
            if comma < n {
                assert(list.skip(comma - start + 1) =~= chars@.subrange(comma + 1, n as int));
            }
        }
        match parse_spec(&chars, start, comma) {
            Some(r) => {
                return Some(r);
            },
            None => {},
        }
        if comma >= n {
            return None;
        }
        start = comma + 1;
    }
}

fn response(status: u16, content_range: Option<String>, body_offset: usize, body_len: usize) -> (r:
    ContentResponse)
    ensures
        r.status == status,
        r.content_range == content_range,
        r.body_offset == body_offset,
        r.body_len == body_len,
        r.content_type@ == CONTENT_TYPE@,
        r.accept_ranges@ == ACCEPT_RANGES@,
        r.server@ == SERVER_NAME@,
{
    ContentResponse {
        status,
        content_type: CONTENT_TYPE,
        accept_ranges: ACCEPT_RANGES,
        server: SERVER_NAME,
        content_range,
        body_offset,
        body_len,
    }
}

/// Which bytes of a file of `total` bytes a request gets: all of them where it
/// names no range, those of its range as far as the file has them, or the
/// failure `RangeNotSatisfiable` where the file has none of them.
pub fn select_range(req: Option<RangeRequest>, total: usize) -> (r: Result<Option<Range>, Error>)
    ensures
        match served(req, total) {
            Served::Full => r == Ok::<Option<Range>, Error>(None),
            Served::Partial(range) => r == Ok::<Option<Range>, Error>(Some(range)),
            Served::Unsatisfiable => r == Err::<Option<Range>, Error>(
                Error::RangeNotSatisfiable { total },
            ),
        },
        r matches Ok(Some(range)) ==> range.wf() && range.last_byte < total,
{
    match req {
        None => Ok(None),
        Some(range) => {
            let first: usize = match range.first {
                Some(first) => first,
                None => 0,
            };
            if first >= total {
                return Err(Error::RangeNotSatisfiable { total });
            }
            let last: usize = match range.last {
                Some(last) => if last >= total {
                    total - 1
                } else {
                    last
                },
                None => total - 1,
            };
            if last < first {
                return Err(Error::RangeNotSatisfiable { total });
            }
            Ok(Some(Range::new(first, last)))
        },
    }
}

/// The answer to a content request for a file of `total` bytes.
///
/// Without a range: 200 and the whole file. With a range that holds a byte of
/// the file: 206, `Content-Range: bytes first-last/total` and those bytes.
/// Otherwise: 416, `Content-Range: bytes */total` and no body. The three fixed
/// headers are the same in each.
pub fn respond(req: Option<RangeRequest>, total: usize) -> (r: ContentResponse)
    ensures
        r.content_type@ == CONTENT_TYPE@,
        r.accept_ranges@ == ACCEPT_RANGES@,
        r.server@ == SERVER_NAME@,
        match served(req, total) {
            Served::Full => {
                &&& r.status == 200
                &&& r.content_range is None
                &&& r.body_offset == 0
                &&& r.body_len == total
            },
            Served::Partial(range) => {
                &&& r.status == 206
                &&& opt_string_view(r.content_range) == Some(
                    content_range_text(range.first_byte, range.last_byte, total),
                )
                &&& r.body_offset == range.first_byte
                &&& r.body_len == range.spec_count()
            },
            Served::Unsatisfiable => {
                &&& r.status == 416
                &&& opt_string_view(r.content_range) == Some(unsatisfied_range_text(total))
                &&& r.body_offset == 0
                &&& r.body_len == 0
            },
        },
{
    match select_range(req, total) {
        Ok(None) => response(STATUS_OK, None, 0, total),
        Ok(Some(range)) => {
            let mut text = String::from_str("bytes ");
            append_decimal(&mut text, range.first_byte);
            text.append("-");
            append_decimal(&mut text, range.last_byte);
            text.append("/");
            append_decimal(&mut text, total);
            response(STATUS_PARTIAL_CONTENT, Some(text), range.first_byte, range.count())
        },
        Err(_) => unsatisfiable(total),
    }
}

fn unsatisfiable(total: usize) -> (r: ContentResponse)
    ensures
        r.status == 416,
        opt_string_view(r.content_range) == Some(unsatisfied_range_text(total)),
        r.body_offset == 0,
        r.body_len == 0,
        r.content_type@ == CONTENT_TYPE@,
        r.accept_ranges@ == ACCEPT_RANGES@,
        r.server@ == SERVER_NAME@,
{
    let mut text = String::from_str("bytes */");
    append_decimal(&mut text, total);
    response(STATUS_RANGE_NOT_SATISFIABLE, Some(text), 0, 0)
}

/// A client that reads the content-range header of a partial response finds
/// the file's total length in it.
pub proof fn lemma_content_range_announces_total(first: usize, last: usize, total: usize)
    ensures
        content_range_total(content_range_text(first, last, total)) == Some(total),
        probe_result(206, Some(content_range_text(first, last, total))) == Ok::<usize, Error>(
            total,
        ),
{
    reveal_strlit("/");
    let head = "bytes "@ + decimal(first as nat) + "-"@ + decimal(last as nat) + "/"@;
    let tail = decimal(total as nat);
    let value = content_range_text(first, last, total);
    lemma_decimal_value(total as nat);
    assert(value =~= head + tail);
    assert(head.last() == '/');
    assert forall|j: int| head.len() <= j < value.len() implies value[j] != '/' by {
        assert(value[j] == tail[j - head.len()]);
        assert(is_digit(tail[j - head.len()]));
    }
    lemma_suffix_start_unique(value, '/', head.len() as int);
    assert(value.skip(head.len() as int) =~= tail);
    lemma_parse_decimal_of_decimal(total);
}

/// The writing of a number is a bound that reads as that number, and holds
/// neither a `-` nor a `,` nor a blank.
proof fn lemma_bound_of_decimal(n: usize)
    ensures
        range_bound(decimal(n as nat)) == Some(Some(n)),
        decimal(n as nat).len() > 0,
        forall|j: int|
            0 <= j < decimal(n as nat).len() ==> is_digit(#[trigger] decimal(n as nat)[j]),
{
    lemma_decimal_value(n as nat);
    lemma_parse_decimal_of_decimal(n);
}

/// A server that reads the range header which a client wrote for a range finds
/// the bounds of that range in it.
pub proof fn lemma_range_header_round_trip(first: usize, last: usize)
    ensures
        range_header(range_header_text(first, last)) == Some(
            RangeRequest { first: Some(first), last: Some(last) },
        ),
{
    reveal_strlit("bytes=");
    reveal_strlit("-");
    let a = decimal(first as nat);
    let b = decimal(last as nat);
    let value = range_header_text(first, last);
    lemma_bound_of_decimal(first);
    lemma_bound_of_decimal(last);
    assert(value.take(6) =~= "bytes="@);
    let rest = value.skip(6);
    assert(rest =~= a + "-"@ + b);
    assert(rest[a.len() as int] == '-');
    assert forall|j: int| 0 <= j < rest.len() implies rest[j] != ',' && !is_blank(rest[j])
        && (j < a.len() ==> rest[j] != '-') by {
        if j < a.len() {
            assert(rest[j] == a[j]);
            assert(is_digit(a[j]));
        } else if j > a.len() {
            assert(rest[j] == b[j - a.len() - 1]);
            assert(is_digit(b[j - a.len() - 1]));
        }
    }
    lemma_first_index_unique(rest, ',', rest.len() as int);
    assert(rest.take(rest.len() as int) =~= rest);
    assert(!is_blank(rest[0]));
    assert(!is_blank(rest.last()));
    assert(trim_end(trim_start(rest)) == rest);
    lemma_first_index_unique(rest, '-', a.len() as int);
    assert(rest.take(a.len() as int) =~= a);
    assert(rest.skip(a.len() as int + 1) =~= b);
}

/// A request for a range that lies inside a file, written by a client and read
/// by the server, is answered with exactly the bytes of that range.
pub proof fn lemma_range_inside_file_is_served(range: Range, total: usize)
    requires
        range.wf(),
        range.last_byte < total,
    ensures
        served(range_header(range_header_text(range.first_byte, range.last_byte)), total)
            == Served::Partial(range),
{
    lemma_range_header_round_trip(range.first_byte, range.last_byte);
}

/// The three answers: a request without a range gets the whole file; a request
/// for the first byte of a file that has one gets exactly that byte; a request
/// that starts at or behind the end of the file gets nothing.
pub proof fn lemma_serving_rules(total: usize, first: usize, last: usize)
    ensures
        served(None, total) == Served::Full,
        total > 0 ==> served(Some(RangeRequest { first: Some(0), last: Some(0) }), total)
            == Served::Partial(Range { first_byte: 0, last_byte: 0 }),
        first >= total ==> served(
            Some(RangeRequest { first: Some(first), last: Some(last) }),
            total,
        ) == Served::Unsatisfiable,
{
}

/// The content key that an item's path encodes splits into the drive id in
/// its braces and the file name: the key of a drive id that needs no encoding
/// and of a file name that is not empty is read as a content key exactly if
/// the braced drive id is a well-formed UUID, and then gives that drive id and
/// that file name.
pub proof fn lemma_content_key_splits(drive_id: Seq<char>, filename: Seq<char>)
    requires
        all_plain(drive_id),
        filename.len() > 0,
    ensures
        key_parts(content_key_text(drive_id, filename)) == Some(
            ("{"@ + drive_id + "}"@, filename),
        ),
        content_key(content_key_text(drive_id, filename)) == if uuid_well_formed(
            "{"@ + drive_id + "}"@,
        ) {
            Ok::<(Seq<char>, Seq<char>), Error>(("{"@ + drive_id + "}"@, filename))
        } else {
            Err::<(Seq<char>, Seq<char>), Error>(Error::InvalidDriveId)
        },
{
    reveal_strlit("{");
    reveal_strlit("}");
    reveal_strlit("}#");
    let key = content_key_text(drive_id, filename);
    let k = drive_id.len() as int + 2;
    assert(key[k] == '#');
    assert forall|j: int| 0 <= j < k implies key[j] != '#' by {
        if 1 <= j <= drive_id.len() {
            assert(key[j] == drive_id[j - 1]);
            assert(is_plain(drive_id[j - 1]));
        }
    }
    lemma_first_index_unique(key, '#', k);
    assert(key.take(k) =~= "{"@ + drive_id + "}"@);
    assert(key.skip(k + 1) =~= filename);
}

} // verus!
