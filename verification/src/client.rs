//! The requests that a client sends to a console, and how it reads the answer
//! to the length probe.

use vstd::prelude::*;
use vstd::string::*;
use crate::discovery::Console;
use crate::error::Error;
use crate::range::{pieces, Range, RangeIter};
use crate::transfer::{
    state_wf, step, transition, TransferAction, TransferEvent, TransferState,
};
use crate::text::{
    append_decimal, decimal, find_suffix_start, parse_decimal, parse_usize, suffix_start,
    to_chars,
};

verus! {

/// What `url::Url::parse` makes of `base` once `url::Url::set_path` has put
/// `path` in the place of its path, as text; nothing where the parser rejects
/// `base`.
pub uninterp spec fn url_with_path(base: Seq<char>, path: Seq<char>) -> Option<Seq<char>>;

/// `url::Url::parse`, `url::Url::set_path` and `String::from` for `url::Url`:
/// parses `base`, replaces the path of the URL by `path` and gives the URL's
/// text, or `None` where the parser rejects `base`. The text depends on the
/// two arguments alone. `set_path` aborts on a URL whose text outgrows 32
/// bits, so both arguments are kept short.
#[verifier::external_body]
fn make_url(base: &str, path: &str) -> (r: Option<String>)
    requires
        base@.len() <= MAX_BASE_LEN,
        path@.len() <= MAX_PATH_LEN,
    ensures
        match url_with_path(base@, path@) {
            Some(text) => r is Some && r->0@ == text,
            None => r is None,
        },
{
    match url::Url::parse(base) {
        Ok(mut url) => {
            url.set_path(path);
            Some(String::from(url))
        },
        Err(_) => None,
    }
}

/// The longest path, in characters, that `get_url` takes.
pub const MAX_PATH_LEN: usize = 65535;

/// The longest text `http://address:port`, in characters, that `get_url` takes.
pub const MAX_BASE_LEN: usize = 65535;

/// Path of the manifest on a console.
pub const METADATA_PATH: &'static str = "/col/metadata";

/// What the client calls itself in its requests.
pub const USER_AGENT: &'static str = "CopyOnLanSvc";

/// The status that answers a range request.
pub const PARTIAL_CONTENT: u16 = 206;

/// A header of a request.
#[derive(Debug)]
pub struct Header {
    pub name: String,
    pub value: String,
}

/// A GET request that the caller is to send.
#[derive(Debug)]
pub struct Request {
    pub url: String,
    pub headers: Vec<Header>,
}

/// The address of a console's HTTP service.
#[derive(Debug)]
pub struct Client {
    pub address: String,
    pub port: u16,
}

/// The text `http://address:port`.
pub open spec fn base_url_text(address: Seq<char>, port: u16) -> Seq<char> {
    "http://"@ + address + ":"@ + decimal(port as nat)
}

/// The dotted writing of an IPv4 address.
pub open spec fn ipv4_text(address: [u8; 4]) -> Seq<char> {
    decimal(address[0] as nat) + "."@ + decimal(address[1] as nat) + "."@ + decimal(
        address[2] as nat,
    ) + "."@ + decimal(address[3] as nat)
}

/// The value of a `range` header that asks for `first ..= last`.
pub open spec fn range_header_text(first: usize, last: usize) -> Seq<char> {
    "bytes="@ + decimal(first as nat) + "-"@ + decimal(last as nat)
}

/// The total length that a content-range value announces: the number behind
/// its last `/`.
pub open spec fn content_range_total(value: Seq<char>) -> Option<usize> {
    parse_decimal(value.skip(suffix_start(value, '/')))
}

/// What the answer to the length probe says: the total length, if the status
/// is 206 and the content-range header ends in a number.
pub open spec fn probe_result(status: u16, content_range: Option<Seq<char>>) -> Result<
    usize,
    Error,
> {
    if status != 206 {
        Err(Error::UnexpectedStatus(status))
    } else {
        match content_range {
            None => Err(Error::MissingContentRange),
            Some(value) => match content_range_total(value) {
                Some(total) => Ok(total),
                None => Err(Error::MalformedContentRange),
            },
        }
    }
}

/// The view of an optional text.
pub open spec fn opt_view(text: Option<&str>) -> Option<Seq<char>> {
    match text {
        Some(t) => Some(t@),
        None => None,
    }
}

fn header(name: &str, value: String) -> (h: Header)
    ensures
        h.name@ == name@,
        h.value@ == value@,
{
    Header { name: String::from_str(name), value }
}

impl Client {
    pub fn new(address: &str, port: u16) -> (c: Self)
        ensures
            c.address@ == address@,
            c.port == port,
    {
        Client { address: String::from_str(address), port }
    }

    /// The client for a console: its address in dotted writing, and its port.
    pub fn from_console(console: &Console) -> (c: Self)
        ensures
            c.address@ == ipv4_text(console.address),
            c.port == console.port,
    {
        let mut address = String::new();
        append_decimal(&mut address, console.address[0] as usize);
        address.append(".");
        append_decimal(&mut address, console.address[1] as usize);
        address.append(".");
        append_decimal(&mut address, console.address[2] as usize);
        address.append(".");
        append_decimal(&mut address, console.address[3] as usize);
        Client { address, port: console.port }
    }

    /// The text `http://address:port` for this client.
    pub fn base_url(&self) -> (text: String)
        ensures
            text@ == base_url_text(self.address@, self.port),
    {
        let mut text = String::from_str("http://");
        text.append(self.address.as_str());
        text.append(":");
        append_decimal(&mut text, self.port as usize);
        text
    }

    /// The URL that came of an address, or the failure where none came.
    pub fn url_from(made: Option<String>) -> (r: Result<String, Error>)
        ensures
            match made {
                Some(text) => r == Ok::<String, Error>(text),
                None => r == Err::<String, Error>(Error::InvalidAddress),
            },
    {
        match made {
            Some(text) => Ok(text),
            None => Err(Error::InvalidAddress),
        }
    }

    /// The URL of `path` on the console: the base URL, parsed, with its path
    /// replaced. A path of more than `MAX_PATH_LEN` characters gives
    /// `PathTooLong`; a base URL of more than `MAX_BASE_LEN` characters, or
    /// one that the parser rejects, gives `InvalidAddress`; every other
    /// address and path give the URL.
    pub fn get_url(&self, path: &str) -> (r: Result<String, Error>)
        ensures
            path@.len() > MAX_PATH_LEN ==> r == Err::<String, Error>(Error::PathTooLong),
            path@.len() <= MAX_PATH_LEN && base_url_text(self.address@, self.port).len()
                > MAX_BASE_LEN ==> r == Err::<String, Error>(Error::InvalidAddress),
            path@.len() <= MAX_PATH_LEN && base_url_text(self.address@, self.port).len()
                <= MAX_BASE_LEN ==> match url_with_path(
                base_url_text(self.address@, self.port),
                path@,
            ) {
                Some(text) => r is Ok && r->Ok_0@ == text,
                None => r == Err::<String, Error>(Error::InvalidAddress),
            },
    {
        if path.unicode_len() > MAX_PATH_LEN {
            return Err(Error::PathTooLong);
        }
        let base = self.base_url();
        if base.as_str().unicode_len() > MAX_BASE_LEN {
            return Err(Error::InvalidAddress);
        }
        Self::url_from(make_url(base.as_str(), path))
    }

    /// The request that gets the manifest, to be sent to `url`.
    pub fn get_metadata(url: String) -> (req: Request)
        ensures
            req.url == url,
            req.headers@.len() == 3,
            req.headers@[0].name@ == "Accept"@,
            req.headers@[0].value@ == "application/json"@,
            req.headers@[1].name@ == "user-agent"@,
            req.headers@[1].value@ == USER_AGENT@,
            req.headers@[2].name@ == "x-contract-version"@,
            req.headers@[2].value@ == "1"@,
    {
        let mut headers: Vec<Header> = Vec::new();
        headers.push(header("Accept", String::from_str("application/json")));
        headers.push(header("user-agent", String::from_str(USER_AGENT)));
        headers.push(header("x-contract-version", String::from_str("1")));
        Request { url, headers }
    }

    /// The pieces of `step_size` bytes that cover `size` bytes, handed out one
    /// at a time.
    pub fn iterate_range(size: usize, step_size: usize) -> (it: RangeIter)
        requires
            step_size > 0,
        ensures
            it.wf(),
            it.total() == size,
            it.step() == step_size,
            it.position() == 0,
            it.remaining() == pieces(size, step_size),
    {
        RangeIter::new(size, step_size)
    }

    /// The request for exactly the bytes of `range`, to be sent to `url`.
    pub fn download_chunk(url: String, range: &Range) -> (req: Request)
        ensures
            req.url == url,
            req.headers@.len() == 1,
            req.headers@[0].name@ == "range"@,
            req.headers@[0].value@ == range_header_text(range.first_byte, range.last_byte),
    {
        let mut value = String::from_str("bytes=");
        append_decimal(&mut value, range.first_byte);
        value.append("-");
        append_decimal(&mut value, range.last_byte);
        let mut headers: Vec<Header> = Vec::new();
        headers.push(header("range", value));
        Request { url, headers }
    }

    /// Starts the transfer of an item whose total length is known, in pieces
    /// of `chunk_size` bytes: gives the state of the transfer and the first
    /// thing to do, which is to fetch the first piece, or to stop where the
    /// item is empty.
    pub fn download_chunks(content_length: usize, chunk_size: usize) -> (r: (
        TransferState,
        TransferAction,
    ))
        requires
            chunk_size > 0,
        ensures
            r == transition(
                TransferState::ProbingLength { chunk_size },
                TransferEvent::LengthProbed { total: content_length },
            ),
            state_wf(r.0),
    {
        step(
            TransferState::ProbingLength { chunk_size },
            TransferEvent::LengthProbed { total: content_length },
        )
    }

    /// The request that probes for the total length of an item: one for its
    /// first byte.
    pub fn probe_request(url: String) -> (req: Request)
        ensures
            req.url == url,
            req.headers@.len() == 1,
            req.headers@[0].name@ == "range"@,
            req.headers@[0].value@ == range_header_text(0, 0),
    {
        let zero = Range::default();
        Self::download_chunk(url, &zero)
    }

    /// Reads the total length of an item from the answer to the probe, given
    /// the answer's status and its content-range header.
    pub fn get_item_filesize(status: u16, content_range: Option<&str>) -> (r: Result<
        usize,
        Error,
    >)
        ensures
            r == probe_result(status, opt_view(content_range)),
    {
        if status != PARTIAL_CONTENT {
            return Err(Error::UnexpectedStatus(status));
        }
        match content_range {
            None => Err(Error::MissingContentRange),
            Some(value) => {
                let chars = to_chars(value);
                let start = find_suffix_start(&chars, '/');
                match parse_usize(&chars, start) {
                    Some(total) => Ok(total),
                    None => Err(Error::MalformedContentRange),
                }
            },
        }
    }
}

} // verus!
