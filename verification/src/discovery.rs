//! Service records: what a console publishes about itself, and how a resolved
//! record is read back into a console.

use vstd::prelude::*;
use vstd::string::*;
use crate::error::{Error, TxtKey};

verus! {

/// `mdns_sd::ServiceInfo`: a service record as the responder holds it. Nothing
/// is known of what is inside: the functions below read it out.
#[verifier::external_type_specification]
#[verifier::external_body]
pub struct ExServiceInfo(mdns_sd::ServiceInfo);

/// `mdns_sd::ServiceInfo::new`: a service record of the given type, instance
/// name, host name, address, port and text properties, or `None` where the
/// responder rejects one of them. It rejects an address that does not parse,
/// which the dotted writing of four bytes always does, and a key that is not
/// ASCII or holds `=`, and nothing else: so it takes a record whose keys are
/// all acceptable. Nothing is claimed of what is inside the record it makes.
#[verifier::external_body]
fn new_service_info(
    service_type: &str,
    instance_name: &str,
    hostname: &str,
    address: &[u8; 4],
    port: u16,
    properties: &Vec<TxtEntry>,
) -> (r: Option<mdns_sd::ServiceInfo>)
    ensures
        keys_acceptable(entries(properties@)) ==> r is Some,
{
    let ip = format!("{}.{}.{}.{}", address[0], address[1], address[2], address[3]);
    let pairs: Vec<(&str, &str)> =
        properties.iter().map(|p| (p.key.as_str(), p.value.as_str())).collect();
    mdns_sd::ServiceInfo::new(service_type, instance_name, hostname, ip, port, &pairs[..]).ok()
}

/// `mdns_sd::ServiceInfo::get_addresses`: the addresses that the record
/// advertises, in the order in which the record's set hands them out.
#[verifier::external_body]
fn service_addresses(info: &mdns_sd::ServiceInfo) -> (r: Vec<[u8; 4]>) {
    info.get_addresses().iter().map(|a| a.octets()).collect()
}

/// `mdns_sd::ServiceInfo::get_port`: the port that the record advertises.
#[verifier::external_body]
fn service_port(info: &mdns_sd::ServiceInfo) -> (r: u16) {
    info.get_port()
}

/// `mdns_sd::ServiceInfo::get_properties`: the text properties of the record,
/// in the record's order, each as a key and the text of its value.
#[verifier::external_body]
fn service_properties(info: &mdns_sd::ServiceInfo) -> (r: Vec<TxtEntry>) {
    info.get_properties().iter().map(
        |p| TxtEntry { key: p.key().to_string(), value: p.val_str().to_string() },
    ).collect()
}

/// What follows a console's name in its host name.
pub const LOCAL_DOMAIN: &'static str = ".local.";

/// Key of the text property that holds the console's name.
pub const NAME_KEY: &'static str = "N";

/// Key of the text property that holds the console's identifier.
pub const IDENTIFIER_KEY: &'static str = "U";

/// The name key as it reads in lower case: keys are found in either case.
pub const NAME_KEY_LOWER: &'static str = "n";

/// The identifier key as it reads in lower case.
pub const IDENTIFIER_KEY_LOWER: &'static str = "u";

/// A console that was discovered, or that is being announced.
#[derive(Debug)]
pub struct Console {
    pub address: [u8; 4],
    pub port: u16,
    pub id: String,
    pub name: String,
}

/// A console as plain values.
pub struct ConsoleView {
    pub address: [u8; 4],
    pub port: u16,
    pub id: Seq<char>,
    pub name: Seq<char>,
}

impl View for Console {
    type V = ConsoleView;

    open spec fn view(&self) -> ConsoleView {
        ConsoleView { address: self.address, port: self.port, id: self.id@, name: self.name@ }
    }
}

/// One key and value of a text record.
#[derive(Debug)]
pub struct TxtEntry {
    pub key: String,
    pub value: String,
}

/// The text properties of a console's record, by name.
#[derive(Debug)]
pub struct TxtProperties {
    pub name: String,
    pub identifier: String,
}

/// A service record as plain values.
#[derive(Debug)]
pub struct ServiceRecord {
    pub service_type: String,
    pub instance_name: String,
    pub hostname: String,
    pub address: [u8; 4],
    pub port: u16,
    pub properties: Vec<TxtEntry>,
}

/// What an announce is to do: the record to register with the responder, and
/// for how many seconds to keep it registered before it is withdrawn.
#[derive(Debug)]
pub struct Announcement {
    pub service_info: mdns_sd::ServiceInfo,
    pub lifetime_secs: u64,
}

/// Which of the consoles that were resolved a discovery returns.
#[derive(Debug, Clone, Copy, PartialEq, Eq, Structural)]
pub enum DiscoveryPolicy {
    /// The first one that was resolved.
    First,
    /// Every one that was resolved within the window, once per identifier.
    AllWithinWindow,
}

/// The entries of a text record as pairs of texts.
pub open spec fn entries(s: Seq<TxtEntry>) -> Seq<(Seq<char>, Seq<char>)> {
    Seq::new(s.len(), |i: int| (s[i].key@, s[i].value@))
}

/// The consoles of a list as plain values.
pub open spec fn views(s: Seq<Console>) -> Seq<ConsoleView> {
    Seq::new(s.len(), |i: int| s[i]@)
}

/// A key that the responder takes in a text record: ASCII characters only, and
/// no `=` among them.
pub open spec fn key_acceptable(key: Seq<char>) -> bool {
    forall|i: int| 0 <= i < key.len() ==> '\0' <= #[trigger] key[i] <= '\u{7f}' && key[i] != '='
}

/// Every key of the text record is one that the responder takes.
pub open spec fn keys_acceptable(record: Seq<(Seq<char>, Seq<char>)>) -> bool {
    forall|i: int| 0 <= i < record.len() ==> key_acceptable((#[trigger] record[i]).0)
}

/// The text record of a console with this name and identifier.
pub open spec fn txt_encoding(name: Seq<char>, identifier: Seq<char>) -> Seq<
    (Seq<char>, Seq<char>),
> {
    seq![(NAME_KEY@, name), (IDENTIFIER_KEY@, identifier)]
}

/// The value of the first entry whose key is `key` or `lower`, its writing in
/// lower case.
pub open spec fn lookup(
    record: Seq<(Seq<char>, Seq<char>)>,
    key: Seq<char>,
    lower: Seq<char>,
) -> Option<Seq<char>>
    decreases record.len(),
{
    if record.len() == 0 {
        None
    } else if record[0].0 == key || record[0].0 == lower {
        Some(record[0].1)
    } else {
        lookup(record.skip(1), key, lower)
    }
}

/// The name and identifier that a text record holds, or the property that it
/// lacks.
pub open spec fn txt_decoding(record: Seq<(Seq<char>, Seq<char>)>) -> Result<
    (Seq<char>, Seq<char>),
    Error,
> {
    match lookup(record, IDENTIFIER_KEY@, IDENTIFIER_KEY_LOWER@) {
        None => Err(Error::MissingProperty(TxtKey::Identifier)),
        Some(identifier) => match lookup(record, NAME_KEY@, NAME_KEY_LOWER@) {
            None => Err(Error::MissingProperty(TxtKey::Name)),
            Some(name) => Ok((name, identifier)),
        },
    }
}

/// The console that a resolved record denotes: its first address, its port and
/// the name and identifier of its text record.
pub open spec fn resolved_console(
    addresses: Seq<[u8; 4]>,
    port: u16,
    record: Seq<(Seq<char>, Seq<char>)>,
) -> Result<ConsoleView, Error> {
    if addresses.len() == 0 {
        Err(Error::MissingAddress)
    } else {
        match txt_decoding(record) {
            Err(e) => Err(e),
            Ok((name, identifier)) => Ok(
                ConsoleView { address: addresses[0], port, id: identifier, name },
            ),
        }
    }
}

/// Some console of `s` has the identifier `id`.
pub open spec fn has_id(s: Seq<ConsoleView>, id: Seq<char>) -> bool
    decreases s.len(),
{
    s.len() > 0 && (s.last().id == id || has_id(s.drop_last(), id))
}

/// The consoles of `s` without those whose identifier came earlier in `s`.
pub open spec fn first_occurrences(s: Seq<ConsoleView>) -> Seq<ConsoleView>
    decreases s.len(),
{
    if s.len() == 0 {
        Seq::empty()
    } else if has_id(s.drop_last(), s.last().id) {
        first_occurrences(s.drop_last())
    } else {
        first_occurrences(s.drop_last()).push(s.last())
    }
}

/// What a discovery returns of the consoles that were resolved, in the order in
/// which they were: a timeout where there is none.
pub open spec fn selection(policy: DiscoveryPolicy, resolved: Seq<ConsoleView>) -> Result<
    Seq<ConsoleView>,
    Error,
> {
    if resolved.len() == 0 {
        Err(Error::TimeoutError)
    } else {
        match policy {
            DiscoveryPolicy::First => Ok(seq![resolved[0]]),
            DiscoveryPolicy::AllWithinWindow => Ok(first_occurrences(resolved)),
        }
    }
}

fn find_entry(record: &Vec<TxtEntry>, key: &str, lower: &str) -> (r: Option<String>)
    ensures
        match lookup(entries(record@), key@, lower@) {
            Some(value) => r is Some && r->0@ == value,
            None => r is None,
        },
{
    let wanted = String::from_str(key);
    let wanted_lower = String::from_str(lower);
    let mut i: usize = 0;
    proof {
        assert(entries(record@).skip(0) =~= entries(record@));
    }
    while i < record.len()
        invariant
            i <= record.len(),
            wanted@ == key@,
            wanted_lower@ == lower@,
            lookup(entries(record@), key@, lower@) == lookup(
                entries(record@).skip(i as int),
                key@,
                lower@,
            ),
        decreases record.len() - i,
    {
        proof {
            assert(entries(record@).skip(i as int)[0] == (record@[i as int].key@, record@[i as int].value@));
            assert(entries(record@).skip(i as int).skip(1) =~= entries(record@).skip(i + 1));
        }
        if record[i].key == wanted || record[i].key == wanted_lower {
            return Some(record[i].value.clone());
        }
        i = i + 1;
    }
    None
}

impl TxtProperties {
    /// The entries of the text record, name first.
    pub fn encode(&self) -> (record: Vec<TxtEntry>)
        ensures
            entries(record@) == txt_encoding(self.name@, self.identifier@),
    {
        let mut record: Vec<TxtEntry> = Vec::new();
        record.push(TxtEntry { key: String::from_str(NAME_KEY), value: self.name.clone() });
        record.push(
            TxtEntry { key: String::from_str(IDENTIFIER_KEY), value: self.identifier.clone() },
        );
        proof {
            assert(entries(record@) =~= txt_encoding(self.name@, self.identifier@));
        }
        record
    }

    /// Reads the name and the identifier out of a text record, each from the
    /// first entry that has its key, in upper or lower case; says which one is
    /// missing where one is, the identifier first.
    pub fn decode(record: &Vec<TxtEntry>) -> (r: Result<TxtProperties, Error>)
        ensures
            match txt_decoding(entries(record@)) {
                Ok((name, identifier)) => r is Ok && r->Ok_0.name@ == name
                    && r->Ok_0.identifier@ == identifier,
                Err(e) => r == Err::<TxtProperties, Error>(e),
            },
    {
        match find_entry(record, IDENTIFIER_KEY, IDENTIFIER_KEY_LOWER) {
            None => Err(Error::MissingProperty(TxtKey::Identifier)),
            Some(identifier) => match find_entry(record, NAME_KEY, NAME_KEY_LOWER) {
                None => Err(Error::MissingProperty(TxtKey::Name)),
                Some(name) => Ok(TxtProperties { name, identifier }),
            },
        }
    }
}

/// The keys of a console's text record are ones that the responder takes.
pub proof fn lemma_txt_keys_acceptable(name: Seq<char>, identifier: Seq<char>)
    ensures
        keys_acceptable(txt_encoding(name, identifier)),
{
    reveal_strlit("N");
    reveal_strlit("U");
}

/// A record that was encoded from a name and an identifier decodes to them.
pub proof fn lemma_txt_round_trip(name: Seq<char>, identifier: Seq<char>)
    ensures
        txt_decoding(txt_encoding(name, identifier)) == Ok::<(Seq<char>, Seq<char>), Error>(
            (name, identifier),
        ),
{
    reveal_strlit("N");
    reveal_strlit("U");
    reveal_strlit("n");
    reveal_strlit("u");
    let record = txt_encoding(name, identifier);
    assert(NAME_KEY@[0] != IDENTIFIER_KEY@[0]);
    assert(NAME_KEY@[0] != IDENTIFIER_KEY_LOWER@[0]);
    assert(record.skip(1)[0] == record[1]);
    assert(lookup(record.skip(1), IDENTIFIER_KEY@, IDENTIFIER_KEY_LOWER@) == Some(identifier));
}

/// A record that carries the text record of an announced console, and at
/// least one address, resolves to a console with the announced name and
/// identifier, at the first of the addresses.
pub proof fn lemma_announced_console_resolves(
    announced: ConsoleView,
    addresses: Seq<[u8; 4]>,
    port: u16,
)
    requires
        addresses.len() > 0,
    ensures
        resolved_console(addresses, port, txt_encoding(announced.name, announced.id)) == Ok::<
            ConsoleView,
            Error,
        >(ConsoleView { address: addresses[0], port, id: announced.id, name: announced.name }),
{
    lemma_txt_round_trip(announced.name, announced.id);
}

impl Console {
    /// The console that a resolved record denotes, given what the record
    /// advertises.
    pub fn from_parts(addresses: &Vec<[u8; 4]>, port: u16, record: &Vec<TxtEntry>) -> (r: Result<
        Console,
        Error,
    >)
        ensures
            match resolved_console(addresses@, port, entries(record@)) {
                Ok(console) => r is Ok && r->Ok_0@ == console,
                Err(e) => r == Err::<Console, Error>(e),
            },
    {
        if addresses.len() == 0 {
            return Err(Error::MissingAddress);
        }
        match TxtProperties::decode(record) {
            Err(e) => Err(e),
            Ok(txt) => Ok(
                Console { address: addresses[0], port, id: txt.identifier, name: txt.name },
            ),
        }
    }

    /// The console that a resolved service record denotes. It fails where the
    /// record advertises no address or lacks a text property, and only there.
    pub fn from_service_info(info: &mdns_sd::ServiceInfo) -> (r: Result<Console, Error>)
        ensures
            r matches Err(e) ==> e == Error::MissingAddress || e == Error::MissingProperty(
                TxtKey::Identifier,
            ) || e == Error::MissingProperty(TxtKey::Name),
    {
        let addresses = service_addresses(info);
        let port = service_port(info);
        let record = service_properties(info);
        Console::from_parts(&addresses, port, &record)
    }

    /// A copy of the console.
    pub fn duplicate(&self) -> (c: Console)
        ensures
            c@ == self@,
    {
        Console {
            address: self.address,
            port: self.port,
            id: self.id.clone(),
            name: self.name.clone(),
        }
    }
}

/// The discovery and announce side of the protocol.
#[derive(Debug)]
pub struct NetworkTransferProtocol {}

impl NetworkTransferProtocol {
    /// The service type under which consoles are published.
    pub const SERVICE_TYPE: &'static str = "_xboxcol._tcp.local.";

    /// The port on which a console serves its manifest and content.
    pub const SERVICE_PORT: u16 = 10248;

    /// For how many seconds a discovery waits for consoles.
    pub const DISCOVERY_WINDOW_SECS: u64 = 60;

    /// For how many seconds an announced record is kept alive.
    pub const ANNOUNCE_LIFETIME_SECS: u64 = 300;

    /// The record under which `console` is announced: the fixed service type,
    /// the console's name as instance name, the name and the local domain as
    /// host name, its address and port, and its text record.
    pub fn service_record(console: &Console) -> (record: ServiceRecord)
        ensures
            record.service_type@ == Self::SERVICE_TYPE@,
            record.instance_name@ == console.name@,
            record.hostname@ == console.name@ + LOCAL_DOMAIN@,
            record.address == console.address,
            record.port == console.port,
            entries(record.properties@) == txt_encoding(console.name@, console.id@),
    {
        let mut hostname = console.name.clone();
        hostname.append(LOCAL_DOMAIN);
        let txt = TxtProperties { name: console.name.clone(), identifier: console.id.clone() };
        ServiceRecord {
            service_type: String::from_str(Self::SERVICE_TYPE),
            instance_name: console.name.clone(),
            hostname,
            address: console.address,
            port: console.port,
            properties: txt.encode(),
        }
    }

    /// The service record of `console`, as the responder takes it: made of
    /// what `service_record` gives. It is made for every console, as the keys
    /// of a console's text record are ones that the responder takes whatever
    /// its name and identifier are.
    pub fn build_service_info(console: &Console) -> (r: Result<mdns_sd::ServiceInfo, Error>)
        ensures
            r is Ok,
    {
        let record = Self::service_record(console);
        proof {
            lemma_txt_keys_acceptable(console.name@, console.id@);
        }
        match new_service_info(
            record.service_type.as_str(),
            record.instance_name.as_str(),
            record.hostname.as_str(),
            &record.address,
            record.port,
            &record.properties,
        ) {
            Some(info) => Ok(info),
            None => Err(Error::MdnsError),
        }
    }

    /// What is to be published for `console_info`, and for how long: the
    /// record that `build_service_info` makes, which it makes for every
    /// console, and the fixed lifetime.
    pub fn announce(&self, console_info: &Console) -> (r: Result<Announcement, Error>)
        ensures
            r matches Ok(a) && a.lifetime_secs == Self::ANNOUNCE_LIFETIME_SECS,
    {
        match Self::build_service_info(console_info) {
            Ok(service_info) => Ok(
                Announcement { service_info, lifetime_secs: Self::ANNOUNCE_LIFETIME_SECS },
            ),
            Err(e) => Err(e),
        }
    }

    /// What a discovery returns of the consoles that were resolved within its
    /// window, in the order in which they were resolved.
    pub fn discover(&self, policy: DiscoveryPolicy, resolved: &Vec<Console>) -> (r: Result<
        Vec<Console>,
        Error,
    >)
        ensures
            match selection(policy, views(resolved@)) {
                Ok(chosen) => r is Ok && views(r->Ok_0@) == chosen,
                Err(e) => r == Err::<Vec<Console>, Error>(e),
            },
    {
        if resolved.len() == 0 {
            return Err(Error::TimeoutError);
        }
        match policy {
            DiscoveryPolicy::First => {
                let mut chosen: Vec<Console> = Vec::new();
                chosen.push(resolved[0].duplicate());
                proof {
                    assert(views(chosen@) =~= seq![views(resolved@)[0]]);
                }
                Ok(chosen)
            },
            DiscoveryPolicy::AllWithinWindow => Ok(distinct_consoles(resolved)),
        }
    }
}

fn knows_id(consoles: &Vec<Console>, id: &String) -> (r: bool)
    ensures
        r == has_id(views(consoles@), id@),
{
    let n: usize = consoles.len();
    let mut k: usize = 0;
    let mut found = false;
    while k < n
        invariant
            n == consoles.len(),
            k <= n,
            found == has_id(views(consoles@).take(k as int), id@),
        decreases n - k,
    {
        proof {
            assert(views(consoles@).take(k + 1).drop_last() =~= views(consoles@).take(k as int));
            assert(views(consoles@).take(k + 1).last() == consoles@[k as int]@);
        }
        if consoles[k].id == *id {
            found = true;
        }
        k = k + 1;
    }
    proof {
        assert(views(consoles@).take(n as int) =~= views(consoles@));
    }
    found
}

/// The consoles of `resolved`, each identifier once: the first console that
/// has it, in the order of `resolved`.
pub fn distinct_consoles(resolved: &Vec<Console>) -> (chosen: Vec<Console>)
    ensures
        views(chosen@) == first_occurrences(views(resolved@)),
{
    let n: usize = resolved.len();
    let mut chosen: Vec<Console> = Vec::new();
    let mut i: usize = 0;
    proof {
        assert(views(chosen@) =~= first_occurrences(views(resolved@).take(0)));
    }
    while i < n
        invariant
            n == resolved.len(),
            i <= n,
            views(chosen@) == first_occurrences(views(resolved@).take(i as int)),
        decreases n - i,
    {
        let ghost before = views(resolved@).take(i as int);
        let ghost upto = views(resolved@).take(i + 1);
        proof {
            assert(upto.drop_last() =~= before);
            assert(upto.last() == resolved@[i as int]@);
            lemma_first_occurrences_ids(before, resolved@[i as int].id@);
        }
        if !knows_id(&chosen, &resolved[i].id) {
            let ghost old_views = views(chosen@);
            chosen.push(resolved[i].duplicate());
            proof {
                assert(views(chosen@) =~= old_views.push(resolved@[i as int]@));
            }
        }
        i = i + 1;
    }
    proof {
        assert(views(resolved@).take(n as int) =~= views(resolved@));
    }
    chosen
}

/// Dropping later occurrences loses no identifier and adds none.
pub proof fn lemma_first_occurrences_ids(s: Seq<ConsoleView>, id: Seq<char>)
    ensures
        has_id(first_occurrences(s), id) == has_id(s, id),
    decreases s.len(),
{
    if s.len() > 0 {
        lemma_first_occurrences_ids(s.drop_last(), id);
        lemma_first_occurrences_ids(s.drop_last(), s.last().id);
        let f = first_occurrences(s.drop_last());
        if !has_id(s.drop_last(), s.last().id) {
            assert(f.push(s.last()).drop_last() =~= f);
        }
    }
}

/// A list has an identifier exactly if one of its consoles carries it.
pub proof fn lemma_has_id(s: Seq<ConsoleView>, id: Seq<char>)
    ensures
        has_id(s, id) <==> exists|j: int| 0 <= j < s.len() && (#[trigger] s[j]).id == id,
    decreases s.len(),
{
    if s.len() > 0 {
        lemma_has_id(s.drop_last(), id);
        if has_id(s, id) {
            if s.last().id == id {
                assert(s[s.len() - 1].id == id);
            } else {
                let j = choose|j: int| 0 <= j < s.len() - 1 && (#[trigger] s.drop_last()[j]).id == id;
                assert(s[j].id == id);
            }
        }
        if exists|j: int| 0 <= j < s.len() && (#[trigger] s[j]).id == id {
            let j = choose|j: int| 0 <= j < s.len() && (#[trigger] s[j]).id == id;
            if j < s.len() - 1 {
                assert(s.drop_last()[j].id == id);
            }
        }
    }
}

/// What is left when later occurrences are dropped: no two consoles share an
/// identifier, every identifier that was resolved is still there, and each
/// console that is left was resolved.
pub proof fn lemma_first_occurrences_distinct(s: Seq<ConsoleView>)
    ensures
        forall|a: int, b: int|
            0 <= a < b < first_occurrences(s).len() ==> (#[trigger] first_occurrences(s)[a]).id
                != (#[trigger] first_occurrences(s)[b]).id,
        forall|j: int| 0 <= j < s.len() ==> has_id(first_occurrences(s), (#[trigger] s[j]).id),
        forall|k: int|
            0 <= k < first_occurrences(s).len() ==> s.contains(
                #[trigger] first_occurrences(s)[k],
            ),
        first_occurrences(s).len() <= s.len(),
    decreases s.len(),
{
    let f = first_occurrences(s);
    if s.len() > 0 {
        let t = s.drop_last();
        let g = first_occurrences(t);
        lemma_first_occurrences_distinct(t);
        lemma_first_occurrences_ids(t, s.last().id);
        lemma_has_id(g, s.last().id);
        assert forall|j: int| 0 <= j < s.len() implies has_id(f, (#[trigger] s[j]).id) by {
            lemma_first_occurrences_ids(s, s[j].id);
            lemma_has_id(s, s[j].id);
        }
        assert forall|k: int| 0 <= k < f.len() implies s.contains(#[trigger] f[k]) by {
            if k < g.len() {
                assert(f[k] == g[k]);
                assert(t.contains(g[k]));
                let j = choose|j: int| 0 <= j < t.len() && t[j] == g[k];
                assert(s[j] == f[k]);
            } else {
                assert(f[k] == s[s.len() - 1]);
            }
        }
        assert forall|a: int, b: int| 0 <= a < b < f.len() implies (#[trigger] f[a]).id != (
        #[trigger] f[b]).id by {
            if b < g.len() {
                assert(f[a] == g[a] && f[b] == g[b]);
            } else {
                assert(f[a] == g[a]);
            }
        }
    }
}

} // verus!
