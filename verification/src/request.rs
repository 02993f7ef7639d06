//! The outbound request envelope and its payloads, serialized to the JSON
//! text that goes inside a frame: `{"request": tag, "host": name,
//! "clock": seconds, "ns": 0, "data": payload}`.
//!
//! The serializer here is the library's own and is total: every value of
//! these types has exactly one JSON text, stated character for character
//! by the spec functions below.

use vstd::prelude::*;

verus! {

/// Request-type tag: pull the proxy configuration.
pub const PROXY_CONFIG: &'static str = "proxy config";

/// Request-type tag: push collected metrics.
pub const HISTORY_DATA: &'static str = "history data";

/// Request-type tag: proxy heartbeat.
pub const PROXY_HEARTBEAT: &'static str = "proxy heartbeat";

/// Request-type tag: push hosts for auto-registration.
pub const AUTO_REGISTRATION: &'static str = "auto registration";

/// Relies on chrono's `Local::now` and `DateTime::timestamp`: the current
/// local time as whole seconds since the epoch. Nothing is promised of
/// the value; it is whatever the clock reads.
#[verifier::external_body]
fn now_timestamp() -> i64 {
    chrono::Local::now().timestamp()
}

/// The decimal digit `d` as a character.
pub open spec fn digit_char(d: int) -> char {
    if d == 0 {
        '0'
    } else if d == 1 {
        '1'
    } else if d == 2 {
        '2'
    } else if d == 3 {
        '3'
    } else if d == 4 {
        '4'
    } else if d == 5 {
        '5'
    } else if d == 6 {
        '6'
    } else if d == 7 {
        '7'
    } else if d == 8 {
        '8'
    } else {
        '9'
    }
}

/// The hexadecimal digit `d` as a lower-case character.
pub open spec fn hex_char(d: int) -> char {
    if d < 10 {
        digit_char(d)
    } else if d == 10 {
        'a'
    } else if d == 11 {
        'b'
    } else if d == 12 {
        'c'
    } else if d == 13 {
        'd'
    } else if d == 14 {
        'e'
    } else {
        'f'
    }
}

/// The decimal text of a nonnegative number, most significant digit first.
pub open spec fn dec_digits(n: nat) -> Seq<char>
    decreases n,
{
    if n < 10 {
        seq![digit_char(n as int)]
    } else {
        dec_digits(n / 10).push(digit_char((n % 10) as int))
    }
}

/// The decimal text of a signed number.
pub open spec fn dec_i64(v: int) -> Seq<char> {
    if v >= 0 {
        dec_digits(v as nat)
    } else {
        "-"@ + dec_digits((-v) as nat)
    }
}

/// How one character appears inside a JSON string literal: quote and
/// backslash escaped, the named control escapes, `\u00XX` for the other
/// control characters, and every other character as itself.
pub open spec fn esc_char(c: char) -> Seq<char> {
    if c == '"' {
        "\\\""@
    } else if c == '\\' {
        "\\\\"@
    } else if c == '\u{8}' {
        "\\b"@
    } else if c == '\t' {
        "\\t"@
    } else if c == '\n' {
        "\\n"@
    } else if c == '\u{c}' {
        "\\f"@
    } else if c == '\r' {
        "\\r"@
    } else if (c as u32) < 32 {
        "\\u00"@ + seq![hex_char(c as u32 as int / 16), hex_char(c as u32 as int % 16)]
    } else {
        seq![c]
    }
}

pub open spec fn json_escaped_upto(s: Seq<char>, k: int) -> Seq<char>
    decreases k,
{
    if k <= 0 {
        Seq::empty()
    } else {
        json_escaped_upto(s, k - 1) + esc_char(s[k - 1])
    }
}

/// The body of a JSON string literal for `s`.
pub open spec fn json_escaped(s: Seq<char>) -> Seq<char> {
    json_escaped_upto(s, s.len() as int)
}

/// The JSON string literal for `s`, quotes included.
pub open spec fn json_string(s: Seq<char>) -> Seq<char> {
    "\""@ + json_escaped(s) + "\""@
}

/// One metric pushed as history data.
#[derive(Debug)]
pub struct ZabbixMetric {
    pub host: String,
    pub key: String,
    pub value: String,
    pub clock: i64,
}

pub struct ZabbixMetricV {
    pub host: Seq<char>,
    pub key: Seq<char>,
    pub value: Seq<char>,
    pub clock: i64,
}

impl View for ZabbixMetric {
    type V = ZabbixMetricV;

    open spec fn view(&self) -> ZabbixMetricV {
        ZabbixMetricV { host: self.host@, key: self.key@, value: self.value@, clock: self.clock }
    }
}

/// One host pushed for auto-registration. The metadata, address and port
/// are the fixed values this client registers with.
#[derive(Debug)]
pub struct ZabbixHost {
    pub host: String,
    pub host_metadata: String,
    pub ip: String,
    pub port: u16,
    pub clock: i64,
}

pub struct ZabbixHostV {
    pub host: Seq<char>,
    pub host_metadata: Seq<char>,
    pub ip: Seq<char>,
    pub port: u16,
    pub clock: i64,
}

impl View for ZabbixHost {
    type V = ZabbixHostV;

    open spec fn view(&self) -> ZabbixHostV {
        ZabbixHostV {
            host: self.host@,
            host_metadata: self.host_metadata@,
            ip: self.ip@,
            port: self.port,
            clock: self.clock,
        }
    }
}

/// One name/value pair of a low-level discovery payload.
#[derive(Debug)]
pub struct DiscoveryEntry {
    pub name: String,
    pub value: String,
}

pub struct DiscoveryEntryV {
    pub name: Seq<char>,
    pub value: Seq<char>,
}

impl View for DiscoveryEntry {
    type V = DiscoveryEntryV;

    open spec fn view(&self) -> DiscoveryEntryV {
        DiscoveryEntryV { name: self.name@, value: self.value@ }
    }
}

/// A low-level discovery payload: `{"data": [{name: value}, ...]}`.
#[derive(Debug)]
pub struct ZabbixDiscovery {
    pub data: Vec<DiscoveryEntry>,
}

impl View for ZabbixDiscovery {
    type V = Seq<DiscoveryEntryV>;

    open spec fn view(&self) -> Seq<DiscoveryEntryV> {
        Seq::new(self.data@.len(), |i: int| self.data@[i]@)
    }
}

/// The payload a request envelope carries.
#[derive(Debug)]
pub enum RequestData {
    Null,
    Metrics(Vec<ZabbixMetric>),
    Hosts(Vec<ZabbixHost>),
    Discovery(ZabbixDiscovery),
}

pub enum RequestDataV {
    Null,
    Metrics(Seq<ZabbixMetricV>),
    Hosts(Seq<ZabbixHostV>),
    Discovery(Seq<DiscoveryEntryV>),
}

impl View for RequestData {
    type V = RequestDataV;

    open spec fn view(&self) -> RequestDataV {
        match self {
            RequestData::Null => RequestDataV::Null,
            RequestData::Metrics(ms) => RequestDataV::Metrics(
                Seq::new(ms@.len(), |i: int| ms@[i]@),
            ),
            RequestData::Hosts(hs) => RequestDataV::Hosts(Seq::new(hs@.len(), |i: int| hs@[i]@)),
            RequestData::Discovery(d) => RequestDataV::Discovery(d@),
        }
    }
}

pub open spec fn metric_json(m: ZabbixMetricV) -> Seq<char> {
    "{\"host\":"@ + json_string(m.host) + ",\"key\":"@ + json_string(m.key) + ",\"value\":"@
        + json_string(m.value) + ",\"clock\":"@ + dec_i64(m.clock as int) + "}"@
}

pub open spec fn metrics_json_upto(ms: Seq<ZabbixMetricV>, k: int) -> Seq<char>
    decreases k,
{
    if k <= 0 {
        Seq::empty()
    } else {
        metrics_json_upto(ms, k - 1) + (if k - 1 > 0 {
            ","@
        } else {
            Seq::empty()
        }) + metric_json(ms[k - 1])
    }
}

pub open spec fn metrics_json(ms: Seq<ZabbixMetricV>) -> Seq<char> {
    "["@ + metrics_json_upto(ms, ms.len() as int) + "]"@
}

pub open spec fn zhost_json(h: ZabbixHostV) -> Seq<char> {
    "{\"host\":"@ + json_string(h.host) + ",\"host_metadata\":"@ + json_string(h.host_metadata)
        + ",\"ip\":"@ + json_string(h.ip) + ",\"port\":"@ + dec_digits(h.port as nat)
        + ",\"clock\":"@ + dec_i64(h.clock as int) + "}"@
}

pub open spec fn zhosts_json_upto(hs: Seq<ZabbixHostV>, k: int) -> Seq<char>
    decreases k,
{
    if k <= 0 {
        Seq::empty()
    } else {
        zhosts_json_upto(hs, k - 1) + (if k - 1 > 0 {
            ","@
        } else {
            Seq::empty()
        }) + zhost_json(hs[k - 1])
    }
}

pub open spec fn zhosts_json(hs: Seq<ZabbixHostV>) -> Seq<char> {
    "["@ + zhosts_json_upto(hs, hs.len() as int) + "]"@
}

pub open spec fn entry_json(e: DiscoveryEntryV) -> Seq<char> {
    "{"@ + json_string(e.name) + ":"@ + json_string(e.value) + "}"@
}

pub open spec fn entries_json_upto(es: Seq<DiscoveryEntryV>, k: int) -> Seq<char>
    decreases k,
{
    if k <= 0 {
        Seq::empty()
    } else {
        entries_json_upto(es, k - 1) + (if k - 1 > 0 {
            ","@
        } else {
            Seq::empty()
        }) + entry_json(es[k - 1])
    }
}

pub open spec fn discovery_json(es: Seq<DiscoveryEntryV>) -> Seq<char> {
    "{\"data\":["@ + entries_json_upto(es, es.len() as int) + "]}"@
}

pub open spec fn request_data_json(d: RequestDataV) -> Seq<char> {
    match d {
        RequestDataV::Null => "null"@,
        RequestDataV::Metrics(ms) => metrics_json(ms),
        RequestDataV::Hosts(hs) => zhosts_json(hs),
        RequestDataV::Discovery(es) => discovery_json(es),
    }
}

/// The outbound envelope: the request-type tag, the sender's name, the
/// capture time, the reserved `ns` field (always 0 in this protocol
/// variant), and the payload.
#[derive(Debug)]
pub struct ZabbixRequest {
    pub request: String,
    pub host: String,
    pub clock: i64,
    pub ns: i64,
    pub data: RequestData,
}

pub struct ZabbixRequestV {
    pub request: Seq<char>,
    pub host: Seq<char>,
    pub clock: i64,
    pub ns: i64,
    pub data: RequestDataV,
}

impl View for ZabbixRequest {
    type V = ZabbixRequestV;

    open spec fn view(&self) -> ZabbixRequestV {
        ZabbixRequestV {
            request: self.request@,
            host: self.host@,
            clock: self.clock,
            ns: self.ns,
            data: self.data@,
        }
    }
}

pub open spec fn request_json(r: ZabbixRequestV) -> Seq<char> {
    "{\"request\":"@ + json_string(r.request) + ",\"host\":"@ + json_string(r.host) + ",\"clock\":"@
        + dec_i64(r.clock as int) + ",\"ns\":"@ + dec_i64(r.ns as int) + ",\"data\":"@
        + request_data_json(r.data) + "}"@
}

/// The decimal digit `d` as a character.
fn digit_char_exec(d: u32) -> (r: char)
    requires
        d < 10,
    ensures
        r == digit_char(d as int),
{
    match d {
        0 => '0',
        1 => '1',
        2 => '2',
        3 => '3',
        4 => '4',
        5 => '5',
        6 => '6',
        7 => '7',
        8 => '8',
        _ => '9',
    }
}

/// The hexadecimal digit `d` as a lower-case character.
fn hex_char_exec(d: u32) -> (r: char)
    requires
        d < 16,
    ensures
        r == hex_char(d as int),
{
    match d {
        10 => 'a',
        11 => 'b',
        12 => 'c',
        13 => 'd',
        14 => 'e',
        15 => 'f',
        _ => digit_char_exec(d),
    }
}

/// Appends the decimal text of `n`.
fn push_u64(out: &mut String, n: u64)
    ensures
        final(out)@ == old(out)@ + dec_digits(n as nat),
    decreases n,
{
    if n < 10 {
        out.push(digit_char_exec(n as u32));
        assert(final(out)@ =~= old(out)@ + dec_digits(n as nat));
    } else {
        push_u64(out, n / 10);
        out.push(digit_char_exec((n % 10) as u32));
        assert(final(out)@ =~= old(out)@ + dec_digits(n as nat));
    }
}

/// Appends the decimal text of `v`, sign included.
fn push_i64(out: &mut String, v: i64)
    ensures
        final(out)@ == old(out)@ + dec_i64(v as int),
{
    if v >= 0 {
        push_u64(out, v as u64);
    } else {
        out.append("-");
        let mag: u64 = ((-(v + 1)) as u64) + 1;
        assert(mag as nat == -(v as int));
        push_u64(out, mag);
        assert(final(out)@ =~= old(out)@ + dec_i64(v as int));
    }
}

/// Appends `s` as a JSON string literal, escaping as `esc_char` states.
fn push_json_string(out: &mut String, s: &str)
    ensures
        final(out)@ == old(out)@ + json_string(s@),
{
    out.append("\"");
    let len = s.unicode_len();
    let mut k: usize = 0;
    while k < len
        invariant
            k <= len,
            len == s@.len(),
            out@ == old(out)@ + "\""@ + json_escaped_upto(s@, k as int),
        decreases len - k,
    {
        let c = s.get_char(k);
        let v = c as u32;
        if c == '"' {
            out.append("\\\"");
        } else if c == '\\' {
            out.append("\\\\");
        } else if v == 8 {
            out.append("\\b");
        } else if c == '\t' {
            out.append("\\t");
        } else if c == '\n' {
            out.append("\\n");
        } else if v == 12 {
            out.append("\\f");
        } else if c == '\r' {
            out.append("\\r");
        } else if v < 32 {
            out.append("\\u00");
            out.push(hex_char_exec(v / 16));
            out.push(hex_char_exec(v % 16));
            assert(esc_char(c) =~= "\\u00"@ + seq![
                hex_char(v as int / 16),
                hex_char(v as int % 16),
            ]);
        } else {
            out.push(c);
            assert(esc_char(c) =~= seq![c]);
        }
        k += 1;
        assert(out@ =~= old(out)@ + "\""@ + json_escaped_upto(s@, k as int));
    }
    out.append("\"");
    assert(final(out)@ =~= old(out)@ + json_string(s@));
}

/// Appends the JSON object for one metric.
fn push_metric(out: &mut String, m: &ZabbixMetric)
    ensures
        final(out)@ == old(out)@ + metric_json(m@),
{
    out.append("{\"host\":");
    push_json_string(out, m.host.as_str());
    out.append(",\"key\":");
    push_json_string(out, m.key.as_str());
    out.append(",\"value\":");
    push_json_string(out, m.value.as_str());
    out.append(",\"clock\":");
    push_i64(out, m.clock);
    out.append("}");
    assert(final(out)@ =~= old(out)@ + metric_json(m@));
}

/// Appends the JSON array of metrics.
fn push_metrics(out: &mut String, ms: &Vec<ZabbixMetric>)
    ensures
        final(out)@ == old(out)@ + metrics_json(Seq::new(ms@.len(), |i: int| ms@[i]@)),
{
    let ghost msv = Seq::new(ms@.len(), |i: int| ms@[i]@);
    out.append("[");
    let mut k: usize = 0;
    while k < ms.len()
        invariant
            k <= ms@.len(),
            msv == Seq::new(ms@.len(), |i: int| ms@[i]@),
            out@ == old(out)@ + "["@ + metrics_json_upto(msv, k as int),
        decreases ms@.len() - k,
    {
        if k > 0 {
            out.append(",");
        }
        push_metric(out, &ms[k]);
        k += 1;
        assert(out@ =~= old(out)@ + "["@ + metrics_json_upto(msv, k as int));
    }
    out.append("]");
    assert(final(out)@ =~= old(out)@ + metrics_json(msv));
}

/// Appends the JSON object for one auto-registration host.
fn push_zhost(out: &mut String, h: &ZabbixHost)
    ensures
        final(out)@ == old(out)@ + zhost_json(h@),
{
    out.append("{\"host\":");
    push_json_string(out, h.host.as_str());
    out.append(",\"host_metadata\":");
    push_json_string(out, h.host_metadata.as_str());
    out.append(",\"ip\":");
    push_json_string(out, h.ip.as_str());
    out.append(",\"port\":");
    push_u64(out, h.port as u64);
    out.append(",\"clock\":");
    push_i64(out, h.clock);
    out.append("}");
    assert(final(out)@ =~= old(out)@ + zhost_json(h@));
}

/// Appends the JSON array of auto-registration hosts.
fn push_zhosts(out: &mut String, hs: &Vec<ZabbixHost>)
    ensures
        final(out)@ == old(out)@ + zhosts_json(Seq::new(hs@.len(), |i: int| hs@[i]@)),
{
    let ghost hsv = Seq::new(hs@.len(), |i: int| hs@[i]@);
    out.append("[");
    let mut k: usize = 0;
    while k < hs.len()
        invariant
            k <= hs@.len(),
            hsv == Seq::new(hs@.len(), |i: int| hs@[i]@),
            out@ == old(out)@ + "["@ + zhosts_json_upto(hsv, k as int),
        decreases hs@.len() - k,
    {
        if k > 0 {
            out.append(",");
        }
        push_zhost(out, &hs[k]);
        k += 1;
        assert(out@ =~= old(out)@ + "["@ + zhosts_json_upto(hsv, k as int));
    }
    out.append("]");
    assert(final(out)@ =~= old(out)@ + zhosts_json(hsv));
}

/// Appends the JSON object for one discovery entry.
fn push_entry(out: &mut String, e: &DiscoveryEntry)
    ensures
        final(out)@ == old(out)@ + entry_json(e@),
{
    out.append("{");
    push_json_string(out, e.name.as_str());
    out.append(":");
    push_json_string(out, e.value.as_str());
    out.append("}");
    assert(final(out)@ =~= old(out)@ + entry_json(e@));
}

/// Appends the JSON object of a discovery payload.
fn push_discovery(out: &mut String, d: &ZabbixDiscovery)
    ensures
        final(out)@ == old(out)@ + discovery_json(d@),
{
    out.append("{\"data\":[");
    let mut k: usize = 0;
    while k < d.data.len()
        invariant
            k <= d.data@.len(),
            d@.len() == d.data@.len(),
            out@ == old(out)@ + "{\"data\":["@ + entries_json_upto(d@, k as int),
        decreases d.data@.len() - k,
    {
        if k > 0 {
            out.append(",");
        }
        push_entry(out, &d.data[k]);
        k += 1;
        assert(out@ =~= old(out)@ + "{\"data\":["@ + entries_json_upto(d@, k as int));
    }
    out.append("]}");
    assert(final(out)@ =~= old(out)@ + discovery_json(d@));
}

/// Appends the JSON text of a request payload.
fn push_data(out: &mut String, d: &RequestData)
    ensures
        final(out)@ == old(out)@ + request_data_json(d@),
{
    match d {
        RequestData::Null => {
            out.append("null");
        },
        RequestData::Metrics(ms) => {
            push_metrics(out, ms);
        },
        RequestData::Hosts(hs) => {
            push_zhosts(out, hs);
        },
        RequestData::Discovery(dv) => {
            push_discovery(out, dv);
        },
    }
}

impl ZabbixRequest {
    /// Wraps a payload in the envelope: the tag and sender name as given,
    /// the clock read now, and `ns` fixed at 0.
    pub fn new(request: &str, host: &str, data: RequestData) -> (r: Self)
        ensures
            r@.request == request@,
            r@.host == host@,
            r@.ns == 0,
            r@.data == data@,
    {
        let clock = now_timestamp();
        ZabbixRequest { request: request.to_owned(), host: host.to_owned(), clock, ns: 0, data }
    }

    /// The envelope as JSON text, exactly as `request_json` states it.
    pub fn str(&self) -> (r: String)
        ensures
            r@ == request_json(self@),
    {
        let mut out = String::new();
        out.append("{\"request\":");
        push_json_string(&mut out, self.request.as_str());
        out.append(",\"host\":");
        push_json_string(&mut out, self.host.as_str());
        out.append(",\"clock\":");
        push_i64(&mut out, self.clock);
        out.append(",\"ns\":");
        push_i64(&mut out, self.ns);
        out.append(",\"data\":");
        push_data(&mut out, &self.data);
        out.append("}");
        assert(out@ =~= request_json(self@));
        out
    }
}

impl RequestData {
    /// The payload serializes as a JSON array.
    pub fn is_array(&self) -> (r: bool)
        ensures
            r == (self@ is Metrics || self@ is Hosts),
    {
        match self {
            RequestData::Metrics(_) => true,
            RequestData::Hosts(_) => true,
            _ => false,
        }
    }
}

impl ZabbixMetric {
    /// Builds one metric, stamped with the clock read now.
    pub fn new(host: &str, key: &str, value: &str) -> (r: Self)
        ensures
            r@.host == host@,
            r@.key == key@,
            r@.value == value@,
    {
        let clock = now_timestamp();
        ZabbixMetric {
            host: host.to_owned(),
            key: key.to_owned(),
            value: value.to_owned(),
            clock,
        }
    }
}

impl ZabbixDiscovery {
    /// Builds a discovery payload: one `{param: value}` row per value.
    pub fn new(param: &str, value: Vec<String>) -> (r: Self)
        ensures
            r@.len() == value@.len(),
            forall|i: int| #![trigger r@[i]]
                0 <= i < value@.len() ==> r@[i].name == param@ && r@[i].value == value@[i]@,
    {
        let mut data: Vec<DiscoveryEntry> = Vec::new();
        let mut k: usize = 0;
        while k < value.len()
            invariant
                k <= value@.len(),
                data@.len() == k,
                forall|i: int| #![trigger data@[i]]
                    0 <= i < k ==> data@[i]@.name == param@ && data@[i]@.value == value@[i]@,
            decreases value@.len() - k,
        {
            let entry = DiscoveryEntry { name: param.to_owned(), value: value[k].clone() };
            data.push(entry);
            k += 1;
        }
        ZabbixDiscovery { data }
    }

    /// The payload as JSON text, exactly as `discovery_json` states it.
    pub fn str(&self) -> (r: String)
        ensures
            r@ == discovery_json(self@),
    {
        let mut out = String::new();
        push_discovery(&mut out, self);
        out
    }
}

impl ZabbixHost {
    /// Builds one auto-registration host with this client's fixed
    /// metadata, address and agent port, stamped with the clock read now.
    pub fn new(host: String) -> (r: Self)
        ensures
            r@.host == host@,
            r@.host_metadata == "DBMP"@,
            r@.ip == "127.0.0.1"@,
            r@.port == 10050,
    {
        let host_metadata = String::from_str("DBMP");
        let ip = String::from_str("127.0.0.1");
        let port: u16 = 10050;
        let clock = now_timestamp();
        ZabbixHost { host, host_metadata, ip, port, clock }
    }
}

} // verus!
