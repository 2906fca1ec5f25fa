//! What a registered device keeps between runs.

use crate::addr::{parse_socket, reads_as_socket, ScopedSocket};
use crate::codec::{base64_decode, base64_decoded, decodes_to};
use crate::crypto::{private_number, read_private_key, EcKeyPair};
use crate::ini::{
    fits_line, get_value, ini_parsed, ini_plain, ini_values, is_word, new_ini, no_values,
    read_values, set_value, value_at, with_value, writable, write_values,
};
use crate::text::{
    chars_of, decimal, decimal_parses_back, decimal_reads_back, decimal_string, parse_unsigned,
    parsed_unsigned,
};
use configparser::ini::Ini;
use vstd::prelude::*;

verus! {

/// Why the configuration of a MASQUE device cannot be used.
#[derive(Debug)]
pub enum ConfigError {
    Read(String),
    Parse(String),
    Crypto(String),
}

/// A configuration error as values.
pub enum ConfigFault {
    Read(Seq<char>),
    Parse(Seq<char>),
    Crypto(Seq<char>),
}

impl View for ConfigError {
    type V = ConfigFault;

    open spec fn view(&self) -> ConfigFault {
        match self {
            ConfigError::Read(why) => ConfigFault::Read(why@),
            ConfigError::Parse(why) => ConfigFault::Parse(why@),
            ConfigError::Crypto(why) => ConfigFault::Crypto(why@),
        }
    }
}

impl ConfigError {
    /// How the error reads.
    pub fn text(&self) -> (text: String)
        ensures
            text@ == match self@ {
                ConfigFault::Read(why) => "failed to read config file: "@ + why,
                ConfigFault::Parse(why) => "failed to parse config file: "@ + why,
                ConfigFault::Crypto(why) => "crypto error: "@ + why,
            },
    {
        match self {
            ConfigError::Read(why) => String::from_str("failed to read config file: ").concat(
                why.as_str(),
            ),
            ConfigError::Parse(why) => String::from_str("failed to parse config file: ").concat(
                why.as_str(),
            ),
            ConfigError::Crypto(why) => String::from_str("crypto error: ").concat(why.as_str()),
        }
    }
}

/// The configuration of a MASQUE device.
#[derive(Debug)]
pub struct Config {
    pub private_key: String,
    pub endpoint_v4: String,
    pub endpoint_v6: String,
    pub endpoint_pub_key: String,
    pub license: String,
    pub id: String,
    pub access_token: String,
    pub ipv4: String,
    pub ipv6: String,
}

/// Where the line that starts at `from` ends: at the next line feed, or with the text.
pub open spec fn line_end(text: Seq<char>, from: int) -> int
    decreases text.len() - from,
{
    if 0 <= from < text.len() && text[from] != '\n' {
        line_end(text, from + 1)
    } else {
        from
    }
}

/// A line without what ends it: a carriage return right before the line feed belongs to the end.
pub open spec fn line_at(text: Seq<char>, from: int) -> Seq<char> {
    let end = line_end(text, from);
    if end < text.len() && from < end && text[end - 1] == '\r' {
        text.subrange(from, end - 1)
    } else {
        text.subrange(from, end)
    }
}

/// Whether a line starts with five hyphens.
pub open spec fn is_pem_border(line: Seq<char>) -> bool {
    line.len() >= 5 && line[0] == '-' && line[1] == '-' && line[2] == '-' && line[3] == '-'
        && line[4] == '-'
}

/// The lines of a text from `from` on, without the borders and without line ends.
pub open spec fn pem_body(text: Seq<char>, from: int) -> Seq<char>
    decreases text.len() - from + 1,
    via pem_body_shrinks
{
    if 0 <= from < text.len() {
        let line = line_at(text, from);
        (if is_pem_border(line) {
            Seq::empty()
        } else {
            line
        }) + pem_body(text, line_end(text, from) + 1)
    } else {
        Seq::empty()
    }
}

#[via_fn]
proof fn pem_body_shrinks(text: Seq<char>, from: int) {
    if 0 <= from < text.len() {
        line_end_bounds(text, from);
    }
}

proof fn line_end_bounds(text: Seq<char>, from: int)
    requires
        0 <= from <= text.len(),
    ensures
        from <= line_end(text, from) <= text.len(),
        line_end(text, from) < text.len() ==> text[line_end(text, from)] == '\n',
    decreases text.len() - from,
{
    if from < text.len() && text[from] != '\n' {
        line_end_bounds(text, from + 1);
    }
}

/// The lines of a text without the borders and without line ends, in one.
pub fn strip_pem(text: &str) -> (body: String)
    ensures
        body@ == pem_body(text@, 0),
{
    let chars = chars_of(text);
    let mut body: String = String::new();
    let mut from: usize = 0;
    assert(body@ + pem_body(text@, 0) =~= pem_body(text@, 0));
    while from < chars.len()
        invariant
            chars@ == text@,
            from <= chars@.len(),
            body@ + pem_body(text@, from as int) == pem_body(text@, 0),
        decreases chars@.len() - from,
    {
        let mut end: usize = from;
        while end < chars.len() && chars[end] != '\n'
            invariant
                chars@ == text@,
                from <= end <= chars@.len(),
                line_end(text@, from as int) == line_end(text@, end as int),
            decreases chars@.len() - end,
        {
            end += 1;
        }
        assert(line_end(text@, from as int) == end);
        let stop: usize = if end < chars.len() && from < end && chars[end - 1] == '\r' {
            end - 1
        } else {
            end
        };
        let ghost line = line_at(text@, from as int);
        assert(line =~= text@.subrange(from as int, stop as int));
        let border: bool = stop - from >= 5 && chars[from] == '-' && chars[from + 1] == '-'
            && chars[from + 2] == '-' && chars[from + 3] == '-' && chars[from + 4] == '-';
        assert(border == is_pem_border(line));
        let ghost kept = body@;
        let ghost rest = pem_body(text@, end + 1);
        if !border {
            let mut at: usize = from;
            assert(body@ =~= kept + text@.subrange(from as int, at as int));
            while at < stop
                invariant
                    chars@ == text@,
                    from <= at <= stop <= chars@.len(),
                    body@ == kept + text@.subrange(from as int, at as int),
                decreases stop - at,
            {
                body.push(chars[at]);
                assert(text@.subrange(from as int, at + 1) =~= text@.subrange(
                    from as int,
                    at as int,
                ).push(text@[at as int]));
                assert(body@ =~= kept + text@.subrange(from as int, at + 1));
                at += 1;
            }
            assert(body@ + rest =~= kept + (line + rest));
        } else {
            assert(body@ + rest =~= kept + (Seq::<char>::empty() + rest));
        }
        if end < chars.len() {
            from = end + 1;
        } else {
            assert(pem_body(text@, end + 1) =~= pem_body(text@, end as int));
            from = end;
        }
    }
    assert(body@ + pem_body(text@, from as int) =~= body@);
    body
}

/// What a decoded value is, or how its failure reads behind `what`.
pub open spec fn decoded_or(
    decoded: Result<Seq<u8>, Seq<char>>,
    what: Seq<char>,
) -> Result<Seq<u8>, ConfigFault> {
    match decoded {
        Ok(bytes) => Ok(bytes),
        Err(why) => Err(ConfigFault::Parse(what + why)),
    }
}

/// What a call returned, as values.
pub open spec fn outcome(res: Result<Vec<u8>, ConfigError>) -> Result<Seq<u8>, ConfigFault> {
    match res {
        Ok(bytes) => Ok(bytes@),
        Err(e) => Err(e@),
    }
}

/// What a decoder returned, as values.
pub open spec fn told(res: Result<Vec<u8>, String>) -> Result<Seq<u8>, Seq<char>> {
    match res {
        Ok(bytes) => Ok(bytes@),
        Err(why) => Err(why@),
    }
}

/// A decoded value, or its failure behind `what`.
pub fn describe_decoded(decoded: Result<Vec<u8>, String>, what: &str) -> (res: Result<
    Vec<u8>,
    ConfigError,
>)
    ensures
        outcome(res) == decoded_or(told(decoded), what@),
{
    match decoded {
        Ok(bytes) => Ok(bytes),
        Err(why) => Err(ConfigError::Parse(String::from_str(what).concat(why.as_str()))),
    }
}

impl Config {
    /// The private key in DER.
    pub fn get_private_key_der(&self) -> (res: Result<Vec<u8>, ConfigError>)
        ensures
            outcome(res) == decoded_or(
                base64_decoded(self.private_key@),
                "failed to decode private key: "@,
            ),
    {
        describe_decoded(base64_decode(self.private_key.as_str()), "failed to decode private key: ")
    }

    /// The public key of the endpoint in DER.
    pub fn get_endpoint_pub_key_der(&self) -> (res: Result<Vec<u8>, ConfigError>)
        ensures
            outcome(res) == decoded_or(
                base64_decoded(pem_body(self.endpoint_pub_key@, 0)),
                "failed to decode endpoint public key: "@,
            ),
    {
        let body = strip_pem(self.endpoint_pub_key.as_str());
        describe_decoded(base64_decode(body.as_str()), "failed to decode endpoint public key: ")
    }

    /// The private number that signs: read as SEC1, else as PKCS#8.
    pub fn get_signing_key(&self) -> (res: Result<Vec<u8>, ConfigError>)
        ensures
            outcome(res) == signing_number(self.private_key@),
    {
        let der: Vec<u8> = match self.get_private_key_der() {
            Ok(der) => der,
            Err(e) => {
                return Err(e);
            },
        };
        match read_private_key(der.as_slice()) {
            Ok(scalar) => Ok(scalar),
            Err(why) => Err(ConfigError::Crypto(why)),
        }
    }
}

/// The private number that signs for a kept private key.
pub open spec fn signing_number(private_key: Seq<char>) -> Result<Seq<u8>, ConfigFault> {
    match base64_decoded(private_key) {
        Err(why) => Err(ConfigFault::Parse("failed to decode private key: "@ + why)),
        Ok(der) => match private_number(der) {
            Ok(scalar) => Ok(scalar),
            Err(why) => Err(ConfigFault::Crypto(why)),
        },
    }
}

/// A configuration that keeps the private key of a pair signs with the number of that pair.
pub proof fn kept_key_signs(config: Config, pair: EcKeyPair)
    requires
        private_number(pair.private_key_der@) == Ok::<Seq<u8>, Seq<char>>(pair.scalar@),
        decodes_to(config.private_key@, pair.private_key_der@),
    ensures
        signing_number(config.private_key@) == Ok::<Seq<u8>, ConfigFault>(pair.scalar@),
{
}

impl Default for Config {
    fn default() -> (config: Config)
        ensures
            config.private_key@ == Seq::<char>::empty(),
            config.endpoint_v4@ == Seq::<char>::empty(),
            config.endpoint_v6@ == Seq::<char>::empty(),
            config.endpoint_pub_key@ == Seq::<char>::empty(),
            config.license@ == Seq::<char>::empty(),
            config.id@ == Seq::<char>::empty(),
            config.access_token@ == Seq::<char>::empty(),
            config.ipv4@ == Seq::<char>::empty(),
            config.ipv6@ == Seq::<char>::empty(),
    {
        Config {
            private_key: String::new(),
            endpoint_v4: String::new(),
            endpoint_v6: String::new(),
            endpoint_pub_key: String::new(),
            license: String::new(),
            id: String::new(),
            access_token: String::new(),
            ipv4: String::new(),
            ipv6: String::new(),
        }
    }
}

/// Why the configuration of a WireGuard device cannot be used.
#[derive(Debug)]
pub enum WgConfigError {
    Io(String),
    MissingField { section: String, key: String },
    InvalidValue { section: String, key: String, reason: String },
    Base64(String),
    Parse(String),
}

/// A WireGuard configuration error as values.
pub enum WgConfigFault {
    Io(Seq<char>),
    MissingField { section: Seq<char>, key: Seq<char> },
    InvalidValue { section: Seq<char>, key: Seq<char>, reason: Seq<char> },
    Base64(Seq<char>),
    Parse(Seq<char>),
}

impl View for WgConfigError {
    type V = WgConfigFault;

    open spec fn view(&self) -> WgConfigFault {
        match self {
            WgConfigError::Io(why) => WgConfigFault::Io(why@),
            WgConfigError::MissingField { section, key } => WgConfigFault::MissingField {
                section: section@,
                key: key@,
            },
            WgConfigError::InvalidValue { section, key, reason } => WgConfigFault::InvalidValue {
                section: section@,
                key: key@,
                reason: reason@,
            },
            WgConfigError::Base64(why) => WgConfigFault::Base64(why@),
            WgConfigError::Parse(why) => WgConfigFault::Parse(why@),
        }
    }
}

/// How a WireGuard configuration error reads.
pub open spec fn wg_fault_text(fault: WgConfigFault) -> Seq<char> {
    match fault {
        WgConfigFault::Io(why) => "IO error: "@ + why,
        WgConfigFault::MissingField { section, key } => "missing field: ["@ + section + "] "@ + key,
        WgConfigFault::InvalidValue { section, key, reason } => "invalid value: ["@ + section
            + "] "@ + key + ": "@ + reason,
        WgConfigFault::Base64(why) => "base64 decode error: "@ + why,
        WgConfigFault::Parse(why) => "parse error: "@ + why,
    }
}

impl WgConfigError {
    /// How the error reads.
    pub fn text(&self) -> (text: String)
        ensures
            text@ == wg_fault_text(self@),
    {
        match self {
            WgConfigError::Io(why) => String::from_str("IO error: ").concat(why.as_str()),
            WgConfigError::MissingField { section, key } => String::from_str(
                "missing field: [",
            ).concat(section.as_str()).concat("] ").concat(key.as_str()),
            WgConfigError::InvalidValue { section, key, reason } => String::from_str(
                "invalid value: [",
            ).concat(section.as_str()).concat("] ").concat(key.as_str()).concat(": ").concat(
                reason.as_str(),
            ),
            WgConfigError::Base64(why) => String::from_str("base64 decode error: ").concat(
                why.as_str(),
            ),
            WgConfigError::Parse(why) => String::from_str("parse error: ").concat(why.as_str()),
        }
    }
}

/// The configuration of a WireGuard device.
#[derive(Debug)]
pub struct WgConfig {
    pub device_id: String,
    pub private_key: String,
    pub token: String,
    pub client_id: String,
    pub account_type: String,
    pub mtu: u16,
    pub peer_public_key: String,
    pub endpoint: String,
    pub endpoint6: Option<String>,
    pub keepalive: u16,
    pub address: String,
    pub address6: Option<String>,
    pub dns: String,
}

/// A WireGuard configuration as values.
#[verifier::ext_equal]
pub struct WgConfigView {
    pub device_id: Seq<char>,
    pub private_key: Seq<char>,
    pub token: Seq<char>,
    pub client_id: Seq<char>,
    pub account_type: Seq<char>,
    pub mtu: u16,
    pub peer_public_key: Seq<char>,
    pub endpoint: Seq<char>,
    pub endpoint6: Option<Seq<char>>,
    pub keepalive: u16,
    pub address: Seq<char>,
    pub address6: Option<Seq<char>>,
    pub dns: Seq<char>,
}

/// An optional text as values.
pub open spec fn text_of(text: Option<String>) -> Option<Seq<char>> {
    match text {
        Some(text) => Some(text@),
        None => None,
    }
}

impl View for WgConfig {
    type V = WgConfigView;

    open spec fn view(&self) -> WgConfigView {
        WgConfigView {
            device_id: self.device_id@,
            private_key: self.private_key@,
            token: self.token@,
            client_id: self.client_id@,
            account_type: self.account_type@,
            mtu: self.mtu,
            peer_public_key: self.peer_public_key@,
            endpoint: self.endpoint@,
            endpoint6: text_of(self.endpoint6),
            keepalive: self.keepalive,
            address: self.address@,
            address6: text_of(self.address6),
            dns: self.dns@,
        }
    }
}

/// A value that stands under a key only if there is one.
pub open spec fn with_optional(
    values: Map<(Seq<char>, Seq<char>), Option<Seq<char>>>,
    section: Seq<char>,
    key: Seq<char>,
    value: Option<Seq<char>>,
) -> Map<(Seq<char>, Seq<char>), Option<Seq<char>>> {
    match value {
        Some(value) => with_value(values, section, key, value),
        None => values,
    }
}

/// Where the values of a configuration stand in its file.
pub open spec fn wg_values(c: WgConfigView) -> Map<(Seq<char>, Seq<char>), Option<Seq<char>>> {
    let account = with_value(
        with_value(
            with_value(
                with_value(
                    with_value(no_values(), "Account"@, "Device"@, c.device_id),
                    "Account"@,
                    "PrivateKey"@,
                    c.private_key,
                ),
                "Account"@,
                "Token"@,
                c.token,
            ),
            "Account"@,
            "ClientId"@,
            c.client_id,
        ),
        "Account"@,
        "Type"@,
        c.account_type,
    );
    let device = with_value(account, "Device"@, "MTU"@, decimal(c.mtu as nat));
    let peer = with_value(
        with_optional(
            with_value(
                with_value(device, "Peer"@, "PublicKey"@, c.peer_public_key),
                "Peer"@,
                "Endpoint"@,
                c.endpoint,
            ),
            "Peer"@,
            "Endpoint6"@,
            c.endpoint6,
        ),
        "Peer"@,
        "KeepAlive"@,
        decimal(c.keepalive as nat),
    );
    with_value(
        with_optional(
            with_value(peer, "Interface"@, "Address"@, c.address),
            "Interface"@,
            "Address6"@,
            c.address6,
        ),
        "Interface"@,
        "DNS"@,
        c.dns,
    )
}

/// A number of 16 bits, or the one that stands in for a missing or unreadable number.
pub open spec fn number_or(text: Option<Seq<char>>, default: u16) -> u16 {
    match text {
        Some(text) => match parsed_unsigned(text, 65535) {
            Some(n) => n as u16,
            None => default,
        },
        None => default,
    }
}

/// A text, or the one that stands in for a missing one.
pub open spec fn text_or(text: Option<Seq<char>>, default: Seq<char>) -> Seq<char> {
    match text {
        Some(text) => text,
        None => default,
    }
}

/// The first field that a configuration must have and that is missing.
pub open spec fn missing_field(
    values: Map<(Seq<char>, Seq<char>), Option<Seq<char>>>,
) -> Option<(Seq<char>, Seq<char>)> {
    if value_at(values, "Account"@, "Device"@) is None {
        Some(("Account"@, "Device"@))
    } else if value_at(values, "Account"@, "PrivateKey"@) is None {
        Some(("Account"@, "PrivateKey"@))
    } else if value_at(values, "Account"@, "Token"@) is None {
        Some(("Account"@, "Token"@))
    } else if value_at(values, "Account"@, "ClientId"@) is None {
        Some(("Account"@, "ClientId"@))
    } else if value_at(values, "Peer"@, "PublicKey"@) is None {
        Some(("Peer"@, "PublicKey"@))
    } else if value_at(values, "Peer"@, "Endpoint"@) is None {
        Some(("Peer"@, "Endpoint"@))
    } else if value_at(values, "Interface"@, "Address"@) is None {
        Some(("Interface"@, "Address"@))
    } else {
        None
    }
}

/// The configuration that stands in a file.
pub open spec fn wg_config_of(
    values: Map<(Seq<char>, Seq<char>), Option<Seq<char>>>,
) -> Result<WgConfigView, WgConfigFault> {
    match missing_field(values) {
        Some((section, key)) => Err(WgConfigFault::MissingField { section, key }),
        None => Ok(
            WgConfigView {
                device_id: value_at(values, "Account"@, "Device"@).unwrap(),
                private_key: value_at(values, "Account"@, "PrivateKey"@).unwrap(),
                token: value_at(values, "Account"@, "Token"@).unwrap(),
                client_id: value_at(values, "Account"@, "ClientId"@).unwrap(),
                account_type: text_or(value_at(values, "Account"@, "Type"@), "free"@),
                mtu: number_or(value_at(values, "Device"@, "MTU"@), 1280),
                peer_public_key: value_at(values, "Peer"@, "PublicKey"@).unwrap(),
                endpoint: value_at(values, "Peer"@, "Endpoint"@).unwrap(),
                endpoint6: value_at(values, "Peer"@, "Endpoint6"@),
                keepalive: number_or(value_at(values, "Peer"@, "KeepAlive"@), 30),
                address: value_at(values, "Interface"@, "Address"@).unwrap(),
                address6: value_at(values, "Interface"@, "Address6"@),
                dns: text_or(value_at(values, "Interface"@, "DNS"@), "1.1.1.1"@),
            },
        ),
    }
}

/// What a call returned, as values.
pub open spec fn wg_outcome(res: Result<WgConfig, WgConfigError>) -> Result<
    WgConfigView,
    WgConfigFault,
> {
    match res {
        Ok(config) => Ok(config@),
        Err(e) => Err(e@),
    }
}

fn required(ini: &Ini, section: &str, key: &str) -> (res: Result<String, WgConfigError>)
    requires
        ini_plain(*ini),
    ensures
        match res {
            Ok(value) => value_at(ini_values(*ini), section@, key@) == Some(value@),
            Err(e) => value_at(ini_values(*ini), section@, key@) is None && e@ == (
            WgConfigFault::MissingField { section: section@, key: key@ }),
        },
{
    match get_value(ini, section, key) {
        Some(value) => Ok(value),
        None => Err(
            WgConfigError::MissingField {
                section: String::from_str(section),
                key: String::from_str(key),
            },
        ),
    }
}

fn number_at(ini: &Ini, section: &str, key: &str, default: u16) -> (n: u16)
    requires
        ini_plain(*ini),
    ensures
        n == number_or(value_at(ini_values(*ini), section@, key@), default),
{
    match get_value(ini, section, key) {
        Some(value) => match parse_unsigned(value.as_str(), 65535) {
            Some(n) => n as u16,
            None => default,
        },
        None => default,
    }
}

fn text_at(ini: &Ini, section: &str, key: &str, default: &str) -> (text: String)
    requires
        ini_plain(*ini),
    ensures
        text@ == text_or(value_at(ini_values(*ini), section@, key@), default@),
{
    match get_value(ini, section, key) {
        Some(value) => value,
        None => String::from_str(default),
    }
}

fn set_optional(ini: &mut Ini, section: &str, key: &str, value: &Option<String>)
    requires
        ini_plain(*old(ini)),
    ensures
        ini_plain(*final(ini)),
        ini_values(*final(ini)) == with_optional(
            ini_values(*old(ini)),
            section@,
            key@,
            text_of(*value),
        ),
{
    if let Some(value) = value {
        set_value(ini, section, key, value.clone());
    }
}

/// How a file that cannot be read is described.
pub open spec fn read_error_text(path: Seq<char>, why: Seq<char>) -> Seq<char> {
    "couldn't read "@ + path + ": "@ + why
}

/// Describes a file that cannot be read.
pub fn read_error(path: &str, why: &str) -> (e: WgConfigError)
    ensures
        e@ == WgConfigFault::Parse(read_error_text(path@, why@)),
{
    WgConfigError::Parse(String::from_str("couldn't read ").concat(path).concat(": ").concat(why))
}

/// The bytes before the first slash.
pub open spec fn before_slash(s: Seq<char>, at: int) -> Seq<char>
    decreases s.len() - at,
{
    if 0 <= at < s.len() && s[at] != '/' {
        before_slash(s, at + 1)
    } else {
        s.subrange(0, at)
    }
}

fn cut_at_slash<'a>(s: &'a str) -> (host: &'a str)
    ensures
        host@ == before_slash(s@, 0),
{
    let chars = chars_of(s);
    let mut at: usize = 0;
    while at < chars.len() && chars[at] != '/'
        invariant
            chars@ == s@,
            at <= chars@.len(),
            before_slash(s@, 0) == before_slash(s@, at as int),
        decreases chars@.len() - at,
    {
        at += 1;
    }
    s.substring_char(0, at)
}

/// Whether decoding gave exactly these bytes.
pub open spec fn is_exactly(decoded: Result<Seq<u8>, Seq<char>>, bytes: Seq<u8>) -> bool {
    decoded matches Ok(found) && found == bytes
}

/// Whether decoding gave `len` bytes.
pub open spec fn has_len(decoded: Result<Seq<u8>, Seq<char>>, len: nat) -> bool {
    decoded matches Ok(found) && found.len() == len
}

/// Why decoding did not give `len` bytes.
pub open spec fn bytes_fault(
    decoded: Result<Seq<u8>, Seq<char>>,
    len: nat,
    section: Seq<char>,
    key: Seq<char>,
) -> WgConfigFault {
    match decoded {
        Err(why) => WgConfigFault::Base64(why),
        Ok(bytes) => WgConfigFault::InvalidValue {
            section,
            key,
            reason: "expected "@ + decimal(len) + " bytes, got "@ + decimal(bytes.len()),
        },
    }
}

/// What was decoded, if it has `N` bytes.
pub fn exact_bytes<const N: usize>(
    decoded: Result<Vec<u8>, String>,
    section: &str,
    key: &str,
) -> (res: Result<[u8; N], WgConfigError>)
    ensures
        match res {
            Ok(bytes) => is_exactly(told(decoded), bytes@),
            Err(e) => e@ == bytes_fault(told(decoded), N as nat, section@, key@) && !has_len(
                told(decoded),
                N as nat,
            ),
        },
{
    match decoded {
        Err(why) => Err(WgConfigError::Base64(why)),
        Ok(found) => {
            if found.len() != N {
                let reason = String::from_str("expected ").concat(
                    decimal_string(N as u64).as_str(),
                ).concat(" bytes, got ").concat(decimal_string(found.len() as u64).as_str());
                return Err(
                    WgConfigError::InvalidValue {
                        section: String::from_str(section),
                        key: String::from_str(key),
                        reason,
                    },
                );
            }
            let mut bytes: [u8; N] = [0u8;N];
            let mut i: usize = 0;
            while i < N
                invariant
                    i <= N,
                    found@.len() == N,
                    forall|k: int| 0 <= k < i ==> bytes@[k] == found@[k],
                decreases N - i,
            {
                bytes[i] = found[i];
                i += 1;
            }
            assert(bytes@ =~= found@);
            Ok(bytes)
        },
    }
}

impl WgConfig {
    /// The configuration that a document holds.
    pub fn from_ini(ini: &Ini) -> (res: Result<WgConfig, WgConfigError>)
        requires
            ini_plain(*ini),
        ensures
            wg_outcome(res) == wg_config_of(ini_values(*ini)),
    {
        let device_id: String = match required(ini, "Account", "Device") {
            Ok(value) => value,
            Err(e) => {
                return Err(e);
            },
        };
        let private_key: String = match required(ini, "Account", "PrivateKey") {
            Ok(value) => value,
            Err(e) => {
                return Err(e);
            },
        };
        let token: String = match required(ini, "Account", "Token") {
            Ok(value) => value,
            Err(e) => {
                return Err(e);
            },
        };
        let client_id: String = match required(ini, "Account", "ClientId") {
            Ok(value) => value,
            Err(e) => {
                return Err(e);
            },
        };
        let peer_public_key: String = match required(ini, "Peer", "PublicKey") {
            Ok(value) => value,
            Err(e) => {
                return Err(e);
            },
        };
        let endpoint: String = match required(ini, "Peer", "Endpoint") {
            Ok(value) => value,
            Err(e) => {
                return Err(e);
            },
        };
        let address: String = match required(ini, "Interface", "Address") {
            Ok(value) => value,
            Err(e) => {
                return Err(e);
            },
        };
        Ok(
            WgConfig {
                device_id,
                private_key,
                token,
                client_id,
                account_type: text_at(ini, "Account", "Type", "free"),
                mtu: number_at(ini, "Device", "MTU", 1280),
                peer_public_key,
                endpoint,
                endpoint6: get_value(ini, "Peer", "Endpoint6"),
                keepalive: number_at(ini, "Peer", "KeepAlive", 30),
                address,
                address6: get_value(ini, "Interface", "Address6"),
                dns: text_at(ini, "Interface", "DNS", "1.1.1.1"),
            },
        )
    }

    /// The document that holds the configuration.
    pub fn to_ini(&self) -> (ini: Ini)
        ensures
            ini_plain(ini),
            ini_values(ini) == wg_values(self@),
    {
        let mut ini: Ini = new_ini();
        set_value(&mut ini, "Account", "Device", self.device_id.clone());
        set_value(&mut ini, "Account", "PrivateKey", self.private_key.clone());
        set_value(&mut ini, "Account", "Token", self.token.clone());
        set_value(&mut ini, "Account", "ClientId", self.client_id.clone());
        set_value(&mut ini, "Account", "Type", self.account_type.clone());
        set_value(&mut ini, "Device", "MTU", decimal_string(self.mtu as u64));
        set_value(&mut ini, "Peer", "PublicKey", self.peer_public_key.clone());
        set_value(&mut ini, "Peer", "Endpoint", self.endpoint.clone());
        set_optional(&mut ini, "Peer", "Endpoint6", &self.endpoint6);
        set_value(&mut ini, "Peer", "KeepAlive", decimal_string(self.keepalive as u64));
        set_value(&mut ini, "Interface", "Address", self.address.clone());
        set_optional(&mut ini, "Interface", "Address6", &self.address6);
        set_value(&mut ini, "Interface", "DNS", self.dns.clone());
        ini
    }

    /// The configuration in the file at `path`, whose text is `content`.
    pub fn load(path: &str, content: String) -> (res: Result<WgConfig, WgConfigError>)
        ensures
            wg_outcome(res) == match ini_parsed(content@) {
                Ok(values) => wg_config_of(values),
                Err(why) => Err(WgConfigFault::Parse(read_error_text(path@, why))),
            },
    {
        let mut ini: Ini = new_ini();
        match read_values(&mut ini, content) {
            Ok(_) => WgConfig::from_ini(&ini),
            Err(why) => Err(read_error(path, why.as_str())),
        }
    }

    /// The text of the configuration's file. Where each value fits a line, the text holds them all
    /// under their sections and keys; how values that fit no line are written is not said.
    pub fn save(&self) -> (content: String)
        ensures
            writable(wg_values(self@)) ==> ini_parsed(content@) is Ok && ini_parsed(
                content@,
            )->Ok_0 == wg_values(self@),
    {
        let ini: Ini = self.to_ini();
        write_values(&ini)
    }

    /// The private key of the device.
    pub fn get_private_key_bytes(&self) -> (res: Result<[u8; 32], WgConfigError>)
        ensures
            match res {
                Ok(bytes) => is_exactly(base64_decoded(self.private_key@), bytes@),
                Err(e) => e@ == bytes_fault(
                    base64_decoded(self.private_key@),
                    32,
                    "Account"@,
                    "PrivateKey"@,
                ) && !has_len(base64_decoded(self.private_key@), 32),
            },
    {
        exact_bytes(base64_decode(self.private_key.as_str()), "Account", "PrivateKey")
    }

    /// The number of the device that its packets carry.
    pub fn get_client_id_bytes(&self) -> (res: Result<[u8; 3], WgConfigError>)
        ensures
            match res {
                Ok(bytes) => is_exactly(base64_decoded(self.client_id@), bytes@),
                Err(e) => e@ == bytes_fault(
                    base64_decoded(self.client_id@),
                    3,
                    "Account"@,
                    "ClientId"@,
                ) && !has_len(base64_decoded(self.client_id@), 3),
            },
    {
        exact_bytes(base64_decode(self.client_id.as_str()), "Account", "ClientId")
    }

    /// The public key of the peer.
    pub fn get_peer_public_key_bytes(&self) -> (res: Result<[u8; 32], WgConfigError>)
        ensures
            match res {
                Ok(bytes) => is_exactly(base64_decoded(self.peer_public_key@), bytes@),
                Err(e) => e@ == bytes_fault(
                    base64_decoded(self.peer_public_key@),
                    32,
                    "Peer"@,
                    "PublicKey"@,
                ) && !has_len(base64_decoded(self.peer_public_key@), 32),
            },
    {
        exact_bytes(base64_decode(self.peer_public_key.as_str()), "Peer", "PublicKey")
    }

    /// The address and port of the peer.
    pub fn get_endpoint_addr(&self) -> (res: Result<ScopedSocket, WgConfigError>)
        ensures
            match res {
                Ok(socket) => reads_as_socket(self.endpoint@, Some(socket)),
                Err(e) => reads_as_socket(self.endpoint@, None) && e@ == (
                WgConfigFault::InvalidValue {
                    section: "Peer"@,
                    key: "Endpoint"@,
                    reason: "invalid socket address syntax"@,
                }),
            },
    {
        match parse_socket(self.endpoint.as_str()) {
            Some(socket) => Ok(socket),
            None => Err(
                WgConfigError::InvalidValue {
                    section: String::from_str("Peer"),
                    key: String::from_str("Endpoint"),
                    reason: String::from_str("invalid socket address syntax"),
                },
            ),
        }
    }

    /// The IPv4 address, without the length of its prefix.
    pub fn ipv4_address(&self) -> (ip: &str)
        ensures
            ip@ == before_slash(self.address@, 0),
    {
        cut_at_slash(self.address.as_str())
    }

    /// The IPv6 address, if there is one, without the length of its prefix.
    pub fn ipv6_address(&self) -> (ip: Option<&str>)
        ensures
            match self.address6 {
                Some(address) => ip matches Some(ip) && ip@ == before_slash(address@, 0),
                None => ip is None,
            },
    {
        match &self.address6 {
            Some(address) => Some(cut_at_slash(address.as_str())),
            None => None,
        }
    }
}

/// A configuration of which each text fits a line.
pub open spec fn fits_lines(c: WgConfigView) -> bool {
    &&& fits_line(c.device_id)
    &&& fits_line(c.private_key)
    &&& fits_line(c.token)
    &&& fits_line(c.client_id)
    &&& fits_line(c.account_type)
    &&& fits_line(c.peer_public_key)
    &&& fits_line(c.endpoint)
    &&& c.endpoint6 matches Some(endpoint6) ==> fits_line(endpoint6)
    &&& fits_line(c.address)
    &&& c.address6 matches Some(address6) ==> fits_line(address6)
    &&& fits_line(c.dns)
}

proof fn names_are_words()
    ensures
        is_word("Account"@),
        is_word("Device"@),
        is_word("PrivateKey"@),
        is_word("Token"@),
        is_word("ClientId"@),
        is_word("Type"@),
        is_word("MTU"@),
        is_word("Peer"@),
        is_word("PublicKey"@),
        is_word("Endpoint"@),
        is_word("Endpoint6"@),
        is_word("KeepAlive"@),
        is_word("Interface"@),
        is_word("Address"@),
        is_word("Address6"@),
        is_word("DNS"@),
        "Account"@ != "default"@,
        "Device"@ != "default"@,
        "Peer"@ != "default"@,
        "Interface"@ != "default"@,
{
    reveal_strlit("Account");
    reveal_strlit("Device");
    reveal_strlit("PrivateKey");
    reveal_strlit("Token");
    reveal_strlit("ClientId");
    reveal_strlit("Type");
    reveal_strlit("MTU");
    reveal_strlit("Peer");
    reveal_strlit("PublicKey");
    reveal_strlit("Endpoint");
    reveal_strlit("Endpoint6");
    reveal_strlit("KeepAlive");
    reveal_strlit("Interface");
    reveal_strlit("Address");
    reveal_strlit("Address6");
    reveal_strlit("DNS");
    reveal_strlit("default");
    assert("Account"@[0] != "default"@[0]);
    assert("Device"@[0] != "default"@[0]);
    assert("Peer"@[0] != "default"@[0]);
    assert("Interface"@[0] != "default"@[0]);
}

proof fn names_differ()
    ensures
        "Account"@ != "Device"@,
        "Account"@ != "Peer"@,
        "Account"@ != "Interface"@,
        "Device"@ != "Peer"@,
        "Device"@ != "Interface"@,
        "Peer"@ != "Interface"@,
        "Device"@ != "PrivateKey"@,
        "Device"@ != "Token"@,
        "Device"@ != "ClientId"@,
        "Device"@ != "Type"@,
        "PrivateKey"@ != "Token"@,
        "PrivateKey"@ != "ClientId"@,
        "PrivateKey"@ != "Type"@,
        "Token"@ != "ClientId"@,
        "Token"@ != "Type"@,
        "ClientId"@ != "Type"@,
        "PublicKey"@ != "Endpoint"@,
        "PublicKey"@ != "Endpoint6"@,
        "PublicKey"@ != "KeepAlive"@,
        "Endpoint"@ != "Endpoint6"@,
        "Endpoint"@ != "KeepAlive"@,
        "Endpoint6"@ != "KeepAlive"@,
        "Address"@ != "Address6"@,
        "Address"@ != "DNS"@,
        "Address6"@ != "DNS"@,
{
    reveal_strlit("Account");
    reveal_strlit("Device");
    reveal_strlit("PrivateKey");
    reveal_strlit("Token");
    reveal_strlit("ClientId");
    reveal_strlit("Type");
    reveal_strlit("MTU");
    reveal_strlit("Peer");
    reveal_strlit("PublicKey");
    reveal_strlit("Endpoint");
    reveal_strlit("Endpoint6");
    reveal_strlit("KeepAlive");
    reveal_strlit("Interface");
    reveal_strlit("Address");
    reveal_strlit("Address6");
    reveal_strlit("DNS");
    reveal_strlit("default");
    assert("Account"@[0] != "Interface"@[0]);
    assert("Account"@[0] != "Device"@[0]);
    assert("Account"@[0] != "Peer"@[0]);
    assert("ClientId"@[0] != "Token"@[0]);
    assert("Endpoint6"@[0] != "KeepAlive"@[0]);
    assert("PublicKey"@[0] != "Endpoint6"@[0]);
    assert("PublicKey"@[0] != "KeepAlive"@[0]);
    assert("Device"@[0] != "Peer"@[0]);
    assert("Account"@.len() == 7);
    assert("Device"@.len() == 6);
    assert("PrivateKey"@.len() == 10);
    assert("Token"@.len() == 5);
    assert("ClientId"@.len() == 8);
    assert("Type"@.len() == 4);
    assert("MTU"@.len() == 3);
    assert("Peer"@.len() == 4);
    assert("PublicKey"@.len() == 9);
    assert("Endpoint"@.len() == 8);
    assert("Endpoint6"@.len() == 9);
    assert("KeepAlive"@.len() == 9);
    assert("Interface"@.len() == 9);
    assert("Address"@.len() == 7);
    assert("Address6"@.len() == 8);
    assert("DNS"@.len() == 3);
}

proof fn decimal_fits_line(n: nat)
    ensures
        fits_line(decimal(n)),
{
    decimal_reads_back(n);
}

/// A configuration of which each text fits a line stands in its file as it is: what the file says
/// is the configuration, and every value in the file is found again when it is read.
pub proof fn saved_config_loads_back(c: WgConfigView)
    requires
        fits_lines(c),
    ensures
        writable(wg_values(c)),
        wg_config_of(wg_values(c)) == Ok::<WgConfigView, WgConfigFault>(c),
{
    names_are_words();
    names_differ();
    decimal_fits_line(c.mtu as nat);
    decimal_fits_line(c.keepalive as nat);
    decimal_parses_back(c.mtu as nat, 65535);
    decimal_parses_back(c.keepalive as nat, 65535);
}

/// Each field of a saved configuration stands under its own name, and what is left out stands
/// nowhere.
pub proof fn where_fields_are_saved(c: WgConfigView)
    ensures
        ({
            let values = wg_values(c);
            &&& value_at(values, "Account"@, "Device"@) == Some(c.device_id)
            &&& value_at(values, "Account"@, "PrivateKey"@) == Some(c.private_key)
            &&& value_at(values, "Account"@, "Token"@) == Some(c.token)
            &&& value_at(values, "Account"@, "ClientId"@) == Some(c.client_id)
            &&& value_at(values, "Account"@, "Type"@) == Some(c.account_type)
            &&& value_at(values, "Device"@, "MTU"@) == Some(decimal(c.mtu as nat))
            &&& value_at(values, "Peer"@, "PublicKey"@) == Some(c.peer_public_key)
            &&& value_at(values, "Peer"@, "Endpoint"@) == Some(c.endpoint)
            &&& value_at(values, "Peer"@, "Endpoint6"@) == c.endpoint6
            &&& value_at(values, "Peer"@, "KeepAlive"@) == Some(decimal(c.keepalive as nat))
            &&& value_at(values, "Interface"@, "Address"@) == Some(c.address)
            &&& value_at(values, "Interface"@, "Address6"@) == c.address6
            &&& value_at(values, "Interface"@, "DNS"@) == Some(c.dns)
        }),
{
    names_differ();
}

/// Each field of a configuration is read where it stands. Seven fields must be there, and the first
/// that is missing is told; the type, the MTU, the keepalive and the DNS server have values that stand
/// in for them, also where a number cannot be read.
pub proof fn where_fields_are_read(values: Map<(Seq<char>, Seq<char>), Option<Seq<char>>>)
    ensures
        wg_config_of(values) is Ok <==> {
            &&& value_at(values, "Account"@, "Device"@) is Some
            &&& value_at(values, "Account"@, "PrivateKey"@) is Some
            &&& value_at(values, "Account"@, "Token"@) is Some
            &&& value_at(values, "Account"@, "ClientId"@) is Some
            &&& value_at(values, "Peer"@, "PublicKey"@) is Some
            &&& value_at(values, "Peer"@, "Endpoint"@) is Some
            &&& value_at(values, "Interface"@, "Address"@) is Some
        },
        wg_config_of(values) matches Ok(c) ==> {
            &&& value_at(values, "Account"@, "Device"@) == Some(c.device_id)
            &&& value_at(values, "Account"@, "PrivateKey"@) == Some(c.private_key)
            &&& value_at(values, "Account"@, "Token"@) == Some(c.token)
            &&& value_at(values, "Account"@, "ClientId"@) == Some(c.client_id)
            &&& value_at(values, "Peer"@, "PublicKey"@) == Some(c.peer_public_key)
            &&& value_at(values, "Peer"@, "Endpoint"@) == Some(c.endpoint)
            &&& value_at(values, "Peer"@, "Endpoint6"@) == c.endpoint6
            &&& value_at(values, "Interface"@, "Address"@) == Some(c.address)
            &&& value_at(values, "Interface"@, "Address6"@) == c.address6
            &&& match value_at(values, "Account"@, "Type"@) {
                Some(text) => c.account_type == text,
                None => c.account_type == "free"@,
            }
            &&& match value_at(values, "Interface"@, "DNS"@) {
                Some(text) => c.dns == text,
                None => c.dns == "1.1.1.1"@,
            }
            &&& match value_at(values, "Device"@, "MTU"@) {
                Some(text) => if parsed_unsigned(text, 65535) is Some {
                    parsed_unsigned(text, 65535) == Some(c.mtu as nat)
                } else {
                    c.mtu == 1280
                },
                None => c.mtu == 1280,
            }
            &&& match value_at(values, "Peer"@, "KeepAlive"@) {
                Some(text) => if parsed_unsigned(text, 65535) is Some {
                    parsed_unsigned(text, 65535) == Some(c.keepalive as nat)
                } else {
                    c.keepalive == 30
                },
                None => c.keepalive == 30,
            }
        },
        wg_config_of(values) matches Err(fault) ==> (fault matches WgConfigFault::MissingField {
            section,
            key,
        } && value_at(values, section, key) is None),
        ({
            let first = |section: Seq<char>, key: Seq<char>|
                wg_config_of(values) == Err::<WgConfigView, WgConfigFault>(
                    WgConfigFault::MissingField { section, key },
                );
            let device = value_at(values, "Account"@, "Device"@) is Some;
            let private_key = value_at(values, "Account"@, "PrivateKey"@) is Some;
            let token = value_at(values, "Account"@, "Token"@) is Some;
            let client_id = value_at(values, "Account"@, "ClientId"@) is Some;
            let public_key = value_at(values, "Peer"@, "PublicKey"@) is Some;
            let endpoint = value_at(values, "Peer"@, "Endpoint"@) is Some;
            let address = value_at(values, "Interface"@, "Address"@) is Some;
            &&& !device ==> first("Account"@, "Device"@)
            &&& device && !private_key ==> first("Account"@, "PrivateKey"@)
            &&& device && private_key && !token ==> first("Account"@, "Token"@)
            &&& device && private_key && token && !client_id ==> first("Account"@, "ClientId"@)
            &&& device && private_key && token && client_id && !public_key ==> first(
                "Peer"@,
                "PublicKey"@,
            )
            &&& device && private_key && token && client_id && public_key && !endpoint ==> first(
                "Peer"@,
                "Endpoint"@,
            )
            &&& device && private_key && token && client_id && public_key && endpoint && !address
                ==> first("Interface"@, "Address"@)
        }),
{
}

/// The address is what stands before the first slash.
pub proof fn the_address_ends_before_the_slash(host: Seq<char>, rest: Seq<char>)
    requires
        forall|i: int| 0 <= i < host.len() ==> #[trigger] host[i] != '/',
    ensures
        before_slash(host, 0) == host,
        before_slash(host + seq!['/'] + rest, 0) == host,
{
    slash_is_at(host, 0, host.len() as int);
    let text = host + seq!['/'] + rest;
    slash_is_at(text, 0, host.len() as int);
    assert(host.subrange(0, host.len() as int) =~= host);
    assert(text.subrange(0, host.len() as int) =~= host);
}

proof fn slash_is_at(s: Seq<char>, from: int, at: int)
    requires
        0 <= from <= at <= s.len(),
        forall|i: int| from <= i < at ==> #[trigger] s[i] != '/',
        at < s.len() ==> s[at] == '/',
    ensures
        before_slash(s, from) == s.subrange(0, at),
    decreases at - from,
{
    if from < at {
        slash_is_at(s, from + 1, at);
    }
}

/// A key in PEM is read line by line: borders are left out, and so are the line ends.
pub proof fn pem_is_read_by_lines(line: Seq<char>, rest: Seq<char>)
    requires
        forall|i: int| 0 <= i < line.len() ==> #[trigger] line[i] != '\n' && line[i] != '\r',
    ensures
        ({
            let border = line.len() >= 5 && line.take(5) == seq!['-', '-', '-', '-', '-'];
            let kept = if border {
                Seq::empty()
            } else {
                line
            };
            &&& pem_body(line, 0) == kept
            &&& pem_body(line + seq!['\n'] + rest, 0) == kept + pem_body(rest, 0)
            &&& pem_body(line + seq!['\r', '\n'] + rest, 0) == kept + pem_body(rest, 0)
        }),
{
    let n = line.len() as int;
    let border = line.len() >= 5 && line.take(5) == seq!['-', '-', '-', '-', '-'];
    let five = seq!['-', '-', '-', '-', '-'];
    if is_pem_border(line) {
        assert(line.take(5) =~= five);
    }
    if border {
        assert forall|i: int| 0 <= i < 5 implies #[trigger] line[i] == '-' by {
            assert(line[i] == line.take(5)[i]);
            assert(five[i] == '-');
        }
    }
    assert(border == is_pem_border(line));
    let kept = if border {
        Seq::empty()
    } else {
        line
    };
    line_ends_at(line, 0, n);
    assert(line.subrange(0, n) =~= line);
    assert(pem_body(line, n + 1) =~= Seq::empty());
    assert(pem_body(line, 0) =~= kept);
    let one = line + seq!['\n'] + rest;
    line_ends_at(one, 0, n);
    assert(one.subrange(0, n) =~= line);
    assert(one.skip(n + 1) =~= rest);
    body_further_on(one, rest, n + 1, 0);
    assert(line_at(one, 0) == line) by {
        if n > 0 {
            assert(one[n - 1] == line[n - 1]);
        }
    }
    let two = line + seq!['\r', '\n'] + rest;
    line_ends_at(two, 0, n + 1);
    assert(two.subrange(0, n) =~= line);
    assert(two.skip(n + 2) =~= rest);
    body_further_on(two, rest, n + 2, 0);
    assert(line_at(two, 0) == line);
}

proof fn line_ends_at(text: Seq<char>, from: int, at: int)
    requires
        0 <= from <= at <= text.len(),
        forall|i: int| from <= i < at ==> #[trigger] text[i] != '\n',
        at < text.len() ==> text[at] == '\n',
    ensures
        line_end(text, from) == at,
    decreases at - from,
{
    if from < at {
        line_ends_at(text, from + 1, at);
    }
}

proof fn line_end_further_on(text: Seq<char>, rest: Seq<char>, shift: int, from: int)
    requires
        0 <= shift,
        text.len() == shift + rest.len(),
        text.skip(shift) == rest,
        0 <= from <= rest.len(),
    ensures
        line_end(text, shift + from) == shift + line_end(rest, from),
    decreases rest.len() - from,
{
    if from < rest.len() {
        assert(rest[from] == text[shift + from]);
        if rest[from] != '\n' {
            line_end_further_on(text, rest, shift, from + 1);
        }
    }
}

proof fn body_further_on(text: Seq<char>, rest: Seq<char>, shift: int, from: int)
    requires
        0 <= shift,
        text.len() == shift + rest.len(),
        text.skip(shift) == rest,
        0 <= from,
    ensures
        pem_body(text, shift + from) == pem_body(rest, from),
    decreases rest.len() - from + 1,
{
    if from < rest.len() {
        line_end_further_on(text, rest, shift, from);
        line_end_bounds(rest, from);
        let end = line_end(rest, from);
        assert(text.subrange(shift + from, shift + end) =~= rest.subrange(from, end));
        if from < end {
            assert(text[shift + end - 1] == rest[end - 1]);
            assert(text.subrange(shift + from, shift + end - 1) =~= rest.subrange(from, end - 1));
        }
        assert(line_at(text, shift + from) == line_at(rest, from));
        body_further_on(text, rest, shift, end + 1);
    }
}

/// Bytes are exactly what was decoded, and nothing is exactly what could not be decoded.
pub proof fn decoded_bytes_count(decoded: Result<Seq<u8>, Seq<char>>, bytes: Seq<u8>, len: nat)
    ensures
        is_exactly(decoded, bytes) <==> decoded == Ok::<Seq<u8>, Seq<char>>(bytes),
        has_len(decoded, len) <==> decoded is Ok && decoded->Ok_0.len() == len,
{
}

/// What is wrong with a configuration is told with the section and the key.
pub proof fn how_wg_config_faults_read(
    section: Seq<char>,
    key: Seq<char>,
    reason: Seq<char>,
    decoded: Seq<u8>,
    len: nat,
)
    ensures
        wg_fault_text(WgConfigFault::MissingField { section, key }) == "missing field: ["@ + section
            + "] "@ + key,
        wg_fault_text(WgConfigFault::InvalidValue { section, key, reason }) == "invalid value: ["@
            + section + "] "@ + key + ": "@ + reason,
        wg_fault_text(WgConfigFault::Base64(reason)) == "base64 decode error: "@ + reason,
        wg_fault_text(WgConfigFault::Io(reason)) == "IO error: "@ + reason,
        wg_fault_text(WgConfigFault::Parse(reason)) == "parse error: "@ + reason,
        bytes_fault(Err(reason), len, section, key) == WgConfigFault::Base64(reason),
        bytes_fault(Ok(decoded), len, section, key) == (WgConfigFault::InvalidValue {
            section,
            key,
            reason: "expected "@ + decimal(len) + " bytes, got "@ + decimal(decoded.len()),
        }),
        decoded_or(Err(reason), key) == Err::<Seq<u8>, ConfigFault>(ConfigFault::Parse(key + reason)),
        decoded_or(Ok(decoded), key) == Ok::<Seq<u8>, ConfigFault>(decoded),
        read_error_text(section, reason) == "couldn't read "@ + section + ": "@ + reason,
{
}

} // verus!
