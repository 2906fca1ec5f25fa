//! Requests to the service that registers devices, and its replies.

use crate::codec::{base64_encode, base64_text, hex_text};
use crate::crypto::{generate_random_serial, generate_random_wg_pubkey, CryptoError};
use vstd::prelude::*;

verus! {

/// The address of the service.
pub const API_URL: &'static str = "https://api.cloudflareclient.com";

/// The version of the service that requests are made to.
pub const API_VERSION: &'static str = "v0a4471";

/// The name that a MASQUE connection asks for.
pub const CONNECT_SNI: &'static str = "consumer-masque.cloudflareclient.com";

/// What a MASQUE tunnel asks to be connected to.
pub const CONNECT_URI: &'static str = "https://cloudflareaccess.com";

/// The model that a device is registered as.
pub const DEFAULT_MODEL: &'static str = "PC";

/// The kind of a WireGuard key.
pub const KEY_TYPE_WG: &'static str = "curve25519";

/// The kind of a WireGuard tunnel.
pub const TUN_TYPE_WG: &'static str = "wireguard";

/// The kind of a MASQUE key.
pub const KEY_TYPE_MASQUE: &'static str = "secp256r1";

/// The kind of a MASQUE tunnel.
pub const TUN_TYPE_MASQUE: &'static str = "masque";

/// The locale that a device is registered with.
pub const DEFAULT_LOCALE: &'static str = "en_US";

/// What a device tells of itself when it registers.
#[derive(Debug)]
pub struct Registration {
    pub key: String,
    pub install_id: String,
    pub fcm_token: String,
    pub tos: String,
    pub model: String,
    pub serial: String,
    pub os_version: String,
    pub key_type: String,
    pub tun_type: String,
    pub locale: String,
}

/// What a device tells of its new key.
#[derive(Debug)]
pub struct DeviceUpdate {
    pub key: String,
    pub key_type: String,
    pub tun_type: String,
    pub name: Option<String>,
}

/// What the service knows of a device.
#[derive(Debug)]
pub struct AccountData {
    pub id: String,
    pub account: Account,
    pub config: AccountConfig,
    pub token: Option<String>,
}

/// The account that a device belongs to.
#[derive(Debug)]
pub struct Account {
    pub license: Option<String>,
}

/// How a device is to connect.
#[derive(Debug)]
pub struct AccountConfig {
    pub client_id: Option<String>,
    pub peers: Option<Vec<Peer>>,
    pub interface_config: Option<InterfaceConfig>,
}

/// The interface of a device.
#[derive(Debug)]
pub struct InterfaceConfig {
    pub addresses: Option<Addresses>,
}

/// The addresses of an interface.
#[derive(Debug)]
pub struct Addresses {
    pub v4: Option<String>,
    pub v6: Option<String>,
}

/// A server that a device connects to.
#[derive(Debug)]
pub struct Peer {
    pub public_key: String,
    pub endpoint: Option<Endpoint>,
}

/// The addresses of a server.
#[derive(Debug)]
pub struct Endpoint {
    pub v4: Option<String>,
    pub v6: Option<String>,
}

/// Why a request to the service failed.
#[derive(Debug)]
pub enum ApiClientError {
    RequestError(String),
    ApiError(String),
    CryptoError(String),
}

impl ApiClientError {
    /// How the error reads.
    pub fn text(&self) -> (text: String)
        ensures
            text@ == match *self {
                ApiClientError::RequestError(why) => "HTTP request failed: "@ + why@,
                ApiClientError::ApiError(why) => "API error: "@ + why@,
                ApiClientError::CryptoError(why) => "crypto error: "@ + why@,
            },
    {
        match self {
            ApiClientError::RequestError(why) => String::from_str("HTTP request failed: ").concat(
                why.as_str(),
            ),
            ApiClientError::ApiError(why) => String::from_str("API error: ").concat(why.as_str()),
            ApiClientError::CryptoError(why) => String::from_str("crypto error: ").concat(
                why.as_str(),
            ),
        }
    }
}

/// A header with its name.
pub struct Header {
    pub name: String,
    pub value: String,
}

/// A header as values.
pub struct HeaderView {
    pub name: Seq<char>,
    pub value: Seq<char>,
}

impl View for Header {
    type V = HeaderView;

    open spec fn view(&self) -> HeaderView {
        HeaderView { name: self.name@, value: self.value@ }
    }
}

/// Headers as values.
pub open spec fn header_views(headers: Seq<Header>) -> Seq<HeaderView> {
    Seq::new(headers.len(), |i: int| headers[i]@)
}

/// The headers of every request.
pub open spec fn common_headers() -> Seq<HeaderView> {
    seq![
        HeaderView { name: "User-Agent"@, value: "WARP for Android"@ },
        HeaderView { name: "CF-Client-Version"@, value: "a-6.35-4471"@ },
        HeaderView { name: "Content-Type"@, value: "application/json; charset=UTF-8"@ },
        HeaderView { name: "Connection"@, value: "Keep-Alive"@ },
    ]
}

fn header(name: &str, value: &str) -> (header: Header)
    ensures
        header@ == (HeaderView { name: name@, value: value@ }),
{
    Header { name: String::from_str(name), value: String::from_str(value) }
}

/// The headers of every request.
pub fn default_headers() -> (headers: Vec<Header>)
    ensures
        header_views(headers@) == common_headers(),
{
    let mut headers: Vec<Header> = Vec::new();
    headers.push(header("User-Agent", "WARP for Android"));
    headers.push(header("CF-Client-Version", "a-6.35-4471"));
    headers.push(header("Content-Type", "application/json; charset=UTF-8"));
    headers.push(header("Connection", "Keep-Alive"));
    assert(header_views(headers@) =~= common_headers());
    headers
}

/// Where a request goes, and its headers.
pub struct ApiRequest {
    pub url: String,
    pub headers: Vec<Header>,
}

/// A client of the service.
pub struct CloudflareClient {
    pub base_url: String,
}

/// What a device tells of itself, with the parts that are made anew for each registration.
pub open spec fn registers(
    r: Registration,
    key: Seq<char>,
    tos: Seq<char>,
    model: Seq<char>,
    serial: Seq<char>,
    locale: Seq<char>,
) -> bool {
    &&& r.key@ == key
    &&& r.install_id@ == Seq::<char>::empty()
    &&& r.fcm_token@ == Seq::<char>::empty()
    &&& r.tos@ == tos
    &&& r.model@ == model
    &&& r.serial@ == serial
    &&& r.os_version@ == Seq::<char>::empty()
    &&& r.key_type@ == KEY_TYPE_WG@
    &&& r.tun_type@ == TUN_TYPE_WG@
    &&& r.locale@ == locale
}

/// The headers of a registration: those of every request, and the token of a team if there is one.
pub open spec fn registration_headers(jwt: Option<Seq<char>>) -> Seq<HeaderView> {
    match jwt {
        Some(token) => common_headers().push(
            HeaderView { name: "CF-Access-Jwt-Assertion"@, value: token },
        ),
        None => common_headers(),
    }
}

/// An optional text as values.
pub open spec fn shown(text: Option<&str>) -> Option<Seq<char>> {
    match text {
        Some(text) => Some(text@),
        None => None,
    }
}

impl CloudflareClient {
    /// A client of the service at its usual address.
    pub fn new() -> (client: CloudflareClient)
        ensures
            client.base_url@ == API_URL@ + "/"@ + API_VERSION@,
    {
        CloudflareClient {
            base_url: String::from_str(API_URL).concat("/").concat(API_VERSION),
        }
    }

    /// The request that registers a device with this key and serial number.
    pub fn registration(
        &self,
        key: String,
        serial: String,
        tos: String,
        model: &str,
        locale: &str,
        jwt: Option<&str>,
    ) -> (res: (ApiRequest, Registration))
        ensures
            res.0.url@ == self.base_url@ + "/reg"@,
            header_views(res.0.headers@) == registration_headers(shown(jwt)),
            registers(res.1, key@, tos@, model@, serial@, locale@),
    {
        let mut headers: Vec<Header> = default_headers();
        let ghost common = headers@;
        if let Some(token) = jwt {
            headers.push(header("CF-Access-Jwt-Assertion", token));
            assert(header_views(headers@) =~= registration_headers(shown(jwt)));
        }
        let registration = Registration {
            key,
            install_id: String::new(),
            fcm_token: String::new(),
            tos,
            model: String::from_str(model),
            serial,
            os_version: String::new(),
            key_type: String::from_str(KEY_TYPE_WG),
            tun_type: String::from_str(TUN_TYPE_WG),
            locale: String::from_str(locale),
        };
        (ApiRequest { url: self.base_url.clone().concat("/reg"), headers }, registration)
    }

    /// The request that registers a device with a random key and serial number.
    pub fn register(&self, model: &str, locale: &str, jwt: Option<&str>, tos: String) -> (res:
        Result<(ApiRequest, Registration), ApiClientError>)
        ensures
            match res {
                Ok((request, registration)) => {
                    &&& request.url@ == self.base_url@ + "/reg"@
                    &&& header_views(request.headers@) == registration_headers(shown(jwt))
                    &&& exists|bytes: Seq<u8>|
                        bytes.len() == 8 && registration.serial@ == #[trigger] hex_text(bytes)
                    &&& registers(
                        registration,
                        registration.key@,
                        tos@,
                        model@,
                        registration.serial@,
                        locale@,
                    )
                    &&& exists|bytes: Seq<u8>|
                        bytes.len() == 32 && registration.key@ == #[trigger] base64_text(bytes)
                },
                Err(e) => e matches ApiClientError::CryptoError(why) && why@
                    == "random generation failed: "@ + "ring::error::Unspecified"@,
            },
    {
        let key: String = match generate_random_wg_pubkey() {
            Ok(key) => key,
            Err(e) => {
                return Err(ApiClientError::CryptoError(e.text()));
            },
        };
        self.register_wg(key, model, locale, jwt, tos)
    }

    /// The request that registers a device with its own key and a random serial number.
    pub fn register_wg(
        &self,
        key: String,
        model: &str,
        locale: &str,
        jwt: Option<&str>,
        tos: String,
    ) -> (res: Result<(ApiRequest, Registration), ApiClientError>)
        ensures
            match res {
                Ok((request, registration)) => {
                    &&& request.url@ == self.base_url@ + "/reg"@
                    &&& header_views(request.headers@) == registration_headers(shown(jwt))
                    &&& exists|bytes: Seq<u8>|
                        bytes.len() == 8 && registration.serial@ == #[trigger] hex_text(bytes)
                    &&& registers(
                        registration,
                        key@,
                        tos@,
                        model@,
                        registration.serial@,
                        locale@,
                    )
                },
                Err(e) => e matches ApiClientError::CryptoError(why) && why@
                    == "random generation failed: "@ + "ring::error::Unspecified"@,
            },
    {
        let serial: String = match generate_random_serial() {
            Ok(serial) => serial,
            Err(e) => {
                return Err(ApiClientError::CryptoError(e.text()));
            },
        };
        Ok(self.registration(key, serial, tos, model, locale, jwt))
    }

    /// The request that gives a device a MASQUE key.
    pub fn enroll_key(
        &self,
        account_id: &str,
        access_token: &str,
        pub_key: &[u8],
        device_name: Option<&str>,
    ) -> (res: (ApiRequest, DeviceUpdate))
        ensures
            res.0.url@ == self.base_url@ + "/reg/"@ + account_id@,
            header_views(res.0.headers@) == common_headers().push(
                HeaderView { name: "Authorization"@, value: "Bearer "@ + access_token@ },
            ),
            res.1.key@ == base64_text(pub_key@),
            res.1.key_type@ == KEY_TYPE_MASQUE@,
            res.1.tun_type@ == TUN_TYPE_MASQUE@,
            match device_name {
                Some(name) => res.1.name matches Some(told) && told@ == name@,
                None => res.1.name is None,
            },
    {
        let mut headers: Vec<Header> = default_headers();
        let ghost common = headers@;
        let bearer = String::from_str("Bearer ").concat(access_token);
        headers.push(header("Authorization", bearer.as_str()));
        assert(header_views(headers@) =~= header_views(common).push(headers@.last()@));
        let update = DeviceUpdate {
            key: base64_encode(pub_key),
            key_type: String::from_str(KEY_TYPE_MASQUE),
            tun_type: String::from_str(TUN_TYPE_MASQUE),
            name: match device_name {
                Some(name) => Some(String::from_str(name)),
                None => None,
            },
        };
        let url = self.base_url.clone().concat("/reg/").concat(account_id);
        (ApiRequest { url, headers }, update)
    }
}

impl Default for CloudflareClient {
    fn default() -> (client: CloudflareClient)
        ensures
            client.base_url@ == API_URL@ + "/"@ + API_VERSION@,
    {
        CloudflareClient::new()
    }
}

/// What a reply without success means. `what` is what was asked for.
pub fn check_reply(what: &str, success: bool, status: &str, body: &str) -> (res: Result<
    (),
    ApiClientError,
>)
    ensures
        match res {
            Ok(_) => success,
            Err(ApiClientError::ApiError(text)) => !success && text@ == what@ + " failed: "@
                + status@ + " - "@ + body@,
            Err(_) => false,
        },
{
    if success {
        return Ok(());
    }
    Err(
        ApiClientError::ApiError(
            String::from_str(what).concat(" failed: ").concat(status).concat(" - ").concat(body),
        ),
    )
}

/// A registration names the WireGuard key and tunnel, and what it is given; the rest is empty.
pub proof fn what_a_registration_says(
    r: Registration,
    key: Seq<char>,
    tos: Seq<char>,
    model: Seq<char>,
    serial: Seq<char>,
    locale: Seq<char>,
)
    requires
        registers(r, key, tos, model, serial, locale),
    ensures
        r.key@ == key,
        r.tos@ == tos,
        r.model@ == model,
        r.serial@ == serial,
        r.locale@ == locale,
        r.key_type@ == "curve25519"@,
        r.tun_type@ == "wireguard"@,
        r.install_id@.len() == 0,
        r.fcm_token@.len() == 0,
        r.os_version@.len() == 0,
{
}

/// Every request has the four common headers first. A token is handed on as it is, in a header of
/// its own, and without a token there is no such header.
pub proof fn headers_of_a_registration(token: Seq<char>)
    ensures
        common_headers().len() == 4,
        common_headers()[0] == (HeaderView { name: "User-Agent"@, value: "WARP for Android"@ }),
        common_headers()[1] == (HeaderView { name: "CF-Client-Version"@, value: "a-6.35-4471"@ }),
        common_headers()[2] == (HeaderView {
            name: "Content-Type"@,
            value: "application/json; charset=UTF-8"@,
        }),
        common_headers()[3] == (HeaderView { name: "Connection"@, value: "Keep-Alive"@ }),
        registration_headers(None) == common_headers(),
        registration_headers(Some(token)).len() == 5,
        registration_headers(Some(token)).take(4) == common_headers(),
        registration_headers(Some(token))[4] == (HeaderView {
            name: "CF-Access-Jwt-Assertion"@,
            value: token,
        }),
{
    assert(registration_headers(Some(token)).take(4) =~= common_headers());
}

/// Where requests go, and what devices call themselves.
pub proof fn what_cloudflare_expects()
    ensures
        API_URL@ == "https://api.cloudflareclient.com"@,
        API_VERSION@ == "v0a4471"@,
        CONNECT_SNI@ == "consumer-masque.cloudflareclient.com"@,
        CONNECT_URI@ == "https://cloudflareaccess.com"@,
        KEY_TYPE_MASQUE@ == "secp256r1"@,
        TUN_TYPE_MASQUE@ == "masque"@,
        KEY_TYPE_WG@ == "curve25519"@,
        TUN_TYPE_WG@ == "wireguard"@,
        DEFAULT_MODEL@ == "PC"@,
        DEFAULT_LOCALE@ == "en_US"@,
{
}

} // verus!
