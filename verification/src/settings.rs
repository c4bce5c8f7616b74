//! The settings that the relay starts with, and the rules that they have to meet.
use vstd::prelude::*;

use crate::text::{all_in_class, is_word, same_text, CharClass};

verus! {

/// The address that the relay listens on where nothing else is asked for.
pub const DEFAULT_ADDRESS: &'static str = "127.0.0.1:6697";

/// The number of characters of the secret that admits a peer.
pub const AUTH_TOKEN_CHARS: usize = 64;

/// The longest name of a network interface.
pub const MAX_INTERFACE: usize = 15;

/// An environment variable as it was found.
pub enum EnvVar {
    /// It has this value.
    Present(String),
    /// There is no such variable.
    Missing,
    /// Its value is not UTF-8.
    NotUnicode,
}

/// The content of an [`EnvVar`].
pub enum EnvView {
    Present(Seq<char>),
    Missing,
    NotUnicode,
}

impl View for EnvVar {
    type V = EnvView;

    open spec fn view(&self) -> EnvView {
        match self {
            EnvVar::Present(value) => EnvView::Present(value@),
            EnvVar::Missing => EnvView::Missing,
            EnvVar::NotUnicode => EnvView::NotUnicode,
        }
    }
}

/// The variables that are checked when they are read.
#[derive(Clone, Copy, Debug, PartialEq, Eq, Structural)]
pub enum Setting {
    RequireAuthToken,
    AllowUnauthenticatedNonLoopback,
    VpnOnly,
    VpnInterface,
    VpnGatewayIp,
}

impl Setting {
    /// The name of the variable.
    pub open spec fn words(self) -> Seq<char> {
        match self {
            Setting::RequireAuthToken => "CHAT_RELAY_REQUIRE_AUTH_TOKEN"@,
            Setting::AllowUnauthenticatedNonLoopback =>
                "CHAT_RELAY_ALLOW_UNAUTHENTICATED_NON_LOOPBACK"@,
            Setting::VpnOnly => "CHAT_RELAY_VPN_ONLY"@,
            Setting::VpnInterface => "CHAT_RELAY_VPN_INTERFACE"@,
            Setting::VpnGatewayIp => "CHAT_RELAY_VPN_GATEWAY_IP"@,
        }
    }

    /// The name of the variable.
    pub fn key(self) -> (key: &'static str)
        ensures
            key@ == self.words(),
    {
        match self {
            Setting::RequireAuthToken => "CHAT_RELAY_REQUIRE_AUTH_TOKEN",
            Setting::AllowUnauthenticatedNonLoopback =>
                "CHAT_RELAY_ALLOW_UNAUTHENTICATED_NON_LOOPBACK",
            Setting::VpnOnly => "CHAT_RELAY_VPN_ONLY",
            Setting::VpnInterface => "CHAT_RELAY_VPN_INTERFACE",
            Setting::VpnGatewayIp => "CHAT_RELAY_VPN_GATEWAY_IP",
        }
    }
}

/// Why the relay does not start.
#[derive(Clone, Copy, Debug, PartialEq, Eq, Structural)]
pub enum StartupError {
    NotBoolean(Setting),
    NotUnicode(Setting),
    AuthTokenMissing,
    AuthTokenInvalid,
    AddressInvalid,
    VpnNotEnabled,
    VpnAddress,
    VpnInterfaceMissing,
    VpnInterfaceInvalid,
    VpnGatewayInvalid,
    VpnFamiliesDiffer,
    VpnNotPrivate,
    Unprotected,
    TlsMissing,
}

impl StartupError {
    /// What the operator is told.
    pub open spec fn words(self) -> Seq<char> {
        match self {
            StartupError::NotBoolean(setting) => setting.words() + " must be true or false"@,
            StartupError::NotUnicode(setting) => setting.words() + " must be valid UTF-8"@,
            StartupError::AuthTokenMissing => "CHAT_RELAY_AUTH_TOKEN required"@,
            StartupError::AuthTokenInvalid =>
                "CHAT_RELAY_AUTH_TOKEN must be 64 hexadecimal characters"@,
            StartupError::AddressInvalid => "CHAT_RELAY_ADDR must be IP:port"@,
            StartupError::VpnNotEnabled => "VPN ingress settings require CHAT_RELAY_VPN_ONLY=true"@,
            StartupError::VpnAddress => "VPN-only bind must select a non-loopback IP"@,
            StartupError::VpnInterfaceMissing => "CHAT_RELAY_VPN_INTERFACE required"@,
            StartupError::VpnInterfaceInvalid => "invalid VPN interface name"@,
            StartupError::VpnGatewayInvalid => "invalid CHAT_RELAY_VPN_GATEWAY_IP"@,
            StartupError::VpnFamiliesDiffer => "VPN gateway and listener IP families differ"@,
            StartupError::VpnNotPrivate =>
                "gateway ingress requires private listener and gateway IPs"@,
            StartupError::Unprotected =>
                "token-free non-loopback bind requires VPN-only ingress or CHAT_RELAY_ALLOW_UNAUTHENTICATED_NON_LOOPBACK=true"@,
            StartupError::TlsMissing =>
                "TLS certificate and key required for non-loopback bind"@,
        }
    }

    /// What the operator is told.
    pub fn message(self) -> (text: String)
        ensures
            text@ == self.words(),
    {
        match self {
            StartupError::NotBoolean(setting) => setting.key().to_owned().concat(
                " must be true or false",
            ),
            StartupError::NotUnicode(setting) => setting.key().to_owned().concat(
                " must be valid UTF-8",
            ),
            StartupError::AuthTokenMissing => "CHAT_RELAY_AUTH_TOKEN required".to_owned(),
            StartupError::AuthTokenInvalid =>
                "CHAT_RELAY_AUTH_TOKEN must be 64 hexadecimal characters".to_owned(),
            StartupError::AddressInvalid => "CHAT_RELAY_ADDR must be IP:port".to_owned(),
            StartupError::VpnNotEnabled =>
                "VPN ingress settings require CHAT_RELAY_VPN_ONLY=true".to_owned(),
            StartupError::VpnAddress => "VPN-only bind must select a non-loopback IP".to_owned(),
            StartupError::VpnInterfaceMissing => "CHAT_RELAY_VPN_INTERFACE required".to_owned(),
            StartupError::VpnInterfaceInvalid => "invalid VPN interface name".to_owned(),
            StartupError::VpnGatewayInvalid => "invalid CHAT_RELAY_VPN_GATEWAY_IP".to_owned(),
            StartupError::VpnFamiliesDiffer =>
                "VPN gateway and listener IP families differ".to_owned(),
            StartupError::VpnNotPrivate =>
                "gateway ingress requires private listener and gateway IPs".to_owned(),
            StartupError::Unprotected =>
                "token-free non-loopback bind requires VPN-only ingress or CHAT_RELAY_ALLOW_UNAUTHENTICATED_NON_LOOPBACK=true".to_owned(),
            StartupError::TlsMissing =>
                "TLS certificate and key required for non-loopback bind".to_owned(),
        }
    }
}

/// An IP address as the number that it stands for, the first octet highest.
#[derive(Clone, Copy, Debug, PartialEq, Eq, Structural)]
pub enum IpAddr {
    V4(u32),
    V6(u128),
}

impl IpAddr {
    /// `127.0.0.0/8` or `::1`.
    pub open spec fn spec_is_loopback(self) -> bool {
        match self {
            IpAddr::V4(ip) => 0x7f00_0000 <= ip <= 0x7fff_ffff,
            IpAddr::V6(ip) => ip == 1,
        }
    }

    /// Whether the address is that of the own host.
    pub fn is_loopback(self) -> (yes: bool)
        ensures
            yes == self.spec_is_loopback(),
    {
        match self {
            IpAddr::V4(ip) => 0x7f00_0000 <= ip && ip <= 0x7fff_ffff,
            IpAddr::V6(ip) => ip == 1,
        }
    }

    /// `0.0.0.0` or `::`.
    pub open spec fn spec_is_unspecified(self) -> bool {
        match self {
            IpAddr::V4(ip) => ip == 0,
            IpAddr::V6(ip) => ip == 0,
        }
    }

    /// Whether the address stands for any address of the host.
    pub fn is_unspecified(self) -> (yes: bool)
        ensures
            yes == self.spec_is_unspecified(),
    {
        match self {
            IpAddr::V4(ip) => ip == 0,
            IpAddr::V6(ip) => ip == 0,
        }
    }

    /// Whether the address is one of version 4.
    pub fn is_ipv4(self) -> (yes: bool)
        ensures
            yes == (self is V4),
    {
        match self {
            IpAddr::V4(_) => true,
            IpAddr::V6(_) => false,
        }
    }
}

/// `10.0.0.0/8`, `172.16.0.0/12`, `192.168.0.0/16` or `fc00::/7`.
pub open spec fn is_private(ip: IpAddr) -> bool {
    match ip {
        IpAddr::V4(ip) => {
            ||| 0x0a00_0000 <= ip <= 0x0aff_ffff
            ||| 0xac10_0000 <= ip <= 0xac1f_ffff
            ||| 0xc0a8_0000 <= ip <= 0xc0a8_ffff
        },
        IpAddr::V6(ip) => 0xfc00_0000_0000_0000_0000_0000_0000_0000 <= ip
            <= 0xfdff_ffff_ffff_ffff_ffff_ffff_ffff_ffff,
    }
}

/// Whether an address is set aside for private networks.
pub fn private_ip(ip: IpAddr) -> (yes: bool)
    ensures
        yes == is_private(ip),
{
    match ip {
        IpAddr::V4(ip) => {
            (0x0a00_0000 <= ip && ip <= 0x0aff_ffff) || (0xac10_0000 <= ip && ip <= 0xac1f_ffff)
                || (0xc0a8_0000 <= ip && ip <= 0xc0a8_ffff)
        },
        IpAddr::V6(ip) => 0xfc00_0000_0000_0000_0000_0000_0000_0000 <= ip && ip
            <= 0xfdff_ffff_ffff_ffff_ffff_ffff_ffff_ffff,
    }
}

/// What a yes-or-no variable says.
pub open spec fn bool_setting(
    setting: Setting,
    value: EnvView,
    default: bool,
) -> Result<bool, StartupError> {
    match value {
        EnvView::Missing => Ok(default),
        EnvView::Present(text) => if text == "true"@ {
            Ok(true)
        } else if text == "false"@ {
            Ok(false)
        } else {
            Err(StartupError::NotBoolean(setting))
        },
        EnvView::NotUnicode => Err(StartupError::NotBoolean(setting)),
    }
}

/// Reads a yes-or-no variable, which has to be `true` or `false` if it is there.
pub fn bool_env(setting: Setting, value: &EnvVar, default: bool) -> (read: Result<
    bool,
    StartupError,
>)
    ensures
        read == bool_setting(setting, value@, default),
{
    proof {
        reveal_strlit("true");
        reveal_strlit("false");
    }
    match value {
        EnvVar::Missing => Ok(default),
        EnvVar::Present(text) => if same_text(text.as_str(), "true") {
            Ok(true)
        } else if same_text(text.as_str(), "false") {
            Ok(false)
        } else {
            Err(StartupError::NotBoolean(setting))
        },
        EnvVar::NotUnicode => Err(StartupError::NotBoolean(setting)),
    }
}

/// What a variable says that can be left out; an empty one counts as left out.
pub open spec fn optional_setting(setting: Setting, value: EnvView) -> Result<
    Option<Seq<char>>,
    StartupError,
> {
    match value {
        EnvView::Present(text) => if text.len() == 0 {
            Ok(None)
        } else {
            Ok(Some(text))
        },
        EnvView::Missing => Ok(None),
        EnvView::NotUnicode => Err(StartupError::NotUnicode(setting)),
    }
}

/// Reads a variable that can be left out.
pub fn optional_env(setting: Setting, value: &EnvVar) -> (read: Result<
    Option<String>,
    StartupError,
>)
    ensures
        match read {
            Ok(text) => optional_setting(setting, value@) == Ok::<Option<Seq<char>>, StartupError>(
                text.deep_view(),
            ),
            Err(error) => optional_setting(setting, value@) == Err::<
                Option<Seq<char>>,
                StartupError,
            >(error),
        },
{
    match value {
        EnvVar::Present(text) => if text.as_str().is_empty() {
            Ok(None)
        } else {
            Ok(Some(text.clone()))
        },
        EnvVar::Missing => Ok(None),
        EnvVar::NotUnicode => Err(StartupError::NotUnicode(setting)),
    }
}

/// The one way in that a relay behind a VPN leaves open.
pub struct VpnIngress {
    /// The network interface that connections come in through.
    pub interface: String,
    /// The only address that connections come from, if there is a gateway.
    pub gateway: Option<IpAddr>,
}

/// The content of a [`VpnIngress`].
pub struct VpnView {
    pub interface: Seq<char>,
    pub gateway: Option<IpAddr>,
}

impl View for VpnIngress {
    type V = VpnView;

    open spec fn view(&self) -> VpnView {
        VpnView { interface: self.interface@, gateway: self.gateway }
    }
}

/// The content of a way in that may not be there.
pub open spec fn ingress_view(ingress: Option<VpnIngress>) -> Option<VpnView> {
    match ingress {
        Some(vpn) => Some(vpn@),
        None => None,
    }
}

/// What the name of a network interface looks like: 1 to 15 ASCII letters, digits, `_`, `-` or
/// `.`, the first one not a `.`.
pub open spec fn is_interface(name: Seq<char>) -> bool {
    1 <= name.len() <= MAX_INTERFACE && all_in_class(CharClass::Interface, name) && name[0] != '.'
}

fn valid_interface(name: &str) -> (valid: bool)
    ensures
        valid == is_interface(name@),
{
    if !is_word(name, CharClass::Interface, 1, MAX_INTERFACE) {
        return false;
    }
    name.get_char(0) != '.'
}

/// The way in that a gateway setting asks for: the gateway has to be of the family of the
/// listener, and both addresses private.
pub open spec fn gateway_ingress(
    addr: IpAddr,
    interface: Seq<char>,
    gateway: IpAddr,
) -> Result<Option<VpnView>, StartupError> {
    if (gateway is V4) != (addr is V4) {
        Err(StartupError::VpnFamiliesDiffer)
    } else if !is_private(addr) || !is_private(gateway) {
        Err(StartupError::VpnNotPrivate)
    } else {
        Ok(Some(VpnView { interface, gateway: Some(gateway) }))
    }
}

/// The way in that the VPN settings ask for. `gateway_ip` is the address that the gateway setting
/// stands for, if it stands for one.
pub open spec fn vpn_setting(
    addr: IpAddr,
    enabled: bool,
    interface: EnvView,
    gateway: EnvView,
    gateway_ip: Option<IpAddr>,
) -> Result<Option<VpnView>, StartupError> {
    match (
        optional_setting(Setting::VpnInterface, interface),
        optional_setting(Setting::VpnGatewayIp, gateway),
    ) {
        (Err(error), _) => Err(error),
        (Ok(_), Err(error)) => Err(error),
        (Ok(interface), Ok(gateway)) => {
            if !enabled {
                if interface is None && gateway is None {
                    Ok(None)
                } else {
                    Err(StartupError::VpnNotEnabled)
                }
            } else if addr.spec_is_unspecified() || addr.spec_is_loopback() {
                Err(StartupError::VpnAddress)
            } else if interface is None {
                Err(StartupError::VpnInterfaceMissing)
            } else if !is_interface(interface->0) {
                Err(StartupError::VpnInterfaceInvalid)
            } else if gateway is None {
                Ok(Some(VpnView { interface: interface->0, gateway: None }))
            } else if gateway_ip is None {
                Err(StartupError::VpnGatewayInvalid)
            } else {
                gateway_ingress(addr, interface->0, gateway_ip->0)
            }
        },
    }
}

/// Reads the VPN settings of a relay that listens on an address. `gateway_ip` is the address that
/// the gateway setting stands for, if it stands for one.
pub fn vpn_ingress(
    addr: IpAddr,
    enabled: bool,
    interface: &EnvVar,
    gateway: &EnvVar,
    gateway_ip: Option<IpAddr>,
) -> (read: Result<Option<VpnIngress>, StartupError>)
    ensures
        match read {
            Ok(ingress) => vpn_setting(addr, enabled, interface@, gateway@, gateway_ip) == Ok::<
                Option<VpnView>,
                StartupError,
            >(ingress_view(ingress)),
            Err(error) => vpn_setting(addr, enabled, interface@, gateway@, gateway_ip) == Err::<
                Option<VpnView>,
                StartupError,
            >(error),
        },
{
    let interface = match optional_env(Setting::VpnInterface, interface) {
        Ok(interface) => interface,
        Err(error) => return Err(error),
    };
    let gateway = match optional_env(Setting::VpnGatewayIp, gateway) {
        Ok(gateway) => gateway,
        Err(error) => return Err(error),
    };
    if !enabled {
        if interface.is_none() && gateway.is_none() {
            return Ok(None);
        }
        return Err(StartupError::VpnNotEnabled);
    }
    if addr.is_unspecified() || addr.is_loopback() {
        return Err(StartupError::VpnAddress);
    }
    let interface = match interface {
        Some(interface) => interface,
        None => return Err(StartupError::VpnInterfaceMissing),
    };
    if !valid_interface(interface.as_str()) {
        return Err(StartupError::VpnInterfaceInvalid);
    }
    if gateway.is_none() {
        return Ok(Some(VpnIngress { interface, gateway: None }));
    }
    let gateway = match gateway_ip {
        Some(gateway) => gateway,
        None => return Err(StartupError::VpnGatewayInvalid),
    };
    if gateway.is_ipv4() != addr.is_ipv4() {
        return Err(StartupError::VpnFamiliesDiffer);
    }
    if !private_ip(addr) || !private_ip(gateway) {
        return Err(StartupError::VpnNotPrivate);
    }
    Ok(Some(VpnIngress { interface, gateway: Some(gateway) }))
}

/// A peer is let in: through a gateway, only the gateway is.
pub open spec fn is_let_in(ingress: Option<VpnView>, peer: IpAddr) -> bool {
    ingress matches Some(vpn) ==> (vpn.gateway matches Some(gateway) ==> peer == gateway)
}

/// Whether a connection from a peer is accepted.
pub fn admits(ingress: &Option<VpnIngress>, peer: IpAddr) -> (yes: bool)
    ensures
        yes == is_let_in(ingress_view(*ingress), peer),
{
    match ingress {
        Some(vpn) => match vpn.gateway {
            Some(gateway) => peer == gateway,
            None => true,
        },
        None => true,
    }
}

/// What the secret looks like that admits a peer: 64 hexadecimal digits.
pub open spec fn is_auth_token(text: Seq<char>) -> bool {
    text.len() == AUTH_TOKEN_CHARS && all_in_class(CharClass::HexDigit, text)
}

/// The secret that the server asks a registration for.
pub open spec fn auth_setting(required: bool, value: EnvView) -> Result<
    Option<Seq<char>>,
    StartupError,
> {
    if !required {
        Ok(None)
    } else {
        match value {
            EnvView::Present(text) => if is_auth_token(text) {
                Ok(Some(text))
            } else {
                Err(StartupError::AuthTokenInvalid)
            },
            _ => Err(StartupError::AuthTokenMissing),
        }
    }
}

/// Reads the secret that the server asks a registration for.
pub fn auth_env(required: bool, value: &EnvVar) -> (read: Result<Option<String>, StartupError>)
    ensures
        match read {
            Ok(token) => auth_setting(required, value@) == Ok::<Option<Seq<char>>, StartupError>(
                token.deep_view(),
            ),
            Err(error) => auth_setting(required, value@) == Err::<Option<Seq<char>>, StartupError>(
                error,
            ),
        },
{
    if !required {
        return Ok(None);
    }
    match value {
        EnvVar::Present(text) => if is_word(
            text.as_str(),
            CharClass::HexDigit,
            AUTH_TOKEN_CHARS,
            AUTH_TOKEN_CHARS,
        ) {
            Ok(Some(text.clone()))
        } else {
            Err(StartupError::AuthTokenInvalid)
        },
        _ => Err(StartupError::AuthTokenMissing),
    }
}

/// The files of a TLS listener.
pub struct TlsFiles {
    pub cert: String,
    pub key: String,
}

/// The content of a [`TlsFiles`].
pub struct TlsView {
    pub cert: Seq<char>,
    pub key: Seq<char>,
}

impl View for TlsFiles {
    type V = TlsView;

    open spec fn view(&self) -> TlsView {
        TlsView { cert: self.cert@, key: self.key@ }
    }
}

/// The content of TLS files that may not be there.
pub open spec fn tls_view(tls: Option<TlsFiles>) -> Option<TlsView> {
    match tls {
        Some(files) => Some(files@),
        None => None,
    }
}

/// The TLS files that the settings name: both, or neither on a loopback address.
pub open spec fn tls_setting(cert: EnvView, key: EnvView, loopback: bool) -> Result<
    Option<TlsView>,
    StartupError,
> {
    match (cert, key) {
        (EnvView::Present(cert), EnvView::Present(key)) => if cert.len() > 0 && key.len() > 0 {
            Ok(Some(TlsView { cert, key }))
        } else if cert.len() == 0 && key.len() == 0 && loopback {
            Ok(None)
        } else {
            Err(StartupError::TlsMissing)
        },
        (EnvView::Missing, EnvView::Missing) => if loopback {
            Ok(None)
        } else {
            Err(StartupError::TlsMissing)
        },
        _ => Err(StartupError::TlsMissing),
    }
}

/// Reads which files a TLS listener uses, if the relay is to have one.
pub fn tls_env(cert: &EnvVar, key: &EnvVar, loopback: bool) -> (read: Result<
    Option<TlsFiles>,
    StartupError,
>)
    ensures
        match read {
            Ok(tls) => tls_setting(cert@, key@, loopback) == Ok::<Option<TlsView>, StartupError>(
                tls_view(tls),
            ),
            Err(error) => tls_setting(cert@, key@, loopback) == Err::<Option<TlsView>, StartupError>(
                error,
            ),
        },
{
    match cert {
        EnvVar::Present(cert) => match key {
            EnvVar::Present(key) => {
                let no_cert: bool = cert.as_str().is_empty();
                let no_key: bool = key.as_str().is_empty();
                if !no_cert && !no_key {
                    Ok(Some(TlsFiles { cert: cert.clone(), key: key.clone() }))
                } else if no_cert && no_key && loopback {
                    Ok(None)
                } else {
                    Err(StartupError::TlsMissing)
                }
            },
            _ => Err(StartupError::TlsMissing),
        },
        EnvVar::Missing => match key {
            EnvVar::Missing => if loopback {
                Ok(None)
            } else {
                Err(StartupError::TlsMissing)
            },
            _ => Err(StartupError::TlsMissing),
        },
        EnvVar::NotUnicode => Err(StartupError::TlsMissing),
    }
}

/// The text of the address to listen on: the argument, or else the variable, or else the default.
pub open spec fn address_setting(argument: Option<Seq<char>>, value: EnvView) -> Seq<char> {
    match argument {
        Some(text) => text,
        None => match value {
            EnvView::Present(text) => text,
            _ => DEFAULT_ADDRESS@,
        },
    }
}

/// Picks the text of the address to listen on.
pub fn address_env(argument: Option<String>, value: EnvVar) -> (text: String)
    ensures
        text@ == address_setting(argument.deep_view(), value@),
{
    match argument {
        Some(text) => text,
        None => match value {
            EnvVar::Present(text) => text,
            _ => DEFAULT_ADDRESS.to_owned(),
        },
    }
}

/// All that the relay reads before it starts.
pub struct Settings {
    pub require_auth_token: EnvVar,
    pub allow_unauthenticated_non_loopback: EnvVar,
    pub auth_token: EnvVar,
    /// The address to listen on, if its text stands for one.
    pub addr: Option<IpAddr>,
    pub vpn_only: EnvVar,
    pub vpn_interface: EnvVar,
    pub vpn_gateway: EnvVar,
    /// The address that the gateway setting stands for, if it stands for one.
    pub vpn_gateway_ip: Option<IpAddr>,
    pub tls_cert: EnvVar,
    pub tls_key: EnvVar,
}

/// What the relay starts with.
pub struct Config {
    /// The secret that a registration is asked for.
    pub auth_token: Option<String>,
    /// The one way in, if there is only one.
    pub ingress: Option<VpnIngress>,
    /// The files of the TLS listener, if there is to be one.
    pub tls: Option<TlsFiles>,
}

/// The content of a [`Config`].
pub struct ConfigView {
    pub auth_token: Option<Seq<char>>,
    pub ingress: Option<VpnView>,
    pub tls: Option<TlsView>,
}

impl View for Config {
    type V = ConfigView;

    open spec fn view(&self) -> ConfigView {
        ConfigView {
            auth_token: self.auth_token.deep_view(),
            ingress: ingress_view(self.ingress),
            tls: tls_view(self.tls),
        }
    }
}

/// Without a secret, only the own host gets in, unless the operator has said that a VPN or
/// nothing guards the relay.
pub open spec fn is_guarded(require: bool, allow: bool, vpn_only: bool, addr: IpAddr) -> bool {
    require || addr.spec_is_loopback() || allow || vpn_only
}

/// The second half of the checks: where the relay listens, who gets in, and over what.
pub open spec fn listener_setting(
    settings: Settings,
    require: bool,
    allow: bool,
    auth_token: Option<Seq<char>>,
) -> Result<ConfigView, StartupError> {
    match settings.addr {
        None => Err(StartupError::AddressInvalid),
        Some(addr) => match bool_setting(Setting::VpnOnly, settings.vpn_only@, false) {
            Err(error) => Err(error),
            Ok(vpn_only) => match vpn_setting(
                addr,
                vpn_only,
                settings.vpn_interface@,
                settings.vpn_gateway@,
                settings.vpn_gateway_ip,
            ) {
                Err(error) => Err(error),
                Ok(ingress) => if !is_guarded(require, allow, vpn_only, addr) {
                    Err(StartupError::Unprotected)
                } else {
                    match tls_setting(settings.tls_cert@, settings.tls_key@, addr.spec_is_loopback()) {
                        Err(error) => Err(error),
                        Ok(tls) => Ok(ConfigView { auth_token, ingress, tls }),
                    }
                },
            },
        },
    }
}

/// What the settings amount to: the first check that fails decides which error it is.
pub open spec fn config_setting(settings: Settings) -> Result<ConfigView, StartupError> {
    match bool_setting(Setting::RequireAuthToken, settings.require_auth_token@, true) {
        Err(error) => Err(error),
        Ok(require) => match bool_setting(
            Setting::AllowUnauthenticatedNonLoopback,
            settings.allow_unauthenticated_non_loopback@,
            false,
        ) {
            Err(error) => Err(error),
            Ok(allow) => match auth_setting(require, settings.auth_token@) {
                Err(error) => Err(error),
                Ok(auth_token) => listener_setting(settings, require, allow, auth_token),
            },
        },
    }
}

/// Checks the settings of the relay.
pub fn configure(settings: &Settings) -> (config: Result<Config, StartupError>)
    ensures
        match config {
            Ok(config) => config_setting(*settings) == Ok::<ConfigView, StartupError>(config@),
            Err(error) => config_setting(*settings) == Err::<ConfigView, StartupError>(error),
        },
{
    let require = match bool_env(Setting::RequireAuthToken, &settings.require_auth_token, true) {
        Ok(require) => require,
        Err(error) => return Err(error),
    };
    let allow = match bool_env(
        Setting::AllowUnauthenticatedNonLoopback,
        &settings.allow_unauthenticated_non_loopback,
        false,
    ) {
        Ok(allow) => allow,
        Err(error) => return Err(error),
    };
    let auth_token = match auth_env(require, &settings.auth_token) {
        Ok(auth_token) => auth_token,
        Err(error) => return Err(error),
    };
    let addr = match settings.addr {
        Some(addr) => addr,
        None => return Err(StartupError::AddressInvalid),
    };
    let vpn_only = match bool_env(Setting::VpnOnly, &settings.vpn_only, false) {
        Ok(vpn_only) => vpn_only,
        Err(error) => return Err(error),
    };
    let ingress = match vpn_ingress(
        addr,
        vpn_only,
        &settings.vpn_interface,
        &settings.vpn_gateway,
        settings.vpn_gateway_ip,
    ) {
        Ok(ingress) => ingress,
        Err(error) => return Err(error),
    };
    let loopback = addr.is_loopback();
    if !(require || loopback || allow || vpn_only) {
        return Err(StartupError::Unprotected);
    }
    let tls = match tls_env(&settings.tls_cert, &settings.tls_key, loopback) {
        Ok(tls) => tls,
        Err(error) => return Err(error),
    };
    Ok(Config { auth_token, ingress, tls })
}

} // verus!
