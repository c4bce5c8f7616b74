//! What an operator can rely on: how the settings are read, who is let in, and how the relay comes
//! to listen.
use vstd::prelude::*;
use vstd::utf8::encode_utf8;

use crate::bind::{
    bind_listener, interface_field, is_run, BindError, BindStep, BACKLOG, INTERFACE_ROOM, TUNNEL,
};
use crate::settings::{
    address_env, admits, auth_env, bool_env, configure, is_auth_token, is_interface, is_private,
    optional_env, private_ip, tls_env, vpn_ingress, Config, EnvVar, IpAddr, Setting, Settings,
    StartupError, TlsFiles, VpnIngress,
};
use crate::text::{in_class, CharClass};
use crate::tls::{
    certificates, join_material, pem_certificates, pem_private_key, private_key, require_key,
    tls_material, PrivateKey, TlsError,
};

verus! {

/// A variable has a value.
pub open spec fn says(value: EnvVar, text: Seq<char>) -> bool {
    value matches EnvVar::Present(found) && found@ == text
}

/// A variable is left out: it is missing or empty.
pub open spec fn is_blank(value: EnvVar) -> bool {
    value is Missing || says(value, seq![])
}

/// A yes-or-no variable says yes, or says nothing where that means yes.
pub open spec fn says_yes(value: EnvVar, default: bool) -> bool {
    says(value, "true"@) || value is Missing && default
}

/// A yes-or-no variable says no, or says nothing where that means no.
pub open spec fn says_no(value: EnvVar, default: bool) -> bool {
    says(value, "false"@) || value is Missing && !default
}

proof fn lemma_yes_or_no(value: EnvVar, default: bool)
    ensures
        !(says_yes(value, default) && says_no(value, default)),
{
    reveal_strlit("true");
    reveal_strlit("false");
    assert("true"@.len() == 4);
    assert("false"@.len() == 5);
}

/// A yes-or-no variable is yes or no exactly where it says so. Anything else is refused.
pub proof fn law_yes_or_no(
    setting: Setting,
    value: &EnvVar,
    default: bool,
    read: Result<bool, StartupError>,
)
    requires
        call_ensures(bool_env, (setting, value, default), read),
    ensures
        read == Ok::<bool, StartupError>(true) <==> says_yes(*value, default),
        read == Ok::<bool, StartupError>(false) <==> says_no(*value, default),
        read is Err <==> !says_yes(*value, default) && !says_no(*value, default),
        read is Err ==> read->Err_0 == StartupError::NotBoolean(setting),
{
    lemma_yes_or_no(*value, default);
}

/// A variable that can be left out is read as it stands, and refused only where it is no text.
pub proof fn law_left_out(
    setting: Setting,
    value: &EnvVar,
    read: Result<Option<String>, StartupError>,
    text: Seq<char>,
)
    requires
        call_ensures(optional_env, (setting, value), read),
    ensures
        read is Err <==> value is NotUnicode,
        read is Err ==> read->Err_0 == StartupError::NotUnicode(setting),
        is_blank(*value) <==> read is Ok && read->Ok_0 is None,
        says(*value, text) && text.len() > 0 <==> read is Ok && read->Ok_0 is Some
            && read->Ok_0->0@ == text,
{
    lemma_blank(*value);
}

/// The own host has the addresses `127.0.0.0/8`; the private networks have `10.0.0.0/8`,
/// `172.16.0.0/12` and `192.168.0.0/16`.
pub proof fn law_addresses_of_version_4(a: u8, b: u8, c: u8, d: u8, ip: u32, yes: bool)
    requires
        ip == a * 0x100_0000 + b * 0x1_0000 + c * 0x100 + d,
    ensures
        call_ensures(IpAddr::is_loopback, (IpAddr::V4(ip),), yes) ==> yes == (a == 127),
        call_ensures(IpAddr::is_unspecified, (IpAddr::V4(ip),), yes) ==> yes == (a == 0 && b == 0
            && c == 0 && d == 0),
        call_ensures(private_ip, (IpAddr::V4(ip),), yes) ==> yes == (a == 10 || (a == 172 && 16
            <= b <= 31) || (a == 192 && b == 168)),
        call_ensures(IpAddr::is_ipv4, (IpAddr::V4(ip),), yes) ==> yes,
{
}

/// The own host has the address `::1`; the private networks have `fc00::/7`. `high` is the first
/// octet of an address.
pub proof fn law_addresses_of_version_6(high: u8, low: u128, ip: u128, yes: bool)
    requires
        low < 0x1_00_0000_0000_0000_0000_0000_0000_0000,
        ip == high * 0x1_00_0000_0000_0000_0000_0000_0000_0000 + low,
    ensures
        call_ensures(IpAddr::is_loopback, (IpAddr::V6(ip),), yes) ==> yes == (high == 0 && low == 1),
        call_ensures(IpAddr::is_unspecified, (IpAddr::V6(ip),), yes) ==> yes == (high == 0 && low
            == 0),
        call_ensures(private_ip, (IpAddr::V6(ip),), yes) ==> yes == (high == 0xfc || high == 0xfd),
        call_ensures(IpAddr::is_ipv4, (IpAddr::V6(ip),), yes) ==> !yes,
{
}

/// An address is that of the own host.
pub open spec fn is_own_host(ip: IpAddr) -> bool {
    match ip {
        IpAddr::V4(ip) => ip / 0x100_0000 == 127,
        IpAddr::V6(ip) => ip == 1,
    }
}

/// An address stands for any address.
pub open spec fn is_any(ip: IpAddr) -> bool {
    ip == IpAddr::V4(0) || ip == IpAddr::V6(0)
}

/// An address is of a private network.
pub open spec fn is_in_private_network(ip: IpAddr) -> bool {
    match ip {
        IpAddr::V4(ip) => {
            ||| ip / 0x100_0000 == 10
            ||| ip / 0x10_0000 == 0xac1
            ||| ip / 0x1_0000 == 0xc0a8
        },
        IpAddr::V6(ip) => ip / 0x200_0000_0000_0000_0000_0000_0000_0000 == 0x7e,
    }
}

proof fn lemma_addresses(ip: IpAddr)
    ensures
        ip.spec_is_loopback() <==> is_own_host(ip),
        ip.spec_is_unspecified() <==> is_any(ip),
        is_private(ip) <==> is_in_private_network(ip),
{
}

/// Who connects is let in, unless there is a gateway and the peer is not the gateway.
pub proof fn law_who_is_let_in(ingress: &Option<VpnIngress>, peer: IpAddr, yes: bool)
    requires
        call_ensures(admits, (ingress, peer), yes),
    ensures
        !yes <==> {
            &&& *ingress is Some
            &&& (*ingress)->0.gateway is Some
            &&& (*ingress)->0.gateway->0 != peer
        },
{
}

/// A text of 64 hexadecimal digits.
pub open spec fn is_secret(text: Seq<char>) -> bool {
    &&& text.len() == 64
    &&& forall|i: int| #![trigger text[i]]
        0 <= i < text.len() ==> {
            ||| '0' <= text[i] <= '9'
            ||| 'a' <= text[i] <= 'f'
            ||| 'A' <= text[i] <= 'F'
        }
}

proof fn lemma_secret(text: Seq<char>)
    ensures
        is_auth_token(text) <==> is_secret(text),
{
    if is_auth_token(text) {
        assert forall|i: int| 0 <= i < text.len() implies ('0' <= #[trigger] text[i] <= '9' || 'a'
            <= text[i] <= 'f' || 'A' <= text[i] <= 'F') by {
            assert(in_class(CharClass::HexDigit, text[i]));
        }
    }
}

/// Where a secret is asked for, it has to be there, and to have 64 hexadecimal digits; it is then
/// the one that is set. Where none is asked for, there is none, whatever is set.
pub proof fn law_secret_setting(
    required: bool,
    value: &EnvVar,
    read: Result<Option<String>, StartupError>,
    text: Seq<char>,
)
    requires
        call_ensures(auth_env, (required, value), read),
    ensures
        !required <==> read is Ok && read->Ok_0 is None,
        required && says(*value, text) && is_secret(text) <==> read is Ok && read->Ok_0 is Some
            && read->Ok_0->0@ == text,
        read is Err && read->Err_0 == StartupError::AuthTokenMissing <==> required && !(value is Present),
        read is Err && read->Err_0 == StartupError::AuthTokenInvalid <==> required && value is Present
            && !is_secret(value->Present_0@),
{
    lemma_secret(text);
    if let EnvVar::Present(found) = value {
        lemma_secret(found@);
    }
}

/// TLS is used exactly where both files are named. It can be left out on the own host, by naming
/// neither; in every other case the settings are refused.
pub proof fn law_tls_setting(
    cert: &EnvVar,
    key: &EnvVar,
    loopback: bool,
    read: Result<Option<TlsFiles>, StartupError>,
)
    requires
        call_ensures(tls_env, (cert, key, loopback), read),
    ensures
        read is Ok && read->Ok_0 is Some <==> cert is Present && key is Present && !is_blank(*cert)
            && !is_blank(*key),
        read is Ok && read->Ok_0 is Some ==> says(*cert, read->Ok_0->0.cert@) && says(
            *key,
            read->Ok_0->0.key@,
        ),
        read is Ok && read->Ok_0 is None <==> loopback && ((cert is Missing && key is Missing) || (
        says(*cert, seq![]) && says(*key, seq![]))),
        read is Err ==> read->Err_0 == StartupError::TlsMissing,
{
    lemma_blank(*cert);
    lemma_blank(*key);
}

/// The argument of the program wins over the variable, and the variable over the own host.
pub proof fn law_address(argument: Option<String>, value: EnvVar, text: String)
    requires
        call_ensures(address_env, (argument, value), text),
    ensures
        argument is Some ==> text@ == argument->0@,
        argument is None && value is Present ==> says(value, text@),
        argument is None && !(value is Present) ==> text@ == "127.0.0.1:6697"@,
{
}

/// The name of an interface: 1 to 15 ASCII letters, digits, `_`, `-` or `.`, the first one no `.`.
pub open spec fn names_interface(text: Seq<char>) -> bool {
    &&& 1 <= text.len() <= 15
    &&& text[0] != '.'
    &&& forall|i: int| #![trigger text[i]]
        0 <= i < text.len() ==> {
            ||| 'a' <= text[i] <= 'z'
            ||| 'A' <= text[i] <= 'Z'
            ||| '0' <= text[i] <= '9'
            ||| text[i] == '-'
            ||| text[i] == '_'
            ||| text[i] == '.'
        }
}

proof fn lemma_interface(text: Seq<char>)
    ensures
        is_interface(text) <==> names_interface(text),
{
    if is_interface(text) {
        assert forall|i: int| 0 <= i < text.len() implies ('a' <= #[trigger] text[i] <= 'z' || 'A'
            <= text[i] <= 'Z' || '0' <= text[i] <= '9' || text[i] == '-' || text[i] == '_'
            || text[i] == '.') by {
            assert(in_class(CharClass::Interface, text[i]));
        }
    }
}

/// The settings of a VPN name a gateway that cannot be used with an address: one that is no
/// address, one of another family, or one that is not private, or whose listener is not.
pub open spec fn gateway_fits(addr: IpAddr, gateway: Option<IpAddr>) -> bool {
    &&& gateway is Some
    &&& gateway->0 is V4 == addr is V4
    &&& is_in_private_network(addr)
    &&& is_in_private_network(gateway->0)
}

/// A VPN is the only way in exactly where that is asked for. It takes a listener on a specific
/// address off the own host and a valid interface, and a gateway that fits, if one is named. What is
/// set is then what is used.
pub proof fn law_vpn_is_set(
    addr: IpAddr,
    enabled: bool,
    interface: &EnvVar,
    gateway: &EnvVar,
    gateway_ip: Option<IpAddr>,
    read: Result<Option<VpnIngress>, StartupError>,
)
    requires
        call_ensures(vpn_ingress, (addr, enabled, interface, gateway, gateway_ip), read),
    ensures
        read is Ok && read->Ok_0 is None <==> !enabled && is_blank(*interface) && is_blank(*gateway),
        read is Ok && read->Ok_0 is Some <==> {
            &&& enabled
            &&& !is_any(addr)
            &&& !is_own_host(addr)
            &&& interface is Present && names_interface(interface->Present_0@)
            &&& is_blank(*gateway) || gateway is Present && gateway_fits(addr, gateway_ip)
        },
        read is Ok && read->Ok_0 is Some ==> {
            &&& says(*interface, read->Ok_0->0.interface@)
            &&& read->Ok_0->0.gateway == if is_blank(*gateway) {
                None
            } else {
                gateway_ip
            }
        },
{
    lemma_addresses(addr);
    if gateway_ip is Some {
        lemma_addresses(gateway_ip->0);
    }
    if let EnvVar::Present(found) = interface {
        lemma_interface(found@);
    }
    lemma_blank(*interface);
    lemma_blank(*gateway);
}

/// Which of the settings of a VPN is at fault, in the order in which they are looked at.
pub open spec fn vpn_fault(
    addr: IpAddr,
    enabled: bool,
    interface: EnvVar,
    gateway: EnvVar,
    gateway_ip: Option<IpAddr>,
) -> StartupError {
    if interface is NotUnicode {
        StartupError::NotUnicode(Setting::VpnInterface)
    } else if gateway is NotUnicode {
        StartupError::NotUnicode(Setting::VpnGatewayIp)
    } else if !enabled {
        StartupError::VpnNotEnabled
    } else if is_any(addr) || is_own_host(addr) {
        StartupError::VpnAddress
    } else if is_blank(interface) {
        StartupError::VpnInterfaceMissing
    } else if !names_interface(interface->Present_0@) {
        StartupError::VpnInterfaceInvalid
    } else if gateway_ip is None {
        StartupError::VpnGatewayInvalid
    } else if gateway_ip->0 is V4 != addr is V4 {
        StartupError::VpnFamiliesDiffer
    } else {
        StartupError::VpnNotPrivate
    }
}

/// Where the settings of a VPN are refused, it is for the first one that is at fault.
pub proof fn law_vpn_is_refused(
    addr: IpAddr,
    enabled: bool,
    interface: &EnvVar,
    gateway: &EnvVar,
    gateway_ip: Option<IpAddr>,
    read: Result<Option<VpnIngress>, StartupError>,
)
    requires
        call_ensures(vpn_ingress, (addr, enabled, interface, gateway, gateway_ip), read),
        read is Err,
    ensures
        read->Err_0 == vpn_fault(addr, enabled, *interface, *gateway, gateway_ip),
{
    lemma_addresses(addr);
    if gateway_ip is Some {
        lemma_addresses(gateway_ip->0);
    }
    if let EnvVar::Present(found) = interface {
        lemma_interface(found@);
    }
    lemma_blank(*interface);
    lemma_blank(*gateway);
}

/// The settings of a VPN fit together and go with an address.
pub open spec fn vpn_fits(settings: Settings, addr: IpAddr) -> bool {
    if says_yes(settings.vpn_only, false) {
        &&& !is_any(addr)
        &&& !is_own_host(addr)
        &&& settings.vpn_interface is Present && names_interface(
            settings.vpn_interface->Present_0@,
        )
        &&& is_blank(settings.vpn_gateway) || settings.vpn_gateway is Present && gateway_fits(
            addr,
            settings.vpn_gateway_ip,
        )
    } else {
        is_blank(settings.vpn_interface) && is_blank(settings.vpn_gateway)
    }
}

/// Something keeps strangers out: a secret, an address of the own host, or a VPN; or the operator
/// has said in so many words that nothing has to.
pub open spec fn strangers_are_kept_out(settings: Settings, addr: IpAddr) -> bool {
    ||| says_yes(settings.require_auth_token, true)
    ||| is_own_host(addr)
    ||| says_yes(settings.vpn_only, false)
    ||| says_yes(settings.allow_unauthenticated_non_loopback, false)
}

/// Both files of a TLS listener are named.
pub open spec fn names_tls(settings: Settings) -> bool {
    &&& settings.tls_cert is Present
    &&& settings.tls_key is Present
    &&& !is_blank(settings.tls_cert)
    &&& !is_blank(settings.tls_key)
}

/// Neither file of a TLS listener is named.
pub open spec fn names_no_tls(settings: Settings) -> bool {
    ||| settings.tls_cert is Missing && settings.tls_key is Missing
    ||| says(settings.tls_cert, seq![]) && says(settings.tls_key, seq![])
}

proof fn lemma_blank(value: EnvVar)
    ensures
        value matches EnvVar::Present(found) ==> (found@.len() == 0 <==> is_blank(value)),
{
    if let EnvVar::Present(found) = value {
        if found@.len() == 0 {
            assert(found@ =~= seq![]);
        }
    }
}

proof fn lemma_settings(settings: Settings)
    ensures
        !(says_yes(settings.require_auth_token, true) && says_no(settings.require_auth_token, true)),
        !(says_yes(settings.allow_unauthenticated_non_loopback, false) && says_no(
            settings.allow_unauthenticated_non_loopback,
            false,
        )),
        !(says_yes(settings.vpn_only, false) && says_no(settings.vpn_only, false)),
        settings.addr matches Some(addr) ==> {
            &&& addr.spec_is_loopback() <==> is_own_host(addr)
            &&& addr.spec_is_unspecified() <==> is_any(addr)
            &&& is_private(addr) <==> is_in_private_network(addr)
        },
        settings.vpn_gateway_ip matches Some(gateway) ==> (is_private(gateway)
            <==> is_in_private_network(gateway)),
        settings.auth_token matches EnvVar::Present(found) ==> (is_auth_token(
            found@,
        ) <==> is_secret(found@)),
        settings.vpn_interface matches EnvVar::Present(found) ==> (is_interface(found@)
            <==> names_interface(found@)),
{
    lemma_yes_or_no(settings.require_auth_token, true);
    lemma_yes_or_no(settings.allow_unauthenticated_non_loopback, false);
    lemma_yes_or_no(settings.vpn_only, false);
    if settings.addr is Some {
        lemma_addresses(settings.addr->0);
    }
    if settings.vpn_gateway_ip is Some {
        lemma_addresses(settings.vpn_gateway_ip->0);
    }
    if let EnvVar::Present(found) = settings.auth_token {
        lemma_secret(found@);
    }
    if let EnvVar::Present(found) = settings.vpn_interface {
        lemma_interface(found@);
    }
}

/// The relay starts exactly where nothing is wrong with the settings: each yes-or-no variable says
/// one or the other; the secret that is asked for is there; there is an address to listen on; the
/// settings of a VPN fit; strangers are kept out; and there is TLS, or nothing of it on the own
/// host. It then does what the settings say.
pub proof fn law_start(settings: &Settings, config: Result<Config, StartupError>)
    requires
        call_ensures(configure, (settings,), config),
    ensures
        config is Ok <==> {
            &&& says_yes(settings.require_auth_token, true) || says_no(
                settings.require_auth_token,
                true,
            )
            &&& says_yes(settings.allow_unauthenticated_non_loopback, false) || says_no(
                settings.allow_unauthenticated_non_loopback,
                false,
            )
            &&& says_yes(settings.vpn_only, false) || says_no(settings.vpn_only, false)
            &&& says_yes(settings.require_auth_token, true) ==> settings.auth_token is Present
                && is_secret(settings.auth_token->Present_0@)
            &&& settings.addr is Some
            &&& vpn_fits(*settings, settings.addr->0)
            &&& strangers_are_kept_out(*settings, settings.addr->0)
            &&& names_tls(*settings) || is_own_host(settings.addr->0) && names_no_tls(*settings)
        },
        config is Ok ==> {
            let config = config->Ok_0;
            &&& config.auth_token is Some <==> says_yes(settings.require_auth_token, true)
            &&& config.auth_token is Some ==> says(settings.auth_token, config.auth_token->0@)
            &&& config.ingress is Some <==> says_yes(settings.vpn_only, false)
            &&& config.ingress is Some ==> {
                &&& says(settings.vpn_interface, config.ingress->0.interface@)
                &&& config.ingress->0.gateway == if is_blank(settings.vpn_gateway) {
                    None
                } else {
                    settings.vpn_gateway_ip
                }
            }
            &&& config.tls is Some <==> names_tls(*settings)
            &&& config.tls is Some ==> says(settings.tls_cert, config.tls->0.cert@) && says(
                settings.tls_key,
                config.tls->0.key@,
            )
        },
{
    lemma_settings(*settings);
    lemma_blank(settings.vpn_interface);
    lemma_blank(settings.vpn_gateway);
    lemma_blank(settings.tls_cert);
    lemma_blank(settings.tls_key);
}

/// Which setting keeps the relay from starting, in the order in which they are looked at.
pub proof fn law_no_start(settings: &Settings, config: Result<Config, StartupError>)
    requires
        call_ensures(configure, (settings,), config),
        config is Err,
    ensures
        ({
            let error = config->Err_0;
            let require = says_yes(settings.require_auth_token, true);
            if !require && !says_no(settings.require_auth_token, true) {
                error == StartupError::NotBoolean(Setting::RequireAuthToken)
            } else if !says_yes(settings.allow_unauthenticated_non_loopback, false) && !says_no(
                settings.allow_unauthenticated_non_loopback,
                false,
            ) {
                error == StartupError::NotBoolean(Setting::AllowUnauthenticatedNonLoopback)
            } else if require && !(settings.auth_token is Present) {
                error == StartupError::AuthTokenMissing
            } else if require && !is_secret(settings.auth_token->Present_0@) {
                error == StartupError::AuthTokenInvalid
            } else if settings.addr is None {
                error == StartupError::AddressInvalid
            } else if !says_yes(settings.vpn_only, false) && !says_no(settings.vpn_only, false) {
                error == StartupError::NotBoolean(Setting::VpnOnly)
            } else if !vpn_fits(*settings, settings.addr->0) {
                error == vpn_fault(
                    settings.addr->0,
                    says_yes(settings.vpn_only, false),
                    settings.vpn_interface,
                    settings.vpn_gateway,
                    settings.vpn_gateway_ip,
                )
            } else if !strangers_are_kept_out(*settings, settings.addr->0) {
                error == StartupError::Unprotected
            } else {
                error == StartupError::TlsMissing
            }
        }),
{
    lemma_settings(*settings);
    lemma_blank(settings.vpn_interface);
    lemma_blank(settings.vpn_gateway);
    lemma_blank(settings.tls_cert);
    lemma_blank(settings.tls_key);
}

/// How the relay goes on to listen. Without a VPN it just listens. Behind one it opens a socket of
/// the version of the address, ties it to the interface, binds it, and listens with room for 1024
/// to wait; where there is no gateway it first makes sure that the interface is a tunnel. Where
/// sockets cannot be tied to interfaces it gives up at once.
pub proof fn law_next_step(
    ingress: &Option<VpnIngress>,
    ipv4: bool,
    linux: bool,
    last: Option<BindStep>,
    hardware: u16,
    step: BindStep,
)
    requires
        call_ensures(bind_listener, (ingress, ipv4, linux, last, hardware), step),
    ensures
        last is None && *ingress is None ==> step == BindStep::ListenOpenly,
        last is None && *ingress is Some && !linux ==> step == BindStep::Fail(
            BindError::NoDeviceBinding,
        ),
        last is None && *ingress is Some && linux ==> step == (BindStep::Open { ipv4 }),
        last matches Some(BindStep::Open { .. }) ==> (step == BindStep::Inspect <==> *ingress is Some
            && (*ingress)->0.gateway is None) && (step == BindStep::Attach <==> !(*ingress is Some
            && (*ingress)->0.gateway is None)),
        last == Some(BindStep::Inspect) ==> (step == BindStep::Attach <==> hardware == 0xfffe) && (
        step == BindStep::Fail(BindError::NotATunnel) <==> hardware != 0xfffe),
        last == Some(BindStep::Attach) ==> step == BindStep::Bind,
        last == Some(BindStep::Bind) ==> step == (BindStep::Listen { backlog: 1024 }),
{
}

/// Without a VPN the relay listens in one step.
pub proof fn law_listens_openly(
    ipv4: bool,
    linux: bool,
    steps: Seq<BindStep>,
    hardware: Seq<u16>,
)
    requires
        is_run(None, ipv4, linux, steps, hardware),
        steps.len() > 0,
    ensures
        steps == seq![BindStep::ListenOpenly],
{
    assert(steps[0] == BindStep::ListenOpenly);
    if steps.len() > 1 {
        assert(steps[1].is_last());
    }
}

/// The name of an interface stands in 16 bytes: its own bytes first, as far as they fit, and zeros
/// behind them.
pub proof fn law_interface_bytes(interface: &str, field: Vec<u8>)
    requires
        call_ensures(interface_field, (interface,), field),
    ensures
        field@.len() == 16,
        forall|i: int|
            0 <= i < 16 ==> #[trigger] field@[i] == if i < encode_utf8(interface@).len() {
                encode_utf8(interface@)[i]
            } else {
                0
            },
{
}

/// The certificates of a file are those that are found there, in their order; what is wrong with
/// the file is said in the words of the reader.
pub proof fn law_certificates(pem: &[u8], read: Result<Vec<Vec<u8>>, TlsError>)
    requires
        call_ensures(certificates, (pem,), read),
    ensures
        match pem_certificates(pem@) {
            Ok(list) => read is Ok && read->Ok_0.deep_view() == list,
            Err(text) => read is Err && (read->Err_0 matches TlsError::Malformed(found) && found@
                == text),
        },
{
}

/// The key of a file is the one that is found there; there has to be one.
pub proof fn law_private_key(pem: &[u8], read: Result<PrivateKey, TlsError>)
    requires
        call_ensures(private_key, (pem,), read),
    ensures
        match pem_private_key(pem@) {
            Ok(Some(key)) => read is Ok && read->Ok_0.encoding == key.encoding && read->Ok_0.der@
                == key.der,
            Ok(None) => read is Err && read->Err_0 is MissingKey,
            Err(text) => read is Err && (read->Err_0 matches TlsError::Malformed(found) && found@
                == text),
        },
{
}

/// A key that was found is the one that is used.
pub proof fn law_key_is_required(
    found: Result<Option<PrivateKey>, String>,
    key: Result<PrivateKey, TlsError>,
)
    requires
        call_ensures(require_key, (found,), key),
    ensures
        key is Ok <==> found is Ok && found->Ok_0 is Some,
        key is Ok ==> key->Ok_0 == found->Ok_0->0,
        key is Err ==> (found is Err ==> key->Err_0 == TlsError::Malformed(found->Err_0)) && (
        found is Ok ==> key->Err_0 is MissingKey),
{
}

/// TLS takes certificates and a key. What is wrong with the certificates comes first, whatever the
/// key is like; after that comes that the file of the key could not be read, and then what is wrong
/// with the key.
pub proof fn law_material(
    cert: &[u8],
    key: Option<&[u8]>,
    material: Result<(Vec<Vec<u8>>, PrivateKey), TlsError>,
)
    requires
        call_ensures(tls_material, (cert, key), material),
    ensures
        match pem_certificates(cert@) {
            Err(text) => material is Err && (material->Err_0 matches TlsError::Malformed(found)
                && found@ == text),
            Ok(list) => match key {
                None => material is Err && material->Err_0 is UnreadKey,
                Some(pem) => match pem_private_key(pem@) {
                    Err(text) => material is Err && (material->Err_0 matches TlsError::Malformed(
                        found,
                    ) && found@ == text),
                    Ok(None) => material is Err && material->Err_0 is MissingKey,
                    Ok(Some(there)) => {
                        &&& material is Ok
                        &&& material->Ok_0.0.deep_view() == list
                        &&& material->Ok_0.1.encoding == there.encoding
                        &&& material->Ok_0.1.der@ == there.der
                    },
                },
            },
        },
{
}

/// Certificates and key make up what TLS is set up with; of two failures the one of the
/// certificates counts.
pub proof fn law_material_is_joined(
    certificates: Result<Vec<Vec<u8>>, TlsError>,
    key: Result<PrivateKey, TlsError>,
    material: Result<(Vec<Vec<u8>>, PrivateKey), TlsError>,
)
    requires
        call_ensures(join_material, (certificates, key), material),
    ensures
        certificates is Err ==> material is Err && material->Err_0 == certificates->Err_0,
        certificates is Ok && key is Err ==> material is Err && material->Err_0 == key->Err_0,
        certificates is Ok && key is Ok ==> material is Ok && material->Ok_0 == (
            certificates->Ok_0,
            key->Ok_0,
        ),
{
}

/// What the operator reads when the relay does not start.
pub open spec fn says_why(error: StartupError, text: Seq<char>) -> bool {
    match error {
        StartupError::NotBoolean(setting) => text == variable(setting) + " must be true or false"@,
        StartupError::NotUnicode(setting) => text == variable(setting) + " must be valid UTF-8"@,
        StartupError::AuthTokenMissing => text == "CHAT_RELAY_AUTH_TOKEN required"@,
        StartupError::AuthTokenInvalid => text
            == "CHAT_RELAY_AUTH_TOKEN must be 64 hexadecimal characters"@,
        StartupError::AddressInvalid => text == "CHAT_RELAY_ADDR must be IP:port"@,
        StartupError::VpnNotEnabled => text
            == "VPN ingress settings require CHAT_RELAY_VPN_ONLY=true"@,
        StartupError::VpnAddress => text == "VPN-only bind must select a non-loopback IP"@,
        StartupError::VpnInterfaceMissing => text == "CHAT_RELAY_VPN_INTERFACE required"@,
        StartupError::VpnInterfaceInvalid => text == "invalid VPN interface name"@,
        StartupError::VpnGatewayInvalid => text == "invalid CHAT_RELAY_VPN_GATEWAY_IP"@,
        StartupError::VpnFamiliesDiffer => text == "VPN gateway and listener IP families differ"@,
        StartupError::VpnNotPrivate => text
            == "gateway ingress requires private listener and gateway IPs"@,
        StartupError::Unprotected => text
            == "token-free non-loopback bind requires VPN-only ingress or CHAT_RELAY_ALLOW_UNAUTHENTICATED_NON_LOOPBACK=true"@,
        StartupError::TlsMissing => text
            == "TLS certificate and key required for non-loopback bind"@,
    }
}

/// The variable that a setting is read from.
pub open spec fn variable(setting: Setting) -> Seq<char> {
    match setting {
        Setting::RequireAuthToken => "CHAT_RELAY_REQUIRE_AUTH_TOKEN"@,
        Setting::AllowUnauthenticatedNonLoopback =>
            "CHAT_RELAY_ALLOW_UNAUTHENTICATED_NON_LOOPBACK"@,
        Setting::VpnOnly => "CHAT_RELAY_VPN_ONLY"@,
        Setting::VpnInterface => "CHAT_RELAY_VPN_INTERFACE"@,
        Setting::VpnGatewayIp => "CHAT_RELAY_VPN_GATEWAY_IP"@,
    }
}

/// The operator is told which variable is at fault, and what it has to be.
pub proof fn law_words_at_start(
    error: StartupError,
    text: String,
    setting: Setting,
    key: &'static str,
)
    requires
        call_ensures(StartupError::message, (error,), text),
        call_ensures(Setting::key, (setting,), key),
    ensures
        says_why(error, text@),
        key@ == variable(setting),
{
}

/// The operator is told why the relay does not come to listen.
pub proof fn law_words_at_listening(error: BindError, text: &'static str)
    requires
        call_ensures(BindError::message, (error,), text),
    ensures
        error is NotATunnel ==> text@ == "direct VPN ingress requires a tunnel interface"@,
        error is NoDeviceBinding ==> text@ == "VPN ingress requires Linux SO_BINDTODEVICE"@,
{
}

/// The operator is told what is wrong with the files of a TLS listener, in the words of the reader
/// where it is the reader that found it.
pub proof fn law_words_of_tls(error: &TlsError, text: String)
    requires
        call_ensures(TlsError::message, (error,), text),
    ensures
        error is MissingKey ==> text@ == "missing TLS private key"@,
        error matches TlsError::Malformed(found) ==> text@ == found@,
{
}

/// The limits of listening.
pub proof fn law_listening_limits()
    ensures
        BACKLOG == 1024,
        TUNNEL == 0xfffe,
        INTERFACE_ROOM == 16,
{
}

} // verus!
