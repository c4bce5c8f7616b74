//! The steps by which the relay comes to listen.
use vstd::prelude::*;
use vstd::utf8::encode_utf8;

use crate::settings::VpnIngress;

verus! {

/// How many connections can wait to be accepted.
pub const BACKLOG: u32 = 1024;

/// The hardware type of an interface that has no hardware below it: a tunnel.
pub const TUNNEL: u16 = 0xfffe;

/// The room for the name of an interface in a request to the system.
pub const INTERFACE_ROOM: usize = 16;

/// Why the relay does not come to listen.
#[derive(Clone, Copy, Debug, PartialEq, Eq, Structural)]
pub enum BindError {
    /// The interface is no tunnel.
    NotATunnel,
    /// The system cannot tie a socket to an interface.
    NoDeviceBinding,
}

impl BindError {
    /// What the operator is told.
    pub open spec fn words(self) -> Seq<char> {
        match self {
            BindError::NotATunnel => "direct VPN ingress requires a tunnel interface"@,
            BindError::NoDeviceBinding => "VPN ingress requires Linux SO_BINDTODEVICE"@,
        }
    }

    /// What the operator is told.
    pub fn message(self) -> (text: &'static str)
        ensures
            text@ == self.words(),
    {
        match self {
            BindError::NotATunnel => "direct VPN ingress requires a tunnel interface",
            BindError::NoDeviceBinding => "VPN ingress requires Linux SO_BINDTODEVICE",
        }
    }
}

/// A step on the way to a listener.
#[derive(Clone, Copy, Debug, PartialEq, Eq, Structural)]
pub enum BindStep {
    /// Listen on the address without further ado.
    ListenOpenly,
    /// Open a socket of version 4 or of version 6.
    Open { ipv4: bool },
    /// Read the hardware type of the interface.
    Inspect,
    /// Tie the socket to the interface.
    Attach,
    /// Bind the socket to the address.
    Bind,
    /// Listen on the socket.
    Listen { backlog: u32 },
    /// Give up.
    Fail(BindError),
}

impl BindStep {
    /// No step comes after this one.
    pub open spec fn is_last(self) -> bool {
        self is ListenOpenly || self is Listen || self is Fail
    }
}

/// The step after another one has succeeded, or the first step. `hardware` is the hardware type
/// of the interface, once that has been read. Without a gateway, connections come in through the
/// interface itself, which then has to be a tunnel.
pub open spec fn step_after(
    ingress: Option<VpnIngress>,
    ipv4: bool,
    linux: bool,
    last: Option<BindStep>,
    hardware: u16,
) -> BindStep {
    match last {
        None => if ingress is None {
            BindStep::ListenOpenly
        } else if !linux {
            BindStep::Fail(BindError::NoDeviceBinding)
        } else {
            BindStep::Open { ipv4 }
        },
        Some(BindStep::Open { .. }) => if ingress is Some && ingress->0.gateway is None {
            BindStep::Inspect
        } else {
            BindStep::Attach
        },
        Some(BindStep::Inspect) => if hardware == TUNNEL {
            BindStep::Attach
        } else {
            BindStep::Fail(BindError::NotATunnel)
        },
        Some(BindStep::Attach) => BindStep::Bind,
        Some(BindStep::Bind) => BindStep::Listen { backlog: BACKLOG },
        Some(other) => other,
    }
}

/// Decides the next step on the way to a listener. `ipv4` is the version of the address, `linux`
/// says whether sockets can be tied to interfaces, `last` is the step that has succeeded, and
/// `hardware` the hardware type that [`BindStep::Inspect`] has read, 0 before that.
pub fn bind_listener(
    ingress: &Option<VpnIngress>,
    ipv4: bool,
    linux: bool,
    last: Option<BindStep>,
    hardware: u16,
) -> (step: BindStep)
    requires
        last matches Some(step) ==> !step.is_last(),
    ensures
        step == step_after(*ingress, ipv4, linux, last, hardware),
{
    match last {
        None => match ingress {
            None => BindStep::ListenOpenly,
            Some(_) => if linux {
                BindStep::Open { ipv4 }
            } else {
                BindStep::Fail(BindError::NoDeviceBinding)
            },
        },
        Some(BindStep::Open { .. }) => match ingress {
            Some(vpn) => if vpn.gateway.is_none() {
                BindStep::Inspect
            } else {
                BindStep::Attach
            },
            None => BindStep::Attach,
        },
        Some(BindStep::Inspect) => if hardware == TUNNEL {
            BindStep::Attach
        } else {
            BindStep::Fail(BindError::NotATunnel)
        },
        Some(BindStep::Attach) => BindStep::Bind,
        Some(BindStep::Bind) => BindStep::Listen { backlog: BACKLOG },
        Some(other) => other,
    }
}

/// The bytes of a name in a field of fixed size, with zeros behind them.
pub open spec fn padded(bytes: Seq<u8>) -> Seq<u8> {
    Seq::new(
        INTERFACE_ROOM as nat,
        |i: int|
            if i < bytes.len() {
                bytes[i]
            } else {
                0
            },
    )
}

/// The name of an interface as it stands in a request to the system.
pub fn interface_field(interface: &str) -> (field: Vec<u8>)
    ensures
        field@ == padded(encode_utf8(interface@)),
{
    let bytes: &[u8] = interface.as_bytes();
    let mut field: Vec<u8> = Vec::new();
    let mut i: usize = 0;
    while i < INTERFACE_ROOM
        invariant
            i <= INTERFACE_ROOM,
            field@.len() == i,
            bytes@ == encode_utf8(interface@),
            forall|k: int| 0 <= k < i ==> field@[k] == padded(bytes@)[k],
        decreases INTERFACE_ROOM - i,
    {
        let byte: u8 = if i < bytes.len() {
            bytes[i]
        } else {
            0
        };
        field.push(byte);
        i += 1;
    }
    assert(field@ =~= padded(encode_utf8(interface@)));
    field
}

/// A sequence of steps as [`bind_listener`] decides them, each of the steps before the last one
/// having succeeded. `hardware[i]` is what was known of the interface when step `i` was decided.
pub open spec fn is_run(
    ingress: Option<VpnIngress>,
    ipv4: bool,
    linux: bool,
    steps: Seq<BindStep>,
    hardware: Seq<u16>,
) -> bool {
    &&& steps.len() == hardware.len()
    &&& forall|i: int|
        0 <= i < steps.len() ==> {
            let last = if i == 0 {
                None
            } else {
                Some(steps[i - 1])
            };
            &&& last matches Some(step) ==> !step.is_last()
            &&& #[trigger] steps[i] == step_after(ingress, ipv4, linux, last, hardware[i])
        }
}

/// The steps by which the relay comes to listen behind a VPN, where each of them succeeds. Whether
/// the interface is a tunnel is looked at only where there is no gateway.
pub open spec fn vpn_steps(vpn: VpnIngress, ipv4: bool) -> Seq<BindStep> {
    if vpn.gateway is None {
        seq![
            BindStep::Open { ipv4 },
            BindStep::Inspect,
            BindStep::Attach,
            BindStep::Bind,
            BindStep::Listen { backlog: BACKLOG },
        ]
    } else {
        seq![
            BindStep::Open { ipv4 },
            BindStep::Attach,
            BindStep::Bind,
            BindStep::Listen { backlog: BACKLOG },
        ]
    }
}

/// Behind a VPN the relay fails closed. It never listens openly. It comes to listen by one run of
/// steps alone: on a socket of the right version that has been tied to the interface and bound, and
/// where there is no gateway only after the interface has turned out to be a tunnel. It gives up
/// only where sockets cannot be tied to interfaces, before anything is opened, or where there is no
/// gateway and the interface is no tunnel, before the socket is tied to it.
pub proof fn law_vpn_fails_closed(
    ingress: Option<VpnIngress>,
    ipv4: bool,
    linux: bool,
    steps: Seq<BindStep>,
    hardware: Seq<u16>,
)
    requires
        ingress is Some,
        is_run(ingress, ipv4, linux, steps, hardware),
        steps.len() > 0,
    ensures
        steps.last() !is ListenOpenly,
        steps.last() is Listen ==> {
            &&& linux
            &&& steps == vpn_steps(ingress->0, ipv4)
            &&& ingress->0.gateway is None ==> hardware[2] == TUNNEL
        },
        steps.last() matches BindStep::Fail(error) ==> if linux {
            &&& error == BindError::NotATunnel
            &&& ingress->0.gateway is None
            &&& steps == seq![BindStep::Open { ipv4 }, BindStep::Inspect, BindStep::Fail(error)]
            &&& hardware[2] != TUNNEL
        } else {
            &&& error == BindError::NoDeviceBinding
            &&& steps == seq![BindStep::Fail(error)]
        },
        steps.last() !is Fail ==> linux && steps.is_prefix_of(vpn_steps(ingress->0, ipv4)),
{
    let n = steps.len() as int;
    assert(steps[0] == step_after(ingress, ipv4, linux, None, hardware[0]));
    if n > 1 {
        assert(!steps[0].is_last());
        assert(steps[1] == step_after(ingress, ipv4, linux, Some(steps[0]), hardware[1]));
    }
    if n > 2 {
        assert(!steps[1].is_last());
        assert(steps[2] == step_after(ingress, ipv4, linux, Some(steps[1]), hardware[2]));
    }
    if n > 3 {
        assert(!steps[2].is_last());
        assert(steps[3] == step_after(ingress, ipv4, linux, Some(steps[2]), hardware[3]));
    }
    if n > 4 {
        assert(!steps[3].is_last());
        assert(steps[4] == step_after(ingress, ipv4, linux, Some(steps[3]), hardware[4]));
    }
    if n > 5 {
        assert(!steps[4].is_last());
        assert(steps[5] == step_after(ingress, ipv4, linux, Some(steps[4]), hardware[5]));
    }
}

/// Behind a VPN the relay comes to listen where sockets can be tied to interfaces and, without a
/// gateway, the interface is a tunnel.
pub proof fn law_vpn_comes_to_listen(vpn: VpnIngress, ipv4: bool, hardware: Seq<u16>)
    requires
        hardware.len() == vpn_steps(vpn, ipv4).len(),
        vpn.gateway is None ==> hardware[2] == TUNNEL,
    ensures
        is_run(Some(vpn), ipv4, true, vpn_steps(vpn, ipv4), hardware),
{
}

/// With a gateway, the hardware type of the interface changes nothing: whatever it is, the same
/// steps are taken.
pub proof fn law_gateway_needs_no_tunnel(
    vpn: VpnIngress,
    ipv4: bool,
    linux: bool,
    steps: Seq<BindStep>,
    hardware: Seq<u16>,
    other: Seq<u16>,
)
    requires
        vpn.gateway is Some,
        is_run(Some(vpn), ipv4, linux, steps, hardware),
        other.len() == hardware.len(),
    ensures
        is_run(Some(vpn), ipv4, linux, steps, other),
        !steps.contains(BindStep::Inspect),
{
    assert forall|i: int| 0 <= i < steps.len() implies #[trigger] steps[i] !is Inspect by {}
    assert forall|i: int| 0 <= i < steps.len() implies {
        let last = if i == 0 {
            None
        } else {
            Some(steps[i - 1])
        };
        &&& last matches Some(step) ==> !step.is_last()
        &&& #[trigger] steps[i] == step_after(Some(vpn), ipv4, linux, last, other[i])
    } by {
        if i > 0 {
            assert(steps[i - 1] !is Inspect);
        }
    }
}

} // verus!
