use vstd::prelude::*;

use crate::error::NetError;
use crate::ip::{ip_init, ip_input};
use crate::loopback::loopback_output;
use crate::naming::{device_name, device_name_for, is_c_name, lemma_device_name_fits};
use vstd::string::StringExecFns;
use vstd::utf8::{decode_utf8, valid_utf8};

verus! {

pub const NET_DEVICE_TYPE_DUMMY: u16 = 0x0000;
pub const NET_DEVICE_TYPE_LOOPBACK: u16 = 0x0001;
pub const NET_DEVICE_TYPE_ETHERNET: u16 = 0x0002;

pub const NET_DEVICE_FLAG_UP: u16 = 0x0001;
pub const NET_DEVICE_FLAG_LOOPBACK: u16 = 0x0010;
pub const NET_DEVICE_FLAG_BROADCAST: u16 = 0x0020;
pub const NET_DEVICE_FLAG_P2P: u16 = 0x0040;
pub const NET_DEVICE_FLAG_NEED_ARP: u16 = 0x0100;

pub const NET_DEVICE_ADDR_LEN: usize = 16;

/// Size of the NUL-padded name buffer of a device.
pub const NET_DEVICE_NAME_LEN: usize = 16;

pub const NET_PROTOCOL_TYPE_IP: u16 = 0x0800;
pub const NET_PROTOCOL_TYPE_ARP: u16 = 0x0806;
pub const NET_PROTOCOL_TYPE_IPV6: u16 = 0x86dd;

/// A protocol type (EtherType), a 16-bit value in host order.
#[derive(Debug, Clone, Copy, PartialEq, Eq, Structural)]
pub struct NetProtocolType(pub u16);

impl NetProtocolType {
    /// Interprets a value read from the wire as a protocol type.
    pub fn from_u16(value: u16) -> (t: Self)
        ensures
            t.0 == value,
    {
        NetProtocolType(value)
    }

    /// The numeric value of the protocol type.
    pub fn value(&self) -> (v: u16)
        ensures
            v == self.0,
    {
        self.0
    }
}

/// Which driver routine of this stack carries out a device operation.
#[derive(Debug, Clone, Copy, PartialEq, Eq, Structural)]
pub enum DriverRoutine {
    Loopback,
}

/// The control routines of a device driver.
#[derive(Debug, Clone, Copy, PartialEq, Eq, Structural)]
pub struct NetDeviceOps {
    pub open: Option<DriverRoutine>,
    pub close: Option<DriverRoutine>,
    pub output: Option<DriverRoutine>,
}

/// A network device.
#[derive(Clone, Copy)]
pub struct NetDevice {
    pub index: u32,
    pub name: [u8; 16],
    pub device_type: u16,
    pub mtu: u16,
    pub flags: u16,
    pub hlen: u16,
    pub alen: u16,
    pub addr: [u8; 16],
    pub broadcast: [u8; 16],
    pub ops: Option<NetDeviceOps>,
}

/// Whether a flag word has the UP flag set.
pub open spec fn flags_up(flags: u16) -> bool {
    flags & NET_DEVICE_FLAG_UP != 0
}

impl NetDevice {
    /// All fields but `flags` agree.
    pub open spec fn same_but_flags(&self, other: NetDevice) -> bool {
        &&& self.index == other.index
        &&& self.name@ == other.name@
        &&& self.addr@ == other.addr@
        &&& self.broadcast@ == other.broadcast@
        &&& self.device_type == other.device_type
        &&& self.mtu == other.mtu
        &&& self.hlen == other.hlen
        &&& self.alen == other.alen
        &&& self.ops == other.ops
    }

    /// Every field is zero and the device has no driver operations.
    pub open spec fn is_blank(&self) -> bool {
        &&& self.index == 0
        &&& self.name@ == Seq::new(16, |i: int| 0u8)
        &&& self.addr@ == Seq::new(16, |i: int| 0u8)
        &&& self.broadcast@ == Seq::new(16, |i: int| 0u8)
        &&& self.device_type == 0
        &&& self.mtu == 0
        &&& self.flags == 0
        &&& self.hlen == 0
        &&& self.alen == 0
        &&& self.ops is None
    }

    pub open spec fn spec_is_up(&self) -> bool {
        flags_up(self.flags)
    }

    /// Whether the device is up.
    pub fn is_up(&self) -> (b: bool)
        ensures
            b == self.spec_is_up(),
    {
        self.flags & NET_DEVICE_FLAG_UP != 0
    }

    /// The device's name: the bytes of its name buffer before the first NUL,
    /// read as UTF-8, or "<invalid>" where there is no NUL or no valid text.
    pub fn name(&self) -> (s: String)
        ensures
            match c_name_of(self.name@) {
                Some(p) => if valid_utf8(p) {
                    s@ == decode_utf8(p)
                } else {
                    s@ == "<invalid>"@
                },
                None => s@ == "<invalid>"@,
            },
    {
        match c_name_bytes(&self.name) {
            Some(bytes) => {
                match utf8_to_string(bytes) {
                    Some(text) => text,
                    None => String::from_str("<invalid>"),
                }
            },
            None => String::from_str("<invalid>"),
        }
    }

    /// "UP" or "DOWN", after the device's state.
    pub fn state(&self) -> (s: &'static str)
        ensures
            self.spec_is_up() ==> s@ == "UP"@,
            !self.spec_is_up() ==> s@ == "DOWN"@,
    {
        if self.is_up() {
            "UP"
        } else {
            "DOWN"
        }
    }
}

impl Default for NetDevice {
    fn default() -> (d: Self)
        ensures
            d.is_blank(),
    {
        let d = NetDevice {
            index: 0,
            name: [0u8; 16],
            device_type: 0,
            mtu: 0,
            flags: 0,
            hlen: 0,
            alen: 0,
            addr: [0u8; 16],
            broadcast: [0u8; 16],
            ops: None,
        };
        assert(d.name@ =~= Seq::new(16, |i: int| 0u8));
        assert(d.addr@ =~= Seq::new(16, |i: int| 0u8));
        assert(d.broadcast@ =~= Seq::new(16, |i: int| 0u8));
        d
    }
}

/// The C string that a name buffer holds, if it holds a NUL.
pub open spec fn c_name_of(buf: Seq<u8>) -> Option<Seq<u8>> {
    if exists|p: Seq<u8>| is_c_name(buf, p) {
        Some(choose|p: Seq<u8>| is_c_name(buf, p))
    } else {
        None
    }
}

/// A buffer reads as at most one C string.
pub proof fn lemma_c_name_unique(buf: Seq<u8>, p: Seq<u8>, q: Seq<u8>)
    requires
        is_c_name(buf, p),
        is_c_name(buf, q),
    ensures
        p == q,
{
    if p.len() < q.len() {
        assert(buf[p.len() as int] == q[p.len() as int]);
    } else if q.len() < p.len() {
        assert(buf[q.len() as int] == p[q.len() as int]);
    } else {
        assert(p =~= q);
    }
}

/// The bytes of `buf` before its first NUL, or `None` where it has none.
fn c_name_bytes(buf: &[u8; 16]) -> (r: Option<Vec<u8>>)
    ensures
        r matches Some(v) ==> c_name_of(buf@) == Some(v@),
        r is None ==> c_name_of(buf@) is None,
{
    let mut v: Vec<u8> = Vec::new();
    let mut i: usize = 0;
    while i < 16
        invariant
            0 <= i <= 16,
            buf@.len() == 16,
            v@ == buf@.take(i as int),
            forall|j: int| 0 <= j < i ==> buf@[j] != 0,
        decreases 16 - i,
    {
        if buf[i] == 0 {
            proof {
                assert(is_c_name(buf@, v@));
                let q = choose|q: Seq<u8>| is_c_name(buf@, q);
                lemma_c_name_unique(buf@, v@, q);
            }
            return Some(v);
        }
        v.push(buf[i]);
        i = i + 1;
        assert(v@ =~= buf@.take(i as int));
    }
    proof {
        if exists|p: Seq<u8>| is_c_name(buf@, p) {
            let p = choose|p: Seq<u8>| is_c_name(buf@, p);
            assert(buf@[p.len() as int] == 0);
        }
    }
    None
}

/// Reads `bytes` as UTF-8 text with `std::str::String::from_utf8`. Trusted:
/// its documentation says that it succeeds exactly on valid UTF-8 and then
/// holds the characters that the bytes encode.
#[verifier::external_body]
fn utf8_to_string(bytes: Vec<u8>) -> (r: Option<String>)
    ensures
        r is Some <==> valid_utf8(bytes@),
        r matches Some(s) ==> s@ == decode_utf8(bytes@),
{
    String::from_utf8(bytes).ok()
}

/// Allocates a device with every field zero and no driver operations.
pub fn net_device_alloc() -> (dev: Box<NetDevice>)
    ensures
        dev.is_blank(),
{
    Box::new(NetDevice::default())
}

/// Brings a device up; a device that is already up is left as it is.
pub fn net_device_open(dev: &mut NetDevice)
    ensures
        final(dev).same_but_flags(*old(dev)),
        final(dev).flags == old(dev).flags | NET_DEVICE_FLAG_UP,
        final(dev).spec_is_up(),
        old(dev).spec_is_up() ==> *final(dev) == *old(dev),
{
    if dev.is_up() {
        let f = dev.flags;
        assert(f & 1u16 != 0 ==> f | 1u16 == f) by (bit_vector);
        return;
    }
    dev.flags = dev.flags | NET_DEVICE_FLAG_UP;
    proof {
        let g = old(dev).flags;
        assert((g | 1u16) & 1u16 != 0) by (bit_vector);
    }
}

/// Takes a device down; a device that is already down is left as it is.
pub fn net_device_close(dev: &mut NetDevice)
    ensures
        final(dev).same_but_flags(*old(dev)),
        final(dev).flags == old(dev).flags & !NET_DEVICE_FLAG_UP,
        !final(dev).spec_is_up(),
        !old(dev).spec_is_up() ==> *final(dev) == *old(dev),
{
    if !dev.is_up() {
        let f = dev.flags;
        assert(f & 1u16 == 0 ==> f & !1u16 == f) by (bit_vector);
        return;
    }
    dev.flags = dev.flags & !NET_DEVICE_FLAG_UP;
    proof {
        let g = old(dev).flags;
        assert((g & !1u16) & 1u16 == 0) by (bit_vector);
    }
}

/// Which protocol input routine of this stack receives a protocol's packets.
#[derive(Debug, Clone, Copy, PartialEq, Eq, Structural)]
pub enum NetProtocolHandler {
    Ip,
}

/// A registered protocol: its type and the routine that receives its packets.
#[derive(Debug, Clone, Copy, PartialEq, Eq, Structural)]
pub struct NetProtocol {
    pub protocol_type: NetProtocolType,
    pub handler: NetProtocolHandler,
}

/// `i` is the first entry of `ps` registered for `t`.
pub open spec fn is_first_protocol(ps: Seq<NetProtocol>, t: NetProtocolType, i: int) -> bool {
    &&& 0 <= i < ps.len()
    &&& ps[i].protocol_type == t
    &&& forall|j: int| 0 <= j < i ==> ps[j].protocol_type != t
}

/// The routine registered for `t`, searching from the most recent entry.
pub open spec fn handler_for(ps: Seq<NetProtocol>, t: NetProtocolType) -> Option<NetProtocolHandler> {
    if exists|i: int| is_first_protocol(ps, t, i) {
        Some(ps[choose|i: int| is_first_protocol(ps, t, i)].handler)
    } else {
        None
    }
}

/// Some entry of `ps` is registered for `t`.
pub open spec fn has_protocol(ps: Seq<NetProtocol>, t: NetProtocolType) -> bool {
    exists|i: int| 0 <= i < ps.len() && #[trigger] ps[i].protocol_type == t
}

/// `i` is the first device of `ds` whose name reads `name`.
pub open spec fn is_first_device(ds: Seq<NetDevice>, name: Seq<u8>, i: int) -> bool {
    &&& 0 <= i < ds.len()
    &&& is_c_name(ds[i].name@, name)
    &&& forall|j: int| 0 <= j < i ==> !is_c_name(#[trigger] ds[j].name@, name)
}

/// The position of the device named `name`, searching from the most recent one.
pub open spec fn device_for(ds: Seq<NetDevice>, name: Seq<u8>) -> Option<int> {
    if exists|i: int| is_first_device(ds, name, i) {
        Some(choose|i: int| is_first_device(ds, name, i))
    } else {
        None
    }
}

/// What handing `len` bytes of protocol `t` to `dev` comes to, when the
/// protocols in `ps` are registered: the error, or, for a device whose output
/// loops back, the routine that received the packet (`None`: no protocol).
pub open spec fn output_outcome(
    ps: Seq<NetProtocol>,
    dev: NetDevice,
    t: NetProtocolType,
    len: nat,
) -> Result<Option<NetProtocolHandler>, NetError> {
    if !dev.spec_is_up() {
        Err(NetError::DeviceDown)
    } else if (dev.mtu as nat) < len % 65536 {
        Err(NetError::PacketTooLong)
    } else {
        match dev.ops {
            None => Err(NetError::OperationsNotSet),
            Some(ops) => match ops.output {
                None => Err(NetError::OutputNotSupported),
                Some(DriverRoutine::Loopback) => Ok(handler_for(ps, t)),
            },
        }
    }
}

/// The counter value after one more registration (it wraps around).
pub open spec fn next_device_index(c: u32) -> u32 {
    if c == u32::MAX {
        0
    } else {
        (c + 1) as u32
    }
}

/// `reg` is `dev` as registration leaves it: given `index`, with its name
/// written over the start of the name buffer.
pub open spec fn registered_as(dev: NetDevice, reg: NetDevice, index: u32) -> bool {
    let n = device_name_for(index);
    &&& reg.index == index
    &&& reg.name@ == n + dev.name@.skip(n.len() as int)
    &&& reg.addr@ == dev.addr@
    &&& reg.broadcast@ == dev.broadcast@
    &&& reg.device_type == dev.device_type
    &&& reg.mtu == dev.mtu
    &&& reg.flags == dev.flags
    &&& reg.hlen == dev.hlen
    &&& reg.alen == dev.alen
    &&& reg.ops == dev.ops
}

/// The stack's registries: devices and protocols, most recent first, and the
/// counter from which device indices are drawn.
pub struct NetStack {
    devices: Vec<NetDevice>,
    protocols: Vec<NetProtocol>,
    device_index: u32,
}

impl NetStack {
    /// The registered devices, most recent first.
    pub closed spec fn devices(&self) -> Seq<NetDevice> {
        self.devices@
    }

    /// The registered protocols, most recent first.
    pub closed spec fn protocols(&self) -> Seq<NetProtocol> {
        self.protocols@
    }

    /// The last device index handed out (0 before any registration).
    pub closed spec fn device_counter(&self) -> u32 {
        self.device_index
    }

    /// An empty stack.
    pub fn new() -> (s: Self)
        ensures
            s.devices() == Seq::<NetDevice>::empty(),
            s.protocols() == Seq::<NetProtocol>::empty(),
            s.device_counter() == 0,
    {
        NetStack { devices: Vec::new(), protocols: Vec::new(), device_index: 0 }
    }

    /// The number of registered devices.
    pub fn device_count(&self) -> (n: usize)
        ensures
            n == self.devices().len(),
    {
        self.devices.len()
    }

    /// The device at position `i`, most recent first.
    pub fn device(&self, i: usize) -> (d: &NetDevice)
        requires
            i < self.devices().len(),
        ensures
            *d == self.devices()[i as int],
    {
        &self.devices[i]
    }

    /// The number of registered protocols.
    pub fn protocol_count(&self) -> (n: usize)
        ensures
            n == self.protocols().len(),
    {
        self.protocols.len()
    }
}

/// Registers a device: gives it the next index and the name "net<index>", and
/// puts it at the head of the device list. Returns the index.
pub fn net_device_register(stack: &mut NetStack, dev: Box<NetDevice>) -> (r: Result<u32, NetError>)
    ensures
        final(stack).device_counter() == next_device_index(old(stack).device_counter()),
        r == Ok::<u32, NetError>(final(stack).device_counter()),
        final(stack).protocols() == old(stack).protocols(),
        final(stack).devices().len() == old(stack).devices().len() + 1,
        final(stack).devices().skip(1) == old(stack).devices(),
        registered_as(*dev, final(stack).devices()[0], final(stack).device_counter()),
        old(stack).device_counter() < u32::MAX ==> {
            &&& r == Ok::<u32, NetError>((old(stack).device_counter() + 1) as u32)
            &&& final(stack).devices()[0].index == old(stack).device_counter() + 1
        },
        old(stack).device_counter() == u32::MAX ==> r == Ok::<u32, NetError>(0),
{
    stack.device_index = if stack.device_index == u32::MAX {
        0
    } else {
        stack.device_index + 1
    };
    let mut d: NetDevice = *dev;
    d.index = stack.device_index;
    let name = device_name(d.index);
    proof {
        lemma_device_name_fits(d.index);
    }
    if name.len() >= NET_DEVICE_NAME_LEN {
        return Err(NetError::DeviceNameTooLong);
    }
    let mut buf: [u8; 16] = d.name;
    let mut i: usize = 0;
    while i < name.len()
        invariant
            0 <= i <= name.len(),
            name.len() < 16,
            buf@.len() == 16,
            forall|j: int| 0 <= j < i ==> buf@[j] == name@[j],
            forall|j: int| i <= j < 16 ==> buf@[j] == dev.name@[j],
        decreases name.len() - i,
    {
        buf[i] = name[i];
        i = i + 1;
    }
    d.name = buf;
    assert(d.name@ =~= name@ + dev.name@.skip(name@.len() as int));
    stack.devices.insert(0, d);
    assert(stack.devices@.skip(1) =~= old(stack).devices@);
    assert(stack.devices@[0] == d);
    assert(registered_as(*dev, d, stack.device_index));
    Ok(stack.device_index)
}

/// Hands `data` of protocol `protocol_type` to a device for output.
pub fn net_device_output(
    stack: &NetStack,
    dev: &NetDevice,
    protocol_type: NetProtocolType,
    data: &[u8],
    dst: &[u8],
) -> (r: Result<Option<NetProtocolHandler>, NetError>)
    ensures
        r == output_outcome(stack.protocols(), *dev, protocol_type, data@.len()),
        !dev.spec_is_up() ==> r == Err::<Option<NetProtocolHandler>, NetError>(NetError::DeviceDown),
        dev.spec_is_up() && (dev.mtu as int) < data@.len() % 65536
            ==> r == Err::<Option<NetProtocolHandler>, NetError>(NetError::PacketTooLong),
        r is Ok ==> dev.spec_is_up() && data@.len() % 65536 <= dev.mtu,
        dev.spec_is_up() && data@.len() % 65536 <= dev.mtu && dev.ops is None
            ==> r == Err::<Option<NetProtocolHandler>, NetError>(NetError::OperationsNotSet),
        dev.spec_is_up() && data@.len() % 65536 <= dev.mtu && dev.ops is Some
            && dev.ops.unwrap().output is None
            ==> r == Err::<Option<NetProtocolHandler>, NetError>(NetError::OutputNotSupported),
        dev.spec_is_up() && data@.len() % 65536 <= dev.mtu && dev.ops is Some
            && dev.ops.unwrap().output == Some(DriverRoutine::Loopback)
            ==> r == Ok::<Option<NetProtocolHandler>, NetError>(
                handler_for(stack.protocols(), protocol_type),
            ),
{
    if !dev.is_up() {
        return Err(NetError::DeviceDown);
    }
    let n: usize = data.len();
    #[verifier::truncate]
    let len: u16 = n as u16;
    assert(len == n % 65536) by (bit_vector)
        requires
            len == n as u16,
    ;
    if dev.mtu < len {
        return Err(NetError::PacketTooLong);
    }
    match dev.ops {
        Some(ops) => match ops.output {
            Some(DriverRoutine::Loopback) => loopback_output(stack, dev, protocol_type, data, dst),
            None => Err(NetError::OutputNotSupported),
        },
        None => Err(NetError::OperationsNotSet),
    }
}

/// Whether the name buffer `buf` reads as the C string `name`.
fn name_matches(buf: &[u8; 16], name: &[u8]) -> (b: bool)
    ensures
        b == is_c_name(buf@, name@),
{
    if name.len() >= 16 {
        return false;
    }
    if buf[name.len()] != 0 {
        return false;
    }
    let mut i: usize = 0;
    while i < name.len()
        invariant
            0 <= i <= name.len(),
            name.len() < 16,
            buf@.len() == 16,
            forall|j: int| 0 <= j < i ==> buf@[j] == name@[j] && name@[j] != 0,
        decreases name.len() - i,
    {
        if buf[i] != name[i] || name[i] == 0 {
            return false;
        }
        i = i + 1;
    }
    true
}

/// Hands `data` to the device named `name`, searching from the most recent
/// device.
pub fn net_device_output_by_name(
    stack: &NetStack,
    name: &[u8],
    protocol_type: NetProtocolType,
    data: &[u8],
    dst: &[u8],
) -> (r: Result<Option<NetProtocolHandler>, NetError>)
    ensures
        r == match device_for(stack.devices(), name@) {
            None => Err(NetError::DeviceNotFound),
            Some(i) => output_outcome(stack.protocols(), stack.devices()[i], protocol_type, data@.len()),
        },
        (forall|i: int| 0 <= i < stack.devices().len() ==> !is_c_name(#[trigger] stack.devices()[i].name@, name@))
            ==> r == Err::<Option<NetProtocolHandler>, NetError>(NetError::DeviceNotFound),
        r != Err::<Option<NetProtocolHandler>, NetError>(NetError::DeviceNotFound) ==> exists|i: int|
            0 <= i < stack.devices().len() && is_c_name(#[trigger] stack.devices()[i].name@, name@)
                && (forall|j: int| 0 <= j < i ==> !is_c_name(#[trigger] stack.devices()[j].name@, name@))
                && r == output_outcome(stack.protocols(), stack.devices()[i], protocol_type, data@.len()),
{
    let mut i: usize = 0;
    while i < stack.devices.len()
        invariant
            0 <= i <= stack.devices@.len(),
            forall|j: int| 0 <= j < i ==> !is_c_name(#[trigger] stack.devices@[j].name@, name@),
        decreases stack.devices@.len() - i,
    {
        if name_matches(&stack.devices[i].name, name) {
            assert(is_first_device(stack.devices@, name@, i as int));
            return net_device_output(stack, &stack.devices[i], protocol_type, data, dst);
        }
        i = i + 1;
    }
    assert(!exists|k: int| is_first_device(stack.devices@, name@, k));
    Err(NetError::DeviceNotFound)
}

/// Registers the routine that receives packets of `protocol_type`; a type
/// can be registered only once.
pub fn net_protocol_register(
    stack: &mut NetStack,
    protocol_type: NetProtocolType,
    handler: NetProtocolHandler,
) -> (r: Result<(), NetError>)
    ensures
        final(stack).devices() == old(stack).devices(),
        final(stack).device_counter() == old(stack).device_counter(),
        has_protocol(old(stack).protocols(), protocol_type) ==> {
            &&& r == Err::<(), NetError>(NetError::ProtocolAlreadyRegistered)
            &&& final(stack).protocols() == old(stack).protocols()
        },
        !has_protocol(old(stack).protocols(), protocol_type) ==> {
            &&& r == Ok::<(), NetError>(())
            &&& final(stack).protocols() == seq![
                NetProtocol { protocol_type, handler },
            ] + old(stack).protocols()
        },
{
    let mut i: usize = 0;
    while i < stack.protocols.len()
        invariant
            0 <= i <= stack.protocols@.len(),
            forall|j: int| 0 <= j < i ==> #[trigger] stack.protocols@[j].protocol_type != protocol_type,
        decreases stack.protocols@.len() - i,
    {
        if stack.protocols[i].protocol_type == protocol_type {
            return Err(NetError::ProtocolAlreadyRegistered);
        }
        i = i + 1;
    }
    stack.protocols.insert(0, NetProtocol { protocol_type, handler });
    assert(stack.protocols@ =~= seq![NetProtocol { protocol_type, handler }] + old(stack).protocols@);
    Ok(())
}

/// Receives `data` of protocol `protocol_type` from `dev` and passes it to
/// the routine registered for that type; a packet of a type with no routine
/// is dropped. Returns the routine that received it.
pub fn net_input(
    stack: &NetStack,
    protocol_type: NetProtocolType,
    data: &[u8],
    dev: &NetDevice,
) -> (r: Result<Option<NetProtocolHandler>, NetError>)
    ensures
        r == Ok::<Option<NetProtocolHandler>, NetError>(handler_for(stack.protocols(), protocol_type)),
{
    let mut i: usize = 0;
    while i < stack.protocols.len()
        invariant
            0 <= i <= stack.protocols@.len(),
            forall|j: int| 0 <= j < i ==> #[trigger] stack.protocols@[j].protocol_type != protocol_type,
        decreases stack.protocols@.len() - i,
    {
        if stack.protocols[i].protocol_type == protocol_type {
            let handler = stack.protocols[i].handler;
            match handler {
                NetProtocolHandler::Ip => ip_input(data, dev),
            }
            proof {
                let ps = stack.protocols@;
                assert(is_first_protocol(ps, protocol_type, i as int));
                let k = choose|k: int| is_first_protocol(ps, protocol_type, k);
                assert(k == i) by {
                    if k < i {
                        assert(ps[k].protocol_type != protocol_type);
                    } else if k > i {
                        assert(ps[i as int].protocol_type != protocol_type);
                    }
                }
            }
            return Ok(Some(handler));
        }
        i = i + 1;
    }
    Ok(None)
}

/// `new` is `old` brought up: the UP flag set, every other field kept.
pub open spec fn opened_from(old: NetDevice, new: NetDevice) -> bool {
    new.same_but_flags(old) && new.flags == old.flags | NET_DEVICE_FLAG_UP
}

/// `new` is `old` taken down: the UP flag cleared, every other field kept.
pub open spec fn closed_from(old: NetDevice, new: NetDevice) -> bool {
    new.same_but_flags(old) && new.flags == old.flags & !NET_DEVICE_FLAG_UP
}

/// Initializes the stack once the platform has been initialized with the
/// outcome `platform`: on failure nothing changes, else IP is registered.
pub fn net_init(stack: &mut NetStack, platform: Result<(), i32>) -> (r: Result<(), NetError>)
    ensures
        final(stack).devices() == old(stack).devices(),
        final(stack).device_counter() == old(stack).device_counter(),
        platform is Err ==> {
            &&& r == Err::<(), NetError>(NetError::PlatformInitFailed)
            &&& final(stack).protocols() == old(stack).protocols()
        },
        platform is Ok && has_protocol(old(stack).protocols(), NetProtocolType(NET_PROTOCOL_TYPE_IP))
            ==> {
            &&& r == Err::<(), NetError>(NetError::ProtocolAlreadyRegistered)
            &&& final(stack).protocols() == old(stack).protocols()
        },
        platform is Ok && !has_protocol(old(stack).protocols(), NetProtocolType(NET_PROTOCOL_TYPE_IP))
            ==> {
            &&& r == Ok::<(), NetError>(())
            &&& final(stack).protocols() == seq![
                NetProtocol {
                    protocol_type: NetProtocolType(NET_PROTOCOL_TYPE_IP),
                    handler: NetProtocolHandler::Ip,
                },
            ] + old(stack).protocols()
        },
{
    if platform.is_err() {
        return Err(NetError::PlatformInitFailed);
    }
    ip_init(stack)
}

/// Starts the stack once the platform has been started with the outcome
/// `platform`: on success every device is brought up, in list order.
pub fn net_run(stack: &mut NetStack, platform: Result<(), i32>) -> (r: Result<(), NetError>)
    ensures
        final(stack).protocols() == old(stack).protocols(),
        final(stack).device_counter() == old(stack).device_counter(),
        final(stack).devices().len() == old(stack).devices().len(),
        platform is Err ==> {
            &&& r == Err::<(), NetError>(NetError::PlatformRunFailed)
            &&& final(stack).devices() == old(stack).devices()
        },
        platform is Ok ==> {
            &&& r == Ok::<(), NetError>(())
            &&& forall|i: int|
                0 <= i < old(stack).devices().len() ==> opened_from(
                    #[trigger] old(stack).devices()[i],
                    final(stack).devices()[i],
                )
        },
{
    match platform {
        Ok(_) => {
            let mut i: usize = 0;
            while i < stack.devices.len()
                invariant
                    0 <= i <= stack.devices@.len(),
                    stack.devices@.len() == old(stack).devices@.len(),
                    stack.protocols@ == old(stack).protocols@,
                    stack.device_index == old(stack).device_index,
                    forall|j: int|
                        0 <= j < i ==> opened_from(
                            #[trigger] old(stack).devices@[j],
                            stack.devices@[j],
                        ),
                    forall|j: int| i <= j < stack.devices@.len() ==> stack.devices@[j] == old(stack).devices@[j],
                decreases stack.devices@.len() - i,
            {
                let mut d: NetDevice = stack.devices[i];
                net_device_open(&mut d);
                stack.devices[i] = d;
                i = i + 1;
            }
            Ok(())
        },
        Err(_) => Err(NetError::PlatformRunFailed),
    }
}

/// Shuts the stack down once the platform has been shut down with the
/// outcome `platform`: on success every device is taken down, in list order.
pub fn net_shutdown(stack: &mut NetStack, platform: Result<(), i32>) -> (r: Result<(), NetError>)
    ensures
        final(stack).protocols() == old(stack).protocols(),
        final(stack).device_counter() == old(stack).device_counter(),
        final(stack).devices().len() == old(stack).devices().len(),
        platform is Err ==> {
            &&& r == Err::<(), NetError>(NetError::PlatformShutdownFailed)
            &&& final(stack).devices() == old(stack).devices()
        },
        platform is Ok ==> {
            &&& r == Ok::<(), NetError>(())
            &&& forall|i: int|
                0 <= i < old(stack).devices().len() ==> closed_from(
                    #[trigger] old(stack).devices()[i],
                    final(stack).devices()[i],
                )
        },
{
    match platform {
        Ok(_) => {
            let mut i: usize = 0;
            while i < stack.devices.len()
                invariant
                    0 <= i <= stack.devices@.len(),
                    stack.devices@.len() == old(stack).devices@.len(),
                    stack.protocols@ == old(stack).protocols@,
                    stack.device_index == old(stack).device_index,
                    forall|j: int|
                        0 <= j < i ==> closed_from(
                            #[trigger] old(stack).devices@[j],
                            stack.devices@[j],
                        ),
                    forall|j: int| i <= j < stack.devices@.len() ==> stack.devices@[j] == old(stack).devices@[j],
                decreases stack.devices@.len() - i,
            {
                let mut d: NetDevice = stack.devices[i];
                net_device_close(&mut d);
                stack.devices[i] = d;
                i = i + 1;
            }
            Ok(())
        },
        Err(_) => Err(NetError::PlatformShutdownFailed),
    }
}

} // verus!
