use vstd::prelude::*;

use crate::error::NetError;
use crate::naming::device_name_for;
use crate::net::{
    DriverRoutine, NetDevice, NetDeviceOps, NetProtocolHandler, NetProtocolType, NetStack,
    handler_for, net_device_alloc, net_device_register, net_input, next_device_index,
    NET_DEVICE_FLAG_LOOPBACK, NET_DEVICE_TYPE_LOOPBACK,
};

verus! {

pub const LOOPBACK_MTU: u16 = 65535;

/// Output routine of the loopback device: the packet comes straight back in
/// through the stack's input path.
pub fn loopback_output(
    stack: &NetStack,
    dev: &NetDevice,
    protocol_type: NetProtocolType,
    data: &[u8],
    dst: &[u8],
) -> (r: Result<Option<NetProtocolHandler>, NetError>)
    ensures
        r == Ok::<Option<NetProtocolHandler>, NetError>(handler_for(stack.protocols(), protocol_type)),
{
    net_input(stack, protocol_type, data, dev)
}

/// The control routines of the loopback driver: output only.
pub fn loopback_ops() -> (ops: NetDeviceOps)
    ensures
        ops == spec_loopback_ops(),
{
    NetDeviceOps { open: None, close: None, output: Some(DriverRoutine::Loopback) }
}

pub open spec fn spec_loopback_ops() -> NetDeviceOps {
    NetDeviceOps { open: None, close: None, output: Some(DriverRoutine::Loopback) }
}

/// `d` is the loopback device as registered with `index`.
pub open spec fn is_loopback_device(d: NetDevice, index: u32) -> bool {
    let n = device_name_for(index);
    &&& d.index == index
    &&& d.name@ == n + Seq::new((16 - n.len()) as nat, |i: int| 0u8)
    &&& d.addr@ == Seq::new(16, |i: int| 0u8)
    &&& d.broadcast@ == Seq::new(16, |i: int| 0u8)
    &&& d.device_type == NET_DEVICE_TYPE_LOOPBACK
    &&& d.mtu == LOOPBACK_MTU
    &&& d.flags == NET_DEVICE_FLAG_LOOPBACK
    &&& d.hlen == 0
    &&& d.alen == 0
    &&& d.ops == Some(spec_loopback_ops())
}

/// Sets up a loopback device and registers it with the stack.
pub fn loopback_init(stack: &mut NetStack) -> (r: Result<(), NetError>)
    ensures
        r == Ok::<(), NetError>(()),
        final(stack).device_counter() == next_device_index(old(stack).device_counter()),
        final(stack).protocols() == old(stack).protocols(),
        final(stack).devices().len() == old(stack).devices().len() + 1,
        final(stack).devices().skip(1) == old(stack).devices(),
        is_loopback_device(final(stack).devices()[0], final(stack).device_counter()),
{
    let mut dev = net_device_alloc();
    dev.device_type = NET_DEVICE_TYPE_LOOPBACK;
    dev.mtu = LOOPBACK_MTU;
    dev.flags = NET_DEVICE_FLAG_LOOPBACK;
    dev.hlen = 0;
    dev.alen = 0;
    dev.ops = Some(loopback_ops());
    let ghost before = *dev;
    match net_device_register(stack, dev) {
        Ok(_) => {
            proof {
                let n = device_name_for(stack.device_counter());
                crate::naming::lemma_device_name_fits(stack.device_counter());
                assert(before.name@.skip(n.len() as int) =~= Seq::new(
                    (16 - n.len()) as nat,
                    |i: int| 0u8,
                ));
            }
            Ok(())
        },
        Err(e) => Err(e),
    }
}

} // verus!
