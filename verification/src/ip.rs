use vstd::prelude::*;

use crate::error::NetError;
use crate::net::{
    NetDevice, NetProtocol, NetProtocolHandler, NetProtocolType, NetStack, has_protocol,
    net_protocol_register, NET_PROTOCOL_TYPE_IP,
};

verus! {

/// The input routine of IP: it receives the packet and, for now, does
/// nothing more with it.
pub fn ip_input(data: &[u8], dev: &NetDevice) {
}

/// Registers IP with the stack.
pub fn ip_init(stack: &mut NetStack) -> (r: Result<(), NetError>)
    ensures
        final(stack).devices() == old(stack).devices(),
        final(stack).device_counter() == old(stack).device_counter(),
        has_protocol(old(stack).protocols(), NetProtocolType(NET_PROTOCOL_TYPE_IP)) ==> {
            &&& r == Err::<(), NetError>(NetError::ProtocolAlreadyRegistered)
            &&& final(stack).protocols() == old(stack).protocols()
        },
        !has_protocol(old(stack).protocols(), NetProtocolType(NET_PROTOCOL_TYPE_IP)) ==> {
            &&& r == Ok::<(), NetError>(())
            &&& final(stack).protocols() == seq![
                NetProtocol {
                    protocol_type: NetProtocolType(NET_PROTOCOL_TYPE_IP),
                    handler: NetProtocolHandler::Ip,
                },
            ] + old(stack).protocols()
        },
{
    net_protocol_register(stack, NetProtocolType(NET_PROTOCOL_TYPE_IP), NetProtocolHandler::Ip)
}

} // verus!
