use vstd::prelude::*;

use crate::loopback::{is_loopback_device, LOOPBACK_MTU};
use crate::naming::{device_name_for, is_c_name, lemma_device_name_fits, lemma_device_name_injective};
use crate::net::{
    c_name_of, lemma_c_name_unique, DriverRoutine, closed_from, device_for, handler_for, has_protocol, is_first_device, is_first_protocol,
    next_device_index, opened_from, output_outcome, registered_as, NetDevice, NetProtocol,
    NetProtocolHandler, NetProtocolType,
};

verus! {

/// No protocol type occurs twice in the table.
pub open spec fn protocols_distinct(ps: Seq<NetProtocol>) -> bool {
    forall|i: int, j: int|
        0 <= i < j < ps.len() ==> #[trigger] ps[i].protocol_type != #[trigger] ps[j].protocol_type
}

/// Every device's index lies in 1..=`counter`, and indices strictly fall
/// along the list (the most recent device first).
pub open spec fn indices_fresh(ds: Seq<NetDevice>, counter: u32) -> bool {
    &&& forall|i: int| 0 <= i < ds.len() ==> 1 <= #[trigger] ds[i].index <= counter
    &&& forall|i: int, j: int| 0 <= i < j < ds.len() ==> #[trigger] ds[i].index > #[trigger] ds[j].index
}

/// Every device's name buffer reads "net<index>".
pub open spec fn well_named(ds: Seq<NetDevice>) -> bool {
    forall|i: int| 0 <= i < ds.len() ==> is_c_name(#[trigger] ds[i].name@, device_name_for(ds[i].index))
}

/// A protocol just registered for `t` receives every packet of type `t`.
pub proof fn law_registered_protocol_receives(ps: Seq<NetProtocol>, t: NetProtocolType, h: NetProtocolHandler)
    ensures
        handler_for(seq![NetProtocol { protocol_type: t, handler: h }] + ps, t) == Some(h),
{
    let qs = seq![NetProtocol { protocol_type: t, handler: h }] + ps;
    assert(is_first_protocol(qs, t, 0));
    let k = choose|k: int| is_first_protocol(qs, t, k);
    assert(k == 0) by {
        if k > 0 {
            assert(qs[0].protocol_type == t);
        }
    }
}

/// A packet of a type that no protocol is registered for reaches no routine,
/// and one of a registered type always reaches one.
pub proof fn law_unregistered_type_dropped(ps: Seq<NetProtocol>, t: NetProtocolType)
    ensures
        !has_protocol(ps, t) <==> handler_for(ps, t) is None,
{
    if has_protocol(ps, t) {
        let i = choose|i: int| 0 <= i < ps.len() && #[trigger] ps[i].protocol_type == t;
        lemma_first_protocol_exists(ps, t, i);
    } else {
        if exists|i: int| is_first_protocol(ps, t, i) {
            let i = choose|i: int| is_first_protocol(ps, t, i);
            assert(ps[i].protocol_type == t);
        }
    }
}

proof fn lemma_first_protocol_exists(ps: Seq<NetProtocol>, t: NetProtocolType, i: int)
    requires
        0 <= i < ps.len(),
        ps[i].protocol_type == t,
    ensures
        exists|k: int| is_first_protocol(ps, t, k),
    decreases i,
{
    if forall|j: int| 0 <= j < i ==> ps[j].protocol_type != t {
        assert(is_first_protocol(ps, t, i));
    } else {
        let j = choose|j: int| 0 <= j < i && ps[j].protocol_type == t;
        lemma_first_protocol_exists(ps, t, j);
    }
}

/// Registration keeps protocol types unique: a type is added only when the
/// table does not hold it yet.
pub proof fn law_protocol_types_stay_distinct(ps: Seq<NetProtocol>, t: NetProtocolType, h: NetProtocolHandler)
    requires
        protocols_distinct(ps),
        !has_protocol(ps, t),
    ensures
        protocols_distinct(seq![NetProtocol { protocol_type: t, handler: h }] + ps),
{
    let qs = seq![NetProtocol { protocol_type: t, handler: h }] + ps;
    assert forall|i: int, j: int| 0 <= i < j < qs.len() implies #[trigger] qs[i].protocol_type
        != #[trigger] qs[j].protocol_type by {
        if i == 0 {
            assert(qs[j] == ps[j - 1]);
            if ps[j - 1].protocol_type == t {
                assert(0 <= j - 1 < ps.len() && ps[j - 1].protocol_type == t);
            }
        } else {
            assert(qs[i] == ps[i - 1]);
            assert(qs[j] == ps[j - 1]);
        }
    }
}

/// In a table without duplicate types, the routine for a type is that of
/// the one entry registered for it.
pub proof fn law_distinct_protocol_lookup(ps: Seq<NetProtocol>, i: int)
    requires
        protocols_distinct(ps),
        0 <= i < ps.len(),
    ensures
        handler_for(ps, ps[i].protocol_type) == Some(ps[i].handler),
{
    let t = ps[i].protocol_type;
    assert(is_first_protocol(ps, t, i)) by {
        assert forall|j: int| 0 <= j < i implies ps[j].protocol_type != t by {
            assert(ps[j].protocol_type != ps[i].protocol_type);
        }
    }
    let k = choose|k: int| is_first_protocol(ps, t, k);
    assert(k == i) by {
        if k < i {
            assert(ps[k].protocol_type != ps[i].protocol_type);
        } else if k > i {
            assert(ps[i].protocol_type != ps[k].protocol_type);
        }
    }
}

/// A device registered with a clear name buffer reads "net<index>", and
/// the name fits its buffer for every index.
pub proof fn law_registered_device_named(dev: NetDevice, reg: NetDevice, index: u32)
    requires
        dev.name@ == Seq::new(16, |i: int| 0u8),
        registered_as(dev, reg, index),
    ensures
        is_c_name(reg.name@, device_name_for(index)),
{
    let n = device_name_for(index);
    lemma_device_name_fits(index);
    assert(reg.name@[n.len() as int] == dev.name@.skip(n.len() as int)[0]);
}

/// Registration keeps indices fresh while the counter has not wrapped: the
/// new device gets an index above every earlier one.
pub proof fn law_indices_stay_fresh(ds: Seq<NetDevice>, counter: u32, dev: NetDevice, reg: NetDevice)
    requires
        indices_fresh(ds, counter),
        counter < u32::MAX,
        registered_as(dev, reg, next_device_index(counter)),
    ensures
        indices_fresh(seq![reg] + ds, next_device_index(counter)),
{
    let es = seq![reg] + ds;
    assert forall|i: int, j: int| 0 <= i < j < es.len() implies #[trigger] es[i].index
        > #[trigger] es[j].index by {
        assert(es[j] == ds[j - 1]);
        if i > 0 {
            assert(es[i] == ds[i - 1]);
        }
    }
    assert forall|i: int| 0 <= i < es.len() implies 1 <= #[trigger] es[i].index <= next_device_index(
        counter,
    ) by {
        if i > 0 {
            assert(es[i] == ds[i - 1]);
        }
    }
}

/// Registration keeps every name reading "net<index>" when the new device
/// comes with a clear name buffer.
pub proof fn law_names_stay_well_formed(ds: Seq<NetDevice>, dev: NetDevice, reg: NetDevice, index: u32)
    requires
        well_named(ds),
        dev.name@ == Seq::new(16, |i: int| 0u8),
        registered_as(dev, reg, index),
    ensures
        well_named(seq![reg] + ds),
{
    law_registered_device_named(dev, reg, index);
    let es = seq![reg] + ds;
    assert forall|i: int| 0 <= i < es.len() implies is_c_name(
        #[trigger] es[i].name@,
        device_name_for(es[i].index),
    ) by {
        if i > 0 {
            assert(es[i] == ds[i - 1]);
        }
    }
}

/// Applications reach devices by name: in a registry whose names read
/// "net<index>" with distinct indices, the name of a device finds exactly
/// that device.
pub proof fn law_device_found_by_name(ds: Seq<NetDevice>, counter: u32, i: int)
    requires
        well_named(ds),
        indices_fresh(ds, counter),
        0 <= i < ds.len(),
    ensures
        device_for(ds, device_name_for(ds[i].index)) == Some(i),
{
    let n = device_name_for(ds[i].index);
    assert forall|j: int| 0 <= j < ds.len() && is_c_name(#[trigger] ds[j].name@, n) implies j == i by {
        assert(is_c_name(ds[j].name@, device_name_for(ds[j].index)));
        crate::net::lemma_c_name_unique(ds[j].name@, n, device_name_for(ds[j].index));
        lemma_device_name_injective(ds[i].index, ds[j].index);
        if j < i {
            assert(ds[j].index > ds[i].index);
        } else if j > i {
            assert(ds[i].index > ds[j].index);
        }
    }
    assert(is_first_device(ds, n, i));
    let k = choose|k: int| is_first_device(ds, n, k);
    assert(k == i);
}

/// The loopback device, once brought up, takes packets of any length and
/// hands each to the routine registered for its type.
pub proof fn law_loopback_round_trip(
    ps: Seq<NetProtocol>,
    registered: NetDevice,
    dev: NetDevice,
    index: u32,
    t: NetProtocolType,
    len: nat,
)
    requires
        is_loopback_device(registered, index),
        opened_from(registered, dev),
    ensures
        dev.spec_is_up(),
        output_outcome(ps, dev, t, len) == Ok::<Option<NetProtocolHandler>, crate::error::NetError>(
            handler_for(ps, t),
        ),
{
    let f = registered.flags;
    assert(f == 0x10u16 ==> (f | 1u16) & 1u16 != 0) by (bit_vector);
    assert(len % 65536 <= LOOPBACK_MTU);
}

/// Any up device whose output routine loops back, given a packet within its
/// MTU, hands the packet to the routine registered for the packet's type,
/// whatever that type is.
pub proof fn law_loopback_output_delivers(ps: Seq<NetProtocol>, dev: NetDevice, t: NetProtocolType, len: nat)
    requires
        dev.spec_is_up(),
        len % 65536 <= dev.mtu,
        dev.ops is Some,
        dev.ops.unwrap().output == Some(DriverRoutine::Loopback),
    ensures
        output_outcome(ps, dev, t, len) == Ok::<Option<NetProtocolHandler>, crate::error::NetError>(
            handler_for(ps, t),
        ),
{
}

/// The MTU check compares the packet length taken modulo 2^16 (its `u16`
/// value): a longer packet on an up device is refused as too long, and a
/// packet is only ever sent when that length is within the MTU.
pub proof fn law_output_respects_mtu(ps: Seq<NetProtocol>, dev: NetDevice, t: NetProtocolType, len: nat)
    ensures
        dev.spec_is_up() && (dev.mtu as int) < len % 65536 ==> output_outcome(ps, dev, t, len) == Err::<
            Option<NetProtocolHandler>,
            crate::error::NetError,
        >(crate::error::NetError::PacketTooLong),
        output_outcome(ps, dev, t, len) is Ok ==> dev.spec_is_up() && len % 65536 <= dev.mtu,
        !dev.spec_is_up() ==> output_outcome(ps, dev, t, len) == Err::<
            Option<NetProtocolHandler>,
            crate::error::NetError,
        >(crate::error::NetError::DeviceDown),
{
}

/// The routine found for a type is one that was registered for that type.
pub proof fn law_handler_was_registered(ps: Seq<NetProtocol>, t: NetProtocolType)
    ensures
        handler_for(ps, t) matches Some(h) ==> exists|i: int|
            0 <= i < ps.len() && #[trigger] ps[i] == (NetProtocol { protocol_type: t, handler: h }),
{
    if handler_for(ps, t) is Some {
        let i = choose|i: int| is_first_protocol(ps, t, i);
        assert(ps[i] == (NetProtocol { protocol_type: t, handler: ps[i].handler }));
    }
}

/// A name buffer reads as `name` only when it holds exactly the bytes of
/// `name` followed by a NUL; this is the one C string the buffer holds.
pub proof fn law_c_name_exact(buf: Seq<u8>, name: Seq<u8>)
    ensures
        is_c_name(buf, name) ==> {
            &&& name.len() < buf.len()
            &&& buf.take(name.len() as int) == name
            &&& buf[name.len() as int] == 0
            &&& forall|j: int| 0 <= j < name.len() ==> #[trigger] name[j] != 0
        },
        is_c_name(buf, name) <==> c_name_of(buf) == Some(name),
{
    if is_c_name(buf, name) {
        assert(buf.take(name.len() as int) =~= name);
        let q = choose|q: Seq<u8>| is_c_name(buf, q);
        lemma_c_name_unique(buf, name, q);
    }
    if c_name_of(buf) == Some(name) {
        let q = choose|q: Seq<u8>| is_c_name(buf, q);
        assert(q == name);
    }
}

proof fn lemma_first_device_exists(ds: Seq<NetDevice>, name: Seq<u8>, i: int)
    requires
        0 <= i < ds.len(),
        is_c_name(ds[i].name@, name),
    ensures
        exists|k: int| is_first_device(ds, name, k),
    decreases i,
{
    if forall|j: int| 0 <= j < i ==> !is_c_name(#[trigger] ds[j].name@, name) {
        assert(is_first_device(ds, name, i));
    } else {
        let j = choose|j: int| 0 <= j < i && is_c_name(#[trigger] ds[j].name@, name);
        lemma_first_device_exists(ds, name, j);
    }
}

/// Looking a device up by name finds a device whose name is exactly that
/// name, the most recent such one, and finds nothing exactly when no device
/// bears the name.
pub proof fn law_device_lookup_exact(ds: Seq<NetDevice>, name: Seq<u8>)
    ensures
        device_for(ds, name) is None <==> forall|i: int|
            0 <= i < ds.len() ==> !is_c_name(#[trigger] ds[i].name@, name),
        device_for(ds, name) matches Some(i) ==> {
            &&& 0 <= i < ds.len()
            &&& is_c_name(ds[i].name@, name)
            &&& forall|j: int| 0 <= j < i ==> !is_c_name(#[trigger] ds[j].name@, name)
        },
{
    if exists|i: int| 0 <= i < ds.len() && is_c_name(#[trigger] ds[i].name@, name) {
        let i = choose|i: int| 0 <= i < ds.len() && is_c_name(#[trigger] ds[i].name@, name);
        lemma_first_device_exists(ds, name, i);
    }
    if device_for(ds, name) is Some {
        let k = choose|k: int| is_first_device(ds, name, k);
        assert(is_c_name(ds[k].name@, name));
    }
}

/// Device indices count up by one from 1; only after `u32::MAX`
/// registrations does the counter wrap to 0.
pub proof fn law_counter_steps_by_one(c: u32)
    ensures
        c < u32::MAX ==> next_device_index(c) == c + 1,
        c == u32::MAX ==> next_device_index(c) == 0,
        next_device_index(0) == 1,
{
}

/// Taking a device down undoes bringing it up when it was down before.
pub proof fn law_close_undoes_open(a: NetDevice, b: NetDevice, c: NetDevice)
    requires
        !a.spec_is_up(),
        opened_from(a, b),
        closed_from(b, c),
    ensures
        c == a,
{
    let f = a.flags;
    assert(f & 1u16 == 0 ==> (f | 1u16) & !1u16 == f) by (bit_vector);
    assert(c.name@ =~= a.name@);
    assert(c.addr@ =~= a.addr@);
    assert(c.broadcast@ =~= a.broadcast@);
    assert(c.name == a.name);
    assert(c.addr == a.addr);
    assert(c.broadcast == a.broadcast);
}

/// Bringing a device up twice is the same as bringing it up once.
pub proof fn law_open_idempotent(a: NetDevice, b: NetDevice, c: NetDevice)
    requires
        opened_from(a, b),
        opened_from(b, c),
    ensures
        c.flags == b.flags,
        c.same_but_flags(b),
{
    let f = a.flags;
    assert((f | 1u16) | 1u16 == f | 1u16) by (bit_vector);
}

} // verus!
