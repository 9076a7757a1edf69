use tcpip_stack::error::NetError;
use tcpip_stack::ip::{ip_init, ip_input};
use tcpip_stack::log::{clock_fields, LogLevel};
use tcpip_stack::loopback::{loopback_init, loopback_output, LOOPBACK_MTU};
use tcpip_stack::naming::{decimal_digits, device_name};
use tcpip_stack::net::{
    net_device_alloc, net_device_close, net_device_open, net_device_output,
    net_device_output_by_name, net_device_register, net_init, net_input, net_protocol_register,
    net_run, net_shutdown, DriverRoutine, NetDevice, NetDeviceOps, NetProtocolHandler,
    NetProtocolType, NetStack, NET_DEVICE_FLAG_LOOPBACK, NET_DEVICE_FLAG_UP,
    NET_DEVICE_TYPE_LOOPBACK, NET_PROTOCOL_TYPE_ARP, NET_PROTOCOL_TYPE_IP,
};
use tcpip_stack::platform::Platform;

const TEST_DATA: [u8; 48] = [
    0x45, 0x00, 0x00, 0x30, 0x00, 0x80, 0x00, 0x00, 0xff, 0x01, 0xbd, 0x4a, 0x7f, 0x00, 0x00, 0x01,
    0x7f, 0x00, 0x00, 0x01, 0x08, 0x00, 0x35, 0x64, 0x00, 0x80, 0x00, 0x01, 0x31, 0x32, 0x33, 0x34,
    0x35, 0x36, 0x37, 0x38, 0x39, 0x30, 0x21, 0x40, 0x23, 0x24, 0x25, 0x5e, 0x26, 0x2a, 0x28, 0x29,
];

fn ip() -> NetProtocolType {
    NetProtocolType::from_u16(NET_PROTOCOL_TYPE_IP)
}

fn up_device(mtu: u16, ops: Option<NetDeviceOps>) -> NetDevice {
    let mut d = NetDevice::default();
    d.mtu = mtu;
    d.ops = ops;
    net_device_open(&mut d);
    d
}

fn loop_ops() -> NetDeviceOps {
    NetDeviceOps { open: None, close: None, output: Some(DriverRoutine::Loopback) }
}

#[test]
fn error_messages() {
    assert_eq!(NetError::DeviceNotFound.message(), "device not found");
    assert_eq!(NetError::PlatformInitFailed.message(), "platform initialization failed");
    assert_eq!(
        NetError::ProtocolAlreadyRegistered.message(),
        "protocol type is already registered"
    );
    assert_eq!(NetError::OutputNotSupported.message(), "ops.output is not supported");
}

#[test]
fn protocol_type_value() {
    let t = NetProtocolType::from_u16(0x86dd);
    assert_eq!(t.value(), 0x86dd);
    assert_eq!(t, NetProtocolType(0x86dd));
}

#[test]
fn fresh_device_is_blank_and_down() {
    let d = net_device_alloc();
    assert_eq!(d.index, 0);
    assert_eq!(d.flags, 0);
    assert_eq!(d.mtu, 0);
    assert!(d.ops.is_none());
    assert!(!d.is_up());
    assert_eq!(d.state(), "DOWN");
    assert_eq!(d.name, [0u8; 16]);
    assert_eq!(d.name(), "");
}

#[test]
fn name_without_nul_is_invalid() {
    let mut d = NetDevice::default();
    d.name = [b'x'; 16];
    assert_eq!(d.name(), "<invalid>");
    d.name = [0xff, 0xfe, 0, 0, 0, 0, 0, 0, 0, 0, 0, 0, 0, 0, 0, 0];
    assert_eq!(d.name(), "<invalid>");
}

#[test]
fn open_and_close() {
    let mut d = NetDevice::default();
    d.flags = NET_DEVICE_FLAG_LOOPBACK;
    net_device_open(&mut d);
    assert!(d.is_up());
    assert_eq!(d.state(), "UP");
    assert_eq!(d.flags, NET_DEVICE_FLAG_LOOPBACK | NET_DEVICE_FLAG_UP);
    net_device_open(&mut d);
    assert_eq!(d.flags, NET_DEVICE_FLAG_LOOPBACK | NET_DEVICE_FLAG_UP);
    net_device_close(&mut d);
    assert!(!d.is_up());
    assert_eq!(d.flags, NET_DEVICE_FLAG_LOOPBACK);
    net_device_close(&mut d);
    assert_eq!(d.flags, NET_DEVICE_FLAG_LOOPBACK);
}

#[test]
fn register_names_devices_in_order() {
    let mut stack = NetStack::new();
    assert_eq!(net_device_register(&mut stack, net_device_alloc()), Ok(1));
    assert_eq!(net_device_register(&mut stack, net_device_alloc()), Ok(2));
    assert_eq!(stack.device_count(), 2);
    assert_eq!(stack.device(0).index, 2);
    assert_eq!(stack.device(0).name(), "net2");
    assert_eq!(stack.device(1).name(), "net1");
    assert_eq!(&stack.device(1).name[..5], b"net1\0");
}

#[test]
fn decimal_names() {
    assert_eq!(decimal_digits(0), b"0".to_vec());
    assert_eq!(decimal_digits(907), b"907".to_vec());
    assert_eq!(device_name(4294967295), b"net4294967295".to_vec());
    assert_eq!(device_name(10), b"net10".to_vec());
}

#[test]
fn protocol_registered_once() {
    let mut stack = NetStack::new();
    assert_eq!(ip_init(&mut stack), Ok(()));
    assert_eq!(stack.protocol_count(), 1);
    assert_eq!(ip_init(&mut stack), Err(NetError::ProtocolAlreadyRegistered));
    assert_eq!(
        net_protocol_register(&mut stack, ip(), NetProtocolHandler::Ip),
        Err(NetError::ProtocolAlreadyRegistered)
    );
    assert_eq!(stack.protocol_count(), 1);
    assert_eq!(
        net_protocol_register(
            &mut stack,
            NetProtocolType(NET_PROTOCOL_TYPE_ARP),
            NetProtocolHandler::Ip
        ),
        Ok(())
    );
    assert_eq!(stack.protocol_count(), 2);
}

#[test]
fn input_dispatches_by_type() {
    let mut stack = NetStack::new();
    let d = NetDevice::default();
    assert_eq!(net_input(&stack, ip(), &TEST_DATA, &d), Ok(None));
    ip_init(&mut stack).unwrap();
    assert_eq!(net_input(&stack, ip(), &TEST_DATA, &d), Ok(Some(NetProtocolHandler::Ip)));
    assert_eq!(net_input(&stack, NetProtocolType(NET_PROTOCOL_TYPE_ARP), &TEST_DATA, &d), Ok(None));
    ip_input(&TEST_DATA, &d);
}

#[test]
fn output_errors_in_order() {
    let mut stack = NetStack::new();
    ip_init(&mut stack).unwrap();
    let down = NetDevice::default();
    assert_eq!(net_device_output(&stack, &down, ip(), &TEST_DATA, &[]), Err(NetError::DeviceDown));
    let small = up_device(47, Some(loop_ops()));
    assert_eq!(net_device_output(&stack, &small, ip(), &TEST_DATA, &[]), Err(NetError::PacketTooLong));
    let exact = up_device(48, Some(loop_ops()));
    assert_eq!(
        net_device_output(&stack, &exact, ip(), &TEST_DATA, &[]),
        Ok(Some(NetProtocolHandler::Ip))
    );
    let no_ops = up_device(1500, None);
    assert_eq!(
        net_device_output(&stack, &no_ops, ip(), &TEST_DATA, &[]),
        Err(NetError::OperationsNotSet)
    );
    let no_output = up_device(1500, Some(NetDeviceOps { open: None, close: None, output: None }));
    assert_eq!(
        net_device_output(&stack, &no_output, ip(), &TEST_DATA, &[]),
        Err(NetError::OutputNotSupported)
    );
}

#[test]
fn output_length_is_taken_modulo_65536() {
    let stack = NetStack::new();
    let d = up_device(0, None);
    let big = vec![0u8; 65536];
    assert_eq!(net_device_output(&stack, &d, ip(), &big, &[]), Err(NetError::OperationsNotSet));
    let bigger = vec![0u8; 65537];
    assert_eq!(net_device_output(&stack, &d, ip(), &bigger, &[]), Err(NetError::PacketTooLong));
}

#[test]
fn loopback_output_comes_back_in() {
    let mut stack = NetStack::new();
    let d = NetDevice::default();
    assert_eq!(loopback_output(&stack, &d, ip(), &TEST_DATA, &[]), Ok(None));
    ip_init(&mut stack).unwrap();
    assert_eq!(
        loopback_output(&stack, &d, ip(), &TEST_DATA, &[]),
        Ok(Some(NetProtocolHandler::Ip))
    );
}

#[test]
fn loopback_device_setup() {
    let mut stack = NetStack::new();
    assert_eq!(loopback_init(&mut stack), Ok(()));
    let d = stack.device(0);
    assert_eq!(d.index, 1);
    assert_eq!(d.name(), "net1");
    assert_eq!(d.device_type, NET_DEVICE_TYPE_LOOPBACK);
    assert_eq!(d.mtu, LOOPBACK_MTU);
    assert_eq!(d.flags, NET_DEVICE_FLAG_LOOPBACK);
    assert_eq!(d.ops, Some(loop_ops()));
    assert!(!d.is_up());
}

#[test]
fn output_by_name() {
    let mut stack = NetStack::new();
    assert_eq!(
        net_device_output_by_name(&stack, b"net1", ip(), &TEST_DATA, &[]),
        Err(NetError::DeviceNotFound)
    );
    loopback_init(&mut stack).unwrap();
    loopback_init(&mut stack).unwrap();
    assert_eq!(
        net_device_output_by_name(&stack, b"net1", ip(), &TEST_DATA, &[]),
        Err(NetError::DeviceDown)
    );
    assert_eq!(
        net_device_output_by_name(&stack, b"net3", ip(), &TEST_DATA, &[]),
        Err(NetError::DeviceNotFound)
    );
    assert_eq!(
        net_device_output_by_name(&stack, b"net", ip(), &TEST_DATA, &[]),
        Err(NetError::DeviceNotFound)
    );
    net_run(&mut stack, Ok(())).unwrap();
    assert_eq!(net_device_output_by_name(&stack, b"net2", ip(), &TEST_DATA, &[]), Ok(None));
}

#[test]
fn setup_send_and_cleanup() {
    let mut stack = NetStack::new();
    assert_eq!(net_init(&mut stack, Ok(())), Ok(()));
    assert_eq!(loopback_init(&mut stack), Ok(()));
    assert_eq!(net_run(&mut stack, Ok(())), Ok(()));
    assert!(stack.device(0).is_up());
    assert_eq!(
        net_device_output_by_name(&stack, b"net1", ip(), &TEST_DATA, &[]),
        Ok(Some(NetProtocolHandler::Ip))
    );
    assert_eq!(net_shutdown(&mut stack, Ok(())), Ok(()));
    assert!(!stack.device(0).is_up());
    assert_eq!(
        net_device_output_by_name(&stack, b"net1", ip(), &TEST_DATA, &[]),
        Err(NetError::DeviceDown)
    );
}

#[test]
fn platform_failures() {
    let mut stack = NetStack::new();
    assert_eq!(net_init(&mut stack, Err(-1)), Err(NetError::PlatformInitFailed));
    assert_eq!(stack.protocol_count(), 0);
    assert_eq!(net_init(&mut stack, Ok(())), Ok(()));
    assert_eq!(net_init(&mut stack, Ok(())), Err(NetError::ProtocolAlreadyRegistered));
    loopback_init(&mut stack).unwrap();
    assert_eq!(net_run(&mut stack, Err(3)), Err(NetError::PlatformRunFailed));
    assert!(!stack.device(0).is_up());
    net_run(&mut stack, Ok(())).unwrap();
    assert_eq!(net_shutdown(&mut stack, Err(3)), Err(NetError::PlatformShutdownFailed));
    assert!(stack.device(0).is_up());
}

#[test]
fn platform_status_codes() {
    assert_eq!(Platform::status(0), Ok(()));
    assert_eq!(Platform::status(-1), Err(-1));
    assert_eq!(Platform::status(7), Err(7));
}

#[test]
fn log_levels_and_clock() {
    assert_eq!(LogLevel::Error.code(), b'E');
    assert_eq!(LogLevel::Warning.code(), b'W');
    assert_eq!(LogLevel::Info.code(), b'I');
    assert_eq!(LogLevel::Debug.code(), b'D');
    assert_eq!(LogLevel::Trace.code(), b'T');
    assert_eq!(clock_fields(3661), (1, 1, 1));
    assert_eq!(clock_fields(86399), (23, 59, 59));
    assert_eq!(clock_fields(86400 + 7200 + 5), (2, 0, 5));
}

#[test]
fn register_always_succeeds_past_many_devices() {
    let mut stack = NetStack::new();
    for k in 1..=12u32 {
        assert_eq!(net_device_register(&mut stack, net_device_alloc()), Ok(k));
    }
    assert_eq!(stack.device(0).name(), "net12");
    assert_eq!(stack.device(11).name(), "net1");
}

#[test]
fn loopback_takes_packets_of_any_length() {
    let mut stack = NetStack::new();
    net_init(&mut stack, Ok(())).unwrap();
    loopback_init(&mut stack).unwrap();
    net_run(&mut stack, Ok(())).unwrap();
    let big = vec![0u8; 70000];
    assert_eq!(
        net_device_output_by_name(&stack, b"net1", ip(), &big, &[]),
        Ok(Some(NetProtocolHandler::Ip))
    );
    assert_eq!(
        net_device_output_by_name(&stack, b"net1", NetProtocolType(NET_PROTOCOL_TYPE_ARP), &[], &[]),
        Ok(None)
    );
}
