use aios_kernel::drivers::bus::DriverBus;
use aios_kernel::drivers::device::Device;
use aios_kernel::drivers::driver::{Driver, DriverVersion};
use aios_kernel::drivers::ethernet::{self, EthernetDriver, MacAddress, ETHERTYPE_IP};
use aios_kernel::drivers::hotplug::HotplugEvent;
use aios_kernel::drivers::nvme::{self, NvmeDriver};
use aios_kernel::drivers::sata::{self, SataCommand, SataDriver};
use aios_kernel::drivers::sgx::{self, detect_sgx_features, measurement_data, SgxDriver, SgxError};
use aios_kernel::drivers::system::DriverSystem;
use aios_kernel::drivers::tpm::{
    build_read_pcr_command, build_startup_command, finish_read_pcr, parse_response_code, parse_tpm2_table,
    read_pcr, TpmDevice, TpmError, TpmInterface,
};
use aios_kernel::drivers::DriverError;

fn device(class: u32, pci_class: u8, subclass: u8) -> Device {
    Device {
        device_id: 0,
        device_class: class,
        class: pci_class,
        subclass,
        vendor_id: 0x8086,
        device_id_hw: 0x1234,
        bus: 0,
        slot: 1,
        function: 0,
    }
}

fn driver(name: &str, class: u32) -> Driver {
    Driver {
        driver_id: 0,
        name: name.to_string(),
        version: DriverVersion { major: 1, minor: 0, patch: 0 },
        device_class: class,
        init: 1,
        probe: 2,
        remove: 3,
    }
}

#[test]
fn bus_binds_drivers_to_devices_of_their_class() {
    let mut bus = DriverBus::new();
    let d1 = bus.register_device(device(7, 1, 6));
    assert_eq!(d1, 1);
    let drv = bus.register_driver(driver("sata", 7)).unwrap();
    assert_eq!(drv, 1);
    assert_eq!(bus.get_driver_for_device(d1), Some(1));
    let d2 = bus.register_device(device(7, 1, 6));
    assert_eq!(bus.get_driver_for_device(d2), None);
    assert_eq!(bus.get_device(d2).unwrap().device_id, 2);
    assert_eq!(bus.enumerate_devices().len(), 2);
}

#[test]
fn bus_refuses_nameless_driver() {
    let mut bus = DriverBus::new();
    assert_eq!(bus.register_driver(driver("", 7)), Err(DriverError::InvalidDriver));
}

#[test]
fn hotplug_adds_and_removes() {
    let mut sys = DriverSystem::new();
    sys.register_driver(driver("net", 2)).unwrap();
    sys.handle_hotplug(HotplugEvent::DeviceAdded(device(2, 2, 0)));
    assert_eq!(sys.enumerate_devices().len(), 1);
    assert_eq!(sys.bus.get_driver_for_device(1), Some(1));
    sys.handle_hotplug(HotplugEvent::DeviceRemoved(1));
    assert!(sys.enumerate_devices().is_empty());
    assert_eq!(sys.bus.get_driver_for_device(1), None);
}

#[test]
fn tpm_commands_are_encoded() {
    assert_eq!(build_startup_command(), vec![0x01, 0x80, 12, 0, 0, 0, 0x44, 0x01, 0, 0, 0, 0]);
    let cmd = build_read_pcr_command(5);
    assert_eq!(cmd.len(), 13);
    assert_eq!(&cmd[0..2], &[0x01, 0x80]);
    assert_eq!(cmd[2] as usize, cmd.len());
    assert_eq!(cmd[10], 5);
    assert_eq!(parse_response_code(&[0, 0, 0, 0, 0, 0, 0x1E, 0, 0, 0]), 0x1E);
    assert_eq!(parse_response_code(&[0, 0, 0]), 0);
}

#[test]
fn tpm2_table_is_parsed() {
    let mut table = vec![0u8; 52];
    table[4] = 52;
    table[36] = 0x00;
    table[37] = 0x10;
    table[38] = 0xD4;
    table[39] = 0xFE;
    table[44] = 6;
    let dev = parse_tpm2_table(&table).unwrap();
    assert_eq!(dev.base_address, 0xFED4_1000);
    assert_eq!(dev.interface, TpmInterface::CRB);
    assert!(!dev.initialized);
    table[44] = 7;
    assert_eq!(parse_tpm2_table(&table).unwrap().interface, TpmInterface::FIFO);
    table[4] = 40;
    assert_eq!(parse_tpm2_table(&table), None);
}

#[test]
fn pcr_read_goes_through_the_transport() {
    let dev = TpmDevice { interface: TpmInterface::CRB, base_address: 0xFED4_0000, locality: 0, initialized: true };
    let transport = |_d: TpmDevice, cmd: &[u8]| -> Result<Vec<u8>, TpmError> {
        assert_eq!(cmd.len(), 13);
        let mut resp = vec![0u8; 42];
        for i in 10..42 {
            resp[i] = i as u8;
        }
        Ok(resp)
    };
    let pcr = read_pcr(Some(dev), 3, &transport).unwrap();
    assert_eq!(pcr.len(), 32);
    assert_eq!(pcr[0], 10);
    assert_eq!(read_pcr(None, 3, &transport), Err(TpmError::NotAvailable));
    let cold = TpmDevice { initialized: false, ..dev };
    assert_eq!(read_pcr(Some(cold), 3, &transport), Err(TpmError::NotInitialized));
}

#[test]
fn pcr_reply_errors() {
    let mut failed = vec![0u8; 42];
    failed[6] = 1;
    assert_eq!(finish_read_pcr(Ok(failed)), Err(TpmError::CommandFailed));
    assert_eq!(finish_read_pcr(Ok(vec![0u8; 20])), Err(TpmError::InvalidResponse));
    assert_eq!(finish_read_pcr(Err(TpmError::Timeout)), Err(TpmError::Timeout));
    assert_eq!(finish_read_pcr(Ok(vec![0u8; 4])), Err(TpmError::InvalidResponse));
}

#[test]
fn sgx_features_and_enclaves() {
    let f = detect_sgx_features(true, 4);
    assert!(f.sgx1);
    assert!(SgxDriver::init(detect_sgx_features(false, 4)).is_none());
    let mut d = SgxDriver::init(f).unwrap();
    assert!(sgx::is_available(Some(&d)));
    let id = d.create_enclave(0x10000, 8192, 3, vec![0xAA; 32]).unwrap();
    assert_eq!(id, 1);
    assert_eq!(d.generate_attestation_report(id, &[1, 2]), Err(SgxError::EnclaveNotInitialized));
    assert_eq!(d.initialize_enclave(id, Some(&[0u8; 10])), Ok(false));
    assert_eq!(d.initialize_enclave(id, None), Ok(true));
    let report = d.generate_attestation_report(id, &[1, 2]).unwrap();
    assert_eq!(report.len(), sgx::REPORT_LEN);
    assert_eq!(&report[0..32], &[0xAA; 32]);
    assert_eq!(report[64], 3);
    assert_eq!(report[80], 1);
    assert_eq!(sgx::verify_attestation_report(&report, &[0xAA; 32]), Ok(true));
    assert_eq!(sgx::verify_attestation_report(&report, &[0xAB; 32]), Ok(false));
    assert_eq!(d.initialize_enclave(9, None), Err(SgxError::EnclaveNotFound));
}

#[test]
fn sgx_measurement_lists_page_addresses() {
    let m = measurement_data(0x1000, 5000);
    assert_eq!(m.len(), 16);
    assert_eq!(&m[0..8], &0x1000u64.to_le_bytes());
    assert_eq!(&m[8..16], &0x2000u64.to_le_bytes());
}

#[test]
fn ethernet_frames() {
    let mut e = EthernetDriver::new();
    let dst = MacAddress { bytes: [1, 2, 3, 4, 5, 6] };
    assert_eq!(e.send_packet(dst, ETHERTYPE_IP, &[0u8; 100]), Err(ethernet::DriverError::InitializationFailed));
    assert_eq!(e.receive_packet().unwrap_err(), ethernet::DriverError::InitializationFailed);
    assert!(e.probe(&device(0, 2, 0)));
    assert!(!e.probe(&device(0, 2, 1)));
    e.attach(&device(0, 2, 0)).unwrap();
    assert_eq!(e.get_mac_address().unwrap().bytes, [2, 0, 0, 0, 0, 1]);
    assert_eq!(e.send_packet(dst, ETHERTYPE_IP, &[0u8; 49]), Err(ethernet::DriverError::InvalidFrame));
    assert_eq!(e.send_packet(dst, ETHERTYPE_IP, &[0u8; 50]), Ok(()));
    assert_eq!(e.send_packet(dst, ETHERTYPE_IP, &[0u8; 1504]), Ok(()));
    assert_eq!(e.send_packet(dst, ETHERTYPE_IP, &[0u8; 1505]), Err(ethernet::DriverError::InvalidFrame));
    assert_eq!(e.receive_packet().unwrap_err(), ethernet::DriverError::NoData);
    let mut frame = vec![0xFFu8; 6];
    frame.extend_from_slice(&[9, 8, 7, 6, 5, 4, 0x08, 0x06, 42, 43]);
    e.deliver_frame(vec![1, 2, 3]);
    e.deliver_frame(frame);
    assert_eq!(e.receive_packet().unwrap_err(), ethernet::DriverError::InvalidFrame);
    let (src, ty, payload) = e.receive_packet().unwrap();
    assert_eq!(src.bytes, [9, 8, 7, 6, 5, 4]);
    assert_eq!(ty, 0x0806);
    assert_eq!(payload, vec![42, 43]);
    assert_eq!(e.name(), "ethernet");
    e.detach().unwrap();
    assert!(e.get_mac_address().is_none());
}

#[test]
fn sata_commands_and_sectors() {
    let mut s = SataDriver::new();
    assert_eq!(s.read_block_command(5, 512), Err(sata::DriverError::InitializationFailed));
    assert!(s.probe(&device(0, 1, 6)));
    s.attach(&device(0, 1, 6)).unwrap();
    assert_eq!(s.read_block_command(5, 511), Err(sata::DriverError::IOError));
    assert_eq!(
        s.read_block_command(0x0A0B_0C0D, 512),
        Ok(SataCommand { sector_count: 1, lba_low: 0x0D, lba_mid: 0x0C, lba_high: 0x0B, device: 0xEA, command: 0x20 })
    );
    let mut buf = vec![0u8; 512];
    buf[0] = 0x34;
    buf[1] = 0x12;
    let (cmd, words) = s.write_block_command(1, &buf).unwrap();
    assert_eq!(cmd.command, 0x30);
    assert_eq!(words.len(), 256);
    assert_eq!(words[0], 0x1234);
    let mut out = vec![0xEEu8; 600];
    sata::store_sector(&words, &mut out);
    assert_eq!(&out[0..2], &[0x34, 0x12]);
    assert_eq!(out[2], 0);
    assert_eq!(out[599], 0xEE);
    assert!(sata::drive_ready(0x08));
    assert!(!sata::drive_ready(0x88));
    assert!(sata::data_wait_over(0x01));
    assert!(!sata::data_wait_over(0x00));
    s.detach().unwrap();
    assert_eq!(s.write_block_command(1, &buf).unwrap_err(), sata::DriverError::InitializationFailed);
}

#[test]
fn nvme_blocks_and_registers() {
    let mut n = NvmeDriver::new();
    let mut buf = vec![7u8; 4096];
    assert_eq!(n.read_block(0, &mut buf), Err(nvme::DriverError::InitializationFailed));
    assert_eq!(buf[0], 7);
    assert_eq!(n.attach(&device(0, 1, 8), None, true), Err(nvme::DriverError::DeviceNotFound));
    assert_eq!(n.attach(&device(0, 1, 8), Some(0xFE00_0000), false), Err(nvme::DriverError::InitializationFailed));
    assert_eq!(n.attach(&device(0, 1, 8), Some(0xFE00_0000), true), Ok(()));
    let mut small = vec![7u8; 100];
    assert_eq!(n.read_block(0, &mut small), Err(nvme::DriverError::IOError));
    assert_eq!(n.read_block(0, &mut buf), Ok(()));
    assert!(buf.iter().all(|b| *b == 0));
    assert_eq!(n.write_block(0, &buf), Ok(()));
    assert_eq!(nvme::enable_config(0x40), 0x41);
    assert_eq!(nvme::disable_config(0x41), 0x40);
    assert!(nvme::controller_ready(1));
    assert_eq!(nvme::max_queue_entries(0x1_0000_03FF), 0x400);
    assert!(n.probe(&device(0, 1, 8)));
    n.detach().unwrap();
    assert_eq!(n.write_block(0, &buf), Err(nvme::DriverError::InitializationFailed));
}
