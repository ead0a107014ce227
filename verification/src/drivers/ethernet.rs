//! The Ethernet driver: frame-size checks on sending, header parsing on
//! receiving, and the controller's life cycle. Frames travel through the
//! embedding code's rings; received frames are handed to
//! [`EthernetDriver::deliver_frame`].

use vstd::prelude::*;
use std::collections::VecDeque;
use crate::drivers::device::Device;

verus! {

/// EtherType of IPv4.
pub const ETHERTYPE_IP: u16 = 0x0800;

/// EtherType of ARP.
pub const ETHERTYPE_ARP: u16 = 0x0806;

/// Length of the Ethernet header.
pub const HEADER_SIZE: usize = 14;

/// Smallest Ethernet frame.
pub const MIN_FRAME_SIZE: usize = 64;

/// Largest Ethernet frame without a VLAN tag.
pub const MAX_FRAME_SIZE: usize = 1518;

/// An Ethernet MAC address.
#[derive(Clone, Copy, Debug)]
pub struct MacAddress {
    pub bytes: [u8; 6],
}

/// An Ethernet header.
#[derive(Clone, Copy, Debug)]
pub struct EthernetHeader {
    pub dst_mac: [u8; 6],
    pub src_mac: [u8; 6],
    pub ethertype: u16,
}

/// Why the Ethernet driver failed.
#[derive(Clone, Copy, PartialEq, Eq, Structural, Debug)]
pub enum DriverError {
    DeviceNotFound,
    InitializationFailed,
    IOError,
    InvalidFrame,
    NoData,
}

/// The MAC address the controller is given when attached.
pub open spec fn default_mac() -> Seq<u8> {
    seq![0x02u8, 0x00u8, 0x00u8, 0x00u8, 0x00u8, 0x01u8]
}

/// The Ethernet driver.
pub struct EthernetDriver {
    device: Option<Device>,
    initialized: bool,
    mac_address: Option<MacAddress>,
    receive_queue: VecDeque<Vec<u8>>,
}

impl EthernetDriver {
    /// Whether the controller is running.
    pub closed spec fn is_initialized(&self) -> bool {
        self.initialized
    }

    /// The device the driver is attached to.
    pub closed spec fn device(&self) -> Option<Device> {
        self.device
    }

    /// The controller's MAC address, if it has one.
    pub closed spec fn mac(&self) -> Option<Seq<u8>> {
        match self.mac_address {
            Some(m) => Some(m.bytes@),
            None => None,
        }
    }

    /// The received frames not yet taken, oldest first.
    pub closed spec fn queue(&self) -> Seq<Seq<u8>> {
        self.receive_queue@.map_values(|f: Vec<u8>| f@)
    }

    pub fn new() -> (d: Self)
        ensures
            !d.is_initialized(),
            d.device() is None,
            d.mac() is None,
            d.queue().len() == 0,
    {
        EthernetDriver {
            device: None,
            initialized: false,
            mac_address: None,
            receive_queue: VecDeque::new(),
        }
    }

    /// Sends `data` to `dst_mac` as `ethertype`: refused before the
    /// controller runs, and for a frame (header and data) outside 64 to
    /// 1518 bytes.
    pub fn send_packet(&mut self, dst_mac: MacAddress, ethertype: u16, data: &[u8]) -> (r: Result<
        (),
        DriverError,
    >)
        ensures
            *final(self) == *old(self),
            r == if !old(self).is_initialized() {
                Err(DriverError::InitializationFailed)
            } else if data@.len() + HEADER_SIZE < MIN_FRAME_SIZE || data@.len() + HEADER_SIZE
                > MAX_FRAME_SIZE {
                Err(DriverError::InvalidFrame)
            } else {
                Ok(())
            },
    {
        if !self.initialized {
            return Err(DriverError::InitializationFailed);
        }
        if data.len() < MIN_FRAME_SIZE - HEADER_SIZE || data.len() > MAX_FRAME_SIZE - HEADER_SIZE {
            return Err(DriverError::InvalidFrame);
        }
        Ok(())
    }

    /// Queues a frame that arrived on the receive ring.
    pub fn deliver_frame(&mut self, frame: Vec<u8>)
        ensures
            final(self).queue() == old(self).queue().push(frame@),
            final(self).is_initialized() == old(self).is_initialized(),
            final(self).mac() == old(self).mac(),
            final(self).device() == old(self).device(),
    {
        let ghost f = frame@;
        self.receive_queue.push_back(frame);
        proof {
            assert(self.queue() =~= old(self).queue().push(f));
        }
    }

    /// Takes the oldest received frame and splits it into source address,
    /// EtherType (big-endian) and payload: refused before the controller
    /// runs; nothing when no frame waits; a frame shorter than a header is
    /// dropped as invalid.
    pub fn receive_packet(&mut self) -> (r: Result<(MacAddress, u16, Vec<u8>), DriverError>)
        ensures
            final(self).is_initialized() == old(self).is_initialized(),
            final(self).mac() == old(self).mac(),
            final(self).device() == old(self).device(),
            !old(self).is_initialized() ==> r == Err::<(MacAddress, u16, Vec<u8>), DriverError>(
                DriverError::InitializationFailed,
            ) && final(self).queue() == old(self).queue(),
            old(self).is_initialized() && old(self).queue().len() == 0 ==> r == Err::<
                (MacAddress, u16, Vec<u8>),
                DriverError,
            >(DriverError::NoData) && final(self).queue() == old(self).queue(),
            old(self).is_initialized() && old(self).queue().len() > 0 ==> {
                let f = old(self).queue()[0];
                &&& final(self).queue() == old(self).queue().drop_first()
                &&& f.len() < HEADER_SIZE ==> r == Err::<(MacAddress, u16, Vec<u8>), DriverError>(
                    DriverError::InvalidFrame,
                )
                &&& f.len() >= HEADER_SIZE ==> (r matches Ok((mac, t, payload)) && mac.bytes@
                    == f.subrange(6, 12) && t == f[12] * 256 + f[13] && payload@ == f.subrange(
                    14,
                    f.len() as int,
                ))
            },
    {
        if !self.initialized {
            return Err(DriverError::InitializationFailed);
        }
        let ghost q = self.queue();
        let packet = match self.receive_queue.pop_front() {
            Some(p) => p,
            None => {
                return Err(DriverError::NoData);
            },
        };
        proof {
            assert(self.queue() =~= q.drop_first());
            assert(packet@ == q[0]);
        }
        if packet.len() < HEADER_SIZE {
            return Err(DriverError::InvalidFrame);
        }
        let src_mac = MacAddress { bytes: [packet[6], packet[7], packet[8], packet[9], packet[10], packet[11]] };
        assert(src_mac.bytes@ =~= packet@.subrange(6, 12));
        let ethertype = ((packet[12] as u16) << 8) | (packet[13] as u16);
        let (hi, lo) = (packet[12], packet[13]);
        assert(((hi as u16) << 8) | (lo as u16) == hi * 256 + lo) by (bit_vector);
        let mut payload: Vec<u8> = Vec::new();
        let mut i: usize = HEADER_SIZE;
        while i < packet.len()
            invariant
                HEADER_SIZE <= i <= packet@.len(),
                payload@ == packet@.subrange(14, i as int),
            decreases packet.len() - i,
        {
            payload.push(packet[i]);
            i = i + 1;
        }
        Ok((src_mac, ethertype, payload))
    }

    /// The controller's MAC address, if attached.
    pub fn get_mac_address(&self) -> (r: Option<MacAddress>)
        ensures
            match r {
                Some(m) => self.mac() == Some(m.bytes@),
                None => self.mac() is None,
            },
    {
        self.mac_address
    }

    /// The driver's name.
    pub fn name(&self) -> (s: &'static str)
        ensures
            s@ == seq!['e', 't', 'h', 'e', 'r', 'n', 'e', 't'],
    {
        proof {
            reveal_strlit("ethernet");
        }
        "ethernet"
    }

    /// Whether `device` is an Ethernet controller.
    pub fn probe(&self, device: &Device) -> (r: bool)
        ensures
            r == (device.class == 0x02 && device.subclass == 0x00),
    {
        device.class == 0x02 && device.subclass == 0x00
    }

    /// Attaches to `device`: the controller gets its MAC address and runs.
    pub fn attach(&mut self, device: &Device) -> (r: Result<(), DriverError>)
        ensures
            r is Ok,
            final(self).device() == Some(*device),
            final(self).mac() == Some(default_mac()),
            final(self).is_initialized(),
            final(self).queue() == old(self).queue(),
    {
        self.device = Some(*device);
        let m = MacAddress { bytes: [0x02, 0x00, 0x00, 0x00, 0x00, 0x01] };
        assert(m.bytes@ =~= default_mac());
        self.mac_address = Some(m);
        self.initialized = true;
        Ok(())
    }

    /// Detaches: received frames are dropped and the controller stops.
    pub fn detach(&mut self) -> (r: Result<(), DriverError>)
        ensures
            r is Ok,
            final(self).device() is None,
            final(self).mac() is None,
            !final(self).is_initialized(),
            final(self).queue().len() == 0,
    {
        self.receive_queue = VecDeque::new();
        self.initialized = false;
        self.device = None;
        self.mac_address = None;
        Ok(())
    }
}

} // verus!
