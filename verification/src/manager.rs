//! The device manager: the registry, the run flag of the discovery
//! workers, and the command sequence counter of the subscription codec.
//!
//! The manager builds each outgoing command as one datagram and hands the
//! bytes to the caller, who owns the socket; the destination port is
//! `subscription_port()`. Sequence numbers start at zero and wrap at
//! 2^16.

use vstd::prelude::*;
use crate::codec::build_envelope;
use crate::codec::bytes_of;
use crate::codec::clear_payload;
use crate::codec::envelope_bytes;
use crate::codec::spec_clear_payload;
use crate::codec::spec_subscription_payload;
use crate::codec::subscription_payload;
use crate::events::EventOutcome;
use crate::events::MdnsEvent;
use crate::registry::DanteDeviceList;
use crate::version::DanteVersion;

verus! {

/// The sequence number that follows `s`: one more, wrapping at 2^16.
pub open spec fn spec_next_seq(s: u16) -> u16 {
    if s == 0xFFFF {
        0u16
    } else {
        (s + 1) as u16
    }
}

/// Law: sequence numbers of successive commands differ by one modulo
/// 2^16.
pub proof fn lemma_next_seq_step(s: u16)
    ensures
        spec_next_seq(s) as int == (s as int + 1) % 0x10000,
{
}

/// Raised when the subscription datagram cannot be delivered.
#[derive(Clone, Copy, PartialEq, Eq, Structural, Debug)]
pub enum MakeSubscriptionError {
    ConnectionFailed,
}

impl MakeSubscriptionError {
    /// A short description of the error.
    pub fn message(&self) -> (r: String)
        ensures
            r@ == "error sending udp packet"@,
    {
        "error sending udp packet".to_owned()
    }
}

/// Raised when the clear-subscription datagram cannot be delivered.
#[derive(Clone, Copy, PartialEq, Eq, Structural, Debug)]
pub enum ClearSubscriptionError {
    ConnectionFailed,
}

impl ClearSubscriptionError {
    /// A short description of the error.
    pub fn message(&self) -> (r: String)
        ensures
            r@ == "error sending udp packet"@,
    {
        "error sending udp packet".to_owned()
    }
}

/// The manager of the discovered devices and of the subscription
/// commands.
pub struct DanteDeviceManager {
    pub device_list: DanteDeviceList,
    pub running: bool,
    pub current_command_sequence_id: u16,
}

impl DanteDeviceManager {
    /// The registry is well formed and every present device has a presence
    /// bit: the manager only ever mutates the registry through the event
    /// appliers, which preserve both.
    pub open spec fn wf(self) -> bool {
        self.device_list.wf() && self.device_list.presence_ok()
    }

    /// A fresh manager: no devices, discovery stopped, sequence number
    /// zero.
    pub fn new() -> (r: Self)
        ensures
            r.wf(),
            !r.running,
            r.current_command_sequence_id == 0,
            r.device_list.devices@ == Map::<Seq<char>, crate::registry::DeviceStatus>::empty(),
    {
        DanteDeviceManager {
            device_list: DanteDeviceList::new(),
            running: false,
            current_command_sequence_id: 0,
        }
    }

    /// Raises the run flag. The caller starts one worker per service
    /// category; each worker feeds events to the appliers below while
    /// `is_running` stays true.
    pub fn start_discovery(&mut self)
        ensures
            final(self).running,
            final(self).device_list == old(self).device_list,
            final(self).current_command_sequence_id == old(self).current_command_sequence_id,
    {
        self.running = true;
    }

    /// Lowers the run flag; the workers observe it and stop.
    pub fn stop_discovery(&mut self)
        ensures
            !final(self).running,
            final(self).device_list == old(self).device_list,
            final(self).current_command_sequence_id == old(self).current_command_sequence_id,
    {
        self.running = false;
    }

    /// True while discovery runs.
    pub fn is_running(&self) -> (r: bool)
        ensures
            r == self.running,
    {
        self.running
    }

    /// Applies one DBC browser event to the registry.
    pub fn apply_dbc_event(&mut self, event: &MdnsEvent) -> (r: EventOutcome)
        requires
            old(self).wf(),
        ensures
            final(self).wf(),
            final(self).running == old(self).running,
            final(self).current_command_sequence_id == old(self).current_command_sequence_id,
    {
        self.device_list.apply_dbc_event(event)
    }

    /// Applies one CMC browser event to the registry.
    pub fn apply_cmc_event(&mut self, event: &MdnsEvent) -> (r: EventOutcome)
        requires
            old(self).wf(),
        ensures
            final(self).wf(),
            final(self).running == old(self).running,
            final(self).current_command_sequence_id == old(self).current_command_sequence_id,
    {
        self.device_list.apply_cmc_event(event)
    }

    /// Applies one ARC browser event to the registry.
    pub fn apply_arc_event(&mut self, event: &MdnsEvent) -> (r: EventOutcome)
        requires
            old(self).wf(),
        ensures
            final(self).wf(),
            final(self).running == old(self).running,
            final(self).current_command_sequence_id == old(self).current_command_sequence_id,
    {
        self.device_list.apply_arc_event(event)
    }

    /// Applies one channel browser event to the registry.
    pub fn apply_chan_event(&mut self, event: &MdnsEvent) -> (r: EventOutcome)
        requires
            old(self).wf(),
        ensures
            final(self).wf(),
            final(self).running == old(self).running,
            final(self).current_command_sequence_id == old(self).current_command_sequence_id,
    {
        self.device_list.apply_chan_event(event)
    }

    /// The names of the present devices, in the order of first discovery.
    pub fn get_device_names(&self) -> (r: Vec<String>)
        requires
            self.wf(),
        ensures
            r@.len() == self.device_list.names@.len(),
            forall|i: int| 0 <= i < r@.len() ==> (#[trigger] r@[i])@ == self.device_list.names@[i]@,
            forall|i: int|
                0 <= i < r@.len() ==> self.device_list.devices@.contains_key((#[trigger] r@[i])@),
            forall|k: Seq<char>|
                self.device_list.devices@.contains_key(k) ==> exists|i: int|
                    0 <= i < r@.len() && (#[trigger] r@[i])@ == k,
    {
        let names: &Vec<String> = &self.device_list.names;
        let mut r: Vec<String> = Vec::new();
        let mut i: usize = 0;
        while i < names.len()
            invariant
                0 <= i <= names@.len(),
                r@.len() == i,
                forall|j: int| 0 <= j < i ==> (#[trigger] r@[j])@ == names@[j]@,
            decreases names@.len() - i,
        {
            r.push(names[i].clone());
            i = i + 1;
        }
        proof {
            assert forall|k: Seq<char>| self.device_list.devices@.contains_key(k) implies exists|
                i: int,
            | 0 <= i < r@.len() && (#[trigger] r@[i])@ == k by {
                let i = choose|i: int|
                    0 <= i < self.device_list.names@.len() && (
                    #[trigger] self.device_list.names@[i])@ == k;
                assert(r@[i]@ == k);
            }
        }
        r
    }

    /// Hands out the current sequence number and advances the counter,
    /// wrapping at 2^16.
    fn get_new_command_sequence_id(&mut self) -> (r: u16)
        ensures
            r == old(self).current_command_sequence_id,
            final(self).current_command_sequence_id == spec_next_seq(
                old(self).current_command_sequence_id,
            ),
            final(self).device_list == old(self).device_list,
            final(self).running == old(self).running,
    {
        let return_id = self.current_command_sequence_id;
        if self.current_command_sequence_id == 0xFFFF {
            self.current_command_sequence_id = 0;
        } else {
            self.current_command_sequence_id = self.current_command_sequence_id + 1;
        }
        return_id
    }

    /// Wraps a command payload in the envelope, stamping it with the next
    /// sequence number.
    fn make_dante_command(&mut self, command: [u8; 2], command_args: &bytes::BytesMut) -> (r: Vec<
        u8,
    >)
        requires
            bytes_of(*command_args).len() + 10 <= 65535,
        ensures
            r@ == envelope_bytes(
                old(self).current_command_sequence_id,
                command@,
                bytes_of(*command_args),
            ),
            final(self).current_command_sequence_id == spec_next_seq(
                old(self).current_command_sequence_id,
            ),
            final(self).device_list == old(self).device_list,
            final(self).running == old(self).running,
    {
        let seq_id = self.get_new_command_sequence_id();
        build_envelope(seq_id, command, command_args)
    }

    /// Builds the datagram of a "set subscription" command: the receiver's
    /// channel `rx_channel_id` is directed to consume the transmitter's
    /// channel `tx_channel` on device `tx_device`. The caller sends the
    /// bytes to the receiver's IP at `subscription_port()`.
    pub fn make_subscription(
        &mut self,
        version: &DanteVersion,
        rx_channel_id: u16,
        tx_device: &[u8],
        tx_channel: &[u8],
    ) -> (r: Vec<u8>)
        requires
            tx_device@.len() + tx_channel@.len() + 334 <= 65535,
        ensures
            r@ == envelope_bytes(
                old(self).current_command_sequence_id,
                version.spec_command_subscription(),
                spec_subscription_payload(*version, rx_channel_id, tx_device@, tx_channel@),
            ),
            final(self).current_command_sequence_id == spec_next_seq(
                old(self).current_command_sequence_id,
            ),
            final(self).device_list == old(self).device_list,
            final(self).running == old(self).running,
    {
        let command_buffer = subscription_payload(version, rx_channel_id, tx_device, tx_channel);
        proof {
            assert(bytes_of(command_buffer).len() <= 324 + tx_device@.len() + tx_channel@.len());
        }
        let commands = version.get_commands();
        self.make_dante_command(commands.command_subscription, &command_buffer)
    }

    /// Builds the datagram of a "clear subscription" command for the
    /// receiver's channel `rx_channel_id`. The caller sends the bytes to
    /// the receiver's IP at `subscription_port()`.
    pub fn clear_subscription(&mut self, version: &DanteVersion, rx_channel_id: u16) -> (r: Vec<
        u8,
    >)
        ensures
            r@ == envelope_bytes(
                old(self).current_command_sequence_id,
                version.spec_command_subscription(),
                spec_clear_payload(*version, rx_channel_id),
            ),
            final(self).current_command_sequence_id == spec_next_seq(
                old(self).current_command_sequence_id,
            ),
            final(self).device_list == old(self).device_list,
            final(self).running == old(self).running,
    {
        let command_buffer = clear_payload(version, rx_channel_id);
        proof {
            assert(bytes_of(command_buffer).len() <= 322);
        }
        let commands = version.get_commands();
        self.make_dante_command(commands.command_subscription, &command_buffer)
    }
}

impl Default for DanteDeviceManager {
    /// The manager `new` builds.
    fn default() -> (r: Self)
        ensures
            r.wf(),
            !r.running,
            r.current_command_sequence_id == 0,
    {
        DanteDeviceManager::new()
    }
}

} // verus!
