use vstd::prelude::*;

use crate::flash::FlashOperation;
use crate::led::LightingOperation;
use crate::split::determine::{advertiser_is_master, connector_is_master};

verus! {

/// The battery service as the host sees it: the battery level it serves.
#[derive(Clone, Copy, Debug)]
pub struct BatteryService {
    /// Charge in percent.
    pub battery_level: u8,
}

/// The device information service; it serves no characteristic yet.
#[derive(Clone, Copy, Debug)]
pub struct DeviceInformationService {}

/// The service through which the two halves decide which one is the
/// master: the advertising half serves it, the connecting half writes its
/// random number to it and reads the decision back.
#[derive(Clone, Copy, Debug)]
pub struct MasterService {
    /// The random number the other half wrote.
    pub other_random_number: u32,
    /// Whether the serving half is the master.
    pub is_master: bool,
}

/// A write to the master service.
#[derive(Clone, Copy, Debug)]
pub enum MasterServiceEvent {
    OtherRandomNumberWrite(u32),
}

impl MasterService {
    /// The service before the other half wrote anything.
    pub fn new() -> (service: Self)
        ensures
            service.other_random_number == 0,
            !service.is_master,
    {
        MasterService { other_random_number: 0, is_master: false }
    }

    /// Handles a write, on the half that drew `random_number`: the other
    /// half's number is recorded, and this half is the master when its own
    /// number is the larger one; the decision is served for the other half
    /// to read and returned.
    pub fn on_event(&mut self, random_number: u32, event: MasterServiceEvent) -> (is_master: bool)
        ensures
            match event {
                MasterServiceEvent::OtherRandomNumberWrite(other) => {
                    &&& is_master == (random_number > other)
                    &&& final(self).other_random_number == other
                    &&& final(self).is_master == is_master
                },
            },
    {
        match event {
            MasterServiceEvent::OtherRandomNumberWrite(other) => {
                let is_master = advertiser_is_master(random_number, other);
                self.other_random_number = other;
                self.is_master = is_master;
                is_master
            },
        }
    }
}

/// The other half's master service, as the connecting half uses it: the
/// number it wrote and the decision it read back.
#[derive(Clone, Copy, Debug)]
pub struct MasterServiceClient {
    pub other_random_number: u32,
    pub is_master: bool,
}

impl MasterServiceClient {
    /// Whether the connecting half is the master: it is when the other half
    /// is not.
    pub fn this_half_is_master(&self) -> (is_master: bool)
        ensures
            is_master == !self.is_master,
    {
        connector_is_master(self.is_master)
    }
}

/// The server that the advertising half runs while the halves decide which
/// one is the master.
#[derive(Clone, Copy, Debug)]
pub struct MasterServer {
    pub master_service: MasterService,
}

/// Whatever random numbers the halves draw, exactly one of them becomes
/// the master: the advertising half decides as `MasterService::on_event`
/// leaves its service, and the connecting half decides, as
/// `MasterServiceClient::this_half_is_master` does, from the decision it
/// read back from that service.
pub proof fn lemma_exactly_one_master(
    served: MasterService,
    client: MasterServiceClient,
    advertiser_number: u32,
    connector_number: u32,
)
    requires
        served.other_random_number == connector_number,
        served.is_master == (advertiser_number > connector_number),
        client.other_random_number == connector_number,
        client.is_master == served.is_master,
    ensures
        served.is_master != !client.is_master,
        served.is_master <==> advertiser_number > connector_number,
{
}

/// The service through which the slave reports its key state.
#[derive(Clone, Copy, Debug)]
pub struct KeyStateService {
    pub key_state: u64,
}

/// The master's key state service, as the slave writes it.
#[derive(Clone, Copy, Debug)]
pub struct KeyStateServiceClient {
    pub key_state: u64,
}

/// The service through which settings operations reach the other half:
/// the last operation written, if any.
#[derive(Clone, Copy, Debug)]
pub struct FlashService<B> {
    pub flash_operation: Option<FlashOperation<B>>,
}

/// The other half's settings service, as this half writes it.
#[derive(Clone, Copy, Debug)]
pub struct FlashServiceClient<B> {
    pub flash_operation: Option<FlashOperation<B>>,
}

/// The service through which lighting operations reach the other half.
#[derive(Clone, Copy, Debug)]
pub struct LightingService {
    pub lighting_operation: Option<LightingOperation>,
}

/// The other half's lighting service, as this half writes it.
#[derive(Clone, Copy, Debug)]
pub struct LightingServiceClient {
    pub lighting_operation: Option<LightingOperation>,
}

/// The service through which keyboard events reach the other half.
#[derive(Clone, Copy, Debug)]
pub struct EventService<E> {
    pub event: Option<E>,
}

/// The other half's event service, as this half writes it.
#[derive(Clone, Copy, Debug)]
pub struct EventServiceClient<E> {
    pub event: Option<E>,
}

/// The server that the master runs for the slave.
#[derive(Clone, Copy, Debug)]
pub struct CommunicationServer<B, E> {
    pub key_state_service: KeyStateService,
    pub flash_service: FlashService<B>,
    pub lighting_service: LightingService,
    pub event_service: EventService<E>,
}

/// A write of the slave to the master's communication server.
#[derive(Clone, Copy, Debug)]
pub enum CommunicationServerEvent<B, E> {
    KeyStateWrite(u64),
    FlashOperationWrite(FlashOperation<B>),
    LightingOperationWrite(LightingOperation),
    EventWrite(E),
}

/// What the master does after a write of the slave.
#[derive(Clone, Copy, Debug)]
pub enum ServerStep<B> {
    /// Stops serving and takes this key state of the slave.
    KeyState(u64),
    /// Hands this operation to the settings task and keeps serving.
    Flash(FlashOperation<B>),
    /// Hands this operation to the lighting task and keeps serving.
    Lighting(LightingOperation),
    /// Keeps serving.
    Continue,
}

impl<B: Copy, E: Copy> CommunicationServer<B, E> {
    /// A server to which nothing was written yet.
    pub fn new() -> (server: Self)
        ensures
            server.key_state_service.key_state == 0,
            server.flash_service.flash_operation is None,
            server.lighting_service.lighting_operation is None,
            server.event_service.event is None,
    {
        CommunicationServer {
            key_state_service: KeyStateService { key_state: 0 },
            flash_service: FlashService { flash_operation: None },
            lighting_service: LightingService { lighting_operation: None },
            event_service: EventService { event: None },
        }
    }

    /// Handles a write of the slave: the written characteristic takes the
    /// value; a key state ends the serving, settings and lighting operations
    /// are handed on, and events are taken no further.
    pub fn on_event(&mut self, event: CommunicationServerEvent<B, E>) -> (step: ServerStep<B>)
        ensures
            match event {
                CommunicationServerEvent::KeyStateWrite(key_state) => {
                    &&& step == ServerStep::<B>::KeyState(key_state)
                    &&& *final(self) == (CommunicationServer {
                        key_state_service: KeyStateService { key_state },
                        ..*old(self)
                    })
                },
                CommunicationServerEvent::FlashOperationWrite(operation) => {
                    &&& step == ServerStep::Flash(operation)
                    &&& *final(self) == (CommunicationServer {
                        flash_service: FlashService { flash_operation: Some(operation) },
                        ..*old(self)
                    })
                },
                CommunicationServerEvent::LightingOperationWrite(operation) => {
                    &&& step == ServerStep::<B>::Lighting(operation)
                    &&& *final(self) == (CommunicationServer {
                        lighting_service: LightingService { lighting_operation: Some(operation) },
                        ..*old(self)
                    })
                },
                CommunicationServerEvent::EventWrite(written) => {
                    &&& step == ServerStep::<B>::Continue
                    &&& *final(self) == (CommunicationServer {
                        event_service: EventService { event: Some(written) },
                        ..*old(self)
                    })
                },
            },
    {
        match event {
            CommunicationServerEvent::KeyStateWrite(key_state) => {
                self.key_state_service = KeyStateService { key_state };
                ServerStep::KeyState(key_state)
            },
            CommunicationServerEvent::FlashOperationWrite(operation) => {
                self.flash_service = FlashService { flash_operation: Some(operation) };
                ServerStep::Flash(operation)
            },
            CommunicationServerEvent::LightingOperationWrite(operation) => {
                self.lighting_service = LightingService { lighting_operation: Some(operation) };
                ServerStep::Lighting(operation)
            },
            CommunicationServerEvent::EventWrite(written) => {
                self.event_service = EventService { event: Some(written) };
                ServerStep::Continue
            },
        }
    }
}

} // verus!
