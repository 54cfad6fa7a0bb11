//! Sending the paste keystroke: the byte layout of input events, the steps
//! of each way of sending them, and the order in which the ways are tried.

use vstd::prelude::*;
use vstd::string::*;
use crate::outside::native_bytes_u16;

verus! {

/// Event type of a synchronisation marker.
pub const EV_SYN: u16 = 0x00;

/// Event type of a key press or release.
pub const EV_KEY: u16 = 0x01;

/// Code of the synchronisation report.
pub const SYN_REPORT: u16 = 0x00;

/// Key code of the left control key.
pub const KEY_LEFTCTRL: u16 = 29;

/// Key code of the letter V.
pub const KEY_V: u16 = 47;

/// Value of a key event for a press.
pub const KEY_PRESS: i32 = 1;

/// Value of a key event for a release.
pub const KEY_RELEASE: i32 = 0;

/// Device request that declares an event type.
pub const UI_SET_EVBIT: u64 = 0x40045564;

/// Device request that declares a key.
pub const UI_SET_KEYBIT: u64 = 0x40045565;

/// Device request that submits the descriptor.
pub const UI_DEV_SETUP: u64 = 0x405c5503;

/// Device request that creates the device.
pub const UI_DEV_CREATE: u64 = 0x5501;

/// Device request that destroys the device.
pub const UI_DEV_DESTROY: u64 = 0x5502;

/// Bus type in the descriptor: USB.
pub const BUS_USB: u16 = 0x03;

pub const VENDOR_ID: u16 = 0x1234;

pub const PRODUCT_ID: u16 = 0x5678;

pub const DEVICE_VERSION: u16 = 0x0001;

/// Bytes of one input event.
pub const EVENT_SIZE: usize = 24;

/// Bytes of the device descriptor.
pub const DESCRIPTOR_SIZE: usize = 92;

/// Bytes of the name field of the descriptor.
pub const NAME_FIELD_SIZE: usize = 80;

/// Milliseconds to wait before the first strategy is tried.
pub const FOCUS_DELAY_MS: u64 = 10;

/// Milliseconds to wait after the device was created and before it is
/// destroyed.
pub const DEVICE_DELAY_MS: u64 = 100;

/// Milliseconds between two keystrokes of the virtual device.
pub const DEVICE_KEY_DELAY_MS: u64 = 30;

/// Milliseconds between two keystrokes of the input library.
pub const LIBRARY_KEY_DELAY_MS: u64 = 20;

#[derive(Clone, Copy, Debug, PartialEq, Eq, Structural)]
pub enum ByteOrder {
    LittleEndian,
    BigEndian,
}

/// One input event as the device protocol has it.
#[derive(Clone, Copy, Debug, PartialEq, Eq, Structural)]
pub struct InputEvent {
    pub kind: u16,
    pub code: u16,
    pub value: i32,
}

/// A run of `n` zero bytes.
pub open spec fn zeros(n: nat) -> Seq<u8> {
    Seq::new(n, |i: int| 0u8)
}

/// The two bytes of a 16-bit number in the given order.
pub open spec fn u16_bytes(order: ByteOrder, x: u16) -> Seq<u8> {
    match order {
        ByteOrder::LittleEndian => seq![(x % 256) as u8, (x / 256) as u8],
        ByteOrder::BigEndian => seq![(x / 256) as u8, (x % 256) as u8],
    }
}

/// The four bytes of a 32-bit number in the given order.
pub open spec fn u32_bytes(order: ByteOrder, x: u32) -> Seq<u8> {
    match order {
        ByteOrder::LittleEndian => seq![
            (x % 256) as u8,
            (x / 0x100 % 256) as u8,
            (x / 0x1_0000 % 256) as u8,
            (x / 0x100_0000) as u8,
        ],
        ByteOrder::BigEndian => seq![
            (x / 0x100_0000) as u8,
            (x / 0x1_0000 % 256) as u8,
            (x / 0x100 % 256) as u8,
            (x % 256) as u8,
        ],
    }
}

/// The unsigned number with the bits of `v` in two's complement.
pub open spec fn twos_complement(v: i32) -> u32 {
    if v >= 0 {
        v as u32
    } else {
        (v + 0x1_0000_0000) as u32
    }
}

/// The 24 bytes of an event: sixteen bytes of time left zero, the type, the
/// code and the signed value.
pub open spec fn event_record(order: ByteOrder, event: InputEvent) -> Seq<u8> {
    zeros(16) + u16_bytes(order, event.kind) + u16_bytes(order, event.code) + u32_bytes(
        order,
        twos_complement(event.value),
    )
}

/// The name under which the virtual device registers.
pub open spec fn device_name() -> Seq<char> {
    "clipboard-paste-helper"@
}

/// The 92 bytes of the device descriptor: bus, vendor, product and version,
/// the name in a field of 80 bytes padded with zeros, and a zero count of
/// force-feedback effects.
pub open spec fn descriptor_record(order: ByteOrder) -> Seq<u8> {
    u16_bytes(order, BUS_USB) + u16_bytes(order, VENDOR_ID) + u16_bytes(order, PRODUCT_ID)
        + u16_bytes(order, DEVICE_VERSION) + name_field(NAME_FIELD_SIZE as nat) + u32_bytes(
        order,
        0,
    )
}

/// The first `n` bytes of the name field: the name, one byte for each of
/// its characters, then zeros.
pub open spec fn name_field(n: nat) -> Seq<u8> {
    Seq::new(
        n,
        |i: int|
            if i < device_name().len() {
                device_name()[i] as u8
            } else {
                0u8
            },
    )
}

/// Lays a 16-bit number out in the given byte order.
pub fn encode_u16(order: ByteOrder, x: u16) -> (bytes: [u8; 2])
    ensures
        bytes@ == u16_bytes(order, x),
{
    let low: u8 = (x % 256) as u8;
    let high: u8 = (x / 256) as u8;
    let bytes = match order {
        ByteOrder::LittleEndian => [low, high],
        ByteOrder::BigEndian => [high, low],
    };
    assert(bytes@ =~= u16_bytes(order, x));
    bytes
}

/// Lays a 32-bit number out in the given byte order.
pub fn encode_u32(order: ByteOrder, x: u32) -> (bytes: [u8; 4])
    ensures
        bytes@ == u32_bytes(order, x),
{
    let b0: u8 = (x % 256) as u8;
    let b1: u8 = (x / 0x100 % 256) as u8;
    let b2: u8 = (x / 0x1_0000 % 256) as u8;
    let b3: u8 = (x / 0x100_0000) as u8;
    let bytes = match order {
        ByteOrder::LittleEndian => [b0, b1, b2, b3],
        ByteOrder::BigEndian => [b3, b2, b1, b0],
    };
    assert(bytes@ =~= u32_bytes(order, x));
    bytes
}

/// The byte order of this machine, told from how it lays out the number one.
fn native_byte_order() -> (order: ByteOrder) {
    byte_order_of(native_bytes_u16(1))
}

/// The byte order that two bytes tell of when they are the layout of the
/// number one: little-endian where the one comes first, big-endian else.
pub open spec fn probed_order(probe: Seq<u8>) -> ByteOrder {
    if probe[0] == 1 {
        ByteOrder::LittleEndian
    } else {
        ByteOrder::BigEndian
    }
}

/// Tells the byte order from the two bytes that a machine gave for the
/// number one. Where the bytes are a layout of one, they are its layout in
/// the order told.
pub fn byte_order_of(probe: [u8; 2]) -> (order: ByteOrder)
    ensures
        order == probed_order(probe@),
        probe@ == u16_bytes(ByteOrder::LittleEndian, 1) || probe@ == u16_bytes(
            ByteOrder::BigEndian,
            1,
        ) ==> probe@ == u16_bytes(order, 1),
{
    if probe[0] == 1 {
        ByteOrder::LittleEndian
    } else {
        ByteOrder::BigEndian
    }
}

/// Lays an event out in the given byte order.
pub fn encode_event(order: ByteOrder, event: InputEvent) -> (record: [u8; 24])
    ensures
        record@ == event_record(order, event),
{
    let kind = encode_u16(order, event.kind);
    let code = encode_u16(order, event.code);
    let unsigned: u32 = if event.value >= 0 {
        event.value as u32
    } else {
        (event.value as i64 + 0x1_0000_0000) as u32
    };
    let value = encode_u32(order, unsigned);
    let mut record = [0u8; 24];
    record[16] = kind[0];
    record[17] = kind[1];
    record[18] = code[0];
    record[19] = code[1];
    record[20] = value[0];
    record[21] = value[1];
    record[22] = value[2];
    record[23] = value[3];
    assert(record@ =~= event_record(order, event));
    record
}

/// Lays an event out in the byte order of this machine.
pub fn make_event(kind: u16, code: u16, value: i32) -> (record: [u8; 24])
    ensures
        record@ == event_record(ByteOrder::LittleEndian, InputEvent { kind, code, value })
            || record@ == event_record(ByteOrder::BigEndian, InputEvent { kind, code, value }),
{
    encode_event(native_byte_order(), InputEvent { kind, code, value })
}

/// Lays the device descriptor out in the given byte order.
pub fn encode_descriptor(order: ByteOrder) -> (record: Vec<u8>)
    ensures
        record@ == descriptor_record(order),
        record@.len() == DESCRIPTOR_SIZE,
{
    let name = "clipboard-paste-helper";
    proof {
        reveal_strlit("clipboard-paste-helper");
    }
    let mut record: Vec<u8> = Vec::new();
    let bus = encode_u16(order, BUS_USB);
    let vendor = encode_u16(order, VENDOR_ID);
    let product = encode_u16(order, PRODUCT_ID);
    let version = encode_u16(order, DEVICE_VERSION);
    record.push(bus[0]);
    record.push(bus[1]);
    record.push(vendor[0]);
    record.push(vendor[1]);
    record.push(product[0]);
    record.push(product[1]);
    record.push(version[0]);
    record.push(version[1]);
    let ghost head = record@;
    assert(head =~= u16_bytes(order, BUS_USB) + u16_bytes(order, VENDOR_ID) + u16_bytes(
        order,
        PRODUCT_ID,
    ) + u16_bytes(order, DEVICE_VERSION));
    let mut field: Vec<u8> = Vec::new();
    let mut at: usize = 0;
    while at < NAME_FIELD_SIZE
        invariant
            at <= NAME_FIELD_SIZE,
            name@ == device_name(),
            name@.len() == 22,
            field@ == name_field(at as nat),
        decreases NAME_FIELD_SIZE - at,
    {
        if at < 22 {
            let c = name.get_char(at);
            field.push(c as u8);
        } else {
            field.push(0);
        }
        at = at + 1;
        assert(field@ =~= name_field(at as nat));
    }
    record.append(&mut field);
    let ghost body = record@;
    let tail = encode_u32(order, 0);
    record.push(tail[0]);
    record.push(tail[1]);
    record.push(tail[2]);
    record.push(tail[3]);
    assert(record@ =~= body + u32_bytes(order, 0));
    record
}

/// Lays the device descriptor out in the byte order of this machine.
pub fn make_descriptor() -> (record: Vec<u8>)
    ensures
        record@ == descriptor_record(ByteOrder::LittleEndian) || record@ == descriptor_record(
            ByteOrder::BigEndian,
        ),
        record@.len() == DESCRIPTOR_SIZE,
{
    encode_descriptor(native_byte_order())
}

/// One step of driving the virtual input device.
#[derive(Clone, Copy, Debug, PartialEq, Eq, Structural)]
pub enum DeviceStep {
    /// Open the device node for writing.
    Open,
    /// Declare that the device emits events of this type.
    EnableEventType { kind: u16 },
    /// Declare that the device emits this key.
    EnableKey { code: u16 },
    /// Submit the descriptor.
    Setup,
    /// Ask for the device to be created.
    Create,
    /// Wait.
    Settle { millis: u64 },
    /// Write one event.
    Emit { event: InputEvent },
    /// Flush what was written.
    Flush,
    /// Destroy the device. A failure of this step is not a failure of the
    /// strategy.
    Destroy,
}

/// The event of a key going down or up.
pub open spec fn key_event(code: u16, value: i32) -> InputEvent {
    InputEvent { kind: EV_KEY, code, value }
}

/// The event that closes a report.
pub open spec fn sync_event() -> InputEvent {
    InputEvent { kind: EV_SYN, code: SYN_REPORT, value: 0 }
}

/// One key event of the virtual device: the event, a synchronisation
/// marker, a flush, and a wait.
pub open spec fn device_keystroke(code: u16, value: i32, pause: u64) -> Seq<DeviceStep> {
    seq![
        DeviceStep::Emit { event: key_event(code, value) },
        DeviceStep::Emit { event: sync_event() },
        DeviceStep::Flush,
        DeviceStep::Settle { millis: pause },
    ]
}

/// The steps of the virtual device, in order: the device is configured and
/// created, control is pressed, V is pressed, V is released, control is
/// released, and the device is destroyed.
pub open spec fn device_plan() -> Seq<DeviceStep> {
    seq![
        DeviceStep::Open,
        DeviceStep::EnableEventType { kind: EV_KEY },
        DeviceStep::EnableKey { code: KEY_LEFTCTRL },
        DeviceStep::EnableKey { code: KEY_V },
        DeviceStep::Setup,
        DeviceStep::Create,
        DeviceStep::Settle { millis: DEVICE_DELAY_MS },
    ] + device_keystroke(KEY_LEFTCTRL, KEY_PRESS, DEVICE_KEY_DELAY_MS) + device_keystroke(
        KEY_V,
        KEY_PRESS,
        DEVICE_KEY_DELAY_MS,
    ) + device_keystroke(KEY_V, KEY_RELEASE, DEVICE_KEY_DELAY_MS) + device_keystroke(
        KEY_LEFTCTRL,
        KEY_RELEASE,
        DEVICE_DELAY_MS,
    ) + seq![DeviceStep::Destroy]
}

fn push_device_keystroke(plan: &mut Vec<DeviceStep>, code: u16, value: i32, pause: u64)
    ensures
        final(plan)@ == old(plan)@ + device_keystroke(code, value, pause),
{
    plan.push(DeviceStep::Emit { event: InputEvent { kind: EV_KEY, code, value } });
    plan.push(DeviceStep::Emit { event: InputEvent { kind: EV_SYN, code: SYN_REPORT, value: 0 } });
    plan.push(DeviceStep::Flush);
    plan.push(DeviceStep::Settle { millis: pause });
    assert(plan@ =~= old(plan)@ + device_keystroke(code, value, pause));
}

/// The steps of the virtual device.
pub fn virtual_device_plan() -> (plan: Vec<DeviceStep>)
    ensures
        plan@ == device_plan(),
{
    let mut plan: Vec<DeviceStep> = Vec::new();
    plan.push(DeviceStep::Open);
    plan.push(DeviceStep::EnableEventType { kind: EV_KEY });
    plan.push(DeviceStep::EnableKey { code: KEY_LEFTCTRL });
    plan.push(DeviceStep::EnableKey { code: KEY_V });
    plan.push(DeviceStep::Setup);
    plan.push(DeviceStep::Create);
    plan.push(DeviceStep::Settle { millis: DEVICE_DELAY_MS });
    assert(plan@ =~= seq![
        DeviceStep::Open,
        DeviceStep::EnableEventType { kind: EV_KEY },
        DeviceStep::EnableKey { code: KEY_LEFTCTRL },
        DeviceStep::EnableKey { code: KEY_V },
        DeviceStep::Setup,
        DeviceStep::Create,
        DeviceStep::Settle { millis: DEVICE_DELAY_MS },
    ]);
    push_device_keystroke(&mut plan, KEY_LEFTCTRL, KEY_PRESS, DEVICE_KEY_DELAY_MS);
    push_device_keystroke(&mut plan, KEY_V, KEY_PRESS, DEVICE_KEY_DELAY_MS);
    push_device_keystroke(&mut plan, KEY_V, KEY_RELEASE, DEVICE_KEY_DELAY_MS);
    push_device_keystroke(&mut plan, KEY_LEFTCTRL, KEY_RELEASE, DEVICE_DELAY_MS);
    let ghost before = plan@;
    plan.push(DeviceStep::Destroy);
    assert(plan@ =~= before + seq![DeviceStep::Destroy]);
    plan
}

/// The device request that a step makes, where it makes one.
pub open spec fn step_request(step: DeviceStep) -> Option<u64> {
    match step {
        DeviceStep::EnableEventType { .. } => Some(UI_SET_EVBIT),
        DeviceStep::EnableKey { .. } => Some(UI_SET_KEYBIT),
        DeviceStep::Setup => Some(UI_DEV_SETUP),
        DeviceStep::Create => Some(UI_DEV_CREATE),
        DeviceStep::Destroy => Some(UI_DEV_DESTROY),
        _ => None,
    }
}

/// The device request that a step makes, where it makes one.
pub fn device_request(step: DeviceStep) -> (request: Option<u64>)
    ensures
        request == step_request(step),
{
    match step {
        DeviceStep::EnableEventType { .. } => Some(UI_SET_EVBIT),
        DeviceStep::EnableKey { .. } => Some(UI_SET_KEYBIT),
        DeviceStep::Setup => Some(UI_DEV_SETUP),
        DeviceStep::Create => Some(UI_DEV_CREATE),
        DeviceStep::Destroy => Some(UI_DEV_DESTROY),
        _ => None,
    }
}

/// What is reported when a step of the virtual device fails.
pub open spec fn failure_text(step: DeviceStep) -> Seq<char> {
    match step {
        DeviceStep::Open => "Failed to open /dev/uinput"@,
        DeviceStep::EnableEventType { kind } => if kind == EV_KEY {
            "Failed to set EV_KEY"@
        } else {
            "Failed to set event type"@
        },
        DeviceStep::EnableKey { code } => if code == KEY_LEFTCTRL {
            "Failed to set KEY_LEFTCTRL"@
        } else if code == KEY_V {
            "Failed to set KEY_V"@
        } else {
            "Failed to set key"@
        },
        DeviceStep::Setup => "Failed to setup uinput device"@,
        DeviceStep::Create => "Failed to create uinput device"@,
        DeviceStep::Settle { .. } => "Failed to wait"@,
        DeviceStep::Emit { .. } => "Failed to write event"@,
        DeviceStep::Flush => "Failed to flush events"@,
        DeviceStep::Destroy => "Failed to destroy uinput device"@,
    }
}

/// The cause that is reported when a step of the virtual device fails: one
/// for each step that configures the device, so that the step can be told
/// from the cause.
pub fn device_failure(step: DeviceStep) -> (cause: &'static str)
    ensures
        cause@ == failure_text(step),
{
    match step {
        DeviceStep::Open => "Failed to open /dev/uinput",
        DeviceStep::EnableEventType { kind } => if kind == EV_KEY {
            "Failed to set EV_KEY"
        } else {
            "Failed to set event type"
        },
        DeviceStep::EnableKey { code } => if code == KEY_LEFTCTRL {
            "Failed to set KEY_LEFTCTRL"
        } else if code == KEY_V {
            "Failed to set KEY_V"
        } else {
            "Failed to set key"
        },
        DeviceStep::Setup => "Failed to setup uinput device",
        DeviceStep::Create => "Failed to create uinput device",
        DeviceStep::Settle { .. } => "Failed to wait",
        DeviceStep::Emit { .. } => "Failed to write event",
        DeviceStep::Flush => "Failed to flush events",
        DeviceStep::Destroy => "Failed to destroy uinput device",
    }
}

/// Whether the failure of a step is the failure of the strategy: it is, but
/// for the step that destroys the device.
pub fn step_is_fatal(step: DeviceStep) -> (fatal: bool)
    ensures
        fatal == !(step is Destroy),
{
    match step {
        DeviceStep::Destroy => false,
        _ => true,
    }
}

/// A key of the input library.
#[derive(Clone, Copy, Debug, PartialEq, Eq, Structural)]
pub enum SimulatedKey {
    Control,
    LetterV,
}

#[derive(Clone, Copy, Debug, PartialEq, Eq, Structural)]
pub enum KeyDirection {
    Press,
    Release,
}

/// One step of driving the input library.
#[derive(Clone, Copy, Debug, PartialEq, Eq, Structural)]
pub enum LibraryStep {
    /// Connect to the display server.
    Connect,
    /// Send one key event.
    Key { key: SimulatedKey, direction: KeyDirection },
    /// Wait.
    Settle { millis: u64 },
}

/// The steps of the input library, in order: control is pressed, V is
/// pressed, V is released, control is released, with a wait between them.
pub open spec fn library_plan() -> Seq<LibraryStep> {
    seq![
        LibraryStep::Connect,
        LibraryStep::Key { key: SimulatedKey::Control, direction: KeyDirection::Press },
        LibraryStep::Settle { millis: LIBRARY_KEY_DELAY_MS },
        LibraryStep::Key { key: SimulatedKey::LetterV, direction: KeyDirection::Press },
        LibraryStep::Settle { millis: LIBRARY_KEY_DELAY_MS },
        LibraryStep::Key { key: SimulatedKey::LetterV, direction: KeyDirection::Release },
        LibraryStep::Settle { millis: LIBRARY_KEY_DELAY_MS },
        LibraryStep::Key { key: SimulatedKey::Control, direction: KeyDirection::Release },
    ]
}

/// The steps of the input library.
pub fn input_library_plan() -> (plan: Vec<LibraryStep>)
    ensures
        plan@ == library_plan(),
{
    let mut plan: Vec<LibraryStep> = Vec::new();
    plan.push(LibraryStep::Connect);
    plan.push(LibraryStep::Key { key: SimulatedKey::Control, direction: KeyDirection::Press });
    plan.push(LibraryStep::Settle { millis: LIBRARY_KEY_DELAY_MS });
    plan.push(LibraryStep::Key { key: SimulatedKey::LetterV, direction: KeyDirection::Press });
    plan.push(LibraryStep::Settle { millis: LIBRARY_KEY_DELAY_MS });
    plan.push(LibraryStep::Key { key: SimulatedKey::LetterV, direction: KeyDirection::Release });
    plan.push(LibraryStep::Settle { millis: LIBRARY_KEY_DELAY_MS });
    plan.push(LibraryStep::Key { key: SimulatedKey::Control, direction: KeyDirection::Release });
    assert(plan@ =~= library_plan());
    plan
}

/// The command line of the key sender: the program, then its arguments.
pub open spec fn command_line() -> Seq<Seq<char>> {
    seq!["xdotool"@, "key"@, "--clearmodifiers"@, "ctrl+v"@]
}

/// The command line of the key sender.
pub fn key_command() -> (words: Vec<&'static str>)
    ensures
        words@.len() == command_line().len(),
        forall|i: int| 0 <= i < words@.len() ==> (#[trigger] words@[i])@ == command_line()[i],
{
    let mut words: Vec<&'static str> = Vec::new();
    words.push("xdotool");
    words.push("key");
    words.push("--clearmodifiers");
    words.push("ctrl+v");
    words
}

/// The environment variable whose presence tells that a display server can
/// be reached.
pub fn display_variable() -> (name: &'static str)
    ensures
        name@ == "DISPLAY"@,
{
    "DISPLAY"
}

/// A way of sending the keystroke. They are tried in this order.
#[derive(Clone, Copy, Debug, PartialEq, Eq, Structural)]
pub enum Strategy {
    /// A virtual input device.
    VirtualDevice,
    /// An input simulation library.
    InputLibrary,
    /// A command-line key sender.
    KeyCommand,
}

/// Where the chain of strategies stands.
#[derive(Clone, Copy, Debug, PartialEq, Eq, Structural)]
pub enum Stage {
    /// Waiting for the focus to settle.
    Settling,
    /// A strategy is being tried.
    Trying(Strategy),
    /// Looking for a display server.
    Probing,
    /// The keystroke was sent, or there is no way to send one here.
    Succeeded,
    /// Every strategy failed.
    Failed,
}

/// What is to be done next.
#[derive(Clone, Copy, Debug, PartialEq, Eq, Structural)]
pub enum InjectionAction {
    Settle { millis: u64 },
    Attempt(Strategy),
    ProbeDisplay,
    /// The paste is done.
    Succeed,
    /// The paste failed.
    Fail,
}

/// What came of the action.
#[derive(Debug)]
pub enum InjectionEvent {
    /// The wait is over.
    Settled,
    /// The strategy sent the keystroke.
    Succeeded,
    /// The strategy failed.
    Failed { detail: String },
    DisplayFound,
    DisplayMissing,
}

pub enum EventView {
    Settled,
    Succeeded,
    Failed { detail: Seq<char> },
    DisplayFound,
    DisplayMissing,
}

impl View for InjectionEvent {
    type V = EventView;

    open spec fn view(&self) -> EventView {
        match self {
            InjectionEvent::Settled => EventView::Settled,
            InjectionEvent::Succeeded => EventView::Succeeded,
            InjectionEvent::Failed { detail } => EventView::Failed { detail: detail@ },
            InjectionEvent::DisplayFound => EventView::DisplayFound,
            InjectionEvent::DisplayMissing => EventView::DisplayMissing,
        }
    }
}

/// A strategy that failed, and what it reported.
#[derive(Debug)]
pub struct InjectionCause {
    pub strategy: Strategy,
    pub detail: String,
}

pub struct CauseView {
    pub strategy: Strategy,
    pub detail: Seq<char>,
}

impl View for InjectionCause {
    type V = CauseView;

    open spec fn view(&self) -> CauseView {
        CauseView { strategy: self.strategy, detail: self.detail@ }
    }
}

/// The chain of strategies: where it stands and which strategies have
/// failed so far, in the order in which they were tried.
#[derive(Debug)]
pub struct InjectionState {
    pub stage: Stage,
    pub causes: Vec<InjectionCause>,
}

pub struct ChainView {
    pub stage: Stage,
    pub causes: Seq<CauseView>,
}

impl View for InjectionState {
    type V = ChainView;

    open spec fn view(&self) -> ChainView {
        ChainView {
            stage: self.stage,
            causes: self.causes@.map_values(|cause: InjectionCause| cause@),
        }
    }
}

/// The action that a stage waits for.
pub open spec fn pending(stage: Stage) -> InjectionAction {
    match stage {
        Stage::Settling => InjectionAction::Settle { millis: FOCUS_DELAY_MS },
        Stage::Trying(strategy) => InjectionAction::Attempt(strategy),
        Stage::Probing => InjectionAction::ProbeDisplay,
        Stage::Succeeded => InjectionAction::Succeed,
        Stage::Failed => InjectionAction::Fail,
    }
}

/// The stage after a strategy failed: the next strategy in order; before
/// the last one, the display server is looked for.
pub open spec fn after_failure(strategy: Strategy) -> Stage {
    match strategy {
        Strategy::VirtualDevice => Stage::Trying(Strategy::InputLibrary),
        Strategy::InputLibrary => Stage::Probing,
        Strategy::KeyCommand => Stage::Failed,
    }
}

/// The stage after an event. An event that does not answer the pending
/// action leaves the stage as it is.
pub open spec fn next_stage(stage: Stage, event: EventView) -> Stage {
    match stage {
        Stage::Settling => if event is Settled {
            Stage::Trying(Strategy::VirtualDevice)
        } else {
            stage
        },
        Stage::Trying(strategy) => if event is Succeeded {
            Stage::Succeeded
        } else if event is Failed {
            after_failure(strategy)
        } else {
            stage
        },
        Stage::Probing => if event is DisplayFound {
            Stage::Trying(Strategy::KeyCommand)
        } else if event is DisplayMissing {
            Stage::Failed
        } else {
            stage
        },
        Stage::Succeeded => stage,
        Stage::Failed => stage,
    }
}

impl ChainView {
    /// The chain before anything was tried. Where the platform has no way
    /// to inject input, the paste counts as done.
    pub open spec fn start(native: bool) -> ChainView {
        ChainView {
            stage: if native {
                Stage::Settling
            } else {
                Stage::Succeeded
            },
            causes: Seq::empty(),
        }
    }

    /// The chain after an event: the stage moves on, and the failure of a
    /// strategy is recorded.
    pub open spec fn step(self, event: EventView) -> ChainView {
        ChainView {
            stage: next_stage(self.stage, event),
            causes: if self.stage is Trying && event is Failed {
                self.causes.push(
                    CauseView { strategy: self.stage->Trying_0, detail: event->detail },
                )
            } else {
                self.causes
            },
        }
    }
}

/// The strategy that is tried in place `i`.
pub open spec fn strategy_at(i: int) -> Strategy {
    if i == 0 {
        Strategy::VirtualDevice
    } else if i == 1 {
        Strategy::InputLibrary
    } else {
        Strategy::KeyCommand
    }
}

/// How many strategies have failed when the chain stands at a stage that is
/// not final.
pub open spec fn failures_before(stage: Stage) -> int {
    match stage {
        Stage::Settling => 0,
        Stage::Trying(Strategy::VirtualDevice) => 0,
        Stage::Trying(Strategy::InputLibrary) => 1,
        Stage::Probing => 2,
        Stage::Trying(Strategy::KeyCommand) => 2,
        _ => 0,
    }
}

impl ChainView {
    /// What holds of every chain that was started and then stepped: the
    /// recorded failures are those of the strategies in their order, as many
    /// as the stage tells; a chain that succeeded has at most two of them,
    /// and one that failed has all that were tried, which leaves out the
    /// last strategy only where no display server was found.
    pub open spec fn consistent(self) -> bool {
        &&& forall|i: int|
            0 <= i < self.causes.len() ==> (#[trigger] self.causes[i]).strategy == strategy_at(i)
        &&& match self.stage {
            Stage::Succeeded => self.causes.len() <= 2,
            Stage::Failed => 2 <= self.causes.len() <= 3,
            stage => self.causes.len() == failures_before(stage),
        }
    }
}

/// The action that a stage waits for.
pub fn pending_action(stage: Stage) -> (action: InjectionAction)
    ensures
        action == pending(stage),
{
    match stage {
        Stage::Settling => InjectionAction::Settle { millis: FOCUS_DELAY_MS },
        Stage::Trying(strategy) => InjectionAction::Attempt(strategy),
        Stage::Probing => InjectionAction::ProbeDisplay,
        Stage::Succeeded => InjectionAction::Succeed,
        Stage::Failed => InjectionAction::Fail,
    }
}

impl InjectionState {
    /// The chain before anything was tried.
    pub fn start(native: bool) -> (state: Self)
        ensures
            state@ == ChainView::start(native),
    {
        let state = InjectionState {
            stage: if native {
                Stage::Settling
            } else {
                Stage::Succeeded
            },
            causes: Vec::new(),
        };
        assert(state@.causes =~= Seq::<CauseView>::empty());
        state
    }
}

/// One step of the paste keystroke injection: takes what came of the last
/// action and says what is to be done next.
pub fn simulate_paste(state: InjectionState, event: InjectionEvent) -> (next: (
    InjectionState,
    InjectionAction,
))
    ensures
        next.0@ == state@.step(event@),
        next.1 == pending(next.0@.stage),
{
    let InjectionState { stage, causes } = state;
    let mut causes = causes;
    let ghost before = causes@.map_values(|cause: InjectionCause| cause@);
    let next_stage = match stage {
        Stage::Settling => match event {
            InjectionEvent::Settled => Stage::Trying(Strategy::VirtualDevice),
            _ => stage,
        },
        Stage::Trying(strategy) => match event {
            InjectionEvent::Succeeded => Stage::Succeeded,
            InjectionEvent::Failed { detail } => {
                let cause = InjectionCause { strategy, detail };
                causes.push(cause);
                assert(causes@.map_values(|cause: InjectionCause| cause@) =~= before.push(
                    cause@,
                ));
                match strategy {
                    Strategy::VirtualDevice => Stage::Trying(Strategy::InputLibrary),
                    Strategy::InputLibrary => Stage::Probing,
                    Strategy::KeyCommand => Stage::Failed,
                }
            },
            _ => stage,
        },
        Stage::Probing => match event {
            InjectionEvent::DisplayFound => Stage::Trying(Strategy::KeyCommand),
            InjectionEvent::DisplayMissing => Stage::Failed,
            _ => stage,
        },
        Stage::Succeeded => stage,
        Stage::Failed => stage,
    };
    let action = pending_action(next_stage);
    (InjectionState { stage: next_stage, causes }, action)
}

} // verus!
