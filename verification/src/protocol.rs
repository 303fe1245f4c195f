//! Wire messages between client and host, capabilities and their
//! negotiation, and the interfaces of desktop capture and encoding.
use vstd::prelude::*;

verus! {

/// A feature that a peer supports.
#[derive(Clone, Copy, Debug, PartialEq, Eq, Structural)]
pub enum Capability {
    TerminalPty,
    TerminalResize,
    AnsiDesktopFrames,
    UnicodeHalfBlockFrames,
    SixelFrames,
    MouseInput,
    KeyboardInput,
    ClipboardText,
    FileTransfer,
    RelayFallback,
    TrustedDeviceAuth,
    DesktopStreaming,
}

/// Messages from the client to the host.
///
/// The zoom values of `SetZoom` travel as the bit patterns of IEEE-754
/// single-precision numbers.
#[derive(Debug, Clone)]
pub enum ClientToHost {
    Hello {
        protocol_version: String,
        client_name: String,
        client_public_key: Vec<u8>,
        capabilities: Vec<Capability>,
    },
    PairingCode { code: String },
    ChallengeResponse { signature: Vec<u8> },
    ConsentResponseAck,
    PtyInput { bytes: Vec<u8> },
    PtyResize { cols: u16, rows: u16 },
    MouseInput { x: u16, y: u16, button: u8, state: u8 },
    MouseScroll { delta_x: i32, delta_y: i32 },
    KeyboardInput { keycode: u32, state: u8 },
    ClipboardText { text: String },
    SetZoom { zoom_factor_bits: u32, pan_x_bits: u32, pan_y_bits: u32 },
    StartDesktopStream,
    StopDesktopStream,
    Ping,
    Close,
}

/// Messages from the host to the client.
#[derive(Debug, Clone)]
pub enum HostToClient {
    HelloAck {
        protocol_version: String,
        host_name: String,
        host_public_key: Vec<u8>,
        capabilities: Vec<Capability>,
    },
    AuthRequired { challenge: Vec<u8> },
    AuthAccepted,
    AuthDenied { reason: String },
    PtyOutput { bytes: Vec<u8> },
    PtyExit { exit_code: i32 },
    DesktopFramePlaceholder {
        frame_id: u64,
        timestamp: u64,
        width_cells: u16,
        height_cells: u16,
        encoding: String,
        payload: Vec<u8>,
    },
    DesktopFrame { frame_text: String },
    Error { code: String, message: String },
    ClipboardText { text: String },
    Pong,
    Close,
}

/// A captured screen image: `width * height` RGBA pixels, row by row.
#[derive(Debug, Clone)]
pub struct RawFrame {
    pub width: u32,
    pub height: u32,
    pub data: Vec<u8>,
}

/// How desktop frames are rendered as terminal text.
#[derive(Debug, Clone, Copy, PartialEq, Eq, Structural)]
pub enum RenderProfile {
    MonochromeAscii,
    Ansi16,
    Ansi256,
    Truecolor,
    UnicodeHalfBlock,
    Braille,
}

/// A frame rendered as terminal bytes.
#[derive(Debug, Clone)]
pub struct EncodedFrame {
    pub frame_id: u64,
    pub timestamp_ms: u64,
    pub width_cells: u16,
    pub height_cells: u16,
    pub profile: RenderProfile,
    pub payload: Vec<u8>,
}

/// A source of screen images.
pub trait ScreenCaptureProvider {
    type Error;

    fn capture_frame(&mut self) -> Result<RawFrame, Self::Error>;
}

/// A renderer of screen images as terminal text.
pub trait AsciiEncoder {
    type Error;

    fn encode(&mut self, raw_frame: &RawFrame, profile: RenderProfile) -> Result<
        EncodedFrame,
        Self::Error,
    >;
}

/// A sink of synthetic mouse and keyboard events.
pub trait InputInjector {
    type Error;

    fn send_mouse_event(&mut self, button: u8, x: u16, y: u16) -> Result<(), Self::Error>;

    fn send_keyboard_event(&mut self, key_code: u16, state: u8) -> Result<(), Self::Error>;
}

/// The capabilities of `ours` that `theirs` also lists, in the order of
/// `ours`.
pub open spec fn negotiated(ours: Seq<Capability>, theirs: Seq<Capability>) -> Seq<Capability> {
    ours.filter(|c: Capability| theirs.contains(c))
}

fn contains_capability(list: &Vec<Capability>, c: Capability) -> (r: bool)
    ensures
        r == list@.contains(c),
{
    let mut i: usize = 0;
    while i < list.len()
        invariant
            i <= list@.len(),
            forall|j: int| 0 <= j < i ==> list@[j] != c,
        decreases list@.len() - i,
    {
        if list[i] == c {
            return true;
        }
        i = i + 1;
    }
    false
}

/// The negotiated feature set of a session: the capabilities that both
/// peers list.
pub fn negotiate_capabilities(ours: &Vec<Capability>, theirs: &Vec<Capability>) -> (r: Vec<
    Capability,
>)
    ensures
        r@ == negotiated(ours@, theirs@),
{
    let mut r: Vec<Capability> = Vec::new();
    let mut i: usize = 0;
    while i < ours.len()
        invariant
            i <= ours@.len(),
            r@ == negotiated(ours@.take(i as int), theirs@),
        decreases ours@.len() - i,
    {
        let c = ours[i];
        proof {
            reveal_with_fuel(Seq::filter, 1);
            assert(ours@.take(i + 1).drop_last() =~= ours@.take(i as int));
        }
        if contains_capability(theirs, c) {
            r.push(c);
        }
        i = i + 1;
    }
    assert(ours@.take(ours@.len() as int) =~= ours@);
    r
}

/// Negotiation yields exactly the capabilities that both peers list, so
/// it does not matter which peer negotiates.
pub proof fn law_negotiation_is_intersection(ours: Seq<Capability>, theirs: Seq<Capability>)
    ensures
        forall|c: Capability|
            #![trigger negotiated(ours, theirs).contains(c)]
            negotiated(ours, theirs).contains(c) <==> (ours.contains(c) && theirs.contains(c)),
        negotiated(ours, theirs).to_set() == negotiated(theirs, ours).to_set(),
{
    assert forall|c: Capability| negotiated(ours, theirs).contains(c) <==> (ours.contains(c)
        && theirs.contains(c)) by {
        lemma_negotiated_member(ours, theirs, c);
    }
    assert forall|c: Capability| negotiated(theirs, ours).contains(c) <==> (ours.contains(c)
        && theirs.contains(c)) by {
        lemma_negotiated_member(theirs, ours, c);
    }
    assert(negotiated(ours, theirs).to_set() =~= negotiated(theirs, ours).to_set());
}

proof fn lemma_negotiated_member(a: Seq<Capability>, b: Seq<Capability>, c: Capability)
    ensures
        negotiated(a, b).contains(c) <==> (a.contains(c) && b.contains(c)),
{
    let p = |x: Capability| b.contains(x);
    let f = a.filter(p);
    if f.contains(c) {
        a.lemma_filter_contains_rev(p, c);
        let i = choose|i: int| 0 <= i < f.len() && f[i] == c;
        a.lemma_filter_pred(p, i);
    }
    if a.contains(c) && b.contains(c) {
        let i = choose|i: int| 0 <= i < a.len() && a[i] == c;
        a.lemma_filter_contains(p, i);
    }
}

} // verus!
