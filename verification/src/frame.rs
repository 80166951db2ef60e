use vstd::prelude::*;

use crate::ids::copy_id;

verus! {

/// The kind of a transport frame.
#[derive(Clone, Copy, Debug, PartialEq, Eq, Structural)]
pub enum FrameMessageType {
    Data,
    Ack,
    Nack,
    Cancel,
}

/// Element type of a frame's tensor payload.
#[derive(Clone, Copy, Debug, PartialEq, Eq, Structural)]
pub enum TensorDtype {
    U32,
    F32,
}

/// Stable codes carried by negative acknowledgements.
#[derive(Clone, Copy, Debug, PartialEq, Eq, Structural)]
pub enum ErrorCode {
    FrameIntegrity,
}

/// The model shard a frame is addressed to.
#[derive(Debug, PartialEq, Eq)]
pub struct FrameTarget {
    pub model: String,
    pub shard: String,
}

/// Shape and element type of a frame's tensor payload.
#[derive(Debug, PartialEq, Eq)]
pub struct TensorDescriptor {
    pub dtype: TensorDtype,
    pub dimensions: Vec<u32>,
}

/// A tagged additive extension carried by a frame.
#[derive(Debug, PartialEq, Eq)]
pub struct FrameExtension {
    pub tag: u8,
    pub value: Vec<u8>,
}

/// Routing and sequencing header of a frame.
#[derive(Debug, PartialEq, Eq)]
pub struct FrameEnvelope {
    pub message_type: FrameMessageType,
    pub session_id: String,
    pub stream_id: u64,
    pub sequence: u64,
    pub target: FrameTarget,
    pub tensor: Option<TensorDescriptor>,
    pub remaining_deadline_ms: u64,
}

/// A codec-validated frame: header, payload, optional trace and extensions.
#[derive(Debug, PartialEq, Eq)]
pub struct DecodedFrame {
    pub envelope: FrameEnvelope,
    pub payload: Vec<u8>,
    pub trace_id: Option<String>,
    pub extensions: Vec<FrameExtension>,
}

/// What a receiver needs to acknowledge, reject or cancel a frame.
#[derive(Debug, PartialEq, Eq)]
pub struct TransportReceipt {
    pub session_id: String,
    pub stream_id: u64,
    pub sequence: u64,
    pub target: FrameTarget,
    pub remaining_deadline_ms: u64,
}

/// The ASCII text "SYN-FRAME-004".
pub open spec fn frame_integrity_code() -> Seq<u8> {
    seq![83u8, 89u8, 78u8, 45u8, 70u8, 82u8, 65u8, 77u8, 69u8, 45u8, 48u8, 48u8, 52u8]
}

/// The ASCII bytes of an error code's stable text.
pub open spec fn code_text(code: ErrorCode) -> Seq<u8> {
    match code {
        ErrorCode::FrameIntegrity => frame_integrity_code(),
    }
}

impl ErrorCode {
    /// The stable text of the code as ASCII bytes.
    pub fn code_bytes(&self) -> (r: Vec<u8>)
        ensures
            r@ == code_text(*self),
    {
        match self {
            ErrorCode::FrameIntegrity => {
                let r = vec![83u8, 89u8, 78u8, 45u8, 70u8, 82u8, 65u8, 77u8, 69u8, 45u8, 48u8, 48u8, 52u8];
                assert(r@ =~= frame_integrity_code());
                r
            },
        }
    }
}

/// Copies a byte sequence.
pub fn copy_bytes(bytes: &Vec<u8>) -> (r: Vec<u8>)
    ensures
        r@ == bytes@,
{
    let mut r: Vec<u8> = Vec::new();
    let mut i: usize = 0;
    while i < bytes.len()
        invariant
            i <= bytes.len(),
            r@ == bytes@.subrange(0, i as int),
        decreases bytes.len() - i,
    {
        r.push(bytes[i]);
        i += 1;
        assert(r@ =~= bytes@.subrange(0, i as int));
    }
    assert(r@ =~= bytes@);
    r
}

/// Header of a frame with every text and byte field given by its content.
#[verifier::ext_equal]
pub struct EnvelopeView {
    pub message_type: FrameMessageType,
    pub session_id: Seq<char>,
    pub stream_id: u64,
    pub sequence: u64,
    pub target: (Seq<char>, Seq<char>),
    pub tensor: Option<(TensorDtype, Seq<u32>)>,
    pub remaining_deadline_ms: u64,
}

/// A frame with every text and byte field given by its content.
#[verifier::ext_equal]
pub struct FrameView {
    pub envelope: EnvelopeView,
    pub payload: Seq<u8>,
    pub trace_id: Option<Seq<char>>,
    pub extensions: Seq<(u8, Seq<u8>)>,
}

/// A receipt with its text fields given by their content.
pub struct ReceiptView {
    pub session_id: Seq<char>,
    pub stream_id: u64,
    pub sequence: u64,
    pub target: (Seq<char>, Seq<char>),
    pub remaining_deadline_ms: u64,
}

impl View for FrameTarget {
    type V = (Seq<char>, Seq<char>);

    open spec fn view(&self) -> (Seq<char>, Seq<char>) {
        (self.model@, self.shard@)
    }
}

impl View for TensorDescriptor {
    type V = (TensorDtype, Seq<u32>);

    open spec fn view(&self) -> (TensorDtype, Seq<u32>) {
        (self.dtype, self.dimensions@)
    }
}

impl View for FrameExtension {
    type V = (u8, Seq<u8>);

    open spec fn view(&self) -> (u8, Seq<u8>) {
        (self.tag, self.value@)
    }
}

pub open spec fn tensor_view(t: Option<TensorDescriptor>) -> Option<(TensorDtype, Seq<u32>)> {
    match t {
        Some(t) => Some(t@),
        None => None,
    }
}

pub open spec fn text_view(t: Option<String>) -> Option<Seq<char>> {
    match t {
        Some(t) => Some(t@),
        None => None,
    }
}

pub open spec fn extensions_view(e: Seq<FrameExtension>) -> Seq<(u8, Seq<u8>)> {
    e.map_values(|x: FrameExtension| x@)
}

impl View for FrameEnvelope {
    type V = EnvelopeView;

    open spec fn view(&self) -> EnvelopeView {
        EnvelopeView {
            message_type: self.message_type,
            session_id: self.session_id@,
            stream_id: self.stream_id,
            sequence: self.sequence,
            target: self.target@,
            tensor: tensor_view(self.tensor),
            remaining_deadline_ms: self.remaining_deadline_ms,
        }
    }
}

impl View for DecodedFrame {
    type V = FrameView;

    open spec fn view(&self) -> FrameView {
        FrameView {
            envelope: self.envelope@,
            payload: self.payload@,
            trace_id: text_view(self.trace_id),
            extensions: extensions_view(self.extensions@),
        }
    }
}

impl View for TransportReceipt {
    type V = ReceiptView;

    open spec fn view(&self) -> ReceiptView {
        ReceiptView {
            session_id: self.session_id@,
            stream_id: self.stream_id,
            sequence: self.sequence,
            target: self.target@,
            remaining_deadline_ms: self.remaining_deadline_ms,
        }
    }
}

/// The receipt of a frame with the given header.
pub open spec fn receipt_of(e: EnvelopeView) -> ReceiptView {
    ReceiptView {
        session_id: e.session_id,
        stream_id: e.stream_id,
        sequence: e.sequence,
        target: e.target,
        remaining_deadline_ms: e.remaining_deadline_ms,
    }
}

/// Extension tag of the reason carried by a negative acknowledgement.
pub const NACK_REASON_EXTENSION_TAG: u8 = 1;

/// The extensions of a control frame: the rejection reason, when there is one.
pub open spec fn reason_extensions(reason: Option<ErrorCode>) -> Seq<(u8, Seq<u8>)> {
    match reason {
        Some(code) => seq![(NACK_REASON_EXTENSION_TAG, code_text(code))],
        None => Seq::empty(),
    }
}

/// The control frame that answers a received frame: same session, stream,
/// sequence, target and deadline, no tensor, no payload and no trace; a
/// rejection carries its reason's ASCII text under extension tag 1.
pub open spec fn control_frame(
    receipt: ReceiptView,
    message_type: FrameMessageType,
    reason: Option<ErrorCode>,
) -> FrameView {
    FrameView {
        envelope: EnvelopeView {
            message_type,
            session_id: receipt.session_id,
            stream_id: receipt.stream_id,
            sequence: receipt.sequence,
            target: receipt.target,
            tensor: None,
            remaining_deadline_ms: receipt.remaining_deadline_ms,
        },
        payload: Seq::empty(),
        trace_id: None,
        extensions: reason_extensions(reason),
    }
}

impl FrameTarget {
    /// A copy with the same content.
    pub fn copy(&self) -> (r: FrameTarget)
        ensures
            r@ == self@,
    {
        FrameTarget { model: copy_id(&self.model), shard: copy_id(&self.shard) }
    }
}

impl TransportReceipt {
    /// The receipt that identifies a frame by its envelope.
    pub fn from_envelope(envelope: &FrameEnvelope) -> (r: TransportReceipt)
        ensures
            r@ == receipt_of(envelope@),
            r.session_id@ == envelope.session_id@,
            r.stream_id == envelope.stream_id,
            r.sequence == envelope.sequence,
            r.target@ == envelope.target@,
            r.remaining_deadline_ms == envelope.remaining_deadline_ms,
    {
        TransportReceipt {
            session_id: copy_id(&envelope.session_id),
            stream_id: envelope.stream_id,
            sequence: envelope.sequence,
            target: envelope.target.copy(),
            remaining_deadline_ms: envelope.remaining_deadline_ms,
        }
    }

    /// A copy with the same content.
    pub fn copy(&self) -> (r: TransportReceipt)
        ensures
            r@ == self@,
    {
        TransportReceipt {
            session_id: copy_id(&self.session_id),
            stream_id: self.stream_id,
            sequence: self.sequence,
            target: self.target.copy(),
            remaining_deadline_ms: self.remaining_deadline_ms,
        }
    }
}

/// Builds the control frame that answers the frame identified by `receipt`.
pub fn make_control_frame(
    receipt: &TransportReceipt,
    message_type: FrameMessageType,
    reason: Option<ErrorCode>,
) -> (r: DecodedFrame)
    ensures
        r@ == control_frame(receipt@, message_type, reason),
        r.envelope.message_type == message_type,
        r.envelope.session_id@ == receipt.session_id@,
        r.envelope.stream_id == receipt.stream_id,
        r.envelope.sequence == receipt.sequence,
        r.envelope.target@ == receipt.target@,
        r.envelope.remaining_deadline_ms == receipt.remaining_deadline_ms,
        r.envelope.tensor is None,
        r.payload@.len() == 0,
        r.trace_id is None,
        reason is None ==> r.extensions@.len() == 0,
        reason matches Some(code) ==> r.extensions@.len() == 1 && r.extensions@[0].tag
            == NACK_REASON_EXTENSION_TAG && r.extensions@[0].value@ == code_text(code),
{
    let mut extensions: Vec<FrameExtension> = Vec::new();
    if let Some(code) = reason {
        extensions.push(FrameExtension { tag: NACK_REASON_EXTENSION_TAG, value: code.code_bytes() });
    }
    let r = DecodedFrame {
        envelope: FrameEnvelope {
            message_type,
            session_id: copy_id(&receipt.session_id),
            stream_id: receipt.stream_id,
            sequence: receipt.sequence,
            target: receipt.target.copy(),
            tensor: None,
            remaining_deadline_ms: receipt.remaining_deadline_ms,
        },
        payload: Vec::new(),
        trace_id: None,
        extensions,
    };
    assert(r@.extensions =~= reason_extensions(reason));
    assert(r@.payload =~= Seq::<u8>::empty());
    r
}

/// Copies a sequence of 32-bit words.
pub fn copy_words(words: &Vec<u32>) -> (r: Vec<u32>)
    ensures
        r@ == words@,
{
    let mut r: Vec<u32> = Vec::new();
    let mut i: usize = 0;
    while i < words.len()
        invariant
            i <= words.len(),
            r@ == words@.subrange(0, i as int),
        decreases words.len() - i,
    {
        r.push(words[i]);
        i += 1;
        assert(r@ =~= words@.subrange(0, i as int));
    }
    assert(r@ =~= words@);
    r
}

/// Copies an optional text.
pub fn copy_text(t: &Option<String>) -> (r: Option<String>)
    ensures
        text_view(r) == text_view(*t),
{
    match t {
        Some(t) => Some(copy_id(t)),
        None => None,
    }
}

/// Copies a list of extensions.
pub fn copy_extensions(e: &Vec<FrameExtension>) -> (r: Vec<FrameExtension>)
    ensures
        extensions_view(r@) == extensions_view(e@),
{
    let mut r: Vec<FrameExtension> = Vec::new();
    let mut i: usize = 0;
    while i < e.len()
        invariant
            i <= e.len(),
            extensions_view(r@) == extensions_view(e@).subrange(0, i as int),
        decreases e.len() - i,
    {
        let x = FrameExtension { tag: e[i].tag, value: copy_bytes(&e[i].value) };
        let ghost before = r@;
        r.push(x);
        i += 1;
        assert(extensions_view(r@) =~= extensions_view(e@).subrange(0, i as int)) by {
            assert(extensions_view(r@) =~= extensions_view(before).push(x@));
        }
    }
    assert(extensions_view(e@).subrange(0, e@.len() as int) =~= extensions_view(e@));
    r
}

impl FrameEnvelope {
    /// A copy with the same content.
    pub fn copy(&self) -> (r: FrameEnvelope)
        ensures
            r@ == self@,
    {
        let tensor = match &self.tensor {
            Some(t) => Some(TensorDescriptor { dtype: t.dtype, dimensions: copy_words(&t.dimensions) }),
            None => None,
        };
        FrameEnvelope {
            message_type: self.message_type,
            session_id: copy_id(&self.session_id),
            stream_id: self.stream_id,
            sequence: self.sequence,
            target: self.target.copy(),
            tensor,
            remaining_deadline_ms: self.remaining_deadline_ms,
        }
    }
}

impl DecodedFrame {
    /// A frame that carries `payload` under `envelope`, with no extensions.
    pub fn new(envelope: &FrameEnvelope, payload: &[u8], trace_id: Option<&String>) -> (r:
        DecodedFrame)
        ensures
            r@.envelope == envelope@,
            r@.payload == payload@,
            r@.trace_id == match trace_id {
                Some(t) => Some(t@),
                None => None::<Seq<char>>,
            },
            r@.extensions.len() == 0,
    {
        let mut bytes: Vec<u8> = Vec::new();
        let mut i: usize = 0;
        while i < payload.len()
            invariant
                i <= payload.len(),
                bytes@ == payload@.subrange(0, i as int),
            decreases payload.len() - i,
        {
            bytes.push(payload[i]);
            i += 1;
            assert(bytes@ =~= payload@.subrange(0, i as int));
        }
        assert(bytes@ =~= payload@);
        let trace = match trace_id {
            Some(t) => Some(copy_id(t)),
            None => None,
        };
        let r = DecodedFrame { envelope: envelope.copy(), payload: bytes, trace_id: trace, extensions: Vec::new() };
        assert(r@.extensions =~= Seq::<(u8, Seq<u8>)>::empty());
        r
    }

    /// A copy with the same content.
    pub fn copy(&self) -> (r: DecodedFrame)
        ensures
            r@ == self@,
    {
        DecodedFrame {
            envelope: self.envelope.copy(),
            payload: copy_bytes(&self.payload),
            trace_id: copy_text(&self.trace_id),
            extensions: copy_extensions(&self.extensions),
        }
    }
}

} // verus!
