//! The witness stream and its assembly.
//!
//! A stream starts with the pages of the primary witness, in their order, and
//! goes on with the field elements that chained proof records expose. Reading
//! the two files and decoding a proof record are the caller's work; the
//! caller starts with [`begin`], carries out each request, and reports what
//! came of it to [`advance`], until the stream or an error is handed back.
use vstd::prelude::*;
use crate::field::FieldElement;

verus! {

/// The most bytes that decoding the primary witness may claim. A file that
/// declares more is refused before anything is allocated for it.
pub const PAGE_LIMIT: usize = 1073741824;

/// One item of a witness stream.
#[derive(Clone, Debug, PartialEq, Eq)]
pub enum StreamItem {
    /// A chunk of raw witness bytes.
    Page(Vec<u8>),
    /// A single field element.
    Element(FieldElement),
}

/// One item of a witness stream, with a page as the sequence of its bytes.
pub enum StreamItemView {
    Page(Seq<u8>),
    Element(FieldElement),
}

impl View for StreamItem {
    type V = StreamItemView;

    open spec fn view(&self) -> StreamItemView {
        match *self {
            StreamItem::Page(bytes) => StreamItemView::Page(bytes@),
            StreamItem::Element(element) => StreamItemView::Element(element),
        }
    }
}

/// An ordered witness stream.
#[derive(Clone, Debug, PartialEq, Eq)]
pub struct WitnessStream {
    pub items: Vec<StreamItem>,
}

impl View for WitnessStream {
    type V = Seq<StreamItemView>;

    open spec fn view(&self) -> Seq<StreamItemView> {
        self.items@.map_values(|item: StreamItem| item@)
    }
}

/// Every page of `items` comes before every field element.
pub open spec fn pages_first(items: Seq<StreamItemView>) -> bool {
    forall|earlier: int, later: int|
        0 <= earlier < later < items.len() && (#[trigger] items[later]) is Page ==> (
        #[trigger] items[earlier]) is Page
}

/// The stream items that stand for `pages`, in their order.
pub open spec fn page_items(pages: Seq<Seq<u8>>) -> Seq<StreamItemView> {
    pages.map_values(|page: Seq<u8>| StreamItemView::Page(page))
}

/// The stream items that stand for `elements`, in their order.
pub open spec fn element_items(elements: Seq<FieldElement>) -> Seq<StreamItemView> {
    elements.map_values(|element: FieldElement| StreamItemView::Element(element))
}

/// The byte sequences of `pages`.
pub open spec fn page_bytes(pages: Seq<Vec<u8>>) -> Seq<Seq<u8>> {
    pages.map_values(|page: Vec<u8>| page@)
}

impl WitnessStream {
    /// The stream that holds `pages` in their order and nothing else.
    pub fn from_pages(pages: Vec<Vec<u8>>) -> (stream: WitnessStream)
        ensures
            stream@ == page_items(page_bytes(pages@)),
            pages_first(stream@),
    {
        let ghost given = pages@;
        let mut items: Vec<StreamItem> = Vec::new();
        for page in walk: pages.into_iter()
            invariant
                walk.seq() == given,
                items@.len() == walk.index(),
                forall|done: int|
                    0 <= done < walk.index() ==> (#[trigger] items@[done])@ == StreamItemView::Page(
                        given[done]@,
                    ),
        {
            items.push(StreamItem::Page(page));
        }
        let stream = WitnessStream { items };
        assert(stream@ =~= page_items(page_bytes(given)));
        stream
    }

    /// Appends `elements` to the stream, each as an item of its own and in
    /// their order.
    pub fn append_elements(&mut self, elements: &Vec<FieldElement>)
        ensures
            final(self)@ == old(self)@ + element_items(elements@),
            pages_first(old(self)@) ==> pages_first(final(self)@),
    {
        let ghost before = self@;
        let mut index: usize = 0;
        while index < elements.len()
            invariant
                index <= elements@.len(),
                self@ == before + element_items(elements@.take(index as int)),
            decreases elements@.len() - index,
        {
            let ghost held = self@;
            self.items.push(StreamItem::Element(elements[index]));
            index = index + 1;
            assert(self@ =~= held.push(StreamItemView::Element(elements@[index - 1])));
            assert(elements@.take(index as int) =~= elements@.take(index - 1).push(
                elements@[index - 1],
            ));
            assert(self@ =~= before + element_items(elements@.take(index as int)));
        }
        assert(elements@.take(index as int) =~= elements@);
    }
}

/// The error with which `bincode` refuses bytes.
#[verifier::external_type_specification]
#[verifier::external_body]
pub struct ExDecodeError(bincode::error::DecodeError);

/// What `bincode::decode_from_slice` makes of `bytes` when it is asked for a
/// list of byte arrays under the standard configuration with a limit of
/// [`PAGE_LIMIT`] bytes: the arrays and the number of bytes read, or nothing
/// where it refuses the bytes.
pub uninterp spec fn bincode_pages(bytes: Seq<u8>) -> Option<(Seq<Seq<u8>>, nat)>;

/// Calls `bincode::decode_from_slice` for a `Vec<Vec<u8>>`, under
/// `bincode::config::standard()` with a limit of [`PAGE_LIMIT`] bytes.
///
/// Taken on trust: the call is a function of the bytes alone, so its outcome
/// is the one that [`bincode_pages`] names. The limit bounds what a declared
/// length can make the decoder allocate: a list or an array that claims more
/// than [`PAGE_LIMIT`] bytes is refused before anything is allocated for it.
#[verifier::external_body]
fn decode_page_list(bytes: &[u8]) -> (decoded: Result<
    (Vec<Vec<u8>>, usize),
    bincode::error::DecodeError,
>)
    ensures
        match decoded {
            Ok((pages, consumed)) => bincode_pages(bytes@) == Some(
                (page_bytes(pages@), consumed as nat),
            ),
            Err(_) => bincode_pages(bytes@) is None,
        },
{
    bincode::decode_from_slice(bytes, bincode::config::standard().with_limit::<PAGE_LIMIT>())
}

/// Where an assembly stands: which answer it is waiting for.
#[derive(Clone, Debug, PartialEq, Eq)]
pub enum AssemblyState {
    /// The primary witness file is being read.
    Primary,
    /// The pages are in the stream; the chained proof file is being read.
    Chain { stream: WitnessStream },
    /// The record at `cursor` of a chained proof buffer of `len` bytes is
    /// being decoded.
    Records { stream: WitnessStream, cursor: usize, len: usize },
}

/// What the caller is asked to do next.
#[derive(Clone, Copy, Debug, PartialEq, Eq, Structural)]
pub enum AssemblyRequest {
    /// Read the primary witness file.
    ReadPrimary,
    /// Read the chained proof file, if there is one.
    ReadChain,
    /// Decode one record of the chained proof buffer, from `offset` on.
    DecodeRecord { offset: usize },
}

/// What came of a request.
#[derive(Clone, Debug, PartialEq, Eq)]
pub enum AssemblyEvent {
    /// The primary witness file holds these bytes.
    PrimaryRead(Vec<u8>),
    /// The primary witness file is absent or cannot be read, for the reason
    /// given.
    PrimaryUnreadable(String),
    /// The chained proof file holds `len` bytes.
    ChainRead { len: usize },
    /// There is no chained proof file that can be read.
    ChainMissing,
    /// A record was decoded. It took `consumed` bytes and holds one sequence
    /// of exposed field elements for each of its proofs, in their order.
    Record { proofs: Vec<Vec<FieldElement>>, consumed: usize },
    /// No record could be decoded at the offset asked for.
    RecordUndecodable,
}

/// Why no witness stream could be assembled.
#[derive(Debug)]
pub enum AssembleError {
    /// The primary witness file is absent or cannot be read.
    PrimaryUnreadable(String),
    /// The primary witness file does not hold a list of byte arrays.
    PrimaryUndecodable(bincode::error::DecodeError),
    /// An event was reported that answers no pending request.
    OutOfTurn,
}

/// One step of an assembly: a request with the state that awaits its answer,
/// or the end.
#[derive(Debug)]
pub enum AssemblyStep {
    Ask(AssemblyState, AssemblyRequest),
    Done(Result<WitnessStream, AssembleError>),
}

/// The kinds of failure of an assembly.
pub enum AssemblyFailure {
    PrimaryUnreadable(String),
    PrimaryUndecodable,
    OutOfTurn,
}

/// Where an assembly stands, with the stream by its view.
pub enum AssemblyStateView {
    Primary,
    Chain { stream: Seq<StreamItemView> },
    Records { stream: Seq<StreamItemView>, cursor: usize, len: usize },
}

impl View for AssemblyState {
    type V = AssemblyStateView;

    open spec fn view(&self) -> AssemblyStateView {
        match *self {
            AssemblyState::Primary => AssemblyStateView::Primary,
            AssemblyState::Chain { stream } => AssemblyStateView::Chain { stream: stream@ },
            AssemblyState::Records { stream, cursor, len } => AssemblyStateView::Records {
                stream: stream@,
                cursor,
                len,
            },
        }
    }
}

/// What an event reports, with byte and element lists as sequences.
pub enum AssemblyEventView {
    PrimaryRead(Seq<u8>),
    PrimaryUnreadable(String),
    ChainRead { len: usize },
    ChainMissing,
    Record { proofs: Seq<Seq<FieldElement>>, consumed: usize },
    RecordUndecodable,
}

/// The exposed element sequences of `proofs`.
pub open spec fn exposed(proofs: Seq<Vec<FieldElement>>) -> Seq<Seq<FieldElement>> {
    proofs.map_values(|proof: Vec<FieldElement>| proof@)
}

impl View for AssemblyEvent {
    type V = AssemblyEventView;

    open spec fn view(&self) -> AssemblyEventView {
        match *self {
            AssemblyEvent::PrimaryRead(bytes) => AssemblyEventView::PrimaryRead(bytes@),
            AssemblyEvent::PrimaryUnreadable(reason) => AssemblyEventView::PrimaryUnreadable(
                reason,
            ),
            AssemblyEvent::ChainRead { len } => AssemblyEventView::ChainRead { len },
            AssemblyEvent::ChainMissing => AssemblyEventView::ChainMissing,
            AssemblyEvent::Record { proofs, consumed } => AssemblyEventView::Record {
                proofs: exposed(proofs@),
                consumed,
            },
            AssemblyEvent::RecordUndecodable => AssemblyEventView::RecordUndecodable,
        }
    }
}

/// What a step holds, with streams by their views.
pub enum AssemblyStepView {
    Ask(AssemblyStateView, AssemblyRequest),
    Delivered(Seq<StreamItemView>),
    Failed(AssemblyFailure),
}

impl View for AssemblyStep {
    type V = AssemblyStepView;

    open spec fn view(&self) -> AssemblyStepView {
        match *self {
            AssemblyStep::Ask(state, request) => AssemblyStepView::Ask(state@, request),
            AssemblyStep::Done(Ok(stream)) => AssemblyStepView::Delivered(stream@),
            AssemblyStep::Done(Err(AssembleError::PrimaryUnreadable(reason))) => AssemblyStepView::Failed(
                AssemblyFailure::PrimaryUnreadable(reason),
            ),
            AssemblyStep::Done(Err(AssembleError::PrimaryUndecodable(_))) => AssemblyStepView::Failed(
                AssemblyFailure::PrimaryUndecodable,
            ),
            AssemblyStep::Done(Err(AssembleError::OutOfTurn)) => AssemblyStepView::Failed(
                AssemblyFailure::OutOfTurn,
            ),
        }
    }
}

/// The step that follows once the primary witness was decoded, or refused:
/// the pages become the stream and the chained proof file is asked for, or
/// the assembly fails.
pub open spec fn after_primary(decoded: Option<(Seq<Seq<u8>>, nat)>) -> AssemblyStepView {
    match decoded {
        Some((pages, _)) => AssemblyStepView::Ask(
            AssemblyStateView::Chain { stream: page_items(pages) },
            AssemblyRequest::ReadChain,
        ),
        None => AssemblyStepView::Failed(AssemblyFailure::PrimaryUndecodable),
    }
}

/// The step that follows once the length of the chained proof buffer is
/// known: an empty buffer ends the assembly, any other is decoded from its
/// start.
pub open spec fn after_chain(stream: Seq<StreamItemView>, len: usize) -> AssemblyStepView {
    if len == 0 {
        AssemblyStepView::Delivered(stream)
    } else {
        AssemblyStepView::Ask(
            AssemblyStateView::Records { stream, cursor: 0, len },
            AssemblyRequest::DecodeRecord { offset: 0 },
        )
    }
}

/// A decoded record ends the chain without adding to the stream: it took no
/// bytes, it holds no proof, or it claims more bytes than the buffer has left
/// behind the cursor.
pub open spec fn record_ends_chain(
    cursor: usize,
    len: usize,
    proofs: Seq<Seq<FieldElement>>,
    consumed: usize,
) -> bool {
    consumed == 0 || proofs.len() == 0 || cursor >= len || consumed > len - cursor
}

/// The step that follows a decoded record. Unless the record ends the chain,
/// the elements that its first proof exposes join the stream and the cursor
/// moves past the record; the assembly ends when the cursor has reached the
/// end of the buffer, and asks for the next record otherwise.
pub open spec fn after_record(
    stream: Seq<StreamItemView>,
    cursor: usize,
    len: usize,
    proofs: Seq<Seq<FieldElement>>,
    consumed: usize,
) -> AssemblyStepView {
    if record_ends_chain(cursor, len, proofs, consumed) {
        AssemblyStepView::Delivered(stream)
    } else if cursor + consumed == len {
        AssemblyStepView::Delivered(stream + element_items(proofs[0]))
    } else {
        AssemblyStepView::Ask(
            AssemblyStateView::Records {
                stream: stream + element_items(proofs[0]),
                cursor: (cursor + consumed) as usize,
                len,
            },
            AssemblyRequest::DecodeRecord { offset: (cursor + consumed) as usize },
        )
    }
}

/// The step that follows when `event` is reported in `state`.
///
/// The primary witness is mandatory: without it, or when its bytes are no
/// list of byte arrays, the assembly fails. The chained proof file is not: an
/// absent file and a record that cannot be decoded both end the assembly with
/// the stream as it stands.
pub open spec fn next_step(state: AssemblyStateView, event: AssemblyEventView) -> AssemblyStepView {
    match (state, event) {
        (AssemblyStateView::Primary, AssemblyEventView::PrimaryRead(bytes)) => after_primary(
            bincode_pages(bytes),
        ),
        (
            AssemblyStateView::Primary,
            AssemblyEventView::PrimaryUnreadable(reason),
        ) => AssemblyStepView::Failed(AssemblyFailure::PrimaryUnreadable(reason)),
        (AssemblyStateView::Chain { stream }, AssemblyEventView::ChainRead { len }) => after_chain(
            stream,
            len,
        ),
        (
            AssemblyStateView::Chain { stream },
            AssemblyEventView::ChainMissing,
        ) => AssemblyStepView::Delivered(stream),
        (
            AssemblyStateView::Records { stream, cursor, len },
            AssemblyEventView::Record { proofs, consumed },
        ) => after_record(stream, cursor, len, proofs, consumed),
        (
            AssemblyStateView::Records { stream, .. },
            AssemblyEventView::RecordUndecodable,
        ) => AssemblyStepView::Delivered(stream),
        _ => AssemblyStepView::Failed(AssemblyFailure::OutOfTurn),
    }
}

/// Starts an assembly: the primary witness file is to be read.
pub fn begin() -> (step: AssemblyStep)
    ensures
        step@ == AssemblyStepView::Ask(AssemblyStateView::Primary, AssemblyRequest::ReadPrimary),
{
    AssemblyStep::Ask(AssemblyState::Primary, AssemblyRequest::ReadPrimary)
}

/// Decides what follows the decoding of the primary witness.
pub fn accept_primary(decoded: Result<(Vec<Vec<u8>>, usize), bincode::error::DecodeError>) -> (step:
    AssemblyStep)
    ensures
        step@ == after_primary(
            match decoded {
                Ok((pages, consumed)) => Some((page_bytes(pages@), consumed as nat)),
                Err(_) => None,
            },
        ),
{
    match decoded {
        Ok((pages, _)) => AssemblyStep::Ask(
            AssemblyState::Chain { stream: WitnessStream::from_pages(pages) },
            AssemblyRequest::ReadChain,
        ),
        Err(refusal) => AssemblyStep::Done(Err(AssembleError::PrimaryUndecodable(refusal))),
    }
}

/// Decides what follows once the chained proof file was read and holds `len`
/// bytes.
pub fn accept_chain(stream: WitnessStream, len: usize) -> (step: AssemblyStep)
    ensures
        step@ == after_chain(stream@, len),
{
    if len == 0 {
        AssemblyStep::Done(Ok(stream))
    } else {
        AssemblyStep::Ask(
            AssemblyState::Records { stream, cursor: 0, len },
            AssemblyRequest::DecodeRecord { offset: 0 },
        )
    }
}

/// Decides what follows a decoded record of the chained proof buffer.
pub fn accept_record(
    stream: WitnessStream,
    cursor: usize,
    len: usize,
    proofs: Vec<Vec<FieldElement>>,
    consumed: usize,
) -> (step: AssemblyStep)
    ensures
        step@ == after_record(stream@, cursor, len, exposed(proofs@), consumed),
{
    if consumed == 0 || proofs.len() == 0 || cursor >= len || consumed > len - cursor {
        return AssemblyStep::Done(Ok(stream));
    }
    let mut stream = stream;
    stream.append_elements(&proofs[0]);
    let reached = cursor + consumed;
    if reached == len {
        AssemblyStep::Done(Ok(stream))
    } else {
        AssemblyStep::Ask(
            AssemblyState::Records { stream, cursor: reached, len },
            AssemblyRequest::DecodeRecord { offset: reached },
        )
    }
}

/// Decides what follows when `event` is reported in `state`.
pub fn advance(state: AssemblyState, event: AssemblyEvent) -> (step: AssemblyStep)
    ensures
        step@ == next_step(state@, event@),
{
    match state {
        AssemblyState::Primary => match event {
            AssemblyEvent::PrimaryRead(bytes) => accept_primary(decode_page_list(bytes.as_slice())),
            AssemblyEvent::PrimaryUnreadable(reason) => AssemblyStep::Done(
                Err(AssembleError::PrimaryUnreadable(reason)),
            ),
            _ => AssemblyStep::Done(Err(AssembleError::OutOfTurn)),
        },
        AssemblyState::Chain { stream } => match event {
            AssemblyEvent::ChainRead { len } => accept_chain(stream, len),
            AssemblyEvent::ChainMissing => AssemblyStep::Done(Ok(stream)),
            _ => AssemblyStep::Done(Err(AssembleError::OutOfTurn)),
        },
        AssemblyState::Records { stream, cursor, len } => match event {
            AssemblyEvent::Record { proofs, consumed } => accept_record(
                stream,
                cursor,
                len,
                proofs,
                consumed,
            ),
            AssemblyEvent::RecordUndecodable => AssemblyStep::Done(Ok(stream)),
            _ => AssemblyStep::Done(Err(AssembleError::OutOfTurn)),
        },
    }
}

impl AssemblyStateView {
    /// The stream gathered so far; empty before the primary witness is in.
    pub open spec fn stream(self) -> Seq<StreamItemView> {
        match self {
            AssemblyStateView::Primary => Seq::empty(),
            AssemblyStateView::Chain { stream } => stream,
            AssemblyStateView::Records { stream, .. } => stream,
        }
    }

    /// The state is one that an assembly can be in: its pages come first, and
    /// a cursor lies inside its buffer.
    pub open spec fn wf(self) -> bool {
        &&& pages_first(self.stream())
        &&& self matches AssemblyStateView::Records { cursor, len, .. } ==> cursor < len
    }

    /// How many bytes of the chained proof buffer lie behind the cursor. Before
    /// the buffer is known, more than any buffer can hold.
    pub open spec fn bytes_left(self) -> nat {
        match self {
            AssemblyStateView::Primary => (usize::MAX + 2) as nat,
            AssemblyStateView::Chain { .. } => (usize::MAX + 1) as nat,
            AssemblyStateView::Records { cursor, len, .. } => if cursor <= len {
                (len - cursor) as nat
            } else {
                0
            },
        }
    }
}

/// Whatever a step of a well formed state holds, its pages come first: the
/// state it asks in is well formed, and so is the stream it delivers.
pub proof fn lemma_pages_stay_first(state: AssemblyStateView, event: AssemblyEventView)
    requires
        state.wf(),
    ensures
        match next_step(state, event) {
            AssemblyStepView::Ask(following, _) => following.wf(),
            AssemblyStepView::Delivered(stream) => pages_first(stream),
            AssemblyStepView::Failed(_) => true,
        },
{
    match (state, event) {
        (
            AssemblyStateView::Records { stream, cursor, len },
            AssemblyEventView::Record { proofs, consumed },
        ) => {
            if !record_ends_chain(cursor, len, proofs, consumed) {
                lemma_elements_keep_order(stream, proofs[0]);
            }
        },
        _ => {},
    }
}

/// Field elements appended to a stream whose pages come first leave the pages
/// first.
pub proof fn lemma_elements_keep_order(stream: Seq<StreamItemView>, elements: Seq<FieldElement>)
    requires
        pages_first(stream),
    ensures
        pages_first(stream + element_items(elements)),
{
}

/// A step never takes anything out of the stream: what was gathered before
/// it is the beginning of what is gathered after it.
pub proof fn lemma_stream_grows(state: AssemblyStateView, event: AssemblyEventView)
    ensures
        match next_step(state, event) {
            AssemblyStepView::Ask(following, _) => state.stream().is_prefix_of(following.stream()),
            AssemblyStepView::Delivered(stream) => state.stream().is_prefix_of(stream),
            AssemblyStepView::Failed(_) => true,
        },
{
}

/// An assembly ends: every request that a step makes leaves fewer bytes
/// behind the cursor than the state before had.
pub proof fn lemma_assembly_ends(state: AssemblyStateView, event: AssemblyEventView)
    ensures
        next_step(state, event) matches AssemblyStepView::Ask(following, _)
            ==> following.bytes_left() < state.bytes_left(),
{
}

/// Without a chained proof file the stream is the pages of the primary
/// witness, in their order, and holds no field element.
pub proof fn lemma_pages_alone(pages: Seq<Seq<u8>>, consumed: nat)
    ensures
        after_primary(Some((pages, consumed))) matches AssemblyStepView::Ask(state, _) && next_step(
            state,
            AssemblyEventView::ChainMissing,
        ) == AssemblyStepView::Delivered(page_items(pages)),
        page_items(pages).len() == pages.len(),
        forall|index: int|
            0 <= index < pages.len() ==> (#[trigger] page_items(pages)[index])
                == StreamItemView::Page(pages[index]),
{
}

} // verus!
