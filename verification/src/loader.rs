//! Loading an executable that may be stored in either schema.
//!
//! Reading the file and decoding its bytes are the caller's work; what to do
//! next is decided here. The caller starts with [`begin`], carries out each
//! request, and reports what came of it to [`advance`], until an executable or
//! an error is handed back.
use vstd::prelude::*;
use crate::executable::{Executable, ExecutableView};
use crate::legacy::{LegacyExecutable, MigrateError, migrate, migrated};

verus! {

/// Where a load stands: which answer it is waiting for.
#[derive(Clone, Debug, PartialEq, Eq)]
pub enum LoadState {
    /// The file at `path` is being read.
    Reading { path: String },
    /// The bytes are being decoded in the current schema.
    DecodingModern,
    /// The bytes are being decoded in the legacy schema.
    DecodingLegacy,
}

/// What the caller is asked to do next.
#[derive(Clone, Copy, Debug, PartialEq, Eq, Structural)]
pub enum LoadRequest {
    /// Read the file.
    ReadFile,
    /// Decode the bytes read as an executable of the current schema.
    DecodeModern,
    /// Decode the same bytes as a legacy record.
    DecodeLegacy,
}

/// What came of a request.
#[derive(Clone, Debug, PartialEq, Eq)]
pub enum LoadEvent {
    /// The file was read.
    FileRead,
    /// The file is absent or cannot be read, for the reason given.
    FileUnreadable(String),
    /// The bytes are an executable of the current schema.
    ModernDecoded(Executable),
    /// The bytes are no executable of the current schema, for the reason given.
    ModernRejected(String),
    /// The bytes are a legacy record.
    LegacyDecoded(LegacyExecutable),
    /// The bytes are no legacy record, for the reason given.
    LegacyRejected(String),
}

/// Why no executable could be loaded.
#[derive(Clone, Debug, PartialEq, Eq)]
pub enum LoadError {
    /// The file at `path` is absent or cannot be read.
    Unreadable { path: String, reason: String },
    /// The bytes fit neither schema; the reason is that of the legacy decoder.
    LegacySchema(String),
    /// The bytes are a legacy record that cannot be migrated.
    Integrity(MigrateError),
    /// An event was reported that answers no pending request.
    OutOfTurn,
}

/// One step of a load: a request with the state that awaits its answer, or
/// the end.
#[derive(Debug, PartialEq, Eq)]
pub enum LoadStep {
    Ask(LoadState, LoadRequest),
    Done(Result<Executable, LoadError>),
}

/// What a step holds, with executables by their views.
pub enum LoadStepView {
    Ask(LoadState, LoadRequest),
    Delivered(ExecutableView),
    Failed(LoadError),
}

impl View for LoadStep {
    type V = LoadStepView;

    open spec fn view(&self) -> LoadStepView {
        match *self {
            LoadStep::Ask(state, request) => LoadStepView::Ask(state, request),
            LoadStep::Done(Ok(executable)) => LoadStepView::Delivered(executable@),
            LoadStep::Done(Err(error)) => LoadStepView::Failed(error),
        }
    }
}

/// The step that follows when `event` is reported in `state`.
///
/// A file that cannot be read ends the load at once. An executable of the
/// current schema is delivered as it was decoded. Only when the current schema
/// rejects the bytes is the legacy schema tried; a legacy record is migrated,
/// and when the legacy schema rejects the bytes too, its reason is the one
/// that is surfaced.
pub open spec fn next_step(state: LoadState, event: LoadEvent) -> LoadStepView {
    match (state, event) {
        (LoadState::Reading { path }, LoadEvent::FileRead) => LoadStepView::Ask(
            LoadState::DecodingModern,
            LoadRequest::DecodeModern,
        ),
        (LoadState::Reading { path }, LoadEvent::FileUnreadable(reason)) => LoadStepView::Failed(
            LoadError::Unreadable { path, reason },
        ),
        (LoadState::DecodingModern, LoadEvent::ModernDecoded(executable)) => LoadStepView::Delivered(
            executable@,
        ),
        (LoadState::DecodingModern, LoadEvent::ModernRejected(_)) => LoadStepView::Ask(
            LoadState::DecodingLegacy,
            LoadRequest::DecodeLegacy,
        ),
        (LoadState::DecodingLegacy, LoadEvent::LegacyDecoded(legacy)) => match migrated(legacy@) {
            Ok(executable) => LoadStepView::Delivered(executable),
            Err(fault) => LoadStepView::Failed(LoadError::Integrity(fault)),
        },
        (LoadState::DecodingLegacy, LoadEvent::LegacyRejected(reason)) => LoadStepView::Failed(
            LoadError::LegacySchema(reason),
        ),
        _ => LoadStepView::Failed(LoadError::OutOfTurn),
    }
}

/// Starts a load of the file at `path`: the file is to be read.
pub fn begin(path: String) -> (step: LoadStep)
    ensures
        step == LoadStep::Ask(LoadState::Reading { path }, LoadRequest::ReadFile),
{
    LoadStep::Ask(LoadState::Reading { path }, LoadRequest::ReadFile)
}

/// Decides what follows when `event` is reported in `state`.
pub fn advance(state: LoadState, event: LoadEvent) -> (step: LoadStep)
    ensures
        step@ == next_step(state, event),
{
    match state {
        LoadState::Reading { path } => match event {
            LoadEvent::FileRead => LoadStep::Ask(
                LoadState::DecodingModern,
                LoadRequest::DecodeModern,
            ),
            LoadEvent::FileUnreadable(reason) => LoadStep::Done(
                Err(LoadError::Unreadable { path, reason }),
            ),
            _ => LoadStep::Done(Err(LoadError::OutOfTurn)),
        },
        LoadState::DecodingModern => match event {
            LoadEvent::ModernDecoded(executable) => LoadStep::Done(Ok(executable)),
            LoadEvent::ModernRejected(_) => LoadStep::Ask(
                LoadState::DecodingLegacy,
                LoadRequest::DecodeLegacy,
            ),
            _ => LoadStep::Done(Err(LoadError::OutOfTurn)),
        },
        LoadState::DecodingLegacy => match event {
            LoadEvent::LegacyDecoded(legacy) => match migrate(legacy) {
                Ok(executable) => LoadStep::Done(Ok(executable)),
                Err(fault) => LoadStep::Done(Err(LoadError::Integrity(fault))),
            },
            LoadEvent::LegacyRejected(reason) => LoadStep::Done(
                Err(LoadError::LegacySchema(reason)),
            ),
            _ => LoadStep::Done(Err(LoadError::OutOfTurn)),
        },
    }
}

/// How many requests a load may still make from `state`.
pub open spec fn requests_left(state: LoadState) -> nat {
    match state {
        LoadState::Reading { .. } => 2,
        LoadState::DecodingModern => 1,
        LoadState::DecodingLegacy => 0,
    }
}

/// An executable of the current schema comes out of the load as it went in:
/// nothing of it is dropped or changed.
pub proof fn lemma_modern_passes_unchanged(executable: Executable)
    ensures
        next_step(LoadState::DecodingModern, LoadEvent::ModernDecoded(executable))
            == LoadStepView::Delivered(executable@),
{
}

/// When both schemas reject the bytes, the load fails with the reason that
/// the legacy decoder gave, whatever the reason of the current one was.
pub proof fn lemma_legacy_reason_surfaces(path: String, modern_reason: String, legacy_reason: String)
    ensures
        next_step(LoadState::Reading { path }, LoadEvent::FileRead) == LoadStepView::Ask(
            LoadState::DecodingModern,
            LoadRequest::DecodeModern,
        ),
        next_step(LoadState::DecodingModern, LoadEvent::ModernRejected(modern_reason))
            == LoadStepView::Ask(LoadState::DecodingLegacy, LoadRequest::DecodeLegacy),
        next_step(LoadState::DecodingLegacy, LoadEvent::LegacyRejected(legacy_reason))
            == LoadStepView::Failed(LoadError::LegacySchema(legacy_reason)),
{
}

/// The legacy schema is tried only after the current schema has rejected the
/// bytes, and a file that cannot be read is never decoded.
pub proof fn lemma_legacy_only_after_rejection(state: LoadState, event: LoadEvent)
    ensures
        next_step(state, event) matches LoadStepView::Ask(_, LoadRequest::DecodeLegacy) ==> state
            is DecodingModern && event is ModernRejected,
        event is FileUnreadable ==> !(next_step(state, event) is Ask),
        !(next_step(state, event) matches LoadStepView::Ask(_, LoadRequest::ReadFile)),
{
}

/// A load ends: every request that a step makes leaves fewer requests to come.
pub proof fn lemma_load_ends(state: LoadState, event: LoadEvent)
    ensures
        next_step(state, event) matches LoadStepView::Ask(following, _) ==> requests_left(following)
            < requests_left(state),
{
}

/// A legacy record is delivered exactly as its migration, and a record that
/// cannot be migrated fails the load with the migration's fault.
pub proof fn lemma_legacy_is_migrated(legacy: LegacyExecutable)
    ensures
        match migrated(legacy@) {
            Ok(executable) => next_step(LoadState::DecodingLegacy, LoadEvent::LegacyDecoded(legacy))
                == LoadStepView::Delivered(executable),
            Err(fault) => next_step(LoadState::DecodingLegacy, LoadEvent::LegacyDecoded(legacy))
                == LoadStepView::Failed(LoadError::Integrity(fault)),
        },
{
}

} // verus!
