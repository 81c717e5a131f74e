//! Dynamically-typed suspension results and the per-resume input envelope.
//!
//! A resolved suspension hands back a value whose type is only known at the
//! call site that issued the suspension. The value is carried as a tagged
//! variant; extracting it under the wrong tag is a fatal contract violation,
//! not a recoverable condition.

use vstd::prelude::*;

verus! {

/// The type tag of a dynamically-typed suspension result.
#[derive(Clone, Copy, Debug, PartialEq, Eq, Structural)]
pub enum Tag {
    /// No interesting payload (yield boundaries, next-tick waits).
    Unit,
    /// A boolean payload.
    Bool,
    /// An unsigned integer payload (also used for points in time).
    Int,
    /// A text payload.
    Text,
}

/// A dynamically-typed value produced by a resolved suspension.
#[derive(Debug, PartialEq, Eq)]
pub enum DynValue {
    Unit,
    Bool(bool),
    Int(u64),
    Text(String),
}

impl Clone for DynValue {
    fn clone(&self) -> (res: Self)
        ensures
            res == self,
    {
        match self {
            DynValue::Unit => DynValue::Unit,
            DynValue::Bool(b) => DynValue::Bool(*b),
            DynValue::Int(i) => DynValue::Int(*i),
            DynValue::Text(s) => DynValue::Text(s.clone()),
        }
    }
}

impl DynValue {
    /// The tag describing which variant this value holds.
    pub open spec fn tag(self) -> Tag {
        match self {
            DynValue::Unit => Tag::Unit,
            DynValue::Bool(_) => Tag::Bool,
            DynValue::Int(_) => Tag::Int,
            DynValue::Text(_) => Tag::Text,
        }
    }

    /// Computes the tag of this value.
    pub fn tag_of(&self) -> (t: Tag)
        ensures
            t == self.tag(),
    {
        match self {
            DynValue::Unit => Tag::Unit,
            DynValue::Bool(_) => Tag::Bool,
            DynValue::Int(_) => Tag::Int,
            DynValue::Text(_) => Tag::Text,
        }
    }
}

/// A fatal, non-recoverable failure of one driver step.
///
/// These are programmer contract violations or resource-limit breaches; the
/// driver aborts the task that raised one.
#[derive(Clone, Copy, Debug, PartialEq, Eq, Structural)]
pub enum FatalError {
    /// A resolved result was extracted under the wrong type tag.
    TypeMismatch { expected: Tag, found: Tag },
    /// A binding statement ran with no resolved result to consume.
    MissingResult,
    /// The background unit of work failed (panicked or aborted).
    BackgroundFailure,
    /// A statement read the external context through views that were not
    /// re-derived after the latest resume boundary.
    StaleViews,
    /// The per-resume step budget was exhausted.
    StepLimit,
}

/// The transient per-resume envelope: the dynamically-typed result of the
/// suspension that just resolved, absent on the first resume.
///
/// The external context reference is not part of this envelope: it is handed
/// to each resume call as a separate argument and never retained across a
/// suspension boundary.
#[derive(Debug)]
pub struct CoroutineTaskInput {
    /// The result of the suspension that just resolved.
    pub async_result: Option<DynValue>,
}

impl CoroutineTaskInput {
    /// An envelope for the first resume, which has no resolved result.
    pub fn empty() -> (inp: CoroutineTaskInput)
        ensures
            inp.async_result is None,
    {
        CoroutineTaskInput { async_result: None }
    }

    /// An envelope carrying the result of a suspension that just resolved.
    pub fn with_result(v: DynValue) -> (inp: CoroutineTaskInput)
        ensures
            inp.async_result == Some(v),
    {
        CoroutineTaskInput { async_result: Some(v) }
    }

    /// Takes the resolved result out of the envelope, checking it against the
    /// type tag the resuming code expects.
    ///
    /// Succeeds exactly when a result is present and carries the expected
    /// tag; an absent result or a tag mismatch is a fatal contract violation.
    pub fn result(&mut self, expected: Tag) -> (r: Result<DynValue, FatalError>)
        ensures
            final(self).async_result is None,
            old(self).async_result is Some && old(self).async_result->0.tag() == expected ==> r
                == Ok::<DynValue, FatalError>(old(self).async_result->0),
            old(self).async_result is Some && old(self).async_result->0.tag() != expected ==> r
                == Err::<DynValue, FatalError>(
                FatalError::TypeMismatch { expected, found: old(self).async_result->0.tag() },
            ),
            old(self).async_result is None ==> r == Err::<DynValue, FatalError>(
                FatalError::MissingResult,
            ),
    {
        match self.async_result.take() {
            None => Err(FatalError::MissingResult),
            Some(v) => {
                let found = v.tag_of();
                if found == expected {
                    Ok(v)
                } else {
                    Err(FatalError::TypeMismatch { expected, found })
                }
            },
        }
    }

    /// Discards whatever result the envelope carries.
    pub fn discard(&mut self)
        ensures
            final(self).async_result is None,
    {
        self.async_result = None;
    }
}

} // verus!
