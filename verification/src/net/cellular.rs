//! The cellular modem as the rest of the node sees it.

pub mod sim_com_a67;

use crate::at::AtError;
use vstd::prelude::*;

verus! {

/// Why the modem could not do what it was asked.
#[derive(Debug, Clone, Copy, PartialEq, Eq)]
pub enum CellularError {
    /// The modem did not answer in time.
    Timeout,
    /// An AT exchange failed.
    AtError(AtError),
    /// A pin could not be driven.
    GpioError,
    /// A message did not fit its buffer when it was encoded.
    Encoding,
}

/// The kind of an error, for readers that know only few kinds.
#[derive(Debug, Clone, Copy, PartialEq, Eq)]
pub enum ErrorKind {
    /// A wait ran out.
    TimedOut,
    /// Anything else.
    Other,
}

impl CellularError {
    /// The cellular error that an AT error becomes.
    pub fn from(err: AtError) -> (r: Self)
        ensures
            r == CellularError::AtError(err),
    {
        CellularError::AtError(err)
    }

    /// The kind of the error: a timeout of the modem is a wait that ran
    /// out, and every other error, a timeout inside an AT exchange too, is
    /// of the other kind.
    pub fn kind(&self) -> (r: ErrorKind)
        ensures
            r == (match *self {
                CellularError::Timeout => ErrorKind::TimedOut,
                _ => ErrorKind::Other,
            }),
    {
        match self {
            CellularError::Timeout => ErrorKind::TimedOut,
            CellularError::AtError(_) => ErrorKind::Other,
            CellularError::GpioError => ErrorKind::Other,
            CellularError::Encoding => ErrorKind::Other,
        }
    }
}

} // verus!
