//! Toplevel errors raised by the light client.

use vstd::prelude::*;
use crate::io::IoErrorKind;
use crate::types::{Duration, Height, PeerId, Status};
use crate::verification::{VerificationErrorDetail, VotingPowerTally};

verus! {

#[verifier::external_type_specification]
#[verifier::external_body]
#[verifier::reject_recursive_types(T)]
pub struct ExSendError<T>(crossbeam_channel::SendError<T>);

#[verifier::external_type_specification]
#[verifier::external_body]
pub struct ExRecvError(crossbeam_channel::RecvError);

/// What went wrong in a supervisor call.
#[derive(Debug)]
pub enum Error {
    Io(IoErrorKind),
    NoPrimary,
    NoWitnesses,
    NoWitnessesLeft,
    ForkDetected(Vec<PeerId>),
    NoInitialTrustedState,
    NoTrustedState(Status),
    TargetLowerThanTrustedState { target_height: Height, trusted_height: Height },
    HeightTooHigh { height: Height, latest_height: Height },
    TrustedStateOutsideTrustingPeriod,
    BisectionFailed { target_height: Height, trusted_height: Height },
    InvalidLightBlock(VerificationErrorDetail),
    InvalidAdjacentHeaders { hash1: crate::types::Hash, hash2: crate::types::Hash },
    MissingLastBlockId { height: Height },
    ChannelDisconnected,
    StoreBackend,
}

impl Error {
    /// The tally behind a rejection for insufficient voting power, if that is
    /// what this error is.
    pub fn not_enough_trust(&self) -> (r: Option<VotingPowerTally>)
        ensures
            match *self {
                Error::InvalidLightBlock(VerificationErrorDetail::InsufficientVotingPower(t)) => r == Some(t),
                _ => r is None,
            },
    {
        if let Error::InvalidLightBlock(VerificationErrorDetail::InsufficientVotingPower(t)) = self {
            Some(*t)
        } else {
            None
        }
    }

    /// Whether this error means the trusted state aged out of the trusting
    /// period.
    pub fn has_expired(&self) -> (r: bool)
        ensures
            r == (*self is TrustedStateOutsideTrustingPeriod),
    {
        matches!(self, Error::TrustedStateOutsideTrustingPeriod)
    }

    /// Whether this error means that a timeout occurred when querying a node.
    pub fn is_timeout(&self) -> (r: Option<Duration>)
        ensures
            match *self {
                Error::Io(IoErrorKind::Timeout(d)) => r == Some(d),
                _ => r is None,
            },
    {
        if let Error::Io(IoErrorKind::Timeout(d)) = self {
            Some(*d)
        } else {
            None
        }
    }

    pub fn is_io(&self) -> (r: bool)
        ensures
            r == (*self is Io),
    {
        matches!(self, Error::Io(_))
    }

    pub fn is_height_too_high(&self) -> (r: bool)
        ensures
            r == (*self is HeightTooHigh),
    {
        matches!(self, Error::HeightTooHigh { .. })
    }

    /// Relies on crossbeam_channel::SendError only as an opaque witness that
    /// the internal channel disconnected.
    pub fn send<T>(_e: crossbeam_channel::SendError<T>) -> (r: Error)
        ensures
            r is ChannelDisconnected,
    {
        Error::ChannelDisconnected
    }

    /// Relies on crossbeam_channel::RecvError only as an opaque witness that
    /// the internal channel disconnected.
    pub fn recv(_e: crossbeam_channel::RecvError) -> (r: Error)
        ensures
            r is ChannelDisconnected,
    {
        Error::ChannelDisconnected
    }
}

} // verus!
