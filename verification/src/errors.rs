//! Error types of the fee-insights pipeline.

use vstd::prelude::*;

verus! {

/// Errors that can occur during insights processing.
#[derive(Debug)]
pub enum InsightsError {
    InvalidData { message: String },
    CalculationError { message: String },
    ConfigError { message: String },
    StorageError { message: String },
    InsufficientData { operation: String },
    NumericalOverflow { operation: String },
}

impl InsightsError {
    pub fn invalid_data(message: String) -> (r: Self)
        ensures
            r matches InsightsError::InvalidData { message: m } && m@ == message@,
    {
        InsightsError::InvalidData { message }
    }

    pub fn calculation_error(message: String) -> (r: Self)
        ensures
            r matches InsightsError::CalculationError { message: m } && m@ == message@,
    {
        InsightsError::CalculationError { message }
    }

    pub fn config_error(message: String) -> (r: Self)
        ensures
            r matches InsightsError::ConfigError { message: m } && m@ == message@,
    {
        InsightsError::ConfigError { message }
    }

    pub fn storage_error(message: String) -> (r: Self)
        ensures
            r matches InsightsError::StorageError { message: m } && m@ == message@,
    {
        InsightsError::StorageError { message }
    }

    pub fn insufficient_data(operation: String) -> (r: Self)
        ensures
            r matches InsightsError::InsufficientData { operation: o } && o@ == operation@,
    {
        InsightsError::InsufficientData { operation }
    }

    pub fn numerical_overflow(operation: String) -> (r: Self)
        ensures
            r matches InsightsError::NumericalOverflow { operation: o } && o@ == operation@,
    {
        InsightsError::NumericalOverflow { operation }
    }

    /// The message or operation text the error carries.
    pub fn message(&self) -> (r: String)
        ensures
            match self {
                InsightsError::InvalidData { message } => r@ == message@,
                InsightsError::CalculationError { message } => r@ == message@,
                InsightsError::ConfigError { message } => r@ == message@,
                InsightsError::StorageError { message } => r@ == message@,
                InsightsError::InsufficientData { operation } => r@ == operation@,
                InsightsError::NumericalOverflow { operation } => r@ == operation@,
            },
    {
        match self {
            InsightsError::InvalidData { message } => message.clone(),
            InsightsError::CalculationError { message } => message.clone(),
            InsightsError::ConfigError { message } => message.clone(),
            InsightsError::StorageError { message } => message.clone(),
            InsightsError::InsufficientData { operation } => operation.clone(),
            InsightsError::NumericalOverflow { operation } => operation.clone(),
        }
    }
}

/// Errors reported by a fee-data provider, classified for retry.
#[derive(Debug)]
pub enum ProviderError {
    NetworkError { message: String },
    FormatError { message: String },
    AuthError { message: String },
    RateLimitExceeded,
    ServiceUnavailable,
}

impl ProviderError {
    /// Whether the error is permanent: the same request would fail
    /// again, so a retry is pointless. Only malformed upstream data is
    /// permanent; every network-level failure is transient.
    pub open spec fn spec_is_permanent(self) -> bool {
        self is FormatError
    }

    /// Whether the error is permanent (not worth a retry).
    pub fn is_permanent(&self) -> (r: bool)
        ensures
            r == self.spec_is_permanent(),
    {
        match self {
            ProviderError::FormatError { .. } => true,
            _ => false,
        }
    }
}

/// Unified application-level error.
#[derive(Debug)]
pub enum AppError {
    Config(String),
    Network(String),
    Parse(String),
    Unknown(String),
}

/// What validation found wrong with a single sample.
#[derive(Clone, Copy, Debug, PartialEq, Eq, Structural)]
pub enum ValidationFault {
    /// The fee amount is zero.
    ZeroFee,
    /// The fee amount exceeds the accepted maximum.
    FeeTooLarge,
    /// The transaction hash is empty.
    EmptyTransactionHash,
    /// The timestamp lies more than one hour in the future.
    FutureTimestamp,
    /// The timestamp lies before the Unix epoch.
    NegativeTimestamp,
}

impl ValidationFault {
    /// The fault as readable text.
    pub fn as_text(&self) -> (r: String)
        ensures
            self is ZeroFee ==> r@ == "Zero fee amount"@,
            self is FeeTooLarge ==> r@ == "Unreasonably large fee amount"@,
            self is EmptyTransactionHash ==> r@ == "Empty transaction hash"@,
            self is FutureTimestamp ==> r@ == "Future timestamp"@,
            self is NegativeTimestamp ==> r@ == "Timestamp before the epoch"@,
    {
        match self {
            ValidationFault::ZeroFee => "Zero fee amount".to_owned(),
            ValidationFault::FeeTooLarge => "Unreasonably large fee amount".to_owned(),
            ValidationFault::EmptyTransactionHash => "Empty transaction hash".to_owned(),
            ValidationFault::FutureTimestamp => "Future timestamp".to_owned(),
            ValidationFault::NegativeTimestamp => "Timestamp before the epoch".to_owned(),
        }
    }
}

/// Index and reason of the first sample that failed validation.
#[derive(Clone, Copy, Debug, PartialEq, Eq, Structural)]
pub struct ValidationIssue {
    pub index: usize,
    pub fault: ValidationFault,
}

impl ValidationIssue {
    /// The fault as readable text.
    pub fn message(&self) -> (r: String)
        ensures
            self.fault is ZeroFee ==> r@ == "Zero fee amount"@,
            self.fault is FeeTooLarge ==> r@ == "Unreasonably large fee amount"@,
            self.fault is EmptyTransactionHash ==> r@ == "Empty transaction hash"@,
            self.fault is FutureTimestamp ==> r@ == "Future timestamp"@,
            self.fault is NegativeTimestamp ==> r@ == "Timestamp before the epoch"@,
    {
        self.fault.as_text()
    }
}

} // verus!
