//! The contract's error type and the mapping of host failures onto it.
use vstd::prelude::*;

verus! {

/// Why a call to the contract was rejected.
#[derive(Clone, Copy, Debug, PartialEq, Eq, Structural)]
pub enum ContractError {
    /// Failed parsing the parameter.
    ParseParams,
    /// Failed logging: Log is full.
    LogFull,
    /// Failed logging: Log is malformed.
    LogMalformed,
    /// Contract is paused.
    ContractPaused,
    /// Failed to invoke a contract.
    InvokeContractError,
    /// Failed to invoke a transfer.
    InvokeTransferError,
    /// Upgrade failed because the new module does not exist.
    FailedUpgradeMissingModule,
    /// Upgrade failed because the new module does not contain a contract with a
    /// matching name.
    FailedUpgradeMissingContract,
    /// Upgrade failed because the smart contract version of the module is not
    /// supported.
    FailedUpgradeUnsupportedModuleVersion,
    Unauthorized,
    ContractSender,
    InsufficientOvl,
    InsufficientOvlCredit,
    ProjectNotFound,
    InsufficientDepositedOvlCredit,
    StakeOwnerNotFound,
    InvalidSender,
    LockNotFound,
    InvalidDuration,
    NotEnoughMinStakingDuration,
    OverMaxStakingDuration,
    OverflowError,
    NotEnoughOvlSafe,
    InvalidStakingDuration,
}

pub type ContractResult<A> = Result<A, ContractError>;

/// Every error, in declaration order.
pub open spec fn all_errors_spec() -> Seq<ContractError> {
    seq![
        ContractError::ParseParams,
        ContractError::LogFull,
        ContractError::LogMalformed,
        ContractError::ContractPaused,
        ContractError::InvokeContractError,
        ContractError::InvokeTransferError,
        ContractError::FailedUpgradeMissingModule,
        ContractError::FailedUpgradeMissingContract,
        ContractError::FailedUpgradeUnsupportedModuleVersion,
        ContractError::Unauthorized,
        ContractError::ContractSender,
        ContractError::InsufficientOvl,
        ContractError::InsufficientOvlCredit,
        ContractError::ProjectNotFound,
        ContractError::InsufficientDepositedOvlCredit,
        ContractError::StakeOwnerNotFound,
        ContractError::InvalidSender,
        ContractError::LockNotFound,
        ContractError::InvalidDuration,
        ContractError::NotEnoughMinStakingDuration,
        ContractError::OverMaxStakingDuration,
        ContractError::OverflowError,
        ContractError::NotEnoughOvlSafe,
        ContractError::InvalidStakingDuration,
    ]
}

impl ContractError {
    /// The list answered by the error view: every error once, in declaration
    /// order.
    pub fn all() -> (r: Vec<ContractError>)
        ensures
            r@ == all_errors_spec(),
    {
        let r = vec![
            ContractError::ParseParams,
            ContractError::LogFull,
            ContractError::LogMalformed,
            ContractError::ContractPaused,
            ContractError::InvokeContractError,
            ContractError::InvokeTransferError,
            ContractError::FailedUpgradeMissingModule,
            ContractError::FailedUpgradeMissingContract,
            ContractError::FailedUpgradeUnsupportedModuleVersion,
            ContractError::Unauthorized,
            ContractError::ContractSender,
            ContractError::InsufficientOvl,
            ContractError::InsufficientOvlCredit,
            ContractError::ProjectNotFound,
            ContractError::InsufficientDepositedOvlCredit,
            ContractError::StakeOwnerNotFound,
            ContractError::InvalidSender,
            ContractError::LockNotFound,
            ContractError::InvalidDuration,
            ContractError::NotEnoughMinStakingDuration,
            ContractError::OverMaxStakingDuration,
            ContractError::OverflowError,
            ContractError::NotEnoughOvlSafe,
            ContractError::InvalidStakingDuration,
        ];
        assert(r@ =~= all_errors_spec());
        r
    }

    /// Maps a failure to write to the event log.
    pub fn from_log_failure(e: LogFailure) -> (r: ContractError)
        ensures
            r == (match e {
                LogFailure::Full => ContractError::LogFull,
                LogFailure::Malformed => ContractError::LogMalformed,
            }),
    {
        match e {
            LogFailure::Full => ContractError::LogFull,
            LogFailure::Malformed => ContractError::LogMalformed,
        }
    }

    /// Maps a failed contract invocation, whatever its cause.
    pub fn from_call_contract_failure() -> (r: ContractError)
        ensures
            r == ContractError::InvokeContractError,
    {
        ContractError::InvokeContractError
    }

    /// Maps a failed transfer, whatever its cause.
    pub fn from_transfer_failure() -> (r: ContractError)
        ensures
            r == ContractError::InvokeTransferError,
    {
        ContractError::InvokeTransferError
    }

    /// Maps a failed upgrade.
    pub fn from_upgrade_failure(e: UpgradeFailure) -> (r: ContractError)
        ensures
            r == (match e {
                UpgradeFailure::MissingModule => ContractError::FailedUpgradeMissingModule,
                UpgradeFailure::MissingContract => ContractError::FailedUpgradeMissingContract,
                UpgradeFailure::UnsupportedModuleVersion =>
                    ContractError::FailedUpgradeUnsupportedModuleVersion,
            }),
    {
        match e {
            UpgradeFailure::MissingModule => ContractError::FailedUpgradeMissingModule,
            UpgradeFailure::MissingContract => ContractError::FailedUpgradeMissingContract,
            UpgradeFailure::UnsupportedModuleVersion =>
                ContractError::FailedUpgradeUnsupportedModuleVersion,
        }
    }
}

/// Why writing to the event log failed.
#[derive(Clone, Copy, Debug, PartialEq, Eq, Structural)]
pub enum LogFailure {
    Full,
    Malformed,
}

/// Why a module upgrade failed.
#[derive(Clone, Copy, Debug, PartialEq, Eq, Structural)]
pub enum UpgradeFailure {
    MissingModule,
    MissingContract,
    UnsupportedModuleVersion,
}

} // verus!
