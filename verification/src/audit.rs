//! The audit vocabulary: the command kinds that every mutating operation
//! reports to the audit sink. The sink itself is an external collaborator;
//! the engine only names what happened.

use vstd::prelude::*;

verus! {

/// The command kinds an audit event can speak of.
#[derive(Clone, Copy, Debug, PartialEq, Eq, Hash, Structural)]
pub enum CommandType {
    Add,
    Quote,
    Buy,
    CommitBuy,
    CancelBuy,
    Sell,
    CommitSell,
    CancelSell,
    SetBuyAmount,
    CancelSetBuy,
    SetBuyTrigger,
    SetSellAmount,
    SetSellTrigger,
    CancelSetSell,
    DumpLog,
    DisplaySummary,
}

/// The wire spelling of each command kind.
pub open spec fn spec_wire_name(c: CommandType) -> Seq<char> {
    match c {
        CommandType::Add => "ADD"@,
        CommandType::Quote => "QUOTE"@,
        CommandType::Buy => "BUY"@,
        CommandType::CommitBuy => "COMMIT_BUY"@,
        CommandType::CancelBuy => "CANCEL_BUY"@,
        CommandType::Sell => "SELL"@,
        CommandType::CommitSell => "COMMIT_SELL"@,
        CommandType::CancelSell => "CANCEL_SELL"@,
        CommandType::SetBuyAmount => "SET_BUY_AMOUNT"@,
        CommandType::CancelSetBuy => "CANCEL_SET_BUY"@,
        CommandType::SetBuyTrigger => "SET_BUY_TRIGGER"@,
        CommandType::SetSellAmount => "SET_SELL_AMOUNT"@,
        CommandType::SetSellTrigger => "SET_SELL_TRIGGER"@,
        CommandType::CancelSetSell => "CANCEL_SET_SELL"@,
        CommandType::DumpLog => "DUMP_LOG"@,
        CommandType::DisplaySummary => "DISPLAY_SUMMARY"@,
    }
}

impl CommandType {
    /// How the audit log spells this command.
    pub fn wire_name(&self) -> (r: &'static str)
        ensures
            r@ == spec_wire_name(*self),
    {
        match self {
            CommandType::Add => "ADD",
            CommandType::Quote => "QUOTE",
            CommandType::Buy => "BUY",
            CommandType::CommitBuy => "COMMIT_BUY",
            CommandType::CancelBuy => "CANCEL_BUY",
            CommandType::Sell => "SELL",
            CommandType::CommitSell => "COMMIT_SELL",
            CommandType::CancelSell => "CANCEL_SELL",
            CommandType::SetBuyAmount => "SET_BUY_AMOUNT",
            CommandType::CancelSetBuy => "CANCEL_SET_BUY",
            CommandType::SetBuyTrigger => "SET_BUY_TRIGGER",
            CommandType::SetSellAmount => "SET_SELL_AMOUNT",
            CommandType::SetSellTrigger => "SET_SELL_TRIGGER",
            CommandType::CancelSetSell => "CANCEL_SET_SELL",
            CommandType::DumpLog => "DUMP_LOG",
            CommandType::DisplaySummary => "DISPLAY_SUMMARY",
        }
    }
}

} // verus!
