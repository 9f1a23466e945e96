//! The workload command language.
//!
//! A workload line reads `[n] COMMAND,arg,...`: a request number in
//! brackets, one space, the command word, and its comma-separated arguments.
//! This module parses lines into typed commands; money arguments are decimal
//! dollar strings parsed into cents.

use vstd::prelude::*;
use vstd::string::StrSliceExecFns;

use crate::money::{parse_cents, spec_parse_cents};
use crate::wire::{split_commas, split_commas_exec};

verus! {

/// Why one argument list was rejected.
#[derive(Debug, Clone, PartialEq, Eq)]
pub enum CommandParseFailure {
    /// The argument at `position` was missing.
    MissingArgs { position: u8, missing_arg_name: &'static str },
    /// A money argument was not a decimal amount.
    FloatParseError { arg_name: &'static str, value: String },
    /// More arguments followed the expected ones.
    TooManyArguments { expected_count: u8, unexpected_arg: String },
}

/// Why one workload line was rejected.
#[derive(Debug, Clone, PartialEq, Eq)]
pub enum ParseLoadTestCommandError {
    /// No space separates the request number from the command.
    MissingSpace { value: String },
    /// Nothing followed the request number.
    MissingCommand { value: String },
    /// The bracketed request number was not a number.
    InvalidRequestNum { value: String },
    /// The command word is not one the language knows.
    UnknownCommand { value: String, command: String },
    /// The command word is known but its arguments were rejected.
    CommandParseFailure { command: String, value: String, reason: CommandParseFailure },
}

/// Deposit command arguments: a user and a dollar amount in cents.
#[derive(Debug, Clone, PartialEq, Eq)]
pub struct LoadTestAdd {
    pub user_id: String,
    pub amount: u64,
    pub request_num: i32,
}

/// Arguments of the commands that name only a user.
#[derive(Debug, Clone, PartialEq, Eq)]
pub struct LoadTestUserIdCommand {
    pub user_id: String,
    pub request_num: i32,
}

/// Arguments of the commands that name a user and a stock symbol.
#[derive(Debug, Clone, PartialEq, Eq)]
pub struct LoadTestUserIdStockSymbolCommand {
    pub user_id: String,
    pub stock_symbol: String,
}

/// Arguments of the commands that name a user, a stock symbol and an
/// amount in cents.
#[derive(Debug, Clone, PartialEq, Eq)]
pub struct LoadTestUserIdStockSymbolAmountCommand {
    pub user_id: String,
    pub stock_symbol: String,
    pub amount: u64,
    pub request_num: i32,
}

/// A log dump of one user's history into a file.
#[derive(Debug, Clone, PartialEq, Eq)]
pub struct LoadTestDumpLogUserIdFileName {
    pub user_id: String,
    pub file_name: String,
    pub request_num: i32,
}

/// A log dump of the whole system into a file.
#[derive(Debug, Clone, PartialEq, Eq)]
pub struct LoadTestDumpLogFileName {
    pub file_name: String,
    pub request_num: i32,
}

/// A file to fetch for a workload run.
#[derive(Debug, Clone, PartialEq, Eq)]
pub struct LoadTestFileCommand {
    pub file: String,
}

/// The two shapes of a `DUMPLOG` command.
#[derive(Debug, Clone, PartialEq, Eq)]
pub enum DumpLog {
    User(LoadTestDumpLogUserIdFileName),
    NoUser(LoadTestDumpLogFileName),
}

/// One parsed workload command.
#[derive(Debug, Clone, PartialEq, Eq)]
pub enum LoadTestCommand {
    Add(LoadTestAdd),
    Quote(LoadTestUserIdStockSymbolCommand),
    Buy(LoadTestUserIdStockSymbolAmountCommand),
    CommitBuy(LoadTestUserIdCommand),
    CancelBuy(LoadTestUserIdCommand),
    Sell(LoadTestUserIdStockSymbolAmountCommand),
    CommitSell(LoadTestUserIdCommand),
    CancelSell(LoadTestUserIdCommand),
    SetBuyAmount(LoadTestUserIdStockSymbolAmountCommand),
    CancelSetBuy(LoadTestUserIdStockSymbolCommand),
    SetBuyTrigger(LoadTestUserIdStockSymbolAmountCommand),
    SetSellAmount(LoadTestUserIdStockSymbolAmountCommand),
    SetSellTrigger(LoadTestUserIdStockSymbolAmountCommand),
    CancelSetSell(LoadTestUserIdStockSymbolCommand),
    DisplaySummary(LoadTestUserIdCommand),
    DumpLogFileName(LoadTestDumpLogFileName),
    DumpLogUser(LoadTestDumpLogUserIdFileName),
}

/// The kinds of command a fuzzing run can be told to draw from.
#[derive(Clone, Copy, Debug, PartialEq, Eq, Structural)]
pub enum LoadTestCommandType {
    Add,
    Quote,
    Buy,
    CommitBuy,
    CancelBuy,
    Sell,
    CommitSell,
    CancelSell,
    SetBuyAmount,
    CancelSetBuy,
    SetBuyTrigger,
    SetSellAmount,
    SetSellTrigger,
    CancelSetSell,
    DisplaySummary,
    DumpLogFileName,
    DumpLogUser,
}

/// Relies on `str`'s `PartialEq`: two string slices compare equal exactly
/// when their characters do.
#[verifier::external_body]
fn str_eq(a: &str, b: &str) -> (r: bool)
    ensures
        r == (a@ == b@),
{
    a == b
}

// ---------------------------------------------------------------------------
// The argument cursor.
// ---------------------------------------------------------------------------

/// A command's argument list, read left to right.
pub struct CommandArgs {
    pub fields: Vec<String>,
    pub pos: usize,
}

impl CommandArgs {
    /// Start reading an argument list.
    pub fn new(fields: Vec<String>) -> (r: CommandArgs)
        ensures
            r.fields == fields,
            r.pos == 0,
    {
        CommandArgs { fields, pos: 0 }
    }

    /// Take the next argument, or report which one is missing.
    pub fn get_next_str(&mut self, arg_name: &'static str, position: u8) -> (r: Result<
        String,
        CommandParseFailure,
    >)
        ensures
            final(self).fields == old(self).fields,
            match r {
                Ok(s) => old(self).pos < old(self).fields@.len() && s@ == old(
                    self,
                ).fields@[old(self).pos as int]@ && final(self).pos == old(self).pos + 1,
                Err(e) => old(self).pos >= old(self).fields@.len() && final(self).pos == old(
                    self,
                ).pos && (e matches CommandParseFailure::MissingArgs {
                    position: p,
                    missing_arg_name: m,
                } && p == position && m@ == arg_name@),
            },
    {
        if self.pos < self.fields.len() {
            let s = self.fields[self.pos].clone();
            self.pos = self.pos + 1;
            Ok(s)
        } else {
            Err(CommandParseFailure::MissingArgs { position, missing_arg_name: arg_name })
        }
    }

    /// Take the next argument as a user id.
    pub fn user_id(&mut self, position: u8) -> (r: Result<String, CommandParseFailure>)
        ensures
            final(self).fields == old(self).fields,
            match r {
                Ok(s) => old(self).pos < old(self).fields@.len() && s@ == old(
                    self,
                ).fields@[old(self).pos as int]@ && final(self).pos == old(self).pos + 1,
                Err(e) => old(self).pos >= old(self).fields@.len() && final(self).pos == old(
                    self,
                ).pos && (e matches CommandParseFailure::MissingArgs {
                    position: p,
                    missing_arg_name: m,
                } && p == position && m@ == "user_id"@),
            },
    {
        self.get_next_str("user_id", position)
    }

    /// Take the next argument as a stock symbol.
    pub fn stock_symbol(&mut self, position: u8) -> (r: Result<String, CommandParseFailure>)
        ensures
            final(self).fields == old(self).fields,
            match r {
                Ok(s) => old(self).pos < old(self).fields@.len() && s@ == old(
                    self,
                ).fields@[old(self).pos as int]@ && final(self).pos == old(self).pos + 1,
                Err(e) => old(self).pos >= old(self).fields@.len() && final(self).pos == old(
                    self,
                ).pos && (e matches CommandParseFailure::MissingArgs {
                    position: p,
                    missing_arg_name: m,
                } && p == position && m@ == "stock_symbol"@),
            },
    {
        self.get_next_str("stock_symbol", position)
    }

    /// Take the next argument as a file name.
    pub fn file_name(&mut self, position: u8) -> (r: Result<String, CommandParseFailure>)
        ensures
            final(self).fields == old(self).fields,
            match r {
                Ok(s) => old(self).pos < old(self).fields@.len() && s@ == old(
                    self,
                ).fields@[old(self).pos as int]@ && final(self).pos == old(self).pos + 1,
                Err(e) => old(self).pos >= old(self).fields@.len() && final(self).pos == old(
                    self,
                ).pos && (e matches CommandParseFailure::MissingArgs {
                    position: p,
                    missing_arg_name: m,
                } && p == position && m@ == "file_name"@),
            },
    {
        self.get_next_str("file_name", position)
    }

    /// Take the next argument as a decimal dollar amount, in cents.
    pub fn amount(&mut self, position: u8) -> (r: Result<u64, CommandParseFailure>)
        ensures
            final(self).fields == old(self).fields,
            match r {
                Ok(a) => old(self).pos < old(self).fields@.len() && spec_parse_cents(
                    old(self).fields@[old(self).pos as int]@,
                ) == Some(a) && final(self).pos == old(self).pos + 1,
                Err(e) => match e {
                    CommandParseFailure::MissingArgs { position: p, missing_arg_name: m } => old(
                        self,
                    ).pos >= old(self).fields@.len() && final(self).pos == old(self).pos && p
                        == position && m@ == "amount"@,
                    CommandParseFailure::FloatParseError { arg_name: a, value: v } => old(self).pos
                        < old(self).fields@.len() && spec_parse_cents(
                        old(self).fields@[old(self).pos as int]@,
                    ) is None && v@ == old(self).fields@[old(self).pos as int]@ && a@ == "amount"@
                        && final(self).pos == old(self).pos + 1,
                    _ => false,
                },
            },
    {
        let s = self.get_next_str("amount", position);
        match s {
            Ok(s) => match parse_cents(s.as_str()) {
                Some(a) => Ok(a),
                None => Err(
                    CommandParseFailure::FloatParseError { arg_name: "amount", value: s },
                ),
            },
            Err(e) => Err(e),
        }
    }

    /// Demand that every argument has been consumed.
    pub fn require_finished(&mut self, expected_count: u8) -> (r: Result<(), CommandParseFailure>)
        ensures
            *final(self) == *old(self),
            match r {
                Ok(()) => old(self).pos >= old(self).fields@.len(),
                Err(e) => old(self).pos < old(self).fields@.len() && (e
                    matches CommandParseFailure::TooManyArguments {
                    expected_count: c,
                    unexpected_arg: u,
                } && c == expected_count && u@ == old(self).fields@[old(self).pos as int]@),
            },
    {
        if self.pos < self.fields.len() {
            Err(
                CommandParseFailure::TooManyArguments {
                    expected_count,
                    unexpected_arg: self.fields[self.pos].clone(),
                },
            )
        } else {
            Ok(())
        }
    }
}


// ---------------------------------------------------------------------------
// What each command's argument list must look like.
// ---------------------------------------------------------------------------

/// A one-argument command parsed: the single field is the user id.
pub open spec fn user_cmd_ok(c: LoadTestUserIdCommand, rn: i32, args: Seq<Seq<char>>) -> bool {
    args.len() == 1 && c.user_id@ == args[0] && c.request_num == rn
}

/// Why a one-argument command was rejected.
pub open spec fn user_cmd_err(args: Seq<Seq<char>>, e: CommandParseFailure) -> bool {
    match e {
        CommandParseFailure::MissingArgs { position, missing_arg_name } => args.len() == 0
            && position == 0 && missing_arg_name@ == "user_id"@,
        CommandParseFailure::TooManyArguments { expected_count, unexpected_arg } => args.len() > 1
            && expected_count == 1 && unexpected_arg@ == args[1],
        _ => false,
    }
}

/// A user-and-symbol command parsed.
pub open spec fn user_symbol_cmd_ok(c: LoadTestUserIdStockSymbolCommand, args: Seq<Seq<char>>)
    -> bool {
    args.len() == 2 && c.user_id@ == args[0] && c.stock_symbol@ == args[1]
}

/// Why a user-and-symbol command was rejected.
pub open spec fn user_symbol_cmd_err(args: Seq<Seq<char>>, e: CommandParseFailure) -> bool {
    match e {
        CommandParseFailure::MissingArgs { position, missing_arg_name } => (args.len() == 0
            && position == 0 && missing_arg_name@ == "user_id"@) || (args.len() == 1 && position
            == 1 && missing_arg_name@ == "stock_symbol"@),
        CommandParseFailure::TooManyArguments { expected_count, unexpected_arg } => args.len() > 2
            && expected_count == 2 && unexpected_arg@ == args[2],
        _ => false,
    }
}

/// A deposit command parsed: user id and a decimal amount in cents.
pub open spec fn add_cmd_ok(c: LoadTestAdd, rn: i32, args: Seq<Seq<char>>) -> bool {
    args.len() == 2 && c.user_id@ == args[0] && spec_parse_cents(args[1]) == Some(c.amount)
        && c.request_num == rn
}

/// Why a deposit command was rejected.
pub open spec fn add_cmd_err(args: Seq<Seq<char>>, e: CommandParseFailure) -> bool {
    match e {
        CommandParseFailure::MissingArgs { position, missing_arg_name } => (args.len() == 0
            && position == 0 && missing_arg_name@ == "user_id"@) || (args.len() == 1 && position
            == 1 && missing_arg_name@ == "amount"@),
        CommandParseFailure::FloatParseError { arg_name, value } => args.len() >= 2
            && spec_parse_cents(args[1]) is None && value@ == args[1] && arg_name@ == "amount"@,
        CommandParseFailure::TooManyArguments { expected_count, unexpected_arg } => args.len() > 2
            && spec_parse_cents(args[1]) is Some && expected_count == 2 && unexpected_arg@
            == args[2],
    }
}

/// A user, symbol and amount command parsed.
pub open spec fn amount_cmd_ok(
    c: LoadTestUserIdStockSymbolAmountCommand,
    rn: i32,
    args: Seq<Seq<char>>,
) -> bool {
    args.len() == 3 && c.user_id@ == args[0] && c.stock_symbol@ == args[1] && spec_parse_cents(
        args[2],
    ) == Some(c.amount) && c.request_num == rn
}

/// Why a user, symbol and amount command was rejected.
pub open spec fn amount_cmd_err(args: Seq<Seq<char>>, e: CommandParseFailure) -> bool {
    match e {
        CommandParseFailure::MissingArgs { position, missing_arg_name } => (args.len() == 0
            && position == 0 && missing_arg_name@ == "user_id"@) || (args.len() == 1 && position
            == 1 && missing_arg_name@ == "stock_symbol"@) || (args.len() == 2 && position == 2
            && missing_arg_name@ == "amount"@),
        CommandParseFailure::FloatParseError { arg_name, value } => args.len() >= 3
            && spec_parse_cents(args[2]) is None && value@ == args[2] && arg_name@ == "amount"@,
        CommandParseFailure::TooManyArguments { expected_count, unexpected_arg } => args.len() > 3
            && spec_parse_cents(args[2]) is Some && expected_count == 3 && unexpected_arg@
            == args[3],
    }
}

/// A log-dump command parsed: one field dumps everything to the file, two
/// fields dump one user's history.
pub open spec fn dumplog_cmd_ok(d: DumpLog, rn: i32, args: Seq<Seq<char>>) -> bool {
    match d {
        DumpLog::NoUser(c) => args.len() == 1 && c.file_name@ == args[0] && c.request_num == rn,
        DumpLog::User(c) => args.len() == 2 && c.user_id@ == args[0] && c.file_name@ == args[1]
            && c.request_num == rn,
    }
}

/// Why a log-dump command was rejected.
pub open spec fn dumplog_cmd_err(args: Seq<Seq<char>>, e: CommandParseFailure) -> bool {
    match e {
        CommandParseFailure::MissingArgs { position, missing_arg_name } => args.len() == 0
            && position == 0 && missing_arg_name@ == "user_id or filename (ambiguous)"@,
        CommandParseFailure::TooManyArguments { expected_count, unexpected_arg } => args.len() > 2
            && expected_count == 2 && unexpected_arg@ == args[2],
        _ => false,
    }
}

// ---------------------------------------------------------------------------
// The argument parsers.
// ---------------------------------------------------------------------------

impl LoadTestUserIdCommand {
    /// Read `user_id` and demand the list ends there.
    pub fn try_from_args(request_num: i32, args: &mut CommandArgs) -> (r: Result<
        LoadTestUserIdCommand,
        CommandParseFailure,
    >)
        requires
            old(args).pos == 0,
        ensures
            match r {
                Ok(c) => user_cmd_ok(c, request_num, old(args).fields.deep_view()),
                Err(e) => user_cmd_err(old(args).fields.deep_view(), e),
            },
    {
        let user_id = match args.user_id(0) {
            Ok(u) => u,
            Err(e) => {
                return Err(e);
            },
        };
        match args.require_finished(1) {
            Ok(()) => Ok(LoadTestUserIdCommand { user_id, request_num }),
            Err(e) => Err(e),
        }
    }
}

impl LoadTestUserIdStockSymbolCommand {
    /// Read `user_id` and `stock_symbol` and demand the list ends there.
    pub fn try_from_args(args: &mut CommandArgs) -> (r: Result<
        LoadTestUserIdStockSymbolCommand,
        CommandParseFailure,
    >)
        requires
            old(args).pos == 0,
        ensures
            match r {
                Ok(c) => user_symbol_cmd_ok(c, old(args).fields.deep_view()),
                Err(e) => user_symbol_cmd_err(old(args).fields.deep_view(), e),
            },
    {
        let user_id = match args.user_id(0) {
            Ok(u) => u,
            Err(e) => {
                return Err(e);
            },
        };
        let stock_symbol = match args.stock_symbol(1) {
            Ok(s) => s,
            Err(e) => {
                return Err(e);
            },
        };
        match args.require_finished(2) {
            Ok(()) => Ok(LoadTestUserIdStockSymbolCommand { user_id, stock_symbol }),
            Err(e) => Err(e),
        }
    }
}

impl LoadTestAdd {
    /// Read `user_id` and the deposit amount and demand the list ends there.
    pub fn try_from_args(request_num: i32, args: &mut CommandArgs) -> (r: Result<
        LoadTestAdd,
        CommandParseFailure,
    >)
        requires
            old(args).pos == 0,
        ensures
            match r {
                Ok(c) => add_cmd_ok(c, request_num, old(args).fields.deep_view()),
                Err(e) => add_cmd_err(old(args).fields.deep_view(), e),
            },
    {
        let user_id = match args.user_id(0) {
            Ok(u) => u,
            Err(e) => {
                return Err(e);
            },
        };
        let amount = match args.amount(1) {
            Ok(a) => a,
            Err(e) => {
                return Err(e);
            },
        };
        match args.require_finished(2) {
            Ok(()) => Ok(LoadTestAdd { user_id, amount, request_num }),
            Err(e) => Err(e),
        }
    }
}

impl LoadTestUserIdStockSymbolAmountCommand {
    /// Read `user_id`, `stock_symbol` and the amount and demand the list
    /// ends there.
    pub fn try_from_args(request_num: i32, args: &mut CommandArgs) -> (r: Result<
        LoadTestUserIdStockSymbolAmountCommand,
        CommandParseFailure,
    >)
        requires
            old(args).pos == 0,
        ensures
            match r {
                Ok(c) => amount_cmd_ok(c, request_num, old(args).fields.deep_view()),
                Err(e) => amount_cmd_err(old(args).fields.deep_view(), e),
            },
    {
        let user_id = match args.user_id(0) {
            Ok(u) => u,
            Err(e) => {
                return Err(e);
            },
        };
        let stock_symbol = match args.stock_symbol(1) {
            Ok(s) => s,
            Err(e) => {
                return Err(e);
            },
        };
        let amount = match args.amount(2) {
            Ok(a) => a,
            Err(e) => {
                return Err(e);
            },
        };
        match args.require_finished(3) {
            Ok(()) => Ok(
                LoadTestUserIdStockSymbolAmountCommand {
                    user_id,
                    stock_symbol,
                    amount,
                    request_num,
                },
            ),
            Err(e) => Err(e),
        }
    }
}

impl DumpLog {
    /// One field names a file for a full dump; two name a user and a file.
    pub fn try_from_args(request_num: i32, args: &mut CommandArgs) -> (r: Result<
        DumpLog,
        CommandParseFailure,
    >)
        requires
            old(args).pos == 0,
        ensures
            match r {
                Ok(d) => dumplog_cmd_ok(d, request_num, old(args).fields.deep_view()),
                Err(e) => dumplog_cmd_err(old(args).fields.deep_view(), e),
            },
    {
        let arg1 = match args.get_next_str("user_id or filename (ambiguous)", 0) {
            Ok(a) => a,
            Err(e) => {
                return Err(e);
            },
        };
        if args.pos >= args.fields.len() {
            return Ok(DumpLog::NoUser(LoadTestDumpLogFileName { file_name: arg1, request_num }));
        }
        let file_name = match args.file_name(1) {
            Ok(f) => f,
            Err(e) => {
                return Err(e);
            },
        };
        match args.require_finished(2) {
            Ok(()) => Ok(
                DumpLog::User(
                    LoadTestDumpLogUserIdFileName { user_id: arg1, file_name, request_num },
                ),
            ),
            Err(e) => Err(e),
        }
    }
}


// ---------------------------------------------------------------------------
// The line parser.
// ---------------------------------------------------------------------------

/// The sixteen command words the language knows.
pub open spec fn known_command(name: Seq<char>) -> bool {
    ||| name == "ADD"@
    ||| name == "QUOTE"@
    ||| name == "BUY"@
    ||| name == "COMMIT_BUY"@
    ||| name == "CANCEL_BUY"@
    ||| name == "SELL"@
    ||| name == "COMMIT_SELL"@
    ||| name == "CANCEL_SELL"@
    ||| name == "SET_BUY_AMOUNT"@
    ||| name == "CANCEL_SET_BUY"@
    ||| name == "SET_BUY_TRIGGER"@
    ||| name == "SET_SELL_AMOUNT"@
    ||| name == "SET_SELL_TRIGGER"@
    ||| name == "CANCEL_SET_SELL"@
    ||| name == "DISPLAY_SUMMARY"@
    ||| name == "DUMPLOG"@
}

/// The request number before the space: digits, optionally in brackets,
/// small enough for a request counter.
pub open spec fn spec_parse_request_num(s: Seq<char>) -> Option<i32> {
    let t = if s.len() >= 1 && s[0] == '[' {
        s.skip(1)
    } else {
        s
    };
    let t2 = if t.len() >= 1 && t.last() == ']' {
        t.drop_last()
    } else {
        t
    };
    match crate::money::spec_parse_u64(t2) {
        Some(v) => if v <= 0x7fffffff {
            Some(v as i32)
        } else {
            None
        },
        None => None,
    }
}

/// Parse the bracketed request number.
pub fn parse_request_num(s: &str) -> (r: Option<i32>)
    ensures
        r == spec_parse_request_num(s@),
{
    let n = s.unicode_len();
    let start: usize = if n >= 1 && s.get_char(0) == '[' {
        1
    } else {
        0
    };
    let end: usize = if n > start && s.get_char(n - 1) == ']' {
        n - 1
    } else {
        n
    };
    let core = s.substring_char(start, end);
    proof {
        let t = if s@.len() >= 1 && s@[0] == '[' {
            s@.skip(1)
        } else {
            s@
        };
        let t2 = if t.len() >= 1 && t.last() == ']' {
            t.drop_last()
        } else {
            t
        };
        assert(core@ =~= t2);
    }
    match crate::money::parse_u64(core) {
        Some(v) => if v <= 0x7fffffff {
            Some(v as i32)
        } else {
            None
        },
        None => None,
    }
}

/// Which error the arguments of a known command produce.
pub open spec fn command_args_err(
    name: Seq<char>,
    args: Seq<Seq<char>>,
    e: CommandParseFailure,
) -> bool {
    if name == "ADD"@ {
        add_cmd_err(args, e)
    } else if name == "QUOTE"@ || name == "CANCEL_SET_BUY"@ || name == "CANCEL_SET_SELL"@ {
        user_symbol_cmd_err(args, e)
    } else if name == "BUY"@ || name == "SELL"@ || name == "SET_BUY_AMOUNT"@ || name
        == "SET_SELL_TRIGGER"@ || name == "SET_SELL_AMOUNT"@ || name == "SET_BUY_TRIGGER"@ {
        amount_cmd_err(args, e)
    } else if name == "COMMIT_BUY"@ || name == "COMMIT_SELL"@ || name == "CANCEL_SELL"@ || name
        == "DISPLAY_SUMMARY"@ || name == "CANCEL_BUY"@ {
        user_cmd_err(args, e)
    } else if name == "DUMPLOG"@ {
        dumplog_cmd_err(args, e)
    } else {
        false
    }
}

/// Which command a line with a known command word parses to.
pub open spec fn parsed_command_ok(
    cmd: LoadTestCommand,
    rn: i32,
    name: Seq<char>,
    args: Seq<Seq<char>>,
) -> bool {
    match cmd {
        LoadTestCommand::Add(c) => name == "ADD"@ && add_cmd_ok(c, rn, args),
        LoadTestCommand::Quote(c) => name == "QUOTE"@ && user_symbol_cmd_ok(c, args),
        LoadTestCommand::Buy(c) => name == "BUY"@ && amount_cmd_ok(c, rn, args),
        LoadTestCommand::CommitBuy(c) => name == "COMMIT_BUY"@ && user_cmd_ok(c, rn, args),
        LoadTestCommand::CancelBuy(c) => name == "CANCEL_BUY"@ && user_cmd_ok(c, rn, args),
        LoadTestCommand::Sell(c) => name == "SELL"@ && amount_cmd_ok(c, rn, args),
        LoadTestCommand::CommitSell(c) => name == "COMMIT_SELL"@ && user_cmd_ok(c, rn, args),
        LoadTestCommand::CancelSell(c) => name == "CANCEL_SELL"@ && user_cmd_ok(c, rn, args),
        LoadTestCommand::SetBuyAmount(c) => name == "SET_BUY_AMOUNT"@ && amount_cmd_ok(
            c,
            rn,
            args,
        ),
        LoadTestCommand::CancelSetBuy(c) => name == "CANCEL_SET_BUY"@ && user_symbol_cmd_ok(
            c,
            args,
        ),
        LoadTestCommand::SetBuyTrigger(c) => name == "SET_BUY_TRIGGER"@ && amount_cmd_ok(
            c,
            rn,
            args,
        ),
        LoadTestCommand::SetSellAmount(c) => name == "SET_SELL_AMOUNT"@ && amount_cmd_ok(
            c,
            rn,
            args,
        ),
        LoadTestCommand::SetSellTrigger(c) => name == "SET_SELL_TRIGGER"@ && amount_cmd_ok(
            c,
            rn,
            args,
        ),
        LoadTestCommand::CancelSetSell(c) => name == "CANCEL_SET_SELL"@ && user_symbol_cmd_ok(
            c,
            args,
        ),
        LoadTestCommand::DisplaySummary(c) => name == "DISPLAY_SUMMARY"@ && user_cmd_ok(
            c,
            rn,
            args,
        ),
        LoadTestCommand::DumpLogFileName(c) => name == "DUMPLOG"@ && dumplog_cmd_ok(
            DumpLog::NoUser(c),
            rn,
            args,
        ),
        LoadTestCommand::DumpLogUser(c) => name == "DUMPLOG"@ && dumplog_cmd_ok(
            DumpLog::User(c),
            rn,
            args,
        ),
    }
}

impl LoadTestCommand {
    /// Parse one workload line: the bracketed request number, a space, the
    /// command word, and its comma-separated arguments.
    pub fn try_from_line(value: &str) -> (r: Result<LoadTestCommand, ParseLoadTestCommandError>)
        ensures
            ({
                let s = value@;
                match s.index_of_first(' ') {
                    None => r matches Err(ParseLoadTestCommandError::MissingSpace { value: v })
                        && v@ == s,
                    Some(k) => match spec_parse_request_num(s.take(k)) {
                        None => r matches Err(
                            ParseLoadTestCommandError::InvalidRequestNum { value: v },
                        ) && v@ == s.take(k),
                        Some(rn) => {
                            let fs = split_commas(s.skip(k + 1));
                            let name = fs[0];
                            let args = fs.skip(1);
                            if !known_command(name) {
                                r matches Err(
                                    ParseLoadTestCommandError::UnknownCommand {
                                        value: v,
                                        command: c,
                                    },
                                ) && v@ == s && c@ == name
                            } else {
                                match r {
                                    Ok(cmd) => parsed_command_ok(cmd, rn, name, args),
                                    Err(
                                        ParseLoadTestCommandError::CommandParseFailure {
                                            command,
                                            value: v,
                                            reason,
                                        },
                                    ) => command@ == name && v@ == s && command_args_err(
                                        name,
                                        args,
                                        reason,
                                    ),
                                    Err(_) => false,
                                }
                            }
                        },
                    },
                }
            }),
    {
        proof {
            value@.index_of_first_ensures(' ');
        }
        let n = value.unicode_len();
        let mut k: usize = 0;
        let mut found_space = false;
        while k < n
            invariant_except_break
                n == value@.len(),
                k <= n,
                !found_space,
                forall|j: int| 0 <= j < k ==> value@[j] != ' ',
            ensures
                n == value@.len(),
                k <= n,
                forall|j: int| 0 <= j < k ==> value@[j] != ' ',
                found_space ==> k < n && value@[k as int] == ' ',
                !found_space ==> k == n,
            decreases n - k,
        {
            if value.get_char(k) == ' ' {
                found_space = true;
                break ;
            }
            k += 1;
        }
        if !found_space {
            proof {
                assert(value@.index_of_first(' ') is None) by {
                    if value@.contains(' ') {
                        let d = value@.index_of_first(' ')->Some_0;
                        assert(value@[d] == ' ');
                    }
                }
            }
            return Err(ParseLoadTestCommandError::MissingSpace { value: value.to_owned() });
        }
        proof {
            assert(value@.index_of_first(' ') == Some(k as int)) by {
                assert(value@.contains(' ')) by {
                    assert(value@[k as int] == ' ');
                }
                let d = value@.index_of_first(' ')->Some_0;
                assert(value@[d] == ' ');
                assert(d >= k);
            }
        }
        let num_str = value.substring_char(0, k);
        let rest = value.substring_char(k + 1, n);
        proof {
            assert(num_str@ =~= value@.take(k as int));
            assert(rest@ =~= value@.skip(k as int + 1));
        }
        let request_num = match parse_request_num(num_str) {
            Some(rn) => rn,
            None => {
                return Err(
                    ParseLoadTestCommandError::InvalidRequestNum { value: num_str.to_owned() },
                );
            },
        };
        let mut fields = split_commas_exec(rest);
        let ghost fsv = split_commas(rest@);
        proof {
            assert(fields.deep_view().len() == fields@.len());
            assert(fields.deep_view()[0] == fields@[0]@);
        }
        let name = fields.remove(0);
        let ghost argsv = fsv.skip(1);
        let mut args = CommandArgs::new(fields);
        proof {
            assert(name@ == fsv[0]);
            assert(args.fields.deep_view() =~= argsv);
        }
        if str_eq(name.as_str(), "ADD") {
            match LoadTestAdd::try_from_args(request_num, &mut args) {
                Ok(c) => Ok(LoadTestCommand::Add(c)),
                Err(reason) => Err(
                    ParseLoadTestCommandError::CommandParseFailure {
                        command: name,
                        value: value.to_owned(),
                        reason,
                    },
                ),
            }
        } else if str_eq(name.as_str(), "QUOTE") {
            match LoadTestUserIdStockSymbolCommand::try_from_args(&mut args) {
                Ok(c) => Ok(LoadTestCommand::Quote(c)),
                Err(reason) => Err(
                    ParseLoadTestCommandError::CommandParseFailure {
                        command: name,
                        value: value.to_owned(),
                        reason,
                    },
                ),
            }
        } else if str_eq(name.as_str(), "CANCEL_SET_BUY") {
            match LoadTestUserIdStockSymbolCommand::try_from_args(&mut args) {
                Ok(c) => Ok(LoadTestCommand::CancelSetBuy(c)),
                Err(reason) => Err(
                    ParseLoadTestCommandError::CommandParseFailure {
                        command: name,
                        value: value.to_owned(),
                        reason,
                    },
                ),
            }
        } else if str_eq(name.as_str(), "CANCEL_SET_SELL") {
            match LoadTestUserIdStockSymbolCommand::try_from_args(&mut args) {
                Ok(c) => Ok(LoadTestCommand::CancelSetSell(c)),
                Err(reason) => Err(
                    ParseLoadTestCommandError::CommandParseFailure {
                        command: name,
                        value: value.to_owned(),
                        reason,
                    },
                ),
            }
        } else if str_eq(name.as_str(), "BUY") {
            match LoadTestUserIdStockSymbolAmountCommand::try_from_args(request_num, &mut args) {
                Ok(c) => Ok(LoadTestCommand::Buy(c)),
                Err(reason) => Err(
                    ParseLoadTestCommandError::CommandParseFailure {
                        command: name,
                        value: value.to_owned(),
                        reason,
                    },
                ),
            }
        } else if str_eq(name.as_str(), "SELL") {
            match LoadTestUserIdStockSymbolAmountCommand::try_from_args(request_num, &mut args) {
                Ok(c) => Ok(LoadTestCommand::Sell(c)),
                Err(reason) => Err(
                    ParseLoadTestCommandError::CommandParseFailure {
                        command: name,
                        value: value.to_owned(),
                        reason,
                    },
                ),
            }
        } else if str_eq(name.as_str(), "SET_BUY_AMOUNT") {
            match LoadTestUserIdStockSymbolAmountCommand::try_from_args(request_num, &mut args) {
                Ok(c) => Ok(LoadTestCommand::SetBuyAmount(c)),
                Err(reason) => Err(
                    ParseLoadTestCommandError::CommandParseFailure {
                        command: name,
                        value: value.to_owned(),
                        reason,
                    },
                ),
            }
        } else if str_eq(name.as_str(), "SET_BUY_TRIGGER") {
            match LoadTestUserIdStockSymbolAmountCommand::try_from_args(request_num, &mut args) {
                Ok(c) => Ok(LoadTestCommand::SetBuyTrigger(c)),
                Err(reason) => Err(
                    ParseLoadTestCommandError::CommandParseFailure {
                        command: name,
                        value: value.to_owned(),
                        reason,
                    },
                ),
            }
        } else if str_eq(name.as_str(), "SET_SELL_AMOUNT") {
            match LoadTestUserIdStockSymbolAmountCommand::try_from_args(request_num, &mut args) {
                Ok(c) => Ok(LoadTestCommand::SetSellAmount(c)),
                Err(reason) => Err(
                    ParseLoadTestCommandError::CommandParseFailure {
                        command: name,
                        value: value.to_owned(),
                        reason,
                    },
                ),
            }
        } else if str_eq(name.as_str(), "SET_SELL_TRIGGER") {
            match LoadTestUserIdStockSymbolAmountCommand::try_from_args(request_num, &mut args) {
                Ok(c) => Ok(LoadTestCommand::SetSellTrigger(c)),
                Err(reason) => Err(
                    ParseLoadTestCommandError::CommandParseFailure {
                        command: name,
                        value: value.to_owned(),
                        reason,
                    },
                ),
            }
        } else if str_eq(name.as_str(), "COMMIT_BUY") {
            match LoadTestUserIdCommand::try_from_args(request_num, &mut args) {
                Ok(c) => Ok(LoadTestCommand::CommitBuy(c)),
                Err(reason) => Err(
                    ParseLoadTestCommandError::CommandParseFailure {
                        command: name,
                        value: value.to_owned(),
                        reason,
                    },
                ),
            }
        } else if str_eq(name.as_str(), "COMMIT_SELL") {
            match LoadTestUserIdCommand::try_from_args(request_num, &mut args) {
                Ok(c) => Ok(LoadTestCommand::CommitSell(c)),
                Err(reason) => Err(
                    ParseLoadTestCommandError::CommandParseFailure {
                        command: name,
                        value: value.to_owned(),
                        reason,
                    },
                ),
            }
        } else if str_eq(name.as_str(), "CANCEL_BUY") {
            match LoadTestUserIdCommand::try_from_args(request_num, &mut args) {
                Ok(c) => Ok(LoadTestCommand::CancelBuy(c)),
                Err(reason) => Err(
                    ParseLoadTestCommandError::CommandParseFailure {
                        command: name,
                        value: value.to_owned(),
                        reason,
                    },
                ),
            }
        } else if str_eq(name.as_str(), "CANCEL_SELL") {
            match LoadTestUserIdCommand::try_from_args(request_num, &mut args) {
                Ok(c) => Ok(LoadTestCommand::CancelSell(c)),
                Err(reason) => Err(
                    ParseLoadTestCommandError::CommandParseFailure {
                        command: name,
                        value: value.to_owned(),
                        reason,
                    },
                ),
            }
        } else if str_eq(name.as_str(), "DISPLAY_SUMMARY") {
            match LoadTestUserIdCommand::try_from_args(request_num, &mut args) {
                Ok(c) => Ok(LoadTestCommand::DisplaySummary(c)),
                Err(reason) => Err(
                    ParseLoadTestCommandError::CommandParseFailure {
                        command: name,
                        value: value.to_owned(),
                        reason,
                    },
                ),
            }
        } else if str_eq(name.as_str(), "DUMPLOG") {
            match DumpLog::try_from_args(request_num, &mut args) {
                Ok(DumpLog::User(c)) => Ok(LoadTestCommand::DumpLogUser(c)),
                Ok(DumpLog::NoUser(c)) => Ok(LoadTestCommand::DumpLogFileName(c)),
                Err(reason) => Err(
                    ParseLoadTestCommandError::CommandParseFailure {
                        command: name,
                        value: value.to_owned(),
                        reason,
                    },
                ),
            }
        } else {
            Err(
                ParseLoadTestCommandError::UnknownCommand {
                    value: value.to_owned(),
                    command: name,
                },
            )
        }
    }
}


/// The user a command concerns, if any.
pub open spec fn spec_user(cmd: LoadTestCommand) -> Option<Seq<char>> {
    match cmd {
        LoadTestCommand::Add(c) => Some(c.user_id@),
        LoadTestCommand::Quote(c) => Some(c.user_id@),
        LoadTestCommand::Buy(c) => Some(c.user_id@),
        LoadTestCommand::CommitBuy(c) => Some(c.user_id@),
        LoadTestCommand::CancelBuy(c) => Some(c.user_id@),
        LoadTestCommand::Sell(c) => Some(c.user_id@),
        LoadTestCommand::CommitSell(c) => Some(c.user_id@),
        LoadTestCommand::CancelSell(c) => Some(c.user_id@),
        LoadTestCommand::SetBuyAmount(c) => Some(c.user_id@),
        LoadTestCommand::CancelSetBuy(c) => Some(c.user_id@),
        LoadTestCommand::SetBuyTrigger(c) => Some(c.user_id@),
        LoadTestCommand::SetSellAmount(c) => Some(c.user_id@),
        LoadTestCommand::SetSellTrigger(c) => Some(c.user_id@),
        LoadTestCommand::CancelSetSell(c) => Some(c.user_id@),
        LoadTestCommand::DisplaySummary(c) => Some(c.user_id@),
        LoadTestCommand::DumpLogFileName(_) => None,
        LoadTestCommand::DumpLogUser(c) => Some(c.user_id@),
    }
}

impl LoadTestCommand {
    /// The user a command concerns; a whole-system log dump has none.
    pub fn user(&self) -> (r: Option<String>)
        ensures
            match r {
                Some(u) => spec_user(*self) == Some(u@),
                None => spec_user(*self) is None,
            },
    {
        match self {
            LoadTestCommand::Add(c) => Some(c.user_id.clone()),
            LoadTestCommand::Quote(c) => Some(c.user_id.clone()),
            LoadTestCommand::Buy(c) => Some(c.user_id.clone()),
            LoadTestCommand::CommitBuy(c) => Some(c.user_id.clone()),
            LoadTestCommand::CancelBuy(c) => Some(c.user_id.clone()),
            LoadTestCommand::Sell(c) => Some(c.user_id.clone()),
            LoadTestCommand::CommitSell(c) => Some(c.user_id.clone()),
            LoadTestCommand::CancelSell(c) => Some(c.user_id.clone()),
            LoadTestCommand::SetBuyAmount(c) => Some(c.user_id.clone()),
            LoadTestCommand::CancelSetBuy(c) => Some(c.user_id.clone()),
            LoadTestCommand::SetBuyTrigger(c) => Some(c.user_id.clone()),
            LoadTestCommand::SetSellAmount(c) => Some(c.user_id.clone()),
            LoadTestCommand::SetSellTrigger(c) => Some(c.user_id.clone()),
            LoadTestCommand::CancelSetSell(c) => Some(c.user_id.clone()),
            LoadTestCommand::DisplaySummary(c) => Some(c.user_id.clone()),
            LoadTestCommand::DumpLogFileName(_) => None,
            LoadTestCommand::DumpLogUser(c) => Some(c.user_id.clone()),
        }
    }
}

} // verus!
