//! The contract extension point: a contract is a text of code with a table of
//! text values, and understands two calls, `set` and `get`.

use crate::table::Table;
use crate::text::{same_text, texts_of};
use vstd::prelude::*;

verus! {

/// A deployed contract: its code and its key/value state.
#[derive(Debug)]
pub struct SmartContract {
    pub code: String,
    pub state: Table<String>,
}

/// Mathematical value of a contract.
pub struct ContractView {
    pub code: Seq<char>,
    pub state: Map<Seq<char>, Seq<char>>,
}

/// The values of a table of strings, as texts.
pub open spec fn text_values(table: Map<Seq<char>, String>) -> Map<Seq<char>, Seq<char>> {
    table.map_values(|value: String| value@)
}

impl View for SmartContract {
    type V = ContractView;

    open spec fn view(&self) -> ContractView {
        ContractView { code: self.code@, state: text_values(self.state@) }
    }
}

/// A call that a contract understands.
#[derive(Debug)]
pub enum ContractCall {
    SetValue { key: String, value: String },
    GetValue { key: String },
}

/// Mathematical value of a call.
pub enum CallView {
    SetValue { key: Seq<char>, value: Seq<char> },
    GetValue { key: Seq<char> },
}

impl View for ContractCall {
    type V = CallView;

    open spec fn view(&self) -> CallView {
        match self {
            ContractCall::SetValue { key, value } => CallView::SetValue { key: key@, value: value@ },
            ContractCall::GetValue { key } => CallView::GetValue { key: key@ },
        }
    }
}

/// The texts of a result whose two sides are strings.
pub open spec fn result_texts(result: Result<String, String>) -> Result<Seq<char>, Seq<char>> {
    match result {
        Ok(text) => Ok(text@),
        Err(text) => Err(text@),
    }
}

/// The call that a method name and its arguments stand for, or the message
/// that says why they stand for none.
pub open spec fn parsed_call(method: Seq<char>, args: Seq<Seq<char>>) -> Result<
    CallView,
    Seq<char>,
> {
    if method == "set"@ {
        if args.len() == 2 {
            Ok(CallView::SetValue { key: args[0], value: args[1] })
        } else {
            Err("Invalid arguments for 'set'"@)
        }
    } else if method == "get"@ {
        if args.len() == 1 {
            Ok(CallView::GetValue { key: args[0] })
        } else {
            Err("Invalid arguments for 'get'"@)
        }
    } else {
        Err("Unknown method"@)
    }
}

/// The state that a call leaves.
pub open spec fn state_after(state: Map<Seq<char>, Seq<char>>, call: CallView) -> Map<
    Seq<char>,
    Seq<char>,
> {
    match call {
        CallView::SetValue { key, value } => state.insert(key, value),
        CallView::GetValue { .. } => state,
    }
}

/// What a call answers.
pub open spec fn answer(state: Map<Seq<char>, Seq<char>>, call: CallView) -> Result<
    Seq<char>,
    Seq<char>,
> {
    match call {
        CallView::SetValue { .. } => Ok("Value set successfully"@),
        CallView::GetValue { key } => if state.contains_key(key) {
            Ok(state[key])
        } else {
            Err("Key not found"@)
        },
    }
}

/// The contract after `method` was called with `args`: a call that is not
/// understood changes nothing.
pub open spec fn contract_after(
    contract: ContractView,
    method: Seq<char>,
    args: Seq<Seq<char>>,
) -> ContractView {
    match parsed_call(method, args) {
        Ok(call) => ContractView { state: state_after(contract.state, call), ..contract },
        Err(_) => contract,
    }
}

/// What the contract answers when `method` is called with `args`.
pub open spec fn contract_answer(
    contract: ContractView,
    method: Seq<char>,
    args: Seq<Seq<char>>,
) -> Result<Seq<char>, Seq<char>> {
    match parsed_call(method, args) {
        Ok(call) => answer(contract.state, call),
        Err(message) => Err(message),
    }
}

impl ContractCall {
    /// Reads a method name and its arguments as a call.
    pub fn parse(method: &str, args: &Vec<String>) -> (call: Result<ContractCall, String>)
        ensures
            match call {
                Ok(parsed) => parsed_call(method@, texts_of(args@)) == Ok::<CallView, Seq<char>>(
                    parsed@,
                ),
                Err(message) => parsed_call(method@, texts_of(args@)) == Err::<
                    CallView,
                    Seq<char>,
                >(message@),
            },
    {
        if same_text(method, "set") {
            if args.len() != 2 {
                return Err(String::from_str("Invalid arguments for 'set'"));
            }
            Ok(ContractCall::SetValue { key: args[0].clone(), value: args[1].clone() })
        } else if same_text(method, "get") {
            if args.len() != 1 {
                return Err(String::from_str("Invalid arguments for 'get'"));
            }
            Ok(ContractCall::GetValue { key: args[0].clone() })
        } else {
            Err(String::from_str("Unknown method"))
        }
    }
}

impl SmartContract {
    /// A contract with the given code and an empty state.
    pub fn new(code: String) -> (contract: SmartContract)
        ensures
            contract@ == (ContractView { code: code@, state: Map::empty() }),
    {
        let contract = SmartContract { code, state: Table::new() };
        assert(contract@.state =~= Map::<Seq<char>, Seq<char>>::empty());
        contract
    }

    /// Carries out a call that was understood.
    pub fn apply(&mut self, call: ContractCall) -> (result: Result<String, String>)
        ensures
            final(self)@ == (ContractView {
                state: state_after(old(self)@.state, call@),
                ..old(self)@
            }),
            result_texts(result) == answer(old(self)@.state, call@),
    {
        match call {
            ContractCall::SetValue { key, value } => {
                let ghost before = self.state@;
                self.state.insert(key, value);
                assert(text_values(self.state@) =~= text_values(before).insert(key@, value@));
                Ok(String::from_str("Value set successfully"))
            },
            ContractCall::GetValue { key } => {
                match self.state.get(key.as_str()) {
                    Some(value) => Ok(value.clone()),
                    None => Err(String::from_str("Key not found")),
                }
            },
        }
    }

    /// Calls `method` with `args`. `set` takes a key and a value and stores
    /// the value; `get` takes a key and answers its value. Anything else is
    /// answered with a message and changes nothing.
    pub fn execute(&mut self, method: &str, args: Vec<String>) -> (result: Result<String, String>)
        ensures
            final(self)@ == contract_after(old(self)@, method@, texts_of(args@)),
            result_texts(result) == contract_answer(old(self)@, method@, texts_of(args@)),
    {
        match ContractCall::parse(method, &args) {
            Ok(call) => self.apply(call),
            Err(message) => Err(message),
        }
    }
}

} // verus!
