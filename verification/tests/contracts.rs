use ledger_core::smart_contract::{ContractCall, SmartContract};
use ledger_core::table::Table;
use ledger_core::text::same_text;

fn texts(items: &[&str]) -> Vec<String> {
    items.iter().map(|item| item.to_string()).collect()
}

#[test]
fn new_contract_has_no_state() {
    let contract = SmartContract::new("code".to_string());
    assert_eq!(contract.code, "code");
    assert_eq!(contract.state.len(), 0);
}

#[test]
fn set_then_get() {
    let mut contract = SmartContract::new("code".to_string());
    assert_eq!(
        contract.execute("set", texts(&["k", "v"])),
        Ok("Value set successfully".to_string())
    );
    assert_eq!(contract.execute("get", texts(&["k"])), Ok("v".to_string()));
    assert_eq!(
        contract.execute("set", texts(&["k", "w"])),
        Ok("Value set successfully".to_string())
    );
    assert_eq!(contract.execute("get", texts(&["k"])), Ok("w".to_string()));
    assert_eq!(contract.state.len(), 1);
    assert_eq!(contract.code, "code");
}

#[test]
fn every_error_has_its_message() {
    let mut contract = SmartContract::new("code".to_string());
    assert_eq!(
        contract.execute("get", texts(&["missing"])),
        Err("Key not found".to_string())
    );
    assert_eq!(
        contract.execute("set", texts(&["a", "b", "c"])),
        Err("Invalid arguments for 'set'".to_string())
    );
    assert_eq!(
        contract.execute("set", Vec::new()),
        Err("Invalid arguments for 'set'".to_string())
    );
    assert_eq!(
        contract.execute("get", texts(&["a", "b"])),
        Err("Invalid arguments for 'get'".to_string())
    );
    assert_eq!(
        contract.execute("Set", texts(&["a", "b"])),
        Err("Unknown method".to_string())
    );
    assert_eq!(contract.execute("", Vec::new()), Err("Unknown method".to_string()));
    assert_eq!(contract.state.len(), 0);
}

#[test]
fn calls_are_parsed_into_two_kinds() {
    let parsed = ContractCall::parse("set", &texts(&["k", "v"]));
    assert!(matches!(
        parsed,
        Ok(ContractCall::SetValue { ref key, ref value }) if key == "k" && value == "v"
    ));
    let parsed = ContractCall::parse("get", &texts(&["k"]));
    assert!(matches!(parsed, Ok(ContractCall::GetValue { ref key }) if key == "k"));
    assert!(matches!(
        ContractCall::parse("put", &texts(&["k"])),
        Err(ref message) if message == "Unknown method"
    ));
}

#[test]
fn applying_a_parsed_call() {
    let mut contract = SmartContract::new("code".to_string());
    let stored = contract.apply(ContractCall::SetValue {
        key: "k".to_string(),
        value: "v".to_string(),
    });
    assert_eq!(stored, Ok("Value set successfully".to_string()));
    let read = contract.apply(ContractCall::GetValue { key: "k".to_string() });
    assert_eq!(read, Ok("v".to_string()));
    let missing = contract.apply(ContractCall::GetValue { key: "x".to_string() });
    assert_eq!(missing, Err("Key not found".to_string()));
}

#[test]
fn table_keeps_one_value_per_key() {
    let mut table: Table<u64> = Table::new();
    assert_eq!(table.len(), 0);
    assert!(!table.contains_key("a"));
    table.insert("a".to_string(), 1);
    table.insert("b".to_string(), 2);
    table.insert("a".to_string(), 3);
    assert_eq!(table.len(), 2);
    assert_eq!(table.get("a"), Some(&3));
    assert_eq!(table.get("b"), Some(&2));
    assert_eq!(table.get("c"), None);
    let (key, value) = table.entry(0);
    assert_eq!(key, "a");
    assert_eq!(*value, 3);
    let (key, value) = table.entry(1);
    assert_eq!(key, "b");
    assert_eq!(*value, 2);
}

#[test]
fn table_remove_and_duplicate() {
    let mut table: Table<u64> = Table::new();
    table.insert("a".to_string(), 1);
    table.insert("b".to_string(), 2);
    table.insert("c".to_string(), 3);
    let copy = table.duplicate();
    assert_eq!(table.remove("b"), Some(2));
    assert_eq!(table.remove("b"), None);
    assert_eq!(table.len(), 2);
    assert_eq!(table.get("a"), Some(&1));
    assert_eq!(table.get("c"), Some(&3));
    assert!(!table.contains_key("b"));
    assert_eq!(copy.len(), 3);
    assert_eq!(copy.get("b"), Some(&2));
    assert_eq!(copy.entry(2).0, "c");
}

#[test]
fn texts_are_compared_character_by_character() {
    assert!(same_text("", ""));
    assert!(same_text("set", "set"));
    assert!(!same_text("set", "get"));
    assert!(!same_text("set", "sets"));
    assert!(!same_text("é", "e"));
    assert!(same_text("é", "é"));
}
