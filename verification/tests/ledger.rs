use bank_ledger::Bank;
use bank_ledger::BankError;
use bank_ledger::TransactionKind;

#[test]
fn open_account_records_opening() {
    let mut bank = Bank::new();
    let id = bank
        .create_account("Ayşe".to_string(), 1000, "TRY", "1234".to_string())
        .unwrap();
    assert_eq!(id, 1);
    assert_eq!(bank.get_balance(1, "TRY", "1234").unwrap(), 1000);
    let history = bank.list_transactions(1, "1234").unwrap();
    assert_eq!(history.len(), 1);
    assert!(matches!(history[0].kind, TransactionKind::OpenAccount));
    assert_eq!(history[0].amount, 1000);
    assert_eq!(history[0].resulting_balance, 1000);
    assert_eq!(history[0].currency.code, "TRY");
    assert_eq!(history[0].currency.name, "Türk Lirası");
    assert_eq!(history[0].currency.symbol, "₺");
}

#[test]
fn recorded_transactions_carry_the_registry_entry() {
    let mut bank = Bank::new();
    bank.create_account("Ayşe".to_string(), 100, "TRY", "1234".to_string())
        .unwrap();
    bank.create_account("Mehmet".to_string(), 0, "TRY", "5678".to_string())
        .unwrap();
    bank.deposit(1, 20, "USD", "1234").unwrap();
    bank.withdraw(1, 5, "USD", "1234").unwrap();
    bank.transfer(1, 2, 30, "TRY", "1234").unwrap();
    let history = bank.list_transactions(1, "1234").unwrap();
    assert_eq!(history[1].currency.name, "Amerikan Doları");
    assert_eq!(history[1].currency.symbol, "$");
    assert_eq!(history[2].currency.name, "Amerikan Doları");
    assert_eq!(history[3].currency.name, "Türk Lirası");
    assert_eq!(history[3].currency.symbol, "₺");
    let receiver_history = bank.list_transactions(2, "5678").unwrap();
    assert_eq!(receiver_history[1].currency.name, "Türk Lirası");
    assert_eq!(receiver_history[1].currency.symbol, "₺");
}

#[test]
fn deposit_appends_and_returns_new_balance() {
    let mut bank = Bank::new();
    bank.create_account("Ayşe".to_string(), 1000, "TRY", "1234".to_string())
        .unwrap();
    assert_eq!(bank.deposit(1, 500, "TRY", "1234").unwrap(), 1500);
    let history = bank.list_transactions(1, "1234").unwrap();
    assert_eq!(history.len(), 2);
    assert!(matches!(history[1].kind, TransactionKind::Deposit));
    assert_eq!(history[1].amount, 500);
    assert_eq!(history[1].resulting_balance, 1500);
}

#[test]
fn overdraft_fails_and_changes_nothing() {
    let mut bank = Bank::new();
    bank.create_account("Ayşe".to_string(), 1000, "TRY", "1234".to_string())
        .unwrap();
    bank.deposit(1, 500, "TRY", "1234").unwrap();
    assert_eq!(
        bank.withdraw(1, 2000, "TRY", "1234"),
        Err(BankError::InsufficientFunds)
    );
    assert_eq!(bank.get_balance(1, "TRY", "1234").unwrap(), 1500);
    assert_eq!(bank.list_transactions(1, "1234").unwrap().len(), 2);
}

#[test]
fn transfer_moves_money_and_names_counterparties() {
    let mut bank = Bank::new();
    bank.create_account("Ayşe".to_string(), 1000, "TRY", "1234".to_string())
        .unwrap();
    bank.deposit(1, 500, "TRY", "1234").unwrap();
    let id2 = bank
        .create_account("Mehmet".to_string(), 0, "TRY", "5678".to_string())
        .unwrap();
    assert_eq!(id2, 2);
    assert_eq!(bank.transfer(1, 2, 300, "TRY", "1234"), Ok(()));
    assert_eq!(bank.get_balance(1, "TRY", "1234").unwrap(), 1200);
    assert_eq!(bank.get_balance(2, "TRY", "5678").unwrap(), 300);
    let sender_history = bank.list_transactions(1, "1234").unwrap();
    let out = &sender_history[sender_history.len() - 1];
    assert!(matches!(
        out.kind,
        TransactionKind::TransferOut { counterparty: 2 }
    ));
    assert_eq!(out.amount, 300);
    assert_eq!(out.resulting_balance, 1200);
    let receiver_history = bank.list_transactions(2, "5678").unwrap();
    let inn = &receiver_history[receiver_history.len() - 1];
    assert!(matches!(
        inn.kind,
        TransactionKind::TransferIn { counterparty: 1 }
    ));
    assert_eq!(inn.amount, 300);
    assert_eq!(inn.resulting_balance, 300);
    assert_eq!(out.timestamp, inn.timestamp);
}

#[test]
fn transfer_conserves_the_total() {
    let mut bank = Bank::new();
    bank.create_account("Ayşe".to_string(), 900, "EUR", "1234".to_string())
        .unwrap();
    bank.create_account("Mehmet".to_string(), 250, "EUR", "5678".to_string())
        .unwrap();
    let before = bank.get_balance(1, "EUR", "1234").unwrap()
        + bank.get_balance(2, "EUR", "5678").unwrap();
    bank.transfer(1, 2, 412, "EUR", "1234").unwrap();
    let after = bank.get_balance(1, "EUR", "1234").unwrap()
        + bank.get_balance(2, "EUR", "5678").unwrap();
    assert_eq!(before, after);
    assert_eq!(bank.get_balance(1, "EUR", "1234").unwrap(), 488);
    assert_eq!(bank.get_balance(2, "EUR", "5678").unwrap(), 662);
}

#[test]
fn balance_query_for_unheld_currency_is_an_error() {
    let mut bank = Bank::new();
    bank.create_account("Ayşe".to_string(), 1000, "TRY", "1234".to_string())
        .unwrap();
    assert_eq!(
        bank.get_balance(1, "USD", "1234"),
        Err(BankError::CurrencyBalanceNotFound("USD".to_string()))
    );
}

#[test]
fn withdraw_from_unheld_currency_is_an_error() {
    let mut bank = Bank::new();
    bank.create_account("Ayşe".to_string(), 1000, "TRY", "1234".to_string())
        .unwrap();
    assert_eq!(
        bank.withdraw(1, 10, "USD", "1234"),
        Err(BankError::CurrencyBalanceNotFound("USD".to_string()))
    );
    assert_eq!(bank.list_transactions(1, "1234").unwrap().len(), 1);
}

#[test]
fn transfer_to_same_account_is_refused() {
    let mut bank = Bank::new();
    bank.create_account("Ayşe".to_string(), 1000, "TRY", "1234".to_string())
        .unwrap();
    assert_eq!(
        bank.transfer(1, 1, 10, "TRY", "1234"),
        Err(BankError::SameAccount)
    );
    assert_eq!(bank.get_balance(1, "TRY", "1234").unwrap(), 1000);
}

#[test]
fn wrong_pin_mutates_nothing() {
    let mut bank = Bank::new();
    bank.create_account("Ayşe".to_string(), 1000, "TRY", "1234".to_string())
        .unwrap();
    bank.create_account("Mehmet".to_string(), 50, "TRY", "5678".to_string())
        .unwrap();
    assert_eq!(
        bank.deposit(1, 500, "TRY", "0000"),
        Err(BankError::InvalidPin)
    );
    assert_eq!(
        bank.withdraw(1, 500, "TRY", "0000"),
        Err(BankError::InvalidPin)
    );
    assert_eq!(
        bank.transfer(1, 2, 500, "TRY", "0000"),
        Err(BankError::InvalidPin)
    );
    assert_eq!(
        bank.get_balance(1, "TRY", "0000"),
        Err(BankError::InvalidPin)
    );
    assert!(matches!(
        bank.list_transactions(1, "0000"),
        Err(BankError::InvalidPin)
    ));
    assert_eq!(bank.get_balance(1, "TRY", "1234").unwrap(), 1000);
    assert_eq!(bank.get_balance(2, "TRY", "5678").unwrap(), 50);
    assert_eq!(bank.list_transactions(1, "1234").unwrap().len(), 1);
    assert_eq!(bank.list_transactions(2, "5678").unwrap().len(), 1);
}

#[test]
fn unknown_account_is_reported_with_its_id() {
    let mut bank = Bank::new();
    bank.create_account("Ayşe".to_string(), 1000, "TRY", "1234".to_string())
        .unwrap();
    assert_eq!(
        bank.get_balance(7, "TRY", "1234"),
        Err(BankError::AccountNotFound(7))
    );
    assert_eq!(
        bank.deposit(0, 10, "TRY", "1234"),
        Err(BankError::AccountNotFound(0))
    );
    assert_eq!(
        bank.transfer(1, 9, 10, "TRY", "1234"),
        Err(BankError::AccountNotFound(9))
    );
}

#[test]
fn unsupported_currency_is_refused_everywhere() {
    let mut bank = Bank::new();
    assert_eq!(
        bank.create_account("Ayşe".to_string(), 1000, "GBP", "1234".to_string()),
        Err(BankError::InvalidCurrency("GBP".to_string()))
    );
    bank.create_account("Ayşe".to_string(), 1000, "TRY", "1234".to_string())
        .unwrap();
    bank.create_account("Mehmet".to_string(), 0, "TRY", "5678".to_string())
        .unwrap();
    assert_eq!(
        bank.deposit(1, 10, "GBP", "1234"),
        Err(BankError::InvalidCurrency("GBP".to_string()))
    );
    assert_eq!(
        bank.withdraw(1, 10, "GBP", "1234"),
        Err(BankError::InvalidCurrency("GBP".to_string()))
    );
    assert_eq!(
        bank.transfer(1, 2, 10, "GBP", "1234"),
        Err(BankError::InvalidCurrency("GBP".to_string()))
    );
}

#[test]
fn failed_creation_does_not_advance_the_id_counter() {
    let mut bank = Bank::new();
    assert!(bank
        .create_account("Ayşe".to_string(), 10, "XXX", "1234".to_string())
        .is_err());
    let id = bank
        .create_account("Ayşe".to_string(), 10, "TRY", "1234".to_string())
        .unwrap();
    assert_eq!(id, 1);
}

#[test]
fn deposit_creates_a_new_currency_entry_from_zero() {
    let mut bank = Bank::new();
    bank.create_account("Ayşe".to_string(), 1000, "TRY", "1234".to_string())
        .unwrap();
    assert_eq!(bank.deposit(1, 75, "USD", "1234").unwrap(), 75);
    assert_eq!(bank.get_balance(1, "USD", "1234").unwrap(), 75);
    assert_eq!(bank.get_balance(1, "TRY", "1234").unwrap(), 1000);
}

#[test]
fn transfer_creates_the_receiver_entry_from_zero() {
    let mut bank = Bank::new();
    bank.create_account("Ayşe".to_string(), 100, "USD", "1234".to_string())
        .unwrap();
    bank.create_account("Mehmet".to_string(), 0, "TRY", "5678".to_string())
        .unwrap();
    bank.transfer(1, 2, 40, "USD", "1234").unwrap();
    assert_eq!(bank.get_balance(2, "USD", "5678").unwrap(), 40);
    assert_eq!(bank.get_balance(1, "USD", "1234").unwrap(), 60);
}

#[test]
fn withdrawing_the_whole_balance_reaches_zero() {
    let mut bank = Bank::new();
    bank.create_account("Ayşe".to_string(), 250, "TRY", "1234".to_string())
        .unwrap();
    assert_eq!(bank.withdraw(1, 250, "TRY", "1234").unwrap(), 0);
    assert_eq!(bank.get_balance(1, "TRY", "1234").unwrap(), 0);
}

#[test]
fn history_sums_to_the_balance() {
    let mut bank = Bank::new();
    bank.create_account("Ayşe".to_string(), 1000, "TRY", "1234".to_string())
        .unwrap();
    bank.create_account("Mehmet".to_string(), 0, "TRY", "5678".to_string())
        .unwrap();
    bank.deposit(1, 300, "TRY", "1234").unwrap();
    bank.withdraw(1, 120, "TRY", "1234").unwrap();
    bank.transfer(1, 2, 450, "TRY", "1234").unwrap();
    bank.deposit(1, 5, "USD", "1234").unwrap();
    for (id, pin, code) in [
        (1u32, "1234", "TRY"),
        (1u32, "1234", "USD"),
        (2u32, "5678", "TRY"),
    ] {
        let history = bank.list_transactions(id, pin).unwrap();
        let mut sum: i128 = 0;
        for tx in history.iter() {
            if tx.currency.code == code {
                let signed = match tx.kind {
                    TransactionKind::Withdraw => -(tx.amount as i128),
                    TransactionKind::TransferOut { .. } => -(tx.amount as i128),
                    _ => tx.amount as i128,
                };
                sum += signed;
            }
        }
        assert_eq!(sum, bank.get_balance(id, code, pin).unwrap() as i128);
    }
}

#[test]
fn each_entry_records_the_balance_it_left() {
    let mut bank = Bank::new();
    bank.create_account("Ayşe".to_string(), 100, "TRY", "1234".to_string())
        .unwrap();
    bank.deposit(1, 50, "TRY", "1234").unwrap();
    bank.withdraw(1, 30, "TRY", "1234").unwrap();
    bank.deposit(1, 7, "EUR", "1234").unwrap();
    let history = bank.list_transactions(1, "1234").unwrap();
    let expected: [(u64, u64); 4] = [(100, 100), (50, 150), (30, 120), (7, 7)];
    assert_eq!(history.len(), expected.len());
    for (tx, (amount, balance)) in history.iter().zip(expected.iter()) {
        assert_eq!(tx.amount, *amount);
        assert_eq!(tx.resulting_balance, *balance);
    }
}
