use sepa_xml_editor_core::amount::{format_decimal, parse_amount, pow10_exec};
use sepa_xml_editor_core::error::SepaError;
use sepa_xml_editor_core::model::{
    Amount, CategoryPurposeCode, Creditor, CreditorAccount, CreditorAccountId, CreditorAgent,
    CreditorTransferTransactionInformation, CustomerCreditTransferInitiation, Debtor,
    DebtorAccount, DebtorAccountId, DebtorAgent, Document, FinancialInstitutionId, GroupHeader,
    InitiatingParty, InstructedAmount, PaymentIdentification, PaymentInformation,
    PaymentTypeInformation,
};
use sepa_xml_editor_core::mutation::control_sum;
use sepa_xml_editor_core::timestamp::Timestamp;

fn seed() -> Document {
    Document {
        xmlns: "urn:iso:std:iso:20022:tech:xsd:pain.001.001.03".to_string(),
        xmlns_xsi: "http://www.w3.org/2001/XMLSchema-instance".to_string(),
        customer_credit_transfer_initiation: CustomerCreditTransferInitiation {
            header: GroupHeader {
                id: "MSG-1".to_string(),
                creation_date: Timestamp { year: 2024, month: 3, day: 1, hour: 9, minute: 30, second: 0 },
                number_of_transactions: 0,
                control_sum: "0".to_string(),
                initiating_party: InitiatingParty { name: "ACME".to_string() },
            },
            payment_information: PaymentInformation {
                id: "PMT-1".to_string(),
                method: "TRF".to_string(),
                number_of_transactions: 0,
                control_sum: "0".to_string(),
                type_information: PaymentTypeInformation {
                    category_purpose: CategoryPurposeCode { code: "SALA".to_string() },
                },
                requested_execution_date: "2024-03-04".to_string(),
                debtor: Debtor { name: "ACME".to_string() },
                debtor_account: DebtorAccount {
                    id: DebtorAccountId { iban: "DE02120300000000202051".to_string() },
                },
                debtor_agent: DebtorAgent {
                    financial_institution_id: FinancialInstitutionId { bic: "BYLADEM1001".to_string() },
                },
                transactions: Vec::new(),
            },
        },
    }
}

fn transaction(name: &str, value: &str) -> CreditorTransferTransactionInformation {
    CreditorTransferTransactionInformation {
        payment_identification: PaymentIdentification { end_to_end_id: format!("E2E-{name}") },
        amount: Amount {
            instructed_amount: InstructedAmount { currency: "EUR".to_string(), value: value.to_string() },
        },
        creditor_agent: CreditorAgent {
            financial_institution_id: FinancialInstitutionId { bic: "ABCDEF12".to_string() },
        },
        creditor: Creditor { name: name.to_string() },
        creditor_account: CreditorAccount { id: CreditorAccountId { iban: "DE12500105170648489890".to_string() } },
    }
}

fn with_amounts(values: &[&str]) -> Document {
    let mut d = seed();
    for (i, v) in values.iter().enumerate() {
        d.customer_credit_transfer_initiation
            .payment_information
            .transactions
            .push(transaction(&format!("C{i}"), v));
    }
    d
}

fn names(d: &Document) -> Vec<String> {
    d.customer_credit_transfer_initiation
        .payment_information
        .transactions
        .iter()
        .map(|t| t.creditor.name.clone())
        .collect()
}

#[test]
fn recompute_sets_count_and_sum() {
    let mut d = with_amounts(&["10.00", "5.50", "4.50"]);
    assert_eq!(d.recompute_headers(), Ok(()));
    let h = &d.customer_credit_transfer_initiation.header;
    assert_eq!(h.number_of_transactions, 3);
    assert_eq!(h.control_sum, "20");
}

#[test]
fn recompute_keeps_fraction_digits() {
    let mut d = with_amounts(&["7.25", "0.5", "100"]);
    assert_eq!(d.recompute_headers(), Ok(()));
    assert_eq!(d.customer_credit_transfer_initiation.header.control_sum, "107.75");
}

#[test]
fn recompute_on_empty_list() {
    let mut d = seed();
    d.customer_credit_transfer_initiation.header.number_of_transactions = 9;
    d.customer_credit_transfer_initiation.header.control_sum = "12".to_string();
    assert_eq!(d.recompute_headers(), Ok(()));
    assert_eq!(d.customer_credit_transfer_initiation.header.number_of_transactions, 0);
    assert_eq!(d.customer_credit_transfer_initiation.header.control_sum, "0");
}

#[test]
fn recompute_rejects_non_numeric_amount() {
    let mut d = with_amounts(&["10.00", "abc"]);
    d.customer_credit_transfer_initiation.header.number_of_transactions = 7;
    d.customer_credit_transfer_initiation.header.control_sum = "1.5".to_string();
    assert_eq!(d.recompute_headers(), Err(SepaError::InvalidAmount));
    assert_eq!(d.customer_credit_transfer_initiation.header.number_of_transactions, 7);
    assert_eq!(d.customer_credit_transfer_initiation.header.control_sum, "1.5");
}

#[test]
fn control_sum_rejects_malformed_amounts() {
    for bad in ["", ".5", "5.", "1.2.3", "1,5", "-3", "12345678901234567890"] {
        let d = with_amounts(&[bad]);
        let r = control_sum(&d.customer_credit_transfer_initiation.payment_information.transactions);
        assert_eq!(r, Err(SepaError::InvalidAmount), "{bad}");
    }
}

#[test]
fn index_out_of_range_is_rejected() {
    let mut d = with_amounts(&["1", "2"]);
    assert_eq!(d.edit_transaction(2, "X", "I", "B", "3"), Err(SepaError::IndexOutOfRange));
    assert_eq!(d.remove_transaction(2), Err(SepaError::IndexOutOfRange));
    assert_eq!(names(&d), vec!["C0".to_string(), "C1".to_string()]);
    assert_eq!(d.edit_transaction(1, "X", "I", "B", "3"), Ok(()));
    assert_eq!(names(&d), vec!["C0".to_string(), "X".to_string()]);
}

#[test]
fn edit_on_empty_list_fails() {
    let mut d = seed();
    assert_eq!(d.edit_transaction(0, "X", "I", "B", "3"), Err(SepaError::IndexOutOfRange));
    assert_eq!(d.remove_transaction(0), Err(SepaError::IndexOutOfRange));
}

#[test]
fn edit_keeps_end_to_end_id_and_currency() {
    let mut d = with_amounts(&["1"]);
    assert_eq!(d.edit_transaction(0, "Bob", "DE99", "XYZ", "2.50"), Ok(()));
    let t = &d.customer_credit_transfer_initiation.payment_information.transactions[0];
    assert_eq!(t.payment_identification.end_to_end_id, "E2E-C0");
    assert_eq!(t.amount.instructed_amount.currency, "EUR");
    assert_eq!(t.amount.instructed_amount.value, "2.50");
    assert_eq!(t.creditor.name, "Bob");
    assert_eq!(t.creditor_account.id.iban, "DE99");
    assert_eq!(t.creditor_agent.financial_institution_id.bic, "XYZ");
}

#[test]
fn add_appends_at_end() {
    let mut d = seed();
    d.add_transaction("Alice", "DE12500105170648489890", "ABCDEF12", "7.25");
    let ts = &d.customer_credit_transfer_initiation.payment_information.transactions;
    assert_eq!(ts.len(), 1);
    assert_eq!(ts[0].payment_identification.end_to_end_id, "NOTPROVIDED");
    assert_eq!(ts[0].amount.instructed_amount.currency, "EUR");
    assert_eq!(ts[0].amount.instructed_amount.value, "7.25");
    assert_eq!(ts[0].creditor.name, "Alice");
    assert_eq!(ts[0].creditor_account.id.iban, "DE12500105170648489890");
    assert_eq!(ts[0].creditor_agent.financial_institution_id.bic, "ABCDEF12");
    assert_eq!(d.customer_credit_transfer_initiation.header.number_of_transactions, 0);
    d.add_transaction("Bob", "DE34", "BIC2", "1");
    assert_eq!(names(&d), vec!["Alice".to_string(), "Bob".to_string()]);
}

#[test]
fn remove_preserves_order_of_remainder() {
    let mut d = seed();
    d.add_transaction("A", "I1", "B1", "1");
    d.add_transaction("B", "I2", "B2", "2");
    d.add_transaction("C", "I3", "B3", "3");
    assert_eq!(d.remove_transaction(1), Ok(()));
    assert_eq!(names(&d), vec!["A".to_string(), "C".to_string()]);
}

#[test]
fn edit_headers_leaves_summary_fields() {
    let mut d = with_amounts(&["1"]);
    d.customer_credit_transfer_initiation.header.control_sum = "5".to_string();
    let ts = Timestamp { year: 2025, month: 12, day: 31, hour: 23, minute: 59, second: 58 };
    d.edit_headers("MSG-2", ts, "Other");
    let h = &d.customer_credit_transfer_initiation.header;
    assert_eq!(h.id, "MSG-2");
    assert_eq!(h.creation_date, ts);
    assert_eq!(h.initiating_party.name, "Other");
    assert_eq!(h.control_sum, "5");
    assert_eq!(h.number_of_transactions, 0);
}

#[test]
fn recompute_after_edits() {
    let mut d = seed();
    d.add_transaction("A", "I1", "B1", "1.10");
    d.add_transaction("B", "I2", "B2", "2.20");
    d.add_transaction("C", "I3", "B3", "3.30");
    assert_eq!(d.remove_transaction(0), Ok(()));
    assert_eq!(d.recompute_headers(), Ok(()));
    assert_eq!(d.customer_credit_transfer_initiation.header.number_of_transactions, 2);
    assert_eq!(d.customer_credit_transfer_initiation.header.control_sum, "5.5");
}

#[test]
fn parse_amount_reads_digits_and_scale() {
    let a = parse_amount("10.05").unwrap();
    assert_eq!((a.mantissa, a.scale), (1005, 2));
    let b = parse_amount("1234567890123456789").unwrap();
    assert_eq!((b.mantissa, b.scale), (1234567890123456789, 0));
    assert!(parse_amount("abc").is_none());
}

#[test]
fn format_decimal_strips_trailing_zeros() {
    assert_eq!(format_decimal(2000, 2), "20");
    assert_eq!(format_decimal(725, 2), "7.25");
    assert_eq!(format_decimal(5, 3), "0.005");
    assert_eq!(format_decimal(0, 4), "0");
    assert_eq!(format_decimal(1234, 0), "1234");
    assert_eq!(pow10_exec(3), 1000);
}

#[test]
fn timestamp_format_pads_fields() {
    let t = Timestamp { year: 2024, month: 3, day: 1, hour: 9, minute: 5, second: 7 };
    assert_eq!(t.format(), "2024-03-01T09:05:07");
    let early = Timestamp { year: 33, month: 11, day: 12, hour: 13, minute: 14, second: 15 };
    assert_eq!(early.format(), "0033-11-12T13:14:15");
    let late = Timestamp { year: 12345, month: 1, day: 1, hour: 0, minute: 0, second: 0 };
    assert_eq!(late.format(), "+12345-01-01T00:00:00");
}

#[test]
fn timestamp_parse_reads_fields() {
    let t = Timestamp::parse("2024-03-01T09:30:15").unwrap();
    assert_eq!(t, Timestamp { year: 2024, month: 3, day: 1, hour: 9, minute: 30, second: 15 });
    assert_eq!(t.format(), "2024-03-01T09:30:15");
    assert!(Timestamp::parse("2024-02-30T09:30:15").is_none());
    assert!(Timestamp::parse("yesterday").is_none());
}

#[test]
fn error_messages() {
    assert_eq!(SepaError::IndexOutOfRange.message(), "transaction index out of range");
    assert_eq!(SepaError::InvalidAmount.message(), "invalid amount");
}
