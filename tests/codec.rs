use sepa_xml_editor_core::model::{
    Amount, CategoryPurposeCode, Creditor, CreditorAccount, CreditorAccountId, CreditorAgent,
    CreditorTransferTransactionInformation, CustomerCreditTransferInitiation, Debtor,
    DebtorAccount, DebtorAccountId, DebtorAgent, Document, FinancialInstitutionId, GroupHeader,
    InitiatingParty, InstructedAmount, PaymentIdentification, PaymentInformation,
    PaymentTypeInformation,
};
use sepa_xml_editor_core::timestamp::Timestamp;

fn minimal() -> Document {
    Document {
        xmlns: "urn:iso:std:iso:20022:tech:xsd:pain.001.001.03".to_string(),
        xmlns_xsi: "http://www.w3.org/2001/XMLSchema-instance".to_string(),
        customer_credit_transfer_initiation: CustomerCreditTransferInitiation {
            header: GroupHeader {
                id: "MSG-1".to_string(),
                creation_date: Timestamp { year: 2024, month: 3, day: 1, hour: 9, minute: 30, second: 0 },
                number_of_transactions: 1,
                control_sum: "7.25".to_string(),
                initiating_party: InitiatingParty { name: "ACME".to_string() },
            },
            payment_information: PaymentInformation {
                id: "PMT-1".to_string(),
                method: "TRF".to_string(),
                number_of_transactions: 1,
                control_sum: "7.25".to_string(),
                type_information: PaymentTypeInformation {
                    category_purpose: CategoryPurposeCode { code: "SALA".to_string() },
                },
                requested_execution_date: "2024-03-04".to_string(),
                debtor: Debtor { name: "ACME".to_string() },
                debtor_account: DebtorAccount { id: DebtorAccountId { iban: "DE02".to_string() } },
                debtor_agent: DebtorAgent {
                    financial_institution_id: FinancialInstitutionId { bic: "BYLADEM1001".to_string() },
                },
                transactions: vec![CreditorTransferTransactionInformation {
                    payment_identification: PaymentIdentification { end_to_end_id: "NOTPROVIDED".to_string() },
                    amount: Amount {
                        instructed_amount: InstructedAmount {
                            currency: "EUR".to_string(),
                            value: "7.25".to_string(),
                        },
                    },
                    creditor_agent: CreditorAgent {
                        financial_institution_id: FinancialInstitutionId { bic: "ABCDEF12".to_string() },
                    },
                    creditor: Creditor { name: "Alice".to_string() },
                    creditor_account: CreditorAccount { id: CreditorAccountId { iban: "DE12".to_string() } },
                }],
            },
        },
    }
}

const EXPECTED: &str = r#"<Document xmlns="urn:iso:std:iso:20022:tech:xsd:pain.001.001.03" xmlns:xsi="http://www.w3.org/2001/XMLSchema-instance">
    <CstmrCdtTrfInitn>
        <GrpHdr>
            <MsgId>MSG-1</MsgId>
            <CreDtTm>2024-03-01T09:30:00</CreDtTm>
            <NbOfTxs>1</NbOfTxs>
            <CtrlSum>7.25</CtrlSum>
            <InitgPty>
                <Nm>ACME</Nm>
            </InitgPty>
        </GrpHdr>
        <PmtInf>
            <PmtInfId>PMT-1</PmtInfId>
            <PmtMtd>TRF</PmtMtd>
            <NbOfTxs>1</NbOfTxs>
            <CtrlSum>7.25</CtrlSum>
            <PmtTpInf>
                <CtgyPurp>
                    <Cd>SALA</Cd>
                </CtgyPurp>
            </PmtTpInf>
            <ReqdExctnDt>2024-03-04</ReqdExctnDt>
            <Dbtr>
                <Nm>ACME</Nm>
            </Dbtr>
            <DbtrAcct>
                <Id>
                    <IBAN>DE02</IBAN>
                </Id>
            </DbtrAcct>
            <DbtrAgt>
                <FinInstnId>
                    <BIC>BYLADEM1001</BIC>
                </FinInstnId>
            </DbtrAgt>
            <CdtTrfTxInf>
                <PmtId>
                    <EndToEndId>NOTPROVIDED</EndToEndId>
                </PmtId>
                <Amt>
                    <InstdAmt Ccy="EUR">7.25</InstdAmt>
                </Amt>
                <CdtrAgt>
                    <FinInstnId>
                        <BIC>ABCDEF12</BIC>
                    </FinInstnId>
                </CdtrAgt>
                <Cdtr>
                    <Nm>Alice</Nm>
                </Cdtr>
                <CdtrAcct>
                    <Id>
                        <IBAN>DE12</IBAN>
                    </Id>
                </CdtrAcct>
            </CdtTrfTxInf>
        </PmtInf>
    </CstmrCdtTrfInitn>
</Document>"#;

#[test]
fn encode_writes_indented_layout() {
    assert_eq!(minimal().encode(), EXPECTED);
}

#[test]
fn encode_without_transactions() {
    let mut d = minimal();
    assert_eq!(d.remove_transaction(0), Ok(()));
    assert_eq!(d.recompute_headers(), Ok(()));
    let text = d.encode();
    assert!(!text.contains("CdtTrfTxInf"));
    assert!(text.contains("            <NbOfTxs>1</NbOfTxs>\n            <CtrlSum>7.25</CtrlSum>\n            <PmtTpInf>"));
    assert!(text.contains("<GrpHdr>\n            <MsgId>MSG-1</MsgId>\n            <CreDtTm>2024-03-01T09:30:00</CreDtTm>\n            <NbOfTxs>0</NbOfTxs>\n            <CtrlSum>0</CtrlSum>"));
}

#[test]
fn encode_escapes_reserved_characters() {
    let mut d = minimal();
    d.edit_headers("A&B <x> \"q\" 'a'", Timestamp { year: 2024, month: 3, day: 1, hour: 9, minute: 30, second: 0 }, "Ä Ö");
    let text = d.encode();
    assert!(text.contains("<MsgId>A&amp;B &lt;x&gt; &quot;q&quot; &apos;a&apos;</MsgId>"));
    assert!(text.contains("<Nm>Ä Ö</Nm>"));
}

#[test]
fn encode_writes_each_transaction_in_order() {
    let mut d = minimal();
    d.add_transaction("Bob", "DE34", "BIC2", "1");
    let text = d.encode();
    let alice = text.find("<Nm>Alice</Nm>").unwrap();
    let bob = text.find("<Nm>Bob</Nm>").unwrap();
    assert!(alice < bob);
    assert_eq!(text.matches("<CdtTrfTxInf>").count(), 2);
    assert!(text.contains("<InstdAmt Ccy=\"EUR\">1</InstdAmt>"));
}
