use vstd::prelude::*;

use crate::timestamp::Timestamp;

verus! {

/// Root of a payment message: the two namespace declarations and the
/// initiation they carry.
#[derive(Clone, Debug)]
pub struct Document {
    pub xmlns: String,
    pub xmlns_xsi: String,
    pub customer_credit_transfer_initiation: CustomerCreditTransferInitiation,
}

/// `CstmrCdtTrfInitn`: the group header and the single payment block.
#[derive(Clone, Debug)]
pub struct CustomerCreditTransferInitiation {
    pub header: GroupHeader,
    pub payment_information: PaymentInformation,
}

/// `GrpHdr`: message-level identification and summary fields.
#[derive(Clone, Debug)]
pub struct GroupHeader {
    pub id: String,
    pub creation_date: Timestamp,
    pub number_of_transactions: usize,
    pub control_sum: String,
    pub initiating_party: InitiatingParty,
}

/// `InitgPty`.
#[derive(Clone, Debug)]
pub struct InitiatingParty {
    pub name: String,
}

/// `PmtInf`: the debtor side and the ordered list of transfers.
#[derive(Clone, Debug)]
pub struct PaymentInformation {
    pub id: String,
    /// Always `TRF` for a credit transfer.
    pub method: String,
    pub number_of_transactions: usize,
    pub control_sum: String,
    pub type_information: PaymentTypeInformation,
    pub requested_execution_date: String,
    pub debtor: Debtor,
    pub debtor_account: DebtorAccount,
    pub debtor_agent: DebtorAgent,
    pub transactions: Vec<CreditorTransferTransactionInformation>,
}

/// `PmtTpInf`.
#[derive(Clone, Debug)]
pub struct PaymentTypeInformation {
    pub category_purpose: CategoryPurposeCode,
}

/// `CtgyPurp`.
#[derive(Clone, Debug)]
pub struct CategoryPurposeCode {
    pub code: String,
}

/// `Dbtr`.
#[derive(Clone, Debug)]
pub struct Debtor {
    pub name: String,
}

/// `DbtrAcct`.
#[derive(Clone, Debug)]
pub struct DebtorAccount {
    pub id: DebtorAccountId,
}

/// `DbtrAcct/Id`.
#[derive(Clone, Debug)]
pub struct DebtorAccountId {
    pub iban: String,
}

/// `DbtrAgt`.
#[derive(Clone, Debug)]
pub struct DebtorAgent {
    pub financial_institution_id: FinancialInstitutionId,
}

/// `FinInstnId`.
#[derive(Clone, Debug)]
pub struct FinancialInstitutionId {
    pub bic: String,
}

/// `CdtTrfTxInf`: one credit transfer.
#[derive(Clone, Debug)]
pub struct CreditorTransferTransactionInformation {
    pub payment_identification: PaymentIdentification,
    pub amount: Amount,
    pub creditor_agent: CreditorAgent,
    pub creditor: Creditor,
    pub creditor_account: CreditorAccount,
}

/// `PmtId`.
#[derive(Clone, Debug)]
pub struct PaymentIdentification {
    pub end_to_end_id: String,
}

/// `Amt`.
#[derive(Clone, Debug)]
pub struct Amount {
    pub instructed_amount: InstructedAmount,
}

/// `InstdAmt`: the currency is an attribute, the value the element's text.
#[derive(Clone, Debug)]
pub struct InstructedAmount {
    pub currency: String,
    pub value: String,
}

/// `Cdtr`.
#[derive(Clone, Debug)]
pub struct Creditor {
    pub name: String,
}

/// `CdtrAgt`.
#[derive(Clone, Debug)]
pub struct CreditorAgent {
    pub financial_institution_id: FinancialInstitutionId,
}

/// `CdtrAcct`.
#[derive(Clone, Debug)]
pub struct CreditorAccount {
    pub id: CreditorAccountId,
}

/// `CdtrAcct/Id`.
#[derive(Clone, Debug)]
pub struct CreditorAccountId {
    pub iban: String,
}

impl Document {
    /// The transfers of the payment block, in document order.
    pub open spec fn transactions(&self) -> Seq<CreditorTransferTransactionInformation> {
        self.customer_credit_transfer_initiation.payment_information.transactions@
    }

    /// The amount value of each transfer, in document order.
    pub open spec fn amounts(&self) -> Seq<Seq<char>> {
        amount_texts(self.transactions())
    }

    /// The group header.
    pub open spec fn header(&self) -> GroupHeader {
        self.customer_credit_transfer_initiation.header
    }

    /// Everything but the transaction list is as in `other`.
    pub open spec fn same_but_transactions(&self, other: Document) -> bool {
        let p = self.customer_credit_transfer_initiation.payment_information;
        let q = other.customer_credit_transfer_initiation.payment_information;
        &&& self.xmlns == other.xmlns
        &&& self.xmlns_xsi == other.xmlns_xsi
        &&& self.header() == other.header()
        &&& p.id == q.id
        &&& p.method == q.method
        &&& p.number_of_transactions == q.number_of_transactions
        &&& p.control_sum == q.control_sum
        &&& p.type_information == q.type_information
        &&& p.requested_execution_date == q.requested_execution_date
        &&& p.debtor == q.debtor
        &&& p.debtor_account == q.debtor_account
        &&& p.debtor_agent == q.debtor_agent
    }

    /// Everything but the group header is as in `other`.
    pub open spec fn same_but_header(&self, other: Document) -> bool {
        &&& self.xmlns == other.xmlns
        &&& self.xmlns_xsi == other.xmlns_xsi
        &&& self.customer_credit_transfer_initiation.payment_information
            == other.customer_credit_transfer_initiation.payment_information
    }

    /// The number of transfers in the payment block.
    pub fn transaction_count(&self) -> (r: usize)
        ensures
            r == self.transactions().len(),
    {
        self.customer_credit_transfer_initiation.payment_information.transactions.len()
    }
}

/// The amount value of each transfer, in order.
pub open spec fn amount_texts(t: Seq<CreditorTransferTransactionInformation>) -> Seq<Seq<char>> {
    t.map_values(|x: CreditorTransferTransactionInformation| x.amount.instructed_amount.value@)
}

impl CreditorTransferTransactionInformation {
    /// A transfer as `add_transaction` creates it: currency `EUR` and end-to-end
    /// id `NOTPROVIDED`.
    pub open spec fn is_new_transfer(
        &self,
        name: Seq<char>,
        iban: Seq<char>,
        bic: Seq<char>,
        value: Seq<char>,
    ) -> bool {
        &&& self.payment_identification.end_to_end_id@ == "NOTPROVIDED"@
        &&& self.amount.instructed_amount.currency@ == "EUR"@
        &&& self.amount.instructed_amount.value@ == value
        &&& self.creditor_agent.financial_institution_id.bic@ == bic
        &&& self.creditor.name@ == name
        &&& self.creditor_account.id.iban@ == iban
    }
}

} // verus!
