use vstd::prelude::*;
use vstd::string::StringExecFns;

use crate::amount::{
    all_amounts, format_decimal, is_amount, lemma_max_scale_bounds,
    lemma_pow10_monotone, lemma_scaled_sum_prefix, max_scale, parse_amount, pow10, pow10_exec,
    scaled_sum, sum_text, summable,
};
use crate::error::SepaError;
use crate::model::{
    Amount, CreditorAccount, CreditorAccountId, CreditorAgent, CreditorTransferTransactionInformation,
    Document, FinancialInstitutionId, amount_texts, InstructedAmount, PaymentIdentification, Creditor,
};
use crate::timestamp::Timestamp;

verus! {

/// The control sum of a list of transfers: the decimal text of the sum of
/// their amounts. Fails when an amount is not a decimal number, or the sum is
/// beyond what can be held.
pub fn control_sum(transactions: &Vec<CreditorTransferTransactionInformation>) -> (r: Result<
    String,
    SepaError,
>)
    ensures
        r is Ok <==> summable(amount_texts(transactions@)),
        r is Ok ==> r->Ok_0@ == sum_text(amount_texts(transactions@)),
        r is Err ==> r == Err::<String, SepaError>(SepaError::InvalidAmount),
{
    let ghost a = amount_texts(transactions@);
    let n = transactions.len();
    let mut scale: usize = 0;
    let mut i: usize = 0;
    proof {
        assert(a.take(0) =~= Seq::<Seq<char>>::empty());
    }
    while i < n
        invariant
            i <= n,
            n == transactions@.len(),
            a == amount_texts(transactions@),
            all_amounts(a.take(i as int)),
            scale == max_scale(a.take(i as int)),
            scale <= 18,
        decreases n - i,
    {
        let parsed = parse_amount(transactions[i].amount.instructed_amount.value.as_str());
        proof {
            assert(a.take(i + 1).drop_last() =~= a.take(i as int));
            assert(a[i as int] == transactions@[i as int].amount.instructed_amount.value@);
        }
        match parsed {
            None => {
                assert(!all_amounts(a));
                return Err(SepaError::InvalidAmount);
            },
            Some(d) => {
                if d.scale > scale {
                    scale = d.scale;
                }
            },
        }
        i = i + 1;
    }
    proof {
        assert(a.take(n as int) =~= a);
    }
    let mut total: u128 = 0;
    i = 0;
    while i < n
        invariant
            i <= n,
            n == transactions@.len(),
            a == amount_texts(transactions@),
            all_amounts(a),
            scale == max_scale(a),
            scale <= 18,
            total == scaled_sum(a.take(i as int), scale as nat),
        decreases n - i,
    {
        let parsed = parse_amount(transactions[i].amount.instructed_amount.value.as_str());
        proof {
            assert(a.take(i + 1).drop_last() =~= a.take(i as int));
            assert(a[i as int] == transactions@[i as int].amount.instructed_amount.value@);
            assert(is_amount(a[i as int]));
            lemma_max_scale_bounds(a, i as int);
        }
        if let Some(d) = parsed {
            let p = pow10_exec(scale - d.scale);
            let m = d.mantissa as u128;
            proof {
                lemma_pow10_monotone((scale - d.scale) as nat, 18);
                reveal_with_fuel(pow10, 19);
            }
            assert(m * p <= 18_446_744_073_709_551_615u128 * 1_000_000_000_000_000_000u128)
                by (nonlinear_arith)
                requires
                    m <= 18_446_744_073_709_551_615u128,
                    p <= 1_000_000_000_000_000_000u128,
            ;
            let term = m * p;
            match total.checked_add(term) {
                None => {
                    proof {
                        lemma_scaled_sum_prefix(a, i + 1, scale as nat);
                    }
                    return Err(SepaError::InvalidAmount);
                },
                Some(t) => {
                    total = t;
                },
            }
        }
        i = i + 1;
    }
    proof {
        assert(a.take(n as int) =~= a);
    }
    Ok(format_decimal(total, scale))
}


impl Document {
    /// Overwrites the message id, the creation date-time and the initiating
    /// party's name. The transaction count and control sum stay as they are.
    pub fn edit_headers(&mut self, id: &str, creation_date: Timestamp, initiating_party_name: &str)
        ensures
            final(self).header().id@ == id@,
            final(self).header().creation_date == creation_date,
            final(self).header().initiating_party.name@ == initiating_party_name@,
            final(self).header().number_of_transactions == old(self).header().number_of_transactions,
            final(self).header().control_sum == old(self).header().control_sum,
            final(self).same_but_header(*old(self)),
    {
        let header = &mut self.customer_credit_transfer_initiation.header;
        header.id = String::from_str(id);
        header.creation_date = creation_date;
        header.initiating_party.name = String::from_str(initiating_party_name);
    }

    /// Appends a new transfer in euros, with end-to-end id `NOTPROVIDED`, at the
    /// end of the payment block. The summary fields are not recomputed.
    pub fn add_transaction(&mut self, name: &str, iban: &str, bic: &str, value: &str)
        requires
            old(self).transactions().len() < usize::MAX,
        ensures
            final(self).transactions().len() == old(self).transactions().len() + 1,
            final(self).transactions().drop_last() == old(self).transactions(),
            final(self).transactions().last().is_new_transfer(name@, iban@, bic@, value@),
            final(self).same_but_transactions(*old(self)),
    {
        let transaction = CreditorTransferTransactionInformation {
            payment_identification: PaymentIdentification {
                end_to_end_id: String::from_str("NOTPROVIDED"),
            },
            amount: Amount {
                instructed_amount: InstructedAmount {
                    currency: String::from_str("EUR"),
                    value: String::from_str(value),
                },
            },
            creditor_agent: CreditorAgent {
                financial_institution_id: FinancialInstitutionId { bic: String::from_str(bic) },
            },
            creditor: Creditor { name: String::from_str(name) },
            creditor_account: CreditorAccount { id: CreditorAccountId { iban: String::from_str(iban) } },
        };
        proof {
            reveal_strlit("NOTPROVIDED");
            reveal_strlit("EUR");
        }
        self.customer_credit_transfer_initiation.payment_information.transactions.push(transaction);
        assert(self.transactions().drop_last() =~= old(self).transactions());
    }

    /// Overwrites the creditor's name, IBAN and BIC and the amount value of the
    /// transfer at `index`. Fails, changing nothing, when there is no such
    /// transfer.
    pub fn edit_transaction(
        &mut self,
        index: usize,
        name: &str,
        iban: &str,
        bic: &str,
        value: &str,
    ) -> (r: Result<(), SepaError>)
        ensures
            r is Err <==> index >= old(self).transactions().len(),
            r is Err ==> r == Err::<(), SepaError>(SepaError::IndexOutOfRange) && *final(self) == *old(self),
            r is Ok ==> {
                let t = final(self).transactions()[index as int];
                let u = old(self).transactions()[index as int];
                &&& final(self).transactions() == old(self).transactions().update(index as int, t)
                &&& t.creditor.name@ == name@
                &&& t.creditor_account.id.iban@ == iban@
                &&& t.creditor_agent.financial_institution_id.bic@ == bic@
                &&& t.amount.instructed_amount.value@ == value@
                &&& t.amount.instructed_amount.currency == u.amount.instructed_amount.currency
                &&& t.payment_identification == u.payment_identification
                &&& final(self).same_but_transactions(*old(self))
            },
    {
        let transactions = &mut self.customer_credit_transfer_initiation.payment_information.transactions;
        if index >= transactions.len() {
            return Err(SepaError::IndexOutOfRange);
        }
        let old_transaction = &transactions[index];
        let transaction = CreditorTransferTransactionInformation {
            payment_identification: PaymentIdentification {
                end_to_end_id: old_transaction.payment_identification.end_to_end_id.clone(),
            },
            amount: Amount {
                instructed_amount: InstructedAmount {
                    currency: old_transaction.amount.instructed_amount.currency.clone(),
                    value: String::from_str(value),
                },
            },
            creditor_agent: CreditorAgent {
                financial_institution_id: FinancialInstitutionId { bic: String::from_str(bic) },
            },
            creditor: Creditor { name: String::from_str(name) },
            creditor_account: CreditorAccount { id: CreditorAccountId { iban: String::from_str(iban) } },
        };
        transactions[index] = transaction;
        Ok(())
    }

    /// Sets the group header's transaction count to the number of transfers
    /// and its control sum to the decimal text of the sum of their amounts.
    /// Fails, changing nothing, when an amount is not a decimal number or the
    /// sum is beyond what can be held.
    pub fn recompute_headers(&mut self) -> (r: Result<(), SepaError>)
        ensures
            r is Ok <==> summable(old(self).amounts()),
            r is Err ==> r == Err::<(), SepaError>(SepaError::InvalidAmount) && *final(self) == *old(self),
            r is Ok ==> {
                &&& final(self).header().number_of_transactions == old(self).transactions().len()
                &&& final(self).header().control_sum@ == sum_text(old(self).amounts())
                &&& final(self).header().id == old(self).header().id
                &&& final(self).header().creation_date == old(self).header().creation_date
                &&& final(self).header().initiating_party == old(self).header().initiating_party
                &&& final(self).same_but_header(*old(self))
            },
    {
        let sum = control_sum(&self.customer_credit_transfer_initiation.payment_information.transactions);
        match sum {
            Err(e) => Err(e),
            Ok(text) => {
                let n = self.transaction_count();
                let header = &mut self.customer_credit_transfer_initiation.header;
                header.number_of_transactions = n;
                header.control_sum = text;
                Ok(())
            },
        }
    }

    /// Removes the transfer at `index`; those after it move down by one. Fails,
    /// changing nothing, when there is no such transfer.
    pub fn remove_transaction(&mut self, index: usize) -> (r: Result<(), SepaError>)
        ensures
            r is Err <==> index >= old(self).transactions().len(),
            r is Err ==> r == Err::<(), SepaError>(SepaError::IndexOutOfRange) && *final(self) == *old(self),
            r is Ok ==> final(self).transactions() == old(self).transactions().remove(index as int)
                && final(self).same_but_transactions(*old(self)),
    {
        let transactions = &mut self.customer_credit_transfer_initiation.payment_information.transactions;
        if index >= transactions.len() {
            return Err(SepaError::IndexOutOfRange);
        }
        transactions.remove(index);
        Ok(())
    }
}

} // verus!
