use vstd::prelude::*;
use vstd::seq_lib::lemma_concat_associative;
use vstd::string::{StrSliceExecFns, StringExecFns};

use crate::amount::{whole_text, write_whole};
use crate::model::{CreditorTransferTransactionInformation, Document, GroupHeader, PaymentInformation};
use crate::timestamp::timestamp_text;

verus! {

/// A character as it stands in element text or an attribute value: the five
/// characters that XML reserves become entity references.
pub open spec fn escaped_char(c: char) -> Seq<char> {
    if c == '&' {
        seq!['&', 'a', 'm', 'p', ';']
    } else if c == '<' {
        seq!['&', 'l', 't', ';']
    } else if c == '>' {
        seq!['&', 'g', 't', ';']
    } else if c == '"' {
        seq!['&', 'q', 'u', 'o', 't', ';']
    } else if c == '\'' {
        seq!['&', 'a', 'p', 'o', 's', ';']
    } else {
        seq![c]
    }
}

pub open spec fn escaped(s: Seq<char>) -> Seq<char>
    decreases s.len(),
{
    if s.len() == 0 {
        Seq::empty()
    } else {
        escaped(s.drop_last()) + escaped_char(s.last())
    }
}

/// Four spaces per nesting level.
pub open spec fn indent(depth: nat) -> Seq<char>
    decreases depth,
{
    if depth == 0 {
        Seq::empty()
    } else {
        indent((depth - 1) as nat) + seq![' ', ' ', ' ', ' ']
    }
}

/// A new line at the given nesting level.
pub open spec fn line(depth: nat, content: Seq<char>) -> Seq<char> {
    seq!['\n'] + indent(depth) + content
}

pub open spec fn open_tag(tag: Seq<char>) -> Seq<char> {
    seq!['<'] + tag + seq!['>']
}

pub open spec fn close_tag(tag: Seq<char>) -> Seq<char> {
    seq!['<', '/'] + tag + seq!['>']
}

/// An element that holds text only, on one line.
pub open spec fn leaf(depth: nat, tag: Seq<char>, text: Seq<char>) -> Seq<char> {
    line(depth, open_tag(tag) + escaped(text) + close_tag(tag))
}

/// An element whose children stand on the lines between its tags.
pub open spec fn wrapped(depth: nat, tag: Seq<char>, inner: Seq<char>) -> Seq<char> {
    line(depth, open_tag(tag)) + inner + line(depth, close_tag(tag))
}

pub open spec fn header_text(h: GroupHeader) -> Seq<char> {
    wrapped(
        2,
        "GrpHdr"@,
        leaf(3, "MsgId"@, h.id@) + leaf(3, "CreDtTm"@, timestamp_text(h.creation_date)) + leaf(
            3,
            "NbOfTxs"@,
            whole_text(h.number_of_transactions as nat),
        ) + leaf(3, "CtrlSum"@, h.control_sum@) + wrapped(
            3,
            "InitgPty"@,
            leaf(4, "Nm"@, h.initiating_party.name@),
        ),
    )
}

/// `InstdAmt`, with the currency as its `Ccy` attribute and the value as text.
pub open spec fn instructed_amount_text(currency: Seq<char>, value: Seq<char>) -> Seq<char> {
    line(
        5,
        "<InstdAmt Ccy=\""@ + escaped(currency) + "\">"@ + escaped(value) + close_tag("InstdAmt"@),
    )
}

pub open spec fn transaction_text(t: CreditorTransferTransactionInformation) -> Seq<char> {
    wrapped(
        3,
        "CdtTrfTxInf"@,
        wrapped(4, "PmtId"@, leaf(5, "EndToEndId"@, t.payment_identification.end_to_end_id@))
            + wrapped(
            4,
            "Amt"@,
            instructed_amount_text(
                t.amount.instructed_amount.currency@,
                t.amount.instructed_amount.value@,
            ),
        ) + wrapped(
            4,
            "CdtrAgt"@,
            wrapped(5, "FinInstnId"@, leaf(6, "BIC"@, t.creditor_agent.financial_institution_id.bic@)),
        ) + wrapped(4, "Cdtr"@, leaf(5, "Nm"@, t.creditor.name@)) + wrapped(
            4,
            "CdtrAcct"@,
            wrapped(5, "Id"@, leaf(6, "IBAN"@, t.creditor_account.id.iban@)),
        ),
    )
}

pub open spec fn transactions_text(ts: Seq<CreditorTransferTransactionInformation>) -> Seq<char>
    decreases ts.len(),
{
    if ts.len() == 0 {
        Seq::empty()
    } else {
        transactions_text(ts.drop_last()) + transaction_text(ts.last())
    }
}

pub open spec fn payment_text(p: PaymentInformation) -> Seq<char> {
    wrapped(
        2,
        "PmtInf"@,
        leaf(3, "PmtInfId"@, p.id@) + leaf(3, "PmtMtd"@, p.method@) + leaf(
            3,
            "NbOfTxs"@,
            whole_text(p.number_of_transactions as nat),
        ) + leaf(3, "CtrlSum"@, p.control_sum@) + wrapped(
            3,
            "PmtTpInf"@,
            wrapped(4, "CtgyPurp"@, leaf(5, "Cd"@, p.type_information.category_purpose.code@)),
        ) + leaf(3, "ReqdExctnDt"@, p.requested_execution_date@) + wrapped(
            3,
            "Dbtr"@,
            leaf(4, "Nm"@, p.debtor.name@),
        ) + wrapped(3, "DbtrAcct"@, wrapped(4, "Id"@, leaf(5, "IBAN"@, p.debtor_account.id.iban@)))
            + wrapped(
            3,
            "DbtrAgt"@,
            wrapped(4, "FinInstnId"@, leaf(5, "BIC"@, p.debtor_agent.financial_institution_id.bic@)),
        ) + transactions_text(p.transactions@),
    )
}

/// The whole document: the root element carries the two namespace
/// declarations as attributes, and every other field is a child element, in
/// declaration order, one per line and indented by four spaces per level.
pub open spec fn document_text(d: Document) -> Seq<char> {
    "<Document xmlns=\""@ + escaped(d.xmlns@) + "\" xmlns:xsi=\""@ + escaped(d.xmlns_xsi@) + "\">"@
        + wrapped(
        1,
        "CstmrCdtTrfInitn"@,
        header_text(d.customer_credit_transfer_initiation.header) + payment_text(
            d.customer_credit_transfer_initiation.payment_information,
        ),
    ) + line(0, close_tag("Document"@))
}

fn write_escaped(out: &mut String, s: &str)
    ensures
        final(out)@ == old(out)@ + escaped(s@),
{
    proof {
        reveal_strlit("&amp;");
        reveal_strlit("&lt;");
        reveal_strlit("&gt;");
        reveal_strlit("&quot;");
        reveal_strlit("&apos;");
    }
    let n = s.unicode_len();
    let mut i: usize = 0;
    proof {
        assert(s@.take(0) =~= Seq::<char>::empty());
    }
    while i < n
        invariant
            i <= n,
            n == s@.len(),
            out@ == old(out)@ + escaped(s@.take(i as int)),
        decreases n - i,
    {
        let c = s.get_char(i);
        proof {
            assert(s@.take(i + 1).drop_last() =~= s@.take(i as int));
            assert(s@.take(i + 1).last() == c);
        }
        let ghost prev = out@;
        if c == '&' {
            proof {
                reveal_strlit("&amp;");
            }
            out.append("&amp;");
            assert("&amp;"@ =~= escaped_char(c));
        } else if c == '<' {
            proof {
                reveal_strlit("&lt;");
            }
            out.append("&lt;");
            assert("&lt;"@ =~= escaped_char(c));
        } else if c == '>' {
            proof {
                reveal_strlit("&gt;");
            }
            out.append("&gt;");
            assert("&gt;"@ =~= escaped_char(c));
        } else if c == '"' {
            proof {
                reveal_strlit("&quot;");
            }
            out.append("&quot;");
            assert("&quot;"@ =~= escaped_char(c));
        } else if c == '\'' {
            proof {
                reveal_strlit("&apos;");
            }
            out.append("&apos;");
            assert("&apos;"@ =~= escaped_char(c));
        } else {
            let one = s.substring_char(i, i + 1);
            assert(one@ =~= seq![c]);
            out.append(one);
        }
        assert(out@ == prev + escaped_char(c));
        assert(escaped(s@.take(i + 1)) == escaped(s@.take(i as int)) + escaped_char(c));
        assert(out@ =~= old(out)@ + escaped(s@.take(i + 1)));
        i = i + 1;
    }
    assert(s@.take(n as int) =~= s@);
}

fn write_line(out: &mut String, depth: usize)
    ensures
        final(out)@ == old(out)@ + seq!['\n'] + indent(depth as nat),
{
    proof {
        reveal_strlit("\n");
        reveal_strlit("    ");
    }
    out.append("\n");
    let mut i: usize = 0;
    while i < depth
        invariant
            i <= depth,
            out@ == old(out)@ + seq!['\n'] + indent(i as nat),
        decreases depth - i,
    {
        proof {
            reveal_strlit("    ");
        }
        out.append("    ");
        assert("    "@ =~= seq![' ', ' ', ' ', ' ']);
        assert(indent(i as nat + 1) == indent(i as nat) + seq![' ', ' ', ' ', ' ']);
        i = i + 1;
        assert(out@ =~= old(out)@ + seq!['\n'] + indent(i as nat));
    }
}

fn write_open(out: &mut String, depth: usize, tag: &str)
    ensures
        final(out)@ == old(out)@ + line(depth as nat, open_tag(tag@)),
{
    proof {
        reveal_strlit("<");
        reveal_strlit(">");
    }
    write_line(out, depth);
    out.append("<");
    out.append(tag);
    out.append(">");
    assert(out@ =~= old(out)@ + line(depth as nat, open_tag(tag@)));
}

fn write_close_tag(out: &mut String, tag: &str)
    ensures
        final(out)@ == old(out)@ + close_tag(tag@),
{
    proof {
        reveal_strlit("</");
        reveal_strlit(">");
    }
    out.append("</");
    out.append(tag);
    out.append(">");
    assert(out@ =~= old(out)@ + close_tag(tag@));
}

fn write_close(out: &mut String, depth: usize, tag: &str)
    ensures
        final(out)@ == old(out)@ + line(depth as nat, close_tag(tag@)),
{
    write_line(out, depth);
    write_close_tag(out, tag);
    assert(out@ =~= old(out)@ + line(depth as nat, close_tag(tag@)));
}

fn write_leaf(out: &mut String, depth: usize, tag: &str, text: &str)
    ensures
        final(out)@ == old(out)@ + leaf(depth as nat, tag@, text@),
{
    write_open(out, depth, tag);
    write_escaped(out, text);
    write_close_tag(out, tag);
    assert(out@ =~= old(out)@ + leaf(depth as nat, tag@, text@));
}

fn write_number_leaf(out: &mut String, depth: usize, tag: &str, n: usize)
    ensures
        final(out)@ == old(out)@ + leaf(depth as nat, tag@, whole_text(n as nat)),
{
    let mut digits = String::new();
    write_whole(&mut digits, n as u128);
    assert(digits@ =~= whole_text(n as nat));
    write_leaf(out, depth, tag, digits.as_str());
}

fn write_header(out: &mut String, h: &GroupHeader)
    ensures
        final(out)@ == old(out)@ + header_text(*h),
{
    write_open(out, 2, "GrpHdr");
    let ghost a = out@;
    write_leaf(out, 3, "MsgId", h.id.as_str());
    let date = h.creation_date.format();
    write_leaf(out, 3, "CreDtTm", date.as_str());
    write_number_leaf(out, 3, "NbOfTxs", h.number_of_transactions);
    write_leaf(out, 3, "CtrlSum", h.control_sum.as_str());
    let ghost b = out@;
    write_open(out, 3, "InitgPty");
    write_leaf(out, 4, "Nm", h.initiating_party.name.as_str());
    write_close(out, 3, "InitgPty");
    assert(out@ =~= b + wrapped(3, "InitgPty"@, leaf(4, "Nm"@, h.initiating_party.name@)));
    write_close(out, 2, "GrpHdr");
    assert(out@ =~= old(out)@ + header_text(*h));
}

fn write_wrapped_leaf(out: &mut String, depth: usize, outer: &str, inner: &str, text: &str)
    requires
        depth < usize::MAX,
    ensures
        final(out)@ == old(out)@ + wrapped(depth as nat, outer@, leaf(depth as nat + 1, inner@, text@)),
{
    write_open(out, depth, outer);
    write_leaf(out, depth + 1, inner, text);
    write_close(out, depth, outer);
    assert(out@ =~= old(out)@ + wrapped(depth as nat, outer@, leaf(depth as nat + 1, inner@, text@)));
}

fn write_wrapped2_leaf(
    out: &mut String,
    depth: usize,
    outer: &str,
    middle: &str,
    inner: &str,
    text: &str,
)
    requires
        depth < usize::MAX - 1,
    ensures
        final(out)@ == old(out)@ + wrapped(
            depth as nat,
            outer@,
            wrapped(depth as nat + 1, middle@, leaf(depth as nat + 2, inner@, text@)),
        ),
{
    write_open(out, depth, outer);
    write_wrapped_leaf(out, depth + 1, middle, inner, text);
    write_close(out, depth, outer);
    assert(out@ =~= old(out)@ + wrapped(
        depth as nat,
        outer@,
        wrapped(depth as nat + 1, middle@, leaf(depth as nat + 2, inner@, text@)),
    ));
}

fn write_amount(out: &mut String, currency: &str, value: &str)
    ensures
        final(out)@ == old(out)@ + wrapped(4, "Amt"@, instructed_amount_text(currency@, value@)),
{
    proof {
        reveal_strlit("<InstdAmt Ccy=\"");
        reveal_strlit("\">");
    }
    write_open(out, 4, "Amt");
    let ghost s0 = out@;
    write_line(out, 5);
    out.append("<InstdAmt Ccy=\"");
    write_escaped(out, currency);
    out.append("\">");
    write_escaped(out, value);
    write_close_tag(out, "InstdAmt");
    assert(out@ =~= s0 + instructed_amount_text(currency@, value@));
    write_close(out, 4, "Amt");
    assert(out@ =~= old(out)@ + wrapped(4, "Amt"@, instructed_amount_text(currency@, value@)));
}

fn write_transaction(out: &mut String, t: &CreditorTransferTransactionInformation)
    ensures
        final(out)@ == old(out)@ + transaction_text(*t),
{
    write_open(out, 3, "CdtTrfTxInf");
    let ghost s0 = out@;
    write_wrapped_leaf(out, 4, "PmtId", "EndToEndId", t.payment_identification.end_to_end_id.as_str());
    let ghost acc = out@.subrange(s0.len() as int, out@.len() as int);
    assert(out@ =~= s0 + acc);
    let ghost x = wrapped(4, "Amt"@, instructed_amount_text(
        t.amount.instructed_amount.currency@,
        t.amount.instructed_amount.value@,
    ));
    write_amount(out, t.amount.instructed_amount.currency.as_str(), t.amount.instructed_amount.value.as_str());
    proof {
        lemma_concat_associative(s0, acc, x);
        acc = acc + x;
        x = wrapped(4, "CdtrAgt"@, wrapped(5, "FinInstnId"@, leaf(6, "BIC"@, t.creditor_agent.financial_institution_id.bic@)));
    }
    write_wrapped2_leaf(out, 4, "CdtrAgt", "FinInstnId", "BIC", t.creditor_agent.financial_institution_id.bic.as_str());
    proof {
        lemma_concat_associative(s0, acc, x);
        acc = acc + x;
        x = wrapped(4, "Cdtr"@, leaf(5, "Nm"@, t.creditor.name@));
    }
    write_wrapped_leaf(out, 4, "Cdtr", "Nm", t.creditor.name.as_str());
    proof {
        lemma_concat_associative(s0, acc, x);
        acc = acc + x;
        x = wrapped(4, "CdtrAcct"@, wrapped(5, "Id"@, leaf(6, "IBAN"@, t.creditor_account.id.iban@)));
    }
    write_wrapped2_leaf(out, 4, "CdtrAcct", "Id", "IBAN", t.creditor_account.id.iban.as_str());
    proof {
        lemma_concat_associative(s0, acc, x);
        acc = acc + x;
    }
    write_close(out, 3, "CdtTrfTxInf");
    assert(acc == wrapped(4, "PmtId"@, leaf(5, "EndToEndId"@, t.payment_identification.end_to_end_id@))
        + wrapped(4, "Amt"@, instructed_amount_text(t.amount.instructed_amount.currency@, t.amount.instructed_amount.value@))
        + wrapped(4, "CdtrAgt"@, wrapped(5, "FinInstnId"@, leaf(6, "BIC"@, t.creditor_agent.financial_institution_id.bic@)))
        + wrapped(4, "Cdtr"@, leaf(5, "Nm"@, t.creditor.name@))
        + wrapped(4, "CdtrAcct"@, wrapped(5, "Id"@, leaf(6, "IBAN"@, t.creditor_account.id.iban@))));
    assert(out@ =~= old(out)@ + transaction_text(*t));
}

fn write_payment_fields(out: &mut String, p: &PaymentInformation)
    ensures
        final(out)@ == old(out)@ + (leaf(3, "PmtInfId"@, p.id@) + leaf(3, "PmtMtd"@, p.method@) + leaf(
            3,
            "NbOfTxs"@,
            whole_text(p.number_of_transactions as nat),
        ) + leaf(3, "CtrlSum"@, p.control_sum@) + wrapped(
            3,
            "PmtTpInf"@,
            wrapped(4, "CtgyPurp"@, leaf(5, "Cd"@, p.type_information.category_purpose.code@)),
        ) + leaf(3, "ReqdExctnDt"@, p.requested_execution_date@) + wrapped(
            3,
            "Dbtr"@,
            leaf(4, "Nm"@, p.debtor.name@),
        ) + wrapped(3, "DbtrAcct"@, wrapped(4, "Id"@, leaf(5, "IBAN"@, p.debtor_account.id.iban@)))
            + wrapped(
            3,
            "DbtrAgt"@,
            wrapped(4, "FinInstnId"@, leaf(5, "BIC"@, p.debtor_agent.financial_institution_id.bic@)),
        )),
{
    let ghost s0 = out@;
    let ghost acc = leaf(3, "PmtInfId"@, p.id@);
    write_leaf(out, 3, "PmtInfId", p.id.as_str());
    let ghost x = leaf(3, "PmtMtd"@, p.method@);
    write_leaf(out, 3, "PmtMtd", p.method.as_str());
    proof {
        lemma_concat_associative(s0, acc, x);
        acc = acc + x;
        x = leaf(3, "NbOfTxs"@, whole_text(p.number_of_transactions as nat));
    }
    write_number_leaf(out, 3, "NbOfTxs", p.number_of_transactions);
    proof {
        lemma_concat_associative(s0, acc, x);
        acc = acc + x;
        x = leaf(3, "CtrlSum"@, p.control_sum@);
    }
    write_leaf(out, 3, "CtrlSum", p.control_sum.as_str());
    proof {
        lemma_concat_associative(s0, acc, x);
        acc = acc + x;
        x = wrapped(3, "PmtTpInf"@, wrapped(4, "CtgyPurp"@, leaf(5, "Cd"@, p.type_information.category_purpose.code@)));
    }
    write_wrapped2_leaf(out, 3, "PmtTpInf", "CtgyPurp", "Cd", p.type_information.category_purpose.code.as_str());
    proof {
        lemma_concat_associative(s0, acc, x);
        acc = acc + x;
        x = leaf(3, "ReqdExctnDt"@, p.requested_execution_date@);
    }
    write_leaf(out, 3, "ReqdExctnDt", p.requested_execution_date.as_str());
    proof {
        lemma_concat_associative(s0, acc, x);
        acc = acc + x;
        x = wrapped(3, "Dbtr"@, leaf(4, "Nm"@, p.debtor.name@));
    }
    write_wrapped_leaf(out, 3, "Dbtr", "Nm", p.debtor.name.as_str());
    proof {
        lemma_concat_associative(s0, acc, x);
        acc = acc + x;
        x = wrapped(3, "DbtrAcct"@, wrapped(4, "Id"@, leaf(5, "IBAN"@, p.debtor_account.id.iban@)));
    }
    write_wrapped2_leaf(out, 3, "DbtrAcct", "Id", "IBAN", p.debtor_account.id.iban.as_str());
    proof {
        lemma_concat_associative(s0, acc, x);
        acc = acc + x;
        x = wrapped(3, "DbtrAgt"@, wrapped(4, "FinInstnId"@, leaf(5, "BIC"@, p.debtor_agent.financial_institution_id.bic@)));
    }
    write_wrapped2_leaf(out, 3, "DbtrAgt", "FinInstnId", "BIC", p.debtor_agent.financial_institution_id.bic.as_str());
    proof {
        lemma_concat_associative(s0, acc, x);
    }
}

fn write_payment(out: &mut String, p: &PaymentInformation)
    ensures
        final(out)@ == old(out)@ + payment_text(*p),
{
    write_open(out, 2, "PmtInf");
    let ghost s0 = out@;
    write_payment_fields(out, p);
    let ghost s4 = out@;
    let n = p.transactions.len();
    let mut i: usize = 0;
    proof {
        assert(p.transactions@.take(0) =~= Seq::<CreditorTransferTransactionInformation>::empty());
        assert(s4 =~= s4 + transactions_text(p.transactions@.take(0)));
    }
    while i < n
        invariant
            i <= n,
            n == p.transactions@.len(),
            out@ == s4 + transactions_text(p.transactions@.take(i as int)),
        decreases n - i,
    {
        write_transaction(out, &p.transactions[i]);
        proof {
            assert(p.transactions@.take(i + 1).drop_last() =~= p.transactions@.take(i as int));
            lemma_concat_associative(
                s4,
                transactions_text(p.transactions@.take(i as int)),
                transaction_text(p.transactions@[i as int]),
            );
        }
        i = i + 1;
    }
    assert(p.transactions@.take(n as int) =~= p.transactions@);
    let ghost s5 = out@;
    write_close(out, 2, "PmtInf");
    let ghost fields = s4.subrange(s0.len() as int, s4.len() as int);
    assert(s4 =~= s0 + fields);
    proof {
        lemma_concat_associative(s0, fields, transactions_text(p.transactions@));
    }
    assert(out@ =~= old(out)@ + payment_text(*p));
}

impl Document {
    /// The document as XML text, in the layout of `document_text`.
    pub fn encode(&self) -> (r: String)
        ensures
            r@ == document_text(*self),
    {
        proof {
            reveal_strlit("<Document xmlns=\"");
            reveal_strlit("\" xmlns:xsi=\"");
            reveal_strlit("\">");
        }
        let mut out = String::new();
        out.append("<Document xmlns=\"");
        write_escaped(&mut out, self.xmlns.as_str());
        out.append("\" xmlns:xsi=\"");
        write_escaped(&mut out, self.xmlns_xsi.as_str());
        out.append("\">");
        let ghost s0 = out@;
        assert(s0 =~= "<Document xmlns=\""@ + escaped(self.xmlns@) + "\" xmlns:xsi=\""@ + escaped(
            self.xmlns_xsi@,
        ) + "\">"@);
        write_open(&mut out, 1, "CstmrCdtTrfInitn");
        let ghost s1 = out@;
        let ghost h = header_text(self.customer_credit_transfer_initiation.header);
        let ghost q = payment_text(self.customer_credit_transfer_initiation.payment_information);
        write_header(&mut out, &self.customer_credit_transfer_initiation.header);
        write_payment(&mut out, &self.customer_credit_transfer_initiation.payment_information);
        proof {
            lemma_concat_associative(s1, h, q);
        }
        write_close(&mut out, 1, "CstmrCdtTrfInitn");
        let ghost s2 = out@;
        let ghost open = line(1, open_tag("CstmrCdtTrfInitn"@));
        let ghost close = line(1, close_tag("CstmrCdtTrfInitn"@));
        proof {
            lemma_concat_associative(s0, open, h + q);
            lemma_concat_associative(s0, open + (h + q), close);
        }
        assert(s2 == s0 + wrapped(1, "CstmrCdtTrfInitn"@, h + q));
        write_close(&mut out, 0, "Document");
        out
    }
}

} // verus!
