//! Transactions, and the canonical record that their content hash covers.

use crate::hashing::{append_bytes, sha256, sha256_digest};
use vstd::prelude::*;
use vstd::string::StringSliceAdditionalSpecFns;

verus! {

/// The bytes that serde_json writes for a string: the quoted, escaped JSON
/// string literal.
pub uninterp spec fn json_string_bytes(s: Seq<char>) -> Seq<u8>;

/// Relies on `serde_json::to_vec` on a `str`: the JSON string literal for
/// `s`, written into a fresh vector (writing into a vector does not fail).
#[verifier::external_body]
fn json_string(s: &str) -> (r: Vec<u8>)
    ensures
        r@ == json_string_bytes(s@),
{
    serde_json::to_vec(s).unwrap_or_default()
}

/// The ASCII decimal digits of `n`, most significant first, without
/// leading zeros.
pub open spec fn decimal_digits(n: nat) -> Seq<u8>
    decreases n,
{
    if n < 10 {
        seq![(48 + n) as u8]
    } else {
        decimal_digits(n / 10).push((48 + n % 10) as u8)
    }
}

/// The canonical record of a transaction, a JSON object with its fields in
/// a fixed order: `{"sender":S,"receiver":R,"amount":N}`.
pub open spec fn record_bytes(sender: Seq<char>, receiver: Seq<char>, amount: u64) -> Seq<u8> {
    "{\"sender\":".spec_bytes() + json_string_bytes(sender) + ",\"receiver\":".spec_bytes()
        + json_string_bytes(receiver) + ",\"amount\":".spec_bytes() + decimal_digits(amount as nat)
        + "}".spec_bytes()
}

/// The content hash of a transaction: the digest of its canonical record.
pub open spec fn content_hash(sender: Seq<char>, receiver: Seq<char>, amount: u64) -> Seq<u8> {
    sha256(record_bytes(sender, receiver, amount))
}

/// Appends the decimal digits of `n` to `out`.
fn push_decimal(out: &mut Vec<u8>, n: u64)
    ensures
        final(out)@ == old(out)@ + decimal_digits(n as nat),
    decreases n,
{
    if n >= 10 {
        push_decimal(out, n / 10);
    }
    out.push((48 + n % 10) as u8);
    proof {
        assert(old(out)@ + decimal_digits(n as nat) =~= out@);
    }
}

/// Appends the UTF-8 bytes of `s` to `out`.
fn push_text(out: &mut Vec<u8>, s: &str)
    ensures
        final(out)@ == old(out)@ + s.spec_bytes(),
{
    append_bytes(out, s.as_bytes());
}

/// The canonical record of the transaction with the given fields.
pub fn record(sender: &str, receiver: &str, amount: u64) -> (r: Vec<u8>)
    ensures
        r@ == record_bytes(sender@, receiver@, amount),
{
    let mut out: Vec<u8> = Vec::new();
    push_text(&mut out, "{\"sender\":");
    let s = json_string(sender);
    append_bytes(&mut out, s.as_slice());
    push_text(&mut out, ",\"receiver\":");
    let r = json_string(receiver);
    append_bytes(&mut out, r.as_slice());
    push_text(&mut out, ",\"amount\":");
    push_decimal(&mut out, amount);
    push_text(&mut out, "}");
    proof {
        assert(out@ =~= record_bytes(sender@, receiver@, amount));
    }
    out
}

/// A transfer of `amount` from `sender` to `receiver`, with the content hash
/// computed when it was created.
#[derive(Debug, Clone)]
pub struct Transaction {
    pub sender: String,
    pub receiver: String,
    pub amount: u64,
    pub hash: Vec<u8>,
}

impl Transaction {
    /// The content hash of this transaction's fields, recomputed.
    pub open spec fn content_digest(&self) -> Seq<u8> {
        content_hash(self.sender@, self.receiver@, self.amount)
    }

    /// Whether the stored hash is the content hash of the fields.
    pub open spec fn well_formed(&self) -> bool {
        self.hash@ == self.content_digest()
    }

    /// A transaction with the given fields and its content hash.
    pub fn new(sender: String, receiver: String, amount: u64) -> (r: Self)
        ensures
            r.sender@ == sender@,
            r.receiver@ == receiver@,
            r.amount == amount,
            r.hash@ == content_hash(sender@, receiver@, amount),
            r.well_formed(),
    {
        let hash = sha256_digest(record(sender.as_str(), receiver.as_str(), amount).as_slice());
        Transaction { sender, receiver, amount, hash }
    }

    /// The content hash of this transaction, recomputed from its fields.
    pub fn calculate_hash(&self) -> (r: Vec<u8>)
        ensures
            r@ == self.content_digest(),
            r@.len() == 32,
    {
        sha256_digest(record(self.sender.as_str(), self.receiver.as_str(), self.amount).as_slice())
    }

    /// The stored content hash.
    pub fn hash(&self) -> (r: &Vec<u8>)
        ensures
            *r == self.hash,
    {
        &self.hash
    }
}

} // verus!
