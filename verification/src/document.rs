//! Policy documents as the service hands them out: JSON, percent-encoded.

use vstd::prelude::*;

use crate::json::{parse, parsed, Json, JsonValue};

verus! {

#[verifier::external_type_specification]
#[verifier::external_body]
pub struct ExFromUtf8Error(std::string::FromUtf8Error);

/// What `urlencoding::decode` makes of a text: the text with its percent
/// escapes resolved, or `None` where the bytes that result are not UTF-8.
pub uninterp spec fn percent_decoded(text: Seq<char>) -> Option<Seq<char>>;

/// `urlencoding::decode`, with its result as an owned string. Whether it
/// succeeds and what it gives depend on the text alone, so the contract names
/// both.
#[verifier::external_body]
fn percent_decode(text: &str) -> (decoded: Result<String, std::string::FromUtf8Error>)
    ensures
        decoded is Ok <==> percent_decoded(text@) is Some,
        decoded matches Ok(plain) ==> percent_decoded(text@) == Some(plain@),
{
    urlencoding::decode(text).map(|plain| plain.into_owned())
}

/// Why a policy document cannot be read.
#[derive(Clone, Copy, Debug, PartialEq, Eq, Structural)]
pub enum DecodeError {
    /// Its percent escapes do not resolve to UTF-8 text.
    NotUtf8,
    /// Its text is not JSON.
    NotJson,
}

/// What to do with a policy whose document cannot be read.
#[derive(Clone, Copy, Debug, PartialEq, Eq, Structural)]
pub enum OnDecodeError {
    /// Leave the policy out and go on. This is the default.
    Skip,
    /// Give up with the error of the first such policy.
    Fail,
}

impl Default for OnDecodeError {
    fn default() -> (choice: OnDecodeError)
        ensures
            choice == OnDecodeError::Skip,
    {
        OnDecodeError::Skip
    }
}

/// A policy by name, with its document as fetched.
#[derive(Debug, PartialEq, Eq)]
pub struct PolicyDocument {
    pub policy_name: String,
    pub document: String,
}

/// What a [`PolicyDocument`] stands for.
pub struct PolicyDocumentView {
    pub policy_name: Seq<char>,
    pub document: Seq<char>,
}

impl View for PolicyDocument {
    type V = PolicyDocumentView;

    open spec fn view(&self) -> PolicyDocumentView {
        PolicyDocumentView { policy_name: self.policy_name@, document: self.document@ }
    }
}

/// A policy by name, with its document read.
#[derive(Debug, PartialEq, Eq)]
pub struct DecodedPolicy {
    pub policy_name: String,
    pub document: Json,
}

/// What a [`DecodedPolicy`] stands for.
pub struct DecodedPolicyView {
    pub policy_name: Seq<char>,
    pub document: JsonValue,
}

impl View for DecodedPolicy {
    type V = DecodedPolicyView;

    open spec fn view(&self) -> DecodedPolicyView {
        DecodedPolicyView { policy_name: self.policy_name@, document: self.document@ }
    }
}

/// The JSON value of a document: its percent escapes are resolved first, and
/// what results is read as JSON.
pub open spec fn decoded(document: Seq<char>) -> Result<JsonValue, DecodeError> {
    match percent_decoded(document) {
        None => Err(DecodeError::NotUtf8),
        Some(plain) => match parsed(plain) {
            None => Err(DecodeError::NotJson),
            Some(value) => Ok(value),
        },
    }
}

/// The policies of `policies` with their documents read, in the same order.
/// With `skip`, a policy whose document cannot be read is left out; without,
/// the first such policy gives its error to the whole.
pub open spec fn decoded_policies(policies: Seq<PolicyDocumentView>, skip: bool) -> Result<
    Seq<DecodedPolicyView>,
    DecodeError,
>
    decreases policies.len(),
{
    if policies.len() == 0 {
        Ok(Seq::empty())
    } else {
        match decoded_policies(policies.drop_last(), skip) {
            Err(error) => Err(error),
            Ok(before) => match decoded(policies.last().document) {
                Ok(value) => Ok(
                    before.push(
                        DecodedPolicyView {
                            policy_name: policies.last().policy_name,
                            document: value,
                        },
                    ),
                ),
                Err(error) => if skip {
                    Ok(before)
                } else {
                    Err(error)
                },
            },
        }
    }
}

/// The views of a sequence of policy documents.
pub open spec fn documents_view(policies: Seq<PolicyDocument>) -> Seq<PolicyDocumentView> {
    Seq::new(policies.len(), |i: int| policies[i]@)
}

/// The views of a sequence of decoded policies.
pub open spec fn policies_view(policies: Seq<DecodedPolicy>) -> Seq<DecodedPolicyView> {
    Seq::new(policies.len(), |i: int| policies[i]@)
}

/// Reads a policy document: resolves its percent escapes and parses the
/// result as JSON.
pub fn decode_document(document: &str) -> (json: Result<Json, DecodeError>)
    ensures
        json matches Ok(value) ==> decoded(document@) == Ok::<JsonValue, DecodeError>(value@),
        json matches Err(error) ==> decoded(document@) == Err::<JsonValue, DecodeError>(error),
{
    match percent_decode(document) {
        Err(_) => Err(DecodeError::NotUtf8),
        Ok(plain) => match parse(plain.as_str()) {
            None => Err(DecodeError::NotJson),
            Some(value) => Ok(value),
        },
    }
}

/// Reads the documents of `policies`, keeping each name with its document.
///
/// With [`OnDecodeError::Skip`] the result is always `Ok` and holds the
/// policies whose documents could be read; with [`OnDecodeError::Fail`] it is
/// the error of the first document that could not.
pub fn decode_policies(policies: &Vec<PolicyDocument>, on_error: OnDecodeError) -> (result: Result<
    Vec<DecodedPolicy>,
    DecodeError,
>)
    ensures
        result matches Ok(read) ==> decoded_policies(
            documents_view(policies@),
            on_error == OnDecodeError::Skip,
        ) == Ok::<Seq<DecodedPolicyView>, DecodeError>(policies_view(read@)),
        result matches Err(error) ==> decoded_policies(
            documents_view(policies@),
            on_error == OnDecodeError::Skip,
        ) == Err::<Seq<DecodedPolicyView>, DecodeError>(error),
        on_error == OnDecodeError::Skip ==> result is Ok,
{
    let ghost all = documents_view(policies@);
    let ghost skip = on_error == OnDecodeError::Skip;
    let mut read: Vec<DecodedPolicy> = Vec::new();
    let mut i: usize = 0;
    assert(policies_view(read@) =~= Seq::empty());
    while i < policies.len()
        invariant
            i <= policies.len(),
            all == documents_view(policies@),
            skip == (on_error == OnDecodeError::Skip),
            decoded_policies(all.take(i as int), skip) == Ok::<
                Seq<DecodedPolicyView>,
                DecodeError,
            >(policies_view(read@)),
        decreases policies.len() - i,
    {
        let ghost before = policies_view(read@);
        assert(all.take(i + 1).drop_last() == all.take(i as int));
        assert(all.take(i + 1).last() == policies@[i as int]@);
        let policy = &policies[i];
        match decode_document(policy.document.as_str()) {
            Ok(value) => {
                let entry = DecodedPolicy { policy_name: policy.policy_name.clone(), document: value };
                read.push(entry);
                assert(policies_view(read@) =~= before.push(entry@));
            },
            Err(error) => {
                match on_error {
                    OnDecodeError::Skip => {},
                    OnDecodeError::Fail => {
                        proof {
                            lemma_failure_stays(all, i + 1, error);
                        }
                        return Err(error);
                    },
                }
            },
        }
        i += 1;
    }
    assert(all.take(policies.len() as int) == all);
    Ok(read)
}

/// Once reading a front part of the policies has failed, reading any longer
/// front part fails with the same error.
pub proof fn lemma_failure_stays(policies: Seq<PolicyDocumentView>, failed: int, error: DecodeError)
    requires
        0 <= failed <= policies.len(),
        decoded_policies(policies.take(failed), false) == Err::<
            Seq<DecodedPolicyView>,
            DecodeError,
        >(error),
    ensures
        decoded_policies(policies, false) == Err::<Seq<DecodedPolicyView>, DecodeError>(error),
    decreases policies.len() - failed,
{
    if failed < policies.len() {
        assert(policies.take(failed + 1).drop_last() == policies.take(failed));
        lemma_failure_stays(policies, failed + 1, error);
    } else {
        assert(policies.take(failed) == policies);
    }
}

} // verus!
