//! Shared resource types for cluster management.
use vstd::prelude::*;

use crate::strmap::StrMap;

verus! {

/// Declaration of `serde_json::Value` for use in signatures and fields.
#[verifier::external_type_specification]
#[verifier::external_body]
pub struct ExJsonValue(serde_json::Value);

/// A namespace for organizing pipelines
#[derive(Debug, Clone)]
pub struct Namespace {
    /// API version
    pub api_version: String,
    /// Kind is always "Namespace"
    pub kind: String,
    /// Metadata
    pub metadata: NamespaceMetadata,
}

/// Namespace metadata
#[derive(Debug, Clone)]
pub struct NamespaceMetadata {
    /// Namespace name
    pub name: String,
}

impl Namespace {
    /// Create a new namespace
    pub fn new(name: &str) -> (ns: Self)
        ensures
            ns.api_version@ == "llmnet/v1"@,
            ns.kind@ == "Namespace"@,
            ns.metadata.name@ == name@,
    {
        Namespace {
            api_version: String::from_str("llmnet/v1"),
            kind: String::from_str("Namespace"),
            metadata: NamespaceMetadata { name: String::from_str(name) },
        }
    }
}

impl Default for Namespace {
    fn default() -> (ns: Self)
        ensures
            ns.api_version@ == "llmnet/v1"@,
            ns.kind@ == "Namespace"@,
            ns.metadata.name@ == "default"@,
    {
        Namespace::new("default")
    }
}

/// Response for listing resources
#[derive(Debug, Clone)]
pub struct ResourceList<T> {
    /// API version
    pub api_version: String,
    /// Kind (e.g., "PipelineList", "NodeList")
    pub kind: String,
    /// List of items
    pub items: Vec<T>,
}

impl<T> ResourceList<T> {
    /// Create a new resource list
    pub fn new(kind: &str, items: Vec<T>) -> (l: Self)
        ensures
            l.api_version@ == "llmnet/v1"@,
            l.kind@ == kind@,
            l.items@ == items@,
    {
        ResourceList { api_version: String::from_str("llmnet/v1"), kind: String::from_str(kind), items }
    }
}

/// Label selector for filtering resources
#[derive(Debug, Clone)]
pub struct LabelSelector {
    /// Match exact labels
    pub match_labels: StrMap<String>,
}

/// Every label the selector asks for is present in `labels` with the same value.
pub open spec fn selects(wanted: Map<Seq<char>, String>, labels: Map<Seq<char>, String>) -> bool {
    forall|k: Seq<char>|
        #[trigger] wanted.contains_key(k) ==> labels.contains_key(k) && labels[k]@ == wanted[k]@
}

impl Default for LabelSelector {
    fn default() -> (s: Self)
        ensures
            s.match_labels@ == Map::<Seq<char>, String>::empty(),
    {
        LabelSelector { match_labels: StrMap::new() }
    }
}

impl LabelSelector {
    /// Create a selector that matches a specific label
    pub fn matching(key: &str, value: &str) -> (s: Self)
        ensures
            s.match_labels@.dom() == set![key@],
            s.match_labels@[key@]@ == value@,
    {
        let mut labels: StrMap<String> = StrMap::new();
        let _ = labels.insert(String::from_str(key), String::from_str(value));
        proof {
            assert(labels@.dom() =~= set![key@]);
        }
        LabelSelector { match_labels: labels }
    }

    /// Check if labels match this selector
    pub fn matches(&self, labels: &StrMap<String>) -> (b: bool)
        ensures
            b == selects(self.match_labels@, labels@),
    {
        labels_match(&self.match_labels, labels)
    }
}

/// Every label in `wanted` is present in `labels` with the same value.
pub fn labels_match(wanted: &StrMap<String>, labels: &StrMap<String>) -> (b: bool)
    ensures
        b == selects(wanted@, labels@),
{
    let n = wanted.len();
    let ghost ks = wanted.key_seq();
    for i in 0..n
        invariant
            n == ks.len(),
            ks == wanted.key_seq(),
            wanted@.dom() == ks.to_set(),
            forall|j: int| 0 <= j < ks.len() ==> wanted@.contains_key(#[trigger] ks[j])
                && wanted@[ks[j]] == wanted.val_seq()[j],
            forall|j: int|
                0 <= j < i ==> labels@.contains_key(#[trigger] ks[j]) && labels@[ks[j]]@
                    == wanted@[ks[j]]@,
    {
        let k = wanted.key_at(i);
        let v = wanted.val_at(i);
        match labels.get(k.as_str()) {
            Some(w) => {
                if !crate::text::str_eq(w.as_str(), v.as_str()) {
                    return false;
                }
            },
            None => {
                return false;
            },
        }
    }
    proof {
        assert forall|k: Seq<char>| #[trigger] wanted@.contains_key(k) implies labels@.contains_key(k)
            && labels@[k]@ == wanted@[k]@ by {
            assert(ks.to_set().contains(k));
            let j = choose|j: int| 0 <= j < ks.len() && ks[j] == k;
        }
    }
    true
}

/// Status of an operation
#[derive(Debug, Clone)]
pub struct OperationStatus {
    /// Success or failure
    pub success: bool,
    /// Status message
    pub message: String,
    /// Details (if any)
    pub details: Option<serde_json::Value>,
}

impl OperationStatus {
    /// Create success status
    pub fn success(message: &str) -> (s: Self)
        ensures
            s.success,
            s.message@ == message@,
            s.details is None,
    {
        OperationStatus { success: true, message: String::from_str(message), details: None }
    }

    /// Create failure status
    pub fn failure(message: &str) -> (s: Self)
        ensures
            !s.success,
            s.message@ == message@,
            s.details is None,
    {
        OperationStatus { success: false, message: String::from_str(message), details: None }
    }

    /// Add details
    pub fn with_details(self, details: serde_json::Value) -> (s: Self)
        ensures
            s.success == self.success,
            s.message == self.message,
            s.details == Some(details),
    {
        OperationStatus { details: Some(details), ..self }
    }
}

/// Watch event for resource changes (for future streaming updates)
#[derive(Debug, Clone)]
pub struct WatchEvent<T> {
    /// Type of event: ADDED, MODIFIED, DELETED
    pub event_type: WatchEventType,
    /// The affected resource
    pub object: T,
}

/// Types of watch events
#[derive(Debug, Clone, Copy, PartialEq, Eq, Structural)]
pub enum WatchEventType {
    /// Resource was created
    Added,
    /// Resource was modified
    Modified,
    /// Resource was deleted
    Deleted,
}

} // verus!
