//! Per-document state: current text and latest diagnostics, keyed by URI.
//!
//! The store is backed by a concurrent map, so the adapter's request
//! handlers and its notification-drain task can share it; here it is
//! specified as a map from URI to record. Opening a document creates its
//! entry, a change replaces the content in full, closing removes the
//! entry, and a diagnostics notification replaces the diagnostics —
//! creating a fresh entry with empty content when none is left.

use vstd::prelude::*;

use dashmap::DashMap;

verus! {

#[verifier::external_type_specification]
#[verifier::external_body]
#[verifier::reject_recursive_types(K)]
#[verifier::reject_recursive_types(V)]
#[verifier::reject_recursive_types(S)]
pub struct ExDashMap<K, V, S>(DashMap<K, V, S>);

/// One issue report attached to a document, as plain values.
#[derive(Clone, Debug)]
pub struct DiagnosticRecord {
    /// The human-readable description.
    pub message: String,
    /// The severity class, 1 (error) to 4 (hint).
    pub severity: u32,
    /// Zero-based line of the start position.
    pub start_line: u32,
    /// Zero-based character of the start position.
    pub start_character: u32,
    /// Zero-based line of the end position.
    pub end_line: u32,
    /// Zero-based character of the end position.
    pub end_character: u32,
}

/// The tracked state of one document.
#[derive(Clone, Debug)]
pub struct DocumentRecord {
    /// The current full text.
    pub content: String,
    /// The diagnostics most recently received for the document.
    pub diagnostics: Vec<DiagnosticRecord>,
}

/// What the document map holds, keyed by URI.
pub uninterp spec fn doc_map_of(m: DashMap<String, DocumentRecord>) -> Map<
    Seq<char>,
    DocumentRecord,
>;

/// Relies on `dashmap::DashMap::insert`: maps the key to the value,
/// replacing any previous value.
#[verifier::external_body]
fn docs_insert(m: &mut DashMap<String, DocumentRecord>, k: &str, v: DocumentRecord)
    ensures
        doc_map_of(*final(m)) == doc_map_of(*old(m)).insert(k@, v),
{
    m.insert(k.to_string(), v);
}

/// Relies on `dashmap::DashMap::remove`: removes the key's entry, if any.
#[verifier::external_body]
fn docs_remove(m: &mut DashMap<String, DocumentRecord>, k: &str)
    ensures
        doc_map_of(*final(m)) == doc_map_of(*old(m)).remove(k@),
{
    m.remove(k);
}

/// Relies on `dashmap::DashMap::contains_key`.
#[verifier::external_body]
fn docs_contains(m: &DashMap<String, DocumentRecord>, k: &str) -> (r: bool)
    ensures
        r == doc_map_of(*m).contains_key(k@),
{
    m.contains_key(k)
}

/// Relies on `dashmap::DashMap::get`: the value under the key, cloned out
/// of the map's guard.
#[verifier::external_body]
fn docs_get(m: &DashMap<String, DocumentRecord>, k: &str) -> (r: Option<DocumentRecord>)
    ensures
        match r {
            Some(v) => doc_map_of(*m).contains_key(k@) && v == doc_map_of(*m)[k@],
            None => !doc_map_of(*m).contains_key(k@),
        },
{
    m.get(k).map(|entry| entry.value().clone())
}

/// Whether a document map holds nothing.
pub open spec fn no_documents(m: Map<Seq<char>, DocumentRecord>) -> bool {
    m == Map::<Seq<char>, DocumentRecord>::empty()
}

/// The per-adapter store of open documents and their diagnostics.
pub struct DocumentStore {
    map: DashMap<String, DocumentRecord>,
}

impl DocumentStore {
    /// The documents tracked, keyed by URI.
    pub closed spec fn docs(self) -> Map<Seq<char>, DocumentRecord> {
        doc_map_of(self.map)
    }

    /// Creates an empty store. Relies on `dashmap::DashMap::new`: a new
    /// map holds nothing.
    #[verifier::external_body]
    pub fn new() -> (r: DocumentStore)
        ensures
            no_documents(r.docs()),
    {
        DocumentStore { map: DashMap::new() }
    }

    /// Whether a document is tracked under this URI.
    pub fn contains(&self, uri: &str) -> (r: bool)
        ensures
            r == self.docs().contains_key(uri@),
    {
        docs_contains(&self.map, uri)
    }

    /// The current text of the document, if it is tracked.
    pub fn get_content(&self, uri: &str) -> (r: Option<String>)
        ensures
            match r {
                Some(c) => self.docs().contains_key(uri@) && c == self.docs()[uri@].content,
                None => !self.docs().contains_key(uri@),
            },
    {
        match docs_get(&self.map, uri) {
            Some(rec) => Some(rec.content),
            None => None,
        }
    }

    /// The diagnostics last received for the document, if it is tracked.
    pub fn get_diagnostics(&self, uri: &str) -> (r: Option<Vec<DiagnosticRecord>>)
        ensures
            match r {
                Some(d) => self.docs().contains_key(uri@) && d == self.docs()[uri@].diagnostics,
                None => !self.docs().contains_key(uri@),
            },
    {
        match docs_get(&self.map, uri) {
            Some(rec) => Some(rec.diagnostics),
            None => None,
        }
    }

    /// Records a newly opened document with its full text and no
    /// diagnostics.
    pub fn did_open(&mut self, uri: &str, text: &str)
        ensures
            final(self).docs() == old(self).docs().insert(uri@, final(self).docs()[uri@]),
            final(self).docs()[uri@].content@ == text@,
            final(self).docs()[uri@].diagnostics@.len() == 0,
    {
        let rec = DocumentRecord { content: text.to_owned(), diagnostics: Vec::new() };
        docs_insert(&mut self.map, uri, rec);
    }

    /// Replaces the document's content in full; a document that is not
    /// tracked is created, with no diagnostics.
    pub fn did_change(&mut self, uri: &str, text: &str)
        ensures
            final(self).docs() == old(self).docs().insert(uri@, final(self).docs()[uri@]),
            final(self).docs()[uri@].content@ == text@,
            old(self).docs().contains_key(uri@) ==> final(self).docs()[uri@].diagnostics == old(self).docs()[uri@].diagnostics,
            !old(self).docs().contains_key(uri@) ==> final(self).docs()[uri@].diagnostics@.len() == 0,
    {
        let rec = match docs_get(&self.map, uri) {
            Some(prev) => DocumentRecord { content: text.to_owned(), diagnostics: prev.diagnostics },
            None => DocumentRecord { content: text.to_owned(), diagnostics: Vec::new() },
        };
        docs_insert(&mut self.map, uri, rec);
    }

    /// Forgets the document.
    pub fn did_close(&mut self, uri: &str)
        ensures
            final(self).docs() == old(self).docs().remove(uri@),
            !final(self).docs().contains_key(uri@),
    {
        docs_remove(&mut self.map, uri);
    }

    /// Replaces the document's diagnostics; a document that is no longer
    /// tracked gets a fresh entry with empty content, never stale data.
    pub fn publish_diagnostics(&mut self, uri: &str, diagnostics: Vec<DiagnosticRecord>)
        ensures
            final(self).docs() == old(self).docs().insert(uri@, final(self).docs()[uri@]),
            final(self).docs()[uri@].diagnostics == diagnostics,
            old(self).docs().contains_key(uri@) ==> final(self).docs()[uri@].content == old(self).docs()[uri@].content,
            !old(self).docs().contains_key(uri@) ==> final(self).docs()[uri@].content@.len() == 0,
    {
        let rec = match docs_get(&self.map, uri) {
            Some(prev) => DocumentRecord { content: prev.content, diagnostics },
            None => DocumentRecord { content: String::new(), diagnostics },
        };
        docs_insert(&mut self.map, uri, rec);
    }
}

/// Opening a document and then replacing its text leaves the changed
/// text, not the opened text, under the URI.
pub proof fn lemma_change_overrides_open(
    docs: Map<Seq<char>, DocumentRecord>,
    uri: Seq<char>,
    opened: DocumentRecord,
    changed: DocumentRecord,
)
    ensures
        docs.insert(uri, opened).insert(uri, changed).contains_key(uri),
        docs.insert(uri, opened).insert(uri, changed)[uri] == changed,
        forall|u: Seq<char>|
            u != uri ==> (docs.insert(uri, opened).insert(uri, changed).contains_key(u)
                <==> docs.contains_key(u)),
{
}

/// Closing a document removes its entry outright: nothing is left under
/// the URI, and every other entry is untouched. Diagnostics arriving
/// afterwards therefore start from a fresh entry.
pub proof fn lemma_close_forgets_document(docs: Map<Seq<char>, DocumentRecord>, uri: Seq<char>)
    ensures
        !docs.remove(uri).contains_key(uri),
        forall|u: Seq<char>|
            u != uri ==> (docs.remove(uri).contains_key(u) <==> docs.contains_key(u)),
        forall|u: Seq<char>|
            u != uri && docs.contains_key(u) ==> docs.remove(uri)[u] == docs[u],
{
}

} // verus!
