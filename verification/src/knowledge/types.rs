//! The values of the knowledge base and of searches in it.
use vstd::prelude::*;

use crate::numbers::Single;
use crate::text::{decimal, decimal_text};

verus! {

/// Why the knowledge base cannot be built or searched.
#[derive(Debug, PartialEq, Eq)]
pub enum KnowledgeError {
    /// A file could not be read or written.
    Io {
        action: String,
        path: String,
        source: String,
    },
    /// There is nothing at the given path.
    SourceMissing(String),
    /// There is no Markdown file under the given path.
    NoMarkdown(String),
    /// A question has no text.
    EmptyQuery,
    /// The HTTP client could not be built.
    EmbeddingClient(String),
    /// The request did not go through.
    EmbeddingRequest(String),
    /// The service answered with an error status.
    EmbeddingHttpStatus {
        status: u16,
        message: String,
    },
    /// The answer of the service is not as it should be.
    EmbeddingProtocol(String),
    /// A vector has the wrong length.
    EmbeddingDimension {
        expected: usize,
        actual: usize,
    },
    /// The index could not be encoded.
    Encode(String),
    /// The index could not be decoded.
    Decode {
        path: String,
        source: String,
    },
    /// There is no index at the given path.
    IndexMissing(String),
    /// The index was built for other settings.
    IncompatibleIndex(String),
}

/// The value of a [`KnowledgeError`].
#[verifier::ext_equal]
pub enum KnowledgeErrorModel {
    Io {
        action: Seq<char>,
        path: Seq<char>,
        source: Seq<char>,
    },
    SourceMissing(Seq<char>),
    NoMarkdown(Seq<char>),
    EmptyQuery,
    EmbeddingClient(Seq<char>),
    EmbeddingRequest(Seq<char>),
    EmbeddingHttpStatus {
        status: u16,
        message: Seq<char>,
    },
    EmbeddingProtocol(Seq<char>),
    EmbeddingDimension {
        expected: usize,
        actual: usize,
    },
    Encode(Seq<char>),
    Decode {
        path: Seq<char>,
        source: Seq<char>,
    },
    IndexMissing(Seq<char>),
    IncompatibleIndex(Seq<char>),
}

impl View for KnowledgeError {
    type V = KnowledgeErrorModel;

    open spec fn view(&self) -> KnowledgeErrorModel {
        match *self {
            KnowledgeError::Io { action, path, source } => KnowledgeErrorModel::Io {
                action: action@,
                path: path@,
                source: source@,
            },
            KnowledgeError::SourceMissing(inner) => KnowledgeErrorModel::SourceMissing(inner@),
            KnowledgeError::NoMarkdown(inner) => KnowledgeErrorModel::NoMarkdown(inner@),
            KnowledgeError::EmptyQuery => KnowledgeErrorModel::EmptyQuery,
            KnowledgeError::EmbeddingClient(inner) => KnowledgeErrorModel::EmbeddingClient(inner@),
            KnowledgeError::EmbeddingRequest(inner) => KnowledgeErrorModel::EmbeddingRequest(inner@),
            KnowledgeError::EmbeddingHttpStatus { status, message } => KnowledgeErrorModel::EmbeddingHttpStatus {
                status: status,
                message: message@,
            },
            KnowledgeError::EmbeddingProtocol(inner) => KnowledgeErrorModel::EmbeddingProtocol(inner@),
            KnowledgeError::EmbeddingDimension { expected, actual } => KnowledgeErrorModel::EmbeddingDimension {
                expected: expected,
                actual: actual,
            },
            KnowledgeError::Encode(inner) => KnowledgeErrorModel::Encode(inner@),
            KnowledgeError::Decode { path, source } => KnowledgeErrorModel::Decode {
                path: path@,
                source: source@,
            },
            KnowledgeError::IndexMissing(inner) => KnowledgeErrorModel::IndexMissing(inner@),
            KnowledgeError::IncompatibleIndex(inner) => KnowledgeErrorModel::IncompatibleIndex(inner@),
        }
    }
}

impl Clone for KnowledgeError {
    fn clone(&self) -> (r: Self)
        ensures
            r@ == self@,
    {
        match self {
            KnowledgeError::Io { action, path, source } => KnowledgeError::Io {
                action: action.clone(),
                path: path.clone(),
                source: source.clone(),
            },
            KnowledgeError::SourceMissing(inner) => KnowledgeError::SourceMissing(inner.clone()),
            KnowledgeError::NoMarkdown(inner) => KnowledgeError::NoMarkdown(inner.clone()),
            KnowledgeError::EmptyQuery => KnowledgeError::EmptyQuery,
            KnowledgeError::EmbeddingClient(inner) => KnowledgeError::EmbeddingClient(inner.clone()),
            KnowledgeError::EmbeddingRequest(inner) => KnowledgeError::EmbeddingRequest(inner.clone()),
            KnowledgeError::EmbeddingHttpStatus { status, message } => KnowledgeError::EmbeddingHttpStatus {
                status: *status,
                message: message.clone(),
            },
            KnowledgeError::EmbeddingProtocol(inner) => KnowledgeError::EmbeddingProtocol(inner.clone()),
            KnowledgeError::EmbeddingDimension { expected, actual } => KnowledgeError::EmbeddingDimension {
                expected: *expected,
                actual: *actual,
            },
            KnowledgeError::Encode(inner) => KnowledgeError::Encode(inner.clone()),
            KnowledgeError::Decode { path, source } => KnowledgeError::Decode {
                path: path.clone(),
                source: source.clone(),
            },
            KnowledgeError::IndexMissing(inner) => KnowledgeError::IndexMissing(inner.clone()),
            KnowledgeError::IncompatibleIndex(inner) => KnowledgeError::IncompatibleIndex(inner.clone()),
        }
    }
}

impl KnowledgeErrorModel {
    /// The failure in words.
    pub open spec fn words(self) -> Seq<char> {
        match self {
            KnowledgeErrorModel::Io { action, path, source } => action + " `"@ + path + "`: "@ + source,
            KnowledgeErrorModel::SourceMissing(p) => "knowledge source does not exist: "@ + p,
            KnowledgeErrorModel::NoMarkdown(p) => "no Markdown files found under knowledge source: "@ + p,
            KnowledgeErrorModel::EmptyQuery => "knowledge query must not be empty"@,
            KnowledgeErrorModel::EmbeddingClient(p) => "could not build OpenRouter embedding client: "@ + p,
            KnowledgeErrorModel::EmbeddingRequest(p) => "OpenRouter embedding request failed: "@ + p,
            KnowledgeErrorModel::EmbeddingHttpStatus { status, message } => "OpenRouter embeddings returned HTTP "@ + decimal(status as nat) + ": "@ + message,
            KnowledgeErrorModel::EmbeddingProtocol(p) => "could not parse OpenRouter embedding response: "@ + p,
            KnowledgeErrorModel::EmbeddingDimension { expected, actual } => "embedding dimension mismatch: expected "@ + decimal(expected as nat) + ", received "@ + decimal(actual as nat),
            KnowledgeErrorModel::Encode(p) => "could not encode knowledge index: "@ + p,
            KnowledgeErrorModel::Decode { path, source } => "could not decode knowledge index `"@ + path + "`: "@ + source,
            KnowledgeErrorModel::IndexMissing(p) => "knowledge index is missing at `"@ + p + "`; run `cargo run -- rag index knowledge/` first"@,
            KnowledgeErrorModel::IncompatibleIndex(p) => "knowledge index is incompatible: "@ + p + "; rebuild it with `rag index`"@,
        }
    }
}

impl KnowledgeError {
    /// The failure in words.
    pub fn message(&self) -> (r: String)
        ensures
            r@ == self@.words(),
    {
        match self {
            KnowledgeError::Io { action, path, source } => {
                let mut out = action.clone();
                out.append(" `");
                out.append(path.as_str());
                out.append("`: ");
                out.append(source.as_str());
                out
            },
            KnowledgeError::SourceMissing(p) => {
                let mut out = "knowledge source does not exist: ".to_owned();
                out.append(p.as_str());
                out
            },
            KnowledgeError::NoMarkdown(p) => {
                let mut out = "no Markdown files found under knowledge source: ".to_owned();
                out.append(p.as_str());
                out
            },
            KnowledgeError::EmptyQuery => {
                let mut out = "knowledge query must not be empty".to_owned();
                out
            },
            KnowledgeError::EmbeddingClient(p) => {
                let mut out = "could not build OpenRouter embedding client: ".to_owned();
                out.append(p.as_str());
                out
            },
            KnowledgeError::EmbeddingRequest(p) => {
                let mut out = "OpenRouter embedding request failed: ".to_owned();
                out.append(p.as_str());
                out
            },
            KnowledgeError::EmbeddingHttpStatus { status, message } => {
                let mut out = "OpenRouter embeddings returned HTTP ".to_owned();
                out.append(decimal_text(*status as u64).as_str());
                out.append(": ");
                out.append(message.as_str());
                out
            },
            KnowledgeError::EmbeddingProtocol(p) => {
                let mut out = "could not parse OpenRouter embedding response: ".to_owned();
                out.append(p.as_str());
                out
            },
            KnowledgeError::EmbeddingDimension { expected, actual } => {
                let mut out = "embedding dimension mismatch: expected ".to_owned();
                out.append(decimal_text(*expected as u64).as_str());
                out.append(", received ");
                out.append(decimal_text(*actual as u64).as_str());
                out
            },
            KnowledgeError::Encode(p) => {
                let mut out = "could not encode knowledge index: ".to_owned();
                out.append(p.as_str());
                out
            },
            KnowledgeError::Decode { path, source } => {
                let mut out = "could not decode knowledge index `".to_owned();
                out.append(path.as_str());
                out.append("`: ");
                out.append(source.as_str());
                out
            },
            KnowledgeError::IndexMissing(p) => {
                let mut out = "knowledge index is missing at `".to_owned();
                out.append(p.as_str());
                out.append("`; run `cargo run -- rag index knowledge/` first");
                out
            },
            KnowledgeError::IncompatibleIndex(p) => {
                let mut out = "knowledge index is incompatible: ".to_owned();
                out.append(p.as_str());
                out.append("; rebuild it with `rag index`");
                out
            },
        }
    }
}

/// Where the knowledge base is kept.
#[derive(Debug, PartialEq, Eq)]
pub struct KnowledgePaths {
    pub index_file: String,
}

/// The value of a [`KnowledgePaths`].
#[verifier::ext_equal]
pub struct KnowledgePathsModel {
    pub index_file: Seq<char>,
}

impl View for KnowledgePaths {
    type V = KnowledgePathsModel;

    open spec fn view(&self) -> KnowledgePathsModel {
        KnowledgePathsModel {
            index_file: self.index_file@,
        }
    }
}

impl Clone for KnowledgePaths {
    fn clone(&self) -> (r: Self)
        ensures
            r@ == self@,
    {
        KnowledgePaths {
            index_file: self.index_file.clone(),
        }
    }
}

/// The directory for caches: the one that is set, else the usual one below the
/// home directory, else one for temporary files.
pub open spec fn cache_home(
    xdg_cache_home: Option<Seq<char>>,
    home: Option<Seq<char>>,
    temporary: Seq<char>,
) -> Seq<char> {
    match xdg_cache_home {
        Some(path) => path,
        None => match home {
            Some(path) => joined_path(path, ".cache"@),
            None => joined_path(temporary, "mague-rc-cache"@),
        },
    }
}

/// A path below a directory. `name` is a relative path.
pub open spec fn joined_path(directory: Seq<char>, name: Seq<char>) -> Seq<char> {
    if directory.len() == 0 || directory.last() == '/' {
        directory + name
    } else {
        directory + "/"@ + name
    }
}

fn join_path(directory: &str, name: &str) -> (r: String)
    ensures
        r@ == joined_path(directory@, name@),
{
    let chars = crate::text::chars_of(directory);
    let n: usize = chars.len();
    let mut out = directory.to_owned();
    if n > 0 && chars[n - 1] != '/' {
        out.append("/");
    }
    out.append(name);
    out
}

/// The text of an optional string.
pub open spec fn optional_text(text: Option<String>) -> Option<Seq<char>> {
    match text {
        Some(inner) => Some(inner@),
        None => None,
    }
}

impl KnowledgePaths {
    /// Where the knowledge base is kept on a machine with these directories.
    pub fn discover(
        xdg_cache_home: Option<String>,
        home: Option<String>,
        temporary: &str,
    ) -> (r: Self)
        ensures
            r@.index_file == joined_path(
                cache_home(optional_text(xdg_cache_home), optional_text(home), temporary@),
                "mague-rc/knowledge/index-v3.json"@,
            ),
    {
        let root = match xdg_cache_home {
            Some(path) => path,
            None => match home {
                Some(path) => join_path(path.as_str(), ".cache"),
                None => join_path(temporary, "mague-rc-cache"),
            },
        };
        KnowledgePaths { index_file: join_path(root.as_str(), "mague-rc/knowledge/index-v3.json") }
    }
}

/// What building the index took.
#[derive(Debug, PartialEq, Eq)]
pub struct IndexReport {
    pub source_count: usize,
    pub section_count: usize,
    pub chunk_count: usize,
    pub dimension: usize,
    pub embedding_ms: u64,
    pub embedding_calls: u64,
    pub prompt_tokens: u64,
    pub total_tokens: u64,
    pub total_ms: u64,
    pub index_path: String,
    pub index_bytes: u64,
}

/// The value of a [`IndexReport`].
#[verifier::ext_equal]
pub struct IndexReportModel {
    pub source_count: usize,
    pub section_count: usize,
    pub chunk_count: usize,
    pub dimension: usize,
    pub embedding_ms: u64,
    pub embedding_calls: u64,
    pub prompt_tokens: u64,
    pub total_tokens: u64,
    pub total_ms: u64,
    pub index_path: Seq<char>,
    pub index_bytes: u64,
}

impl View for IndexReport {
    type V = IndexReportModel;

    open spec fn view(&self) -> IndexReportModel {
        IndexReportModel {
            source_count: self.source_count,
            section_count: self.section_count,
            chunk_count: self.chunk_count,
            dimension: self.dimension,
            embedding_ms: self.embedding_ms,
            embedding_calls: self.embedding_calls,
            prompt_tokens: self.prompt_tokens,
            total_tokens: self.total_tokens,
            total_ms: self.total_ms,
            index_path: self.index_path@,
            index_bytes: self.index_bytes,
        }
    }
}

impl Clone for IndexReport {
    fn clone(&self) -> (r: Self)
        ensures
            r@ == self@,
    {
        IndexReport {
            source_count: self.source_count,
            section_count: self.section_count,
            chunk_count: self.chunk_count,
            dimension: self.dimension,
            embedding_ms: self.embedding_ms,
            embedding_calls: self.embedding_calls,
            prompt_tokens: self.prompt_tokens,
            total_tokens: self.total_tokens,
            total_ms: self.total_ms,
            index_path: self.index_path.clone(),
            index_bytes: self.index_bytes,
        }
    }
}

/// A passage that was found.
#[derive(Debug, PartialEq, Eq)]
pub struct SearchHit {
    pub id: String,
    pub source: String,
    pub heading: String,
    pub text: String,
    pub dense_score: Single,
    pub lexical_score: Single,
    pub combined_score: Single,
}

/// The value of a [`SearchHit`].
#[verifier::ext_equal]
pub struct SearchHitModel {
    pub id: Seq<char>,
    pub source: Seq<char>,
    pub heading: Seq<char>,
    pub text: Seq<char>,
    pub dense_score: Single,
    pub lexical_score: Single,
    pub combined_score: Single,
}

impl View for SearchHit {
    type V = SearchHitModel;

    open spec fn view(&self) -> SearchHitModel {
        SearchHitModel {
            id: self.id@,
            source: self.source@,
            heading: self.heading@,
            text: self.text@,
            dense_score: self.dense_score,
            lexical_score: self.lexical_score,
            combined_score: self.combined_score,
        }
    }
}

impl Clone for SearchHit {
    fn clone(&self) -> (r: Self)
        ensures
            r@ == self@,
    {
        SearchHit {
            id: self.id.clone(),
            source: self.source.clone(),
            heading: self.heading.clone(),
            text: self.text.clone(),
            dense_score: self.dense_score,
            lexical_score: self.lexical_score,
            combined_score: self.combined_score,
        }
    }
}

/// A copy of each of the values, in order.
pub fn copy_hits(items: &Vec<SearchHit>) -> (r: Vec<SearchHit>)
    ensures
        r@.len() == items@.len(),
        forall|i: int| 0 <= i < items@.len() ==> #[trigger] r@[i]@ == items@[i]@,
{
    let mut out: Vec<SearchHit> = Vec::new();
    let mut i: usize = 0;
    while i < items.len()
        invariant
            i <= items@.len(),
            out@.len() == i,
            forall|j: int| 0 <= j < i ==> #[trigger] out@[j]@ == items@[j]@,
        decreases items@.len() - i,
    {
        out.push(items[i].clone());
        i += 1;
    }
    out
}

/// What was found for a question, and what finding it took.
#[derive(Debug, PartialEq, Eq)]
pub struct QueryReport {
    pub embedding_ms: u64,
    pub embedding_calls: u64,
    pub prompt_tokens: u64,
    pub total_tokens: u64,
    pub search_ms: u64,
    pub hits: Vec<SearchHit>,
    pub index_path: String,
}

/// The value of a [`QueryReport`].
#[verifier::ext_equal]
pub struct QueryReportModel {
    pub embedding_ms: u64,
    pub embedding_calls: u64,
    pub prompt_tokens: u64,
    pub total_tokens: u64,
    pub search_ms: u64,
    pub hits: Seq<SearchHitModel>,
    pub index_path: Seq<char>,
}

impl View for QueryReport {
    type V = QueryReportModel;

    open spec fn view(&self) -> QueryReportModel {
        QueryReportModel {
            embedding_ms: self.embedding_ms,
            embedding_calls: self.embedding_calls,
            prompt_tokens: self.prompt_tokens,
            total_tokens: self.total_tokens,
            search_ms: self.search_ms,
            hits: Seq::new(self.hits@.len(), |i: int| self.hits@[i]@),
            index_path: self.index_path@,
        }
    }
}

impl Clone for QueryReport {
    fn clone(&self) -> (r: Self)
        ensures
            r@ == self@,
    {
        QueryReport {
            embedding_ms: self.embedding_ms,
            embedding_calls: self.embedding_calls,
            prompt_tokens: self.prompt_tokens,
            total_tokens: self.total_tokens,
            search_ms: self.search_ms,
            hits: copy_hits(&self.hits),
            index_path: self.index_path.clone(),
        }
    }
}

/// A question to the knowledge base.
#[derive(Debug, PartialEq, Eq)]
pub struct KnowledgeSearchRequest {
    pub search_id: u64,
    pub turn_id: u64,
    pub query: String,
    pub top_k: usize,
}

/// The value of a [`KnowledgeSearchRequest`].
#[verifier::ext_equal]
pub struct KnowledgeSearchRequestModel {
    pub search_id: u64,
    pub turn_id: u64,
    pub query: Seq<char>,
    pub top_k: usize,
}

impl View for KnowledgeSearchRequest {
    type V = KnowledgeSearchRequestModel;

    open spec fn view(&self) -> KnowledgeSearchRequestModel {
        KnowledgeSearchRequestModel {
            search_id: self.search_id,
            turn_id: self.turn_id,
            query: self.query@,
            top_k: self.top_k,
        }
    }
}

impl Clone for KnowledgeSearchRequest {
    fn clone(&self) -> (r: Self)
        ensures
            r@ == self@,
    {
        KnowledgeSearchRequest {
            search_id: self.search_id,
            turn_id: self.turn_id,
            query: self.query.clone(),
            top_k: self.top_k,
        }
    }
}

/// The outcome of a search: what was found, or why nothing was.
#[derive(Debug)]
pub struct KnowledgeSearchResult {
    pub search_id: u64,
    pub turn_id: u64,
    pub query: String,
    pub report: Result<QueryReport, String>,
}

/// The value of a [`KnowledgeSearchResult`].
#[verifier::ext_equal]
pub struct KnowledgeSearchResultModel {
    pub search_id: u64,
    pub turn_id: u64,
    pub query: Seq<char>,
    pub report: Result<QueryReportModel, Seq<char>>,
}

impl View for KnowledgeSearchResult {
    type V = KnowledgeSearchResultModel;

    open spec fn view(&self) -> KnowledgeSearchResultModel {
        KnowledgeSearchResultModel {
            search_id: self.search_id,
            turn_id: self.turn_id,
            query: self.query@,
            report: match self.report {
                Ok(report) => Ok(report@),
                Err(error) => Err(error@),
            },
        }
    }
}

/// How many searches were made.
#[derive(Clone, Copy, Debug, PartialEq, Eq, Structural)]
pub struct KnowledgeWorkerStats {
    pub searches: u64,
    pub failed: u64,
    pub coalesced: u64,
}

impl Default for KnowledgeWorkerStats {
    fn default() -> (r: Self)
        ensures
            r == (KnowledgeWorkerStats { searches: 0, failed: 0, coalesced: 0 }),
    {
        KnowledgeWorkerStats { searches: 0, failed: 0, coalesced: 0 }
    }
}

impl KnowledgeWorkerStats {
    /// Whether `count` more of anything can be counted.
    pub open spec fn has_room(self, count: nat) -> bool {
        self.searches + count <= u64::MAX && self.failed + count <= u64::MAX && self.coalesced
            + count <= u64::MAX
    }
}

/// What vectors are made for.
#[derive(Clone, Copy, Debug, PartialEq, Eq, Structural)]
pub enum EmbeddingPurpose {
    Query,
    Document,
}

/// Names are put below a directory with one slash between them.
pub proof fn paths_have_one_slash(directory: Seq<char>, name: Seq<char>)
    ensures
        joined_path(Seq::empty(), name) == name,
        directory.len() > 0 && directory.last() != '/' ==> joined_path(directory, name)
            == directory.push('/') + name,
        joined_path(directory.push('/'), name) == directory.push('/') + name,
{
    reveal_strlit("/");
    assert(directory + "/"@ =~= directory.push('/'));
    assert(Seq::<char>::empty() + name =~= name);
    assert(directory.push('/').last() == '/');
}

/// The cache is where it is said to be, else under the home directory, else
/// among temporary files.
pub proof fn caches_have_a_place(path: Seq<char>, home: Option<Seq<char>>, temporary: Seq<char>)
    ensures
        cache_home(Some(path), home, temporary) == path,
        cache_home(None, Some(path), temporary) == joined_path(path, ".cache"@),
        cache_home(None, None, temporary) == joined_path(temporary, "mague-rc-cache"@),
{
}

} // verus!
