//! The index of the knowledge base: how it is built, whether it fits the
//! settings, and what a search in it finds.
use vstd::prelude::*;
use vstd::utf8::{decode_utf8, valid_utf8};

use crate::config::assistant::{EmbeddingConfig, EmbeddingConfigModel};
use crate::knowledge::chunking::{chunk_text, chunks};
use crate::knowledge::embedding::EmbeddingOutput;
use crate::knowledge::markdown::{
    markdown_pieces, parse_markdown, section_models, sections_of_pieces, MarkdownSection,
    MarkdownSectionModel,
};
use crate::knowledge::types::{
    IndexReport, IndexReportModel, KnowledgeError, KnowledgeErrorModel, SearchHit, SearchHitModel,
};
use crate::numbers::Single;
use crate::ranking::{positions, rank, ranked, ranked_is_a_stable_order};
use crate::text::{
    ascii_lowered, decimal, decimal_text, hex16_text, notation, notations_are_read_back,
    padded_decimal_text, same_text, to_ascii_lower, trim, trimmed, views, zero_padded,
};

verus! {

/// The version of the form in which an index is kept.
pub const SCHEMA_VERSION: u32 = 3;

/// How many chunks are turned into vectors at once.
pub const EMBEDDING_BATCH_SIZE: usize = 32;

/// What a model for embeddings is told to do with a question.
pub const QUERY_INSTRUCTION: &'static str = "Given a partial or complete Russian spoken technical interview question about Java backend engineering, retrieve the most relevant passages from a personal knowledge base. The knowledge base may contain Russian text, English technical terms, code identifiers, and employment experience.";

/// A document that is in the index.
#[derive(Debug, PartialEq, Eq)]
pub struct SourceMetadata {
    pub path: String,
    pub fingerprint: String,
}

/// The value of a [`SourceMetadata`].
#[verifier::ext_equal]
pub struct SourceMetadataModel {
    pub path: Seq<char>,
    pub fingerprint: Seq<char>,
}

impl View for SourceMetadata {
    type V = SourceMetadataModel;

    open spec fn view(&self) -> SourceMetadataModel {
        SourceMetadataModel {
            path: self.path@,
            fingerprint: self.fingerprint@,
        }
    }
}

/// A passage that has no vector yet.
#[derive(Debug, PartialEq, Eq)]
pub struct PendingChunk {
    pub id: String,
    pub source: String,
    pub heading: String,
    pub text: String,
}

/// The value of a [`PendingChunk`].
#[verifier::ext_equal]
pub struct PendingChunkModel {
    pub id: Seq<char>,
    pub source: Seq<char>,
    pub heading: Seq<char>,
    pub text: Seq<char>,
}

impl View for PendingChunk {
    type V = PendingChunkModel;

    open spec fn view(&self) -> PendingChunkModel {
        PendingChunkModel {
            id: self.id@,
            source: self.source@,
            heading: self.heading@,
            text: self.text@,
        }
    }
}

/// A passage with its vector.
#[derive(Debug, PartialEq, Eq)]
pub struct StoredChunk {
    pub id: String,
    pub source: String,
    pub heading: String,
    pub text: String,
    pub embedding: Vec<Single>,
}

/// The value of a [`StoredChunk`].
#[verifier::ext_equal]
pub struct StoredChunkModel {
    pub id: Seq<char>,
    pub source: Seq<char>,
    pub heading: Seq<char>,
    pub text: Seq<char>,
    pub embedding: Seq<Single>,
}

impl View for StoredChunk {
    type V = StoredChunkModel;

    open spec fn view(&self) -> StoredChunkModel {
        StoredChunkModel {
            id: self.id@,
            source: self.source@,
            heading: self.heading@,
            text: self.text@,
            embedding: self.embedding@,
        }
    }
}

/// The passages that can be found.
#[derive(Debug, PartialEq, Eq)]
pub struct KnowledgeIndex {
    pub schema_version: u32,
    pub model: String,
    pub dimension: usize,
    pub document_input_type: String,
    pub sources: Vec<SourceMetadata>,
    pub chunks: Vec<StoredChunk>,
}

/// The value of a [`KnowledgeIndex`].
#[verifier::ext_equal]
pub struct KnowledgeIndexModel {
    pub schema_version: u32,
    pub model: Seq<char>,
    pub dimension: usize,
    pub document_input_type: Seq<char>,
    pub sources: Seq<SourceMetadataModel>,
    pub chunks: Seq<StoredChunkModel>,
}

impl View for KnowledgeIndex {
    type V = KnowledgeIndexModel;

    open spec fn view(&self) -> KnowledgeIndexModel {
        KnowledgeIndexModel {
            schema_version: self.schema_version,
            model: self.model@,
            dimension: self.dimension,
            document_input_type: self.document_input_type@,
            sources: Seq::new(self.sources@.len(), |i: int| self.sources@[i]@),
            chunks: Seq::new(self.chunks@.len(), |i: int| self.chunks@[i]@),
        }
    }
}

/// The text of a passage as it is turned into a vector.
pub open spec fn document_text(heading: Seq<char>, text: Seq<char>) -> Seq<char> {
    if heading.len() == 0 {
        text
    } else {
        heading + "\n"@ + text
    }
}

/// The text of a passage as it is turned into a vector.
pub fn document_input(heading: &str, text: &str) -> (r: String)
    ensures
        r@ == document_text(heading@, text@),
{
    if heading.is_empty() {
        text.to_owned()
    } else {
        let mut out = heading.to_owned();
        out.append("\n");
        out.append(text);
        out
    }
}

/// A question as it is turned into a vector: with an instruction.
pub fn query_input(query: &str) -> (r: String)
    ensures
        r@ == "Instruct: "@ + QUERY_INSTRUCTION@ + "\nQuery: "@ + query@,
{
    let mut out = "Instruct: ".to_owned();
    out.append(QUERY_INSTRUCTION);
    out.append("\nQuery: ");
    out.append(query);
    out
}

/// One step of the fingerprint of bytes.
pub open spec fn fingerprint_step(hash: u64, byte: u8) -> u64 {
    (((hash ^ (byte as u64)) as nat * 0x100000001b3) % 0x1_0000_0000_0000_0000) as u64
}

/// The fingerprint of bytes (FNV-1a).
pub open spec fn fingerprint_of(bytes: Seq<u8>) -> u64
    decreases bytes.len(),
{
    if bytes.len() == 0 {
        0xcbf29ce484222325
    } else {
        fingerprint_step(fingerprint_of(bytes.drop_last()), bytes.last())
    }
}

/// The fingerprint of the bytes.
pub fn fingerprint(bytes: &Vec<u8>) -> (r: u64)
    ensures
        r == fingerprint_of(bytes@),
{
    let mut hash: u64 = 0xcbf29ce484222325;
    let mut i: usize = 0;
    assert(bytes@.take(0) =~= Seq::empty());
    while i < bytes.len()
        invariant
            i <= bytes@.len(),
            hash == fingerprint_of(bytes@.take(i as int)),
        decreases bytes@.len() - i,
    {
        assert(bytes@.take(i + 1).drop_last() =~= bytes@.take(i as int));
        assert(bytes@.take(i + 1).last() == bytes@[i as int]);
        hash = (hash ^ (bytes[i] as u64)).wrapping_mul(0x100000001b3);
        i += 1;
    }
    assert(bytes@.take(i as int) =~= bytes@);
    hash
}

/// The name of a chunk: the fingerprint of its document, and the numbers of
/// its section and of the chunk in it.
pub open spec fn chunk_name(fingerprint: u64, section: nat, chunk: nat) -> Seq<char> {
    zero_padded(notation(fingerprint as nat, 16), 16) + "-"@ + zero_padded(decimal(section), 4)
        + "-"@ + zero_padded(decimal(chunk), 3)
}

fn chunk_id(fingerprint: u64, section: usize, chunk: usize) -> (r: String)
    ensures
        r@ == chunk_name(fingerprint, section as nat, chunk as nat),
{
    let mut out = hex16_text(fingerprint);
    out.append("-");
    out.append(padded_decimal_text(section as u64, 4).as_str());
    out.append("-");
    out.append(padded_decimal_text(chunk as u64, 3).as_str());
    out
}

/// The passages of one section.
pub open spec fn section_chunks(
    path: Seq<char>,
    fingerprint: u64,
    number: nat,
    section: MarkdownSectionModel,
) -> Seq<PendingChunkModel> {
    let texts = chunks(section.text);
    Seq::new(
        texts.len(),
        |i: int|
            PendingChunkModel {
                id: chunk_name(fingerprint, number, i as nat),
                source: path,
                heading: section.heading,
                text: texts[i],
            },
    )
}

/// The passages of sections, numbered in order.
pub open spec fn document_chunks(
    path: Seq<char>,
    fingerprint: u64,
    sections: Seq<MarkdownSectionModel>,
) -> Seq<PendingChunkModel>
    decreases sections.len(),
{
    if sections.len() == 0 {
        Seq::empty()
    } else {
        document_chunks(path, fingerprint, sections.drop_last()) + section_chunks(
            path,
            fingerprint,
            (sections.len() - 1) as nat,
            sections.last(),
        )
    }
}

/// The text that bytes are, with what is not text replaced.
pub uninterp spec fn lossy_text(bytes: Seq<u8>) -> Seq<char>;

/// `String::from_utf8_lossy` of the standard library. The text is a function
/// of the bytes alone, and bytes that are UTF-8 are decoded as such; what it is
/// for others is not stated.
#[verifier::external_body]
fn decode_lossy(bytes: &Vec<u8>) -> (r: String)
    ensures
        r@ == lossy_text(bytes@),
        valid_utf8(bytes@) ==> r@ == decode_utf8(bytes@),
{
    String::from_utf8_lossy(bytes).into_owned()
}

/// An index that is being built.
#[derive(Debug)]
pub struct IndexBuild {
    sources: Vec<SourceMetadata>,
    pending: Vec<PendingChunk>,
    section_count: usize,
    embeddings: Vec<Vec<Single>>,
    embedding_calls: u64,
    prompt_tokens: u64,
    total_tokens: u64,
}

/// The value of an [`IndexBuild`].
#[verifier::ext_equal]
pub struct BuildModel {
    pub sources: Seq<SourceMetadataModel>,
    pub pending: Seq<PendingChunkModel>,
    pub section_count: usize,
    pub embeddings: Seq<Seq<Single>>,
    pub embedding_calls: u64,
    pub prompt_tokens: u64,
    pub total_tokens: u64,
}

/// The values of the documents.
pub open spec fn source_models(sources: Seq<SourceMetadata>) -> Seq<SourceMetadataModel> {
    Seq::new(sources.len(), |i: int| sources[i]@)
}

/// The values of the passages.
pub open spec fn pending_models(pending: Seq<PendingChunk>) -> Seq<PendingChunkModel> {
    Seq::new(pending.len(), |i: int| pending[i]@)
}

/// The values of the stored passages.
pub open spec fn stored_models(stored: Seq<StoredChunk>) -> Seq<StoredChunkModel> {
    Seq::new(stored.len(), |i: int| stored[i]@)
}

/// The vectors behind lists of numbers.
pub open spec fn vector_views(vectors: Seq<Vec<Single>>) -> Seq<Seq<Single>> {
    Seq::new(vectors.len(), |i: int| vectors[i]@)
}

impl View for IndexBuild {
    type V = BuildModel;

    closed spec fn view(&self) -> BuildModel {
        BuildModel {
            sources: source_models(self.sources@),
            pending: pending_models(self.pending@),
            section_count: self.section_count,
            embeddings: vector_views(self.embeddings@),
            embedding_calls: self.embedding_calls,
            prompt_tokens: self.prompt_tokens,
            total_tokens: self.total_tokens,
        }
    }
}

/// The sum of two numbers, or the greatest there is.
pub open spec fn sum_or_max(a: nat, b: nat) -> usize {
    if a + b > usize::MAX {
        usize::MAX
    } else {
        (a + b) as usize
    }
}

impl BuildModel {
    /// The build with one more document.
    pub open spec fn with_document(
        self,
        path: Seq<char>,
        fingerprint: u64,
        sections: Seq<MarkdownSectionModel>,
    ) -> BuildModel {
        BuildModel {
            sources: self.sources.push(
                SourceMetadataModel {
                    path,
                    fingerprint: zero_padded(notation(fingerprint as nat, 16), 16),
                },
            ),
            pending: self.pending + document_chunks(path, fingerprint, sections),
            section_count: sum_or_max(self.section_count as nat, sections.len()),
            ..self
        }
    }

    /// The number of batches.
    pub open spec fn batches(self) -> nat {
        ((self.pending.len() + EMBEDDING_BATCH_SIZE - 1) / EMBEDDING_BATCH_SIZE as int) as nat
    }

    /// Where a batch ends.
    pub open spec fn batch_end(self, batch: nat) -> nat {
        if (batch + 1) * EMBEDDING_BATCH_SIZE <= self.pending.len() {
            (batch + 1) * EMBEDDING_BATCH_SIZE as nat
        } else {
            self.pending.len()
        }
    }

    /// The texts of a batch as they are turned into vectors.
    pub open spec fn batch_texts(self, batch: nat) -> Seq<Seq<char>> {
        let start = batch * EMBEDDING_BATCH_SIZE as nat;
        Seq::new(
            (self.batch_end(batch) - start) as nat,
            |i: int|
                document_text(self.pending[start + i].heading, self.pending[start + i].text),
        )
    }

    /// The stored passages.
    pub open spec fn stored(self) -> Seq<StoredChunkModel> {
        Seq::new(
            self.pending.len(),
            |i: int|
                StoredChunkModel {
                    id: self.pending[i].id,
                    source: self.pending[i].source,
                    heading: self.pending[i].heading,
                    text: self.pending[i].text,
                    embedding: self.embeddings[i],
                },
        )
    }

    /// The index, where there is a vector for each passage.
    pub open spec fn index(self, model: Seq<char>, document_input_type: Seq<char>) -> Result<
        KnowledgeIndexModel,
        KnowledgeErrorModel,
    > {
        if self.embeddings.len() != self.pending.len() {
            Err(
                KnowledgeErrorModel::EmbeddingProtocol(
                    "model returned "@ + decimal(self.embeddings.len()) + " vectors for "@ + decimal(
                        self.pending.len(),
                    ) + " chunks"@,
                ),
            )
        } else {
            Ok(
                KnowledgeIndexModel {
                    schema_version: SCHEMA_VERSION,
                    model,
                    dimension: if self.embeddings.len() == 0 {
                        0
                    } else {
                        self.embeddings[0].len() as usize
                    },
                    document_input_type,
                    sources: self.sources,
                    chunks: self.stored(),
                },
            )
        }
    }
}

impl IndexBuild {
    /// An index without documents.
    pub fn new() -> (r: Self)
        ensures
            r@ == (BuildModel {
                sources: Seq::empty(),
                pending: Seq::empty(),
                section_count: 0,
                embeddings: Seq::empty(),
                embedding_calls: 0,
                prompt_tokens: 0,
                total_tokens: 0,
            }),
    {
        let r = IndexBuild {
            sources: Vec::new(),
            pending: Vec::new(),
            section_count: 0,
            embeddings: Vec::new(),
            embedding_calls: 0,
            prompt_tokens: 0,
            total_tokens: 0,
        };
        assert(source_models(r.sources@) =~= Seq::empty());
        assert(pending_models(r.pending@) =~= Seq::empty());
        assert(vector_views(r.embeddings@) =~= Seq::empty());
        r
    }

    fn add_section(
        &mut self,
        path: &str,
        fingerprint: u64,
        number: usize,
        section: &MarkdownSection,
    )
        ensures
            final(self)@ == (BuildModel {
                pending: old(self)@.pending + section_chunks(
                    path@,
                    fingerprint,
                    number as nat,
                    section@,
                ),
                ..old(self)@
            }),
    {
        let ghost start = self@;
        let ghost more = section_chunks(path@, fingerprint, number as nat, section@);
        let texts = chunk_text(section.text.as_str());
        let mut i: usize = 0;
        assert(start.pending + more.take(0) =~= start.pending);
        while i < texts.len()
            invariant
                more == section_chunks(path@, fingerprint, number as nat, section@),
                views(texts@) == chunks(section@.text),
                i <= texts@.len(),
                self@ == (BuildModel { pending: start.pending + more.take(i as int), ..start }),
            decreases texts@.len() - i,
        {
            let ghost before = pending_models(self.pending@);
            assert(texts@[i as int]@ == views(texts@)[i as int]);
            let chunk = PendingChunk {
                id: chunk_id(fingerprint, number, i),
                source: path.to_owned(),
                heading: section.heading.clone(),
                text: texts[i].clone(),
            };
            let ghost model = chunk@;
            assert(model =~= more[i as int]);
            self.pending.push(chunk);
            assert(pending_models(self.pending@) =~= before.push(model));
            assert(start.pending + more.take(i + 1) =~= (start.pending + more.take(i as int)).push(
                more[i as int],
            ));
            i += 1;
        }
        assert(more.take(i as int) =~= more);
    }

    /// Adds a document with its sections.
    pub fn add_sections(
        &mut self,
        path: &str,
        fingerprint: u64,
        sections: &Vec<MarkdownSection>,
    )
        ensures
            final(self)@ == old(self)@.with_document(
                path@,
                fingerprint,
                section_models(sections@),
            ),
    {
        let ghost start = self@;
        let ghost all = section_models(sections@);
        let n: usize = sections.len();
        let room: usize = usize::MAX - self.section_count;
        self.section_count = if n > room {
            usize::MAX
        } else {
            self.section_count + n
        };
        let source = SourceMetadata { path: path.to_owned(), fingerprint: hex16_text(fingerprint) };
        let ghost model = source@;
        self.sources.push(source);
        assert(source_models(self.sources@) =~= start.sources.push(model));
        let ghost counted = self@;
        let mut i: usize = 0;
        assert(all.take(0) =~= Seq::empty());
        assert(start.pending + document_chunks(path@, fingerprint, all.take(0)) =~= start.pending);
        while i < sections.len()
            invariant
                all == section_models(sections@),
                i <= sections@.len(),
                self@ == (BuildModel {
                    pending: start.pending + document_chunks(
                        path@,
                        fingerprint,
                        all.take(i as int),
                    ),
                    ..counted
                }),
            decreases sections@.len() - i,
        {
            assert(all.take(i + 1).drop_last() =~= all.take(i as int));
            assert(all.take(i + 1).last() == all[i as int]);
            self.add_section(path, fingerprint, i, &sections[i]);
            proof {
                let a = start.pending;
                let b = document_chunks(path@, fingerprint, all.take(i as int));
                let c = section_chunks(path@, fingerprint, i as nat, all[i as int]);
                assert(a + b + c =~= a + (b + c));
            }
            i += 1;
        }
        assert(all.take(i as int) =~= all);
    }

    /// Adds a Markdown document, given as the bytes of its file.
    pub fn add_source(&mut self, path: &str, bytes: &Vec<u8>)
        ensures
            final(self)@ == old(self)@.with_document(
                path@,
                fingerprint_of(bytes@),
                sections_of_pieces(markdown_pieces(lossy_text(bytes@))),
            ),
            valid_utf8(bytes@) ==> lossy_text(bytes@) == decode_utf8(bytes@),
    {
        let markdown = decode_lossy(bytes);
        let sections = parse_markdown(markdown.as_str());
        self.add_sections(path, fingerprint(bytes), &sections);
    }

    /// The number of batches in which passages are turned into vectors.
    pub fn batch_count(&self) -> (r: usize)
        ensures
            r == self@.batches(),
    {
        let n: usize = self.pending.len();
        if n == 0 {
            0
        } else {
            (n - 1) / EMBEDDING_BATCH_SIZE + 1
        }
    }

    /// The texts of a batch as they are turned into vectors.
    pub fn batch_inputs(&self, batch: usize) -> (r: Vec<String>)
        requires
            batch < self@.batches(),
        ensures
            views(r@) == self@.batch_texts(batch as nat),
    {
        let ghost texts = self@.batch_texts(batch as nat);
        let n: usize = self.pending.len();
        assert(batch * EMBEDDING_BATCH_SIZE < n) by (nonlinear_arith)
            requires
                batch < (n + EMBEDDING_BATCH_SIZE - 1) / EMBEDDING_BATCH_SIZE as int,
                EMBEDDING_BATCH_SIZE == 32,
        ;
        let start: usize = batch * EMBEDDING_BATCH_SIZE;
        let end: usize = if n - start >= EMBEDDING_BATCH_SIZE {
            start + EMBEDDING_BATCH_SIZE
        } else {
            n
        };
        assert((batch + 1) * EMBEDDING_BATCH_SIZE == start + EMBEDDING_BATCH_SIZE)
            by (nonlinear_arith)
            requires
                start == batch * EMBEDDING_BATCH_SIZE,
        ;
        assert(end == self@.batch_end(batch as nat));
        let mut out: Vec<String> = Vec::new();
        let mut i: usize = start;
        assert(views(out@) =~= texts.take(0));
        while i < end
            invariant
                texts == self@.batch_texts(batch as nat),
                start == batch * EMBEDDING_BATCH_SIZE,
                end == self@.batch_end(batch as nat),
                start <= i <= end <= self.pending@.len(),
                views(out@) == texts.take(i - start),
            decreases end - i,
        {
            let chunk = &self.pending[i];
            assert(self@.pending[i as int] == chunk@);
            let input = document_input(chunk.heading.as_str(), chunk.text.as_str());
            let ghost before = views(out@);
            let ghost model = input@;
            out.push(input);
            assert(views(out@) =~= before.push(model));
            assert(texts.take(i - start + 1) =~= texts.take(i - start).push(texts[i - start]));
            i += 1;
        }
        assert(texts.take(end - start) =~= texts);
        out
    }

    /// Whether the sums have room for what a batch took.
    pub fn can_accept(&self, output: &EmbeddingOutput) -> (r: bool)
        ensures
            r == self@.has_room_for(*output),
    {
        self.embedding_calls < u64::MAX && self.prompt_tokens <= u64::MAX - output.prompt_tokens
            && self.total_tokens <= u64::MAX - output.total_tokens
    }

    /// Takes in the vectors of a batch.
    pub fn accept(&mut self, output: EmbeddingOutput)
        requires
            old(self)@.has_room_for(output),
        ensures
            final(self)@ == (BuildModel {
                embeddings: old(self)@.embeddings + vector_views(output.embeddings@),
                embedding_calls: (old(self)@.embedding_calls + 1) as u64,
                prompt_tokens: (old(self)@.prompt_tokens + output.prompt_tokens) as u64,
                total_tokens: (old(self)@.total_tokens + output.total_tokens) as u64,
                ..old(self)@
            }),
    {
        let ghost before = vector_views(self.embeddings@);
        let ghost more = vector_views(output.embeddings@);
        self.embedding_calls += 1;
        self.prompt_tokens += output.prompt_tokens;
        self.total_tokens += output.total_tokens;
        let mut vectors = output.embeddings;
        self.embeddings.append(&mut vectors);
        assert(vector_views(self.embeddings@) =~= before + more);
    }

    /// The index, where there is a vector for each passage.
    pub fn finish(self, model: &str, document_input_type: &str) -> (r: Result<
        KnowledgeIndex,
        KnowledgeError,
    >)
        ensures
            match r {
                Ok(index) => self@.index(model@, document_input_type@) == Ok::<
                    KnowledgeIndexModel,
                    KnowledgeErrorModel,
                >(index@),
                Err(error) => self@.index(model@, document_input_type@) == Err::<
                    KnowledgeIndexModel,
                    KnowledgeErrorModel,
                >(error@),
            },
    {
        let ghost built = self@;
        if self.embeddings.len() != self.pending.len() {
            let mut reason = "model returned ".to_owned();
            reason.append(decimal_text(self.embeddings.len() as u64).as_str());
            reason.append(" vectors for ");
            reason.append(decimal_text(self.pending.len() as u64).as_str());
            reason.append(" chunks");
            return Err(KnowledgeError::EmbeddingProtocol(reason));
        }
        let dimension: usize = if self.embeddings.len() == 0 {
            0
        } else {
            self.embeddings[0].len()
        };
        let mut stored: Vec<StoredChunk> = Vec::new();
        let mut i: usize = 0;
        while i < self.pending.len()
            invariant
                built == self@,
                self.embeddings@.len() == self.pending@.len(),
                i <= self.pending@.len(),
                stored_models(stored@) == built.stored().take(i as int),
            decreases self.pending@.len() - i,
        {
            let chunk = &self.pending[i];
            let stored_chunk = StoredChunk {
                id: chunk.id.clone(),
                source: chunk.source.clone(),
                heading: chunk.heading.clone(),
                text: chunk.text.clone(),
                embedding: copy_vector(&self.embeddings[i]),
            };
            let ghost before = stored_models(stored@);
            let ghost model = stored_chunk@;
            assert(model =~= built.stored()[i as int]);
            stored.push(stored_chunk);
            i += 1;
            assert(stored_models(stored@) =~= before.push(model));
            assert(built.stored().take(i as int) =~= built.stored().take(i - 1).push(
                built.stored()[i - 1],
            ));
        }
        assert(built.stored().take(i as int) =~= built.stored());
        let index = KnowledgeIndex {
            schema_version: SCHEMA_VERSION,
            model: model.to_owned(),
            dimension,
            document_input_type: document_input_type.to_owned(),
            sources: self.sources,
            chunks: stored,
        };
        Ok(index)
    }

    /// What building the index took, as far as the build knows it.
    pub fn report(
        &self,
        dimension: usize,
        embedding_ms: u64,
        total_ms: u64,
        index_path: &str,
        index_bytes: u64,
    ) -> (r: IndexReport)
        ensures
            r@ == (IndexReportModel {
                source_count: self@.sources.len() as usize,
                section_count: self@.section_count,
                chunk_count: self@.pending.len() as usize,
                dimension,
                embedding_ms,
                embedding_calls: self@.embedding_calls,
                prompt_tokens: self@.prompt_tokens,
                total_tokens: self@.total_tokens,
                total_ms,
                index_path: index_path@,
                index_bytes,
            }),
    {
        IndexReport {
            source_count: self.sources.len(),
            section_count: self.section_count,
            chunk_count: self.pending.len(),
            dimension,
            embedding_ms,
            embedding_calls: self.embedding_calls,
            prompt_tokens: self.prompt_tokens,
            total_tokens: self.total_tokens,
            total_ms,
            index_path: index_path.to_owned(),
            index_bytes,
        }
    }
}

impl BuildModel {
    /// Whether the sums have room for what a batch took.
    pub open spec fn has_room_for(self, output: EmbeddingOutput) -> bool {
        &&& self.embedding_calls < u64::MAX
        &&& self.prompt_tokens + output.prompt_tokens <= u64::MAX
        &&& self.total_tokens + output.total_tokens <= u64::MAX
    }
}

/// A copy of the numbers.
pub fn copy_vector(vector: &Vec<Single>) -> (r: Vec<Single>)
    ensures
        r@ == vector@,
{
    let mut out: Vec<Single> = Vec::new();
    let mut i: usize = 0;
    while i < vector.len()
        invariant
            i <= vector@.len(),
            out@ == vector@.take(i as int),
        decreases vector@.len() - i,
    {
        out.push(vector[i]);
        i += 1;
        assert(out@ =~= vector@.take(i as int));
    }
    assert(out@ =~= vector@);
    out
}

// ---------------------------------------------------------------------------
// Whether an index fits
// ---------------------------------------------------------------------------

/// Why an index cannot be used with the settings.
pub open spec fn index_fault(index: KnowledgeIndexModel, config: EmbeddingConfigModel) -> Option<
    Seq<char>,
> {
    if index.schema_version != SCHEMA_VERSION {
        Some(
            "schema version is "@ + decimal(index.schema_version as nat) + ", expected "@ + decimal(
                SCHEMA_VERSION as nat,
            ),
        )
    } else if index.model != config.model {
        Some("model is "@ + index.model + ", expected "@ + config.model)
    } else if index.document_input_type != config.document_input_type {
        Some(
            "document input type is "@ + index.document_input_type + ", expected "@
                + config.document_input_type,
        )
    } else if index.dimension != config.dimensions || exists|i: int|
        0 <= i < index.chunks.len() && (#[trigger] index.chunks[i]).embedding.len()
            != index.dimension {
        Some(
            "stored vector dimension is "@ + decimal(index.dimension as nat) + ", expected "@
                + decimal(config.dimensions as nat),
        )
    } else {
        None
    }
}

fn expected(what: &str, found: &str, wanted: &str) -> (r: String)
    ensures
        r@ == what@ + found@ + ", expected "@ + wanted@,
{
    let mut out = what.to_owned();
    out.append(found);
    out.append(", expected ");
    out.append(wanted);
    out
}

/// Whether the index can be used with the settings.
pub fn validate_index(index: &KnowledgeIndex, config: &EmbeddingConfig) -> (r: Result<
    (),
    KnowledgeError,
>)
    ensures
        match r {
            Ok(_) => index_fault(index@, config@) is None,
            Err(error) => index_fault(index@, config@) is Some && error@
                == KnowledgeErrorModel::IncompatibleIndex(index_fault(index@, config@)->0),
        },
{
    if index.schema_version != SCHEMA_VERSION {
        return Err(
            KnowledgeError::IncompatibleIndex(
                expected(
                    "schema version is ",
                    decimal_text(index.schema_version as u64).as_str(),
                    decimal_text(SCHEMA_VERSION as u64).as_str(),
                ),
            ),
        );
    }
    if !same_text(index.model.as_str(), config.model.as_str()) {
        return Err(
            KnowledgeError::IncompatibleIndex(
                expected("model is ", index.model.as_str(), config.model.as_str()),
            ),
        );
    }
    if !same_text(index.document_input_type.as_str(), config.document_input_type.as_str()) {
        return Err(
            KnowledgeError::IncompatibleIndex(
                expected(
                    "document input type is ",
                    index.document_input_type.as_str(),
                    config.document_input_type.as_str(),
                ),
            ),
        );
    }
    let mut fits = index.dimension == config.dimensions;
    let mut i: usize = 0;
    while i < index.chunks.len()
        invariant
            i <= index.chunks@.len(),
            fits == (index.dimension == config.dimensions && forall|k: int|
                0 <= k < i ==> (#[trigger] index@.chunks[k]).embedding.len() == index.dimension),
        decreases index.chunks@.len() - i,
    {
        assert(index@.chunks[i as int].embedding == index.chunks@[i as int].embedding@);
        if index.chunks[i].embedding.len() != index.dimension {
            fits = false;
        }
        i += 1;
    }
    if !fits {
        return Err(
            KnowledgeError::IncompatibleIndex(
                expected(
                    "stored vector dimension is ",
                    decimal_text(index.dimension as u64).as_str(),
                    decimal_text(config.dimensions as u64).as_str(),
                ),
            ),
        );
    }
    Ok(())
}

/// An index that was just built with vectors of the set length fits the
/// settings that it was built with.
pub proof fn a_new_index_fits(build: BuildModel, config: EmbeddingConfigModel)
    requires
        build.embeddings.len() == build.pending.len(),
        build.pending.len() > 0,
        forall|i: int|
            0 <= i < build.embeddings.len() ==> (#[trigger] build.embeddings[i]).len()
                == config.dimensions,
    ensures
        ({
            let index = build.index(config.model, config.document_input_type);
            index is Ok && index_fault(index->Ok_0, config) is None
        }),
{
}

// ---------------------------------------------------------------------------
// Searching
// ---------------------------------------------------------------------------

/// The text to look for, if there is any.
pub fn check_query(query: &str) -> (r: Result<String, KnowledgeError>)
    ensures
        match r {
            Ok(text) => trim(query@).len() > 0 && text@ == trim(query@),
            Err(error) => trim(query@).len() == 0 && error@ == KnowledgeErrorModel::EmptyQuery,
        },
{
    let text = trimmed(query);
    if text.as_str().is_empty() {
        Err(KnowledgeError::EmptyQuery)
    } else {
        Ok(text)
    }
}

/// Whether the vectors of a question can be compared with those of the index.
pub fn check_query_vector(index: &KnowledgeIndex, vectors: &Vec<Vec<Single>>) -> (r: Result<
    (),
    KnowledgeError,
>)
    ensures
        match r {
            Ok(_) => vectors@.len() > 0 && vectors@[0]@.len() == index.dimension,
            Err(error) => if vectors@.len() == 0 {
                error@ == KnowledgeErrorModel::EmbeddingProtocol("model returned no query vector"@)
            } else {
                vectors@[0]@.len() != index.dimension && error@
                    == KnowledgeErrorModel::IncompatibleIndex(
                    "index dimension is "@ + decimal(index.dimension as nat) + ", model returned "@
                        + decimal(vectors@[0]@.len()),
                )
            },
        },
{
    if vectors.len() == 0 {
        return Err(
            KnowledgeError::EmbeddingProtocol("model returned no query vector".to_owned()),
        );
    }
    let length: usize = vectors[0].len();
    if length != index.dimension {
        let mut reason = "index dimension is ".to_owned();
        reason.append(decimal_text(index.dimension as u64).as_str());
        reason.append(", model returned ");
        reason.append(decimal_text(length as u64).as_str());
        return Err(KnowledgeError::IncompatibleIndex(reason));
    }
    Ok(())
}

/// The scores of the hits in their total order.
pub open spec fn hit_ranks(hits: Seq<SearchHitModel>) -> Seq<i64> {
    Seq::new(hits.len(), |i: int| hits[i].combined_score.total_rank() as i64)
}

/// The values of the hits.
pub open spec fn hit_values(hits: Seq<SearchHit>) -> Seq<SearchHitModel> {
    Seq::new(hits.len(), |i: int| hits[i]@)
}

/// The best hits: the greatest score first, equal ones in their order, at most
/// `top_k` of them.
pub open spec fn best_hits(hits: Seq<SearchHitModel>, top_k: nat) -> Seq<SearchHitModel> {
    let order = ranked(hit_ranks(hits));
    let count = if hits.len() < top_k {
        hits.len()
    } else {
        top_k
    };
    Seq::new(count, |i: int| hits[order[i]])
}

/// The best hits, at most `top_k` of them.
pub fn rank_hits(hits: &Vec<SearchHit>, top_k: usize) -> (r: Vec<SearchHit>)
    ensures
        hit_values(r@) == best_hits(hit_values(hits@), top_k as nat),
{
    let ghost all = hit_values(hits@);
    let mut keys: Vec<i64> = Vec::new();
    let mut i: usize = 0;
    while i < hits.len()
        invariant
            all == hit_values(hits@),
            i <= hits@.len(),
            keys@ == hit_ranks(all).take(i as int),
        decreases hits@.len() - i,
    {
        let key: i64 = hits[i].combined_score.total_rank_of();
        keys.push(key);
        assert(all[i as int].combined_score == hits@[i as int].combined_score);
        i += 1;
        assert(keys@ =~= hit_ranks(all).take(i as int));
    }
    assert(keys@ =~= hit_ranks(all));
    let order = rank(&keys);
    let ghost places = positions(order@);
    let ghost best = best_hits(all, top_k as nat);
    let mut out: Vec<SearchHit> = Vec::new();
    let mut k: usize = 0;
    assert(hit_values(out@) =~= best.take(0));
    while k < order.len() && k < top_k
        invariant
            all == hit_values(hits@),
            places == positions(order@),
            places == ranked(hit_ranks(all)),
            best == best_hits(all, top_k as nat),
            order@.len() == hits@.len(),
            k <= order@.len(),
            k <= top_k,
            forall|i: int| 0 <= i < order@.len() ==> #[trigger] order@[i] < hits@.len(),
            hit_values(out@) == best.take(k as int),
        decreases order@.len() - k,
    {
        let hit = hits[order[k]].clone();
        let ghost before = hit_values(out@);
        let ghost model = hit@;
        assert(places[k as int] == order@[k as int]);
        assert(model == best[k as int]);
        out.push(hit);
        assert(hit_values(out@) =~= before.push(model));
        assert(best.take(k + 1) =~= best.take(k as int).push(best[k as int]));
        k += 1;
    }
    assert(best.take(k as int) =~= best);
    out
}

/// The best hits come in order of their scores, are all hits of the search,
/// and leave out none with a greater score.
pub proof fn best_hits_are_the_best(hits: Seq<SearchHitModel>, top_k: nat)
    ensures
        best_hits(hits, top_k).len() == if hits.len() < top_k {
            hits.len()
        } else {
            top_k
        },
        forall|i: int, j: int|
            0 <= i < j < best_hits(hits, top_k).len() ==> (#[trigger] best_hits(
                hits,
                top_k,
            )[i]).combined_score.total_rank() >= (#[trigger] best_hits(
                hits,
                top_k,
            )[j]).combined_score.total_rank(),
        forall|i: int|
            0 <= i < best_hits(hits, top_k).len() ==> hits.contains(
                #[trigger] best_hits(hits, top_k)[i],
            ),
        forall|i: int, p: int|
            0 <= i < best_hits(hits, top_k).len() && 0 <= p < hits.len() && !best_hits(
                hits,
                top_k,
            ).contains(hits[p]) ==> (#[trigger] best_hits(
                hits,
                top_k,
            )[i]).combined_score.total_rank() >= (
            #[trigger] hits[p]).combined_score.total_rank(),
{
    let keys = hit_ranks(hits);
    let order = ranked(keys);
    ranked_is_a_stable_order(keys);
    let best = best_hits(hits, top_k);
    assert forall|i: int, j: int| 0 <= i < j < best.len() implies (
    #[trigger] best[i]).combined_score.total_rank() >= (
    #[trigger] best[j]).combined_score.total_rank() by {
        assert(keys[order[i]] >= keys[order[j]]);
        assert(keys[order[i]] == hits[order[i]].combined_score.total_rank());
        assert(keys[order[j]] == hits[order[j]].combined_score.total_rank());
    }
    assert forall|i: int| 0 <= i < best.len() implies hits.contains(#[trigger] best[i]) by {
        assert(best[i] == hits[order[i]]);
    }
    assert forall|i: int, p: int|
        0 <= i < best.len() && 0 <= p < hits.len() && !best.contains(hits[p]) implies (
    #[trigger] best[i]).combined_score.total_rank() >= (
    #[trigger] hits[p]).combined_score.total_rank() by {
        assert(order.contains(p));
        let k = choose|k: int| 0 <= k < order.len() && order[k] == p;
        if k < best.len() {
            assert(best[k] == hits[p]);
        }
        assert(keys[order[i]] >= keys[order[k]]);
        assert(keys[order[i]] == hits[order[i]].combined_score.total_rank());
        assert(keys[p] == hits[p].combined_score.total_rank());
    }
}

/// Whether a file of the given extension is a Markdown document.
pub fn is_markdown_extension(extension: &str) -> (r: bool)
    ensures
        r == (ascii_lowered(extension@) == "md"@),
{
    let lower = to_ascii_lower(extension);
    same_text(lower.as_str(), "md")
}

/// Texts without a dash that are told apart by one are the same where the
/// whole is.
proof fn dash_tells_apart(a: Seq<char>, b: Seq<char>, c: Seq<char>, d: Seq<char>)
    requires
        !a.contains('-'),
        !c.contains('-'),
        a + "-"@ + b == c + "-"@ + d,
    ensures
        a == c,
        b == d,
{
    reveal_strlit("-");
    let left = a + "-"@ + b;
    let right = c + "-"@ + d;
    if a.len() < c.len() {
        assert(left[a.len() as int] == '-');
        assert(right[a.len() as int] == c[a.len() as int]);
        assert(c.contains('-'));
    }
    if c.len() < a.len() {
        assert(right[c.len() as int] == '-');
        assert(left[c.len() as int] == a[c.len() as int]);
        assert(a.contains('-'));
    }
    assert(left.take(a.len() as int) =~= a);
    assert(right.take(c.len() as int) =~= c);
    assert(left.skip(a.len() as int + 1) =~= b);
    assert(right.skip(c.len() as int + 1) =~= d);
}

/// Chunks have the same name only where their documents have the same
/// fingerprint and they stand at the same place.
pub proof fn names_tell_chunks_apart(
    fingerprint: u64,
    section: nat,
    chunk: nat,
    other_fingerprint: u64,
    other_section: nat,
    other_chunk: nat,
)
    requires
        chunk_name(fingerprint, section, chunk) == chunk_name(
            other_fingerprint,
            other_section,
            other_chunk,
        ),
    ensures
        fingerprint == other_fingerprint,
        section == other_section,
        chunk == other_chunk,
{
    notations_are_read_back(fingerprint as nat, 16, 16);
    notations_are_read_back(other_fingerprint as nat, 16, 16);
    notations_are_read_back(section, 10, 4);
    notations_are_read_back(other_section, 10, 4);
    notations_are_read_back(chunk, 10, 3);
    notations_are_read_back(other_chunk, 10, 3);
    let f = zero_padded(notation(fingerprint as nat, 16), 16);
    let g = zero_padded(notation(other_fingerprint as nat, 16), 16);
    let s = zero_padded(decimal(section), 4);
    let t = zero_padded(decimal(other_section), 4);
    let c = zero_padded(decimal(chunk), 3);
    let d = zero_padded(decimal(other_chunk), 3);
    assert(f + "-"@ + (s + "-"@ + c) =~= chunk_name(fingerprint, section, chunk));
    assert(g + "-"@ + (t + "-"@ + d) =~= chunk_name(
        other_fingerprint,
        other_section,
        other_chunk,
    ));
    dash_tells_apart(f, s + "-"@ + c, g, t + "-"@ + d);
    dash_tells_apart(s, c, t, d);
}

/// The heading stands on a line of its own before the text, where there is one.
pub proof fn headings_stand_before_their_text(heading: Seq<char>, text: Seq<char>)
    ensures
        document_text(Seq::empty(), text) == text,
        heading.len() > 0 ==> document_text(heading, text) == heading.push('\n') + text,
{
    reveal_strlit("\n");
    assert(heading + "\n"@ =~= heading.push('\n'));
}

/// The fingerprint is Fowler, Noll and Vo's: from its offset, each byte is mixed
/// in and the sum multiplied by its prime, within 64 bits.
pub proof fn fingerprints_take_in_every_byte(bytes: Seq<u8>, byte: u8)
    ensures
        fingerprint_of(Seq::empty()) == 14695981039346656037u64,
        fingerprint_of(bytes.push(byte)) == (((fingerprint_of(bytes) ^ (byte as u64)) as nat
            * 1099511628211) % 18446744073709551616) as u64,
{
    assert(bytes.push(byte).drop_last() =~= bytes);
}

/// The chunks of a document are those of its sections in order: each has the
/// path, the heading of its section, and one of the texts that the section is
/// cut into, and is named by the number of the section and its own.
pub proof fn documents_are_cut_section_by_section(
    path: Seq<char>,
    fingerprint: u64,
    sections: Seq<MarkdownSectionModel>,
    section: MarkdownSectionModel,
)
    ensures
        document_chunks(path, fingerprint, Seq::empty()).len() == 0,
        ({
            let before = document_chunks(path, fingerprint, sections);
            let all = document_chunks(path, fingerprint, sections.push(section));
            let texts = chunks(section.text);
            &&& all.len() == before.len() + texts.len()
            &&& all.take(before.len() as int) == before
            &&& forall|k: int|
                0 <= k < texts.len() ==> {
                    let chunk = all[before.len() + k];
                    &&& chunk.text == #[trigger] texts[k]
                    &&& chunk.heading == section.heading
                    &&& chunk.source == path
                    &&& chunk.id == zero_padded(notation(fingerprint as nat, 16), 16) + seq!['-']
                        + zero_padded(decimal(sections.len()), 4) + seq!['-'] + zero_padded(
                        decimal(k as nat),
                        3,
                    )
                }
        }),
{
    reveal_strlit("-");
    assert("-"@ =~= seq!['-']);
    let before = document_chunks(path, fingerprint, sections);
    let all = document_chunks(path, fingerprint, sections.push(section));
    assert(sections.push(section).drop_last() =~= sections);
    let more = section_chunks(path, fingerprint, sections.len(), section);
    assert(all == before + more);
    assert(all.take(before.len() as int) =~= before);
    let texts = chunks(section.text);
    assert forall|k: int| 0 <= k < texts.len() implies {
        let chunk = all[before.len() + k];
        &&& chunk.text == #[trigger] texts[k]
        &&& chunk.heading == section.heading
        &&& chunk.source == path
        &&& chunk.id == zero_padded(notation(fingerprint as nat, 16), 16) + seq!['-'] + zero_padded(
            decimal(sections.len()),
            4,
        ) + seq!['-'] + zero_padded(decimal(k as nat), 3)
    } by {
        assert(all[before.len() + k] == more[k]);
    }
}

/// A document adds its source, its chunks and its sections to a build, and
/// nothing else.
pub proof fn documents_add_up(
    build: BuildModel,
    path: Seq<char>,
    fingerprint: u64,
    sections: Seq<MarkdownSectionModel>,
)
    ensures
        ({
            let b = build.with_document(path, fingerprint, sections);
            &&& b.sources.len() == build.sources.len() + 1
            &&& b.sources.drop_last() == build.sources
            &&& b.sources.last().path == path
            &&& b.sources.last().fingerprint == zero_padded(notation(fingerprint as nat, 16), 16)
            &&& b.pending == build.pending + document_chunks(path, fingerprint, sections)
            &&& build.section_count + sections.len() <= usize::MAX ==> b.section_count
                == build.section_count + sections.len()
            &&& b.embeddings == build.embeddings
            &&& b.embedding_calls == build.embedding_calls
            &&& b.prompt_tokens == build.prompt_tokens
            &&& b.total_tokens == build.total_tokens
        }),
{
    let b = build.with_document(path, fingerprint, sections);
    assert(b.sources.drop_last() =~= build.sources);
}

/// Every chunk is in one batch, with its heading before it: batches of 32
/// follow one another, and only the last may be smaller.
pub proof fn every_chunk_is_in_one_batch(build: BuildModel, k: int)
    requires
        0 <= k < build.pending.len(),
    ensures
        0 <= k / 32 < build.batches(),
        0 <= k % 32 < build.batch_texts((k / 32) as nat).len() <= 32,
        build.batch_texts((k / 32) as nat)[k % 32] == document_text(
            build.pending[k].heading,
            build.pending[k].text,
        ),
        k / 32 < build.batches() - 1 ==> build.batch_texts((k / 32) as nat).len() == 32,
        k / 32 == build.batches() - 1 ==> build.batch_texts((k / 32) as nat).len() + 32 * (k / 32)
            == build.pending.len(),
{
    let batch = (k / 32) as nat;
    assert(batch * 32 + k % 32 == k);
}

/// A build makes an index exactly where each chunk has a vector; then each
/// chunk is stored beside its own vector.
pub proof fn chunks_are_stored_with_their_vectors(
    build: BuildModel,
    model: Seq<char>,
    kind: Seq<char>,
    k: int,
)
    requires
        0 <= k < build.pending.len(),
    ensures
        build.index(model, kind) is Ok <==> build.embeddings.len() == build.pending.len(),
        build.index(model, kind) matches Ok(index) ==> {
            &&& index.schema_version == 3
            &&& index.model == model
            &&& index.document_input_type == kind
            &&& index.sources == build.sources
            &&& index.chunks.len() == build.pending.len()
            &&& index.chunks[k].id == build.pending[k].id
            &&& index.chunks[k].source == build.pending[k].source
            &&& index.chunks[k].heading == build.pending[k].heading
            &&& index.chunks[k].text == build.pending[k].text
            &&& index.chunks[k].embedding == build.embeddings[k]
            &&& build.embeddings[0].len() <= usize::MAX ==> index.dimension
                == build.embeddings[0].len()
        },
        build.index(model, kind) matches Err(error) ==> error
            == KnowledgeErrorModel::EmbeddingProtocol(
            "model returned "@ + decimal(build.embeddings.len()) + " vectors for "@ + decimal(
                build.pending.len(),
            ) + " chunks"@,
        ),
{
}

/// An index fits exactly where its version, its model, its kind of input and
/// the length of all its vectors are those that are asked for.
pub proof fn an_index_fits_where_all_is_the_same(
    index: KnowledgeIndexModel,
    config: EmbeddingConfigModel,
)
    ensures
        index_fault(index, config) is None <==> {
            &&& index.schema_version == 3
            &&& index.model == config.model
            &&& index.document_input_type == config.document_input_type
            &&& index.dimension == config.dimensions
            &&& forall|i: int|
                0 <= i < index.chunks.len() ==> (#[trigger] index.chunks[i]).embedding.len()
                    == config.dimensions
        },
        index.schema_version != 3 ==> index_fault(index, config) == Some(
            "schema version is "@ + decimal(index.schema_version as nat) + ", expected "@ + decimal(
                3,
            ),
        ),
        index.schema_version == 3 && index.model != config.model ==> index_fault(index, config)
            == Some("model is "@ + index.model + ", expected "@ + config.model),
        index.schema_version == 3 && index.model == config.model && index.document_input_type
            != config.document_input_type ==> index_fault(index, config) == Some(
            "document input type is "@ + index.document_input_type + ", expected "@
                + config.document_input_type,
        ),
        index.schema_version == 3 && index.model == config.model && index.document_input_type
            == config.document_input_type && index.dimension != config.dimensions ==> index_fault(
            index,
            config,
        ) == Some(
            "stored vector dimension is "@ + decimal(index.dimension as nat) + ", expected "@
                + decimal(config.dimensions as nat),
        ),
{
}

/// Of hits with the same score the one that was found first comes first.
pub proof fn equal_hits_stay_in_order(hits: Seq<SearchHitModel>, top_k: nat, i: int, j: int)
    requires
        0 <= i < j < best_hits(hits, top_k).len(),
    ensures
        exists|a: int, b: int|
            0 <= a < hits.len() && 0 <= b < hits.len() && (#[trigger] hits[a]) == best_hits(
                hits,
                top_k,
            )[i] && (#[trigger] hits[b]) == best_hits(hits, top_k)[j] && (
            hits[a].combined_score.total_rank() > hits[b].combined_score.total_rank() || (
            hits[a].combined_score.total_rank() == hits[b].combined_score.total_rank() && a < b)),
{
    let keys = hit_ranks(hits);
    let order = ranked(keys);
    ranked_is_a_stable_order(keys);
    let a = order[i];
    let b = order[j];
    assert(keys[a] > keys[b] || (keys[a] == keys[b] && a < b));
    assert(keys[a] == hits[a].combined_score.total_rank());
    assert(keys[b] == hits[b].combined_score.total_rank());
    assert(hits[a] == best_hits(hits, top_k)[i] && hits[b] == best_hits(hits, top_k)[j]);
}

} // verus!
