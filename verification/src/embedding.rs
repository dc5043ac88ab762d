//! The embedding dispatcher: the jobs that carry chunks to the embedding
//! service, the counters that follow them, and the shape of the service's
//! reply.
use vstd::prelude::*;
use crate::error::IndexError;
use crate::entities::{plan_views, PlannedEntity};
use crate::json::{json_views, json_views_positions, parsed_document, Json, JsonView};
use crate::replies::{read_reply, succeeded, ReplyError};
use crate::text::{blank, is_blank};
use crate::replies::entity_id;

verus! {

/// The address of the embedding service.
pub const EMBEDDING_URL: &'static str =
    "https://generativelanguage.googleapis.com/v1beta/models/gemini-embedding-001:embedContent";

/// The model that embeds the chunks.
pub const EMBEDDING_MODEL: &'static str = "models/gemini-embedding-001";

/// The task that the embeddings are made for.
pub const EMBEDDING_TASK: &'static str = "SEMANTIC_SIMILARITY";

/// The header that carries the key of the embedding service.
pub const API_KEY_HEADER: &'static str = "x-goog-api-key";

/// The environment variable that holds the key of the embedding service.
pub const API_KEY_VARIABLE: &'static str = "GEMINI_API_KEY";

/// The endpoint of the store that takes the embedding of a chunk.
pub const EMBED_ENDPOINT: &'static str = "embedSuperEntity";

/// One chunk that is to be embedded and stored with its entity.
#[derive(Clone, Debug, PartialEq, Eq)]
pub struct EmbeddingJob {
    pub chunk: String,
    pub entity_id: String,
    pub port: u16,
}

/// What an `EmbeddingJob` holds.
pub struct JobView {
    pub chunk: Seq<char>,
    pub entity_id: Seq<char>,
    pub port: u16,
}

impl View for EmbeddingJob {
    type V = JobView;

    open spec fn view(&self) -> JobView {
        JobView { chunk: self.chunk@, entity_id: self.entity_id@, port: self.port }
    }
}

/// What a vector of jobs holds, job by job.
pub open spec fn job_views(jobs: Seq<EmbeddingJob>) -> Seq<JobView> {
    Seq::new(jobs.len(), |i: int| jobs[i]@)
}

/// The jobs for the chunks of an entity: one for each chunk that is not
/// empty, in the order of the chunks.
pub open spec fn jobs_for(chunks: Seq<Seq<char>>, entity_id: Seq<char>, port: u16) -> Seq<JobView>
    decreases chunks.len(),
{
    if chunks.len() == 0 {
        Seq::empty()
    } else {
        let before = jobs_for(chunks.drop_last(), entity_id, port);
        if chunks.last().len() == 0 {
            before
        } else {
            before.push(JobView { chunk: chunks.last(), entity_id, port })
        }
    }
}

/// Where no chunk is empty there is one job for each chunk, at the same
/// position.
pub proof fn jobs_for_every_chunk(chunks: Seq<Seq<char>>, entity_id: Seq<char>, port: u16)
    requires
        forall|i: int| 0 <= i < chunks.len() ==> (#[trigger] chunks[i]).len() > 0,
    ensures
        jobs_for(chunks, entity_id, port).len() == chunks.len(),
        forall|i: int|
            0 <= i < chunks.len() ==> #[trigger] jobs_for(chunks, entity_id, port)[i] == (JobView {
                chunk: chunks[i],
                entity_id,
                port,
            }),
    decreases chunks.len(),
{
    if chunks.len() > 0 {
        let before = chunks.drop_last();
        assert forall|i: int| 0 <= i < before.len() implies (#[trigger] before[i]).len() > 0 by {
            assert(before[i] == chunks[i]);
        }
        jobs_for_every_chunk(before, entity_id, port);
        assert(chunks.last() == chunks[chunks.len() - 1]);
        assert forall|i: int| 0 <= i < chunks.len() implies #[trigger] jobs_for(
            chunks,
            entity_id,
            port,
        )[i] == (JobView { chunk: chunks[i], entity_id, port }) by {
            if i < chunks.len() - 1 {
                assert(before[i] == chunks[i]);
            }
        }
    }
}

/// Makes the embedding jobs for the chunks of an entity that the store
/// created under `entity_id`. An empty chunk gets no job.
pub fn embedding_jobs(chunks: &Vec<String>, entity_id: &str, port: u16) -> (jobs: Vec<EmbeddingJob>)
    ensures
        job_views(jobs@) == jobs_for(chunks.deep_view(), entity_id@, port),
{
    let mut jobs: Vec<EmbeddingJob> = Vec::new();
    let mut i: usize = 0;
    assert(chunks.deep_view().take(0) =~= Seq::<Seq<char>>::empty());
    assert(job_views(jobs@) =~= Seq::<JobView>::empty());
    while i < chunks.len()
        invariant
            i <= chunks.len(),
            job_views(jobs@) == jobs_for(chunks.deep_view().take(i as int), entity_id@, port),
        decreases chunks.len() - i,
    {
        let chunk = &chunks[i];
        proof {
            let views = chunks.deep_view();
            assert(views.take(i + 1).drop_last() =~= views.take(i as int));
            assert(views.take(i + 1).last() == chunk@);
        }
        if !chunk.as_str().is_empty() {
            let ghost before = job_views(jobs@);
            let job = EmbeddingJob { chunk: chunk.clone(), entity_id: entity_id.to_owned(), port };
            jobs.push(job);
            assert(job_views(jobs@) =~= before.push(job@));
        }
        i += 1;
    }
    assert(chunks.deep_view().take(chunks.len() as int) =~= chunks.deep_view());
    jobs
}

impl PlannedEntity {
    /// The embedding jobs of this entity, once the store has created it
    /// under `entity_id`: one for each of its chunks.
    pub fn jobs(&self, entity_id: &str, port: u16) -> (jobs: Vec<EmbeddingJob>)
        ensures
            job_views(jobs@) == jobs_for(self@.chunks, entity_id@, port),
    {
        embedding_jobs(&self.chunks, entity_id, port)
    }
}

/// What follows the creation of an entity: the identifier that the store
/// gave it, the embedding jobs of its chunks, and the entities that are now
/// to be created below it.
#[derive(Debug, PartialEq, Eq)]
pub struct Created {
    pub entity_id: String,
    pub jobs: Vec<EmbeddingJob>,
    pub children: Vec<PlannedEntity>,
}

impl PlannedEntity {
    /// Takes the reply to the request that creates this entity. Where the
    /// reply names the entity, its chunks become jobs and its children are
    /// handed out to be created below it. Where it names none, the entity
    /// and all that was planned below it are given up.
    pub fn created(self, reply: &Json, port: u16) -> (next: Result<Created, IndexError>)
        ensures
            match next {
                Ok(c) => {
                    &&& reply@.text_at("entity"@, "id"@) == Some(c.entity_id@)
                    &&& job_views(c.jobs@) == jobs_for(self@.chunks, c.entity_id@, port)
                    &&& plan_views(c.children@) == self@.children
                },
                Err(e) => e == IndexError::EntityIdNotFound && reply@.text_at("entity"@, "id"@)
                    is None,
            },
    {
        let id = match entity_id(reply) {
            Ok(id) => id,
            Err(e) => { return Err(e); },
        };
        let jobs = embedding_jobs(&self.chunks, id.as_str(), port);
        Ok(Created { entity_id: id, jobs, children: self.children })
    }
}

/// Why a text was not embedded.
#[derive(Clone, Copy, Debug, PartialEq, Eq, Structural)]
pub enum EmbeddingError {
    /// The text is blank: nothing is sent for it.
    BlankText,
    /// The key of the embedding service is not set: nothing is sent.
    MissingApiKey,
    /// The service answered with this status, which reports no success.
    Status(u16),
    /// The body of the answer is not JSON.
    NotJson,
    /// The reply is no JSON object.
    NotAnObject,
    /// The reply has no member `embedding`.
    MissingEmbedding,
    /// The embedding has no array `values`.
    MissingValues,
    /// The value at this position of the array is no number.
    NonNumeric(usize),
}

/// A request to the embedding service: the text that is to be embedded and
/// the key that the request is sent with.
#[derive(Debug, PartialEq, Eq)]
pub struct EmbeddingRequest {
    pub text: String,
    pub api_key: String,
}

/// What an `EmbeddingRequest` holds.
pub struct EmbeddingRequestView {
    pub text: Seq<char>,
    pub api_key: Seq<char>,
}

impl View for EmbeddingRequest {
    type V = EmbeddingRequestView;

    open spec fn view(&self) -> EmbeddingRequestView {
        EmbeddingRequestView { text: self.text@, api_key: self.api_key@ }
    }
}

/// The request that embeds `text`, or why none is sent: a blank text is
/// refused, and after that a request without a key.
pub open spec fn embedding_request(text: Seq<char>, api_key: Option<Seq<char>>) -> Result<
    EmbeddingRequestView,
    EmbeddingError,
> {
    if blank(text) {
        Err(EmbeddingError::BlankText)
    } else {
        match api_key {
            None => Err(EmbeddingError::MissingApiKey),
            Some(key) => Ok(EmbeddingRequestView { text, api_key: key }),
        }
    }
}

/// What a request holds, or why there is none.
pub open spec fn request_result(request: Result<EmbeddingRequest, EmbeddingError>) -> Result<
    EmbeddingRequestView,
    EmbeddingError,
> {
    match request {
        Ok(r) => Ok(r@),
        Err(e) => Err(e),
    }
}

/// Decides whether `text` is sent to the embedding service, and with what.
/// `api_key` is the key of the service, or `None` where it is not set. A
/// text that is empty once the white space at its ends is taken away is
/// refused before anything is sent, and so is every text where the key is
/// missing.
pub fn embed_entity(text: &str, api_key: Option<&str>) -> (request: Result<
    EmbeddingRequest,
    EmbeddingError,
>)
    ensures
        request_result(request) == embedding_request(
            text@,
            match api_key {
                Some(k) => Some(k@),
                None => None,
            },
        ),
{
    if is_blank(text) {
        return Err(EmbeddingError::BlankText);
    }
    match api_key {
        None => Err(EmbeddingError::MissingApiKey),
        Some(key) => Ok(EmbeddingRequest { text: text.to_owned(), api_key: key.to_owned() }),
    }
}

/// The number that a JSON document is, as it is held.
pub open spec fn number_text(value: JsonView) -> Option<Seq<char>> {
    match value {
        JsonView::Number(n) => Some(n),
        _ => None,
    }
}

/// The numbers of an array as they are held, or the position of its first
/// element that is no number.
pub open spec fn numbers_in(items: Seq<JsonView>) -> Result<Seq<Seq<char>>, EmbeddingError>
    decreases items.len(),
{
    if items.len() == 0 {
        Ok(Seq::empty())
    } else {
        match numbers_in(items.drop_last()) {
            Err(e) => Err(e),
            Ok(before) => match number_text(items.last()) {
                None => Err(EmbeddingError::NonNumeric((items.len() - 1) as usize)),
                Some(n) => Ok(before.push(n)),
            },
        }
    }
}

/// The embedding that a reply of the embedding service holds, as the
/// numbers at `embedding.values`, or why it holds none.
pub open spec fn embedding_of(reply: JsonView) -> Result<Seq<Seq<char>>, EmbeddingError> {
    if !(reply is Object) {
        Err(EmbeddingError::NotAnObject)
    } else {
        match reply.member("embedding"@) {
            None => Err(EmbeddingError::MissingEmbedding),
            Some(embedding) => match embedding.items_of("values"@) {
                None => Err(EmbeddingError::MissingValues),
                Some(items) => numbers_in(items),
            },
        }
    }
}

/// An array of numbers fails at its first element that is none.
proof fn numbers_in_fail(items: Seq<JsonView>, at: int)
    requires
        0 <= at < items.len() <= usize::MAX,
        numbers_in(items.take(at)) is Ok,
        number_text(items[at]) is None,
    ensures
        numbers_in(items) == Err::<Seq<Seq<char>>, EmbeddingError>(
            EmbeddingError::NonNumeric(at as usize),
        ),
    decreases items.len(),
{
    if at == items.len() - 1 {
        assert(items.take(at) =~= items.drop_last());
    } else {
        assert(items.drop_last().take(at) =~= items.take(at));
        assert(items.drop_last()[at] == items[at]);
        numbers_in_fail(items.drop_last(), at);
    }
}

/// Reads the embedding out of a reply of the embedding service. The
/// numbers are handed on as text, as they are held, one string for each
/// value of the vector.
pub fn embedding_values(reply: &Json) -> (values: Result<Vec<String>, EmbeddingError>)
    ensures
        match values {
            Ok(v) => embedding_of(reply@) == Ok::<Seq<Seq<char>>, EmbeddingError>(v.deep_view()),
            Err(e) => embedding_of(reply@) == Err::<Seq<Seq<char>>, EmbeddingError>(e),
        },
{
    match reply {
        Json::Object(_) => {},
        _ => { return Err(EmbeddingError::NotAnObject); },
    }
    let embedding = match reply.get("embedding") {
        Some(e) => e,
        None => { return Err(EmbeddingError::MissingEmbedding); },
    };
    let items = match embedding.get_list("values") {
        Some(items) => items,
        None => { return Err(EmbeddingError::MissingValues); },
    };
    let ghost views = json_views(items@);
    proof {
        json_views_positions(items@);
    }
    let mut values: Vec<String> = Vec::new();
    let mut i: usize = 0;
    assert(views.take(0) =~= Seq::empty());
    assert(values.deep_view() =~= Seq::<Seq<char>>::empty());
    while i < items.len()
        invariant
            i <= items.len(),
            views.len() == items.len(),
            forall|j: int| 0 <= j < items.len() ==> views[j] == #[trigger] items@[j]@,
            numbers_in(views.take(i as int)) == Ok::<Seq<Seq<char>>, EmbeddingError>(
                values.deep_view(),
            ),
            embedding_of(reply@) == numbers_in(views),
        decreases items.len() - i,
    {
        assert(views.take(i + 1).drop_last() =~= views.take(i as int));
        assert(views.take(i + 1).last() == items@[i as int]@);
        match &items[i] {
            Json::Number(n) => {
                let ghost before = values.deep_view();
                values.push(n.clone());
                assert(values.deep_view() =~= before.push(n@));
            },
            _ => {
                proof {
                    numbers_in_fail(views, i as int);
                }
                return Err(EmbeddingError::NonNumeric(i));
            },
        }
        i += 1;
    }
    assert(views.take(items.len() as int) =~= views);
    Ok(values)
}

/// The embedding that an answer of the embedding service holds, or why it
/// holds none: the answer has to report success, its body has to be JSON,
/// and the numbers of the vector stand at `embedding.values`.
pub open spec fn embedding_in_answer(status: u16, body: Seq<char>) -> Result<
    Seq<Seq<char>>,
    EmbeddingError,
> {
    if !succeeded(status) {
        Err(EmbeddingError::Status(status))
    } else {
        match parsed_document(body) {
            None => Err(EmbeddingError::NotJson),
            Some(reply) => embedding_of(reply),
        }
    }
}

/// Reads the embedding out of the answer of the embedding service, from
/// its status and its body. The vector has one number for each element of
/// `embedding.values`, in their order; each is handed on as text, as
/// `serde_json` renders the number.
pub fn embedding_answer(status: u16, body: &str) -> (values: Result<Vec<String>, EmbeddingError>)
    ensures
        match values {
            Ok(v) => embedding_in_answer(status, body@) == Ok::<Seq<Seq<char>>, EmbeddingError>(
                v.deep_view(),
            ),
            Err(e) => embedding_in_answer(status, body@) == Err::<Seq<Seq<char>>, EmbeddingError>(
                e,
            ),
        },
{
    match read_reply(status, body) {
        Ok(reply) => embedding_values(&reply),
        Err(ReplyError::Status { status: s, body: _ }) => Err(EmbeddingError::Status(s)),
        Err(ReplyError::NotJson) => Err(EmbeddingError::NotJson),
    }
}

} // verus!
