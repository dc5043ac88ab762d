//! The counters of a run, by which the command line follows the embedding
//! jobs and knows when the dispatcher is done.
use vstd::prelude::*;
use crate::embedding::{
    embed_entity, embedding_request, EmbeddingError, EmbeddingJob, EmbeddingRequest,
    EmbeddingRequestView,
};

verus! {

/// What the dispatcher does with a job that it took from the queue.
#[derive(Debug, PartialEq, Eq)]
pub enum JobStep {
    /// The chunk is empty: the job counts for nothing.
    Skip,
    /// Nothing is sent for the job: it is logged and finished as a failure.
    Refuse(EmbeddingError),
    /// The chunk is sent to the embedding service with this request.
    Embed(EmbeddingRequest),
}

/// The three counters of a run: the chunks that were enqueued for
/// embedding, the jobs that the dispatcher has taken up, and the jobs it has
/// finished, by success or by a failure that is final.
#[derive(Clone, Copy, Debug, PartialEq, Eq, Structural)]
pub struct Progress {
    pub total_chunks: usize,
    pub pending: usize,
    pub completed: usize,
}

impl Progress {
    /// No job is finished before it is taken up, and none is taken up
    /// before it is enqueued.
    pub open spec fn well_formed(self) -> bool {
        self.completed <= self.pending <= self.total_chunks
    }

    /// The wait for the dispatcher may end: no producer is at work, every
    /// chunk that was enqueued has been taken up, and every job that was
    /// taken up is finished.
    pub open spec fn finished(self, producers_active: bool) -> bool {
        !producers_active && self.completed >= self.pending && self.pending >= self.total_chunks
    }

    /// The counters at the start of a run.
    pub fn new() -> (progress: Progress)
        ensures
            progress == (Progress { total_chunks: 0, pending: 0, completed: 0 }),
            progress.well_formed(),
    {
        Progress { total_chunks: 0, pending: 0, completed: 0 }
    }

    /// Counts a job that a producer is about to put on the queue, and says
    /// whether it is to be put there at all: a job with an empty chunk is
    /// never enqueued.
    pub fn enqueue(&mut self, job: &EmbeddingJob) -> (enqueued: bool)
        requires
            old(self).well_formed(),
            old(self).total_chunks < usize::MAX,
        ensures
            enqueued == (job.chunk@.len() > 0),
            *final(self) == (Progress {
                total_chunks: if enqueued {
                    (old(self).total_chunks + 1) as usize
                } else {
                    old(self).total_chunks
                },
                ..*old(self)
            }),
            final(self).well_formed(),
    {
        if job.chunk.as_str().is_empty() {
            false
        } else {
            self.total_chunks = self.total_chunks + 1;
            true
        }
    }

    /// Counts a job that the dispatcher took from the queue, and says
    /// whether it is to be embedded: a job with an empty chunk is skipped and
    /// counts for nothing.
    pub fn accept(&mut self, job: &EmbeddingJob) -> (accepted: bool)
        requires
            old(self).well_formed(),
            job.chunk@.len() > 0 ==> old(self).pending < old(self).total_chunks,
        ensures
            accepted == (job.chunk@.len() > 0),
            *final(self) == (Progress {
                pending: if accepted {
                    (old(self).pending + 1) as usize
                } else {
                    old(self).pending
                },
                ..*old(self)
            }),
            final(self).well_formed(),
    {
        if job.chunk.as_str().is_empty() {
            false
        } else {
            self.pending = self.pending + 1;
            true
        }
    }

    /// Takes up a job from the queue. A job with an empty chunk is skipped
    /// and counts for nothing. Every other job is counted as taken up; where
    /// its chunk is blank or the key of the embedding service is not set, it
    /// is refused and nothing is sent for it, and otherwise the request for
    /// its chunk is made. A job that is refused or embedded is finished
    /// with `complete`.
    pub fn take_up(&mut self, job: &EmbeddingJob, api_key: Option<&str>) -> (step: JobStep)
        requires
            old(self).well_formed(),
            job.chunk@.len() > 0 ==> old(self).pending < old(self).total_chunks,
        ensures
            final(self).well_formed(),
            *final(self) == (Progress {
                pending: if job.chunk@.len() > 0 {
                    (old(self).pending + 1) as usize
                } else {
                    old(self).pending
                },
                ..*old(self)
            }),
            match step {
                JobStep::Skip => job.chunk@.len() == 0,
                JobStep::Refuse(e) => job.chunk@.len() > 0 && embedding_request(
                    job.chunk@,
                    match api_key {
                        Some(k) => Some(k@),
                        None => None,
                    },
                ) == Err::<EmbeddingRequestView, EmbeddingError>(e),
                JobStep::Embed(request) => job.chunk@.len() > 0 && embedding_request(
                    job.chunk@,
                    match api_key {
                        Some(k) => Some(k@),
                        None => None,
                    },
                ) == Ok::<EmbeddingRequestView, EmbeddingError>(request@),
            },
    {
        if !self.accept(job) {
            return JobStep::Skip;
        }
        match embed_entity(job.chunk.as_str(), api_key) {
            Ok(request) => JobStep::Embed(request),
            Err(e) => JobStep::Refuse(e),
        }
    }

    /// Counts a job that the dispatcher has finished: its embedding was
    /// stored, or the embedding or the storing failed for good.
    pub fn complete(&mut self)
        requires
            old(self).well_formed(),
            old(self).completed < old(self).pending,
        ensures
            *final(self) == (Progress {
                completed: (old(self).completed + 1) as usize,
                ..*old(self)
            }),
            final(self).well_formed(),
    {
        self.completed = self.completed + 1;
    }

    /// Decides whether the wait for the dispatcher may end.
    pub fn wait_finished(&self, producers_active: bool) -> (done: bool)
        ensures
            done == self.finished(producers_active),
    {
        !producers_active && self.completed >= self.pending && self.pending >= self.total_chunks
    }

    /// The jobs that the dispatcher has taken up and not finished.
    pub fn in_flight(&self) -> (jobs: usize)
        requires
            self.well_formed(),
        ensures
            jobs == self.pending - self.completed,
    {
        self.pending - self.completed
    }

    /// Sets the counters back for the next run.
    pub fn reset(&mut self)
        ensures
            *final(self) == (Progress { total_chunks: 0, pending: 0, completed: 0 }),
            final(self).well_formed(),
    {
        self.total_chunks = 0;
        self.pending = 0;
        self.completed = 0;
    }
}

/// When the wait for the dispatcher ends, the three counters agree: every
/// chunk that was enqueued was taken up, and every job that was taken up is
/// finished.
pub proof fn counters_agree_at_wait_exit(progress: Progress, producers_active: bool)
    requires
        progress.well_formed(),
        progress.finished(producers_active),
    ensures
        progress.total_chunks == progress.pending,
        progress.completed == progress.pending,
{
}

} // verus!
