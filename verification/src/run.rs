//! One run over a directory of track logs.
//!
//! The run owns what the tracks share: the slugs that are already written
//! under, the articles collected so far, and the list of the tracks that
//! were given up, with the reason for each.

use vstd::prelude::*;
use vstd::string::*;
use crate::article::{distinct_slugs, is_index_of, slug_recorded, sort_articles, TrackArticle};
use crate::catalog::Photo;
use crate::correlate::is_matched_set;
use crate::pipeline::{generate_article, start_failure, ArticleJob, SkipReason, Stage};
use crate::text::same_text;
use crate::track::{describes, TrackLog};

verus! {

/// A track that was given up.
#[derive(Debug, PartialEq, Eq)]
pub struct SkippedTrack {
    /// The file that the track log was read from.
    pub gpx_file: String,
    pub reason: SkipReason,
}

/// The state of a run.
#[derive(Debug, PartialEq, Eq)]
pub struct Run {
    /// The slugs of the tracks whose work was started: their directories
    /// may hold files.
    pub claimed: Vec<String>,
    /// The articles of the tracks that were assembled, as they came.
    pub articles: Vec<TrackArticle>,
    /// The tracks that were given up, as they came.
    pub skipped: Vec<SkippedTrack>,
    /// Whether the run was called off: no further track is started.
    pub cancelled: bool,
}

/// Why the run takes no article from `job`, or `None` where it takes one or
/// the job is still under way: the reason for which the job was skipped, or
/// a slug that a collected article already has.
pub open spec fn refusal_of(job: ArticleJob, articles: Seq<TrackArticle>) -> Option<SkipReason> {
    match job.stage {
        Stage::Skipped(reason) => Some(reason),
        Stage::Assembled => if slug_recorded(articles, job.article.underscored_title@) {
            Some(SkipReason::SlugTaken)
        } else {
            None
        },
        _ => None,
    }
}

/// Whether `after` is `before` with one more track, read from `gpx_file`
/// and given up for `reason`.
pub open spec fn records_skip(
    after: Seq<SkippedTrack>,
    before: Seq<SkippedTrack>,
    gpx_file: Seq<char>,
    reason: SkipReason,
) -> bool {
    &&& after.len() == before.len() + 1
    &&& after.drop_last() == before
    &&& after.last().gpx_file@ == gpx_file
    &&& after.last().reason == reason
}

impl Run {
    /// Whether the run is well formed: no two of its articles have the same
    /// slug.
    pub open spec fn wf(self) -> bool {
        distinct_slugs(self.articles@)
    }

    /// Starts a run: nothing claimed, collected or given up.
    pub fn new() -> (r: Run)
        ensures
            r.claimed@.len() == 0,
            r.articles@.len() == 0,
            r.skipped@.len() == 0,
            !r.cancelled,
            r.wf(),
    {
        Run { claimed: Vec::new(), articles: Vec::new(), skipped: Vec::new(), cancelled: false }
    }

    /// Calls the run off. What was written stays as it is; every track
    /// whose turn comes later is given up before anything of it is written.
    pub fn cancel(&mut self)
        ensures
            final(self).cancelled,
            final(self).claimed == old(self).claimed,
            final(self).articles == old(self).articles,
            final(self).skipped == old(self).skipped,
    {
        self.cancelled = true;
    }

    /// Starts the work on one track log, as `generate_article` does, with
    /// the slugs claimed in this run, and claims the slug of the track where
    /// its work starts. A track that is not started is put on the list of
    /// those given up; in a run that was called off that is every track.
    pub fn begin(
        &mut self,
        log: &TrackLog,
        gpx_file: &str,
        target_dir: &str,
        photo_list: &Vec<Photo>,
    ) -> (r: Result<ArticleJob, SkipReason>)
        ensures
            match r {
                Ok(job) => {
                    &&& !old(self).cancelled
                    &&& start_failure(*log, gpx_file@, old(self).claimed@, photo_list@) is None
                    &&& job.gpx_file@ == gpx_file@
                    &&& job.stage == Stage::Directories
                    &&& job.next == 0
                    &&& job.published@.len() == 0
                    &&& describes(job.article, job.route@, *log, gpx_file@)
                    &&& is_matched_set(
                        job.photos@,
                        photo_list@,
                        job.article.start_time,
                        job.article.end_time,
                    )
                    &&& job.site_output@ == target_dir@
                    &&& job.wf()
                    &&& final(self).claimed@ == old(self).claimed@.push(
                        job.article.underscored_title,
                    )
                    &&& final(self).skipped == old(self).skipped
                },
                Err(reason) => {
                    &&& Some(reason) == if old(self).cancelled {
                        Some(SkipReason::Cancelled)
                    } else {
                        start_failure(*log, gpx_file@, old(self).claimed@, photo_list@)
                    }
                    &&& final(self).claimed == old(self).claimed
                    &&& records_skip(final(self).skipped@, old(self).skipped@, gpx_file@, reason)
                },
            },
            final(self).articles == old(self).articles,
            final(self).cancelled == old(self).cancelled,
    {
        let started = if self.cancelled {
            Err(SkipReason::Cancelled)
        } else {
            generate_article(log, gpx_file, target_dir, &self.claimed, photo_list)
        };
        match &started {
            Ok(job) => {
                self.claimed.push(job.article.underscored_title.clone());
            },
            Err(reason) => {
                let ghost before = self.skipped@;
                self.skipped.push(
                    SkippedTrack { gpx_file: String::from_str(gpx_file), reason: *reason },
                );
                assert(self.skipped@.drop_last() =~= before);
            },
        }
        started
    }

    /// Takes the outcome of `job`. The article of an assembled job is
    /// collected, unless a collected article has its slug; a job that was
    /// skipped, or whose article is refused, is put on the list of the
    /// tracks given up. A job that is still under way leaves no trace.
    pub fn collect(&mut self, job: &ArticleJob) -> (accepted: bool)
        ensures
            accepted == (job.stage is Assembled && !slug_recorded(
                old(self).articles@,
                job.article.underscored_title@,
            )),
            final(self).articles@ == if accepted {
                old(self).articles@.push(job.article)
            } else {
                old(self).articles@
            },
            final(self).skipped@ == match refusal_of(*job, old(self).articles@) {
                Some(reason) => old(self).skipped@.push(
                    SkippedTrack { gpx_file: job.gpx_file, reason },
                ),
                None => old(self).skipped@,
            },
            final(self).claimed == old(self).claimed,
            final(self).cancelled == old(self).cancelled,
            old(self).wf() ==> final(self).wf(),
    {
        let article = match job.stage {
            Stage::Assembled => job.article.clone(),
            Stage::Skipped(reason) => {
                self.skipped.push(SkippedTrack { gpx_file: job.gpx_file.clone(), reason });
                return false;
            },
            _ => {
                return false;
            },
        };
        let mut i: usize = 0;
        while i < self.articles.len()
            invariant
                i <= self.articles@.len(),
                *self == *old(self),
                job.stage is Assembled,
                article == job.article,
                forall|j: int|
                    0 <= j < i ==> (#[trigger] self.articles@[j]).underscored_title@
                        != article.underscored_title@,
            decreases self.articles@.len() - i,
        {
            if same_text(
                self.articles[i].underscored_title.as_str(),
                article.underscored_title.as_str(),
            ) {
                self.skipped.push(
                    SkippedTrack { gpx_file: job.gpx_file.clone(), reason: SkipReason::SlugTaken },
                );
                return false;
            }
            i += 1;
        }
        self.articles.push(article);
        true
    }

    /// Ends the run: the collected articles as the index lists them, by the
    /// start of their tracks.
    pub fn finish(&self) -> (index: Vec<TrackArticle>)
        ensures
            is_index_of(index@, self.articles@),
            index@.len() == self.articles@.len(),
            self.wf() ==> distinct_slugs(index@),
    {
        sort_articles(&self.articles)
    }
}

} // verus!
