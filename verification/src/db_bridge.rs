//! Episode persistence records and metadata search queries.

use vstd::prelude::*;

use crate::episode::EpisodePackage;
use crate::director::spec_max_end;
use crate::scene::spec_count_present;
use crate::strings::{
    spec_contains_sub, spec_decimal_pad4, str_contains_sub, u32_decimal_pad4,
};

verus! {

/// A record describing a stored episode.
#[derive(Debug, Clone)]
pub struct EpisodeRecord {
    pub id: String,
    pub title: String,
    pub episode_number: u32,
    pub duration_ms: i64,
    pub size_bytes: usize,
    pub actor_count: usize,
    pub cut_count: usize,
    pub created_at: u64,
}

/// Relies on `std::time::SystemTime::now`: seconds since the epoch, zero
/// when the clock reads before it. Nothing further can be promised of a
/// clock reading.
#[verifier::external_body]
fn unix_now() -> u64 {
    std::time::SystemTime::now().duration_since(std::time::UNIX_EPOCH).unwrap_or_default()
        .as_secs()
}

/// The record identifier: `ep-`, the zero-padded episode number, `-`, and
/// the title.
pub open spec fn spec_record_id(episode_number: u32, title: Seq<char>) -> Seq<char> {
    "ep-"@ + spec_decimal_pad4(episode_number as int) + "-"@ + title
}

impl EpisodeRecord {
    /// Build a record from a package; the size is filled in after
    /// serialization, and the creation stamp is read from the system
    /// clock.
    pub fn from_package(package: &EpisodePackage) -> (r: EpisodeRecord)
        ensures
            r.id@ == spec_record_id(package.metadata.episode_number, package.metadata.title@),
            r.title@ == package.metadata.title@,
            r.episode_number == package.metadata.episode_number,
            r.duration_ms == package.metadata.duration_ms,
            r.size_bytes == 0,
            r.actor_count == spec_count_present(package.scene_graph.spec_slots()),
            r.cut_count == package.director.spec_cuts().len(),
    {
        proof {
            reveal_strlit("ep-");
            reveal_strlit("-");
        }
        let id = <String as vstd::string::StringExecFns>::from_str("ep-").concat(
            u32_decimal_pad4(package.metadata.episode_number).as_str(),
        ).concat("-").concat(package.metadata.title.as_str());
        EpisodeRecord {
            id,
            title: package.metadata.title.clone(),
            episode_number: package.metadata.episode_number,
            duration_ms: package.metadata.duration_ms,
            size_bytes: 0,
            actor_count: package.scene_graph.actor_count(),
            cut_count: package.director.cut_count(),
            created_at: unix_now(),
        }
    }

    /// Update the size after serialization.
    pub fn with_size(self, size_bytes: usize) -> (r: EpisodeRecord)
        ensures
            r == (EpisodeRecord { size_bytes, ..self }),
    {
        EpisodeRecord { size_bytes, ..self }
    }
}

/// Query parameters for episode search; unset filters match everything.
#[derive(Debug, Clone)]
pub struct EpisodeQuery {
    pub title_contains: Option<String>,
    pub min_duration: Option<i64>,
    pub max_duration: Option<i64>,
    pub min_episode_number: Option<u32>,
    pub max_episode_number: Option<u32>,
}

/// The matching rule: every set filter must hold of the record.
pub open spec fn spec_query_matches(q: EpisodeQuery, r: EpisodeRecord) -> bool {
    &&& match q.title_contains {
        Some(t) => spec_contains_sub(r.title@, t@),
        None => true,
    }
    &&& match q.min_duration {
        Some(m) => r.duration_ms >= m,
        None => true,
    }
    &&& match q.max_duration {
        Some(m) => r.duration_ms <= m,
        None => true,
    }
    &&& match q.min_episode_number {
        Some(m) => r.episode_number >= m,
        None => true,
    }
    &&& match q.max_episode_number {
        Some(m) => r.episode_number <= m,
        None => true,
    }
}

impl EpisodeQuery {
    /// An empty query, matching every record.
    pub fn new() -> (r: EpisodeQuery)
        ensures
            r.title_contains is None,
            r.min_duration is None,
            r.max_duration is None,
            r.min_episode_number is None,
            r.max_episode_number is None,
    {
        EpisodeQuery {
            title_contains: None,
            min_duration: None,
            max_duration: None,
            min_episode_number: None,
            max_episode_number: None,
        }
    }

    /// Filter by title substring.
    pub fn with_title(self, title: &str) -> (r: EpisodeQuery)
        ensures
            r.title_contains matches Some(t) && t@ == title@,
            r.min_duration == self.min_duration,
            r.max_duration == self.max_duration,
            r.min_episode_number == self.min_episode_number,
            r.max_episode_number == self.max_episode_number,
    {
        EpisodeQuery {
            title_contains: Some(<String as vstd::string::StringExecFns>::from_str(title)),
            ..self
        }
    }

    /// Filter by duration range.
    pub fn with_duration_range(self, min: i64, max: i64) -> (r: EpisodeQuery)
        ensures
            r == (EpisodeQuery { min_duration: Some(min), max_duration: Some(max), ..self }),
    {
        EpisodeQuery { min_duration: Some(min), max_duration: Some(max), ..self }
    }

    /// Filter by episode number range.
    pub fn with_episode_range(self, min: u32, max: u32) -> (r: EpisodeQuery)
        ensures
            r == (EpisodeQuery {
                min_episode_number: Some(min),
                max_episode_number: Some(max),
                ..self
            }),
    {
        EpisodeQuery { min_episode_number: Some(min), max_episode_number: Some(max), ..self }
    }

    /// Whether a record satisfies every set filter.
    pub fn matches(&self, record: &EpisodeRecord) -> (r: bool)
        ensures
            r == spec_query_matches(*self, *record),
    {
        match &self.title_contains {
            Some(t) => {
                if !str_contains_sub(record.title.as_str(), t.as_str()) {
                    return false;
                }
            },
            None => {},
        }
        match self.min_duration {
            Some(m) => {
                if record.duration_ms < m {
                    return false;
                }
            },
            None => {},
        }
        match self.max_duration {
            Some(m) => {
                if record.duration_ms > m {
                    return false;
                }
            },
            None => {},
        }
        match self.min_episode_number {
            Some(m) => {
                if record.episode_number < m {
                    return false;
                }
            },
            None => {},
        }
        match self.max_episode_number {
            Some(m) => {
                if record.episode_number > m {
                    return false;
                }
            },
            None => {},
        }
        true
    }
}

impl Default for EpisodeQuery {
    /// Same as [`EpisodeQuery::new`].
    fn default() -> (r: EpisodeQuery)
        ensures
            r.title_contains is None,
            r.min_duration is None,
            r.max_duration is None,
            r.min_episode_number is None,
            r.max_episode_number is None,
    {
        EpisodeQuery::new()
    }
}

} // verus!
