//! The entity model the engine renders, plus the wire shapes its host uses
//! when persisting or transferring timeline data.
//!
//! All entities are immutable render inputs: the engine only borrows them for
//! the duration of one render call and never creates or mutates them.  Each
//! renderable entity carries a mathematical view (`TimelineV`, `TrackV`,
//! `EventV`, `ConnectionV`) that the engine's contracts are stated over.

use vstd::prelude::*;

verus! {

/// Render-time metadata of one timeline.
pub struct Timeline {
    pub id: String,
    pub title: String,
    pub description: String,
    pub created_at: String,
    pub updated_at: String,
}

pub struct TimelineV {
    pub id: Seq<char>,
    pub title: Seq<char>,
    pub description: Seq<char>,
}

impl View for Timeline {
    type V = TimelineV;

    open spec fn view(&self) -> TimelineV {
        TimelineV { id: self.id@, title: self.title@, description: self.description@ }
    }
}

impl DeepView for Timeline {
    type V = TimelineV;

    open spec fn deep_view(&self) -> TimelineV {
        self.view()
    }
}

/// One lane of the timeline; the caller-supplied order is authoritative.
pub struct Track {
    pub id: String,
    pub timeline_id: String,
    pub name: String,
    pub color: String,
    pub sort_order: i32,
    pub visible: bool,
    pub created_at: String,
}

pub struct TrackV {
    pub id: Seq<char>,
    pub name: Seq<char>,
    pub color: Seq<char>,
    pub sort_order: int,
    pub visible: bool,
}

impl View for Track {
    type V = TrackV;

    open spec fn view(&self) -> TrackV {
        TrackV {
            id: self.id@,
            name: self.name@,
            color: self.color@,
            sort_order: self.sort_order as int,
            visible: self.visible,
        }
    }
}

impl DeepView for Track {
    type V = TrackV;

    open spec fn deep_view(&self) -> TrackV {
        self.view()
    }
}

/// The renderable unit.  An unparseable `start_date` excludes the event from
/// layout; an unknown `track_id` lands it on lane zero; both are non-fatal.
pub struct Event {
    pub id: String,
    pub timeline_id: String,
    pub track_id: String,
    pub title: String,
    pub description: String,
    pub start_date: String,
    pub end_date: Option<String>,
    pub event_type: String,
    pub importance: i32,
    pub color: Option<String>,
    pub icon: Option<String>,
    pub image_path: Option<String>,
    pub external_link: Option<String>,
    pub tags: String,
    pub source: Option<String>,
    pub ai_generated: bool,
    pub created_at: String,
    pub updated_at: String,
}

pub struct EventV {
    pub id: Seq<char>,
    pub track_id: Seq<char>,
    pub title: Seq<char>,
    pub description: Seq<char>,
    pub start_date: Seq<char>,
    pub end_date: Option<Seq<char>>,
    pub event_type: Seq<char>,
    pub importance: int,
    pub color: Option<Seq<char>>,
    pub tags: Seq<char>,
    pub source: Option<Seq<char>>,
}

impl View for Event {
    type V = EventV;

    open spec fn view(&self) -> EventV {
        EventV {
            id: self.id@,
            track_id: self.track_id@,
            title: self.title@,
            description: self.description@,
            start_date: self.start_date@,
            end_date: match self.end_date {
                Some(ref d) => Some(d@),
                None => None,
            },
            event_type: self.event_type@,
            importance: self.importance as int,
            color: match self.color {
                Some(ref c) => Some(c@),
                None => None,
            },
            tags: self.tags@,
            source: match self.source {
                Some(ref v) => Some(v@),
                None => None,
            },
        }
    }
}

impl DeepView for Event {
    type V = EventV;

    open spec fn deep_view(&self) -> EventV {
        self.view()
    }
}

/// A directed visual link between two events; drawn only when both endpoints
/// resolved to a placed event.
pub struct Connection {
    pub id: String,
    pub timeline_id: String,
    pub source_event_id: String,
    pub target_event_id: String,
    pub connection_type: String,
    pub label: Option<String>,
    pub color: Option<String>,
    pub created_at: String,
}

pub struct ConnectionV {
    pub source_event_id: Seq<char>,
    pub target_event_id: Seq<char>,
    pub connection_type: Seq<char>,
    pub label: Option<Seq<char>>,
}

impl View for Connection {
    type V = ConnectionV;

    open spec fn view(&self) -> ConnectionV {
        ConnectionV {
            source_event_id: self.source_event_id@,
            target_event_id: self.target_event_id@,
            connection_type: self.connection_type@,
            label: match self.label {
                Some(ref l) => Some(l@),
                None => None,
            },
        }
    }
}

impl DeepView for Connection {
    type V = ConnectionV;

    open spec fn deep_view(&self) -> ConnectionV {
        self.view()
    }
}

// ---------------------------------------------------------------------------
// Host-facing wire shapes (persisted settings, templates, search results,
// and the payloads a frontend sends); the engine itself never reads them.
// ---------------------------------------------------------------------------

/// The interchange shapes of a whole exported timeline: entity lists with
/// identifiers replaced by display names, ready for serialization by the
/// host.
pub struct ExportedTimeline {
    pub version: u32,
    pub title: String,
    pub description: String,
    pub tracks: Vec<ExportedTrack>,
    pub events: Vec<ExportedEvent>,
    pub connections: Vec<ExportedConnection>,
}

pub struct ExportedTrack {
    pub name: String,
    pub color: String,
}

pub struct ExportedTrackV {
    pub name: Seq<char>,
    pub color: Seq<char>,
}

impl DeepView for ExportedTrack {
    type V = ExportedTrackV;

    open spec fn deep_view(&self) -> ExportedTrackV {
        ExportedTrackV { name: self.name@, color: self.color@ }
    }
}

pub struct ExportedEvent {
    pub title: String,
    pub description: String,
    pub start_date: String,
    pub end_date: Option<String>,
    pub event_type: String,
    pub importance: i32,
    pub track_name: String,
    pub color: Option<String>,
    pub tags: String,
    pub source: Option<String>,
}

pub struct ExportedEventV {
    pub title: Seq<char>,
    pub description: Seq<char>,
    pub start_date: Seq<char>,
    pub end_date: Option<Seq<char>>,
    pub event_type: Seq<char>,
    pub importance: int,
    pub track_name: Seq<char>,
    pub color: Option<Seq<char>>,
    pub tags: Seq<char>,
    pub source: Option<Seq<char>>,
}

impl DeepView for ExportedEvent {
    type V = ExportedEventV;

    open spec fn deep_view(&self) -> ExportedEventV {
        ExportedEventV {
            title: self.title@,
            description: self.description@,
            start_date: self.start_date@,
            end_date: match self.end_date {
                Some(ref d) => Some(d@),
                None => None,
            },
            event_type: self.event_type@,
            importance: self.importance as int,
            track_name: self.track_name@,
            color: match self.color {
                Some(ref c) => Some(c@),
                None => None,
            },
            tags: self.tags@,
            source: match self.source {
                Some(ref v) => Some(v@),
                None => None,
            },
        }
    }
}

pub struct ExportedConnection {
    pub source_title: String,
    pub target_title: String,
    pub connection_type: String,
    pub label: Option<String>,
}

pub struct ExportedConnectionV {
    pub source_title: Seq<char>,
    pub target_title: Seq<char>,
    pub connection_type: Seq<char>,
    pub label: Option<Seq<char>>,
}

impl DeepView for ExportedConnection {
    type V = ExportedConnectionV;

    open spec fn deep_view(&self) -> ExportedConnectionV {
        ExportedConnectionV {
            source_title: self.source_title@,
            target_title: self.target_title@,
            connection_type: self.connection_type@,
            label: match self.label {
                Some(ref l) => Some(l@),
                None => None,
            },
        }
    }
}

/// The interchange shapes an import supplies: a whole timeline written with
/// display names, which the host materializes into fresh entities.
pub struct ImportedTimeline {
    pub title: String,
    pub description: Option<String>,
    pub tracks: Vec<ImportedTrack>,
    pub events: Vec<ImportedEvent>,
    pub connections: Option<Vec<ImportedConnection>>,
}

pub struct ImportedTrack {
    pub name: String,
    pub color: Option<String>,
}

pub struct ImportedEvent {
    pub title: String,
    pub description: Option<String>,
    pub start_date: String,
    pub end_date: Option<String>,
    pub event_type: Option<String>,
    pub importance: Option<i32>,
    pub track_name: Option<String>,
    pub tags: Option<String>,
}

pub struct ImportedConnection {
    pub source_title: String,
    pub target_title: String,
    pub connection_type: Option<String>,
    pub label: Option<String>,
}

pub struct Setting {
    pub key: String,
    pub value: String,
}

pub struct Template {
    pub id: String,
    pub name: String,
    pub description: String,
    pub data: String,
    pub is_builtin: bool,
    pub created_at: String,
}

pub struct SearchResult {
    pub event_id: String,
    pub title: String,
    pub snippet: String,
    pub start_date: String,
    pub track_id: String,
}

pub struct CreateTimeline {
    pub title: String,
    pub description: Option<String>,
}

pub struct UpdateTimeline {
    pub id: String,
    pub title: Option<String>,
    pub description: Option<String>,
}

pub struct CreateTrack {
    pub timeline_id: String,
    pub name: String,
    pub color: Option<String>,
}

pub struct UpdateTrack {
    pub id: String,
    pub name: Option<String>,
    pub color: Option<String>,
    pub visible: Option<bool>,
}

pub struct UpdateEvent {
    pub id: String,
    pub track_id: Option<String>,
    pub title: Option<String>,
    pub description: Option<String>,
    pub start_date: Option<String>,
    pub end_date: Option<String>,
    pub event_type: Option<String>,
    pub importance: Option<i32>,
    pub color: Option<String>,
    pub icon: Option<String>,
    pub image_path: Option<String>,
    pub external_link: Option<String>,
    pub tags: Option<String>,
    pub source: Option<String>,
}

pub struct CreateConnection {
    pub timeline_id: String,
    pub source_event_id: String,
    pub target_event_id: String,
    pub connection_type: Option<String>,
    pub label: Option<String>,
    pub color: Option<String>,
}

pub struct UpdateConnection {
    pub id: String,
    pub connection_type: Option<String>,
    pub label: Option<String>,
    pub color: Option<String>,
}

pub struct BulkUpdateInput {
    pub ids: Vec<String>,
    pub track_id: Option<String>,
    pub color: Option<String>,
    pub importance: Option<i32>,
    pub tags: Option<String>,
}

} // verus!
