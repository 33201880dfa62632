//! Streams, their settings, and the configuration of the service.

use crate::text::{duplicate_texts, texts};
use vstd::prelude::*;
use vstd::string::StringExecFns;

verus! {

/// The kind of data that a stream holds. Log streams are treated apart; every other kind is known
/// by its name alone.
#[derive(Debug)]
pub enum StreamType {
    Logs,
    Other(String),
}

/// The name of a kind of stream.
pub open spec fn kind_name(t: StreamType) -> Seq<char> {
    match t {
        StreamType::Logs => "logs"@,
        StreamType::Other(name) => name@,
    }
}

impl StreamType {
    /// The name of the kind.
    pub fn as_str(&self) -> (r: &str)
        ensures
            r@ == kind_name(*self),
    {
        match self {
            StreamType::Logs => "logs",
            StreamType::Other(name) => name.as_str(),
        }
    }

    /// Whether streams of this kind hold logs.
    pub fn is_logs(&self) -> (r: bool)
        ensures
            r == (*self is Logs),
    {
        match self {
            StreamType::Logs => true,
            StreamType::Other(_) => false,
        }
    }
}

/// A stream of an organization.
#[derive(Debug)]
pub struct StreamId {
    pub org_id: String,
    pub stream_type: StreamType,
    pub stream_name: String,
}

/// The key of a stream in caches that all organizations share, and its name in messages.
pub open spec fn stream_path(stream: StreamId) -> Seq<char> {
    stream.org_id@ + "/"@ + kind_name(stream.stream_type) + "/"@ + stream.stream_name@
}

impl StreamId {
    /// Organization, kind and name, with slashes between them.
    pub fn path(&self) -> (r: String)
        ensures
            r@ == stream_path(*self),
    {
        let mut path = self.org_id.clone();
        path.append("/");
        path.append(self.stream_type.as_str());
        path.append("/");
        path.append(self.stream_name.as_str());
        path
    }
}

impl Clone for StreamType {
    fn clone(&self) -> (r: Self)
        ensures
            r == *self,
    {
        match self {
            StreamType::Logs => StreamType::Logs,
            StreamType::Other(name) => StreamType::Other(name.clone()),
        }
    }
}

impl Clone for StreamId {
    fn clone(&self) -> (r: Self)
        ensures
            r == *self,
    {
        StreamId {
            org_id: self.org_id.clone(),
            stream_type: self.stream_type.clone(),
            stream_name: self.stream_name.clone(),
        }
    }
}

/// What users set for a stream.
#[derive(Debug)]
pub struct StreamSettings {
    /// The columns to which the stream is narrowed, where there are any.
    pub defined_schema_fields: Option<Vec<String>>,
    /// Whether each record is stored as it came, besides its columns.
    pub store_original_data: bool,
    /// The other settings as encoded text, which nothing here reads. Empty where all of them are
    /// at their defaults.
    pub other: String,
}

/// What [`StreamSettings`] are.
pub struct StreamSettingsView {
    pub defined_schema_fields: Option<Seq<Seq<char>>>,
    pub store_original_data: bool,
    pub other: Seq<char>,
}

impl View for StreamSettings {
    type V = StreamSettingsView;

    open spec fn view(&self) -> StreamSettingsView {
        StreamSettingsView {
            defined_schema_fields: match self.defined_schema_fields {
                Some(names) => Some(texts(names@)),
                None => None,
            },
            store_original_data: self.store_original_data,
            other: self.other@,
        }
    }
}

/// What optional settings are.
pub open spec fn settings_view(settings: Option<StreamSettings>) -> Option<StreamSettingsView> {
    match settings {
        Some(settings) => Some(settings@),
        None => None,
    }
}

/// The settings of a stream for which nothing was set.
pub open spec fn default_settings() -> StreamSettingsView {
    StreamSettingsView {
        defined_schema_fields: None,
        store_original_data: false,
        other: Seq::empty(),
    }
}

/// The columns that the settings define: none where they define nothing.
pub open spec fn defined_in(settings: StreamSettingsView) -> Seq<Seq<char>> {
    match settings.defined_schema_fields {
        Some(names) => names,
        None => Seq::empty(),
    }
}

/// The settings themselves, or the defaults where there are none.
pub open spec fn settings_or_default(settings: Option<StreamSettingsView>) -> StreamSettingsView {
    match settings {
        Some(settings) => settings,
        None => default_settings(),
    }
}

impl Default for StreamSettings {
    fn default() -> (r: Self)
        ensures
            r@ == default_settings(),
    {
        StreamSettings {
            defined_schema_fields: None,
            store_original_data: false,
            other: String::new(),
        }
    }
}

impl Clone for StreamSettings {
    fn clone(&self) -> (r: Self)
        ensures
            r@ == self@,
    {
        StreamSettings {
            defined_schema_fields: match &self.defined_schema_fields {
                Some(names) => Some(duplicate_texts(names)),
                None => None,
            },
            store_original_data: self.store_original_data,
            other: self.other.clone(),
        }
    }
}

impl StreamSettings {
    /// The columns that the settings define.
    pub fn defined_fields(&self) -> (r: Vec<String>)
        ensures
            texts(r@) == defined_in(self@),
    {
        match &self.defined_schema_fields {
            Some(names) => duplicate_texts(names),
            None => {
                let none: Vec<String> = Vec::new();
                assert(texts(none@) =~= Seq::empty());
                none
            },
        }
    }
}

/// The part of the service's configuration that schemas depend on.
#[derive(Debug)]
pub struct SchemaConfig {
    /// Records of a stream that has columns are not held against its schema.
    pub skip_schema_validation: bool,
    /// A column may take on a wider type.
    pub widening_schema_evolution: bool,
    /// Streams may be narrowed to the columns that their settings define.
    pub allow_user_defined_schemas: bool,
    /// The column that holds the time of a record.
    pub column_timestamp: String,
    /// The column that holds all text of a record.
    pub column_all: String,
    /// The column that holds the number of a record whose original is stored.
    pub id_column: String,
    /// The column that holds the original of a record.
    pub original_column: String,
    /// The key under which a schema holds the metadata of a metric.
    pub metadata_label: String,
    /// The columns that full text search looks into.
    pub full_text_search_fields: Vec<String>,
    /// The number of columns that a record may have.
    pub req_cols_per_record_limit: usize,
    /// The number of columns beyond which a log stream is narrowed on its own; zero for never.
    pub udschema_max_fields: usize,
    /// How often an update of a stored schema is tried.
    pub meta_transaction_retries: usize,
}

} // verus!
