//! Reader for playback-history exports: a zip archive holds large files,
//! each of which is one top-level JSON array of playback records.
//! The scanner in [`json`] finds element boundaries one byte at a time,
//! keeping no more state than the element being assembled, [`record`]
//! decodes one element into a [`record::Stream`] record under a strict
//! schema, and [`archive`] drives the whole pipeline over the entries of a
//! zip archive, handing back one result per element in
//! archive-then-in-array order.

pub mod archive;
pub mod json;
pub mod record;

pub use archive::read_zip;
pub use archive::read_zip_to_end;
pub use archive::ReadZipError;
pub use json::split_json_array;
pub use json::MalformedJson;
pub use record::deserialize;
pub use record::get_track_info;
pub use record::Error;
pub use record::TrackInfo;
pub use record::decode_offline_timestamp;
pub use record::DecodeError;
pub use record::Stream;
