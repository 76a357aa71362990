//! Records describing the media assets held by the source catalog.
//!
//! These are plain data: one record per remote file, produced when the
//! catalog is listed and never mutated afterwards. Declared sizes are held
//! in whole bytes.

use vstd::prelude::*;

verus! {

/// One pre-rendered variant of an asset (a thumbnail or a small rendition).
#[derive(Debug)]
pub struct Format {
    pub ext: String,
    pub url: String,
    pub hash: String,
    pub mime: String,
    pub name: String,
    pub path: String,
    /// Declared size in bytes.
    pub size: u64,
    pub width: i32,
    pub height: i32,
}

/// The nested variants carried by an asset record.
#[derive(Debug)]
pub struct Formats {
    pub small: Format,
    pub thumbnail: Format,
}

/// One asset tracked by the source catalog: identifier, display name,
/// relative access path, declared size, MIME type, dimensions, and the
/// nested format variants.
#[derive(Debug)]
pub struct Image {
    pub id: i32,
    pub name: String,
    pub alternative_text: Option<String>,
    pub caption: Option<String>,
    pub width: i32,
    pub height: i32,
    pub formats: Formats,
    pub hash: String,
    pub ext: String,
    pub mime: String,
    /// Declared size in bytes.
    pub size: u64,
    /// Access path relative to the configured base location.
    pub url: String,
    pub preview_url: Option<String>,
    pub provider: String,
    pub provider_metadata: Option<String>,
    pub created_at: String,
    pub updated_at: String,
    pub blurhash: String,
    pub placeholder: String,
}

} // verus!
