//! The records the library passes around, with their mathematical views.

use vstd::prelude::*;

use crate::model::PayloadModel;

verus! {

/// One captured clipboard payload: a format identifier, the resolved format
/// name, and the raw bytes read for that format.
pub struct ClipboardPayload {
    pub format_id: u32,
    pub format_name: String,
    pub data: Vec<u8>,
}

impl View for ClipboardPayload {
    type V = PayloadModel;

    open spec fn view(&self) -> PayloadModel {
        PayloadModel {
            format_id: self.format_id,
            format_name: self.format_name@,
            data: self.data@,
        }
    }
}

/// One normalized capture, ready to be persisted: the capture context, the
/// content hash derived from the first payload's bytes, and every payload
/// read from the clipboard in enumeration order.
pub struct ClipboardMsg {
    pub owner: String,
    pub fg_title: String,
    pub exe_path: String,
    pub hash: String,
    pub payloads: Vec<ClipboardPayload>,
}

/// One row of a history page: stored context columns plus the preview
/// derived at read time (never persisted). `is_image` says the record had
/// no plain-text payload, so the preview is the fixed placeholder.
pub struct ClipSummary {
    pub timestamp: String,
    pub owner: String,
    pub fg_title: String,
    pub preview: String,
    pub hash: String,
    pub is_image: bool,
}

/// Why a store operation failed.
#[derive(Debug, Clone, Copy, PartialEq, Eq, Structural)]
pub enum StoreError {
    /// The underlying store reported an error; the operation rolled back.
    Storage,
    /// The record a copy was asked to read does not exist in its source.
    NotFound,
}

/// The view of a payload vector: each payload's model, in the same order.
pub open spec fn payload_views(s: Seq<ClipboardPayload>) -> Seq<PayloadModel> {
    s.map_values(|p: ClipboardPayload| p@)
}

} // verus!
