//! What the OCR sidecar is asked and what it reports.

use vstd::prelude::*;

verus! {

/// A recognition request.
pub struct OcrRequest {
    pub image_path: Option<String>,
    pub character_name: Option<String>,
}

/// One recognised dungeon line: its name and the `clears/max` text.
/// (The sidecar also reports a confidence, a float the logic does not read.)
pub struct DungeonCdItem {
    pub name: String,
    pub count: String,
}

/// The sidecar's answer.
pub struct OcrResult {
    pub success: bool,
    pub character_name: Option<String>,
    pub dungeon_cds: Vec<DungeonCdItem>,
    pub error: Option<String>,
}

} // verus!
