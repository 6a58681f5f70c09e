//! Plain data carried by a user interface around the pipeline: the
//! active tab, loaded records, log data, and extraction settings.
use vstd::prelude::*;

use crate::log::parse::LogData;
use crate::tap::legacy::TapEntry;

verus! {

/// The main tabs a user interface offers.
#[derive(Debug, Clone, Copy, PartialEq, Eq, Structural)]
pub enum MainTab {
    Input,
    Contents,
    Extraction,
    Files,
    Summary,
    Log,
}

/// Loaded records and the selection state over them.
#[derive(Debug, Clone, PartialEq, Eq)]
pub struct TapState {
    pub entries: Vec<TapEntry>,
    pub selected_entry: Option<usize>,
}

impl Default for TapState {
    /// No records loaded, nothing selected.
    fn default() -> (r: TapState)
        ensures
            r.entries@.len() == 0,
            r.selected_entry is None,
    {
        TapState { entries: Vec::new(), selected_entry: None }
    }
}

/// Loaded log data and whether it has been correlated.
#[derive(Debug, Clone, PartialEq, Eq)]
pub struct LogState {
    pub data: Option<LogData>,
    pub correlated: bool,
}

impl Default for LogState {
    /// No log loaded.
    fn default() -> (r: LogState)
        ensures
            r.data is None,
            !r.correlated,
    {
        LogState { data: None, correlated: false }
    }
}

/// Extraction settings: the chosen output directory, a status line, and
/// the bytes opened in a viewer.
#[derive(Debug, Clone, PartialEq, Eq)]
pub struct ExtractionState {
    pub output_dir: Option<String>,
    pub status: String,
    pub hex_view: Option<(String, Vec<u8>)>,
}

impl Default for ExtractionState {
    /// No output directory chosen, an empty status, no viewer open.
    fn default() -> (r: ExtractionState)
        ensures
            r.output_dir is None,
            r.status@.len() == 0,
            r.hex_view is None,
    {
        ExtractionState { output_dir: None, status: String::new(), hex_view: None }
    }
}

} // verus!
