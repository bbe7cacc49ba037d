//! The buttons of the dashboard's debug tab.

use vstd::prelude::*;

verus! {

/// What a button of the debug tab asks the server for.
#[derive(Debug, Clone, Copy, PartialEq, Eq, Structural)]
pub enum DebugRequest {
    CaptureFrame,
    InsertIdr,
    StartRecording,
    StopRecording,
}

/// Which buttons were clicked in one pass over the tab.
#[derive(Debug, Clone, Copy, PartialEq, Eq, Structural)]
pub struct DebugClicks {
    pub capture_frame: bool,
    pub insert_idr: bool,
    pub start_recording: bool,
    pub stop_recording: bool,
}

/// The request of one pass over the tab: that of the last button, from left to right, that was
/// clicked.
pub fn debug_request(clicks: DebugClicks) -> (res: Option<DebugRequest>)
    ensures
        res == (if clicks.stop_recording {
            Some(DebugRequest::StopRecording)
        } else if clicks.start_recording {
            Some(DebugRequest::StartRecording)
        } else if clicks.insert_idr {
            Some(DebugRequest::InsertIdr)
        } else if clicks.capture_frame {
            Some(DebugRequest::CaptureFrame)
        } else {
            None
        }),
{
    let mut request: Option<DebugRequest> = None;
    if clicks.capture_frame {
        request = Some(DebugRequest::CaptureFrame);
    }
    if clicks.insert_idr {
        request = Some(DebugRequest::InsertIdr);
    }
    if clicks.start_recording {
        request = Some(DebugRequest::StartRecording);
    }
    if clicks.stop_recording {
        request = Some(DebugRequest::StopRecording);
    }
    request
}

} // verus!
