//! Requests the robot makes of the client over the data channel.
use vstd::prelude::*;

use crate::constants::WebRTCConnectionMethod;
use crate::json::{Json, JsonValue};
use crate::text::{seq_chunks, split_text_chunks, str_equal, string_from_str, string_views, text_chunks};
use vstd::utf8::is_ascii_chars;

verus! {

broadcast use vstd::string::group_string_axioms;

/// The network status text reported for a status message, if the message is one
/// of the two known ones.
pub open spec fn status_text(status: Seq<char>, method: WebRTCConnectionMethod) -> Option<Seq<char>> {
    if status == "NetworkStatus.ON_4G_CONNECTED"@ {
        Some("4G"@)
    } else if status == "NetworkStatus.ON_WIFI_CONNECTED"@ {
        if method == WebRTCConnectionMethod::Remote {
            Some("STA-T"@)
        } else {
            Some("STA-L"@)
        }
    } else {
        None
    }
}

/// The last network status the robot reported.
pub struct WebRTCDataChannelNetworkStatus {
    network_status: String,
}

impl WebRTCDataChannelNetworkStatus {
    /// The current status text.
    pub closed spec fn status(&self) -> Seq<char> {
        self.network_status@
    }

    /// No status known yet.
    pub fn new() -> (r: Self)
        ensures
            r.status() == Seq::<char>::empty(),
    {
        WebRTCDataChannelNetworkStatus { network_status: String::new() }
    }

    /// The current status text.
    pub fn network_status(&self) -> (r: &str)
        ensures
            r@ == self.status(),
    {
        self.network_status.as_str()
    }

    /// Records a status report: 4G, or Wi-Fi as `STA-T` (remote) or `STA-L` (local).
    /// Other reports leave the status unchanged and give `None`.
    pub fn handle_status(&mut self, status: &str, method: WebRTCConnectionMethod) -> (r: Option<String>)
        ensures
            match status_text(status@, method) {
                Some(t) => final(self).status() == t && r is Some && r->0@ == t,
                None => final(self).status() == old(self).status() && r is None,
            },
    {
        if str_equal(status, "NetworkStatus.ON_4G_CONNECTED") {
            self.network_status = "4G".to_string();
            Some(self.network_status.clone())
        } else if str_equal(status, "NetworkStatus.ON_WIFI_CONNECTED") {
            self.network_status = if method == WebRTCConnectionMethod::Remote {
                "STA-T".to_string()
            } else {
                "STA-L".to_string()
            };
            Some(self.network_status.clone())
        } else {
            None
        }
    }
}

/// Upload state: whether the user cancelled.
pub struct WebRTCDataChannelFileUploader {
    cancel_upload: bool,
}

impl WebRTCDataChannelFileUploader {
    /// Whether the upload was cancelled.
    pub closed spec fn canceled(&self) -> bool {
        self.cancel_upload
    }

    /// A fresh upload.
    pub fn new() -> (r: Self)
        ensures
            !r.canceled(),
    {
        WebRTCDataChannelFileUploader { cancel_upload: false }
    }

    /// Splits base64 text into pieces of `chunk_size` bytes; zero keeps it whole.
    pub fn slice_base64_into_chunks(data: &str, chunk_size: usize) -> (r: Vec<String>)
        ensures
            string_views(r@) == text_chunks(data@, chunk_size as nat),
            chunk_size > 0 && is_ascii_chars(data@) ==> string_views(r@) == seq_chunks(data@, chunk_size as nat),
    {
        split_text_chunks(data, chunk_size)
    }

    /// Cancels the upload.
    pub fn cancel(&mut self)
        ensures
            final(self).canceled(),
    {
        self.cancel_upload = true;
    }

    /// Whether the upload was cancelled.
    pub fn is_canceled(&self) -> (r: bool)
        ensures
            r == self.canceled(),
    {
        self.cancel_upload
    }
}

/// Download state: whether the user cancelled.
pub struct WebRTCDataChannelFileDownloader {
    cancel_download: bool,
}

impl WebRTCDataChannelFileDownloader {
    /// Whether the download was cancelled.
    pub closed spec fn canceled(&self) -> bool {
        self.cancel_download
    }

    /// A fresh download.
    pub fn new() -> (r: Self)
        ensures
            !r.canceled(),
    {
        WebRTCDataChannelFileDownloader { cancel_download: false }
    }

    /// Cancels the download.
    pub fn cancel(&mut self)
        ensures
            final(self).canceled(),
    {
        self.cancel_download = true;
    }

    /// Whether the download was cancelled.
    pub fn is_canceled(&self) -> (r: bool)
        ensures
            r == self.canceled(),
    {
        self.cancel_download
    }
}

/// The state behind the robot's inner requests.
pub struct WebRTCDataChannelRTCInnerReq {
    pub network_status: WebRTCDataChannelNetworkStatus,
    pub file_uploader: WebRTCDataChannelFileUploader,
    pub file_downloader: WebRTCDataChannelFileDownloader,
}

/// The status text of an inner-request message: its `info.status` string.
pub open spec fn inner_req_status(msg: Json) -> Option<Seq<char>> {
    match msg.field("info"@) {
        Some(info) => match info.field("status"@) {
            Some(st) => st.as_str(),
            None => None,
        },
        None => None,
    }
}

impl WebRTCDataChannelRTCInnerReq {
    /// No status, nothing cancelled.
    pub fn new() -> (r: Self)
        ensures
            r.network_status.status() == Seq::<char>::empty(),
            !r.file_uploader.canceled(),
            !r.file_downloader.canceled(),
    {
        WebRTCDataChannelRTCInnerReq {
            network_status: WebRTCDataChannelNetworkStatus::new(),
            file_uploader: WebRTCDataChannelFileUploader::new(),
            file_downloader: WebRTCDataChannelFileDownloader::new(),
        }
    }

    /// Applies the `info.status` of a message to the network status.
    pub fn handle_response(&mut self, msg: &JsonValue, method: WebRTCConnectionMethod) -> (r: Option<String>)
        ensures
            final(self).file_uploader == old(self).file_uploader,
            final(self).file_downloader == old(self).file_downloader,
            match inner_req_status(msg@) {
                Some(st) => match status_text(st, method) {
                    Some(t) => final(self).network_status.status() == t && r is Some && r->0@ == t,
                    None => final(self).network_status.status() == old(self).network_status.status() && r is None,
                },
                None => final(self).network_status.status() == old(self).network_status.status() && r is None,
            },
    {
        let info = match msg.get("info") {
            Some(i) => i,
            None => return None,
        };
        let status_value = match info.get("status") {
            Some(s) => s,
            None => return None,
        };
        let status = match status_value.as_str() {
            Some(s) => s,
            None => return None,
        };
        self.network_status.handle_status(status, method)
    }
}

impl Default for WebRTCDataChannelNetworkStatus {
    /// No status known yet.
    fn default() -> (r: Self)
        ensures
            r.status() == Seq::<char>::empty(),
    {
        WebRTCDataChannelNetworkStatus::new()
    }
}

impl Default for WebRTCDataChannelFileUploader {
    /// Not cancelled.
    fn default() -> (r: Self)
        ensures
            !r.canceled(),
    {
        WebRTCDataChannelFileUploader::new()
    }
}

impl Default for WebRTCDataChannelFileDownloader {
    /// Not cancelled.
    fn default() -> (r: Self)
        ensures
            !r.canceled(),
    {
        WebRTCDataChannelFileDownloader::new()
    }
}

impl Default for WebRTCDataChannelRTCInnerReq {
    /// No status, nothing cancelled.
    fn default() -> (r: Self)
        ensures
            r.network_status.status() == Seq::<char>::empty(),
            !r.file_uploader.canceled(),
            !r.file_downloader.canceled(),
    {
        WebRTCDataChannelRTCInnerReq::new()
    }
}

} // verus!
