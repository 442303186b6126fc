//! The size cap of blocking HTTPS downloads and how a failed one is reported.
use vstd::prelude::*;
use crate::text;

verus! {

/// Why a download failed.
#[derive(Debug, Clone)]
pub enum DownloadError {
    /// The transport's or the server's error text.
    Failed(String),
    TooLarge,
}

pub enum DownloadErrorView {
    Failed(Seq<char>),
    TooLarge,
}

impl View for DownloadError {
    type V = DownloadErrorView;

    open spec fn view(&self) -> DownloadErrorView {
        match self {
            DownloadError::Failed(s) => DownloadErrorView::Failed(s@),
            DownloadError::TooLarge => DownloadErrorView::TooLarge,
        }
    }
}

impl DownloadError {
    /// The text the failure is reported with.
    pub fn message(&self) -> (r: String)
        ensures
            r@ == match self@ {
                DownloadErrorView::Failed(s) => "download failed: "@ + s,
                DownloadErrorView::TooLarge => "response exceeds size cap"@,
            },
    {
        match self {
            DownloadError::Failed(s) => text::cat("download failed: ", s.as_str()),
            DownloadError::TooLarge => "response exceeds size cap".to_owned(),
        }
    }
}

/// `current.saturating_add(extra) > max`: appending `extra` bytes to
/// `current` would pass the cap.
pub open spec fn over_cap(current: nat, extra: nat, max: nat) -> bool {
    let sum = current + extra;
    let sat = if sum > usize::MAX { usize::MAX as nat } else { sum };
    sat > max
}

/// Appends `data` to `buf` unless that would pass `max` bytes; says whether
/// it did.
pub fn capped_append(buf: &mut Vec<u8>, data: &[u8], max: usize) -> (r: bool)
    ensures
        r == !over_cap(old(buf)@.len(), data@.len(), max as nat),
        r ==> final(buf)@ == old(buf)@ + data@,
        !r ==> final(buf)@ == old(buf)@,
{
    if buf.len().saturating_add(data.len()) > max {
        return false;
    }
    let ghost before = buf@;
    let mut k: usize = 0;
    while k < data.len()
        invariant
            k <= data@.len(),
            buf@ == before + data@.take(k as int),
        decreases data@.len() - k,
    {
        buf.push(data[k]);
        assert(data@.take(k + 1) =~= data@.take(k as int).push(data@[k as int]));
        k = k + 1;
    }
    assert(data@.take(data@.len() as int) =~= data@);
    true
}

/// The declared length of a response against the cap: a length above it is
/// refused before reading.
pub fn check_content_length(len: Option<u64>, max: usize) -> (r: Result<(), DownloadError>)
    ensures
        r is Err <==> (len is Some && len->0 > max),
        r is Err ==> r->Err_0@ == DownloadErrorView::TooLarge,
{
    match len {
        Some(n) => {
            if n > max as u64 {
                Err(DownloadError::TooLarge)
            } else {
                Ok(())
            }
        },
        None => Ok(()),
    }
}

} // verus!
