//! The drag data provider: what a drag source answers when the desktop shell
//! asks which data it has and in which form.
//!
//! The provider has one thing to offer: the file list, handed over in a block
//! of shared memory that the asker owns from then on. Every other pair of
//! format and medium is not supported, and the operations that a richer data
//! source would have are not implemented.

use vstd::prelude::*;
use crate::file_list::{encode, encoding, path_views, EncodeError};

verus! {

/// Status of an operation that succeeded.
pub const S_OK: i32 = 0;

/// Status of an operation that the provider does not implement.
pub const E_NOTIMPL: i32 = -2147467263;

/// Status of a request for a format or medium that the provider lacks.
pub const DV_E_FORMATETC: i32 = -2147221404;

/// Status saying that a format is its own canonical form.
pub const DATA_S_SAMEFORMATETC: i32 = 0x0004_0130;

/// The clipboard format of a file list.
pub const CF_HDROP: u16 = 15;

/// The medium flag of a block of shared memory.
pub const TYMED_HGLOBAL: u32 = 1;

/// The direction of an enumeration of the formats that can be fetched.
pub const DATADIR_GET: u32 = 1;

/// The aspect of data that shows an object's content.
pub const DVASPECT_CONTENT: u32 = 1;

/// The part index that stands for the whole of an aspect.
pub const WHOLE_ASPECT: i32 = -1;

/// A format together with the media in which the asker would take it.
#[derive(Debug, Clone, Copy, PartialEq, Eq, Structural)]
pub struct FormatRequest {
    /// The clipboard format.
    pub format: u16,
    /// The acceptable media, one flag each.
    pub medium: u32,
}

/// One entry of the provider's list of formats.
#[derive(Debug, Clone, Copy, PartialEq, Eq, Structural)]
pub struct FormatOffer {
    /// The clipboard format.
    pub format: u16,
    /// The aspect of the data.
    pub aspect: u32,
    /// The part of the aspect; -1 for all of it.
    pub index: i32,
    /// The medium in which the data is handed over.
    pub medium: u32,
}

/// A question of the desktop shell to the data provider.
#[derive(Debug, Clone, Copy, PartialEq, Eq, Structural)]
pub enum DataQuery {
    /// Hand the data over in a medium that the provider allocates.
    GetData(FormatRequest),
    /// Write the data into a medium that the asker allocated.
    GetDataHere,
    /// Would `GetData` succeed for this request?
    QueryGetData(FormatRequest),
    /// Which format gives the same data as the one at hand?
    GetCanonicalFormat,
    /// Take this data.
    SetData,
    /// List the formats for this direction.
    EnumFormats { direction: u32 },
    /// Tell a sink when the data changes.
    Advise,
    /// Stop telling a sink.
    Unadvise,
    /// List the sinks.
    EnumAdvise,
}

/// The provider's answer to a question.
#[derive(Debug, Clone, PartialEq, Eq)]
pub enum DataAnswer {
    /// The payload, freshly encoded. It belongs to the asker from now on.
    Payload(Vec<u8>),
    /// The data could be handed over.
    Available,
    /// The provider lacks the format or the medium.
    NotSupported,
    /// The format is its own canonical form.
    AlreadyCanonical,
    /// The formats that the provider has.
    Formats(Vec<FormatOffer>),
    /// The provider does not implement the operation.
    NotImplemented,
    /// The session's paths have no payload.
    Rejected(EncodeError),
}

/// Whether the provider has the requested format in one of the requested
/// media: the file list, in a block of shared memory.
pub open spec fn supported(request: FormatRequest) -> bool {
    request.format == CF_HDROP && (request.medium & TYMED_HGLOBAL) != 0
}

/// The one format that the provider has.
pub open spec fn file_list_offer() -> FormatOffer {
    FormatOffer {
        format: CF_HDROP,
        aspect: DVASPECT_CONTENT,
        index: WHOLE_ASPECT,
        medium: TYMED_HGLOBAL,
    }
}

/// Whether `answer` is what a provider with these paths answers to `query`.
pub open spec fn answers(paths: Seq<Seq<u16>>, query: DataQuery, answer: DataAnswer) -> bool {
    match query {
        DataQuery::GetData(request) => {
            if !supported(request) {
                answer == DataAnswer::NotSupported
            } else {
                match encoding(paths) {
                    Ok(bytes) => answer matches DataAnswer::Payload(payload) && payload@ == bytes,
                    Err(error) => answer == DataAnswer::Rejected(error),
                }
            }
        },
        DataQuery::QueryGetData(request) => {
            if supported(request) {
                answer == DataAnswer::Available
            } else {
                answer == DataAnswer::NotSupported
            }
        },
        DataQuery::GetCanonicalFormat => answer == DataAnswer::AlreadyCanonical,
        DataQuery::EnumFormats { direction } => {
            if direction == DATADIR_GET {
                answer matches DataAnswer::Formats(offers) && offers@ == seq![file_list_offer()]
            } else {
                answer == DataAnswer::NotImplemented
            }
        },
        DataQuery::GetDataHere | DataQuery::SetData | DataQuery::Advise | DataQuery::Unadvise
        | DataQuery::EnumAdvise => answer == DataAnswer::NotImplemented,
    }
}

/// The status that the desktop shell is given with an answer.
pub open spec fn status_of(answer: DataAnswer) -> i32 {
    match answer {
        DataAnswer::Payload(_) | DataAnswer::Available | DataAnswer::Formats(_) => S_OK,
        DataAnswer::NotSupported => DV_E_FORMATETC,
        DataAnswer::AlreadyCanonical => DATA_S_SAMEFORMATETC,
        DataAnswer::NotImplemented | DataAnswer::Rejected(_) => E_NOTIMPL,
    }
}

/// Whether the provider has the requested format in one of the requested
/// media.
pub fn supports(request: FormatRequest) -> (yes: bool)
    ensures
        yes == supported(request),
{
    request.format == CF_HDROP && (request.medium & TYMED_HGLOBAL) != 0
}

/// Answers a question of the desktop shell about the paths of a session.
///
/// The payload is encoded anew for each request and for that asker alone.
pub fn respond(paths: &Vec<Vec<u16>>, query: DataQuery) -> (answer: DataAnswer)
    ensures
        answers(path_views(paths@), query, answer),
{
    match query {
        DataQuery::GetData(request) => {
            if !supports(request) {
                DataAnswer::NotSupported
            } else {
                match encode(paths) {
                    Ok(payload) => DataAnswer::Payload(payload),
                    Err(error) => DataAnswer::Rejected(error),
                }
            }
        },
        DataQuery::QueryGetData(request) => {
            if supports(request) {
                DataAnswer::Available
            } else {
                DataAnswer::NotSupported
            }
        },
        DataQuery::GetCanonicalFormat => DataAnswer::AlreadyCanonical,
        DataQuery::EnumFormats { direction } => {
            if direction == DATADIR_GET {
                let mut offers: Vec<FormatOffer> = Vec::with_capacity(1);
                offers.push(
                    FormatOffer {
                        format: CF_HDROP,
                        aspect: DVASPECT_CONTENT,
                        index: WHOLE_ASPECT,
                        medium: TYMED_HGLOBAL,
                    },
                );
                assert(offers@ =~= seq![file_list_offer()]);
                DataAnswer::Formats(offers)
            } else {
                DataAnswer::NotImplemented
            }
        },
        DataQuery::GetDataHere => DataAnswer::NotImplemented,
        DataQuery::SetData => DataAnswer::NotImplemented,
        DataQuery::Advise => DataAnswer::NotImplemented,
        DataQuery::Unadvise => DataAnswer::NotImplemented,
        DataQuery::EnumAdvise => DataAnswer::NotImplemented,
    }
}

/// The status that the desktop shell is given with an answer.
pub fn status(answer: &DataAnswer) -> (code: i32)
    ensures
        code == status_of(*answer),
{
    match answer {
        DataAnswer::Payload(_) => S_OK,
        DataAnswer::Available => S_OK,
        DataAnswer::Formats(_) => S_OK,
        DataAnswer::NotSupported => DV_E_FORMATETC,
        DataAnswer::AlreadyCanonical => DATA_S_SAMEFORMATETC,
        DataAnswer::NotImplemented => E_NOTIMPL,
        DataAnswer::Rejected(_) => E_NOTIMPL,
    }
}

} // verus!
