//! Making a requested path list ready for transfer.
//!
//! A path is a run of UTF-16 code units. Whether a path is absolute, what the
//! file system resolves a relative path to, and whether a file exists are
//! questions for the platform: the caller asks them and records the answers in
//! a `PathProbe`. What is done with the answers is decided here.

use vstd::prelude::*;
use crate::file_list::{
    decoding, encoding, lemma_decode_payload, no_empty_path, path_views, DecodeError,
};

verus! {

/// The code unit of a backslash.
pub const BACKSLASH: u16 = 0x5C;

/// The code unit of a question mark.
pub const QUESTION_MARK: u16 = 0x3F;

/// Number of code units of the marker for paths of extended length: two
/// backslashes, a question mark and a backslash.
pub const MARKER_LEN: usize = 4;

/// One requested path and what the platform reports of it.
#[derive(Debug, Clone, PartialEq, Eq)]
pub struct PathProbe {
    /// The path as it was requested.
    pub path: Vec<u16>,
    /// Whether the requested path is absolute.
    pub absolute: bool,
    /// The absolute path that the file system resolved a relative path to;
    /// `None` where it could not resolve the path, or was not asked.
    pub canonical: Option<Vec<u16>>,
    /// Whether a file stood at the path's transfer form when it was checked.
    /// Nothing keeps the file there afterwards.
    pub exists: bool,
}

/// Whether a path starts with the marker for paths of extended length.
pub open spec fn has_marker(path: Seq<u16>) -> bool {
    &&& path.len() >= MARKER_LEN
    &&& path[0] == BACKSLASH
    &&& path[1] == BACKSLASH
    &&& path[2] == QUESTION_MARK
    &&& path[3] == BACKSLASH
}

/// A path without the marker for paths of extended length, which readers of a
/// transferred path may not understand.
pub open spec fn strip_marker(path: Seq<u16>) -> Seq<u16> {
    if has_marker(path) {
        path.skip(MARKER_LEN as int)
    } else {
        path
    }
}

impl PathProbe {
    /// The absolute form of the path: the path itself where it is absolute,
    /// else what the file system resolved it to, if anything.
    pub open spec fn absolute_form(self) -> Option<Seq<u16>> {
        if self.absolute {
            Some(self.path@)
        } else {
            match self.canonical {
                Some(resolved) => Some(resolved@),
                None => None,
            }
        }
    }

    /// The form in which the path is transferred: its absolute form without
    /// the marker for paths of extended length.
    pub open spec fn transfer_form(self) -> Option<Seq<u16>> {
        match self.absolute_form() {
            Some(path) => Some(strip_marker(path)),
            None => None,
        }
    }

    /// Whether the path can be transferred: it has an absolute form, its
    /// transfer form is not empty, and a file stood there. No file stands at
    /// an empty path, whatever is reported of it.
    pub open spec fn transferable(self) -> bool {
        &&& self.transfer_form() is Some
        &&& self.transfer_form()->0.len() > 0
        &&& self.exists
    }
}

/// The transfer-ready list of a request: the transfer form of each path that
/// can be transferred, in the order of the request. Paths that cannot be
/// transferred are left out without a word.
pub open spec fn normalized(probes: Seq<PathProbe>) -> Seq<Seq<u16>>
    decreases probes.len(),
{
    if probes.len() == 0 {
        Seq::empty()
    } else if probes.last().transferable() {
        normalized(probes.drop_last()).push(probes.last().transfer_form()->0)
    } else {
        normalized(probes.drop_last())
    }
}

/// No entry of a transfer-ready list is empty.
pub proof fn lemma_normalized_has_no_empty_path(probes: Seq<PathProbe>)
    ensures
        no_empty_path(normalized(probes)),
    decreases probes.len(),
{
    if probes.len() > 0 {
        lemma_normalized_has_no_empty_path(probes.drop_last());
    }
}

/// Decoding the payload of a transfer-ready list gives the list back: every
/// path, in order, once. A list has a payload unless one of its paths holds
/// a zero code unit or the payload would be too long.
pub proof fn lemma_normalized_round_trip(probes: Seq<PathProbe>)
    requires
        encoding(normalized(probes)) is Ok,
    ensures
        decoding(encoding(normalized(probes))->Ok_0) == Ok::<Seq<Seq<u16>>, DecodeError>(
            normalized(probes),
        ),
{
    lemma_normalized_has_no_empty_path(probes);
    lemma_decode_payload(normalized(probes));
}

/// Whether `picks` names, for each entry of the transfer-ready list of
/// `probes`, the requested path that it came from: the picked paths are in
/// the order of the request, each can be transferred, each entry is the
/// transfer form of its pick, and no path that can be transferred is passed
/// over.
pub open spec fn picks_of(probes: Seq<PathProbe>, picks: Seq<int>) -> bool {
    &&& picks.len() == normalized(probes).len()
    &&& forall|k: int| 0 <= k < picks.len() ==> 0 <= #[trigger] picks[k] < probes.len()
    &&& forall|j: int, k: int| 0 <= j < k < picks.len() ==> picks[j] < picks[k]
    &&& forall|k: int|
        0 <= k < picks.len() ==> probes[#[trigger] picks[k]].transferable() && normalized(
            probes,
        )[k] == probes[picks[k]].transfer_form()->0
    &&& forall|i: int|
        0 <= i < probes.len() && (#[trigger] probes[i]).transferable() ==> picks.contains(i)
}

/// The transfer-ready list is an order-preserving selection of the request:
/// its entries are the transfer forms of exactly the paths that have an
/// absolute form, are not empty in their transfer form and exist, in the
/// order in which they were requested. A request with such a path has a list
/// that is not empty.
pub proof fn lemma_normalized_selects(probes: Seq<PathProbe>) -> (picks: Seq<int>)
    ensures
        picks_of(probes, picks),
        (exists|i: int| 0 <= i < probes.len() && (#[trigger] probes[i]).transferable())
            <==> normalized(probes).len() > 0,
    decreases probes.len(),
{
    if probes.len() == 0 {
        Seq::empty()
    } else {
        let front = probes.drop_last();
        let last = probes.len() - 1;
        let front_picks = lemma_normalized_selects(front);
        assert forall|i: int| 0 <= i < front.len() implies front[i] == probes[i] by {}
        if probes.last().transferable() {
            let picks = front_picks.push(last);
            assert forall|i: int|
                0 <= i < probes.len() && (#[trigger] probes[i]).transferable() implies picks.contains(
                i,
            ) by {
                if i < last {
                    assert(front[i].transferable());
                    let k = choose|k: int| 0 <= k < front_picks.len() && front_picks[k] == i;
                    assert(picks[k] == i);
                } else {
                    assert(picks[picks.len() - 1] == i);
                }
            }
            assert(probes[last].transferable());
            picks
        } else {
            assert forall|i: int|
                0 <= i < probes.len() && (#[trigger] probes[i]).transferable() implies front_picks.contains(
                i,
            ) by {
                assert(front[i].transferable());
            }
            if normalized(probes).len() > 0 {
                let i = front_picks[0];
                assert(probes[i].transferable());
            }
            front_picks
        }
    }
}

/// The code units of `path` from index `from` on.
fn units_from(path: &Vec<u16>, from: usize) -> (units: Vec<u16>)
    requires
        from <= path.len(),
    ensures
        units@ == path@.skip(from as int),
{
    let mut units: Vec<u16> = Vec::with_capacity(path.len() - from);
    let mut k: usize = from;
    while k < path.len()
        invariant
            from <= k <= path.len(),
            units@ == path@.subrange(from as int, k as int),
        decreases path.len() - k,
    {
        units.push(path[k]);
        assert(units@ =~= path@.subrange(from as int, k + 1));
        k += 1;
    }
    assert(units@ =~= path@.skip(from as int));
    units
}

/// Whether a path starts with the marker for paths of extended length.
pub fn starts_with_marker(path: &Vec<u16>) -> (yes: bool)
    ensures
        yes == has_marker(path@),
{
    path.len() >= MARKER_LEN && path[0] == BACKSLASH && path[1] == BACKSLASH && path[2]
        == QUESTION_MARK && path[3] == BACKSLASH
}

/// The form in which a probed path is transferred, or `None` where it has no
/// absolute form. The caller checks this path for existence.
pub fn transfer_form(probe: &PathProbe) -> (form: Option<Vec<u16>>)
    ensures
        match form {
            Some(path) => probe.transfer_form() == Some(path@),
            None => probe.transfer_form() is None,
        },
{
    if probe.absolute {
        Some(without_marker(&probe.path))
    } else {
        match &probe.canonical {
            Some(resolved) => Some(without_marker(resolved)),
            None => None,
        }
    }
}

fn without_marker(path: &Vec<u16>) -> (stripped: Vec<u16>)
    ensures
        stripped@ == strip_marker(path@),
{
    if starts_with_marker(path) {
        units_from(path, MARKER_LEN)
    } else {
        let copy = units_from(path, 0);
        assert(path@.skip(0) =~= path@);
        copy
    }
}

/// Makes a request ready for transfer.
///
/// Each path is taken in its absolute form, without the marker for paths of
/// extended length. A path without an absolute form, one whose transfer form
/// is empty, and one at which no file stood are left out. What remains keeps the order of the request. An empty
/// result means that there is nothing to transfer.
pub fn normalize(probes: &Vec<PathProbe>) -> (paths: Vec<Vec<u16>>)
    ensures
        path_views(paths@) == normalized(probes@),
{
    let mut paths: Vec<Vec<u16>> = Vec::new();
    let mut i: usize = 0;
    assert(probes@.take(0) =~= Seq::<PathProbe>::empty());
    while i < probes.len()
        invariant
            i <= probes.len(),
            path_views(paths@) == normalized(probes@.take(i as int)),
        decreases probes.len() - i,
    {
        let probe = &probes[i];
        let ghost before = path_views(paths@);
        proof {
            assert(probes@.take(i + 1).drop_last() =~= probes@.take(i as int));
            assert(probes@.take(i + 1).last() == probes@[i as int]);
        }
        if probe.exists {
            match transfer_form(probe) {
                Some(path) => {
                    if path.len() > 0 {
                        let ghost form = path@;
                        paths.push(path);
                        assert(path_views(paths@) =~= before.push(form));
                    }
                },
                None => {},
            }
        }
        i += 1;
    }
    assert(probes@.take(probes.len() as int) =~= probes@);
    paths
}

} // verus!
