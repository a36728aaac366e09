//! The binary file-list payload shared by drag-and-drop and the clipboard.
//!
//! A payload is a fixed header followed by a name table. The header holds, as
//! little-endian 32-bit fields, the offset of the name table (always the size
//! of the header), the two coordinates of the anchor point (always zero), the
//! flag saying that the anchor is in non-client coordinates (always clear) and
//! the flag saying that names are wide (always set). The name table holds each
//! path as UTF-16 code units, low byte first, closed by a zero unit; one more
//! zero unit closes the list.

use vstd::prelude::*;

verus! {

/// Size in bytes of the header, and thereby the offset of the name table.
pub const HEADER_SIZE: usize = 20;

/// Why a path list has no payload.
#[derive(Debug, Clone, Copy, PartialEq, Eq, Structural)]
pub enum EncodeError {
    /// The path at this index holds a zero code unit, which a reader of the
    /// name table would take for the end of the path.
    EmbeddedNul { path: usize },
    /// The payload would be longer than any buffer can be.
    TooLarge,
}

/// Why a run of bytes is no payload.
#[derive(Debug, Clone, Copy, PartialEq, Eq, Structural)]
pub enum DecodeError {
    /// The bytes end before the header does.
    Truncated,
    /// The first bytes are not the header that every payload starts with.
    BadHeader,
    /// The bytes end before the unit that closes the list.
    Unterminated,
}

/// The four bytes of a 32-bit header field, low byte first.
pub open spec fn field_bytes(value: u32) -> Seq<u8> {
    seq![
        (value % 256) as u8,
        (value / 256 % 256) as u8,
        (value / 65536 % 256) as u8,
        (value / 16777216) as u8,
    ]
}

/// The two bytes of a code unit, low byte first.
pub open spec fn unit_bytes(unit: u16) -> Seq<u8> {
    seq![(unit % 256) as u8, (unit / 256) as u8]
}

/// The bytes of a run of code units.
pub open spec fn units_bytes(units: Seq<u16>) -> Seq<u8>
    decreases units.len(),
{
    if units.len() == 0 {
        Seq::empty()
    } else {
        units_bytes(units.drop_last()) + unit_bytes(units.last())
    }
}

/// The code units of the name table without the unit that closes the list:
/// each path followed by a zero unit.
pub open spec fn name_entries(paths: Seq<Seq<u16>>) -> Seq<u16>
    decreases paths.len(),
{
    if paths.len() == 0 {
        Seq::empty()
    } else {
        name_entries(paths.drop_last()) + paths.last().push(0u16)
    }
}

/// The code units of the whole name table.
pub open spec fn name_table(paths: Seq<Seq<u16>>) -> Seq<u16> {
    name_entries(paths).push(0u16)
}

/// The header every payload starts with.
pub open spec fn header_bytes() -> Seq<u8> {
    field_bytes(HEADER_SIZE as u32) + field_bytes(0) + field_bytes(0) + field_bytes(0)
        + field_bytes(1)
}

/// The payload of a path list.
pub open spec fn payload_bytes(paths: Seq<Seq<u16>>) -> Seq<u8> {
    header_bytes() + units_bytes(name_table(paths))
}

/// Number of code units that the paths and their terminators take.
pub open spec fn entries_len(paths: Seq<Seq<u16>>) -> nat
    decreases paths.len(),
{
    if paths.len() == 0 {
        0
    } else {
        entries_len(paths.drop_last()) + paths.last().len() + 1
    }
}

/// Length in bytes of the payload of a path list: the header, two bytes for
/// each code unit and terminator of each path, and two bytes that close the
/// list.
pub open spec fn payload_len(paths: Seq<Seq<u16>>) -> nat {
    HEADER_SIZE as nat + entries_len(paths) * 2 + 2
}

/// Whether a path holds a zero code unit.
pub open spec fn has_nul(path: Seq<u16>) -> bool {
    exists|k: int| 0 <= k < path.len() && path[k] == 0
}

/// Whether no path of the list holds a zero code unit.
pub open spec fn nul_free(paths: Seq<Seq<u16>>) -> bool {
    forall|i: int| 0 <= i < paths.len() ==> !has_nul(#[trigger] paths[i])
}

/// The paths of a list as sequences of code units.
pub open spec fn path_views(paths: Seq<Vec<u16>>) -> Seq<Seq<u16>> {
    paths.map_values(|path: Vec<u16>| path@)
}

/// Whether `index` is the first path of the list that holds a zero code unit.
pub open spec fn is_first_nul_path(paths: Seq<Seq<u16>>, index: int) -> bool {
    &&& 0 <= index < paths.len()
    &&& has_nul(paths[index])
    &&& forall|j: int| 0 <= j < index ==> !has_nul(#[trigger] paths[j])
}

/// What encoding a path list gives: the payload, or the reason there is none.
/// A zero code unit is reported for the first path that holds one, and before
/// a payload that is too large.
pub open spec fn encoding(paths: Seq<Seq<u16>>) -> Result<Seq<u8>, EncodeError> {
    if !nul_free(paths) {
        Err(EncodeError::EmbeddedNul { path: (choose|i: int| is_first_nul_path(paths, i)) as usize })
    } else if payload_len(paths) > usize::MAX {
        Err(EncodeError::TooLarge)
    } else {
        Ok(payload_bytes(paths))
    }
}

proof fn lemma_units_bytes_push(units: Seq<u16>, unit: u16)
    ensures
        units_bytes(units.push(unit)) == units_bytes(units) + unit_bytes(unit),
{
    assert(units.push(unit).drop_last() =~= units);
}

proof fn lemma_units_bytes_len(units: Seq<u16>)
    ensures
        units_bytes(units).len() == 2 * units.len(),
    decreases units.len(),
{
    if units.len() > 0 {
        lemma_units_bytes_len(units.drop_last());
    }
}

proof fn lemma_units_bytes_concat(left: Seq<u16>, right: Seq<u16>)
    ensures
        units_bytes(left + right) == units_bytes(left) + units_bytes(right),
    decreases right.len(),
{
    if right.len() == 0 {
        assert(left + right =~= left);
        assert(units_bytes(left) + units_bytes(right) =~= units_bytes(left));
    } else {
        lemma_units_bytes_concat(left, right.drop_last());
        assert((left + right).drop_last() =~= left + right.drop_last());
        assert(units_bytes(left + right) =~= units_bytes(left) + units_bytes(right));
    }
}

proof fn lemma_name_entries_push(paths: Seq<Seq<u16>>, path: Seq<u16>)
    ensures
        name_entries(paths.push(path)) == name_entries(paths) + path.push(0u16),
        entries_len(paths.push(path)) == entries_len(paths) + path.len() + 1,
{
    assert(paths.push(path).drop_last() =~= paths);
}

proof fn lemma_name_entries_len(paths: Seq<Seq<u16>>)
    ensures
        name_entries(paths).len() == entries_len(paths),
    decreases paths.len(),
{
    if paths.len() > 0 {
        lemma_name_entries_len(paths.drop_last());
    }
}

/// The code units of a prefix of a list are no more than those of the list.
proof fn lemma_entries_len_prefix(paths: Seq<Seq<u16>>, count: int)
    requires
        0 <= count <= paths.len(),
    ensures
        entries_len(paths.take(count)) <= entries_len(paths),
    decreases paths.len(),
{
    if count == paths.len() {
        assert(paths.take(count) =~= paths);
    } else {
        lemma_entries_len_prefix(paths.drop_last(), count);
        assert(paths.drop_last().take(count) =~= paths.take(count));
    }
}

/// The header byte by byte: the offset of the name table is the size of the
/// header, the anchor point is the origin, the anchor is not in non-client
/// coordinates, and names are wide.
pub proof fn lemma_header_layout()
    ensures
        header_bytes().len() == HEADER_SIZE,
        header_bytes() == seq![
            20u8, 0u8, 0u8, 0u8,
            0u8, 0u8, 0u8, 0u8,
            0u8, 0u8, 0u8, 0u8,
            0u8, 0u8, 0u8, 0u8,
            1u8, 0u8, 0u8, 0u8,
        ],
{
    assert(header_bytes() =~= seq![
        20u8, 0u8, 0u8, 0u8,
        0u8, 0u8, 0u8, 0u8,
        0u8, 0u8, 0u8, 0u8,
        0u8, 0u8, 0u8, 0u8,
        1u8, 0u8, 0u8, 0u8,
    ]);
}

/// Every payload is as long as the header, two bytes for each code unit and
/// terminator of each path, and the two bytes that close the list.
pub proof fn lemma_payload_len(paths: Seq<Seq<u16>>)
    ensures
        payload_bytes(paths).len() == payload_len(paths),
        payload_bytes(paths).subrange(0, HEADER_SIZE as int) == header_bytes(),
{
    lemma_name_entries_len(paths);
    lemma_units_bytes_len(name_table(paths));
    assert(payload_bytes(paths).subrange(0, HEADER_SIZE as int) =~= header_bytes());
}

fn push_field(bytes: &mut Vec<u8>, value: u32)
    ensures
        final(bytes)@ == old(bytes)@ + field_bytes(value),
{
    bytes.push((value % 256) as u8);
    bytes.push((value / 256 % 256) as u8);
    bytes.push((value / 65536 % 256) as u8);
    bytes.push((value / 16777216) as u8);
    assert(bytes@ =~= old(bytes)@ + field_bytes(value));
}

fn push_unit(bytes: &mut Vec<u8>, unit: u16)
    ensures
        final(bytes)@ == old(bytes)@ + unit_bytes(unit),
{
    bytes.push((unit % 256) as u8);
    bytes.push((unit / 256) as u8);
    assert(bytes@ =~= old(bytes)@ + unit_bytes(unit));
}

fn push_units(bytes: &mut Vec<u8>, units: &Vec<u16>)
    ensures
        final(bytes)@ == old(bytes)@ + units_bytes(units@),
{
    let ghost before = bytes@;
    let mut k: usize = 0;
    while k < units.len()
        invariant
            k <= units.len(),
            bytes@ == before + units_bytes(units@.take(k as int)),
        decreases units.len() - k,
    {
        let unit: u16 = units[k];
        push_unit(bytes, unit);
        proof {
            assert(units@.take(k + 1) =~= units@.take(k as int).push(unit));
            lemma_units_bytes_push(units@.take(k as int), unit);
            assert(bytes@ =~= before + units_bytes(units@.take(k + 1)));
        }
        k += 1;
    }
    proof {
        assert(units@.take(units.len() as int) =~= units@);
    }
}

/// Whether a path holds a zero code unit.
pub fn contains_nul(path: &Vec<u16>) -> (found: bool)
    ensures
        found == has_nul(path@),
{
    let mut k: usize = 0;
    while k < path.len()
        invariant
            k <= path.len(),
            forall|j: int| 0 <= j < k ==> path@[j] != 0,
        decreases path.len() - k,
    {
        if path[k] == 0 {
            return true;
        }
        k += 1;
    }
    false
}

fn first_path_with_nul(paths: &Vec<Vec<u16>>) -> (found: Option<usize>)
    ensures
        match found {
            Some(index) => is_first_nul_path(path_views(paths@), index as int),
            None => nul_free(path_views(paths@)),
        },
{
    let mut i: usize = 0;
    while i < paths.len()
        invariant
            i <= paths.len(),
            forall|j: int| 0 <= j < i ==> !has_nul(#[trigger] path_views(paths@)[j]),
        decreases paths.len() - i,
    {
        if contains_nul(&paths[i]) {
            return Some(i);
        }
        i += 1;
    }
    None
}

/// Length in bytes of the payload of a path list, or `None` where no buffer is
/// that long.
pub fn payload_size(paths: &Vec<Vec<u16>>) -> (size: Option<usize>)
    ensures
        match size {
            Some(bytes) => bytes == payload_len(path_views(paths@)),
            None => payload_len(path_views(paths@)) > usize::MAX,
        },
{
    let ghost views = path_views(paths@);
    let mut units: usize = 0;
    let mut i: usize = 0;
    while i < paths.len()
        invariant
            i <= paths.len(),
            views == path_views(paths@),
            units == entries_len(views.take(i as int)),
        decreases paths.len() - i,
    {
        let len: usize = paths[i].len();
        proof {
            assert(views.take(i + 1) =~= views.take(i as int).push(paths@[i as int]@));
            lemma_name_entries_push(views.take(i as int), paths@[i as int]@);
            lemma_entries_len_prefix(views, i + 1);
        }
        if len >= usize::MAX - units {
            return None;
        }
        units = units + len + 1;
        i += 1;
    }
    proof {
        assert(views.take(paths.len() as int) =~= views);
    }
    if units > (usize::MAX - HEADER_SIZE - 2) / 2 {
        return None;
    }
    Some(HEADER_SIZE + units * 2 + 2)
}

/// Lays a path list out as a payload.
///
/// The length is worked out first, so the buffer is reserved once and then
/// filled. Equal lists give equal payloads, byte for byte. A list with a path
/// that holds a zero code unit has no payload: the first such path is named.
pub fn encode(paths: &Vec<Vec<u16>>) -> (result: Result<Vec<u8>, EncodeError>)
    ensures
        match result {
            Ok(bytes) => {
                &&& encoding(path_views(paths@)) == Ok::<Seq<u8>, EncodeError>(bytes@)
                &&& bytes.len() == payload_len(path_views(paths@))
            },
            Err(error) => encoding(path_views(paths@)) == Err::<Seq<u8>, EncodeError>(error),
        },
{
    let ghost views = path_views(paths@);
    match first_path_with_nul(paths) {
        Some(index) => {
            proof {
                let chosen = choose|i: int| is_first_nul_path(views, i);
                assert(is_first_nul_path(views, index as int));
                assert(chosen == index);
            }
            return Err(EncodeError::EmbeddedNul { path: index });
        },
        None => {},
    }
    let size: usize = match payload_size(paths) {
        Some(size) => size,
        None => {
            return Err(EncodeError::TooLarge);
        },
    };
    let mut bytes: Vec<u8> = Vec::with_capacity(size);
    push_field(&mut bytes, HEADER_SIZE as u32);
    push_field(&mut bytes, 0);
    push_field(&mut bytes, 0);
    push_field(&mut bytes, 0);
    push_field(&mut bytes, 1);
    assert(bytes@ =~= header_bytes());
    let mut i: usize = 0;
    while i < paths.len()
        invariant
            i <= paths.len(),
            views == path_views(paths@),
            bytes@ == header_bytes() + units_bytes(name_entries(views.take(i as int))),
        decreases paths.len() - i,
    {
        let ghost done = name_entries(views.take(i as int));
        push_units(&mut bytes, &paths[i]);
        push_unit(&mut bytes, 0);
        proof {
            let path = paths@[i as int]@;
            assert(views.take(i + 1) =~= views.take(i as int).push(path));
            lemma_name_entries_push(views.take(i as int), path);
            lemma_units_bytes_concat(done, path);
            lemma_units_bytes_push(done + path, 0u16);
            assert(done + path.push(0u16) =~= (done + path).push(0u16));
            assert(bytes@ =~= header_bytes() + units_bytes(name_entries(views.take(i + 1))));
        }
        i += 1;
    }
    push_unit(&mut bytes, 0);
    proof {
        assert(views.take(paths.len() as int) =~= views);
        lemma_units_bytes_push(name_entries(views), 0u16);
        assert(bytes@ =~= payload_bytes(views));
        lemma_payload_len(views);
    }
    Ok(bytes)
}

/// The code unit whose two bytes start at `pos`.
pub open spec fn unit_at(bytes: Seq<u8>, pos: int) -> u16 {
    (bytes[pos] as int + 256 * (bytes[pos + 1] as int)) as u16
}

/// The code units that a run of bytes holds, two bytes each, low byte first.
/// A last byte without a partner stands for nothing.
pub open spec fn bytes_units(bytes: Seq<u8>) -> Seq<u16> {
    Seq::new((bytes.len() / 2) as nat, |i: int| unit_at(bytes, 2 * i))
}

/// The names that a run of code units holds, read from the front, where
/// `current` is what has been read of the name at hand. A zero unit closes a
/// name; a zero unit where no name has begun closes the list, and what follows
/// it is not read. `None` where the units end before the list is closed.
pub open spec fn scan_names(units: Seq<u16>, current: Seq<u16>) -> Option<Seq<Seq<u16>>>
    decreases units.len(),
{
    if units.len() == 0 {
        None
    } else if units[0] != 0 {
        scan_names(units.drop_first(), current.push(units[0]))
    } else if current.len() == 0 {
        Some(Seq::empty())
    } else {
        prepend_names(seq![current], scan_names(units.drop_first(), Seq::empty()))
    }
}

/// The names that a name table holds.
pub open spec fn split_names(units: Seq<u16>) -> Option<Seq<Seq<u16>>> {
    scan_names(units, Seq::empty())
}

/// `rest` with the names of `done` put before it.
pub open spec fn prepend_names(done: Seq<Seq<u16>>, rest: Option<Seq<Seq<u16>>>) -> Option<
    Seq<Seq<u16>>,
> {
    match rest {
        Some(names) => Some(done + names),
        None => None,
    }
}

/// What decoding a run of bytes gives: the path list, or the reason the bytes
/// are no payload.
pub open spec fn decoding(bytes: Seq<u8>) -> Result<Seq<Seq<u16>>, DecodeError> {
    if bytes.len() < HEADER_SIZE {
        Err(DecodeError::Truncated)
    } else if bytes.subrange(0, HEADER_SIZE as int) != header_bytes() {
        Err(DecodeError::BadHeader)
    } else {
        match split_names(bytes_units(bytes.skip(HEADER_SIZE as int))) {
            Some(paths) => Ok(paths),
            None => Err(DecodeError::Unterminated),
        }
    }
}

/// Whether no path of the list is empty.
pub open spec fn no_empty_path(paths: Seq<Seq<u16>>) -> bool {
    forall|i: int| 0 <= i < paths.len() ==> (#[trigger] paths[i]).len() > 0
}

fn has_header(bytes: &[u8]) -> (yes: bool)
    requires
        bytes.len() >= HEADER_SIZE,
    ensures
        yes == (bytes@.subrange(0, HEADER_SIZE as int) == header_bytes()),
{
    let mut header: Vec<u8> = Vec::with_capacity(HEADER_SIZE);
    push_field(&mut header, HEADER_SIZE as u32);
    push_field(&mut header, 0);
    push_field(&mut header, 0);
    push_field(&mut header, 0);
    push_field(&mut header, 1);
    assert(header@ =~= header_bytes());
    assert(header.len() == HEADER_SIZE);
    let mut k: usize = 0;
    while k < HEADER_SIZE
        invariant
            k <= HEADER_SIZE,
            bytes.len() >= HEADER_SIZE,
            header@ == header_bytes(),
            header.len() == HEADER_SIZE,
            forall|j: int| 0 <= j < k ==> bytes@[j] == header@[j],
        decreases HEADER_SIZE - k,
    {
        if bytes[k] != header[k] {
            assert(bytes@.subrange(0, HEADER_SIZE as int)[k as int] != header@[k as int]);
            return false;
        }
        k += 1;
    }
    assert(bytes@.subrange(0, HEADER_SIZE as int) =~= header@);
    true
}

/// Reads a payload back into its path list.
///
/// The bytes must start with the header and hold a closed name table; bytes
/// after the unit that closes the list are not read.
pub fn decode(bytes: &[u8]) -> (result: Result<Vec<Vec<u16>>, DecodeError>)
    ensures
        match result {
            Ok(paths) => decoding(bytes@) == Ok::<Seq<Seq<u16>>, DecodeError>(path_views(paths@)),
            Err(error) => decoding(bytes@) == Err::<Seq<Seq<u16>>, DecodeError>(error),
        },
{
    if bytes.len() < HEADER_SIZE {
        return Err(DecodeError::Truncated);
    }
    if !has_header(bytes) {
        return Err(DecodeError::BadHeader);
    }
    let count: usize = (bytes.len() - HEADER_SIZE) / 2;
    let ghost units = bytes_units(bytes@.skip(HEADER_SIZE as int));
    let mut names: Vec<Vec<u16>> = Vec::new();
    let mut current: Vec<u16> = Vec::new();
    let mut i: usize = 0;
    assert(units.skip(0) =~= units);
    assert(path_views(names@) + Seq::<Seq<u16>>::empty() =~= Seq::<Seq<u16>>::empty());
    while i < count
        invariant
            i <= count,
            bytes.len() >= HEADER_SIZE,
            count == (bytes.len() - HEADER_SIZE) / 2,
            bytes@.subrange(0, HEADER_SIZE as int) == header_bytes(),
            units == bytes_units(bytes@.skip(HEADER_SIZE as int)),
            units.len() == count,
            split_names(units) == prepend_names(
                path_views(names@),
                scan_names(units.skip(i as int), current@),
            ),
        decreases count - i,
    {
        let low: u8 = bytes[HEADER_SIZE + 2 * i];
        let high: u8 = bytes[HEADER_SIZE + 2 * i + 1];
        let unit: u16 = low as u16 + 256 * (high as u16);
        proof {
            assert(unit == units[i as int]);
            assert(units.skip(i as int)[0] == unit);
            assert(units.skip(i as int).drop_first() =~= units.skip(i + 1));
        }
        if unit != 0 {
            current.push(unit);
        } else if current.len() == 0 {
            proof {
                assert(scan_names(units.skip(i as int), current@) == Some(
                    Seq::<Seq<u16>>::empty(),
                ));
                assert(path_views(names@) + Seq::<Seq<u16>>::empty() =~= path_views(names@));
                assert(split_names(units) == Some(path_views(names@)));
            }
            return Ok(names);
        } else {
            let ghost before = path_views(names@);
            let ghost name = current@;
            names.push(current);
            current = Vec::new();
            proof {
                assert(path_views(names@) =~= before.push(name));
                let rest = scan_names(units.skip(i + 1), Seq::empty());
                if let Some(more) = rest {
                    assert(before + (seq![name] + more) =~= before.push(name) + more);
                }
            }
        }
        i += 1;
    }
    Err(DecodeError::Unterminated)
}

/// The byte pair of each code unit stands at twice the unit's index.
proof fn lemma_units_bytes_index(units: Seq<u16>, index: int)
    requires
        0 <= index < units.len(),
    ensures
        units_bytes(units).len() == 2 * units.len(),
        units_bytes(units)[2 * index] == (units[index] % 256) as u8,
        units_bytes(units)[2 * index + 1] == (units[index] / 256) as u8,
    decreases units.len(),
{
    lemma_units_bytes_len(units);
    lemma_units_bytes_len(units.drop_last());
    if index < units.len() - 1 {
        lemma_units_bytes_index(units.drop_last(), index);
    }
}

/// Reading the bytes of code units gives the code units back.
proof fn lemma_bytes_units_of_units_bytes(units: Seq<u16>)
    ensures
        bytes_units(units_bytes(units)) == units,
{
    lemma_units_bytes_len(units);
    assert forall|i: int| 0 <= i < units.len() implies bytes_units(units_bytes(units))[i]
        == units[i] by {
        lemma_units_bytes_index(units, i);
    }
    assert(bytes_units(units_bytes(units)) =~= units);
}

/// A name without a zero unit is read through to its end.
proof fn lemma_scan_through_name(name: Seq<u16>, rest: Seq<u16>, current: Seq<u16>)
    requires
        !has_nul(name),
    ensures
        scan_names(name + rest, current) == scan_names(rest, current + name),
    decreases name.len(),
{
    if name.len() == 0 {
        assert(name + rest =~= rest);
        assert(current + name =~= current);
    } else {
        let tail = name.drop_first();
        assert(name[0] != 0);
        assert forall|k: int| 0 <= k < tail.len() implies tail[k] != 0 by {
            assert(tail[k] == name[k + 1]);
        }
        assert((name + rest)[0] == name[0]);
        assert((name + rest).drop_first() =~= tail + rest);
        lemma_scan_through_name(tail, rest, current.push(name[0]));
        assert(current.push(name[0]) + tail =~= current + name);
    }
}

/// The entries of a list are read back as the list, and reading goes on with
/// what follows them.
proof fn lemma_scan_entries(paths: Seq<Seq<u16>>, rest: Seq<u16>)
    requires
        nul_free(paths),
        no_empty_path(paths),
    ensures
        split_names(name_entries(paths) + rest) == prepend_names(paths, split_names(rest)),
    decreases paths.len(),
{
    if paths.len() == 0 {
        assert(name_entries(paths) + rest =~= rest);
        if let Some(names) = split_names(rest) {
            assert(paths + names =~= names);
        }
    } else {
        let front = paths.drop_last();
        let last = paths.last();
        let closed = seq![0u16] + rest;
        assert(name_entries(paths) + rest =~= name_entries(front) + (last + closed));
        lemma_scan_entries(front, last + closed);
        lemma_scan_through_name(last, closed, Seq::empty());
        assert(Seq::<u16>::empty() + last =~= last);
        assert(closed[0] == 0);
        assert(closed.drop_first() =~= rest);
        assert(scan_names(closed, last) == prepend_names(seq![last], split_names(rest)));
        if let Some(names) = split_names(rest) {
            assert(front + (seq![last] + names) =~= paths + names);
        }
    }
}

/// Decoding the payload of a path list gives the list back: every path, in
/// order, once. This holds of every list whose paths are not empty and hold
/// no zero code unit.
pub proof fn lemma_decode_payload(paths: Seq<Seq<u16>>)
    requires
        nul_free(paths),
        no_empty_path(paths),
    ensures
        decoding(payload_bytes(paths)) == Ok::<Seq<Seq<u16>>, DecodeError>(paths),
{
    let payload = payload_bytes(paths);
    lemma_payload_len(paths);
    assert(payload.skip(HEADER_SIZE as int) =~= units_bytes(name_table(paths)));
    lemma_bytes_units_of_units_bytes(name_table(paths));
    let close = seq![0u16];
    assert(name_table(paths) =~= name_entries(paths) + close);
    lemma_scan_entries(paths, close);
    assert(split_names(close) == Some(Seq::<Seq<u16>>::empty()));
    assert(paths + Seq::<Seq<u16>>::empty() =~= paths);
}

/// The entries of a list that starts with `path` are those of the path,
/// then those of the rest.
proof fn lemma_name_entries_front(path: Seq<u16>, rest: Seq<Seq<u16>>)
    ensures
        name_entries(seq![path] + rest) == path.push(0u16) + name_entries(rest),
    decreases rest.len(),
{
    let all = seq![path] + rest;
    if rest.len() == 0 {
        assert(all.drop_last() =~= Seq::<Seq<u16>>::empty());
        assert(all.last() == path);
        assert(name_entries(all.drop_last()) =~= Seq::<u16>::empty());
        assert(name_entries(rest) =~= Seq::<u16>::empty());
        assert(name_entries(all) =~= path.push(0u16) + name_entries(rest));
    } else {
        lemma_name_entries_front(path, rest.drop_last());
        assert(all.drop_last() =~= seq![path] + rest.drop_last());
        assert(all.last() == rest.last());
        assert(name_entries(all) =~= path.push(0u16) + name_entries(rest));
    }
}

/// What is read from code units was written there: the name at hand and the
/// units read make up the name table of the names, none of which is empty or
/// holds a zero unit.
proof fn lemma_scan_reads_table(units: Seq<u16>, current: Seq<u16>) -> (read: int)
    requires
        scan_names(units, current) is Some,
        !has_nul(current),
    ensures
        0 <= read <= units.len(),
        current + units.take(read) == name_table(scan_names(units, current)->0),
        nul_free(scan_names(units, current)->0),
        no_empty_path(scan_names(units, current)->0),
    decreases units.len(),
{
    let names = scan_names(units, current)->0;
    let after = units.drop_first();
    if units[0] != 0 {
        let grown = current.push(units[0]);
        assert forall|k: int| 0 <= k < grown.len() implies grown[k] != 0 by {
            if k < current.len() {
                assert(grown[k] == current[k]);
            }
        }
        let read = lemma_scan_reads_table(after, grown);
        assert(current + units.take(read + 1) =~= grown + after.take(read));
        read + 1
    } else if current.len() == 0 {
        assert(name_entries(names) =~= Seq::<u16>::empty());
        assert(current + units.take(1) =~= name_table(names));
        1
    } else {
        let rest = scan_names(after, Seq::empty())->0;
        assert(names == seq![current] + rest);
        let read = lemma_scan_reads_table(after, Seq::empty());
        lemma_name_entries_front(current, rest);
        assert(Seq::<u16>::empty() + after.take(read) =~= after.take(read));
        assert(name_table(names) =~= current.push(0u16) + name_table(rest));
        assert(current + units.take(read + 1) =~= current.push(0u16) + after.take(read));
        assert forall|i: int| 0 <= i < names.len() implies !has_nul(#[trigger] names[i])
            && names[i].len() > 0 by {
            if i > 0 {
                assert(names[i] == rest[i - 1]);
            }
        }
        read + 1
    }
}

/// Writing the code units that bytes hold gives the bytes back.
proof fn lemma_units_bytes_of_bytes_units(bytes: Seq<u8>, count: int)
    requires
        0 <= count <= bytes_units(bytes).len(),
    ensures
        units_bytes(bytes_units(bytes).take(count)) == bytes.take(2 * count),
    decreases count,
{
    let units = bytes_units(bytes).take(count);
    if count == 0 {
        assert(units_bytes(units) =~= bytes.take(0));
    } else {
        lemma_units_bytes_of_bytes_units(bytes, count - 1);
        assert(units.drop_last() =~= bytes_units(bytes).take(count - 1));
        let unit = units.last();
        assert(unit == unit_at(bytes, 2 * (count - 1)));
        assert(unit_bytes(unit) =~= seq![bytes[2 * (count - 1)], bytes[2 * (count - 1) + 1]]);
        assert(units_bytes(units) =~= bytes.take(2 * count));
    }
}

/// What decoding gives was encoded: bytes that decode to a path list start
/// with the payload of that list, and no path of the list is empty or holds
/// a zero code unit. With the law on decoding a payload, this makes encoding
/// and decoding each other's inverse on such lists.
pub proof fn lemma_decoded_was_encoded(bytes: Seq<u8>)
    requires
        decoding(bytes) is Ok,
    ensures
        nul_free(decoding(bytes)->Ok_0),
        no_empty_path(decoding(bytes)->Ok_0),
        payload_len(decoding(bytes)->Ok_0) <= bytes.len(),
        bytes.take(payload_len(decoding(bytes)->Ok_0) as int) == payload_bytes(
            decoding(bytes)->Ok_0,
        ),
{
    let paths = decoding(bytes)->Ok_0;
    let body = bytes.skip(HEADER_SIZE as int);
    let units = bytes_units(body);
    let read = lemma_scan_reads_table(units, Seq::empty());
    assert(Seq::<u16>::empty() + units.take(read) =~= units.take(read));
    lemma_units_bytes_of_bytes_units(body, read);
    lemma_payload_len(paths);
    lemma_units_bytes_len(name_table(paths));
    assert(bytes.take(HEADER_SIZE + 2 * read) =~= bytes.subrange(0, HEADER_SIZE as int)
        + body.take(2 * read));
}

} // verus!
