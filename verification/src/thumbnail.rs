//! Thumbnails of screenshots: how their pixels are stored, and a cache that
//! keeps a bounded number of them.
//!
//! Making a thumbnail is the caller's part. The cache keeps whatever stands
//! for one, under the path of its picture as the bytes that the platform
//! spells it with, so that no two paths share a key.

use vstd::prelude::*;

verus! {

/// Default edge length of a thumbnail, in pixels.
pub const THUMBNAIL_SIZE: u32 = 150;

/// Number of thumbnails that a cache keeps unless told otherwise.
pub const DEFAULT_CACHE_SIZE: usize = 500;

/// Bytes that one pixel takes.
pub const BYTES_PER_PIXEL: usize = 4;

/// Number of bytes of a square picture with four bytes to the pixel, or
/// `None` where no buffer is that long.
pub fn pixel_buffer_len(size: u32) -> (len: Option<usize>)
    ensures
        match len {
            Some(bytes) => bytes == size * size * 4,
            None => size * size * 4 > usize::MAX,
        },
{
    let edge: u64 = size as u64;
    assert(edge * edge <= 0xFFFF_FFFF * 0xFFFF_FFFF) by (nonlinear_arith)
        requires
            edge <= 0xFFFF_FFFF,
    ;
    let pixels: u64 = edge * edge;
    if pixels > (usize::MAX / BYTES_PER_PIXEL) as u64 {
        None
    } else {
        Some(pixels as usize * BYTES_PER_PIXEL)
    }
}

/// The pixels of a buffer with the first and third byte of every pixel
/// exchanged, which turns blue-green-red-alpha into red-green-blue-alpha and
/// back. Bytes at the end that make no whole pixel stay as they are.
pub open spec fn red_blue_swapped(pixels: Seq<u8>) -> Seq<u8> {
    Seq::new(
        pixels.len(),
        |i: int|
            if i >= pixels.len() - pixels.len() % 4 {
                pixels[i]
            } else if i % 4 == 0 {
                pixels[i + 2]
            } else if i % 4 == 2 {
                pixels[i - 2]
            } else {
                pixels[i]
            },
    )
}

/// Exchanging twice gives the pixels back.
pub proof fn lemma_swap_twice(pixels: Seq<u8>)
    ensures
        red_blue_swapped(red_blue_swapped(pixels)) == pixels,
{
    assert(red_blue_swapped(red_blue_swapped(pixels)) =~= pixels);
}

/// Exchanges the first and third byte of every pixel of a buffer.
pub fn swap_red_blue(pixels: &mut Vec<u8>)
    ensures
        final(pixels)@ == red_blue_swapped(old(pixels)@),
{
    let ghost before = pixels@;
    let whole: usize = pixels.len() - pixels.len() % BYTES_PER_PIXEL;
    let mut at: usize = 0;
    while at < whole
        invariant
            at <= whole,
            at % 4 == 0,
            whole == before.len() - before.len() % 4,
            pixels@.len() == before.len(),
            forall|i: int| 0 <= i < at ==> pixels@[i] == red_blue_swapped(before)[i],
            forall|i: int| at <= i < before.len() ==> pixels@[i] == before[i],
        decreases whole - at,
    {
        let blue: u8 = pixels[at];
        let red: u8 = pixels[at + 2];
        pixels.set(at, red);
        pixels.set(at + 2, blue);
        at += BYTES_PER_PIXEL;
    }
    assert(pixels@ =~= red_blue_swapped(before));
}

/// A cache of thumbnails by the path of their picture. It keeps no more than
/// a set number of them, and at least one.
pub struct ThumbnailCache<V> {
    entries: Vec<(Vec<u8>, V)>,
    max_size: usize,
}

/// The index of the entry for a path, if there is one.
pub open spec fn index_of<V>(entries: Seq<(Seq<u8>, V)>, path: Seq<u8>) -> Option<int>
    decreases entries.len(),
{
    if entries.len() == 0 {
        None
    } else if entries.last().0 == path {
        Some(entries.len() - 1)
    } else {
        index_of(entries.drop_last(), path)
    }
}

/// Whether no two entries are for the same path.
pub open spec fn distinct_paths<V>(entries: Seq<(Seq<u8>, V)>) -> bool {
    forall|i: int, j: int|
        0 <= i < j < entries.len() ==> (#[trigger] entries[i]).0 != (#[trigger] entries[j]).0
}

/// The entries without the one for a path.
pub open spec fn without<V>(entries: Seq<(Seq<u8>, V)>, path: Seq<u8>) -> Seq<
    (Seq<u8>, V),
> {
    match index_of(entries, path) {
        Some(index) => entries.remove(index),
        None => entries,
    }
}

/// The entries after room was made for one more: a cache that is full loses
/// its oldest entry.
pub open spec fn with_room<V>(entries: Seq<(Seq<u8>, V)>, max_size: usize) -> Seq<
    (Seq<u8>, V),
> {
    if entries.len() > 0 && entries.len() >= max_size {
        entries.drop_first()
    } else {
        entries
    }
}

/// The entries after a thumbnail was stored: room is made first; then the
/// thumbnail takes the place of the one that the path had, or comes last.
pub open spec fn stored<V>(
    entries: Seq<(Seq<u8>, V)>,
    max_size: usize,
    path: Seq<u8>,
    value: V,
) -> Seq<(Seq<u8>, V)> {
    let kept = with_room(entries, max_size);
    match index_of(kept, path) {
        Some(index) => kept.update(index, (path, value)),
        None => kept.push((path, value)),
    }
}

/// The entries of a cache with their paths as runs of bytes.
pub open spec fn entry_views<V>(entries: Seq<(Vec<u8>, V)>) -> Seq<(Seq<u8>, V)> {
    entries.map_values(|entry: (Vec<u8>, V)| (entry.0@, entry.1))
}

impl<V> View for ThumbnailCache<V> {
    type V = Seq<(Seq<u8>, V)>;

    closed spec fn view(&self) -> Seq<(Seq<u8>, V)> {
        entry_views(self.entries@)
    }
}

fn same_bytes(left: &Vec<u8>, right: &[u8]) -> (same: bool)
    ensures
        same == (left@ == right@),
{
    if left.len() != right.len() {
        return false;
    }
    let mut i: usize = 0;
    while i < left.len()
        invariant
            i <= left.len(),
            left.len() == right.len(),
            forall|j: int| 0 <= j < i ==> left@[j] == right@[j],
        decreases left.len() - i,
    {
        if left[i] != right[i] {
            return false;
        }
        i += 1;
    }
    assert(left@ =~= right@);
    true
}

fn copy_of(bytes: &[u8]) -> (copy: Vec<u8>)
    ensures
        copy@ == bytes@,
{
    let mut copy: Vec<u8> = Vec::with_capacity(bytes.len());
    let mut i: usize = 0;
    while i < bytes.len()
        invariant
            i <= bytes.len(),
            copy@ == bytes@.take(i as int),
        decreases bytes.len() - i,
    {
        copy.push(bytes[i]);
        assert(copy@ =~= bytes@.take(i + 1));
        i += 1;
    }
    assert(bytes@.take(bytes.len() as int) =~= bytes@);
    copy
}

fn position<V>(entries: &Vec<(Vec<u8>, V)>, path: &[u8]) -> (found: Option<usize>)
    ensures
        match found {
            Some(index) => index_of(entry_views(entries@), path@) == Some(index as int) && index
                < entries.len(),
            None => index_of(entry_views(entries@), path@) is None,
        },
{
    let ghost views = entry_views(entries@);
    let mut count: usize = entries.len();
    assert(views.take(count as int) =~= views);
    while count > 0
        invariant
            count <= entries.len(),
            views == entry_views(entries@),
            index_of(views, path@) == index_of(views.take(count as int), path@),
        decreases count,
    {
        assert(views.take(count as int).last() == views[count - 1]);
        assert(views.take(count as int).drop_last() =~= views.take(count - 1));
        if same_bytes(&entries[count - 1].0, path) {
            return Some(count - 1);
        }
        count -= 1;
    }
    None
}

/// What `index_of` finds is an entry for the path, and where it finds
/// nothing there is none.
pub proof fn lemma_index_of<V>(entries: Seq<(Seq<u8>, V)>, path: Seq<u8>)
    ensures
        match index_of(entries, path) {
            Some(index) => 0 <= index < entries.len() && entries[index].0 == path,
            None => forall|i: int| 0 <= i < entries.len() ==> (#[trigger] entries[i]).0 != path,
        },
    decreases entries.len(),
{
    if entries.len() > 0 && entries.last().0 != path {
        lemma_index_of(entries.drop_last(), path);
        assert forall|i: int| 0 <= i < entries.len() - 1 implies entries.drop_last()[i]
            == entries[i] by {}
    }
}

/// Storing a thumbnail keeps the paths of a cache distinct and the cache
/// within its bound, and the thumbnail is what the cache has for the path.
pub proof fn lemma_stored<V>(entries: Seq<(Seq<u8>, V)>, max_size: usize, path: Seq<u8>, value: V)
    requires
        distinct_paths(entries),
        entries.len() <= max_size || entries.len() <= 1,
    ensures
        distinct_paths(stored(entries, max_size, path, value)),
        stored(entries, max_size, path, value).len() <= max_size || stored(
            entries,
            max_size,
            path,
            value,
        ).len() <= 1,
        index_of(stored(entries, max_size, path, value), path) is Some,
        stored(entries, max_size, path, value)[index_of(
            stored(entries, max_size, path, value),
            path,
        )->0].1 == value,
{
    let kept = with_room(entries, max_size);
    let after = stored(entries, max_size, path, value);
    assert forall|i: int, j: int| 0 <= i < j < kept.len() implies (#[trigger] kept[i]).0 != (
    #[trigger] kept[j]).0 by {
        if kept.len() < entries.len() {
            assert(kept[i] == entries[i + 1] && kept[j] == entries[j + 1]);
        }
    }
    lemma_index_of(kept, path);
    lemma_index_of(after, path);
    match index_of(kept, path) {
        Some(index) => {
            assert(after[index].0 == path);
            assert forall|i: int, j: int| 0 <= i < j < after.len() implies (#[trigger] after[i]).0
                != (#[trigger] after[j]).0 by {
                assert(after[i].0 == kept[i].0 && after[j].0 == kept[j].0);
            }
        },
        None => {
            assert(after[after.len() - 1].0 == path);
            assert forall|i: int, j: int| 0 <= i < j < after.len() implies (#[trigger] after[i]).0
                != (#[trigger] after[j]).0 by {
                if j < kept.len() {
                    assert(after[i] == kept[i] && after[j] == kept[j]);
                } else {
                    assert(after[i] == kept[i]);
                }
            }
        },
    }
    let found = index_of(after, path)->0;
    if after[found].1 != value {
        match index_of(kept, path) {
            Some(index) => {
                assert(after[index].0 == path);
                assert(found == index);
            },
            None => {
                assert(found == after.len() - 1);
            },
        }
    }
}

impl<V> ThumbnailCache<V> {
    #[verifier::type_invariant]
    spec fn well_formed(self) -> bool {
        &&& distinct_paths(self@)
        &&& self@.len() <= self.max_size || self@.len() <= 1
    }

    /// The number of thumbnails that the cache keeps at most; a cache keeps
    /// one even where this is zero.
    pub closed spec fn limit(self) -> usize {
        self.max_size
    }

    /// An empty cache that keeps `max_size` thumbnails.
    pub fn new(max_size: usize) -> (cache: ThumbnailCache<V>)
        ensures
            cache@ == Seq::<(Seq<u8>, V)>::empty(),
            cache.limit() == max_size,
    {
        let cache = ThumbnailCache { entries: Vec::new(), max_size };
        assert(cache@ =~= Seq::<(Seq<u8>, V)>::empty());
        cache
    }

    /// Number of thumbnails in the cache.
    pub fn len(&self) -> (count: usize)
        ensures
            count == self@.len(),
            distinct_paths(self@),
            count <= self.limit() || count <= 1,
    {
        proof {
            use_type_invariant(self);
        }
        self.entries.len()
    }

    /// The thumbnail that the cache has for a path.
    pub fn get(&self, path: &[u8]) -> (value: Option<&V>)
        ensures
            match value {
                Some(found) => index_of(self@, path@) is Some && self@[index_of(
                    self@,
                    path@,
                )->0].1 == *found,
                None => index_of(self@, path@) is None,
            },
    {
        match position(&self.entries, path) {
            Some(index) => Some(&self.entries[index].1),
            None => None,
        }
    }

    /// Stores a thumbnail for a path. A cache that is full loses its oldest
    /// entry first.
    pub fn insert(&mut self, path: &[u8], value: V)
        ensures
            final(self)@ == stored(old(self)@, old(self).limit(), path@, value),
            final(self).limit() == old(self).limit(),
    {
        proof {
            use_type_invariant(&*self);
            lemma_stored(self@, self.max_size, path@, value);
        }
        let ghost before = self@;
        let mut entries: Vec<(Vec<u8>, V)> = Vec::new();
        assert(entry_views(entries@) =~= Seq::<(Seq<u8>, V)>::empty());
        core::mem::swap(&mut self.entries, &mut entries);
        if entries.len() > 0 && entries.len() >= self.max_size {
            entries.remove(0);
        }
        assert(entry_views(entries@) =~= with_room(before, self.max_size));
        let ghost kept = entry_views(entries@);
        match position(&entries, path) {
            Some(index) => {
                entries.set(index, (copy_of(path), value));
                assert(entry_views(entries@) =~= kept.update(index as int, (path@, value)));
            },
            None => {
                entries.push((copy_of(path), value));
                assert(entry_views(entries@) =~= kept.push((path@, value)));
            },
        }
        self.entries = entries;
    }

    /// The thumbnail of a path: the one that the cache has, or else the one
    /// that `generate` makes, which the cache then keeps. Where there is none
    /// and none can be made, the cache stays as it is.
    pub fn get_or_create<F: FnOnce() -> Option<V>>(&mut self, path: &[u8], generate: F) -> (value:
        Option<&V>)
        requires
            generate.requires(()),
        ensures
            final(self).limit() == old(self).limit(),
            match index_of(old(self)@, path@) {
                Some(index) => final(self)@ == old(self)@ && value == Some(&old(self)@[index].1),
                None => exists|made: Option<V>|
                    #[trigger] generate.ensures((), made) && match made {
                        Some(thumbnail) => final(self)@ == stored(
                            old(self)@,
                            old(self).limit(),
                            path@,
                            thumbnail,
                        ) && value == Some(&thumbnail),
                        None => final(self)@ == old(self)@ && value is None,
                    },
            },
    {
        if position(&self.entries, path).is_none() {
            match generate() {
                Some(thumbnail) => {
                    proof {
                        use_type_invariant(&*self);
                        lemma_stored(self@, self.max_size, path@, thumbnail);
                    }
                    self.insert(path, thumbnail);
                },
                None => {
                    return None;
                },
            }
        }
        proof {
            lemma_index_of(self@, path@);
        }
        self.get(path)
    }

    /// Removes the thumbnail of a path, if the cache has one.
    pub fn invalidate(&mut self, path: &[u8])
        ensures
            final(self)@ == without(old(self)@, path@),
            final(self).limit() == old(self).limit(),
    {
        proof {
            use_type_invariant(&*self);
        }
        let ghost before = self@;
        let mut entries: Vec<(Vec<u8>, V)> = Vec::new();
        assert(entry_views(entries@) =~= Seq::<(Seq<u8>, V)>::empty());
        core::mem::swap(&mut self.entries, &mut entries);
        match position(&entries, path) {
            Some(index) => {
                entries.remove(index);
                let ghost after = entry_views(entries@);
                assert(after =~= before.remove(index as int));
                assert forall|i: int, j: int| 0 <= i < j < after.len() implies (
                #[trigger] after[i]).0 != (#[trigger] after[j]).0 by {
                    let a = if i < index { i } else { i + 1 };
                    let b = if j < index { j } else { j + 1 };
                    assert(after[i] == before[a] && after[j] == before[b]);
                }
            },
            None => {},
        }
        self.entries = entries;
    }

    /// Removes every thumbnail.
    pub fn clear(&mut self)
        ensures
            final(self)@ == Seq::<(Seq<u8>, V)>::empty(),
            final(self).limit() == old(self).limit(),
    {
        let entries: Vec<(Vec<u8>, V)> = Vec::new();
        assert(entry_views(entries@) =~= Seq::<(Seq<u8>, V)>::empty());
        self.entries = entries;
    }
}

impl<V> Default for ThumbnailCache<V> {
    /// An empty cache of the default size.
    fn default() -> (cache: ThumbnailCache<V>)
        ensures
            cache@ == Seq::<(Seq<u8>, V)>::empty(),
            cache.limit() == DEFAULT_CACHE_SIZE,
    {
        ThumbnailCache::new(DEFAULT_CACHE_SIZE)
    }
}

} // verus!
