//! Which files of the screenshot directory count, and what the application is
//! told when they come and go.
//!
//! Looking at the directory and waiting for changes is left to the caller,
//! who hands over what it saw. A path is carried through as it is, whatever
//! its type.

use vstd::prelude::*;
use crate::text::chars_of;

verus! {

/// The extensions of the image files that count as screenshots.
pub const IMAGE_EXTENSIONS: [&'static str; 7] = ["png", "jpg", "jpeg", "gif", "bmp", "webp", "avif"];

/// What happened to the paths of a file system event.
#[derive(Debug, Clone, Copy, PartialEq, Eq, Structural)]
pub enum FileEventKind {
    /// The paths were created.
    Create,
    /// The paths were removed.
    Remove,
    /// The paths were changed.
    Modify,
    /// Anything else.
    Other,
}

/// A path of the screenshot directory and whether it is an image file.
pub struct WatchedPath<P> {
    pub path: P,
    pub image: bool,
}

/// A file system event: what happened, and to which paths.
pub struct WatchedEvent<P> {
    pub kind: FileEventKind,
    pub paths: Vec<WatchedPath<P>>,
}

/// A file found in the screenshot directory.
pub struct ScannedFile<P> {
    pub path: P,
    /// Whether it is an image file that counts.
    pub image: bool,
    /// When it was last changed, on any scale that grows with time; `None`
    /// where this is not known.
    pub modified: Option<i128>,
}

/// What the application is told about a screenshot.
#[derive(Debug, PartialEq, Eq)]
pub enum WatchMessage<P> {
    /// A screenshot is there.
    NewScreenshot(P),
    /// A screenshot is gone.
    ScreenshotRemoved(P),
}

/// A letter of the ASCII alphabet in lower case; any other character as it
/// is.
pub open spec fn ascii_lower(c: char) -> char {
    if 'A' <= c <= 'Z' {
        ((c as u8) + 32) as char
    } else {
        c
    }
}

/// Whether two texts are the same but for the case of ASCII letters.
pub open spec fn same_ignoring_case(left: Seq<char>, right: Seq<char>) -> bool {
    &&& left.len() == right.len()
    &&& forall|i: int| 0 <= i < left.len() ==> ascii_lower(left[i]) == ascii_lower(right[i])
}

/// Whether an extension is that of an image file, in any case of its letters.
pub open spec fn image_extension(extension: Seq<char>) -> bool {
    exists|i: int|
        0 <= i < 7 && same_ignoring_case(#[trigger] IMAGE_EXTENSIONS@[i]@, extension)
}

/// Whether a path is an image file that counts: it must be a file, and have
/// an extension of an image file that can be read as text.
pub open spec fn image_file(is_file: bool, extension: Option<Seq<char>>) -> bool {
    is_file && extension is Some && image_extension(extension->0)
}

/// What the application is told of one path of an event, if anything: a
/// created image file is a new screenshot, a removed one is gone, and nothing
/// else is worth a word.
pub open spec fn message_for<P>(kind: FileEventKind, entry: WatchedPath<P>) -> Option<
    WatchMessage<P>,
> {
    if !entry.image {
        None
    } else {
        match kind {
            FileEventKind::Create => Some(WatchMessage::NewScreenshot(entry.path)),
            FileEventKind::Remove => Some(WatchMessage::ScreenshotRemoved(entry.path)),
            _ => None,
        }
    }
}

/// What the application is told of the paths of an event, in their order.
pub open spec fn messages_for<P>(kind: FileEventKind, paths: Seq<WatchedPath<P>>) -> Seq<
    WatchMessage<P>,
>
    decreases paths.len(),
{
    if paths.len() == 0 {
        Seq::empty()
    } else {
        match message_for(kind, paths.last()) {
            Some(message) => messages_for(kind, paths.drop_last()).push(message),
            None => messages_for(kind, paths.drop_last()),
        }
    }
}

fn lower(c: char) -> (l: char)
    ensures
        l == ascii_lower(c),
{
    if c >= 'A' && c <= 'Z' {
        ((c as u8) + 32) as char
    } else {
        c
    }
}

/// Whether two texts are the same but for the case of ASCII letters.
pub fn eq_ignore_ascii_case(left: &str, right: &str) -> (same: bool)
    ensures
        same == same_ignoring_case(left@, right@),
{
    let left_chars = chars_of(left);
    let right_chars = chars_of(right);
    if left_chars.len() != right_chars.len() {
        return false;
    }
    let mut i: usize = 0;
    while i < left_chars.len()
        invariant
            i <= left_chars.len(),
            left_chars.len() == right_chars.len(),
            left_chars@ == left@,
            right_chars@ == right@,
            forall|j: int| 0 <= j < i ==> ascii_lower(left@[j]) == ascii_lower(right@[j]),
        decreases left_chars.len() - i,
    {
        if lower(left_chars[i]) != lower(right_chars[i]) {
            return false;
        }
        i += 1;
    }
    true
}

/// Whether an extension is that of an image file, in any case of its letters.
pub fn is_image_extension(extension: &str) -> (yes: bool)
    ensures
        yes == image_extension(extension@),
{
    let table = IMAGE_EXTENSIONS;
    let mut i: usize = 0;
    while i < 7
        invariant
            i <= 7,
            table@ == IMAGE_EXTENSIONS@,
            table@.len() == 7,
            forall|j: int| 0 <= j < i ==> !same_ignoring_case(#[trigger] table@[j]@, extension@),
        decreases 7 - i,
    {
        if eq_ignore_ascii_case(table[i], extension) {
            return true;
        }
        i += 1;
    }
    false
}

/// Whether a path is an image file that counts, given whether a file stands
/// there and what its extension is, where it has one that can be read as
/// text.
pub fn is_image_file(is_file: bool, extension: Option<&str>) -> (yes: bool)
    ensures
        yes == image_file(
            is_file,
            match extension {
                Some(text) => Some(text@),
                None => None,
            },
        ),
{
    if !is_file {
        return false;
    }
    match extension {
        Some(text) => is_image_extension(text),
        None => false,
    }
}

/// What the application is told of the paths of one event.
pub fn process_event<P>(event: WatchedEvent<P>) -> (messages: Vec<WatchMessage<P>>)
    ensures
        messages@ == messages_for(event.kind, event.paths@),
{
    let kind = event.kind;
    let ghost all = event.paths@;
    let mut messages: Vec<WatchMessage<P>> = Vec::new();
    assert(all.take(0) =~= Seq::<WatchedPath<P>>::empty());
    for entry in it: event.paths
        invariant
            it.seq() == all,
            messages@ == messages_for(kind, all.take(it.index() as int)),
    {
        proof {
            assert(all.take(it.index() + 1).drop_last() =~= all.take(it.index() as int));
            assert(all.take(it.index() + 1).last() == entry);
        }
        if entry.image {
            match kind {
                FileEventKind::Create => {
                    messages.push(WatchMessage::NewScreenshot(entry.path));
                },
                FileEventKind::Remove => {
                    messages.push(WatchMessage::ScreenshotRemoved(entry.path));
                },
                FileEventKind::Modify => {},
                FileEventKind::Other => {},
            }
        }
    }
    assert(all.take(all.len() as int) =~= all);
    messages
}

/// What the application is told of all events, in their order.
pub open spec fn messages_of<P>(events: Seq<WatchedEvent<P>>) -> Seq<WatchMessage<P>>
    decreases events.len(),
{
    if events.len() == 0 {
        Seq::empty()
    } else {
        messages_of(events.drop_last()) + messages_for(events.last().kind, events.last().paths@)
    }
}

/// What the application is told of what waiting for changes gave: of events,
/// what each of them calls for; of a failure, nothing.
pub fn handle_debounced_events<P, E>(result: Result<Vec<WatchedEvent<P>>, E>) -> (messages: Vec<
    WatchMessage<P>,
>)
    ensures
        messages@ == match result {
            Ok(events) => messages_of(events@),
            Err(_) => Seq::empty(),
        },
{
    let mut messages: Vec<WatchMessage<P>> = Vec::new();
    match result {
        Ok(events) => {
            let ghost all = events@;
            assert(all.take(0) =~= Seq::<WatchedEvent<P>>::empty());
            for event in it: events
                invariant
                    it.seq() == all,
                    messages@ == messages_of(all.take(it.index() as int)),
            {
                proof {
                    assert(all.take(it.index() + 1).drop_last() =~= all.take(it.index() as int));
                    assert(all.take(it.index() + 1).last() == event);
                }
                let mut more = process_event(event);
                messages.append(&mut more);
            }
            assert(all.take(all.len() as int) =~= all);
        },
        Err(_) => {},
    }
    messages
}

/// Whether a file changed at `left` is not older than one changed at
/// `right`. A file whose time is not known is older than any whose time is.
pub open spec fn not_older(left: Option<i128>, right: Option<i128>) -> bool {
    match (left, right) {
        (_, None) => true,
        (None, Some(_)) => false,
        (Some(l), Some(r)) => l >= r,
    }
}

/// Where a file changed at `modified` goes into files that stand newest
/// first: behind those that are not older than it.
pub open spec fn place_of<P>(sorted: Seq<ScannedFile<P>>, modified: Option<i128>) -> nat
    decreases sorted.len(),
{
    if sorted.len() == 0 || !not_older(sorted[0].modified, modified) {
        0
    } else {
        1 + place_of(sorted.drop_first(), modified)
    }
}

/// The files newest first. Files that changed at the same time keep the
/// order in which they were found.
pub open spec fn newest_first<P>(files: Seq<ScannedFile<P>>) -> Seq<ScannedFile<P>>
    decreases files.len(),
{
    if files.len() == 0 {
        Seq::empty()
    } else {
        let before = newest_first(files.drop_last());
        before.insert(place_of(before, files.last().modified) as int, files.last())
    }
}

/// The screenshots among files, as what the application is told of them.
pub open spec fn screenshots_of<P>(files: Seq<ScannedFile<P>>) -> Seq<WatchMessage<P>>
    decreases files.len(),
{
    if files.len() == 0 {
        Seq::empty()
    } else if files.last().image {
        screenshots_of(files.drop_last()).push(WatchMessage::NewScreenshot(files.last().path))
    } else {
        screenshots_of(files.drop_last())
    }
}

/// Whether files stand newest first.
pub open spec fn stands_newest_first<P>(files: Seq<ScannedFile<P>>) -> bool {
    forall|i: int, j: int|
        0 <= i < j < files.len() ==> not_older(
            (#[trigger] files[i]).modified,
            (#[trigger] files[j]).modified,
        )
}

/// The place of a file lies within the files; those before it are not older
/// than the file, and the one at it, if there is one, is older.
pub proof fn lemma_place_of<P>(sorted: Seq<ScannedFile<P>>, modified: Option<i128>)
    ensures
        place_of(sorted, modified) <= sorted.len(),
        forall|i: int|
            0 <= i < place_of(sorted, modified) ==> not_older(
                (#[trigger] sorted[i]).modified,
                modified,
            ),
        place_of(sorted, modified) < sorted.len() ==> !not_older(
            sorted[place_of(sorted, modified) as int].modified,
            modified,
        ),
    decreases sorted.len(),
{
    if sorted.len() == 0 || !not_older(sorted[0].modified, modified) {
    } else {
        let rest = sorted.drop_first();
        lemma_place_of(rest, modified);
        assert forall|i: int| 0 <= i < place_of(sorted, modified) implies not_older(
            (#[trigger] sorted[i]).modified,
            modified,
        ) by {
            if i > 0 {
                assert(sorted[i] == rest[i - 1]);
            }
        }
        if place_of(sorted, modified) < sorted.len() {
            assert(sorted[place_of(sorted, modified) as int] == rest[place_of(rest, modified) as int]);
        }
    }
}

/// Sorting keeps every file, as often as it was found, and puts the files
/// newest first.
pub proof fn lemma_newest_first<P>(files: Seq<ScannedFile<P>>)
    ensures
        newest_first(files).len() == files.len(),
        newest_first(files).to_multiset() == files.to_multiset(),
        stands_newest_first(newest_first(files)),
    decreases files.len(),
{
    broadcast use vstd::seq_lib::group_to_multiset_ensures;

    if files.len() == 0 {
        assert(files =~= Seq::empty());
    } else {
        let front = files.drop_last();
        let file = files.last();
        let before = newest_first(front);
        let place = place_of(before, file.modified) as int;
        let after = before.insert(place, file);
        lemma_newest_first(front);
        lemma_place_of(before, file.modified);
        assert(after.remove(place) =~= before);
        assert(after[place] == file);
        assert(after.remove(place).to_multiset() =~= after.to_multiset().remove(file));
        assert(after.to_multiset().count(file) > 0) by {
            assert(after.contains(file));
        }
        assert(after.to_multiset() =~= before.to_multiset().insert(file));
        assert(files =~= front.push(file));
        assert(files.to_multiset() =~= front.to_multiset().insert(file));
        assert forall|i: int, j: int| 0 <= i < j < after.len() implies not_older(
            (#[trigger] after[i]).modified,
            (#[trigger] after[j]).modified,
        ) by {
            if j < place {
                assert(after[i] == before[i] && after[j] == before[j]);
            } else if j == place {
                assert(after[i] == before[i]);
            } else if i < place {
                assert(after[i] == before[i] && after[j] == before[j - 1]);
                assert(not_older(before[i].modified, before[j - 1].modified));
            } else if i == place {
                assert(after[j] == before[j - 1]);
                if j - 1 > place {
                    assert(not_older(before[place].modified, before[j - 1].modified));
                }
            } else {
                assert(after[i] == before[i - 1] && after[j] == before[j - 1]);
                assert(not_older(before[i - 1].modified, before[j - 1].modified));
            }
        }
    }
}

/// Whether `picks` names, for each place of the sorted files, the place at
/// which that file was found: every place is named once, and of two files
/// that changed at the same time the one found first comes first.
pub open spec fn found_at<P>(files: Seq<ScannedFile<P>>, picks: Seq<int>) -> bool {
    &&& picks.len() == files.len()
    &&& newest_first(files).len() == files.len()
    &&& forall|k: int| 0 <= k < picks.len() ==> 0 <= #[trigger] picks[k] < files.len()
    &&& forall|j: int, k: int|
        0 <= j < k < picks.len() ==> #[trigger] picks[j] != #[trigger] picks[k]
    &&& forall|k: int|
        0 <= k < picks.len() ==> newest_first(files)[k] == files[#[trigger] picks[k]]
    &&& forall|j: int, k: int|
        0 <= j < k < picks.len() && files[#[trigger] picks[j]].modified == files[
            #[trigger] picks[k]].modified ==> picks[j] < picks[k]
}

/// Sorting is stable: files that changed at the same time keep the order in
/// which they were found.
pub proof fn lemma_sort_is_stable<P>(files: Seq<ScannedFile<P>>) -> (picks: Seq<int>)
    ensures
        found_at(files, picks),
    decreases files.len(),
{
    if files.len() == 0 {
        Seq::empty()
    } else {
        let front = files.drop_last();
        let file = files.last();
        let last = files.len() - 1;
        let before = newest_first(front);
        let place = place_of(before, file.modified) as int;
        let after = newest_first(files);
        let front_picks = lemma_sort_is_stable(front);
        lemma_newest_first(front);
        lemma_newest_first(files);
        lemma_place_of(before, file.modified);
        let picks = front_picks.insert(place, last);
        assert forall|k: int| 0 <= k < picks.len() implies 0 <= #[trigger] picks[k] < files.len()
            && after[k] == files[picks[k]] by {
            if k < place {
                assert(picks[k] == front_picks[k]);
                assert(after[k] == before[k]);
                assert(front[front_picks[k]] == files[front_picks[k]]);
            } else if k > place {
                assert(picks[k] == front_picks[k - 1]);
                assert(after[k] == before[k - 1]);
                assert(front[front_picks[k - 1]] == files[front_picks[k - 1]]);
            }
        }
        assert forall|j: int, k: int| 0 <= j < k < picks.len() implies #[trigger] picks[j]
            != #[trigger] picks[k] by {
            let a = if j < place { j } else { j - 1 };
            let b = if k < place { k } else { k - 1 };
            if j != place && k != place {
                assert(picks[j] == front_picks[a] && picks[k] == front_picks[b]);
            } else if j == place {
                assert(picks[k] == front_picks[b]);
            } else {
                assert(picks[j] == front_picks[a]);
            }
        }
        assert forall|j: int, k: int|
            0 <= j < k < picks.len() && files[#[trigger] picks[j]].modified == files[
                #[trigger] picks[k]].modified implies picks[j] < picks[k] by {
            let a = if j < place { j } else { j - 1 };
            let b = if k < place { k } else { k - 1 };
            if j != place && k != place {
                assert(picks[j] == front_picks[a] && picks[k] == front_picks[b]);
                assert(front[front_picks[a]] == files[front_picks[a]]);
                assert(front[front_picks[b]] == files[front_picks[b]]);
            } else if k == place {
                assert(picks[j] == front_picks[a]);
            } else {
                // The file just placed stands before one that is older.
                assert(picks[k] == front_picks[b]);
                assert(after[k] == before[b]);
                assert(before[b] == front[front_picks[b]]);
                assert(front[front_picks[b]] == files[front_picks[b]]);
                assert(!not_older(before[place].modified, file.modified));
                if b > place {
                    assert(not_older(before[place].modified, before[b].modified));
                }
                assert(before[b].modified != file.modified);
            }
        }
        picks
    }
}

fn is_not_older(left: Option<i128>, right: Option<i128>) -> (yes: bool)
    ensures
        yes == not_older(left, right),
{
    match right {
        None => true,
        Some(r) => match left {
            None => false,
            Some(l) => l >= r,
        },
    }
}

/// The files newest first.
pub fn sort_newest_first<P>(files: Vec<ScannedFile<P>>) -> (sorted: Vec<ScannedFile<P>>)
    ensures
        sorted@ == newest_first(files@),
{
    let ghost all = files@;
    let mut sorted: Vec<ScannedFile<P>> = Vec::new();
    assert(all.take(0) =~= Seq::<ScannedFile<P>>::empty());
    for file in it: files
        invariant
            it.seq() == all,
            sorted@ == newest_first(all.take(it.index() as int)),
    {
        proof {
            assert(all.take(it.index() + 1).drop_last() =~= all.take(it.index() as int));
            assert(all.take(it.index() + 1).last() == file);
        }
        let mut place: usize = 0;
        assert(sorted@.skip(0) =~= sorted@);
        while place < sorted.len() && is_not_older(sorted[place].modified, file.modified)
            invariant
                place <= sorted.len(),
                place_of(sorted@, file.modified) == place + place_of(
                    sorted@.skip(place as int),
                    file.modified,
                ),
            decreases sorted.len() - place,
        {
            assert(sorted@.skip(place as int)[0] == sorted@[place as int]);
            assert(sorted@.skip(place as int).drop_first() =~= sorted@.skip(place + 1));
            place += 1;
        }
        assert(place_of(sorted@.skip(place as int), file.modified) == 0) by {
            if place < sorted.len() {
                assert(sorted@.skip(place as int)[0] == sorted@[place as int]);
            }
        }
        sorted.insert(place, file);
    }
    assert(all.take(all.len() as int) =~= all);
    sorted
}

/// What the application is told of the files found in the screenshot
/// directory: each image file is a new screenshot, the newest first.
pub fn scan_messages<P>(files: Vec<ScannedFile<P>>) -> (messages: Vec<WatchMessage<P>>)
    ensures
        messages@ == screenshots_of(newest_first(files@)),
{
    let sorted = sort_newest_first(files);
    let ghost all = sorted@;
    let mut messages: Vec<WatchMessage<P>> = Vec::new();
    assert(all.take(0) =~= Seq::<ScannedFile<P>>::empty());
    for file in it: sorted
        invariant
            it.seq() == all,
            messages@ == screenshots_of(all.take(it.index() as int)),
    {
        proof {
            assert(all.take(it.index() + 1).drop_last() =~= all.take(it.index() as int));
            assert(all.take(it.index() + 1).last() == file);
        }
        if file.image {
            messages.push(WatchMessage::NewScreenshot(file.path));
        }
    }
    assert(all.take(all.len() as int) =~= all);
    messages
}

} // verus!
