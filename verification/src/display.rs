//! What the window shows: counts, sums, labels and colours.
use crate::model::{AppStatus, FileEntry, FileEntryView, FileStatus, FileStatusView, Speed, UiUpdateView};
use crate::size::{format_size, size_text};
use crate::state::{count, entries_view, tally, App, AppView, Tally};
use crate::text::{decimal, joined_text, starts_with, to_decimal};
use vstd::prelude::*;
use vstd::utf8::{
    decode_utf8, decode_utf8_split, encode_utf8, encode_utf8_decode_utf8, encode_utf8_valid_utf8,
    is_char_boundary,
};

verus! {

/// A colour: red, green and blue.
pub type Color = (u8, u8, u8);

/// How many bytes of a failure's reason fit into a row.
pub const REASON_BYTES: usize = 30;

/// The sum of a list of numbers.
pub open spec fn total(values: Seq<u64>) -> nat
    decreases values.len(),
{
    if values.len() == 0 {
        0
    } else {
        total(values.drop_last()) + values.last() as nat
    }
}

/// A figure of a row that the window adds up.
#[derive(Clone, Copy)]
pub enum Figure {
    /// The size of every file.
    Size,
    /// The size of the selected files.
    SelectedSize,
    /// The bytes that have arrived of the selected files.
    SelectedDownloaded,
}

impl Figure {
    /// Whether the row counts.
    pub open spec fn counts(self, e: FileEntryView) -> bool {
        self is Size || e.selected
    }

    /// The number that the row adds.
    pub open spec fn of(self, e: FileEntryView) -> u64 {
        if self is SelectedDownloaded {
            e.downloaded
        } else {
            e.file.size
        }
    }

    /// The numbers of all rows that count.
    pub open spec fn values(self, files: Seq<FileEntryView>) -> Seq<u64> {
        files.filter(|e: FileEntryView| self.counts(e)).map_values(|e: FileEntryView| self.of(e))
    }
}

/// The rates of the rows that are being downloaded.
pub open spec fn running_speeds(files: Seq<FileEntryView>) -> Seq<Speed> {
    files.filter(|e: FileEntryView| e.status is Downloading).map_values(|e: FileEntryView| e.speed)
}

proof fn total_grows(values: Seq<u64>, n: int)
    requires
        0 <= n <= values.len(),
    ensures
        total(values.take(n)) <= total(values),
    decreases values.len(),
{
    if n == values.len() {
        assert(values.take(n) =~= values);
    } else {
        total_grows(values.drop_last(), n);
        assert(values.drop_last().take(n) =~= values.take(n));
    }
}

fn checked_total(values: &Vec<u64>) -> (sum: Option<u64>)
    ensures
        total(values@) <= u64::MAX ==> sum == Some(total(values@) as u64),
        total(values@) > u64::MAX ==> sum is None,
{
    let mut sum: u64 = 0;
    let mut i: usize = 0;
    while i < values.len()
        invariant
            i <= values.len(),
            sum == total(values@.take(i as int)),
        decreases values.len() - i,
    {
        proof {
            assert(values@.take(i + 1).drop_last() =~= values@.take(i as int));
            total_grows(values@, i + 1);
        }
        match sum.checked_add(values[i]) {
            Some(next) => {
                sum = next;
            },
            None => {
                return None;
            },
        }
        i += 1;
    }
    assert(values@.take(i as int) =~= values@);
    Some(sum)
}

fn figures(files: &Vec<FileEntry>, what: Figure) -> (values: Vec<u64>)
    ensures
        values@ == what.values(entries_view(files@)),
{
    let mut values: Vec<u64> = Vec::new();
    let mut i: usize = 0;
    let ghost keep = |e: FileEntryView| what.counts(e);
    let ghost of = |e: FileEntryView| what.of(e);
    let ghost rows = entries_view(files@);
    proof {
        assert(rows.take(0) =~= Seq::empty());
        reveal(Seq::filter);
        assert(values@ =~= rows.take(0).filter(keep).map_values(of));
    }
    while i < files.len()
        invariant
            i <= files.len(),
            keep == |e: FileEntryView| what.counts(e),
            of == |e: FileEntryView| what.of(e),
            rows == entries_view(files@),
            values@ == rows.take(i as int).filter(keep).map_values(of),
        decreases files.len() - i,
    {
        let e = &files[i];
        let (counts, value): (bool, u64) = match what {
            Figure::Size => (true, e.file.size),
            Figure::SelectedSize => (e.selected, e.file.size),
            Figure::SelectedDownloaded => (e.selected, e.downloaded),
        };
        proof {
            let before = rows.take(i as int);
            assert(rows[i as int] == e@);
            assert(rows.take(i + 1) =~= before.push(e@));
            before.lemma_filter_push(e@, keep);
            assert(before.filter(keep).push(e@).map_values(of) =~= before.filter(keep).map_values(
                of,
            ).push(value));
        }
        if counts {
            values.push(value);
        }
        i += 1;
    }
    assert(rows.take(i as int) =~= rows);
    values
}

/// What stands in the place of the list while there is none.
#[derive(Debug, Clone, Copy, PartialEq, Eq, Structural)]
pub enum Placeholder {
    /// The album is on its way.
    Spinner,
    /// No album has been asked for.
    Hint,
}

/// Whether a reason can be cut to the bytes that fit without cutting a character in two.
pub open spec fn reason_can_be_cut(reason: Seq<char>) -> bool {
    encode_utf8(reason).len() > REASON_BYTES ==> is_char_boundary(
        encode_utf8(reason),
        REASON_BYTES as int,
    )
}

/// A reason, cut to the bytes that fit into a row.
pub open spec fn short_reason(reason: Seq<char>) -> Seq<char> {
    if encode_utf8(reason).len() > REASON_BYTES {
        decode_utf8(encode_utf8(reason).subrange(0, REASON_BYTES as int))
    } else {
        reason
    }
}

/// The text for a row in status `status`, of which `percent` of a hundred has arrived, at a rate of
/// `rate` bytes in a second.
pub open spec fn row_text(status: FileStatusView, percent: Seq<char>, rate: u64) -> Seq<char> {
    match status {
        FileStatusView::Idle => "—"@,
        FileStatusView::Resolving => "resolving..."@,
        FileStatusView::Downloading => percent + "%  "@ + size_text(rate as nat) + "/s"@,
        FileStatusView::Paused => "paused"@,
        FileStatusView::Done => "✓"@,
        FileStatusView::Failed(reason) => "✗ "@ + short_reason(reason),
    }
}

/// The colour of that text.
pub open spec fn row_color(status: FileStatusView) -> Color {
    match status {
        FileStatusView::Idle => (120, 120, 120),
        FileStatusView::Resolving => (200, 200, 100),
        FileStatusView::Downloading => (100, 180, 255),
        FileStatusView::Paused => (255, 200, 50),
        FileStatusView::Done => (100, 220, 100),
        FileStatusView::Failed(_) => (255, 100, 100),
    }
}

/// Cuts a reason to the bytes that fit into a row.
pub fn shorten_reason(reason: &str) -> (short: String)
    requires
        reason_can_be_cut(reason@),
    ensures
        short@ == short_reason(reason@),
{
    if reason.as_bytes().len() > REASON_BYTES {
        let (head, _tail) = reason.split_at(REASON_BYTES);
        proof {
            encode_utf8_decode_utf8(head@);
        }
        head.to_owned()
    } else {
        reason.to_owned()
    }
}

impl FileStatus {
    /// The text for a row in this status.
    pub fn text(&self, percent: &str, rate: u64) -> (text: String)
        requires
            self@ matches FileStatusView::Failed(reason) ==> reason_can_be_cut(reason),
        ensures
            text@ == row_text(self@, percent@, rate),
    {
        match self {
            FileStatus::Idle => "—".to_owned(),
            FileStatus::Resolving => "resolving...".to_owned(),
            FileStatus::Downloading => {
                let mut text = joined_text(percent, "%  ");
                text.append(format_size(rate).as_str());
                text.append("/s");
                text
            },
            FileStatus::Paused => "paused".to_owned(),
            FileStatus::Done => "✓".to_owned(),
            FileStatus::Failed(reason) => joined_text(
                "✗ ",
                shorten_reason(reason.as_str()).as_str(),
            ),
        }
    }

    /// The colour of the text for a row in this status.
    pub fn color(&self) -> (color: Color)
        ensures
            color == row_color(self@),
    {
        match self {
            FileStatus::Idle => (120, 120, 120),
            FileStatus::Resolving => (200, 200, 100),
            FileStatus::Downloading => (100, 180, 255),
            FileStatus::Paused => (255, 200, 50),
            FileStatus::Done => (100, 220, 100),
            FileStatus::Failed(_) => (255, 100, 100),
        }
    }

    /// Whether a row in this status has a progress bar.
    pub fn shows_bar(&self) -> (r: bool)
        ensures
            r == (self@ is Downloading || self@ is Paused),
    {
        matches!(self, FileStatus::Downloading | FileStatus::Paused)
    }
}

impl AppView {
    /// The line above the overall progress bar.
    pub open spec fn selection_label(self, selected_size: u64, rate: u64) -> Seq<char> {
        let selected = decimal(tally(self.files, Tally::Selected));
        selected + "/"@ + decimal(self.files.len()) + " selected  •  "@ + size_text(
            selected_size as nat,
        ) + "  •  "@ + decimal(tally(self.files, Tally::Done)) + "/"@ + selected + "  •  ↓ "@
            + size_text(rate as nat) + "/s"@
    }

    /// The line above the list.
    pub open spec fn album_label(self, size: u64) -> Seq<char> {
        "  "@ + decimal(self.files.len()) + " files  •  "@ + size_text(size as nat)
    }
}

impl App {
    /// How many rows are selected.
    pub fn selected_count(&self) -> (n: usize)
        ensures
            n == tally(self@.files, Tally::Selected),
    {
        count(&self.files, Tally::Selected)
    }

    /// How many rows are done, selected or not.
    pub fn done_count(&self) -> (n: usize)
        ensures
            n == tally(self@.files, Tally::Done),
    {
        count(&self.files, Tally::Done)
    }

    /// The sum of a figure over the rows, or `None` where it does not fit into 64 bits.
    pub fn sum(&self, what: Figure) -> (sum: Option<u64>)
        ensures
            total(what.values(self@.files)) <= u64::MAX ==> sum == Some(
                total(what.values(self@.files)) as u64,
            ),
            total(what.values(self@.files)) > u64::MAX ==> sum is None,
    {
        checked_total(&figures(&self.files, what))
    }

    /// The rates of the rows that are being downloaded, in the order of the list.
    pub fn speeds(&self) -> (speeds: Vec<Speed>)
        ensures
            speeds@ == running_speeds(self@.files),
    {
        let mut speeds: Vec<Speed> = Vec::new();
        let mut i: usize = 0;
        let ghost keep = |e: FileEntryView| e.status is Downloading;
        let ghost of = |e: FileEntryView| e.speed;
        let ghost rows = self@.files;
        proof {
            assert(rows.take(0) =~= Seq::empty());
            reveal(Seq::filter);
            assert(speeds@ =~= rows.take(0).filter(keep).map_values(of));
        }
        while i < self.files.len()
            invariant
                i <= self.files.len(),
                keep == |e: FileEntryView| e.status is Downloading,
                of == |e: FileEntryView| e.speed,
                rows == self@.files,
                speeds@ == rows.take(i as int).filter(keep).map_values(of),
            decreases self.files.len() - i,
        {
            let e = &self.files[i];
            proof {
                let before = rows.take(i as int);
                assert(rows[i as int] == e@);
                assert(rows.take(i + 1) =~= before.push(e@));
                before.lemma_filter_push(e@, keep);
                assert(before.filter(keep).push(e@).map_values(of) =~= before.filter(
                    keep,
                ).map_values(of).push(e.speed));
            }
            if matches!(e.status, FileStatus::Downloading) {
                speeds.push(e.speed);
            }
            i += 1;
        }
        assert(rows.take(i as int) =~= rows);
        speeds
    }

    /// The line above the overall progress bar.
    pub fn selection_label(&self, selected_size: u64, rate: u64) -> (label: String)
        ensures
            label@ == self@.selection_label(selected_size, rate),
    {
        let selected = to_decimal(self.selected_count() as u64);
        let mut label = joined_text(selected.as_str(), "/");
        label.append(to_decimal(self.files.len() as u64).as_str());
        label.append(" selected  •  ");
        label.append(format_size(selected_size).as_str());
        label.append("  •  ");
        label.append(to_decimal(self.done_count() as u64).as_str());
        label.append("/");
        label.append(selected.as_str());
        label.append("  •  ↓ ");
        label.append(format_size(rate).as_str());
        label.append("/s");
        label
    }

    /// The line above the list.
    pub fn album_label(&self, size: u64) -> (label: String)
        ensures
            label@ == self@.album_label(size),
    {
        let mut label = joined_text("  ", to_decimal(self.files.len() as u64).as_str());
        label.append(" files  •  ");
        label.append(format_size(size).as_str());
        label
    }

    /// The colour of the status message: red for an error, else grey.
    pub fn message_color(&self) -> (color: Color)
        ensures
            color == if "Error"@.is_prefix_of(self@.status_msg) {
                (255u8, 100u8, 100u8)
            } else {
                (150u8, 150u8, 150u8)
            },
    {
        if starts_with(self.status_msg.as_str(), "Error") {
            (255, 100, 100)
        } else {
            (150, 150, 150)
        }
    }

    /// What to show in the place of the list, if the list is empty.
    pub fn placeholder(&self) -> (shown: Option<Placeholder>)
        ensures
            shown == if self@.files.len() > 0 {
                None
            } else if self.status is Fetching {
                Some(Placeholder::Spinner)
            } else {
                Some(Placeholder::Hint)
            },
    {
        if self.files.len() > 0 {
            None
        } else if matches!(self.status, AppStatus::Fetching) {
            Some(Placeholder::Spinner)
        } else {
            Some(Placeholder::Hint)
        }
    }
}

/// The part of a reason that is shown is its beginning, and takes up no more bytes than fit.
pub proof fn short_reason_is_a_beginning(reason: Seq<char>)
    requires
        reason_can_be_cut(reason),
    ensures
        short_reason(reason).is_prefix_of(reason),
        encode_utf8(short_reason(reason)).len() <= REASON_BYTES,
{
    let bytes = encode_utf8(reason);
    encode_utf8_valid_utf8(reason);
    encode_utf8_decode_utf8(reason);
    if bytes.len() > REASON_BYTES {
        let head = bytes.subrange(0, REASON_BYTES as int);
        decode_utf8_split(bytes, REASON_BYTES as int);
        vstd::utf8::valid_utf8_split(bytes, REASON_BYTES as int);
        vstd::utf8::decode_utf8_encode_utf8(head);
        assert(short_reason(reason) =~= reason.subrange(0, short_reason(reason).len() as int));
    } else {
        assert(reason =~= reason.subrange(0, reason.len() as int));
    }
}

/// The selected files are never larger than the whole album.
pub proof fn selected_size_is_within_the_album(files: Seq<FileEntryView>)
    ensures
        total(Figure::SelectedSize.values(files)) <= total(Figure::Size.values(files)),
    decreases files.len(),
{
    if files.len() == 0 {
        reveal(Seq::filter);
    } else {
        let before = files.drop_last();
        selected_size_is_within_the_album(before);
        values_push(Figure::SelectedSize, before, files.last());
        values_push(Figure::Size, before, files.last());
        assert(before.push(files.last()) =~= files);
    }
}

proof fn values_push(what: Figure, files: Seq<FileEntryView>, e: FileEntryView)
    ensures
        total(what.values(files.push(e))) == total(what.values(files)) + if what.counts(e) {
            what.of(e) as nat
        } else {
            0
        },
{
    let keep = |e: FileEntryView| what.counts(e);
    let of = |e: FileEntryView| what.of(e);
    files.lemma_filter_push(e, keep);
    if what.counts(e) {
        assert(files.filter(keep).push(e).map_values(of) =~= what.values(files).push(what.of(e)));
        assert(what.values(files).push(what.of(e)).drop_last() =~= what.values(files));
    }
}

/// The message of a failed fetch is shown as an error.
pub proof fn fetch_error_is_shown_as_error(v: AppView, e: Seq<char>)
    ensures
        "Error"@.is_prefix_of(v.updated(UiUpdateView::FetchError(e)).status_msg),
{
    reveal_strlit("Error");
    reveal_strlit("Error: ");
    let msg = "Error: "@ + e;
    assert("Error"@ =~= msg.subrange(0, 5));
}

/// Sums are taken row by row: each row adds its size to that of the album, and where it is selected,
/// its size and what has arrived of it to those of the selection.
pub proof fn figures_add_up_row_by_row(files: Seq<FileEntryView>, e: FileEntryView)
    ensures
        total(Figure::Size.values(files.push(e))) == total(Figure::Size.values(files)) + e.file.size,
        total(Figure::SelectedSize.values(files.push(e))) == total(Figure::SelectedSize.values(files))
            + if e.selected {
            e.file.size as nat
        } else {
            0
        },
        total(Figure::SelectedDownloaded.values(files.push(e))) == total(
            Figure::SelectedDownloaded.values(files),
        ) + if e.selected {
            e.downloaded as nat
        } else {
            0
        },
        forall|what: Figure| total(#[trigger] what.values(Seq::empty())) == 0,
{
    values_push(Figure::Size, files, e);
    values_push(Figure::SelectedSize, files, e);
    values_push(Figure::SelectedDownloaded, files, e);
    reveal(Seq::filter);
    assert forall|what: Figure| total(#[trigger] what.values(Seq::empty())) == 0 by {
        assert(what.values(Seq::empty()) =~= Seq::empty());
    }
}

/// Rates are taken row by row, in order: a row adds its rate exactly while it is being downloaded.
pub proof fn rates_are_taken_row_by_row(files: Seq<FileEntryView>, e: FileEntryView)
    ensures
        running_speeds(files.push(e)) == if e.status == FileStatusView::Downloading {
            running_speeds(files).push(e.speed)
        } else {
            running_speeds(files)
        },
        running_speeds(Seq::empty()) == Seq::<Speed>::empty(),
{
    let keep = |e: FileEntryView| e.status is Downloading;
    let of = |e: FileEntryView| e.speed;
    files.lemma_filter_push(e, keep);
    if e.status is Downloading {
        assert(files.filter(keep).push(e).map_values(of) =~= running_speeds(files).push(e.speed));
    }
    reveal(Seq::filter);
    assert(running_speeds(Seq::empty()) =~= Seq::empty());
}

/// A reason of up to 30 bytes is shown whole, and of a longer one exactly the first 30 bytes.
pub proof fn thirty_bytes_of_a_reason_are_shown(reason: Seq<char>)
    requires
        reason_can_be_cut(reason),
    ensures
        encode_utf8(reason).len() <= 30 ==> short_reason(reason) == reason,
        encode_utf8(reason).len() > 30 ==> encode_utf8(short_reason(reason)) == encode_utf8(
            reason,
        ).take(30),
{
    let bytes = encode_utf8(reason);
    encode_utf8_valid_utf8(reason);
    if bytes.len() > 30 {
        vstd::utf8::valid_utf8_split(bytes, 30);
        vstd::utf8::decode_utf8_encode_utf8(bytes.subrange(0, 30));
        assert(bytes.take(30) =~= bytes.subrange(0, 30));
    }
}

/// A reason can be cut exactly when it is short enough or its 30th byte ends a character.
pub proof fn reason_is_cut_between_characters(reason: Seq<char>)
    ensures
        reason_can_be_cut(reason) <==> encode_utf8(reason).len() <= 30 || is_char_boundary(
            encode_utf8(reason),
            30,
        ),
{
}

/// What a row says: the part that has arrived and the rate while it is being downloaded, the
/// beginning of the reason where it has failed, and else a word or a sign for its status.
pub proof fn row_says_how_it_stands(percent: Seq<char>, rate: u64, reason: Seq<char>)
    ensures
        row_text(FileStatusView::Downloading, percent, rate) == percent + "%  "@ + size_text(
            rate as nat,
        ) + "/s"@,
        row_text(FileStatusView::Failed(reason), percent, rate) == "✗ "@ + short_reason(reason),
        row_text(FileStatusView::Idle, percent, rate) == "—"@,
        row_text(FileStatusView::Resolving, percent, rate) == "resolving..."@,
        row_text(FileStatusView::Paused, percent, rate) == "paused"@,
        row_text(FileStatusView::Done, percent, rate) == "✓"@,
{
}

/// The colours of the rows differ from status to status, and that of a failure is the one in which
/// the message of an error is shown.
pub proof fn colours_tell_statuses_apart(a: FileStatusView, b: FileStatusView, reason: Seq<char>)
    ensures
        row_color(a) == row_color(b) <==> a == b || (a is Failed && b is Failed),
        row_color(FileStatusView::Failed(reason)) == (255u8, 100u8, 100u8),
        row_color(FileStatusView::Idle) == (120u8, 120u8, 120u8),
        row_color(FileStatusView::Resolving) == (200u8, 200u8, 100u8),
        row_color(FileStatusView::Downloading) == (100u8, 180u8, 255u8),
        row_color(FileStatusView::Paused) == (255u8, 200u8, 50u8),
        row_color(FileStatusView::Done) == (100u8, 220u8, 100u8),
{
}

/// The line above the overall progress bar: how many rows of all are selected and how large they
/// are, how many are done of how many selected, and the rate. The line above the list: how many
/// files there are and how large they are.
pub proof fn lines_give_the_figures(v: AppView, selected: nat, done: nat, size: u64, rate: u64)
    requires
        selected == tally(v.files, Tally::Selected),
        done == tally(v.files, Tally::Done),
    ensures
        v.selection_label(size, rate) == decimal(selected) + "/"@ + decimal(v.files.len())
            + " selected  •  "@ + size_text(size as nat) + "  •  "@ + decimal(done) + "/"@ + decimal(
            selected,
        ) + "  •  ↓ "@ + size_text(rate as nat) + "/s"@,
        v.album_label(size) == "  "@ + decimal(v.files.len()) + " files  •  "@ + size_text(
            size as nat,
        ),
{
}

} // verus!
