//! The listing page: what is shown of each file, in what order, and which
//! warnings about the budgets stand above the list.

use vstd::prelude::*;
use vstd::string::StringExecFns;
use crate::disksize::Quotas;

verus! {

broadcast use vstd::string::group_string_axioms;

/// One line of the listing.
pub struct FileInfo {
    /// Seconds since the Unix epoch at which the file was last modified,
    /// zero where that is not known.
    pub time: u64,
    pub name: String,
    /// The file's length for a reader, empty where it is not known.
    pub size: String,
    pub year: i32,
    pub month: u8,
    pub day: u8,
    pub hour: u8,
    pub minute: u8,
    pub second: u8,
}

/// A line of the listing as plain values.
pub struct FileInfoView {
    pub time: u64,
    pub name: Seq<char>,
    pub size: Seq<char>,
    pub year: i32,
    pub month: u8,
    pub day: u8,
    pub hour: u8,
    pub minute: u8,
    pub second: u8,
}

impl View for FileInfo {
    type V = FileInfoView;

    open spec fn view(&self) -> FileInfoView {
        FileInfoView {
            time: self.time,
            name: self.name@,
            size: self.size@,
            year: self.year,
            month: self.month,
            day: self.day,
            hour: self.hour,
            minute: self.minute,
            second: self.second,
        }
    }
}

/// The listing page before it is rendered.
pub struct ViewTemplate {
    pub title: String,
    pub files: Vec<FileInfo>,
    pub err: String,
}

/// What the file system told about an entry.
#[derive(Clone, Copy, PartialEq, Eq, Structural, Debug)]
pub struct EntryMeta {
    pub len: u64,
    /// Seconds since the Unix epoch at the last modification, where the
    /// file system knows it and it is not before the epoch.
    pub modified: Option<u64>,
    pub is_dir: bool,
}

/// The text that `humansize::format_size` gives for a length with the
/// option set `humansize::BINARY`.
pub uninterp spec fn binary_size_text(len: u64) -> Seq<char>;

/// Formats a length with `humansize::format_size` and the option set
/// `humansize::BINARY`. The text depends on the length alone.
#[verifier::external_body]
fn format_size_binary(len: u64) -> (text: String)
    ensures
        text@ == binary_size_text(len),
{
    humansize::format_size(len, humansize::BINARY)
}

/// A date and a time of day.
#[derive(Clone, Copy, PartialEq, Eq, Structural, Debug)]
pub struct CivilTime {
    pub year: i32,
    pub month: u8,
    pub day: u8,
    pub hour: u8,
    pub minute: u8,
    pub second: u8,
}

/// The first second that `time::OffsetDateTime` can hold: the beginning of
/// the year -9999.
pub const FIRST_SECOND: i64 = -377_705_116_800;

/// The last second that `time::OffsetDateTime` can hold: the end of the
/// year 9999.
pub const LAST_SECOND: i64 = 253_402_300_799;

/// Year, month and day, in UTC, of the second `timestamp` of Unix time, as
/// `time::OffsetDateTime::from_unix_timestamp` gives them.
pub uninterp spec fn utc_date(timestamp: i64) -> (i32, u8, u8);

/// Breaks a second of Unix time into date and time of day, in UTC, through
/// `time::OffsetDateTime::from_unix_timestamp`. A second outside the years
/// -9999 to 9999 has no answer. The time of day is the second's place
/// within its day of 86400 seconds; the date is what the crate computes.
#[verifier::external_body]
fn utc_fields(timestamp: i64) -> (fields: Option<CivilTime>)
    ensures
        fields is Some <==> FIRST_SECOND <= timestamp <= LAST_SECOND,
        fields matches Some(t) ==> {
            &&& (t.year, t.month, t.day) == utc_date(timestamp)
            &&& t.hour == (timestamp % 86400) / 3600
            &&& t.minute == (timestamp % 3600) / 60
            &&& t.second == timestamp % 60
        },
{
    match time::OffsetDateTime::from_unix_timestamp(timestamp) {
        Ok(t) => Some(
            CivilTime {
                year: t.year(),
                month: t.month().into(),
                day: t.day(),
                hour: t.hour(),
                minute: t.minute(),
                second: t.second(),
            },
        ),
        Err(_) => None,
    }
}

/// The warnings about the budgets, each on a line of its own: one when no
/// more files fit, and one when the bytes are used up or nearly so.
pub open spec fn warnings(quotas: Quotas) -> Seq<char> {
    (if quotas.files.exceeded() {
        "Too many files\n"@
    } else {
        Seq::<char>::empty()
    }) + (if !quotas.bytes.nearly_exceeded() {
        Seq::<char>::empty()
    } else if quotas.bytes.exceeded() {
        "Disk storage quota full\n"@
    } else {
        "Disk storage quota is close to being full\n"@
    })
}

/// The warnings that stand above the listing for these budgets.
pub fn quota_warnings(quotas: &Quotas) -> (text: String)
    ensures
        text@ == warnings(*quotas),
{
    let mut text = String::new();
    if quotas.files.is_exceed() {
        text.append("Too many files\n");
    }
    if quotas.bytes.is_close_to_exeeed() {
        if quotas.bytes.is_exceed() {
            text.append("Disk storage quota full\n");
        } else {
            text.append("Disk storage quota is close to being full\n");
        }
    }
    text
}

/// `prefix` stands at the beginning of `s`.
pub open spec fn begins_with(s: Seq<char>, prefix: Seq<char>) -> bool {
    s.len() >= prefix.len() && s.subrange(0, prefix.len() as int) == prefix
}

/// What the listing warns of. With the file counter at its ceiling the
/// warnings begin with the line on too many files. With the bytes at nine
/// tenths of their ceiling or more, but below it, the warnings end with the
/// line on a nearly full store, and the line on a full store is not among
/// them: that line stands there from the ceiling on.
pub proof fn lemma_listing_warnings(quotas: Quotas)
    ensures
        quotas.files.current == quotas.files.allowed ==> begins_with(
            warnings(quotas),
            "Too many files\n"@,
        ),
        quotas.bytes.nearly_exceeded() && quotas.bytes.current < quotas.bytes.allowed ==> {
            ||| warnings(quotas) == "Disk storage quota is close to being full\n"@
            ||| warnings(quotas) == "Too many files\n"@
                + "Disk storage quota is close to being full\n"@
        },
        quotas.bytes.current >= quotas.bytes.allowed ==> {
            ||| warnings(quotas) == "Disk storage quota full\n"@
            ||| warnings(quotas) == "Too many files\n"@ + "Disk storage quota full\n"@
        },
{
    let none = Seq::<char>::empty();
    let many = "Too many files\n"@;
    assert forall|rest: Seq<char>| #[trigger] begins_with(many + rest, many) by {
        assert((many + rest).subrange(0, many.len() as int) == many);
    }
    assert(none + "Disk storage quota is close to being full\n"@
        == "Disk storage quota is close to being full\n"@);
    assert(none + "Disk storage quota full\n"@ == "Disk storage quota full\n"@);
}

/// A name that begins with a dot; such entries are left out of the listing.
pub open spec fn is_hidden(name: Seq<char>) -> bool {
    name.len() > 0 && name[0] == '.'
}

/// The modification time shown for an entry: zero where it is not known.
pub open spec fn shown_time(meta: Option<EntryMeta>) -> u64 {
    match meta {
        Some(EntryMeta { len, modified: Some(seconds), is_dir }) => seconds,
        _ => 0,
    }
}

/// The second of Unix time whose date is shown for a modification time.
/// The time is read as a signed number of 64 bits; where the calendar
/// cannot hold the result, the epoch stands in.
pub open spec fn shown_second(time: u64) -> i64 {
    let signed: int = if time <= i64::MAX {
        time as int
    } else {
        time - 0x1_0000_0000_0000_0000
    };
    if FIRST_SECOND <= signed <= LAST_SECOND {
        signed as i64
    } else {
        0
    }
}

/// The line of the listing for an entry of the given name.
pub open spec fn info_of(name: Seq<char>, meta: Option<EntryMeta>) -> FileInfoView {
    let second = shown_second(shown_time(meta));
    FileInfoView {
        time: shown_time(meta),
        name: match meta {
            Some(EntryMeta { len, modified, is_dir: true }) => name + "/"@,
            _ => name,
        },
        size: match meta {
            Some(m) => binary_size_text(m.len),
            None => Seq::<char>::empty(),
        },
        year: utc_date(second).0,
        month: utc_date(second).1,
        day: utc_date(second).2,
        hour: ((second % 86400) / 3600) as u8,
        minute: ((second % 3600) / 60) as u8,
        second: (second % 60) as u8,
    }
}

fn starts_with_dot(name: &str) -> (hidden: bool)
    ensures
        hidden == is_hidden(name@),
{
    let mut chars = name.chars();
    match chars.next() {
        Some(c) => c == '.',
        None => false,
    }
}

fn date_shown(time: u64) -> (fields: CivilTime)
    ensures
        (fields.year, fields.month, fields.day) == utc_date(shown_second(time)),
        fields.hour == (shown_second(time) % 86400) / 3600,
        fields.minute == (shown_second(time) % 3600) / 60,
        fields.second == shown_second(time) % 60,
{
    let signed: i64 = if time <= 0x7fff_ffff_ffff_ffff {
        time as i64
    } else {
        -((u64::MAX - time) as i64) - 1
    };
    match utc_fields(signed) {
        Some(fields) => fields,
        None => utc_fields(0).unwrap(),
    }
}

/// Makes the line of the listing for an entry, or none for a hidden one.
/// A directory gets a slash behind its name. Without metadata the size is
/// empty and the time is the epoch.
pub fn file_info(name: String, meta: Option<EntryMeta>) -> (line: Option<FileInfo>)
    ensures
        is_hidden(name@) ==> line is None,
        !is_hidden(name@) ==> line is Some && line.unwrap()@ == info_of(name@, meta),
{
    if starts_with_dot(name.as_str()) {
        return None;
    }
    let mut name = name;
    let mut time: u64 = 0;
    let mut size = String::new();
    match meta {
        Some(m) => {
            size = format_size_binary(m.len);
            match m.modified {
                Some(seconds) => {
                    time = seconds;
                },
                None => {},
            }
            if m.is_dir {
                name.append("/");
            }
        },
        None => {},
    }
    let shown = date_shown(time);
    Some(
        FileInfo {
            name,
            size,
            time,
            year: shown.year,
            month: shown.month,
            day: shown.day,
            hour: shown.hour,
            minute: shown.minute,
            second: shown.second,
        },
    )
}

/// One entry of the directory, as it came out of the listing.
pub enum DirEntry {
    /// The listing failed at this entry, with this message.
    Failed(String),
    /// The entry's name is not valid Unicode.
    Malformed,
    /// An entry with its name and, where it could be read, its metadata.
    Named { name: String, meta: Option<EntryMeta> },
}

impl DirEntry {
    /// The line this entry gets in the listing, if it gets one.
    pub open spec fn line(self) -> Option<FileInfoView> {
        match self {
            DirEntry::Named { name, meta } => if is_hidden(name@) {
                None
            } else {
                Some(info_of(name@, meta))
            },
            _ => None,
        }
    }

    /// The text this entry adds to the notices above the listing.
    pub open spec fn notice(self) -> Seq<char> {
        match self {
            DirEntry::Failed(message) => message@,
            DirEntry::Malformed => "Malformed filename skipped from the list"@,
            DirEntry::Named { name, meta } => Seq::<char>::empty(),
        }
    }
}

/// The lines of the entries that are shown, in the order of the directory.
pub open spec fn lines(entries: Seq<DirEntry>) -> Seq<FileInfoView>
    decreases entries.len(),
{
    if entries.len() == 0 {
        Seq::<FileInfoView>::empty()
    } else {
        match entries.last().line() {
            Some(line) => lines(entries.drop_last()).push(line),
            None => lines(entries.drop_last()),
        }
    }
}

/// The notices of the entries, one after the other.
pub open spec fn notices(entries: Seq<DirEntry>) -> Seq<char>
    decreases entries.len(),
{
    if entries.len() == 0 {
        Seq::<char>::empty()
    } else {
        notices(entries.drop_last()) + entries.last().notice()
    }
}

/// The lines as plain values.
pub open spec fn views(files: Seq<FileInfo>) -> Seq<FileInfoView> {
    files.map_values(|file: FileInfo| file@)
}

/// Earlier modification times come first.
pub open spec fn sorted_by_time(files: Seq<FileInfoView>) -> bool {
    forall|i: int, j: int| 0 <= i <= j < files.len() ==> files[i].time <= files[j].time
}

/// The lines with modification time `time`, in the order in which they stand.
pub open spec fn at_time(files: Seq<FileInfoView>, time: u64) -> Seq<FileInfoView> {
    files.filter(|file: FileInfoView| file.time == time)
}

/// `sorted` holds the lines of `listed`, as many as there are, ordered by
/// modification time, lines of the same time in the order they had in
/// `listed`.
pub open spec fn is_stable_sort_of(sorted: Seq<FileInfoView>, listed: Seq<FileInfoView>) -> bool {
    &&& sorted.len() == listed.len()
    &&& sorted_by_time(sorted)
    &&& forall|time: u64| #[trigger] at_time(sorted, time) == at_time(listed, time)
}

proof fn lemma_none_at_time(files: Seq<FileInfoView>, time: u64)
    requires
        forall|i: int| 0 <= i < files.len() ==> #[trigger] files[i].time != time,
    ensures
        at_time(files, time) == Seq::<FileInfoView>::empty(),
    decreases files.len(),
{
    reveal(Seq::filter);
    if files.len() > 0 {
        assert forall|i: int| 0 <= i < files.drop_last().len() implies #[trigger] files.drop_last()[i].time
            != time by {
            assert(files.drop_last()[i] == files[i]);
        }
        lemma_none_at_time(files.drop_last(), time);
    }
}

proof fn lemma_one_at_time(line: FileInfoView, time: u64)
    ensures
        at_time(seq![line], time) == if line.time == time {
            seq![line]
        } else {
            Seq::<FileInfoView>::empty()
        },
{
    reveal(Seq::filter);
    let one = seq![line];
    let none = Seq::<FileInfoView>::empty();
    assert(one.drop_last() == none);
    assert(at_time(none, time) == none);
    assert(one.last() == line);
    assert(none.push(line) == one);
}

proof fn lemma_insert_behind_equals(files: Seq<FileInfoView>, at: int, line: FileInfoView)
    requires
        sorted_by_time(files),
        0 <= at <= files.len(),
        forall|i: int| 0 <= i < at ==> #[trigger] files[i].time <= line.time,
        forall|i: int| at <= i < files.len() ==> #[trigger] files[i].time > line.time,
    ensures
        is_stable_sort_of(files.insert(at, line), files.push(line)),
{
    let front = files.subrange(0, at);
    let back = files.subrange(at, files.len() as int);
    let one = seq![line];
    let placed = files.insert(at, line);
    assert(placed == front + one + back);
    assert(files.push(line) == front + back + one);
    assert forall|time: u64| #[trigger] at_time(placed, time) == at_time(files.push(line), time) by {
        let same = |file: FileInfoView| file.time == time;
        Seq::filter_distributes_over_add(front, one, same);
        Seq::filter_distributes_over_add(front + one, back, same);
        Seq::filter_distributes_over_add(front, back, same);
        Seq::filter_distributes_over_add(front + back, one, same);
        lemma_one_at_time(line, time);
        if line.time == time {
            assert forall|i: int| 0 <= i < back.len() implies #[trigger] back[i].time != time by {
                assert(back[i] == files[at + i]);
            }
            lemma_none_at_time(back, time);
        }
        assert(at_time(front, time) + at_time(one, time) + at_time(back, time) == at_time(
            front,
            time,
        ) + at_time(back, time) + at_time(one, time));
    }
    assert forall|i: int, j: int| 0 <= i <= j < placed.len() implies placed[i].time
        <= placed[j].time by {
        if i < at && j > at {
            assert(placed[i] == files[i] && placed[j] == files[j - 1]);
        } else if i > at {
            assert(placed[i] == files[i - 1] && placed[j] == files[j - 1]);
        } else if j < at {
            assert(placed[i] == files[i] && placed[j] == files[j]);
        } else if i == at && j > at {
            assert(placed[j] == files[j - 1]);
        } else if i < at && j == at {
            assert(placed[i] == files[i]);
        }
    }
}

proof fn lemma_stable_sort_grows(
    sorted: Seq<FileInfoView>,
    listed: Seq<FileInfoView>,
    placed: Seq<FileInfoView>,
    line: FileInfoView,
)
    requires
        is_stable_sort_of(sorted, listed),
        is_stable_sort_of(placed, sorted.push(line)),
    ensures
        is_stable_sort_of(placed, listed.push(line)),
{
    assert forall|time: u64| #[trigger] at_time(placed, time) == at_time(
        listed.push(line),
        time,
    ) by {
        let same = |file: FileInfoView| file.time == time;
        let one = seq![line];
        assert(sorted.push(line) == sorted + one);
        assert(listed.push(line) == listed + one);
        Seq::filter_distributes_over_add(sorted, one, same);
        Seq::filter_distributes_over_add(listed, one, same);
        assert(at_time(placed, time) == at_time(sorted.push(line), time));
        assert(at_time(sorted, time) == at_time(listed, time));
    }
}

/// Puts a line into a list ordered by modification time, behind the lines
/// that are not younger than it.
fn insert_by_time(files: &mut Vec<FileInfo>, line: FileInfo)
    requires
        sorted_by_time(views(old(files)@)),
    ensures
        is_stable_sort_of(views(final(files)@), views(old(files)@).push(line@)),
{
    let mut at: usize = files.len();
    while at > 0 && files[at - 1].time > line.time
        invariant
            at <= files.len(),
            *files == *old(files),
            forall|i: int| at <= i < files.len() ==> #[trigger] views(files@)[i].time > line.time,
        decreases at,
    {
        at = at - 1;
    }
    proof {
        let before = views(files@);
        assert forall|i: int| 0 <= i < at implies #[trigger] before[i].time <= line.time by {
            assert(before[i].time <= before[at - 1].time);
        }
        lemma_insert_behind_equals(before, at as int, line@);
        assert(views(files@.insert(at as int, line)) =~= before.insert(at as int, line@));
    }
    files.insert(at, line);
}

/// Builds the listing page. Above the list stand the warnings about the
/// budgets and then what went wrong with single entries, in the order of
/// the directory. The list holds a line for each named entry that is not
/// hidden, ordered by modification time; lines of equal time keep the
/// order of the directory.
pub fn serve_view(title: String, quotas: &Quotas, entries: &Vec<DirEntry>) -> (page: ViewTemplate)
    ensures
        page.title@ == title@,
        page.err@ == warnings(*quotas) + notices(entries@),
        is_stable_sort_of(views(page.files@), lines(entries@)),
{
    let mut err = quota_warnings(quotas);
    let mut files: Vec<FileInfo> = Vec::new();
    proof {
        assert(views(files@) =~= Seq::<FileInfoView>::empty());
    }
    for i in 0..entries.len()
        invariant
            err@ == warnings(*quotas) + notices(entries@.take(i as int)),
            is_stable_sort_of(views(files@), lines(entries@.take(i as int))),
    {
        proof {
            assert(entries@.take(i + 1).drop_last() == entries@.take(i as int));
            assert(entries@.take(i + 1).last() == entries@[i as int]);
        }
        let ghost shown = views(files@);
        match &entries[i] {
            DirEntry::Failed(message) => {
                err.append(message.as_str());
            },
            DirEntry::Malformed => {
                err.append("Malformed filename skipped from the list");
            },
            DirEntry::Named { name, meta } => {
                match file_info(name.clone(), *meta) {
                    Some(line) => {
                        insert_by_time(&mut files, line);
                        proof {
                            lemma_stable_sort_grows(
                                shown,
                                lines(entries@.take(i as int)),
                                views(files@),
                                line@,
                            );
                        }
                    },
                    None => {},
                }
            },
        }
    }
    proof {
        assert(entries@.take(entries@.len() as int) == entries@);
    }
    ViewTemplate { title, files, err }
}

} // verus!
