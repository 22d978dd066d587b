//! The rules of the three requests that change a pool: sharing a text,
//! uploading files and removing a file.

use vstd::prelude::*;
use vstd::string::StringExecFns;
use crate::disksize::Quotas;

verus! {

broadcast use vstd::string::group_string_axioms;

/// The answer a rejected request gets.
#[derive(Clone, Copy, PartialEq, Eq, Structural, Debug)]
pub enum Status {
    /// The request itself is at fault, such as a file name that is not allowed.
    BadRequest,
    /// A budget has no room for what was sent.
    PayloadTooLarge,
    /// Every candidate name for the file was taken.
    Conflict,
    /// The file system let the server down.
    InternalServerError,
}

impl Status {
    /// The HTTP status code.
    pub fn code(&self) -> (code: u16)
        ensures
            code == match *self {
                Status::BadRequest => 400u16,
                Status::Conflict => 409u16,
                Status::PayloadTooLarge => 413u16,
                Status::InternalServerError => 500u16,
            },
    {
        match self {
            Status::BadRequest => 400,
            Status::Conflict => 409,
            Status::PayloadTooLarge => 413,
            Status::InternalServerError => 500,
        }
    }
}

/// Two dots in a row stand somewhere in the name.
pub open spec fn has_parent_reference(name: Seq<char>) -> bool {
    exists|i: int| 0 <= i < name.len() - 1 && #[trigger] name[i] == '.' && name[i + 1] == '.'
}

/// A slash stands somewhere in the name.
pub open spec fn has_separator(name: Seq<char>) -> bool {
    exists|i: int| 0 <= i < name.len() && #[trigger] name[i] == '/'
}

/// A name that stays inside the pool's directory: no reference to a parent
/// directory and no path separator.
pub open spec fn is_allowed_filename(name: Seq<char>) -> bool {
    !has_parent_reference(name) && !has_separator(name)
}

/// Whether `x` may name a file of the pool: it must hold neither two dots
/// in a row nor a slash.
pub fn allowed_filename(x: &str) -> (allowed: bool)
    ensures
        allowed == is_allowed_filename(x@),
{
    let chars = x.chars();
    let mut after_dot = false;
    for c in it: chars
        invariant
            it.seq() == x@,
            is_allowed_filename(x@.take(it.index())),
            after_dot == (it.index() > 0 && x@[it.index() - 1] == '.'),
    {
        let ghost at = it.index();
        if c == '/' {
            assert(x@[at] == '/');
            return false;
        }
        if c == '.' && after_dot {
            assert(x@[at - 1] == '.' && x@[at - 1 + 1] == '.');
            return false;
        }
        after_dot = c == '.';
        assert(is_allowed_filename(x@.take(at + 1))) by {
            let before = x@.take(at);
            let now = x@.take(at + 1);
            assert forall|i: int| 0 <= i < now.len() - 1 && #[trigger] now[i] == '.' implies now[i
                + 1] != '.' by {
                if i < at - 1 {
                    assert(before[i] == now[i] && before[i + 1] == now[i + 1]);
                }
            }
            assert forall|i: int| 0 <= i < now.len() implies now[i] != '/' by {
                if i < at {
                    assert(before[i] == now[i]);
                }
            }
        }
    }
    assert(x@.take(x@.len() as int) == x@);
    true
}

/// `suffix` stands at the end of `s`.
pub open spec fn ends_with(s: Seq<char>, suffix: Seq<char>) -> bool {
    s.len() >= suffix.len() && s.subrange(s.len() - suffix.len(), s.len() as int) == suffix
}

/// The file name under which a text with the given title is stored.
pub open spec fn text_name(title: Seq<char>) -> Seq<char> {
    if ends_with(title, ".txt"@) {
        title
    } else {
        title + ".txt"@
    }
}

fn has_txt_suffix(s: &str) -> (found: bool)
    ensures
        found == ends_with(s@, ".txt"@),
{
    let chars = s.chars();
    let mut seen: u8 = 0;
    let mut last: (char, char, char, char) = ('0', '0', '0', '0');
    for c in it: chars
        invariant
            it.seq() == s@,
            seen == if it.index() < 4 {
                it.index()
            } else {
                4
            },
            seen >= 1 ==> last.3 == s@[it.index() - 1],
            seen >= 2 ==> last.2 == s@[it.index() - 2],
            seen >= 3 ==> last.1 == s@[it.index() - 3],
            seen >= 4 ==> last.0 == s@[it.index() - 4],
    {
        last = (last.1, last.2, last.3, c);
        if seen < 4 {
            seen = seen + 1;
        }
    }
    proof {
        reveal_strlit(".txt");
        let tail = s@.subrange(s@.len() - 4, s@.len() as int);
        if seen == 4 {
            if last.0 == '.' && last.1 == 't' && last.2 == 'x' && last.3 == 't' {
                assert(tail =~= ".txt"@);
            } else {
                assert(tail[0] == last.0 && tail[1] == last.1 && tail[2] == last.2 && tail[3]
                    == last.3);
            }
        }
    }
    seen == 4 && last.0 == '.' && last.1 == 't' && last.2 == 'x' && last.3 == 't'
}

/// Turns the title of a shared text into its file name.
pub fn text_filename(title: String) -> (name: String)
    ensures
        name@ == text_name(title@),
{
    let mut name = title;
    if !has_txt_suffix(name.as_str()) {
        name.append(".txt");
    }
    name
}

/// The name a cut upload is moved to, so that readers can tell it is incomplete.
pub fn partial_name(name: &str) -> (marked: String)
    ensures
        marked@ == name@ + ".partial"@,
{
    let mut marked = name.to_owned();
    marked.append(".partial");
    marked
}

/// The character for a decimal digit.
pub open spec fn digit(d: nat) -> char {
    seq!['0', '1', '2', '3', '4', '5', '6', '7', '8', '9'][d as int]
}

/// A number written in decimal, without sign or leading zeros.
pub open spec fn decimal(n: nat) -> Seq<char>
    decreases n,
{
    if n < 10 {
        seq![digit(n)]
    } else {
        decimal(n / 10).push(digit(n % 10))
    }
}

fn digit_text(d: u32) -> (text: &'static str)
    requires
        d < 10,
    ensures
        text@ == seq![digit(d as nat)],
{
    proof {
        reveal_strlit("0");
        reveal_strlit("1");
        reveal_strlit("2");
        reveal_strlit("3");
        reveal_strlit("4");
        reveal_strlit("5");
        reveal_strlit("6");
        reveal_strlit("7");
        reveal_strlit("8");
        reveal_strlit("9");
    }
    let text = match d {
        0 => "0",
        1 => "1",
        2 => "2",
        3 => "3",
        4 => "4",
        5 => "5",
        6 => "6",
        7 => "7",
        8 => "8",
        _ => "9",
    };
    assert(text@ =~= seq![digit(d as nat)]);
    text
}

fn push_decimal(s: &mut String, n: u32)
    ensures
        final(s)@ == old(s)@ + decimal(n as nat),
    decreases n,
{
    if n >= 10 {
        push_decimal(s, n / 10);
    }
    let ghost before = s@;
    s.append(digit_text(n % 10));
    assert(s@ == before.push(digit((n % 10) as nat)));
}

/// How many names are tried for a new file before the request is refused.
pub const MAX_TRIES: u32 = 20;

/// The name tried after `failed` names were found taken: the wanted name
/// itself at first, then the name with a dot and the count behind it.
pub open spec fn candidate_name(filename: Seq<char>, failed: nat) -> Seq<char> {
    if failed == 0 {
        filename
    } else {
        filename + seq!['.'] + decimal(failed)
    }
}

fn make_candidate(filename: &str, failed: u32) -> (name: String)
    ensures
        name@ == candidate_name(filename@, failed as nat),
{
    let mut name = filename.to_owned();
    if failed > 0 {
        proof {
            reveal_strlit(".");
            assert("."@ =~= seq!['.']);
        }
        name.append(".");
        push_decimal(&mut name, failed);
    }
    name
}

/// A file that is being created: its slot in the file budget is reserved,
/// and a free name for it is still being looked for.
pub struct NewFile {
    /// Names found taken so far.
    pub tries: u32,
    /// Bytes reserved for the file's content before it was created. They are
    /// given back with the slot if no file comes to exist.
    pub reserved: u64,
}

/// What became of an attempt to create a file under a candidate name.
#[derive(Clone, Copy, PartialEq, Eq, Structural, Debug)]
pub enum CreateOutcome {
    /// The file exists now and is open for writing.
    Created,
    /// A file of that name was there already.
    AlreadyExists,
    /// The file system refused for another reason.
    Failed,
}

/// What to do after an attempt to create a file.
pub enum CreateStep {
    /// The file is open; go on and write.
    Opened,
    /// Try again under `name`.
    Retry { pending: NewFile, name: String },
    /// Give up. The reservations have been given back.
    Rejected(Status),
}

impl Quotas {
    /// The budgets after everything held for a file that did not come to
    /// exist has been given back.
    pub open spec fn given_back(self, pending: NewFile) -> Quotas {
        Quotas { bytes: self.bytes.reduced(pending.reserved), files: self.files.reduced(1) }
    }
}

/// Reserves a slot in the file budget for a new file named `filename` and
/// names the first candidate. With the budget exhausted the slot is given
/// back at once and the request is refused as too large, before any file is
/// touched.
pub fn create_new_file(quotas: &mut Quotas, filename: &str) -> (begun: Result<
    (NewFile, String),
    Status,
>)
    ensures
        final(quotas).bytes == old(quotas).bytes,
        match begun {
            Ok((pending, name)) => {
                &&& !old(quotas).files.overflows_with(1)
                &&& final(quotas).files == old(quotas).files.bumped(1)
                &&& pending == (NewFile { tries: 0, reserved: 0 })
                &&& name@ == filename@
            },
            Err(status) => {
                &&& old(quotas).files.overflows_with(1)
                &&& final(quotas).files == old(quotas).files
                &&& status == Status::PayloadTooLarge
            },
        },
{
    if !quotas.files.reserve(1) {
        return Err(Status::PayloadTooLarge);
    }
    Ok((NewFile { tries: 0, reserved: 0 }, make_candidate(filename, 0)))
}

impl NewFile {
    /// Takes the outcome of the last attempt. A created file ends the search
    /// with the reservations kept. A taken name leads to the next candidate
    /// until `MAX_TRIES` names have been tried, then to a conflict. Any other
    /// failure is a server error. Whenever the search ends without a file,
    /// the slot and the bytes reserved for the content are given back.
    pub fn on_outcome(self, quotas: &mut Quotas, filename: &str, outcome: CreateOutcome) -> (step:
        CreateStep)
        ensures
            match outcome {
                CreateOutcome::Created => step is Opened && *final(quotas) == *old(quotas),
                CreateOutcome::Failed => step == CreateStep::Rejected(Status::InternalServerError)
                    && *final(quotas) == old(quotas).given_back(self),
                CreateOutcome::AlreadyExists => if self.tries + 1 < MAX_TRIES {
                    &&& *final(quotas) == *old(quotas)
                    &&& step matches CreateStep::Retry { pending, name }
                    &&& pending == (NewFile { tries: (self.tries + 1) as u32, ..self })
                    &&& name@ == candidate_name(filename@, (self.tries + 1) as nat)
                } else {
                    &&& step == CreateStep::Rejected(Status::Conflict)
                    &&& *final(quotas) == old(quotas).given_back(self)
                },
            },
    {
        match outcome {
            CreateOutcome::Created => CreateStep::Opened,
            CreateOutcome::Failed => {
                quotas.files.reduce(1);
                quotas.bytes.reduce(self.reserved);
                CreateStep::Rejected(Status::InternalServerError)
            },
            CreateOutcome::AlreadyExists => {
                if self.tries < MAX_TRIES - 1 {
                    let failed: u32 = self.tries + 1;
                    CreateStep::Retry {
                        pending: NewFile { tries: failed, reserved: self.reserved },
                        name: make_candidate(filename, failed),
                    }
                } else {
                    quotas.files.reduce(1);
                    quotas.bytes.reduce(self.reserved);
                    CreateStep::Rejected(Status::Conflict)
                }
            },
        }
    }
}

/// Why a text cannot be taken, if it cannot: its title is no allowed file
/// name, or its body or one more file does not fit the budgets.
pub open spec fn text_refusal(quotas: Quotas, title: Seq<char>, body_len: u64) -> Option<Status> {
    if !is_allowed_filename(title) {
        Some(Status::BadRequest)
    } else if quotas.bytes.overflows_with(body_len) || quotas.files.overflows_with(1) {
        Some(Status::PayloadTooLarge)
    } else {
        None
    }
}

/// Admits a text of `body_len` bytes under the given title. The whole body
/// is reserved at once, then a slot for the file. A refusal leaves the
/// budgets as they were. On success the file is still to be created, under
/// the name returned; the pending creation holds the reserved bytes.
pub fn share_text(quotas: &mut Quotas, title: String, body_len: u64) -> (admitted: Result<
    (NewFile, String),
    Status,
>)
    ensures
        match admitted {
            Ok((pending, name)) => {
                &&& text_refusal(*old(quotas), title@, body_len) is None
                &&& final(quotas).bytes == old(quotas).bytes.bumped(body_len)
                &&& final(quotas).files == old(quotas).files.bumped(1)
                &&& pending == (NewFile { tries: 0, reserved: body_len })
                &&& name@ == text_name(title@)
            },
            Err(status) => {
                &&& text_refusal(*old(quotas), title@, body_len) == Some(status)
                &&& *final(quotas) == *old(quotas)
            },
        },
{
    if !allowed_filename(title.as_str()) {
        return Err(Status::BadRequest);
    }
    let filename = text_filename(title);
    if !quotas.bytes.reserve(body_len) {
        return Err(Status::PayloadTooLarge);
    }
    match create_new_file(quotas, filename.as_str()) {
        Ok((pending, name)) => Ok((NewFile { tries: pending.tries, reserved: body_len }, name)),
        Err(status) => {
            quotas.bytes.reduce(body_len);
            Err(status)
        },
    }
}

/// Says whether a file of this name may be removed at all. This comes
/// before the file system is asked anything.
pub fn remove_admit(filename: &str) -> (admitted: Result<(), Status>)
    ensures
        admitted == if is_allowed_filename(filename@) {
            Ok::<(), Status>(())
        } else {
            Err::<(), Status>(Status::BadRequest)
        },
{
    if allowed_filename(filename) {
        Ok(())
    } else {
        Err(Status::BadRequest)
    }
}

/// Accounts for an attempt to remove a file. `size` is the file's length as
/// read before the attempt, `removed` whether the file system removed it.
/// A removed file frees its slot and, where its length is known, its bytes.
/// A failed removal changes nothing and is a server error.
pub fn remove(quotas: &mut Quotas, size: Option<u64>, removed: bool) -> (done: Result<(), Status>)
    ensures
        removed ==> done is Ok && *final(quotas) == old(quotas).without_file(size),
        !removed ==> done == Err::<(), Status>(Status::InternalServerError) && *final(quotas)
            == *old(quotas),
{
    if !removed {
        return Err(Status::InternalServerError);
    }
    quotas.files.reduce(1);
    match size {
        Some(len) => {
            quotas.bytes.reduce(len);
        },
        None => {},
    }
    Ok(())
}

} // verus!
