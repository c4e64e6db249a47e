//! The bounded source reader: turning the line-oriented job list into
//! crawl jobs, and recovering the progress total from the file's tail.
//!
//! Each record of the input is `<index>,<host-or-path>`. The payload
//! after the first comma becomes an absolute URL, prefixed with a fixed
//! scheme when it has none. A malformed record fails the run
//! immediately; nothing is skipped or retried. The file I/O itself
//! (opening, seeking, line splitting) happens outside this crate; the
//! decisions on the bytes and lines are made - and verified - here.

use vstd::prelude::*;

verus! {

/// How a job record or the tail inspection can be malformed.
#[derive(Clone, Copy, Debug, PartialEq, Eq, Structural)]
pub enum AssignError {
    /// The inspected tail holds no complete record (no line break).
    MissingRecord,
    /// A record has no comma separating index and payload.
    MissingDelimiter,
    /// The index field of the final record is empty, non-numeric, or
    /// too large to hold.
    NotNumeric,
    /// The payload does not parse as an absolute URL.
    InvalidUrl,
}

/// One crawl job: the absolute URL a worker must visit. Immutable once
/// created; consumed exactly once by exactly one worker.
#[derive(Clone, Debug)]
pub struct Job {
    pub url: String,
}

impl View for Job {
    type V = Seq<char>;

    open spec fn view(&self) -> Seq<char> {
        self.url@
    }
}

/// The error type of the URL parser this crate leans on.
#[verifier::external_type_specification]
#[verifier::external_body]
pub struct ExUrlParseError(url::ParseError);

/// What the URL parser makes of a string: `Some` with the normalized
/// serialization when the string is a valid absolute URL, `None`
/// otherwise. Left uninterpreted: the WHATWG parsing rules are pages
/// long, but they are a function of the input string alone.
pub uninterp spec fn parsed_url(s: Seq<char>) -> Option<Seq<char>>;

/// Relies on url::Url::parse: with no base URL and no overrides the
/// result is a function of the input string alone; `Url::as_str`
/// returns the parsed URL's normalized serialization.
#[verifier::external_body]
fn parse_url(s: &str) -> (r: Result<String, url::ParseError>)
    ensures
        r is Ok <==> parsed_url(s@) is Some,
        r is Ok ==> r.unwrap()@ == parsed_url(s@).unwrap(),
{
    match url::Url::parse(s) {
        Ok(u) => Ok(String::from(u.as_str())),
        Err(e) => Err(e),
    }
}

/// Position of the first occurrence of `x` in `s`.
pub open spec fn first_pos<T>(s: Seq<T>, x: T) -> Option<int>
    decreases s.len(),
{
    if s.len() == 0 {
        None
    } else if s[0] == x {
        Some(0)
    } else {
        match first_pos(s.drop_first(), x) {
            Some(i) => Some(i + 1),
            None => None,
        }
    }
}

/// Position of the last occurrence of `x` in `s`.
pub open spec fn last_pos<T>(s: Seq<T>, x: T) -> Option<int>
    decreases s.len(),
{
    if s.len() == 0 {
        None
    } else if s.last() == x {
        Some(s.len() - 1)
    } else {
        last_pos(s.drop_last(), x)
    }
}

pub proof fn lemma_first_pos_at<T>(s: Seq<T>, x: T, k: int)
    requires
        0 <= k < s.len(),
        s[k] == x,
        forall|j: int| 0 <= j < k ==> s[j] != x,
    ensures
        first_pos(s, x) == Some(k),
    decreases s.len(),
{
    if k > 0 {
        lemma_first_pos_at(s.drop_first(), x, k - 1);
    }
}

pub proof fn lemma_first_pos_none<T>(s: Seq<T>, x: T)
    requires
        forall|j: int| 0 <= j < s.len() ==> s[j] != x,
    ensures
        first_pos(s, x) is None,
    decreases s.len(),
{
    if s.len() > 0 {
        lemma_first_pos_none(s.drop_first(), x);
    }
}

pub proof fn lemma_last_pos_at<T>(s: Seq<T>, x: T, k: int)
    requires
        0 <= k < s.len(),
        s[k] == x,
        forall|j: int| k < j < s.len() ==> s[j] != x,
    ensures
        last_pos(s, x) == Some(k),
    decreases s.len(),
{
    if k < s.len() - 1 {
        lemma_last_pos_at(s.drop_last(), x, k);
    }
}

pub proof fn lemma_last_pos_none<T>(s: Seq<T>, x: T)
    requires
        forall|j: int| 0 <= j < s.len() ==> s[j] != x,
    ensures
        last_pos(s, x) is None,
    decreases s.len(),
{
    if s.len() > 0 {
        lemma_last_pos_none(s.drop_last(), x);
    }
}

/// An ASCII decimal digit.
pub open spec fn is_ascii_digit(b: u8) -> bool {
    48 <= b <= 57
}

pub open spec fn all_digits(s: Seq<u8>) -> bool {
    forall|i: int| 0 <= i < s.len() ==> is_ascii_digit(#[trigger] s[i])
}

/// The number the digit string denotes, most significant digit first.
pub open spec fn digits_value(s: Seq<u8>) -> int
    decreases s.len(),
{
    if s.len() == 0 {
        0
    } else {
        digits_value(s.drop_last()) * 10 + (s.last() - 48)
    }
}

pub proof fn lemma_digits_value_nonneg(s: Seq<u8>)
    requires
        all_digits(s),
    ensures
        digits_value(s) >= 0,
    decreases s.len(),
{
    if s.len() > 0 {
        lemma_digits_value_nonneg(s.drop_last());
    }
}

/// Appending digits never shrinks the value: the value of a digit
/// string is at least that of any of its prefixes.
pub proof fn lemma_digits_value_prefix_le(s: Seq<u8>, j: int)
    requires
        all_digits(s),
        0 <= j <= s.len(),
    ensures
        digits_value(s.take(j)) <= digits_value(s),
    decreases s.len() - j,
{
    if j == s.len() {
        assert(s.take(j) =~= s);
    } else {
        lemma_digits_value_prefix_le(s, j + 1);
        assert(s.take(j + 1).drop_last() =~= s.take(j));
        assert(all_digits(s.take(j))) by {
            assert(forall|i: int| 0 <= i < j ==> s.take(j)[i] == s[i]);
        }
        lemma_digits_value_nonneg(s.take(j));
        assert(s.take(j + 1).last() == s[j]);
        assert(is_ascii_digit(s[j]));
        assert(digits_value(s.take(j + 1)) == digits_value(s.take(j)) * 10 + (s[j] - 48));
        assert(digits_value(s.take(j)) * 10 >= digits_value(s.take(j)));
    }
}

/// Parses the ASCII decimal in `s[lo..hi]`; produces a value exactly
/// when that range is a nonempty digit string whose value fits.
pub fn parse_decimal_in(s: &[u8], lo: usize, hi: usize) -> (r: Option<usize>)
    requires
        lo <= hi <= s@.len(),
    ensures
        r is Some <==> (lo < hi && all_digits(s@.subrange(lo as int, hi as int)) && digits_value(
            s@.subrange(lo as int, hi as int),
        ) <= usize::MAX),
        r is Some ==> r.unwrap() as int == digits_value(s@.subrange(lo as int, hi as int)),
{
    let ghost digits = s@.subrange(lo as int, hi as int);
    if lo == hi {
        return None;
    }
    let mut acc: usize = 0;
    let mut i: usize = lo;
    while i < hi
        invariant
            lo <= i <= hi <= s@.len(),
            digits == s@.subrange(lo as int, hi as int),
            all_digits(digits.take(i - lo)),
            acc as int == digits_value(digits.take(i - lo)),
        decreases hi - i,
    {
        let b = s[i];
        proof {
            assert(digits[i - lo] == s@[i as int]);
        }
        if b < 48 || b > 57 {
            proof {
                assert(!is_ascii_digit(digits[i - lo]));
            }
            return None;
        }
        let d = (b - 48) as usize;
        proof {
            vstd::arithmetic::div_mod::lemma_fundamental_div_mod(usize::MAX as int, 10);
            assert(digits.take(i - lo + 1).drop_last() =~= digits.take(i - lo));
            assert(digits.take(i - lo + 1).last() == digits[i - lo]);
        }
        if acc > usize::MAX / 10 || (acc == usize::MAX / 10 && d > usize::MAX % 10) {
            proof {
                let k = i - lo + 1;
                assert(digits_value(digits.take(k)) == acc * 10 + d);
                assert(acc * 10 + d > usize::MAX);
                if all_digits(digits) {
                    lemma_digits_value_prefix_le(digits, k);
                }
            }
            return None;
        }
        proof {
            assert(acc * 10 + d <= usize::MAX);
        }
        acc = acc * 10 + d;
        i = i + 1;
    }
    proof {
        assert(digits.take(hi - lo) =~= digits);
    }
    Some(acc)
}

/// Parses a whole slice as an ASCII decimal.
pub fn parse_decimal(s: &[u8]) -> (r: Option<usize>)
    ensures
        r is Some <==> (s@.len() > 0 && all_digits(s@) && digits_value(s@) <= usize::MAX),
        r is Some ==> r.unwrap() as int == digits_value(s@),
{
    let n = s.len();
    let r = parse_decimal_in(s, 0, n);
    proof {
        assert(s@.subrange(0, n as int) =~= s@);
    }
    r
}

/// Greatest `j < end` with `s[j] == b`.
fn rfind_byte(s: &[u8], end: usize, b: u8) -> (r: Option<usize>)
    requires
        end <= s@.len(),
    ensures
        match r {
            Some(j) => j < end && last_pos(s@.take(end as int), b) == Some(j as int),
            None => last_pos(s@.take(end as int), b) is None,
        },
{
    let mut i: usize = end;
    while i > 0
        invariant
            i <= end <= s@.len(),
            forall|j: int| i <= j < end ==> s@[j] != b,
        decreases i,
    {
        i = i - 1;
        if s[i] == b {
            proof {
                lemma_last_pos_at(s@.take(end as int), b, i as int);
            }
            return Some(i);
        }
    }
    proof {
        lemma_last_pos_none(s@.take(end as int), b);
    }
    None
}

/// Least `j` in `[lo, hi)` with `s[j] == b`, as an absolute index.
fn find_byte_in(s: &[u8], lo: usize, hi: usize, b: u8) -> (r: Option<usize>)
    requires
        lo <= hi <= s@.len(),
    ensures
        match r {
            Some(j) => lo <= j < hi && first_pos(s@.subrange(lo as int, hi as int), b) == Some(
                j - lo,
            ),
            None => first_pos(s@.subrange(lo as int, hi as int), b) is None,
        },
{
    let mut i: usize = lo;
    while i < hi
        invariant
            lo <= i <= hi <= s@.len(),
            forall|j: int| lo <= j < i ==> s@[j] != b,
        decreases hi - i,
    {
        if s[i] == b {
            proof {
                lemma_first_pos_at(s@.subrange(lo as int, hi as int), b, i - lo);
            }
            return Some(i);
        }
        i = i + 1;
    }
    proof {
        lemma_first_pos_none(s@.subrange(lo as int, hi as int), b);
    }
    None
}

/// How many bytes of the file's tail are inspected to find the final
/// record's index.
pub const TAIL_WINDOW: u64 = 128;

/// Where the tail-inspection window starts in a file of `file_len`
/// bytes: `TAIL_WINDOW` bytes from the end, or the very beginning of a
/// shorter file.
pub fn tail_window_start(file_len: u64) -> (r: u64)
    ensures
        file_len >= TAIL_WINDOW ==> r == file_len - TAIL_WINDOW,
        file_len < TAIL_WINDOW ==> r == 0,
{
    if file_len >= TAIL_WINDOW {
        file_len - TAIL_WINDOW
    } else {
        0
    }
}

/// What the tail inspection computes: the value of the index field of
/// the final complete record in the window, or why there is none.
///
/// The final record lies between the last line break and the one
/// before it (or the start of the window). Its index field is
/// everything before the record's first comma.
pub open spec fn spec_largest_index(tail: Seq<u8>) -> Result<int, AssignError> {
    match last_pos(tail, 10u8) {
        None => Err(AssignError::MissingRecord),
        Some(l) => {
            let start = match last_pos(tail.take(l), 10u8) {
                Some(p) => p + 1,
                None => 0,
            };
            let rec = tail.subrange(start, l);
            match first_pos(rec, 44u8) {
                None => Err(AssignError::MissingDelimiter),
                Some(ci) => {
                    let digits = rec.subrange(0, ci);
                    if digits.len() > 0 && all_digits(digits) && digits_value(digits)
                        <= usize::MAX {
                        Ok(digits_value(digits))
                    } else {
                        Err(AssignError::NotNumeric)
                    }
                },
            }
        },
    }
}

/// Recovers the index of the final record from the inspected tail of
/// the input file, for progress reporting. For a file whose final
/// record has index `K`, this returns `K`.
pub fn largest_index_from_tail(tail: &[u8]) -> (r: Result<usize, AssignError>)
    ensures
        match r {
            Ok(v) => spec_largest_index(tail@) == Ok::<int, AssignError>(v as int),
            Err(e) => spec_largest_index(tail@) == Err::<int, AssignError>(e),
        },
{
    let n = tail.len();
    proof {
        assert(tail@.take(n as int) =~= tail@);
    }
    let l = match rfind_byte(tail, n, 10) {
        None => {
            return Err(AssignError::MissingRecord);
        },
        Some(l) => l,
    };
    let start = match rfind_byte(tail, l, 10) {
        None => 0usize,
        Some(p) => p + 1,
    };
    let ghost rec = tail@.subrange(start as int, l as int);
    let ci = match find_byte_in(tail, start, l, 44) {
        None => {
            return Err(AssignError::MissingDelimiter);
        },
        Some(c) => c,
    };
    proof {
        assert(rec.subrange(0, ci - start) =~= tail@.subrange(start as int, ci as int));
    }
    match parse_decimal_in(tail, start, ci) {
        None => Err(AssignError::NotNumeric),
        Some(v) => Ok(v),
    }
}

/// Whether a payload already starts with the fixed scheme.
pub open spec fn spec_has_scheme(s: Seq<char>) -> bool {
    s.len() >= 8 && s.subrange(0, 8) == "https://"@
}

/// The payload with the fixed scheme prefixed when absent.
pub open spec fn spec_with_scheme(s: Seq<char>) -> Seq<char> {
    if spec_has_scheme(s) {
        s
    } else {
        "https://"@ + s
    }
}

/// What one record yields: the normalized URL of the payload after the
/// first comma, or why the record is malformed.
pub open spec fn spec_job_of_line(line: Seq<char>) -> Result<Seq<char>, AssignError> {
    match first_pos(line, ',') {
        None => Err(AssignError::MissingDelimiter),
        Some(ci) => {
            let cand = spec_with_scheme(line.subrange(ci + 1, line.len() as int));
            match parsed_url(cand) {
                None => Err(AssignError::InvalidUrl),
                Some(u) => Ok(u),
            }
        },
    }
}

/// Position of the first occurrence of `c` in `s`.
fn find_char(s: &str, c: char) -> (r: Option<usize>)
    ensures
        match r {
            Some(i) => i < s@.len() && first_pos(s@, c) == Some(i as int),
            None => first_pos(s@, c) is None,
        },
{
    let n = s.unicode_len();
    let mut i: usize = 0;
    while i < n
        invariant
            i <= n == s@.len(),
            forall|j: int| 0 <= j < i ==> s@[j] != c,
        decreases n - i,
    {
        if s.get_char(i) == c {
            proof {
                lemma_first_pos_at(s@, c, i as int);
            }
            return Some(i);
        }
        i = i + 1;
    }
    proof {
        lemma_first_pos_none(s@, c);
    }
    None
}

/// Whether `s` starts with the fixed scheme.
fn has_scheme(s: &str) -> (r: bool)
    ensures
        r == spec_has_scheme(s@),
{
    let n = s.unicode_len();
    if n < 8 {
        return false;
    }
    let head = s.substring_char(0, 8);
    crate::tag::str_eq(head, "https://")
}

/// Converts one record into a job: takes the payload after the first
/// comma, prefixes the fixed scheme when absent, and parses the result
/// as an absolute URL.
pub fn job_from_line(line: &str) -> (r: Result<Job, AssignError>)
    ensures
        match r {
            Ok(j) => spec_job_of_line(line@) == Ok::<Seq<char>, AssignError>(j@),
            Err(e) => spec_job_of_line(line@) == Err::<Seq<char>, AssignError>(e),
        },
{
    let n = line.unicode_len();
    let ci = match find_char(line, ',') {
        None => {
            return Err(AssignError::MissingDelimiter);
        },
        Some(c) => c,
    };
    let payload = line.substring_char(ci + 1, n);
    let candidate: String = if has_scheme(payload) {
        String::from_str(payload)
    } else {
        String::from_str("https://").concat(payload)
    };
    proof {
        assert(candidate@ == spec_with_scheme(payload@));
    }
    match parse_url(candidate.as_str()) {
        Ok(u) => Ok(Job { url: u }),
        Err(_) => Err(AssignError::InvalidUrl),
    }
}

/// Converts a whole job list, in file order, failing on the first
/// malformed record: a valid input of `N` records yields exactly `N`
/// jobs, the `i`-th job from the `i`-th record.
pub fn jobs_from_lines(lines: &Vec<String>) -> (r: Result<Vec<Job>, AssignError>)
    ensures
        match r {
            Ok(jobs) => jobs@.len() == lines@.len() && forall|i: int|
                0 <= i < lines@.len() ==> spec_job_of_line(#[trigger] lines@[i]@) == Ok::<
                    Seq<char>,
                    AssignError,
                >(jobs@[i]@),
            Err(e) => exists|i: int|
                0 <= i < lines@.len() && spec_job_of_line(#[trigger] lines@[i]@) == Err::<
                    Seq<char>,
                    AssignError,
                >(e) && forall|j: int| 0 <= j < i ==> spec_job_of_line(lines@[j]@) is Ok,
        },
{
    let mut jobs: Vec<Job> = Vec::new();
    let mut i: usize = 0;
    while i < lines.len()
        invariant
            i <= lines@.len(),
            jobs@.len() == i,
            forall|k: int|
                0 <= k < i ==> spec_job_of_line(#[trigger] lines@[k]@) == Ok::<
                    Seq<char>,
                    AssignError,
                >(jobs@[k]@),
        decreases lines@.len() - i,
    {
        match job_from_line(lines[i].as_str()) {
            Ok(j) => {
                jobs.push(j);
            },
            Err(e) => {
                return Err(e);
            },
        }
        i = i + 1;
    }
    Ok(jobs)
}

/// One turn of the reader's run loop.
#[derive(Debug)]
pub enum AssignStep {
    /// Stop reading: the shutdown signal arrived or the input is
    /// exhausted. No further job is enqueued.
    Stop,
    /// Push this job into the queue and read on.
    Enqueue(Job),
    /// A malformed record: fail the run immediately.
    Fail(AssignError),
}

/// Decides one turn of the reader's run loop: observing the shutdown
/// signal stops the reader at once - even mid-file - and so does the
/// end of the input; otherwise the next record either becomes a job to
/// enqueue or fails the run.
pub fn assigner_step(shutdown: bool, next_line: Option<&str>) -> (r: AssignStep)
    ensures
        shutdown ==> r is Stop,
        !shutdown ==> match next_line {
            None => r is Stop,
            Some(line) => match spec_job_of_line(line@) {
                Ok(u) => r matches AssignStep::Enqueue(j) && j@ == u,
                Err(e) => r matches AssignStep::Fail(e2) && e2 == e,
            },
        },
{
    if shutdown {
        return AssignStep::Stop;
    }
    match next_line {
        None => AssignStep::Stop,
        Some(line) => match job_from_line(line) {
            Ok(j) => AssignStep::Enqueue(j),
            Err(e) => AssignStep::Fail(e),
        },
    }
}

} // verus!
