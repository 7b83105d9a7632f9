//! Progress reports of a tiling job.

use crate::numbers::all_digits;
use crate::numbers::decimal;
use crate::numbers::decimal_is_digits;
use crate::numbers::digits_of_decimal;
use crate::numbers::digits_value;
use crate::numbers::parse_of_decimal;
use crate::numbers::parsed_u8;
use crate::numbers::parse_u8;
use crate::text::CharClass;
use crate::text::chars_of;
use crate::text::contains;
use crate::text::first_at;
use crate::text::has_text;
use crate::text::is_digit;
use crate::text::lemma_trim_fixed;
use crate::text::split_on;
use crate::text::split_text;
use crate::text::text_at;
use crate::text::texts;
use crate::text::text_of;
use crate::text::trim;
use crate::text::trimmed;
use vstd::prelude::*;

verus! {

/// One report: what a job is doing and how far it has come, in percent.
#[derive(Debug, Clone)]
pub struct ProgressEvent {
    pub job_id: String,
    pub stage: String,
    pub level: String,
    pub message: String,
    pub percent: u8,
}

/// The content of a report.
#[verifier::ext_equal]
pub struct EventView {
    pub job_id: Seq<char>,
    pub stage: Seq<char>,
    pub level: Seq<char>,
    pub message: Seq<char>,
    pub percent: int,
}

impl View for ProgressEvent {
    type V = EventView;

    open spec fn view(&self) -> EventView {
        EventView {
            job_id: self.job_id@,
            stage: self.stage@,
            level: self.level@,
            message: self.message@,
            percent: self.percent as int,
        }
    }
}

/// The report with these texts, and with `percent` cut down to 100 where it is more.
pub open spec fn event(
    job_id: Seq<char>,
    stage: Seq<char>,
    level: Seq<char>,
    message: Seq<char>,
    percent: int,
) -> EventView {
    EventView {
        job_id,
        stage,
        level,
        message,
        percent: if percent > 100 {
            100
        } else {
            percent
        },
    }
}

impl ProgressEvent {
    /// Makes a report; a percentage above 100 is reported as 100.
    pub fn new(job_id: &str, stage: &str, level: &str, message: &str, percent: u8) -> (r: Self)
        ensures
            r@ == event(job_id@, stage@, level@, message@, percent as int),
    {
        ProgressEvent {
            job_id: job_id.to_string(),
            stage: stage.to_string(),
            level: level.to_string(),
            message: message.to_string(),
            percent: if percent > 100 {
                100
            } else {
                percent
            },
        }
    }
}

/// The digits that end at position `end` of the line: where they begin.
pub open spec fn digits_start(s: Seq<char>, end: int) -> int
    decreases end,
{
    if end > 0 && is_digit(s[end - 1]) {
        digits_start(s, end - 1)
    } else {
        end
    }
}

/// The last number from 0 to 100 among the pieces; the others are passed over.
pub open spec fn last_percent(pieces: Seq<Seq<char>>) -> Option<u8>
    decreases pieces.len(),
{
    if pieces.len() == 0 {
        None
    } else {
        match parsed_u8(trimmed(pieces.last())) {
            Some(v) => if v <= 100 {
                Some(v)
            } else {
                last_percent(pieces.drop_last())
            },
            None => last_percent(pieces.drop_last()),
        }
    }
}

/// The percentage that a line of tool output reports. Digits directly before the first percent
/// sign decide alone, also where they are no number below 256; otherwise the last number from 0
/// to 100 between rows of three dots counts, as in `0...10...20`.
pub open spec fn progress_of_line(s: Seq<char>) -> Option<u8> {
    let sign = first_at(s, seq!['%'], 0);
    if sign is Some && digits_start(s, sign->0) < sign->0 {
        let digits = s.subrange(digits_start(s, sign->0), sign->0);
        if digits_value(digits) <= 255 {
            Some(digits_value(digits) as u8)
        } else {
            None
        }
    } else if has_text(s, "..."@) {
        last_percent(split_text(s, "..."@))
    } else {
        None
    }
}

fn find_percent_sign(v: &Vec<char>) -> (r: Option<usize>)
    ensures
        match r {
            Some(i) => i < v.len() && first_at(v@, seq!['%'], 0) == Some(i as int),
            None => first_at(v@, seq!['%'], 0) is None,
        },
{
    let mut i: usize = 0;
    while i < v.len()
        invariant
            i <= v.len(),
            first_at(v@, seq!['%'], 0) == first_at(v@, seq!['%'], i as int),
        decreases v.len() - i,
    {
        assert(v@.subrange(i as int, i + 1) == seq![v@[i as int]]);
        if v[i] == '%' {
            return Some(i);
        }
        assert(seq!['%'][0] != seq![v@[i as int]][0]);
        i += 1;
    }
    None
}

proof fn lemma_digits_start(s: Seq<char>, end: int)
    requires
        0 <= end <= s.len(),
    ensures
        0 <= digits_start(s, end) <= end,
        all_digits(s.subrange(digits_start(s, end), end)),
    decreases end,
{
    if end > 0 && is_digit(s[end - 1]) {
        lemma_digits_start(s, end - 1);
        let a = digits_start(s, end);
        assert(s.subrange(a, end) == s.subrange(a, end - 1).push(s[end - 1]));
    }
}

/// The percentage that a line of tool output reports.
pub fn parse_progress_percent(line: &str) -> (r: Option<u8>)
    ensures
        r == progress_of_line(line@),
{
    let v = chars_of(line);
    if let Some(pos) = find_percent_sign(&v) {
        let mut start: usize = pos;
        while start > 0 && '0' <= v[start - 1] && v[start - 1] <= '9'
            invariant
                start <= pos < v.len(),
                digits_start(v@, pos as int) == digits_start(v@, start as int),
            decreases start,
        {
            start -= 1;
        }
        proof {
            lemma_digits_start(v@, pos as int);
        }
        if start != pos {
            let digits = text_of(&v, start, pos);
            assert(is_digit(digits@[0]));
            return parse_u8(digits.as_str());
        }
    }
    if contains(line, "...") {
        proof {
            reveal_strlit("...");
        }
        let pieces = split_on(line, "...");
        let ghost all = texts(pieces@);
        let mut last: Option<u8> = None;
        let mut i: usize = 0;
        assert(all.take(0) == Seq::<Seq<char>>::empty());
        while i < pieces.len()
            invariant
                i <= pieces.len(),
                all == texts(pieces@),
                last == last_percent(all.take(i as int)),
            decreases pieces.len() - i,
        {
            assert(all.take(i + 1).drop_last() == all.take(i as int));
            assert(all.take(i + 1).last() == pieces@[i as int]@);
            let piece = trim(pieces[i].as_str());
            if let Some(v) = parse_u8(piece.as_str()) {
                if v <= 100 {
                    last = Some(v);
                }
            }
            i += 1;
        }
        assert(all.take(all.len() as int) == all);
        return last;
    }
    None
}

/// Progress that is told by rows of dots is never more than 100 percent.
pub proof fn dotted_progress_is_at_most_100(pieces: Seq<Seq<char>>)
    ensures
        last_percent(pieces) matches Some(v) ==> v <= 100,
    decreases pieces.len(),
{
    if pieces.len() > 0 {
        dotted_progress_is_at_most_100(pieces.drop_last());
    }
}

/// A report carries what it was made with; a percentage above 100 is told as 100, and any other as it
/// is.
pub proof fn reports_carry_what_they_are_made_with(
    job_id: Seq<char>,
    stage: Seq<char>,
    level: Seq<char>,
    message: Seq<char>,
    percent: int,
)
    ensures
        ({
            let e = event(job_id, stage, level, message, percent);
            &&& e.job_id == job_id
            &&& e.stage == stage
            &&& e.level == level
            &&& e.message == message
            &&& percent <= 100 ==> e.percent == percent
            &&& percent >= 100 ==> e.percent == 100
        }),
{
}

proof fn lemma_first_sign(s: Seq<char>, from: int, at: int)
    requires
        0 <= from <= at < s.len(),
        s[at] == '%',
        forall|i: int| from <= i < at ==> #[trigger] s[i] != '%',
    ensures
        first_at(s, seq!['%'], from) == Some(at),
    decreases at - from,
{
    let here = s.subrange(from, from + 1);
    assert(here[0] == s[from]);
    if from == at {
        assert(here =~= seq!['%']);
    } else {
        assert(seq!['%'][0] == '%');
        lemma_first_sign(s, from + 1, at);
    }
}

proof fn lemma_no_sign(s: Seq<char>, from: int)
    requires
        0 <= from,
        forall|i: int| from <= i < s.len() ==> #[trigger] s[i] != '%',
    ensures
        first_at(s, seq!['%'], from) is None,
    decreases s.len() - from + 1,
{
    if from + 1 <= s.len() {
        assert(s.subrange(from, from + 1)[0] == s[from]);
        assert(seq!['%'][0] == '%');
        lemma_no_sign(s, from + 1);
    }
}

proof fn lemma_digits_begin(s: Seq<char>, begin: int, end: int)
    requires
        0 <= begin <= end <= s.len(),
        forall|i: int| begin <= i < end ==> is_digit(#[trigger] s[i]),
        begin > 0 ==> !is_digit(s[begin - 1]),
    ensures
        digits_start(s, end) == begin,
    decreases end - begin,
{
    if begin < end {
        assert(is_digit(s[end - 1]));
        lemma_digits_begin(s, begin, end - 1);
    }
}

/// The number directly before the first percent sign of a line is the progress that it tells,
/// whatever stands around the two.
pub proof fn number_before_the_percent_sign_counts(front: Seq<char>, n: u8, rest: Seq<char>)
    requires
        !front.contains('%'),
        front.len() > 0 ==> !is_digit(front.last()),
    ensures
        progress_of_line(front + decimal(n as nat) + seq!['%'] + rest) == Some(n),
{
    let digits = decimal(n as nat);
    let s = front + digits + seq!['%'] + rest;
    let begin = front.len() as int;
    let at = begin + digits.len();
    decimal_is_digits(n as nat);
    digits_of_decimal(n as nat);
    assert(s[at] == '%');
    assert forall|i: int| 0 <= i < at implies #[trigger] s[i] != '%' by {
        if i < begin {
            assert(s[i] == front[i]);
            assert(front.contains(front[i]));
        } else {
            assert(s[i] == digits[i - begin]);
            assert(is_digit(digits[i - begin]));
        }
    }
    lemma_first_sign(s, 0, at);
    assert forall|i: int| begin <= i < at implies is_digit(#[trigger] s[i]) by {
        assert(s[i] == digits[i - begin]);
    }
    if begin > 0 {
        assert(s[begin - 1] == front.last());
    }
    lemma_digits_begin(s, begin, at);
    assert(s.subrange(begin, at) =~= digits);
}

/// A line with neither a percent sign nor a row of three dots tells of no progress.
pub proof fn plain_lines_tell_of_no_progress(s: Seq<char>)
    requires
        !s.contains('%'),
        !has_text(s, "..."@),
    ensures
        progress_of_line(s) is None,
{
    assert forall|i: int| 0 <= i < s.len() implies #[trigger] s[i] != '%' by {
        assert(s.contains(s[i]));
    }
    lemma_no_sign(s, 0);
}

/// Of the pieces between rows of dots, the last number up to 100 counts; what is behind it and no such
/// number is passed over.
pub proof fn last_number_between_dots_counts(
    before: Seq<Seq<char>>,
    n: u8,
    after: Seq<Seq<char>>,
)
    requires
        n <= 100,
        forall|i: int|
            0 <= i < after.len() ==> !(parsed_u8(trimmed(#[trigger] after[i])) matches Some(v)
                && v <= 100),
    ensures
        last_percent(before.push(decimal(n as nat)) + after) == Some(n),
    decreases after.len(),
{
    let pieces = before.push(decimal(n as nat)) + after;
    if after.len() > 0 {
        let fewer = after.drop_last();
        assert forall|i: int| 0 <= i < fewer.len() implies !(parsed_u8(
            trimmed(#[trigger] fewer[i]),
        ) matches Some(v) && v <= 100) by {
            assert(fewer[i] == after[i]);
        }
        last_number_between_dots_counts(before, n, fewer);
        assert(pieces.drop_last() =~= before.push(decimal(n as nat)) + fewer);
        assert(pieces.last() == after[after.len() - 1]);
    } else {
        assert(pieces.last() == decimal(n as nat));
        parse_of_decimal(n);
        decimal_is_digits(n as nat);
        let d = decimal(n as nat);
        assert(is_digit(d[0]) && is_digit(d[d.len() - 1]));
        lemma_trim_fixed(d, CharClass::WhiteSpace);
    }
}

proof fn lemma_first_dots(a: Seq<char>, b: Seq<char>, from: int)
    requires
        0 <= from <= a.len(),
        forall|i: int| 0 <= i < a.len() ==> #[trigger] a[i] != '.',
    ensures
        first_at(a + seq!['.', '.', '.'] + b, seq!['.', '.', '.'], from) == Some(a.len() as int),
    decreases a.len() - from,
{
    let dots = seq!['.', '.', '.'];
    let s = a + dots + b;
    let here = s.subrange(from, from + 3);
    if from < a.len() {
        assert(here[0] == a[from]);
        assert(dots[0] == '.');
        lemma_first_dots(a, b, from + 1);
    } else {
        assert(here =~= dots);
    }
}

proof fn lemma_no_dots(s: Seq<char>, from: int)
    requires
        0 <= from,
        forall|i: int| 0 <= i < s.len() ==> #[trigger] s[i] != '.',
    ensures
        first_at(s, seq!['.', '.', '.'], from) is None,
    decreases s.len() - from + 1,
{
    if from + 3 <= s.len() {
        assert(s.subrange(from, from + 3)[0] == s[from]);
        assert(seq!['.', '.', '.'][0] == '.');
        lemma_no_dots(s, from + 1);
    }
}

/// The number behind a row of dots is the progress that a line tells, where it is 100 at most.
pub proof fn number_behind_the_dots_counts(front: Seq<char>, n: u8)
    requires
        n <= 100,
        !front.contains('%'),
        !front.contains('.'),
    ensures
        progress_of_line(front + seq!['.', '.', '.'] + decimal(n as nat)) == Some(n),
{
    let d = decimal(n as nat);
    let dots = seq!['.', '.', '.'];
    let s = front + dots + d;
    reveal_strlit("...");
    assert("..."@ =~= dots);
    decimal_is_digits(n as nat);
    assert forall|i: int| 0 <= i < front.len() implies #[trigger] front[i] != '.' && front[i]
        != '%' by {
        assert(front.contains(front[i]));
    }
    assert forall|i: int| 0 <= i < d.len() implies #[trigger] d[i] != '.' && d[i] != '%' by {
        assert(is_digit(d[i]));
    }
    assert forall|i: int| 0 <= i < s.len() implies #[trigger] s[i] != '%' by {
        if i < front.len() {
            assert(s[i] == front[i]);
        } else if i >= front.len() + 3 {
            assert(s[i] == d[i - front.len() - 3]);
        }
    }
    lemma_no_sign(s, 0);
    lemma_first_dots(front, d, 0);
    lemma_no_dots(d, 0);
    let n0 = front.len() as int;
    assert(s.subrange(n0, n0 + 3) =~= dots);
    assert(text_at(s, dots, n0));
    assert(s.take(n0) =~= front);
    assert(s.skip(n0 + 3) =~= d);
    assert(split_text(d, dots) == seq![d]);
    assert(split_text(s, dots) == seq![front] + seq![d]);
    let none = Seq::<Seq<char>>::empty();
    last_number_between_dots_counts(seq![front], n, none);
    assert(seq![front].push(d) + none =~= seq![front] + seq![d]);
}

/// A number above 255 directly before the first percent sign tells of no progress, whatever dots
/// stand in the line.
pub proof fn large_numbers_tell_of_no_progress(front: Seq<char>, n: nat, rest: Seq<char>)
    requires
        !front.contains('%'),
        front.len() > 0 ==> !is_digit(front.last()),
        n > 255,
    ensures
        progress_of_line(front + decimal(n) + seq!['%'] + rest) is None,
{
    let digits = decimal(n);
    let s = front + digits + seq!['%'] + rest;
    let begin = front.len() as int;
    let at = begin + digits.len();
    decimal_is_digits(n);
    digits_of_decimal(n);
    assert(s[at] == '%');
    assert forall|i: int| 0 <= i < at implies #[trigger] s[i] != '%' by {
        if i < begin {
            assert(s[i] == front[i]);
            assert(front.contains(front[i]));
        } else {
            assert(s[i] == digits[i - begin]);
            assert(is_digit(digits[i - begin]));
        }
    }
    lemma_first_sign(s, 0, at);
    assert forall|i: int| begin <= i < at implies is_digit(#[trigger] s[i]) by {
        assert(s[i] == digits[i - begin]);
    }
    if begin > 0 {
        assert(s[begin - 1] == front.last());
    }
    lemma_digits_begin(s, begin, at);
    assert(s.subrange(begin, at) =~= digits);
}

/// A percent sign without a number directly before it does not count: the rows of dots decide.
pub proof fn percent_signs_without_a_number_do_not_count(front: Seq<char>, rest: Seq<char>)
    requires
        !front.contains('%'),
        front.len() > 0 ==> !is_digit(front.last()),
    ensures
        ({
            let line = front + seq!['%'] + rest;
            &&& has_text(line, "..."@) ==> progress_of_line(line) == last_percent(
                split_text(line, "..."@),
            )
            &&& !has_text(line, "..."@) ==> progress_of_line(line) is None
        }),
{
    let line = front + seq!['%'] + rest;
    let at = front.len() as int;
    assert(line[at] == '%');
    assert forall|i: int| 0 <= i < at implies #[trigger] line[i] != '%' by {
        assert(line[i] == front[i]);
        assert(front.contains(front[i]));
    }
    lemma_first_sign(line, 0, at);
    if at > 0 {
        assert(line[at - 1] == front.last());
    }
}

} // verus!
