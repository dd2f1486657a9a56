//! The leaderboard: what is sent to the service, and how its answer is
//! read.
//!
//! The service answers with rows `name,score,kills,time`, separated by
//! line feeds or semicolons. A row with another number of fields stands
//! for an empty entry.

use vstd::prelude::*;
use vstd::string::*;
use crate::text::chars_of;
use crate::text::decimal;
use crate::text::digit;
use crate::text::digit_of;
use crate::text::digit_value;
use crate::text::padded;
use crate::text::push_padded;
use crate::text::push_text;
use crate::text::string_of;

verus! {

/// Rows shown on the leaderboard.
pub const LEADERBOARD_COUNT: usize = 7;

/// One row of the leaderboard, as it is shown.
pub struct LeaderboardEntry {
    pub name: String,
    pub score: String,
    pub kills: String,
    /// Minutes and seconds.
    pub time: String,
}

/// The mathematical value of a [`LeaderboardEntry`].
pub struct EntryView {
    pub name: Seq<char>,
    pub score: Seq<char>,
    pub kills: Seq<char>,
    pub time: Seq<char>,
}

impl View for LeaderboardEntry {
    type V = EntryView;

    open spec fn view(&self) -> EntryView {
        EntryView { name: self.name@, score: self.score@, kills: self.kills@, time: self.time@ }
    }
}

impl Default for LeaderboardEntry {
    fn default() -> (e: LeaderboardEntry)
        ensures
            e@ == EntryView::empty(),
    {
        LeaderboardEntry {
            name: String::new(),
            score: String::new(),
            kills: String::new(),
            time: String::new(),
        }
    }
}

impl LeaderboardEntry {
    /// Whether the entry stands for a malformed row: only such an entry
    /// has no time.
    pub fn is_malformed(&self) -> (b: bool)
        ensures
            b == (self@.time.len() == 0),
    {
        self.time.as_str().is_empty()
    }
}

impl EntryView {
    /// The entry that stands for a malformed row.
    pub open spec fn empty() -> EntryView {
        EntryView {
            name: Seq::empty(),
            score: Seq::empty(),
            kills: Seq::empty(),
            time: Seq::empty(),
        }
    }
}

/// The leaderboard as it was fetched.
pub struct LeaderboardData(pub Vec<LeaderboardEntry>);

impl View for LeaderboardData {
    type V = Seq<EntryView>;

    open spec fn view(&self) -> Seq<EntryView> {
        Seq::new(self.0@.len(), |i: int| self.0@[i]@)
    }
}

/// Whether `c` separates two rows.
pub open spec fn is_row_end(c: char) -> bool {
    c == '\n' || c == ';'
}

/// Whether `c` separates two fields.
pub open spec fn is_field_end(c: char) -> bool {
    c == ','
}

/// The pieces of `text` between the characters that `sep` holds of. A
/// text without such a character is one piece.
pub open spec fn split(text: Seq<char>, sep: spec_fn(char) -> bool) -> Seq<Seq<char>>
    decreases text.len(),
{
    if text.len() == 0 {
        seq![Seq::empty()]
    } else {
        let before = split(text.drop_last(), sep);
        if sep(text.last()) {
            before.push(Seq::empty())
        } else {
            before.drop_last().push(before.last().push(text.last()))
        }
    }
}

/// `text` without the line feeds at its end.
pub open spec fn trim_line_feeds(text: Seq<char>) -> Seq<char>
    decreases text.len(),
{
    if text.len() > 0 && text.last() == '\n' {
        trim_line_feeds(text.drop_last())
    } else {
        text
    }
}

/// The number that a run of digits stands for.
pub open spec fn number(digits: Seq<char>) -> nat
    decreases digits.len(),
{
    if digits.len() == 0 {
        0
    } else {
        number(digits.drop_last()) * 10 + match digit_value(digits.last()) {
            Some(d) => d,
            None => 0,
        }
    }
}

/// Whether every character of `text` is a digit.
pub open spec fn all_digits(text: Seq<char>) -> bool {
    forall|i: int| 0 <= i < text.len() ==> digit_value(#[trigger] text[i]) is Some
}

/// How many digits `text` begins with.
pub open spec fn leading_digits(text: Seq<char>) -> nat
    decreases text.len(),
{
    if text.len() > 0 && digit_value(text[0]) is Some {
        1 + leading_digits(text.drop_first())
    } else {
        0
    }
}

/// `text` without a sign at its front.
pub open spec fn unsigned(text: Seq<char>) -> Seq<char> {
    if text.len() > 0 && (text[0] == '+' || text[0] == '-') {
        text.drop_first()
    } else {
        text
    }
}

/// Whether `text` is a decimal number: an optional sign, then digits
/// with at most one point among them, and at least one digit.
pub open spec fn is_decimal(text: Seq<char>) -> bool {
    let body = unsigned(text);
    let whole = leading_digits(body);
    if whole == body.len() {
        whole > 0
    } else {
        &&& body[whole as int] == '.'
        &&& all_digits(body.subrange(whole as int + 1, body.len() as int))
        &&& body.len() > 1
    }
}

/// The whole seconds that a time field stands for: the digits before
/// the point of a decimal number that is not negative, capped at
/// `u64::MAX`; zero for a negative number and for anything that is no
/// decimal number.
pub open spec fn whole_seconds(text: Seq<char>) -> nat {
    if !is_decimal(text) || (text.len() > 0 && text[0] == '-') {
        0
    } else {
        let body = unsigned(text);
        let value = number(body.subrange(0, leading_digits(body) as int));
        if value > u64::MAX {
            u64::MAX as nat
        } else {
            value
        }
    }
}

/// A time as minutes and seconds, each with at least two digits. The
/// minutes stop at `u32::MAX`.
pub open spec fn formatted_time(seconds: nat) -> Seq<char> {
    let minutes = if seconds / 60 > u32::MAX {
        u32::MAX as nat
    } else {
        seconds / 60
    };
    padded(minutes, 2) + seq![':'] + padded(seconds % 60, 2)
}

/// The entry that a row stands for.
pub open spec fn entry_of(row: Seq<char>) -> EntryView {
    let fields = split(row, |c: char| is_field_end(c));
    if fields.len() != 4 {
        EntryView::empty()
    } else {
        EntryView {
            name: fields[0],
            score: fields[1],
            kills: fields[2],
            time: formatted_time(whole_seconds(fields[3])),
        }
    }
}

/// The leaderboard that an answer of the service stands for: nothing
/// for an empty answer, and otherwise one entry for each row.
pub open spec fn leaderboard_of(text: Seq<char>) -> Seq<EntryView> {
    if text.len() == 0 {
        Seq::empty()
    } else {
        split(trim_line_feeds(text), |c: char| is_row_end(c)).map_values(
            |row: Seq<char>| entry_of(row),
        )
    }
}

/// Formats a time in seconds as minutes and seconds.
pub fn format_time(seconds: u64) -> (text: String)
    ensures
        text@ == formatted_time(seconds as nat),
{
    let minutes: u64 = if seconds / 60 > u32::MAX as u64 {
        u32::MAX as u64
    } else {
        seconds / 60
    };
    let mut text = String::new();
    push_padded(&mut text, minutes, 2);
    text.push(':');
    push_padded(&mut text, seconds % 60, 2);
    proof {
        assert(text@ =~= formatted_time(seconds as nat));
    }
    text
}

/// The bounds of a piece of a text.
#[derive(Clone, Copy, Debug, PartialEq, Eq, Structural)]
pub struct Span {
    pub from: usize,
    pub to: usize,
}

/// Whether `spans` are the pieces of `text[base..end]` between the
/// separators.
pub open spec fn spans_match(
    text: Seq<char>,
    base: int,
    end: int,
    sep: spec_fn(char) -> bool,
    spans: Seq<Span>,
) -> bool {
    let pieces = split(text.subrange(base, end), sep);
    &&& spans.len() == pieces.len()
    &&& forall|k: int|
        0 <= k < spans.len() ==> base <= (#[trigger] spans[k]).from <= spans[k].to <= end
            && text.subrange(spans[k].from as int, spans[k].to as int) == pieces[k]
}

/// Finds the pieces of `text[base..end]` between commas.
pub fn split_fields(text: &Vec<char>, base: usize, end: usize) -> (spans: Vec<Span>)
    requires
        base <= end <= text.len(),
    ensures
        spans_match(text@, base as int, end as int, |c: char| is_field_end(c), spans@),
{
    let ghost sep = |c: char| is_field_end(c);
    let mut spans: Vec<Span> = Vec::new();
    let mut start: usize = base;
    let mut i: usize = base;
    proof {
        assert(text@.subrange(base as int, base as int) =~= Seq::<char>::empty());
    }
    while i < end
        invariant
            base <= start <= i <= end <= text.len(),
            sep == (|c: char| is_field_end(c)),
            ({
                let pieces = split(text@.subrange(base as int, i as int), sep);
                &&& pieces.len() == spans.len() + 1
                &&& pieces.last() == text@.subrange(start as int, i as int)
                &&& forall|k: int|
                    0 <= k < spans.len() ==> base <= (#[trigger] spans@[k]).from <= spans@[k].to
                        <= end && text@.subrange(spans@[k].from as int, spans@[k].to as int)
                        == pieces[k]
            }),
        decreases end - i,
    {
        let ghost before = split(text@.subrange(base as int, i as int), sep);
        proof {
            let next = text@.subrange(base as int, i + 1);
            assert(next.drop_last() =~= text@.subrange(base as int, i as int));
            assert(next.last() == text@[i as int]);
        }
        if text[i] == ',' {
            spans.push(Span { from: start, to: i });
            start = i + 1;
            proof {
                assert(text@.subrange(i + 1, i + 1) =~= Seq::<char>::empty());
            }
        } else {
            proof {
                assert(text@.subrange(start as int, i + 1) =~= text@.subrange(
                    start as int,
                    i as int,
                ).push(text@[i as int]));
            }
        }
        i = i + 1;
    }
    spans.push(Span { from: start, to: end });
    spans
}

/// Finds the pieces of `text[0..end]` between line feeds and
/// semicolons.
pub fn split_rows(text: &Vec<char>, end: usize) -> (spans: Vec<Span>)
    requires
        end <= text.len(),
    ensures
        spans_match(text@, 0, end as int, |c: char| is_row_end(c), spans@),
{
    let ghost sep = |c: char| is_row_end(c);
    let mut spans: Vec<Span> = Vec::new();
    let mut start: usize = 0;
    let mut i: usize = 0;
    proof {
        assert(text@.subrange(0, 0) =~= Seq::<char>::empty());
    }
    while i < end
        invariant
            start <= i <= end <= text.len(),
            sep == (|c: char| is_row_end(c)),
            ({
                let pieces = split(text@.subrange(0, i as int), sep);
                &&& pieces.len() == spans.len() + 1
                &&& pieces.last() == text@.subrange(start as int, i as int)
                &&& forall|k: int|
                    0 <= k < spans.len() ==> 0 <= (#[trigger] spans@[k]).from <= spans@[k].to
                        <= end && text@.subrange(spans@[k].from as int, spans@[k].to as int)
                        == pieces[k]
            }),
        decreases end - i,
    {
        proof {
            let next = text@.subrange(0, i + 1);
            assert(next.drop_last() =~= text@.subrange(0, i as int));
            assert(next.last() == text@[i as int]);
        }
        if text[i] == '\n' || text[i] == ';' {
            spans.push(Span { from: start, to: i });
            start = i + 1;
            proof {
                assert(text@.subrange(i + 1, i + 1) =~= Seq::<char>::empty());
            }
        } else {
            proof {
                assert(text@.subrange(start as int, i + 1) =~= text@.subrange(
                    start as int,
                    i as int,
                ).push(text@[i as int]));
            }
        }
        i = i + 1;
    }
    spans.push(Span { from: start, to: end });
    spans
}

/// The length of `text` without the line feeds at its end.
pub fn trimmed_length(text: &Vec<char>) -> (end: usize)
    ensures
        end <= text.len(),
        text@.subrange(0, end as int) == trim_line_feeds(text@),
{
    let mut end: usize = text.len();
    proof {
        assert(text@.subrange(0, end as int) =~= text@);
    }
    while end > 0 && text[end - 1] == '\n'
        invariant
            end <= text.len(),
            trim_line_feeds(text@.subrange(0, end as int)) == trim_line_feeds(text@),
        decreases end,
    {
        proof {
            let here = text@.subrange(0, end as int);
            assert(here.drop_last() =~= text@.subrange(0, end - 1));
        }
        end = end - 1;
    }
    end
}

/// A text that begins with `k` digits and then ends or goes on with
/// something else begins with exactly `k` digits.
pub proof fn lemma_leading_digits(text: Seq<char>, k: nat)
    requires
        k <= text.len(),
        forall|j: int| 0 <= j < k ==> digit_value(#[trigger] text[j]) is Some,
        k == text.len() || digit_value(text[k as int]) is None,
    ensures
        leading_digits(text) == k,
    decreases k,
{
    if k > 0 {
        let rest = text.drop_first();
        assert forall|j: int| 0 <= j < k - 1 implies digit_value(#[trigger] rest[j]) is Some by {
            assert(rest[j] == text[j + 1]);
        }
        lemma_leading_digits(rest, (k - 1) as nat);
    }
}

/// A longer run of digits stands for no smaller number.
pub proof fn lemma_number_grows(digits: Seq<char>)
    requires
        digits.len() > 0,
    ensures
        number(digits) >= number(digits.drop_last()),
{
    assert(number(digits.drop_last()) * 10 >= number(digits.drop_last())) by (nonlinear_arith);
}

/// Reads the whole seconds of the time field `text[from..to]`.
pub fn parse_seconds(text: &Vec<char>, from: usize, to: usize) -> (seconds: u64)
    requires
        from <= to <= text.len(),
    ensures
        seconds == whole_seconds(text@.subrange(from as int, to as int)),
{
    let ghost field = text@.subrange(from as int, to as int);
    let mut i: usize = from;
    let mut negative = false;
    if i < to && (text[i] == '+' || text[i] == '-') {
        negative = text[i] == '-';
        i = i + 1;
    }
    let start: usize = i;
    let ghost body = unsigned(field);
    proof {
        assert(field.len() > 0 ==> field[0] == text@[from as int]);
        assert(body =~= text@.subrange(start as int, to as int));
        assert(body.subrange(0, 0) =~= Seq::<char>::empty());
    }
    let mut value: u64 = 0;
    let mut capped = false;
    while i < to && digit_of(text[i]).is_some()
        invariant
            start <= i <= to <= text.len(),
            body == text@.subrange(start as int, to as int),
            forall|j: int| 0 <= j < i - start ==> digit_value(#[trigger] body[j]) is Some,
            !capped ==> value == number(body.subrange(0, i - start)),
            capped ==> number(body.subrange(0, i - start)) > u64::MAX,
        decreases to - i,
    {
        let d = digit_of(text[i]).unwrap();
        proof {
            let longer = body.subrange(0, i - start + 1);
            assert(longer.drop_last() =~= body.subrange(0, i - start));
            assert(longer.last() == text@[i as int]);
            lemma_number_grows(longer);
        }
        if !capped {
            match value.checked_mul(10) {
                Some(tens) => match tens.checked_add(d as u64) {
                    Some(sum) => {
                        value = sum;
                    },
                    None => {
                        capped = true;
                    },
                },
                None => {
                    capped = true;
                },
            }
        }
        i = i + 1;
    }
    let whole: usize = i - start;
    proof {
        assert(i < to ==> body[whole as int] == text@[i as int]);
        lemma_leading_digits(body, whole as nat);
    }
    let well_formed = if i == to {
        whole > 0
    } else if text[i] != '.' {
        false
    } else {
        let mut j: usize = i + 1;
        let mut digits_only = true;
        while j < to
            invariant
                i < j <= to <= text.len(),
                body == text@.subrange(start as int, to as int),
                whole == i - start,
                digits_only == all_digits(body.subrange(whole + 1, j - start)),
            decreases to - j,
        {
            proof {
                let longer = body.subrange(whole + 1, j - start + 1);
                let shorter = body.subrange(whole + 1, j - start);
                assert(longer.drop_last() =~= shorter);
                assert(longer.last() == text@[j as int]);
                if all_digits(longer) {
                    assert forall|k: int| 0 <= k < shorter.len() implies digit_value(
                        #[trigger] shorter[k],
                    ) is Some by {
                        assert(shorter[k] == longer[k]);
                    }
                }
                if all_digits(shorter) && digit_value(text@[j as int]) is Some {
                    assert forall|k: int| 0 <= k < longer.len() implies digit_value(
                        #[trigger] longer[k],
                    ) is Some by {
                        if k < shorter.len() {
                            assert(longer[k] == shorter[k]);
                        }
                    }
                }
                if digit_value(text@[j as int]) is None {
                    assert(longer[longer.len() - 1] == text@[j as int]);
                }
            }
            if digit_of(text[j]).is_none() {
                digits_only = false;
            }
            j = j + 1;
        }
        digits_only && to - start > 1
    };
    proof {
        assert(well_formed == is_decimal(field));
    }
    if !well_formed || negative {
        0
    } else if capped {
        u64::MAX
    } else {
        value
    }
}

/// The entry that the row `text[from..to]` stands for.
pub fn parse_entry(text: &Vec<char>, from: usize, to: usize) -> (entry: LeaderboardEntry)
    requires
        from <= to <= text.len(),
    ensures
        entry@ == entry_of(text@.subrange(from as int, to as int)),
{
    let fields = split_fields(text, from, to);
    if fields.len() != 4 {
        LeaderboardEntry::default()
    } else {
        let seconds = parse_seconds(text, fields[3].from, fields[3].to);
        LeaderboardEntry {
            name: string_of(text, fields[0].from, fields[0].to),
            score: string_of(text, fields[1].from, fields[1].to),
            kills: string_of(text, fields[2].from, fields[2].to),
            time: format_time(seconds),
        }
    }
}

/// Reads an answer of the leaderboard service. An empty answer holds
/// no entries; otherwise each row gives one entry, and a row that does
/// not have four fields gives an empty one.
pub fn string_to_leaderboard(s: &str) -> (data: LeaderboardData)
    ensures
        data@ == leaderboard_of(s@),
{
    let mut entries: Vec<LeaderboardEntry> = Vec::new();
    if s.is_empty() {
        let data = LeaderboardData(entries);
        proof {
            assert(data@ =~= leaderboard_of(s@));
        }
        return data;
    }
    let text = chars_of(s);
    let end = trimmed_length(&text);
    let rows = split_rows(&text, end);
    let ghost pieces = split(trim_line_feeds(s@), |c: char| is_row_end(c));
    let mut k: usize = 0;
    while k < rows.len()
        invariant
            k <= rows.len(),
            end <= text.len(),
            rows.len() == pieces.len(),
            forall|r: int|
                0 <= r < rows.len() ==> 0 <= (#[trigger] rows@[r]).from <= rows@[r].to <= end
                    && text@.subrange(rows@[r].from as int, rows@[r].to as int) == pieces[r],
            entries.len() == k,
            forall|r: int| 0 <= r < k ==> (#[trigger] entries@[r])@ == entry_of(pieces[r]),
        decreases rows.len() - k,
    {
        let row = rows[k];
        entries.push(parse_entry(&text, row.from, row.to));
        k = k + 1;
    }
    let data = LeaderboardData(entries);
    proof {
        assert(data@ =~= leaderboard_of(s@));
    }
    data
}

impl LeaderboardData {
    /// Whether the entry at `i` has this name and this score.
    pub open spec fn matches_at(self, i: int, name: Seq<char>, score: Seq<char>) -> bool {
        self@[i].name == name && self@[i].score == score
    }

    /// Finds the first entry with this name and this score.
    pub fn find_index(&self, name: &str, score: &str) -> (found: Option<usize>)
        ensures
            match found {
                Some(i) => i < self@.len() && self.matches_at(i as int, name@, score@)
                    && forall|j: int| 0 <= j < i ==> !self.matches_at(j, name@, score@),
                None => forall|j: int| 0 <= j < self@.len() ==> !self.matches_at(j, name@, score@),
            },
    {
        let wanted_name = String::from_str(name);
        let wanted_score = String::from_str(score);
        let mut i: usize = 0;
        while i < self.0.len()
            invariant
                i <= self.0.len(),
                self@.len() == self.0.len(),
                wanted_name@ == name@,
                wanted_score@ == score@,
                forall|j: int| 0 <= j < i ==> !self.matches_at(j, name@, score@),
            decreases self.0.len() - i,
        {
            proof {
                assert(self@[i as int] == self.0@[i as int]@);
            }
            if self.0[i].name == wanted_name && self.0[i].score == wanted_score {
                return Some(i);
            }
            i = i + 1;
        }
        None
    }

    /// How many entries there are.
    pub fn len(&self) -> (n: usize)
        ensures
            n == self@.len(),
    {
        self.0.len()
    }
}

/// The rank of the row at `i`, in three digits.
pub fn rank_label(i: usize) -> (label: String)
    ensures
        label@ == padded(
            if i as nat + 1 > u64::MAX {
                u64::MAX as nat
            } else {
                i as nat + 1
            },
            3,
        ),
{
    let rank: u64 = (i as u64).saturating_add(1);
    let mut label = String::new();
    push_padded(&mut label, rank, 3);
    proof {
        assert(label@ =~= padded(rank as nat, 3));
    }
    label
}

/// What is sent to the service for one session.
pub open spec fn submission_of(name: Seq<char>, score: u32, kills: u32, elapsed: u64) -> Seq<
    char,
> {
    name + seq![','] + decimal(score as nat) + seq![','] + decimal(kills as nat) + seq![',']
        + decimal((elapsed / 1_000_000) as nat) + seq!['.'] + padded(
        ((elapsed / 1000) % 1000) as nat,
        3,
    )
}

/// The row that reports a session: name, score, kills and the time
/// played in seconds, to the millisecond.
pub fn submission(name: &str, score: u32, kills: u32, elapsed: u64) -> (row: String)
    ensures
        row@ == submission_of(name@, score, kills, elapsed),
{
    let mut row = String::from_str(name);
    row.push(',');
    push_padded(&mut row, score as u64, 0);
    row.push(',');
    push_padded(&mut row, kills as u64, 0);
    row.push(',');
    push_padded(&mut row, elapsed / 1_000_000, 0);
    row.push('.');
    push_padded(&mut row, (elapsed / 1000) % 1000, 3);
    proof {
        assert(row@ =~= submission_of(name@, score, kills, elapsed));
    }
    row
}

/// The request that posts `data` to `host`.
pub open spec fn post_request_of(host: Seq<char>, data: Seq<char>, length: nat) -> Seq<char> {
    "POST / HTTP/1.1\r\nHost: "@ + host + "\r\nContent-Length: "@ + decimal(length)
        + "\r\nContent-Type: text/plain\r\nConnection: close\r\n\r\n"@ + data + "\r\n"@
}

/// The request that posts `data_to_send` to `host`, with the length of
/// the data in bytes.
pub fn post_request_string(host: &str, data_to_send: &str) -> (request: String)
    ensures
        request@ == post_request_of(host@, data_to_send@, data_to_send.len() as nat),
{
    let mut request = String::from_str("POST / HTTP/1.1\r\nHost: ");
    push_text(&mut request, host);
    push_text(&mut request, "\r\nContent-Length: ");
    push_padded(&mut request, data_to_send.len() as u64, 0);
    push_text(&mut request, "\r\nContent-Type: text/plain\r\nConnection: close\r\n\r\n");
    push_text(&mut request, data_to_send);
    push_text(&mut request, "\r\n");
    proof {
        assert(request@ =~= post_request_of(host@, data_to_send@, data_to_send.len() as nat));
    }
    request
}

/// The request that asks `host` for the leaderboard.
pub fn get_request_string(host: &str) -> (request: String)
    ensures
        request@ == "GET / HTTP/1.1\r\nHost: "@ + host@ + "\r\nConnection: close\r\n\r\n"@,
{
    let mut request = String::from_str("GET / HTTP/1.1\r\nHost: ");
    push_text(&mut request, host);
    push_text(&mut request, "\r\nConnection: close\r\n\r\n");
    request
}

/// An entry has no time exactly if its row does not have four fields.
pub proof fn lemma_malformed_rows_have_no_time(row: Seq<char>)
    ensures
        entry_of(row).time.len() == 0 <==> split(row, |c: char| is_field_end(c)).len() != 4,
        split(row, |c: char| is_field_end(c)).len() != 4 ==> entry_of(row) == EntryView::empty(),
{
    let fields = split(row, |c: char| is_field_end(c));
    if fields.len() == 4 {
        let seconds = whole_seconds(fields[3]);
        assert(formatted_time(seconds).len() > 0);
    }
}

/// Whether none of the characters of `text` separates fields or rows.
pub open spec fn is_plain(text: Seq<char>) -> bool {
    forall|i: int| 0 <= i < text.len() ==> !is_field_end(#[trigger] text[i]) && !is_row_end(text[i])
}

/// A text without separators is one piece.
pub proof fn lemma_split_whole(text: Seq<char>, sep: spec_fn(char) -> bool)
    requires
        forall|i: int| 0 <= i < text.len() ==> !sep(#[trigger] text[i]),
    ensures
        split(text, sep) == seq![text],
    decreases text.len(),
{
    if text.len() > 0 {
        let init = text.drop_last();
        assert forall|i: int| 0 <= i < init.len() implies !sep(#[trigger] init[i]) by {
            assert(init[i] == text[i]);
        }
        lemma_split_whole(init, sep);
        assert(init.push(text.last()) =~= text);
        assert(seq![init].drop_last().push(init.push(text.last())) =~= seq![text]);
    } else {
        assert(text =~= Seq::<char>::empty());
    }
}

/// A separator and a piece without separators after a text add that
/// piece to the pieces of the text.
pub proof fn lemma_split_join(
    head: Seq<char>,
    mark: char,
    tail: Seq<char>,
    sep: spec_fn(char) -> bool,
)
    requires
        sep(mark),
        forall|i: int| 0 <= i < tail.len() ==> !sep(#[trigger] tail[i]),
    ensures
        split(head + seq![mark] + tail, sep) == split(head, sep).push(tail),
    decreases tail.len(),
{
    let text = head + seq![mark] + tail;
    if tail.len() == 0 {
        assert(text.drop_last() =~= head);
        assert(tail =~= Seq::<char>::empty());
    } else {
        let init = tail.drop_last();
        assert forall|i: int| 0 <= i < init.len() implies !sep(#[trigger] init[i]) by {
            assert(init[i] == tail[i]);
        }
        lemma_split_join(head, mark, init, sep);
        assert(text.drop_last() =~= head + seq![mark] + init);
        assert(text.last() == tail.last());
        let before = split(head, sep).push(init);
        assert(before.drop_last() =~= split(head, sep));
        assert(init.push(tail.last()) =~= tail);
    }
}

/// A row of four fields without separators gives those fields.
pub proof fn lemma_row_fields(
    name: Seq<char>,
    score: Seq<char>,
    kills: Seq<char>,
    time: Seq<char>,
)
    requires
        is_plain(name),
        is_plain(score),
        is_plain(kills),
        is_plain(time),
    ensures
        split(
            name + seq![','] + score + seq![','] + kills + seq![','] + time,
            |c: char| is_field_end(c),
        ) == seq![name, score, kills, time],
{
    let sep = |c: char| is_field_end(c);
    lemma_split_whole(name, sep);
    lemma_split_join(name, ',', score, sep);
    lemma_split_join(name + seq![','] + score, ',', kills, sep);
    lemma_split_join(name + seq![','] + score + seq![','] + kills, ',', time, sep);
    assert(seq![name].push(score).push(kills).push(time) =~= seq![name, score, kills, time]);
}

/// An answer of one row whose four fields hold no separators is read as
/// one entry with the first three fields as they stand and the fourth as
/// minutes and seconds.
pub proof fn lemma_one_row(name: Seq<char>, score: Seq<char>, kills: Seq<char>, time: Seq<char>)
    requires
        is_plain(name),
        is_plain(score),
        is_plain(kills),
        is_plain(time),
    ensures
        leaderboard_of(name + seq![','] + score + seq![','] + kills + seq![','] + time) == seq![
            EntryView { name, score, kills, time: formatted_time(whole_seconds(time)) },
        ],
{
    let row = name + seq![','] + score + seq![','] + kills + seq![','] + time;
    let rows = |c: char| is_row_end(c);
    lemma_row_fields(name, score, kills, time);
    assert forall|i: int| 0 <= i < row.len() implies !rows(#[trigger] row[i]) by {
        let a = name.len();
        let b = a + 1 + score.len();
        let c = b + 1 + kills.len();
        if i < a {
            assert(row[i] == name[i]);
        } else if i == a {
        } else if i < b {
            assert(row[i] == score[i - a - 1]);
        } else if i == b {
        } else if i < c {
            assert(row[i] == kills[i - b - 1]);
        } else if i == c {
        } else {
            assert(row[i] == time[i - c - 1]);
        }
    }
    assert(row.len() > 0);
    assert(!rows(row.last()));
    assert(trim_line_feeds(row) == row);
    lemma_split_whole(row, rows);
    assert(seq![row].map_values(|r: Seq<char>| entry_of(r)) =~= seq![entry_of(row)]);
}

/// A numeral is made of digits and stands for its number.
pub proof fn lemma_decimal_reads_back(n: nat)
    ensures
        decimal(n).len() > 0,
        all_digits(decimal(n)),
        number(decimal(n)) == n,
    decreases n,
{
    if n < 10 {
        let one = seq![digit(n)];
        assert(one.drop_last() =~= Seq::<char>::empty());
        assert(number(one.drop_last()) == 0);
        assert(digit_value(digit(n)) == Some(n));
    } else {
        lemma_decimal_reads_back(n / 10);
        let init = decimal(n / 10);
        let all = init.push(digit(n % 10));
        assert(all.drop_last() =~= init);
        assert(digit_value(digit(n % 10)) == Some(n % 10));
        assert forall|i: int| 0 <= i < all.len() implies digit_value(#[trigger] all[i]) is Some by {
            if i < init.len() {
                assert(all[i] == init[i]);
            }
        }
    }
}

/// A numeral filled with zeros is made of digits.
pub proof fn lemma_padded_digits(n: nat, width: nat)
    ensures
        all_digits(padded(n, width)),
        padded(n, width).len() > 0,
{
    lemma_decimal_reads_back(n);
    let text = padded(n, width);
    if decimal(n).len() < width {
        let fill = (width - decimal(n).len()) as nat;
        assert forall|i: int| 0 <= i < text.len() implies digit_value(#[trigger] text[i]) is Some by {
            if i >= fill {
                assert(text[i] == decimal(n)[i - fill]);
            }
        }
    }
}

/// Digits separate neither fields nor rows.
pub proof fn lemma_digits_are_plain(text: Seq<char>)
    requires
        all_digits(text),
    ensures
        is_plain(text),
{
}

/// Seconds written with a point and a fraction read back as the
/// seconds.
pub proof fn lemma_seconds_read_back(seconds: u64, fraction: Seq<char>)
    requires
        all_digits(fraction),
    ensures
        whole_seconds(decimal(seconds as nat) + seq!['.'] + fraction) == seconds,
        is_plain(decimal(seconds as nat) + seq!['.'] + fraction),
{
    let whole = decimal(seconds as nat);
    let text = whole + seq!['.'] + fraction;
    lemma_decimal_reads_back(seconds as nat);
    let k = whole.len();
    assert(text[0] == whole[0]);
    assert(digit_value(whole[0]) is Some);
    assert(unsigned(text) == text);
    assert forall|j: int| 0 <= j < k implies digit_value(#[trigger] text[j]) is Some by {
        assert(text[j] == whole[j]);
    }
    assert(text[k as int] == '.');
    lemma_leading_digits(text, k);
    assert(text.subrange(k as int + 1, text.len() as int) =~= fraction);
    assert(text.subrange(0, k as int) =~= whole);
    assert(is_decimal(text));
    assert forall|i: int| 0 <= i < text.len() implies !is_field_end(#[trigger] text[i])
        && !is_row_end(text[i]) by {
        if i < k {
            assert(text[i] == whole[i]);
        } else if i > k {
            assert(text[i] == fraction[i - k - 1]);
            assert(digit_value(fraction[i - k - 1]) is Some);
        }
    }
}

/// What is sent for a session reads back as one entry: the name as it
/// is, score and kills as numerals, and the time played in minutes and
/// seconds. The name must hold no comma, semicolon or line feed.
pub proof fn lemma_submission_reads_back(name: Seq<char>, score: u32, kills: u32, elapsed: u64)
    requires
        is_plain(name),
    ensures
        leaderboard_of(submission_of(name, score, kills, elapsed)) == seq![
            EntryView {
                name,
                score: decimal(score as nat),
                kills: decimal(kills as nat),
                time: formatted_time((elapsed / 1_000_000) as nat),
            },
        ],
{
    let seconds = (elapsed / 1_000_000) as u64;
    let fraction = padded(((elapsed / 1000) % 1000) as nat, 3);
    let time = decimal(seconds as nat) + seq!['.'] + fraction;
    lemma_padded_digits(((elapsed / 1000) % 1000) as nat, 3);
    lemma_seconds_read_back(seconds, fraction);
    lemma_decimal_reads_back(score as nat);
    lemma_decimal_reads_back(kills as nat);
    lemma_digits_are_plain(decimal(score as nat));
    lemma_digits_are_plain(decimal(kills as nat));
    lemma_one_row(name, decimal(score as nat), decimal(kills as nat), time);
    assert(submission_of(name, score, kills, elapsed) =~= name + seq![','] + decimal(
        score as nat,
    ) + seq![','] + decimal(kills as nat) + seq![','] + time);
}

} // verus!
