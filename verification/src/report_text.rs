//! The texts a report shows and exports: trend axis thinning, labels fitted
//! to a width, category and member labels, the report's source line and the
//! summaries of durations. Words of the interface language are passed in by
//! the caller, which looks them up in the copy resources.

use vstd::prelude::*;

use crate::analytics::TrendPoint;
use crate::categories::CategoryLabel;
use crate::report::{decimal, decimal_text, spec_utc_offset_label, utc_offset_label};
use crate::text::{char_is_whitespace, is_blank, is_whitespace, str_is_blank};

verus! {

/// The labels a chart axis shows at most, between the first and the last.
pub open spec fn spec_trend_interval(count: int, maximum: int) -> int {
    let labelled = if maximum < 2 { 2 } else { maximum };
    let gaps = if count == 0 { 0 } else { count - 1 };
    (gaps + labelled - 2) / (labelled - 1)
}

/// The step between the labelled points of a trend of `count` points that
/// shows at most `maximum` labels (at least two): the gaps between the
/// points, divided by the gaps between the labels, rounded up.
pub fn trend_interval(count: usize, maximum: usize) -> (interval: usize)
    ensures
        interval == spec_trend_interval(count as int, maximum as int),
{
    let labelled = if maximum < 2 { 2 } else { maximum };
    let gaps = if count == 0 { 0 } else { count - 1 };
    let divisor = labelled - 1;
    let quotient = gaps / divisor;
    let interval = if gaps % divisor == 0 { quotient } else { quotient + 1 };
    proof {
        let d = divisor as int;
        let g = gaps as int;
        assert(g == d * (g / d) + g % d) by (nonlinear_arith)
            requires d > 0;
        assert((g + d - 1) / d == if g % d == 0 { g / d } else { g / d + 1 }) by (nonlinear_arith)
            requires d > 0, g >= 0, g == d * (g / d) + g % d, 0 <= g % d < d;
    }
    interval
}

/// A trend point is labelled when it is the first, the last, or a multiple of the step.
pub open spec fn spec_trend_point_is_visible(index: int, last_index: int, interval: int) -> bool {
    index == 0 || index == last_index || index % (if interval < 1 { 1 } else { interval }) == 0
}

/// Decides `spec_trend_point_is_visible`.
pub fn trend_point_is_visible(index: usize, last_index: usize, interval: usize) -> (r: bool)
    ensures
        r == spec_trend_point_is_visible(index as int, last_index as int, interval as int),
{
    let step = if interval < 1 { 1 } else { interval };
    index == 0 || index == last_index || index % step == 0
}

/// The points among the first `n` that are labelled, in order.
pub open spec fn visible_prefix(points: Seq<TrendPoint>, last_index: int, interval: int, n: int) -> Seq<TrendPoint>
    decreases n,
{
    if n <= 0 {
        Seq::empty()
    } else {
        let earlier = visible_prefix(points, last_index, interval, n - 1);
        if spec_trend_point_is_visible(n - 1, last_index, interval) {
            earlier.push(points[n - 1])
        } else {
            earlier
        }
    }
}

/// The points of a trend chart that carry a label, when at most `maximum` do.
pub open spec fn spec_visible_trend_points(points: Seq<TrendPoint>, maximum: int) -> Seq<TrendPoint> {
    let last_index = if points.len() == 0 { 0 } else { points.len() - 1 };
    visible_prefix(points, last_index, spec_trend_interval(points.len() as int, maximum), points.len() as int)
}

/// The labelled points of a trend, in order.
pub fn visible_trend_points(points: &Vec<TrendPoint>, maximum: usize) -> (r: Vec<TrendPoint>)
    ensures
        r@ == spec_visible_trend_points(points@, maximum as int),
{
    let last_index = if points.len() == 0 { 0 } else { points.len() - 1 };
    let interval = trend_interval(points.len(), maximum);
    let mut visible: Vec<TrendPoint> = Vec::new();
    let mut i: usize = 0;
    while i < points.len()
        invariant
            i <= points.len(),
            last_index == (if points@.len() == 0 { 0 } else { points@.len() - 1 }),
            interval == spec_trend_interval(points@.len() as int, maximum as int),
            visible@ == visible_prefix(points@, last_index as int, interval as int, i as int),
        decreases points.len() - i,
    {
        if trend_point_is_visible(i, last_index, interval) {
            visible.push(points[i]);
        }
        i = i + 1;
    }
    visible
}

/// The text cut to `maximum` characters, with an ellipsis when it was longer.
pub open spec fn fitted(text: Seq<char>, maximum: int) -> Seq<char> {
    if text.len() <= maximum {
        text
    } else {
        text.take(maximum).push('…')
    }
}

/// Fits a label to `maximum` characters.
pub fn fit_label(value: &str, maximum: usize) -> (r: String)
    ensures
        r@ == fitted(value@, maximum as int),
{
    let length = value.unicode_len();
    if length <= maximum {
        return value.to_owned();
    }
    let mut label = String::from_str(value.substring_char(0, maximum));
    proof {
        reveal_strlit("…");
    }
    label.append("…");
    proof {
        assert(value@.subrange(0, maximum as int) =~= value@.take(maximum as int));
        assert(label@ =~= value@.take(maximum as int).push('…'));
    }
    label
}

/// A line break or carriage return becomes a space.
pub open spec fn single_line_char(c: char) -> char {
    if c == '\n' || c == '\r' {
        ' '
    } else {
        c
    }
}

/// The text on one line.
pub open spec fn single_line(text: Seq<char>) -> Seq<char> {
    text.map_values(|c: char| single_line_char(c))
}

/// The most characters a line of the PDF report shows.
pub const MAXIMUM_VISIBLE_LABEL_CHARACTERS: usize = 78;

/// The text on one line, fitted to what a line of the PDF report shows.
pub fn fit_text(value: &str) -> (r: String)
    ensures
        r@ == fitted(single_line(value@), MAXIMUM_VISIBLE_LABEL_CHARACTERS as int),
{
    let length = value.unicode_len();
    let mut line = String::new();
    let mut start: usize = 0;
    let mut i: usize = 0;
    proof {
        reveal_strlit(" ");
    }
    while i < length
        invariant
            length == value@.len(),
            start <= i <= length,
            line@ == single_line(value@.take(start as int)),
            forall|k: int| start <= k < i ==> value@[k] != '\n' && value@[k] != '\r',
        decreases length - i,
    {
        let c = value.get_char(i);
        if c == '\n' || c == '\r' {
            let part = value.substring_char(start, i);
            let ghost before = line@;
            line.append(part);
            line.append(" ");
            proof {
                reveal_strlit(" ");
                assert(value@.subrange(start as int, i as int) =~= single_line(
                    value@.subrange(start as int, i as int),
                ));
                assert(value@.take(i + 1) =~= value@.take(start as int) + value@.subrange(
                    start as int,
                    i as int,
                ) + seq![c]);
                assert(single_line(value@.take(i + 1)) =~= single_line(value@.take(start as int))
                    + single_line(value@.subrange(start as int, i as int)) + seq![' ']);
                assert(line@ =~= before + value@.subrange(start as int, i as int) + seq![' ']);
            }
            start = i + 1;
        }
        i = i + 1;
    }
    let rest = value.substring_char(start, length);
    line.append(rest);
    proof {
        assert(value@.subrange(start as int, length as int) =~= single_line(
            value@.subrange(start as int, length as int),
        ));
        assert(value@ =~= value@.take(start as int) + value@.subrange(start as int, length as int));
        assert(single_line(value@) =~= single_line(value@.take(start as int)) + value@.subrange(
            start as int,
            length as int,
        ));
    }
    fit_label(line.as_str(), MAXIMUM_VISIBLE_LABEL_CHARACTERS)
}

/// The label of a category: its value, or the words for an empty value or
/// for the remainder of the categories.
pub open spec fn spec_category_label_text(label: CategoryLabel, empty_label: Seq<char>, other_label: Seq<char>) -> Seq<char> {
    match label {
        CategoryLabel::Value(value) => value@,
        CategoryLabel::Unspecified => empty_label,
        CategoryLabel::Other => other_label,
    }
}

/// The label shown for a category of a chart, table or export.
pub fn category_label_text(label: &CategoryLabel, empty_label: &str, other_label: &str) -> (r: String)
    ensures
        r@ == spec_category_label_text(*label, empty_label@, other_label@),
{
    match label {
        CategoryLabel::Value(value) => value.clone(),
        CategoryLabel::Unspecified => empty_label.to_owned(),
        CategoryLabel::Other => other_label.to_owned(),
    }
}

/// The copy key of a member's coverage: whether the member logged any time.
pub fn member_status_key(seconds: u32) -> (key: &'static str)
    ensures
        seconds == 0 ==> key@ == "reports.coverageNoHours"@,
        seconds != 0 ==> key@ == "reports.coverageWithHours"@,
{
    if seconds == 0 {
        "reports.coverageNoHours"
    } else {
        "reports.coverageWithHours"
    }
}

/// The style class of a member's coverage chip.
pub fn member_status_class(seconds: u32) -> (class: &'static str)
    ensures
        seconds == 0 ==> class@ == "status-chip pending"@,
        seconds != 0 ==> class@ == "status-chip complete"@,
{
    if seconds == 0 {
        "status-chip pending"
    } else {
        "status-chip complete"
    }
}

/// Where a report's data came from.
#[derive(Clone, Debug, PartialEq, Eq)]
pub struct ReportContext {
    pub jira_site: String,
    pub board_id: u64,
    pub utc_offset_minutes: i16,
}

/// The separator between the parts of a line.
pub open spec fn dot_separator() -> Seq<char> {
    seq![' ', '·', ' ']
}

/// The source line of a report: its label, then the site and the board when known.
pub open spec fn spec_report_source(label: Seq<char>, context: Option<ReportContext>, board_word: Seq<char>) -> Seq<char> {
    match context {
        None => label,
        Some(context) => label + dot_separator() + context.jira_site@ + dot_separator() + board_word + seq![' ']
            + decimal(context.board_id as nat),
    }
}

/// Writes the source line of a report; `board_word` is the word for a board.
pub fn report_source(label: &str, context: &Option<ReportContext>, board_word: &str) -> (r: String)
    ensures
        r@ == spec_report_source(label@, *context, board_word@),
{
    match context {
        None => label.to_owned(),
        Some(context) => {
            proof {
                reveal_strlit(" · ");
                reveal_strlit(" ");
            }
            let mut source = label.to_owned();
            source.append(" · ");
            source.append(context.jira_site.as_str());
            source.append(" · ");
            source.append(board_word);
            source.append(" ");
            let number = decimal_text(context.board_id);
            source.append(number.as_str());
            source
        },
    }
}

/// The rows about the report's origin in the scope sheet: the site, the
/// board, the time zone and when the report was generated.
pub fn context_scope_rows(context: &Option<ReportContext>, generated_at: &str) -> (rows: Vec<(&'static str, String)>)
    ensures
        context is None ==> rows@.len() == 0,
        context matches Some(c) ==> {
            &&& rows@.len() == 4
            &&& rows@[0].0@ == "reports.export.site"@ && rows@[0].1@ == c.jira_site@
            &&& rows@[1].0@ == "reports.export.board"@ && rows@[1].1@ == decimal(c.board_id as nat)
            &&& rows@[2].0@ == "reports.export.timezone"@ && rows@[2].1@ == spec_utc_offset_label(
                c.utc_offset_minutes,
            )
            &&& rows@[3].0@ == "reports.export.generatedAt"@ && rows@[3].1@ == generated_at@
        },
{
    match context {
        None => Vec::new(),
        Some(context) => {
            let mut rows: Vec<(&'static str, String)> = Vec::new();
            rows.push(("reports.export.site", context.jira_site.clone()));
            rows.push(("reports.export.board", decimal_text(context.board_id)));
            rows.push(("reports.export.timezone", utc_offset_label(context.utc_offset_minutes)));
            rows.push(("reports.export.generatedAt", generated_at.to_owned()));
            rows
        },
    }
}

/// `n` in decimal, followed by nothing: the usize form of `decimal`.
fn count_text(n: usize) -> (r: String)
    ensures
        r@ == decimal(n as nat),
{
    decimal_text(n as u64)
}

/// The source line of a team report: complete, or how many parts could not be read.
pub open spec fn spec_team_source_label(warnings: int, complete: Seq<char>, warning_prefix: Seq<char>) -> Seq<char> {
    if warnings == 0 {
        complete
    } else {
        warning_prefix + decimal(warnings as nat)
    }
}

/// Writes `spec_team_source_label`; the words come from the copy resources.
pub fn team_source_label(warnings: usize, complete: &str, warning_prefix: &str) -> (r: String)
    ensures
        r@ == spec_team_source_label(warnings as int, complete@, warning_prefix@),
{
    if warnings == 0 {
        return complete.to_owned();
    }
    let mut label = warning_prefix.to_owned();
    label.append(count_text(warnings).as_str());
    label
}

/// The source line of a personal report: complete, or the number of warnings between two words.
pub open spec fn spec_live_source_label(warnings: int, complete: Seq<char>, prefix: Seq<char>, suffix: Seq<char>) -> Seq<char> {
    if warnings == 0 {
        complete
    } else {
        prefix + decimal(warnings as nat) + suffix
    }
}

/// Writes `spec_live_source_label`.
pub fn live_source_label(warnings: usize, complete: &str, prefix: &str, suffix: &str) -> (r: String)
    ensures
        r@ == spec_live_source_label(warnings as int, complete@, prefix@, suffix@),
{
    if warnings == 0 {
        return complete.to_owned();
    }
    let mut label = prefix.to_owned();
    label.append(count_text(warnings).as_str());
    label.append(suffix);
    label
}

/// How many of the entries a filter kept, such as `3 of 8`.
pub open spec fn spec_filter_result_label(included: int, total: int, of_word: Seq<char>) -> Seq<char> {
    decimal(included as nat) + seq![' '] + of_word + seq![' '] + decimal(total as nat)
}

/// Writes `spec_filter_result_label`.
pub fn filter_result_label(included: usize, total: usize, of_word: &str) -> (r: String)
    ensures
        r@ == spec_filter_result_label(included as int, total as int, of_word@),
{
    proof {
        reveal_strlit(" ");
    }
    let mut label = count_text(included);
    label.append(" ");
    label.append(of_word);
    label.append(" ");
    label.append(count_text(total).as_str());
    label
}

/// A duration in whole hours and minutes, such as `7 h` or `7 h 30 min`:
/// the minutes are left out when there are none.
pub open spec fn spec_format_hours(seconds: int, hour_word: Seq<char>, minute_word: Seq<char>) -> Seq<char> {
    let hours = seconds / 3600;
    let minutes = seconds % 3600 / 60;
    if minutes == 0 {
        decimal(hours as nat) + seq![' '] + hour_word
    } else {
        decimal(hours as nat) + seq![' '] + hour_word + seq![' '] + decimal(minutes as nat) + seq![' ']
            + minute_word
    }
}

/// Writes `spec_format_hours`.
pub fn format_hours(seconds: u32, hour_word: &str, minute_word: &str) -> (r: String)
    ensures
        r@ == spec_format_hours(seconds as int, hour_word@, minute_word@),
{
    proof {
        reveal_strlit(" ");
    }
    let hours = seconds / 3600;
    let minutes = seconds % 3600 / 60;
    let mut text = decimal_text(hours as u64);
    text.append(" ");
    text.append(hour_word);
    if minutes != 0 {
        text.append(" ");
        text.append(decimal_text(minutes as u64).as_str());
        text.append(" ");
        text.append(minute_word);
    }
    text
}

/// A duration given in minutes, written as `format_hours` writes it (the
/// seconds saturate at the largest `u32`).
pub fn format_minutes(minutes: u32, hour_word: &str, minute_word: &str) -> (r: String)
    ensures
        r@ == spec_format_hours(
            if minutes * 60 > u32::MAX { u32::MAX as int } else { minutes * 60 },
            hour_word@,
            minute_word@,
        ),
{
    let seconds: u32 = if minutes > u32::MAX / 60 {
        u32::MAX
    } else {
        minutes * 60
    };
    format_hours(seconds, hour_word, minute_word)
}

/// A worklog's comment, or the words for a missing one.
pub fn display_comment(comment: &str, no_comment: &str) -> (r: String)
    ensures
        comment@.len() == 0 ==> r@ == no_comment@,
        comment@.len() != 0 ==> r@ == comment@,
{
    if comment.is_empty() {
        return no_comment.to_owned();
    }
    comment.to_owned()
}

/// Rust's `str::to_uppercase`: the Unicode upper case of the text.
pub uninterp spec fn uppercase(text: Seq<char>) -> Seq<char>;

/// `str::to_uppercase`; the contract names its result `uppercase`, which the
/// Unicode case tables define.
#[verifier::external_body]
fn str_to_uppercase(text: &str) -> (r: String)
    ensures
        r@ == uppercase(text@),
{
    text.to_uppercase()
}

/// The character at `i` begins a word: it is not whitespace, and it is the
/// first character or follows whitespace.
pub open spec fn word_start(text: Seq<char>, i: int) -> bool {
    &&& 0 <= i < text.len()
    &&& !is_whitespace(text[i])
    &&& (i == 0 || is_whitespace(text[i - 1]))
}

/// The first characters of the words among the first `n` characters.
pub open spec fn word_initials(text: Seq<char>, n: int) -> Seq<char>
    decreases n,
{
    if n <= 0 {
        Seq::empty()
    } else if word_start(text, n - 1) {
        word_initials(text, n - 1).push(text[n - 1])
    } else {
        word_initials(text, n - 1)
    }
}

/// At most the first two characters.
pub open spec fn first_two(text: Seq<char>) -> Seq<char> {
    if text.len() <= 2 {
        text
    } else {
        text.take(2)
    }
}

/// The initials of a name: the first characters of its first two words, in upper case.
pub open spec fn spec_initials(name: Seq<char>) -> Seq<char> {
    uppercase(first_two(word_initials(name, name.len() as int)))
}

/// Writes the initials shown in a person's avatar.
pub fn initials(name: &str) -> (r: String)
    ensures
        r@ == spec_initials(name@),
{
    let length = name.unicode_len();
    let mut picked = String::new();
    let mut count: usize = 0;
    let mut i: usize = 0;
    while i < length
        invariant
            length == name@.len(),
            i <= length,
            picked@ == first_two(word_initials(name@, i as int)),
            count == picked@.len(),
            count <= 2,
        decreases length - i,
    {
        let c = name.get_char(i);
        let starts = !char_is_whitespace(c) && (i == 0 || char_is_whitespace(name.get_char(i - 1)));
        assert(starts == word_start(name@, i as int));
        if starts && count < 2 {
            let letter = name.substring_char(i, i + 1);
            picked.append(letter);
            count = count + 1;
            proof {
                assert(name@.subrange(i as int, i + 1) =~= seq![c]);
            }
        }
        proof {
            let before = word_initials(name@, i as int);
            if starts {
                assert(word_initials(name@, i + 1) == before.push(c));
                if before.len() >= 2 {
                    assert(before.push(c).take(2) =~= before.take(2));
                }
            }
        }
        i = i + 1;
    }
    str_to_uppercase(picked.as_str())
}

/// A comment of a report table, or the words for a blank one.
pub fn report_comment(comment: &str, no_comment: &str) -> (r: String)
    ensures
        is_blank(comment@) ==> r@ == no_comment@,
        !is_blank(comment@) ==> r@ == comment@,
{
    if str_is_blank(comment) {
        return no_comment.to_owned();
    }
    comment.to_owned()
}

/// The page of a table that is shown: its number, the number of pages, and
/// the first and one-past-the-last rows.
#[derive(Clone, Copy, Debug, PartialEq, Eq, Structural)]
pub struct PageWindow {
    pub current: usize,
    pub total: usize,
    pub start: usize,
    pub end: usize,
}

/// The page shown of `item_count` rows when page `requested_page` is asked
/// for and a page holds `page_size` rows (at least one): there is always a
/// page, and a page past the last shows the last.
pub open spec fn spec_page_window(item_count: int, requested_page: int, page_size: int) -> PageWindow {
    let size = if page_size < 1 { 1 } else { page_size };
    let items = if item_count < 1 { 1 } else { item_count };
    let total = (items + size - 1) / size;
    let current = if requested_page < total - 1 { requested_page } else { total - 1 };
    let first = if current * size < item_count { current * size } else { item_count };
    let last = if first + size < item_count { first + size } else { item_count };
    PageWindow { current: current as usize, total: total as usize, start: first as usize, end: last as usize }
}

/// Computes `spec_page_window`.
pub fn page_window(item_count: usize, requested_page: usize, page_size: usize) -> (window: PageWindow)
    ensures
        window == spec_page_window(item_count as int, requested_page as int, page_size as int),
        window.current < window.total,
        window.start <= window.end <= item_count,
{
    let size = if page_size < 1 { 1 } else { page_size };
    let items = if item_count < 1 { 1 } else { item_count };
    let total = (items - 1) / size + 1;
    proof {
        let s = size as int;
        let n = items as int;
        assert((n + s - 1) / s == (n - 1) / s + 1) by (nonlinear_arith)
            requires s > 0, n >= 1;
    }
    let current = if requested_page < total - 1 { requested_page } else { total - 1 };
    let first = if current > item_count / size {
        item_count
    } else {
        proof {
            let c = current as int;
            let s = size as int;
            let m = item_count as int;
            assert(c * s <= (m / s) * s) by (nonlinear_arith)
                requires c <= m / s, s > 0, c >= 0;
            assert((m / s) * s <= m) by (nonlinear_arith)
                requires s > 0, m >= 0;
        }
        let product = current * size;
        if product < item_count { product } else { item_count }
    };
    proof {
        let c = current as int;
        let s = size as int;
        let m = item_count as int;
        if c > m / s {
            assert(c * s >= (m / s + 1) * s) by (nonlinear_arith)
                requires c >= m / s + 1, s > 0;
            assert((m / s + 1) * s > m) by (nonlinear_arith)
                requires s > 0, m >= 0;
        } else {
            assert(c * s <= (m / s) * s) by (nonlinear_arith)
                requires c <= m / s, s > 0, c >= 0;
            assert((m / s) * s <= m) by (nonlinear_arith)
                requires s > 0, m >= 0;
        }
    }
    let last = if item_count - first > size {
        first + size
    } else {
        item_count
    };
    PageWindow { current, total, start: first, end: last }
}

/// The hours already logged on a suggested issue, or the words for none.
pub fn suggestion_hours(seconds: u32, no_hours: &str, hour_word: &str, minute_word: &str) -> (r: String)
    ensures
        seconds == 0 ==> r@ == no_hours@,
        seconds != 0 ==> r@ == spec_format_hours(seconds as int, hour_word@, minute_word@),
{
    if seconds == 0 {
        return no_hours.to_owned();
    }
    format_hours(seconds, hour_word, minute_word)
}

/// Paging a table shows every row once: each page but the last is full, and
/// the next page starts where the page before it ends.
pub proof fn lemma_pages_are_contiguous(item_count: usize, page: usize, page_size: usize)
    requires
        page_size >= 1,
        page + 1 < spec_page_window(item_count as int, 0, page_size as int).total,
    ensures
        spec_page_window(item_count as int, page as int, page_size as int).end == spec_page_window(
            item_count as int,
            page + 1,
            page_size as int,
        ).start,
        spec_page_window(item_count as int, page as int, page_size as int).end - spec_page_window(
            item_count as int,
            page as int,
            page_size as int,
        ).start == page_size,
{
    let n = item_count as int;
    let s = page_size as int;
    let p = page as int;
    let items = if n < 1 { 1 } else { n };
    let total = (items + s - 1) / s;
    assert(total * s <= items + s - 1) by (nonlinear_arith)
        requires s >= 1, items >= 1, total == (items + s - 1) / s;
    assert((p + 2) * s <= total * s) by (nonlinear_arith)
        requires p + 2 <= total, s >= 1;
    assert((p + 1) * s + s == (p + 2) * s) by (nonlinear_arith);
    assert(p * s + s == (p + 1) * s) by (nonlinear_arith);
    assert((p + 1) * s < n);
}

/// The numbers below `k` that are multiples of `step`.
pub open spec fn multiples_below(k: int, step: int) -> int {
    if k <= 0 {
        0
    } else {
        (k - 1) / step + 1
    }
}

proof fn lemma_multiples_step(k: int, step: int)
    requires
        k >= 0,
        step >= 1,
    ensures
        multiples_below(k + 1, step) == multiples_below(k, step) + (if k % step == 0 { 1int } else { 0int }),
{
    if k > 0 {
        assert(k / step == (k - 1) / step + (if k % step == 0 { 1int } else { 0int })) by (nonlinear_arith)
            requires k >= 1, step >= 1;
    }
}

proof fn lemma_visible_count(points: Seq<TrendPoint>, last_index: int, interval: int, k: int)
    requires
        0 <= k <= last_index + 1,
        last_index >= 0,
    ensures
        ({
            let step = if interval < 1 { 1 } else { interval };
            visible_prefix(points, last_index, interval, k).len() == multiples_below(k, step) + (if k
                > last_index && last_index % step != 0 {
                1int
            } else {
                0int
            })
        }),
        k >= 1 ==> visible_prefix(points, last_index, interval, k)[0] == points[0],
    decreases k,
{
    let step = if interval < 1 { 1 } else { interval };
    if k > 0 {
        lemma_visible_count(points, last_index, interval, k - 1);
        lemma_multiples_step(k - 1, step);
        if k - 1 == 0 {
            assert(visible_prefix(points, last_index, interval, 0).len() == 0);
        }
    }
}

/// A trend chart shows at most the labels it allows (at least two), and
/// always labels its first and last points.
pub proof fn lemma_trend_axis_is_thinned(points: Seq<TrendPoint>, maximum: int)
    ensures
        spec_visible_trend_points(points, maximum).len() <= (if maximum < 2 { 2 } else { maximum }),
        points.len() > 0 ==> spec_visible_trend_points(points, maximum)[0] == points[0],
        points.len() > 0 ==> spec_visible_trend_points(points, maximum).last() == points.last(),
{
    let n = points.len() as int;
    if n > 0 {
        let last_index = n - 1;
        let interval = spec_trend_interval(n, maximum);
        let step = if interval < 1 { 1 } else { interval };
        let labelled = if maximum < 2 { 2 } else { maximum };
        let divisor = labelled - 1;
        lemma_visible_count(points, last_index, interval, n);
        let count = multiples_below(n, step) + (if last_index % step != 0 { 1int } else { 0int });
        assert(count == last_index / step + 1 + (if last_index % step != 0 { 1int } else { 0int }));
        if last_index > 0 {
            assert(interval == (last_index + divisor - 1) / divisor);
            assert(interval * divisor >= last_index) by (nonlinear_arith)
                requires divisor >= 1, last_index >= 1, interval == (last_index + divisor - 1) / divisor;
            assert(interval >= 1) by (nonlinear_arith)
                requires divisor >= 1, last_index >= 1, interval * divisor >= last_index;
            assert(last_index / step + (if last_index % step != 0 { 1int } else { 0int }) <= divisor) by (nonlinear_arith)
                requires step >= 1, divisor >= 1, step * divisor >= last_index, last_index >= 1;
        }
        assert(visible_prefix(points, last_index, interval, n) == visible_prefix(points, last_index, interval, n - 1).push(
            points[n - 1],
        ));
    }
}

} // verus!
