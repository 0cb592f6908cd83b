//! The layout of the article table: the configured columns, their widths, and the room that is
//! left for an article's summary.

use vstd::prelude::*;

use crate::article_cells::{decimal, plain_style, push_decimal};
use crate::config::{ArticleScope, ScopeIcons};
use crate::dimension::LayoutConstraint;
use crate::filter_state::{spec_uses_default_sort_order, FilterState};
use crate::style::{SpanView, StyledSpan, TextStyle};
use crate::utils::option_chars;
use crate::unicode::{chars_of, is_whitespace, is_ws, push_char, push_str};

verus! {

/// The pieces of `s` between the occurrences of `sep`, as `str::split` yields them: an empty
/// string gives one empty piece, and a trailing separator an empty last piece.
pub open spec fn split_on(s: Seq<char>, sep: char) -> Seq<Seq<char>>
    decreases s.len(),
{
    if s.len() == 0 {
        seq![Seq::<char>::empty()]
    } else {
        let prev = split_on(s.drop_last(), sep);
        if s.last() == sep {
            prev.push(Seq::<char>::empty())
        } else {
            prev.update(prev.len() - 1, prev.last().push(s.last()))
        }
    }
}

/// `split_on` never yields an empty list of pieces.
pub proof fn lemma_split_on_nonempty(s: Seq<char>, sep: char)
    ensures
        split_on(s, sep).len() >= 1,
    decreases s.len(),
{
    if s.len() > 0 {
        lemma_split_on_nonempty(s.drop_last(), sep);
    }
}

/// `s` without its leading white space.
pub open spec fn trim_start(s: Seq<char>) -> Seq<char>
    decreases s.len(),
{
    if s.len() > 0 && is_ws(s[0]) {
        trim_start(s.drop_first())
    } else {
        s
    }
}

/// `s` without its trailing white space.
pub open spec fn trim_end(s: Seq<char>) -> Seq<char>
    decreases s.len(),
{
    if s.len() > 0 && is_ws(s.last()) {
        trim_end(s.drop_last())
    } else {
        s
    }
}

/// `s` without white space at either end, as `str::trim` gives it.
pub open spec fn trim(s: Seq<char>) -> Seq<char> {
    trim_end(trim_start(s))
}

/// The index of the first character of `s` at or after `from` that is not white space, or its
/// length.
spec fn first_non_ws_from(s: Seq<char>, from: int) -> int
    decreases s.len() - from,
{
    if from >= s.len() || !is_ws(s[from]) {
        from
    } else {
        first_non_ws_from(s, from + 1)
    }
}

proof fn lemma_trim_start_from(s: Seq<char>, from: int)
    requires
        0 <= from <= s.len(),
    ensures
        from <= first_non_ws_from(s, from) <= s.len(),
        trim_start(s.subrange(from, s.len() as int)) == s.subrange(first_non_ws_from(s, from), s.len() as int),
    decreases s.len() - from,
{
    if from < s.len() && is_ws(s[from]) {
        assert(s.subrange(from, s.len() as int).drop_first() == s.subrange(from + 1, s.len() as int));
        lemma_trim_start_from(s, from + 1);
    }
}

/// The characters of `s` without white space at either end.
pub fn trim_chars(s: &[char]) -> (r: Vec<char>)
    ensures
        r@ == trim(s@),
{
    let mut start: usize = 0;
    while start < s.len() && is_whitespace(s[start])
        invariant
            start <= s.len(),
            first_non_ws_from(s@, 0) == first_non_ws_from(s@, start as int),
        decreases s.len() - start,
    {
        start = start + 1;
    }
    proof {
        lemma_trim_start_from(s@, 0);
        assert(s@.subrange(0, s@.len() as int) == s@);
    }
    let ghost head = s@.subrange(start as int, s@.len() as int);
    assert(trim_start(s@) == head);
    let mut end: usize = s.len();
    assert(head.subrange(0, head.len() as int) == head);
    while end > start && is_whitespace(s[end - 1])
        invariant
            start <= end <= s.len(),
            head == s@.subrange(start as int, s@.len() as int),
            trim_end(head) == trim_end(head.subrange(0, end - start)),
        decreases end,
    {
        let ghost part = head.subrange(0, end - start);
        assert(part.last() == s@[end - 1]);
        assert(part.drop_last() == head.subrange(0, end - start - 1));
        end = end - 1;
    }
    proof {
        let part = head.subrange(0, end - start);
        if part.len() > 0 {
            assert(part.last() == s@[end - 1]);
        }
    }
    assert(trim_end(head.subrange(0, end - start)) == head.subrange(0, end - start));
    let mut r: Vec<char> = Vec::new();
    let mut i: usize = start;
    while i < end
        invariant
            start <= i <= end <= s.len(),
            r@ == s@.subrange(start as int, i as int),
        decreases end - i,
    {
        r.push(s[i]);
        assert(s@.subrange(start as int, i + 1) == s@.subrange(start as int, i as int).push(s@[i as int]));
        i = i + 1;
    }
    assert(head.subrange(0, end - start) == s@.subrange(start as int, end as int));
    r
}

/// The characters of each of `v`.
pub open spec fn char_rows(v: Seq<Vec<char>>) -> Seq<Seq<char>> {
    v.map_values(|x: Vec<char>| x@)
}

/// The pieces of `s` between the occurrences of `sep`.
pub fn split_chars(s: &[char], sep: char) -> (r: Vec<Vec<char>>)
    ensures
        char_rows(r@) == split_on(s@, sep),
{
    let mut done: Vec<Vec<char>> = Vec::new();
    let mut current: Vec<char> = Vec::new();
    let mut i: usize = 0;
    while i < s.len()
        invariant
            i <= s.len(),
            char_rows(done@).push(current@) == split_on(s@.take(i as int), sep),
        decreases s.len() - i,
    {
        let ghost prev = split_on(s@.take(i as int), sep);
        let ghost done_before = char_rows(done@);
        assert(s@.take(i + 1).drop_last() == s@.take(i as int));
        assert(s@.take(i + 1).last() == s@[i as int]);
        let c = s[i];
        if c == sep {
            let mut fresh: Vec<char> = Vec::new();
            std::mem::swap(&mut fresh, &mut current);
            done.push(fresh);
            assert(char_rows(done@) =~= done_before.push(fresh@));
            assert(char_rows(done@).push(current@) =~= prev.push(Seq::<char>::empty()));
        } else {
            let ghost cur_before = current@;
            current.push(c);
            assert(prev == done_before.push(cur_before));
            assert(char_rows(done@).push(current@) =~= prev.update(prev.len() - 1, prev.last().push(c)));
        }
        i = i + 1;
    }
    assert(s@.take(s@.len() as int) == s@);
    let ghost done_before = char_rows(done@);
    done.push(current);
    assert(char_rows(done@) =~= done_before.push(current@));
    done
}

/// The kind of a column of the article table, named by its placeholder.
#[derive(Clone, Copy, Debug, PartialEq, Eq, Structural)]
pub enum ColumnKind {
    Title,
    Summary,
    TagIcons,
    Author,
    Feed,
    Date,
    Age,
    Read,
    Marked,
    Url,
    Flagged,
    Unknown,
}

/// The kind of the column that the placeholder `p` names.
pub open spec fn spec_column_kind(p: Seq<char>) -> ColumnKind {
    if p == "{title}"@ {
        ColumnKind::Title
    } else if p == "{summary}"@ {
        ColumnKind::Summary
    } else if p == "{tag_icons}"@ {
        ColumnKind::TagIcons
    } else if p == "{author}"@ {
        ColumnKind::Author
    } else if p == "{feed}"@ {
        ColumnKind::Feed
    } else if p == "{date}"@ {
        ColumnKind::Date
    } else if p == "{age}"@ {
        ColumnKind::Age
    } else if p == "{read}"@ {
        ColumnKind::Read
    } else if p == "{marked}"@ {
        ColumnKind::Marked
    } else if p == "{url}"@ {
        ColumnKind::Url
    } else if p == "{flagged}"@ {
        ColumnKind::Flagged
    } else {
        ColumnKind::Unknown
    }
}

/// Whether the characters `a` are those of the string `b`.
pub fn same_chars(a: &[char], b: &str) -> (r: bool)
    ensures
        r == (a@ == b@),
{
    let bc = chars_of(b);
    if a.len() != bc.len() {
        return false;
    }
    let mut i: usize = 0;
    while i < a.len()
        invariant
            a@.len() == bc@.len(),
            bc@ == b@,
            i <= a.len(),
            forall|j: int| 0 <= j < i ==> a@[j] == bc@[j],
        decreases a.len() - i,
    {
        if a[i] != bc[i] {
            return false;
        }
        i = i + 1;
    }
    assert(a@ =~= bc@);
    true
}

/// The kind of the column that the placeholder `p` names.
pub fn column_kind(p: &[char]) -> (k: ColumnKind)
    ensures
        k == spec_column_kind(p@),
{
    if same_chars(p, "{title}") {
        ColumnKind::Title
    } else if same_chars(p, "{summary}") {
        ColumnKind::Summary
    } else if same_chars(p, "{tag_icons}") {
        ColumnKind::TagIcons
    } else if same_chars(p, "{author}") {
        ColumnKind::Author
    } else if same_chars(p, "{feed}") {
        ColumnKind::Feed
    } else if same_chars(p, "{date}") {
        ColumnKind::Date
    } else if same_chars(p, "{age}") {
        ColumnKind::Age
    } else if same_chars(p, "{read}") {
        ColumnKind::Read
    } else if same_chars(p, "{marked}") {
        ColumnKind::Marked
    } else if same_chars(p, "{url}") {
        ColumnKind::Url
    } else if same_chars(p, "{flagged}") {
        ColumnKind::Flagged
    } else {
        ColumnKind::Unknown
    }
}

/// `s` with `a` appended contains `x` exactly when `s` does or `a` is `x`.
pub proof fn lemma_push_contains<A>(s: Seq<A>, a: A, x: A)
    ensures
        s.push(a).contains(x) == (s.contains(x) || a == x),
{
    if s.contains(x) {
        let i = choose|i: int| 0 <= i < s.len() && s[i] == x;
        assert(s.push(a)[i] == x);
    }
    if a == x {
        assert(s.push(a)[s.len() as int] == x);
    }
    if s.push(a).contains(x) {
        let i = choose|i: int| 0 <= i < s.push(a).len() && s.push(a)[i] == x;
        if i < s.len() {
            assert(s[i] == x);
        }
    }
}

/// The trimmed placeholders of the configured article table `table`, separated by commas.
pub open spec fn configured_columns(table: Seq<char>) -> Seq<Seq<char>> {
    split_on(table, ',').map_values(|p: Seq<char>| trim(p))
}

/// The placeholder of the summary.
pub open spec fn summary_placeholder() -> Seq<char> {
    "{summary}"@
}

/// The placeholder of the title.
pub open spec fn title_placeholder() -> Seq<char> {
    "{title}"@
}

/// The columns that are shown: every configured one, except the summary when it is not a
/// column of its own.
pub open spec fn shown_columns(cols: Seq<Seq<char>>, keep_summary: bool) -> Seq<Seq<char>>
    decreases cols.len(),
{
    if cols.len() == 0 {
        cols
    } else {
        let prev = shown_columns(cols.drop_last(), keep_summary);
        if cols.last() != summary_placeholder() || keep_summary {
            prev.push(cols.last())
        } else {
            prev
        }
    }
}

/// The columns of the article table and where an article's summary goes.
pub struct TableLayout {
    /// The placeholders of the columns that are shown, in order.
    pub columns: Vec<Vec<char>>,
    /// The kind of each shown column.
    pub kinds: Vec<ColumnKind>,
    /// Whether the summary is shown at all.
    pub show_summary: bool,
    /// Whether the summary is shown underneath the title rather than in a column of its own.
    pub summary_in_title: bool,
}

impl TableLayout {
    /// Whether the summary has a column of its own: it is configured and there is no title to
    /// attach it to.
    pub open spec fn summary_is_column(self) -> bool {
        self.show_summary && !self.summary_in_title
    }

    /// Whether this layout is the one configured by `table`.
    pub open spec fn describes(self, table: Seq<char>) -> bool {
        let cols = configured_columns(table);
        let show = cols.contains(summary_placeholder());
        let in_title = show && cols.contains(title_placeholder());
        &&& self.show_summary == show
        &&& self.summary_in_title == in_title
        &&& char_rows(self.columns@) == shown_columns(cols, show && !in_title)
        &&& self.kinds@.len() == self.columns@.len()
        &&& forall|i: int| 0 <= i < self.kinds@.len() ==> self.kinds@[i] == spec_column_kind(
            #[trigger] self.columns@[i]@,
        )
    }
}

/// Lays out the article table configured as a comma-separated list of placeholders. The summary
/// is not a column of its own: it adds lines underneath the title, and only falls back to a
/// column when there is no title to attach it to.
pub fn parse_table_layout(article_table: &str) -> (layout: TableLayout)
    ensures
        layout.describes(article_table@),
{
    let chars = chars_of(article_table);
    let pieces = split_chars(&chars, ',');
    let ghost cols = configured_columns(article_table@);
    let mut trimmed: Vec<Vec<char>> = Vec::new();
    let mut trimmed_kinds: Vec<ColumnKind> = Vec::new();
    let mut show_summary = false;
    let mut has_title = false;
    proof {
        reveal_strlit("{summary}");
        reveal_strlit("{title}");
    }
    for k in 0..pieces.len()
        invariant
            char_rows(pieces@) == split_on(article_table@, ','),
            cols == char_rows(pieces@).map_values(|p: Seq<char>| trim(p)),
            char_rows(trimmed@) == cols.take(k as int),
            trimmed_kinds@.len() == k,
            forall|j: int| 0 <= j < k ==> trimmed_kinds@[j] == spec_column_kind(#[trigger] cols[j]),
            show_summary == cols.take(k as int).contains(summary_placeholder()),
            has_title == cols.take(k as int).contains(title_placeholder()),
            summary_placeholder() == "{summary}"@,
            title_placeholder() == "{title}"@,
    {
        let t = trim_chars(pieces[k].as_slice());
        assert(t@ == cols[k as int]);
        proof {
            reveal_strlit("{summary}");
            reveal_strlit("{title}");
        }
        let kind = column_kind(t.as_slice());
        let ghost before = cols.take(k as int);
        assert(cols.take(k + 1) == before.push(cols[k as int]));
        if kind == ColumnKind::Summary {
            show_summary = true;
        }
        if kind == ColumnKind::Title {
            has_title = true;
        }
        proof {
            lemma_push_contains(before, cols[k as int], summary_placeholder());
            lemma_push_contains(before, cols[k as int], title_placeholder());
        }
        let ghost rows_before = char_rows(trimmed@);
        trimmed.push(t);
        trimmed_kinds.push(kind);
        assert(char_rows(trimmed@) =~= rows_before.push(cols[k as int]));
        assert(trimmed_kinds@[k as int] == spec_column_kind(cols[k as int]));
    }
    assert(cols.take(cols.len() as int) == cols);
    let summary_in_title = show_summary && has_title;
    let keep_summary = show_summary && !summary_in_title;
    let mut columns: Vec<Vec<char>> = Vec::new();
    let mut kinds: Vec<ColumnKind> = Vec::new();
    let mut k: usize = 0;
    let n = trimmed_kinds.len();
    for piece in it: trimmed.into_iter()
        invariant
            it.seq().len() == cols.len(),
            n == cols.len(),
            char_rows(it.seq()) == cols,
            trimmed_kinds@.len() == cols.len(),
            forall|j: int| 0 <= j < cols.len() ==> trimmed_kinds@[j] == spec_column_kind(#[trigger] cols[j]),
            k == it.index(),
            char_rows(columns@) == shown_columns(cols.take(k as int), keep_summary),
            kinds@.len() == columns@.len(),
            forall|i: int| 0 <= i < kinds@.len() ==> kinds@[i] == spec_column_kind(#[trigger] columns@[i]@),
            summary_placeholder() == "{summary}"@,
            title_placeholder() == "{title}"@,
    {
        assert(piece@ == cols[k as int]);
        proof {
            reveal_strlit("{summary}");
            reveal_strlit("{title}");
        }
        let kind = trimmed_kinds[k];
        assert(cols.take(k + 1).drop_last() == cols.take(k as int));
        assert(cols.take(k + 1).last() == cols[k as int]);
        assert((kind == ColumnKind::Summary) == (piece@ == summary_placeholder()));
        if kind != ColumnKind::Summary || keep_summary {
            let ghost rows_before = char_rows(columns@);
            columns.push(piece);
            kinds.push(kind);
            assert(char_rows(columns@) =~= rows_before.push(cols[k as int]));
        }
        k = k + 1;
    }
    TableLayout { columns, kinds, show_summary, summary_in_title }
}

/// Share of the leftover width that the title column gets relative to the other flexible
/// columns, when it also carries the summary lines.
pub const TITLE_FLEX_WEIGHT: u16 = 3;

/// Width of the table assumed before the first render has reported the real one.
pub const FALLBACK_TABLE_WIDTH: u16 = 80;

/// What the widths of the columns depend on besides their kinds.
#[derive(Clone, Copy, Debug)]
pub struct ColumnContext {
    /// Whether any article of the list is flagged.
    pub any_flagged: bool,
    /// The length in bytes of the configured date format.
    pub date_format_len: usize,
    /// The largest number of tags of any article, as a column width.
    pub max_tags: u16,
    /// Whether the summary is shown underneath the title.
    pub summary_in_title: bool,
}

/// The width of a column of kind `kind`, where it has a fixed one.
pub open spec fn spec_fixed_width(kind: ColumnKind, ctx: ColumnContext) -> Option<u16> {
    match kind {
        ColumnKind::Read | ColumnKind::Marked => Some(2u16),
        ColumnKind::Flagged => if ctx.any_flagged { Some(2u16) } else { Some(0u16) },
        ColumnKind::Age => Some(4u16),
        ColumnKind::Date => Some(ctx.date_format_len as u16),
        ColumnKind::TagIcons => Some(ctx.max_tags),
        _ => None,
    }
}

/// The relative share of the leftover width of a column without a fixed width.
pub open spec fn spec_flex_weight(kind: ColumnKind, ctx: ColumnContext) -> u16 {
    if ctx.summary_in_title && kind == ColumnKind::Title { TITLE_FLEX_WEIGHT } else { 1u16 }
}

/// The fixed width of a column of kind `kind`: two columns for the read, marked and (when any
/// article is flagged) flagged icons, four for the age, the date format's length for the date,
/// the largest tag count for the tag icons; the other columns share what is left.
pub fn fixed_width(kind: ColumnKind, ctx: ColumnContext) -> (w: Option<u16>)
    ensures
        w == spec_fixed_width(kind, ctx),
{
    match kind {
        ColumnKind::Read | ColumnKind::Marked => Some(2),
        ColumnKind::Flagged => if ctx.any_flagged { Some(2) } else { Some(0) },
        ColumnKind::Age => Some(4),
        ColumnKind::Date => Some(ctx.date_format_len as u16),
        ColumnKind::TagIcons => Some(ctx.max_tags),
        _ => None,
    }
}

/// The relative share of the leftover width of a flexible column: the title carries the
/// summary lines too and so gets a bigger share.
pub fn flex_weight(kind: ColumnKind, ctx: ColumnContext) -> (w: u16)
    ensures
        w == spec_flex_weight(kind, ctx),
{
    if ctx.summary_in_title && kind == ColumnKind::Title {
        TITLE_FLEX_WEIGHT
    } else {
        1
    }
}

/// The largest of `counts`, or 0 when there is none.
pub open spec fn seq_max(counts: Seq<usize>) -> usize
    decreases counts.len(),
{
    if counts.len() == 0 {
        0
    } else {
        let m = seq_max(counts.drop_last());
        if counts.last() > m { counts.last() } else { m }
    }
}

/// The width of the tag icon column: the largest number of tags of any article (as a column
/// count, cut to 16 bits).
pub fn max_tag_count(counts: &[usize]) -> (w: u16)
    ensures
        w == seq_max(counts@) as u16,
{
    let mut m: usize = 0;
    let mut i: usize = 0;
    while i < counts.len()
        invariant
            i <= counts.len(),
            m == seq_max(counts@.take(i as int)),
        decreases counts.len() - i,
    {
        assert(counts@.take(i + 1).drop_last() == counts@.take(i as int));
        if counts[i] > m {
            m = counts[i];
        }
        i = i + 1;
    }
    assert(counts@.take(counts.len() as int) == counts@);
    m as u16
}

/// The columns taken by the columns of fixed width.
pub open spec fn used_width(kinds: Seq<ColumnKind>, ctx: ColumnContext) -> nat
    decreases kinds.len(),
{
    if kinds.len() == 0 {
        0
    } else {
        used_width(kinds.drop_last(), ctx) + match spec_fixed_width(kinds.last(), ctx) {
            Some(w) => w as nat,
            None => 0,
        }
    }
}

/// The shares of the flexible columns, added up.
pub open spec fn total_weight(kinds: Seq<ColumnKind>, ctx: ColumnContext) -> nat
    decreases kinds.len(),
{
    if kinds.len() == 0 {
        0
    } else {
        total_weight(kinds.drop_last(), ctx) + match spec_fixed_width(kinds.last(), ctx) {
            Some(_) => 0,
            None => spec_flex_weight(kinds.last(), ctx) as nat,
        }
    }
}

/// The width of the column of kind `target` that the summary is drawn into, as the table
/// distributes it: the fixed columns take their width, the rest is shared in proportion to the
/// flexible columns' shares; one column is kept free so that nothing is clipped at the edge.
pub open spec fn spec_summary_width(
    kinds: Seq<ColumnKind>,
    ctx: ColumnContext,
    table_width: Option<u16>,
    target: ColumnKind,
) -> u16 {
    let width: nat = match table_width {
        Some(w) => w as nat,
        None => FALLBACK_TABLE_WIDTH as nat,
    };
    let used = used_width(kinds, ctx);
    let remaining: nat = if width >= used { (width - used) as nat } else { 0 };
    let total = total_weight(kinds, ctx);
    let share: nat = remaining * (spec_flex_weight(target, ctx) as nat) / (if total > 0 { total } else { 1 });
    let capped: nat = if share > u16::MAX { u16::MAX as nat } else { share };
    if capped >= 1 { (capped - 1) as u16 } else { 0 }
}

/// The width of the column that the summary is drawn into; `table_width` is the width of the
/// table at its last render, if there was one.
pub fn summary_width(
    kinds: &[ColumnKind],
    ctx: ColumnContext,
    table_width: Option<u16>,
    target: ColumnKind,
) -> (w: u16)
    requires
        used_width(kinds@, ctx) <= u32::MAX,
        total_weight(kinds@, ctx) <= u32::MAX,
    ensures
        w == spec_summary_width(kinds@, ctx, table_width, target),
{
    let mut used: u32 = 0;
    let mut total: u32 = 0;
    let mut i: usize = 0;
    while i < kinds.len()
        invariant
            i <= kinds.len(),
            used == used_width(kinds@.take(i as int), ctx),
            total == total_weight(kinds@.take(i as int), ctx),
            used_width(kinds@, ctx) <= u32::MAX,
            total_weight(kinds@, ctx) <= u32::MAX,
        decreases kinds.len() - i,
    {
        assert(kinds@.take(i + 1).drop_last() == kinds@.take(i as int));
        proof {
            lemma_width_sums_grow(kinds@, ctx, i as int + 1);
        }
        match fixed_width(kinds[i], ctx) {
            Some(w) => {
                used = used + w as u32;
            },
            None => {
                total = total + flex_weight(kinds[i], ctx) as u32;
            },
        }
        i = i + 1;
    }
    assert(kinds@.take(kinds.len() as int) == kinds@);
    let width: u32 = match table_width {
        Some(w) => w as u32,
        None => FALLBACK_TABLE_WIDTH as u32,
    };
    let remaining: u32 = if width >= used { width - used } else { 0 };
    let weight = flex_weight(target, ctx) as u32;
    let divisor: u32 = if total > 0 { total } else { 1 };
    assert(remaining * weight <= 65535 * 3) by (nonlinear_arith)
        requires
            remaining <= 65535,
            weight <= 3,
    ;
    let share: u32 = remaining * weight / divisor;
    let capped: u16 = if share > 65535 { 65535 } else { share as u16 };
    if capped >= 1 {
        capped - 1
    } else {
        0
    }
}

/// The sums of widths and shares over a prefix of the columns are at most those over all.
pub proof fn lemma_width_sums_grow(kinds: Seq<ColumnKind>, ctx: ColumnContext, n: int)
    requires
        0 <= n <= kinds.len(),
    ensures
        used_width(kinds.take(n), ctx) <= used_width(kinds, ctx),
        total_weight(kinds.take(n), ctx) <= total_weight(kinds, ctx),
    decreases kinds.len() - n,
{
    if n < kinds.len() {
        lemma_width_sums_grow(kinds, ctx, n + 1);
        assert(kinds.take(n + 1).drop_last() == kinds.take(n));
    } else {
        assert(kinds.take(n) == kinds);
    }
}

/// How a column is sized by the table.
pub open spec fn spec_column_constraint(kind: ColumnKind, ctx: ColumnContext) -> LayoutConstraint {
    match spec_fixed_width(kind, ctx) {
        Some(w) => LayoutConstraint::Length(w),
        None => if ctx.summary_in_title {
            LayoutConstraint::Fill(spec_flex_weight(kind, ctx))
        } else {
            LayoutConstraint::Min(1)
        },
    }
}

/// How each column is sized: by its fixed width, or else by a share of the leftover width
/// (proportional to its weight when the summary sits under the title, at least one column
/// otherwise).
pub fn column_constraints(kinds: &[ColumnKind], ctx: ColumnContext) -> (cs: Vec<LayoutConstraint>)
    ensures
        cs@.len() == kinds@.len(),
        forall|i: int| 0 <= i < kinds@.len() ==> cs@[i] == spec_column_constraint(#[trigger] kinds@[i], ctx),
{
    let mut cs: Vec<LayoutConstraint> = Vec::new();
    for i in 0..kinds.len()
        invariant
            cs@.len() == i,
            forall|j: int| 0 <= j < i ==> cs@[j] == spec_column_constraint(#[trigger] kinds@[j], ctx),
    {
        let c = match fixed_width(kinds[i], ctx) {
            Some(w) => LayoutConstraint::Length(w),
            None => if ctx.summary_in_title {
                LayoutConstraint::Fill(flex_weight(kinds[i], ctx))
            } else {
                LayoutConstraint::Min(1)
            },
        };
        cs.push(c);
    }
    cs
}

/// How many rows an article row takes when summaries are shown underneath titles.
pub const SUMMARY_ROW_HEIGHT: u16 = 3;

/// The height of every article row: room for the title and two summary lines when the summary
/// has room and some article has a title and a summary, a single line otherwise.
pub fn row_height(summary_width: u16, some_titled_summary: bool) -> (h: u16)
    ensures
        h == (if summary_width > 0 && some_titled_summary { SUMMARY_ROW_HEIGHT } else { 1u16 }),
{
    if summary_width > 0 && some_titled_summary {
        SUMMARY_ROW_HEIGHT
    } else {
        1
    }
}

/// The spans of the scope selector in the title of the article list: each scope's icon, the
/// current one in the header style and the others in the inactive style, separated by spaces.
pub open spec fn scope_spans(current: ArticleScope, icons: ScopeIcons, header: TextStyle, inactive: TextStyle) -> Seq<SpanView> {
    let space = SpanView { text: seq![' '], style: plain_style() };
    let icon = |s: ArticleScope, c: char| SpanView { text: seq![c], style: if s == current { header } else { inactive } };
    seq![
        space, icon(ArticleScope::All, icons.all),
        space, icon(ArticleScope::Unread, icons.unread),
        space, icon(ArticleScope::Marked, icons.marked),
        space,
    ]
}

/// The icon of an ad-hoc filter that is applied.
pub const ADHOC_FILTER_APPLIED_ICON: char = '\u{f0b0}';

/// The icon of an ad-hoc filter that is set but not applied.
pub const ADHOC_FILTER_IDLE_ICON: char = '\u{eaf1}';

/// The text that tells whether an ad-hoc filter is set and applied.
pub open spec fn filter_info(has_adhoc_filter: bool, applied: bool) -> Seq<char> {
    if !has_adhoc_filter {
        Seq::empty()
    } else if applied {
        seq![' ', ADHOC_FILTER_APPLIED_ICON, ' ']
    } else {
        seq![' ', ADHOC_FILTER_IDLE_ICON, ' ']
    }
}

/// The icons and labels the title of the article list is drawn with.
pub struct ListTitleParts {
    pub scope_icons: ScopeIcons,
    pub header: TextStyle,
    pub inactive: TextStyle,
    pub sort_normal_icon: char,
    pub sort_reversed_icon: char,
    /// The effective sort order, written out.
    pub sort_label: String,
    /// Whether the sort order is left out of the title while it is the default one.
    pub hide_default_sort_order: bool,
}

/// The spans of the title of the article list: the scope selector (unless the selected query
/// decides the scope), whether an ad-hoc filter is set and applied, and the sort order (unless
/// it is the default one and that is configured to be hidden).
pub open spec fn spec_list_title<S>(f: FilterState<S>, parts: ListTitleParts) -> Seq<SpanView> {
    let scope = if f.augmented_article_filter matches Some(a) && a.defines_scope {
        Seq::empty()
    } else {
        scope_spans(f.article_scope, parts.scope_icons, parts.header, parts.inactive)
    };
    let info = seq![SpanView { text: filter_info(f.article_adhoc_filter is Some, f.apply_article_adhoc_filter), style: parts.header }];
    let icon = if f.reverse_sort_order { parts.sort_reversed_icon } else { parts.sort_normal_icon };
    let sort = if !parts.hide_default_sort_order || !spec_uses_default_sort_order(f) {
        seq![SpanView { text: seq![' ', icon, ' '] + parts.sort_label@ + seq![' '], style: parts.header }]
    } else {
        Seq::empty()
    };
    scope + info + sort
}

/// A span of the single character `c`.
fn char_span(c: char, style: TextStyle) -> (s: StyledSpan)
    ensures
        s@ == (SpanView { text: seq![c], style }),
{
    let mut t = String::new();
    push_char(&mut t, c);
    StyledSpan::styled(t, style)
}

/// The title of the article list, as spans (the line itself is drawn in the header style).
pub fn list_title<S>(f: &FilterState<S>, parts: &ListTitleParts) -> (spans: Vec<StyledSpan>)
    ensures
        spans.deep_view() == spec_list_title(*f, *parts),
{
    let mut spans: Vec<StyledSpan> = Vec::new();
    match f.get_effective_scope() {
        Some(current) => {
            let scopes = ArticleScope::all_scopes();
            for k in 0..scopes.len()
                invariant
                    scopes@ == seq![ArticleScope::All, ArticleScope::Unread, ArticleScope::Marked],
                    spans@.len() == 2 * k,
                    forall|j: int| 0 <= j < 2 * k ==> (#[trigger] spans@[j])@ == scope_spans(current, parts.scope_icons, parts.header, parts.inactive)[j],
            {
                let scope = scopes[k];
                let style = if scope == current { parts.header } else { parts.inactive };
                spans.push(char_span(' ', TextStyle::new()));
                spans.push(char_span(scope.to_icon(&parts.scope_icons), style));
            }
            spans.push(char_span(' ', TextStyle::new()));
            assert(spans.deep_view() =~= scope_spans(current, parts.scope_icons, parts.header, parts.inactive));
        },
        None => {
            assert(spans.deep_view() =~= Seq::<SpanView>::empty());
        },
    }
    let ghost before = spans.deep_view();
    let mut info = String::new();
    match &f.article_adhoc_filter {
        Some(_) => {
            push_char(&mut info, ' ');
            push_char(&mut info, if f.apply_article_adhoc_filter { ADHOC_FILTER_APPLIED_ICON } else { ADHOC_FILTER_IDLE_ICON });
            push_char(&mut info, ' ');
        },
        None => {},
    }
    assert(info@ =~= filter_info(f.article_adhoc_filter is Some, f.apply_article_adhoc_filter));
    spans.push(StyledSpan::styled(info, parts.header));
    let ghost with_info = spans.deep_view();
    assert(with_info =~= before + seq![SpanView { text: filter_info(f.article_adhoc_filter is Some, f.apply_article_adhoc_filter), style: parts.header }]);
    if !parts.hide_default_sort_order || !f.uses_default_sort_order() {
        let icon = if f.reverse_sort_order { parts.sort_reversed_icon } else { parts.sort_normal_icon };
        let mut text = String::new();
        push_char(&mut text, ' ');
        push_char(&mut text, icon);
        push_char(&mut text, ' ');
        push_str(&mut text, parts.sort_label.as_str());
        push_char(&mut text, ' ');
        assert(text@ =~= seq![' ', icon, ' '] + parts.sort_label@ + seq![' ']);
        spans.push(StyledSpan::styled(text, parts.header));
        assert(spans.deep_view() =~= with_info + seq![SpanView { text: seq![' ', icon, ' '] + parts.sort_label@ + seq![' '], style: parts.header }]);
    } else {
        assert(with_info + Seq::<SpanView>::empty() =~= with_info);
    }
    spans
}

/// The position shown in the corner of the article list: ` selected/count ` with the selected
/// row counted from one, when there are articles and the position is to be shown.
pub open spec fn spec_position_label(count: usize, show: bool, selected: Option<usize>) -> Option<Seq<char>> {
    if count > 0 && show {
        let sel: nat = match selected {
            Some(s) => if s < usize::MAX { (s + 1) as nat } else { s as nat },
            None => 1,
        };
        Some(seq![' '] + decimal(sel) + seq!['/'] + decimal(count as nat) + seq![' '])
    } else {
        None
    }
}

/// The position shown in the corner of the article list, if any.
pub fn position_label(count: usize, show: bool, selected: Option<usize>) -> (r: Option<String>)
    ensures
        option_chars(r) == spec_position_label(count, show, selected),
{
    if count > 0 && show {
        let sel: usize = match selected {
            Some(s) => s.saturating_add(1),
            None => 1,
        };
        let mut t = String::new();
        push_char(&mut t, ' ');
        push_decimal(&mut t, sel as u64);
        push_char(&mut t, '/');
        push_decimal(&mut t, count as u64);
        push_char(&mut t, ' ');
        Some(t)
    } else {
        None
    }
}

/// A flexible column's share is part of the shares of all columns it is among.
proof fn lemma_weight_le_total(kinds: Seq<ColumnKind>, ctx: ColumnContext, target: ColumnKind)
    requires
        kinds.contains(target),
        spec_fixed_width(target, ctx) is None,
    ensures
        spec_flex_weight(target, ctx) <= total_weight(kinds, ctx),
    decreases kinds.len(),
{
    if kinds.last() != target {
        let i = choose|i: int| 0 <= i < kinds.len() && kinds[i] == target;
        assert(kinds.drop_last()[i] == target);
        lemma_weight_le_total(kinds.drop_last(), ctx, target);
    }
}

/// The summary fits in the table: drawn in one of the table's flexible columns, it is narrower
/// than what the fixed columns leave of the table (or it gets no room at all).
pub proof fn law_summary_fits_the_table(kinds: Seq<ColumnKind>, ctx: ColumnContext, table_width: Option<u16>, target: ColumnKind)
    requires
        kinds.contains(target),
        spec_fixed_width(target, ctx) is None,
    ensures
        ({
            let width: nat = match table_width { Some(w) => w as nat, None => FALLBACK_TABLE_WIDTH as nat };
            let w = spec_summary_width(kinds, ctx, table_width, target);
            w == 0 || w + used_width(kinds, ctx) < width
        }),
{
    lemma_weight_le_total(kinds, ctx, target);
    let width: nat = match table_width { Some(w) => w as nat, None => FALLBACK_TABLE_WIDTH as nat };
    let used = used_width(kinds, ctx);
    let remaining: nat = if width >= used { (width - used) as nat } else { 0 };
    let total = total_weight(kinds, ctx);
    let wt = spec_flex_weight(target, ctx) as nat;
    let divisor: nat = if total > 0 { total } else { 1 };
    assert(remaining * wt / divisor <= remaining) by (nonlinear_arith)
        requires
            wt <= divisor,
            divisor > 0,
    ;
}

} // verus!
