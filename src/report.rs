use vstd::prelude::*;

verus! {

/// Width of the progress bar, in characters between the brackets.
pub const BAR_WIDTH: usize = 50;

/// Percentage of the rows done once row `row` of `height` rows is finished,
/// rounded down.
pub open spec fn percent(row: int, height: int) -> int {
    (row * 100) / height
}

/// `⌊row * 100 / height⌋`, the progress reported after row `row`.
pub fn progress_percent(row: usize, height: usize) -> (p: u32)
    requires
        height > 0,
        row <= height,
    ensures
        p == percent(row as int, height as int),
        p <= 100,
{
    proof {
        lemma_percent_monotone(row as int, height as int, height as int);
    }
    let p: u128 = ((row as u128) * 100) / (height as u128);
    p as u32
}

/// Progress reports are non-decreasing in the row and never exceed 100.
pub proof fn lemma_percent_monotone(r1: int, r2: int, height: int)
    requires
        0 <= r1 <= r2 <= height,
        height > 0,
    ensures
        0 <= percent(r1, height) <= percent(r2, height) <= 100,
{
    assert(percent(height, height) == 100) by (nonlinear_arith)
        requires
            height > 0,
    ;
    assert(0 <= (r1 * 100) / height <= (r2 * 100) / height <= (height * 100) / height) by (nonlinear_arith)
        requires
            0 <= r1 <= r2 <= height,
            height > 0,
    ;
}

/// The reports of a sequential rendering: one after each row `y`,
/// `⌊y * 100 / height⌋`, then a final 100.
pub fn progress_marks(height: usize) -> (marks: Vec<u32>)
    requires
        0 < height < usize::MAX,
    ensures
        marks.len() == height + 1,
        forall|y: int| 0 <= y < height ==> #[trigger] marks[y] == percent(y, height as int),
        marks[height as int] == 100,
        forall|a: int, b: int| 0 <= a <= b <= height ==> #[trigger] marks[a] <= #[trigger] marks[b],
{
    let mut marks: Vec<u32> = Vec::new();
    let mut y: usize = 0;
    while y < height
        invariant
            y <= height,
            height > 0,
            marks.len() == y,
            forall|k: int| 0 <= k < y ==> #[trigger] marks[k] == percent(k, height as int),
        decreases height - y,
    {
        marks.push(progress_percent(y, height));
        y = y + 1;
    }
    marks.push(100);
    proof {
        assert forall|a: int, b: int| 0 <= a <= b <= height implies #[trigger] marks[a] <= #[trigger] marks[b] by {
            lemma_percent_monotone(a, b, height as int);
            lemma_percent_monotone(a, height as int, height as int);
        }
    }
    marks
}

/// The progress bar for a percentage: `[`, then `BAR_WIDTH` cells, the
/// `i`-th filled with `=` when `i <= progress / 2`, then `]`.
pub open spec fn bar_text(progress: int) -> Seq<char> {
    seq!['['] + Seq::new(BAR_WIDTH as nat, |i: int| if i <= progress / 2 { '=' } else { ' ' }) + seq![']']
}

/// Relies on String::push: appends one character at the end.
#[verifier::external_body]
fn push_char(s: &mut String, c: char)
    ensures
        final(s)@ == old(s)@.push(c),
{
    s.push(c)
}

/// The progress bar shown for a percentage.
pub fn progress_bar(progress: u32) -> (bar: String)
    ensures
        bar@ == bar_text(progress as int),
{
    let mut bar = String::new();
    push_char(&mut bar, '[');
    let half = progress / 2;
    let mut i: usize = 0;
    while i < BAR_WIDTH
        invariant
            i <= BAR_WIDTH,
            half == progress / 2,
            bar@ == seq!['['] + Seq::new(i as nat, |k: int| if k <= progress / 2 { '=' } else { ' ' }),
        decreases BAR_WIDTH - i,
    {
        let c = if i as u32 <= half { '=' } else { ' ' };
        push_char(&mut bar, c);
        i = i + 1;
        assert(bar@ =~= seq!['['] + Seq::new(i as nat, |k: int| if k <= progress / 2 { '=' } else { ' ' }));
    }
    push_char(&mut bar, ']');
    assert(bar@ =~= bar_text(progress as int));
    bar
}

/// Splits an elapsed number of seconds for display: whole hours, minutes
/// past the hour, and seconds past the minute.
pub fn elapsed_parts(seconds: u64) -> (parts: (u64, u64, u64))
    ensures
        parts == (seconds / 3600, (seconds / 60) % 60, seconds % 60),
        parts.0 * 3600 + parts.1 * 60 + parts.2 == seconds,
{
    (seconds / 60 / 60, (seconds / 60) % 60, seconds % 60)
}

} // verus!
