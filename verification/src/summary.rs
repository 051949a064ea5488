//! The texts the editor shows about how an archive's timestamp is chosen.
use vstd::prelude::*;
use crate::project::TimestampStrategy;
use crate::psu::{PSU, PSUEntry, PSUEntryKind, PsuTimestamp};
use crate::text::{decimal, decimal_string, string_push, string_push_str, trim_spec, trim_str};

verus! {

/// `n` in decimal, padded with leading zeros to at least `width` digits.
pub open spec fn padded(n: nat, width: nat) -> Seq<char> {
    let d = decimal(n);
    if d.len() < width {
        Seq::new((width - d.len()) as nat, |i: int| '0') + d
    } else {
        d
    }
}

/// A year as a calendar shows it: four digits for years 0 to 9999, a minus
/// sign and four digits before that, a plus sign and the digits after.
pub open spec fn year_text(year: int) -> Seq<char> {
    if year < 0 {
        seq!['-'] + padded((-year) as nat, 4)
    } else if year <= 9999 {
        padded(year as nat, 4)
    } else {
        seq!['+'] + decimal(year as nat)
    }
}

/// A timestamp as `YYYY-MM-DD HH:MM:SS`, the month counted from 1.
pub open spec fn timestamp_text(t: PsuTimestamp) -> Seq<char> {
    year_text(t.year as int) + seq!['-'] + padded((t.month0 + 1) as nat, 2) + seq!['-'] + padded(
        t.day as nat,
        2,
    ) + seq![' '] + padded(t.hour as nat, 2) + seq![':'] + padded(t.minute as nat, 2) + seq![':']
        + padded(t.second as nat, 2)
}

fn push_padded(s: &mut String, n: u64, width: usize)
    ensures
        final(s)@ == old(s)@ + padded(n as nat, width as nat),
{
    let digits = decimal_string(n);
    let count = digits.as_str().unicode_len();
    let ghost start = s@;
    if count < width {
        let mut i: usize = 0;
        while i < width - count
            invariant
                i <= width - count,
                s@ == start + Seq::new(i as nat, |k: int| '0'),
            decreases width - count - i,
        {
            string_push(s, '0');
            assert(Seq::new((i + 1) as nat, |k: int| '0') =~= Seq::new(i as nat, |k: int| '0').push(
                '0',
            ));
            i = i + 1;
        }
    }
    string_push_str(s, digits.as_str());
    proof {
        if count < width {
            assert(s@ =~= start + padded(n as nat, width as nat));
        } else {
            assert(s@ =~= start + padded(n as nat, width as nat));
        }
    }
}

/// A timestamp as `YYYY-MM-DD HH:MM:SS`.
pub fn format_timestamp(t: PsuTimestamp) -> (r: String)
    ensures
        r@ == timestamp_text(t),
{
    let mut s = String::new();
    if t.year < 0 {
        string_push(&mut s, '-');
        let magnitude: u64 = (0i64 - t.year as i64) as u64;
        push_padded(&mut s, magnitude, 4);
        assert(s@ =~= year_text(t.year as int));
    } else if t.year <= 9999 {
        push_padded(&mut s, t.year as u64, 4);
        assert(s@ =~= year_text(t.year as int));
    } else {
        string_push(&mut s, '+');
        let digits = decimal_string(t.year as u64);
        string_push_str(&mut s, digits.as_str());
        assert(s@ =~= year_text(t.year as int));
    }
    let ghost y = s@;
    string_push(&mut s, '-');
    push_padded(&mut s, t.month0 as u64 + 1, 2);
    string_push(&mut s, '-');
    push_padded(&mut s, t.day as u64, 2);
    string_push(&mut s, ' ');
    push_padded(&mut s, t.hour as u64, 2);
    string_push(&mut s, ':');
    push_padded(&mut s, t.minute as u64, 2);
    string_push(&mut s, ':');
    push_padded(&mut s, t.second as u64, 2);
    assert(s@ =~= timestamp_text(t));
    s
}

/// Why the current strategy gives the timestamp it does.
pub open spec fn strategy_reason(
    strategy: TimestampStrategy,
    source: Option<PsuTimestamp>,
    planned: Option<PsuTimestamp>,
    manual: Option<PsuTimestamp>,
    folder_name: Seq<char>,
) -> Seq<char> {
    match strategy {
        TimestampStrategy::NoTimestamp => "timestamps are intentionally omitted from the archive"@,
        TimestampStrategy::InheritSource => match source {
            Some(ts) => "the loaded source provided "@ + timestamp_text(ts) + " to preserve"@,
            None => "no source timestamp was found to inherit"@,
        },
        TimestampStrategy::SasRules => match planned {
            Some(ts) => "SAS rules computed "@ + timestamp_text(ts) + " for "@ + folder_name,
            None => "automatic SAS rules could not determine a timestamp"@,
        },
        TimestampStrategy::Manual => match manual {
            Some(ts) => "you entered "@ + timestamp_text(ts),
            None => "a manual timestamp is required until other data is provided"@,
        },
    }
}

/// Why the current strategy gives the timestamp it does; `planned` is the
/// timestamp the SAS rules give `folder_name`.
pub fn current_strategy_reason(
    strategy: TimestampStrategy,
    source_timestamp: Option<PsuTimestamp>,
    planned_timestamp: Option<PsuTimestamp>,
    manual_timestamp: Option<PsuTimestamp>,
    folder_name: &str,
) -> (r: String)
    ensures
        r@ == strategy_reason(
            strategy,
            source_timestamp,
            planned_timestamp,
            manual_timestamp,
            folder_name@,
        ),
{
    match strategy {
        TimestampStrategy::NoTimestamp => "timestamps are intentionally omitted from the archive"
            .to_owned(),
        TimestampStrategy::InheritSource => match source_timestamp {
            Some(ts) => {
                let mut s = "the loaded source provided ".to_owned();
                string_push_str(&mut s, format_timestamp(ts).as_str());
                string_push_str(&mut s, " to preserve");
                s
            },
            None => "no source timestamp was found to inherit".to_owned(),
        },
        TimestampStrategy::SasRules => match planned_timestamp {
            Some(ts) => {
                let mut s = "SAS rules computed ".to_owned();
                string_push_str(&mut s, format_timestamp(ts).as_str());
                string_push_str(&mut s, " for ");
                string_push_str(&mut s, folder_name);
                s
            },
            None => "automatic SAS rules could not determine a timestamp".to_owned(),
        },
        TimestampStrategy::Manual => match manual_timestamp {
            Some(ts) => {
                let mut s = "you entered ".to_owned();
                string_push_str(&mut s, format_timestamp(ts).as_str());
                s
            },
            None => "a manual timestamp is required until other data is provided".to_owned(),
        },
    }
}

/// One text when a timestamp is at hand, the other when it is not.
pub fn availability_text(
    timestamp: Option<PsuTimestamp>,
    available_text: &str,
    unavailable_text: &str,
) -> (r: String)
    ensures
        r@ == if timestamp is Some {
            available_text@
        } else {
            unavailable_text@
        },
{
    if timestamp.is_some() {
        available_text.to_owned()
    } else {
        unavailable_text.to_owned()
    }
}

/// The save's name as the summary shows it: `not set` for a blank name.
pub fn project_name_text(folder_name: &str) -> (r: String)
    ensures
        r@ == if trim_spec(folder_name@).len() == 0 {
            "not set"@
        } else {
            folder_name@
        },
{
    let trimmed = trim_str(folder_name);
    if trimmed.as_str().unicode_len() == 0 {
        "not set".to_owned()
    } else {
        folder_name.to_owned()
    }
}


/// `n` spaces.
pub open spec fn spaces(n: nat) -> Seq<char> {
    Seq::new(n, |i: int| ' ')
}

/// `s` followed by spaces up to `width` characters.
pub open spec fn pad_right(s: Seq<char>, width: nat) -> Seq<char> {
    if s.len() < width {
        s + spaces((width - s.len()) as nat)
    } else {
        s
    }
}

/// `s` preceded by spaces up to `width` characters.
pub open spec fn pad_left(s: Seq<char>, width: nat) -> Seq<char> {
    if s.len() < width {
        spaces((width - s.len()) as nat) + s
    } else {
        s
    }
}

fn push_spaces(s: &mut String, n: usize)
    ensures
        final(s)@ == old(s)@ + spaces(n as nat),
{
    let ghost start = s@;
    let mut i: usize = 0;
    while i < n
        invariant
            i <= n,
            s@ == start + spaces(i as nat),
        decreases n - i,
    {
        string_push(s, ' ');
        assert(spaces((i + 1) as nat) =~= spaces(i as nat).push(' '));
        i = i + 1;
    }
}

fn push_padded_right(s: &mut String, t: &str, width: usize)
    ensures
        final(s)@ == old(s)@ + pad_right(t@, width as nat),
{
    let ghost start = s@;
    let count = t.unicode_len();
    string_push_str(s, t);
    if count < width {
        push_spaces(s, width - count);
    }
    assert(s@ =~= start + pad_right(t@, width as nat));
}

fn push_padded_left(s: &mut String, t: &str, width: usize)
    ensures
        final(s)@ == old(s)@ + pad_left(t@, width as nat),
{
    let ghost start = s@;
    let count = t.unicode_len();
    if count < width {
        push_spaces(s, width - count);
    }
    string_push_str(s, t);
    assert(s@ =~= start + pad_left(t@, width as nat));
}

/// The name a listing gives an entry kind.
pub open spec fn kind_text(k: PSUEntryKind) -> Seq<char> {
    match k {
        PSUEntryKind::Directory => "directory"@,
        PSUEntryKind::File => "file"@,
    }
}

/// The heading of an archive listing and the rule under it.
pub open spec fn listing_header() -> Seq<char> {
    pad_right("Type"@, 12) + "| "@ + pad_right("Name"@, 16) + "| "@ + pad_right("Size"@, 9)
        + "| "@ + pad_right("Created"@, 25) + "| "@ + pad_right("Modified"@, 25) + "\n"@
        + Seq::new(99, |i: int| '-')
}

/// The line of an archive listing for one entry: kind, name, size (to the
/// right), creation and modification times.
pub open spec fn listing_line(e: PSUEntry) -> Seq<char> {
    pad_right(kind_text(e.kind), 12) + "| "@ + pad_right(e.name@, 16) + "| "@ + pad_left(
        decimal(e.size as nat),
        9,
    ) + "| "@ + pad_right(timestamp_text(e.created), 25) + "| "@ + pad_right(
        timestamp_text(e.modified),
        25,
    )
}

/// A listing with the given lines after the heading, one per line.
pub open spec fn listing(lines: Seq<Seq<char>>) -> Seq<char>
    decreases lines.len(),
{
    if lines.len() == 0 {
        listing_header()
    } else {
        listing(lines.drop_last()) + "\n"@ + lines.last()
    }
}

fn push_entry_line(s: &mut String, e: &PSUEntry)
    ensures
        final(s)@ == old(s)@ + listing_line(*e),
{
    let ghost start = s@;
    push_padded_right(s, e.kind.label(), 12);
    string_push_str(s, "| ");
    push_padded_right(s, e.name.as_str(), 16);
    string_push_str(s, "| ");
    let size = decimal_string(e.size as u64);
    push_padded_left(s, size.as_str(), 9);
    string_push_str(s, "| ");
    let created = format_timestamp(e.created);
    push_padded_right(s, created.as_str(), 25);
    string_push_str(s, "| ");
    let modified = format_timestamp(e.modified);
    push_padded_right(s, modified.as_str(), 25);
    assert(s@ =~= start + listing_line(*e));
}

impl PSU {
    /// The archive as a table: a heading, a rule, and a line per entry.
    pub fn listing_text(&self) -> (r: String)
        ensures
            r@ == listing(self.entries@.map_values(|e: PSUEntry| listing_line(e))),
    {
        let ghost lines = self.entries@.map_values(|e: PSUEntry| listing_line(e));
        let mut s = String::new();
        push_padded_right(&mut s, "Type", 12);
        string_push_str(&mut s, "| ");
        push_padded_right(&mut s, "Name", 16);
        string_push_str(&mut s, "| ");
        push_padded_right(&mut s, "Size", 9);
        string_push_str(&mut s, "| ");
        push_padded_right(&mut s, "Created", 25);
        string_push_str(&mut s, "| ");
        push_padded_right(&mut s, "Modified", 25);
        string_push_str(&mut s, "\n");
        let ghost before_rule = s@;
        let mut k: usize = 0;
        while k < 99
            invariant
                k <= 99,
                s@ == before_rule + Seq::new(k as nat, |i: int| '-'),
            decreases 99 - k,
        {
            string_push(&mut s, '-');
            assert(Seq::new((k + 1) as nat, |i: int| '-') =~= Seq::new(k as nat, |i: int| '-').push(
                '-',
            ));
            k = k + 1;
        }
        assert(s@ =~= listing_header());
        let mut i: usize = 0;
        while i < self.entries.len()
            invariant
                i <= self.entries@.len(),
                lines == self.entries@.map_values(|e: PSUEntry| listing_line(e)),
                s@ == listing(lines.take(i as int)),
            decreases self.entries.len() - i,
        {
            assert(lines.take(i + 1).drop_last() =~= lines.take(i as int));
            string_push_str(&mut s, "\n");
            push_entry_line(&mut s, &self.entries[i]);
            i = i + 1;
        }
        assert(lines.take(i as int) =~= lines);
        s
    }
}

} // verus!
