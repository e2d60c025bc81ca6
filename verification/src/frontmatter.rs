//! Frontmatter: the metadata block at the top of a source document.
//!
//! Extraction is an explicit pre-pass over the raw text with a documented
//! grammar, decoupled from HTML emission: a document whose first line is a
//! rule marker `---` opens a block that runs until the next `---` line or a
//! heading line (one starting with `#`); the block is removed from the text
//! handed to the markdown renderer. The block itself is `key: value` lines;
//! `title` is required, `date` is `MM/DD/YYYY`, `time_to_read` is free
//! text, unknown keys are ignored, and a malformed block (no colon on a
//! nonblank line, or an invalid date) fails the parse as a whole — a soft
//! failure, the page still renders with the default title.

use vstd::prelude::*;
use vstd::string::StringExecFns;

use crate::text::chars_eq;
use crate::text::chars_to_string;
use crate::text::copy_chars;
use crate::text::digits_val;
use crate::text::find_at;
use crate::text::find_from;
use crate::text::join_spec;
use crate::text::join_with;
use crate::text::lemma_find_at_props;
use crate::text::parse_digits;
use crate::text::split_on;
use crate::text::split_spec;
use crate::text::str_to_chars;
use crate::text::subvec;
use crate::text::trim;
use crate::text::trimmed;

verus! {

/// A leap year in the Gregorian calendar.
pub open spec fn is_leap(y: nat) -> bool {
    y % 4 == 0 && (y % 100 != 0 || y % 400 == 0)
}

/// Days in a month of the Gregorian calendar.
pub open spec fn days_in_month(y: nat, m: nat) -> nat {
    if m == 2 {
        if is_leap(y) {
            29
        } else {
            28
        }
    } else if m == 4 || m == 6 || m == 9 || m == 11 {
        30
    } else {
        31
    }
}

/// A valid calendar date with a four-digit year.
pub open spec fn valid_date(y: nat, m: nat, d: nat) -> bool {
    &&& y <= 9999
    &&& 1 <= m <= 12
    &&& 1 <= d <= days_in_month(y, m)
}

/// A calendar date, held as plain year / month / day numbers.
#[derive(Debug, Clone, Copy, PartialEq, Eq, Structural)]
pub struct SiteDate {
    pub year: u32,
    pub month: u32,
    pub day: u32,
}

impl SiteDate {
    /// The date is a valid Gregorian calendar date.
    pub open spec fn wf(&self) -> bool {
        valid_date(self.year as nat, self.month as nat, self.day as nat)
    }
}

/// Per-page metadata parsed from the frontmatter block.
#[derive(Debug, Clone)]
pub struct Frontmatter {
    /// Page title; required in the block, "Untitled" when the block is
    /// absent or unparseable.
    pub title: String,
    /// Publication date, shown by the prelude's date-conditional region.
    pub date: Option<SiteDate>,
    /// Estimated reading time, free text.
    pub time_to_read: Option<String>,
}

/// The mathematical content of a frontmatter.
pub ghost struct FrontmatterView {
    pub title: Seq<char>,
    pub date: Option<SiteDate>,
    pub time_to_read: Option<Seq<char>>,
}

impl View for Frontmatter {
    type V = FrontmatterView;

    open spec fn view(&self) -> FrontmatterView {
        FrontmatterView {
            title: self.title@,
            date: match self.date {
                Some(d) => Some(d),
                None => None,
            },
            time_to_read: match self.time_to_read {
                Some(ref t) => Some(t@),
                None => None,
            },
        }
    }
}

/// The date denoted by a `MM/DD/YYYY` field: month and day of one or two
/// digits, year of up to four, and the whole a valid calendar date.
pub open spec fn date_of(s: Seq<char>) -> Option<SiteDate> {
    let fs = split_spec(s, '/');
    if fs.len() == 3 && fs[0].len() <= 2 && fs[1].len() <= 2 && fs[2].len() <= 4 {
        match (digits_val(fs[0]), digits_val(fs[1]), digits_val(fs[2])) {
            (Some(m), Some(d), Some(y)) => if valid_date(y, m, d) {
                Some(SiteDate { year: y as u32, month: m as u32, day: d as u32 })
            } else {
                None
            },
            _ => None,
        }
    } else {
        None
    }
}

/// Parses a `MM/DD/YYYY` date field.
pub fn parse_date(s: &Vec<char>) -> (r: Option<SiteDate>)
    ensures
        r == date_of(s@),
        r is Some ==> r.unwrap().wf(),
{
    let fs = split_on(s, '/');
    let ghost fss = fs@.map_values(|v: Vec<char>| v@);
    if fs.len() != 3 {
        return None;
    }
    if fs[0].len() > 2 || fs[1].len() > 2 || fs[2].len() > 4 {
        return None;
    }
    proof {
        assert(fss[0] == fs@[0]@);
        assert(fss[1] == fs@[1]@);
        assert(fss[2] == fs@[2]@);
    }
    let m = match parse_digits(&fs[0]) {
        Some(v) => v,
        None => {
            return None;
        },
    };
    let d = match parse_digits(&fs[1]) {
        Some(v) => v,
        None => {
            return None;
        },
    };
    let y = match parse_digits(&fs[2]) {
        Some(v) => v,
        None => {
            return None;
        },
    };
    if !(y <= 9999 && 1 <= m && m <= 12) {
        return None;
    }
    let dim: u32 = if m == 2 {
        let leap = y % 4 == 0 && (y % 100 != 0 || y % 400 == 0);
        if leap {
            29
        } else {
            28
        }
    } else if m == 4 || m == 6 || m == 9 || m == 11 {
        30
    } else {
        31
    };
    if !(1 <= d && d <= dim) {
        return None;
    }
    Some(SiteDate { year: y, month: m, day: d })
}

/// The fields gathered while folding over the block's lines.
pub ghost struct FmFields {
    pub title: Option<Seq<char>>,
    pub date: Option<SiteDate>,
    pub time_to_read: Option<Seq<char>>,
    pub bad: bool,
}

/// What one line does to the gathered fields. Blank lines are skipped; a
/// nonblank line must hold a colon; known keys set their field (`date`
/// must parse), unknown keys are ignored.
pub open spec fn line_effect(line: Seq<char>, st: FmFields) -> FmFields {
    if trimmed(line).len() == 0 {
        st
    } else {
        let i = find_at(line, 0, seq![':']);
        if i is Some && 0 <= i.unwrap() <= line.len() {
            let key = trimmed(line.subrange(0, i.unwrap()));
            let value = trimmed(line.subrange(i.unwrap() + 1, line.len() as int));
            if key == "title"@ {
                FmFields { title: Some(value), ..st }
            } else if key == "date"@ {
                match date_of(value) {
                    Some(dt) => FmFields { date: Some(dt), ..st },
                    None => FmFields { bad: true, ..st },
                }
            } else if key == "time_to_read"@ {
                FmFields { time_to_read: Some(value), ..st }
            } else {
                st
            }
        } else {
            FmFields { bad: true, ..st }
        }
    }
}

/// The fields after all lines.
pub open spec fn fm_fold(lines: Seq<Seq<char>>, st: FmFields) -> FmFields
    decreases lines.len(),
{
    if lines.len() == 0 {
        st
    } else {
        fm_fold(lines.drop_first(), line_effect(lines[0], st))
    }
}

/// No fields gathered yet.
pub open spec fn fm_empty() -> FmFields {
    FmFields { title: None, date: None, time_to_read: None, bad: false }
}

/// What a frontmatter block denotes: `None` when any line was malformed or
/// the required title is missing.
pub open spec fn fm_of(s: Seq<char>) -> Option<FrontmatterView> {
    let st = fm_fold(split_spec(s, '\n'), fm_empty());
    if st.bad || st.title is None {
        None
    } else {
        Some(
            FrontmatterView {
                title: st.title.unwrap(),
                date: st.date,
                time_to_read: st.time_to_read,
            },
        )
    }
}

impl Frontmatter {
    /// The metadata a page renders with when its block is absent or
    /// unparseable: the default title, no date, no reading time.
    pub fn untitled() -> (fm: Frontmatter)
        ensures
            fm@.title == "Untitled"@,
            fm@.date is None,
            fm@.time_to_read is None,
    {
        Frontmatter {
            title: String::from_str("Untitled"),
            date: None,
            time_to_read: None,
        }
    }

    /// Parses a frontmatter block, as `fm_of` describes. A parse failure is
    /// soft: the caller renders the page with the default title.
    pub fn parse_from_str(s: &str) -> (r: Option<Frontmatter>)
        ensures
            match r {
                Some(fm) => fm_of(s@) == Some(fm@) && (fm@.date is Some
                    ==> fm@.date.unwrap().wf()),
                None => fm_of(s@) is None,
            },
    {
        let cs = str_to_chars(s);
        let lines = split_on(&cs, '\n');
        let ghost lss = lines@.map_values(|v: Vec<char>| v@);
        let mut title: Option<Vec<char>> = None;
        let mut date: Option<SiteDate> = None;
        let mut ttr: Option<Vec<char>> = None;
        let mut bad = false;
        let mut i: usize = 0;
        proof {
            assert(lss.subrange(0, lss.len() as int) =~= lss);
        }
        while i < lines.len()
            invariant
                i <= lss.len(),
                lss.len() == lines@.len(),
                lss == lines@.map_values(|v: Vec<char>| v@),
                match date {
                    Some(d) => d.wf(),
                    None => true,
                },
                fm_fold(lss, fm_empty()) == fm_fold(
                    lss.subrange(i as int, lss.len() as int),
                    FmFields {
                        title: match title {
                            Some(ref t) => Some(t@),
                            None => None,
                        },
                        date: date,
                        time_to_read: match ttr {
                            Some(ref t) => Some(t@),
                            None => None,
                        },
                        bad: bad,
                    },
                ),
            decreases lss.len() - i,
        {
            let ghost rem = lss.subrange(i as int, lss.len() as int);
            let ghost st0 = FmFields {
                title: match title {
                    Some(ref t) => Some(t@),
                    None => None,
                },
                date: date,
                time_to_read: match ttr {
                    Some(ref t) => Some(t@),
                    None => None,
                },
                bad: bad,
            };
            proof {
                assert(rem[0] == lss[i as int]);
                assert(rem.drop_first() =~= lss.subrange(i + 1, lss.len() as int));
            }
            let line = &lines[i];
            let t = trim(line);
            if t.len() == 0 {
            } else {
                let mut colon: Vec<char> = Vec::new();
                colon.push(':');
                proof {
                    assert(colon@ =~= seq![':']);
                }
                let found = find_from(line, 0, &colon);
                match found {
                    None => {
                        bad = true;
                    },
                    Some(ci) => {
                        proof {
                            lemma_find_at_props(line@, 0, colon@);
                        }
                        let key = trim(&subvec(line, 0, ci));
                        let value = trim(&subvec(line, ci + 1, line.len()));
                        if chars_eq(&key, &str_to_chars("title")) {
                            title = Some(value);
                        } else if chars_eq(&key, &str_to_chars("date")) {
                            match parse_date(&value) {
                                Some(dt) => {
                                    date = Some(dt);
                                },
                                None => {
                                    bad = true;
                                },
                            }
                        } else if chars_eq(&key, &str_to_chars("time_to_read")) {
                            ttr = Some(value);
                        }
                    },
                }
            }
            i = i + 1;
        }
        proof {
            assert(lss.subrange(lss.len() as int, lss.len() as int)
                =~= Seq::<Seq<char>>::empty());
        }
        if bad {
            return None;
        }
        let tv = match title {
            Some(t) => t,
            None => {
                return None;
            },
        };
        let fm = Frontmatter {
            title: chars_to_string(&tv),
            date: date,
            time_to_read: match ttr {
                Some(t) => Some(chars_to_string(&t)),
                None => None,
            },
        };
        Some(fm)
    }
}

/// A rule-marker line: exactly `---` once trimmed.
pub open spec fn is_rule_line(line: Seq<char>) -> bool {
    trimmed(line) == "---"@
}

/// A line that closes an open frontmatter block: another rule marker, or a
/// heading line.
pub open spec fn is_fm_close(line: Seq<char>) -> bool {
    is_rule_line(line) || (trimmed(line).len() > 0 && trimmed(line)[0] == '#')
}

/// The first closing line at or after `from`.
pub open spec fn find_close(lines: Seq<Seq<char>>, from: int) -> Option<int>
    decreases lines.len() + 1 - from,
{
    if from < 0 || from >= lines.len() {
        None
    } else if is_fm_close(lines[from]) {
        Some(from)
    } else {
        find_close(lines, from + 1)
    }
}

/// The extraction pre-pass: the block's raw text (without its markers) and
/// the document that remains. A closing rule marker is consumed; a closing
/// heading stays in the document. Without an opening marker on the first
/// line, or without any closing line, there is no block and the document
/// is unchanged.
pub open spec fn extract_fm_spec(s: Seq<char>) -> (Option<Seq<char>>, Seq<char>) {
    let lines = split_spec(s, '\n');
    if lines.len() > 0 && is_rule_line(lines[0]) {
        match find_close(lines, 1) {
            Some(k) => {
                let block = join_spec(lines.subrange(1, k), '\n');
                let restl = if is_rule_line(lines[k]) {
                    lines.subrange(k + 1, lines.len() as int)
                } else {
                    lines.subrange(k, lines.len() as int)
                };
                (Some(block), join_spec(restl, '\n'))
            },
            None => (None, s),
        }
    } else {
        (None, s)
    }
}

/// Copies `ls[i..j]`.
fn subvec_lines(ls: &Vec<Vec<char>>, i: usize, j: usize) -> (r: Vec<Vec<char>>)
    requires
        i <= j <= ls@.len(),
    ensures
        r@.map_values(|v: Vec<char>| v@) == ls@.map_values(|v: Vec<char>| v@).subrange(
            i as int,
            j as int,
        ),
{
    let mut r: Vec<Vec<char>> = Vec::new();
    let mut k: usize = i;
    while k < j
        invariant
            i <= k <= j <= ls@.len(),
            r@.map_values(|v: Vec<char>| v@) =~= ls@.map_values(|v: Vec<char>| v@).subrange(
                i as int,
                k as int,
            ),
        decreases j - k,
    {
        let c = copy_chars(&ls[k]);
        let ghost prev = r@.map_values(|v: Vec<char>| v@);
        let ghost cv = c@;
        r.push(c);
        proof {
            assert(r@.map_values(|v: Vec<char>| v@) =~= prev.push(cv));
            assert(prev.push(cv) =~= ls@.map_values(|v: Vec<char>| v@).subrange(
                i as int,
                k + 1,
            ));
        }
        k = k + 1;
    }
    r
}

/// Is this a `---` rule line?
fn is_rule_line_x(line: &Vec<char>) -> (r: bool)
    ensures
        r == is_rule_line(line@),
{
    let t = trim(line);
    chars_eq(&t, &str_to_chars("---"))
}

/// Does this line close an open frontmatter block?
fn is_fm_close_x(line: &Vec<char>) -> (r: bool)
    ensures
        r == is_fm_close(line@),
{
    let t = trim(line);
    if chars_eq(&t, &str_to_chars("---")) {
        return true;
    }
    t.len() > 0 && t[0] == '#'
}

/// Splits a document into its frontmatter block (if any) and the text that
/// the markdown renderer sees, as `extract_fm_spec` describes.
pub fn extract_frontmatter(doc: &Vec<char>) -> (r: (Option<Vec<char>>, Vec<char>))
    ensures
        match r.0 {
            Some(ref b) => extract_fm_spec(doc@).0 == Some(b@),
            None => extract_fm_spec(doc@).0 is None,
        },
        r.1@ == extract_fm_spec(doc@).1,
{
    let lines = split_on(doc, '\n');
    let ghost lss = lines@.map_values(|v: Vec<char>| v@);
    if lines.len() == 0 || !is_rule_line_x(&lines[0]) {
        proof {
            assert(lines@.len() > 0 ==> lss[0] == lines@[0]@);
        }
        return (None, copy_chars(doc));
    }
    proof {
        assert(lss[0] == lines@[0]@);
    }
    let mut k: usize = 1;
    while k < lines.len() && !is_fm_close_x(&lines[k])
        invariant
            1 <= k <= lss.len(),
            lss.len() == lines@.len(),
            lss == lines@.map_values(|v: Vec<char>| v@),
            find_close(lss, 1) == find_close(lss, k as int),
            forall|p: int| 1 <= p < k ==> !is_fm_close(lss[p]),
        decreases lss.len() - k,
    {
        proof {
            assert(lss[k as int] == lines@[k as int]@);
        }
        k = k + 1;
    }
    if k >= lines.len() {
        proof {
            assert(find_close(lss, k as int) is None);
        }
        return (None, copy_chars(doc));
    }
    proof {
        assert(lss[k as int] == lines@[k as int]@);
        assert(find_close(lss, k as int) == Some(k as int));
    }
    let block_lines = subvec_lines(&lines, 1, k);
    let block = join_with(&block_lines, '\n');
    let rest_lines = if is_rule_line_x(&lines[k]) {
        subvec_lines(&lines, k + 1, lines.len())
    } else {
        subvec_lines(&lines, k, lines.len())
    };
    let rest = join_with(&rest_lines, '\n');
    (Some(block), rest)
}

} // verus!
