//! The Citation File Format: a structured, indented key/value text
//! format (YAML-family) used for software citation metadata, parsed here
//! into a normalized citation record.
//!
//! The parser reads the document line by line. It understands top-level
//! `key: value` pairs, the `authors` list of person, entity or anonymous
//! entries, and the `license` field as a single value or a list of
//! alternatives. A missing optional field is never an error; only text
//! that cannot be read as this line shape at all is rejected.
use vstd::prelude::*;

use crate::Crate2BibError;
use crate::text::{
    chars_of, find_char_exec, find_char_from, first_non_blank, is_blank_char, range_eq_str,
    spec_split, spec_trim, spec_unquote, split_vec, string_from_range, subvec, trim_range,
    unquote_range,
};

verus! {

/// A calendar date, year, month and day.
#[derive(Clone, Copy, Debug, PartialEq, Eq, Structural)]
pub struct Date {
    pub year: u64,
    /// Month, starting from 1.
    pub month: u64,
    /// Day of the month, starting from 1.
    pub day: u64,
}

/// The kind of work a citation record describes.
#[derive(Clone, Copy, Debug, PartialEq, Eq, Structural)]
pub enum WorkType {
    Software,
    Dataset,
}

/// One author of a cited work: a person (named by its parts), an entity
/// (named as a whole), or anonymous.
#[derive(Clone, Debug)]
pub struct Author {
    pub given_names: Option<String>,
    pub name_particle: Option<String>,
    pub family_names: Option<String>,
    pub name_suffix: Option<String>,
    pub orcid: Option<String>,
    /// An entity author's name; the value `"anonymous"` marks an
    /// anonymous author.
    pub name: Option<String>,
}

/// The mathematical value of an [`Author`].
#[verifier::ext_equal]
pub ghost struct AuthorV {
    pub given_names: Option<Seq<char>>,
    pub name_particle: Option<Seq<char>>,
    pub family_names: Option<Seq<char>>,
    pub name_suffix: Option<Seq<char>>,
    pub orcid: Option<Seq<char>>,
    pub name: Option<Seq<char>>,
}

/// The view of an optional string.
pub open spec fn opt_view(o: Option<String>) -> Option<Seq<char>> {
    match o {
        Some(s) => Some(s@),
        None => None,
    }
}

impl View for Author {
    type V = AuthorV;

    open spec fn view(&self) -> AuthorV {
        AuthorV {
            given_names: opt_view(self.given_names),
            name_particle: opt_view(self.name_particle),
            family_names: opt_view(self.family_names),
            name_suffix: opt_view(self.name_suffix),
            orcid: opt_view(self.orcid),
            name: opt_view(self.name),
        }
    }
}

impl DeepView for Author {
    type V = AuthorV;

    open spec fn deep_view(&self) -> AuthorV {
        self.view()
    }
}

/// A normalized citation record read from a CFF document.
#[derive(Clone, Debug)]
pub struct CitationCff {
    pub cff_version: Option<String>,
    pub message: Option<String>,
    pub title: Option<String>,
    pub work_type: Option<WorkType>,
    pub version: Option<String>,
    pub date_released: Option<Date>,
    pub abstract_text: Option<String>,
    pub url: Option<String>,
    pub repository: Option<String>,
    pub repository_code: Option<String>,
    pub repository_artifact: Option<String>,
    /// The licenses under which the work is offered; several entries are
    /// alternatives. Empty when the document names none.
    pub license: Vec<String>,
    /// The authors, in document order.
    pub authors: Vec<Author>,
}

/// The mathematical value of a [`CitationCff`].
#[verifier::ext_equal]
pub ghost struct CitationCffV {
    pub cff_version: Option<Seq<char>>,
    pub message: Option<Seq<char>>,
    pub title: Option<Seq<char>>,
    pub work_type: Option<WorkType>,
    pub version: Option<Seq<char>>,
    pub date_released: Option<Date>,
    pub abstract_text: Option<Seq<char>>,
    pub url: Option<Seq<char>>,
    pub repository: Option<Seq<char>>,
    pub repository_code: Option<Seq<char>>,
    pub repository_artifact: Option<Seq<char>>,
    pub license: Seq<Seq<char>>,
    pub authors: Seq<AuthorV>,
}

impl View for CitationCff {
    type V = CitationCffV;

    open spec fn view(&self) -> CitationCffV {
        CitationCffV {
            cff_version: opt_view(self.cff_version),
            message: opt_view(self.message),
            title: opt_view(self.title),
            work_type: self.work_type,
            version: opt_view(self.version),
            date_released: self.date_released,
            abstract_text: opt_view(self.abstract_text),
            url: opt_view(self.url),
            repository: opt_view(self.repository),
            repository_code: opt_view(self.repository_code),
            repository_artifact: opt_view(self.repository_artifact),
            license: self.license.deep_view(),
            authors: self.authors.deep_view(),
        }
    }
}

/// True when every character of `s` is a decimal digit.
pub open spec fn all_digits(s: Seq<char>) -> bool {
    forall|i: int| 0 <= i < s.len() ==> crate::version::is_digit(s[i])
}

/// The numeric value of a sequence of decimal digits.
pub open spec fn digits_value(s: Seq<char>) -> int
    decreases s.len(),
{
    if s.len() == 0 {
        0
    } else {
        digits_value(s.drop_last()) * 10 + (s.last() as int - 48)
    }
}

/// The date written as `YYYY-MM-DD` with a month of 1 to 12 and a day of
/// 1 to 31; any other text is no date.
pub open spec fn spec_parse_date(v: Seq<char>) -> Option<Date> {
    let parts = spec_split(v, '-');
    if parts.len() == 3 && parts[0].len() == 4 && parts[1].len() == 2 && parts[2].len() == 2
        && all_digits(parts[0]) && all_digits(parts[1]) && all_digits(parts[2]) {
        let y = digits_value(parts[0]);
        let m = digits_value(parts[1]);
        let d = digits_value(parts[2]);
        if 1 <= m <= 12 && 1 <= d <= 31 {
            Some(Date { year: y as u64, month: m as u64, day: d as u64 })
        } else {
            None
        }
    } else {
        None
    }
}

fn digit_value(c: char) -> (r: u64)
    requires
        crate::version::is_digit(c),
    ensures
        r == c as int - 48,
        r <= 9,
{
    (c as u8 - 48) as u64
}

fn all_digits_exec(cs: &Vec<char>) -> (r: bool)
    ensures
        r == all_digits(cs@),
{
    let mut i: usize = 0;
    while i < cs.len()
        invariant
            i <= cs@.len(),
            forall|j: int| 0 <= j < i ==> crate::version::is_digit(cs@[j]),
        decreases cs@.len() - i,
    {
        let c = cs[i];
        if !('0' <= c && c <= '9') {
            return false;
        }
        i = i + 1;
    }
    true
}

fn four_digit_value(cs: &Vec<char>) -> (r: u64)
    requires
        cs@.len() == 4,
        all_digits(cs@),
    ensures
        r == digits_value(cs@),
        r <= 9999,
{
    let r = digit_value(cs[0]) * 1000 + digit_value(cs[1]) * 100 + digit_value(cs[2]) * 10
        + digit_value(cs[3]);
    proof {
        let s = cs@;
        assert(s.drop_last() =~= seq![s[0], s[1], s[2]]);
        assert(seq![s[0], s[1], s[2]].drop_last() =~= seq![s[0], s[1]]);
        assert(seq![s[0], s[1]].drop_last() =~= seq![s[0]]);
        assert(seq![s[0]].drop_last() =~= Seq::<char>::empty());
        assert(digits_value(Seq::<char>::empty()) == 0);
        assert(digits_value(seq![s[0]]) == s[0] as int - 48);
        assert(digits_value(seq![s[0], s[1]]) == digits_value(seq![s[0]]) * 10 + (s[1] as int
            - 48));
        assert(digits_value(seq![s[0], s[1], s[2]]) == digits_value(seq![s[0], s[1]]) * 10 + (
        s[2] as int - 48));
        assert(digits_value(s) == digits_value(seq![s[0], s[1], s[2]]) * 10 + (s[3] as int - 48));
    }
    r
}

fn two_digit_value(cs: &Vec<char>) -> (r: u64)
    requires
        cs@.len() == 2,
        all_digits(cs@),
    ensures
        r == digits_value(cs@),
        r <= 99,
{
    let r = digit_value(cs[0]) * 10 + digit_value(cs[1]);
    proof {
        let s = cs@;
        assert(s.drop_last() =~= seq![s[0]]);
        assert(seq![s[0]].drop_last() =~= Seq::<char>::empty());
        assert(digits_value(Seq::<char>::empty()) == 0);
        assert(digits_value(seq![s[0]]) == s[0] as int - 48);
        assert(digits_value(s) == digits_value(seq![s[0]]) * 10 + (s[1] as int - 48));
    }
    r
}

/// Where in the document the parser stands: at the top level, inside the
/// `authors` list, inside a `license` list, or inside the block of an
/// unknown key, whose lines are skipped.
#[derive(Clone, Copy, Debug, PartialEq, Eq, Structural)]
pub enum Ctx {
    Top,
    Authors,
    License,
    Skip,
}

/// The parser's state between lines: the context, the author entry under
/// construction, and the record gathered so far.
#[verifier::ext_equal]
pub ghost struct PState {
    pub ctx: Ctx,
    pub cur_author: Option<AuthorV>,
    pub rec: CitationCffV,
}

/// The record with no field set.
pub open spec fn empty_record() -> CitationCffV {
    CitationCffV {
        cff_version: None,
        message: None,
        title: None,
        work_type: None,
        version: None,
        date_released: None,
        abstract_text: None,
        url: None,
        repository: None,
        repository_code: None,
        repository_artifact: None,
        license: Seq::empty(),
        authors: Seq::empty(),
    }
}

/// The state before the first line.
pub open spec fn init_state() -> PState {
    PState { ctx: Ctx::Top, cur_author: None, rec: empty_record() }
}

/// An author entry with no part set.
pub open spec fn empty_author() -> AuthorV {
    AuthorV {
        given_names: None,
        name_particle: None,
        family_names: None,
        name_suffix: None,
        orcid: None,
        name: None,
    }
}

/// The state with any author under construction appended to the record.
pub open spec fn flush_author(st: PState) -> PState {
    match st.cur_author {
        Some(a) => PState {
            cur_author: None,
            rec: CitationCffV { authors: st.rec.authors.push(a), ..st.rec },
            ..st
        },
        None => st,
    }
}

/// The author entry with one `key: value` pair applied; an unknown key
/// changes nothing.
pub open spec fn set_author_field(a: AuthorV, key: Seq<char>, value: Seq<char>) -> AuthorV {
    if key == "given-names"@ {
        AuthorV { given_names: Some(value), ..a }
    } else if key == "name-particle"@ {
        AuthorV { name_particle: Some(value), ..a }
    } else if key == "family-names"@ {
        AuthorV { family_names: Some(value), ..a }
    } else if key == "name-suffix"@ {
        AuthorV { name_suffix: Some(value), ..a }
    } else if key == "orcid"@ {
        AuthorV { orcid: Some(value), ..a }
    } else if key == "name"@ {
        AuthorV { name: Some(value), ..a }
    } else {
        a
    }
}

/// The record and context after one top-level `key: value` line. The
/// `authors` and `license` keys open their lists (`authors` rejects an
/// inline value); a known scalar key sets its field; an unknown key
/// opens a skipped block, so that whatever list or mapping follows it is
/// passed over.
pub open spec fn apply_top_key(rec: CitationCffV, key: Seq<char>, value: Seq<char>) -> Option<
    (Ctx, CitationCffV),
> {
    if key == "authors"@ {
        if value.len() == 0 {
            Some((Ctx::Authors, rec))
        } else {
            None
        }
    } else if key == "license"@ {
        if value.len() == 0 {
            Some((Ctx::License, CitationCffV { license: Seq::empty(), ..rec }))
        } else {
            Some((Ctx::Top, CitationCffV { license: seq![value], ..rec }))
        }
    } else if key == "cff-version"@ {
        Some((Ctx::Top, CitationCffV { cff_version: Some(value), ..rec }))
    } else if key == "message"@ {
        Some((Ctx::Top, CitationCffV { message: Some(value), ..rec }))
    } else if key == "title"@ {
        Some((Ctx::Top, CitationCffV { title: Some(value), ..rec }))
    } else if key == "type"@ {
        let wt = if value == "software"@ {
            Some(WorkType::Software)
        } else if value == "dataset"@ {
            Some(WorkType::Dataset)
        } else {
            None
        };
        Some((Ctx::Top, CitationCffV { work_type: wt, ..rec }))
    } else if key == "version"@ {
        Some((Ctx::Top, CitationCffV { version: Some(value), ..rec }))
    } else if key == "date-released"@ {
        Some((Ctx::Top, CitationCffV { date_released: spec_parse_date(value), ..rec }))
    } else if key == "abstract"@ {
        Some((Ctx::Top, CitationCffV { abstract_text: Some(value), ..rec }))
    } else if key == "url"@ {
        Some((Ctx::Top, CitationCffV { url: Some(value), ..rec }))
    } else if key == "repository"@ {
        Some((Ctx::Top, CitationCffV { repository: Some(value), ..rec }))
    } else if key == "repository-code"@ {
        Some((Ctx::Top, CitationCffV { repository_code: Some(value), ..rec }))
    } else if key == "repository-artifact"@ {
        Some((Ctx::Top, CitationCffV { repository_artifact: Some(value), ..rec }))
    } else {
        Some((Ctx::Skip, rec))
    }
}

/// One line of the document applied to the parser state; `None` when the
/// line cannot be read.
///
/// A blank or comment line changes nothing. A line whose first non-blank
/// character is `-` followed by a blank or the line end is a list item:
/// a new author entry inside `authors`, a license alternative inside
/// `license`, skipped inside an unknown key's block, an error at the top
/// level. An unindented line must be `key: value`. Any other indented
/// line is an author field inside `authors`, an error inside `license`,
/// and skipped continuation text otherwise.
pub open spec fn step(st: PState, line: Seq<char>) -> Option<PState> {
    let fnb = first_non_blank(line, 0);
    if fnb == line.len() {
        Some(st)
    } else if line[fnb] == '#' {
        Some(st)
    } else if line[fnb] == '-' && (fnb + 1 == line.len() || is_blank_char(line[fnb + 1])) {
        match st.ctx {
            Ctx::Authors => {
                let st1 = flush_author(st);
                if spec_trim(line.subrange(fnb + 1, line.len() as int)).len() == 0 {
                    Some(PState { cur_author: Some(empty_author()), ..st1 })
                } else {
                    match find_char_from(line, ':', fnb + 1) {
                        None => None,
                        Some(c) => {
                            let key = spec_trim(line.subrange(fnb + 1, c));
                            let value = spec_unquote(
                                spec_trim(line.subrange(c + 1, line.len() as int)),
                            );
                            Some(
                                PState {
                                    cur_author: Some(set_author_field(empty_author(), key, value)),
                                    ..st1
                                },
                            )
                        },
                    }
                }
            },
            Ctx::License => {
                let v = spec_unquote(spec_trim(line.subrange(fnb + 1, line.len() as int)));
                Some(PState { rec: CitationCffV { license: st.rec.license.push(v), ..st.rec }, ..st })
            },
            Ctx::Skip => Some(st),
            Ctx::Top => None,
        }
    } else if fnb == 0 {
        match find_char_from(line, ':', 0) {
            None => None,
            Some(c) => {
                let st1 = flush_author(st);
                let key = spec_trim(line.subrange(0, c));
                let value = spec_unquote(spec_trim(line.subrange(c + 1, line.len() as int)));
                match apply_top_key(st1.rec, key, value) {
                    None => None,
                    Some((c2, r2)) => Some(PState { ctx: c2, cur_author: None, rec: r2 }),
                }
            },
        }
    } else {
        match st.ctx {
            Ctx::Authors => match st.cur_author {
                None => None,
                Some(a) => match find_char_from(line, ':', fnb) {
                    None => None,
                    Some(c) => {
                        let key = spec_trim(line.subrange(fnb, c));
                        let value = spec_unquote(spec_trim(line.subrange(c + 1, line.len() as int)));
                        Some(PState { cur_author: Some(set_author_field(a, key, value)), ..st })
                    },
                },
            },
            Ctx::License => None,
            Ctx::Skip => Some(st),
            Ctx::Top => Some(st),
        }
    }
}

/// The record after the last line: any author still under construction
/// is appended.
pub open spec fn finish(st: PState) -> CitationCffV {
    flush_author(st).rec
}

/// The lines folded through [`step`] from `st` on, ending with
/// [`finish`]; `None` as soon as one line cannot be read.
pub open spec fn spec_parse_lines(lines: Seq<Seq<char>>, st: PState) -> Option<CitationCffV>
    decreases lines.len(),
{
    if lines.len() == 0 {
        Some(finish(st))
    } else {
        match step(st, lines[0]) {
            None => None,
            Some(st2) => spec_parse_lines(lines.skip(1), st2),
        }
    }
}

/// The citation record that a CFF document denotes, or `None` when the
/// document cannot be read as the line shapes above.
pub open spec fn spec_parse(text: Seq<char>) -> Option<CitationCffV> {
    spec_parse_lines(spec_split(text, '\n'), init_state())
}

/// Reads a `YYYY-MM-DD` date out of `cs`, or `None` when it is not one.
fn parse_date_exec(cs: &Vec<char>) -> (r: Option<Date>)
    ensures
        r == spec_parse_date(cs@),
{
    let parts = split_vec(cs, '-');
    let ghost pv = parts.deep_view();
    proof {
        assert(pv.len() == parts@.len());
        if parts@.len() > 0 {
            assert(pv[0] == parts@[0]@);
        }
        if parts@.len() > 1 {
            assert(pv[1] == parts@[1]@);
        }
        if parts@.len() > 2 {
            assert(pv[2] == parts@[2]@);
        }
    }
    if parts.len() != 3 {
        return None;
    }
    if parts[0].len() != 4 || parts[1].len() != 2 || parts[2].len() != 2 {
        return None;
    }
    if !(all_digits_exec(&parts[0]) && all_digits_exec(&parts[1]) && all_digits_exec(&parts[2])) {
        return None;
    }
    let y = four_digit_value(&parts[0]);
    let m = two_digit_value(&parts[1]);
    let d = two_digit_value(&parts[2]);
    if 1 <= m && m <= 12 && 1 <= d && d <= 31 {
        Some(Date { year: y, month: m, day: d })
    } else {
        None
    }
}

fn exec_first_non_blank(cs: &Vec<char>, lo: usize) -> (r: usize)
    requires
        lo <= cs@.len(),
    ensures
        r == first_non_blank(cs@, lo as int),
        lo <= r <= cs@.len(),
    decreases cs@.len() - lo,
{
    if lo == cs.len() {
        lo
    } else {
        let c = cs[lo];
        if c == ' ' || c == '\t' || c == '\r' {
            exec_first_non_blank(cs, lo + 1)
        } else {
            lo
        }
    }
}

/// The blank-trimmed, then unquoted bounds of the given range.
fn value_range(line: &Vec<char>, from: usize, to: usize) -> (r: (usize, usize))
    requires
        from <= to <= line@.len(),
    ensures
        r.0 <= r.1 <= line@.len(),
        line@.subrange(r.0 as int, r.1 as int) == spec_unquote(
            spec_trim(line@.subrange(from as int, to as int)),
        ),
{
    let (tlo, thi) = trim_range(line, from, to);
    unquote_range(line, tlo, thi)
}

fn set_author_field_exec(
    a: Author,
    line: &Vec<char>,
    klo: usize,
    khi: usize,
    vlo: usize,
    vhi: usize,
) -> (r: Author)
    requires
        klo <= khi <= line@.len(),
        vlo <= vhi <= line@.len(),
    ensures
        r@ == set_author_field(
            a@,
            line@.subrange(klo as int, khi as int),
            line@.subrange(vlo as int, vhi as int),
        ),
{
    let value = string_from_range(line, vlo, vhi);
    if range_eq_str(line, klo, khi, "given-names") {
        Author { given_names: Some(value), ..a }
    } else if range_eq_str(line, klo, khi, "name-particle") {
        Author { name_particle: Some(value), ..a }
    } else if range_eq_str(line, klo, khi, "family-names") {
        Author { family_names: Some(value), ..a }
    } else if range_eq_str(line, klo, khi, "name-suffix") {
        Author { name_suffix: Some(value), ..a }
    } else if range_eq_str(line, klo, khi, "orcid") {
        Author { orcid: Some(value), ..a }
    } else if range_eq_str(line, klo, khi, "name") {
        Author { name: Some(value), ..a }
    } else {
        a
    }
}

fn apply_top_key_exec(
    rec: &mut CitationCff,
    line: &Vec<char>,
    klo: usize,
    khi: usize,
    vlo: usize,
    vhi: usize,
) -> (r: Option<Ctx>)
    requires
        klo <= khi <= line@.len(),
        vlo <= vhi <= line@.len(),
    ensures
        match r {
            Some(c2) => apply_top_key(
                old(rec)@,
                line@.subrange(klo as int, khi as int),
                line@.subrange(vlo as int, vhi as int),
            ) == Some((c2, final(rec)@)),
            None => apply_top_key(
                old(rec)@,
                line@.subrange(klo as int, khi as int),
                line@.subrange(vlo as int, vhi as int),
            ) is None,
        },
{
    let ghost key = line@.subrange(klo as int, khi as int);
    let ghost value = line@.subrange(vlo as int, vhi as int);
    if range_eq_str(line, klo, khi, "authors") {
        if vhi == vlo {
            Some(Ctx::Authors)
        } else {
            None
        }
    } else if range_eq_str(line, klo, khi, "license") {
        if vhi == vlo {
            rec.license = Vec::new();
            proof {
                assert(rec@ =~= (CitationCffV { license: Seq::empty(), ..old(rec)@ }));
            }
            Some(Ctx::License)
        } else {
            let mut l: Vec<String> = Vec::new();
            l.push(string_from_range(line, vlo, vhi));
            rec.license = l;
            proof {
                assert(rec.license.deep_view() =~~= seq![value]);
                assert(rec@ =~= (CitationCffV { license: seq![value], ..old(rec)@ }));
            }
            Some(Ctx::Top)
        }
    } else if range_eq_str(line, klo, khi, "cff-version") {
        rec.cff_version = Some(string_from_range(line, vlo, vhi));
        Some(Ctx::Top)
    } else if range_eq_str(line, klo, khi, "message") {
        rec.message = Some(string_from_range(line, vlo, vhi));
        Some(Ctx::Top)
    } else if range_eq_str(line, klo, khi, "title") {
        rec.title = Some(string_from_range(line, vlo, vhi));
        Some(Ctx::Top)
    } else if range_eq_str(line, klo, khi, "type") {
        if range_eq_str(line, vlo, vhi, "software") {
            rec.work_type = Some(WorkType::Software);
        } else if range_eq_str(line, vlo, vhi, "dataset") {
            rec.work_type = Some(WorkType::Dataset);
        } else {
            rec.work_type = None;
        }
        Some(Ctx::Top)
    } else if range_eq_str(line, klo, khi, "version") {
        rec.version = Some(string_from_range(line, vlo, vhi));
        Some(Ctx::Top)
    } else if range_eq_str(line, klo, khi, "date-released") {
        let v = subvec(line, vlo, vhi);
        rec.date_released = parse_date_exec(&v);
        Some(Ctx::Top)
    } else if range_eq_str(line, klo, khi, "abstract") {
        rec.abstract_text = Some(string_from_range(line, vlo, vhi));
        Some(Ctx::Top)
    } else if range_eq_str(line, klo, khi, "url") {
        rec.url = Some(string_from_range(line, vlo, vhi));
        Some(Ctx::Top)
    } else if range_eq_str(line, klo, khi, "repository") {
        rec.repository = Some(string_from_range(line, vlo, vhi));
        Some(Ctx::Top)
    } else if range_eq_str(line, klo, khi, "repository-code") {
        rec.repository_code = Some(string_from_range(line, vlo, vhi));
        Some(Ctx::Top)
    } else if range_eq_str(line, klo, khi, "repository-artifact") {
        rec.repository_artifact = Some(string_from_range(line, vlo, vhi));
        Some(Ctx::Top)
    } else {
        Some(Ctx::Skip)
    }
}

/// The view of the author entry under construction.
pub open spec fn cur_view(cur: Option<Author>) -> Option<AuthorV> {
    match cur {
        Some(a) => Some(a@),
        None => None,
    }
}

impl CitationCff {
    /// Parses a CFF document into a citation record.
    ///
    /// Returns the record that [`spec_parse`] gives the text, and a
    /// `Parse` error exactly when the text cannot be read as the CFF
    /// line shapes at all; a missing field is never an error.
    pub fn parse(input: &str) -> (r: Result<CitationCff, Crate2BibError>)
        ensures
            match r {
                Ok(c) => spec_parse(input@) == Some(c@),
                Err(e) => spec_parse(input@) is None && e matches Crate2BibError::Parse(_),
            },
    {
        let cs = chars_of(input);
        let lines = split_vec(&cs, '\n');
        let ghost lv = lines.deep_view();
        let mut rec = CitationCff {
            cff_version: None,
            message: None,
            title: None,
            work_type: None,
            version: None,
            date_released: None,
            abstract_text: None,
            url: None,
            repository: None,
            repository_code: None,
            repository_artifact: None,
            license: Vec::new(),
            authors: Vec::new(),
        };
        let mut cur: Option<Author> = None;
        let mut ctx = Ctx::Top;
        let mut i: usize = 0;
        proof {
            assert(lv.skip(0) =~= lv);
            assert(rec@ =~= empty_record());
            assert((PState { ctx, cur_author: cur_view(cur), rec: rec@ }) =~= init_state());
        }
        while i < lines.len()
            invariant
                i <= lines@.len(),
                lv == lines.deep_view(),
                lv.len() == lines@.len(),
                lv == spec_split(input@, '\n'),
                spec_parse_lines(lv, init_state()) == spec_parse_lines(
                    lv.skip(i as int),
                    PState { ctx, cur_author: cur_view(cur), rec: rec@ },
                ),
            decreases lines@.len() - i,
        {
            let ghost st0 = PState { ctx, cur_author: cur_view(cur), rec: rec@ };
            proof {
                assert(lv[i as int] == lines@[i as int]@);
                assert(lv.skip(i as int)[0] == lv[i as int]);
                assert(lv.skip(i as int).skip(1) =~= lv.skip(i as int + 1));
            }
            let line = &lines[i];
            let ghost ls = line@;
            let n = line.len();
            let fnb = exec_first_non_blank(line, 0);
            if fnb == n {
                // blank line: nothing changes
            } else if line[fnb] == '#' {
                // comment line: nothing changes
            } else {
                let mut is_item = false;
                if line[fnb] == '-' {
                    if fnb + 1 == n {
                        is_item = true;
                    } else {
                        let c2 = line[fnb + 1];
                        is_item = c2 == ' ' || c2 == '\t' || c2 == '\r';
                    }
                }
                if is_item {
                    match ctx {
                        Ctx::Authors => {
                            let prev = cur;
                            cur = None;
                            let ghost st1 = flush_author(st0);
                            match prev {
                                Some(a) => {
                                    let ghost dv0 = rec.authors.deep_view();
                                    rec.authors.push(a);
                                    proof {
                                        assert(rec.authors.deep_view() =~~= dv0.push(a@));
                                        assert((PState {
                                            ctx,
                                            cur_author: cur_view(cur),
                                            rec: rec@,
                                        }) =~= st1);
                                    }
                                },
                                None => {},
                            }
                            let (rlo, rhi) = trim_range(line, fnb + 1, n);
                            if rlo == rhi {
                                cur = Some(
                                    Author {
                                        given_names: None,
                                        name_particle: None,
                                        family_names: None,
                                        name_suffix: None,
                                        orcid: None,
                                        name: None,
                                    },
                                );
                                proof {
                                    assert(cur_view(cur) == Some(empty_author()));
                                    assert((PState { ctx, cur_author: cur_view(cur), rec: rec@ })
                                        =~= step(st0, ls)->0);
                                }
                            } else {
                                match find_char_exec(line, ':', fnb + 1) {
                                    None => {
                                        return Err(
                                            Crate2BibError::Parse(
                                                make_parse_error_message(),
                                            ),
                                        );
                                    },
                                    Some(cpos) => {
                                        let (klo, khi) = trim_range(line, fnb + 1, cpos);
                                        let (vlo, vhi) = value_range(line, cpos + 1, n);
                                        let a = set_author_field_exec(
                                            Author {
                                                given_names: None,
                                                name_particle: None,
                                                family_names: None,
                                                name_suffix: None,
                                                orcid: None,
                                                name: None,
                                            },
                                            line,
                                            klo,
                                            khi,
                                            vlo,
                                            vhi,
                                        );
                                        cur = Some(a);
                                        proof {
                                            assert((PState {
                                                ctx,
                                                cur_author: cur_view(cur),
                                                rec: rec@,
                                            }) =~= step(st0, ls)->0);
                                        }
                                    },
                                }
                            }
                        },
                        Ctx::License => {
                            let (vlo, vhi) = value_range(line, fnb + 1, n);
                            let ghost dv0 = rec.license.deep_view();
                            rec.license.push(string_from_range(line, vlo, vhi));
                            proof {
                                assert(rec.license.deep_view() =~~= dv0.push(
                                    spec_unquote(spec_trim(ls.subrange(fnb + 1, ls.len() as int))),
                                ));
                                assert((PState { ctx, cur_author: cur_view(cur), rec: rec@ })
                                    =~= step(st0, ls)->0);
                            }
                        },
                        Ctx::Skip => {
                            // a list item of an unknown key's block: skipped
                        },
                        Ctx::Top => {
                            return Err(Crate2BibError::Parse(make_parse_error_message()));
                        },
                    }
                } else if fnb == 0 {
                    match find_char_exec(line, ':', 0) {
                        None => {
                            return Err(Crate2BibError::Parse(make_parse_error_message()));
                        },
                        Some(cpos) => {
                            let prev = cur;
                            cur = None;
                            let ghost st1 = flush_author(st0);
                            match prev {
                                Some(a) => {
                                    let ghost dv0 = rec.authors.deep_view();
                                    rec.authors.push(a);
                                    proof {
                                        assert(rec.authors.deep_view() =~~= dv0.push(a@));
                                        assert(rec@ =~= st1.rec);
                                    }
                                },
                                None => {},
                            }
                            let (klo, khi) = trim_range(line, 0, cpos);
                            let (vlo, vhi) = value_range(line, cpos + 1, n);
                            match apply_top_key_exec(&mut rec, line, klo, khi, vlo, vhi) {
                                None => {
                                    return Err(
                                        Crate2BibError::Parse(make_parse_error_message()),
                                    );
                                },
                                Some(c2) => {
                                    ctx = c2;
                                    proof {
                                        assert((PState {
                                            ctx,
                                            cur_author: cur_view(cur),
                                            rec: rec@,
                                        }) =~= step(st0, ls)->0);
                                    }
                                },
                            }
                        },
                    }
                } else {
                    match ctx {
                        Ctx::Authors => {
                            let taken = cur;
                            match taken {
                                None => {
                                    return Err(
                                        Crate2BibError::Parse(make_parse_error_message()),
                                    );
                                },
                                Some(a) => {
                                    match find_char_exec(line, ':', fnb) {
                                        None => {
                                            return Err(
                                                Crate2BibError::Parse(make_parse_error_message()),
                                            );
                                        },
                                        Some(cpos) => {
                                            let (klo, khi) = trim_range(line, fnb, cpos);
                                            let (vlo, vhi) = value_range(line, cpos + 1, n);
                                            let a2 = set_author_field_exec(
                                                a,
                                                line,
                                                klo,
                                                khi,
                                                vlo,
                                                vhi,
                                            );
                                            cur = Some(a2);
                                            proof {
                                                assert((PState {
                                                    ctx,
                                                    cur_author: cur_view(cur),
                                                    rec: rec@,
                                                }) =~= step(st0, ls)->0);
                                            }
                                        },
                                    }
                                },
                            }
                        },
                        Ctx::License => {
                            return Err(Crate2BibError::Parse(make_parse_error_message()));
                        },
                        Ctx::Skip => {
                            // inside an unknown key's block: skipped
                        },
                        Ctx::Top => {
                            // continuation of a scalar value: skipped
                        },
                    }
                }
            }
            proof {
                assert(step(st0, ls) == Some(
                    PState { ctx, cur_author: cur_view(cur), rec: rec@ },
                ));
            }
            i = i + 1;
        }
        proof {
            assert(lv.skip(lv.len() as int) =~= Seq::<Seq<char>>::empty());
        }
        let last = cur;
        match last {
            Some(a) => {
                let ghost dv0 = rec.authors.deep_view();
                let ghost st = PState { ctx, cur_author: cur_view(Some(a)), rec: rec@ };
                rec.authors.push(a);
                proof {
                    assert(rec.authors.deep_view() =~~= dv0.push(a@));
                    assert(rec@ =~= finish(st));
                }
            },
            None => {},
        }
        Ok(rec)
    }
}

fn make_parse_error_message() -> (r: String) {
    let mut m = String::new();
    m.append("could not read the text as a CFF citation file");
    m
}

} // verus!
