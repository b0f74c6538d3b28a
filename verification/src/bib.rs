//! The bibliographic record and its deterministic BibLaTeX rendering:
//! fixed field order, fixed punctuation, and the formatting rules for
//! authors, license alternatives, dates and versions.
use vstd::prelude::*;
use vstd::string::StringExecFns;

use crate::cff::{Author, AuthorV, CitationCff, CitationCffV, Date, WorkType};
use crate::text::{
    append_u64, append_u64_pad2, append_u64_pad4, chars_of, dec2, dec4, dec_rep, push_char,
    str_eq, string_from_range, trim_back, trim_back_range,
};
use crate::version::{parse_version, parsed_version, SemVer, SemVerV};

use crate::Crate2BibError;

verus! {

/// A fully specified BibLaTeX entry for a published crate.
#[derive(Clone, Debug)]
pub struct BibLaTeXCratesIO {
    /// The citation key usable in `\cite{key}`.
    pub key: String,
    /// The BibLaTeX work type, usually `software`.
    pub work_type: String,
    /// All authors, joined in order.
    pub author: String,
    /// The title: the crate's name, with its description when known.
    pub title: String,
    /// The repository where the crate is hosted.
    pub url: Option<String>,
    /// The license under which the work is distributed.
    pub license: Option<String>,
    /// The resolved semantic version.
    pub version: Option<SemVer>,
    /// The release date of the resolved version.
    pub date: Option<Date>,
}

/// The mathematical value of a [`BibLaTeXCratesIO`].
#[verifier::ext_equal]
pub ghost struct BibV {
    pub key: Seq<char>,
    pub work_type: Seq<char>,
    pub author: Seq<char>,
    pub title: Seq<char>,
    pub url: Option<Seq<char>>,
    pub license: Option<Seq<char>>,
    pub version: Option<SemVerV>,
    pub date: Option<Date>,
}

impl View for BibLaTeXCratesIO {
    type V = BibV;

    open spec fn view(&self) -> BibV {
        BibV {
            key: self.key@,
            work_type: self.work_type@,
            author: self.author@,
            title: self.title@,
            url: crate::cff::opt_view(self.url),
            license: crate::cff::opt_view(self.license),
            version: match self.version {
                Some(v) => Some(v@),
                None => None,
            },
            date: self.date,
        }
    }
}

/// A date rendered `YYYY-MM-DD`, zero-padded.
pub open spec fn spec_render_date(d: Date) -> Seq<char> {
    dec4(d.year as nat) + seq!['-'] + dec2(d.month as nat) + seq!['-'] + dec2(d.day as nat)
}

/// A semantic version rendered `major.minor.patch`, with `-pre` and
/// `+build` appended when present.
pub open spec fn spec_render_version(v: SemVerV) -> Seq<char> {
    dec_rep(v.major as nat) + seq!['.'] + dec_rep(v.minor as nat) + seq!['.'] + dec_rep(
        v.patch as nat,
    ) + (if v.pre.len() > 0 {
        seq!['-'] + v.pre
    } else {
        Seq::empty()
    }) + (if v.build.len() > 0 {
        seq!['+'] + v.build
    } else {
        Seq::empty()
    })
}

/// One rendered field line: four spaces, the name, ` = {`, the value,
/// `},` and a newline.
pub open spec fn field_line(name: Seq<char>, value: Seq<char>) -> Seq<char> {
    "    "@ + name + " = {"@ + value + "},\n"@
}

/// A field line for a present value, nothing for an absent one.
pub open spec fn opt_field_line(name: Seq<char>, value: Option<Seq<char>>) -> Seq<char> {
    match value {
        Some(v) => field_line(name, v),
        None => Seq::empty(),
    }
}

/// The whole rendered entry: the opening `@<work_type> {<key>,` line,
/// then `author`, `title`, `url`, `date`, `version` and `license` lines
/// in that order (absent optional fields are left out), then `}`.
pub open spec fn spec_render_bib(b: BibV) -> Seq<char> {
    "@"@ + b.work_type + " {"@ + b.key + ",\n"@ + field_line("author"@, b.author) + field_line(
        "title"@,
        b.title,
    ) + opt_field_line("url"@, b.url) + opt_field_line(
        "date"@,
        match b.date {
            Some(d) => Some(spec_render_date(d)),
            None => None,
        },
    ) + opt_field_line(
        "version"@,
        match b.version {
            Some(v) => Some(spec_render_version(v)),
            None => None,
        },
    ) + opt_field_line("license"@, b.license) + "}"@
}

fn append_field(s: &mut String, name: &str, value: &str)
    ensures
        final(s)@ == old(s)@ + field_line(name@, value@),
{
    s.append("    ");
    s.append(name);
    s.append(" = {");
    s.append(value);
    s.append("},\n");
    proof {
        assert(s@ =~= old(s)@ + field_line(name@, value@));
    }
}

/// The date, rendered `YYYY-MM-DD`.
pub fn render_date(d: &Date) -> (r: String)
    ensures
        r@ == spec_render_date(*d),
{
    let mut s = String::new();
    append_u64_pad4(&mut s, d.year);
    push_char(&mut s, '-');
    append_u64_pad2(&mut s, d.month);
    push_char(&mut s, '-');
    append_u64_pad2(&mut s, d.day);
    proof {
        assert(s@ =~= spec_render_date(*d));
    }
    s
}

/// The version, rendered `major.minor.patch[-pre][+build]`.
pub fn render_version(v: &SemVer) -> (r: String)
    ensures
        r@ == spec_render_version(v@),
{
    let mut s = String::new();
    append_u64(&mut s, v.major);
    push_char(&mut s, '.');
    append_u64(&mut s, v.minor);
    push_char(&mut s, '.');
    append_u64(&mut s, v.patch);
    if !v.pre.as_str().is_empty() {
        push_char(&mut s, '-');
        s.append(v.pre.as_str());
    }
    if !v.build.as_str().is_empty() {
        push_char(&mut s, '+');
        s.append(v.build.as_str());
    }
    proof {
        assert(s@ =~= spec_render_version(v@));
    }
    s
}

impl BibLaTeXCratesIO {
    /// The entry rendered as BibLaTeX text, with the fixed field order
    /// and punctuation of [`spec_render_bib`].
    pub fn to_biblatex_string(&self) -> (r: String)
        ensures
            r@ == spec_render_bib(self@),
    {
        let mut u = String::new();
        u.append("@");
        u.append(self.work_type.as_str());
        u.append(" {");
        u.append(self.key.as_str());
        u.append(",\n");
        let ghost head = "@"@ + self@.work_type + " {"@ + self@.key + ",\n"@;
        proof {
            assert(u@ =~= head);
        }
        append_field(&mut u, "author", self.author.as_str());
        append_field(&mut u, "title", self.title.as_str());
        let ghost with_title = head + field_line("author"@, self@.author) + field_line(
            "title"@,
            self@.title,
        );
        match &self.url {
            Some(x) => append_field(&mut u, "url", x.as_str()),
            None => {
                proof {
                    assert(u@ =~= with_title + opt_field_line("url"@, self@.url));
                }
            },
        }
        let ghost with_url = with_title + opt_field_line("url"@, self@.url);
        match &self.date {
            Some(d) => {
                let ds = render_date(d);
                append_field(&mut u, "date", ds.as_str());
            },
            None => {
                proof {
                    assert(u@ =~= with_url + opt_field_line("date"@, None::<Seq<char>>));
                }
            },
        }
        let ghost with_date = with_url + opt_field_line(
            "date"@,
            match self@.date {
                Some(d) => Some(spec_render_date(d)),
                None => None,
            },
        );
        match &self.version {
            Some(v) => {
                let vs = render_version(v);
                append_field(&mut u, "version", vs.as_str());
            },
            None => {
                proof {
                    assert(u@ =~= with_date + opt_field_line("version"@, None::<Seq<char>>));
                }
            },
        }
        let ghost with_version = with_date + opt_field_line(
            "version"@,
            match self@.version {
                Some(v) => Some(spec_render_version(v)),
                None => None,
            },
        );
        match &self.license {
            Some(l) => append_field(&mut u, "license", l.as_str()),
            None => {
                proof {
                    assert(u@ =~= with_version + opt_field_line("license"@, self@.license));
                }
            },
        }
        u.append("}");
        proof {
            assert(u@ =~= spec_render_bib(self@));
        }
        u
    }
}

/// One author rendered for the `author` field: an entity by its name, an
/// anonymous author as `Anonymous`, a person as
/// `<given> <particle> <family> <suffix>` with absent parts left out and
/// trailing blanks trimmed.
pub open spec fn spec_render_author(a: AuthorV) -> Seq<char> {
    match a.name {
        Some(n) => if n == "anonymous"@ {
            "Anonymous"@
        } else {
            n
        },
        None => trim_back(person_parts(a)),
    }
}

/// An optional name part followed by one space, or nothing.
pub open spec fn part_sp(o: Option<Seq<char>>) -> Seq<char> {
    match o {
        Some(x) => x + seq![' '],
        None => Seq::empty(),
    }
}

/// The space-joined parts of a person's name, before trimming.
pub open spec fn person_parts(a: AuthorV) -> Seq<char> {
    part_sp(a.given_names) + part_sp(a.name_particle) + part_sp(a.family_names) + (
    match a.name_suffix {
        Some(x) => x,
        None => Seq::empty(),
    })
}

/// All authors rendered in order, joined with `", "`.
pub open spec fn spec_render_authors(authors: Seq<AuthorV>) -> Seq<char>
    decreases authors.len(),
{
    if authors.len() == 0 {
        Seq::empty()
    } else if authors.len() == 1 {
        spec_render_author(authors[0])
    } else {
        spec_render_authors(authors.drop_last()) + ", "@ + spec_render_author(authors.last())
    }
}

/// The license field for a list of alternatives: absent for an empty
/// list, the single entry alone, and otherwise all but the last joined
/// with `", "`, then `" OR "`, then the last.
pub open spec fn spec_format_license(ls: Seq<Seq<char>>) -> Option<Seq<char>> {
    if ls.len() == 0 {
        None
    } else if ls.len() == 1 {
        Some(ls[0])
    } else {
        Some(comma_join(ls.drop_last()) + " OR "@ + ls.last())
    }
}

/// Sequences joined with `", "`.
pub open spec fn comma_join(ls: Seq<Seq<char>>) -> Seq<char>
    decreases ls.len(),
{
    if ls.len() == 0 {
        Seq::empty()
    } else if ls.len() == 1 {
        ls[0]
    } else {
        comma_join(ls.drop_last()) + ", "@ + ls.last()
    }
}

/// One author, rendered for the `author` field.
pub fn render_author(a: &Author) -> (r: String)
    ensures
        r@ == spec_render_author(a@),
{
    match &a.name {
        Some(n) => {
            if str_eq(n.as_str(), "anonymous") {
                let mut s = String::new();
                s.append("Anonymous");
                proof {
                    assert(s@ =~= "Anonymous"@);
                }
                s
            } else {
                n.clone()
            }
        },
        None => {
            let mut s = String::new();
            match &a.given_names {
                Some(x) => {
                    s.append(x.as_str());
                    push_char(&mut s, ' ');
                },
                None => {},
            }
            match &a.name_particle {
                Some(x) => {
                    s.append(x.as_str());
                    push_char(&mut s, ' ');
                },
                None => {},
            }
            match &a.family_names {
                Some(x) => {
                    s.append(x.as_str());
                    push_char(&mut s, ' ');
                },
                None => {},
            }
            match &a.name_suffix {
                Some(x) => {
                    s.append(x.as_str());
                },
                None => {},
            }
            proof {
                assert(s@ =~= person_parts(a@));
            }
            let cs = chars_of(s.as_str());
            let hi = trim_back_range(&cs, 0, cs.len());
            let r = string_from_range(&cs, 0, hi);
            proof {
                assert(cs@.subrange(0, cs@.len() as int) =~= cs@);
            }
            r
        },
    }
}

/// All authors of a record, rendered in order and joined with `", "`.
pub fn render_authors(authors: &Vec<Author>) -> (r: String)
    ensures
        r@ == spec_render_authors(authors.deep_view()),
{
    let ghost av = authors.deep_view();
    let mut r = String::new();
    let mut i: usize = 0;
    proof {
        assert(av.len() == authors@.len());
        assert(av.take(0) =~= Seq::<AuthorV>::empty());
    }
    while i < authors.len()
        invariant
            i <= authors@.len(),
            av == authors.deep_view(),
            av.len() == authors@.len(),
            r@ == spec_render_authors(av.take(i as int)),
        decreases authors@.len() - i,
    {
        proof {
            assert(av[i as int] == authors@[i as int]@);
            assert(av.take(i as int + 1).drop_last() =~= av.take(i as int));
            assert(av.take(i as int + 1).last() == av[i as int]);
        }
        if i > 0 {
            r.append(", ");
        }
        let one = render_author(&authors[i]);
        r.append(one.as_str());
        proof {
            if i == 0 {
                assert(r@ =~= spec_render_author(av[0]));
            }
        }
        i = i + 1;
    }
    proof {
        assert(av.take(authors@.len() as int) =~= av);
    }
    r
}

/// The license field for a list of alternatives, rendered per
/// [`spec_format_license`]: `None` for an empty list, the entry alone
/// for one, and otherwise a comma-joined list with `" OR "` before the
/// last entry.
pub fn format_license(ls: &Vec<String>) -> (r: Option<String>)
    ensures
        crate::cff::opt_view(r) == spec_format_license(ls.deep_view()),
{
    let ghost lv = ls.deep_view();
    proof {
        assert(lv.len() == ls@.len());
    }
    if ls.len() == 0 {
        return None;
    }
    proof {
        assert(lv[0] == ls@[0]@);
    }
    let mut r = ls[0].clone();
    proof {
        assert(lv.take(1) =~= seq![lv[0]]);
        assert(comma_join(lv.take(1)) == lv[0]);
    }
    let mut i: usize = 1;
    while i < ls.len() - 1
        invariant
            ls@.len() >= 1,
            1 <= i <= ls@.len(),
            i == 1 || i <= ls@.len() - 1,
            lv == ls.deep_view(),
            lv.len() == ls@.len(),
            r@ == comma_join(lv.take(i as int)),
        decreases ls@.len() - i,
    {
        proof {
            assert(lv[i as int] == ls@[i as int]@);
            assert(lv.take(i as int + 1).drop_last() =~= lv.take(i as int));
            assert(lv.take(i as int + 1).last() == lv[i as int]);
        }
        r.append(", ");
        r.append(ls[i].as_str());
        i = i + 1;
    }
    if ls.len() > 1 {
        proof {
            assert(lv[lv.len() - 1] == ls@[ls@.len() - 1]@);
            assert(lv.take(lv.len() - 1) =~= lv.drop_last());
        }
        r.append(" OR ");
        r.append(ls[ls.len() - 1].as_str());
    } else {
        proof {
            assert(lv.take(1) =~= lv);
        }
    }
    Some(r)
}

/// What the first author contributes to the citation key: an entity's
/// name, a person's family names; nothing for an anonymous author or a
/// person without family names.
pub open spec fn author_key_part(a: AuthorV) -> Option<Seq<char>> {
    match a.name {
        Some(n) => if n == "anonymous"@ {
            None
        } else {
            Some(n)
        },
        None => a.family_names,
    }
}

/// The citation key of a record read from a citation file: the first
/// author's key part, or else the title, or else nothing, followed by
/// the release year (empty without a release date).
pub open spec fn spec_cff_key(c: CitationCffV) -> Seq<char> {
    let base = if c.authors.len() > 0 && author_key_part(c.authors[0]) is Some {
        author_key_part(c.authors[0])->0
    } else {
        match c.title {
            Some(t) => t,
            None => Seq::empty(),
        }
    };
    base + (match c.date_released {
        Some(d) => dec4(d.year as nat),
        None => Seq::empty(),
    })
}

/// The first repository link of a citation record, in the priority order
/// `url`, `repository`, `repository-code`, `repository-artifact`.
pub open spec fn spec_cff_url(c: CitationCffV) -> Option<Seq<char>> {
    if c.url is Some {
        c.url
    } else if c.repository is Some {
        c.repository
    } else if c.repository_code is Some {
        c.repository_code
    } else {
        c.repository_artifact
    }
}

/// The title field of a record read from a citation file: the title in a
/// protecting brace pair, with the abstract after a colon when present.
pub open spec fn spec_cff_title(c: CitationCffV) -> Seq<char> {
    "{"@ + (match c.title {
        Some(t) => t,
        None => Seq::empty(),
    }) + "}"@ + (match c.abstract_text {
        Some(a) => ": "@ + a,
        None => Seq::empty(),
    })
}

/// The BibLaTeX work type name of a record: `dataset` for a dataset,
/// otherwise `software`.
pub open spec fn spec_cff_work_type(c: CitationCffV) -> Seq<char> {
    match c.work_type {
        Some(WorkType::Dataset) => "dataset"@,
        _ => "software"@,
    }
}

/// The entry that a parsed citation file denotes.
pub open spec fn spec_from_cff(c: CitationCffV) -> BibV {
    BibV {
        key: spec_cff_key(c),
        work_type: spec_cff_work_type(c),
        author: spec_render_authors(c.authors),
        title: spec_cff_title(c),
        url: spec_cff_url(c),
        license: spec_format_license(c.license),
        version: match c.version {
            Some(s) => parsed_version(s),
            None => None,
        },
        date: c.date_released,
    }
}

fn author_key_part_exec(a: &Author) -> (r: Option<String>)
    ensures
        crate::cff::opt_view(r) == author_key_part(a@),
{
    match &a.name {
        Some(n) => {
            if str_eq(n.as_str(), "anonymous") {
                None
            } else {
                Some(n.clone())
            }
        },
        None => match &a.family_names {
            Some(f) => Some(f.clone()),
            None => None,
        },
    }
}

impl BibLaTeXCratesIO {
    /// Builds the entry that a parsed citation file denotes: the key from
    /// the first author and the release year, the authors joined in
    /// order, the braced title with the abstract, the first repository
    /// link, the license alternatives, and the release version and date.
    /// Never fails.
    pub fn from_citation_cff(cff: &CitationCff) -> (r: Result<BibLaTeXCratesIO, Crate2BibError>)
        ensures
            r matches Ok(b) && b@ == spec_from_cff(cff@),
    {
        let mut key: String;
        let mut part: Option<String> = None;
        if cff.authors.len() > 0 {
            proof {
                assert(cff.authors.deep_view()[0] == cff.authors@[0]@);
            }
            part = author_key_part_exec(&cff.authors[0]);
        }
        match part {
            Some(p) => {
                key = p;
            },
            None => {
                match &cff.title {
                    Some(t) => {
                        key = t.clone();
                    },
                    None => {
                        key = String::new();
                    },
                }
            },
        }
        let ghost base = key@;
        match cff.date_released {
            Some(d) => {
                append_u64_pad4(&mut key, d.year);
            },
            None => {
                proof {
                    assert(base + Seq::<char>::empty() =~= base);
                }
            },
        }
        let mut work_type = String::new();
        match cff.work_type {
            Some(WorkType::Dataset) => {
                work_type.append("dataset");
                proof {
                    assert(work_type@ =~= "dataset"@);
                }
            },
            _ => {
                work_type.append("software");
                proof {
                    assert(work_type@ =~= "software"@);
                }
            },
        }
        let author = render_authors(&cff.authors);
        let mut title = String::new();
        title.append("{");
        match &cff.title {
            Some(t) => title.append(t.as_str()),
            None => {
                proof {
                    assert(Seq::<char>::empty() + "{"@ + Seq::<char>::empty() =~= Seq::<
                        char,
                    >::empty() + "{"@);
                }
            },
        }
        title.append("}");
        match &cff.abstract_text {
            Some(a) => {
                title.append(": ");
                title.append(a.as_str());
            },
            None => {},
        }
        proof {
            assert(title@ =~= spec_cff_title(cff@));
        }
        let url: Option<String> = if cff.url.is_some() {
            match &cff.url {
                Some(u) => Some(u.clone()),
                None => None,
            }
        } else if cff.repository.is_some() {
            match &cff.repository {
                Some(u) => Some(u.clone()),
                None => None,
            }
        } else if cff.repository_code.is_some() {
            match &cff.repository_code {
                Some(u) => Some(u.clone()),
                None => None,
            }
        } else {
            match &cff.repository_artifact {
                Some(u) => Some(u.clone()),
                None => None,
            }
        };
        let license = format_license(&cff.license);
        let version: Option<SemVer> = match &cff.version {
            Some(s) => parse_version(s.as_str()),
            None => None,
        };
        let b = BibLaTeXCratesIO {
            key,
            work_type,
            author,
            title,
            url,
            license,
            version,
            date: cff.date_released,
        };
        proof {
            assert(b@ =~= spec_from_cff(cff@));
        }
        Ok(b)
    }
}

} // verus!
