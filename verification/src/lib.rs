//! Resolve a crate's published metadata and produce a BibLaTeX citation
//! record, preferring an author-supplied `CITATION.cff` file in the crate's
//! source repository over metadata inferred from the registry.
//!
//! The pipeline is pure: version matching against a semantic-version
//! constraint, building a record from registry metadata, probing decisions
//! for the repository scan, parsing of the CFF citation format, and
//! deterministic formatting of the final record. Network transport stays
//! outside; callers hand the pipeline the fetched values.
use vstd::prelude::*;

pub mod text;
pub mod bib;
pub mod cff;
pub mod crates_io;
pub mod github;
pub mod version;

verus! {

/// The errors of the citation pipeline.
///
/// Each variant carries a human-readable message.
#[derive(Debug, Clone)]
pub enum Crate2BibError {
    /// No version matching the constraint, or the package is unknown.
    NotFound(String),
    /// A citation file's content could not be parsed.
    Parse(String),
    /// A transport failure, reported by the caller's network layer.
    Network(String),
    /// A malformed constraint string or header value.
    Config(String),
}

impl Crate2BibError {
    /// The message carried by the error, whatever its variant.
    pub fn message(&self) -> (r: &String)
        ensures
            r@ == self.spec_message(),
    {
        match self {
            Crate2BibError::NotFound(m) => m,
            Crate2BibError::Parse(m) => m,
            Crate2BibError::Network(m) => m,
            Crate2BibError::Config(m) => m,
        }
    }

    /// The message carried by the error, at the specification level.
    pub open spec fn spec_message(&self) -> Seq<char> {
        match self {
            Crate2BibError::NotFound(m) => m@,
            Crate2BibError::Parse(m) => m@,
            Crate2BibError::Network(m) => m@,
            Crate2BibError::Config(m) => m@,
        }
    }
}

/// A raw bibliography file carried through unchanged, with where it came
/// from.
#[derive(Clone, Debug)]
pub struct PlainBibLaTeX {
    /// The file's text, passed through verbatim.
    pub bibliography: String,
    /// The repository the file was found in.
    pub repository: String,
    /// The candidate filename that matched.
    pub filename: String,
}

/// One citation file found in a repository: its name and its content.
#[derive(Clone, Debug)]
pub struct ScannedFile {
    pub filename: String,
    pub content: String,
}

/// A bibliographic entry with its provenance: built from the registry's
/// metadata, built from a citation file found in the repository, or a raw
/// bibliography file passed through verbatim.
#[derive(Clone, Debug)]
pub enum BibLaTeX {
    CratesIO(crate::bib::BibLaTeXCratesIO),
    CITATIONCFF(crate::bib::BibLaTeXCratesIO),
    Plain(PlainBibLaTeX),
}

/// The mathematical value of a [`BibLaTeX`].
#[verifier::ext_equal]
pub ghost enum BibLaTeXV {
    CratesIO(crate::bib::BibV),
    CITATIONCFF(crate::bib::BibV),
    Plain { bibliography: Seq<char>, repository: Seq<char>, filename: Seq<char> },
}

impl View for BibLaTeX {
    type V = BibLaTeXV;

    open spec fn view(&self) -> BibLaTeXV {
        match self {
            BibLaTeX::CratesIO(b) => BibLaTeXV::CratesIO(b@),
            BibLaTeX::CITATIONCFF(b) => BibLaTeXV::CITATIONCFF(b@),
            BibLaTeX::Plain(p) => BibLaTeXV::Plain {
                bibliography: p.bibliography@,
                repository: p.repository@,
                filename: p.filename@,
            },
        }
    }
}

impl DeepView for BibLaTeX {
    type V = BibLaTeXV;

    open spec fn deep_view(&self) -> BibLaTeXV {
        self.view()
    }
}

/// The rendered text of an entry: the fixed BibLaTeX form for an entry
/// built from the registry or from a citation file, the stored text
/// verbatim for a raw bibliography.
pub open spec fn spec_render_entry(e: BibLaTeXV) -> Seq<char> {
    match e {
        BibLaTeXV::CratesIO(b) => crate::bib::spec_render_bib(b),
        BibLaTeXV::CITATIONCFF(b) => crate::bib::spec_render_bib(b),
        BibLaTeXV::Plain { bibliography, .. } => bibliography,
    }
}

impl BibLaTeX {
    /// The entry rendered as BibLaTeX text.
    pub fn to_biblatex_string(&self) -> (r: String)
        ensures
            r@ == spec_render_entry(self@),
    {
        match self {
            BibLaTeX::CratesIO(b) => b.to_biblatex_string(),
            BibLaTeX::CITATIONCFF(b) => b.to_biblatex_string(),
            BibLaTeX::Plain(p) => p.bibliography.clone(),
        }
    }
}

/// The repository field of a raw-bibliography entry: the registry's
/// repository link, or empty when it names none.
pub open spec fn spec_plain_repository(info: crate::crates_io::CrateInfoV) -> Seq<char> {
    match info.repository {
        Some(u) => u,
        None => Seq::empty(),
    }
}

/// Resolves the entries for `crate_name` from values the caller fetched:
/// the registry's report `info`, and the outcome of the repository scan
/// (`None` when the repository was unrecognized, unreachable, or held no
/// candidate file).
///
/// The first entry always comes from the registry, for the best version
/// satisfying `version`. When a citation file was found, a second entry
/// follows it: parsed and rebuilt for a CFF file, passed through verbatim
/// for any other bibliography file. A malformed constraint fails with
/// `Config`, no matching version with `NotFound`, and an unreadable CFF
/// file with `Parse`; a missing second entry is never an error.
pub fn get_biblatex(
    crate_name: &str,
    version: Option<&str>,
    info: &crate::crates_io::CrateInfo,
    scanned: Option<&ScannedFile>,
) -> (r: Result<Vec<BibLaTeX>, Crate2BibError>)
    ensures
        match r {
            Ok(rs) => {
                &&& crate::version::constraint_ok(crate::version::constraint_view(version))
                &&& crate::version::spec_select(
                    crate::version::constraint_view(version),
                    crate::crates_io::nums_of(info@.versions),
                ) matches Some(i) && rs.deep_view()[0] == BibLaTeXV::CratesIO(
                    crate::crates_io::spec_registry_record(crate_name@, info@, i),
                )
                &&& match scanned {
                    None => rs.deep_view().len() == 1,
                    Some(f) => {
                        &&& rs.deep_view().len() == 2
                        &&& if crate::github::spec_is_cff_filename(f.filename@) {
                            crate::cff::spec_parse(f.content@) matches Some(c) && rs.deep_view()[1]
                                == BibLaTeXV::CITATIONCFF(crate::bib::spec_from_cff(c))
                        } else {
                            rs.deep_view()[1] == (BibLaTeXV::Plain {
                                bibliography: f.content@,
                                repository: spec_plain_repository(info@),
                                filename: f.filename@,
                            })
                        }
                    },
                }
            },
            Err(e) => match e {
                Crate2BibError::Config(m) => {
                    &&& !crate::version::constraint_ok(crate::version::constraint_view(version))
                    &&& crate::version::constraint_view(version) matches Some(cs) && m@
                        == crate::version::bad_constraint_message(cs)
                },
                Crate2BibError::NotFound(m) => {
                    &&& crate::version::constraint_ok(crate::version::constraint_view(version))
                    &&& crate::version::spec_select(
                        crate::version::constraint_view(version),
                        crate::crates_io::nums_of(info@.versions),
                    ) is None
                    &&& m@ == crate::version::not_found_message(
                        crate_name@,
                        crate::version::constraint_view(version),
                    )
                },
                Crate2BibError::Parse(_) => {
                    &&& crate::version::constraint_ok(crate::version::constraint_view(version))
                    &&& crate::version::spec_select(
                        crate::version::constraint_view(version),
                        crate::crates_io::nums_of(info@.versions),
                    ) is Some
                    &&& scanned matches Some(f) && crate::github::spec_is_cff_filename(f.filename@)
                        && crate::cff::spec_parse(f.content@) is None
                },
                _ => false,
            },
        },
{
    let first = match crate::crates_io::crates_io_generate_biblatex(crate_name, version, info) {
        Ok(b) => b,
        Err(e) => {
            return Err(e);
        },
    };
    let mut results: Vec<BibLaTeX> = Vec::new();
    results.push(BibLaTeX::CratesIO(first));
    match scanned {
        None => {},
        Some(f) => {
            if crate::github::is_cff_filename(f.filename.as_str()) {
                let parsed = match crate::cff::CitationCff::parse(f.content.as_str()) {
                    Ok(c) => c,
                    Err(e) => {
                        return Err(e);
                    },
                };
                match crate::bib::BibLaTeXCratesIO::from_citation_cff(&parsed) {
                    Ok(b) => {
                        results.push(BibLaTeX::CITATIONCFF(b));
                    },
                    Err(e) => {
                        return Err(e);
                    },
                }
            } else {
                let repo: String = match &info.repository {
                    Some(u) => u.clone(),
                    None => String::new(),
                };
                results.push(
                    BibLaTeX::Plain(
                        PlainBibLaTeX {
                            bibliography: f.content.clone(),
                            repository: repo,
                            filename: f.filename.clone(),
                        },
                    ),
                );
            }
        },
    }
    Ok(results)
}

} // verus!
