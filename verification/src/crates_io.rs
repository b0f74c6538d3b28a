//! Building a BibLaTeX entry from what the package registry reports: the
//! published versions with their publishers, licenses and dates, the
//! package description and its repository link. The registry lookup
//! itself is the caller's collaborator; this module works on the fetched
//! values.
use vstd::prelude::*;
use vstd::string::StringExecFns;

use crate::bib::{BibLaTeXCratesIO, BibV};
use crate::cff::{opt_view, Date};
use crate::text::{append_u64_pad4, chars_of, dec4, spec_split, split_vec, string_from_range};
use crate::version::{constraint_ok, constraint_view, select_version, spec_select, ver_of, SemVer};
use crate::Crate2BibError;

verus! {

/// The account that published a version: its display name, when set, and
/// its login.
#[derive(Clone, Debug)]
pub struct Publisher {
    pub name: Option<String>,
    pub login: String,
}

/// The mathematical value of a [`Publisher`].
#[verifier::ext_equal]
pub ghost struct PublisherV {
    pub name: Option<Seq<char>>,
    pub login: Seq<char>,
}

impl View for Publisher {
    type V = PublisherV;

    open spec fn view(&self) -> PublisherV {
        PublisherV { name: opt_view(self.name), login: self.login@ }
    }
}

/// One published version as the registry lists it.
#[derive(Clone, Debug)]
pub struct RegistryVersion {
    /// The raw version string, not necessarily a valid semantic version.
    pub num: String,
    pub published_by: Option<Publisher>,
    pub license: Option<String>,
    /// When this version was last updated.
    pub updated_at: Date,
}

/// The mathematical value of a [`RegistryVersion`].
#[verifier::ext_equal]
pub ghost struct RegistryVersionV {
    pub num: Seq<char>,
    pub published_by: Option<PublisherV>,
    pub license: Option<Seq<char>>,
    pub updated_at: Date,
}

impl View for RegistryVersion {
    type V = RegistryVersionV;

    open spec fn view(&self) -> RegistryVersionV {
        RegistryVersionV {
            num: self.num@,
            published_by: match self.published_by {
                Some(p) => Some(p@),
                None => None,
            },
            license: opt_view(self.license),
            updated_at: self.updated_at,
        }
    }
}

impl DeepView for RegistryVersion {
    type V = RegistryVersionV;

    open spec fn deep_view(&self) -> RegistryVersionV {
        self.view()
    }
}

/// What the registry reports for one package.
#[derive(Clone, Debug)]
pub struct CrateInfo {
    pub description: Option<String>,
    /// The package's repository link, when it names one.
    pub repository: Option<String>,
    /// When the package itself was last updated.
    pub updated_at: Date,
    /// The published versions, in the registry's order.
    pub versions: Vec<RegistryVersion>,
}

/// The mathematical value of a [`CrateInfo`].
#[verifier::ext_equal]
pub ghost struct CrateInfoV {
    pub description: Option<Seq<char>>,
    pub repository: Option<Seq<char>>,
    pub updated_at: Date,
    pub versions: Seq<RegistryVersionV>,
}

impl View for CrateInfo {
    type V = CrateInfoV;

    open spec fn view(&self) -> CrateInfoV {
        CrateInfoV {
            description: opt_view(self.description),
            repository: opt_view(self.repository),
            updated_at: self.updated_at,
            versions: self.versions.deep_view(),
        }
    }
}

/// The raw version strings of the listed versions, in order.
pub open spec fn nums_of(vs: Seq<RegistryVersionV>) -> Seq<Seq<char>> {
    Seq::new(vs.len(), |i: int| vs[i].num)
}

/// The citation key of a registry entry: the second space-separated word
/// of the publisher's display name — usually the family name — or the
/// package name when there is none, followed by the year the package was
/// last updated.
pub open spec fn spec_registry_key(name: Seq<char>, v: RegistryVersionV, info: CrateInfoV) -> Seq<
    char,
> {
    let base = match v.published_by {
        Some(p) => match p.name {
            Some(n) => {
                let parts = spec_split(n, ' ');
                if parts.len() > 1 {
                    parts[1]
                } else {
                    name
                }
            },
            None => name,
        },
        None => name,
    };
    base + dec4(info.updated_at.year as nat)
}

/// The author field of a registry entry: the publisher's display name,
/// its login when no name is set, empty when the publisher is unknown.
pub open spec fn spec_registry_author(v: RegistryVersionV) -> Seq<char> {
    match v.published_by {
        Some(p) => match p.name {
            Some(n) => n,
            None => p.login,
        },
        None => Seq::empty(),
    }
}

/// The title of a registry entry: the braced package name, with the
/// description after a colon when the registry carries one.
pub open spec fn spec_registry_title(name: Seq<char>, info: CrateInfoV) -> Seq<char> {
    "{"@ + name + "}"@ + (match info.description {
        Some(d) => ": "@ + d,
        None => Seq::empty(),
    })
}

/// The entry built from the registry data for the selected version `i`.
pub open spec fn spec_registry_record(name: Seq<char>, info: CrateInfoV, i: int) -> BibV {
    BibV {
        key: spec_registry_key(name, info.versions[i], info),
        work_type: "software"@,
        author: spec_registry_author(info.versions[i]),
        title: spec_registry_title(name, info),
        url: info.repository,
        license: info.versions[i].license,
        version: Some(ver_of(nums_of(info.versions), i)),
        date: Some(info.versions[i].updated_at),
    }
}

/// Builds the BibLaTeX entry for `crate_name` from the registry's data,
/// for the best version satisfying `version` (the highest-precedence one;
/// any version when no constraint is given). Versions whose raw string is
/// not a valid semantic version are skipped. Fails with `Config` on a
/// malformed constraint and with `NotFound` when no listed version
/// satisfies the constraint.
pub fn crates_io_generate_biblatex(
    crate_name: &str,
    version: Option<&str>,
    info: &CrateInfo,
) -> (r: Result<BibLaTeXCratesIO, Crate2BibError>)
    ensures
        match r {
            Ok(b) => {
                &&& constraint_ok(constraint_view(version))
                &&& spec_select(constraint_view(version), nums_of(info@.versions)) matches Some(i)
                    && b@ == spec_registry_record(crate_name@, info@, i)
            },
            Err(e) => match e {
                Crate2BibError::Config(m) => {
                    &&& !constraint_ok(constraint_view(version))
                    &&& constraint_view(version) matches Some(cs) && m@
                        == crate::version::bad_constraint_message(cs)
                },
                Crate2BibError::NotFound(m) => {
                    &&& constraint_ok(constraint_view(version))
                    &&& spec_select(constraint_view(version), nums_of(info@.versions)) is None
                    &&& m@ == crate::version::not_found_message(
                        crate_name@,
                        constraint_view(version),
                    )
                },
                _ => false,
            },
        },
{
    let ghost vv = info@.versions;
    let mut nums: Vec<String> = Vec::new();
    let mut i: usize = 0;
    proof {
        assert(vv.len() == info.versions@.len());
        assert(nums.deep_view() =~= nums_of(vv).take(0));
    }
    while i < info.versions.len()
        invariant
            i <= info.versions@.len(),
            vv == info@.versions,
            vv.len() == info.versions@.len(),
            nums.deep_view() == nums_of(vv).take(i as int),
        decreases info.versions@.len() - i,
    {
        let ghost dv0 = nums.deep_view();
        proof {
            assert(vv[i as int] == info.versions@[i as int]@);
        }
        nums.push(info.versions[i].num.clone());
        proof {
            assert(nums.deep_view() =~~= dv0.push(vv[i as int].num));
            assert(dv0.push(vv[i as int].num) =~= nums_of(vv).take(i as int + 1));
        }
        i = i + 1;
    }
    proof {
        assert(nums_of(vv).take(vv.len() as int) =~= nums_of(vv));
    }
    let selected = select_version(crate_name, version, &nums);
    let (idx, ver): (usize, SemVer) = match selected {
        Ok(p) => p,
        Err(e) => {
            return Err(e);
        },
    };
    proof {
        crate::version::lemma_select_max(constraint_view(version), nums_of(vv));
        assert(vv[idx as int] == info.versions@[idx as int]@);
    }
    let rv = &info.versions[idx];
    let mut key: String;
    match &rv.published_by {
        Some(p) => {
            match &p.name {
                Some(n) => {
                    let ncs = chars_of(n.as_str());
                    let parts = split_vec(&ncs, ' ');
                    if parts.len() > 1 {
                        proof {
                            assert(parts.deep_view()[1] == parts@[1]@);
                        }
                        key = string_from_range(&parts[1], 0, parts[1].len());
                        proof {
                            assert(parts@[1]@.subrange(0, parts@[1]@.len() as int) =~= parts@[1]@);
                        }
                    } else {
                        key = String::from_str(crate_name);
                    }
                },
                None => {
                    key = String::from_str(crate_name);
                },
            }
        },
        None => {
            key = String::from_str(crate_name);
        },
    }
    append_u64_pad4(&mut key, info.updated_at.year);
    let mut work_type = String::new();
    work_type.append("software");
    proof {
        assert(work_type@ =~= "software"@);
    }
    let author: String = match &rv.published_by {
        Some(p) => match &p.name {
            Some(n) => n.clone(),
            None => p.login.clone(),
        },
        None => String::new(),
    };
    let mut title = String::new();
    title.append("{");
    title.append(crate_name);
    title.append("}");
    match &info.description {
        Some(d) => {
            title.append(": ");
            title.append(d.as_str());
        },
        None => {},
    }
    proof {
        assert(title@ =~= spec_registry_title(crate_name@, info@));
    }
    let url: Option<String> = match &info.repository {
        Some(u) => Some(u.clone()),
        None => None,
    };
    let license: Option<String> = match &rv.license {
        Some(l) => Some(l.clone()),
        None => None,
    };
    let b = BibLaTeXCratesIO {
        key,
        work_type,
        author,
        title,
        url,
        license,
        version: Some(ver),
        date: Some(rv.updated_at),
    };
    proof {
        assert(b@ =~= spec_registry_record(crate_name@, info@, idx as int));
    }
    Ok(b)
}

} // verus!
