//! # Icons
//!
//! Manifest definition for icon packs

use crate::report::{
    conclude,
    extends,
    join_key,
    key,
    lemma_extends_chain,
    non_empty_findings,
    path_steps,
    report_entries,
    require_non_empty,
    Finding,
    Step,
};
use crate::validation::{id_fault, id_findings, report_id};
use vstd::prelude::*;

verus! {

/// Unique ID for an icon pack
///
/// Uses reverse domain syntax (i.e com.example.my-pack)
#[derive(Debug, Clone, Hash, PartialEq, Eq, PartialOrd, Ord)]
pub struct IconPackId(pub String);

impl View for IconPackId {
    type V = Seq<char>;

    open spec fn view(&self) -> Seq<char> {
        self.0@
    }
}

impl IconPackId {
    /// Whether the identifier keeps the identifier grammar.
    pub open spec fn valid(&self) -> bool {
        id_fault(self@) is None
    }

    /// Get the inner icon pack ID as a [str] slice
    pub fn as_str(&self) -> (s: &str)
        ensures
            s@ == self@,
    {
        self.0.as_str()
    }

    /// The identifier as an owned string.
    pub fn to_string(&self) -> (s: String)
        ensures
            s@ == self@,
    {
        self.0.clone()
    }

    /// Checks the identifier and adds what is wrong with it to `report`, at
    /// the path `parent`.
    pub fn validate_into(&self, parent: &garde::Path, report: &mut garde::Report)
        ensures
            extends(
                report_entries(*old(report)),
                report_entries(*final(report)),
                id_findings(self@, path_steps(*parent)),
            ),
    {
        report_id(self.0.as_str(), parent.clone(), report);
    }

    /// Checks the identifier on its own: the report of a failure holds one
    /// entry, at the empty path.
    pub fn validate(&self) -> (res: Result<(), garde::Report>)
        ensures
            res is Ok <==> self.valid(),
            res matches Err(report) ==> extends(
                Seq::empty(),
                report_entries(report),
                id_findings(self@, Seq::empty()),
            ),
    {
        let mut report = garde::Report::new();
        self.validate_into(&garde::Path::empty(), &mut report);
        conclude(report)
    }

    /// Makes an identifier of a text that keeps the grammar, and fails on
    /// any other text.
    pub fn from_str(s: &str) -> (res: Result<IconPackId, garde::Report>)
        ensures
            res is Ok <==> id_fault(s@) is None,
            res matches Ok(id) ==> id@ == s@ && id.valid(),
            res matches Err(report) ==> extends(
                Seq::empty(),
                report_entries(report),
                id_findings(s@, Seq::empty()),
            ),
    {
        let value = IconPackId(s.to_owned());
        match value.validate() {
            Ok(_) => Ok(value),
            Err(report) => Err(report),
        }
    }

    /// As `from_str`, for an owned string.
    pub fn try_from(value: String) -> (res: Result<IconPackId, garde::Report>)
        ensures
            res is Ok <==> id_fault(value@) is None,
            res matches Ok(id) ==> id@ == value@ && id.valid(),
            res matches Err(report) ==> extends(
                Seq::empty(),
                report_entries(report),
                id_findings(value@, Seq::empty()),
            ),
    {
        IconPackId::from_str(value.as_str())
    }
}

impl std::str::FromStr for IconPackId {
    type Err = garde::Report;

    fn from_str(s: &str) -> (res: Result<Self, Self::Err>)
        ensures
            res is Ok <==> id_fault(s@) is None,
            res matches Ok(id) ==> id@ == s@ && id.valid(),
            res matches Err(report) ==> extends(
                Seq::empty(),
                report_entries(report),
                id_findings(s@, Seq::empty()),
            ),
    {
        IconPackId::from_str(s)
    }
}

impl AsRef<str> for IconPackId {
    fn as_ref(&self) -> (s: &str)
        ensures
            s@ == self@,
    {
        self.as_str()
    }
}

/// Icon within an icon collection
#[derive(Debug, Clone)]
pub struct Icon {
    /// Path to the icon file
    pub path: String,
    /// Name of the icon
    pub name: String,
}

impl Icon {
    /// What validation finds in an icon that stands at `parent`: an empty
    /// path, then an empty name.
    pub open spec fn findings(&self, parent: Seq<Step>) -> Seq<Finding> {
        non_empty_findings(self.path@, parent.push(key("path"@))) + non_empty_findings(
            self.name@,
            parent.push(key("name"@)),
        )
    }

    /// Adds what validation finds to `report`, under the path `parent`.
    pub fn validate_into(&self, parent: &garde::Path, report: &mut garde::Report)
        ensures
            extends(
                report_entries(*old(report)),
                report_entries(*final(report)),
                self.findings(path_steps(*parent)),
            ),
    {
        let ghost start = report_entries(*report);
        require_non_empty(&self.path, join_key(parent, "path"), report);
        let ghost middle = report_entries(*report);
        require_non_empty(&self.name, join_key(parent, "name"), report);
        proof {
            lemma_extends_chain(
                start,
                middle,
                report_entries(*report),
                non_empty_findings(self.path@, path_steps(*parent).push(key("path"@))),
                non_empty_findings(self.name@, path_steps(*parent).push(key("name"@))),
            );
        }
    }

    /// Validates the icon: `Ok` when nothing is wrong, else the report of
    /// everything that is.
    pub fn validate(&self) -> (res: Result<(), garde::Report>)
        ensures
            res is Ok <==> self.findings(Seq::empty()).len() == 0,
            res matches Err(report) ==> extends(
                Seq::empty(),
                report_entries(report),
                self.findings(Seq::empty()),
            ),
    {
        let mut report = garde::Report::new();
        self.validate_into(&garde::Path::empty(), &mut report);
        conclude(report)
    }
}

/// Icon pack details for the pack
#[derive(Debug, Clone)]
pub struct MIconPack {
    /// Unique ID of the icon pack (e.g com.jacobtread.tilepad.obs)
    pub id: IconPackId,
    /// Name of the icon pack
    pub name: String,
    /// Version of the icon pack, semver compatible version number
    pub version: String,
    /// List of authors for the pack
    pub authors: Vec<String>,
    /// Description of the pack
    pub description: Option<String>,
    /// Icon for the pack
    pub icon: Option<String>,
}

impl MIconPack {
    /// What validation finds in a pack that stands at `parent`: a broken
    /// identifier, an empty name, an empty version, in this order. The other
    /// fields are under no rule.
    pub open spec fn findings(&self, parent: Seq<Step>) -> Seq<Finding> {
        id_findings(self.id@, parent.push(key("id"@))) + non_empty_findings(
            self.name@,
            parent.push(key("name"@)),
        ) + non_empty_findings(self.version@, parent.push(key("version"@)))
    }

    /// Adds what validation finds to `report`, under the path `parent`.
    pub fn validate_into(&self, parent: &garde::Path, report: &mut garde::Report)
        ensures
            extends(
                report_entries(*old(report)),
                report_entries(*final(report)),
                self.findings(path_steps(*parent)),
            ),
    {
        let ghost here = path_steps(*parent);
        let ghost e0 = report_entries(*report);
        self.id.validate_into(&join_key(parent, "id"), report);
        let ghost e1 = report_entries(*report);
        require_non_empty(&self.name, join_key(parent, "name"), report);
        let ghost e2 = report_entries(*report);
        require_non_empty(&self.version, join_key(parent, "version"), report);
        proof {
            let f0 = id_findings(self.id@, here.push(key("id"@)));
            let f1 = non_empty_findings(self.name@, here.push(key("name"@)));
            let f2 = non_empty_findings(self.version@, here.push(key("version"@)));
            lemma_extends_chain(e0, e1, e2, f0, f1);
            lemma_extends_chain(e0, e2, report_entries(*report), f0 + f1, f2);
        }
    }

    /// Validates the pack: `Ok` when nothing is wrong, else the report of
    /// everything that is. A pack that passes has a valid identifier.
    pub fn validate(&self) -> (res: Result<(), garde::Report>)
        ensures
            res is Ok <==> self.findings(Seq::empty()).len() == 0,
            res is Ok ==> self.id.valid(),
            res matches Err(report) ==> extends(
                Seq::empty(),
                report_entries(report),
                self.findings(Seq::empty()),
            ),
    {
        let mut report = garde::Report::new();
        self.validate_into(&garde::Path::empty(), &mut report);
        conclude(report)
    }
}

/// Manifest for an icon pack
#[derive(Debug, Clone)]
pub struct IconsManifest {
    /// Definition for the icon pack details
    pub icons: MIconPack,
}

impl IconsManifest {
    /// What validation finds in the manifest: what it finds in the pack,
    /// under `icons`.
    pub open spec fn findings(&self, parent: Seq<Step>) -> Seq<Finding> {
        self.icons.findings(parent.push(key("icons"@)))
    }

    /// Adds what validation finds to `report`, under the path `parent`.
    pub fn validate_into(&self, parent: &garde::Path, report: &mut garde::Report)
        ensures
            extends(
                report_entries(*old(report)),
                report_entries(*final(report)),
                self.findings(path_steps(*parent)),
            ),
    {
        self.icons.validate_into(&join_key(parent, "icons"), report);
    }

    /// Validates the manifest: `Ok` when nothing is wrong, else the report
    /// of everything that is. A manifest that passes has a valid identifier.
    pub fn validate(&self) -> (res: Result<(), garde::Report>)
        ensures
            res is Ok <==> self.findings(Seq::empty()).len() == 0,
            res is Ok ==> self.icons.id.valid(),
            res matches Err(report) ==> extends(
                Seq::empty(),
                report_entries(report),
                self.findings(Seq::empty()),
            ),
    {
        let mut report = garde::Report::new();
        self.validate_into(&garde::Path::empty(), &mut report);
        conclude(report)
    }
}

impl IconsManifest {
    /// Hands the manifest back, unchanged, when validation finds nothing in
    /// it, and the report of everything that is wrong when it finds
    /// something. A manifest that comes back holds no identifier that fails
    /// its grammar.
    pub fn validated(self) -> (res: Result<IconsManifest, garde::Report>)
        ensures
            res is Ok <==> self.findings(Seq::empty()).len() == 0,
            res matches Ok(manifest) ==> manifest == self,
            res matches Ok(manifest) ==> id_fault(manifest.icons.id@) is None,
            res matches Err(report) ==> extends(
                Seq::empty(),
                report_entries(report),
                self.findings(Seq::empty()),
            ),
    {
        match self.validate() {
            Ok(_) => Ok(self),
            Err(report) => Err(report),
        }
    }
}

/// Reading a valid identifier back from its own text succeeds and gives an
/// identifier with the same text: nothing is normalised on the way.
pub proof fn law_icon_pack_id_round_trip(
    id: IconPackId,
    text: &str,
    again: Result<IconPackId, garde::Report>,
)
    requires
        id.valid(),
        call_ensures(IconPackId::as_str, (&id,), text),
        call_ensures(IconPackId::from_str, (text,), again),
    ensures
        again matches Ok(same) && same@ == id@ && same.valid(),
{
}

} // verus!
