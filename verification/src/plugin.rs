//! # Plugin
//!
//! Manifest definition for plugins

use crate::report::{
    conclude,
    extends,
    join_index,
    join_key,
    join_unkeyed,
    key,
    index,
    lemma_extends_chain,
    lemma_extends_nothing,
    non_empty_findings,
    path_steps,
    report_entries,
    require_all_non_empty,
    require_non_empty,
    texts_findings,
    unkeyed,
    Finding,
    Step,
};
use crate::system::{arch_of, os_named, platform_arch, platform_os, Arch, OperatingSystem};
use crate::color::{accepted, color, decides, normalized};
use crate::validation::{
    color_findings,
    id_fault,
    id_findings,
    name_fault,
    name_findings,
    report_color,
    report_id,
    report_name,
};
use indexmap::IndexMap;
use vstd::prelude::*;

verus! {

/// `indexmap::IndexMap`, a map that keeps its entries in the order in which
/// they were put in.
#[verifier::external_type_specification]
#[verifier::external_body]
#[verifier::reject_recursive_types(K)]
#[verifier::reject_recursive_types(V)]
#[verifier::reject_recursive_types(S)]
pub struct ExIndexMap<K, V, S>(IndexMap<K, V, S>);

/// `node_semver::Range`, a range of versions.
#[verifier::external_type_specification]
#[verifier::external_body]
pub struct ExRange(node_semver::Range);

/// A clone of a version range is the same range.
pub assume_specification[ <node_semver::Range as Clone>::clone ](
    range: &node_semver::Range,
) -> (copy: node_semver::Range)
    ensures
        copy == *range,
;

/// Unique ID for a plugin
///
/// Uses reverse domain syntax (i.e com.example.my-plugin)
#[derive(Debug, Clone, Hash, PartialEq, Eq, PartialOrd, Ord)]
pub struct PluginId(pub String);

impl View for PluginId {
    type V = Seq<char>;

    open spec fn view(&self) -> Seq<char> {
        self.0@
    }
}

impl PluginId {
    /// Whether the identifier keeps the identifier grammar.
    pub open spec fn valid(&self) -> bool {
        id_fault(self@) is None
    }

    /// The text of the identifier.
    pub fn as_str(&self) -> (s: &str)
        ensures
            s@ == self@,
    {
        self.0.as_str()
    }

    /// The identifier as an owned string.
    pub fn to_string(&self) -> (s: String)
        ensures
            s@ == self@,
    {
        self.0.clone()
    }

    /// Checks the identifier and adds what is wrong with it to `report`, at
    /// the path `parent`.
    pub fn validate_into(&self, parent: &garde::Path, report: &mut garde::Report)
        ensures
            extends(
                report_entries(*old(report)),
                report_entries(*final(report)),
                id_findings(self@, path_steps(*parent)),
            ),
    {
        report_id(self.0.as_str(), parent.clone(), report);
    }

    /// Checks the identifier on its own: the report of a failure holds one
    /// entry, at the empty path.
    pub fn validate(&self) -> (res: Result<(), garde::Report>)
        ensures
            res is Ok <==> self.valid(),
            res matches Err(report) ==> extends(
                Seq::empty(),
                report_entries(report),
                id_findings(self@, Seq::empty()),
            ),
    {
        let mut report = garde::Report::new();
        self.validate_into(&garde::Path::empty(), &mut report);
        conclude(report)
    }

    /// Makes an identifier of a text that keeps the grammar, and fails on
    /// any other text.
    pub fn from_str(s: &str) -> (res: Result<PluginId, garde::Report>)
        ensures
            res is Ok <==> id_fault(s@) is None,
            res matches Ok(id) ==> id@ == s@ && id.valid(),
            res matches Err(report) ==> extends(
                Seq::empty(),
                report_entries(report),
                id_findings(s@, Seq::empty()),
            ),
    {
        let value = PluginId(s.to_owned());
        match value.validate() {
            Ok(_) => Ok(value),
            Err(report) => Err(report),
        }
    }

    /// As `from_str`, for an owned string.
    pub fn try_from(value: String) -> (res: Result<PluginId, garde::Report>)
        ensures
            res is Ok <==> id_fault(value@) is None,
            res matches Ok(id) ==> id@ == value@ && id.valid(),
            res matches Err(report) ==> extends(
                Seq::empty(),
                report_entries(report),
                id_findings(value@, Seq::empty()),
            ),
    {
        PluginId::from_str(value.as_str())
    }
}

impl std::str::FromStr for PluginId {
    type Err = garde::Report;

    fn from_str(s: &str) -> (res: Result<Self, Self::Err>)
        ensures
            res is Ok <==> id_fault(s@) is None,
            res matches Ok(id) ==> id@ == s@ && id.valid(),
            res matches Err(report) ==> extends(
                Seq::empty(),
                report_entries(report),
                id_findings(s@, Seq::empty()),
            ),
    {
        PluginId::from_str(s)
    }
}

impl AsRef<str> for PluginId {
    fn as_ref(&self) -> (s: &str)
        ensures
            s@ == self@,
    {
        self.as_str()
    }
}

/// Name of an action
///
/// Must be [a-zA-Z_-] (i.e example_action, my-action, MyAction)
#[derive(Debug, Clone, PartialEq, Eq, PartialOrd, Ord, Hash)]
pub struct ActionId(pub String);

impl View for ActionId {
    type V = Seq<char>;

    open spec fn view(&self) -> Seq<char> {
        self.0@
    }
}

impl ActionId {
    /// Whether the name keeps the name grammar.
    pub open spec fn valid(&self) -> bool {
        name_fault(self@) is None
    }

    /// The text of the name.
    pub fn as_str(&self) -> (s: &str)
        ensures
            s@ == self@,
    {
        self.0.as_str()
    }

    /// The name as an owned string.
    pub fn to_string(&self) -> (s: String)
        ensures
            s@ == self@,
    {
        self.0.clone()
    }

    /// Checks the name and adds what is wrong with it to `report`, at the
    /// path `parent`.
    pub fn validate_into(&self, parent: &garde::Path, report: &mut garde::Report)
        ensures
            extends(
                report_entries(*old(report)),
                report_entries(*final(report)),
                name_findings(self@, path_steps(*parent)),
            ),
    {
        report_name(self.0.as_str(), parent.clone(), report);
    }

    /// Checks the name on its own: the report of a failure holds one entry,
    /// at the empty path.
    pub fn validate(&self) -> (res: Result<(), garde::Report>)
        ensures
            res is Ok <==> self.valid(),
            res matches Err(report) ==> extends(
                Seq::empty(),
                report_entries(report),
                name_findings(self@, Seq::empty()),
            ),
    {
        let mut report = garde::Report::new();
        self.validate_into(&garde::Path::empty(), &mut report);
        conclude(report)
    }

    /// Makes an action name of a text that keeps the grammar, and fails on
    /// any other text.
    pub fn from_str(s: &str) -> (res: Result<ActionId, garde::Report>)
        ensures
            res is Ok <==> name_fault(s@) is None,
            res matches Ok(id) ==> id@ == s@ && id.valid(),
            res matches Err(report) ==> extends(
                Seq::empty(),
                report_entries(report),
                name_findings(s@, Seq::empty()),
            ),
    {
        let value = ActionId(s.to_owned());
        match value.validate() {
            Ok(_) => Ok(value),
            Err(report) => Err(report),
        }
    }

    /// As `from_str`, for an owned string.
    pub fn try_from(value: String) -> (res: Result<ActionId, garde::Report>)
        ensures
            res is Ok <==> name_fault(value@) is None,
            res matches Ok(id) ==> id@ == value@ && id.valid(),
            res matches Err(report) ==> extends(
                Seq::empty(),
                report_entries(report),
                name_findings(value@, Seq::empty()),
            ),
    {
        ActionId::from_str(value.as_str())
    }
}

impl std::str::FromStr for ActionId {
    type Err = garde::Report;

    fn from_str(s: &str) -> (res: Result<Self, Self::Err>)
        ensures
            res is Ok <==> name_fault(s@) is None,
            res matches Ok(id) ==> id@ == s@ && id.valid(),
            res matches Err(report) ==> extends(
                Seq::empty(),
                report_entries(report),
                name_findings(s@, Seq::empty()),
            ),
    {
        ActionId::from_str(s)
    }
}

impl AsRef<str> for ActionId {
    fn as_ref(&self) -> (s: &str)
        ensures
            s@ == self@,
    {
        self.as_str()
    }
}

/// Version range of a node runtime, it's recommended that you leave
/// this as the default unless you explicitly need a specific version
/// and its features
#[derive(Debug, PartialEq, Eq)]
pub struct BinaryNodeVersion(pub node_semver::Range);

impl Clone for BinaryNodeVersion {
    fn clone(&self) -> (copy: Self)
        ensures
            copy == *self,
    {
        BinaryNodeVersion(self.0.clone())
    }
}

impl AsRef<node_semver::Range> for BinaryNodeVersion {
    fn as_ref(&self) -> (range: &node_semver::Range)
        ensures
            *range == self.0,
    {
        &self.0
    }
}

/// Plugin details section of the manifest
#[derive(Debug, Clone)]
pub struct MPlugin {
    /// Unique ID of the plugin (e.g com.jacobtread.tilepad.obs)
    pub id: PluginId,
    /// Name of the plugin
    pub name: String,
    /// Current version of the plugin, semver compatible version number
    pub version: String,
    /// List of authors for the plugin
    pub authors: Vec<String>,
    /// Description of what the plugin does
    pub description: Option<String>,
    /// Icon for the plugin
    pub icon: Option<String>,
    /// Determines whether the plugin is "internal" to tilepad and bundled
    /// (Prevents uninstalling and some other features)
    pub internal: Option<bool>,
}

impl MPlugin {
    /// What validation finds in the plugin details at `parent`: a broken
    /// identifier, an empty name, an empty version, each empty author, in
    /// this order. The other fields are under no rule.
    pub open spec fn findings(&self, parent: Seq<Step>) -> Seq<Finding> {
        id_findings(self.id@, parent.push(key("id"@))) + non_empty_findings(
            self.name@,
            parent.push(key("name"@)),
        ) + non_empty_findings(self.version@, parent.push(key("version"@))) + texts_findings(
            self.authors@,
            parent.push(key("authors"@)),
        )
    }

    /// Adds what validation finds to `report`, under the path `parent`.
    pub fn validate_into(&self, parent: &garde::Path, report: &mut garde::Report)
        ensures
            extends(
                report_entries(*old(report)),
                report_entries(*final(report)),
                self.findings(path_steps(*parent)),
            ),
    {
        let ghost here = path_steps(*parent);
        let ghost e0 = report_entries(*report);
        self.id.validate_into(&join_key(parent, "id"), report);
        let ghost e1 = report_entries(*report);
        require_non_empty(&self.name, join_key(parent, "name"), report);
        let ghost e2 = report_entries(*report);
        require_non_empty(&self.version, join_key(parent, "version"), report);
        let ghost e3 = report_entries(*report);
        require_all_non_empty(&self.authors, &join_key(parent, "authors"), report);
        proof {
            let f0 = id_findings(self.id@, here.push(key("id"@)));
            let f1 = non_empty_findings(self.name@, here.push(key("name"@)));
            let f2 = non_empty_findings(self.version@, here.push(key("version"@)));
            let f3 = texts_findings(self.authors@, here.push(key("authors"@)));
            lemma_extends_chain(e0, e1, e2, f0, f1);
            lemma_extends_chain(e0, e2, e3, f0 + f1, f2);
            lemma_extends_chain(e0, e3, report_entries(*report), f0 + f1 + f2, f3);
        }
    }

    /// Validates the plugin details: `Ok` when nothing is wrong, else the
    /// report of everything that is. Details that pass have a valid
    /// identifier.
    pub fn validate(&self) -> (res: Result<(), garde::Report>)
        ensures
            res is Ok <==> self.findings(Seq::empty()).len() == 0,
            res is Ok ==> self.id.valid(),
            res matches Err(report) ==> extends(
                Seq::empty(),
                report_entries(report),
                self.findings(Seq::empty()),
            ),
    {
        let mut report = garde::Report::new();
        self.validate_into(&garde::Path::empty(), &mut report);
        conclude(report)
    }
}

/// Definition of the category to place the plugin actions within
#[derive(Debug, Clone)]
pub struct MCategory {
    /// Label for the category in the actions sidebar
    pub label: String,
    /// Icon to show in the actions sidebar
    pub icon: Option<String>,
}

impl MCategory {
    /// What validation finds in the category at `parent`: an empty label.
    pub open spec fn findings(&self, parent: Seq<Step>) -> Seq<Finding> {
        non_empty_findings(self.label@, parent.push(key("label"@)))
    }

    /// Adds what validation finds to `report`, under the path `parent`.
    pub fn validate_into(&self, parent: &garde::Path, report: &mut garde::Report)
        ensures
            extends(
                report_entries(*old(report)),
                report_entries(*final(report)),
                self.findings(path_steps(*parent)),
            ),
    {
        require_non_empty(&self.label, join_key(parent, "label"), report);
    }

    /// Validates the category: `Ok` when nothing is wrong, else the report
    /// of everything that is.
    pub fn validate(&self) -> (res: Result<(), garde::Report>)
        ensures
            res is Ok <==> self.findings(Seq::empty()).len() == 0,
            res matches Err(report) ==> extends(
                Seq::empty(),
                report_entries(report),
                self.findings(Seq::empty()),
            ),
    {
        let mut report = garde::Report::new();
        self.validate_into(&garde::Path::empty(), &mut report);
        conclude(report)
    }
}

/// Default options for an action icon
#[derive(Debug, Clone)]
pub struct ManifestActionIconOptions {
    /// Padding in pixels to pad the icon with
    pub padding: Option<u32>,
    /// Color for the tile background behind the icon
    pub background_color: Option<String>,
    /// Color of the tile border
    pub border_color: Option<String>,
}

/// The findings for an optional colour at `path`: those of the colour, one
/// step further, where there is one.
pub open spec fn optional_color_findings(
    value: Option<String>,
    path: Seq<Step>,
    alphas: Set<Seq<char>>,
) -> Seq<Finding> {
    match value {
        Some(text) => color_findings(text@, path.push(unkeyed()), alphas),
        None => Seq::empty(),
    }
}

/// Validates an optional colour and reports a failure one step under
/// `path`.
pub fn report_optional_color<A: Fn(&str) -> bool>(
    value: &Option<String>,
    alpha: &A,
    path: &garde::Path,
    report: &mut garde::Report,
)
    requires
        decides(alpha),
    ensures
        extends(
            report_entries(*old(report)),
            report_entries(*final(report)),
            optional_color_findings(*value, path_steps(*path), accepted(alpha)),
        ),
{
    match value {
        Some(text) => {
            report_color(text.as_str(), alpha, join_unkeyed(path), report);
        },
        None => {},
    }
}

impl Default for ManifestActionIconOptions {
    fn default() -> (options: Self)
        ensures
            options.padding is None,
            options.background_color is None,
            options.border_color is None,
    {
        ManifestActionIconOptions { padding: None, background_color: None, border_color: None }
    }
}

impl ManifestActionIconOptions {
    /// What validation finds in the icon options at `parent`: a broken
    /// background colour, then a broken border colour.
    pub open spec fn findings(&self, parent: Seq<Step>, alphas: Set<Seq<char>>) -> Seq<Finding> {
        optional_color_findings(
            self.background_color,
            parent.push(key("background_color"@)),
            alphas,
        ) + optional_color_findings(self.border_color, parent.push(key("border_color"@)), alphas)
    }

    /// Adds what validation finds to `report`, under the path `parent`.
    pub fn validate_into<A: Fn(&str) -> bool>(
        &self,
        alpha: &A,
        parent: &garde::Path,
        report: &mut garde::Report,
    )
        requires
            decides(alpha),
        ensures
            extends(
                report_entries(*old(report)),
                report_entries(*final(report)),
                self.findings(path_steps(*parent), accepted(alpha)),
            ),
    {
        let ghost here = path_steps(*parent);
        let ghost e0 = report_entries(*report);
        report_optional_color(
            &self.background_color,
            alpha,
            &join_key(parent, "background_color"),
            report,
        );
        let ghost e1 = report_entries(*report);
        report_optional_color(&self.border_color, alpha, &join_key(parent, "border_color"), report);
        proof {
            lemma_extends_chain(
                e0,
                e1,
                report_entries(*report),
                optional_color_findings(
                    self.background_color,
                    here.push(key("background_color"@)),
                    accepted(alpha),
                ),
                optional_color_findings(
                    self.border_color,
                    here.push(key("border_color"@)),
                    accepted(alpha),
                ),
            );
        }
    }

    /// Validates the icon options: `Ok` when nothing is wrong, else the
    /// report of everything that is.
    pub fn validate_with<A: Fn(&str) -> bool>(&self, alpha: &A) -> (res: Result<(), garde::Report>)
        requires
            decides(alpha),
        ensures
            res is Ok <==> self.findings(Seq::empty(), accepted(alpha)).len() == 0,
            res matches Err(report) ==> extends(
                Seq::empty(),
                report_entries(report),
                self.findings(Seq::empty(), accepted(alpha)),
            ),
    {
        let mut report = garde::Report::new();
        self.validate_into(alpha, &garde::Path::empty(), &mut report);
        conclude(report)
    }
}

/// The findings for optional icon options at `path`: those of the options,
/// where there are any.
pub open spec fn optional_options_findings(
    options: Option<ManifestActionIconOptions>,
    path: Seq<Step>,
    alphas: Set<Seq<char>>,
) -> Seq<Finding> {
    match options {
        Some(options) => options.findings(path, alphas),
        None => Seq::empty(),
    }
}

/// Manifest action definition
#[derive(Debug, Clone)]
pub struct ManifestAction {
    /// Label for the action, shown in the sidebar
    pub label: String,
    /// Icon for the action, shown in the sidebar and
    /// used as the default icon when added to the grid
    pub icon: Option<String>,
    /// Path to a "display" HTML file that can be used to make
    /// the tile into a display tile
    pub display: Option<String>,
    /// Default options for the icon when added to the grid
    /// as a tile
    pub icon_options: Option<ManifestActionIconOptions>,
    /// Description for the action, shown as a tooltip when hovering
    /// the action
    pub description: Option<String>,
    /// Path to the inspector HTML file to use for configuring the action
    pub inspector: Option<String>,
}

impl ManifestAction {
    /// What validation finds in the action at `parent`: an empty label, then
    /// what it finds in the icon options, where there are any.
    pub open spec fn findings(&self, parent: Seq<Step>, alphas: Set<Seq<char>>) -> Seq<Finding> {
        non_empty_findings(self.label@, parent.push(key("label"@))) + optional_options_findings(
            self.icon_options,
            parent.push(key("icon_options"@)),
            alphas,
        )
    }

    /// Adds what validation finds to `report`, under the path `parent`.
    pub fn validate_into<A: Fn(&str) -> bool>(
        &self,
        alpha: &A,
        parent: &garde::Path,
        report: &mut garde::Report,
    )
        requires
            decides(alpha),
        ensures
            extends(
                report_entries(*old(report)),
                report_entries(*final(report)),
                self.findings(path_steps(*parent), accepted(alpha)),
            ),
    {
        let ghost here = path_steps(*parent);
        let ghost e0 = report_entries(*report);
        require_non_empty(&self.label, join_key(parent, "label"), report);
        let ghost e1 = report_entries(*report);
        match &self.icon_options {
            Some(options) => {
                options.validate_into(alpha, &join_key(parent, "icon_options"), report);
            },
            None => {
                proof {
                    lemma_extends_nothing(e1);
                }
            },
        }
        proof {
            lemma_extends_chain(
                e0,
                e1,
                report_entries(*report),
                non_empty_findings(self.label@, here.push(key("label"@))),
                optional_options_findings(
                    self.icon_options,
                    here.push(key("icon_options"@)),
                    accepted(alpha),
                ),
            );
        }
    }

    /// Validates the action: `Ok` when nothing is wrong, else the report of
    /// everything that is.
    pub fn validate_with<A: Fn(&str) -> bool>(&self, alpha: &A) -> (res: Result<(), garde::Report>)
        requires
            decides(alpha),
        ensures
            res is Ok <==> self.findings(Seq::empty(), accepted(alpha)).len() == 0,
            res matches Err(report) ==> extends(
                Seq::empty(),
                report_entries(report),
                self.findings(Seq::empty(), accepted(alpha)),
            ),
    {
        let mut report = garde::Report::new();
        self.validate_into(alpha, &garde::Path::empty(), &mut report);
        conclude(report)
    }
}

/// Ordered map of actions defined within the plugin
///
/// Keys must be unique to each action following
/// the [a-zA-Z_-] format (i.e example_action, my-action, MyAction)
#[derive(Debug)]
pub struct ActionMap(pub IndexMap<ActionId, ManifestAction>);

/// An action with its key.
pub type ActionEntry = (ActionId, ManifestAction);

/// The map that an `ActionMap` holds.
pub type Actions = IndexMap<ActionId, ManifestAction>;

/// The entries of a map of actions, in the order in which they were put in.
pub uninterp spec fn action_entries(map: Actions) -> Seq<ActionEntry>;

/// `IndexMap::clone` makes a map with a clone of each entry, in the same
/// order. The clones of the keys and of the actions are the derived ones,
/// which copy every field.
#[verifier::external_body]
fn clone_actions(map: &Actions) -> (copy: Actions)
    ensures
        action_entries(copy) == action_entries(*map),
{
    map.clone()
}

/// `IndexMap::len` is the number of entries.
#[verifier::external_body]
fn actions_len(map: &Actions) -> (n: usize)
    ensures
        n == action_entries(*map).len(),
{
    map.len()
}

/// `IndexMap::get_index` hands out the entry at a position in the order of
/// insertion, and nothing for a position past the last entry.
#[verifier::external_body]
fn action_at(map: &Actions, i: usize) -> (entry: Option<(&ActionId, &ManifestAction)>)
    ensures
        entry is Some <==> i < action_entries(*map).len(),
        entry matches Some(pair) ==> *pair.0 == action_entries(*map)[i as int].0 && *pair.1
            == action_entries(*map)[i as int].1,
{
    map.get_index(i)
}

/// What validation finds in one entry of a map of actions under `parent`:
/// what is wrong with the key as an action name, then what it finds in the
/// action. The path of both ends in the key.
pub open spec fn entry_findings(
    entry: ActionEntry,
    parent: Seq<Step>,
    alphas: Set<Seq<char>>,
) -> Seq<Finding> {
    name_findings(entry.0@, parent.push(key(entry.0@))) + entry.1.findings(
        parent.push(key(entry.0@)),
        alphas,
    )
}

/// What validation finds in a run of actions under `parent`: for each entry
/// in turn what it finds in the entry.
pub open spec fn actions_findings(
    entries: Seq<ActionEntry>,
    parent: Seq<Step>,
    alphas: Set<Seq<char>>,
) -> Seq<Finding>
    decreases entries.len(),
{
    if entries.len() == 0 {
        Seq::empty()
    } else {
        actions_findings(entries.drop_last(), parent, alphas) + entry_findings(
            entries.last(),
            parent,
            alphas,
        )
    }
}

/// Whether every key of a run of actions keeps the grammar of action names.
pub open spec fn keys_valid(entries: Seq<ActionEntry>) -> bool {
    forall|i: int| 0 <= i < entries.len() ==> name_fault((#[trigger] entries[i]).0@) is None
}

/// Where validation finds nothing in a run of actions, every key keeps the
/// grammar of action names.
pub proof fn lemma_no_findings_keys_valid(
    entries: Seq<ActionEntry>,
    parent: Seq<Step>,
    alphas: Set<Seq<char>>,
)
    requires
        actions_findings(entries, parent, alphas).len() == 0,
    ensures
        keys_valid(entries),
    decreases entries.len(),
{
    if entries.len() > 0 {
        let front = entries.drop_last();
        lemma_no_findings_keys_valid(front, parent, alphas);
        assert forall|i: int| 0 <= i < entries.len() implies name_fault(
            (#[trigger] entries[i]).0@,
        ) is None by {
            if i < front.len() {
                assert(front[i] == entries[i]);
            } else {
                assert(entries[i] == entries.last());
            }
        }
    }
}

impl Clone for ActionMap {
    fn clone(&self) -> (copy: Self)
        ensures
            copy.entries() == self.entries(),
    {
        ActionMap(clone_actions(&self.0))
    }
}

impl AsRef<IndexMap<ActionId, ManifestAction>> for ActionMap {
    fn as_ref(&self) -> (map: &IndexMap<ActionId, ManifestAction>)
        ensures
            *map == self.0,
    {
        &self.0
    }
}

impl ActionMap {
    /// The actions with their keys, in the order of the document.
    pub open spec fn entries(&self) -> Seq<ActionEntry> {
        action_entries(self.0)
    }

    /// What validation finds in the map at `parent`.
    pub open spec fn findings(&self, parent: Seq<Step>, alphas: Set<Seq<char>>) -> Seq<Finding> {
        actions_findings(self.entries(), parent, alphas)
    }

    /// Whether every key of the map keeps the grammar of action names.
    pub open spec fn keys_valid(&self) -> bool {
        keys_valid(self.entries())
    }

    /// Validates every entry of the map: the key as an action name, then the
    /// action. The path of an entry ends in its key, not in its position.
    pub fn validate_into<A: Fn(&str) -> bool>(
        &self,
        alpha: &A,
        parent: &garde::Path,
        report: &mut garde::Report,
    )
        requires
            decides(alpha),
        ensures
            extends(
                report_entries(*old(report)),
                report_entries(*final(report)),
                self.findings(path_steps(*parent), accepted(alpha)),
            ),
    {
        let ghost start = report_entries(*report);
        let ghost here = path_steps(*parent);
        let ghost all = self.entries();
        let n: usize = actions_len(&self.0);
        let mut i: usize = 0;
        proof {
            lemma_extends_nothing(start);
        }
        while i < n
            invariant
                i <= n == all.len(),
                all == self.entries(),
                here == path_steps(*parent),
                decides(alpha),
                extends(
                    start,
                    report_entries(*report),
                    actions_findings(all.take(i as int), here, accepted(alpha)),
                ),
            decreases n - i,
        {
            let ghost before = report_entries(*report);
            match action_at(&self.0, i) {
                Some((id, action)) => {
                    let entry_path = join_key(parent, id.as_str());
                    id.validate_into(&entry_path, report);
                    let ghost between = report_entries(*report);
                    action.validate_into(alpha, &entry_path, report);
                    proof {
                        lemma_extends_chain(
                            before,
                            between,
                            report_entries(*report),
                            name_findings(id@, path_steps(entry_path)),
                            action.findings(path_steps(entry_path), accepted(alpha)),
                        );
                    }
                },
                None => {},
            }
            proof {
                assert(all.take(i + 1).drop_last() == all.take(i as int));
                lemma_extends_chain(
                    start,
                    before,
                    report_entries(*report),
                    actions_findings(all.take(i as int), here, accepted(alpha)),
                    entry_findings(all[i as int], here, accepted(alpha)),
                );
            }
            i = i + 1;
        }
        proof {
            assert(all.take(n as int) == all);
        }
    }

    /// Validates the map: `Ok` when nothing is wrong, else the report of
    /// everything that is. A map that passes has valid keys only.
    pub fn validate_with<A: Fn(&str) -> bool>(&self, alpha: &A) -> (res: Result<(), garde::Report>)
        requires
            decides(alpha),
        ensures
            res is Ok <==> self.findings(Seq::empty(), accepted(alpha)).len() == 0,
            res is Ok ==> self.keys_valid(),
            res matches Err(report) ==> extends(
                Seq::empty(),
                report_entries(report),
                self.findings(Seq::empty(), accepted(alpha)),
            ),
    {
        let mut report = garde::Report::new();
        self.validate_into(alpha, &garde::Path::empty(), &mut report);
        proof {
            if report_entries(report).len() == 0 {
                lemma_no_findings_keys_valid(self.entries(), Seq::empty(), accepted(alpha));
            }
        }
        conclude(report)
    }
}

/// Node "binary" which uses a node runtime to execute the js script
/// at the provided `entrypoint`
#[derive(Debug, Clone)]
pub struct MBinNode {
    /// Entrypoint for the program
    ///
    /// e.g bin/index.js
    pub entrypoint: String,
    /// Version of node the program should run using.
    ///
    /// It's recommended that you leave
    /// this as the default unless you explicitly need a specific version
    /// and its features
    pub version: BinaryNodeVersion,
}

impl MBinNode {
    /// What validation finds in the node binary at `parent`: an empty
    /// entrypoint. The version is under no rule.
    pub open spec fn findings(&self, parent: Seq<Step>) -> Seq<Finding> {
        non_empty_findings(self.entrypoint@, parent.push(key("entrypoint"@)))
    }

    /// Adds what validation finds to `report`, under the path `parent`.
    pub fn validate_into(&self, parent: &garde::Path, report: &mut garde::Report)
        ensures
            extends(
                report_entries(*old(report)),
                report_entries(*final(report)),
                self.findings(path_steps(*parent)),
            ),
    {
        require_non_empty(&self.entrypoint, join_key(parent, "entrypoint"), report);
    }

    /// Validates the node binary: `Ok` when nothing is wrong, else the
    /// report of everything that is.
    pub fn validate(&self) -> (res: Result<(), garde::Report>)
        ensures
            res is Ok <==> self.findings(Seq::empty()).len() == 0,
            res matches Err(report) ==> extends(
                Seq::empty(),
                report_entries(report),
                self.findings(Seq::empty()),
            ),
    {
        let mut report = garde::Report::new();
        self.validate_into(&garde::Path::empty(), &mut report);
        conclude(report)
    }
}

/// Native binary for a specific os + arch combo, contains a
/// path to the binary
#[derive(Debug, Clone)]
pub struct MBinNative {
    /// Target OS this binary should be used for
    pub os: OperatingSystem,
    /// Target Arch this binary should be used for
    pub arch: Arch,
    /// Path to the executable file
    pub path: String,
}

/// The position of the first binary in `options` that is built for `os` and
/// `arch`, or the length of `options` where none is.
pub open spec fn first_usable(options: Seq<MBinNative>, os: OperatingSystem, arch: Arch) -> int
    decreases options.len(),
{
    if options.len() == 0 || options[0].usable_on(os, arch) {
        0
    } else {
        1 + first_usable(options.drop_first(), os, arch)
    }
}

/// What validation finds in a list of native binaries under `parent`: for
/// each binary in turn what it finds in the binary, at its position.
pub open spec fn natives_findings(natives: Seq<MBinNative>, parent: Seq<Step>) -> Seq<Finding>
    decreases natives.len(),
{
    if natives.len() == 0 {
        Seq::empty()
    } else {
        natives_findings(natives.drop_last(), parent) + natives.last().findings(
            parent.push(index((natives.len() - 1) as nat)),
        )
    }
}

impl MBinNative {
    /// Whether the binary is built for `os` and `arch`.
    pub open spec fn usable_on(&self, os: OperatingSystem, arch: Arch) -> bool {
        self.os == os && self.arch == arch
    }

    /// What validation finds in the binary at `parent`: an empty path.
    pub open spec fn findings(&self, parent: Seq<Step>) -> Seq<Finding> {
        non_empty_findings(self.path@, parent.push(key("path"@)))
    }

    /// Check if the binary is usable on the provided OS and Arch combination
    pub fn is_usable(&self, os: &OperatingSystem, arch: &Arch) -> (usable: bool)
        ensures
            usable == self.usable_on(*os, *arch),
    {
        self.os == *os && self.arch == *arch
    }

    /// Find the first binary that is usable on the provided OS and Arch
    /// combination
    pub fn find_usable<'a>(
        options: &'a [MBinNative],
        os: &OperatingSystem,
        arch: &Arch,
    ) -> (found: Option<&'a MBinNative>)
        ensures
            found is Some <==> first_usable(options@, *os, *arch) < options.len(),
            found matches Some(binary) ==> *binary == options@[first_usable(options@, *os, *arch)]
                && binary.usable_on(*os, *arch),
            found is None ==> forall|i: int|
                0 <= i < options.len() ==> !(#[trigger] options@[i]).usable_on(*os, *arch),
            forall|i: int|
                0 <= i < first_usable(options@, *os, *arch) ==> !(#[trigger] options@[i]).usable_on(
                    *os,
                    *arch,
                ),
    {
        let mut i: usize = 0;
        while i < options.len()
            invariant
                i <= options.len(),
                forall|j: int| 0 <= j < i ==> !(#[trigger] options@[j]).usable_on(*os, *arch),
            decreases options.len() - i,
        {
            if options[i].is_usable(os, arch) {
                proof {
                    lemma_first_usable_is(options@, *os, *arch, i as int);
                }
                return Some(&options[i]);
            }
            i = i + 1;
        }
        proof {
            lemma_first_usable_is(options@, *os, *arch, options.len() as int);
        }
        None
    }

    /// Find a binary compatible with the platform that is described by the
    /// name of its operating system, the width of its pointers and whether
    /// it is of the ARM family
    pub fn find_current<'a>(
        options: &'a [MBinNative],
        target_os: &str,
        pointer_width: u32,
        arm: bool,
    ) -> (found: Option<&'a MBinNative>)
        ensures
            found is Some <==> current_choice(options@, target_os@, pointer_width, arm) is Some,
            found matches Some(binary) ==> *binary == current_choice(
                options@,
                target_os@,
                pointer_width,
                arm,
            )->0,
    {
        let os = match platform_os(target_os) {
            Some(os) => os,
            None => {
                return None;
            },
        };
        let arch = match platform_arch(pointer_width, arm) {
            Some(arch) => arch,
            None => {
                return None;
            },
        };
        MBinNative::find_usable(options, &os, &arch)
    }

    /// Adds what validation finds to `report`, under the path `parent`.
    pub fn validate_into(&self, parent: &garde::Path, report: &mut garde::Report)
        ensures
            extends(
                report_entries(*old(report)),
                report_entries(*final(report)),
                self.findings(path_steps(*parent)),
            ),
    {
        require_non_empty(&self.path, join_key(parent, "path"), report);
    }

    /// Validates the binary: `Ok` when nothing is wrong, else the report of
    /// everything that is.
    pub fn validate(&self) -> (res: Result<(), garde::Report>)
        ensures
            res is Ok <==> self.findings(Seq::empty()).len() == 0,
            res matches Err(report) ==> extends(
                Seq::empty(),
                report_entries(report),
                self.findings(Seq::empty()),
            ),
    {
        let mut report = garde::Report::new();
        self.validate_into(&garde::Path::empty(), &mut report);
        conclude(report)
    }
}

/// The binary that is chosen for a platform given by the name of its
/// operating system, the width of its pointers and whether it is of the ARM
/// family: the first that is built for it, and none for a platform that this
/// crate has no name for.
pub open spec fn current_choice(
    options: Seq<MBinNative>,
    target_os: Seq<char>,
    pointer_width: u32,
    arm: bool,
) -> Option<MBinNative> {
    match (os_named(target_os), arch_of(pointer_width, arm)) {
        (Some(os), Some(arch)) => if first_usable(options, os, arch) < options.len() {
            Some(options[first_usable(options, os, arch)])
        } else {
            None
        },
        _ => None,
    }
}

/// The first usable binary is at `k` if none before `k` is usable and `k` is
/// either usable or the end of the list.
pub proof fn lemma_first_usable_is(
    options: Seq<MBinNative>,
    os: OperatingSystem,
    arch: Arch,
    k: int,
)
    requires
        0 <= k <= options.len(),
        forall|j: int| 0 <= j < k ==> !(#[trigger] options[j]).usable_on(os, arch),
        k < options.len() ==> options[k].usable_on(os, arch),
    ensures
        first_usable(options, os, arch) == k,
    decreases options.len(),
{
    if options.len() == 0 || options[0].usable_on(os, arch) {
        if k > 0 {
            assert(!options[0].usable_on(os, arch));
        }
    } else {
        let rest = options.drop_first();
        assert forall|j: int| 0 <= j < k - 1 implies !(#[trigger] rest[j]).usable_on(os, arch) by {
            assert(rest[j] == options[j + 1]);
        }
        lemma_first_usable_is(rest, os, arch, k - 1);
    }
}

/// Validates each binary of a list, at its position under `parent`.
pub fn validate_natives(natives: &Vec<MBinNative>, parent: &garde::Path, report: &mut garde::Report)
    ensures
        extends(
            report_entries(*old(report)),
            report_entries(*final(report)),
            natives_findings(natives@, path_steps(*parent)),
        ),
{
    let ghost start = report_entries(*report);
    let ghost here = path_steps(*parent);
    let mut i: usize = 0;
    proof {
        lemma_extends_nothing(start);
    }
    while i < natives.len()
        invariant
            i <= natives.len(),
            here == path_steps(*parent),
            extends(start, report_entries(*report), natives_findings(natives@.take(i as int), here)),
        decreases natives.len() - i,
    {
        let ghost before = report_entries(*report);
        natives[i].validate_into(&join_index(parent, i), report);
        proof {
            assert(natives@.take(i + 1).drop_last() == natives@.take(i as int));
            lemma_extends_chain(
                start,
                before,
                report_entries(*report),
                natives_findings(natives@.take(i as int), here),
                natives@[i as int].findings(here.push(index(i as nat))),
            );
        }
        i = i + 1;
    }
    proof {
        assert(natives@.take(natives.len() as int) == natives@);
    }
}

/// Type of binary the plugin program is using
#[derive(Debug, Clone)]
pub enum MBin {
    /// Program uses the node runtime
    Node { node: MBinNode },
    /// Program uses a native binary
    Native { native: Vec<MBinNative> },
}

impl MBin {
    /// What validation finds in the binary description at `parent`: what it
    /// finds in the node binary, under `node`, or in the native binaries,
    /// under `native`.
    pub open spec fn findings(&self, parent: Seq<Step>) -> Seq<Finding> {
        match *self {
            MBin::Node { node } => node.findings(parent.push(key("node"@))),
            MBin::Native { native } => natives_findings(native@, parent.push(key("native"@))),
        }
    }

    /// Adds what validation finds to `report`, under the path `parent`.
    pub fn validate_into(&self, parent: &garde::Path, report: &mut garde::Report)
        ensures
            extends(
                report_entries(*old(report)),
                report_entries(*final(report)),
                self.findings(path_steps(*parent)),
            ),
    {
        match self {
            MBin::Node { node } => {
                node.validate_into(&join_key(parent, "node"), report);
            },
            MBin::Native { native } => {
                validate_natives(native, &join_key(parent, "native"), report);
            },
        }
    }

    /// Validates the binary description: `Ok` when nothing is wrong, else
    /// the report of everything that is.
    pub fn validate(&self) -> (res: Result<(), garde::Report>)
        ensures
            res is Ok <==> self.findings(Seq::empty()).len() == 0,
            res matches Err(report) ==> extends(
                Seq::empty(),
                report_entries(report),
                self.findings(Seq::empty()),
            ),
    {
        let mut report = garde::Report::new();
        self.validate_into(&garde::Path::empty(), &mut report);
        conclude(report)
    }
}

/// The findings for an optional binary description at `path`: those of the
/// description, where there is one.
pub open spec fn optional_bin_findings(bin: Option<MBin>, path: Seq<Step>) -> Seq<Finding> {
    match bin {
        Some(bin) => bin.findings(path),
        None => Seq::empty(),
    }
}

/// Manifest file format for plugins
#[derive(Debug, Clone)]
pub struct PluginManifest {
    /// Details about the plugin itself
    pub plugin: MPlugin,
    /// Details for running the plugin
    /// (Option not specified for internal plugins)
    pub bin: Option<MBin>,
    /// Category for the manifest actions
    pub category: MCategory,
    /// Map of available plugin actions
    pub actions: ActionMap,
}

impl PluginManifest {
    /// What validation finds in the manifest: what it finds in the plugin
    /// details, the binary description, the category and the actions, in
    /// this order, each under the name of its field.
    pub open spec fn findings(&self, parent: Seq<Step>, alphas: Set<Seq<char>>) -> Seq<Finding> {
        self.plugin.findings(parent.push(key("plugin"@))) + optional_bin_findings(
            self.bin,
            parent.push(key("bin"@)),
        ) + self.category.findings(parent.push(key("category"@))) + self.actions.findings(
            parent.push(key("actions"@)),
            alphas,
        )
    }

    /// Adds what validation finds to `report`, under the path `parent`.
    pub fn validate_into<A: Fn(&str) -> bool>(
        &self,
        alpha: &A,
        parent: &garde::Path,
        report: &mut garde::Report,
    )
        requires
            decides(alpha),
        ensures
            extends(
                report_entries(*old(report)),
                report_entries(*final(report)),
                self.findings(path_steps(*parent), accepted(alpha)),
            ),
    {
        let ghost here = path_steps(*parent);
        let ghost e0 = report_entries(*report);
        self.plugin.validate_into(&join_key(parent, "plugin"), report);
        let ghost e1 = report_entries(*report);
        match &self.bin {
            Some(bin) => {
                bin.validate_into(&join_key(parent, "bin"), report);
            },
            None => {
                proof {
                    lemma_extends_nothing(e1);
                }
            },
        }
        let ghost e2 = report_entries(*report);
        self.category.validate_into(&join_key(parent, "category"), report);
        let ghost e3 = report_entries(*report);
        self.actions.validate_into(alpha, &join_key(parent, "actions"), report);
        proof {
            let f0 = self.plugin.findings(here.push(key("plugin"@)));
            let f1 = optional_bin_findings(self.bin, here.push(key("bin"@)));
            let f2 = self.category.findings(here.push(key("category"@)));
            let f3 = self.actions.findings(here.push(key("actions"@)), accepted(alpha));
            lemma_extends_chain(e0, e1, e2, f0, f1);
            lemma_extends_chain(e0, e2, e3, f0 + f1, f2);
            lemma_extends_chain(e0, e3, report_entries(*report), f0 + f1 + f2, f3);
        }
    }

    /// Whether the identifier of the plugin and the keys of its actions keep
    /// their grammars.
    pub open spec fn ids_valid(&self) -> bool {
        self.plugin.id.valid() && self.actions.keys_valid()
    }

    /// Validates the manifest: `Ok` when nothing is wrong, else the report
    /// of everything that is. Whether an alpha part of a colour writes a
    /// number between 0 and 1 is what `alpha` says of it. A manifest that
    /// passes holds no identifier and no action name that fails its grammar.
    pub fn validate_with<A: Fn(&str) -> bool>(&self, alpha: &A) -> (res: Result<(), garde::Report>)
        requires
            decides(alpha),
        ensures
            res is Ok <==> self.findings(Seq::empty(), accepted(alpha)).len() == 0,
            res is Ok ==> self.ids_valid(),
            res matches Err(report) ==> extends(
                Seq::empty(),
                report_entries(report),
                self.findings(Seq::empty(), accepted(alpha)),
            ),
    {
        let mut report = garde::Report::new();
        self.validate_into(alpha, &garde::Path::empty(), &mut report);
        proof {
            if report_entries(report).len() == 0 {
                lemma_no_findings_ids_valid(*self, accepted(alpha));
            }
        }
        conclude(report)
    }
}

/// A manifest in which validation finds nothing holds a valid plugin
/// identifier and valid action names only.
pub proof fn lemma_no_findings_ids_valid(manifest: PluginManifest, alphas: Set<Seq<char>>)
    requires
        manifest.findings(Seq::empty(), alphas).len() == 0,
    ensures
        manifest.ids_valid(),
{
    let root = Seq::<Step>::empty();
    lemma_no_findings_keys_valid(
        manifest.actions.entries(),
        root.push(key("actions"@)),
        alphas,
    );
}

impl PluginManifest {
    /// Hands the manifest back, unchanged, when validation finds nothing in
    /// it, and the report of everything that is wrong when it finds
    /// something. A manifest that comes back holds no identifier and no
    /// action name that fails its grammar.
    pub fn validated<A: Fn(&str) -> bool>(
        self,
        alpha: &A,
    ) -> (res: Result<PluginManifest, garde::Report>)
        requires
            decides(alpha),
        ensures
            res is Ok <==> self.findings(Seq::empty(), accepted(alpha)).len() == 0,
            res matches Ok(manifest) ==> manifest == self,
            res matches Ok(manifest) ==> id_fault(manifest.plugin.id@) is None,
            res matches Ok(manifest) ==> forall|i: int|
                0 <= i < manifest.actions.entries().len() ==> name_fault(
                    (#[trigger] manifest.actions.entries()[i]).0@,
                ) is None,
            res matches Err(report) ==> extends(
                Seq::empty(),
                report_entries(report),
                self.findings(Seq::empty(), accepted(alpha)),
            ),
    {
        match self.validate_with(alpha) {
            Ok(_) => Ok(self),
            Err(report) => Err(report),
        }
    }
}

/// Reading a valid identifier back from its own text succeeds and gives an
/// identifier with the same text: nothing is normalised on the way.
pub proof fn law_plugin_id_round_trip(
    id: PluginId,
    text: &str,
    again: Result<PluginId, garde::Report>,
)
    requires
        id.valid(),
        call_ensures(PluginId::as_str, (&id,), text),
        call_ensures(PluginId::from_str, (text,), again),
    ensures
        again matches Ok(same) && same@ == id@ && same.valid(),
{
}

/// Reading a valid action name back from its own text succeeds and gives a
/// name with the same text.
pub proof fn law_action_id_round_trip(
    id: ActionId,
    text: &str,
    again: Result<ActionId, garde::Report>,
)
    requires
        id.valid(),
        call_ensures(ActionId::as_str, (&id,), text),
        call_ensures(ActionId::from_str, (text,), again),
    ensures
        again matches Ok(same) && same@ == id@ && same.valid(),
{
}

/// Selection takes the first match: where the binary at `i` is built for the
/// platform, the one that is chosen stands at `i` or before it, is built
/// for the platform too, and no binary before it is. A later match, whatever
/// its path, is never chosen.
pub proof fn law_first_match(options: Seq<MBinNative>, os: OperatingSystem, arch: Arch, i: int)
    requires
        0 <= i < options.len(),
        options[i].usable_on(os, arch),
    ensures
        0 <= first_usable(options, os, arch) <= i,
        options[first_usable(options, os, arch)].usable_on(os, arch),
        forall|j: int|
            0 <= j < first_usable(options, os, arch) ==> !(#[trigger] options[j]).usable_on(
                os,
                arch,
            ),
    decreases options.len(),
{
    if !options[0].usable_on(os, arch) {
        let rest = options.drop_first();
        assert(rest[i - 1] == options[i]);
        law_first_match(rest, os, arch, i - 1);
        let k = first_usable(rest, os, arch);
        assert(rest[k] == options[k + 1]);
        assert forall|j: int| 0 <= j < k + 1 implies !(#[trigger] options[j]).usable_on(
            os,
            arch,
        ) by {
            if j > 0 {
                assert(rest[j - 1] == options[j]);
            }
        }
    }
}

/// The number of entries of a map of actions in which validation finds
/// something, in the key or in the action.
pub open spec fn offending_actions(
    entries: Seq<ActionEntry>,
    parent: Seq<Step>,
    alphas: Set<Seq<char>>,
) -> nat
    decreases entries.len(),
{
    if entries.len() == 0 {
        0
    } else {
        offending_actions(entries.drop_last(), parent, alphas) + if entry_findings(
            entries.last(),
            parent,
            alphas,
        ).len() > 0 {
            1nat
        } else {
            0nat
        }
    }
}

/// Whether `path` lies at or under `root`.
pub open spec fn under(path: Seq<Step>, root: Seq<Step>) -> bool {
    root.len() <= path.len() && path.take(root.len() as int) == root
}

/// Everything that validation finds in an action lies under the action's own
/// path.
pub proof fn lemma_action_findings_under(
    action: ManifestAction,
    path: Seq<Step>,
    alphas: Set<Seq<char>>,
)
    ensures
        forall|k: int|
            0 <= k < action.findings(path, alphas).len() ==> under(
                (#[trigger] action.findings(path, alphas)[k]).path,
                path,
            ),
{
    let found = action.findings(path, alphas);
    assert forall|k: int| 0 <= k < found.len() implies under((#[trigger] found[k]).path, path) by {
        let label = path.push(key("label"@));
        assert(label.take(path.len() as int) == path);
        let in_options = path.push(key("icon_options"@));
        let background = in_options.push(key("background_color"@)).push(unkeyed());
        let border = in_options.push(key("border_color"@)).push(unkeyed());
        assert(background.take(path.len() as int) == path);
        assert(border.take(path.len() as int) == path);
    }
}

/// Everything that validation finds in an entry of a map of actions lies at
/// or under the path that ends in the entry's key.
pub proof fn lemma_entry_findings_under(
    entry: ActionEntry,
    parent: Seq<Step>,
    alphas: Set<Seq<char>>,
)
    ensures
        forall|k: int|
            0 <= k < entry_findings(entry, parent, alphas).len() ==> under(
                (#[trigger] entry_findings(entry, parent, alphas)[k]).path,
                parent.push(key(entry.0@)),
            ),
{
    let here = parent.push(key(entry.0@));
    let of_key = name_findings(entry.0@, here);
    let of_action = entry.1.findings(here, alphas);
    let found = entry_findings(entry, parent, alphas);
    lemma_action_findings_under(entry.1, here, alphas);
    assert(here.take(here.len() as int) == here);
    assert forall|k: int| 0 <= k < found.len() implies under((#[trigger] found[k]).path, here) by {
        if k < of_key.len() {
            assert(found[k] == of_key[k]);
        } else {
            assert(found[k] == of_action[k - of_key.len()]);
        }
    }
}

/// Validation aggregates over the entries of a map of actions. What it finds
/// in the entry at position `i`, in its key and in its action, stands
/// together in what it finds in the whole map, behind what it finds in the
/// entries before it, and each such finding lies at or under the path that
/// ends in that entry's key. An entry in which nothing is found adds nothing.
pub proof fn law_aggregation(
    entries: Seq<ActionEntry>,
    parent: Seq<Step>,
    alphas: Set<Seq<char>>,
    i: int,
)
    requires
        0 <= i < entries.len(),
    ensures
        ({
            let before = actions_findings(entries.take(i), parent, alphas);
            let own = entry_findings(entries[i], parent, alphas);
            let all = actions_findings(entries, parent, alphas);
            &&& before.len() + own.len() <= all.len()
            &&& all.subrange(before.len() as int, (before.len() + own.len()) as int) == own
            &&& forall|k: int|
                0 <= k < own.len() ==> under((#[trigger] own[k]).path, parent.push(key(entries[i].0@)))
        }),
    decreases entries.len(),
{
    let own = entry_findings(entries[i], parent, alphas);
    lemma_entry_findings_under(entries[i], parent, alphas);
    let front = entries.drop_last();
    if i == entries.len() - 1 {
        assert(entries.take(i) == front);
    } else {
        assert(front.take(i) == entries.take(i));
        assert(front[i] == entries[i]);
        law_aggregation(front, parent, alphas, i);
        let before = actions_findings(entries.take(i), parent, alphas);
        let shorter = actions_findings(front, parent, alphas);
        let all = actions_findings(entries, parent, alphas);
        assert(all.subrange(before.len() as int, (before.len() + own.len()) as int)
            == shorter.subrange(before.len() as int, (before.len() + own.len()) as int));
    }
}

/// Where no entry breaks more than one rule, the map's findings are as many
/// as the entries that break one: one for each of them and none for the
/// others.
pub proof fn law_aggregation_count(
    entries: Seq<ActionEntry>,
    parent: Seq<Step>,
    alphas: Set<Seq<char>>,
)
    requires
        forall|i: int|
            0 <= i < entries.len() ==> entry_findings(#[trigger] entries[i], parent, alphas).len()
                <= 1,
    ensures
        actions_findings(entries, parent, alphas).len() == offending_actions(
            entries,
            parent,
            alphas,
        ),
    decreases entries.len(),
{
    if entries.len() > 0 {
        let front = entries.drop_last();
        assert forall|i: int| 0 <= i < front.len() implies entry_findings(
            #[trigger] front[i],
            parent,
            alphas,
        ).len() <= 1 by {
            assert(front[i] == entries[i]);
        }
        law_aggregation_count(front, parent, alphas);
        assert(entries.last() == entries[entries.len() - 1]);
    }
}

/// A manifest whose plugin details, binary description and category are in
/// order, and in which no entry of the actions breaks more than one rule, is
/// reported with exactly as many findings as it has entries that break a
/// rule.
pub proof fn law_manifest_aggregation(manifest: PluginManifest, alphas: Set<Seq<char>>)
    requires
        manifest.plugin.findings(seq![key("plugin"@)]).len() == 0,
        optional_bin_findings(manifest.bin, seq![key("bin"@)]).len() == 0,
        manifest.category.findings(seq![key("category"@)]).len() == 0,
        forall|i: int|
            0 <= i < manifest.actions.entries().len() ==> entry_findings(
                #[trigger] manifest.actions.entries()[i],
                seq![key("actions"@)],
                alphas,
            ).len() <= 1,
    ensures
        manifest.findings(Seq::empty(), alphas).len() == offending_actions(
            manifest.actions.entries(),
            seq![key("actions"@)],
            alphas,
        ),
{
    let root = Seq::<Step>::empty();
    assert(root.push(key("plugin"@)) == seq![key("plugin"@)]);
    assert(root.push(key("bin"@)) == seq![key("bin"@)]);
    assert(root.push(key("category"@)) == seq![key("category"@)]);
    assert(root.push(key("actions"@)) == seq![key("actions"@)]);
    law_aggregation_count(manifest.actions.entries(), seq![key("actions"@)], alphas);
}

/// A manifest in which validation finds nothing, which is the only kind that
/// it hands back, holds no action name that fails its grammar, and its
/// plugin identifier keeps the identifier grammar.
pub proof fn law_validated_ids(manifest: PluginManifest, alphas: Set<Seq<char>>)
    requires
        manifest.findings(Seq::empty(), alphas).len() == 0,
    ensures
        id_fault(manifest.plugin.id@) is None,
        forall|i: int|
            0 <= i < manifest.actions.entries().len() ==> name_fault(
                (#[trigger] manifest.actions.entries()[i]).0@,
            ) is None,
{
    lemma_no_findings_ids_valid(manifest, alphas);
}

/// Where validation finds nothing in a run of actions, it finds nothing in
/// any entry of the run.
pub proof fn lemma_no_findings_in_entries(
    entries: Seq<ActionEntry>,
    parent: Seq<Step>,
    alphas: Set<Seq<char>>,
)
    requires
        actions_findings(entries, parent, alphas).len() == 0,
    ensures
        forall|i: int|
            0 <= i < entries.len() ==> entry_findings(#[trigger] entries[i], parent, alphas).len()
                == 0,
    decreases entries.len(),
{
    if entries.len() > 0 {
        let front = entries.drop_last();
        lemma_no_findings_in_entries(front, parent, alphas);
        assert forall|i: int| 0 <= i < entries.len() implies entry_findings(
            #[trigger] entries[i],
            parent,
            alphas,
        ).len() == 0 by {
            if i < front.len() {
                assert(front[i] == entries[i]);
            } else {
                assert(entries[i] == entries.last());
            }
        }
    }
}

/// Whether the colours that icon options hold are colour literals.
pub open spec fn colors_valid(options: ManifestActionIconOptions, alphas: Set<Seq<char>>) -> bool {
    &&& options.background_color matches Some(text) ==> color(normalized(text@), alphas) is Ok
    &&& options.border_color matches Some(text) ==> color(normalized(text@), alphas) is Ok
}

/// In a manifest in which validation finds nothing, every colour of every
/// action is a colour literal, and every action has a label.
pub proof fn law_validated_actions(manifest: PluginManifest, alphas: Set<Seq<char>>, i: int)
    requires
        manifest.findings(Seq::empty(), alphas).len() == 0,
        0 <= i < manifest.actions.entries().len(),
    ensures
        manifest.actions.entries()[i].1.label@.len() > 0,
        manifest.actions.entries()[i].1.icon_options matches Some(options) ==> colors_valid(
            options,
            alphas,
        ),
{
    let root = Seq::<Step>::empty();
    lemma_no_findings_in_entries(manifest.actions.entries(), root.push(key("actions"@)), alphas);
    let entry = manifest.actions.entries()[i];
    assert(entry_findings(entry, root.push(key("actions"@)), alphas).len() == 0);
}

/// A key that fails the grammar of action names is found, whatever the
/// action under it holds: the manifest is not handed back.
pub proof fn law_bad_key_is_found(
    entries: Seq<ActionEntry>,
    parent: Seq<Step>,
    alphas: Set<Seq<char>>,
    i: int,
)
    requires
        0 <= i < entries.len(),
        name_fault(entries[i].0@) is Some,
    ensures
        actions_findings(entries, parent, alphas).len() > 0,
{
    if actions_findings(entries, parent, alphas).len() == 0 {
        lemma_no_findings_keys_valid(entries, parent, alphas);
    }
}

} // verus!
