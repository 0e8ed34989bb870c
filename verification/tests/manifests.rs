use indexmap::IndexMap;
use tilepad_manifest::icons::{Icon, IconPackId, IconsManifest, MIconPack};
use tilepad_manifest::plugin::{
    ActionId, ActionMap, BinaryNodeVersion, MBin, MBinNative, MBinNode, MCategory, MPlugin,
    ManifestAction, ManifestActionIconOptions, PluginId, PluginManifest,
};
use tilepad_manifest::system::{Arch, OperatingSystem};

/// Whether a text writes a number between 0 and 1.
fn alpha(text: &str) -> bool {
    text.parse::<f64>()
        .is_ok_and(|value| (0.0..=1.0).contains(&value))
}

/// The entries of a report as pairs of path and message.
fn entries(report: &garde::Report) -> Vec<(String, String)> {
    report
        .iter()
        .map(|(path, error)| (path.to_string(), error.message().to_string()))
        .collect()
}

fn paths(report: &garde::Report) -> Vec<String> {
    report.iter().map(|(path, _)| path.to_string()).collect()
}

const TOO_SHORT: &str = "length is lower than 1";

fn pack() -> MIconPack {
    MIconPack {
        id: IconPackId("com.example.my-pack".to_string()),
        name: "My Icon Pack".to_string(),
        version: "0.1.0".to_string(),
        authors: vec!["Example Author 1".to_string()],
        description: None,
        icon: Some("images/icon.svg".to_string()),
    }
}

fn action(label: &str) -> ManifestAction {
    ManifestAction {
        label: label.to_string(),
        icon: None,
        display: None,
        icon_options: None,
        description: None,
        inspector: None,
    }
}

fn actions(list: Vec<(&str, ManifestAction)>) -> ActionMap {
    let mut map = IndexMap::new();
    for (key, value) in list {
        map.insert(ActionId(key.to_string()), value);
    }
    ActionMap(map)
}

fn plugin() -> MPlugin {
    MPlugin {
        id: PluginId("com.example.my-plugin".to_string()),
        name: "Example Plugin".to_string(),
        version: "0.1.0".to_string(),
        authors: vec!["Example Author 1".to_string(), "Example Author 2".to_string()],
        description: Some("My plugin".to_string()),
        icon: None,
        internal: None,
    }
}

fn node() -> MBin {
    MBin::Node {
        node: MBinNode {
            entrypoint: "bin/index.js".to_string(),
            version: BinaryNodeVersion(node_semver::Range::parse("=22.18.0").unwrap()),
        },
    }
}

fn manifest() -> PluginManifest {
    PluginManifest {
        plugin: plugin(),
        bin: Some(node()),
        category: MCategory {
            label: "My Category".to_string(),
            icon: None,
        },
        actions: actions(vec![
            ("first", action("First")),
            ("second", action("Second")),
        ]),
    }
}

#[test]
fn a_valid_icon_pack_manifest_passes() {
    let manifest = IconsManifest { icons: pack() };
    assert!(manifest.validate().is_ok());
    let back = manifest.clone().validated().unwrap();
    assert_eq!(back.icons.id, manifest.icons.id);
    assert_eq!(back.icons.name, manifest.icons.name);
}

#[test]
fn an_icon_pack_reports_every_broken_field_in_order() {
    let manifest = IconsManifest {
        icons: MIconPack {
            id: IconPackId("com.example.".to_string()),
            name: String::new(),
            version: String::new(),
            authors: vec![String::new()],
            description: Some(String::new()),
            icon: Some(String::new()),
        },
    };
    let report = manifest.validate().unwrap_err();
    assert_eq!(
        entries(&report),
        vec![
            (
                "icons.id".to_string(),
                "segment must start with an alphabetic character".to_string()
            ),
            ("icons.name".to_string(), TOO_SHORT.to_string()),
            ("icons.version".to_string(), TOO_SHORT.to_string()),
        ]
    );
    assert!(manifest.validated().is_err());
}

#[test]
fn the_authors_of_an_icon_pack_are_under_no_rule() {
    let mut icons = pack();
    icons.authors = vec![String::new(), String::new()];
    assert!(icons.validate().is_ok());
}

#[test]
fn an_icon_needs_a_path_and_a_name() {
    let icon = Icon {
        path: "images/icon.svg".to_string(),
        name: "My Icon".to_string(),
    };
    assert!(icon.validate().is_ok());
    let icon = Icon {
        path: String::new(),
        name: String::new(),
    };
    assert_eq!(
        entries(&icon.validate().unwrap_err()),
        vec![
            ("path".to_string(), TOO_SHORT.to_string()),
            ("name".to_string(), TOO_SHORT.to_string()),
        ]
    );
    let icon = Icon {
        path: "p".to_string(),
        name: String::new(),
    };
    assert_eq!(paths(&icon.validate().unwrap_err()), vec!["name"]);
}

#[test]
fn a_text_of_one_character_is_not_empty() {
    let mut icons = pack();
    icons.name = " ".to_string();
    icons.version = "\u{e9}".to_string();
    assert!(icons.validate().is_ok());
}

#[test]
fn a_valid_plugin_manifest_passes() {
    let manifest = manifest();
    assert!(manifest.validate_with(&alpha).is_ok());
    let back = manifest.clone().validated(&alpha).unwrap();
    assert_eq!(back.plugin.id, manifest.plugin.id);
    assert_eq!(back.actions.0.len(), 2);
}

#[test]
fn a_plugin_manifest_without_a_binary_passes() {
    let mut manifest = manifest();
    manifest.bin = None;
    assert!(manifest.validate_with(&alpha).is_ok());
}

#[test]
fn the_plugin_details_report_each_empty_author_at_its_position() {
    let mut details = plugin();
    details.id = PluginId("plugin.te$t".to_string());
    details.name = String::new();
    details.authors = vec![
        String::new(),
        "Someone".to_string(),
        String::new(),
    ];
    let report = details.validate().unwrap_err();
    assert_eq!(
        entries(&report),
        vec![
            (
                "id".to_string(),
                "segment contains invalid characters".to_string()
            ),
            ("name".to_string(), TOO_SHORT.to_string()),
            ("authors[0]".to_string(), TOO_SHORT.to_string()),
            ("authors[2]".to_string(), TOO_SHORT.to_string()),
        ]
    );
}

#[test]
fn positions_are_written_in_decimal() {
    let mut details = plugin();
    details.authors = (0..12)
        .map(|i| if i == 11 { String::new() } else { "x".to_string() })
        .collect();
    assert_eq!(paths(&details.validate().unwrap_err()), vec!["authors[11]"]);
}

#[test]
fn n_invalid_actions_give_n_entries_under_their_keys() {
    let mut manifest = manifest();
    manifest.actions = actions(vec![
        ("one", action("")),
        ("two", action("Two")),
        ("three", action("")),
        ("four", action("")),
        ("five", action("Five")),
        ("six", action("")),
        ("seven", action("")),
    ]);
    let report = manifest.validate_with(&alpha).unwrap_err();
    assert_eq!(
        paths(&report),
        vec![
            "actions.one.label",
            "actions.three.label",
            "actions.four.label",
            "actions.six.label",
            "actions.seven.label",
        ]
    );
}

#[test]
fn the_actions_are_walked_in_the_order_of_the_document() {
    let map = actions(vec![
        ("zeta", action("")),
        ("alpha", action("")),
        ("mid", action("")),
    ]);
    let report = map.validate_with(&alpha).unwrap_err();
    assert_eq!(
        paths(&report),
        vec!["zeta.label", "alpha.label", "mid.label"]
    );
    assert!(actions(vec![]).validate_with(&alpha).is_ok());
}

#[test]
fn the_keys_of_the_actions_are_checked_as_action_names() {
    let map = actions(vec![("not a name", action("Label"))]);
    assert_eq!(
        entries(&map.validate_with(&alpha).unwrap_err()),
        vec![(
            "not a name".to_string(),
            "name must only contain alpha numeric values and _ or -".to_string()
        )]
    );
    // the key is looked at before the action that it names
    let map = actions(vec![
        ("fine", action("")),
        ("1st", action("")),
        ("last_", action("Label")),
        ("good-one", action("Label")),
    ]);
    assert_eq!(
        entries(&map.validate_with(&alpha).unwrap_err()),
        vec![
            ("fine.label".to_string(), TOO_SHORT.to_string()),
            (
                "1st".to_string(),
                "name must start with a ascii alphabetic character".to_string()
            ),
            ("1st.label".to_string(), TOO_SHORT.to_string()),
            (
                "last_".to_string(),
                "name must not end with _ or -".to_string()
            ),
        ]
    );
}

#[test]
fn a_manifest_with_a_bad_action_key_does_not_come_back() {
    let mut manifest = manifest();
    manifest.actions = actions(vec![("first", action("First")), ("second.one", action("Second"))]);
    let report = manifest.validate_with(&alpha).unwrap_err();
    assert_eq!(
        entries(&report),
        vec![(
            "actions.second.one".to_string(),
            "name must only contain alpha numeric values and _ or -".to_string()
        )]
    );
    assert!(manifest.validated(&alpha).is_err());
}

#[test]
fn a_manifest_that_comes_back_holds_valid_identifiers_only() {
    let back = manifest().validated(&alpha).unwrap();
    assert!(PluginId::from_str(back.plugin.id.as_str()).is_ok());
    assert_eq!(back.actions.0.len(), 2);
    for (key, _) in back.actions.0.iter() {
        assert!(ActionId::from_str(key.as_str()).is_ok());
        assert!(key.validate().is_ok());
    }
    let pack = IconsManifest { icons: pack() }.validated().unwrap();
    assert!(IconPackId::from_str(pack.icons.id.as_str()).is_ok());

    let mut bad = manifest();
    bad.plugin.id = PluginId("com..example".to_string());
    assert!(bad.validated(&alpha).is_err());
    let mut bad = pack;
    bad.icons.id = IconPackId("-pack".to_string());
    assert!(bad.validated().is_err());
}

#[test]
fn the_colours_of_an_action_are_checked_one_step_under_their_field() {
    let mut with_options = action("Label");
    with_options.icon_options = Some(ManifestActionIconOptions {
        padding: Some(4),
        background_color: Some("rgb(300,0,0)".to_string()),
        border_color: Some("red".to_string()),
    });
    let report = with_options.validate_with(&alpha).unwrap_err();
    assert_eq!(
        entries(&report),
        vec![
            (
                "icon_options.background_color".to_string(),
                "rgb exceeded 255 bound".to_string()
            ),
            (
                "icon_options.border_color".to_string(),
                "invalid color value".to_string()
            ),
        ]
    );
    let (path, _) = report.iter().next().unwrap();
    assert_eq!(
        format!("{path:?}"),
        "Path { components: [(Key, \"icon_options\"), (Key, \"background_color\"), (None, \"\")] }"
    );
}

#[test]
fn valid_colours_and_absent_colours_add_nothing() {
    let mut with_options = action("Label");
    with_options.icon_options = Some(ManifestActionIconOptions {
        padding: None,
        background_color: Some(" #FFF ".to_string()),
        border_color: None,
    });
    assert!(with_options.validate_with(&alpha).is_ok());
    with_options.icon_options = Some(ManifestActionIconOptions::default());
    assert!(with_options.validate_with(&alpha).is_ok());
    let defaults = ManifestActionIconOptions::default();
    assert_eq!(defaults.padding, None);
    assert_eq!(defaults.background_color, None);
    assert_eq!(defaults.border_color, None);
}

#[test]
fn the_alpha_test_reaches_the_colours_of_a_manifest() {
    let mut manifest = manifest();
    let mut coloured = action("Label");
    coloured.icon_options = Some(ManifestActionIconOptions {
        padding: None,
        background_color: Some("rgba(0,0,0,0.5)".to_string()),
        border_color: Some("hsla(0,0%,0%,2)".to_string()),
    });
    manifest.actions = actions(vec![("coloured", coloured)]);
    assert_eq!(
        entries(&manifest.validate_with(&alpha).unwrap_err()),
        vec![(
            "actions.coloured.icon_options.border_color".to_string(),
            "invalid alpha".to_string()
        )]
    );
    assert!(manifest.validate_with(&|_: &str| true).is_ok());
    assert_eq!(
        paths(&manifest.validate_with(&|_: &str| false).unwrap_err()),
        vec![
            "actions.coloured.icon_options.background_color",
            "actions.coloured.icon_options.border_color",
        ]
    );
}

#[test]
fn a_node_binary_needs_an_entrypoint() {
    let bin = MBin::Node {
        node: MBinNode {
            entrypoint: String::new(),
            version: BinaryNodeVersion(node_semver::Range::parse("=22.18.0").unwrap()),
        },
    };
    assert_eq!(
        entries(&bin.validate().unwrap_err()),
        vec![("node.entrypoint".to_string(), TOO_SHORT.to_string())]
    );
    assert!(node().validate().is_ok());
}

#[test]
fn each_native_binary_needs_a_path() {
    let bin = MBin::Native {
        native: vec![
            MBinNative {
                os: OperatingSystem::Linux,
                arch: Arch::X64,
                path: String::new(),
            },
            MBinNative {
                os: OperatingSystem::Windows,
                arch: Arch::X64,
                path: "bin/win.exe".to_string(),
            },
            MBinNative {
                os: OperatingSystem::MacOs,
                arch: Arch::Arm64,
                path: String::new(),
            },
        ],
    };
    assert_eq!(
        entries(&bin.validate().unwrap_err()),
        vec![
            ("native[0].path".to_string(), TOO_SHORT.to_string()),
            ("native[2].path".to_string(), TOO_SHORT.to_string()),
        ]
    );
    assert!(MBin::Native { native: vec![] }.validate().is_ok());
}

#[test]
fn a_plugin_manifest_reports_everything_in_the_order_of_its_fields() {
    let mut broken = action("");
    broken.icon_options = Some(ManifestActionIconOptions {
        padding: None,
        background_color: Some("#12".to_string()),
        border_color: None,
    });
    let manifest = PluginManifest {
        plugin: MPlugin {
            id: PluginId("1plugin.test".to_string()),
            name: "Plugin".to_string(),
            version: String::new(),
            authors: vec!["A".to_string(), String::new()],
            description: None,
            icon: None,
            internal: Some(true),
        },
        bin: Some(MBin::Native {
            native: vec![MBinNative {
                os: OperatingSystem::Linux,
                arch: Arch::Arm,
                path: String::new(),
            }],
        }),
        category: MCategory {
            label: String::new(),
            icon: Some(String::new()),
        },
        actions: actions(vec![("fine", action("Fine")), ("broken", broken)]),
    };
    let report = manifest.validate_with(&alpha).unwrap_err();
    assert_eq!(
        entries(&report),
        vec![
            (
                "plugin.id".to_string(),
                "segment must start with an alphabetic character".to_string()
            ),
            ("plugin.version".to_string(), TOO_SHORT.to_string()),
            ("plugin.authors[1]".to_string(), TOO_SHORT.to_string()),
            ("bin.native[0].path".to_string(), TOO_SHORT.to_string()),
            ("category.label".to_string(), TOO_SHORT.to_string()),
            ("actions.broken.label".to_string(), TOO_SHORT.to_string()),
            (
                "actions.broken.icon_options.background_color".to_string(),
                "hex color must be 3, 4, 6, or 8 hex digits".to_string()
            ),
        ]
    );
    assert!(manifest.validated(&alpha).is_err());
}

#[test]
fn validation_adds_to_a_report_that_already_holds_entries() {
    let mut report = garde::Report::new();
    report.append(garde::Path::new("earlier"), garde::Error::new("kept"));
    let category = MCategory {
        label: String::new(),
        icon: None,
    };
    category.validate_into(&garde::Path::new("root").join(3usize), &mut report);
    assert_eq!(
        entries(&report),
        vec![
            ("earlier".to_string(), "kept".to_string()),
            ("root[3].label".to_string(), TOO_SHORT.to_string()),
        ]
    );
    let id = PluginId("bad id".to_string());
    id.validate_into(&garde::Path::new("here"), &mut report);
    assert_eq!(paths(&report), vec!["earlier", "root[3].label", "here"]);
}

#[test]
fn a_clone_of_a_manifest_validates_like_the_manifest() {
    let mut manifest = manifest();
    manifest.actions = actions(vec![("a", action("")), ("b", action(""))]);
    let copy = manifest.clone();
    assert_eq!(
        paths(&copy.validate_with(&alpha).unwrap_err()),
        paths(&manifest.validate_with(&alpha).unwrap_err())
    );
    assert_eq!(copy.bin.is_some(), manifest.bin.is_some());
}

#[test]
fn the_wrapped_values_can_be_borrowed() {
    let version = BinaryNodeVersion(node_semver::Range::parse(">=18").unwrap());
    assert_eq!(version.as_ref(), &node_semver::Range::parse(">=18").unwrap());
    let map = actions(vec![("a", action("A"))]);
    assert_eq!(map.as_ref().len(), 1);
    assert!(map.as_ref().contains_key(&ActionId("a".to_string())));
}

/// Messages in place of the ones that the rules of `garde` come with.
struct Terse;

impl garde::i18n::I18n for Terse {
    fn length_lower_than(&self, _min: usize) -> std::borrow::Cow<'static, str> {
        "too short".into()
    }

    fn length_greater_than(&self, _max: usize) -> std::borrow::Cow<'static, str> {
        "too long".into()
    }

    fn range_lower_than(&self, _min: &dyn std::fmt::Display) -> std::borrow::Cow<'static, str> {
        "too low".into()
    }

    fn range_greater_than(&self, _max: &dyn std::fmt::Display) -> std::borrow::Cow<'static, str> {
        "too high".into()
    }

    fn credit_card_invalid(
        &self,
        _reason: garde::i18n::InvalidCreditCard,
    ) -> std::borrow::Cow<'static, str> {
        "no card".into()
    }

    fn pattern_no_match(&self, _pattern: &dyn std::fmt::Display) -> std::borrow::Cow<'static, str> {
        "no match".into()
    }

    fn contains_missing(&self, _pattern: &dyn std::fmt::Display) -> std::borrow::Cow<'static, str> {
        "not in it".into()
    }

    fn url_invalid(&self, _reason: garde::i18n::InvalidUrl) -> std::borrow::Cow<'static, str> {
        "no url".into()
    }

    fn prefix_missing(&self, _pattern: &dyn std::fmt::Display) -> std::borrow::Cow<'static, str> {
        "no prefix".into()
    }

    fn suffix_missing(&self, _pattern: &dyn std::fmt::Display) -> std::borrow::Cow<'static, str> {
        "no suffix".into()
    }

    fn phone_number_invalid(
        &self,
        _reason: garde::i18n::InvalidPhoneNumber,
    ) -> std::borrow::Cow<'static, str> {
        "no phone number".into()
    }

    fn ip_invalid(&self, _kind: garde::i18n::IpKind) -> std::borrow::Cow<'static, str> {
        "no address".into()
    }

    fn matches_field_mismatch(
        &self,
        _field: &dyn std::fmt::Display,
    ) -> std::borrow::Cow<'static, str> {
        "no match".into()
    }

    fn email_invalid(&self, _reason: garde::i18n::InvalidEmail) -> std::borrow::Cow<'static, str> {
        "no email".into()
    }

    fn ascii_invalid(&self) -> std::borrow::Cow<'static, str> {
        "not ascii".into()
    }

    fn alphanumeric_invalid(&self) -> std::borrow::Cow<'static, str> {
        "not alphanumeric".into()
    }

    fn required_not_set(&self) -> std::borrow::Cow<'static, str> {
        "not set".into()
    }
}

#[test]
fn the_wording_for_an_empty_text_is_the_one_installed_in_the_thread() {
    let mut details = plugin();
    details.id = PluginId("1".to_string());
    details.name = String::new();
    let report = garde::with_i18n(Terse, || details.validate()).unwrap_err();
    assert_eq!(
        entries(&report),
        vec![
            (
                "id".to_string(),
                "segment must start with an alphabetic character".to_string()
            ),
            ("name".to_string(), "too short".to_string()),
        ]
    );
    let report = details.validate().unwrap_err();
    assert_eq!(
        entries(&report)[1],
        ("name".to_string(), TOO_SHORT.to_string())
    );
}
