use tilepad_manifest::icons::IconPackId;
use tilepad_manifest::plugin::{ActionId, PluginId};
use tilepad_manifest::validation::{
    check_id, check_marked, check_segment, validate_id, validate_name, SegmentFault,
};

#[test]
fn validate_id_allows_simple_valid_id() {
    assert!(validate_id("plugin.test", &()).is_ok());
    assert!(validate_id("abc.def123", &()).is_ok());
    assert!(validate_id("abc-def.ghi_jkl", &()).is_ok());
}

#[test]
fn validate_id_fails_if_segment_does_not_start_with_letter() {
    assert!(validate_id("1plugin.test", &()).is_err());
    assert!(validate_id("plugin.1test", &()).is_err());
    assert!(validate_id(".test", &()).is_err());
}

#[test]
fn validate_id_fails_if_segment_contains_invalid_characters() {
    assert!(validate_id("plugin.te$t", &()).is_err());
    assert!(validate_id("plugin.te st", &()).is_err());
    assert!(validate_id("plugin.te+st", &()).is_err());
}

#[test]
fn validate_id_fails_if_segment_ends_with_separator() {
    assert!(validate_id("plugin.test_", &()).is_err());
    assert!(validate_id("plugin.test-", &()).is_err());
    assert!(validate_id("abc_.def", &()).is_err());
}

#[test]
fn validate_name_allows_valid_name() {
    assert!(validate_name("ActionName", &()).is_ok());
    assert!(validate_name("my_action-1", &()).is_ok());
}

#[test]
fn validate_name_fails_if_not_starting_with_letter() {
    assert!(validate_name("1Action", &()).is_err());
    assert!(validate_name("_Action", &()).is_err());
    assert!(validate_name("-Action", &()).is_err());
}

#[test]
fn validate_name_fails_on_invalid_characters() {
    assert!(validate_name("Action!", &()).is_err());
    assert!(validate_name("Action Name", &()).is_err());
    assert!(validate_name("Action@", &()).is_err());
}

#[test]
fn validate_name_fails_if_ends_with_separator() {
    assert!(validate_name("Action_", &()).is_err());
    assert!(validate_name("Action-", &()).is_err());
}

#[test]
fn the_four_standard_identifiers() {
    assert!(validate_id("plugin.test", &()).is_ok());
    assert_eq!(
        validate_id("1plugin.test", &()).unwrap_err().message(),
        "segment must start with an alphabetic character"
    );
    assert_eq!(
        validate_id("plugin.te$t", &()).unwrap_err().message(),
        "segment contains invalid characters"
    );
    assert_eq!(
        validate_id("plugin.test_", &()).unwrap_err().message(),
        "segment must not end with separator"
    );
}

#[test]
fn an_empty_segment_fails_the_start_rule() {
    for value in ["", ".", "a.", ".a", "a..b", "a.b."] {
        assert_eq!(
            validate_id(value, &()).unwrap_err().message(),
            "segment must start with an alphabetic character",
            "{value}"
        );
    }
}

#[test]
fn the_first_faulty_segment_decides() {
    // first segment ends with a separator, second starts with a digit
    assert_eq!(
        validate_id("abc_.1def", &()).unwrap_err().message(),
        "segment must not end with separator"
    );
    // first segment is fine, second has a bad character and a bad ending
    assert_eq!(
        validate_id("abc.d$f_", &()).unwrap_err().message(),
        "segment contains invalid characters"
    );
    // within one segment the start rule comes first
    assert_eq!(
        validate_id("abc.1$_", &()).unwrap_err().message(),
        "segment must start with an alphabetic character"
    );
}

#[test]
fn the_start_must_be_ascii_but_the_rest_may_be_any_alphanumeric() {
    assert!(validate_id("caf\u{e9}.stra\u{df}e", &()).is_ok());
    assert!(validate_id("a\u{0663}", &()).is_ok());
    assert!(validate_id("\u{e9}cole.test", &()).is_err());
    assert!(validate_name("na\u{ef}ve", &()).is_ok());
    assert!(validate_name("\u{ef}", &()).is_err());
}

#[test]
fn separators_may_stand_inside_a_segment() {
    assert!(validate_id("a-b_c.d--e", &()).is_ok());
    assert!(validate_id("a-.b", &()).is_err());
    assert!(validate_name("a_-_b", &()).is_ok());
}

#[test]
fn a_name_is_one_segment() {
    assert_eq!(
        validate_name("my.action", &()).unwrap_err().message(),
        "name must only contain alpha numeric values and _ or -"
    );
    assert_eq!(
        validate_name("", &()).unwrap_err().message(),
        "name must start with a ascii alphabetic character"
    );
    assert_eq!(
        validate_name("9lives", &()).unwrap_err().message(),
        "name must start with a ascii alphabetic character"
    );
    assert_eq!(
        validate_name("action-", &()).unwrap_err().message(),
        "name must not end with _ or -"
    );
    assert!(validate_name("a", &()).is_ok());
}

#[test]
fn check_id_names_the_rule() {
    let chars: Vec<char> = "com.example.my-plugin".chars().collect();
    assert_eq!(check_id(&chars), None);
    let chars: Vec<char> = "com.example.my-plugin-".chars().collect();
    assert_eq!(check_id(&chars), Some(SegmentFault::Ending));
    let chars: Vec<char> = "com.exa mple".chars().collect();
    assert_eq!(check_id(&chars), Some(SegmentFault::Characters));
    let chars: Vec<char> = "com..example".chars().collect();
    assert_eq!(check_id(&chars), Some(SegmentFault::Start));
    let chars: Vec<char> = "x".chars().collect();
    assert_eq!(check_segment(&chars), None);
    let chars: Vec<char> = "x.y".chars().collect();
    assert_eq!(check_segment(&chars), Some(SegmentFault::Characters));
}

#[test]
fn plugin_id_is_made_of_a_valid_text_only() {
    let id = PluginId::from_str("com.example.my-plugin").unwrap();
    assert_eq!(id.as_str(), "com.example.my-plugin");
    assert_eq!(id.to_string(), "com.example.my-plugin");
    assert_eq!(id.0, "com.example.my-plugin");

    let report = PluginId::from_str("com.example.").unwrap_err();
    let entries: Vec<(String, String)> = report
        .iter()
        .map(|(path, error)| (path.to_string(), error.message().to_string()))
        .collect();
    assert_eq!(
        entries,
        vec![(
            String::new(),
            "segment must start with an alphabetic character".to_string()
        )]
    );
    assert!(PluginId::try_from("1abc".to_string()).is_err());
    assert_eq!(
        PluginId::try_from("abc".to_string()).unwrap(),
        PluginId("abc".to_string())
    );
}

#[test]
fn icon_pack_id_is_made_of_a_valid_text_only() {
    let id = IconPackId::from_str("com.example.my-pack").unwrap();
    assert_eq!(id.as_str(), "com.example.my-pack");
    assert!(IconPackId::from_str("com.example.my pack").is_err());
    assert!(IconPackId::try_from("com.example".to_string()).is_ok());
    assert!(IconPackId::try_from(String::new()).is_err());
}

#[test]
fn action_id_is_made_of_a_valid_name_only() {
    let id = ActionId::from_str("my_action-1").unwrap();
    assert_eq!(id.as_str(), "my_action-1");
    let report = ActionId::from_str("my.action").unwrap_err();
    let entries: Vec<(String, String)> = report
        .iter()
        .map(|(path, error)| (path.to_string(), error.message().to_string()))
        .collect();
    assert_eq!(
        entries,
        vec![(
            String::new(),
            "name must only contain alpha numeric values and _ or -".to_string()
        )]
    );
    assert!(ActionId::try_from("ok".to_string()).is_ok());
    assert!(ActionId::try_from("-no".to_string()).is_err());
}

#[test]
fn a_valid_identifier_reads_back_from_its_own_text() {
    for text in ["plugin.test", "a", "com.example.my-plugin_2"] {
        let id = PluginId::from_str(text).unwrap();
        let again = PluginId::from_str(id.as_str()).unwrap();
        assert_eq!(again, id);
        assert_eq!(again.as_str(), text);
        assert!(again.validate().is_ok());

        let pack = IconPackId::from_str(text).unwrap();
        assert_eq!(IconPackId::from_str(pack.as_str()).unwrap(), pack);
    }
    let name = ActionId::from_str("MyAction").unwrap();
    assert_eq!(ActionId::from_str(name.as_str()).unwrap(), name);
}

#[test]
fn identifiers_parse_through_the_std_trait_too() {
    let id: PluginId = "com.example".parse().unwrap();
    assert_eq!(id.as_str(), "com.example");
    assert!("com.example-".parse::<PluginId>().is_err());
    assert!("pack.one".parse::<IconPackId>().is_ok());
    assert!("action one".parse::<ActionId>().is_err());
    let text: &str = id.as_ref();
    assert_eq!(text, "com.example");
}

#[test]
fn an_identifier_that_was_not_checked_is_reported_by_validate() {
    let id = PluginId("not valid".to_string());
    let report = id.validate().unwrap_err();
    assert_eq!(report.iter().count(), 1);
    let id = ActionId("fine".to_string());
    assert!(id.validate().is_ok());
}

#[test]
fn a_marked_segment_is_judged_by_its_marks() {
    assert_eq!(check_marked(&[('a', true), ('b', true)]), None);
    // the mark decides, not the character
    assert_eq!(
        check_marked(&[('a', true), ('b', false)]),
        Some(SegmentFault::Characters)
    );
    assert_eq!(check_marked(&[('a', false)]), Some(SegmentFault::Characters));
    assert_eq!(check_marked(&[('a', true), ('$', true)]), None);
    // separators need no mark, but may not stand last
    assert_eq!(check_marked(&[('a', true), ('-', false), ('b', true)]), None);
    assert_eq!(
        check_marked(&[('a', true), ('_', false)]),
        Some(SegmentFault::Ending)
    );
    assert_eq!(
        check_marked(&[('a', true), ('_', true)]),
        Some(SegmentFault::Ending)
    );
    // the start is judged by the character alone
    assert_eq!(check_marked(&[]), Some(SegmentFault::Start));
    assert_eq!(check_marked(&[('1', true)]), Some(SegmentFault::Start));
    assert_eq!(check_marked(&[('\u{e9}', true)]), Some(SegmentFault::Start));
    assert_eq!(
        check_marked(&[('-', false), ('$', false)]),
        Some(SegmentFault::Start)
    );
}

#[test]
fn each_identifier_gives_its_text_as_a_string() {
    assert_eq!(PluginId("a.b".to_string()).to_string(), "a.b");
    assert_eq!(IconPackId("c.d".to_string()).to_string(), "c.d");
    assert_eq!(ActionId("e-f".to_string()).to_string(), "e-f");
    let pack = IconPackId("c.d".to_string());
    let text: &str = pack.as_ref();
    assert_eq!(text, "c.d");
    let name = ActionId("e-f".to_string());
    let text: &str = name.as_ref();
    assert_eq!(text, "e-f");
}
