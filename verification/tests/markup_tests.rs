use yarn_slinger::markup::{parse_markup, MarkupAttributeMarker, MarkupProperty, MarkupValue, TagType};

#[test]
fn markup_strips_tags_and_records_span() {
    let r = parse_markup("[a]Hello[/a] world");
    assert_eq!(r.text, "Hello world");
    assert_eq!(r.attributes.len(), 1);
    assert_eq!(r.attributes[0].name, "a");
    assert_eq!(r.attributes[0].position, 0);
    assert_eq!(r.attributes[0].length, 5);
}

#[test]
fn markup_close_all_on_empty_stack_is_noop() {
    let r = parse_markup("[/]");
    assert_eq!(r.text, "");
    assert!(r.attributes.is_empty());
}

#[test]
fn markup_plain_text_passes_through() {
    let r = parse_markup("no markers here");
    assert_eq!(r.text, "no markers here");
    assert!(r.attributes.is_empty());
}

#[test]
fn markup_self_closing_tag_has_zero_length() {
    let r = parse_markup("a[wave/]b");
    assert_eq!(r.text, "ab");
    assert_eq!(r.attributes.len(), 1);
    assert_eq!(r.attributes[0].name, "wave");
    assert_eq!(r.attributes[0].position, 1);
    assert_eq!(r.attributes[0].length, 0);
}

#[test]
fn markup_shorthand_property_binds_tag_name() {
    let r = parse_markup("[mood=happy]Hi[/mood]");
    assert_eq!(r.text, "Hi");
    assert_eq!(r.attributes.len(), 1);
    assert_eq!(r.attributes[0].properties.len(), 1);
    assert_eq!(r.attributes[0].properties[0].name, "mood");
    assert_eq!(
        r.attributes[0].properties[0].value,
        MarkupValue::String("happy".to_owned())
    );
}

#[test]
fn markup_integer_and_bool_properties() {
    let r = parse_markup("[shake power=3 fade=true]x[/shake]");
    assert_eq!(r.text, "x");
    let props = &r.attributes[0].properties;
    assert_eq!(props.len(), 2);
    assert_eq!(props[0].name, "power");
    assert_eq!(props[0].value, MarkupValue::Integer(3));
    assert_eq!(props[1].name, "fade");
    assert_eq!(props[1].value, MarkupValue::Bool(true));
}

#[test]
fn markup_unterminated_marker_is_literal() {
    let r = parse_markup("oops [bracket");
    assert_eq!(r.text, "oops [bracket");
    assert!(r.attributes.is_empty());
}

#[test]
fn markup_unmatched_close_is_literal() {
    let r = parse_markup("[/b]done");
    assert_eq!(r.text, "[/b]done");
    assert!(r.attributes.is_empty());
}

#[test]
fn markup_source_position_tracks_original_text() {
    let r = parse_markup("ab[x]cd[/x]");
    assert_eq!(r.text, "abcd");
    assert_eq!(r.attributes.len(), 1);
    assert_eq!(r.attributes[0].position, 2);
    assert_eq!(r.attributes[0].source_position, 2);
    assert_eq!(r.attributes[0].length, 2);
}

#[test]
fn marker_get_property_finds_first_match() {
    let marker = MarkupAttributeMarker {
        name: "m".to_owned(),
        position: 0,
        source_position: 0,
        properties: vec![
            MarkupProperty { name: "k".to_owned(), value: MarkupValue::Integer(1) },
            MarkupProperty { name: "other".to_owned(), value: MarkupValue::Bool(false) },
        ],
        marker_type: TagType::Open,
    };
    assert_eq!(marker.get_property("k"), Some(&MarkupValue::Integer(1)));
    assert_eq!(marker.get_property("missing"), None);
}

#[test]
fn markup_malformed_marker_reports_a_warning() {
    let r = parse_markup("[/b]done");
    assert_eq!(r.diagnostics.len(), 1);
    let r2 = parse_markup("oops [bracket");
    assert_eq!(r2.diagnostics.len(), 1);
    let fine = parse_markup("[a]x[/a]");
    assert!(fine.diagnostics.is_empty());
}

#[test]
fn markup_repeated_property_keys_keep_one_entry() {
    let r = parse_markup("[m k=1 k=2]x[/m]");
    assert_eq!(r.attributes.len(), 1);
    assert_eq!(r.attributes[0].properties.len(), 1);
    assert_eq!(r.attributes[0].properties[0].name, "k");
    assert_eq!(r.attributes[0].properties[0].value, MarkupValue::Integer(2));
}

#[test]
fn markup_replacements_splice_processor_text() {
    let reps = vec![("wave".to_owned(), "~~".to_owned())];
    let r = yarn_slinger::markup::parse_markup_with_replacements("[wave/] hi", &reps);
    assert_eq!(r.text, "~~ hi");
    assert_eq!(r.attributes.len(), 1);
    assert_eq!(r.attributes[0].name, "wave");
    assert_eq!(r.attributes[0].position, 0);
    assert_eq!(r.attributes[0].length, 2);
    // a later attribute's plain-text and source positions now diverge
    let r2 = yarn_slinger::markup::parse_markup_with_replacements("[wave/]x[b]y[/b]", &reps);
    assert_eq!(r2.text, "~~xy");
    let b = r2.attributes.iter().find(|a| a.name == "b").expect("attr");
    assert_eq!(b.position, 3);
    assert_eq!(b.source_position, 8);
}
