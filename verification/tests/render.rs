use egui_json_tree::{
    generate_id, Child, Closing, Delimiters, Element, ExpandStore, Indent, JsonTree, Number, Value,
};

fn text(s: &str) -> String {
    s.to_string()
}

fn pos_int(n: u64) -> Value {
    Value::Number(Number::PosInt(n))
}

/// `{"a": [1, 2], "b": null}`
fn sample() -> Value {
    Value::Object(vec![
        (text("a"), Value::Array(vec![pos_int(1), pos_int(2)])),
        (text("b"), Value::Null),
    ])
}

fn leaf(label: &str) -> Element {
    Element::Leaf { label: text(label) }
}

fn path(segments: &[&str]) -> Vec<String> {
    segments.iter().map(|s| s.to_string()).collect()
}

#[test]
fn expanded_object_renders_header_body_and_closing() {
    let mut store = ExpandStore::new();
    let element = JsonTree::new(7).default_open(true).show(&mut store, &sample());

    let root_id = generate_id(7, &path(&[]));
    let a_tree = generate_id(7, &path(&["a"]));
    let a_id = generate_id(a_tree, &path(&["a"]));
    let expected = Element::Container {
        id: root_id,
        heading: None,
        expanded: true,
        delimiters: Delimiters::object(),
        body: vec![
            Child {
                indent: Indent::Flush,
                element: Element::Container {
                    id: a_id,
                    heading: Some(text("\"a\":")),
                    expanded: true,
                    delimiters: Delimiters::array(),
                    body: vec![
                        Child { indent: Indent::IconStep, element: leaf("0: 1") },
                        Child { indent: Indent::IconStep, element: leaf("1: 2") },
                    ],
                },
            },
            Child { indent: Indent::IconStep, element: leaf("\"b\": null") },
        ],
    };
    assert_eq!(element, expected);
    assert_eq!(element.header_text(), "{");
    assert_eq!(element.closing(), Some(Closing { indent: Indent::HalfIcon, text: "}" }));
    match &element {
        Element::Container { body, .. } => {
            assert_eq!(body[0].element.header_text(), "[");
            assert_eq!(
                body[0].element.closing(),
                Some(Closing { indent: Indent::HalfIcon, text: "]" })
            );
        }
        Element::Leaf { .. } => panic!("the root is a container"),
    }
}

#[test]
fn collapsed_object_renders_header_only() {
    let mut store = ExpandStore::new();
    let element = JsonTree::new(7).default_open(false).show(&mut store, &sample());

    let expected = Element::Container {
        id: generate_id(7, &path(&[])),
        heading: None,
        expanded: false,
        delimiters: Delimiters::object(),
        body: vec![],
    };
    assert_eq!(element, expected);
    assert_eq!(element.header_text(), "{...}");
    assert_eq!(element.closing(), None);
}

#[test]
fn new_tree_starts_collapsed() {
    let mut store = ExpandStore::new();
    let element = JsonTree::new(7).show(&mut store, &sample());
    assert_eq!(element.header_text(), "{...}");
}

#[test]
fn body_appears_after_the_header_is_toggled() {
    let mut store = ExpandStore::new();
    let first = JsonTree::new(7).show(&mut store, &sample());
    let id = match &first {
        Element::Container { id, body, .. } => {
            assert!(body.is_empty());
            *id
        }
        Element::Leaf { .. } => panic!("the root is a container"),
    };
    store.toggle(id);
    let second = JsonTree::new(7).show(&mut store, &sample());
    match &second {
        Element::Container { expanded, body, .. } => {
            assert!(*expanded);
            assert_eq!(body.len(), 2);
            assert_eq!(body[0].element.header_text(), "[...]");
            assert_eq!(body[1].element, leaf("\"b\": null"));
        }
        Element::Leaf { .. } => panic!("the root is a container"),
    }
}

#[test]
fn empty_array_expanded_has_empty_body_and_closing() {
    let mut store = ExpandStore::new();
    let element = JsonTree::new(1).default_open(true).show(&mut store, &Value::Array(vec![]));
    match &element {
        Element::Container { heading, expanded, body, .. } => {
            assert_eq!(*heading, None);
            assert!(*expanded);
            assert!(body.is_empty());
        }
        Element::Leaf { .. } => panic!("an array is a container"),
    }
    assert_eq!(element.header_text(), "[");
    assert_eq!(element.closing(), Some(Closing { indent: Indent::HalfIcon, text: "]" }));
}

#[test]
fn empty_object_collapsed_shows_collapsed_delimiter() {
    let mut store = ExpandStore::new();
    let element = JsonTree::new(1).show(&mut store, &Value::Object(vec![]));
    assert_eq!(element.header_text(), "{...}");
    assert_eq!(element.closing(), None);
}

#[test]
fn root_leaves_have_an_empty_prefix() {
    let mut store = ExpandStore::new();
    let cases = vec![
        (Value::Null, ": null"),
        (Value::Bool(true), ": true"),
        (Value::Bool(false), ": false"),
        (pos_int(42), ": 42"),
        (Value::Number(Number::NegInt(-17)), ": -17"),
        (Value::Number(Number::Float(text("1.5"))), ": 1.5"),
        (Value::String(text("hi")), ": \"hi\""),
        (Value::String(text("")), ": \"\""),
    ];
    for (value, label) in cases {
        let element = JsonTree::new(3).show(&mut store, &value);
        assert_eq!(element, leaf(label));
        assert_eq!(element.header_text(), "");
        assert_eq!(element.closing(), None);
    }
    assert_eq!(store.is_open(generate_id(3, &path(&[]))), None);
}

#[test]
fn string_leaves_differ_in_the_payload_only() {
    let mut store = ExpandStore::new();
    let tree = Value::Array(vec![Value::String(text("a"))]);
    let other = Value::Array(vec![Value::String(text("b"))]);
    let first = JsonTree::new(3).default_open(true).show(&mut store, &tree);
    let second = JsonTree::new(3).default_open(true).show(&mut store, &other);
    let label_of = |element: &Element| match element {
        Element::Container { body, .. } => match &body[0].element {
            Element::Leaf { label } => label.clone(),
            Element::Container { .. } => panic!("a string is a leaf"),
        },
        Element::Leaf { .. } => panic!("an array is a container"),
    };
    assert_eq!(label_of(&first), "0: \"a\"");
    assert_eq!(label_of(&second), "0: \"b\"");
    assert_ne!(label_of(&first), label_of(&second));
}

#[test]
fn strings_are_quoted_without_escaping() {
    let mut store = ExpandStore::new();
    let element = JsonTree::new(3).show(&mut store, &Value::String(text("a\"b")));
    assert_eq!(element, leaf(": \"a\"b\""));
}

#[test]
fn object_keys_are_quoted_and_indices_are_bare() {
    let mut store = ExpandStore::new();
    let value = Value::Object(vec![(text("k"), Value::Array(vec![Value::Bool(true)]))]);
    let element = JsonTree::new(5).default_open(true).show(&mut store, &value);
    match &element {
        Element::Container { body, .. } => match &body[0].element {
            Element::Container { heading, body, .. } => {
                assert_eq!(heading.as_deref(), Some("\"k\":"));
                assert_eq!(body[0].element, leaf("0: true"));
            }
            Element::Leaf { .. } => panic!("an array is a container"),
        },
        Element::Leaf { .. } => panic!("an object is a container"),
    }
}

#[test]
fn containers_stand_flush_and_leaves_are_indented() {
    let mut store = ExpandStore::new();
    let value = Value::Array(vec![
        Value::Null,
        Value::Array(vec![]),
        Value::Object(vec![]),
        Value::String(text("s")),
    ]);
    let element = JsonTree::new(5).default_open(true).show(&mut store, &value);
    match &element {
        Element::Container { body, .. } => {
            let places: Vec<Indent> = body.iter().map(|child| child.indent).collect();
            assert_eq!(
                places,
                vec![Indent::IconStep, Indent::Flush, Indent::Flush, Indent::IconStep]
            );
        }
        Element::Leaf { .. } => panic!("an array is a container"),
    }
}

#[test]
fn two_renders_without_interaction_are_identical() {
    let mut store = ExpandStore::new();
    let first = JsonTree::new(7).default_open(true).show(&mut store, &sample());
    let root = store.is_open(generate_id(7, &path(&[])));
    let second = JsonTree::new(7).default_open(true).show(&mut store, &sample());
    assert_eq!(first, second);
    assert_eq!(store.is_open(generate_id(7, &path(&[]))), root);
}

#[test]
fn second_render_keeps_the_states_whatever_its_default() {
    let mut store = ExpandStore::new();
    let first = JsonTree::new(7).default_open(true).show(&mut store, &sample());
    let second = JsonTree::new(7).default_open(false).show(&mut store, &sample());
    assert_eq!(first, second);
}

#[test]
fn render_creates_the_states_of_the_containers_it_meets() {
    let mut store = ExpandStore::new();
    let root_id = generate_id(7, &path(&[]));
    let a_id = generate_id(generate_id(7, &path(&["a"])), &path(&["a"]));
    assert_eq!(store.is_open(root_id), None);

    JsonTree::new(7).show(&mut store, &sample());
    assert_eq!(store.is_open(root_id), Some(false));
    assert_eq!(store.is_open(a_id), None);

    store.toggle(root_id);
    JsonTree::new(7).show(&mut store, &sample());
    assert_eq!(store.is_open(root_id), Some(true));
    assert_eq!(store.is_open(a_id), Some(false));
}

#[test]
fn toggle_flips_one_node_and_spares_the_others() {
    let mut store = ExpandStore::new();
    let value = Value::Array(vec![Value::Array(vec![]), Value::Array(vec![])]);
    JsonTree::new(9).default_open(true).show(&mut store, &value);
    let root_id = generate_id(9, &path(&[]));
    let first = generate_id(generate_id(9, &path(&["0"])), &path(&["0"]));
    let second = generate_id(generate_id(9, &path(&["1"])), &path(&["1"]));
    assert_eq!(store.is_open(first), Some(true));

    store.toggle(first);
    assert_eq!(store.is_open(first), Some(false));
    assert_eq!(store.is_open(second), Some(true));
    assert_eq!(store.is_open(root_id), Some(true));

    let element = JsonTree::new(9).default_open(true).show(&mut store, &value);
    match &element {
        Element::Container { expanded, body, .. } => {
            assert!(*expanded);
            assert_eq!(body[0].element.header_text(), "[...]");
            assert_eq!(body[1].element.header_text(), "[");
        }
        Element::Leaf { .. } => panic!("an array is a container"),
    }
}

#[test]
fn two_toggles_restore_the_render() {
    let mut store = ExpandStore::new();
    let before = JsonTree::new(7).default_open(true).show(&mut store, &sample());
    let a_id = generate_id(generate_id(7, &path(&["a"])), &path(&["a"]));

    store.toggle(a_id);
    let collapsed = JsonTree::new(7).default_open(true).show(&mut store, &sample());
    assert_ne!(collapsed, before);

    store.toggle(a_id);
    let after = JsonTree::new(7).default_open(true).show(&mut store, &sample());
    assert_eq!(after, before);
}

#[test]
fn state_is_kept_by_path_when_the_value_changes() {
    let mut store = ExpandStore::new();
    let root_id = generate_id(7, &path(&[]));
    JsonTree::new(7).show(&mut store, &sample());
    store.toggle(root_id);

    let other = Value::Array(vec![Value::Null]);
    let element = JsonTree::new(7).show(&mut store, &other);
    assert_eq!(element.header_text(), "[");
    match &element {
        Element::Container { id, body, .. } => {
            assert_eq!(*id, root_id);
            assert_eq!(body.len(), 1);
        }
        Element::Leaf { .. } => panic!("an array is a container"),
    }
}

#[test]
fn trees_with_different_identities_keep_separate_states() {
    let mut store = ExpandStore::new();
    JsonTree::new(1).show(&mut store, &sample());
    store.toggle(generate_id(1, &path(&[])));
    let one = JsonTree::new(1).show(&mut store, &sample());
    let two = JsonTree::new(2).show(&mut store, &sample());
    assert_eq!(one.header_text(), "{");
    assert_eq!(two.header_text(), "{...}");
}

#[test]
fn nested_containers_are_keyed_by_their_path() {
    let mut store = ExpandStore::new();
    let value = Value::Array(vec![Value::Object(vec![(text("k"), Value::Array(vec![]))])]);
    let element = JsonTree::new(4).default_open(true).show(&mut store, &value);

    let outer_tree = generate_id(4, &path(&["0"]));
    let outer = generate_id(outer_tree, &path(&["0"]));
    let inner_tree = generate_id(outer_tree, &path(&["0", "k"]));
    let inner = generate_id(inner_tree, &path(&["0", "k"]));
    match &element {
        Element::Container { body, .. } => match &body[0].element {
            Element::Container { id, heading, body, .. } => {
                assert_eq!(*id, outer);
                assert_eq!(heading.as_deref(), Some("0:"));
                match &body[0].element {
                    Element::Container { id, heading, .. } => {
                        assert_eq!(*id, inner);
                        assert_eq!(heading.as_deref(), Some("\"k\":"));
                    }
                    Element::Leaf { .. } => panic!("an array is a container"),
                }
            }
            Element::Leaf { .. } => panic!("an object is a container"),
        },
        Element::Leaf { .. } => panic!("an array is a container"),
    }
    assert_eq!(store.is_open(outer), Some(true));
    assert_eq!(store.is_open(inner), Some(true));
}

#[test]
fn indents_are_counted_in_icon_metrics() {
    assert_eq!((Indent::Flush.icon_halves(), Indent::Flush.icon_spacings()), (0, 0));
    assert_eq!((Indent::IconStep.icon_halves(), Indent::IconStep.icon_spacings()), (2, 1));
    assert_eq!((Indent::HalfIcon.icon_halves(), Indent::HalfIcon.icon_spacings()), (1, 0));
    assert!(Indent::Flush.guide_line());
    assert!(!Indent::IconStep.guide_line());
    assert!(!Indent::HalfIcon.guide_line());
}
