use rmlalgebra::model::ObjectMap;
use rmlalgebra::model::PredicateMap;
use rmlalgebra::model::TermKind;
use rmlalgebra::model::TermMapInfo;
use rmlalgebra::model::TermMapType;
use rmlalgebra::names::join_alias_string;
use rmlalgebra::names::om_attr_string;
use rmlalgebra::names::pm_attr_string;
use rmlalgebra::names::sink_path_string;
use rmlalgebra::names::sm_attr_string;
use rmlalgebra::names::tm_prefix_string;
use rmlalgebra::rename::ExpressionStmt;
use rmlalgebra::rename::ExpressionStmtEnum;
use rmlalgebra::rename::FieldType;
use rmlalgebra::rename::ShexmlField;
use rmlalgebra::rename::ShexmlIterator;
use rmlalgebra::rename::ShexmlReference;
use rmlalgebra::rename::translate_rename_pairs_map;
use rmlalgebra::serializer_util::ClassedSubjectMap;
use rmlalgebra::serializer_util::QuadPom;
use rmlalgebra::serializer_util::Quads;
use rmlalgebra::serializer_util::Triples;
use rmlalgebra::serializer_util::unterminated_triple_strings;
use rmlalgebra::strmap::StrMap;

fn tm_info(id: &str) -> TermMapInfo {
    TermMapInfo {
        identifier: id.to_string(),
        term_map_type: TermMapType::Reference,
        term_value: "v".to_string(),
        term_type: Some(TermKind::Literal),
    }
}

#[test]
fn names_follow_the_positional_scheme() {
    assert_eq!(tm_prefix_string(0), "tm_0");
    assert_eq!(tm_prefix_string(12), "tm_12");
    assert_eq!(sm_attr_string("tm_0"), "tm_0_sm");
    assert_eq!(pm_attr_string("tm_0", 0, 3), "tm_0_p0-3");
    assert_eq!(om_attr_string("tm_7", 10, 2), "tm_7_o10-2");
    assert_eq!(join_alias_string(0), "join_0");
    assert_eq!(join_alias_string(205), "join_205");
    assert_eq!(sink_path_string(0), "0_output.nt");
    assert_eq!(sink_path_string(31), "31_output.nt");
}

#[test]
fn strmap_keeps_the_last_binding() {
    let mut m = StrMap::new();
    m.insert("k".to_string(), "one".to_string());
    m.insert("other".to_string(), "x".to_string());
    m.insert("k".to_string(), "two".to_string());
    assert_eq!(m.get(&"k".to_string()), Some(&"two".to_string()));
    assert_eq!(m.get(&"other".to_string()), Some(&"x".to_string()));
    assert_eq!(m.get(&"absent".to_string()), None);
}

#[test]
fn unterminated_triples_reference_bound_variables() {
    let quad = Quads {
        triples: Triples {
            sm: ClassedSubjectMap {
                tm_info: tm_info("sm1"),
                classes: vec!["foaf:Person".to_string()],
            },
            poms: vec![QuadPom {
                pm: vec![
                    PredicateMap { tm_info: tm_info("pm1") },
                    PredicateMap { tm_info: tm_info("pm2") },
                ],
                om: vec![ObjectMap {
                    tm_info: tm_info("om1"),
                    parent_tm: None,
                    join_condition: None,
                }],
            }],
        },
    };
    let mut variable_map = StrMap::new();
    variable_map.insert("sm1".to_string(), "?x".to_string());
    variable_map.insert("pm1".to_string(), "?p1".to_string());
    variable_map.insert("pm2".to_string(), "?p2".to_string());
    variable_map.insert("om1".to_string(), "?o".to_string());

    let lines = unterminated_triple_strings(&quad, &variable_map);
    assert_eq!(
        lines,
        vec![
            "?x a foaf:Person".to_string(),
            "?x ?p1 ?o".to_string(),
            "?x ?p2 ?o".to_string(),
        ]
    );
}

#[test]
fn rename_pairs_for_explicit_field() {
    let stmt = ExpressionStmt {
        ident: "expr".to_string(),
        expr_enum: ExpressionStmtEnum::Basic {
            reference: ShexmlReference {
                iterator_ident: "it".to_string(),
                field: Some("name".to_string()),
            },
        },
    };
    let pairs = translate_rename_pairs_map(&Vec::new(), &stmt);
    assert_eq!(pairs.get(&"it.name".to_string()), Some(&"expr.name".to_string()));
    assert_eq!(pairs.items.len(), 1);
}

#[test]
fn rename_pairs_for_bare_reference_take_normal_fields() {
    let iterator = ShexmlIterator {
        ident: "it".to_string(),
        fields: vec![
            ShexmlField { ident: "a".to_string(), field_type: FieldType::Normal },
            ShexmlField { ident: "b".to_string(), field_type: FieldType::Push },
            ShexmlField { ident: "c".to_string(), field_type: FieldType::Normal },
        ],
    };
    let iterators = vec![("it".to_string(), iterator)];
    let stmt = ExpressionStmt {
        ident: "expr".to_string(),
        expr_enum: ExpressionStmtEnum::Basic {
            reference: ShexmlReference { iterator_ident: "it".to_string(), field: None },
        },
    };
    let pairs = translate_rename_pairs_map(&iterators, &stmt);
    assert_eq!(pairs.get(&"it.a".to_string()), Some(&"expr.a".to_string()));
    assert_eq!(pairs.get(&"it.b".to_string()), None);
    assert_eq!(pairs.get(&"it.c".to_string()), Some(&"expr.c".to_string()));
}

#[test]
fn rename_pairs_for_non_basic_expression_are_empty() {
    let stmt = ExpressionStmt {
        ident: "expr".to_string(),
        expr_enum: ExpressionStmtEnum::Union,
    };
    let pairs = translate_rename_pairs_map(&Vec::new(), &stmt);
    assert_eq!(pairs.items.len(), 0);
}

#[test]
fn template_attributes_are_the_placeholders() {
    // A template with placeholders {a}{b} reads exactly {a, b}.
    let info = TermMapInfo {
        identifier: "t".to_string(),
        term_map_type: TermMapType::Template,
        term_value: "{a}{b}".to_string(),
        term_type: None,
    };
    let attrs = info.get_attributes();
    assert!(attrs.contains(&"a".to_string()));
    assert!(attrs.contains(&"b".to_string()));
    assert!(!attrs.contains(&"ab".to_string()));
    assert_eq!(attrs.items.len(), 2);

    let constant = TermMapInfo {
        identifier: "c".to_string(),
        term_map_type: TermMapType::Constant,
        term_value: "whatever".to_string(),
        term_type: None,
    };
    assert_eq!(constant.get_attributes().items.len(), 0);
}
