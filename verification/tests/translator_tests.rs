use rmlalgebra::attrset::AttrSet;
use rmlalgebra::model::Document;
use rmlalgebra::model::GraphMap;
use rmlalgebra::model::JoinCondition;
use rmlalgebra::model::LogicalSource;
use rmlalgebra::model::ObjectMap;
use rmlalgebra::model::PredicateMap;
use rmlalgebra::model::PredicateObjectMap;
use rmlalgebra::model::SubjectMap;
use rmlalgebra::model::TermKind;
use rmlalgebra::model::TermMapInfo;
use rmlalgebra::model::TermMapType;
use rmlalgebra::model::TriplesMap;
use rmlalgebra::operators::DataFormat;
use rmlalgebra::operators::Function;
use rmlalgebra::operators::IOType;
use rmlalgebra::operators::Operator;
use rmlalgebra::plan::PlanError;
use rmlalgebra::strmap::StrMap;
use rmlalgebra::translate::partition_pom_join_nonjoin;
use rmlalgebra::translate::translate_extend_op;
use rmlalgebra::translate::translate_projection_op;
use rmlalgebra::translate::translate_source_op;
use rmlalgebra::translate::translate_to_algebra;

fn new_term_value(value: String) -> String {
    value
}

fn tm_info(id: &str, t: TermMapType, value: &str, kind: Option<TermKind>) -> TermMapInfo {
    TermMapInfo {
        identifier: id.to_string(),
        term_map_type: t,
        term_value: new_term_value(value.to_string()),
        term_type: kind,
    }
}

fn new_hash_set(v: Vec<&str>) -> AttrSet {
    let mut r = AttrSet::new();
    for s in v {
        r.insert(s.to_string());
    }
    r
}

fn logical_source() -> LogicalSource {
    LogicalSource {
        config: StrMap::new(),
        source_type: IOType::File,
        reference_iterators: Vec::new(),
        data_format: DataFormat::CSV,
    }
}

fn reference_om(id: &str, value: &str) -> ObjectMap {
    ObjectMap {
        tm_info: tm_info(id, TermMapType::Reference, value, Some(TermKind::Literal)),
        parent_tm: None,
        join_condition: None,
    }
}

fn constant_pm(id: &str, value: &str) -> PredicateMap {
    PredicateMap { tm_info: tm_info(id, TermMapType::Constant, value, Some(TermKind::Iri)) }
}

#[test]
fn test_get_attributes_term_map_info() {
    let identifier = "tm_1".to_string();
    let template_term_map_info = TermMapInfo {
        identifier,
        term_map_type: TermMapType::Template,
        term_value: new_term_value("{id}{firstname}{lastname}".to_string()),
        term_type: None,
    };

    let attributes = template_term_map_info.get_attributes();
    let check = new_hash_set(["id", "firstname", "lastname"].into());

    assert!(attributes.set_eq(&check));

    let reference_term_map_info = TermMapInfo {
        term_map_type: TermMapType::Reference,
        term_value: new_term_value("aReferenceValue".to_string()),
        ..template_term_map_info
    };

    let attributes = reference_term_map_info.get_attributes();
    let check = new_hash_set(["aReferenceValue"].into());
    assert!(attributes.set_eq(&check));
}

fn sample_triples_map() -> TriplesMap {
    TriplesMap {
        identifier: "http://example.com/base/#TM".to_string(),
        logical_source: logical_source(),
        subject_map: SubjectMap {
            tm_info: tm_info(
                "sm_0",
                TermMapType::Template,
                "http://airport.example.com/{id}",
                Some(TermKind::Iri),
            ),
        },
        graph_map: None,
        po_maps: vec![PredicateObjectMap {
            predicate_maps: vec![
                constant_pm("pm_0", "http://vocab.example.com/stop"),
                constant_pm("pm_1", "http://vocab.example.com/latitude"),
                constant_pm("pm_2", "http://vocab.example.com/longitude"),
            ],
            object_maps: vec![
                reference_om("om_0", "stop"),
                reference_om("om_1", "latitude"),
                reference_om("om_2", "longitude"),
            ],
        }],
    }
}

#[test]
fn test_projection_operator() {
    let triples_map_vec = vec![sample_triples_map()];
    assert_eq!(triples_map_vec.len(), 1);

    let triples_map = &triples_map_vec[0];
    let _source_op = translate_source_op(triples_map);
    let projection_ops = translate_projection_op(triples_map);

    let projection = match &projection_ops {
        Operator::ProjectOp { config: proj } => proj,
        _ => panic!("Parsed wrong! Operator should be projection"),
    };

    let check_attributes = new_hash_set(["stop", "id", "latitude", "longitude"].to_vec());

    assert!(projection.projection_attributes.set_eq(&check_attributes));
}

#[test]
fn test_extend_operator() {
    let triples_map_vec = vec![sample_triples_map()];
    assert_eq!(triples_map_vec.len(), 1);
    let triples_map = &triples_map_vec[0];
    let _source_op = translate_source_op(triples_map);
    let _projection_ops = translate_projection_op(triples_map);

    let (_join_sel, nonjoin_sel) = partition_pom_join_nonjoin(&triples_map.po_maps);
    let extend_op = translate_extend_op(
        &triples_map.subject_map,
        &triples_map.po_maps,
        &nonjoin_sel,
        "?tm1",
    )
    .unwrap();

    let extend = match &extend_op {
        Operator::ExtendOp { config } => config,
        _ => panic!("Operator should be an extend"),
    };
    assert!(extend.extend_pairs.contains_key(&"?tm1_sm".to_string()));
    assert!(extend.extend_pairs.contains_key(&"?tm1_p0-0".to_string()));
    assert!(extend.extend_pairs.contains_key(&"?tm1_o0-2".to_string()));
}

#[test]
fn test_operator_translation() {
    let document = Document { triples_maps: vec![sample_triples_map()] };
    let operators = translate_to_algebra(document);
    assert!(operators.is_ok());
}

fn two_tm_document() -> Document {
    // Parent unit A with a plain predicate-object map, child unit B whose
    // object map joins on B.pid = A.id.
    let a = TriplesMap {
        identifier: "A".to_string(),
        logical_source: logical_source(),
        subject_map: SubjectMap {
            tm_info: tm_info("a_sm", TermMapType::Template, "{id}", Some(TermKind::Iri)),
        },
        graph_map: None,
        po_maps: vec![PredicateObjectMap {
            predicate_maps: vec![constant_pm("a_pm", "ex:name")],
            object_maps: vec![reference_om("a_om", "name")],
        }],
    };
    let b = TriplesMap {
        identifier: "B".to_string(),
        logical_source: logical_source(),
        subject_map: SubjectMap {
            tm_info: tm_info("b_sm", TermMapType::Template, "{bid}", Some(TermKind::Iri)),
        },
        graph_map: None,
        po_maps: vec![PredicateObjectMap {
            predicate_maps: vec![constant_pm("b_pm", "ex:rel")],
            object_maps: vec![ObjectMap {
                tm_info: tm_info("b_om", TermMapType::Reference, "pid", Some(TermKind::Iri)),
                parent_tm: Some("A".to_string()),
                join_condition: Some(JoinCondition {
                    child_attributes: vec!["pid".to_string()],
                    parent_attributes: vec!["id".to_string()],
                }),
            }],
        }],
    };
    Document { triples_maps: vec![a, b] }
}

#[test]
fn test_operator_translation_complex() {
    let document = two_tm_document();
    let operators = translate_to_algebra(document);
    assert!(operators.is_ok());
}

#[test]
fn single_unit_plan_shape() {
    // One triples map, no joins, subject template "{id}", one
    // predicate-object map with a constant predicate and a reference object.
    let tm = TriplesMap {
        identifier: "TM".to_string(),
        logical_source: logical_source(),
        subject_map: SubjectMap {
            tm_info: tm_info("sm", TermMapType::Template, "{id}", Some(TermKind::Iri)),
        },
        graph_map: None,
        po_maps: vec![PredicateObjectMap {
            predicate_maps: vec![constant_pm("pm", "ex:name")],
            object_maps: vec![reference_om("om", "name")],
        }],
    };
    let g = translate_to_algebra(Document { triples_maps: vec![tm] }).unwrap();

    assert_eq!(g.node_count(), 5);
    assert_eq!(g.edge_count(), 4);
    assert_eq!(g.nodes[0].id, "Source_0");
    assert!(matches!(g.nodes[0].operator, Operator::SourceOp { .. }));

    let project = match &g.nodes[1].operator {
        Operator::ProjectOp { config } => config,
        _ => panic!("second node should be the projection"),
    };
    assert!(project.projection_attributes.set_eq(&new_hash_set(vec!["id", "name"])));

    let extend = match &g.nodes[2].operator {
        Operator::ExtendOp { config } => config,
        _ => panic!("third node should be the extend"),
    };
    let expected_subject = Function::Iri {
        inner_function: Box::new(Function::UriEncode {
            inner_function: Box::new(Function::Template { value: "{id}".to_string() }),
        }),
    };
    assert_eq!(extend.extend_pairs.get(&"tm_0_sm".to_string()), Some(&expected_subject));
    let expected_predicate = Function::Iri {
        inner_function: Box::new(Function::UriEncode {
            inner_function: Box::new(Function::Constant { value: "ex:name".to_string() }),
        }),
    };
    assert_eq!(extend.extend_pairs.get(&"tm_0_p0-0".to_string()), Some(&expected_predicate));
    let expected_object = Function::Literal {
        inner_function: Box::new(Function::Reference { value: "name".to_string() }),
    };
    assert_eq!(extend.extend_pairs.get(&"tm_0_o0-0".to_string()), Some(&expected_object));

    let serializer = match &g.nodes[3].operator {
        Operator::SerializerOp { config } => config,
        _ => panic!("fourth node should be the serializer"),
    };
    assert_eq!(serializer.template, " ?tm_0_sm ?tm_0_p0-0 ?tm_0_o0-0.\n");
    assert_eq!(serializer.format, DataFormat::NT);

    let target = match &g.nodes[4].operator {
        Operator::TargetOp { config } => config,
        _ => panic!("fifth node should be the sink"),
    };
    assert_eq!(target.configuration.get(&"path".to_string()), Some(&"0_output.nt".to_string()));
    assert_eq!(target.data_format, DataFormat::NT);

    // The chain is connected in order.
    assert_eq!((g.edges[0].from, g.edges[0].to), (0, 1));
    assert_eq!((g.edges[1].from, g.edges[1].to), (1, 2));
    assert_eq!((g.edges[2].from, g.edges[2].to), (2, 3));
    assert_eq!((g.edges[3].from, g.edges[3].to), (3, 4));
}

#[test]
fn join_plan_shape() {
    // Two triples maps where B's object map joins on B.pid = A.id: B's plan
    // joins against A's fragment under the alias join_0, and the synthetic
    // extend attribute binds the prefixed parent subject function.
    let g = translate_to_algebra(two_tm_document()).unwrap();

    // Pass one: A(source 0, project 1), B(source 2, project 3); then A's
    // non-join chain (4..=6) and B's join fragment (7..=10).
    assert_eq!(g.node_count(), 11);
    let join = match &g.nodes[7].operator {
        Operator::JoinOp { config } => config,
        _ => panic!("eighth node should be the join"),
    };
    assert_eq!(join.join_alias, "join_0");
    assert_eq!(join.child_attributes, vec!["pid".to_string()]);
    assert_eq!(join.parent_attributes, vec!["id".to_string()]);

    // Exactly two incoming edges: B's projection and A's projection.
    let incoming: Vec<usize> =
        g.edges.iter().filter(|e| e.to == 7).map(|e| e.from).collect();
    assert_eq!(incoming, vec![3, 1]);

    let extend = match &g.nodes[8].operator {
        Operator::ExtendOp { config } => config,
        _ => panic!("ninth node should be the extend"),
    };
    let expected_parent_subject = Function::Iri {
        inner_function: Box::new(Function::UriEncode {
            inner_function: Box::new(Function::Template { value: "{join_0_id}".to_string() }),
        }),
    };
    assert_eq!(
        extend.extend_pairs.get(&"tm_1_o0-0".to_string()),
        Some(&expected_parent_subject)
    );

    let target = match &g.nodes[10].operator {
        Operator::TargetOp { config } => config,
        _ => panic!("eleventh node should be the sink"),
    };
    assert_eq!(target.configuration.get(&"path".to_string()), Some(&"1_output.nt".to_string()));
}

#[test]
fn translation_is_deterministic() {
    // Translating the same document twice yields structurally equal graphs.
    let g1 = translate_to_algebra(two_tm_document()).unwrap();
    let g2 = translate_to_algebra(two_tm_document()).unwrap();
    assert!(g1.nodes == g2.nodes);
    assert!(g1.edges == g2.edges);
    assert!(g1.sources == g2.sources);
}

#[test]
fn missing_join_condition_is_malformed() {
    // An object map with a parent reference but no join condition fails the
    // whole translation with MalformedJoin.
    let mut document = two_tm_document();
    document.triples_maps[1].po_maps[0].object_maps[0].join_condition = None;
    assert_eq!(translate_to_algebra(document).err(), Some(PlanError::MalformedJoin));
}

#[test]
fn unknown_parent_is_missing() {
    let mut document = two_tm_document();
    document.triples_maps[1].po_maps[0].object_maps[0].parent_tm =
        Some("nowhere".to_string());
    assert_eq!(translate_to_algebra(document).err(), Some(PlanError::MissingParent));
}

#[test]
fn absent_term_type_is_unrecognized() {
    let mut document = Document { triples_maps: vec![sample_triples_map()] };
    document.triples_maps[0].subject_map.tm_info.term_type = None;
    assert_eq!(translate_to_algebra(document).err(), Some(PlanError::UnrecognizedTermKind));
}

#[test]
fn variable_term_type_is_unrecognized() {
    let mut document = Document { triples_maps: vec![sample_triples_map()] };
    document.triples_maps[0].po_maps[0].object_maps[0].tm_info.term_type =
        Some(TermKind::Variable);
    assert_eq!(translate_to_algebra(document).err(), Some(PlanError::UnrecognizedTermKind));
}

#[test]
fn partition_splits_mixed_maps() {
    let plain = PredicateObjectMap {
        predicate_maps: vec![constant_pm("p0", "ex:a")],
        object_maps: vec![reference_om("o0", "x"), reference_om("o1", "y")],
    };
    let mixed = PredicateObjectMap {
        predicate_maps: vec![constant_pm("p1", "ex:b")],
        object_maps: vec![
            ObjectMap {
                tm_info: tm_info("o2", TermMapType::Reference, "pid", Some(TermKind::Iri)),
                parent_tm: Some("A".to_string()),
                join_condition: Some(JoinCondition {
                    child_attributes: vec!["pid".to_string()],
                    parent_attributes: vec!["id".to_string()],
                }),
            },
            reference_om("o3", "z"),
        ],
    };
    let poms = vec![plain, mixed];
    let (join_sel, nonjoin_sel) = partition_pom_join_nonjoin(&poms);
    assert_eq!(join_sel, vec![(1, vec![0])]);
    assert_eq!(nonjoin_sel, vec![(0, vec![0, 1]), (1, vec![1])]);
}

#[test]
fn projection_keeps_graph_map_and_join_child_attributes() {
    let mut tm = two_tm_document().triples_maps.remove(1);
    tm.graph_map = Some(GraphMap {
        tm_info: tm_info("gm", TermMapType::Reference, "graph", Some(TermKind::Iri)),
    });
    let projection = match translate_projection_op(&tm) {
        Operator::ProjectOp { config } => config,
        _ => panic!("should be a projection"),
    };
    // The join-bearing object map contributes its child attribute, not its
    // own term-map attribute.
    assert!(projection.projection_attributes.set_eq(&new_hash_set(vec![
        "bid", "graph", "pid",
    ])));
}

#[test]
fn prefixing_renames_attributes() {
    let template = tm_info("t", TermMapType::Template, "{id}-{name}", Some(TermKind::Iri));
    let prefixed = template.prefix_attributes("join_0");
    assert_eq!(prefixed.term_value, "{join_0_id}-{join_0_name}");

    let reference = tm_info("r", TermMapType::Reference, "id", Some(TermKind::Iri));
    let prefixed = reference.prefix_attributes("join_0");
    assert_eq!(prefixed.term_value, "join_0_id");

    let constant = tm_info("c", TermMapType::Constant, "ex:thing", Some(TermKind::Iri));
    let prefixed = constant.prefix_attributes("join_0");
    assert_eq!(prefixed.term_value, "ex:thing");
}

#[test]
fn two_units_without_joins_are_independent_chains() {
    // Two triples maps and zero joins: two independent five-node chains and
    // no cross-chain edges.
    let mut first = sample_triples_map();
    first.identifier = "first".to_string();
    let mut second = sample_triples_map();
    second.identifier = "second".to_string();
    let g = translate_to_algebra(Document { triples_maps: vec![first, second] }).unwrap();

    assert_eq!(g.node_count(), 10);
    assert_eq!(g.edge_count(), 8);
    // Chains: unit 0 owns nodes {0, 1, 4, 5, 6}, unit 1 owns {2, 3, 7, 8, 9}.
    let chain = |i: usize| if i < 4 { i / 2 } else { (i - 4) / 3 };
    for edge in &g.edges {
        assert_eq!(chain(edge.from), chain(edge.to));
    }
}

#[test]
fn serializer_template_is_the_cartesian_product() {
    let tm = TriplesMap {
        identifier: "TM".to_string(),
        logical_source: logical_source(),
        subject_map: SubjectMap {
            tm_info: tm_info("sm", TermMapType::Template, "{id}", Some(TermKind::Iri)),
        },
        graph_map: None,
        po_maps: vec![PredicateObjectMap {
            predicate_maps: vec![constant_pm("p0", "ex:a"), constant_pm("p1", "ex:b")],
            object_maps: vec![reference_om("o0", "x"), reference_om("o1", "y")],
        }],
    };
    let (_join_sel, nonjoin_sel) = partition_pom_join_nonjoin(&tm.po_maps);
    let template = rmlalgebra::translate::extract_serializer_template(
        &tm.po_maps,
        &nonjoin_sel,
        "tm_0",
    );
    assert_eq!(
        template,
        " ?tm_0_sm ?tm_0_p0-0 ?tm_0_o0-0.\n ?tm_0_sm ?tm_0_p0-0 ?tm_0_o0-1.\n \
         ?tm_0_sm ?tm_0_p0-1 ?tm_0_o0-0.\n ?tm_0_sm ?tm_0_p0-1 ?tm_0_o0-1.\n"
    );
}
